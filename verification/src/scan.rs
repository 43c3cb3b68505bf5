//! Cutting text into lines and fields.

use vstd::prelude::*;


verus! {

/// How many characters of `s` stand before the first `sep`; all of them
/// where `sep` does not occur.
pub open spec fn run_before(s: Seq<char>, sep: char) -> nat
    decreases s.len(),
{
    if s.len() == 0 || s[0] == sep {
        0
    } else {
        1 + run_before(s.skip(1), sep)
    }
}

/// The pieces of `s` between the occurrences of `sep`: one more than there
/// are occurrences.
pub open spec fn split_on(s: Seq<char>, sep: char) -> Seq<Seq<char>>
    decreases s.len(),
{
    let end = run_before(s, sep) as int;
    if end < s.len() {
        seq![s.take(end)] + split_on(s.skip(end + 1), sep)
    } else {
        seq![s]
    }
}

/// `s` without a carriage return at its end, if it has one.
pub open spec fn without_return(s: Seq<char>) -> Seq<char> {
    if s.len() > 0 && s.last() == '\r' {
        s.drop_last()
    } else {
        s
    }
}

/// The lines of `s`: what stands between line feeds, each without a carriage
/// return just before its line feed. A last line needs no line feed, and a
/// text that ends in a line feed has no empty last line.
pub open spec fn lines_of(s: Seq<char>) -> Seq<Seq<char>>
    decreases s.len(),
{
    if s.len() == 0 {
        Seq::empty()
    } else {
        let end = run_before(s, '\n') as int;
        if end < s.len() {
            seq![without_return(s.take(end))] + lines_of(s.skip(end + 1))
        } else {
            seq![s]
        }
    }
}

pub(crate) proof fn lemma_run_before(s: Seq<char>, sep: char, n: int)
    requires
        0 <= n <= s.len(),
        forall|j: int| 0 <= j < n ==> s[j] != sep,
        n < s.len() ==> s[n] == sep,
    ensures
        run_before(s, sep) == n,
    decreases n,
{
    if n > 0 {
        assert forall|j: int| 0 <= j < n - 1 implies s.skip(1)[j] != sep by {
            assert(s.skip(1)[j] == s[j + 1]);
        }
        lemma_run_before(s.skip(1), sep, n - 1);
    }
}

/// `bounds` cut `s[from..to]` into `pieces`: the piece number `k` is `s[bounds[k].0..bounds[k].1]`.
pub open spec fn cuts(s: Seq<char>, bounds: Seq<(usize, usize)>, pieces: Seq<Seq<char>>) -> bool {
    &&& bounds.len() == pieces.len()
    &&& forall|k: int|
        0 <= k < bounds.len() ==> {
            &&& (#[trigger] bounds[k]).0 <= bounds[k].1 <= s.len()
            &&& s.subrange(bounds[k].0 as int, bounds[k].1 as int) == pieces[k]
        }
}

/// The place of the first `sep` in `chars[from..to]`, or `to` where there is none.
pub(crate) fn scan_to(chars: &Vec<char>, from: usize, to: usize, sep: char) -> (end: usize)
    requires
        from <= to <= chars.len(),
    ensures
        from <= end <= to,
        end - from == run_before(chars@.subrange(from as int, to as int), sep),
{
    let mut end: usize = from;
    while end < to && chars[end] != sep
        invariant
            from <= end <= to <= chars.len(),
            forall|j: int| from <= j < end ==> chars@[j] != sep,
        decreases to - end,
    {
        end += 1;
    }
    proof {
        let s = chars@.subrange(from as int, to as int);
        assert forall|j: int| 0 <= j < end - from implies s[j] != sep by {
            assert(s[j] == chars@[from + j]);
        }
        lemma_run_before(s, sep, end - from);
    }
    end
}

/// Where the pieces of `chars[from..to]` between the occurrences of `sep` begin and end.
pub(crate) fn split_bounds(chars: &Vec<char>, from: usize, to: usize, sep: char) -> (bounds: Vec<
    (usize, usize),
>)
    requires
        from <= to <= chars.len(),
    ensures
        cuts(chars@, bounds@, split_on(chars@.subrange(from as int, to as int), sep)),
        forall|k: int| 0 <= k < bounds.len() ==> from <= (#[trigger] bounds[k]).0 && bounds[k].1 <= to,
{
    let ghost whole = chars@.subrange(from as int, to as int);
    let mut bounds: Vec<(usize, usize)> = Vec::new();
    let ghost mut pieces: Seq<Seq<char>> = Seq::empty();
    let mut start: usize = from;
    assert(chars@.subrange(start as int, to as int) =~= whole);
    loop
        invariant_except_break
            from <= start <= to <= chars.len(),
            cuts(chars@, bounds@, pieces),
            forall|k: int| 0 <= k < bounds.len() ==> from <= (#[trigger] bounds[k]).0 && bounds[k].1 <= to,
            split_on(whole, sep) == pieces + split_on(chars@.subrange(start as int, to as int), sep),
            whole == chars@.subrange(from as int, to as int),
        ensures
            from <= to <= chars.len(),
            cuts(chars@, bounds@, split_on(whole, sep)),
            forall|k: int| 0 <= k < bounds.len() ==> from <= (#[trigger] bounds[k]).0 && bounds[k].1 <= to,
        decreases to - start,
    {
        let end = scan_to(chars, start, to, sep);
        let ghost rest = chars@.subrange(start as int, to as int);
        let ghost piece = chars@.subrange(start as int, end as int);
        proof {
            assert(rest.take(end - start) =~= piece);
        }
        bounds.push((start, end));
        proof {
            pieces = pieces.push(piece);
        }
        if end < to {
            proof {
                assert(rest.skip(end - start + 1) =~= chars@.subrange(end + 1, to as int));
                assert(pieces.drop_last() + (seq![piece] + split_on(
                    chars@.subrange(end + 1, to as int),
                    sep,
                )) =~= pieces + split_on(chars@.subrange(end + 1, to as int), sep));
            }
            start = end + 1;
        } else {
            proof {
                assert(rest.take(end - start) =~= rest);
                assert(pieces.drop_last() + seq![rest] =~= pieces);
            }
            break;
        }
    }
    bounds
}

/// Where the lines of `chars` begin and end.
pub fn line_bounds(chars: &Vec<char>) -> (bounds: Vec<(usize, usize)>)
    ensures
        cuts(chars@, bounds@, lines_of(chars@)),
{
    let mut bounds: Vec<(usize, usize)> = Vec::new();
    let ghost mut pieces: Seq<Seq<char>> = Seq::empty();
    let mut start: usize = 0;
    assert(chars@.skip(0) =~= chars@);
    while start < chars.len()
        invariant
            start <= chars.len(),
            cuts(chars@, bounds@, pieces),
            lines_of(chars@) == pieces + lines_of(chars@.skip(start as int)),
        decreases chars.len() - start,
    {
        let end = scan_to(chars, start, chars.len(), '\n');
        let ghost rest = chars@.skip(start as int);
        proof {
            assert(rest =~= chars@.subrange(start as int, chars.len() as int));
        }
        if end < chars.len() {
            let stop = if end > start && chars[end - 1] == '\r' {
                end - 1
            } else {
                end
            };
            let ghost piece = chars@.subrange(start as int, stop as int);
            proof {
                assert(rest.take(end - start) =~= chars@.subrange(start as int, end as int));
                assert(without_return(chars@.subrange(start as int, end as int)) =~= piece);
                assert(rest.skip(end - start + 1) =~= chars@.skip(end + 1));
                assert(pieces + (seq![piece] + lines_of(chars@.skip(end + 1))) =~= pieces.push(piece)
                    + lines_of(chars@.skip(end + 1)));
            }
            bounds.push((start, stop));
            proof {
                pieces = pieces.push(piece);
            }
            start = end + 1;
        } else {
            let ghost piece = chars@.subrange(start as int, end as int);
            proof {
                assert(piece =~= rest);
                assert(chars@.skip(end as int).len() == 0);
                assert(pieces + seq![rest] =~= pieces.push(piece) + lines_of(chars@.skip(end as int)));
            }
            bounds.push((start, end));
            proof {
                pieces = pieces.push(piece);
            }
            start = end;
        }
    }
    proof {
        assert(pieces + lines_of(chars@.skip(start as int)) =~= pieces);
    }
    bounds
}

/// Whether `c` is a double or a single quotation mark.
pub open spec fn is_quote(c: char) -> bool {
    c == '"' || c == '\''
}

/// How many characters at the start of `s` are quotation marks.
pub open spec fn leading_quotes(s: Seq<char>) -> nat
    decreases s.len(),
{
    if s.len() > 0 && is_quote(s[0]) {
        1 + leading_quotes(s.skip(1))
    } else {
        0
    }
}

/// How many characters at the end of `s` are quotation marks.
pub open spec fn trailing_quotes(s: Seq<char>) -> nat
    decreases s.len(),
{
    if s.len() > 0 && is_quote(s.last()) {
        1 + trailing_quotes(s.drop_last())
    } else {
        0
    }
}

/// `s` without the quotation marks at its start and at its end.
pub open spec fn unquoted(s: Seq<char>) -> Seq<char> {
    let a = leading_quotes(s) as int;
    if a == s.len() {
        Seq::empty()
    } else {
        s.subrange(a, s.len() - trailing_quotes(s))
    }
}

proof fn lemma_leading_quotes(s: Seq<char>, n: int)
    requires
        0 <= n <= s.len(),
        forall|j: int| 0 <= j < n ==> is_quote(s[j]),
        n < s.len() ==> !is_quote(s[n]),
    ensures
        leading_quotes(s) == n,
    decreases n,
{
    if n > 0 {
        assert forall|j: int| 0 <= j < n - 1 implies is_quote(s.skip(1)[j]) by {
            assert(s.skip(1)[j] == s[j + 1]);
        }
        lemma_leading_quotes(s.skip(1), n - 1);
    }
}

proof fn lemma_trailing_quotes(s: Seq<char>, n: int)
    requires
        0 <= n <= s.len(),
        forall|j: int| s.len() - n <= j < s.len() ==> is_quote(s[j]),
        n < s.len() ==> !is_quote(s[s.len() - n - 1]),
    ensures
        trailing_quotes(s) == n,
    decreases n,
{
    if n > 0 {
        lemma_trailing_quotes(s.drop_last(), n - 1);
    }
}

/// The bounds of `chars[from..to]` without the quotation marks at its start and at its end.
pub(crate) fn unquote_bounds(chars: &Vec<char>, from: usize, to: usize) -> (r: (usize, usize))
    requires
        from <= to <= chars.len(),
    ensures
        from <= r.0 <= r.1 <= to,
        chars@.subrange(r.0 as int, r.1 as int) == unquoted(chars@.subrange(from as int, to as int)),
{
    let ghost s = chars@.subrange(from as int, to as int);
    let mut a: usize = from;
    while a < to && (chars[a] == '"' || chars[a] == '\'')
        invariant
            from <= a <= to <= chars.len(),
            forall|j: int| from <= j < a ==> is_quote(chars@[j]),
        decreases to - a,
    {
        a += 1;
    }
    proof {
        assert forall|j: int| 0 <= j < a - from implies is_quote(s[j]) by {
            assert(s[j] == chars@[from + j]);
        }
        lemma_leading_quotes(s, a - from);
    }
    if a == to {
        assert(chars@.subrange(a as int, a as int) =~= Seq::<char>::empty());
        return (a, a);
    }
    let mut b: usize = to;
    while b > a && (chars[b - 1] == '"' || chars[b - 1] == '\'')
        invariant
            a <= b <= to <= chars.len(),
            forall|j: int| b <= j < to ==> is_quote(chars@[j]),
        decreases b,
    {
        b -= 1;
    }
    proof {
        assert(!is_quote(chars@[a as int]));
        assert(b > a);
        assert forall|j: int| s.len() - (to - b) <= j < s.len() implies is_quote(s[j]) by {
            assert(s[j] == chars@[from + j]);
        }
        assert(s[s.len() - (to - b) - 1] == chars@[b - 1]);
        lemma_trailing_quotes(s, to - b);
        assert(chars@.subrange(a as int, b as int) =~= s.subrange(a - from, s.len() - (to - b)));
    }
    (a, b)
}

/// `lines` with a line feed between each two.
pub open spec fn joined(lines: Seq<Seq<char>>) -> Seq<char>
    decreases lines.len(),
{
    if lines.len() == 0 {
        Seq::empty()
    } else if lines.len() == 1 {
        lines[0]
    } else {
        joined(lines.drop_last()) + seq!['\n'] + lines.last()
    }
}

/// `s` begins with `prefix`.
pub open spec fn starts_with(s: Seq<char>, prefix: Seq<char>) -> bool {
    prefix.len() <= s.len() && s.take(prefix.len() as int) == prefix
}

/// Whether `chars[from..to]` is the text `word`.
pub(crate) fn piece_is(chars: &Vec<char>, from: usize, to: usize, word: &str) -> (r: bool)
    requires
        from <= to <= chars.len(),
    ensures
        r == (chars@.subrange(from as int, to as int) == word@),
{
    let w = crate::text::chars_of(word);
    if w.len() != to - from {
        return false;
    }
    crate::text::matches_at(chars, &w, from)
}

/// Whether `chars[from..to]` begins with the text `prefix`.
pub(crate) fn piece_starts_with(chars: &Vec<char>, from: usize, to: usize, prefix: &str) -> (r: bool)
    requires
        from <= to <= chars.len(),
    ensures
        r == starts_with(chars@.subrange(from as int, to as int), prefix@),
{
    let w = crate::text::chars_of(prefix);
    if w.len() > to - from {
        return false;
    }
    proof {
        assert(chars@.subrange(from as int, to as int).take(w.len() as int) =~= chars@.subrange(
            from as int,
            from + w.len(),
        ));
    }
    crate::text::matches_at(chars, &w, from)
}

} // verus!
