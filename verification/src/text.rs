//! Text helpers shared by the rest of the library.

use vstd::prelude::*;

verus! {

/// `str`'s equality holds exactly of slices with the same characters.
pub assume_specification[ <str as PartialEq>::eq ](a: &str, b: &str) -> (r: bool)
    ensures
        r == (a@ == b@),
;

/// Whether two pieces of text hold the same characters.
pub fn same_text(a: &str, b: &str) -> (r: bool)
    ensures
        r == (a@ == b@),
{
    a.eq(b)
}

/// Puts `c` at the end of `s`.
pub assume_specification[ String::push ](s: &mut String, c: char)
    ensures
        final(s)@ == old(s)@.push(c),
;

/// The characters of `s`, in order.
pub fn chars_of(s: &str) -> (v: Vec<char>)
    ensures
        v@ == s@,
{
    let mut v: Vec<char> = Vec::new();
    for c in it: s.chars()
        invariant
            v@ == it.seq().take(it.index() as int),
            it.seq() == s@,
    {
        v.push(c);
    }
    v
}

/// The text made of the characters `chars[from..to]`.
pub(crate) fn text_of(chars: &Vec<char>, from: usize, to: usize) -> (s: String)
    requires
        from <= to <= chars.len(),
    ensures
        s@ == chars@.subrange(from as int, to as int),
{
    let mut s = String::new();
    let mut i: usize = from;
    while i < to
        invariant
            from <= i <= to <= chars.len(),
            s@ == chars@.subrange(from as int, i as int),
        decreases to - i,
    {
        s.push(chars[i]);
        assert(chars@.subrange(from as int, i + 1) =~= chars@.subrange(from as int, i as int).push(
            chars@[i as int],
        ));
        i += 1;
    }
    s
}

/// `a` followed by `b`.
pub fn concat2(a: &str, b: &str) -> (s: String)
    ensures
        s@ == a@ + b@,
{
    let mut s = String::from_str(a);
    s.append(b);
    s
}

/// `a`, `b` and `c` one after the other.
pub fn concat3(a: &str, b: &str, c: &str) -> (s: String)
    ensures
        s@ == a@ + b@ + c@,
{
    let mut s = String::from_str(a);
    s.append(b);
    s.append(c);
    s
}

/// The digit that stands for `d` in base ten.
pub open spec fn digit_char(d: int) -> char {
    if d == 0 {
        '0'
    } else if d == 1 {
        '1'
    } else if d == 2 {
        '2'
    } else if d == 3 {
        '3'
    } else if d == 4 {
        '4'
    } else if d == 5 {
        '5'
    } else if d == 6 {
        '6'
    } else if d == 7 {
        '7'
    } else if d == 8 {
        '8'
    } else {
        '9'
    }
}

/// `n` written in base ten, without leading zeros; zero is written "0".
pub open spec fn decimal(n: nat) -> Seq<char>
    decreases n,
{
    if n < 10 {
        seq![digit_char(n as int)]
    } else {
        decimal(n / 10).push(digit_char((n % 10) as int))
    }
}

fn digit(d: u8) -> (c: char)
    requires
        d < 10,
    ensures
        c == digit_char(d as int),
{
    match d {
        0 => '0',
        1 => '1',
        2 => '2',
        3 => '3',
        4 => '4',
        5 => '5',
        6 => '6',
        7 => '7',
        8 => '8',
        _ => '9',
    }
}

/// The digits of `n` in base ten.
pub fn decimal_digits(n: u128) -> (v: Vec<char>)
    ensures
        v@ == decimal(n as nat),
        v@.len() >= 1,
{
    let mut rev: Vec<char> = Vec::new();
    let mut rest: u128 = n;
    while rest >= 10
        invariant
            decimal(n as nat) == decimal(rest as nat) + rev@.reverse(),
        decreases rest,
    {
        let d = (rest % 10) as u8;
        let c = digit(d);
        proof {
            let next = (rest / 10) as nat;
            assert(decimal(rest as nat) == decimal(next).push(c));
            assert(rev@.push(c).reverse() =~= seq![c] + rev@.reverse());
            assert(decimal(next).push(c) + rev@.reverse() =~= decimal(next) + (seq![c]
                + rev@.reverse()));
        }
        rev.push(c);
        rest = rest / 10;
    }
    let first = digit(rest as u8);
    let mut v: Vec<char> = Vec::new();
    v.push(first);
    let mut i: usize = rev.len();
    while i > 0
        invariant
            i <= rev.len(),
            v@ == seq![first] + rev@.reverse().take(rev.len() - i),
        decreases i,
    {
        i -= 1;
        v.push(rev[i]);
        assert(rev@.reverse().take(rev.len() - i) =~= rev@.reverse().take(rev.len() - i - 1).push(
            rev@[i as int],
        ));
    }
    assert(rev@.reverse().take(rev.len() as int) =~= rev@.reverse());
    v
}

/// `n` written in base ten.
pub fn decimal_text(n: u128) -> (s: String)
    ensures
        s@ == decimal(n as nat),
{
    let digits = decimal_digits(n);
    let s = text_of(&digits, 0, digits.len());
    assert(digits@.subrange(0, digits.len() as int) =~= digits@);
    s
}

/// The lower-case digit that stands for `d` in base sixteen.
pub open spec fn hex_digit_char(d: int) -> char {
    if d < 10 {
        digit_char(d)
    } else if d == 10 {
        'a'
    } else if d == 11 {
        'b'
    } else if d == 12 {
        'c'
    } else if d == 13 {
        'd'
    } else if d == 14 {
        'e'
    } else {
        'f'
    }
}

/// `n` written as four lower-case digits in base sixteen.
pub open spec fn hex4(n: nat) -> Seq<char> {
    seq![
        hex_digit_char((n / 4096 % 16) as int),
        hex_digit_char((n / 256 % 16) as int),
        hex_digit_char((n / 16 % 16) as int),
        hex_digit_char((n % 16) as int),
    ]
}

fn hex_digit(d: u16) -> (c: char)
    requires
        d < 16,
    ensures
        c == hex_digit_char(d as int),
{
    match d {
        10 => 'a',
        11 => 'b',
        12 => 'c',
        13 => 'd',
        14 => 'e',
        15 => 'f',
        _ => digit(d as u8),
    }
}

/// `n` written as four lower-case digits in base sixteen.
pub fn hex4_text(n: u16) -> (s: String)
    ensures
        s@ == hex4(n as nat),
{
    let mut s = String::new();
    s.push(hex_digit(n / 4096 % 16));
    s.push(hex_digit(n / 256 % 16));
    s.push(hex_digit(n / 16 % 16));
    s.push(hex_digit(n % 16));
    assert(s@ =~= hex4(n as nat));
    s
}

/// The last four characters of `s`; all of `s` where it has fewer.
pub open spec fn last_four(s: Seq<char>) -> Seq<char> {
    if s.len() <= 4 {
        s
    } else {
        s.subrange(s.len() - 4, s.len() as int)
    }
}

/// The last four digits of `n` written in base ten.
pub fn last_four_digits(n: u64) -> (s: String)
    ensures
        s@ == last_four(decimal(n as nat)),
{
    let digits = decimal_digits(n as u128);
    let from = if digits.len() <= 4 {
        0
    } else {
        digits.len() - 4
    };
    let s = text_of(&digits, from, digits.len());
    assert(digits@.subrange(0, digits.len() as int) =~= digits@);
    s
}

/// Whether `c` counts as white space: the characters with the Unicode
/// property White_Space. These are the tab, the line feed, the vertical tab,
/// the form feed, the carriage return, the blank, the next-line mark, the
/// no-break blank, the Ogham blank, the blanks of fixed width from the en quad
/// to the hair blank, the line and the paragraph separator, the narrow
/// no-break blank, the medium mathematical blank and the ideographic blank.
pub open spec fn is_white_space(c: char) -> bool {
    ||| '\u{0009}' <= c <= '\u{000D}'
    ||| c == '\u{0020}'
    ||| c == '\u{0085}'
    ||| c == '\u{00A0}'
    ||| c == '\u{1680}'
    ||| '\u{2000}' <= c <= '\u{200A}'
    ||| c == '\u{2028}'
    ||| c == '\u{2029}'
    ||| c == '\u{202F}'
    ||| c == '\u{205F}'
    ||| c == '\u{3000}'
}

/// `s` with every character turned into its lower-case form.
pub uninterp spec fn lowercase_of(s: Seq<char>) -> Seq<char>;

/// Calls `char::is_whitespace`, which tells whether a character has the
/// Unicode property White_Space. The contract lists the characters that have it.
#[verifier::external_body]
pub(crate) fn white_space(c: char) -> (r: bool)
    ensures
        r == is_white_space(c),
{
    c.is_whitespace()
}

/// Calls `str::to_lowercase`, which returns the lower-case form of a string
/// by the Unicode rules. The contract names the result.
#[verifier::external_body]
pub(crate) fn to_lowercase(s: &str) -> (r: String)
    ensures
        r@ == lowercase_of(s@),
{
    s.to_lowercase()
}

/// `needle` stands in `hay` at place `i`.
pub open spec fn occurs_at(hay: Seq<char>, needle: Seq<char>, i: int) -> bool {
    0 <= i && i + needle.len() <= hay.len() && hay.subrange(i, i + needle.len()) == needle
}

/// `needle` stands somewhere in `hay`.
pub open spec fn contains_text(hay: Seq<char>, needle: Seq<char>) -> bool {
    exists|i: int| occurs_at(hay, needle, i)
}

/// `i` is the first place at or after `from` where `needle` stands in `hay`.
pub open spec fn first_occurrence(hay: Seq<char>, needle: Seq<char>, from: int, i: int) -> bool {
    &&& from <= i
    &&& occurs_at(hay, needle, i)
    &&& forall|j: int| from <= j < i ==> !occurs_at(hay, needle, j)
}

/// Whether `needle` stands in `hay` at place `at`.
pub(crate) fn matches_at(hay: &Vec<char>, needle: &Vec<char>, at: usize) -> (r: bool)
    ensures
        r == occurs_at(hay@, needle@, at as int),
{
    if needle.len() > hay.len() || at > hay.len() - needle.len() {
        return false;
    }
    let mut k: usize = 0;
    while k < needle.len()
        invariant
            k <= needle.len(),
            at + needle.len() <= hay.len(),
            forall|j: int| 0 <= j < k ==> hay@[at + j] == needle@[j],
        decreases needle.len() - k,
    {
        if hay[at + k] != needle[k] {
            assert(hay@.subrange(at as int, at + needle.len())[k as int] != needle@[k as int]);
            return false;
        }
        k += 1;
    }
    assert(hay@.subrange(at as int, at + needle.len()) =~= needle@);
    true
}

/// The first place at or after `from` where `needle` stands in `hay`.
pub(crate) fn find_from(hay: &Vec<char>, needle: &Vec<char>, from: usize) -> (r: Option<usize>)
    ensures
        match r {
            Some(i) => first_occurrence(hay@, needle@, from as int, i as int),
            None => forall|j: int| from <= j ==> !occurs_at(hay@, needle@, j),
        },
{
    if from > hay.len() {
        return None;
    }
    let mut i: usize = from;
    while i < hay.len()
        invariant
            from <= i <= hay.len(),
            forall|j: int| from <= j < i ==> !occurs_at(hay@, needle@, j),
        decreases hay.len() - i,
    {
        if matches_at(hay, needle, i) {
            return Some(i);
        }
        i += 1;
    }
    if matches_at(hay, needle, i) {
        return Some(i);
    }
    None
}

/// Whether `needle` stands somewhere in `hay`.
pub(crate) fn contains(hay: &Vec<char>, needle: &Vec<char>) -> (r: bool)
    ensures
        r == contains_text(hay@, needle@),
{
    find_from(hay, needle, 0).is_some()
}

/// Whether the text `hay` holds the text `needle`.
pub fn text_contains(hay: &str, needle: &str) -> (r: bool)
    ensures
        r == contains_text(hay@, needle@),
{
    let h = chars_of(hay);
    let n = chars_of(needle);
    contains(&h, &n)
}

/// The place of the last `c` in `s`, if `c` occurs.
pub open spec fn last_index_of(s: Seq<char>, c: char) -> Option<int>
    decreases s.len(),
{
    if s.len() == 0 {
        None
    } else if s.last() == c {
        Some(s.len() - 1)
    } else {
        last_index_of(s.drop_last(), c)
    }
}

/// The place of the last `c` in `s`, if `c` occurs.
pub fn rfind_char(s: &Vec<char>, c: char) -> (r: Option<usize>)
    ensures
        match r {
            Some(i) => last_index_of(s@, c) == Some(i as int) && i < s.len() && s@[i as int] == c,
            None => last_index_of(s@, c) is None,
        },
{
    let mut i: usize = s.len();
    assert(s@.take(s.len() as int) =~= s@);
    while i > 0
        invariant
            i <= s.len(),
            last_index_of(s@, c) == last_index_of(s@.take(i as int), c),
        decreases i,
    {
        if s[i - 1] == c {
            assert(s@.take(i as int).last() == c);
            return Some(i - 1);
        }
        proof {
            assert(s@.take(i as int).drop_last() =~= s@.take(i - 1));
        }
        i -= 1;
    }
    assert(s@.take(0).len() == 0);
    None
}

/// How many characters at the start of `s` are white space.
pub open spec fn leading_space(s: Seq<char>) -> nat
    decreases s.len(),
{
    if s.len() > 0 && is_white_space(s[0]) {
        1 + leading_space(s.skip(1))
    } else {
        0
    }
}

/// How many characters at the end of `s` are white space.
pub open spec fn trailing_space(s: Seq<char>) -> nat
    decreases s.len(),
{
    if s.len() > 0 && is_white_space(s.last()) {
        1 + trailing_space(s.drop_last())
    } else {
        0
    }
}

/// `s` without the white space at its start and at its end.
pub open spec fn trimmed(s: Seq<char>) -> Seq<char> {
    let a = leading_space(s) as int;
    if a == s.len() {
        Seq::empty()
    } else {
        s.subrange(a, s.len() - trailing_space(s))
    }
}

proof fn lemma_leading_space(s: Seq<char>, n: int)
    requires
        0 <= n <= s.len(),
        forall|j: int| 0 <= j < n ==> is_white_space(s[j]),
        n < s.len() ==> !is_white_space(s[n]),
    ensures
        leading_space(s) == n,
    decreases n,
{
    if n > 0 {
        assert forall|j: int| 0 <= j < n - 1 implies is_white_space(s.skip(1)[j]) by {
            assert(s.skip(1)[j] == s[j + 1]);
        }
        lemma_leading_space(s.skip(1), n - 1);
    }
}

proof fn lemma_trailing_space(s: Seq<char>, n: int)
    requires
        0 <= n <= s.len(),
        forall|j: int| s.len() - n <= j < s.len() ==> is_white_space(s[j]),
        n < s.len() ==> !is_white_space(s[s.len() - n - 1]),
    ensures
        trailing_space(s) == n,
    decreases n,
{
    if n > 0 {
        lemma_trailing_space(s.drop_last(), n - 1);
    }
}

/// The bounds of `chars[from..to]` without the white space at its start and
/// at its end: `(a, b)` with `chars[a..b]` the trimmed text.
pub(crate) fn trim_bounds(chars: &Vec<char>, from: usize, to: usize) -> (r: (usize, usize))
    requires
        from <= to <= chars.len(),
    ensures
        from <= r.0 <= r.1 <= to,
        chars@.subrange(r.0 as int, r.1 as int) == trimmed(chars@.subrange(from as int, to as int)),
{
    let ghost s = chars@.subrange(from as int, to as int);
    let mut a: usize = from;
    while a < to && white_space(chars[a])
        invariant
            from <= a <= to <= chars.len(),
            forall|j: int| from <= j < a ==> is_white_space(chars@[j]),
        decreases to - a,
    {
        a += 1;
    }
    proof {
        assert forall|j: int| 0 <= j < a - from implies is_white_space(s[j]) by {
            assert(s[j] == chars@[from + j]);
        }
        lemma_leading_space(s, a - from);
    }
    if a == to {
        assert(chars@.subrange(a as int, a as int) =~= Seq::<char>::empty());
        return (a, a);
    }
    let mut b: usize = to;
    while b > a && white_space(chars[b - 1])
        invariant
            a <= b <= to <= chars.len(),
            forall|j: int| b <= j < to ==> is_white_space(chars@[j]),
        decreases b,
    {
        b -= 1;
    }
    proof {
        assert(!is_white_space(chars@[a as int]));
        assert(b > a);
        assert forall|j: int| s.len() - (to - b) <= j < s.len() implies is_white_space(s[j]) by {
            assert(s[j] == chars@[from + j]);
        }
        assert(s[s.len() - (to - b) - 1] == chars@[b - 1]);
        lemma_trailing_space(s, to - b);
        assert(chars@.subrange(a as int, b as int) =~= s.subrange(a - from, s.len() - (to - b)));
    }
    (a, b)
}

/// `s` as the debugging form of strings writes it: in double quotes, with
/// the characters that need it escaped.
pub uninterp spec fn debug_form(s: Seq<char>) -> Seq<char>;

/// Calls `format!` with `{:?}` on a string slice, which goes to the `Debug`
/// implementation of `str`. The contract names the result.
#[verifier::external_body]
pub(crate) fn debug_text(s: &str) -> (r: String)
    ensures
        r@ == debug_form(s@),
{
    format!("{:?}", s)
}

/// The text "# " has two characters.
pub(crate) proof fn lemma_heading_mark_len()
    ensures
        "# "@.len() == 2,
{
    reveal_strlit("# ");
}

/// The text "tags:" has five characters.
pub(crate) proof fn lemma_tags_word_len()
    ensures
        "tags:"@.len() == 5,
{
    reveal_strlit("tags:");
}

/// The first place where `needle` stands in `s`, if it stands anywhere.
pub open spec fn first_place(s: Seq<char>, needle: Seq<char>) -> Option<int> {
    if exists|i: int| first_occurrence(s, needle, 0, i) {
        Some(choose|i: int| first_occurrence(s, needle, 0, i))
    } else {
        None
    }
}

/// `s` with every occurrence of `needle`, found from left to right without
/// overlap, replaced by `to`. `needle` is not empty.
pub open spec fn replaced(s: Seq<char>, needle: Seq<char>, to: Seq<char>) -> Seq<char>
    decreases s.len(),
{
    match first_place(s, needle) {
        Some(i) => if needle.len() > 0 && 0 <= i && i + needle.len() <= s.len() {
            s.take(i) + to + replaced(s.skip(i + needle.len()), needle, to)
        } else {
            s
        },
        None => s,
    }
}

/// What `first_place` says of its result.
pub(crate) proof fn lemma_first_place(s: Seq<char>, needle: Seq<char>)
    ensures
        match first_place(s, needle) {
            Some(i) => first_occurrence(s, needle, 0, i),
            None => forall|j: int| 0 <= j ==> !occurs_at(s, needle, j),
        },
{
    if !exists|i: int| first_occurrence(s, needle, 0, i) {
        assert forall|j: int| 0 <= j implies !occurs_at(s, needle, j) by {
            if occurs_at(s, needle, j) {
                lemma_first_exists(s, needle, j);
            }
        }
    }
}

proof fn lemma_first_exists(s: Seq<char>, needle: Seq<char>, j: int)
    requires
        0 <= j,
        occurs_at(s, needle, j),
    ensures
        exists|i: int| first_occurrence(s, needle, 0, i),
    decreases j,
{
    if forall|k: int| 0 <= k < j ==> !occurs_at(s, needle, k) {
        assert(first_occurrence(s, needle, 0, j));
    } else {
        let k = choose|k: int| 0 <= k < j && occurs_at(s, needle, k);
        lemma_first_exists(s, needle, k);
    }
}

/// A first occurrence is the first place.
pub(crate) proof fn lemma_first_place_is(s: Seq<char>, needle: Seq<char>, i: int)
    requires
        first_occurrence(s, needle, 0, i),
    ensures
        first_place(s, needle) == Some(i),
{
    let k = choose|k: int| first_occurrence(s, needle, 0, k);
    if k < i {
        assert(!occurs_at(s, needle, k));
    } else if i < k {
        assert(!occurs_at(s, needle, i));
    }
}

/// Where `needle` stands in what follows the place `pos` of `hay`, it stands in `hay`.
pub(crate) proof fn lemma_occurs_shift(hay: Seq<char>, needle: Seq<char>, pos: int, j: int)
    requires
        0 <= pos <= hay.len(),
        0 <= j,
    ensures
        occurs_at(hay.skip(pos), needle, j) <==> occurs_at(hay, needle, pos + j),
{
    if j + needle.len() <= hay.len() - pos {
        assert(hay.skip(pos).subrange(j, j + needle.len()) =~= hay.subrange(
            pos + j,
            pos + j + needle.len(),
        ));
    }
}

/// Replacing begins at the first occurrence and goes on behind it.
pub(crate) proof fn lemma_replaced_step(s: Seq<char>, needle: Seq<char>, to: Seq<char>, i: int)
    requires
        needle.len() > 0,
        first_occurrence(s, needle, 0, i),
    ensures
        replaced(s, needle, to) == s.take(i) + to + replaced(s.skip(i + needle.len()), needle, to),
{
    lemma_first_place_is(s, needle, i);
}

/// Where `needle` does not occur, nothing is replaced.
pub(crate) proof fn lemma_replaced_none(s: Seq<char>, needle: Seq<char>, to: Seq<char>)
    requires
        forall|j: int| 0 <= j ==> !occurs_at(s, needle, j),
    ensures
        replaced(s, needle, to) == s,
{
    lemma_first_place(s, needle);
}

/// Puts `src[from..to]` behind what `out` holds.
pub(crate) fn push_range(out: &mut Vec<char>, src: &Vec<char>, from: usize, to: usize)
    requires
        from <= to <= src.len(),
    ensures
        final(out)@ == old(out)@ + src@.subrange(from as int, to as int),
{
    let ghost before = out@;
    let mut k: usize = from;
    assert(before + src@.subrange(from as int, from as int) =~= before);
    while k < to
        invariant
            from <= k <= to <= src.len(),
            out@ == before + src@.subrange(from as int, k as int),
        decreases to - k,
    {
        out.push(src[k]);
        assert(before + src@.subrange(from as int, k + 1) =~= (before + src@.subrange(
            from as int,
            k as int,
        )).push(src@[k as int]));
        k += 1;
    }
}

/// `hay` with every occurrence of `needle` replaced by `to`.
pub(crate) fn replace_all(hay: &Vec<char>, needle: &Vec<char>, to: &Vec<char>) -> (out: Vec<char>)
    requires
        needle.len() > 0,
    ensures
        out@ == replaced(hay@, needle@, to@),
{
    let mut out: Vec<char> = Vec::new();
    let mut pos: usize = 0;
    assert(hay@.skip(0) =~= hay@);
    loop
        invariant_except_break
            pos <= hay.len(),
            needle.len() > 0,
            replaced(hay@, needle@, to@) == out@ + replaced(hay@.skip(pos as int), needle@, to@),
        ensures
            out@ == replaced(hay@, needle@, to@),
        decreases hay.len() - pos,
    {
        let ghost rest = hay@.skip(pos as int);
        let ghost before = out@;
        match find_from(hay, needle, pos) {
            Some(i) => {
                proof {
                    assert forall|j: int| 0 <= j < i - pos implies !occurs_at(rest, needle@, j) by {
                        lemma_occurs_shift(hay@, needle@, pos as int, j);
                    }
                    lemma_occurs_shift(hay@, needle@, pos as int, i - pos);
                    lemma_replaced_step(rest, needle@, to@, i - pos);
                    assert(rest.take(i - pos) =~= hay@.subrange(pos as int, i as int));
                    assert(rest.skip(i - pos + needle.len()) =~= hay@.skip(i + needle.len()));
                }
                push_range(&mut out, hay, pos, i);
                push_range(&mut out, to, 0, to.len());
                proof {
                    let tail = replaced(hay@.skip(i + needle.len()), needle@, to@);
                    assert(to@.subrange(0, to.len() as int) =~= to@);
                    assert(before + (hay@.subrange(pos as int, i as int) + to@ + tail) =~= out@
                        + tail);
                }
                pos = i + needle.len();
            },
            None => {
                proof {
                    assert forall|j: int| 0 <= j implies !occurs_at(rest, needle@, j) by {
                        lemma_occurs_shift(hay@, needle@, pos as int, j);
                    }
                    lemma_replaced_none(rest, needle@, to@);
                    assert(hay@.subrange(pos as int, hay.len() as int) =~= rest);
                }
                push_range(&mut out, hay, pos, hay.len());
                break;
            },
        }
    }
    out
}

/// The text "list=" has five characters.
pub(crate) proof fn lemma_list_word_len()
    ensures
        "list="@.len() == 5,
{
    reveal_strlit("list=");
}

/// The names of the repository site and of the path to a file are not empty.
pub(crate) proof fn lemma_site_words_len()
    ensures
        "github.com"@.len() == 10,
        "/blob/"@.len() == 6,
{
    reveal_strlit("github.com");
    reveal_strlit("/blob/");
}

} // verus!
