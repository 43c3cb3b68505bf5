//! The textual form of identities.

use vstd::prelude::*;

use crate::types::Principal;

verus! {

/// The bytes of the identity that `text` is the textual form of, or `None`
/// where it is the textual form of none.
pub uninterp spec fn text_to_bytes(text: Seq<char>) -> Option<Seq<u8>>;

/// The textual form of the identity made of `bytes`.
pub uninterp spec fn principal_text(bytes: Seq<u8>) -> Seq<char>;

/// The identity of valid shape that is made of `bytes`.
pub open spec fn principal_of(bytes: Seq<u8>) -> Principal {
    choose|p: Principal| p.wf() && p@ == bytes
}

/// The identity that `text` is the textual form of, or `None` where it is the
/// textual form of none.
pub open spec fn text_to_principal(text: Seq<char>) -> Option<Principal> {
    match text_to_bytes(text) {
        Some(bytes) => Some(principal_of(bytes)),
        None => None,
    }
}

/// Calls `candid::Principal::from_text`, which decodes the grouped base-32
/// form and checks its checksum, and `as_slice` on the identity that it
/// returns. The contract names the bytes and adds that there are at most 29
/// of them, the most that an identity holds.
#[verifier::external_body]
fn decode_principal(text: &str) -> (r: Option<Vec<u8>>)
    ensures
        r.deep_view() == text_to_bytes(text@),
        r matches Some(bytes) ==> bytes@.len() <= 29,
{
    candid::Principal::from_text(text).ok().map(|p| p.as_slice().to_vec())
}

/// Calls `candid::Principal::try_from_slice`, which refuses more than 29
/// bytes, and `candid::Principal::to_text` on what it accepted. The contract
/// names the text.
#[verifier::external_body]
fn encode_principal(bytes: &[u8]) -> (r: Option<String>)
    ensures
        bytes@.len() > 29 <==> r is None,
        r matches Some(s) ==> s@ == principal_text(bytes@),
{
    match candid::Principal::try_from_slice(bytes) {
        Ok(p) => Some(p.to_text()),
        Err(_) => None,
    }
}

impl Principal {
    /// The identity written as `text`, if `text` is the textual form of one.
    pub fn from_text(text: &str) -> (r: Option<Principal>)
        ensures
            r == text_to_principal(text@),
            r matches Some(p) ==> p.wf() && text_to_bytes(text@) == Some(p@),
    {
        match decode_principal(text) {
            Some(bytes) => {
                let r = Principal::from_slice(bytes.as_slice());
                proof {
                    let p = r.unwrap();
                    assert(bytes.deep_view() =~= bytes@);
                    crate::types::lemma_principal_bytes_decide(p, principal_of(bytes@));
                }
                r
            },
            None => None,
        }
    }

    /// The textual form of the identity.
    pub fn to_text(&self) -> (s: String)
        ensures
            s@ == principal_text(self@),
    {
        let bytes = self.to_vec();
        match encode_principal(bytes.as_slice()) {
            Some(s) => s,
            None => String::new(),
        }
    }
}

} // verus!
