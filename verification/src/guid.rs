//! The identifier of a bus, as it is exchanged during authentication.

use vstd::prelude::*;
use vstd::slice::slice_to_vec;

use crate::uid::hex_value;
use crate::wire::{has_no_space, is_space};

verus! {

/// Whether `s` is the text of a bus identifier: 32 hexadecimal digits, of
/// either case.
pub open spec fn valid_guid(s: Seq<u8>) -> bool {
    s.len() == 32 && forall|i: int| 0 <= i < s.len() ==> hex_value(#[trigger] s[i]) is Some
}

/// The text of a bus identifier is a single word.
pub proof fn lemma_guid_is_word(s: Seq<u8>)
    requires
        valid_guid(s),
    ensures
        s.len() > 0,
        has_no_space(s),
{
    assert forall|i: int| 0 <= i < s.len() implies !is_space(#[trigger] s[i]) by {
        assert(hex_value(s[i]) is Some);
    }
}

/// The identifier of a bus. It is held as its text, which a client takes
/// from the server's reply as it stands.
#[derive(Debug, PartialEq, Eq, Hash)]
pub struct Guid {
    text: Vec<u8>,
}

impl View for Guid {
    type V = Seq<u8>;

    closed spec fn view(&self) -> Seq<u8> {
        self.text@
    }
}

impl Clone for Guid {
    fn clone(&self) -> (copy: Self)
        ensures
            copy@ == self@,
    {
        proof {
            use_type_invariant(self);
        }
        Guid { text: slice_to_vec(self.text.as_slice()) }
    }
}

impl Guid {
    #[verifier::type_invariant]
    spec fn well_formed(self) -> bool {
        valid_guid(self.text@)
    }

    /// Reads an identifier from its text. The result is `None` unless `text`
    /// is 32 hexadecimal digits.
    pub fn parse(text: &[u8]) -> (r: Option<Guid>)
        ensures
            match r {
                Some(guid) => valid_guid(text@) && guid@ == text@,
                None => !valid_guid(text@),
            },
    {
        if text.len() != 32 {
            return None;
        }
        let mut i: usize = 0;
        while i < text.len()
            invariant
                i <= text.len(),
                forall|k: int| 0 <= k < i ==> hex_value(#[trigger] text@[k]) is Some,
            decreases text.len() - i,
        {
            let c = text[i];
            let hex = (48 <= c && c <= 57) || (97 <= c && c <= 102) || (65 <= c && c <= 70);
            if !hex {
                return None;
            }
            i += 1;
        }
        Some(Guid { text: slice_to_vec(text) })
    }

    /// The text of the identifier.
    pub fn as_bytes(&self) -> (text: &[u8])
        ensures
            text@ == self@,
            valid_guid(text@),
    {
        proof {
            use_type_invariant(self);
        }
        self.text.as_slice()
    }
}

} // verus!
