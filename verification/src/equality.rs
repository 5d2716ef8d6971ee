//! Equality of values and of errors. It is structural: two trees are equal
//! when they have the same shape and hold the same values in the same order.

use crate::access::AccessError;
use crate::error::DissectError;
use crate::text::same_text;
use crate::value::{flag_names, trees, NamedValues, Val};
use vstd::prelude::*;
use vstd::std_specs::cmp::PartialEqSpecImpl;

verus! {

/// Whether two slices hold the same bytes.
pub fn same_bytes(left: &[u8], right: &[u8]) -> (same: bool)
    ensures
        same == (left@ == right@),
{
    if left.len() != right.len() {
        return false;
    }
    let mut at: usize = 0;
    while at < left.len()
        invariant
            at <= left@.len(),
            left@.len() == right@.len(),
            forall|j: int| 0 <= j < at ==> left@[j] == right@[j],
        decreases left@.len() - at,
    {
        if left[at] != right[at] {
            return false;
        }
        at += 1;
    }
    proof {
        assert(left@ =~= right@);
    }
    true
}

/// Whether the bits of two flag bytes have the same names.
fn same_names(left: &[Option<&'static str>; 8], right: &[Option<&'static str>; 8]) -> (same: bool)
    ensures
        same == (flag_names(*left) == flag_names(*right)),
{
    let mut bit: usize = 0;
    while bit < 8
        invariant
            bit <= 8,
            forall|j: int| 0 <= j < bit ==> flag_names(*left)[j] == flag_names(*right)[j],
        decreases 8 - bit,
    {
        let same = match (left[bit], right[bit]) {
            (Some(one), Some(other)) => same_text(one, other),
            (None, None) => true,
            _ => false,
        };
        if !same {
            proof {
                assert(flag_names(*left)[bit as int] != flag_names(*right)[bit as int]);
            }
            return false;
        }
        bit += 1;
    }
    proof {
        assert(flag_names(*left) =~= flag_names(*right));
    }
    true
}

/// Whether two sequences of named values have the same names and equal
/// values, place by place.
fn same_values<'a, 'b>(left: &NamedValues<'a>, right: &NamedValues<'b>) -> (same: bool)
    ensures
        same == (trees(left@) == trees(right@)),
    decreases left,
{
    if left.len() != right.len() {
        proof {
            assert(trees(left@).len() != trees(right@).len());
        }
        return false;
    }
    let mut at: usize = 0;
    while at < left.len()
        invariant
            at <= left@.len(),
            left@.len() == right@.len(),
            forall|j: int| 0 <= j < at ==> trees(left@)[j] == trees(right@)[j],
        decreases left@.len() - at,
    {
        if !same_text(left[at].0, right[at].0) || !left[at].1.same_as(&right[at].1) {
            proof {
                assert(trees(left@)[at as int] != trees(right@)[at as int]);
            }
            return false;
        }
        at += 1;
    }
    proof {
        assert(trees(left@) =~= trees(right@));
    }
    true
}

impl DissectError {
    /// Whether two errors are of the same kind and carry the same numbers and
    /// the same message.
    pub fn same_as(&self, other: &DissectError) -> (same: bool)
        ensures
            same == (self@ == other@),
    {
        match (self, other) {
            (
                DissectError::Underflow { expected, have, message },
                DissectError::Underflow { expected: expected2, have: have2, message: message2 },
            ) => *expected == *expected2 && *have == *have2 && same_text(
                message.as_str(),
                message2.as_str(),
            ),
            (DissectError::InvalidData(message), DissectError::InvalidData(message2)) => same_text(
                message.as_str(),
                message2.as_str(),
            ),
            _ => false,
        }
    }
}

impl AccessError {
    /// Whether two errors are of the same kind and carry the same description.
    pub fn same_as(&self, other: &AccessError) -> (same: bool)
        ensures
            same == (self@ == other@),
    {
        match (self, other) {
            (AccessError::NotFound(one), AccessError::NotFound(two)) => same_text(
                one.as_str(),
                two.as_str(),
            ),
            (AccessError::DissectError(one), AccessError::DissectError(two)) => same_text(
                one.as_str(),
                two.as_str(),
            ),
            (AccessError::LeafVariant(one), AccessError::LeafVariant(two)) => same_text(
                one.as_str(),
                two.as_str(),
            ),
            _ => false,
        }
    }
}

impl<'data> Val<'data> {
    /// Whether two values are structurally equal: of the same variant, with
    /// equal contents, and for objects with the same names and equal children
    /// in the same order.
    pub fn same_as<'other>(&self, other: &Val<'other>) -> (same: bool)
        ensures
            same == (self@ == other@),
        decreases self,
    {
        match (self, other) {
            (Val::Signed(one), Val::Signed(two)) => *one == *two,
            (Val::Unsigned(one), Val::Unsigned(two)) => *one == *two,
            (Val::String(one), Val::String(two)) => same_text(one.as_str(), two.as_str()),
            (Val::Symbol(one), Val::Symbol(two)) => same_text(one, two),
            (
                Val::Address { bytes, encoded },
                Val::Address { bytes: bytes2, encoded: encoded2 },
            ) => same_bytes(bytes, bytes2) && same_text(encoded.as_str(), encoded2.as_str()),
            (Val::BitFlags8(flags, names), Val::BitFlags8(flags2, names2)) => *flags == *flags2
                && same_names(names, names2),
            (Val::Object(one), Val::Object(two)) => same_values(one, two),
            (Val::Payload(Ok(one)), Val::Payload(Ok(two))) => one.same_as(two),
            (Val::Payload(Err(one)), Val::Payload(Err(two))) => one.same_as(two),
            (Val::Bytes(one), Val::Bytes(two)) => same_bytes(one, two),
            _ => false,
        }
    }
}

impl PartialEq for DissectError {
    fn eq(&self, other: &DissectError) -> (same: bool) {
        self.same_as(other)
    }
}

impl PartialEqSpecImpl for DissectError {
    open spec fn obeys_eq_spec() -> bool {
        true
    }

    open spec fn eq_spec(&self, other: &DissectError) -> bool {
        self@ == other@
    }
}

impl PartialEq for AccessError {
    fn eq(&self, other: &AccessError) -> (same: bool) {
        self.same_as(other)
    }
}

impl PartialEqSpecImpl for AccessError {
    open spec fn obeys_eq_spec() -> bool {
        true
    }

    open spec fn eq_spec(&self, other: &AccessError) -> bool {
        self@ == other@
    }
}

impl<'data> PartialEq for Val<'data> {
    fn eq(&self, other: &Val<'data>) -> (same: bool) {
        self.same_as(other)
    }
}

impl<'data> PartialEqSpecImpl for Val<'data> {
    open spec fn obeys_eq_spec() -> bool {
        true
    }

    open spec fn eq_spec(&self, other: &Val<'data>) -> bool {
        self@ == other@
    }
}

} // verus!
