//! The tree of values that a dissected layer is, and the queries that tell
//! the variants of a node apart.

use crate::error::{DissectError, Fault};
use vstd::arithmetic::power2::{lemma2_to64, pow2};
use vstd::prelude::*;

verus! {

/// The mathematical value of a [`Val`]: the same tree, with sequences where
/// the value holds strings, slices and vectors.
pub enum Tree {
    Signed(i64),
    Unsigned(u64),
    String(Seq<char>),
    Symbol(Seq<char>),
    Address { bytes: Seq<u8>, encoded: Seq<char> },
    BitFlags8(u8, Seq<Option<Seq<char>>>),
    Object(Seq<(Seq<char>, Tree)>),
    Payload(Result<Box<Tree>, Fault>),
    Bytes(Seq<u8>),
}

/// A value parsed from a packet.
#[derive(Debug)]
pub enum Val<'data> {
    /// A signed integer, widened to 64 bits.
    Signed(i64),
    /// An unsigned integer, widened to 64 bits.
    Unsigned(u64),
    /// A string.
    String(String),
    /// A fixed label, such as the name of a protocol.
    Symbol(&'static str),
    /// A network address: its bytes and the form in which it is written.
    Address { bytes: &'data [u8], encoded: String },
    /// One byte of flags; name `i` belongs to bit `i`, the bit of weight `2^i`.
    BitFlags8(u8, [Option<&'static str>; 8]),
    /// An ordered sequence of named values. Names may repeat.
    Object(NamedValues<'data>),
    /// The outcome of dissecting a nested layer, success or failure.
    Payload(DissectResult<'data>),
    /// Raw bytes, e.g., a checksum or just unparsed data.
    Bytes(&'data [u8]),
}

/// The result of a dissection function.
pub type DissectResult<'data, T = Box<Val<'data>>> = Result<T, DissectError>;

/// The named values of an object, in the order of their insertion.
pub type NamedValues<'data> = Vec<(&'static str, Val<'data>)>;

/// The mathematical value of a dissection outcome.
pub type Outcome = Result<Box<Tree>, Fault>;

/// The trees of named values, name by name.
pub open spec fn trees<'data>(values: Seq<(&'static str, Val<'data>)>) -> Seq<(Seq<char>, Tree)>
    decreases values,
{
    Seq::new(
        values.len(),
        |i: int|
            if 0 <= i < values.len() {
                (values[i].0@, values[i].1.tree())
            } else {
                arbitrary()
            },
    )
}

/// What the eight names of a flag byte hold.
pub open spec fn flag_names(names: [Option<&'static str>; 8]) -> Seq<Option<Seq<char>>> {
    Seq::new(
        8,
        |i: int|
            match names@[i] {
                Some(name) => Some(name@),
                None => None,
            },
    )
}

/// The mathematical value of the outcome of a dissection.
pub open spec fn outcome_of<'data>(result: DissectResult<'data>) -> Outcome {
    match result {
        Ok(val) => Ok(Box::new(val.tree())),
        Err(error) => Err(error@),
    }
}

/// Whether the bit of weight `2^bit` is set in `flags`.
pub open spec fn bit_set(flags: u8, bit: nat) -> bool {
    (flags as nat / pow2(bit)) % 2 == 1
}

/// The least position of `items` that holds `wanted`.
pub open spec fn first_position<T>(items: Seq<T>, wanted: T) -> Option<int>
    decreases items.len(),
{
    if items.len() == 0 {
        None
    } else if items.first() == wanted {
        Some(0)
    } else {
        match first_position(items.drop_first(), wanted) {
            Some(at) => Some(at + 1),
            None => None,
        }
    }
}

/// A position before which `wanted` does not occur is the first position of
/// `wanted` if it holds `wanted`, and shows that there is none if it is the
/// end of `items`.
pub proof fn lemma_first_position<T>(items: Seq<T>, wanted: T, at: int)
    requires
        0 <= at <= items.len(),
        forall|j: int| 0 <= j < at ==> items[j] != wanted,
        at < items.len() ==> items[at] == wanted,
    ensures
        first_position(items, wanted) == if at < items.len() {
            Some(at)
        } else {
            None
        },
    decreases at,
{
    if at > 0 {
        let rest = items.drop_first();
        assert forall|j: int| 0 <= j < at - 1 implies rest[j] != wanted by {
            assert(rest[j] == items[j + 1]);
        }
        lemma_first_position(rest, wanted, at - 1);
    }
}

impl Tree {
    /// Whether the flag called `name` is set: the first bit that carries the
    /// name decides; without such a bit, and on other nodes, there is no answer.
    pub open spec fn flag_named(self, name: Seq<char>) -> Option<bool> {
        match self {
            Tree::BitFlags8(flags, names) => match first_position(names, Some(name)) {
                Some(bit) => Some(bit_set(flags, bit as nat)),
                None => None,
            },
            _ => None,
        }
    }
}

impl<'data> View for Val<'data> {
    type V = Tree;

    open spec fn view(&self) -> Tree {
        self.tree()
    }
}

impl<'data> Val<'data> {
    /// The mathematical value of the node and of all that hangs below it.
    pub open spec fn tree(&self) -> Tree
        decreases self,
    {
        match self {
            Val::Signed(i) => Tree::Signed(*i),
            Val::Unsigned(u) => Tree::Unsigned(*u),
            Val::String(s) => Tree::String(s@),
            Val::Symbol(s) => Tree::Symbol(s@),
            Val::Address { bytes, encoded } => Tree::Address { bytes: bytes@, encoded: encoded@ },
            Val::BitFlags8(flags, names) => Tree::BitFlags8(*flags, flag_names(*names)),
            Val::Object(values) => Tree::Object(trees(values@)),
            Val::Payload(Ok(val)) => Tree::Payload(Ok(Box::new(val.tree()))),
            Val::Payload(Err(error)) => Tree::Payload(Err(error@)),
            Val::Bytes(bytes) => Tree::Bytes(bytes@),
        }
    }

    /// Returns true if the `Val` is a Signed. Returns false otherwise.
    pub fn is_signed(&self) -> (yes: bool)
        ensures
            yes == (self@ is Signed),
    {
        self.as_signed().is_some()
    }

    /// If the `Val` is a Signed, returns the associated i64.
    /// Returns None otherwise.
    pub fn as_signed(&self) -> (found: Option<i64>)
        ensures
            found == match self@ {
                Tree::Signed(i) => Some(i),
                _ => None,
            },
    {
        match self {
            Val::Signed(val) => Some(*val),
            _ => None,
        }
    }

    /// Returns true if the `Val` is an Unsigned. Returns false otherwise.
    pub fn is_unsigned(&self) -> (yes: bool)
        ensures
            yes == (self@ is Unsigned),
    {
        self.as_unsigned().is_some()
    }

    /// If the `Val` is an Unsigned, returns the associated u64.
    /// Returns None otherwise.
    pub fn as_unsigned(&self) -> (found: Option<u64>)
        ensures
            found == match self@ {
                Tree::Unsigned(u) => Some(u),
                _ => None,
            },
    {
        match self {
            Val::Unsigned(val) => Some(*val),
            _ => None,
        }
    }

    /// Returns true if the `Val` is a String. Returns false otherwise.
    pub fn is_string(&self) -> (yes: bool)
        ensures
            yes == (self@ is String),
    {
        self.as_string().is_some()
    }

    /// If the `Val` is a String, returns the associated string.
    /// Returns None otherwise.
    pub fn as_string<'val>(&'val self) -> (found: Option<&'val str>)
        ensures
            match self@ {
                Tree::String(s) => found matches Some(text) && text@ == s,
                _ => found is None,
            },
    {
        match self {
            Val::String(val) => Some(val.as_str()),
            _ => None,
        }
    }

    /// Returns true if the `Val` is a Symbol. Returns false otherwise.
    pub fn is_symbol(&self) -> (yes: bool)
        ensures
            yes == (self@ is Symbol),
    {
        self.as_symbol().is_some()
    }

    /// If the `Val` is a Symbol, returns the associated label.
    /// Returns None otherwise.
    pub fn as_symbol(&self) -> (found: Option<&'static str>)
        ensures
            match self@ {
                Tree::Symbol(s) => found matches Some(text) && text@ == s,
                _ => found is None,
            },
    {
        match self {
            Val::Symbol(val) => Some(*val),
            _ => None,
        }
    }

    /// Returns true if the `Val` is an Address. Returns false otherwise.
    pub fn is_address(&self) -> (yes: bool)
        ensures
            yes == (self@ is Address),
    {
        self.as_address_bytes().is_some()
    }

    /// If the `Val` is an Address, returns the bytes of the address.
    /// Returns None otherwise.
    pub fn as_address_bytes(&self) -> (found: Option<&'data [u8]>)
        ensures
            match self@ {
                Tree::Address { bytes, .. } => found matches Some(slice) && slice@ == bytes,
                _ => found is None,
            },
    {
        match self {
            Val::Address { bytes, .. } => Some(*bytes),
            _ => None,
        }
    }

    /// If the `Val` is an Address, returns the form in which the address is
    /// written. Returns None otherwise.
    pub fn as_address_encoded<'val>(&'val self) -> (found: Option<&'val str>)
        ensures
            match self@ {
                Tree::Address { encoded, .. } => found matches Some(text) && text@ == encoded,
                _ => found is None,
            },
    {
        match self {
            Val::Address { encoded, .. } => Some(encoded.as_str()),
            _ => None,
        }
    }

    /// Returns true if the `Val` is a BitFlags8. Returns false otherwise.
    pub fn is_bitflags8(&self) -> (yes: bool)
        ensures
            yes == (self@ is BitFlags8),
    {
        match self {
            Val::BitFlags8(_, _) => true,
            _ => false,
        }
    }

    /// If the `Val` is a BitFlags8, tells whether the bit of weight `2^bit` is
    /// set. Returns None otherwise. A byte has no bit above the seventh.
    pub fn as_bitflags8_bit_no(&self, bit: u8) -> (found: Option<bool>)
        requires
            bit < 8,
        ensures
            found == match self@ {
                Tree::BitFlags8(flags, _) => Some(bit_set(flags, bit as nat)),
                _ => None,
            },
    {
        match self {
            Val::BitFlags8(flags, _) => Some(bit_is_set(*flags, bit)),
            _ => None,
        }
    }

    /// If the `Val` is a BitFlags8 and one of its bits is called `name`, tells
    /// whether the first such bit is set. Returns None otherwise, also where
    /// bits without that name are set.
    pub fn as_bitflags8_bit_name(&self, name: &str) -> (found: Option<bool>)
        ensures
            found == self@.flag_named(name@),
    {
        match self {
            Val::BitFlags8(_, names) => {
                let mut bit: u8 = 0;
                while bit < 8
                    invariant
                        bit <= 8,
                        self@ is BitFlags8,
                        self@->BitFlags8_1 == flag_names(*names),
                        forall|j: int| 0 <= j < bit ==> flag_names(*names)[j] != Some(name@),
                    decreases 8 - bit,
                {
                    let carries = match names[bit as usize] {
                        Some(label) => crate::text::same_text(label, name),
                        None => false,
                    };
                    if carries {
                        proof {
                            lemma_first_position(flag_names(*names), Some(name@), bit as int);
                        }
                        return self.as_bitflags8_bit_no(bit);
                    }
                    bit += 1;
                }
                proof {
                    lemma_first_position(flag_names(*names), Some(name@), 8);
                }
                None
            },
            _ => None,
        }
    }

    /// Returns true if the `Val` is an Object. Returns false otherwise.
    pub fn is_object(&self) -> (yes: bool)
        ensures
            yes == (self@ is Object),
    {
        self.as_object().is_some()
    }

    /// If the `Val` is an Object, returns its named values.
    /// Returns None otherwise.
    pub fn as_object<'val>(&'val self) -> (found: Option<&'val NamedValues<'data>>)
        ensures
            match self@ {
                Tree::Object(children) => found matches Some(values) && trees(values@)
                    == children,
                _ => found is None,
            },
    {
        match self {
            Val::Object(val) => Some(val),
            _ => None,
        }
    }

    /// Returns true if the `Val` is a Payload. Returns false otherwise.
    pub fn is_payload(&self) -> (yes: bool)
        ensures
            yes == (self@ is Payload),
    {
        self.as_payload().is_some()
    }

    /// If the `Val` is a Payload, returns the outcome that it embeds.
    /// Returns None otherwise.
    pub fn as_payload<'val>(&'val self) -> (found: Option<&'val DissectResult<'data>>)
        ensures
            match self@ {
                Tree::Payload(embedded) => found matches Some(result) && outcome_of(*result)
                    == embedded,
                _ => found is None,
            },
    {
        match self {
            Val::Payload(val) => Some(val),
            _ => None,
        }
    }

    /// Returns true if the `Val` is a Bytes. Returns false otherwise.
    pub fn is_bytes(&self) -> (yes: bool)
        ensures
            yes == (self@ is Bytes),
    {
        self.as_bytes().is_some()
    }

    /// If the `Val` is a Bytes, returns the bytes.
    /// Returns None otherwise.
    pub fn as_bytes(&self) -> (found: Option<&'data [u8]>)
        ensures
            match self@ {
                Tree::Bytes(bytes) => found matches Some(slice) && slice@ == bytes,
                _ => found is None,
            },
    {
        match self {
            Val::Bytes(val) => Some(*val),
            _ => None,
        }
    }
}

/// Appends a named value to the values of an object under construction.
pub fn push_named<'data>(values: &mut NamedValues<'data>, name: &'static str, val: Val<'data>)
    ensures
        trees(final(values)@) == trees(old(values)@).push((name@, val@)),
{
    values.push((name, val));
    proof {
        assert(trees(values@) =~= trees(old(values)@).push((name@, val@)));
    }
}

/// Whether the bit of weight `2^bit` is set in `flags`.
pub fn bit_is_set(flags: u8, bit: u8) -> (set: bool)
    requires
        bit < 8,
    ensures
        set == bit_set(flags, bit as nat),
{
    proof {
        lemma_bit_test(flags, bit);
    }
    (1u8 << bit) & flags > 0
}

/// The test of a bit by mask agrees with the bit's place value.
proof fn lemma_bit_test(flags: u8, bit: u8)
    requires
        bit < 8,
    ensures
        ((1u8 << bit) & flags > 0) == bit_set(flags, bit as nat),
{
    lemma2_to64();
    let weight: u8 = 1u8 << bit;
    assert(weight == pow2(bit as nat)) by {
        assert(bit < 8 ==> (1u8 << bit) == if bit == 0 {
            1u8
        } else if bit == 1 {
            2u8
        } else if bit == 2 {
            4u8
        } else if bit == 3 {
            8u8
        } else if bit == 4 {
            16u8
        } else if bit == 5 {
            32u8
        } else if bit == 6 {
            64u8
        } else {
            128u8
        }) by (bit_vector);
    }
    assert(bit < 8 ==> (((1u8 << bit) & flags > 0) == ((flags / (1u8 << bit)) % 2 == 1)))
        by (bit_vector);
}

} // verus!
