//! Dissection of Ethernet (IEEE 802.3) frames.

use crate::access::{names_of, AccessFault};
use crate::decode::{big_endian, unsigned, Endianness};
use crate::error::{DissectError, Fault};
use crate::protocol::Protocol;
use crate::text::{decimal, decimal_string, hexadecimal, hexadecimal_string};
use crate::value::{
    lemma_first_position, outcome_of, push_named, trees, DissectResult, NamedValues, Outcome,
    Tree, Val,
};
use vstd::prelude::*;
use vstd::string::*;

verus! {

/// The number of bytes of the header of a frame: two addresses of six bytes
/// and the field of type or length.
pub const HEADER: usize = 14;

/// The greatest value of the field of type or length that is a length.
pub const LONGEST: u64 = 1500;

/// The table of the protocols above Ethernet: the label and the protocol that
/// a type code stands for, if the table knows the code.
pub open spec fn ether_type(code: nat) -> Option<(Seq<char>, Protocol)> {
    if code == 0x0800 {
        Some(("IP"@, Protocol::Ip))
    } else if code == 0x0806 {
        Some(("ARP"@, Protocol::Raw))
    } else if code == 0x8137 || code == 0x8138 {
        Some(("IPX"@, Protocol::Raw))
    } else if code == 0x86dd {
        Some(("IPv6"@, Protocol::Raw))
    } else {
        None
    }
}

/// What is said of a frame of `have` bytes that is shorter than the header.
pub open spec fn short_frame_text(have: nat) -> Seq<char> {
    "Need 14 B of data to dissect Ethernet packet, have "@ + decimal(have) + " B"@
}

/// What is said of a type code that the table does not know.
pub open spec fn unknown_type_text(code: nat) -> Seq<char> {
    "unknown protocol: "@ + hexadecimal(code)
}

/// The last child of a frame, which depends on the field of type or length.
/// Up to 1500 the field is the length of the payload and is shown as such.
/// Above, it is a type code: the payload is dissected as the protocol that
/// the table gives for the code, and a code that the table does not know is
/// shown as a failed payload.
pub open spec fn payload_field(code: nat, payload: Seq<u8>) -> (Seq<char>, Tree) {
    if code <= LONGEST {
        ("Length"@, Tree::Unsigned(code as u64))
    } else {
        match ether_type(code) {
            Some((label, protocol)) => (label, Tree::Payload(protocol.dissection(payload))),
            None => (
                "Unknown Type"@,
                Tree::Payload(Err(Fault::InvalidData(unknown_type_text(code)))),
            ),
        }
    }
}

/// What a frame is dissected to: an underflow if it is shorter than the
/// header, else the two addresses and the child that the field of type or
/// length decides.
pub open spec fn frame(data: Seq<u8>) -> Outcome {
    if data.len() < HEADER {
        Err(
            Fault::Underflow {
                expected: HEADER as nat,
                have: data.len(),
                message: short_frame_text(data.len()),
            },
        )
    } else {
        Ok(
            Box::new(
                Tree::Object(
                    seq![
                        ("Destination"@, Tree::Bytes(data.subrange(0, 6))),
                        ("Source"@, Tree::Bytes(data.subrange(6, 12))),
                        payload_field(big_endian(data.subrange(12, 14)), data.skip(14)),
                    ],
                ),
            ),
        )
    }
}

/// Dissection is a function of the bytes: two outcomes of dissecting frames
/// that hold the same bytes are the same outcome, and two trees among them
/// are structurally equal and have the same text, on one line and on several.
pub proof fn lemma_dissect_repeats(
    data: Seq<u8>,
    first: DissectResult,
    second: DissectResult,
    indent: nat,
)
    requires
        outcome_of(first) == frame(data),
        outcome_of(second) == frame(data),
    ensures
        outcome_of(first) == outcome_of(second),
        first matches Ok(one) ==> (second matches Ok(other) && one@ == other@ && one@.text()
            == other@.text() && one@.pretty(indent) == other@.pretty(indent)),
        first matches Err(one) ==> (second matches Err(other) && one@ == other@ && one@.text()
            == other@.text()),
{
}

/// What the payload of a frame comes to never touches the addresses: in the
/// tree of every frame that has a header, the names of the two addresses lead
/// to the first twelve bytes, whether the payload could be dissected or not.
pub proof fn lemma_addresses_survive(data: Seq<u8>)
    requires
        data.len() >= HEADER,
    ensures
        frame(data) matches Ok(tree) && tree.get("Destination"@) == Ok::<Tree, AccessFault>(
            Tree::Bytes(data.subrange(0, 6)),
        ) && tree.get("Source"@) == Ok::<Tree, AccessFault>(Tree::Bytes(data.subrange(6, 12))),
{
    reveal_strlit("Destination");
    reveal_strlit("Source");
    let tree = *frame(data)->Ok_0;
    let children = tree->Object_0;
    let names = names_of(children);
    assert(names[0] == "Destination"@);
    assert(names[1] == "Source"@);
    assert("Destination"@[0] != "Source"@[0]);
    lemma_first_position(names, "Destination"@, 0);
    lemma_first_position(names, "Source"@, 1);
}

/// A type code above 1500 that the table does not know costs the payload
/// only: the frame is dissected, and its last child is a payload that failed
/// with invalid data and names the code.
pub proof fn lemma_unknown_type_is_kept(data: Seq<u8>)
    requires
        data.len() >= HEADER,
        big_endian(data.subrange(12, 14)) > LONGEST,
        ether_type(big_endian(data.subrange(12, 14))) is None,
    ensures
        frame(data) matches Ok(tree) && tree.get("Unknown Type"@) == Ok::<Tree, AccessFault>(
            Tree::Payload(
                Err(Fault::InvalidData(unknown_type_text(big_endian(data.subrange(12, 14))))),
            ),
        ),
{
    reveal_strlit("Destination");
    reveal_strlit("Source");
    reveal_strlit("Unknown Type");
    let tree = *frame(data)->Ok_0;
    let children = tree->Object_0;
    let names = names_of(children);
    assert(names[0] == "Destination"@);
    assert(names[1] == "Source"@);
    assert(names[2] == "Unknown Type"@);
    assert("Destination"@[0] != "Unknown Type"@[0]);
    assert("Source"@[0] != "Unknown Type"@[0]);
    lemma_first_position(names, "Unknown Type"@, 2);
}

/// Looks a type code up in the table of the protocols above Ethernet.
pub fn lookup_ether_type(code: u64) -> (entry: Option<(&'static str, Protocol)>)
    ensures
        match entry {
            Some((label, protocol)) => ether_type(code as nat) == Some((label@, protocol)),
            None => ether_type(code as nat) is None,
        },
{
    match code {
        0x0800 => Some(("IP", Protocol::Ip)),
        0x0806 => Some(("ARP", Protocol::Raw)),
        0x8137 | 0x8138 => Some(("IPX", Protocol::Raw)),
        0x86dd => Some(("IPv6", Protocol::Raw)),
        _ => None,
    }
}

/// The error for a frame that is shorter than the header.
fn short_frame(have: usize) -> (error: DissectError)
    ensures
        error@ == (Fault::Underflow {
            expected: HEADER as nat,
            have: have as nat,
            message: short_frame_text(have as nat),
        }),
{
    let mut message = String::from_str("Need 14 B of data to dissect Ethernet packet, have ");
    message.append(decimal_string(have as u64).as_str());
    message.append(" B");
    DissectError::Underflow { expected: HEADER, have, message }
}

/// Dissects an Ethernet frame: the addresses of destination and source, and
/// the payload as the protocol that the field of type or length names.
pub fn dissect<'data>(data: &'data [u8]) -> (result: DissectResult<'data>)
    ensures
        outcome_of(result) == frame(data@),
        data@.len() < 14 ==> (result matches Err(DissectError::Underflow { expected, have, .. })
            && expected == 14 && have == data@.len()),
{
    if data.len() < HEADER {
        return Err(short_frame(data.len()));
    }
    let mut values: NamedValues<'data> = Vec::new();
    proof {
        assert(trees(values@) =~= Seq::empty());
    }
    push_named(&mut values, "Destination", Val::Bytes(&data[0..6]));
    push_named(&mut values, "Source", Val::Bytes(&data[6..12]));
    let code: u64 = unsigned(&data[12..14], Endianness::BigEndian).unwrap();
    let remainder = &data[HEADER..data.len()];
    proof {
        assert(remainder@ =~= data@.skip(14));
    }
    if code <= LONGEST {
        push_named(&mut values, "Length", Val::Unsigned(code));
    } else {
        match lookup_ether_type(code) {
            Some((label, protocol)) => {
                push_named(&mut values, label, Val::Payload(protocol.dissect(remainder)));
            },
            None => {
                let mut message = String::from_str("unknown protocol: ");
                message.append(hexadecimal_string(code).as_str());
                push_named(
                    &mut values,
                    "Unknown Type",
                    Val::Payload(Err(DissectError::InvalidData(message))),
                );
            },
        }
    }
    proof {
        assert(trees(values@) =~= frame(data@)->Ok_0->Object_0);
    }
    Ok(Box::new(Val::Object(values)))
}

} // verus!
