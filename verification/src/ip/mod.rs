//! Dissection of Internet Protocol (IP) packets.
//!
//! See [RFC 791](https://tools.ietf.org/html/rfc791).

pub mod tcp;

use crate::access::{names_of, AccessFault};
use crate::error::{DissectError, Fault};
use crate::ip::tcp::{field, number};
use crate::protocol::Protocol;
use crate::text::{contents, decimal, decimal_string, join, joined};
use crate::value::{
    lemma_first_position, outcome_of, push_named, trees, DissectResult, NamedValues, Outcome,
    Tree, Val,
};
use vstd::prelude::*;
use vstd::string::*;

verus! {

/// The least number of bytes that a packet has.
pub const MINIMUM: usize = 20;

/// The length of the header in bytes that a packet declares: its IHL, the
/// low half of byte 0, counts words of four bytes.
pub open spec fn header_length(data: Seq<u8>) -> nat {
    4 * (data[0] as nat % 16)
}

/// The table of the protocols above IP: the label and the protocol that a
/// protocol number stands for. A number that the table does not know is
/// labelled as unknown and left as raw data.
pub open spec fn protocol_entry(number: u8) -> (Seq<char>, Protocol) {
    if number == 6 {
        ("TCP"@, Protocol::Tcp)
    } else {
        ("Unknown"@, Protocol::Raw)
    }
}

/// The bytes of an address as decimal numbers with dots between them.
pub open spec fn dotted(bytes: Seq<u8>) -> Seq<char> {
    joined(Seq::new(bytes.len(), |i: int| decimal(bytes[i] as nat)), "."@)
}

/// The address in the bytes of `data` from `from` up to `to`.
pub open spec fn address(data: Seq<u8>, from: int, to: int) -> Tree {
    Tree::Address { bytes: data.subrange(from, to), encoded: dotted(data.subrange(from, to)) }
}

/// The fields that every packet has, in the order of their display. The
/// identification is read from the single byte 8.
pub open spec fn fixed_fields(data: Seq<u8>) -> Seq<(Seq<char>, Tree)> {
    seq![
        ("Version"@, Tree::Unsigned((data[0] / 16) as u64)),
        ("IHL"@, Tree::Unsigned((data[0] % 16) as u64)),
        ("DSCP"@, Tree::Unsigned((data[1] / 4) as u64)),
        ("ECN"@, Tree::Unsigned((data[1] % 4) as u64)),
        ("Length"@, number(data, 2, 4)),
        ("Identification"@, Tree::Unsigned(data[8] as u64)),
        ("Protocol"@, Tree::Unsigned(data[9] as u64)),
        ("Checksum"@, Tree::Bytes(data.subrange(10, 12))),
        ("Source"@, address(data, 12, 16)),
        ("Destination"@, address(data, 16, 20)),
    ]
}

/// The fields of the header: the fixed ones, and the options if the header
/// is longer than the fixed fields.
pub open spec fn header_fields(data: Seq<u8>) -> Seq<(Seq<char>, Tree)> {
    if header_length(data) > 20 {
        fixed_fields(data).push(
            ("Options"@, Tree::Bytes(data.subrange(20, header_length(data) as int))),
        )
    } else {
        fixed_fields(data)
    }
}

/// What a packet is dissected to: an underflow if it is shorter than the
/// fixed header or than the header that it declares, else its header fields
/// and, under the label of its protocol, the outcome of dissecting what
/// follows the header.
pub open spec fn packet(data: Seq<u8>) -> Outcome
    decreases 2int, 0int,
{
    if data.len() < MINIMUM {
        Err(
            Fault::Underflow {
                expected: MINIMUM as nat,
                have: data.len(),
                message: "An IP packet must be at least 20 B"@,
            },
        )
    } else if header_length(data) > data.len() {
        Err(
            Fault::Underflow {
                expected: header_length(data),
                have: data.len(),
                message: "IP packet IHL (header length) greater than available data"@,
            },
        )
    } else {
        let next = protocol_entry(data[9]);
        Ok(
            Box::new(
                Tree::Object(
                    header_fields(data).push(
                        (
                            next.0,
                            Tree::Payload(next.1.dissection(data.skip(header_length(data) as int))),
                        ),
                    ),
                ),
            ),
        )
    }
}

/// What the payload of a packet comes to never touches the header: in the
/// tree of every packet that holds the header that it declares, the names of
/// the version and of the protocol lead to what the header says, whether the
/// payload could be dissected or not.
pub proof fn lemma_header_survives(data: Seq<u8>)
    requires
        data.len() >= MINIMUM,
        header_length(data) <= data.len(),
    ensures
        packet(data) matches Ok(tree) && tree.get("Version"@) == Ok::<Tree, AccessFault>(
            Tree::Unsigned((data[0] / 16) as u64),
        ) && tree.get("Protocol"@) == Ok::<Tree, AccessFault>(Tree::Unsigned(data[9] as u64)),
{
    reveal_strlit("Version");
    reveal_strlit("IHL");
    reveal_strlit("DSCP");
    reveal_strlit("ECN");
    reveal_strlit("Length");
    reveal_strlit("Identification");
    reveal_strlit("Protocol");
    let tree = *packet(data)->Ok_0;
    let children = tree->Object_0;
    let names = names_of(children);
    let wanted = "Protocol"@;
    assert(names[0] == "Version"@ && names[0][0] != wanted[0]);
    assert(names[1] == "IHL"@ && names[1][0] != wanted[0]);
    assert(names[2] == "DSCP"@ && names[2][0] != wanted[0]);
    assert(names[3] == "ECN"@ && names[3][0] != wanted[0]);
    assert(names[4] == "Length"@ && names[4][0] != wanted[0]);
    assert(names[5] == "Identification"@ && names[5][0] != wanted[0]);
    assert(names[6] == wanted);
    lemma_first_position(names, "Version"@, 0);
    lemma_first_position(names, wanted, 6);
}

/// Looks a protocol number up in the table of the protocols above IP.
pub fn lookup_protocol(number: u8) -> (entry: (&'static str, Protocol))
    ensures
        (entry.0@, entry.1) == protocol_entry(number),
{
    match number {
        6 => ("TCP", Protocol::Tcp),
        _ => ("Unknown", Protocol::Raw),
    }
}

/// Reads the bytes of `data` from `from` up to `to` as an address.
pub fn address_field<'data>(data: &'data [u8], from: usize, to: usize) -> (val: Val<'data>)
    requires
        from <= to <= data@.len(),
    ensures
        val@ == address(data@, from as int, to as int),
{
    let bytes = &data[from..to];
    let ghost all = Seq::new(bytes@.len(), |i: int| decimal(bytes@[i] as nat));
    let mut parts: Vec<String> = Vec::new();
    let mut at: usize = 0;
    proof {
        assert(contents(parts@) =~= all.take(0));
    }
    while at < bytes.len()
        invariant
            at <= bytes@.len(),
            all == Seq::new(bytes@.len(), |i: int| decimal(bytes@[i] as nat)),
            contents(parts@) == all.take(at as int),
        decreases bytes@.len() - at,
    {
        let part = decimal_string(bytes[at] as u64);
        proof {
            assert(contents(parts@.push(part)) =~= contents(parts@).push(part@));
            assert(all.take(at + 1) =~= all.take(at as int).push(all[at as int]));
        }
        parts.push(part);
        at += 1;
    }
    proof {
        assert(all.take(at as int) =~= all);
    }
    Val::Address { bytes, encoded: join(&parts, ".") }
}

/// Dissects an IP packet: the fixed header, its options if it declares any,
/// and what follows the header as the protocol that the header names.
pub fn dissect<'data>(data: &'data [u8]) -> (result: DissectResult<'data>)
    ensures
        outcome_of(result) == packet(data@),
        data@.len() < 20 ==> (result matches Err(DissectError::Underflow { expected, have, .. })
            && expected == 20 && have == data@.len()),
    decreases 2int, 0int,
{
    if data.len() < MINIMUM {
        return Err(
            DissectError::Underflow {
                expected: MINIMUM,
                have: data.len(),
                message: String::from_str("An IP packet must be at least 20 B"),
            },
        );
    }
    let version: u8 = data[0] >> 4;
    let ihl: u8 = data[0] & 0x0f;
    let dscp: u8 = data[1] >> 2;
    let ecn: u8 = data[1] & 0x03;
    proof {
        let first: u8 = data[0];
        let second: u8 = data[1];
        assert(first >> 4 == first / 16) by (bit_vector);
        assert(first & 0x0f == first % 16) by (bit_vector);
        assert(second >> 2 == second / 4) by (bit_vector);
        assert(second & 0x03 == second % 4) by (bit_vector);
    }
    let header_length: usize = ihl as usize * 4;
    if header_length > data.len() {
        return Err(
            DissectError::Underflow {
                expected: header_length,
                have: data.len(),
                message: String::from_str(
                    "IP packet IHL (header length) greater than available data",
                ),
            },
        );
    }
    let mut values: NamedValues<'data> = Vec::new();
    proof {
        assert(trees(values@) =~= Seq::empty());
    }
    push_named(&mut values, "Version", Val::Unsigned(version as u64));
    push_named(&mut values, "IHL", Val::Unsigned(ihl as u64));
    push_named(&mut values, "DSCP", Val::Unsigned(dscp as u64));
    push_named(&mut values, "ECN", Val::Unsigned(ecn as u64));
    push_named(&mut values, "Length", field(data, 2, 4));
    push_named(&mut values, "Identification", Val::Unsigned(data[8] as u64));
    let protocol: u8 = data[9];
    push_named(&mut values, "Protocol", Val::Unsigned(protocol as u64));
    push_named(&mut values, "Checksum", Val::Bytes(&data[10..12]));
    push_named(&mut values, "Source", address_field(data, 12, 16));
    push_named(&mut values, "Destination", address_field(data, 16, 20));
    proof {
        assert(trees(values@) =~= fixed_fields(data@));
    }
    if header_length > 20 {
        push_named(&mut values, "Options", Val::Bytes(&data[20..header_length]));
    }
    let remainder = &data[header_length..data.len()];
    proof {
        assert(remainder@ =~= data@.skip(header_length as int));
    }
    let next = lookup_protocol(protocol);
    push_named(&mut values, next.0, Val::Payload(next.1.dissect(remainder)));
    Ok(Box::new(Val::Object(values)))
}

} // verus!
