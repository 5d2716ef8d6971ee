//! Dissection of Transmission Control Protocol (TCP) segments.
//!
//! See [RFC 793](https://tools.ietf.org/html/rfc793).

use crate::decode::{big_endian, unsigned, Endianness};
use crate::error::{DissectError, Fault};
use crate::protocol::{raw, raw_data};
use crate::value::{
    flag_names, outcome_of, push_named, trees, DissectResult, NamedValues, Outcome, Tree, Val,
};
use vstd::prelude::*;
use vstd::string::*;

verus! {

/// The least number of bytes that a segment has.
pub const MINIMUM: usize = 20;

/// The length of the header in bytes that a segment declares: its data
/// offset, the high half of byte 12, counts words of four bytes.
pub open spec fn header_length(data: Seq<u8>) -> nat {
    4 * (data[12] as nat / 16)
}

/// The names of the control flags, from the bit of least weight up.
pub open spec fn flag_labels() -> Seq<Option<Seq<char>>> {
    seq![
        Some("CWR"@),
        Some("ECE"@),
        Some("URG"@),
        Some("ACK"@),
        Some("PSH"@),
        Some("RST"@),
        Some("SYN"@),
        Some("FIN"@),
    ]
}

/// The unsigned number in the bytes of `data` from `from` up to `to`, the
/// first of them weighing most.
pub open spec fn number(data: Seq<u8>, from: int, to: int) -> Tree {
    Tree::Unsigned(big_endian(data.subrange(from, to)) as u64)
}

/// The fields that every segment has, in the order of their display.
pub open spec fn fixed_fields(data: Seq<u8>) -> Seq<(Seq<char>, Tree)> {
    seq![
        ("Source Port"@, number(data, 0, 2)),
        ("Destination Port"@, number(data, 2, 4)),
        ("Sequence Number"@, number(data, 4, 8)),
        ("Acknowledgement Number"@, number(data, 8, 12)),
        ("Offset"@, Tree::Unsigned((data[12] / 16) as u64)),
        ("Flags"@, Tree::BitFlags8(data[14], flag_labels())),
        ("Window"@, number(data, 14, 16)),
        ("Checksum"@, Tree::Bytes(data.subrange(16, 18))),
        ("Urgent Pointer"@, number(data, 18, 20)),
    ]
}

/// The fields of the header: the fixed ones, and the options if the header
/// is longer than the fixed fields.
pub open spec fn header_fields(data: Seq<u8>) -> Seq<(Seq<char>, Tree)> {
    if header_length(data) > 20 {
        fixed_fields(data).push(
            ("Options"@, Tree::Bytes(data.subrange(20, header_length(data) as int))),
        )
    } else {
        fixed_fields(data)
    }
}

/// What a segment is dissected to: an underflow if it is shorter than the
/// fixed header or than the header that it declares, else its header fields
/// and, as raw data, what follows the header.
pub open spec fn segment(data: Seq<u8>) -> Outcome {
    if data.len() < MINIMUM {
        Err(
            Fault::Underflow {
                expected: MINIMUM as nat,
                have: data.len(),
                message: "An TCP packet must be at least 20 B"@,
            },
        )
    } else if header_length(data) > data.len() {
        Err(
            Fault::Underflow {
                expected: header_length(data),
                have: data.len(),
                message: "TCP packet offset (header length) greater than available data"@,
            },
        )
    } else {
        Ok(
            Box::new(
                Tree::Object(
                    header_fields(data).push(
                        (
                            "Payload"@,
                            Tree::Payload(raw_data(data.skip(header_length(data) as int))),
                        ),
                    ),
                ),
            ),
        )
    }
}

/// Reads the field of `data` from `from` up to `to` as an unsigned big-endian
/// number.
pub fn field<'data>(data: &'data [u8], from: usize, to: usize) -> (val: Val<'data>)
    requires
        from < to <= data@.len(),
        crate::decode::is_integer_size((to - from) as nat),
    ensures
        val@ == number(data@, from as int, to as int),
{
    Val::Unsigned(unsigned(&data[from..to], Endianness::BigEndian).unwrap())
}

/// Dissects a TCP segment: the fixed header, its options if it declares any,
/// and what follows the header as raw data.
pub fn dissect<'data>(data: &'data [u8]) -> (result: DissectResult<'data>)
    ensures
        outcome_of(result) == segment(data@),
        data@.len() < 20 ==> (result matches Err(DissectError::Underflow { expected, have, .. })
            && expected == 20 && have == data@.len()),
{
    if data.len() < MINIMUM {
        return Err(
            DissectError::Underflow {
                expected: MINIMUM,
                have: data.len(),
                message: String::from_str("An TCP packet must be at least 20 B"),
            },
        );
    }
    let offset: u8 = data[12] >> 4;
    let header_length: usize = offset as usize * 4;
    proof {
        let byte: u8 = data[12];
        assert(byte >> 4 == byte / 16) by (bit_vector);
    }
    if header_length > data.len() {
        return Err(
            DissectError::Underflow {
                expected: header_length,
                have: data.len(),
                message: String::from_str(
                    "TCP packet offset (header length) greater than available data",
                ),
            },
        );
    }
    let mut values: NamedValues<'data> = Vec::new();
    proof {
        assert(trees(values@) =~= Seq::empty());
    }
    push_named(&mut values, "Source Port", field(data, 0, 2));
    push_named(&mut values, "Destination Port", field(data, 2, 4));
    push_named(&mut values, "Sequence Number", field(data, 4, 8));
    push_named(&mut values, "Acknowledgement Number", field(data, 8, 12));
    push_named(&mut values, "Offset", Val::Unsigned(offset as u64));
    let names: [Option<&'static str>; 8] = [
        Some("CWR"),
        Some("ECE"),
        Some("URG"),
        Some("ACK"),
        Some("PSH"),
        Some("RST"),
        Some("SYN"),
        Some("FIN"),
    ];
    proof {
        assert(flag_names(names) =~= flag_labels());
    }
    push_named(&mut values, "Flags", Val::BitFlags8(data[14], names));
    push_named(&mut values, "Window", field(data, 14, 16));
    push_named(&mut values, "Checksum", Val::Bytes(&data[16..18]));
    push_named(&mut values, "Urgent Pointer", field(data, 18, 20));
    proof {
        assert(trees(values@) =~= fixed_fields(data@));
    }
    if header_length > 20 {
        push_named(&mut values, "Options", Val::Bytes(&data[20..header_length]));
    }
    let remainder = &data[header_length..data.len()];
    proof {
        assert(remainder@ =~= data@.skip(header_length as int));
    }
    push_named(&mut values, "Payload", Val::Payload(raw(remainder)));
    Ok(Box::new(Val::Object(values)))
}

} // verus!
