use rshark::ip::{dissect, lookup_protocol};
use rshark::{raw, AccessError, DissectError, Protocol, Val};

/// The child called `index`, or a panic that says why there is none.
fn at<'val, 'data>(val: &'val Val<'data>, index: &str) -> &'val Val<'data> {
    match val.get(index) {
        Err(err) => panic!("indexing error: {}", err.to_string()),
        Ok(val) => val,
    }
}

const PACKET: [u8; 60] = [69, 0, 0, 60, 0, 0, 64, 0, 46, 6, 161, 36, 46, 137, 186, 243, 192, 168, 1, 115, 1, 187, 252, 235, 74, 97, 130, 175, 50, 220, 74, 238, 5, 18, 56, 144, 237, 13, 0, 0, 2, 4, 5, 180, 4, 2, 8, 10, 15, 68, 221, 156, 29, 26, 35, 62, 1, 3, 3, 6];

#[test]
fn dissect_ip() {
    let data = [69, 0, 0, 60, 0, 0, 64, 0, 46, 6, 161, 36, 46, 137, 186, 243, 192, 168, 1, 115, 1, 187, 252, 235, 74, 97, 130, 175, 50, 220, 74, 238, 5, 18, 56, 144, 237, 13, 0, 0, 2, 4, 5, 180, 4, 2, 8, 10, 15, 68, 221, 156, 29, 26, 35, 62, 1, 3, 3, 6];

    let val = *dissect(&data).unwrap();
    println!("{}", &val.to_string());
    println!("{}", &val.pretty_print(0));

    assert_eq!(at(&val, "Version").as_unsigned().unwrap(), 4);
    assert_eq!(at(&val, "IHL").as_unsigned().unwrap(), 5);
    assert_eq!(at(&val, "DSCP").as_unsigned().unwrap(), 0);
    assert_eq!(at(&val, "ECN").as_unsigned().unwrap(), 0);
    assert_eq!(at(&val, "Length").as_unsigned().unwrap(), 60);
    assert_eq!(at(&val, "Identification").as_unsigned().unwrap(), 46);
    assert_eq!(at(&val, "Protocol").as_unsigned().unwrap(), 6);
    assert_eq!(at(&val, "Checksum").as_bytes().unwrap(), &[0xa1u8, 0x24]);
    assert_eq!(at(&val, "Source").as_address_encoded().unwrap(), "46.137.186.243");
    assert_eq!(at(&val, "Destination").as_address_encoded().unwrap(), "192.168.1.115");
    assert!(at(&val, "TCP").is_payload());
}

#[test]
fn the_payload_of_the_packet_is_its_tcp_segment() {
    let val = *dissect(&PACKET).unwrap();
    assert!(matches!(at(&val, "TCP").as_payload(), Some(Ok(_))));
    assert_eq!(val.get_path(&["TCP", "Source Port"]), Ok(&Val::Unsigned(443)));
    assert_eq!(at(&val, "Source").as_address_bytes().unwrap(), &[46, 137, 186, 243]);
    assert_eq!(at(&val, "Destination").as_address_bytes().unwrap(), &[192, 168, 1, 115]);
    assert!(matches!(val.get("Options"), Err(AccessError::NotFound(_))));
}

#[test]
fn every_packet_shorter_than_twenty_bytes_underflows() {
    for have in 0..20 {
        assert_eq!(
            dissect(&PACKET[..have]),
            Err(DissectError::Underflow {
                expected: 20,
                have,
                message: "An IP packet must be at least 20 B".to_string(),
            })
        );
    }
}

#[test]
fn a_header_longer_than_the_packet_underflows() {
    let mut data = PACKET[..30].to_vec();
    data[0] = 0x4f;
    assert_eq!(
        dissect(&data),
        Err(DissectError::Underflow {
            expected: 60,
            have: 30,
            message: "IP packet IHL (header length) greater than available data".to_string(),
        })
    );
    data[0] = 0x48;
    assert_eq!(
        dissect(&data).unwrap_err(),
        DissectError::Underflow {
            expected: 32,
            have: 30,
            message: "IP packet IHL (header length) greater than available data".to_string(),
        }
    );
}

#[test]
fn a_longer_header_has_options() {
    let mut data = PACKET.to_vec();
    data[0] = 0x47;
    data[9] = 17;
    let val = *dissect(&data).unwrap();
    assert_eq!(at(&val, "IHL"), &Val::Unsigned(7));
    assert_eq!(at(&val, "Options"), &Val::Bytes(&PACKET[20..28]));
    assert_eq!(val.get_path(&["Unknown", "raw data"]), Ok(&Val::Bytes(&PACKET[28..])));
    let names: Vec<&str> = val.as_object().unwrap().iter().map(|child| child.0).collect();
    assert_eq!(
        names,
        vec![
            "Version", "IHL", "DSCP", "ECN", "Length", "Identification", "Protocol", "Checksum",
            "Source", "Destination", "Options", "Unknown",
        ]
    );
}

#[test]
fn the_whole_packet_can_be_header() {
    let mut data = PACKET[..24].to_vec();
    data[0] = 0x46;
    data[9] = 1;
    let val = *dissect(&data).unwrap();
    assert_eq!(at(&val, "Options"), &Val::Bytes(&PACKET[20..24]));
    assert_eq!(val.get_path(&["Unknown", "raw data"]), Ok(&Val::Bytes(&[])));
}

#[test]
fn the_fields_of_the_second_byte() {
    let mut data = PACKET.to_vec();
    data[1] = 0b1011_1010;
    let val = *dissect(&data).unwrap();
    assert_eq!(at(&val, "DSCP"), &Val::Unsigned(0b10_1110));
    assert_eq!(at(&val, "ECN"), &Val::Unsigned(0b10));
    data[0] = 0xf5;
    data[2] = 0xff;
    data[3] = 0xfe;
    let val = *dissect(&data).unwrap();
    assert_eq!(at(&val, "Version"), &Val::Unsigned(15));
    assert_eq!(at(&val, "IHL"), &Val::Unsigned(5));
    assert_eq!(at(&val, "Length"), &Val::Unsigned(0xfffe));
}

#[test]
fn another_protocol_stays_raw() {
    let mut data = PACKET.to_vec();
    data[9] = 17;
    let val = *dissect(&data).unwrap();
    assert_eq!(at(&val, "Protocol"), &Val::Unsigned(17));
    assert_eq!(at(&val, "Unknown"), &Val::Payload(raw(&PACKET[20..])));
    assert!(matches!(val.get("TCP"), Err(AccessError::NotFound(_))));
}

#[test]
fn the_table_of_protocol_numbers() {
    assert_eq!(lookup_protocol(6), ("TCP", Protocol::Tcp));
    assert_eq!(lookup_protocol(17), ("Unknown", Protocol::Raw));
    assert_eq!(lookup_protocol(0), ("Unknown", Protocol::Raw));
    assert_eq!(lookup_protocol(255), ("Unknown", Protocol::Raw));
}

#[test]
fn a_short_segment_fails_below_the_packet() {
    let val = *dissect(&PACKET[..39]).unwrap();
    assert_eq!(at(&val, "Version"), &Val::Unsigned(4));
    assert_eq!(at(&val, "Destination").as_address_encoded(), Some("192.168.1.115"));
    assert_eq!(
        at(&val, "TCP"),
        &Val::Payload(Err(DissectError::Underflow {
            expected: 20,
            have: 19,
            message: "An TCP packet must be at least 20 B".to_string(),
        }))
    );
    match val.get_path(&["TCP", "Source Port"]) {
        Err(AccessError::DissectError(description)) => assert_eq!(
            description,
            "Val::Payload under index 'Source Port' contains error: underflow (expected 20, have 19): An TCP packet must be at least 20 B"
        ),
        _ => panic!("wrong outcome"),
    }
}

#[test]
fn a_header_that_says_less_than_twenty_bytes() {
    let mut data = PACKET[..20].to_vec();
    data[0] = 0x40;
    data[9] = 0;
    let val = *dissect(&data).unwrap();
    assert_eq!(at(&val, "IHL"), &Val::Unsigned(0));
    assert!(matches!(val.get("Options"), Err(AccessError::NotFound(_))));
    assert_eq!(val.get_path(&["Unknown", "raw data"]), Ok(&Val::Bytes(&data)));
}

#[test]
fn the_protocols_dissect_as_their_dissectors() {
    assert_eq!(Protocol::Ip.dissect(&PACKET), dissect(&PACKET));
    assert_eq!(Protocol::Tcp.dissect(&PACKET[20..]), rshark::ip::tcp::dissect(&PACKET[20..]));
    assert_eq!(Protocol::Raw.dissect(&PACKET), raw(&PACKET));
    assert_eq!(Protocol::Ip.dissect(&[]), dissect(&[]));
}

#[test]
fn raw_keeps_the_bytes() {
    let val = *raw(&[1, 2, 3]).unwrap();
    assert_eq!(val.as_object().unwrap().len(), 1);
    assert_eq!(at(&val, "raw data"), &Val::Bytes(&[1, 2, 3]));
    assert_eq!(raw(&[]).unwrap().lookup("raw data"), Some(&Val::Bytes(&[])));
    assert_eq!(raw(&[0xff]).unwrap().to_string(), "{ raw data: 1 B [ ff ] }");
}

#[test]
fn dissecting_a_packet_twice_gives_equal_trees() {
    let copy = PACKET.to_vec();
    let first = dissect(&PACKET).unwrap();
    let second = dissect(&copy).unwrap();
    assert_eq!(first, second);
    assert_eq!(first.to_string(), second.to_string());
    assert_eq!(first.pretty_print(1), second.pretty_print(1));
}
