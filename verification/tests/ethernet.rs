use rshark::ethernet::{dissect, lookup_ether_type};
use rshark::{AccessError, DissectError, Protocol, Val};

/// The child called `index`, or a panic that says why there is none.
fn at<'val, 'data>(val: &'val Val<'data>, index: &str) -> &'val Val<'data> {
    match val.get(index) {
        Err(err) => panic!("indexing error: {}", err.to_string()),
        Ok(val) => val,
    }
}

/// A frame with the given type code in front of the given payload.
fn frame(code: u16, payload: &[u8]) -> Vec<u8> {
    let mut data = vec![0x01, 0x02, 0x03, 0x04, 0x05, 0x06, 0x0a, 0x0b, 0x0c, 0x0d, 0x0e, 0x0f];
    data.push((code >> 8) as u8);
    data.push((code & 0xff) as u8);
    data.extend_from_slice(payload);
    data
}

const IP_PACKET: [u8; 60] = [69, 0, 0, 60, 0, 0, 64, 0, 46, 6, 161, 36, 46, 137, 186, 243, 192, 168, 1, 115, 1, 187, 252, 235, 74, 97, 130, 175, 50, 220, 74, 238, 160, 18, 56, 144, 237, 13, 0, 0, 2, 4, 5, 180, 4, 2, 8, 10, 15, 68, 221, 156, 29, 26, 35, 62, 1, 3, 3, 6];

#[test]
fn dissect_ethernet() {
    let data = [0xff, 0xff, 0xff, 0xff, 0xff, 0xff, 0xa0, 0x0b, 0xba, 0x84, 0x2d, 0x0e, 0x08, 0x06, 0x00, 0x01, 0x08, 0x00, 0x06, 0x04, 0x00, 0x01, 0xa0, 0x0b, 0xba, 0x84, 0x2d, 0x0e, 0xc0, 0xa8, 0x01, 0x7c, 0x00, 0x00, 0x00, 0x00, 0x00, 0x00, 0xc0, 0xa8, 0x01, 0x02, 0x00, 0x00, 0x00, 0x00, 0x00, 0x00, 0x00, 0x00, 0x00, 0x00, 0x00, 0x00, 0x00, 0x00, 0x00, 0x00, 0x00, 0x00];

    let val = *dissect(&data).unwrap();
    println!("{}", &val.pretty_print(0));

    assert_eq!(at(&val, "Destination").as_bytes().unwrap(), &[0xff, 0xff, 0xff, 0xff, 0xff, 0xff]);
    assert_eq!(at(&val, "Source").as_bytes().unwrap(), &[0xa0, 0x0b, 0xba, 0x84, 0x2d, 0x0e]);
    assert!(at(&val, "ARP").is_payload());
}

#[test]
fn ethernet_underflow_names_header_size() {
    let data = [132, 56, 53, 69, 73, 136, 156, 32, 123, 233];
    assert_eq!(
        dissect(&data).unwrap_err(),
        DissectError::Underflow {
            expected: 14,
            have: 10,
            message: "Need 14 B of data to dissect Ethernet packet, have 10 B".to_string(),
        }
    );
}

#[test]
fn every_frame_shorter_than_the_header_underflows() {
    let data = [0xffu8; 13];
    for have in 0..14 {
        match dissect(&data[..have]) {
            Err(DissectError::Underflow { expected, have: found, .. }) => {
                assert_eq!(expected, 14);
                assert_eq!(found, have);
            }
            _ => panic!("wrong outcome"),
        }
    }
}

#[test]
fn a_header_alone_is_a_frame() {
    let data = frame(0, &[]);
    let val = *dissect(&data).unwrap();
    assert_eq!(at(&val, "Length"), &Val::Unsigned(0));
    assert_eq!(val.as_object().unwrap().len(), 3);
}

#[test]
fn a_field_up_to_1500_is_a_length() {
    for code in [0u16, 46, 1499, 1500] {
        let data = frame(code, &[1, 2, 3]);
        let val = *dissect(&data).unwrap();
        assert_eq!(at(&val, "Length"), &Val::Unsigned(code as u64));
        let names: Vec<&str> = val.as_object().unwrap().iter().map(|child| child.0).collect();
        assert_eq!(names, vec!["Destination", "Source", "Length"]);
    }
}

#[test]
fn an_unknown_type_fails_the_payload_only() {
    let data = frame(0x9999, &[1, 2, 3]);
    let val = *dissect(&data).unwrap();
    assert_eq!(at(&val, "Destination").as_bytes().unwrap(), &[1, 2, 3, 4, 5, 6]);
    assert_eq!(at(&val, "Source").as_bytes().unwrap(), &[0x0a, 0x0b, 0x0c, 0x0d, 0x0e, 0x0f]);
    assert_eq!(
        at(&val, "Unknown Type"),
        &Val::Payload(Err(DissectError::InvalidData("unknown protocol: 9999".to_string())))
    );
    match at(&val, "Unknown Type").as_payload() {
        Some(Err(DissectError::InvalidData(message))) => assert!(message.contains("9999")),
        _ => panic!("wrong outcome"),
    }
    assert!(matches!(val.get_path(&["Unknown Type", "x"]), Err(AccessError::DissectError(_))));
}

#[test]
fn the_first_code_above_1500_is_a_type() {
    let data = frame(1501, &[]);
    let val = *dissect(&data).unwrap();
    assert_eq!(
        at(&val, "Unknown Type"),
        &Val::Payload(Err(DissectError::InvalidData("unknown protocol: 5dd".to_string())))
    );
}

#[test]
fn the_table_of_type_codes() {
    assert_eq!(lookup_ether_type(0x0800), Some(("IP", Protocol::Ip)));
    assert_eq!(lookup_ether_type(0x0806), Some(("ARP", Protocol::Raw)));
    assert_eq!(lookup_ether_type(0x8137), Some(("IPX", Protocol::Raw)));
    assert_eq!(lookup_ether_type(0x8138), Some(("IPX", Protocol::Raw)));
    assert_eq!(lookup_ether_type(0x86dd), Some(("IPv6", Protocol::Raw)));
    assert_eq!(lookup_ether_type(0x9999), None);
    assert_eq!(lookup_ether_type(0x0801), None);
    assert_eq!(lookup_ether_type(6), None);
}

#[test]
fn payloads_without_a_layout_stay_raw() {
    for (code, label) in [(0x0806u16, "ARP"), (0x8137, "IPX"), (0x8138, "IPX"), (0x86dd, "IPv6")] {
        let data = frame(code, &[7, 8, 9]);
        let val = *dissect(&data).unwrap();
        assert_eq!(val.get_path(&[label, "raw data"]), Ok(&Val::Bytes(&[7, 8, 9])));
    }
}

#[test]
fn ip_is_dissected_below_ethernet() {
    let data = frame(0x0800, &IP_PACKET);
    let val = *dissect(&data).unwrap();
    assert_eq!(val.lookup("IP.Version"), Some(&Val::Unsigned(4)));
    assert_eq!(val.lookup("IP.Source").unwrap().as_address_encoded(), Some("46.137.186.243"));
    assert_eq!(val.lookup("IP.TCP.Source Port"), Some(&Val::Unsigned(443)));
    assert_eq!(val.lookup("IP.TCP.Destination Port"), Some(&Val::Unsigned(64747)));
    assert_eq!(val.lookup("IP.TCP.Payload.raw data"), Some(&Val::Bytes(&[])));
}

#[test]
fn a_failure_three_layers_deep_stays_there() {
    let data = frame(0x0800, &IP_PACKET[..30]);
    let val = *dissect(&data).unwrap();
    assert_eq!(at(&val, "Source").as_bytes().unwrap(), &[0x0a, 0x0b, 0x0c, 0x0d, 0x0e, 0x0f]);
    assert_eq!(val.lookup("IP.Protocol"), Some(&Val::Unsigned(6)));
    assert_eq!(
        val.lookup("IP.TCP"),
        Some(&Val::Payload(Err(DissectError::Underflow {
            expected: 20,
            have: 10,
            message: "An TCP packet must be at least 20 B".to_string(),
        })))
    );
    assert!(matches!(
        val.get_path(&["IP", "TCP", "Source Port"]),
        Err(AccessError::DissectError(_))
    ));
    assert_eq!(val.lookup("IP.TCP.Source Port"), None);
}

#[test]
fn a_short_ip_packet_fails_below_the_frame() {
    let data = frame(0x0800, &[69, 0, 0]);
    let val = *dissect(&data).unwrap();
    assert_eq!(
        at(&val, "IP"),
        &Val::Payload(Err(DissectError::Underflow {
            expected: 20,
            have: 3,
            message: "An IP packet must be at least 20 B".to_string(),
        }))
    );
}

#[test]
fn dissecting_twice_gives_equal_trees_and_equal_text() {
    for data in [frame(0x0800, &IP_PACKET), frame(0x9999, &[1]), frame(100, &[]), vec![1, 2, 3]] {
        let copy = data.clone();
        let first = dissect(&data);
        let second = dissect(&copy);
        assert_eq!(first, second);
        if let (Ok(first), Ok(second)) = (first, second) {
            assert_eq!(first.to_string(), second.to_string());
            assert_eq!(first.pretty_print(0), second.pretty_print(0));
            assert_eq!(first.debug_string(), second.debug_string());
        }
    }
}

#[test]
fn a_frame_renders_indented() {
    let data = frame(0x0806, &[0xde, 0xad]);
    let val = *dissect(&data).unwrap();
    assert_eq!(
        val.pretty_print(0),
        "\nDestination: 6 B [ 01 02 03 04 05 06 ]\nSource: 6 B [ 0a 0b 0c 0d 0e 0f ]\nARP: -> \n    raw data: 2 B [ de ad ]\n\n"
    );
    assert_eq!(
        val.to_string(),
        "{ Destination: 6 B [ 01 02 03 04 05 06 ], Source: 6 B [ 0a 0b 0c 0d 0e 0f ], ARP: ({ raw data: 2 B [ de ad ] }) }"
    );
}
