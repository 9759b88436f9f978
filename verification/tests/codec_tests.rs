use bufr::{decode_data, decode_subsets, Descriptor, Error, Event, Node, Registry, Value};

fn d(f: u8, x: u8, y: u8) -> Descriptor {
    Descriptor { f, x, y }
}

#[test]
fn sequence_expansion_reads_time() {
    let reg = Registry::bundled();
    // (3,1,13) inlines hour, minute, second: 5+6+6 bits.
    let descs = vec![d(3, 1, 13)];
    let data = [0x63u8, 0xd6, 0x80]; // 01100 011110 101101 0000000
    let (subs, _) = decode_subsets(&reg, &descs, 1, &data).unwrap();
    assert_eq!(subs.len(), 1);
    let events = &subs[0];
    assert_eq!(events.len(), 5);
    assert_eq!(events[0], Event::EnterSequence(d(3, 1, 13)));
    match &events[1] {
        Event::Element(dd, v) => {
            assert_eq!(*dd, d(0, 4, 4));
            assert_eq!(v.value, Value::Integer(12));
            assert_eq!(v.associated, None);
        }
        _ => assert!(false),
    }
    match &events[2] {
        Event::Element(_, v) => assert_eq!(v.value, Value::Integer(30)),
        _ => assert!(false),
    }
    match &events[3] {
        Event::Element(_, v) => assert_eq!(v.value, Value::Integer(45)),
        _ => assert!(false),
    }
    assert_eq!(events[4], Event::LeaveSequence(d(3, 1, 13)));

    // The assembled tree mirrors the stream.
    let dd = decode_data(&reg, &descs, 1, false, &data).unwrap();
    assert_eq!(dd.subsets.len(), 1);
    assert_eq!(dd.subsets[0].nodes.len(), 1);
    match &dd.subsets[0].nodes[0] {
        Node::SequenceNode(sd, kids) => {
            assert_eq!(*sd, d(3, 1, 13));
            assert_eq!(kids.len(), 3);
            match &kids[0] {
                Node::Leaf(_, v) => assert_eq!(v.value, Value::Integer(12)),
                _ => assert!(false),
            }
        }
        _ => assert!(false),
    }
}

#[test]
fn fixed_replication_repeats_block() {
    let reg = Registry::bundled();
    // replicate the next 1 descriptor 2 times
    let descs = vec![d(1, 1, 2), d(0, 4, 2)];
    let data = [0x5au8]; // months 0101 and 1010
    let dd = decode_data(&reg, &descs, 1, false, &data).unwrap();
    assert_eq!(dd.subsets[0].nodes.len(), 1);
    match &dd.subsets[0].nodes[0] {
        Node::ReplicationNode(rd, n, iters) => {
            assert_eq!(*rd, d(1, 1, 2));
            assert_eq!(*n, 2);
            assert_eq!(iters.len(), 2);
            match &iters[0][0] {
                Node::Leaf(_, v) => assert_eq!(v.value, Value::Integer(5)),
                _ => assert!(false),
            }
            match &iters[1][0] {
                Node::Leaf(_, v) => assert_eq!(v.value, Value::Integer(10)),
                _ => assert!(false),
            }
        }
        _ => assert!(false),
    }
}

#[test]
fn delayed_replication_reads_count_first() {
    let reg = Registry::bundled();
    let descs = vec![d(1, 1, 0), d(0, 31, 1), d(0, 4, 2)];
    let data = [0x02u8, 0x5a];
    let (subs, _) = decode_subsets(&reg, &descs, 1, &data).unwrap();
    let events = &subs[0];
    // count element, enter, (iter 1), (iter 2), leave
    match &events[0] {
        Event::Element(cd, v) => {
            assert_eq!(*cd, d(0, 31, 1));
            assert_eq!(v.value, Value::Integer(2));
        }
        _ => assert!(false),
    }
    assert_eq!(events[1], Event::EnterReplication(d(1, 1, 0), 2));
    assert_eq!(events[2], Event::EnterIteration(1));
    match &events[3] {
        Event::Element(_, v) => assert_eq!(v.value, Value::Integer(5)),
        _ => assert!(false),
    }
    assert_eq!(events[4], Event::LeaveIteration);
    assert_eq!(events[5], Event::EnterIteration(2));
    match &events[6] {
        Event::Element(_, v) => assert_eq!(v.value, Value::Integer(10)),
        _ => assert!(false),
    }
    assert_eq!(events[7], Event::LeaveIteration);
    assert_eq!(events[8], Event::LeaveReplication);
    assert_eq!(events.len(), 9);
}

#[test]
fn all_ones_is_missing_and_nothing_else_is() {
    let reg = Registry::bundled();
    let descs = vec![d(0, 4, 2)]; // month, width 4
    for raw in 0..=15u8 {
        let data = [raw << 4];
        let (subs, _) = decode_subsets(&reg, &descs, 1, &data).unwrap();
        match &subs[0][0] {
            Event::Element(_, v) => {
                if raw == 15 {
                    assert_eq!(v.value, Value::Missing);
                } else {
                    assert_eq!(v.value, Value::Integer(raw as i64));
                }
            }
            _ => assert!(false),
        }
    }
}

#[test]
fn width_change_operator_widens_read() {
    let reg = Registry::bundled();
    let descs = vec![d(2, 1, 129), d(0, 4, 2)]; // width + 1
    let data = [0b1000_1000u8]; // 5 bits: 10001 = 17
    let (subs, _) = decode_subsets(&reg, &descs, 1, &data).unwrap();
    assert_eq!(subs[0][0], Event::Operator(d(2, 1, 129)));
    match &subs[0][1] {
        Event::Element(_, v) => assert_eq!(v.value, Value::Integer(17)),
        _ => assert!(false),
    }
}

#[test]
fn scale_change_operator_yields_decimal() {
    let reg = Registry::bundled();
    let descs = vec![d(2, 2, 130), d(0, 4, 2)]; // scale + 2
    let data = [0b0101_0000u8];
    let (subs, _) = decode_subsets(&reg, &descs, 1, &data).unwrap();
    match &subs[0][1] {
        Event::Element(_, v) => assert_eq!(v.value, Value::Numeric(5, 2)),
        _ => assert!(false),
    }
}

#[test]
fn character_width_operator_reads_text() {
    let reg = Registry::bundled();
    let descs = vec![d(2, 8, 2), d(0, 1, 19)]; // next text read is 2 bytes
    let data = *b"AB";
    let (subs, _) = decode_subsets(&reg, &descs, 1, &data).unwrap();
    match &subs[0][1] {
        Event::Element(_, v) => assert_eq!(v.value, Value::Text(b"AB".to_vec())),
        _ => assert!(false),
    }
}

#[test]
fn text_is_right_trimmed() {
    let reg = Registry::bundled();
    let descs = vec![d(2, 8, 4), d(0, 1, 19)];
    let data = *b"A \x00 ";
    let (subs, _) = decode_subsets(&reg, &descs, 1, &data).unwrap();
    match &subs[0][1] {
        Event::Element(_, v) => assert_eq!(v.value, Value::Text(b"A".to_vec())),
        _ => assert!(false),
    }
}

#[test]
fn signify_character_operator_reads_inline_text() {
    let reg = Registry::bundled();
    let descs = vec![d(2, 5, 2)];
    let data = *b"OK";
    let (subs, _) = decode_subsets(&reg, &descs, 1, &data).unwrap();
    match &subs[0][0] {
        Event::Element(od, v) => {
            assert_eq!(*od, d(2, 5, 2));
            assert_eq!(v.value, Value::Text(b"OK".to_vec()));
        }
        _ => assert!(false),
    }
}

#[test]
fn associated_field_operator_prefixes_reads() {
    let reg = Registry::bundled();
    let descs = vec![d(2, 4, 4), d(0, 4, 2)];
    let data = [0b1001_0011u8];
    let (subs, _) = decode_subsets(&reg, &descs, 1, &data).unwrap();
    match &subs[0][1] {
        Event::Element(_, v) => {
            assert_eq!(v.associated, Some(9));
            assert_eq!(v.value, Value::Integer(3));
        }
        _ => assert!(false),
    }
}

#[test]
fn data_not_present_operator_skips_reads() {
    let reg = Registry::bundled();
    let descs = vec![d(2, 21, 1), d(0, 4, 2)];
    let data: [u8; 0] = [];
    let (subs, _) = decode_subsets(&reg, &descs, 1, &data).unwrap();
    assert_eq!(subs[0][0], Event::Operator(d(2, 21, 1)));
    match &subs[0][1] {
        Event::Element(_, v) => assert_eq!(v.value, Value::Missing),
        _ => assert!(false),
    }
}

#[test]
fn change_reference_block_defines_and_applies() {
    let reg = Registry::bundled();
    // open a 4-bit new-reference block, define through the month element,
    // close the block, then read the month under the new reference.
    let descs = vec![d(2, 3, 4), d(0, 4, 2), d(2, 3, 255), d(0, 4, 2)];
    let data = [0b0011_0001u8]; // define +3, then raw 1
    let (subs, _) = decode_subsets(&reg, &descs, 1, &data).unwrap();
    let events = &subs[0];
    assert_eq!(events[0], Event::Operator(d(2, 3, 4)));
    assert_eq!(events[1], Event::Operator(d(2, 3, 255)));
    match &events[2] {
        Event::Element(_, v) => assert_eq!(v.value, Value::Integer(4)),
        _ => assert!(false),
    }
    assert_eq!(events.len(), 3);
}

#[test]
fn dangling_reference_block_is_an_error() {
    let reg = Registry::bundled();
    let descs = vec![d(2, 3, 4)];
    let data: [u8; 0] = [];
    assert_eq!(
        decode_subsets(&reg, &descs, 1, &data),
        Err(Error::OperatorMisuse)
    );
}

#[test]
fn unknown_element_is_reported() {
    let reg = Registry::bundled();
    let descs = vec![d(0, 63, 63)];
    let data: [u8; 0] = [];
    assert_eq!(
        decode_subsets(&reg, &descs, 1, &data),
        Err(Error::UnknownElement(63, 63))
    );
}

#[test]
fn unknown_sequence_is_reported() {
    let reg = Registry::bundled();
    let descs = vec![d(3, 63, 63)];
    let data: [u8; 0] = [];
    assert_eq!(
        decode_subsets(&reg, &descs, 1, &data),
        Err(Error::UnknownSequence(63, 63))
    );
}

#[test]
fn recursion_depth_is_bounded() {
    let mut reg = Registry::bundled();
    reg.insert_sequence(
        50,
        50,
        bufr::F3 {
            descriptors: vec![bufr::tables::Descriptor::Sequence(50, 50)],
            title: None,
        },
    );
    let descs = vec![d(3, 50, 50)];
    let data: [u8; 0] = [];
    assert_eq!(
        decode_subsets(&reg, &descs, 1, &data),
        Err(Error::RecursionTooDeep)
    );
}

#[test]
fn exhausted_bit_stream_is_reported() {
    let reg = Registry::bundled();
    let descs = vec![d(0, 4, 1)]; // year, 12 bits
    let data = [0u8]; // only 8 bits
    assert_eq!(
        decode_subsets(&reg, &descs, 1, &data),
        Err(Error::BitStreamExhausted)
    );
}

#[test]
fn element_limit_is_enforced() {
    let reg = Registry::bundled();
    // nested fixed replications whose innermost block is empty: a walk of
    // far more than the per-subset budget, reading no data at all.
    let descs = vec![d(1, 2, 255), d(1, 1, 255), d(1, 0, 255)];
    let data: [u8; 0] = [];
    assert_eq!(
        decode_subsets(&reg, &descs, 1, &data),
        Err(Error::ElementLimitExceeded)
    );
}

#[test]
fn unknown_operator_is_misuse() {
    let reg = Registry::bundled();
    let descs = vec![d(2, 63, 0)];
    let data: [u8; 0] = [];
    assert_eq!(
        decode_subsets(&reg, &descs, 1, &data),
        Err(Error::OperatorMisuse)
    );
}

#[test]
fn compressed_messages_are_rejected() {
    let reg = Registry::bundled();
    let descs = vec![d(0, 4, 2)];
    let data = [0u8];
    match decode_data(&reg, &descs, 1, true, &data) {
        Err(Error::CompressedNotSupported) => (),
        _ => assert!(false),
    };
}

#[test]
fn expansion_is_deterministic() {
    let reg = Registry::bundled();
    let descs = vec![d(3, 1, 13), d(1, 1, 2), d(0, 4, 2)];
    let data = [0x63u8, 0xd6, 0xad, 0x00];
    let a = decode_subsets(&reg, &descs, 1, &data).unwrap();
    let b = decode_subsets(&reg, &descs, 1, &data).unwrap();
    assert_eq!(a, b);
}

#[test]
fn subsets_read_one_continuous_stream() {
    let reg = Registry::bundled();
    let descs = vec![d(0, 4, 2)];
    let data = [0b0101_1010u8]; // two subsets: 5, then 10
    let (subs, _) = decode_subsets(&reg, &descs, 2, &data).unwrap();
    assert_eq!(subs.len(), 2);
    match &subs[0][0] {
        Event::Element(_, v) => assert_eq!(v.value, Value::Integer(5)),
        _ => assert!(false),
    }
    match &subs[1][0] {
        Event::Element(_, v) => assert_eq!(v.value, Value::Integer(10)),
        _ => assert!(false),
    }
}

#[test]
fn latitude_applies_scale_and_reference() {
    let reg = Registry::bundled();
    // latitude: width 25, scale 5, reference -9000000
    let descs = vec![d(0, 5, 1)];
    // raw = 9000000 => value 0 at scale 5
    let raw: u32 = 9000000;
    let data = [
        ((raw >> 17) & 0xff) as u8,
        ((raw >> 9) & 0xff) as u8,
        ((raw >> 1) & 0xff) as u8,
        ((raw & 1) << 7) as u8,
    ];
    let (subs, _) = decode_subsets(&reg, &descs, 1, &data).unwrap();
    match &subs[0][0] {
        Event::Element(_, v) => assert_eq!(v.value, Value::Numeric(0, 5)),
        _ => assert!(false),
    }
}

#[test]
fn consumed_bits_are_reported() {
    let reg = Registry::bundled();
    let descs = vec![d(3, 1, 13)];
    let data = [0x63u8, 0xd6, 0x80];
    let (_, consumed) = decode_subsets(&reg, &descs, 1, &data).unwrap();
    assert_eq!(consumed, 17);
    // the unread remainder is shorter than a byte: no warning
    let dd = decode_data(&reg, &descs, 1, false, &data).unwrap();
    assert!(dd.warnings.is_empty());
}

#[test]
fn trailing_bytes_raise_a_warning() {
    let reg = Registry::bundled();
    let descs = vec![d(0, 4, 2)];
    let data = [0x50u8, 0x00]; // 4 bits read, 12 left unread
    let dd = decode_data(&reg, &descs, 1, false, &data).unwrap();
    assert_eq!(dd.warnings.len(), 1);
}
