use bufr::{parse_descriptor, Descriptor};

#[test]
fn encode_descriptor_1() {
    let test_data = [0, 0];
    let descriptor = parse_descriptor(test_data);
    let mut result = vec![];
    let n = descriptor.encode(&mut result);

    assert_eq!(test_data, result[..]);
    assert_eq!(n, 2);
}

#[test]
fn lib_encode_descriptor_1() {
    let test_data = [0, 0];
    let descriptor = parse_descriptor(test_data);
    let result = descriptor.encode_descriptor();

    assert_eq!(test_data, result);
}

#[test]
fn encode_descriptor_2() {
    let test_data = [0x00, 0];
    let descriptor = parse_descriptor(test_data);
    assert_eq!(descriptor, Descriptor { f: 0, x: 0, y: 0 });
}

#[test]
fn encode_descriptor_001() {
    let test_data = [0x00, 1];
    let descriptor = parse_descriptor(test_data);
    assert_eq!(descriptor, Descriptor { f: 0, x: 0, y: 1 });
}

#[test]
fn encode_descriptor_010() {
    let test_data = [0x01, 0];
    let descriptor = parse_descriptor(test_data);
    assert_eq!(descriptor, Descriptor { f: 0, x: 1, y: 0 });
}

#[test]
fn encode_descriptor_3630() {
    let test_data = [0xff, 0];
    let descriptor = parse_descriptor(test_data);
    assert_eq!(descriptor, Descriptor { f: 3, x: 63, y: 0 });
}

#[test]
fn encode_descriptor_3ff() {
    let test_data = [0xff, 0xff];
    let descriptor = parse_descriptor(test_data);
    assert_eq!(
        descriptor,
        Descriptor {
            f: 3,
            x: 63,
            y: 255
        }
    );
}

#[test]
fn parse_descriptor_1() {
    let test_data = [0, 0];
    let descriptor = parse_descriptor(test_data);

    assert_eq!(descriptor.f, 0);
    assert_eq!(descriptor.x, 0);
    assert_eq!(descriptor.y, 0);
}

#[test]
fn parse_descriptor_2() {
    let test_data = [0, 1];
    let descriptor = parse_descriptor(test_data);

    assert_eq!(descriptor.f, 0);
    assert_eq!(descriptor.x, 0);
    assert_eq!(descriptor.y, 1);
}

#[test]
fn parse_descriptor_3() {
    let test_data = [0b10101010, 1];
    let descriptor = parse_descriptor(test_data);

    assert_eq!(descriptor.f, 2);
    assert_eq!(descriptor.x, 42);
    assert_eq!(descriptor.y, 1);
}

#[test]
fn lib_parse_descriptor_1() {
    let test_data = [0, 0];
    let descriptor = parse_descriptor(test_data);

    assert_eq!(descriptor.f, 0);
    assert_eq!(descriptor.x, 0);
    assert_eq!(descriptor.y, 0);
}

#[test]
fn lib_parse_descriptor_2() {
    let test_data = [0, 1];
    let descriptor = parse_descriptor(test_data);

    assert_eq!(descriptor.f, 0);
    assert_eq!(descriptor.x, 0);
    assert_eq!(descriptor.y, 1);
}

#[test]
fn lib_parse_descriptor_3() {
    let test_data = [0b10101010, 1];
    let descriptor = parse_descriptor(test_data);

    assert_eq!(descriptor.f, 2);
    assert_eq!(descriptor.x, 42);
    assert_eq!(descriptor.y, 1);
}

#[test]
fn descriptor_round_trip_all_wire_values() {
    for hi in 0..=255u8 {
        for lo in 0..=255u8 {
            let d = parse_descriptor([hi, lo]);
            assert_eq!(d.encode_descriptor(), [hi, lo]);
        }
    }
}
