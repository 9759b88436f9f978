use bufr::{decode, Descriptor, Error, Section1, Section1v4, Section1v4Builder, Section3,
    Section3Builder};

#[test]
fn too_short() {
    let buf = [0; 8];
    for i in 0..8 {
        match decode(&buf[0..i]) {
            Err(Error::MessageTooShort) => (),
            _ => assert!(false),
        };
    }
}

#[test]
fn bad_magic() {
    let buf = [0; 8];
    match decode(&buf) {
        Err(Error::MagicNumber) => (),
        _ => assert!(false),
    };
}

#[test]
fn wrong_message_size() {
    let buf = [b'B', b'U', b'F', b'R', 0, 0, 9, 4];
    match decode(&buf) {
        Err(Error::TruncatedMessage) => (),
        _ => assert!(false),
    };
}

#[test]
fn version_not_supported() {
    let buf = [b'B', b'U', b'F', b'R', 0, 0, 8, 2];
    match decode(&buf) {
        Err(Error::VersionNotSupported(2)) => (),
        _ => assert!(false),
    };
}

#[test]
fn v4_encode_spray_ph() {
    let section = Section1v4 {
        length: 22,
        master_table: 0,
        center: 65535,
        sub_center: 65535,
        update_version: 0,
        optional_section: false,
        data_category: 31,
        data_subcategory: 255,
        local_subcategory: 255,
        master_table_version: 255,
        local_table_version: 255,
        year: 2020,
        month: 10,
        day: 6,
        hour: 19,
        minute: 24,
        second: 0,
        local_use: vec![],
    };
    let mut buf = vec![];
    section.encode(&mut buf).unwrap();
    let ans = vec![
        0, 0, 22, 0, 255, 255, 255, 255, 0, 0, 31, 255, 255, 255, 255, 7, 228, 10, 6, 19, 24, 0,
    ];
    assert_eq!(buf, ans);
}

#[test]
fn lib_v4_encode_spray_ph() {
    let section = Section1v4 {
        length: 22,
        master_table: 0,
        center: 65535,
        sub_center: 65535,
        update_version: 0,
        optional_section: false,
        data_category: 31,
        data_subcategory: 255,
        local_subcategory: 255,
        master_table_version: 255,
        local_table_version: 255,
        year: 2020,
        month: 10,
        day: 6,
        hour: 19,
        minute: 24,
        second: 0,
        local_use: vec![],
    };
    let mut buf = vec![];
    section.encode(&mut buf).unwrap();
    let ans = vec![
        0, 0, 22, 0, 255, 255, 255, 255, 0, 0, 31, 255, 255, 255, 255, 7, 228, 10, 6, 19, 24, 0,
    ];
    assert_eq!(buf, ans);
}

#[test]
fn identification_build() {
    let section = Section1v4Builder::default()
        .master_table(0)
        .sub_center(0)
        .center(0)
        .update_version(0)
        .optional_section(false)
        .data_category(0)
        .data_subcategory(6)
        .local_subcategory(0)
        .master_table_version(39)
        .local_table_version(0)
        .year(2018)
        .month(2)
        .day(7)
        .hour(23)
        .minute(23)
        .second(42)
        .build()
        .unwrap();

    assert_eq!(section.length(), 22);
}

#[test]
fn encode_spray_ph() {
    let descriptor = Descriptor { f: 3, x: 15, y: 12 };
    let section = Section3 {
        length: 9,
        n_subsets: 1,
        is_observed: true,
        is_compressed: false,
        descriptors: vec![descriptor],
    };
    let mut buf = vec![];
    section.encode(&mut buf).unwrap();
}

#[test]
fn lib_build() {
    let section = Section3Builder::default()
        .is_observed(true)
        .descriptors(vec![Descriptor { f: 3, x: 15, y: 12 }])
        .build()
        .unwrap();

    assert_eq!(section.length(), 9);
}

/// A complete edition 4 message: section 0, section 1 (22 bytes), section 3
/// with one sequence descriptor, section 4 with a 17-bit payload, and the
/// end marker.
fn sample_message() -> Vec<u8> {
    let mut buf: Vec<u8> = Vec::new();
    buf.extend_from_slice(b"BUFR");
    buf.extend_from_slice(&[0, 0, 50]); // total length 8+22+9+7+4
    buf.push(4); // edition
    // section 1
    buf.extend_from_slice(&[
        0, 0, 22, // length
        0, // master table
        0, 34, // center
        0, 0, // sub-center
        0, // update
        0, // no optional section
        12, 7, 255, // categories
        12, 255, // table versions
        7, 212, // year 2004
        6, 16, 0, 0, 0, // month day hour minute second
    ]);
    // section 3: one descriptor (3,1,13)
    buf.extend_from_slice(&[0, 0, 9, 0, 0, 1, 0x80, 0xc1, 13]);
    // section 4: hour=12, minute=30, second=45 in 5+6+6 bits
    buf.extend_from_slice(&[0, 0, 7, 0, 0x63, 0xd6, 0x80]);
    buf.extend_from_slice(b"7777");
    buf
}

#[test]
fn decode_sample_message_fields() {
    let buf = sample_message();
    let message = decode(&buf).unwrap();

    assert_eq!(message.total_length(), 50);
    assert_eq!(message.version(), 4);
    match message.section1() {
        Section1::V4(s1) => {
            assert_eq!(s1.length(), 22);
            assert_eq!(s1.master_table(), 0);
            assert_eq!(s1.center(), 34);
            assert_eq!(s1.sub_center(), 0);
            assert_eq!(s1.update_version(), 0);
            assert_eq!(s1.optional_section(), false);
            assert_eq!(s1.data_category(), 12);
            assert_eq!(s1.data_subcategory(), 7);
            assert_eq!(s1.local_subcategory(), 255);
            assert_eq!(s1.master_table_version(), 12);
            assert_eq!(s1.local_table_version(), 255);
            assert_eq!(s1.year(), 2004);
            assert_eq!(s1.month(), 6);
            assert_eq!(s1.day(), 16);
            assert_eq!(s1.hour(), 0);
            assert_eq!(s1.minute(), 0);
            assert_eq!(s1.second(), 0);
            assert_eq!(s1.local_use(), &Vec::<u8>::new());
        }
        Section1::V3(_) => assert!(false),
    }
    let s3 = message.section3();
    assert_eq!(s3.length(), 9);
    assert_eq!(s3.n_subsets(), 1);
    assert!(s3.is_observed());
    assert!(!s3.is_compressed());
    let descriptors = s3.descriptors();
    assert_eq!(descriptors.len(), 1);
    assert_eq!(descriptors[0], Descriptor { f: 3, x: 1, y: 13 });
    let s4 = message.section4();
    assert_eq!(s4.length(), 7);
    assert_eq!(s4.data(), vec![0x63, 0xd6, 0x80]);
    assert!(message.section2().is_none());

    // The declared total length is the sum of the framed parts.
    let sum = 8 + s3.length() + s4.length() + 22 + 4;
    assert_eq!(message.total_length() as usize, sum);
}

#[test]
fn end_marker_missing() {
    let mut buf = sample_message();
    let n = buf.len();
    buf[n - 1] = b'8';
    match decode(&buf) {
        Err(Error::EndSection) => (),
        _ => assert!(false),
    };
}

#[test]
fn total_length_mismatch_is_rejected() {
    let mut buf = sample_message();
    buf.extend_from_slice(&[0, 0]);
    buf[6] = 52; // declared total no longer ends at the marker
    match decode(&buf) {
        Err(Error::EndSection) => (),
        _ => assert!(false),
    };
}

#[test]
fn odd_section3_length() {
    let mut buf = sample_message();
    // grow section 3 by one byte so (length - 7) is odd
    buf[32] = 10; // section 3 length
    buf[6] = 51; // total
    buf.insert(39, 0);
    match decode(&buf) {
        Err(Error::InvalidSection3Length(10)) => (),
        _ => assert!(false),
    };
}

#[test]
fn reserved_byte_must_be_zero() {
    let mut buf = sample_message();
    buf[33] = 1; // section 3 reserved byte
    match decode(&buf) {
        Err(Error::InvalidSectionLayout) => (),
        _ => assert!(false),
    };
}

#[test]
fn message_encode_writes_header_and_section1() {
    let buf = sample_message();
    let message = decode(&buf).unwrap();
    let mut out = vec![];
    let n = message.encode(&mut out).unwrap();
    assert_eq!(n, 30);
    assert_eq!(out.len(), 30);
    // section 0 plus section 1 as decoded
    assert_eq!(&out[0..4], b"BUFR");
    assert_eq!(&out[4..7], &[0, 0, 50]);
    assert_eq!(out[7], 4);
    assert_eq!(&out[8..30], &buf[8..30]);
}

#[test]
fn section2_preserved_when_flagged() {
    let mut buf = sample_message();
    buf[17] = 0x80; // optional-section flag in section 1
    // splice a 6-byte section 2 after section 1
    let sec2 = [0u8, 0, 6, 0, 0xab, 0xcd];
    for (k, b) in sec2.iter().enumerate() {
        buf.insert(30 + k, *b);
    }
    buf[6] = 56; // total grows by 6
    let message = decode(&buf).unwrap();
    let s2 = message.section2().as_ref().unwrap();
    assert_eq!(s2.length(), 6);
    assert_eq!(s2.data(), vec![0xab, 0xcd]);
}
