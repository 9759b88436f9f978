use bufr::tables::{parse_table_f0, parse_table_f3, Descriptor};
use bufr::{width_value_from_table, BUFRUnit, BufferReader, ElementDescriptor, Registry};

fn element_descriptor_f0(x: u8, y: u8) -> Option<ElementDescriptor> {
    let element = match (x, y) {
        (1, 19) => ElementDescriptor {
            name: String::from("Long station or site name"),
            unit: BUFRUnit::CCITTIA5,
            scale: 0,
            reference_value: 0,
            data_width: 256,
        },
        (1, 36) => ElementDescriptor {
            name: String::from("Agency in charge of operating the observing platform"),
            unit: BUFRUnit::CodeTable,
            scale: 0,
            reference_value: 0,
            data_width: 20,
        },
        (1, 85) => ElementDescriptor {
            name: String::from("Observing platform manufacturer's model"),
            unit: BUFRUnit::CCITTIA5,
            scale: 0,
            reference_value: 0,
            data_width: 160,
        },
        (1, 86) => ElementDescriptor {
            name: String::from("Observing platform manufacturer's serial number"),
            unit: BUFRUnit::CCITTIA5,
            scale: 0,
            reference_value: 0,
            data_width: 256,
        },
        (1, 87) => ElementDescriptor {
            name: String::from("WMO marine observing platform extended identifier"),
            unit: BUFRUnit::Numeric,
            scale: 0,
            reference_value: 0,
            data_width: 23,
        },
        (1, 125) => ElementDescriptor {
            name: String::from("WIGOS identifier series"),
            unit: BUFRUnit::Numeric,
            scale: 0,
            reference_value: 0,
            data_width: 4,
        },
        (1, 126) => ElementDescriptor {
            name: String::from("WIGOS issuer of identifier"),
            unit: BUFRUnit::Numeric,
            scale: 0,
            reference_value: 0,
            data_width: 16,
        },
        (1, 127) => ElementDescriptor {
            name: String::from("WIGOS issue number"),
            unit: BUFRUnit::Numeric,
            scale: 0,
            reference_value: 0,
            data_width: 16,
        },
        (1, 128) => ElementDescriptor {
            name: String::from("WIGOS local identifier (character)"),
            unit: BUFRUnit::CCITTIA5,
            scale: 0,
            reference_value: 0,
            data_width: 128,
        },
        (4, 1) => ElementDescriptor {
            name: String::from("Year"),
            unit: BUFRUnit::Year,
            scale: 0,
            reference_value: 0,
            data_width: 12,
        },
        (4, 2) => ElementDescriptor {
            name: String::from("Month"),
            unit: BUFRUnit::Month,
            scale: 0,
            reference_value: 0,
            data_width: 4,
        },
        (4, 3) => ElementDescriptor {
            name: String::from("Day"),
            unit: BUFRUnit::Day,
            scale: 0,
            reference_value: 0,
            data_width: 6,
        },
        (4, 4) => ElementDescriptor {
            name: String::from("Hour"),
            unit: BUFRUnit::Hour,
            scale: 0,
            reference_value: 0,
            data_width: 5,
        },
        (4, 5) => ElementDescriptor {
            name: String::from("Minute"),
            unit: BUFRUnit::Minute,
            scale: 0,
            reference_value: 0,
            data_width: 6,
        },
        (4, 6) => ElementDescriptor {
            name: String::from("Second"),
            unit: BUFRUnit::Second,
            scale: 0,
            reference_value: 0,
            data_width: 6,
        },
        (5, 1) => ElementDescriptor {
            name: String::from("Latitude (high accuracy)"),
            unit: BUFRUnit::Degree,
            scale: 5,
            reference_value: -9000000,
            data_width: 25,
        },
        (6, 1) => ElementDescriptor {
            name: String::from("Longitude (high accuracy)"),
            unit: BUFRUnit::Degree,
            scale: 5,
            reference_value: -18000000,
            data_width: 26,
        },
        (8, 21) => ElementDescriptor {
            name: String::from("Time significance"),
            unit: BUFRUnit::CodeTable,
            scale: 0,
            reference_value: 0,
            data_width: 5,
        },
        _ => return None,
    };
    Some(element)
}

#[test]
fn validate_static_f0() {
    let reg = Registry::bundled();
    for x in 0..64u8 {
        for y in 0..=255u8 {
            if let Some(ans) = element_descriptor_f0(x, y) {
                let v = reg.element(x, y).expect("No descriptor");
                assert_eq!(v, &ans);
            }
        }
    }
}

#[test]
fn validate_static_f3() {
    let reg = Registry::bundled();
    let record = reg.sequence(1, 2).unwrap();
    assert_eq!(record.len(), 3);
    assert_eq!(
        record.descriptors(),
        vec![
            Descriptor::Element(1, 3),
            Descriptor::Element(1, 4),
            Descriptor::Element(1, 5),
        ]
    );
}

#[test]
fn width_table_known_and_unknown() {
    assert_eq!(width_value_from_table(1, 27), Some(80));
    assert_eq!(width_value_from_table(19, 150), Some(32));
    assert_eq!(width_value_from_table(19, 5), Some(9));
    assert_eq!(width_value_from_table(2, 2), None);
}

// A test case from a Table B catalogue row.
#[test]
fn load_table_b_from_rows() {
    let data = b"ClassNo,ClassName_en,FXY,ElementName_en,Note_en,BUFR_Unit,BUFR_Scale,BUFR_ReferenceValue,BUFR_DataWidth_Bits,Status\n\
04,Date and time,004001,Year,,a,0,0,12,Operational\n\
05,Location,005001,Latitude (high accuracy),,deg,5,-9000000,25,Operational\n";
    let table = parse_table_f0(&data[..]);
    let year = table.get(&(4 * 256 + 1)).expect("Year row missing");
    assert_eq!(year.name, "Year");
    assert_eq!(year.unit, BUFRUnit::Year);
    assert_eq!(year.scale, 0);
    assert_eq!(year.reference_value, 0);
    assert_eq!(year.data_width, 12);
    let lat = table.get(&(5 * 256 + 1)).expect("Latitude row missing");
    assert_eq!(lat.unit, BUFRUnit::Degree);
    assert_eq!(lat.scale, 5);
    assert_eq!(lat.reference_value, -9000000);
    assert_eq!(lat.data_width, 25);
}

#[test]
fn later_table_b_row_overrides_earlier() {
    let data = b"ClassNo,ClassName_en,FXY,ElementName_en,Note_en,BUFR_Unit,BUFR_Scale,BUFR_ReferenceValue,BUFR_DataWidth_Bits,Status\n\
04,Date and time,004001,Year,,a,0,0,12,Operational\n\
04,Date and time,004001,Year,,a,0,0,13,Operational\n";
    let table = parse_table_f0(&data[..]);
    assert_eq!(table.get(&(4 * 256 + 1)).unwrap().data_width, 13);
}

#[test]
fn load_table_d_aggregates_children() {
    let data = b"Category,CategoryOfSequences_en,FXY1,Title_en,SubTitle_en,FXY2,Status\n\
01,Location sequences,301013,(Hour and minute and second),,004004,Operational\n\
01,Location sequences,301013,,,004005,Operational\n\
01,Location sequences,301013,,,004006,Operational\n";
    let table = parse_table_f3(&data[..]);
    let row = table.get(&(1 * 256 + 13)).expect("sequence missing");
    assert_eq!(row.len(), 3);
    assert_eq!(
        row.descriptors(),
        vec![
            Descriptor::Element(4, 4),
            Descriptor::Element(4, 5),
            Descriptor::Element(4, 6),
        ]
    );
    assert_eq!(row.title.as_deref(), Some("(Hour and minute and second)"));
}

#[test]
fn registry_loads_and_overrides() {
    let mut reg = Registry::bundled();
    let data = b"ClassNo,ClassName_en,FXY,ElementName_en,Note_en,BUFR_Unit,BUFR_Scale,BUFR_ReferenceValue,BUFR_DataWidth_Bits,Status\n\
04,Date and time,004002,Month,,mon,0,0,5,Operational\n";
    let warns = reg.load_table_b(&data[..]);
    assert!(warns.is_empty());
    assert_eq!(reg.element(4, 2).unwrap().data_width, 5);
    // untouched entries stay
    assert_eq!(reg.element(4, 1).unwrap().data_width, 12);
}

#[test]
fn unit_text_parses_and_falls_back() {
    assert_eq!(BUFRUnit::from_text("K"), BUFRUnit::Kelvin);
    assert_eq!(BUFRUnit::from_text("Code table"), BUFRUnit::CodeTable);
    assert_eq!(BUFRUnit::from_text("m s-1"), BUFRUnit::MeterPerSecond);
    assert_eq!(
        BUFRUnit::from_text("furlong"),
        BUFRUnit::Other(String::from("furlong"))
    );
}

#[test]
// 0-04-031: width 8, scale 0, reference 0
fn width8() {
    let reg = Registry::bundled();
    let descriptor = reg.element(4, 31).expect("No descriptor");
    let buffer = [0b0000_1000];

    let mut reader = BufferReader::new(&buffer);
    let value = reader.consume(descriptor.data_width as usize).unwrap();

    assert_eq!(value, &[8]);
}

#[test]
// 0-04-002: width 4, scale 0, reference 0
fn width4() {
    let reg = Registry::bundled();
    let descriptor = reg.element(4, 2).expect("No descriptor");
    let buffer = [0b0000_1000];

    let mut reader = BufferReader::new(&buffer);
    let value = reader.consume(descriptor.data_width as usize).unwrap();
    assert_eq!(value, &[0]);

    let value = reader.consume(descriptor.data_width as usize).unwrap();
    assert_eq!(value, &[8]);
}

#[test]
// 0-04-001: width 12, scale 0, reference 0
fn width12() {
    let reg = Registry::bundled();
    let descriptor = reg.element(4, 1).expect("No descriptor");
    let buffer = [0b0000_1111, 0b0000_1111];

    let mut reader = BufferReader::new(&buffer);
    let value = reader.consume(descriptor.data_width as usize).unwrap();
    assert_eq!(value, &[15, 0]);
}

#[test]
// 0-04-004: width 5, scale 0, reference 0
fn width_5x2() {
    let reg = Registry::bundled();
    let descriptor = reg.element(4, 4).expect("No descriptor");
    let buffer = [0b0000_1000, 0b0100_1111];
    let mut reader = BufferReader::new(&buffer);

    let value = reader.consume(descriptor.data_width as usize).unwrap();
    assert_eq!(value, &[1]);

    let value = reader.consume(descriptor.data_width as usize).unwrap();
    assert_eq!(value, &[1]);
}


#[test]
fn unknown_unit_rows_warn_and_still_load() {
    let mut reg = bufr::Registry::new();
    let data = b"ClassNo,ClassName_en,FXY,ElementName_en,Note_en,BUFR_Unit,BUFR_Scale,BUFR_ReferenceValue,BUFR_DataWidth_Bits,Status\n\
02,Instrumentation,002171,Transponder type,,furlong,0,0,6,Operational\n";
    let warns = reg.load_table_b(&data[..]);
    assert_eq!(warns.len(), 1);
    let e = reg.element(2, 171).unwrap();
    assert_eq!(e.unit, BUFRUnit::Other(String::from("furlong")));
    assert_eq!(e.data_width, 6);
}
