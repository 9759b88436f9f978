use bufr::BufferReader;

#[test]
fn test_buffer_reader_zero() {
    let buffer = vec![];
    let mut reader = BufferReader::new(&buffer[..]);
    reader.consume(0).unwrap();
}

#[test]
fn test_buffer_reader_1() {
    let buffer = vec![0b11110000, 0b00001111];
    let mut reader = BufferReader::new(&buffer[..]);
    assert_eq!(reader.consume(4).unwrap(), &[0b0000_1111]);
    assert_eq!(reader.consume(8).unwrap(), &[0b0000_0000]);
    assert_eq!(reader.consume(4).unwrap(), &[0b0000_1111]);
}

#[test]
fn read_split_matches_whole_read() {
    // Reading 4 bits and then 8 bits yields the same bit sequence as one
    // 12-bit read split arithmetically.
    let buffer = vec![0xa5, 0x3c];
    let mut one = BufferReader::new(&buffer[..]);
    let whole = one.read_uint(12).unwrap();

    let mut two = BufferReader::new(&buffer[..]);
    let head = two.read_uint(4).unwrap();
    let tail = two.read_uint(8).unwrap();
    assert_eq!(whole, head * 256 + tail);
    assert_eq!(head, 0xa);
    assert_eq!(tail, 0x53);
}

#[test]
fn read_uint_exhausted() {
    let buffer = vec![0xff];
    let mut reader = BufferReader::new(&buffer[..]);
    assert!(reader.read_uint(9).is_err());
    // A failed read moves nothing: the whole byte is still there.
    assert_eq!(reader.read_uint(8).unwrap(), 0xff);
}

#[test]
fn skip_and_align() {
    let buffer = vec![0b1010_1010, 0xff];
    let mut reader = BufferReader::new(&buffer[..]);
    reader.skip(3).unwrap();
    reader.align_to_byte();
    assert_eq!(reader.remaining_bits(), 8);
    assert_eq!(reader.read_uint(8).unwrap(), 0xff);
}

#[test]
fn read_text_crosses_byte_boundary() {
    // Text reads need no byte alignment: after 4 bits, a one-byte text
    // read straddles the two buffer bytes.
    let buffer = vec![0b0000_0100, 0b0001_0000];
    let mut reader = BufferReader::new(&buffer[..]);
    reader.skip(4).unwrap();
    let bytes = reader.read_text(1).unwrap();
    assert_eq!(bytes, vec![0b0100_0001]);
}
