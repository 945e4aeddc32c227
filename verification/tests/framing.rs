use syntro_rdp::frame::{encode_frame, frame_header, handshake, FrameReader};

fn read_all(bytes: &[u8]) -> Vec<Vec<u8>> {
    let mut reader = FrameReader::new();
    let mut out = Vec::new();
    let mut pos = 0;
    loop {
        let want = reader.wanted();
        if bytes.len() - pos < want {
            break;
        }
        if let Some(p) = reader.accept(&bytes[pos..pos + want]) {
            out.push(p);
        }
        pos += want;
    }
    out
}

#[test]
fn header_is_big_endian_length() {
    assert_eq!(frame_header(0), vec![0, 0, 0, 0]);
    assert_eq!(frame_header(5), vec![0, 0, 0, 5]);
    assert_eq!(frame_header(0x0102_0304), vec![1, 2, 3, 4]);
    assert_eq!(frame_header(300), 300u32.to_be_bytes().to_vec());
}

#[test]
fn header_wraps_like_a_u32_cast() {
    assert_eq!(frame_header((1usize << 32) + 7), vec![0, 0, 0, 7]);
}

#[test]
fn frame_is_header_then_payload() {
    assert_eq!(encode_frame(b"abc"), vec![0, 0, 0, 3, b'a', b'b', b'c']);
    assert_eq!(encode_frame(&[]), vec![0, 0, 0, 0]);
}

#[test]
fn handshake_is_an_empty_frame() {
    assert_eq!(handshake(), vec![0, 0, 0, 0]);
    assert_eq!(read_all(&handshake()), vec![Vec::<u8>::new()]);
}

#[test]
fn reader_asks_for_header_then_payload() {
    let mut reader = FrameReader::new();
    assert_eq!(reader.wanted(), 4);
    assert_eq!(reader.accept(&[0, 0, 1, 2]), None);
    assert_eq!(reader.wanted(), 258);
    let payload = vec![7u8; 258];
    assert_eq!(reader.accept(&payload), Some(payload.clone()));
    assert_eq!(reader.wanted(), 4);
}

#[test]
fn stream_reads_back_what_was_written() {
    let payloads: Vec<Vec<u8>> = vec![b"first".to_vec(), Vec::new(), vec![0u8; 1000], b"{}".to_vec()];
    let mut wire = Vec::new();
    for p in &payloads {
        wire.extend(encode_frame(p));
    }
    assert_eq!(read_all(&wire), payloads);
}

#[test]
fn incomplete_frame_yields_nothing() {
    let wire = encode_frame(b"hello");
    assert_eq!(read_all(&wire[..wire.len() - 1]), Vec::<Vec<u8>>::new());
    assert_eq!(read_all(&wire[..3]), Vec::<Vec<u8>>::new());
}
