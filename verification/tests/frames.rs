use flashwright::error::Error;
use flashwright::frame::decode_ws_frame;
use flashwright::frame::encode_ws_frame;
use flashwright::frame::Decoded;

fn text_of(read: &[u8]) -> (usize, String) {
    match decode_ws_frame(read) {
        Decoded::Frame { size, outcome: Ok(text) } => (size, text),
        other => panic!("no text: {:?}", other),
    }
}

#[test]
fn short_frame_is_masked() {
    let out = encode_ws_frame("Hi");
    assert_eq!(out, vec![0x81, 0x82, 0x42, 0x69, 0x6f, 0x4e, b'H' ^ 0x42, b'i' ^ 0x69]);
}

#[test]
fn empty_frame() {
    assert_eq!(encode_ws_frame(""), vec![0x81, 0x80, 0x42, 0x69, 0x6f, 0x4e]);
    assert_eq!(text_of(&encode_ws_frame("")), (6, String::new()));
}

#[test]
fn mask_repeats_after_four_bytes() {
    let out = encode_ws_frame("aaaaa");
    assert_eq!(
        &out[6..],
        &[b'a' ^ 0x42, b'a' ^ 0x69, b'a' ^ 0x6f, b'a' ^ 0x4e, b'a' ^ 0x42]
    );
}

#[test]
fn length_forms_change_at_their_limits() {
    assert_eq!(&encode_ws_frame(&"a".repeat(125))[..2], &[0x81, 0xfd]);
    assert_eq!(&encode_ws_frame(&"a".repeat(126))[..4], &[0x81, 0xfe, 0, 126]);
    assert_eq!(&encode_ws_frame(&"a".repeat(65535))[..4], &[0x81, 0xfe, 0xff, 0xff]);
    assert_eq!(
        &encode_ws_frame(&"a".repeat(65536))[..10],
        &[0x81, 0xff, 0, 0, 0, 0, 0, 1, 0, 0]
    );
}

#[test]
fn frames_read_back() {
    for n in [0, 1, 4, 125, 126, 65535, 65536] {
        let text = "b".repeat(n);
        let mut bytes = encode_ws_frame(&text);
        let size = bytes.len();
        bytes.extend_from_slice(b"more");
        assert_eq!(text_of(&bytes), (size, text));
    }
    assert_eq!(text_of(&encode_ws_frame("é ∀ 😀")).1, "é ∀ 😀");
}

#[test]
fn reader_is_told_how_much_to_read() {
    assert_eq!(decode_ws_frame(&[]), Decoded::More(2));
    assert_eq!(decode_ws_frame(&[0x81]), Decoded::More(1));
    assert_eq!(decode_ws_frame(&[0x81, 5]), Decoded::More(5));
    assert_eq!(decode_ws_frame(&[0x81, 0x85]), Decoded::More(4));
    assert_eq!(decode_ws_frame(&[0x81, 126]), Decoded::More(2));
    assert_eq!(decode_ws_frame(&[0x81, 127, 0, 0]), Decoded::More(6));
    assert_eq!(decode_ws_frame(&[0x81, 126, 1, 2]), Decoded::More(258));
    assert_eq!(
        decode_ws_frame(&[0x81, 127, 0xff, 0xff, 0xff, 0xff, 0xff, 0xff, 0xff, 0xff]),
        Decoded::More(u64::MAX)
    );
}

#[test]
fn reader_stops_at_frame_end() {
    let whole = encode_ws_frame(&"c".repeat(300));
    let mut read: Vec<u8> = Vec::new();
    loop {
        match decode_ws_frame(&read) {
            Decoded::More(n) => {
                let from = read.len();
                read.extend_from_slice(&whole[from..from + n as usize]);
            }
            Decoded::Frame { size, outcome } => {
                assert_eq!(size, whole.len());
                assert_eq!(outcome, Ok("c".repeat(300)));
                break;
            }
        }
    }
}

#[test]
fn unmasked_frame_is_read_as_it_stands() {
    assert_eq!(text_of(&[0x81, 2, b'o', b'k', b'!']), (4, "ok".to_string()));
    assert_eq!(text_of(&[0x01, 1, b'x']), (3, "x".to_string()));
}

#[test]
fn close_frame_ends_the_connection() {
    assert_eq!(
        decode_ws_frame(&[0x88, 2, 3, 0xe8]),
        Decoded::Frame { size: 4, outcome: Err(Error::WebsocketClosed) }
    );
    assert_eq!(decode_ws_frame(&[0x88, 2, 3]), Decoded::More(1));
}

#[test]
fn ill_formed_text_is_replaced() {
    assert_eq!(text_of(&[0x81, 3, b'a', 0xff, b'b']).1, "a\u{fffd}b");
}

#[test]
fn masking_twice_gives_the_text_back() {
    let once = encode_ws_frame("flash");
    let masked: Vec<u8> = once[6..].to_vec();
    let key = [0x42u8, 0x69, 0x6f, 0x4e];
    let back: Vec<u8> = masked.iter().enumerate().map(|(i, b)| b ^ key[i % 4]).collect();
    assert_eq!(back, b"flash".to_vec());
}

#[test]
fn reader_stops_at_the_end_of_unmasked_frames() {
    let mut whole = vec![0x81, 126, 1, 0];
    whole.extend(vec![b'x'; 256]);
    for k in 0..whole.len() {
        match decode_ws_frame(&whole[..k]) {
            Decoded::More(n) => assert!(n > 0 && k + n as usize <= whole.len()),
            other => panic!("{:?}", other),
        }
    }
    assert_eq!(text_of(&whole).0, whole.len());
}
