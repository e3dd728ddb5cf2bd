use rulodb::frame::{encode_frame, FrameDecoder};

#[test]
fn encode_prepends_big_endian_length() {
    let framed = encode_frame(&vec![1u8, 2, 3]).unwrap();
    assert_eq!(framed, vec![0u8, 0, 0, 3, 1, 2, 3]);
}

#[test]
fn encode_empty_payload() {
    let framed = encode_frame(&Vec::new()).unwrap();
    assert_eq!(framed, vec![0u8, 0, 0, 0]);
}

#[test]
fn split_prefix_and_payload_reassemble_into_one_message() {
    let mut decoder = FrameDecoder::new();
    decoder.feed(&[0, 0, 0, 2]);
    assert_eq!(decoder.next_frame(), None);
    decoder.feed(&[9, 8]);
    assert_eq!(decoder.next_frame(), Some(vec![9u8, 8]));
    assert_eq!(decoder.next_frame(), None);
}

#[test]
fn byte_by_byte_arrival_still_yields_the_message() {
    let mut decoder = FrameDecoder::new();
    for b in [0u8, 0, 0, 1, 7] {
        assert_eq!(decoder.next_frame(), None);
        decoder.feed(&[b]);
    }
    assert_eq!(decoder.next_frame(), Some(vec![7u8]));
}

#[test]
fn two_frames_in_one_chunk_come_out_in_order() {
    let mut decoder = FrameDecoder::new();
    decoder.feed(&[0, 0, 0, 1, 5, 0, 0, 0, 2, 6, 7]);
    assert_eq!(decoder.next_frame(), Some(vec![5u8]));
    assert_eq!(decoder.next_frame(), Some(vec![6u8, 7]));
    assert_eq!(decoder.next_frame(), None);
}

#[test]
fn encoded_frame_decodes_to_the_same_payload() {
    let payload = vec![1u8, 2, 3, 4, 5];
    let framed = encode_frame(&payload).unwrap();
    let mut decoder = FrameDecoder::new();
    decoder.feed(&framed);
    assert_eq!(decoder.next_frame(), Some(payload));
}

#[test]
fn zero_length_frame_is_a_message() {
    let mut decoder = FrameDecoder::new();
    decoder.feed(&[0, 0, 0, 0]);
    assert_eq!(decoder.next_frame(), Some(Vec::new()));
}

#[test]
fn incomplete_payload_stays_buffered() {
    let mut decoder = FrameDecoder::new();
    decoder.feed(&[0, 0, 0, 3, 1, 2]);
    assert_eq!(decoder.next_frame(), None);
    decoder.feed(&[3]);
    assert_eq!(decoder.next_frame(), Some(vec![1u8, 2, 3]));
}
