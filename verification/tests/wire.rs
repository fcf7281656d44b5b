use es_wifi::wire::{decode, encode, frame_at, transfers_for, Frame, FILLER, NAK};

#[test]
fn three_bytes_travel_as_two_swapped_pairs() {
    let frames = encode(&[b'a', b'b', b'c']);
    assert_eq!(
        frames,
        vec![Frame { lead: b'b', trail: b'a' }, Frame { lead: FILLER, trail: b'c' }]
    );
}

#[test]
fn filler_is_line_feed_and_marker_is_nak() {
    assert_eq!(FILLER, 0x0A);
    assert_eq!(NAK, 0x15);
}

#[test]
fn even_command_needs_no_filler() {
    let frames = encode(b"C0\rX");
    assert_eq!(
        frames,
        vec![Frame { lead: b'0', trail: b'C' }, Frame { lead: b'X', trail: b'\r' }]
    );
}

#[test]
fn empty_command_has_no_transfers() {
    assert_eq!(encode(&[]), Vec::<Frame>::new());
    assert_eq!(transfers_for(0), 0);
}

#[test]
fn transfers_are_half_the_bytes_rounded_up() {
    assert_eq!(transfers_for(1), 1);
    assert_eq!(transfers_for(2), 1);
    assert_eq!(transfers_for(3), 2);
    assert_eq!(transfers_for(1049), 525);
}

#[test]
fn frame_at_picks_the_pair() {
    let bytes = [1u8, 2, 3, 4, 5];
    assert_eq!(frame_at(&bytes, 0), Frame { lead: 2, trail: 1 });
    assert_eq!(frame_at(&bytes, 1), Frame { lead: 4, trail: 3 });
    assert_eq!(frame_at(&bytes, 2), Frame { lead: FILLER, trail: 5 });
}

#[test]
fn trailing_marker_is_dropped_on_receive() {
    let frames = [Frame { lead: b'y', trail: b'x' }, Frame { lead: NAK, trail: b'z' }];
    assert_eq!(decode(&frames), vec![b'x', b'y', b'z']);
}

#[test]
fn marker_in_first_place_is_kept() {
    let frames = [Frame { lead: b'y', trail: NAK }];
    assert_eq!(decode(&frames), vec![NAK, b'y']);
}

#[test]
fn nothing_received_is_an_empty_reply() {
    assert_eq!(decode(&[]), Vec::<u8>::new());
}

#[test]
fn even_bytes_survive_the_round_trip() {
    let bytes = b"\r\nOK\r\n> ".to_vec();
    assert_eq!(decode(&encode(&bytes)), bytes);
}

#[test]
fn odd_bytes_come_back_with_the_filler() {
    let bytes = b"CB=2\r".to_vec();
    let mut expected = bytes.clone();
    expected.push(FILLER);
    assert_eq!(decode(&encode(&bytes)), expected);
}
