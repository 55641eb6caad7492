use sensa_companion::frame::{RawFrame, StreamBuffer, END_MARKER, START_MARKER};

fn views(frames: &[RawFrame]) -> Vec<Vec<u8>> {
    frames.iter().map(|f| f.as_bytes().clone()).collect()
}

#[test]
fn markers_are_dash_and_underscore() {
    assert_eq!(START_MARKER, b'-');
    assert_eq!(END_MARKER, b'_');
}

#[test]
fn new_buffer_is_empty() {
    let buffer = StreamBuffer::new();
    assert!(buffer.pending().is_empty());
}

#[test]
fn back_to_back_frames_all_come_out_in_order() {
    let mut buffer = StreamBuffer::new();
    let frames = buffer.ingest(b"-a_-bc_-_-d e f_");
    assert_eq!(
        views(&frames),
        vec![b"-a_".to_vec(), b"-bc_".to_vec(), b"-_".to_vec(), b"-d e f_".to_vec()]
    );
    assert!(buffer.pending().is_empty());
}

#[test]
fn one_frame_leaves_nothing_behind() {
    let mut buffer = StreamBuffer::new();
    let frames = buffer.ingest(b"-MQ3 : 12 MQ5 : 3_");
    assert_eq!(views(&frames), vec![b"-MQ3 : 12 MQ5 : 3_".to_vec()]);
    assert!(buffer.pending().is_empty());
}

#[test]
fn open_frame_is_kept_until_its_end_arrives() {
    let mut buffer = StreamBuffer::new();
    assert!(buffer.ingest(b"-ab").is_empty());
    assert_eq!(buffer.pending(), &b"-ab".to_vec());
    assert!(buffer.ingest(b"c").is_empty());
    assert_eq!(buffer.pending(), &b"-abc".to_vec());
    assert!(buffer.ingest(b"").is_empty());
    assert_eq!(buffer.pending(), &b"-abc".to_vec());
    let frames = buffer.ingest(b"d_x");
    assert_eq!(views(&frames), vec![b"-abcd_".to_vec()]);
    assert_eq!(buffer.pending(), &b"x".to_vec());
}

#[test]
fn byte_by_byte_gives_the_frames_of_one_piece() {
    let stream: &[u8] = b"xx-a_yy_-b-c_-_zz-open";
    let mut whole = StreamBuffer::new();
    let expected = views(&whole.ingest(stream));
    assert_eq!(expected, vec![b"-a_".to_vec(), b"-b-c_".to_vec(), b"-_".to_vec()]);
    assert_eq!(whole.pending(), &b"-open".to_vec());

    let mut pieces = StreamBuffer::new();
    let mut got: Vec<Vec<u8>> = Vec::new();
    for byte in stream {
        got.extend(views(&pieces.ingest(&[*byte])));
    }
    assert_eq!(got, expected);
    assert_eq!(pieces.pending(), whole.pending());
}

#[test]
fn every_split_in_two_gives_the_frames_of_one_piece() {
    let stream: &[u8] = b"ab-12_-34_cd-5";
    for cut in 0..=stream.len() {
        let mut buffer = StreamBuffer::new();
        let mut got = views(&buffer.ingest(&stream[..cut]));
        got.extend(views(&buffer.ingest(&stream[cut..])));
        assert_eq!(got, vec![b"-12_".to_vec(), b"-34_".to_vec()]);
        assert_eq!(buffer.pending(), &b"-5".to_vec());
    }
}

#[test]
fn leading_bytes_are_dropped_and_reach_no_frame() {
    let mut buffer = StreamBuffer::new();
    let frames = buffer.ingest(b"boot ok\r\n-a_");
    assert_eq!(views(&frames), vec![b"-a_".to_vec()]);
    assert!(buffer.pending().is_empty());
}

#[test]
fn leading_bytes_are_dropped_before_an_open_frame() {
    let mut buffer = StreamBuffer::new();
    assert!(buffer.ingest(b"junk-ab").is_empty());
    assert_eq!(buffer.pending(), &b"-ab".to_vec());
}

#[test]
fn bytes_between_frames_are_dropped() {
    let mut buffer = StreamBuffer::new();
    let frames = buffer.ingest(b"-a_ noise -b_");
    assert_eq!(views(&frames), vec![b"-a_".to_vec(), b"-b_".to_vec()]);
    assert!(buffer.pending().is_empty());
}

#[test]
fn without_start_marker_the_buffer_only_grows() {
    let mut buffer = StreamBuffer::new();
    assert!(buffer.ingest(b"abc_").is_empty());
    assert_eq!(buffer.pending(), &b"abc_".to_vec());
    assert!(buffer.ingest(b"def").is_empty());
    assert_eq!(buffer.pending(), &b"abc_def".to_vec());
}

#[test]
fn end_marker_before_the_start_marker_closes_nothing() {
    let mut buffer = StreamBuffer::new();
    let frames = buffer.ingest(b"_-a");
    assert!(frames.is_empty());
    assert_eq!(buffer.pending(), &b"-a".to_vec());
    let frames = buffer.ingest(b"_");
    assert_eq!(views(&frames), vec![b"-a_".to_vec()]);
}

#[test]
fn earliest_start_marker_begins_the_frame() {
    let mut buffer = StreamBuffer::new();
    let frames = buffer.ingest(b"-a-b_");
    assert_eq!(views(&frames), vec![b"-a-b_".to_vec()]);
    assert!(buffer.pending().is_empty());
}

#[test]
fn trailing_bytes_without_start_marker_stay_buffered() {
    let mut buffer = StreamBuffer::new();
    let frames = buffer.ingest(b"-a_tail");
    assert_eq!(views(&frames), vec![b"-a_".to_vec()]);
    assert_eq!(buffer.pending(), &b"tail".to_vec());
    let frames = buffer.ingest(b"-b_");
    assert_eq!(views(&frames), vec![b"-b_".to_vec()]);
    assert!(buffer.pending().is_empty());
}

#[test]
fn raw_frame_takes_complete_frames_only() {
    assert!(RawFrame::from_bytes(b"-_".to_vec()).is_some());
    assert!(RawFrame::from_bytes(b"-abc_".to_vec()).is_some());
    assert!(RawFrame::from_bytes(b"-a-b_".to_vec()).is_some());
    assert!(RawFrame::from_bytes(b"".to_vec()).is_none());
    assert!(RawFrame::from_bytes(b"-".to_vec()).is_none());
    assert!(RawFrame::from_bytes(b"_".to_vec()).is_none());
    assert!(RawFrame::from_bytes(b"abc".to_vec()).is_none());
    assert!(RawFrame::from_bytes(b"-abc".to_vec()).is_none());
    assert!(RawFrame::from_bytes(b"abc_".to_vec()).is_none());
    assert!(RawFrame::from_bytes(b"-a_b_".to_vec()).is_none());
    assert!(RawFrame::from_bytes(b"-a_ ".to_vec()).is_none());
}

#[test]
fn raw_frame_keeps_its_bytes() {
    let frame = RawFrame::from_bytes(b"-xyz_".to_vec()).unwrap();
    assert_eq!(frame.as_bytes(), &b"-xyz_".to_vec());
}
