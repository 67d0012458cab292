use clipforge::demux::{encode_frame, FrameDemuxer};
use clipforge::protocol::{resolve_request_path, strip_leading_slashes, video_request_path};

fn frame_stream() -> Vec<u8> {
    vec![0x00, 0x13, 0xFF, 0xFF, 0xD8, 0x10, 0x20, 0xFF, 0x00, 0x30, 0xFF, 0xD9]
}

#[test]
fn one_frame_across_any_split() {
    let stream = frame_stream();
    let frame = stream[3..].to_vec();
    for k in 0..=stream.len() {
        let mut d = FrameDemuxer::new();
        let mut out = d.feed(&stream[..k]);
        out.extend(d.feed(&stream[k..]));
        assert_eq!(out, vec![frame.clone()], "split at {}", k);
        assert_eq!(d.pending_len(), 0);
    }
}

#[test]
fn one_frame_across_many_reads() {
    let stream = frame_stream();
    let mut d = FrameDemuxer::new();
    let mut out = Vec::new();
    for b in &stream {
        out.extend(d.feed(&[*b]));
    }
    assert_eq!(out, vec![stream[3..].to_vec()]);
}

#[test]
fn start_without_end_yields_nothing_yet() {
    let mut d = FrameDemuxer::new();
    assert!(d.feed(&[0x01, 0x02, 0xFF, 0xD8, 0x05]).is_empty());
    assert_eq!(d.pending_len(), 3);
    let out = d.feed(&[0x06, 0xFF, 0xD9, 0xAA]);
    assert_eq!(out, vec![vec![0xFF, 0xD8, 0x05, 0x06, 0xFF, 0xD9]]);
    assert_eq!(d.pending_len(), 1);
}

#[test]
fn several_frames_in_one_read() {
    let mut d = FrameDemuxer::new();
    let out = d.feed(&[0xFF, 0xD8, 1, 0xFF, 0xD9, 9, 0xFF, 0xD8, 0xFF, 0xD9, 0xFF, 0xD8, 2]);
    assert_eq!(out, vec![vec![0xFF, 0xD8, 1, 0xFF, 0xD9], vec![0xFF, 0xD8, 0xFF, 0xD9]]);
    assert_eq!(d.pending_len(), 3);
}

#[test]
fn bytes_without_start_marker_stay_buffered() {
    let mut d = FrameDemuxer::new();
    assert!(d.feed(&[1, 2, 3, 0xFF]).is_empty());
    assert_eq!(d.pending_len(), 4);
    let out = d.feed(&[0xD8, 0xFF, 0xD9]);
    assert_eq!(out, vec![vec![0xFF, 0xD8, 0xFF, 0xD9]]);
}

#[test]
fn frames_are_sent_as_base64() {
    let mut d = FrameDemuxer::new();
    let out = d.feed_encoded(&[7, 0xFF, 0xD8, 0x01, 0xFF, 0xD9]);
    assert_eq!(out, vec!["/9gB/9k=".to_string()]);
    assert_eq!(encode_frame(&vec![0xFF, 0xD8, 0xFF, 0xD9]), "/9j/2Q==");
}

#[test]
fn request_paths_are_percent_decoded() {
    assert_eq!(video_request_path("/%2Ftmp%2Fclip%20one.mp4"), "/tmp/clip one.mp4");
    assert_eq!(video_request_path("//Users/me/a.mp4"), "Users/me/a.mp4");
    assert_eq!(video_request_path("/%FF.mp4"), "%FF.mp4");
    assert_eq!(strip_leading_slashes("///x/"), "x/");
    assert_eq!(resolve_request_path("a%20b".to_string(), None), "a%20b");
    assert_eq!(resolve_request_path("a%20b".to_string(), Some("a b".to_string())), "a b");
}

#[test]
fn one_frame_across_three_reads_as_base64() {
    let stream = frame_stream();
    for a in 0..=stream.len() {
        for b in a..=stream.len() {
            let mut d = FrameDemuxer::new();
            let mut out = d.feed_encoded(&stream[..a]);
            out.extend(d.feed_encoded(&stream[a..b]));
            out.extend(d.feed_encoded(&stream[b..]));
            assert_eq!(out, vec!["/9gQIP8AMP/Z".to_string()]);
            assert_eq!(d.pending_len(), 0);
        }
    }
}
