use scrap::error::{Error, ErrorKind};
use scrap::pixel::Pixfmt;
use scrap::wire::{
    assemble_frame, dmabuf_frame, frame_message, header_failure, helper_frame, leak_pixfmt,
    split_frame,
    strip_newline, FrameOutputOwned, HelperDmabufHeader, HelperDmabufPlane, HelperFrameHeader,
};

fn owned(pixfmt: &str, byte_len: usize) -> FrameOutputOwned {
    FrameOutputOwned {
        card_path: "/dev/dri/card0".to_string(),
        connector_path: "/sys/class/drm/card0-DP-1".to_string(),
        name: "card0-DP-1".to_string(),
        width: 1,
        height: 2,
        stride: 4,
        pixfmt: pixfmt.to_string(),
        byte_len,
    }
}

#[test]
fn frames_come_back_from_messages() {
    let header = b"{\"width\":1}".to_vec();
    let bytes = vec![1u8, 10, 2, 10];
    let message = frame_message(header.clone(), &bytes);
    assert_eq!(message, b"{\"width\":1}\n\x01\x0a\x02\x0a".to_vec());
    assert_eq!(split_frame(&message).unwrap(), (header, bytes));
    assert_eq!(split_frame(b"\n").unwrap(), (vec![], vec![]));
}

#[test]
fn a_message_without_a_line_is_malformed() {
    let err = split_frame(b"abc").unwrap_err();
    assert_eq!(err.kind, ErrorKind::Other);
    assert_eq!(err.message, "privileged kms helper returned malformed frame header");
}

#[test]
fn assembles_announced_frames() {
    let frame = assemble_frame(owned("RGB565LE", 3), vec![7, 8, 9]).unwrap();
    assert_eq!(frame.bytes, vec![7, 8, 9]);
    assert_eq!(frame.header.pixfmt, "RGB565LE");
    assert_eq!((frame.header.width, frame.header.height, frame.header.stride), (1, 2, 4));
    assert_eq!(frame.header.byte_len, 3);
    assert_eq!(frame.header.name, "card0-DP-1");
    let err = assemble_frame(owned("BGRA", 12), vec![0; 7]).unwrap_err();
    assert_eq!(err.kind, ErrorKind::Other);
    assert_eq!(err.message, "privileged kms helper frame length mismatch: expected 12, got 7");
}

#[test]
fn names_outlive_their_strings() {
    for name in ["BGRA", "RGBA", "RGB565LE", "P010", ""] {
        let kept: &'static str = leak_pixfmt(name.to_string());
        assert_eq!(kept, name);
    }
}

#[test]
fn strips_one_newline() {
    assert_eq!(strip_newline(b"ab\n\n".to_vec()), b"ab\n".to_vec());
    assert_eq!(strip_newline(b"ab".to_vec()), b"ab".to_vec());
    assert_eq!(strip_newline(vec![]), Vec::<u8>::new());
}

#[test]
fn makes_frames_of_helper_answers() {
    let header = |pixfmt: &str| HelperFrameHeader {
        width: 3,
        height: 4,
        stride: 12,
        pixfmt: pixfmt.to_string(),
        byte_len: 2,
    };
    let frame = helper_frame(header("RGBA"), vec![5, 6]).unwrap();
    assert_eq!((frame.width, frame.height, frame.pixfmt), (3, 4, Pixfmt::RGBA));
    assert_eq!((frame.stride, frame.data), (vec![12], vec![5, 6]));
    let err = helper_frame(header("NV12"), vec![]).unwrap_err();
    assert_eq!(err.kind, ErrorKind::Unsupported);
    assert_eq!(err.message, "unsupported kms helper pixfmt 'NV12'");
}

fn dmabuf_header(planes: usize) -> HelperDmabufHeader {
    HelperDmabufHeader {
        width: 64,
        height: 32,
        fourcc: 7,
        modifier: 8,
        planes: (0..planes).map(|i| HelperDmabufPlane { stride: i as u32 + 1, offset: i as u32 * 10 }).collect(),
    }
}

#[test]
fn joins_planes_with_descriptors() {
    let frame = dmabuf_frame(dmabuf_header(2), vec!["a".to_string(), "b".to_string()]).unwrap();
    assert_eq!((frame.width, frame.height, frame.fourcc, frame.modifier), (64, 32, 7, 8));
    assert_eq!(frame.planes[0].fd, "a");
    assert_eq!((frame.planes[1].fd.as_str(), frame.planes[1].stride, frame.planes[1].offset), ("b", 2, 10));
    assert_eq!(dmabuf_frame::<i32>(dmabuf_header(0), vec![]).unwrap().planes.len(), 0);
}

#[test]
fn counts_planes_and_descriptors() {
    let err = dmabuf_frame(dmabuf_header(2), vec![1]).unwrap_err();
    assert_eq!(err.kind, ErrorKind::InvalidData);
    assert_eq!(err.message, "kms dmabuf plane/fd count mismatch: 2 planes, 1 fds");
}

#[test]
fn a_written_frame_comes_back() {
    let written = owned("P010 \"odd\"\n", 3);
    let mut fields = serde_json::Map::new();
    fields.insert("pixfmt".to_string(), written.pixfmt.clone().into());
    fields.insert("byte_len".to_string(), written.byte_len.into());
    let line = serde_json::to_vec(&serde_json::Value::Object(fields)).unwrap();
    let message = frame_message(line, &vec![10, 1, 10]);
    let (line, body) = split_frame(&message).unwrap();
    let read: serde_json::Value = serde_json::from_slice(&line).unwrap();
    let mut header = owned(read["pixfmt"].as_str().unwrap(), 0);
    header.byte_len = read["byte_len"].as_u64().unwrap() as usize;
    let frame = assemble_frame(header, body).unwrap();
    assert_eq!(frame.header.pixfmt, written.pixfmt);
    assert_eq!((frame.header.byte_len, frame.bytes), (3, vec![10, 1, 10]));
}

#[test]
fn an_unreadable_line_keeps_its_cause() {
    let err = header_failure(Error::new(ErrorKind::InvalidData, "expected value"));
    assert_eq!((err.kind, err.message.as_str()), (ErrorKind::Other, "failed to parse frame header"));
    let cause = err.cause.unwrap();
    assert_eq!((cause.kind, cause.message.as_str()), (ErrorKind::InvalidData, "expected value"));
}
