use scrap::ancillary::{
    check_sent, cmsg_align, control_layout, fits_into_control, holds_descriptors, read_control,
    received_fd_count, received_line, write_control, ByteOrder, ControlHeader, ControlKind,
    ControlLayout,
};
use scrap::error::ErrorKind;

#[test]
fn aligns_to_machine_words() {
    let word = std::mem::size_of::<usize>();
    assert_eq!(cmsg_align(0), 0);
    assert_eq!(cmsg_align(1), word);
    assert_eq!(cmsg_align(word), word);
    assert_eq!(cmsg_align(word + 1), 2 * word);
    assert_eq!(cmsg_align(usize::MAX - word), usize::MAX - word + 1 - (usize::MAX - word + 1) % word);
}

#[test]
fn lays_out_descriptors() {
    let header = std::mem::size_of::<libc::cmsghdr>();
    let layout = control_layout(header, 3);
    assert_eq!(layout.data_offset, cmsg_align(header));
    assert_eq!(layout.cmsg_len, cmsg_align(header) + 12);
    assert_eq!(layout.control_len, cmsg_align(header) + cmsg_align(12));
    assert_eq!(
        control_layout(16, 0),
        ControlLayout { control_len: 16, cmsg_len: 16, data_offset: 16 }
    );
}

#[test]
fn receiver_counts_what_sender_laid_out() {
    for header in [12usize, 16, 20] {
        for count in 0..8 {
            let layout = control_layout(header, count);
            assert_eq!(received_fd_count(layout.control_len, header, true, layout.cmsg_len), count);
        }
    }
}

#[test]
fn other_control_data_carries_no_descriptors() {
    assert_eq!(received_fd_count(15, 16, true, 24), 0);
    assert_eq!(received_fd_count(64, 16, false, 24), 0);
    assert_eq!(received_fd_count(64, 16, true, 8), 0);
    assert_eq!(received_fd_count(64, 16, true, 23), 1);
}

#[test]
fn short_writes_are_errors() {
    assert!(check_sent(7, 7).is_ok());
    let err = check_sent(3, 7).unwrap_err();
    assert_eq!(err.kind, ErrorKind::WriteZero);
    assert_eq!(err.message, "short kms dmabuf datagram write: expected 7, wrote 3");
}

#[test]
fn lines_are_cut_out_of_buffers() {
    assert_eq!(received_line(b"{}\n\0\0".to_vec(), 3).unwrap(), b"{}".to_vec());
    assert_eq!(received_line(b"{}".to_vec(), 9).unwrap(), b"{}".to_vec());
    let err = received_line(vec![0; 4], 0).unwrap_err();
    assert_eq!(err.kind, ErrorKind::UnexpectedEof);
    assert_eq!(err.message, "kms dmabuf socket closed");
}

const RIGHTS: ControlKind = ControlKind { level: 1, kind: 1 };

#[test]
fn descriptors_come_back_in_order() {
    for fds in [vec![], vec![7], vec![5, 3, 4], vec![-1, i32::MAX, i32::MIN, 0x0102_0304]] {
        for order in [ByteOrder::LowFirst, ByteOrder::HighFirst] {
            let (layout, mut control) = write_control(16, &fds, order);
            assert_eq!(control.len(), layout.control_len);
            // The header may be anything.
            control[0] = 9;
            control[15] = 9;
            let header = ControlHeader { about: RIGHTS, len: layout.cmsg_len };
            assert!(holds_descriptors(&control, control.len(), 16, header, RIGHTS));
            assert_eq!(read_control(&control, control.len(), 16, header, RIGHTS, order), fds);
        }
    }
}

#[test]
fn descriptors_are_stored_like_numbers_of_the_machine() {
    let (_, low) = write_control(0, &vec![0x0102_0304], ByteOrder::LowFirst);
    let (_, high) = write_control(0, &vec![-2], ByteOrder::HighFirst);
    assert_eq!(&low[..4], &0x0102_0304_i32.to_le_bytes());
    assert_eq!(&high[..4], &(-2_i32).to_be_bytes());
    assert_eq!(low.len(), cmsg_align(4));
    assert!(low[4..].iter().all(|byte| *byte == 0));
}

#[test]
fn other_control_data_brings_no_descriptors() {
    let (layout, control) = write_control(16, &vec![3, 4], ByteOrder::LowFirst);
    let header = ControlHeader { about: RIGHTS, len: layout.cmsg_len };
    let read = |len, header| read_control(&control, len, 16, header, RIGHTS, ByteOrder::LowFirst);
    assert_eq!(read(control.len(), header), vec![3, 4]);
    assert!(read(15, header).is_empty());
    let other = ControlHeader { about: ControlKind { level: 1, kind: 2 }, ..header };
    assert!(read(control.len(), other).is_empty());
    let far = ControlHeader { len: 1000, ..header };
    assert!(!holds_descriptors(&control, control.len(), 16, far, RIGHTS));
}

#[test]
fn control_data_may_not_fit() {
    assert!(fits_into_control(16, 4));
    assert!(!fits_into_control(usize::MAX, 0));
    assert!(!fits_into_control(16, usize::MAX / 4));
}
