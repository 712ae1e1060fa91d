use ledmatrix::matrix::new_canvas;
use ledmatrix::protocol::{
    brightness_frame, check_fw_frame, commit_frame, draw_matrix_frames, draw_pattern_frame,
    frame_command, matches_device_id, parse_fw_version, poll_step, set_col_frame, sleep_frame,
    FwVersion, PollStep,
};

#[test]
fn frame_has_marker_opcode_params() {
    let params = vec![1u8, 2, 3];
    let frame = frame_command(0x42, Some(&params));
    assert_eq!(frame, vec![0x32, 0xAC, 0x42, 1, 2, 3]);
    let bare = frame_command(0x42, None);
    assert_eq!(bare, vec![0x32, 0xAC, 0x42]);
}

#[test]
fn brightness_frame_bytes() {
    assert_eq!(brightness_frame(7), vec![0x32, 0xAC, 0x00, 7]);
    assert_eq!(brightness_frame(255), vec![0x32, 0xAC, 0x00, 255]);
}

#[test]
fn sleep_and_wake_frames() {
    assert_eq!(sleep_frame(true), vec![0x32, 0xAC, 0x03, 1]);
    assert_eq!(sleep_frame(false), vec![0x32, 0xAC, 0x03, 0]);
}

#[test]
fn commit_and_check_fw_frames() {
    assert_eq!(commit_frame(), vec![0x32, 0xAC, 0x08]);
    assert_eq!(check_fw_frame(), vec![0x32, 0xAC, 0x20]);
}

#[test]
fn set_col_frame_bytes() {
    let mut column = vec![0u8; 34];
    column[0] = 11;
    column[33] = 22;
    let frame = set_col_frame(2, &column);
    assert_eq!(frame.len(), 3 + 1 + 34);
    assert_eq!(&frame[..4], &[0x32, 0xAC, 0x07, 2]);
    assert_eq!(frame[4], 11);
    assert_eq!(frame[37], 22);
}

#[test]
fn draw_matrix_frames_stage_then_commit() {
    let mut canvas = new_canvas();
    canvas[0][0] = 9;
    canvas[33][8] = 13;
    let frames = draw_matrix_frames(&canvas);
    assert_eq!(frames.len(), 10);
    for c in 0..9 {
        assert_eq!(frames[c].len(), 3 + 1 + 34);
        assert_eq!(&frames[c][..3], &[0x32, 0xAC, 0x07]);
        assert_eq!(frames[c][3], c as u8);
    }
    // Column 0 carries the cell written at (0, 0), top of the column.
    assert_eq!(frames[0][4], 9);
    // Column 8 carries the cell written at (33, 8), bottom of the column.
    assert_eq!(frames[8][4 + 33], 13);
    // The commit frame comes last and has no parameters.
    assert_eq!(frames[9], vec![0x32, 0xAC, 0x08]);
}

#[test]
fn draw_pattern_frame_bytes() {
    let mut g: Vec<Vec<bool>> = Vec::new();
    g.push(vec![true; 9]);
    for _ in 1..34 {
        g.push(vec![false; 9]);
    }
    let frame = draw_pattern_frame(&g);
    assert_eq!(frame.len(), 3 + 39);
    assert_eq!(&frame[..3], &[0x32, 0xAC, 0x06]);
    assert_eq!(frame[3], 0xFF);
    assert_eq!(frame[4], 0x01);
    for b in 5..42 {
        assert_eq!(frame[b], 0);
    }
}

#[test]
fn fw_version_parse_nibbles() {
    // Major 1, minor and patch packed as nibbles of 0x23, pre-release flag.
    let reply = vec![1u8, 0x23, 1];
    let v = parse_fw_version(&reply).unwrap();
    assert_eq!(
        v,
        FwVersion { major: 1, minor: 2, patch: 3, pre_release: true }
    );
}

#[test]
fn fw_version_parse_release() {
    let reply = vec![0u8, 0x10, 0, 0, 0];
    let v = parse_fw_version(&reply).unwrap();
    assert_eq!(
        v,
        FwVersion { major: 0, minor: 1, patch: 0, pre_release: false }
    );
}

#[test]
fn fw_version_short_reply_fails() {
    assert!(parse_fw_version(&vec![1u8, 0x23]).is_none());
    assert!(parse_fw_version(&Vec::new()).is_none());
}

#[test]
fn poll_times_out_only_past_deadline_with_nothing_read() {
    assert_eq!(poll_step(0, 5001, 5000), PollStep::TimedOut);
    assert_eq!(poll_step(0, 5000, 5000), PollStep::Wait);
    assert_eq!(poll_step(0, 0, 5000), PollStep::Wait);
    assert_eq!(poll_step(1, 5001, 5000), PollStep::Drain);
    assert_eq!(poll_step(32, 0, 5000), PollStep::Drain);
}

#[test]
fn device_id_filter() {
    assert!(matches_device_id(12972, 32));
    assert!(!matches_device_id(12972, 33));
    assert!(!matches_device_id(12971, 32));
}
