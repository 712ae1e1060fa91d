use vstd::prelude::*;

verus! {

use crate::matrix::is_canvas;
use crate::matrix::is_rect;
use crate::matrix::pattern_encodes;
use crate::matrix::transpose;
use crate::matrix::transpose_spec;
use crate::matrix::encode;
use crate::matrix::Matrix;
use crate::matrix::PATTERN_BYTES;
use crate::PANEL_HEIGHT;
use crate::PANEL_WIDTH;

/// Opcode: set the brightness of every LED at once.
pub const BRIGHTNESS_CMD: u8 = 0x00;

/// Opcode: legacy pattern draw.
pub const PATTERN_CMD: u8 = 0x01;

/// Opcode: jump to the bootloader.
pub const BOOTLOADER_CMD: u8 = 0x02;

/// Opcode: sleep or wake, chosen by a one-byte flag.
pub const SLEEP_CMD: u8 = 0x03;

/// Opcode: start the built-in animation.
pub const ANIMATE_CMD: u8 = 0x04;

/// Opcode: show the panic pattern.
pub const PANIC_CMD: u8 = 0x05;

/// Opcode: draw a bit-packed 1-bit pattern frame.
pub const DRAW_CMD: u8 = 0x06;

/// Opcode: stage the brightness bytes of one column.
pub const SET_COL: u8 = 0x07;

/// Opcode: latch all staged columns onto the display at once.
pub const COMMIT_COL: u8 = 0x08;

/// Opcode: query the firmware version.
pub const CHECKFW_CMD: u8 = 0x20;

/// First byte of the 2-byte start marker that precedes every command.
pub const CMD_START_0: u8 = 0x32;

/// Second byte of the 2-byte start marker that precedes every command.
pub const CMD_START_1: u8 = 0xAC;

/// USB vendor ID of the LED matrix module.
pub const VENDOR_ID: u16 = 12972;

/// USB product ID of the LED matrix module.
pub const PRODUCT_ID: u16 = 32;

/// Serial baud rate the module speaks.
pub const BAUD_RATE: u32 = 115200;

/// How many bytes a firmware version query reads back at most.
pub const FW_REPLY_MAX_BYTES: usize = 32;

/// How long a firmware version query waits for a reply, in milliseconds.
pub const FW_REPLY_TIMEOUT_MS: u64 = 5000;

/// How long the response poll loop sleeps between polls, in milliseconds.
pub const POLL_SLEEP_MS: u64 = 10;

/// A serial endpoint belongs to an LED matrix module exactly when both USB
/// identifiers match the module's.
pub fn matches_device_id(vid: u16, pid: u16) -> (r: bool)
    ensures
        r <==> (vid == VENDOR_ID && pid == PRODUCT_ID),
{
    vid == VENDOR_ID && pid == PRODUCT_ID
}

/// The framed bytes of one command: the 2-byte start marker, the opcode,
/// then the raw parameter bytes. Lengths are opcode-defined; no length
/// prefix is sent.
pub open spec fn frame_spec(cmd: u8, params: Seq<u8>) -> Seq<u8> {
    seq![CMD_START_0, CMD_START_1, cmd] + params
}

/// Build the byte frame for one command: start marker, opcode, parameters.
pub fn frame_command(cmd: u8, params: Option<&Vec<u8>>) -> (r: Vec<u8>)
    ensures
        (match params {
            Some(p) => r@ == frame_spec(cmd, p@),
            None => r@ == frame_spec(cmd, Seq::<u8>::empty()),
        }),
{
    let mut buffer: Vec<u8> = Vec::new();
    buffer.push(CMD_START_0);
    buffer.push(CMD_START_1);
    buffer.push(cmd);
    match params {
        None => {
            proof {
                assert(buffer@ =~= frame_spec(cmd, Seq::<u8>::empty()));
            }
        },
        Some(p) => {
            let mut i: usize = 0;
            proof {
                assert(buffer@ =~= frame_spec(cmd, p@.take(0)));
            }
            while i < p.len()
                invariant
                    i <= p@.len(),
                    buffer@ == frame_spec(cmd, p@.take(i as int)),
                decreases p@.len() - i,
            {
                buffer.push(p[i]);
                proof {
                    assert(p@.take(i + 1) =~= p@.take(i as int).push(p@[i as int]));
                    assert(buffer@ =~= frame_spec(cmd, p@.take(i + 1)));
                }
                i = i + 1;
            }
            proof {
                assert(p@.take(p@.len() as int) =~= p@);
            }
        },
    }
    buffer
}

/// A firmware version as the module reports it: major, minor and patch
/// numbers plus a pre-release flag.
#[derive(Clone, Copy, PartialEq, Eq, Structural, Debug)]
pub struct FwVersion {
    pub major: u8,
    pub minor: u8,
    pub patch: u8,
    pub pre_release: bool,
}

/// The version encoded by the module's 3-byte reply: the first byte is the
/// major number, the second packs minor (high nibble) and patch (low
/// nibble), and the third is 1 exactly for a pre-release build.
pub open spec fn fw_version_spec(b0: u8, b1: u8, b2: u8) -> FwVersion {
    FwVersion {
        major: b0,
        minor: (b1 & 0xF0) >> 4u8,
        patch: b1 & 0x0F,
        pre_release: b2 == 1,
    }
}

/// Parse a firmware version reply. Succeeds exactly when at least the three
/// reply bytes are present; anything past them is ignored.
pub fn parse_fw_version(bytes: &Vec<u8>) -> (r: Option<FwVersion>)
    ensures
        r is Some <==> bytes@.len() >= 3,
        r is Some ==> r->0 == fw_version_spec(bytes@[0], bytes@[1], bytes@[2]),
{
    if bytes.len() < 3 {
        return None;
    }
    let b1 = bytes[1];
    Some(
        FwVersion {
            major: bytes[0],
            minor: (b1 & 0xF0) >> 4u8,
            patch: b1 & 0x0F,
            pre_release: bytes[2] == 1,
        },
    )
}

/// What one iteration of the bounded response wait should do next.
#[derive(Clone, Copy, PartialEq, Eq, Structural, Debug)]
pub enum PollStep {
    /// At least one byte is buffered: drain the port now.
    Drain,
    /// Nothing is buffered yet and time remains: sleep briefly, poll again.
    Wait,
    /// Nothing is buffered and the deadline has passed: report a timeout.
    TimedOut,
}

/// Decide one iteration of the bounded response wait: drain as soon as any
/// byte is available; while nothing is available, keep waiting until
/// `elapsed_ms` exceeds `timeout_ms`, and only then time out. A read that
/// times out therefore never returns any partial data.
pub fn poll_step(bytes_available: u32, elapsed_ms: u64, timeout_ms: u64) -> (r: PollStep)
    ensures
        r == PollStep::Drain <==> bytes_available >= 1,
        r == PollStep::TimedOut <==> (bytes_available == 0 && elapsed_ms > timeout_ms),
        r == PollStep::Wait <==> (bytes_available == 0 && elapsed_ms <= timeout_ms),
{
    if bytes_available >= 1 {
        PollStep::Drain
    } else if elapsed_ms > timeout_ms {
        PollStep::TimedOut
    } else {
        PollStep::Wait
    }
}

/// The brightness command: one parameter byte, 0 = off, 255 = full.
pub fn brightness_frame(val: u8) -> (r: Vec<u8>)
    ensures
        r@ == frame_spec(BRIGHTNESS_CMD, seq![val]),
{
    let mut params: Vec<u8> = Vec::new();
    params.push(val);
    let r = frame_command(BRIGHTNESS_CMD, Some(&params));
    proof {
        assert(params@ =~= seq![val]);
    }
    r
}

/// The sleep/wake command: flag 1 puts the module to sleep, 0 wakes it.
pub fn sleep_frame(sleep: bool) -> (r: Vec<u8>)
    ensures
        r@ == frame_spec(SLEEP_CMD, seq![if sleep { 1u8 } else { 0u8 }]),
{
    let mut params: Vec<u8> = Vec::new();
    if sleep {
        params.push(1u8);
    } else {
        params.push(0u8);
    }
    let r = frame_command(SLEEP_CMD, Some(&params));
    proof {
        assert(params@ =~= seq![if sleep { 1u8 } else { 0u8 }]);
    }
    r
}

/// The commit command: no parameters; latches all staged columns at once.
pub fn commit_frame() -> (r: Vec<u8>)
    ensures
        r@ == frame_spec(COMMIT_COL, Seq::<u8>::empty()),
{
    frame_command(COMMIT_COL, None)
}

/// The firmware version query: no parameters; a 3-byte reply follows.
pub fn check_fw_frame() -> (r: Vec<u8>)
    ensures
        r@ == frame_spec(CHECKFW_CMD, Seq::<u8>::empty()),
{
    frame_command(CHECKFW_CMD, None)
}

/// The staged bytes of one set-column command: the column index, then that
/// column's `PANEL_HEIGHT` brightness bytes, top to bottom.
pub open spec fn set_col_params_spec(col: u8, column: Seq<u8>) -> Seq<u8> {
    seq![col] + column
}

/// The set-column command for one column of brightness bytes. The column is
/// staged only: nothing shows until the commit command runs.
pub fn set_col_frame(col: u8, arr: &Vec<u8>) -> (r: Vec<u8>)
    requires
        arr@.len() == PANEL_HEIGHT,
    ensures
        r@ == frame_spec(SET_COL, set_col_params_spec(col, arr@)),
{
    let mut params: Vec<u8> = Vec::new();
    params.push(col);
    let mut i: usize = 0;
    while i < arr.len()
        invariant
            i <= arr@.len(),
            params@ == seq![col] + arr@.take(i as int),
        decreases arr@.len() - i,
    {
        params.push(arr[i]);
        proof {
            assert(arr@.take(i + 1) =~= arr@.take(i as int).push(arr@[i as int]));
            assert(params@ =~= seq![col] + arr@.take(i + 1));
        }
        i = i + 1;
    }
    proof {
        assert(arr@.take(arr@.len() as int) =~= arr@);
    }
    frame_command(SET_COL, Some(&params))
}

/// Column `c` of grid `g`, top to bottom.
pub open spec fn column_of(g: Seq<Seq<u8>>, c: int) -> Seq<u8> {
    Seq::new(g.len(), |r: int| g[r][c])
}

/// Every frame one full-brightness draw sends, in order: one set-column
/// frame per panel column, column 0 first, then the commit frame that makes
/// the staged columns visible together.
pub fn draw_matrix_frames(mat: &Matrix) -> (frames: Vec<Vec<u8>>)
    requires
        is_canvas(mat.deep_view()),
    ensures
        frames@.len() == PANEL_WIDTH + 1,
        forall|c: int|
            0 <= c < PANEL_WIDTH ==> (#[trigger] frames@[c])@ == frame_spec(
                SET_COL,
                set_col_params_spec(c as u8, column_of(mat.deep_view(), c)),
            ),
        frames@[PANEL_WIDTH as int]@ == frame_spec(COMMIT_COL, Seq::<u8>::empty()),
{
    let ghost g = mat.deep_view();
    let tpose = transpose(mat, PANEL_HEIGHT, PANEL_WIDTH);
    proof {
        assert(g[0].len() == PANEL_WIDTH);
        assert forall|c: int| 0 <= c < PANEL_WIDTH implies transpose_spec(g)[c] == column_of(
            g,
            c,
        ) by {
            assert(transpose_spec(g)[c] =~= column_of(g, c));
        }
        assert forall|c: int| 0 <= c < PANEL_WIDTH implies (#[trigger] tpose@[c])@ == column_of(
            g,
            c,
        ) by {
            assert(tpose.deep_view()[c] =~= tpose@[c]@);
        }
    }
    let mut frames: Vec<Vec<u8>> = Vec::new();
    let mut c: usize = 0;
    while c < PANEL_WIDTH
        invariant
            c <= PANEL_WIDTH,
            tpose@.len() == PANEL_WIDTH,
            forall|cc: int| 0 <= cc < PANEL_WIDTH ==> (#[trigger] tpose@[cc])@.len() == PANEL_HEIGHT,
            forall|cc: int| 0 <= cc < PANEL_WIDTH ==> (#[trigger] tpose@[cc])@ == column_of(g, cc),
            frames@.len() == c,
            forall|cc: int|
                0 <= cc < c as int ==> (#[trigger] frames@[cc])@ == frame_spec(
                    SET_COL,
                    set_col_params_spec(cc as u8, column_of(g, cc)),
                ),
        decreases PANEL_WIDTH - c,
    {
        let frame = set_col_frame(c as u8, &tpose[c]);
        frames.push(frame);
        c = c + 1;
    }
    let commit = commit_frame();
    frames.push(commit);
    frames
}

/// The pattern draw command: the grid packed one bit per cell. Carries only
/// on/off, no brightness, in a frame a fraction the size of a column draw.
pub fn draw_pattern_frame(grid: &Vec<Vec<bool>>) -> (r: Vec<u8>)
    requires
        is_rect(grid.deep_view(), PANEL_HEIGHT as int, PANEL_WIDTH as int),
    ensures
        r@.len() == 3 + PATTERN_BYTES,
        r@.take(3) == seq![CMD_START_0, CMD_START_1, DRAW_CMD],
        pattern_encodes(grid.deep_view(), r@.skip(3)),
{
    let packed = encode(grid);
    let r = frame_command(DRAW_CMD, Some(&packed));
    proof {
        assert(r@.take(3) =~= seq![CMD_START_0, CMD_START_1, DRAW_CMD]);
        assert(r@.skip(3) =~= packed@);
    }
    r
}

} // verus!
