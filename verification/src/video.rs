use vstd::prelude::*;
use vstd::string::StringSliceAdditionalSpecFns;
use crate::text::{
    decimal, push_decimal, push_owned, push_str, spec_utf8_lossy, string_views, truncate_with_count,
    truncated_with_count, utf8_lossy,
};

verus! {

/// The latest captured frame, owned so that the video clock can read it
/// after the capture callback that produced it has returned: tightly packed
/// RGBA rows, `width * 4` bytes each.
pub struct OwnedFrame {
    pub width: u32,
    pub height: u32,
    pub pixels: Vec<u8>,
}

/// The first `rows` rows of a frame buffer whose rows start every `pitch`
/// bytes, each cut to its first `row_bytes` bytes and laid end to end.
pub open spec fn packed_rows(raw: Seq<u8>, pitch: int, row_bytes: int, rows: nat) -> Seq<u8>
    decreases rows,
{
    if rows == 0 {
        Seq::empty()
    } else {
        packed_rows(raw, pitch, row_bytes, (rows - 1) as nat) + raw.subrange(
            (rows - 1) * pitch,
            (rows - 1) * pitch + row_bytes,
        )
    }
}

/// Whether a buffer of `raw_len` bytes with rows every `row_pitch` bytes
/// holds a whole `width` x `height` RGBA frame.
pub open spec fn buffer_holds_frame(raw_len: nat, row_pitch: nat, width: nat, height: nat) -> bool {
    row_pitch >= width * 4 && raw_len >= row_pitch * height
}

/// The message reported when a captured buffer is too small for its frame.
pub open spec fn size_mismatch_message(row_pitch: nat, width: nat) -> Seq<char> {
    "Frame buffer size mismatch: row_pitch="@ + decimal(row_pitch) + ", expected>="@ + decimal(width * 4)
}

/// Copies a captured RGBA frame out of a buffer whose rows start every
/// `row_pitch` bytes into a tightly packed owned frame, or reports a size
/// mismatch when the buffer cannot hold the frame.
pub fn frame_from_buffer(raw: &[u8], row_pitch: usize, width: u32, height: u32) -> (r: Result<OwnedFrame, String>)
    requires
        width * 4 <= usize::MAX,
        row_pitch >= width * 4 ==> row_pitch * height <= usize::MAX,
    ensures
        buffer_holds_frame(raw@.len(), row_pitch as nat, width as nat, height as nat) ==> (r matches Ok(f)
            && f.width == width && f.height == height && f.pixels@ == packed_rows(
            raw@,
            row_pitch as int,
            width * 4,
            height as nat,
        ) && f.pixels@.len() == width * 4 * height),
        !buffer_holds_frame(raw@.len(), row_pitch as nat, width as nat, height as nat) ==> (r matches Err(
            m,
        ) && m@ == size_mismatch_message(row_pitch as nat, width as nat)),
{
    let tight: usize = (width as usize) * 4;
    if row_pitch >= tight && raw.len() >= row_pitch * (height as usize) {
        let h = height as usize;
        let mut pixels: Vec<u8> = Vec::new();
        let mut row: usize = 0;
        while row < h
            invariant
                0 <= row <= h,
                h == height,
                tight == width * 4,
                row_pitch >= tight,
                raw@.len() >= row_pitch * h,
                row_pitch * h <= usize::MAX,
                pixels@ == packed_rows(raw@, row_pitch as int, tight as int, row as nat),
                pixels@.len() == row * tight,
            decreases h - row,
        {
            assert((row + 1) * row_pitch <= h * row_pitch) by (nonlinear_arith)
                requires
                    row + 1 <= h,
            ;
            assert((row + 1) * row_pitch == row * row_pitch + row_pitch) by (nonlinear_arith);
            assert(row_pitch * h == h * row_pitch) by (nonlinear_arith);
            let start = row * row_pitch;
            let end = start + tight;
            let ghost base = pixels@;
            let mut k = start;
            while k < end
                invariant
                    start <= k <= end <= raw@.len(),
                    pixels@ == base + raw@.subrange(start as int, k as int),
                decreases end - k,
            {
                pixels.push(raw[k]);
                assert(raw@.subrange(start as int, k + 1) =~= raw@.subrange(start as int, k as int).push(
                    raw@[k as int],
                ));
                k = k + 1;
            }
            assert((row + 1) * tight == row * tight + tight) by (nonlinear_arith);
            assert(start == row * row_pitch);
            assert(packed_rows(raw@, row_pitch as int, tight as int, (row + 1) as nat) == packed_rows(
                raw@,
                row_pitch as int,
                tight as int,
                row as nat,
            ) + raw@.subrange(row * row_pitch, row * row_pitch + tight));
            row = row + 1;
        }
        assert(pixels@.len() == width * 4 * height) by (nonlinear_arith)
            requires
                pixels@.len() == row * tight,
                row == h,
                h == height,
                tight == width * 4,
        ;
        Ok(OwnedFrame { width, height, pixels })
    } else {
        let mut m = String::new();
        push_str(&mut m, "Frame buffer size mismatch: row_pitch=");
        push_decimal(&mut m, row_pitch as u128);
        push_str(&mut m, ", expected>=");
        push_decimal(&mut m, tight as u128);
        Err(m)
    }
}

/// Whether the video clock's encode succeeded: no frame write failed, the
/// output file exists, and at least one frame was written; otherwise the
/// reason, which is the write error if there was one.
pub open spec fn video_encode_verdict(
    write_error: Option<Seq<char>>,
    output_exists: bool,
    frames_produced: nat,
    stderr: Seq<char>,
) -> Result<(), Seq<char>> {
    if write_error is None && output_exists && frames_produced > 0 {
        Ok(())
    } else {
        match write_error {
            Some(e) => Err(e),
            None => Err(
                "ffmpeg did not produce the expected output file. stderr: "@ + truncated_with_count(
                    stderr,
                    2000,
                ),
            ),
        }
    }
}

/// Decides the outcome of a clock-driven encode once the clock has stopped
/// and FFmpeg has exited.
pub fn video_encode_outcome(
    write_error: Option<String>,
    output_exists: bool,
    frames_produced: u32,
    stderr: &str,
) -> (r: Result<(), String>)
    ensures
        match (r, video_encode_verdict(
            crate::audio::opt_chars(write_error),
            output_exists,
            frames_produced as nat,
            stderr@,
        )) {
            (Ok(()), Ok(())) => true,
            (Err(a), Err(b)) => a@ == b,
            _ => false,
        },
{
    match write_error {
        None => {
            if output_exists && frames_produced > 0 {
                Ok(())
            } else {
                let mut m = String::new();
                push_str(&mut m, "ffmpeg did not produce the expected output file. stderr: ");
                let t = truncate_with_count(stderr, 2000);
                m.append(t.as_str());
                Err(m)
            }
        },
        Some(e) => Err(e),
    }
}

} // verus!

verus! {

/// The most characters of FFmpeg's stderr kept in a report.
pub const MAX_STDERR_CHARS: usize = 2000;

/// FFmpeg's stderr bounded to 2000 characters, with a note of its full
/// length when it was longer.
pub fn truncated_stderr(stderr: &str) -> (r: String)
    ensures
        r@ == truncated_with_count(stderr@, MAX_STDERR_CHARS as nat),
{
    truncate_with_count(stderr, MAX_STDERR_CHARS)
}

/// Adds a chunk of FFmpeg's stderr to what has been collected, unless the
/// collection already holds 4000 bytes or more (so that a verbose run
/// cannot grow it without bound).
pub fn collect_stderr(collected: &mut String, chunk: &[u8])
    requires
        vstd::utf8::encode_utf8(old(collected)@).len() <= usize::MAX,
    ensures
        final(collected)@ == if vstd::utf8::encode_utf8(old(collected)@).len() < 2 * MAX_STDERR_CHARS {
            old(collected)@ + spec_utf8_lossy(chunk@)
        } else {
            old(collected)@
        },
{
    let held: usize = {
        let view: &str = collected.as_str();
        assert(view.spec_bytes() == vstd::utf8::encode_utf8(view@));
        view.len()
    };
    if held < MAX_STDERR_CHARS * 2 {
        let text = utf8_lossy(chunk);
        collected.append(text.as_str());
    }
}

/// The FFmpeg arguments of the raw-video encode: RGBA frames of the given
/// size and rate read from standard input, encoded as MPEG-4 to `output`.
pub open spec fn spec_raw_video_args(width: u32, height: u32, fps: u32, output: Seq<char>) -> Seq<
    Seq<char>,
> {
    seq![
        "-y"@,
        "-f"@,
        "rawvideo"@,
        "-pixel_format"@,
        "rgba"@,
        "-video_size"@,
        decimal(width as nat) + "x"@ + decimal(height as nat),
        "-framerate"@,
        decimal(fps as nat),
        "-i"@,
        "-"@,
        "-c:v"@,
        "mpeg4"@,
        "-pix_fmt"@,
        "yuv420p"@,
        "-movflags"@,
        "+faststart"@,
        output,
    ]
}

/// Builds the FFmpeg arguments of the raw-video encode.
pub fn raw_video_args(width: u32, height: u32, fps: u32, output: &str) -> (r: Vec<String>)
    ensures
        string_views(r@) == spec_raw_video_args(width, height, fps, output@),
{
    let mut v: Vec<String> = Vec::new();
    push_owned(&mut v, "-y");
    push_owned(&mut v, "-f");
    push_owned(&mut v, "rawvideo");
    push_owned(&mut v, "-pixel_format");
    push_owned(&mut v, "rgba");
    push_owned(&mut v, "-video_size");
    let mut size = String::new();
    push_decimal(&mut size, width as u128);
    push_str(&mut size, "x");
    push_decimal(&mut size, height as u128);
    let ghost before = string_views(v@);
    v.push(size);
    assert(string_views(v@) =~= before.push(decimal(width as nat) + "x"@ + decimal(height as nat)));
    push_owned(&mut v, "-framerate");
    let mut rate = String::new();
    push_decimal(&mut rate, fps as u128);
    let ghost before2 = string_views(v@);
    v.push(rate);
    assert(string_views(v@) =~= before2.push(decimal(fps as nat)));
    push_owned(&mut v, "-i");
    push_owned(&mut v, "-");
    push_owned(&mut v, "-c:v");
    push_owned(&mut v, "mpeg4");
    push_owned(&mut v, "-pix_fmt");
    push_owned(&mut v, "yuv420p");
    push_owned(&mut v, "-movflags");
    push_owned(&mut v, "+faststart");
    push_owned(&mut v, output);
    assert(string_views(v@) =~= spec_raw_video_args(width, height, fps, output@));
    v
}

/// The state of the video clock's frame loop: the current tick, the frames
/// written so far, and the error that ended the loop, if one did.
pub struct VideoClock {
    pub tick: u32,
    pub frames_produced: u32,
    pub write_error: Option<String>,
}

/// `Could not write frame <tick> to ffmpeg stdin: <error>`.
pub open spec fn frame_write_error(tick: u32, error: Seq<char>) -> Seq<char> {
    "Could not write frame "@ + decimal(tick as nat) + " to ffmpeg stdin: "@ + error
}

/// The error when a tick finds no frame to write.
pub open spec fn missing_frame_error(tick: u32) -> Seq<char> {
    "No owned frame available at tick "@ + decimal(tick as nat)
        + " - clock started before any frame was captured."@
}

impl VideoClock {
    /// A clock that has not ticked.
    pub fn new() -> (r: VideoClock)
        ensures
            r.tick == 0,
            r.frames_produced == 0,
            r.write_error is None,
    {
        VideoClock { tick: 0, frames_produced: 0, write_error: None }
    }

    /// Whether the loop has ended on an error.
    pub fn failed(&self) -> (r: bool)
        ensures
            r == (self.write_error is Some),
    {
        self.write_error.is_some()
    }

    /// A frame was written at this tick: one more frame, next tick.
    pub fn frame_written(&mut self)
        requires
            old(self).tick < u32::MAX,
            old(self).frames_produced < u32::MAX,
        ensures
            final(self).tick == old(self).tick + 1,
            final(self).frames_produced == old(self).frames_produced + 1,
            final(self).write_error == old(self).write_error,
            old(self).frames_produced == old(self).tick ==> final(self).frames_produced
                == final(self).tick,
    {
        self.frames_produced = self.frames_produced + 1;
        self.tick = self.tick + 1;
    }

    /// Writing this tick's frame failed with `error`: the loop ends.
    pub fn frame_write_failed(&mut self, error: &str)
        ensures
            final(self).tick == old(self).tick,
            final(self).frames_produced == old(self).frames_produced,
            final(self).write_error matches Some(e) && e@ == frame_write_error(old(self).tick, error@),
    {
        let mut m = String::new();
        push_str(&mut m, "Could not write frame ");
        push_decimal(&mut m, self.tick as u128);
        push_str(&mut m, " to ffmpeg stdin: ");
        m.append(error);
        self.write_error = Some(m);
    }

    /// No frame was there to write at this tick: the loop ends.
    pub fn frame_missing(&mut self)
        ensures
            final(self).tick == old(self).tick,
            final(self).frames_produced == old(self).frames_produced,
            final(self).write_error matches Some(e) && e@ == missing_frame_error(old(self).tick),
    {
        let mut m = String::new();
        push_str(&mut m, "No owned frame available at tick ");
        push_decimal(&mut m, self.tick as u128);
        push_str(&mut m, " - clock started before any frame was captured.");
        self.write_error = Some(m);
    }
}

} // verus!

verus! {

/// `std::sync::Mutex`, carried through as an opaque value.
#[verifier::external_type_specification]
#[verifier::external_body]
#[verifier::reject_recursive_types(T)]
pub struct ExMutex<T: ?Sized>(std::sync::Mutex<T>);

/// The latest frame, shared between the capture callback that writes it
/// and the video clock that reads it.
pub type SharedFrame = std::sync::Arc<std::sync::Mutex<Option<OwnedFrame>>>;

/// Calls `std::sync::Mutex::new(None)`: a lock holding no frame yet. What a
/// lock holds can change behind any reference to it, so nothing is stated
/// of its contents.
#[verifier::external_body]
fn empty_frame_slot() -> (r: std::sync::Mutex<Option<OwnedFrame>>) {
    std::sync::Mutex::new(None)
}

/// A new shared frame slot, holding no frame until capture delivers one.
pub fn new_shared_frame() -> (r: SharedFrame) {
    std::sync::Arc::new(empty_frame_slot())
}

} // verus!
