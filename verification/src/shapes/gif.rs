//! Animated GIF playback.
//!
//! A GIF is decoded once into full-canvas RGBA frames, each shown for its
//! own delay. Playback carries leftover time from frame to frame, so a
//! long update skips ahead and the animation keeps the file's timing.

use crate::time::{span_limit, TimeSpan};
use vstd::prelude::*;

verus! {

/// A frame as the decoder hands it over: the canvas size, its RGBA bytes
/// (row by row, four bytes a pixel) and its delay as a ratio of
/// milliseconds, `delay_numer / delay_denom`.
pub struct RawFrame {
    pub width: u32,
    pub height: u32,
    pub rgba: Vec<u8>,
    pub delay_numer: u32,
    pub delay_denom: u32,
}

impl View for RawFrame {
    type V = (u32, u32, Seq<u8>, u32, u32);

    open spec fn view(&self) -> (u32, u32, Seq<u8>, u32, u32) {
        (self.width, self.height, self.rgba@, self.delay_numer, self.delay_denom)
    }
}

/// The frames that the GIF decoder of the `image` crate produces from a
/// file's bytes, or the text of its error.
pub uninterp spec fn gif_decoded(bytes: Seq<u8>) -> Result<
    Seq<(u32, u32, Seq<u8>, u32, u32)>,
    Seq<char>,
>;

/// Whether a decoded frame holds a whole canvas of pixels and a delay
/// with a nonzero denominator.
pub open spec fn raw_frame_sound(f: (u32, u32, Seq<u8>, u32, u32)) -> bool {
    f.2.len() >= f.0 * f.1 * 4 && f.4 > 0
}

/// Whether a decoding result agrees with the frames the decoder produces:
/// the same error text, or frames with the same sizes, bytes and delays,
/// each covering its canvas and with a nonzero delay denominator.
pub open spec fn decoding_agrees(
    r: Result<Vec<RawFrame>, String>,
    d: Result<Seq<(u32, u32, Seq<u8>, u32, u32)>, Seq<char>>,
) -> bool {
    match (r, d) {
        (Err(e), Err(m)) => e@ == m,
        (Ok(v), Ok(s)) => {
            &&& v@.map_values(|f: RawFrame| f@) == s
            &&& forall|i: int| 0 <= i < s.len() ==> raw_frame_sound(#[trigger] s[i])
        },
        _ => false,
    }
}

/// Decodes all frames of a GIF with `image::codecs::gif::GifDecoder`
/// (through `AnimationDecoder::into_frames` and `Frames::collect_frames`).
/// Claimed: the result is `gif_decoded` of the bytes, each error turned
/// into its message; every frame's buffer holds at least
/// `width * height * 4` bytes (an invariant of `ImageBuffer`) and every
/// delay's denominator is nonzero (`Ratio::new` asserts it).
#[verifier::external_body]
fn decode_gif(bytes: &[u8]) -> (r: Result<Vec<RawFrame>, String>)
    ensures
        decoding_agrees(r, gif_decoded(bytes@)),
{
    let decoder = image::codecs::gif::GifDecoder::new(std::io::Cursor::new(bytes)).map_err(|e| e.to_string())?;
    let frames = image::AnimationDecoder::into_frames(decoder).collect_frames().map_err(|e| e.to_string())?;
    let mut out = Vec::new();
    for frame in frames {
        let (delay_numer, delay_denom) = frame.delay().numer_denom_ms();
        let buffer = frame.into_buffer();
        out.push(RawFrame { width: buffer.width(), height: buffer.height(), rgba: buffer.into_raw(), delay_numer, delay_denom });
    }
    Ok(out)
}

/// The length of a delay of `numer / denom` milliseconds, in nanoseconds,
/// as `Duration::from(Delay)` computes it: whole milliseconds plus the
/// remainder's nanoseconds, rounded down.
pub open spec fn delay_nanos(numer: nat, denom: nat) -> nat {
    (numer / denom) * 1_000_000 + ((numer % denom) * 1_000_000) / denom
}

/// How long a frame with delay `numer / denom` ms is shown: its delay, or
/// 100 ms where the delay is below one millisecond.
pub open spec fn shown_delay(numer: nat, denom: nat) -> nat {
    if delay_nanos(numer, denom) < 1_000_000 {
        100_000_000
    } else {
        delay_nanos(numer, denom)
    }
}

/// A frame's own delay is kept when it is at least one millisecond
/// (`numer >= denom`), so a 40 ms frame shows for 40 ms; only a delay under
/// one millisecond is shown for 100 ms instead. A whole number of
/// milliseconds is shown for exactly that many milliseconds.
pub proof fn lemma_shown_delay_keeps_real_delays(numer: nat, denom: nat)
    requires
        denom > 0,
    ensures
        numer >= denom ==> shown_delay(numer, denom) == delay_nanos(numer, denom),
        numer >= denom ==> shown_delay(numer, denom) >= 1_000_000,
        numer < denom ==> shown_delay(numer, denom) == 100_000_000,
        numer >= denom && numer % denom == 0 ==> shown_delay(numer, denom) == (numer / denom)
            * 1_000_000,
        delay_nanos(numer, denom) <= numer * 1_000_000 / denom,
        delay_nanos(numer, denom) + 1_000_000 > numer * 1_000_000 / denom,
{
    let q = numer / denom;
    let r = numer % denom;
    assert(numer == q * denom + r && r < denom) by (nonlinear_arith)
        requires
            q == numer / denom,
            r == numer % denom,
            denom > 0,
    ;
    let part = (r * 1_000_000) / denom;
    assert(part < 1_000_000) by (nonlinear_arith)
        requires
            part == (r * 1_000_000) / denom,
            r < denom,
            denom > 0,
    ;
    assert(numer * 1_000_000 / denom == q * 1_000_000 + part) by (nonlinear_arith)
        requires
            numer == q * denom + r,
            part == (r * 1_000_000) / denom,
            denom > 0,
    {
        assert(numer * 1_000_000 == (q * 1_000_000) * denom + r * 1_000_000);
        assert(r * 1_000_000 == part * denom + (r * 1_000_000) % denom);
        assert(numer * 1_000_000 == (q * 1_000_000 + part) * denom + (r * 1_000_000) % denom);
    }
    if numer >= denom {
        assert(q >= 1) by (nonlinear_arith)
            requires
                numer == q * denom + r,
                r < denom,
                numer >= denom,
        ;
    } else {
        assert(q == 0) by (nonlinear_arith)
            requires
                numer == q * denom + r,
                r < denom,
                numer < denom,
                r >= 0,
                q >= 0,
        ;
    }
    if r == 0 {
        assert(part == 0);
    }
}

/// Where playback stands after `elapsed` nanoseconds from frame `index`,
/// given each frame's delay: while the time reaches the current frame's
/// delay, that delay is spent and the next frame (wrapping to the first)
/// comes up. The result is the frame shown and the time spent on it.
pub open spec fn settle(delays: Seq<nat>, index: int, elapsed: nat) -> (int, nat)
    decreases elapsed,
{
    if 0 <= index < delays.len() && delays[index] > 0 && elapsed >= delays[index] {
        settle(delays, (index + 1) % (delays.len() as int), (elapsed - delays[index]) as nat)
    } else {
        (index, elapsed)
    }
}

/// Whether every delay is positive.
pub open spec fn all_positive(delays: Seq<nat>) -> bool {
    forall|i: int| 0 <= i < delays.len() ==> #[trigger] delays[i] > 0
}

/// Playback settles on a frame of the animation, with less time spent on
/// it than its delay.
pub proof fn lemma_settle_rests_inside_delay(delays: Seq<nat>, index: int, elapsed: nat)
    requires
        all_positive(delays),
        0 <= index < delays.len(),
    ensures
        0 <= settle(delays, index, elapsed).0 < delays.len(),
        settle(delays, index, elapsed).1 < delays[settle(delays, index, elapsed).0],
    decreases elapsed,
{
    if elapsed >= delays[index] {
        lemma_settle_rests_inside_delay(
            delays,
            (index + 1) % (delays.len() as int),
            (elapsed - delays[index]) as nat,
        );
    }
}

/// Playing `a` and then `b` nanoseconds ends on the same frame, with the
/// same time spent on it, as playing `a + b` at once: leftover time is
/// carried, never lost.
pub proof fn lemma_settle_additive(delays: Seq<nat>, index: int, a: nat, b: nat)
    ensures
        settle(delays, index, a + b) == settle(
            delays,
            settle(delays, index, a).0,
            settle(delays, index, a).1 + b,
        ),
    decreases a,
{
    if 0 <= index < delays.len() && delays[index] > 0 && a >= delays[index] {
        let next = (index + 1) % (delays.len() as int);
        lemma_settle_additive(delays, next, (a - delays[index]) as nat, b);
        assert((a + b - delays[index]) as nat == (a - delays[index]) as nat + b);
    }
}

/// One frame of an animation: its canvas of RGBA pixels and how long it is
/// shown.
pub struct GifFrame {
    width: u32,
    height: u32,
    rgba: Vec<u8>,
    delay: TimeSpan,
}

impl GifFrame {
    /// The frame's pixels cover its canvas and its delay is positive.
    pub closed spec fn wf(&self) -> bool {
        &&& self.rgba@.len() >= self.width * self.height * 4
        &&& self.delay@ > 0
    }

    /// The canvas width in pixels.
    pub closed spec fn spec_width(&self) -> u32 {
        self.width
    }

    /// The canvas height in pixels.
    pub closed spec fn spec_height(&self) -> u32 {
        self.height
    }

    /// The RGBA bytes, row by row.
    pub closed spec fn pixels(&self) -> Seq<u8> {
        self.rgba@
    }

    /// How long the frame is shown, in nanoseconds.
    pub closed spec fn delay_time(&self) -> nat {
        self.delay@
    }

    /// A frame of `width` by `height` pixels shown for `delay`; `None`
    /// where the bytes do not cover the canvas or the delay is empty.
    pub fn new(width: u32, height: u32, rgba: Vec<u8>, delay: TimeSpan) -> (r: Option<Self>)
        ensures
            r is Some <==> (rgba@.len() >= width * height * 4 && delay@ > 0),
            r matches Some(f) ==> f.wf() && f.spec_width() == width && f.spec_height() == height
                && f.pixels() == rgba@ && f.delay_time() == delay@,
    {
        let zero = TimeSpan::zero();
        if !zero.shorter_than(&delay) {
            return None;
        }
        assert((width as u128) * (height as u128) <= 0xffff_ffff_u128 * 0xffff_ffff_u128) by (nonlinear_arith)
            requires
                width <= 0xffff_ffff_u32,
                height <= 0xffff_ffff_u32,
        ;
        let needed: u128 = (width as u128) * (height as u128) * 4;
        if (rgba.len() as u128) < needed {
            return None;
        }
        Some(GifFrame { width, height, rgba, delay })
    }

    /// The canvas width in pixels.
    pub fn width(&self) -> (r: u32)
        ensures
            r == self.spec_width(),
    {
        self.width
    }

    /// The canvas height in pixels.
    pub fn height(&self) -> (r: u32)
        ensures
            r == self.spec_height(),
    {
        self.height
    }

    /// How long the frame is shown.
    pub fn delay(&self) -> (r: TimeSpan)
        ensures
            r@ == self.delay_time(),
    {
        self.delay
    }

    /// The red, green, blue and alpha bytes of the pixel at column `x` of
    /// row `y`.
    pub fn pixel(&self, x: u32, y: u32) -> (r: [u8; 4])
        requires
            self.wf(),
            x < self.spec_width(),
            y < self.spec_height(),
        ensures
            r@ == self.pixels().subrange(
                (y * self.spec_width() + x) * 4,
                (y * self.spec_width() + x) * 4 + 4,
            ),
    {
        proof {
            let w = self.width as int;
            let h = self.height as int;
            assert((y + 1) * w <= h * w) by (nonlinear_arith)
                requires
                    y < h,
                    0 <= w,
            ;
            assert(y * w + x < (y + 1) * w) by (nonlinear_arith)
                requires
                    x < w,
            ;
            assert(h * w * 4 == w * h * 4) by (nonlinear_arith);
            assert((y * w + x) * 4 + 4 <= w * h * 4) by (nonlinear_arith)
                requires
                    y * w + x < (y + 1) * w,
                    (y + 1) * w <= h * w,
                    h * w * 4 == w * h * 4,
            ;
            assert(self.rgba@.len() == self.rgba.len());
            assert((y * w + x) * 4 + 4 <= usize::MAX);
            assert(y * w <= y * w + x);
        }
        let at: usize = ((y as usize) * (self.width as usize) + (x as usize)) * 4;
        let r = [self.rgba[at], self.rgba[at + 1], self.rgba[at + 2], self.rgba[at + 3]];
        assert(r@ =~= self.pixels().subrange(at as int, at as int + 4));
        r
    }
}

/// The shown delay of a frame whose delay is `numer / denom` ms.
fn frame_delay(numer: u32, denom: u32) -> (r: TimeSpan)
    requires
        denom > 0,
    ensures
        r@ == shown_delay(numer as nat, denom as nat),
{
    let whole: u64 = (numer / denom) as u64;
    let rest: u64 = (numer % denom) as u64;
    proof {
        assert(rest * 1_000_000 / (denom as int) <= rest * 1_000_000) by (nonlinear_arith)
            requires
                denom >= 1,
                rest >= 0,
        ;
        assert(whole * 1_000_000 <= 4_294_967_295 * 1_000_000) by (nonlinear_arith)
            requires
                whole <= 4_294_967_295,
        ;
    }
    let part: u64 = rest * 1_000_000 / (denom as u64);
    let total: u64 = whole * 1_000_000 + part;
    if total < 1_000_000 {
        TimeSpan::from_millis(100)
    } else {
        TimeSpan::from_nanos(total)
    }
}

/// Animated ASCII art from a GIF: its frames, the frame on screen, and the
/// time spent on that frame so far.
pub struct AnimatedGif {
    frames: Vec<GifFrame>,
    current_frame: usize,
    elapsed: TimeSpan,
    pub name: String,
    /// Canvas size of the first frame.
    pub width: u32,
    pub height: u32,
    /// Kept for callers that ask how a GIF was converted; always false.
    pub used_chafa: bool,
}

impl AnimatedGif {
    /// There is a frame, the shown one is among them, and each frame is
    /// sound.
    pub closed spec fn wf(&self) -> bool {
        &&& self.frames.len() > 0
        &&& self.current_frame < self.frames.len()
        &&& forall|i: int| 0 <= i < self.frames.len() ==> (#[trigger] self.frames@[i]).wf()
    }

    /// The frames, in order.
    pub closed spec fn frame_list(&self) -> Seq<GifFrame> {
        self.frames@
    }

    /// Each frame's delay in nanoseconds.
    pub open spec fn delays(&self) -> Seq<nat> {
        self.frame_list().map_values(|f: GifFrame| f.delay_time())
    }

    /// The index of the frame on screen.
    pub closed spec fn frame_index(&self) -> int {
        self.current_frame as int
    }

    /// Nanoseconds spent on the frame on screen.
    pub closed spec fn leftover(&self) -> nat {
        self.elapsed@
    }

    /// The animation's name.
    pub closed spec fn title(&self) -> Seq<char> {
        self.name@
    }

    /// The canvas size of the first frame, as recorded.
    pub closed spec fn canvas(&self) -> (u32, u32) {
        (self.width, self.height)
    }

    /// Whether the animation is recorded as converted by an outside tool.
    pub closed spec fn by_chafa(&self) -> bool {
        self.used_chafa
    }

    /// What `from_bytes` makes of a decoded, nonempty frame list.
    pub open spec fn holds(&self, name: Seq<char>, frames: Seq<(u32, u32, Seq<u8>, u32, u32)>) -> bool {
        &&& self.wf()
        &&& self.frame_list().len() == frames.len()
        &&& forall|i: int|
            0 <= i < frames.len() ==> {
                let f = #[trigger] self.frame_list()[i];
                &&& f.spec_width() == frames[i].0
                &&& f.spec_height() == frames[i].1
                &&& f.pixels() == frames[i].2
                &&& f.delay_time() == shown_delay(frames[i].3 as nat, frames[i].4 as nat)
            }
        &&& self.frame_index() == 0
        &&& self.leftover() == 0
        &&& self.title() == name
        &&& self.canvas() == (frames[0].0, frames[0].1)
        &&& !self.by_chafa()
    }

    /// Decode a GIF file's bytes into an animation named `name`, starting
    /// on its first frame. A frame whose delay is under a millisecond is
    /// shown for 100 ms.
    pub fn from_bytes(name: String, bytes: &[u8]) -> (r: Result<Self, String>)
        ensures
            gif_decoded(bytes@) matches Err(m) ==> (r matches Err(e) && e@ == m),
            gif_decoded(bytes@) matches Ok(s) ==> (s.len() == 0 <==> r is Err),
            gif_decoded(bytes@) matches Ok(s) ==> (s.len() == 0 ==> (r matches Err(e) && e@
                == "No frames in GIF"@)),
            gif_decoded(bytes@) matches Ok(s) ==> (s.len() > 0 ==> (r matches Ok(g) && g.holds(
                name@,
                s,
            ))),
    {
        let mut raw = match decode_gif(bytes) {
            Err(e) => return Err(e),
            Ok(v) => v,
        };
        let ghost decoded = raw@.map_values(|f: RawFrame| f@);
        if raw.len() == 0 {
            return Err("No frames in GIF".to_owned());
        }
        let width = raw[0].width;
        let height = raw[0].height;
        let mut frames: Vec<GifFrame> = Vec::new();
        let ghost total = raw.len();
        while raw.len() > 0
            invariant
                frames.len() + raw.len() == total,
                total == decoded.len(),
                forall|i: int| 0 <= i < raw.len() ==> (#[trigger] raw@[i])@ == decoded[frames.len() + i],
                forall|i: int| 0 <= i < decoded.len() ==> raw_frame_sound(#[trigger] decoded[i]),
                forall|i: int|
                    0 <= i < frames.len() ==> {
                        let f = #[trigger] frames@[i];
                        &&& f.wf()
                        &&& f.spec_width() == decoded[i].0
                        &&& f.spec_height() == decoded[i].1
                        &&& f.pixels() == decoded[i].2
                        &&& f.delay_time() == shown_delay(decoded[i].3 as nat, decoded[i].4 as nat)
                    },
            decreases raw.len(),
        {
            let ghost k = frames.len() as int;
            let ghost before = raw@;
            let next = raw.remove(0);
            assert(next@ == decoded[k]);
            assert(raw_frame_sound(decoded[k]));
            let delay = frame_delay(next.delay_numer, next.delay_denom);
            let frame = GifFrame { width: next.width, height: next.height, rgba: next.rgba, delay };
            frames.push(frame);
            assert forall|i: int| 0 <= i < raw.len() implies (#[trigger] raw@[i])@ == decoded[frames.len() + i] by {
                assert(raw@[i] == before[i + 1]);
            }
        }
        Ok(AnimatedGif {
            frames,
            current_frame: 0,
            elapsed: TimeSpan::zero(),
            name,
            width,
            height,
            used_chafa: false,
        })
    }

    /// An animation named `name` of the given frames, starting on the
    /// first; `None` when there are none.
    pub fn from_frames(name: String, frames: Vec<GifFrame>) -> (r: Option<Self>)
        requires
            forall|i: int| 0 <= i < frames.len() ==> (#[trigger] frames@[i]).wf(),
        ensures
            r is Some <==> frames.len() > 0,
            r matches Some(g) ==> g.wf() && g.frame_list() == frames@ && g.frame_index() == 0
                && g.leftover() == 0 && g.title() == name@ && g.canvas() == (
                frames@[0].spec_width(),
                frames@[0].spec_height(),
            ) && !g.by_chafa(),
    {
        if frames.len() == 0 {
            return None;
        }
        let width = frames[0].width;
        let height = frames[0].height;
        Some(AnimatedGif {
            frames,
            current_frame: 0,
            elapsed: TimeSpan::zero(),
            name,
            width,
            height,
            used_chafa: false,
        })
    }

    /// Whether `update` can add `dt` to the time spent on the frame on
    /// screen without overflowing.
    pub fn can_advance(&self, dt: &TimeSpan) -> (r: bool)
        ensures
            r == (self.leftover() + dt@ < span_limit()),
    {
        self.elapsed.checked_add(dt).is_some()
    }

    /// Advance playback by `dt`: leftover time carries into the next
    /// frame, and a long update skips as many frames as it covers.
    pub fn update(&mut self, dt: TimeSpan)
        requires
            old(self).wf(),
            old(self).leftover() + dt@ < span_limit(),
        ensures
            final(self).wf(),
            final(self).frame_list() == old(self).frame_list(),
            (final(self).frame_index(), final(self).leftover()) == settle(
                old(self).delays(),
                old(self).frame_index(),
                old(self).leftover() + dt@,
            ),
            final(self).title() == old(self).title(),
            final(self).canvas() == old(self).canvas(),
            final(self).by_chafa() == old(self).by_chafa(),
    {
        let ghost delays = self.delays();
        let ghost target = settle(delays, self.current_frame as int, self.elapsed@ + dt@);
        let mut elapsed = match self.elapsed.checked_add(&dt) {
            Some(t) => t,
            None => TimeSpan::zero(),
        };
        let mut current = self.current_frame;
        let count = self.frames.len();
        loop
            invariant
                count == self.frames.len(),
                count > 0,
                current < count,
                self.wf(),
                delays == self.delays(),
                settle(delays, current as int, elapsed@) == target,
            ensures
                elapsed@ < delays[current as int],
            decreases elapsed@,
        {
            let delay = self.frames[current].delay;
            assert(delays[current as int] == delay@);
            if elapsed.shorter_than(&delay) {
                break;
            }
            elapsed = elapsed.minus(&delay);
            current = (current + 1) % count;
        }
        self.elapsed = elapsed;
        self.current_frame = current;
    }

    /// The number of frames.
    pub fn frame_count(&self) -> (r: usize)
        ensures
            r == self.frame_list().len(),
    {
        self.frames.len()
    }

    /// The index of the frame on screen.
    pub fn current_frame(&self) -> (r: usize)
        ensures
            r == self.frame_index(),
    {
        self.current_frame
    }

    /// Time spent on the frame on screen.
    pub fn elapsed(&self) -> (r: TimeSpan)
        ensures
            r@ == self.leftover(),
    {
        self.elapsed
    }

    /// The frame on screen.
    pub fn frame(&self) -> (r: &GifFrame)
        requires
            self.wf(),
        ensures
            *r == self.frame_list()[self.frame_index()],
            r.wf(),
    {
        &self.frames[self.current_frame]
    }
}

} // verus!
