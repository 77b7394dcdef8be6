//! Turning an emote's encoded bytes into frames of RGBA pixels, each with
//! the time it is shown.

use vstd::prelude::*;
use image::AnimationDecoder;

verus! {

/// What `image::guess_format` makes of a byte string: `None` where it
/// knows no format, `Some(true)` for GIF, `Some(false)` for another format.
pub uninterp spec fn sniffed_format(b: Seq<u8>) -> Option<bool>;

/// What `image::load_from_memory` decodes from a byte string, as width,
/// height and RGBA pixels.
pub uninterp spec fn still_image(b: Seq<u8>) -> Option<(u32, u32, Seq<u8>)>;

/// What the GIF decoder of `image` yields for a byte string: `None` where
/// the header cannot be read, else the frames in order up to the end or to
/// the first frame that fails, each as width, height, RGBA pixels and the
/// delay as numerator and denominator in milliseconds.
pub uninterp spec fn gif_frames(b: Seq<u8>) -> Option<Seq<(u32, u32, Seq<u8>, u32, u32)>>;

/// Whether the bytes start with one of the two GIF signatures.
pub open spec fn has_gif_signature(b: Seq<u8>) -> bool {
    b.len() >= 6 && b[0] == 0x47u8 && b[1] == 0x49u8 && b[2] == 0x46u8 && b[3] == 0x38u8 && (
    b[4] == 0x39u8 || b[4] == 0x37u8) && b[5] == 0x61u8
}

pub type RawFrame = (u32, u32, Vec<u8>, u32, u32);

pub open spec fn raw_view(t: RawFrame) -> (u32, u32, Seq<u8>, u32, u32) {
    (t.0, t.1, t.2@, t.3, t.4)
}

/// Whether a decoded frame has a non-zero delay denominator and four bytes
/// for each of its pixels.
pub open spec fn raw_ok(t: RawFrame) -> bool {
    &&& t.4 > 0
    &&& t.2@.len() == t.0 * t.1 * 4
}

/// Relies on `image::guess_format`, which reads the leading bytes only and
/// reports GIF exactly for the signatures `GIF89a` and `GIF87a`.
#[verifier::external_body]
fn sniff(b: &[u8]) -> (r: Option<bool>)
    ensures
        r == sniffed_format(b@),
        r == Some(true) <==> has_gif_signature(b@),
{
    match image::guess_format(b) {
        Ok(image::ImageFormat::Gif) => Some(true),
        Ok(_) => Some(false),
        Err(_) => None,
    }
}

/// Relies on `image::load_from_memory`, converted to RGBA with its size;
/// the decoder fills a buffer of exactly four bytes per pixel.
#[verifier::external_body]
pub(crate) fn load_still(b: &[u8]) -> (r: Option<(u32, u32, Vec<u8>)>)
    ensures
        match r {
            None => still_image(b@) is None,
            Some((w, h, p)) => still_image(b@) == Some((w, h, p@)) && p@.len() == w * h * 4,
        },
{
    let img = image::load_from_memory(b).ok()?;
    let (w, h) = (img.width(), img.height());
    Some((w, h, img.into_rgba8().into_raw()))
}

/// Relies on `image::codecs::gif::GifDecoder` and its frame iterator, read
/// up to its end or its first error, each frame taken apart into its buffer
/// (four bytes per pixel) and its delay (whose denominator is never zero).
#[verifier::external_body]
fn load_gif(b: &[u8]) -> (r: Option<Vec<RawFrame>>)
    ensures
        match r {
            None => gif_frames(b@) is None,
            Some(v) => gif_frames(b@) == Some(v@.map_values(|t: RawFrame| raw_view(t))),
        },
        r matches Some(v) ==> forall|i: int| 0 <= i < v@.len() ==> raw_ok(#[trigger] v@[i]),
{
    let decoder = image::codecs::gif::GifDecoder::new(std::io::Cursor::new(b)).ok()?;
    let frames = decoder.into_frames().map_while(|f| f.ok()).map(|f| {
        let (numer, denom) = f.delay().numer_denom_ms();
        let buffer = f.into_buffer();
        (buffer.width(), buffer.height(), buffer.into_raw(), numer, denom)
    });
    Some(frames.collect())
}

/// One picture of an emote: RGBA pixels, row after row, four bytes each,
/// shown for `delay_numer_ms / delay_denom_ms` milliseconds.
#[derive(Debug, Clone)]
pub struct Frame {
    pub pixels: Vec<u8>,
    pub width: u32,
    pub height: u32,
    pub delay_numer_ms: u32,
    pub delay_denom_ms: u32,
}

impl Frame {
    pub open spec fn view(&self) -> (u32, u32, Seq<u8>, u32, u32) {
        (self.width, self.height, self.pixels@, self.delay_numer_ms, self.delay_denom_ms)
    }

    /// A delay with a non-zero denominator, and four bytes per pixel.
    pub open spec fn wf(&self) -> bool {
        &&& self.delay_denom_ms > 0
        &&& self.pixels@.len() == self.width * self.height * 4
    }

    /// Bytes in one row of pixels.
    pub fn linesize(&self) -> (r: u64)
        ensures
            r == self.width * 4,
    {
        self.width as u64 * 4
    }
}

/// Why bytes gave no frames.
#[derive(Debug, Clone, Copy, PartialEq, Eq, Structural)]
pub enum DecodeError {
    /// No known image format.
    UnknownFormat,
    /// A known format, but no frame could be decoded.
    NoFrames,
}

/// The frames of an emote: the frames of an animation up to its end or to
/// its first broken frame, the single picture otherwise (its delay unused);
/// `None` where that is none.
pub open spec fn decoded(b: Seq<u8>) -> Option<Seq<(u32, u32, Seq<u8>, u32, u32)>> {
    match sniffed_format(b) {
        None => None,
        Some(true) => match gif_frames(b) {
            None => None,
            Some(fs) => if fs.len() == 0 {
                None
            } else {
                Some(fs)
            },
        },
        Some(false) => match still_image(b) {
            None => None,
            Some((w, h, p)) => Some(seq![(w, h, p, 0u32, 1u32)]),
        },
    }
}

/// A still image decodes to exactly one frame; an animation gives one frame
/// for each frame of the source that decodes before the first broken one,
/// in order, each with the delay the source declares, so that where every
/// frame decodes the delays add up to the source's whole duration.
pub proof fn lemma_decode_round_trip(b: Seq<u8>)
    ensures
        sniffed_format(b) == Some(false) && still_image(b) is Some ==> (decoded(b) is Some
            && decoded(b)->0.len() == 1),
        sniffed_format(b) == Some(true) && gif_frames(b) is Some && gif_frames(b)->0.len() > 0
            ==> decoded(b) == gif_frames(b),
{
}

/// Bytes that decode at all give at least one frame.
pub proof fn lemma_decoded_nonempty(b: Seq<u8>)
    ensures
        decoded(b) matches Some(fs) ==> fs.len() > 0,
{
}

/// The single frame of a still picture; its delay is unused.
pub fn still_frames(width: u32, height: u32, pixels: Vec<u8>) -> (r: Vec<Frame>)
    ensures
        r@.map_values(|f: Frame| f.view()) == seq![(width, height, pixels@, 0u32, 1u32)],
        pixels@.len() == width * height * 4 ==> r@[0].wf(),
        r@.len() == 1,
{
    let ghost pv = pixels@;
    let mut v: Vec<Frame> = Vec::new();
    v.push(Frame { pixels, width, height, delay_numer_ms: 0, delay_denom_ms: 1 });
    assert(v@.map_values(|f: Frame| f.view()) =~= seq![(width, height, pv, 0u32, 1u32)]);
    v
}

/// The frames of an animation, in order, from what the decoder gave; an
/// animation without frames cannot be shown.
pub fn frames_from_raw(raw: Vec<RawFrame>) -> (r: Result<Vec<Frame>, DecodeError>)
    ensures
        raw@.len() == 0 <==> r == Err::<Vec<Frame>, DecodeError>(DecodeError::NoFrames),
        r matches Ok(v) ==> v@.map_values(|f: Frame| f.view()) == raw@.map_values(
            |t: RawFrame| raw_view(t),
        ),
        r matches Ok(v) ==> forall|i: int|
            0 <= i < v@.len() && raw_ok(raw@[i]) ==> (#[trigger] v@[i]).wf(),
        r is Ok || r == Err::<Vec<Frame>, DecodeError>(DecodeError::NoFrames),
{
    let ghost orig = raw@;
    let ghost fs = orig.map_values(|t: RawFrame| raw_view(t));
    let mut out: Vec<Frame> = Vec::new();
    let mut raw = raw;
    let n = raw.len();
    let mut i: usize = 0;
    while raw.len() > 0
        invariant
            n == orig.len(),
            i <= n,
            raw@ == orig.subrange(i as int, n as int),
            fs == orig.map_values(|t: RawFrame| raw_view(t)),
            out@.len() == i,
            out@.map_values(|f: Frame| f.view()) == fs.subrange(0, i as int),
            forall|j: int| 0 <= j < i && raw_ok(orig[j]) ==> (#[trigger] out@[j]).wf(),
        decreases raw@.len(),
    {
        let item = raw.remove(0);
        assert(item == orig[i as int]);
        assert(fs[i as int] == raw_view(item));
        let (width, height, pixels, numer, denom) = item;
        let ghost prev = out@;
        let frame = Frame { pixels, width, height, delay_numer_ms: numer, delay_denom_ms: denom };
        assert(frame.view() == fs[i as int]);
        assert(raw_ok(item) ==> frame.wf());
        out.push(frame);
        assert(out@ == prev.push(frame));
        assert(out@.map_values(|f: Frame| f.view()) =~= prev.map_values(|f: Frame| f.view()).push(fs[i as int]));
        assert(fs.subrange(0, i + 1) =~= fs.subrange(0, i as int).push(fs[i as int]));
        i = i + 1;
        assert(raw@ =~= orig.subrange(i as int, n as int));
    }
    assert(fs.subrange(0, n as int) =~= fs);
    if out.len() == 0 {
        Err(DecodeError::NoFrames)
    } else {
        Ok(out)
    }
}

/// Decodes an emote into its frames.
pub fn decode_frames(bytes: &[u8]) -> (r: Result<Vec<Frame>, DecodeError>)
    ensures
        match decoded(bytes@) {
            None => r is Err,
            Some(fs) => r matches Ok(v) && v@.map_values(|f: Frame| f.view()) == fs,
        },
        r == Err::<Vec<Frame>, DecodeError>(DecodeError::UnknownFormat) <==> sniffed_format(
            bytes@,
        ) is None,
        r matches Ok(v) ==> forall|i: int| 0 <= i < v@.len() ==> (#[trigger] v@[i]).wf(),
{
    match sniff(bytes) {
        None => Err(DecodeError::UnknownFormat),
        Some(false) => match load_still(bytes) {
            None => Err(DecodeError::NoFrames),
            Some((width, height, pixels)) => Ok(still_frames(width, height, pixels)),
        },
        Some(true) => match load_gif(bytes) {
            None => Err(DecodeError::NoFrames),
            Some(raw) => {
                let ghost rv = raw@;
                let r = frames_from_raw(raw);
                proof {
                    if r is Ok {
                        let vs = r->Ok_0@;
                        assert forall|i: int| 0 <= i < vs.len() implies (#[trigger] vs[i]).wf() by {
                            assert(vs.map_values(|f: Frame| f.view())[i] == rv.map_values(|t: RawFrame| raw_view(t))[i]);
                            assert(raw_ok(rv[i]));
                        }
                    }
                }
                r
            },
        },
    }
}

} // verus!
