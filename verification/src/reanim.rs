//! Definition and decoding logic for `.reanim.compiled` files.
//!
//! The binary layout (all numbers little-endian):
//! - an animation: magic `0xB393B4C0`, 4 bytes of padding, the track count `n` (`u32`),
//!   4 bytes of padding, the frame rate (`f32`), magic `0x0C`, then `n` frame counts (each
//!   8 bytes of padding and a `u32`), then `n` tracks, the `k`-th with the `k`-th frame count;
//! - a track with `m` frames: its name (a length-prefixed string), magic `0x2C`, `m`
//!   transforms, then `m` element groups; frame `i` pairs transform `i` with elements `i`;
//! - a transform: 8 optional `f32`s (`x`, `y`, `kx`, `ky`, `sx`, `sy`, `f`, `a`), then 12 bytes
//!   of padding; a value of `-10000.0` or below means "absent";
//! - an element group: 3 optional length-prefixed strings (image, font, text); an empty string
//!   means "absent".

use vstd::prelude::*;
use std::io::Read;
use crate::bits::F32Bits;
use crate::stream::{
    Decode, DecodeError, DecodeErrorView, DecodeExt, NamedArgs, NoArgs, PlainData, Stream,
    consumed_from, lemma_consumed_from_trans, le_value_4, spec_check_magic, spec_drop_padding,
    spec_read_data, spec_read_n, spec_read_string, views, lemma_read_n_len,
};
use crate::decode::{ArgVec, LenString, optional_f32, optional_string, spec_optional_f32, spec_optional_string, spec_read_args};

verus! {

/// Magic number at the start of an animation.
pub const ANIMATION_MAGIC: u32 = 0xB393_B4C0;
/// Magic number before the frame counts.
pub const FRAME_COUNTS_MAGIC: u32 = 0x0C;
/// Magic number after a track name.
pub const TRACK_MAGIC: u32 = 0x2C;
/// Size in bytes of an encoded transform: 8 `f32`s, then 12 bytes of padding.
pub const TRANSFORM_SIZE: usize = 44;

/// A transformation. Each component is optional.
#[derive(Debug, Clone, Copy, PartialEq, Eq, Structural)]
#[allow(missing_docs)]
pub struct Transform {
    pub x: Option<F32Bits>,
    pub y: Option<F32Bits>,
    pub kx: Option<F32Bits>,
    pub ky: Option<F32Bits>,
    pub sx: Option<F32Bits>,
    pub sy: Option<F32Bits>,
    pub f: Option<F32Bits>,
    pub a: Option<F32Bits>,
}

impl View for Transform {
    type V = Transform;

    open spec fn view(&self) -> Transform {
        *self
    }
}

/// The optional `f32` stored at byte offset `4 * k` of `input`.
pub open spec fn optional_f32_at(input: Seq<u8>, k: int) -> Option<F32Bits> {
    spec_optional_f32(F32Bits(le_value_4(input.subrange(4 * k, 4 * k + 4)) as u32))
}

/// Decoding a transform: 8 optional `f32`s then 12 bytes of padding.
pub open spec fn spec_decode_transform(input: Seq<u8>) -> Result<(Transform, Seq<u8>), DecodeErrorView> {
    if input.len() < 32 {
        Err(DecodeErrorView::IncompleteData("f32"@))
    } else if input.len() < 44 {
        Err(DecodeErrorView::IncompleteData("padding"@))
    } else {
        Ok((
            Transform {
                x: optional_f32_at(input, 0),
                y: optional_f32_at(input, 1),
                kx: optional_f32_at(input, 2),
                ky: optional_f32_at(input, 3),
                sx: optional_f32_at(input, 4),
                sy: optional_f32_at(input, 5),
                f: optional_f32_at(input, 6),
                a: optional_f32_at(input, 7),
            },
            input.skip(44),
        ))
    }
}

/// The transform in 44 or more bytes: eight little-endian `f32`s, in the order `x`, `y`, `kx`, `ky`,
/// `sx`, `sy`, `f`, `a` (each absent at `-10000.0` or below), then 12 bytes of padding.
pub proof fn lemma_transform_fields(input: Seq<u8>)
    requires
        input.len() >= 44,
    ensures
        spec_decode_transform(input) matches Ok((t, rest)) && rest == input.skip(44)
            && t.x == spec_optional_f32(F32Bits(le_value_4(input.subrange(0, 4)) as u32))
            && t.y == spec_optional_f32(F32Bits(le_value_4(input.subrange(4, 8)) as u32))
            && t.kx == spec_optional_f32(F32Bits(le_value_4(input.subrange(8, 12)) as u32))
            && t.ky == spec_optional_f32(F32Bits(le_value_4(input.subrange(12, 16)) as u32))
            && t.sx == spec_optional_f32(F32Bits(le_value_4(input.subrange(16, 20)) as u32))
            && t.sy == spec_optional_f32(F32Bits(le_value_4(input.subrange(20, 24)) as u32))
            && t.f == spec_optional_f32(F32Bits(le_value_4(input.subrange(24, 28)) as u32))
            && t.a == spec_optional_f32(F32Bits(le_value_4(input.subrange(28, 32)) as u32)),
{
}

/// Fewer than 44 bytes hold no transform: the eight numbers or the padding are incomplete.
pub proof fn lemma_transform_too_short(input: Seq<u8>)
    requires
        input.len() < 44,
    ensures
        spec_decode_transform(input) is Err,
{
}

/// Read the `k`-th optional `f32` of a transform, knowing that enough bytes remain.
fn read_optional_f32(s: &mut Stream, Ghost(input): Ghost<Seq<u8>>, Ghost(k): Ghost<int>) -> (r: Option<F32Bits>)
    requires
        0 <= k < 8,
        input.len() >= 44,
        old(s)@ == input.skip(4 * k),
    ensures
        r == optional_f32_at(input, k),
        final(s)@ == input.skip(4 * k + 4),
{
    let ghost before = s@;
    let r = s.read_data::<F32Bits>();
    assert(before.take(4) =~= input.subrange(4 * k, 4 * k + 4));
    assert(before.skip(4) =~= input.skip(4 * k + 4));
    match r {
        Ok(v) => optional_f32(v),
        Err(_) => {
            assert(false);
            None
        },
    }
}

impl Decode<()> for Transform {
    open spec fn spec_decode_with(input: Seq<u8>, args: ()) -> Result<(Transform, Seq<u8>), DecodeErrorView> {
        spec_decode_transform(input)
    }

    fn decode_with(s: &mut Stream, args: ()) -> (r: Result<Transform, DecodeError>) {
        let ghost input = s@;
        let n: usize = s.remaining_len();
        if n < 32 {
            assert(s@ =~= s@.skip(0));
            return Err(DecodeError::IncompleteData("f32"));
        }
        if n < TRANSFORM_SIZE {
            assert(s@ =~= s@.skip(0));
            return Err(DecodeError::IncompleteData("padding"));
        }
        assert(input =~= input.skip(0));
        let x = read_optional_f32(s, Ghost(input), Ghost(0));
        let y = read_optional_f32(s, Ghost(input), Ghost(1));
        let kx = read_optional_f32(s, Ghost(input), Ghost(2));
        let ky = read_optional_f32(s, Ghost(input), Ghost(3));
        let sx = read_optional_f32(s, Ghost(input), Ghost(4));
        let sy = read_optional_f32(s, Ghost(input), Ghost(5));
        let f = read_optional_f32(s, Ghost(input), Ghost(6));
        let a = read_optional_f32(s, Ghost(input), Ghost(7));
        let p = s.drop_padding("transform", 12);
        assert(input.skip(32).skip(12) =~= input.skip(44));
        assert(input.skip(44) =~= input.skip(input.len() - input.skip(44).len()));
        match p {
            Ok(()) => Ok(Transform { x, y, kx, ky, sx, sy, f, a }),
            Err(e) => {
                assert(false);
                Err(e)
            },
        }
    }
}

/// Model of [`Elements`].
pub struct ElementsView {
    /// Image name.
    pub image: Option<Seq<char>>,
    /// Font name.
    pub font: Option<Seq<char>>,
    /// Text content.
    pub text: Option<Seq<char>>,
}

/// Model of an optional string.
pub open spec fn opt_view(s: Option<String>) -> Option<Seq<char>> {
    match s {
        Some(x) => Some(x@),
        None => None,
    }
}

/// An element in a [`Frame`].
#[derive(Debug)]
#[allow(missing_docs)]
pub struct Elements {
    pub image: Option<String>,
    pub font: Option<String>,
    pub text: Option<String>,
}

impl View for Elements {
    type V = ElementsView;

    open spec fn view(&self) -> ElementsView {
        ElementsView { image: opt_view(self.image), font: opt_view(self.font), text: opt_view(self.text) }
    }
}

/// Reading an optional string: a length-prefixed string, absent when empty.
pub open spec fn spec_read_optional_string(input: Seq<u8>) -> Result<(Option<Seq<char>>, Seq<u8>), DecodeErrorView> {
    match spec_read_string(input) {
        Err(e) => Err(e),
        Ok((s, rest)) => Ok((spec_optional_string(s), rest)),
    }
}

/// Decoding an element group: optional image, font, and text, in this order.
pub open spec fn spec_decode_elements(input: Seq<u8>) -> Result<(ElementsView, Seq<u8>), DecodeErrorView> {
    match spec_read_optional_string(input) {
        Err(e) => Err(e),
        Ok((image, r1)) => match spec_read_optional_string(r1) {
            Err(e) => Err(e),
            Ok((font, r2)) => match spec_read_optional_string(r2) {
                Err(e) => Err(e),
                Ok((text, r3)) => Ok((ElementsView { image, font, text }, r3)),
            },
        },
    }
}

fn read_optional_string(s: &mut Stream) -> (r: Result<Option<String>, DecodeError>)
    ensures
        consumed_from(old(s)@, final(s)@),
        match spec_read_optional_string(old(s)@) {
            Ok((v, rest)) => r matches Ok(x) && opt_view(x) == v && final(s)@ == rest,
            Err(e) => r matches Err(x) && x@ == e,
        },
{
    let content = s.read_string()?;
    Ok(optional_string(LenString { content }))
}

impl Decode<()> for Elements {
    open spec fn spec_decode_with(input: Seq<u8>, args: ()) -> Result<(ElementsView, Seq<u8>), DecodeErrorView> {
        spec_decode_elements(input)
    }

    fn decode_with(s: &mut Stream, args: ()) -> (r: Result<Elements, DecodeError>) {
        let ghost s0 = s@;
        let image = read_optional_string(s)?;
        let ghost s1 = s@;
        let font = match read_optional_string(s) {
            Ok(v) => v,
            Err(e) => {
                proof { lemma_consumed_from_trans(s0, s1, s@); }
                return Err(e);
            },
        };
        let ghost s2 = s@;
        proof { lemma_consumed_from_trans(s0, s1, s2); }
        let text = match read_optional_string(s) {
            Ok(v) => v,
            Err(e) => {
                proof { lemma_consumed_from_trans(s0, s2, s@); }
                return Err(e);
            },
        };
        proof { lemma_consumed_from_trans(s0, s2, s@); }
        Ok(Elements { image, font, text })
    }
}

impl NamedArgs for Elements {
    type ArgsBuilder = NoArgs;

    fn args_builder() -> NoArgs {
        NoArgs
    }
}

impl NamedArgs for Transform {
    type ArgsBuilder = NoArgs;

    fn args_builder() -> NoArgs {
        NoArgs
    }
}

/// Model of a [`Frame`].
pub struct FrameView {
    /// Transformation.
    pub transform: Transform,
    /// Elements.
    pub elements: ElementsView,
}

/// A frame in a [`Track`], consist of (optional) image, text, and transformation.
#[derive(Debug)]
pub struct Frame {
    /// Transformation: translation, skew, rotation, etc.
    pub transform: Transform,
    /// Elements: image and text (with font).
    pub elements: Elements,
}

impl View for Frame {
    type V = FrameView;

    open spec fn view(&self) -> FrameView {
        FrameView { transform: self.transform, elements: self.elements@ }
    }
}

/// Pairing transforms and elements frame by frame.
pub open spec fn spec_zip_frames(transforms: Seq<Transform>, elements: Seq<ElementsView>) -> Seq<FrameView> {
    Seq::new(transforms.len(), |i: int| FrameView { transform: transforms[i], elements: elements[i] })
}

/// Pair transforms and elements frame by frame.
pub fn zip_frames(transforms: Vec<Transform>, elements: Vec<Elements>) -> (frames: Vec<Frame>)
    requires
        transforms@.len() == elements@.len(),
    ensures
        views(frames@) == spec_zip_frames(transforms@, views(elements@)),
{
    let n: usize = transforms.len();
    let ghost es0 = elements@;
    let mut rest = elements;
    let mut frames: Vec<Frame> = Vec::new();
    let mut i: usize = 0;
    while i < n
        invariant
            n == transforms@.len(),
            n == es0.len(),
            i <= n,
            rest@ == es0.skip(i as int),
            frames@.len() == i,
            forall|j: int| 0 <= j < i ==> #[trigger] frames@[j]@ == (FrameView {
                transform: transforms@[j],
                elements: es0[j]@,
            }),
        decreases n - i,
    {
        assert(rest@.len() > 0);
        let e = rest.remove(0);
        assert(e == es0[i as int]);
        assert(rest@ =~= es0.skip(i + 1));
        frames.push(Frame { transform: transforms[i], elements: e });
        i = i + 1;
    }
    assert(views(frames@) =~= spec_zip_frames(transforms@, views(es0)));
    frames
}

/// Model of a [`Track`].
pub struct TrackView {
    /// Name of this track.
    pub name: Seq<char>,
    /// Frames.
    pub frames: Seq<FrameView>,
}

/// A single track in an [`Animation`].
#[derive(Debug)]
pub struct Track {
    /// Name of this track for internal use.
    pub name: String,
    /// Frames, possibly grouped into several parts.
    pub frames: Vec<Frame>,
}

impl View for Track {
    type V = TrackView;

    open spec fn view(&self) -> TrackView {
        TrackView { name: self.name@, frames: views(self.frames@) }
    }
}

/// Decoding a track of `frame_count` frames.
pub open spec fn spec_decode_track(input: Seq<u8>, frame_count: u32) -> Result<(TrackView, Seq<u8>), DecodeErrorView> {
    match spec_read_string(input) {
        Err(e) => Err(e),
        Ok((name, r1)) => match spec_check_magic(r1, TRACK_MAGIC) {
            Err(e) => Err(e),
            Ok((_, r2)) => match spec_read_n::<Transform>(r2, frame_count as nat) {
                Err(e) => Err(e),
                Ok((transforms, r3)) => match spec_read_n::<Elements>(r3, frame_count as nat) {
                    Err(e) => Err(e),
                    Ok((elements, r4)) => Ok((
                        TrackView { name, frames: spec_zip_frames(transforms, elements) },
                        r4,
                    )),
                },
            },
        },
    }
}

impl Decode<u32> for Track {
    open spec fn spec_decode_with(input: Seq<u8>, frame_count: u32) -> Result<(TrackView, Seq<u8>), DecodeErrorView> {
        spec_decode_track(input, frame_count)
    }

    fn decode_with(s: &mut Stream, frame_count: u32) -> (r: Result<Track, DecodeError>) {
        let ghost s0 = s@;
        let name = s.read_string()?;
        let ghost s1 = s@;
        if let Err(e) = s.check_magic(TRACK_MAGIC) {
            proof { lemma_consumed_from_trans(s0, s1, s@); }
            return Err(e);
        }
        let ghost s2 = s@;
        proof { lemma_consumed_from_trans(s0, s1, s2); }
        let transforms = match s.read_n::<Transform>(frame_count as usize) {
            Ok(v) => v,
            Err(e) => {
                proof { lemma_consumed_from_trans(s0, s2, s@); }
                return Err(e);
            },
        };
        let ghost s3 = s@;
        proof { lemma_consumed_from_trans(s0, s2, s3); }
        let elements = match s.read_n::<Elements>(frame_count as usize) {
            Ok(v) => v,
            Err(e) => {
                proof { lemma_consumed_from_trans(s0, s3, s@); }
                return Err(e);
            },
        };
        proof {
            lemma_consumed_from_trans(s0, s3, s@);
            lemma_read_n_len::<Transform>(s2, frame_count as nat);
            lemma_read_n_len::<Elements>(s3, frame_count as nat);
        }
        assert(transforms@ =~= views(transforms@));
        let frames = zip_frames(transforms, elements);
        Ok(Track { name, frames })
    }
}

/// Frame count of a track: 8 bytes of padding, then a `u32`.
#[derive(Debug, Clone, Copy)]
pub struct FrameCount(pub u32);

impl View for FrameCount {
    type V = u32;

    open spec fn view(&self) -> u32 {
        self.0
    }
}

/// Decoding a frame count: 8 bytes of padding, then a `u32`.
pub open spec fn spec_decode_frame_count(input: Seq<u8>) -> Result<(u32, Seq<u8>), DecodeErrorView> {
    match spec_drop_padding(input, 8) {
        Err(e) => Err(e),
        Ok((_, rest)) => spec_read_data::<u32>(rest),
    }
}

impl Decode<()> for FrameCount {
    open spec fn spec_decode_with(input: Seq<u8>, args: ()) -> Result<(u32, Seq<u8>), DecodeErrorView> {
        spec_decode_frame_count(input)
    }

    fn decode_with(s: &mut Stream, args: ()) -> (r: Result<FrameCount, DecodeError>) {
        let ghost s0 = s@;
        s.drop_padding("frame count", 8)?;
        let ghost s1 = s@;
        let n = s.read_data::<u32>();
        proof { lemma_consumed_from_trans(s0, s1, s@); }
        match n {
            Ok(n) => Ok(FrameCount(n)),
            Err(e) => Err(e),
        }
    }
}

/// Model of an [`Animation`].
pub struct AnimationView {
    /// Frames per second.
    pub fps: F32Bits,
    /// Tracks.
    pub tracks: Seq<TrackView>,
}

/// Animation in a `.reanim` file.
#[derive(Debug)]
pub struct Animation {
    /// Frames per second, typically 12.
    pub fps: F32Bits,
    /// All tracks in this animation.
    pub tracks: Vec<Track>,
}

impl View for Animation {
    type V = AnimationView;

    open spec fn view(&self) -> AnimationView {
        AnimationView { fps: self.fps, tracks: views(self.tracks@) }
    }
}

/// Decoding the header of an animation: magic, padding, track count, padding, frame rate,
/// and the magic before the frame counts.
pub open spec fn spec_decode_header(input: Seq<u8>) -> Result<((u32, F32Bits), Seq<u8>), DecodeErrorView> {
    match spec_check_magic(input, ANIMATION_MAGIC) {
        Err(e) => Err(e),
        Ok((_, r1)) => match spec_drop_padding(r1, 4) {
            Err(e) => Err(e),
            Ok((_, r2)) => match spec_read_data::<u32>(r2) {
                Err(e) => Err(e),
                Ok((track_count, r3)) => match spec_drop_padding(r3, 4) {
                    Err(e) => Err(e),
                    Ok((_, r4)) => match spec_read_data::<F32Bits>(r4) {
                        Err(e) => Err(e),
                        Ok((fps, r5)) => match spec_check_magic(r5, FRAME_COUNTS_MAGIC) {
                            Err(e) => Err(e),
                            Ok((_, r6)) => Ok(((track_count, fps), r6)),
                        },
                    },
                },
            },
        },
    }
}

/// Decoding an animation.
pub open spec fn spec_decode_animation(input: Seq<u8>) -> Result<(AnimationView, Seq<u8>), DecodeErrorView> {
    match spec_decode_header(input) {
        Err(e) => Err(e),
        Ok(((track_count, fps), r1)) => match spec_read_n::<FrameCount>(r1, track_count as nat) {
            Err(e) => Err(e),
            Ok((frame_counts, r2)) => match spec_read_args::<Track, u32>(r2, frame_counts) {
                Err(e) => Err(e),
                Ok((tracks, r3)) => Ok((AnimationView { fps, tracks }, r3)),
            },
        },
    }
}

fn decode_header(s: &mut Stream) -> (r: Result<(u32, F32Bits), DecodeError>)
    ensures
        decode_outcome_pair(r, old(s)@, final(s)@, spec_decode_header(old(s)@)),
{
    let ghost s0 = s@;
    s.check_magic(ANIMATION_MAGIC)?;
    let ghost s1 = s@;
    let r = decode_header_rest(s);
    proof { lemma_consumed_from_trans(s0, s1, s@); }
    r
}

fn decode_header_rest(s: &mut Stream) -> (r: Result<(u32, F32Bits), DecodeError>)
    ensures
        consumed_from(old(s)@, final(s)@),
        match spec_drop_padding(old(s)@, 4) {
            Err(e) => r matches Err(x) && x@ == e,
            Ok((_, r2)) => match spec_read_data::<u32>(r2) {
                Err(e) => r matches Err(x) && x@ == e,
                Ok((track_count, r3)) => match spec_drop_padding(r3, 4) {
                    Err(e) => r matches Err(x) && x@ == e,
                    Ok((_, r4)) => match spec_read_data::<F32Bits>(r4) {
                        Err(e) => r matches Err(x) && x@ == e,
                        Ok((fps, r5)) => match spec_check_magic(r5, FRAME_COUNTS_MAGIC) {
                            Err(e) => r matches Err(x) && x@ == e,
                            Ok((_, r6)) => r == Ok::<(u32, F32Bits), DecodeError>((track_count, fps)) && final(s)@ == r6,
                        },
                    },
                },
            },
        },
{
    let ghost s0 = s@;
    s.drop_padding("header", 4)?;
    let ghost s1 = s@;
    let track_count = match s.read_data::<u32>() {
        Ok(v) => v,
        Err(e) => {
            proof { lemma_consumed_from_trans(s0, s1, s@); }
            return Err(e);
        },
    };
    let ghost s2 = s@;
    proof { lemma_consumed_from_trans(s0, s1, s2); }
    if let Err(e) = s.drop_padding("header", 4) {
        proof { lemma_consumed_from_trans(s0, s2, s@); }
        return Err(e);
    }
    let ghost s3 = s@;
    proof { lemma_consumed_from_trans(s0, s2, s3); }
    let fps = match s.read_data::<F32Bits>() {
        Ok(v) => v,
        Err(e) => {
            proof { lemma_consumed_from_trans(s0, s3, s@); }
            return Err(e);
        },
    };
    let ghost s4 = s@;
    proof { lemma_consumed_from_trans(s0, s3, s4); }
    let m = s.check_magic(FRAME_COUNTS_MAGIC);
    proof { lemma_consumed_from_trans(s0, s4, s@); }
    match m {
        Ok(()) => Ok((track_count, fps)),
        Err(e) => Err(e),
    }
}

/// Outcome of a decoding step yielding a plain pair.
pub open spec fn decode_outcome_pair(
    r: Result<(u32, F32Bits), DecodeError>,
    before: Seq<u8>,
    after: Seq<u8>,
    spec: Result<((u32, F32Bits), Seq<u8>), DecodeErrorView>,
) -> bool {
    &&& consumed_from(before, after)
    &&& match spec {
        Ok((v, rest)) => r == Ok::<(u32, F32Bits), DecodeError>(v) && after == rest,
        Err(e) => r matches Err(x) && x@ == e,
    }
}

impl Decode<()> for Animation {
    open spec fn spec_decode_with(input: Seq<u8>, args: ()) -> Result<(AnimationView, Seq<u8>), DecodeErrorView> {
        spec_decode_animation(input)
    }

    fn decode_with(s: &mut Stream, args: ()) -> (r: Result<Animation, DecodeError>) {
        let ghost s0 = s@;
        let (track_count, fps) = decode_header(s)?;
        let ghost s1 = s@;
        let frame_counts = match s.read_n::<FrameCount>(track_count as usize) {
            Ok(v) => v,
            Err(e) => {
                proof { lemma_consumed_from_trans(s0, s1, s@); }
                return Err(e);
            },
        };
        let ghost s2 = s@;
        proof { lemma_consumed_from_trans(s0, s1, s2); }
        let args = frame_count_values(&frame_counts);
        let tracks = match ArgVec::<Track, u32>::decode_with(s, args) {
            Ok(v) => v,
            Err(e) => {
                proof { lemma_consumed_from_trans(s0, s2, s@); }
                return Err(e);
            },
        };
        proof { lemma_consumed_from_trans(s0, s2, s@); }
        Ok(Animation { fps, tracks: tracks.into_boxed_slice() })
    }
}

fn frame_count_values(counts: &Vec<FrameCount>) -> (v: Vec<u32>)
    ensures
        v@ == views(counts@),
{
    let mut v: Vec<u32> = Vec::new();
    let mut i: usize = 0;
    while i < counts.len()
        invariant
            i <= counts@.len(),
            v@ =~= views(counts@).take(i as int),
        decreases counts@.len() - i,
    {
        v.push(counts[i].0);
        i = i + 1;
    }
    assert(views(counts@).take(counts@.len() as int) =~= views(counts@));
    v
}

/// Header of a compressed file.
pub open spec fn has_compressed_header(data: Seq<u8>) -> bool {
    data.len() >= 4 && data[0] == 0xD4 && data[1] == 0xFE && data[2] == 0xAD && data[3] == 0xDE
}

/// The bytes that a zlib decoder (`flate2::read::ZlibDecoder`) produces from the given
/// compressed stream, up to its end or to the first error.
pub uninterp spec fn zlib_inflated(compressed: Seq<u8>) -> Seq<u8>;

/// `flate2::read::ZlibDecoder` read to the end: the decompressed bytes (those produced before
/// an error, if the compressed stream is corrupt). The read error itself is not kept: decoding
/// then runs out of bytes where the error came, and reports `IncompleteData`, the variant under
/// which a read error is reported anyway.
#[verifier::external_body]
fn zlib_inflate(compressed: &[u8]) -> (r: Vec<u8>)
    ensures
        r@ == zlib_inflated(compressed@),
{
    let mut out = Vec::new();
    let _ = flate2::read::ZlibDecoder::new(compressed).read_to_end(&mut out);
    out
}

/// What a file decodes to: a compressed file (starting with `D4 FE AD DE`) has an 8-byte
/// header before its zlib stream; any other file is decoded as is.
pub open spec fn spec_decompress_and_decode(data: Seq<u8>) -> Result<(AnimationView, Seq<u8>), DecodeErrorView> {
    if has_compressed_header(data) {
        let skip = if data.len() < 8 { data.len() as int } else { 8 };
        spec_decode_animation(zlib_inflated(data.skip(skip)))
    } else {
        spec_decode_animation(data)
    }
}

impl Animation {
    /// Decode a `.reanim` or `.reanim.compiled` file.
    /// Performs decompression before decoding if necessary.
    pub fn decompress_and_decode(data: &[u8]) -> (r: Result<Animation, DecodeError>)
        ensures
            match spec_decompress_and_decode(data@) {
                Ok((v, _)) => r matches Ok(x) && x@ == v,
                Err(e) => r matches Err(x) && x@ == e,
            },
    {
        let n: usize = data.len();
        let bytes = if n >= 4 && data[0] == 0xD4 && data[1] == 0xFE && data[2] == 0xAD && data[3] == 0xDE {
            let skip: usize = if n < 8 { n } else { 8 };
            zlib_inflate(vstd::slice::slice_subrange(data, skip, n))
        } else {
            vstd::slice::slice_to_vec(data)
        };
        proof {
            if n >= 8 {
                assert(data@.subrange(8, n as int) =~= data@.skip(8));
            } else {
                assert(data@.subrange(n as int, n as int) =~= data@.skip(n as int));
            }
        }
        let mut s = Stream::new(bytes);
        Animation::decode(&mut s)
    }
}

} // verus!
