//! Packing a decoded `.reanim` animation: each frame's transform becomes a list of actions,
//! tracks that only switch visibility become named frame ranges ("meta" tracks).

use vstd::prelude::*;
use crate::bits::{F32Bits, ONE_BITS, ZERO_BITS, spec_negate, spec_non_negative};
use crate::text::{ascii_lower, starts_with, to_ascii_lowercase};
use crate::reanim::{self, ElementsView, FrameView, Transform};
use crate::animation::{self as packed, Action, ActionView, Element, ElementView, Meta, MetaView};
use crate::cached::{Cached, SortedSlice};
use crate::stream::views;

verus! {

/// Skew angles of one frame, converted to radians (absent where the frame has none).
#[derive(Debug, Clone, Copy)]
pub struct Skew {
    /// Skew along the x-axis, in radians.
    pub kx: Option<F32Bits>,
    /// Skew along the y-axis, in radians.
    pub ky: Option<F32Bits>,
}

/// Are the skews given for exactly the components that the transform has?
pub open spec fn skew_matches(t: Transform, s: Skew) -> bool {
    &&& (t.kx is Some <==> s.kx is Some)
    &&& (t.ky is Some <==> s.ky is Some)
}

/// Transformation state carried from frame to frame: a component keeps its value until a
/// frame gives a new one.
#[derive(Debug, Clone, Copy)]
pub struct RawTrans {
    /// Translation along x.
    pub x: F32Bits,
    /// Translation along y (reanim orientation: downwards).
    pub y: F32Bits,
    /// Skew along x, in radians.
    pub kx: F32Bits,
    /// Skew along y, in radians.
    pub ky: F32Bits,
    /// Scale along x.
    pub sx: F32Bits,
    /// Scale along y.
    pub sy: F32Bits,
}

/// State before the first frame: no translation, no skew, unit scale.
pub open spec fn initial_raw_trans() -> RawTrans {
    RawTrans {
        x: F32Bits(ZERO_BITS),
        y: F32Bits(ZERO_BITS),
        kx: F32Bits(ZERO_BITS),
        ky: F32Bits(ZERO_BITS),
        sx: F32Bits(ONE_BITS),
        sy: F32Bits(ONE_BITS),
    }
}

/// The new value if there is one, else the old.
pub open spec fn or_keep(v: Option<F32Bits>, old_value: F32Bits) -> F32Bits {
    match v {
        Some(x) => x,
        None => old_value,
    }
}

/// State after a frame.
pub open spec fn next_raw_trans(st: RawTrans, t: Transform, s: Skew) -> RawTrans {
    RawTrans {
        x: or_keep(t.x, st.x),
        y: or_keep(t.y, st.y),
        kx: or_keep(s.kx, st.kx),
        ky: or_keep(s.ky, st.ky),
        sx: or_keep(t.sx, st.sx),
        sy: or_keep(t.sy, st.sy),
    }
}

/// State after the first `i` frames.
pub open spec fn raw_trans_after(frames: Seq<FrameView>, skews: Seq<Skew>, i: nat) -> RawTrans
    decreases i,
{
    if i == 0 {
        initial_raw_trans()
    } else {
        next_raw_trans(
            raw_trans_after(frames, skews, (i - 1) as nat),
            frames[i - 1].transform,
            skews[i - 1],
        )
    }
}

/// Prefix of image names in reanim files.
pub open spec fn reanim_image_prefix() -> Seq<char> {
    seq!['I', 'M', 'A', 'G', 'E', '_', 'R', 'E', 'A', 'N', 'I', 'M', '_']
}

/// Extension of image files.
pub open spec fn png_extension() -> Seq<char> {
    seq!['.', 'p', 'n', 'g']
}

/// File name of an image: `IMAGE_REANIM_XYZ` becomes `Xyz.png` (first character kept, the
/// rest in ASCII lower case). A name without the prefix is kept as is; a name whose rest is
/// empty or starts with a non-ASCII character loses only the prefix.
pub open spec fn packed_image_name(image: Seq<char>) -> Seq<char> {
    let p = reanim_image_prefix();
    if p.len() <= image.len() && image.take(p.len() as int) == p {
        let s = image.skip(p.len() as int);
        if s.len() > 0 && (s[0] as u32) < 128 {
            seq![s[0]] + s.skip(1).map_values(|c: char| ascii_lower(c)) + png_extension()
        } else {
            s
        }
    } else {
        image
    }
}

/// Optional single action.
pub open spec fn opt_action(present: bool, a: ActionView) -> Seq<ActionView> {
    if present {
        seq![a]
    } else {
        Seq::empty()
    }
}

/// Actions of a frame, given the transformation state after it. In order: translation
/// (y negated, as our y-axis points up), scale, rotation (x skew negated), alpha, visibility
/// (visible when `f >= 0`), then the image, or else the text when both text and font are given.
pub open spec fn spec_pack_frame(st: RawTrans, t: Transform, e: ElementsView, s: Skew) -> Seq<ActionView> {
    opt_action(t.x is Some || t.y is Some, ActionView::Translation(st.x, F32Bits(spec_negate(st.y.0))))
        + opt_action(t.sx is Some || t.sy is Some, ActionView::Scale(st.sx, st.sy))
        + opt_action(s.kx is Some || s.ky is Some, ActionView::Rotation(F32Bits(spec_negate(st.kx.0)), st.ky))
        + opt_action(t.a is Some, ActionView::Alpha(t.a.unwrap()))
        + opt_action(t.f is Some, ActionView::Show(spec_non_negative(t.f.unwrap().0)))
        + opt_action(
        e.image is Some,
        ActionView::LoadElement(ElementView::Image { image: packed_image_name(e.image.unwrap()) }),
    ) + opt_action(
        e.image is None && e.text is Some && e.font is Some,
        ActionView::LoadElement(ElementView::Text { text: e.text.unwrap(), font: e.font.unwrap() }),
    )
}

/// Packed frames of a track.
pub open spec fn spec_pack_frames(frames: Seq<FrameView>, skews: Seq<Skew>) -> Seq<Seq<ActionView>> {
    Seq::new(
        frames.len(),
        |i: int|
            spec_pack_frame(
                raw_trans_after(frames, skews, (i + 1) as nat),
                frames[i].transform,
                frames[i].elements,
                skews[i],
            ),
    )
}

/// A packed track: same name, one packed frame per frame.
pub open spec fn spec_pack_track(t: reanim::TrackView, skews: Seq<Skew>) -> packed::TrackView {
    packed::TrackView { name: t.name, frames: spec_pack_frames(t.frames, skews) }
}

/// Does every frame come with the skews that it has?
pub open spec fn skews_match(frames: Seq<FrameView>, skews: Seq<Skew>) -> bool {
    &&& frames.len() == skews.len()
    &&& forall|i: int| 0 <= i < frames.len() ==> skew_matches(#[trigger] frames[i].transform, skews[i])
}

/// File name of an image.
fn pack_image_name(image: &String) -> (r: String)
    ensures
        r@ == packed_image_name(image@),
{
    let prefix = "IMAGE_REANIM_";
    proof {
        reveal_strlit("IMAGE_REANIM_");
        reveal_strlit(".png");
        assert(prefix@ =~= reanim_image_prefix());
    }
    if !starts_with(image.as_str(), prefix) {
        return image.clone();
    }
    let n: usize = image.unicode_len();
    let s = image.as_str().substring_char(13, n);
    assert(s@ =~= image@.skip(13));
    if n > 13 && (s.get_char(0) as u32) < 128 {
        let mut r = String::from_str(s.substring_char(0, 1));
        let tail = to_ascii_lowercase(s.substring_char(1, n - 13));
        r.append(tail.as_str());
        r.append(".png");
        proof {
            assert(s@.subrange(0, 1) =~= seq![s@[0]]);
            assert(s@.subrange(1, n - 13) =~= s@.skip(1));
            assert(".png"@ =~= png_extension());
        }
        r
    } else {
        String::from_str(s)
    }
}

/// Does the action name no asset whose handle is cached: a loaded image or font has its raw
/// name only, the handle to be filled in once the asset is looked up?
pub open spec fn uncached(a: Action) -> bool {
    match a {
        Action::LoadElement(Element::Image { image }) => image.cached is None,
        Action::LoadElement(Element::Text { font, .. }) => font.cached is None,
        _ => true,
    }
}

/// Do none of the actions have an asset handle cached?
pub open spec fn all_uncached(actions: Seq<Action>) -> bool {
    forall|i: int| 0 <= i < actions.len() ==> uncached(#[trigger] actions[i])
}

/// Do none of the frames have an asset handle cached?
pub open spec fn frames_uncached(frames: Seq<packed::Frame>) -> bool {
    forall|k: int| 0 <= k < frames.len() ==> all_uncached((#[trigger] frames[k]).0@)
}

/// Push an action when it is present.
fn push_if(actions: &mut Vec<Action>, present: bool, a: Action)
    requires
        uncached(a),
    ensures
        views(final(actions)@) == views(old(actions)@) + opt_action(present, a@),
        all_uncached(old(actions)@) ==> all_uncached(final(actions)@),
{
    if present {
        actions.push(a);
        assert(views(actions@) =~= views(old(actions)@) + seq![a@]);
        assert(actions@[actions@.len() - 1] == a);
    } else {
        assert(views(actions@) =~= views(old(actions)@) + Seq::<ActionView>::empty());
    }
}

/// The new value if there is one, else the old.
fn keep_or(v: Option<F32Bits>, old_value: F32Bits) -> (r: F32Bits)
    ensures
        r == or_keep(v, old_value),
{
    match v {
        Some(x) => x,
        None => old_value,
    }
}

/// Push the transformation actions of a frame: translation, scale, rotation.
fn push_transform_actions(actions: &mut Vec<Action>, st: RawTrans, t: Transform, s: Skew)
    ensures
        views(final(actions)@) == views(old(actions)@)
            + opt_action(t.x is Some || t.y is Some, ActionView::Translation(st.x, F32Bits(spec_negate(st.y.0))))
            + opt_action(t.sx is Some || t.sy is Some, ActionView::Scale(st.sx, st.sy))
            + opt_action(s.kx is Some || s.ky is Some, ActionView::Rotation(F32Bits(spec_negate(st.kx.0)), st.ky)),
        all_uncached(old(actions)@) ==> all_uncached(final(actions)@),
{
    push_if(actions, t.x.is_some() || t.y.is_some(), Action::Translation([st.x, st.y.negate()]));
    push_if(actions, t.sx.is_some() || t.sy.is_some(), Action::Scale([st.sx, st.sy]));
    push_if(actions, s.kx.is_some() || s.ky.is_some(), Action::Rotation([st.kx.negate(), st.ky]));
}

/// Push the alpha and visibility actions of a frame.
fn push_alpha_show(actions: &mut Vec<Action>, t: Transform)
    ensures
        views(final(actions)@) == views(old(actions)@)
            + opt_action(t.a is Some, ActionView::Alpha(t.a.unwrap()))
            + opt_action(t.f is Some, ActionView::Show(spec_non_negative(t.f.unwrap().0))),
        all_uncached(old(actions)@) ==> all_uncached(final(actions)@),
{
    let ghost a0 = views(actions@);
    if let Some(a) = t.a {
        actions.push(Action::Alpha(a));
    }
    let ghost a1 = views(actions@);
    assert(a1 =~= a0 + opt_action(t.a is Some, ActionView::Alpha(t.a.unwrap())));
    if let Some(f) = t.f {
        actions.push(Action::Show(f.is_non_negative()));
    }
    assert(views(actions@) =~= a1 + opt_action(t.f is Some, ActionView::Show(spec_non_negative(t.f.unwrap().0))));
}

/// Push the element actions of a frame: the image, or else the text with its font.
fn push_elements(actions: &mut Vec<Action>, e: &reanim::Elements)
    ensures
        views(final(actions)@) == views(old(actions)@) + opt_action(
            e@.image is Some,
            ActionView::LoadElement(ElementView::Image { image: packed_image_name(e@.image.unwrap()) }),
        ) + opt_action(
            e@.image is None && e@.text is Some && e@.font is Some,
            ActionView::LoadElement(ElementView::Text { text: e@.text.unwrap(), font: e@.font.unwrap() }),
        ),
        all_uncached(old(actions)@) ==> all_uncached(final(actions)@),
{
    let ghost a0 = views(actions@);
    let mut has_image = false;
    if let Some(image) = &e.image {
        let name = pack_image_name(image);
        actions.push(Action::LoadElement(Element::Image { image: Cached::from(name) }));
        has_image = true;
    }
    let ghost a1 = views(actions@);
    assert(a1 =~= a0 + opt_action(
        e@.image is Some,
        ActionView::LoadElement(ElementView::Image { image: packed_image_name(e@.image.unwrap()) }),
    ));
    if !has_image {
        if let (Some(text), Some(font)) = (&e.text, &e.font) {
            actions.push(Action::LoadElement(Element::Text { text: text.clone(), font: Cached::from(font.clone()) }));
        }
    }
    assert(views(actions@) =~= a1 + opt_action(
        e@.image is None && e@.text is Some && e@.font is Some,
        ActionView::LoadElement(ElementView::Text { text: e@.text.unwrap(), font: e@.font.unwrap() }),
    ));
}

/// Pack one frame, given the transformation state after it.
fn pack_frame(st: RawTrans, frame: &reanim::Frame, s: Skew) -> (actions: Vec<Action>)
    ensures
        views(actions@) == spec_pack_frame(st, frame.transform, frame.elements@, s),
        all_uncached(actions@),
{
    let mut actions: Vec<Action> = Vec::new();
    push_transform_actions(&mut actions, st, frame.transform, s);
    push_alpha_show(&mut actions, frame.transform);
    push_elements(&mut actions, &frame.elements);
    actions
}

/// Pack a decoded track, given the skew angles of each frame in radians: each frame becomes the
/// list of actions of [`spec_pack_frame`].
pub fn pack_track(track: reanim::Track, skews: &Vec<Skew>) -> (r: packed::Track)
    requires
        skews_match(track@.frames, skews@),
    ensures
        r@ == spec_pack_track(track@, skews@),
        frames_uncached(r.frames@),
{
    let n: usize = track.frames.len();
    let mut frames: Vec<packed::Frame> = Vec::new();
    let mut st = RawTrans {
        x: F32Bits::zero(),
        y: F32Bits::zero(),
        kx: F32Bits::zero(),
        ky: F32Bits::zero(),
        sx: F32Bits::one(),
        sy: F32Bits::one(),
    };
    let mut i: usize = 0;
    while i < n
        invariant
            n == track@.frames.len(),
            skews_match(track@.frames, skews@),
            i <= n,
            st == raw_trans_after(track@.frames, skews@, i as nat),
            views(frames@) =~= spec_pack_frames(track@.frames, skews@).take(i as int),
            frames_uncached(frames@),
        decreases n - i,
    {
        let frame = &track.frames[i];
        let s = skews[i];
        let t = frame.transform;
        st = RawTrans {
            x: keep_or(t.x, st.x),
            y: keep_or(t.y, st.y),
            kx: keep_or(s.kx, st.kx),
            ky: keep_or(s.ky, st.ky),
            sx: keep_or(t.sx, st.sx),
            sy: keep_or(t.sy, st.sy),
        };
        let actions = pack_frame(st, frame, s);
        let ghost before = views(frames@);
        frames.push(packed::Frame(actions));
        proof {
            assert(track@.frames[i as int] == frame@);
            assert(views(frames@) =~= before.push(views(actions@)));
            assert(frames@[frames@.len() - 1].0@ == actions@);
        }
        i = i + 1;
    }
    assert(spec_pack_frames(track@.frames, skews@).take(n as int) =~= spec_pack_frames(track@.frames, skews@));
    packed::Track { name: track.name, frames }
}

/// State of the scan for visibility ranges in a meta track.
pub struct MetaScan {
    /// Completed ranges `[start, end)` of visible frames.
    pub ranges: Seq<(int, int)>,
    /// Is the element visible at this point?
    pub visible: bool,
    /// The frame where visibility last changed.
    pub last_key_frame: int,
}

/// A track is visible by default from the first frame.
pub open spec fn initial_meta_scan() -> MetaScan {
    MetaScan { ranges: Seq::empty(), visible: true, last_key_frame: 0 }
}

/// A `Show(visible)` action at frame `k`: hiding closes the current range (unless it is empty),
/// and any change of visibility starts a new key frame.
pub open spec fn scan_show(st: MetaScan, k: int, visible: bool) -> MetaScan {
    let ranges = if st.visible && !visible && st.last_key_frame != k {
        st.ranges.push((st.last_key_frame, k))
    } else {
        st.ranges
    };
    if st.visible != visible {
        MetaScan { ranges, visible, last_key_frame: k }
    } else {
        MetaScan { ranges, ..st }
    }
}

/// Scan the actions of frame `k`: loading an element disqualifies the track (`None`); other
/// transformations are ignored.
pub open spec fn scan_actions(st: MetaScan, k: int, actions: Seq<ActionView>) -> Option<MetaScan>
    decreases actions.len(),
{
    if actions.len() == 0 {
        Some(st)
    } else {
        match scan_actions(st, k, actions.drop_last()) {
            None => None,
            Some(s) => match actions.last() {
                ActionView::Show(v) => Some(scan_show(s, k, v)),
                ActionView::LoadElement(_) => None,
                _ => Some(s),
            },
        }
    }
}

/// Scan the first frames of a track.
pub open spec fn scan_frames(frames: Seq<Seq<ActionView>>) -> Option<MetaScan>
    decreases frames.len(),
{
    if frames.len() == 0 {
        Some(initial_meta_scan())
    } else {
        match scan_frames(frames.drop_last()) {
            None => None,
            Some(s) => scan_actions(s, frames.len() - 1, frames.last()),
        }
    }
}

/// Visible ranges of a track (a track still visible at the end stays visible up to its last
/// frame), or `None` if it loads an element.
pub open spec fn visible_ranges(frames: Seq<Seq<ActionView>>) -> Option<Seq<(int, int)>> {
    match scan_frames(frames) {
        None => None,
        Some(s) => Some(
            if s.visible {
                s.ranges.push((s.last_key_frame, frames.len() as int))
            } else {
                s.ranges
            },
        ),
    }
}

/// A track is a meta track when it only switches visibility, and is visible on exactly one
/// range of frames whose first and last indices fit in a `u16`.
pub open spec fn spec_track_to_meta(t: packed::TrackView) -> Option<MetaView> {
    match visible_ranges(t.frames) {
        Some(r) => if r.len() == 1 && 0 <= r[0].0 <= u16::MAX && 0 <= r[0].1 - 1 <= u16::MAX {
            Some(MetaView { name: t.name, start_frame: r[0].0 as u16, end_frame: (r[0].1 - 1) as u16 })
        } else {
            None
        },
        None => None,
    }
}

/// Scan the actions of frame `k`.
fn scan_frame_actions(
    actions: &Vec<Action>,
    k: usize,
    ranges: &mut Vec<(usize, usize)>,
    visible: &mut bool,
    last_key_frame: &mut usize,
    Ghost(st): Ghost<MetaScan>,
) -> (ok: bool)
    requires
        st.ranges == ranges_view(old(ranges)@),
        st.visible == *old(visible),
        st.last_key_frame == *old(last_key_frame),
        *old(last_key_frame) <= k,
        forall|j: int| 0 <= j < old(ranges)@.len() ==> (#[trigger] old(ranges)@[j]).1 <= k,
    ensures
        ok == scan_actions(st, k as int, views(actions@)) is Some,
        ok ==> {
            let s = scan_actions(st, k as int, views(actions@)).unwrap();
            &&& s.ranges == ranges_view(final(ranges)@)
            &&& s.visible == *final(visible)
            &&& s.last_key_frame == *final(last_key_frame)
            &&& *final(last_key_frame) <= k
            &&& forall|j: int| 0 <= j < final(ranges)@.len() ==> (#[trigger] final(ranges)@[j]).1 <= k
        },
{
    let mut a: usize = 0;
    while a < actions.len()
        invariant
            a <= actions@.len(),
            scan_actions(st, k as int, views(actions@).take(a as int)) == Some(MetaScan {
                ranges: ranges_view(ranges@),
                visible: *visible,
                last_key_frame: *last_key_frame as int,
            }),
            *last_key_frame <= k,
            forall|j: int| 0 <= j < ranges@.len() ==> (#[trigger] ranges@[j]).1 <= k,
        decreases actions@.len() - a,
    {
        let ghost prefix = views(actions@).take(a + 1);
        assert(prefix.drop_last() =~= views(actions@).take(a as int));
        assert(prefix.last() == actions@[a as int]@);
        match &actions[a] {
            Action::Show(v) => {
                let v = *v;
                let ghost r0 = ranges@;
                if *visible && !v && *last_key_frame != k {
                    ranges.push((*last_key_frame, k));
                    assert(ranges_view(ranges@) =~= ranges_view(r0).push((*last_key_frame as int, k as int)));
                }
                if *visible != v {
                    *last_key_frame = k;
                    *visible = v;
                }
            },
            Action::LoadElement(_) => {
                proof {
                    lemma_scan_actions_none_sticks(st, k as int, views(actions@), a + 1);
                }
                return false;
            },
            _ => {},
        }
        a = a + 1;
    }
    assert(views(actions@).take(a as int) =~= views(actions@));
    true
}

/// Ranges as integer pairs.
pub open spec fn ranges_view(r: Seq<(usize, usize)>) -> Seq<(int, int)> {
    r.map_values(|p: (usize, usize)| (p.0 as int, p.1 as int))
}

/// Once a scan of actions fails, scanning more actions fails too.
proof fn lemma_scan_actions_none_sticks(st: MetaScan, k: int, actions: Seq<ActionView>, i: int)
    requires
        0 <= i <= actions.len(),
        scan_actions(st, k, actions.take(i)) is None,
    ensures
        scan_actions(st, k, actions) is None,
    decreases actions.len() - i,
{
    if i < actions.len() {
        assert(actions.take(i + 1).drop_last() =~= actions.take(i));
        lemma_scan_actions_none_sticks(st, k, actions, i + 1);
    } else {
        assert(actions.take(i) =~= actions);
    }
}

/// Once a scan of frames fails, scanning more frames fails too.
proof fn lemma_scan_frames_none_sticks(frames: Seq<Seq<ActionView>>, i: int)
    requires
        0 <= i <= frames.len(),
        scan_frames(frames.take(i)) is None,
    ensures
        scan_frames(frames) is None,
    decreases frames.len() - i,
{
    if i < frames.len() {
        assert(frames.take(i + 1).drop_last() =~= frames.take(i));
        lemma_scan_frames_none_sticks(frames, i + 1);
    } else {
        assert(frames.take(i) =~= frames);
    }
}

/// Turn a packed track into a meta track if it is one (see [`spec_track_to_meta`]); otherwise
/// give the track back unchanged.
pub fn track_to_meta(track: packed::Track) -> (r: Result<Meta, packed::Track>)
    ensures
        match spec_track_to_meta(track@) {
            Some(m) => r matches Ok(meta) && meta@ == m,
            None => r matches Err(t) && t == track,
        },
{
    let mut ranges: Vec<(usize, usize)> = Vec::new();
    let mut visible = true;
    let mut last_key_frame: usize = 0;
    let n: usize = track.frames.len();
    let mut k: usize = 0;
    assert(ranges_view(ranges@) =~= Seq::<(int, int)>::empty());
    while k < n
        invariant
            n == track@.frames.len(),
            k <= n,
            scan_frames(track@.frames.take(k as int)) == Some(MetaScan {
                ranges: ranges_view(ranges@),
                visible,
                last_key_frame: last_key_frame as int,
            }),
            last_key_frame <= k,
            forall|j: int| 0 <= j < ranges@.len() ==> (#[trigger] ranges@[j]).1 <= k,
        decreases n - k,
    {
        let ghost st = MetaScan { ranges: ranges_view(ranges@), visible, last_key_frame: last_key_frame as int };
        let ghost prefix = track@.frames.take(k + 1);
        assert(prefix.drop_last() =~= track@.frames.take(k as int));
        assert(prefix.last() == track.frames@[k as int]@);
        let ok = scan_frame_actions(&track.frames[k].0, k, &mut ranges, &mut visible, &mut last_key_frame, Ghost(st));
        if !ok {
            proof {
                lemma_scan_frames_none_sticks(track@.frames, k + 1);
            }
            return Err(track);
        }
        k = k + 1;
    }
    assert(track@.frames.take(n as int) =~= track@.frames);
    if visible {
        let ghost r0 = ranges@;
        ranges.push((last_key_frame, n));
        assert(ranges_view(ranges@) =~= ranges_view(r0).push((last_key_frame as int, n as int)));
    }
    if ranges.len() != 1 {
        return Err(track);
    }
    let (start, end) = ranges[0];
    if start > 65535 || end == 0 || end - 1 > 65535 {
        return Err(track);
    }
    Ok(Meta { name: track.name, start_frame: start as u16, end_frame: (end - 1) as u16 })
}

/// Bounds on a scan state: the last key frame is within `0..=bound`, and every range is
/// non-empty and ends at most at `bound`.
pub open spec fn scan_within(s: MetaScan, bound: int) -> bool {
    &&& 0 <= s.last_key_frame <= bound
    &&& forall|j: int| 0 <= j < s.ranges.len() ==> 0 <= (#[trigger] s.ranges[j]).0 < s.ranges[j].1 <= bound
}

proof fn lemma_scan_actions_within(st: MetaScan, k: int, actions: Seq<ActionView>)
    requires
        scan_within(st, k),
    ensures
        scan_actions(st, k, actions) matches Some(s) ==> scan_within(s, k),
    decreases actions.len(),
{
    if actions.len() > 0 {
        lemma_scan_actions_within(st, k, actions.drop_last());
    }
}

proof fn lemma_scan_frames_within(frames: Seq<Seq<ActionView>>)
    requires
        frames.len() > 0,
    ensures
        scan_frames(frames) matches Some(s) ==> scan_within(s, frames.len() - 1),
    decreases frames.len(),
{
    let init = frames.drop_last();
    if frames.len() > 1 {
        lemma_scan_frames_within(init);
    }
    if let Some(s) = scan_frames(init) {
        assert(scan_within(s, frames.len() - 1));
        lemma_scan_actions_within(s, frames.len() - 1, frames.last());
    }
}

/// A meta track covers a non-empty range of the track's frames: its first frame is at most its
/// last, and its last frame is a frame of the track.
pub proof fn lemma_meta_range_within_track(t: packed::TrackView)
    ensures
        spec_track_to_meta(t) matches Some(m) ==> m.start_frame <= m.end_frame < t.frames.len(),
{
    if t.frames.len() > 0 {
        lemma_scan_frames_within(t.frames);
    }
}

/// Packed tracks of an animation, each with its skew angles.
pub open spec fn spec_packed_tracks(tracks: Seq<reanim::TrackView>, skews: Seq<Seq<Skew>>) -> Seq<packed::TrackView> {
    Seq::new(tracks.len(), |i: int| spec_pack_track(tracks[i], skews[i]))
}

/// Tracks that are not meta tracks, in order.
pub open spec fn plain_tracks(ts: Seq<packed::TrackView>) -> Seq<packed::TrackView>
    decreases ts.len(),
{
    if ts.len() == 0 {
        Seq::empty()
    } else {
        plain_tracks(ts.drop_last()) + if spec_track_to_meta(ts.last()) is None {
            seq![ts.last()]
        } else {
            Seq::empty()
        }
    }
}

/// Meta tracks, in order.
pub open spec fn meta_tracks(ts: Seq<packed::TrackView>) -> Seq<MetaView>
    decreases ts.len(),
{
    if ts.len() == 0 {
        Seq::empty()
    } else {
        meta_tracks(ts.drop_last()) + match spec_track_to_meta(ts.last()) {
            Some(m) => seq![m],
            None => Seq::empty(),
        }
    }
}

/// Does every track come with the skews of its frames?
pub open spec fn all_skews_match(tracks: Seq<reanim::TrackView>, skews: Seq<Seq<Skew>>) -> bool {
    &&& tracks.len() == skews.len()
    &&& forall|i: int| 0 <= i < tracks.len() ==> skews_match(#[trigger] tracks[i].frames, skews[i])
}

/// Views of nested vectors.
pub open spec fn skew_views(v: Seq<Vec<Skew>>) -> Seq<Seq<Skew>> {
    v.map_values(|x: Vec<Skew>| x@)
}

/// Pack a decoded animation, given the skew angles (in radians) of every frame of every track:
/// each track is packed; meta tracks become [`Meta`]s, sorted by name; the others stay tracks,
/// in order.
pub fn pack_animation(anim: reanim::Animation, skews: &Vec<Vec<Skew>>) -> (r: packed::AnimDesc)
    requires
        all_skews_match(anim@.tracks, skew_views(skews@)),
    ensures
        r.fps == anim.fps,
        views(r.tracks@) == plain_tracks(spec_packed_tracks(anim@.tracks, skew_views(skews@))),
        views(r.meta.entries()).to_multiset() == meta_tracks(
            spec_packed_tracks(anim@.tracks, skew_views(skews@)),
        ).to_multiset(),
        forall|t: int| 0 <= t < r.tracks@.len() ==> frames_uncached((#[trigger] r.tracks@[t]).frames@),
{
    let ghost all = spec_packed_tracks(anim@.tracks, skew_views(skews@));
    let ghost inputs = anim@.tracks;
    let n: usize = anim.tracks.len();
    let mut rest = anim.tracks;
    let mut metas: Vec<Meta> = Vec::new();
    let mut tracks: Vec<packed::Track> = Vec::new();
    let mut i: usize = 0;
    while i < n
        invariant
            n == inputs.len(),
            n == all.len(),
            i <= n,
            all == spec_packed_tracks(inputs, skew_views(skews@)),
            all_skews_match(inputs, skew_views(skews@)),
            views(rest@) == inputs.skip(i as int),
            views(tracks@) == plain_tracks(all.take(i as int)),
            views(metas@) == meta_tracks(all.take(i as int)),
            forall|t: int| 0 <= t < tracks@.len() ==> frames_uncached((#[trigger] tracks@[t]).frames@),
        decreases n - i,
    {
        assert(views(rest@).len() > 0);
        let ghost r0 = rest@;
        let track = rest.remove(0);
        assert(views(r0)[0] == track@);
        assert(views(r0)[0] == inputs.skip(i as int)[0]);
        assert(track@ == inputs[i as int]);
        assert(views(rest@) =~= views(r0).drop_first());
        assert(views(rest@) =~= inputs.skip(i + 1));
        assert(skew_views(skews@)[i as int] == skews@[i as int]@);
        let packed_track = pack_track(track, &skews[i]);
        assert(packed_track@ == all[i as int]);
        assert(all.take(i + 1).drop_last() =~= all.take(i as int));
        let ghost t0 = views(tracks@);
        let ghost m0 = views(metas@);
        match track_to_meta(packed_track) {
            Ok(meta) => {
                metas.push(meta);
                assert(views(metas@) =~= m0.push(meta@));
                assert(views(tracks@) =~= t0);
                assert(plain_tracks(all.take(i + 1)) =~= plain_tracks(all.take(i as int)));
                assert(meta_tracks(all.take(i + 1)) =~= meta_tracks(all.take(i as int)).push(meta@));
            },
            Err(t) => {
                let ghost old_tracks = tracks@;
                tracks.push(t);
                assert(views(tracks@) =~= t0.push(t@));
                assert forall|j: int| 0 <= j < tracks@.len() implies frames_uncached((#[trigger] tracks@[j]).frames@) by {
                    if j < old_tracks.len() {
                        assert(tracks@[j] == old_tracks[j]);
                    }
                }
                assert(views(metas@) =~= m0);
                assert(plain_tracks(all.take(i + 1)) =~= plain_tracks(all.take(i as int)).push(t@));
                assert(meta_tracks(all.take(i + 1)) =~= meta_tracks(all.take(i as int)));
            },
        }
        i = i + 1;
    }
    assert(all.take(n as int) =~= all);
    packed::AnimDesc { fps: anim.fps, meta: SortedSlice::from(metas), tracks }
}

/// Packing loses no track: every packed track becomes either a meta track or a plain track.
pub proof fn lemma_pack_partitions_tracks(ts: Seq<packed::TrackView>)
    ensures
        plain_tracks(ts).len() + meta_tracks(ts).len() == ts.len(),
    decreases ts.len(),
{
    if ts.len() > 0 {
        lemma_pack_partitions_tracks(ts.drop_last());
    }
}

/// Packing keeps a track's name and its number of frames, and a frame's actions depend only on
/// the frames up to it.
pub proof fn lemma_pack_track_shape(t: reanim::TrackView, skews: Seq<Skew>, k: int)
    requires
        skews_match(t.frames, skews),
        0 <= k < t.frames.len(),
    ensures
        spec_pack_track(t, skews).name == t.name,
        spec_pack_track(t, skews).frames.len() == t.frames.len(),
        spec_pack_track(t, skews).frames[k] == spec_pack_track(
            reanim::TrackView { name: t.name, frames: t.frames.take(k + 1) },
            skews.take(k + 1),
        ).frames[k],
{
    lemma_raw_trans_prefix(t.frames, skews, k + 1, (k + 1) as nat);
    assert(t.frames.take(k + 1)[k] == t.frames[k]);
    assert(skews.take(k + 1)[k] == skews[k]);
}

/// The state after the first `i` frames depends only on those frames.
proof fn lemma_raw_trans_prefix(frames: Seq<FrameView>, skews: Seq<Skew>, n: int, i: nat)
    requires
        0 <= i <= n <= frames.len(),
        n <= skews.len(),
    ensures
        raw_trans_after(frames, skews, i) == raw_trans_after(frames.take(n), skews.take(n), i),
    decreases i,
{
    if i > 0 {
        lemma_raw_trans_prefix(frames, skews, n, (i - 1) as nat);
        assert(frames.take(n)[i - 1] == frames[i - 1]);
        assert(skews.take(n)[i - 1] == skews[i - 1]);
    }
}

/// The latest value given at or before position `k`, searching backwards; `default` where
/// none is given.
pub open spec fn latest(values: Seq<Option<F32Bits>>, k: int, default: F32Bits) -> F32Bits
    decreases k + 1,
{
    if k < 0 {
        default
    } else {
        match values[k] {
            Some(v) => v,
            None => latest(values, k - 1, default),
        }
    }
}

/// The values of one transform component over the frames.
pub open spec fn x_values(frames: Seq<FrameView>) -> Seq<Option<F32Bits>> {
    frames.map_values(|f: FrameView| f.transform.x)
}

/// The `y` values over the frames.
pub open spec fn y_values(frames: Seq<FrameView>) -> Seq<Option<F32Bits>> {
    frames.map_values(|f: FrameView| f.transform.y)
}

/// The `sx` values over the frames.
pub open spec fn sx_values(frames: Seq<FrameView>) -> Seq<Option<F32Bits>> {
    frames.map_values(|f: FrameView| f.transform.sx)
}

/// The `sy` values over the frames.
pub open spec fn sy_values(frames: Seq<FrameView>) -> Seq<Option<F32Bits>> {
    frames.map_values(|f: FrameView| f.transform.sy)
}

/// The skews along x over the frames, in radians.
pub open spec fn kx_values(skews: Seq<Skew>) -> Seq<Option<F32Bits>> {
    skews.map_values(|s: Skew| s.kx)
}

/// The skews along y over the frames, in radians.
pub open spec fn ky_values(skews: Seq<Skew>) -> Seq<Option<F32Bits>> {
    skews.map_values(|s: Skew| s.ky)
}

/// The state after frames `0..=k` holds, for each component, the latest value given.
proof fn lemma_state_is_latest(frames: Seq<FrameView>, skews: Seq<Skew>, k: int)
    requires
        -1 <= k < frames.len(),
        frames.len() == skews.len(),
    ensures
        ({
            let st = raw_trans_after(frames, skews, (k + 1) as nat);
            &&& st.x == latest(x_values(frames), k, F32Bits(ZERO_BITS))
            &&& st.y == latest(y_values(frames), k, F32Bits(ZERO_BITS))
            &&& st.sx == latest(sx_values(frames), k, F32Bits(ONE_BITS))
            &&& st.sy == latest(sy_values(frames), k, F32Bits(ONE_BITS))
            &&& st.kx == latest(kx_values(skews), k, F32Bits(ZERO_BITS))
            &&& st.ky == latest(ky_values(skews), k, F32Bits(ZERO_BITS))
        }),
    decreases k + 1,
{
    if k >= 0 {
        lemma_state_is_latest(frames, skews, k - 1);
        assert(x_values(frames)[k] == frames[k].transform.x);
        assert(y_values(frames)[k] == frames[k].transform.y);
        assert(sx_values(frames)[k] == frames[k].transform.sx);
        assert(sy_values(frames)[k] == frames[k].transform.sy);
        assert(kx_values(skews)[k] == skews[k].kx);
        assert(ky_values(skews)[k] == skews[k].ky);
    }
}

/// Packing carries each transform component over from frame to frame: a frame that gives a
/// translation (`x` or `y`) packs first to the translation by the latest `x` and the negated
/// latest `y` given at or before it (0 where none was given); a frame that gives a scale packs to
/// the scale by the latest `sx` and `sy` (1 where none); a frame with a skew packs to the
/// rotation by the negated latest skew along x and the latest skew along y (0 where none).
pub proof fn lemma_pack_carries_over(t: reanim::TrackView, skews: Seq<Skew>, k: int)
    requires
        skews_match(t.frames, skews),
        0 <= k < t.frames.len(),
    ensures
        ({
            let acts = spec_pack_track(t, skews).frames[k];
            let tr = t.frames[k].transform;
            let translation = ActionView::Translation(
                latest(x_values(t.frames), k, F32Bits(ZERO_BITS)),
                F32Bits(spec_negate(latest(y_values(t.frames), k, F32Bits(ZERO_BITS)).0)),
            );
            let scale = ActionView::Scale(
                latest(sx_values(t.frames), k, F32Bits(ONE_BITS)),
                latest(sy_values(t.frames), k, F32Bits(ONE_BITS)),
            );
            let rotation = ActionView::Rotation(
                F32Bits(spec_negate(latest(kx_values(skews), k, F32Bits(ZERO_BITS)).0)),
                latest(ky_values(skews), k, F32Bits(ZERO_BITS)),
            );
            &&& (tr.x is Some || tr.y is Some) ==> acts[0] == translation
            &&& (tr.sx is Some || tr.sy is Some) ==> acts.contains(scale)
            &&& (skews[k].kx is Some || skews[k].ky is Some) ==> acts.contains(rotation)
        }),
{
    lemma_state_is_latest(t.frames, skews, k);
    let acts = spec_pack_track(t, skews).frames[k];
    let tr = t.frames[k].transform;
    let st = raw_trans_after(t.frames, skews, (k + 1) as nat);
    let n0: int = if tr.x is Some || tr.y is Some { 1 } else { 0 };
    let n1: int = if tr.sx is Some || tr.sy is Some { 1 } else { 0 };
    if tr.sx is Some || tr.sy is Some {
        assert(acts[n0] == ActionView::Scale(st.sx, st.sy));
    }
    if skews[k].kx is Some || skews[k].ky is Some {
        assert(acts[n0 + n1] == ActionView::Rotation(F32Bits(spec_negate(st.kx.0)), st.ky));
    }
}

} // verus!
