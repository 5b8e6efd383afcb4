//! Original XML format for `.reanim` files: the layout of tags and which optional fields
//! appear. Numbers are handed in already written out, as text.

use vstd::prelude::*;
use crate::reanim::{Animation, AnimationView, Elements, ElementsView, FrameView, Track, TrackView, Transform, opt_view};

verus! {

/// `<label>content</label>`.
pub open spec fn tagged(label: Seq<char>, content: Seq<char>) -> Seq<char> {
    "<"@ + label + ">"@ + content + "</"@ + label + ">"@
}

/// A tagged field where there is a value, nothing where there is none.
pub open spec fn optional_xml(label: Seq<char>, value: Option<Seq<char>>) -> Seq<char> {
    match value {
        Some(c) => tagged(label, c),
        None => Seq::empty(),
    }
}

/// The text of a number, or nothing.
pub open spec fn text_or_empty(text: Option<Seq<char>>) -> Seq<char> {
    match text {
        Some(c) => c,
        None => Seq::empty(),
    }
}

/// A number field: tagged where the field is set, with its text; nothing where it is not.
#[verifier::opaque]
pub open spec fn number_xml(label: Seq<char>, set: bool, text: Option<Seq<char>>) -> Seq<char> {
    if set {
        tagged(label, text_or_empty(text))
    } else {
        Seq::empty()
    }
}

/// Is field `i` of a transform set? The fields in order: `x`, `y`, `kx`, `ky`, `sx`, `sy`, `f`,
/// `a`.
pub open spec fn field_set(t: Transform, i: int) -> bool {
    if i == 0 {
        t.x is Some
    } else if i == 1 {
        t.y is Some
    } else if i == 2 {
        t.kx is Some
    } else if i == 3 {
        t.ky is Some
    } else if i == 4 {
        t.sx is Some
    } else if i == 5 {
        t.sy is Some
    } else if i == 6 {
        t.f is Some
    } else {
        t.a is Some
    }
}

/// Are the texts of a transform's numbers there exactly where its fields are set?
pub open spec fn numbers_fit(t: Transform, numbers: Seq<Option<Seq<char>>>) -> bool {
    &&& numbers.len() == 8
    &&& forall|i: int| 0 <= i < 8 ==> ((#[trigger] numbers[i]) is Some <==> field_set(t, i))
}

/// A transform in XML, each set field with the text of its number.
pub open spec fn transform_xml(t: Transform, numbers: Seq<Option<Seq<char>>>) -> Seq<char> {
    number_xml("x"@, t.x is Some, numbers[0]) + number_xml("y"@, t.y is Some, numbers[1])
        + number_xml("kx"@, t.kx is Some, numbers[2]) + number_xml("ky"@, t.ky is Some, numbers[3])
        + number_xml("sx"@, t.sx is Some, numbers[4]) + number_xml("sy"@, t.sy is Some, numbers[5])
        + number_xml("f"@, t.f is Some, numbers[6]) + number_xml("a"@, t.a is Some, numbers[7])
}

/// The elements of a frame in XML: image (`i`), font and text, where present.
pub open spec fn elements_xml(e: ElementsView) -> Seq<char> {
    optional_xml("i"@, e.image) + optional_xml("font"@, e.font) + optional_xml("text"@, e.text)
}

/// A frame in XML, on a line of its own.
pub open spec fn frame_xml(f: FrameView, numbers: Seq<Option<Seq<char>>>) -> Seq<char> {
    "<t>"@ + transform_xml(f.transform, numbers) + elements_xml(f.elements) + "</t>\n"@
}

/// The first `k` frames in XML.
pub open spec fn frames_xml(frames: Seq<FrameView>, numbers: Seq<Seq<Option<Seq<char>>>>, k: int) -> Seq<char>
    decreases k,
{
    if k <= 0 {
        Seq::empty()
    } else {
        frames_xml(frames, numbers, k - 1) + frame_xml(frames[k - 1], numbers[k - 1])
    }
}

/// A track in XML: its name, then its frames, one per line.
pub open spec fn track_xml(t: TrackView, numbers: Seq<Seq<Option<Seq<char>>>>) -> Seq<char> {
    "<track>\n"@ + tagged("name"@, t.name) + "\n"@ + frames_xml(t.frames, numbers, t.frames.len() as int) + "</track>\n"@
}

/// The first `k` tracks in XML.
pub open spec fn tracks_xml(tracks: Seq<TrackView>, numbers: Seq<Seq<Seq<Option<Seq<char>>>>>, k: int) -> Seq<char>
    decreases k,
{
    if k <= 0 {
        Seq::empty()
    } else {
        tracks_xml(tracks, numbers, k - 1) + track_xml(tracks[k - 1], numbers[k - 1])
    }
}

/// An animation in XML: the frame rate on a line of its own, then the tracks.
pub open spec fn spec_animation_xml(a: AnimationView, fps: Seq<char>, numbers: Seq<Seq<Seq<Option<Seq<char>>>>>) -> Seq<char> {
    tagged("fps"@, fps) + "\n"@ + tracks_xml(a.tracks, numbers, a.tracks.len() as int)
}

/// The texts of the numbers of each frame of each track.
pub open spec fn numbers_view(numbers: Seq<Vec<[Option<String>; 8]>>) -> Seq<Seq<Seq<Option<Seq<char>>>>> {
    numbers.map_values(
        |v: Vec<[Option<String>; 8]>| v@.map_values(|a: [Option<String>; 8]| a@.map_values(|o: Option<String>| opt_view(o))),
    )
}

/// Are the texts of the numbers there, one set of eight per frame of each track, exactly where
/// the frame's transform has the field set?
pub open spec fn numbers_fit_animation(a: AnimationView, numbers: Seq<Seq<Seq<Option<Seq<char>>>>>) -> bool {
    &&& numbers.len() == a.tracks.len()
    &&& forall|t: int| 0 <= t < a.tracks.len() ==> (#[trigger] numbers[t]).len() == a.tracks[t].frames.len()
    &&& forall|t: int, k: int|
        0 <= t < a.tracks.len() && 0 <= k < a.tracks[t].frames.len() ==> numbers_fit(
            (#[trigger] a.tracks[t].frames[k]).transform,
            numbers[t][k],
        )
}

/// Append `<label>content</label>`.
fn append_tagged(s: &mut String, label: &str, content: &str)
    ensures
        final(s)@ == old(s)@ + tagged(label@, content@),
{
    s.append("<");
    s.append(label);
    s.append(">");
    s.append(content);
    s.append("</");
    s.append(label);
    s.append(">");
    assert(final(s)@ =~= old(s)@ + tagged(label@, content@));
}

/// Append an optional field.
fn append_optional(s: &mut String, label: &str, value: &Option<String>)
    ensures
        final(s)@ == old(s)@ + optional_xml(label@, opt_view(*value)),
{
    match value {
        Some(c) => append_tagged(s, label, c.as_str()),
        None => assert(old(s)@ + Seq::<char>::empty() =~= old(s)@),
    }
}

/// A number field: tagged, with its text, where the field is set; empty where it is not.
fn number_text(label: &str, set: bool, text: &Option<String>) -> (r: String)
    requires
        set ==> text is Some,
    ensures
        r@ == number_xml(label@, set, opt_view(*text)),
{
    let mut r = String::new();
    if set {
        match text {
            Some(c) => append_tagged(&mut r, label, c.as_str()),
            None => {},
        }
    }
    assert(r@ =~= number_xml(label@, set, opt_view(*text))) by {
        reveal(number_xml);
    }
    r
}

/// Append a transform in XML.
fn append_transform(s: &mut String, t: &Transform, numbers: &[Option<String>; 8])
    requires
        numbers_fit(*t, numbers@.map_values(|o: Option<String>| opt_view(o))),
    ensures
        final(s)@ == old(s)@ + transform_xml(*t, numbers@.map_values(|o: Option<String>| opt_view(o))),
{
    let ghost n = numbers@.map_values(|o: Option<String>| opt_view(o));
    proof {
        assert(n[0] == opt_view(numbers@[0]) && (n[0] is Some <==> field_set(*t, 0)));
        assert(n[1] == opt_view(numbers@[1]) && (n[1] is Some <==> field_set(*t, 1)));
        assert(n[2] == opt_view(numbers@[2]) && (n[2] is Some <==> field_set(*t, 2)));
        assert(n[3] == opt_view(numbers@[3]) && (n[3] is Some <==> field_set(*t, 3)));
        assert(n[4] == opt_view(numbers@[4]) && (n[4] is Some <==> field_set(*t, 4)));
        assert(n[5] == opt_view(numbers@[5]) && (n[5] is Some <==> field_set(*t, 5)));
        assert(n[6] == opt_view(numbers@[6]) && (n[6] is Some <==> field_set(*t, 6)));
        assert(n[7] == opt_view(numbers@[7]) && (n[7] is Some <==> field_set(*t, 7)));
    }
    let x = number_text("x", t.x.is_some(), &numbers[0]);
    let y = number_text("y", t.y.is_some(), &numbers[1]);
    let kx = number_text("kx", t.kx.is_some(), &numbers[2]);
    let ky = number_text("ky", t.ky.is_some(), &numbers[3]);
    let sx = number_text("sx", t.sx.is_some(), &numbers[4]);
    let sy = number_text("sy", t.sy.is_some(), &numbers[5]);
    let f = number_text("f", t.f.is_some(), &numbers[6]);
    let a = number_text("a", t.a.is_some(), &numbers[7]);
    let ghost s0 = s@;
    s.append(x.as_str());
    s.append(y.as_str());
    s.append(kx.as_str());
    s.append(ky.as_str());
    s.append(sx.as_str());
    s.append(sy.as_str());
    s.append(f.as_str());
    s.append(a.as_str());
    let ghost pieces = x@ + y@ + kx@ + ky@ + sx@ + sy@ + f@ + a@;
    assert(s@ =~= s0 + pieces);
    assert(pieces == transform_xml(*t, n));
}

/// Append the elements of a frame in XML.
fn append_elements(s: &mut String, e: &Elements)
    ensures
        final(s)@ == old(s)@ + elements_xml(e@),
{
    append_optional(s, "i", &e.image);
    append_optional(s, "font", &e.font);
    append_optional(s, "text", &e.text);
    assert(final(s)@ =~= old(s)@ + elements_xml(e@));
}

/// Append a track in XML.
fn append_track(s: &mut String, track: &Track, numbers: &Vec<[Option<String>; 8]>)
    requires
        numbers@.len() == track.frames@.len(),
        forall|k: int| 0 <= k < track.frames@.len() ==> numbers_fit(
            (#[trigger] track.frames@[k]).transform,
            numbers@[k]@.map_values(|o: Option<String>| opt_view(o)),
        ),
    ensures
        final(s)@ == old(s)@ + track_xml(track@, numbers@.map_values(|a: [Option<String>; 8]| a@.map_values(|o: Option<String>| opt_view(o)))),
{
    let ghost nums = numbers@.map_values(|a: [Option<String>; 8]| a@.map_values(|o: Option<String>| opt_view(o)));
    s.append("<track>\n");
    append_tagged(s, "name", track.name.as_str());
    s.append("\n");
    let ghost head = s@;
    let mut k: usize = 0;
    while k < track.frames.len()
        invariant
            k <= track.frames@.len(),
            numbers@.len() == track.frames@.len(),
            nums == numbers@.map_values(|a: [Option<String>; 8]| a@.map_values(|o: Option<String>| opt_view(o))),
            forall|j: int| 0 <= j < track.frames@.len() ==> numbers_fit(
                (#[trigger] track.frames@[j]).transform,
                numbers@[j]@.map_values(|o: Option<String>| opt_view(o)),
            ),
            s@ == head + frames_xml(track@.frames, nums, k as int),
        decreases track.frames@.len() - k,
    {
        let frame = &track.frames[k];
        let ghost before = s@;
        s.append("<t>");
        append_transform(s, &frame.transform, &numbers[k]);
        append_elements(s, &frame.elements);
        s.append("</t>\n");
        proof {
            assert(track@.frames[k as int] == frame@);
            assert(nums[k as int] == numbers@[k as int]@.map_values(|o: Option<String>| opt_view(o)));
            assert(s@ =~= before + frame_xml(frame@, nums[k as int]));
        }
        k = k + 1;
    }
    s.append("</track>\n");
    assert(final(s)@ =~= old(s)@ + track_xml(track@, nums));
}

/// Write an animation in the original XML format. `fps` is the text of the frame rate, and
/// `numbers` the texts of the numbers of each transform (`x`, `y`, `kx`, `ky`, `sx`, `sy`, `f`,
/// `a`), one set per frame of each track, present exactly where the field is set.
pub fn animation_xml(anim: &Animation, fps: &str, numbers: &Vec<Vec<[Option<String>; 8]>>) -> (s: String)
    requires
        numbers_fit_animation(anim@, numbers_view(numbers@)),
    ensures
        s@ == spec_animation_xml(anim@, fps@, numbers_view(numbers@)),
{
    let ghost nums = numbers_view(numbers@);
    let mut s = String::new();
    append_tagged(&mut s, "fps", fps);
    s.append("\n");
    let ghost head = s@;
    let mut t: usize = 0;
    while t < anim.tracks.len()
        invariant
            t <= anim.tracks@.len(),
            nums == numbers_view(numbers@),
            numbers_fit_animation(anim@, nums),
            s@ == head + tracks_xml(anim@.tracks, nums, t as int),
        decreases anim.tracks@.len() - t,
    {
        let track = &anim.tracks[t];
        let ghost before = s@;
        proof {
            assert(anim@.tracks[t as int] == track@);
            assert(nums[t as int] == numbers@[t as int]@.map_values(
                |a: [Option<String>; 8]| a@.map_values(|o: Option<String>| opt_view(o)),
            ));
            assert forall|k: int| 0 <= k < track.frames@.len() implies numbers_fit(
                (#[trigger] track.frames@[k]).transform,
                numbers@[t as int]@[k]@.map_values(|o: Option<String>| opt_view(o)),
            ) by {
                assert(anim@.tracks[t as int].frames[k] == track.frames@[k]@);
                assert(nums[t as int][k] == numbers@[t as int]@[k]@.map_values(|o: Option<String>| opt_view(o)));
            }
        }
        append_track(&mut s, track, &numbers[t]);
        assert(s@ =~= before + track_xml(track@, nums[t as int]));
        t = t + 1;
    }
    assert(s@ =~= spec_animation_xml(anim@, fps@, nums));
    s
}

/// Does `s` hold `sub` somewhere?
pub open spec fn contains_text(s: Seq<char>, sub: Seq<char>) -> bool {
    exists|i: int| 0 <= i <= s.len() - sub.len() && #[trigger] s.subrange(i, i + sub.len()) == sub
}

/// A text holds itself.
proof fn lemma_contains_self(s: Seq<char>)
    ensures
        contains_text(s, s),
{
    assert(s.subrange(0, 0 + s.len() as int) =~= s);
}

/// What a part holds, the whole holds.
proof fn lemma_contains_in(a: Seq<char>, mid: Seq<char>, b: Seq<char>, sub: Seq<char>)
    requires
        contains_text(mid, sub),
    ensures
        contains_text(a + mid + b, sub),
{
    let i = choose|i: int| 0 <= i <= mid.len() - sub.len() && #[trigger] mid.subrange(i, i + sub.len()) == sub;
    let big = a + mid + b;
    assert(big.subrange(a.len() + i, a.len() + i + sub.len()) =~= mid.subrange(i, i + sub.len()));
}

/// A set number field, written between any two texts, is found there with its tag.
proof fn lemma_number_in(pre: Seq<char>, label: Seq<char>, text: Option<Seq<char>>, post: Seq<char>)
    ensures
        contains_text(pre + number_xml(label, true, text) + post, tagged(label, text_or_empty(text))),
{
    reveal(number_xml);
    let piece = tagged(label, text_or_empty(text));
    lemma_contains_self(piece);
    lemma_contains_in(pre, piece, post, piece);
}

/// Each set field of a transform is written under its own name, with the text of its number:
/// `<x>..</x>`, `<y>..</y>`, `<kx>..</kx>`, `<ky>..</ky>`, `<sx>..</sx>`, `<sy>..</sy>`,
/// `<f>..</f>`, `<a>..</a>`.
pub proof fn lemma_transform_xml_tags(t: Transform, numbers: Seq<Option<Seq<char>>>)
    requires
        numbers.len() == 8,
    ensures
        t.x is Some ==> contains_text(transform_xml(t, numbers), tagged("x"@, text_or_empty(numbers[0]))),
        t.y is Some ==> contains_text(transform_xml(t, numbers), tagged("y"@, text_or_empty(numbers[1]))),
        t.kx is Some ==> contains_text(transform_xml(t, numbers), tagged("kx"@, text_or_empty(numbers[2]))),
        t.ky is Some ==> contains_text(transform_xml(t, numbers), tagged("ky"@, text_or_empty(numbers[3]))),
        t.sx is Some ==> contains_text(transform_xml(t, numbers), tagged("sx"@, text_or_empty(numbers[4]))),
        t.sy is Some ==> contains_text(transform_xml(t, numbers), tagged("sy"@, text_or_empty(numbers[5]))),
        t.f is Some ==> contains_text(transform_xml(t, numbers), tagged("f"@, text_or_empty(numbers[6]))),
        t.a is Some ==> contains_text(transform_xml(t, numbers), tagged("a"@, text_or_empty(numbers[7]))),
{
    let n0 = number_xml("x"@, t.x is Some, numbers[0]);
    let n1 = number_xml("y"@, t.y is Some, numbers[1]);
    let n2 = number_xml("kx"@, t.kx is Some, numbers[2]);
    let n3 = number_xml("ky"@, t.ky is Some, numbers[3]);
    let n4 = number_xml("sx"@, t.sx is Some, numbers[4]);
    let n5 = number_xml("sy"@, t.sy is Some, numbers[5]);
    let n6 = number_xml("f"@, t.f is Some, numbers[6]);
    let n7 = number_xml("a"@, t.a is Some, numbers[7]);
    let all = transform_xml(t, numbers);
    let e = Seq::<char>::empty();
    assert(all == n0 + n1 + n2 + n3 + n4 + n5 + n6 + n7);
    if t.x is Some {
        assert(all =~= e + n0 + (n1 + n2 + n3 + n4 + n5 + n6 + n7));
        lemma_number_in(e, "x"@, numbers[0], n1 + n2 + n3 + n4 + n5 + n6 + n7);
    }
    if t.y is Some {
        assert(all =~= n0 + n1 + (n2 + n3 + n4 + n5 + n6 + n7));
        lemma_number_in(n0, "y"@, numbers[1], n2 + n3 + n4 + n5 + n6 + n7);
    }
    if t.kx is Some {
        assert(all =~= (n0 + n1) + n2 + (n3 + n4 + n5 + n6 + n7));
        lemma_number_in(n0 + n1, "kx"@, numbers[2], n3 + n4 + n5 + n6 + n7);
    }
    if t.ky is Some {
        assert(all =~= (n0 + n1 + n2) + n3 + (n4 + n5 + n6 + n7));
        lemma_number_in(n0 + n1 + n2, "ky"@, numbers[3], n4 + n5 + n6 + n7);
    }
    if t.sx is Some {
        assert(all =~= (n0 + n1 + n2 + n3) + n4 + (n5 + n6 + n7));
        lemma_number_in(n0 + n1 + n2 + n3, "sx"@, numbers[4], n5 + n6 + n7);
    }
    if t.sy is Some {
        assert(all =~= (n0 + n1 + n2 + n3 + n4) + n5 + (n6 + n7));
        lemma_number_in(n0 + n1 + n2 + n3 + n4, "sy"@, numbers[5], n6 + n7);
    }
    if t.f is Some {
        assert(all =~= (n0 + n1 + n2 + n3 + n4 + n5) + n6 + n7);
        lemma_number_in(n0 + n1 + n2 + n3 + n4 + n5, "f"@, numbers[6], n7);
    }
    if t.a is Some {
        assert(all =~= (n0 + n1 + n2 + n3 + n4 + n5 + n6) + n7 + e);
        lemma_number_in(n0 + n1 + n2 + n3 + n4 + n5 + n6, "a"@, numbers[7], e);
    }
}

/// What the XML of a frame holds, the XML of the first `k` frames holds, for a frame before `k`.
proof fn lemma_frames_hold(frames: Seq<FrameView>, numbers: Seq<Seq<Option<Seq<char>>>>, k: int, j: int, sub: Seq<char>)
    requires
        0 <= j < k,
        contains_text(frame_xml(frames[j], numbers[j]), sub),
    ensures
        contains_text(frames_xml(frames, numbers, k), sub),
    decreases k,
{
    let e = Seq::<char>::empty();
    let last = frame_xml(frames[k - 1], numbers[k - 1]);
    let before = frames_xml(frames, numbers, k - 1);
    if j == k - 1 {
        assert(frames_xml(frames, numbers, k) =~= before + last + e);
        lemma_contains_in(before, last, e, sub);
    } else {
        lemma_frames_hold(frames, numbers, k - 1, j, sub);
        assert(frames_xml(frames, numbers, k) =~= e + before + last);
        lemma_contains_in(e, before, last, sub);
    }
}

/// What the XML of a track holds, the XML of the first `k` tracks holds, for a track before `k`.
proof fn lemma_tracks_hold(tracks: Seq<TrackView>, numbers: Seq<Seq<Seq<Option<Seq<char>>>>>, k: int, j: int, sub: Seq<char>)
    requires
        0 <= j < k,
        contains_text(track_xml(tracks[j], numbers[j]), sub),
    ensures
        contains_text(tracks_xml(tracks, numbers, k), sub),
    decreases k,
{
    let e = Seq::<char>::empty();
    let last = track_xml(tracks[k - 1], numbers[k - 1]);
    let before = tracks_xml(tracks, numbers, k - 1);
    if j == k - 1 {
        assert(tracks_xml(tracks, numbers, k) =~= before + last + e);
        lemma_contains_in(before, last, e, sub);
    } else {
        lemma_tracks_hold(tracks, numbers, k - 1, j, sub);
        assert(tracks_xml(tracks, numbers, k) =~= e + before + last);
        lemma_contains_in(e, before, last, sub);
    }
}

/// What the XML of the transform of frame `k` of track `t` holds, the animation's XML holds.
proof fn lemma_animation_holds(
    a: AnimationView,
    fps: Seq<char>,
    numbers: Seq<Seq<Seq<Option<Seq<char>>>>>,
    t: int,
    k: int,
    sub: Seq<char>,
)
    requires
        0 <= t < a.tracks.len(),
        0 <= k < a.tracks[t].frames.len(),
        contains_text(transform_xml(a.tracks[t].frames[k].transform, numbers[t][k]), sub),
    ensures
        contains_text(spec_animation_xml(a, fps, numbers), sub),
{
    let e = Seq::<char>::empty();
    let track = a.tracks[t];
    let f = track.frames[k];
    let tx = transform_xml(f.transform, numbers[t][k]);
    assert(frame_xml(f, numbers[t][k]) =~= "<t>"@ + tx + (elements_xml(f.elements) + "</t>\n"@));
    lemma_contains_in("<t>"@, tx, elements_xml(f.elements) + "</t>\n"@, sub);
    lemma_frames_hold(track.frames, numbers[t], track.frames.len() as int, k, sub);
    let fx = frames_xml(track.frames, numbers[t], track.frames.len() as int);
    assert(track_xml(track, numbers[t]) =~= ("<track>\n"@ + tagged("name"@, track.name) + "\n"@) + fx + "</track>\n"@);
    lemma_contains_in("<track>\n"@ + tagged("name"@, track.name) + "\n"@, fx, "</track>\n"@, sub);
    lemma_tracks_hold(a.tracks, numbers, a.tracks.len() as int, t, sub);
    let all = tracks_xml(a.tracks, numbers, a.tracks.len() as int);
    assert(spec_animation_xml(a, fps, numbers) =~= (tagged("fps"@, fps) + "\n"@) + all + e);
    lemma_contains_in(tagged("fps"@, fps) + "\n"@, all, e, sub);
}

/// In the XML of an animation, every set field of the transform of every frame of every track
/// is written under its own name, with the text of its number.
pub proof fn lemma_animation_xml_fields(
    a: AnimationView,
    fps: Seq<char>,
    numbers: Seq<Seq<Seq<Option<Seq<char>>>>>,
    t: int,
    k: int,
)
    requires
        numbers_fit_animation(a, numbers),
        0 <= t < a.tracks.len(),
        0 <= k < a.tracks[t].frames.len(),
    ensures
        a.tracks[t].frames[k].transform.x is Some ==> contains_text(spec_animation_xml(a, fps, numbers), tagged("x"@, text_or_empty(numbers[t][k][0]))),
        a.tracks[t].frames[k].transform.y is Some ==> contains_text(spec_animation_xml(a, fps, numbers), tagged("y"@, text_or_empty(numbers[t][k][1]))),
        a.tracks[t].frames[k].transform.kx is Some ==> contains_text(spec_animation_xml(a, fps, numbers), tagged("kx"@, text_or_empty(numbers[t][k][2]))),
        a.tracks[t].frames[k].transform.ky is Some ==> contains_text(spec_animation_xml(a, fps, numbers), tagged("ky"@, text_or_empty(numbers[t][k][3]))),
        a.tracks[t].frames[k].transform.sx is Some ==> contains_text(spec_animation_xml(a, fps, numbers), tagged("sx"@, text_or_empty(numbers[t][k][4]))),
        a.tracks[t].frames[k].transform.sy is Some ==> contains_text(spec_animation_xml(a, fps, numbers), tagged("sy"@, text_or_empty(numbers[t][k][5]))),
        a.tracks[t].frames[k].transform.f is Some ==> contains_text(spec_animation_xml(a, fps, numbers), tagged("f"@, text_or_empty(numbers[t][k][6]))),
        a.tracks[t].frames[k].transform.a is Some ==> contains_text(spec_animation_xml(a, fps, numbers), tagged("a"@, text_or_empty(numbers[t][k][7]))),
{
    let tr = a.tracks[t].frames[k].transform;
    let nums = numbers[t][k];
    assert(numbers_fit(tr, nums));
    lemma_transform_xml_tags(tr, nums);
    if tr.x is Some {
        lemma_animation_holds(a, fps, numbers, t, k, tagged("x"@, text_or_empty(nums[0])));
    }
    if tr.y is Some {
        lemma_animation_holds(a, fps, numbers, t, k, tagged("y"@, text_or_empty(nums[1])));
    }
    if tr.kx is Some {
        lemma_animation_holds(a, fps, numbers, t, k, tagged("kx"@, text_or_empty(nums[2])));
    }
    if tr.ky is Some {
        lemma_animation_holds(a, fps, numbers, t, k, tagged("ky"@, text_or_empty(nums[3])));
    }
    if tr.sx is Some {
        lemma_animation_holds(a, fps, numbers, t, k, tagged("sx"@, text_or_empty(nums[4])));
    }
    if tr.sy is Some {
        lemma_animation_holds(a, fps, numbers, t, k, tagged("sy"@, text_or_empty(nums[5])));
    }
    if tr.f is Some {
        lemma_animation_holds(a, fps, numbers, t, k, tagged("f"@, text_or_empty(nums[6])));
    }
    if tr.a is Some {
        lemma_animation_holds(a, fps, numbers, t, k, tagged("a"@, text_or_empty(nums[7])));
    }
}

} // verus!
