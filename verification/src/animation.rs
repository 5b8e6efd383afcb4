//! Packed animations: tracks of key frames, each a list of actions, plus named frame ranges
//! ("meta" tracks) kept sorted by name.

use vstd::prelude::*;
use crate::bits::F32Bits;
use crate::cached::{Cached, EntryWithKey, SortedSlice, has_entry_with_key};
use crate::stream::views;
use crate::curve::{CurveDescriptor, KeyframeCurve};
use crate::clip::{AnimationClip, AnimationClipBuilder, EntityPath, TrackBuilder, curve_offset, has_path, label_entry, lemma_permuted_curves, path_lt, paths_ascending};

verus! {

/// 2D vectors.
pub type RawVec2 = [F32Bits; 2];

/// Model of an [`Element`]: its text and the raw names of its assets.
pub enum ElementView {
    /// Text element.
    Text { text: Seq<char>, font: Seq<char> },
    /// Image element.
    Image { image: Seq<char> },
}

/// Element on the stage. Only one element is allowed on a single frame.
#[derive(Debug)]
pub enum Element {
    /// Text element.
    Text {
        /// Text content to display. Characters not in the font are simply ignored.
        text: String,
        /// Font name, with the handle of the loaded font once known.
        font: Cached<String, u64>,
    },
    /// Image element.
    Image {
        /// Image name, with the handle of the loaded image once known.
        image: Cached<String, u64>,
    },
}

impl View for Element {
    type V = ElementView;

    open spec fn view(&self) -> ElementView {
        match self {
            Element::Text { text, font } => ElementView::Text { text: text@, font: font.raw_key@ },
            Element::Image { image } => ElementView::Image { image: image.raw_key@ },
        }
    }
}

/// A copy of a named asset with nothing cached.
fn copy_asset_name(c: &Cached<String, u64>) -> (r: Cached<String, u64>)
    ensures
        r.raw_key@ == c.raw_key@,
        r.cached == c.cached,
{
    Cached { raw_key: c.raw_key.clone(), cached: c.cached }
}

impl Clone for Element {
    fn clone(&self) -> (r: Element)
        ensures
            r@ == self@,
    {
        match self {
            Element::Text { text, font } => Element::Text { text: text.clone(), font: copy_asset_name(font) },
            Element::Image { image } => Element::Image { image: copy_asset_name(image) },
        }
    }
}

/// Model of an [`Action`].
pub enum ActionView {
    /// Load an element.
    LoadElement(ElementView),
    /// Change alpha.
    Alpha(F32Bits),
    /// Show or hide.
    Show(bool),
    /// Change the translation.
    Translation(F32Bits, F32Bits),
    /// Change the scaling.
    Scale(F32Bits, F32Bits),
    /// Change the rotation.
    Rotation(F32Bits, F32Bits),
}

/// Key frame action.
#[derive(Debug)]
pub enum Action {
    /// Load an element to replace the current one on the stage.
    LoadElement(Element),
    /// Change alpha (transparency).
    Alpha(F32Bits),
    /// Show or hide the element.
    Show(bool),
    /// Change the translation.
    Translation(RawVec2),
    /// Change the scaling.
    Scale(RawVec2),
    /// Change the rotation.
    Rotation(RawVec2),
}

impl View for Action {
    type V = ActionView;

    open spec fn view(&self) -> ActionView {
        match self {
            Action::LoadElement(e) => ActionView::LoadElement(e@),
            Action::Alpha(a) => ActionView::Alpha(*a),
            Action::Show(b) => ActionView::Show(*b),
            Action::Translation(v) => ActionView::Translation(v@[0], v@[1]),
            Action::Scale(v) => ActionView::Scale(v@[0], v@[1]),
            Action::Rotation(v) => ActionView::Rotation(v@[0], v@[1]),
        }
    }
}

impl Clone for Action {
    fn clone(&self) -> (r: Action)
        ensures
            r@ == self@,
    {
        match self {
            Action::LoadElement(e) => Action::LoadElement(e.clone()),
            Action::Alpha(a) => Action::Alpha(*a),
            Action::Show(b) => Action::Show(*b),
            Action::Translation(v) => Action::Translation([v[0], v[1]]),
            Action::Scale(v) => Action::Scale([v[0], v[1]]),
            Action::Rotation(v) => Action::Rotation([v[0], v[1]]),
        }
    }
}

/// The kind of an action: actions of the same kind override one another.
pub open spec fn action_kind(a: ActionView) -> int {
    match a {
        ActionView::LoadElement(_) => 0,
        ActionView::Alpha(_) => 1,
        ActionView::Show(_) => 2,
        ActionView::Translation(..) => 3,
        ActionView::Scale(..) => 4,
        ActionView::Rotation(..) => 5,
    }
}

/// Key frame: show and transform elements.
/// Transformations are applied sequentially in one frame.
#[derive(Debug)]
pub struct Frame(pub Vec<Action>);

impl View for Frame {
    type V = Seq<ActionView>;

    open spec fn view(&self) -> Seq<ActionView> {
        views(self.0@)
    }
}

/// Model of a [`Track`].
pub struct TrackView {
    /// Track name.
    pub name: Seq<char>,
    /// Actions of each frame.
    pub frames: Seq<Seq<ActionView>>,
}

/// A series of frames to play consecutively.
#[derive(Debug)]
pub struct Track {
    /// Track name for internal recognition.
    pub name: String,
    /// Frame list, grouped into segments internally.
    pub frames: Vec<Frame>,
}

impl View for Track {
    type V = TrackView;

    open spec fn view(&self) -> TrackView {
        TrackView { name: self.name@, frames: views(self.frames@) }
    }
}

/// Model of a [`Meta`].
pub struct MetaView {
    /// Name.
    pub name: Seq<char>,
    /// First frame, inclusive.
    pub start_frame: u16,
    /// Last frame, inclusive.
    pub end_frame: u16,
}

/// Meta data for animations.
#[derive(Debug)]
pub struct Meta {
    /// Name of this meta data.
    pub name: String,
    /// (inclusive) Start of the frame range this meta data covers.
    pub start_frame: u16,
    /// (inclusive) End of the frame range this meta data covers.
    pub end_frame: u16,
}

impl View for Meta {
    type V = MetaView;

    open spec fn view(&self) -> MetaView {
        MetaView { name: self.name@, start_frame: self.start_frame, end_frame: self.end_frame }
    }
}

impl EntryWithKey for Meta {
    open spec fn spec_key(&self) -> Option<Seq<char>> {
        Some(self.name@)
    }

    fn key(&self) -> (k: Option<&str>) {
        Some(self.name.as_str())
    }
}

/// Animations, originally in `.reanim` format.
#[derive(Debug)]
pub struct AnimDesc {
    /// Frames per second.
    pub fps: F32Bits,
    /// Meta data for this animation.
    pub meta: SortedSlice<Meta>,
    /// Animation tracks.
    pub tracks: Vec<Track>,
}

/// The raw names of all images that the given frames load, in order.
pub open spec fn frame_images(frames: Seq<Seq<ActionView>>) -> Seq<Seq<char>>
    decreases frames.len(),
{
    if frames.len() == 0 {
        Seq::empty()
    } else {
        frame_images(frames.drop_last()) + action_images(frames.last())
    }
}

/// The raw names of all images that the given actions load, in order.
pub open spec fn action_images(actions: Seq<ActionView>) -> Seq<Seq<char>>
    decreases actions.len(),
{
    if actions.len() == 0 {
        Seq::empty()
    } else {
        action_images(actions.drop_last()) + match actions.last() {
            ActionView::LoadElement(ElementView::Image { image }) => seq![image],
            _ => Seq::empty(),
        }
    }
}

/// The raw names of all images that the given tracks load, in order.
pub open spec fn track_images(tracks: Seq<TrackView>) -> Seq<Seq<char>>
    decreases tracks.len(),
{
    if tracks.len() == 0 {
        Seq::empty()
    } else {
        track_images(tracks.drop_last()) + frame_images(tracks.last().frames)
    }
}

/// Does some action among `acts` load the image `name`?
pub open spec fn actions_load_image(acts: Seq<ActionView>, name: Seq<char>) -> bool {
    exists|a: int| 0 <= a < acts.len() && #[trigger] acts[a] == ActionView::LoadElement(ElementView::Image { image: name })
}

/// Does some action of some frame among `frames` load the image `name`?
pub open spec fn frames_load_image(frames: Seq<Seq<ActionView>>, name: Seq<char>) -> bool {
    exists|f: int| 0 <= f < frames.len() && actions_load_image(#[trigger] frames[f], name)
}

/// Does some action of some frame of some track among `tracks` load the image `name`?
pub open spec fn tracks_load_image(tracks: Seq<TrackView>, name: Seq<char>) -> bool {
    exists|t: int| 0 <= t < tracks.len() && frames_load_image(#[trigger] tracks[t].frames, name)
}

/// Two sequences joined hold what either holds, and nothing else.
proof fn lemma_join_contains<A>(p: Seq<A>, q: Seq<A>, x: A)
    ensures
        (p + q).contains(x) <==> (p.contains(x) || q.contains(x)),
{
    if (p + q).contains(x) {
        let i = choose|i: int| 0 <= i < (p + q).len() && (p + q)[i] == x;
        if i < p.len() {
            assert(p[i] == (p + q)[i]);
        } else {
            assert(q[i - p.len()] == (p + q)[i]);
        }
    }
    if p.contains(x) {
        let i = choose|i: int| 0 <= i < p.len() && p[i] == x;
        assert((p + q)[i] == p[i]);
    }
    if q.contains(x) {
        let j = choose|j: int| 0 <= j < q.len() && q[j] == x;
        assert((p + q)[p.len() + j] == q[j]);
    }
}

/// The images of some actions are those that one of them loads.
proof fn lemma_action_images_loaded(acts: Seq<ActionView>, name: Seq<char>)
    ensures
        action_images(acts).contains(name) <==> actions_load_image(acts, name),
    decreases acts.len(),
{
    let load = ActionView::LoadElement(ElementView::Image { image: name });
    if acts.len() == 0 {
        assert(!action_images(acts).contains(name));
    } else {
        let init = acts.drop_last();
        let tail = match acts.last() {
            ActionView::LoadElement(ElementView::Image { image }) => seq![image],
            _ => Seq::empty(),
        };
        lemma_action_images_loaded(init, name);
        lemma_join_contains(action_images(init), tail, name);
        assert(action_images(acts) == action_images(init) + tail);
        if actions_load_image(acts, name) {
            let a = choose|a: int| 0 <= a < acts.len() && #[trigger] acts[a] == load;
            if a == acts.len() - 1 {
                assert(tail[0] == name);
            } else {
                assert(init[a] == acts[a]);
            }
        }
        if action_images(init).contains(name) {
            let a = choose|a: int| 0 <= a < init.len() && #[trigger] init[a] == load;
            assert(acts[a] == init[a]);
        }
        if tail.contains(name) {
            assert(acts[acts.len() - 1] == load);
        }
    }
}

/// The images of some frames are those that one of their actions loads.
proof fn lemma_frame_images_loaded(frames: Seq<Seq<ActionView>>, name: Seq<char>)
    ensures
        frame_images(frames).contains(name) <==> frames_load_image(frames, name),
    decreases frames.len(),
{
    if frames.len() == 0 {
        assert(!frame_images(frames).contains(name));
    } else {
        let init = frames.drop_last();
        let last = frames.last();
        lemma_frame_images_loaded(init, name);
        lemma_action_images_loaded(last, name);
        lemma_join_contains(frame_images(init), action_images(last), name);
        assert(frame_images(frames) == frame_images(init) + action_images(last));
        if frames_load_image(frames, name) {
            let f = choose|f: int| 0 <= f < frames.len() && actions_load_image(#[trigger] frames[f], name);
            if f < frames.len() - 1 {
                assert(init[f] == frames[f]);
            }
        }
        if frames_load_image(init, name) {
            let f = choose|f: int| 0 <= f < init.len() && actions_load_image(#[trigger] init[f], name);
            assert(frames[f] == init[f]);
        }
        if actions_load_image(last, name) {
            assert(frames[frames.len() - 1] == last);
        }
    }
}

/// The image files of some tracks are exactly the images that some action of some frame of
/// some track loads: every image loaded anywhere is listed, and nothing else is.
pub proof fn lemma_track_images_loaded(tracks: Seq<TrackView>, name: Seq<char>)
    ensures
        track_images(tracks).contains(name) <==> tracks_load_image(tracks, name),
    decreases tracks.len(),
{
    if tracks.len() == 0 {
        assert(!track_images(tracks).contains(name));
    } else {
        let init = tracks.drop_last();
        let last = tracks.last();
        lemma_track_images_loaded(init, name);
        lemma_frame_images_loaded(last.frames, name);
        lemma_join_contains(track_images(init), frame_images(last.frames), name);
        assert(track_images(tracks) == track_images(init) + frame_images(last.frames));
        if tracks_load_image(tracks, name) {
            let t = choose|t: int| 0 <= t < tracks.len() && frames_load_image(#[trigger] tracks[t].frames, name);
            if t < tracks.len() - 1 {
                assert(init[t] == tracks[t]);
            }
        }
        if tracks_load_image(init, name) {
            let t = choose|t: int| 0 <= t < init.len() && frames_load_image(#[trigger] init[t].frames, name);
            assert(tracks[t] == init[t]);
        }
        if frames_load_image(last.frames, name) {
            assert(tracks[tracks.len() - 1] == last);
        }
    }
}

impl AnimDesc {
    /// Names of all the image files in this animation, in order of appearance (with repeats).
    pub fn image_files(&self) -> (names: Vec<String>)
        ensures
            views(names@) == track_images(views(self.tracks@)),
    {
        let mut names: Vec<String> = Vec::new();
        let mut t: usize = 0;
        while t < self.tracks.len()
            invariant
                t <= self.tracks@.len(),
                views(names@) == track_images(views(self.tracks@).take(t as int)),
            decreases self.tracks@.len() - t,
        {
            let track = &self.tracks[t];
            let ghost before = views(names@);
            let mut f: usize = 0;
            while f < track.frames.len()
                invariant
                    f <= track.frames@.len(),
                    views(names@) == before + frame_images(views(track.frames@).take(f as int)),
                decreases track.frames@.len() - f,
            {
                let frame = &track.frames[f];
                let ghost before_frame = views(names@);
                let mut a: usize = 0;
                while a < frame.0.len()
                    invariant
                        a <= frame.0@.len(),
                        views(names@) == before_frame + action_images(views(frame.0@).take(a as int)),
                    decreases frame.0@.len() - a,
                {
                    let ghost prev = views(names@);
                    let ghost s1 = views(frame.0@).take(a + 1);
                    assert(s1.drop_last() =~= views(frame.0@).take(a as int));
                    assert(s1.last() == frame.0@[a as int]@);
                    if let Action::LoadElement(Element::Image { image }) = &frame.0[a] {
                        names.push(image.raw_key.clone());
                        assert(views(names@) =~= prev.push(image.raw_key@));
                        assert(action_images(s1) =~= action_images(s1.drop_last()) + seq![image.raw_key@]);
                    } else {
                        assert(views(names@) =~= prev);
                        assert(action_images(s1) =~= action_images(s1.drop_last()));
                    }
                    assert(views(names@) =~= before_frame + action_images(s1));
                    a = a + 1;
                }
                assert(views(frame.0@).take(a as int) =~= frame@);
                assert(views(track.frames@).take(f + 1).drop_last() =~= views(track.frames@).take(f as int));
                assert(views(names@) =~= before + frame_images(views(track.frames@).take(f + 1)));
                f = f + 1;
            }
            assert(views(track.frames@).take(f as int) =~= track@.frames);
            assert(views(self.tracks@).take(t + 1).drop_last() =~= views(self.tracks@).take(t as int));
            assert(views(names@) =~= track_images(views(self.tracks@).take(t + 1)));
            t = t + 1;
        }
        assert(views(self.tracks@).take(t as int) =~= views(self.tracks@));
        names
    }

    /// Get a meta track by name: its index among the meta tracks, and the meta track.
    pub fn get_meta(&self, name: &str) -> (r: Option<(usize, &Meta)>)
        ensures
            match r {
                Some((k, m)) => k < self.meta.entries().len() && *m == self.meta.entries()[k as int]
                    && m.name@ == name@,
                None => !has_entry_with_key(self.meta.entries(), Some(name@)),
            },
    {
        let k = self.meta.binary_search_by_key(Some(name))?;
        Some((k, &self.meta.as_slice()[k]))
    }
}

/// The last action of the given kind in a list of actions.
pub open spec fn last_of_kind(actions: Seq<ActionView>, kind: int) -> Option<ActionView>
    decreases actions.len(),
{
    if actions.len() == 0 {
        None
    } else if action_kind(actions.last()) == kind {
        Some(actions.last())
    } else {
        last_of_kind(actions.drop_last(), kind)
    }
}

/// The last action of the given kind over consecutive frames.
pub open spec fn last_in_frames(frames: Seq<Seq<ActionView>>, kind: int) -> Option<ActionView>
    decreases frames.len(),
{
    if frames.len() == 0 {
        None
    } else {
        match last_of_kind(frames.last(), kind) {
            Some(a) => Some(a),
            None => last_in_frames(frames.drop_last(), kind),
        }
    }
}

/// An optional action as a list of zero or one action.
pub open spec fn opt_seq(a: Option<ActionView>) -> Seq<ActionView> {
    match a {
        Some(x) => seq![x],
        None => Seq::empty(),
    }
}

/// The accumulated effect of consecutive frames: for each kind of action, the last one, if
/// any; in the order load, alpha, show, translation, scale, rotation.
pub open spec fn accumulated(frames: Seq<Seq<ActionView>>) -> Seq<ActionView> {
    opt_seq(last_in_frames(frames, 0)) + opt_seq(last_in_frames(frames, 1)) + opt_seq(last_in_frames(frames, 2))
        + opt_seq(last_in_frames(frames, 3)) + opt_seq(last_in_frames(frames, 4)) + opt_seq(
        last_in_frames(frames, 5),
    )
}

/// The kind of an action.
fn kind_of(a: &Action) -> (k: usize)
    ensures
        k == action_kind(a@),
{
    match a {
        Action::LoadElement(_) => 0,
        Action::Alpha(_) => 1,
        Action::Show(_) => 2,
        Action::Translation(_) => 3,
        Action::Scale(_) => 4,
        Action::Rotation(_) => 5,
    }
}

/// The action at a position, if there is a position.
pub open spec fn action_at(frames: Seq<Frame>, pos: Option<(usize, usize)>) -> Option<ActionView> {
    match pos {
        Some((f, a)) => Some(frames[f as int].0@[a as int]@),
        None => None,
    }
}

/// Is the position that of an action in the frames?
pub open spec fn valid_position(frames: Seq<Frame>, pos: Option<(usize, usize)>) -> bool {
    pos matches Some((f, a)) ==> f < frames.len() && a < frames[f as int].0@.len()
}

/// The later of two optional actions.
pub open spec fn later(earlier: Option<ActionView>, latest: Option<ActionView>) -> Option<ActionView> {
    if latest is Some {
        latest
    } else {
        earlier
    }
}

/// Animation and its description (the playable clip is built from it by the engine).
#[derive(Debug)]
pub struct Animation {
    /// the animation description.
    pub description: AnimDesc,
}

impl Animation {
    /// Accumulate the actions until some frame (inclusive): for each kind of action, the last
    /// one in frames `0..=k`.
    pub fn accumulated_frame_to(&self, track: &Track, k: usize) -> (r: Frame)
        requires
            k < track.frames@.len(),
        ensures
            r@ == accumulated(track@.frames.take(k + 1)),
    {
        let ghost frames = track@.frames;
        let n: usize = track.frames.len();
        let mut last: Vec<Option<(usize, usize)>> = vec![None, None, None, None, None, None];
        let mut f: usize = 0;
        while f <= k
            invariant
                k < n,
                n == track.frames@.len(),
                frames == track@.frames,
                f <= k + 1,
                last@.len() == 6,
                forall|j: int| 0 <= j < 6 ==> valid_position(track.frames@, #[trigger] last@[j]),
                forall|j: int| 0 <= j < 6 ==> action_at(track.frames@, #[trigger] last@[j]) == last_in_frames(frames.take(f as int), j),
            decreases k + 1 - f,
        {
            let actions = &track.frames[f].0;
            let mut a: usize = 0;
            while a < actions.len()
                invariant
                    f <= k < track.frames@.len(),
                    frames == track@.frames,
                    *actions == track.frames@[f as int].0,
                    a <= actions@.len(),
                    last@.len() == 6,
                    forall|j: int| 0 <= j < 6 ==> valid_position(track.frames@, #[trigger] last@[j]),
                    forall|j: int| 0 <= j < 6 ==> action_at(track.frames@, #[trigger] last@[j]) == later(
                        last_in_frames(frames.take(f as int), j),
                        last_of_kind(views(actions@).take(a as int), j),
                    ),
                decreases actions@.len() - a,
            {
                let kind = kind_of(&actions[a]);
                last.set(kind, Some((f, a)));
                proof {
                    let acts = views(actions@);
                    assert(acts.take(a + 1).drop_last() =~= acts.take(a as int));
                    assert(acts.take(a + 1).last() == actions@[a as int]@);
                    assert forall|j: int| 0 <= j < 6 implies action_at(track.frames@, #[trigger] last@[j]) == later(
                        last_in_frames(frames.take(f as int), j),
                        last_of_kind(acts.take(a + 1), j),
                    ) by {}
                }
                a = a + 1;
            }
            proof {
                let acts = views(actions@);
                assert(acts.take(a as int) =~= acts);
                assert(frames.take(f + 1).drop_last() =~= frames.take(f as int));
                assert(frames.take(f + 1).last() == acts);
            }
            f = f + 1;
        }
        let mut out: Vec<Action> = Vec::new();
        let mut j: usize = 0;
        while j < 6
            invariant
                last@.len() == 6,
                f == k + 1,
                frames == track@.frames,
                j <= 6,
                forall|i: int| 0 <= i < 6 ==> valid_position(track.frames@, #[trigger] last@[i]),
                forall|i: int| 0 <= i < 6 ==> action_at(track.frames@, #[trigger] last@[i]) == last_in_frames(frames.take(f as int), i),
                views(out@) == if j == 0 {
                    Seq::empty()
                } else {
                    opt_seq(last_in_frames(frames.take(f as int), 0))
                } + if j <= 1 {
                    Seq::empty()
                } else {
                    opt_seq(last_in_frames(frames.take(f as int), 1))
                } + if j <= 2 {
                    Seq::empty()
                } else {
                    opt_seq(last_in_frames(frames.take(f as int), 2))
                } + if j <= 3 {
                    Seq::empty()
                } else {
                    opt_seq(last_in_frames(frames.take(f as int), 3))
                } + if j <= 4 {
                    Seq::empty()
                } else {
                    opt_seq(last_in_frames(frames.take(f as int), 4))
                } + if j <= 5 {
                    Seq::empty()
                } else {
                    opt_seq(last_in_frames(frames.take(f as int), 5))
                },
            decreases 6 - j,
        {
            let ghost before = views(out@);
            if let Some((fi, ai)) = last[j] {
                out.push(track.frames[fi].0[ai].clone());
                assert(views(out@) =~= before + seq![track.frames@[fi as int].0@[ai as int]@]);
            } else {
                assert(views(out@) =~= before + Seq::<ActionView>::empty());
            }
            j = j + 1;
        }
        Frame(out)
    }
}

/// Value of a keyframe: what an action sets, in the form the engine animates it.
#[derive(Debug, Clone, Copy)]
pub enum KeyframeValue {
    /// The image to show, by its handle.
    Image(u64),
    /// Alpha (transparency).
    Alpha(F32Bits),
    /// Is the element visible?
    Visible(bool),
    /// A 2D vector: translation, scaling or rotation.
    Vector(RawVec2),
}

/// Can the action go into an animation clip: it loads no text, and the handle of an image it
/// loads is known.
pub open spec fn clip_ready(a: Action) -> bool {
    match a {
        Action::LoadElement(Element::Text { .. }) => false,
        Action::LoadElement(Element::Image { image }) => image.cached is Some,
        _ => true,
    }
}

/// The keyframe value of an action (for an action that can go into a clip).
pub open spec fn keyframe_value(a: Action) -> KeyframeValue {
    match a {
        Action::LoadElement(Element::Image { image }) => match image.cached {
            Some(h) => KeyframeValue::Image(h),
            None => KeyframeValue::Image(0),
        },
        Action::LoadElement(Element::Text { .. }) => KeyframeValue::Image(0),
        Action::Alpha(a) => KeyframeValue::Alpha(a),
        Action::Show(b) => KeyframeValue::Visible(b),
        Action::Translation(v) => KeyframeValue::Vector(v),
        Action::Scale(v) => KeyframeValue::Vector(v),
        Action::Rotation(v) => KeyframeValue::Vector(v),
    }
}

/// The component type animated by the curve for each kind of action: the image, the colour,
/// the visibility, or the 2D transform (which translation, scaling and rotation share).
pub open spec fn kind_component(kind: int) -> u64 {
    if kind <= 0 {
        0
    } else if kind == 1 {
        1
    } else if kind == 2 {
        2
    } else {
        3
    }
}

/// The keyframes that actions of one kind in a frame give: the frame index with each value.
pub open spec fn action_keyframes(actions: Seq<Action>, kind: int, frame: u16) -> Seq<(u16, KeyframeValue)>
    decreases actions.len(),
{
    if actions.len() == 0 {
        Seq::empty()
    } else {
        action_keyframes(actions.drop_last(), kind, frame) + if action_kind(actions.last()@) == kind {
            seq![(frame, keyframe_value(actions.last()))]
        } else {
            Seq::empty()
        }
    }
}

/// The keyframes that actions of one kind give over consecutive frames (indexed from 0, as
/// `u16`s).
pub open spec fn kind_keyframes(frames: Seq<Seq<Action>>, kind: int) -> Seq<(u16, KeyframeValue)>
    decreases frames.len(),
{
    if frames.len() == 0 {
        Seq::empty()
    } else {
        kind_keyframes(frames.drop_last(), kind) + action_keyframes(frames.last(), kind, (frames.len() - 1) as u16)
    }
}

/// The curve that the actions of one kind give over consecutive frames, as its frame indices
/// and keyframe values: none where no action is of that kind.
pub open spec fn kind_curve(frames: Seq<Seq<Action>>, kind: int) -> Option<(Seq<u16>, Seq<KeyframeValue>)> {
    let ks = kind_keyframes(frames, kind);
    if ks.len() == 0 {
        None
    } else {
        Some((ks.map_values(|p: (u16, KeyframeValue)| p.0), ks.map_values(|p: (u16, KeyframeValue)| p.1)))
    }
}

/// Is the curve for a kind (descriptor, frame indices, keyframes) the one that the frames give?
pub open spec fn curve_for_kind(
    curve: Option<(CurveDescriptor, Seq<u16>, Seq<KeyframeValue>)>,
    kind: int,
    frames: Seq<Seq<Action>>,
) -> bool {
    match kind_curve(frames, kind) {
        None => curve is None,
        Some((ix, vs)) => curve matches Some((d, ix2, vs2)) && d.spec_component_type_id() == kind_component(kind)
            && ix2 == ix && vs2 == vs,
    }
}

/// The actions of each frame.
pub open spec fn frame_actions(frames: Seq<Frame>) -> Seq<Seq<Action>> {
    frames.map_values(|f: Frame| f.0@)
}

/// Are the curves of a track those its frames give: each curve is the one for the kind that is
/// its field, every kind with keyframes has a curve, and no two curves share a field.
pub open spec fn track_curves(curves: Seq<(CurveDescriptor, KeyframeCurve<u64, KeyframeValue>)>, frames: Seq<Seq<Action>>) -> bool {
    &&& forall|j: int| 0 <= j < curves.len() ==> {
        let (d, c) = #[trigger] curves[j];
        curve_for_kind(Some((d, c.spec_indices(), c.spec_keyframes())), c.spec_field() as int, frames)
    }
    &&& forall|l: u64| #[trigger] kind_curve(frames, l as int) is Some ==> exists|j: int|
        0 <= j < curves.len() && (#[trigger] curves[j]).1.spec_field() == l
    &&& forall|j: int, k: int| 0 <= j < k < curves.len() ==> (#[trigger] curves[j]).1.spec_field() != (#[trigger] curves[k]).1.spec_field()
}

/// Does the curve that the frames give for a kind have a keyframe at frame `f` (as a `u16`)
/// with the given value?
pub open spec fn has_keyframe(frames: Seq<Seq<Action>>, kind: int, f: int, value: KeyframeValue) -> bool {
    match kind_curve(frames, kind) {
        Some((ix, vs)) => exists|j: int| 0 <= j < ix.len() && ix[j] == f as u16 && #[trigger] vs[j] == value,
        None => false,
    }
}

/// An action of a frame gives a keyframe of its kind at that frame.
proof fn lemma_action_keyframe(acts: Seq<Action>, kind: int, fr: u16, a: int)
    requires
        0 <= a < acts.len(),
        action_kind(acts[a]@) == kind,
    ensures
        exists|i: int| 0 <= i < action_keyframes(acts, kind, fr).len()
            && #[trigger] action_keyframes(acts, kind, fr)[i] == (fr, keyframe_value(acts[a])),
    decreases acts.len(),
{
    let ks = action_keyframes(acts, kind, fr);
    if a == acts.len() - 1 {
        let i = action_keyframes(acts.drop_last(), kind, fr).len() as int;
        assert(ks[i] == (fr, keyframe_value(acts[a])));
    } else {
        lemma_action_keyframe(acts.drop_last(), kind, fr, a);
        let i = choose|i: int| 0 <= i < action_keyframes(acts.drop_last(), kind, fr).len()
            && #[trigger] action_keyframes(acts.drop_last(), kind, fr)[i] == (fr, keyframe_value(acts.drop_last()[a]));
        assert(ks[i] == action_keyframes(acts.drop_last(), kind, fr)[i]);
    }
}

/// An action in any frame gives a keyframe of its kind at that frame.
proof fn lemma_frame_keyframe(frames: Seq<Seq<Action>>, kind: int, f: int, a: int)
    requires
        0 <= f < frames.len(),
        0 <= a < frames[f].len(),
        action_kind(frames[f][a]@) == kind,
    ensures
        exists|i: int| 0 <= i < kind_keyframes(frames, kind).len()
            && #[trigger] kind_keyframes(frames, kind)[i] == (f as u16, keyframe_value(frames[f][a])),
    decreases frames.len(),
{
    let ks = kind_keyframes(frames, kind);
    let prefix = kind_keyframes(frames.drop_last(), kind);
    if f == frames.len() - 1 {
        lemma_action_keyframe(frames[f], kind, f as u16, a);
        let i = choose|i: int| 0 <= i < action_keyframes(frames[f], kind, f as u16).len()
            && #[trigger] action_keyframes(frames[f], kind, f as u16)[i] == (f as u16, keyframe_value(frames[f][a]));
        assert(frames.last() == frames[f]);
        assert(ks[prefix.len() + i] == (f as u16, keyframe_value(frames[f][a])));
    } else {
        lemma_frame_keyframe(frames.drop_last(), kind, f, a);
        let i = choose|i: int| 0 <= i < prefix.len()
            && #[trigger] prefix[i] == (f as u16, keyframe_value(frames.drop_last()[f][a]));
        assert(ks[i] == prefix[i]);
    }
}

/// Every action in a frame `f` gives, in the clip's curve for its kind, a keyframe at `f` that
/// carries the action's value unchanged: a translation, scale or rotation its vector, an alpha
/// its alpha, a show its visibility, and an image load the image's handle.
pub proof fn lemma_clip_keyframe_values(frames: Seq<Seq<Action>>, f: int, a: int)
    requires
        0 <= f < frames.len(),
        0 <= a < frames[f].len(),
    ensures
        match frames[f][a] {
            Action::Translation(v) => has_keyframe(frames, 3, f, KeyframeValue::Vector(v)),
            Action::Scale(v) => has_keyframe(frames, 4, f, KeyframeValue::Vector(v)),
            Action::Rotation(v) => has_keyframe(frames, 5, f, KeyframeValue::Vector(v)),
            Action::Alpha(x) => has_keyframe(frames, 1, f, KeyframeValue::Alpha(x)),
            Action::Show(b) => has_keyframe(frames, 2, f, KeyframeValue::Visible(b)),
            Action::LoadElement(Element::Image { image }) => image.cached matches Some(h) ==> has_keyframe(
                frames,
                0,
                f,
                KeyframeValue::Image(h),
            ),
            Action::LoadElement(Element::Text { .. }) => true,
        },
{
    let kind = action_kind(frames[f][a]@);
    lemma_frame_keyframe(frames, kind, f, a);
    let ks = kind_keyframes(frames, kind);
    let i = choose|i: int| 0 <= i < ks.len() && #[trigger] ks[i] == (f as u16, keyframe_value(frames[f][a]));
    let ix = ks.map_values(|p: (u16, KeyframeValue)| p.0);
    let vs = ks.map_values(|p: (u16, KeyframeValue)| p.1);
    assert(ix[i] == f as u16);
    assert(vs[i] == keyframe_value(frames[f][a]));
    assert(kind_curve(frames, kind) == Some((ix, vs)));
    let c = kind_curve(frames, kind);
    assert(c == Some((ix, vs)));
    let (cix, cvs) = c.unwrap();
    assert(cix[i] == f as u16 && cvs[i] == keyframe_value(frames[f][a]));
    assert(has_keyframe(frames, kind, f, keyframe_value(frames[f][a])));
    match frames[f][a] {
        Action::Translation(v) => {
            assert(kind == 3);
            assert(keyframe_value(frames[f][a]) == KeyframeValue::Vector(v));
        },
        Action::Scale(v) => {
            assert(kind == 4);
            assert(keyframe_value(frames[f][a]) == KeyframeValue::Vector(v));
        },
        Action::Rotation(v) => {
            assert(kind == 5);
            assert(keyframe_value(frames[f][a]) == KeyframeValue::Vector(v));
        },
        Action::Alpha(x) => {
            assert(kind == 1);
        },
        Action::Show(b) => {
            assert(kind == 2);
        },
        Action::LoadElement(e) => {
            assert(kind == 0);
        },
    }
}

/// The keyframe value of an action.
fn keyframe_of(a: &Action) -> (v: KeyframeValue)
    requires
        clip_ready(*a),
    ensures
        v == keyframe_value(*a),
{
    match a {
        Action::LoadElement(Element::Image { image }) => KeyframeValue::Image(image.cached.unwrap()),
        Action::LoadElement(Element::Text { .. }) => KeyframeValue::Image(0),
        Action::Alpha(x) => KeyframeValue::Alpha(*x),
        Action::Show(b) => KeyframeValue::Visible(*b),
        Action::Translation(v) => KeyframeValue::Vector(*v),
        Action::Scale(v) => KeyframeValue::Vector(*v),
        Action::Rotation(v) => KeyframeValue::Vector(*v),
    }
}

/// The descriptor of the curve for a kind of action.
fn kind_descriptor(kind: usize) -> (d: CurveDescriptor)
    ensures
        d.spec_component_type_id() == kind_component(kind as int),
{
    if kind == 0 {
        CurveDescriptor::new(0)
    } else if kind == 1 {
        CurveDescriptor::new(1)
    } else if kind == 2 {
        CurveDescriptor::new(2)
    } else {
        CurveDescriptor::new(3)
    }
}

/// Push the actions of frame `k` into the track's curves, each action into the curve for its
/// kind.
fn push_frame(builder: &mut TrackBuilder<KeyframeValue>, k: usize, frame: &Frame, Ghost(before): Ghost<Seq<Seq<Action>>>)
    requires
        before.len() == k,
        forall|a: int| 0 <= a < frame.0@.len() ==> clip_ready(#[trigger] frame.0@[a]),
        forall|l: u64| curve_for_kind(#[trigger] label_entry(old(builder).entries(), l), l as int, before),
    ensures
        forall|l: u64| curve_for_kind(#[trigger] label_entry(final(builder).entries(), l), l as int, before.push(frame.0@)),
{
    let actions = &frame.0;
    proof {
        assert forall|l: u64| curve_for_kind(#[trigger] label_entry(builder.entries(), l), l as int, before.push(actions@.take(0))) by {
            let fs = before.push(actions@.take(0));
            assert(fs.drop_last() =~= before);
            assert(action_keyframes(actions@.take(0), l as int, k as u16) =~= Seq::<(u16, KeyframeValue)>::empty());
            assert(kind_keyframes(fs, l as int) =~= kind_keyframes(before, l as int));
        }
    }
    let mut a: usize = 0;
    while a < actions.len()
        invariant
            *actions == frame.0,
            a <= actions@.len(),
            before.len() == k,
            forall|i: int| 0 <= i < actions@.len() ==> clip_ready(#[trigger] actions@[i]),
            forall|l: u64| curve_for_kind(#[trigger] label_entry(builder.entries(), l), l as int, before.push(actions@.take(a as int))),
        decreases actions@.len() - a,
    {
        let action = &actions[a];
        let kind = kind_of(action);
        let value = keyframe_of(action);
        let ghost old_entries = builder.entries();
        builder.push_keyframe(kind as u64, kind_descriptor(kind), k, value);
        proof {
            let p = before.push(actions@.take(a as int));
            let q = before.push(actions@.take(a + 1));
            assert(p.drop_last() =~= before);
            assert(q.drop_last() =~= before);
            assert(actions@.take(a + 1).drop_last() =~= actions@.take(a as int));
            assert(actions@.take(a + 1).last() == *action);
            assert((q.len() - 1) as u16 == k as u16);
            assert((p.len() - 1) as u16 == k as u16);
            assert forall|l: u64| curve_for_kind(#[trigger] label_entry(builder.entries(), l), l as int, q) by {
                let kp = kind_keyframes(p, l as int);
                let kq = kind_keyframes(q, l as int);
                if l as int == kind as int {
                    assert(kq =~= kp.push((k as u16, value)));
                    let ixp = kp.map_values(|x: (u16, KeyframeValue)| x.0);
                    let vsp = kp.map_values(|x: (u16, KeyframeValue)| x.1);
                    assert(kq.map_values(|x: (u16, KeyframeValue)| x.0) =~= ixp.push(k as u16));
                    assert(kq.map_values(|x: (u16, KeyframeValue)| x.1) =~= vsp.push(value));
                    assert(curve_for_kind(label_entry(old_entries, l), l as int, p));
                    match label_entry(old_entries, l) {
                        Some((d, ix, vs)) => {
                            assert(ix == ixp && vs == vsp);
                        },
                        None => {
                            assert(kp.len() == 0);
                            assert(ixp.push(k as u16) =~= seq![k as u16]);
                            assert(vsp.push(value) =~= seq![value]);
                        },
                    }
                } else {
                    assert(kq =~= kp);
                    assert(label_entry(builder.entries(), l) == label_entry(old_entries, l));
                }
            }
        }
        a = a + 1;
    }
    proof {
        assert(actions@.take(a as int) =~= frame.0@);
    }
}

impl Animation {
    /// Animation clip: for each track, the entity path of its name, with one keyframe curve for
    /// each kind of action in its frames (the field accessor of a curve is its kind, as numbered
    /// by [`action_kind`]); see [`AnimationClipBuilder::build`] for the layout.
    pub fn clip(&self) -> (clip: AnimationClip<KeyframeCurve<u64, KeyframeValue>>)
        requires
            forall|t: int, f: int, a: int| 0 <= t < self.description.tracks@.len()
                && 0 <= f < self.description.tracks@[t].frames@.len()
                && 0 <= a < self.description.tracks@[t].frames@[f].0@.len()
                ==> clip_ready(#[trigger] self.description.tracks@[t].frames@[f].0@[a]),
            forall|t: int, u: int| 0 <= t < u < self.description.tracks@.len()
                ==> (#[trigger] self.description.tracks@[t]).name@ != (#[trigger] self.description.tracks@[u]).name@,
        ensures
            clip.spec_ranges().len() == self.description.tracks@.len(),
            forall|i: int, j: int| 0 <= i < j < clip.spec_ranges().len()
                ==> path_lt((#[trigger] clip.spec_ranges()[i]).0, (#[trigger] clip.spec_ranges()[j]).0),
            forall|i: int| 0 <= i < clip.spec_ranges().len() ==> exists|t: int| 0 <= t < self.description.tracks@.len()
                && (#[trigger] clip.spec_ranges()[i]).0 == seq![self.description.tracks@[t].name@]
                && (clip.spec_curves().len() <= u16::MAX ==> track_curves(
                    clip.spec_curves().subrange(clip.spec_ranges()[i].1 as int, clip.spec_ranges()[i].2 as int),
                    frame_actions(self.description.tracks@[t].frames@),
                )),
            clip.spec_curves().len() <= u16::MAX ==> clip.wf(),
    {
        let tracks = &self.description.tracks;
        let mut clip_builder: AnimationClipBuilder<KeyframeCurve<u64, KeyframeValue>> = AnimationClip::builder();
        let mut t: usize = 0;
        while t < tracks.len()
            invariant
                *tracks == self.description.tracks,
                t <= tracks@.len(),
                forall|t: int, f: int, a: int| 0 <= t < tracks@.len() && 0 <= f < tracks@[t].frames@.len()
                    && 0 <= a < tracks@[t].frames@[f].0@.len() ==> clip_ready(#[trigger] tracks@[t].frames@[f].0@[a]),
                forall|t: int, u: int| 0 <= t < u < tracks@.len() ==> (#[trigger] tracks@[t]).name@ != (#[trigger] tracks@[u]).name@,
                clip_builder.entries().len() == t,
                paths_ascending(clip_builder.entries()),
                forall|i: int| 0 <= i < clip_builder.entries().len() ==> exists|u: int| 0 <= u < t
                    && (#[trigger] clip_builder.entries()[i]).0 == seq![tracks@[u].name@]
                    && ascending_fields(clip_builder.entries()[i].1)
                    && track_curves(clip_builder.entries()[i].1, frame_actions(tracks@[u].frames@)),
            decreases tracks@.len() - t,
        {
            let track = &tracks[t];
            let mut builder: TrackBuilder<KeyframeValue> = TrackBuilder::new();
            let mut k: usize = 0;
            proof {
                assert forall|l: u64| curve_for_kind(#[trigger] label_entry(builder.entries(), l), l as int, frame_actions(track.frames@).take(0)) by {
                    assert(kind_keyframes(frame_actions(track.frames@).take(0), l as int) =~= Seq::<(u16, KeyframeValue)>::empty());
                }
            }
            while k < track.frames.len()
                invariant
                    *track == tracks@[t as int],
                    t < tracks@.len(),
                    k <= track.frames@.len(),
                    forall|f: int, a: int| 0 <= f < track.frames@.len() && 0 <= a < track.frames@[f].0@.len()
                        ==> clip_ready(#[trigger] track.frames@[f].0@[a]),
                    forall|l: u64| curve_for_kind(#[trigger] label_entry(builder.entries(), l), l as int, frame_actions(track.frames@).take(k as int)),
                decreases track.frames@.len() - k,
            {
                let ghost before = frame_actions(track.frames@).take(k as int);
                push_frame(&mut builder, k, &track.frames[k], Ghost(before));
                assert(before.push(track.frames@[k as int].0@) =~= frame_actions(track.frames@).take(k + 1));
                k = k + 1;
            }
            let ghost fs = frame_actions(track.frames@);
            assert(fs.take(k as int) =~= fs);
            let ghost track_entries = builder.entries();
            let curves = builder.finish();
            let ghost cs = curves.0@;
            proof {
                assert forall|j: int| 0 <= j < cs.len() implies {
                    let (d, c) = #[trigger] cs[j];
                    curve_for_kind(Some((d, c.spec_indices(), c.spec_keyframes())), c.spec_field() as int, fs)
                } by {
                    let (d, c) = cs[j];
                    assert(curve_for_kind(label_entry(track_entries, c.spec_field()), c.spec_field() as int, fs));
                }
                assert forall|l: u64| #[trigger] kind_curve(fs, l as int) is Some implies exists|j: int|
                    0 <= j < cs.len() && (#[trigger] cs[j]).1.spec_field() == l by {
                    assert(curve_for_kind(label_entry(track_entries, l), l as int, fs));
                }
            }
            let path = EntityPath(vec![track.name.clone()]);
            let ghost path_view = path@;
            proof {
                assert(path_view =~= seq![track.name@]);
                if has_path(clip_builder.entries(), path_view) {
                    let i = choose|i: int| 0 <= i < clip_builder.entries().len() && (#[trigger] clip_builder.entries()[i]).0 == path_view;
                    let u = choose|u: int| 0 <= u < t && (#[trigger] clip_builder.entries()[i]).0 == seq![tracks@[u].name@]
                        && ascending_fields(clip_builder.entries()[i].1)
                        && track_curves(clip_builder.entries()[i].1, frame_actions(tracks@[u].frames@));
                    assert(seq![tracks@[u].name@][0] == seq![track.name@][0]);
                    assert(tracks@[u].name@ != tracks@[t as int].name@);
                }
            }
            let ghost old_entries = clip_builder.entries();
            clip_builder.add_track(path, curves);
            proof {
                let e = clip_builder.entries();
                let n = (path_view, cs);
                let ins = choose|i: int| 0 <= i <= old_entries.len() && e == #[trigger] old_entries.insert(i, n);
                assert forall|i: int| 0 <= i < e.len() implies exists|u: int| 0 <= u < t + 1
                    && (#[trigger] e[i]).0 == seq![tracks@[u].name@]
                    && ascending_fields(e[i].1)
                    && track_curves(e[i].1, frame_actions(tracks@[u].frames@)) by {
                    if i < ins {
                        assert(e[i] == old_entries[i]);
                    } else if i == ins {
                        assert(e[i] == n);
                        assert(ascending_fields(cs));
                    } else {
                        assert(e[i] == old_entries[i - 1]);
                    }
                }
            }
            t = t + 1;
        }
        let ghost entries = clip_builder.entries();
        let clip = clip_builder.build();
        proof {
            let r = clip.spec_ranges();
            assert forall|i: int, j: int| 0 <= i < j < r.len() implies path_lt((#[trigger] r[i]).0, (#[trigger] r[j]).0) by {
                assert(r[i].0 == entries[i].0 && r[j].0 == entries[j].0);
            }
            assert forall|i: int| 0 <= i < r.len() implies exists|u: int| 0 <= u < tracks@.len()
                && (#[trigger] r[i]).0 == seq![tracks@[u].name@]
                && (clip.spec_curves().len() <= u16::MAX ==> track_curves(
                    clip.spec_curves().subrange(r[i].1 as int, r[i].2 as int),
                    frame_actions(tracks@[u].frames@),
                )) by {
                let u = choose|u: int| 0 <= u < t && (#[trigger] entries[i]).0 == seq![tracks@[u].name@]
                    && ascending_fields(entries[i].1)
                    && track_curves(entries[i].1, frame_actions(tracks@[u].frames@));
                assert(r[i].0 == entries[i].0);
                if clip.spec_curves().len() <= u16::MAX {
                    let part = clip.spec_curves().subrange(curve_offset(entries, i), curve_offset(entries, i + 1));
                    assert(clip.spec_curves().subrange(r[i].1 as int, r[i].2 as int) == part);
                    let src = entries[i].1;
                    lemma_permuted_curves(part, src);
                    let fs = frame_actions(tracks@[u].frames@);
                    assert forall|j: int| 0 <= j < part.len() implies {
                        let (d, c) = #[trigger] part[j];
                        curve_for_kind(Some((d, c.spec_indices(), c.spec_keyframes())), c.spec_field() as int, fs)
                    } by {
                        assert(src.contains(part[j]));
                        let a = choose|a: int| 0 <= a < src.len() && src[a] == part[j];
                        assert(src[a] == part[j]);
                    }
                    assert forall|l: u64| #[trigger] kind_curve(fs, l as int) is Some implies exists|j: int|
                        0 <= j < part.len() && (#[trigger] part[j]).1.spec_field() == l by {
                        let a = choose|a: int| 0 <= a < src.len() && (#[trigger] src[a]).1.spec_field() == l;
                        assert(part.contains(src[a]));
                        let j = choose|j: int| 0 <= j < part.len() && part[j] == src[a];
                        assert(part[j].1.spec_field() == l);
                    }
                }
            }
        }
        clip
    }
}

/// Are the curves in strictly ascending order of their fields?
pub open spec fn ascending_fields(curves: Seq<(CurveDescriptor, KeyframeCurve<u64, KeyframeValue>)>) -> bool {
    forall|j: int, k: int| 0 <= j < k < curves.len() ==> (#[trigger] curves[j]).1.spec_field() < (#[trigger] curves[k]).1.spec_field()
}

} // verus!
