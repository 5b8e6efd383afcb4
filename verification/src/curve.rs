//! Segments of animation curves, keyframe curves and their builder, and the binding of curves
//! to entities.

use vstd::prelude::*;
use crate::animation::Meta;
use crate::ecs::Entity;
use std::marker::PhantomData;

verus! {

/// A segment in a curve.
#[derive(Debug, Clone, Copy, PartialEq, Eq, Structural)]
pub struct Segment {
    /// Index of the first frame, inclusive.
    pub start: u16,
    /// Index of the last frame, inclusive.
    ///
    /// **Note:** by "inclusive", we mean `end` as frame index points to the last frame in this
    /// segment (i.e., it is _not_ the off-by-one index). But when playing the animation, since
    /// this is actually the last keyframe, animation ends immediately after reaching this frame
    /// (for non-repeating animations), or wrap back to the first frame (for repeating animations).
    pub end: u16,
}

impl Segment {
    /// Number of frames in this segment.
    pub fn len(self) -> (n: u16)
        requires
            self.start <= self.end,
        ensures
            n == self.end - self.start,
    {
        self.end - self.start
    }

    /// Number of frames in this segment, if looping.
    pub fn len_looping(self) -> (n: u16)
        requires
            self.start <= self.end,
            self.end - self.start < u16::MAX,
        ensures
            n == self.end - self.start + 1,
    {
        self.len() + 1
    }

    /// The segment that a meta track covers.
    pub fn from(meta: &Meta) -> (s: Segment)
        ensures
            s.start == meta.start_frame,
            s.end == meta.end_frame,
    {
        Segment { start: meta.start_frame, end: meta.end_frame }
    }
}

/// Information about a curve binding: the player entity, and a contiguous range of its clip's
/// curves, `curve_index_start..curve_index_end`.
#[derive(Debug, Clone, Copy, PartialEq, Eq, Structural)]
pub struct CurveBindingInfo {
    /// The entity with the animation player.
    pub player_entity: Entity,
    /// Index of the first curve (it is unthinkable to have more than 65536 curves).
    pub curve_index_start: u16,
    /// Index after the last curve.
    pub curve_index_end: u16,
}

/// Bind a contiguous range of curves (on the same component) to some entity.
#[derive(Debug)]
pub struct CurveBinding<C> {
    /// Information about this binding.
    pub info: CurveBindingInfo,
    _marker: PhantomData<C>,
}

impl<C> CurveBinding<C> {
    /// The binding information.
    pub closed spec fn spec_info(self) -> CurveBindingInfo {
        self.info
    }

    /// Create a new curve binding with specified information.
    pub fn new(info: CurveBindingInfo) -> (b: Self)
        ensures
            b.spec_info() == info,
    {
        CurveBinding { info, _marker: PhantomData }
    }
}

/// Descriptor for the curves: the component type that they animate.
/// Different curves for the same component share the same descriptor.
#[derive(Debug, Clone, Copy, PartialEq, Eq, Structural)]
pub struct CurveDescriptor {
    component_type_id: u64,
}

impl CurveDescriptor {
    /// Identifier of the component type.
    pub closed spec fn spec_component_type_id(self) -> u64 {
        self.component_type_id
    }

    /// Create a new curve descriptor for the component type with the given identifier.
    pub fn new(component_type_id: u64) -> (d: CurveDescriptor)
        ensures
            d.spec_component_type_id() == component_type_id,
    {
        CurveDescriptor { component_type_id }
    }

    /// Two descriptors are the same exactly when their component type identifiers are.
    pub proof fn lemma_eq_by_component(self, other: CurveDescriptor)
        ensures
            (self == other) <==> (self.spec_component_type_id() == other.spec_component_type_id()),
    {
    }

    /// Get the target component type id for verification.
    pub fn component_type_id(&self) -> (id: u64)
        ensures
            id == self.spec_component_type_id(),
    {
        self.component_type_id
    }

    /// Do the two descriptors describe the same component type?
    pub fn same_as(&self, other: &CurveDescriptor) -> (r: bool)
        ensures
            r == (*self == *other),
    {
        self.component_type_id == other.component_type_id
    }
}

/// Are the bindings the maximal runs of equal descriptors among the curves `start..end`, in
/// order, each bound to the player?
pub open spec fn are_runs_of(
    bindings: Seq<(CurveDescriptor, CurveBindingInfo)>,
    descriptors: Seq<CurveDescriptor>,
    start: int,
    end: int,
    player: Entity,
) -> bool {
    &&& start == end <==> bindings.len() == 0
    &&& bindings.len() > 0 ==> bindings[0].1.curve_index_start == start && bindings.last().1.curve_index_end == end
    &&& forall|i: int| 0 <= i < bindings.len() ==> {
        let (d, info) = #[trigger] bindings[i];
        &&& info.player_entity == player
        &&& info.curve_index_start < info.curve_index_end
        &&& forall|j: int| info.curve_index_start <= j < info.curve_index_end ==> descriptors[j] == d
    }
    &&& forall|i: int| 0 <= i < bindings.len() - 1 ==> {
        &&& (#[trigger] bindings[i]).1.curve_index_end == bindings[i + 1].1.curve_index_start
        &&& bindings[i].0 != bindings[i + 1].0
    }
}

/// Bind the curves `start..end` of a clip, for an entity, to the player: one binding for each
/// run of consecutive curves with the same descriptor.
pub fn bind_curves(descriptors: &Vec<CurveDescriptor>, start: u16, end: u16, player: Entity) -> (bindings: Vec<(CurveDescriptor, CurveBindingInfo)>)
    requires
        start <= end <= descriptors@.len(),
    ensures
        are_runs_of(bindings@, descriptors@, start as int, end as int, player),
{
    let mut bindings: Vec<(CurveDescriptor, CurveBindingInfo)> = Vec::new();
    let mut k: u16 = start;
    while k < end
        invariant
            start <= k <= end <= descriptors@.len(),
            are_runs_of(bindings@, descriptors@, start as int, k as int, player),
            bindings@.len() > 0 && k < end ==> descriptors@[k as int] != bindings@.last().0,
        decreases end - k,
    {
        let d = descriptors[k as usize];
        let run_start = k;
        k = k + 1;
        while k < end && descriptors[k as usize].same_as(&d)
            invariant
                run_start < k <= end <= descriptors@.len(),
                forall|j: int| run_start <= j < k ==> descriptors@[j] == d,
            decreases end - k,
        {
            k = k + 1;
        }
        let info = CurveBindingInfo { player_entity: player, curve_index_start: run_start, curve_index_end: k };
        let ghost before = bindings@;
        bindings.push((d, info));
        proof {
            assert(bindings@.last() == (d, info));
            assert forall|i: int| 0 <= i < bindings@.len() - 1 implies {
                &&& (#[trigger] bindings@[i]).1.curve_index_end == bindings@[i + 1].1.curve_index_start
                &&& bindings@[i].0 != bindings@[i + 1].0
            } by {
                assert(bindings@[i] == before[i]);
                if i < before.len() - 1 {
                    assert(bindings@[i + 1] == before[i + 1]);
                }
            }
        }
    }
    bindings
}

/// Are the descriptors `start..end` in ascending order of their component types?
pub open spec fn ascending_between(descriptors: Seq<CurveDescriptor>, start: int, end: int) -> bool {
    forall|j: int, k: int|
        start <= j < k < end ==> (#[trigger] descriptors[j]).spec_component_type_id()
            <= (#[trigger] descriptors[k]).spec_component_type_id()
}

/// Runs start at strictly increasing indices.
proof fn lemma_run_starts_increase(
    bindings: Seq<(CurveDescriptor, CurveBindingInfo)>,
    descriptors: Seq<CurveDescriptor>,
    start: int,
    end: int,
    player: Entity,
    a: int,
    b: int,
)
    requires
        are_runs_of(bindings, descriptors, start, end, player),
        0 <= a < b < bindings.len(),
    ensures
        bindings[a].1.curve_index_start < bindings[b].1.curve_index_start,
    decreases b - a,
{
    if a + 1 < b {
        lemma_run_starts_increase(bindings, descriptors, start, end, player, a, b - 1);
    }
    let prev = bindings[b - 1];
    assert(prev.1.curve_index_start < prev.1.curve_index_end);
    assert(prev.1.curve_index_end == bindings[b].1.curve_index_start);
}

/// Every run lies within `start..end`.
proof fn lemma_run_within(
    bindings: Seq<(CurveDescriptor, CurveBindingInfo)>,
    descriptors: Seq<CurveDescriptor>,
    start: int,
    end: int,
    player: Entity,
    a: int,
)
    requires
        are_runs_of(bindings, descriptors, start, end, player),
        0 <= a < bindings.len(),
    ensures
        start <= bindings[a].1.curve_index_start,
        bindings[a].1.curve_index_end <= end,
{
    let last = bindings.len() - 1;
    if a > 0 {
        lemma_run_starts_increase(bindings, descriptors, start, end, player, 0, a);
    }
    if a < last {
        assert(bindings[a].1.curve_index_end == bindings[a + 1].1.curve_index_start);
        if a + 1 < last {
            lemma_run_starts_increase(bindings, descriptors, start, end, player, a + 1, last);
        }
        let l = bindings[last];
        assert(l.1.curve_index_start < l.1.curve_index_end);
    }
}

/// Over curves whose descriptors ascend, the runs carry pairwise different descriptors: each
/// component type gets one binding.
pub proof fn lemma_runs_distinct(
    bindings: Seq<(CurveDescriptor, CurveBindingInfo)>,
    descriptors: Seq<CurveDescriptor>,
    start: int,
    end: int,
    player: Entity,
)
    requires
        are_runs_of(bindings, descriptors, start, end, player),
        ascending_between(descriptors, start, end),
    ensures
        forall|a: int, b: int| 0 <= a < b < bindings.len() ==> bindings[a].0 != bindings[b].0,
{
    assert forall|a: int, b: int| 0 <= a < b < bindings.len() implies bindings[a].0 != bindings[b].0 by {
        let (da, ia) = bindings[a];
        let (dn, inext) = bindings[a + 1];
        let (db, ib) = bindings[b];
        assert(ia.curve_index_end == inext.curve_index_start);
        assert(da != dn);
        lemma_run_within(bindings, descriptors, start, end, player, a);
        lemma_run_within(bindings, descriptors, start, end, player, b);
        if a + 1 < b {
            lemma_run_starts_increase(bindings, descriptors, start, end, player, a + 1, b);
        }
        let j = ia.curve_index_end - 1;
        let m = inext.curve_index_start as int;
        let k = ib.curve_index_start as int;
        assert(descriptors[j] == da);
        assert(descriptors[m] == dn);
        assert(descriptors[k] == db);
        if da == db {
            assert(descriptors[j].spec_component_type_id() <= descriptors[m].spec_component_type_id());
            if m < k {
                assert(descriptors[m].spec_component_type_id() <= descriptors[k].spec_component_type_id());
            }
            assert(da.component_type_id == dn.component_type_id);
        }
    }
}

/// Are the frame indices in ascending order?
pub open spec fn ascending(ix: Seq<u16>) -> bool {
    forall|i: int, j: int| 0 <= i <= j < ix.len() ==> ix[i] <= ix[j]
}

/// Keyframe animation curve: the frames that have a keyframe, and the keyframes.
#[derive(Debug)]
pub struct KeyframeCurve<F, T> {
    /// Field accessor into the target component.
    field_accessor: F,
    /// Keyframe indices: the actual frame indices, including non-keyframes.
    keyframe_indices: Vec<u16>,
    /// Keyframe contents.
    keyframes: Vec<T>,
}

impl<F, T> KeyframeCurve<F, T> {
    /// A curve never is empty, and has one index per keyframe.
    #[verifier::type_invariant]
    spec fn aligned(self) -> bool {
        &&& self.keyframe_indices@.len() > 0
        &&& self.keyframes@.len() == self.keyframe_indices@.len()
    }

    /// The frame indices of the keyframes.
    pub closed spec fn spec_indices(self) -> Seq<u16> {
        self.keyframe_indices@
    }

    /// The keyframes.
    pub closed spec fn spec_keyframes(self) -> Seq<T> {
        self.keyframes@
    }

    /// The field accessor.
    pub closed spec fn spec_field(self) -> F {
        self.field_accessor
    }

    /// Create a keyframe curve: at least one keyframe, and one index per keyframe.
    pub fn new(field: F, indices: Vec<u16>, keyframes: Vec<T>) -> (c: Self)
        requires
            indices@.len() > 0,
            keyframes@.len() == indices@.len(),
        ensures
            c.spec_indices() == indices@,
            c.spec_keyframes() == keyframes@,
            c.spec_field() == field,
    {
        KeyframeCurve { field_accessor: field, keyframe_indices: indices, keyframes }
    }

    /// The field accessor.
    pub fn field_accessor(&self) -> (f: &F)
        ensures
            *f == self.spec_field(),
    {
        &self.field_accessor
    }

    /// The frame indices of the keyframes.
    pub fn keyframe_indices(&self) -> (ix: &[u16])
        ensures
            ix@ == self.spec_indices(),
    {
        self.keyframe_indices.as_slice()
    }

    /// The keyframes.
    pub fn keyframes(&self) -> (k: &[T])
        ensures
            k@ == self.spec_keyframes(),
    {
        self.keyframes.as_slice()
    }

    /// Duration of this curve, in number of frames: the index of its last keyframe.
    pub fn frame_count(&self) -> (n: usize)
        ensures
            self.spec_indices().len() > 0,
            n == self.spec_indices().last(),
    {
        proof {
            use_type_invariant(self);
        }
        self.keyframe_indices[self.keyframe_indices.len() - 1] as usize
    }

    /// Number of keyframes at or before `frame` (for ascending indices): the position of the
    /// next keyframe after it.
    pub fn next_keyframe(&self, frame: u16) -> (k: usize)
        ensures
            k <= self.spec_indices().len(),
            ascending(self.spec_indices()) ==> {
                &&& forall|i: int| 0 <= i < k ==> #[trigger] self.spec_indices()[i] <= frame
                &&& forall|i: int| k <= i < self.spec_indices().len() ==> #[trigger] self.spec_indices()[i] > frame
            },
    {
        let ix = &self.keyframe_indices;
        let mut lo: usize = 0;
        let mut hi: usize = ix.len();
        while lo < hi
            invariant
                *ix == self.keyframe_indices,
                lo <= hi <= ix@.len(),
                ascending(ix@) ==> forall|i: int| 0 <= i < lo ==> #[trigger] ix@[i] <= frame,
                ascending(ix@) ==> forall|i: int| hi <= i < ix@.len() ==> #[trigger] ix@[i] > frame,
            decreases hi - lo,
        {
            let mid: usize = lo + (hi - lo) / 2;
            if ix[mid] <= frame {
                lo = mid + 1;
            } else {
                hi = mid;
            }
        }
        lo
    }

    /// The last keyframe at or before `frame`, if any.
    pub fn last_keyframe(&self, frame: u16) -> (k: Option<usize>)
        ensures
            match k {
                Some(k) => k < self.spec_indices().len() && (ascending(self.spec_indices()) ==> {
                    &&& self.spec_indices()[k as int] <= frame
                    &&& forall|i: int| k < i < self.spec_indices().len() ==> #[trigger] self.spec_indices()[i] > frame
                }),
                None => ascending(self.spec_indices()) ==> forall|i: int|
                    0 <= i < self.spec_indices().len() ==> #[trigger] self.spec_indices()[i] > frame,
            },
    {
        let next = self.next_keyframe(frame);
        if next == 0 {
            None
        } else {
            Some(next - 1)
        }
    }
}

/// Is `k` the last keyframe at or before `frame`, `None` where every keyframe is after it?
pub open spec fn is_last_keyframe(ix: Seq<u16>, frame: u16, k: Option<usize>) -> bool {
    match k {
        Some(k) => k < ix.len() && ix[k as int] <= frame && forall|i: int| k < i < ix.len() ==> #[trigger] ix[i] > frame,
        None => forall|i: int| 0 <= i < ix.len() ==> #[trigger] ix[i] > frame,
    }
}

impl<F, T> KeyframeCurve<F, T> {
    /// The two keyframes to interpolate between when sampling at `frame` (a frame index already
    /// moved into the segment). Past the end of the segment (`wrapping`, for a looping
    /// animation) that is the last keyframe at or before the segment's end, then the last one at
    /// or before its start; none where either is missing. Otherwise it is the last keyframe at
    /// or before `frame` and the one after it (or itself, at the end of the curve); none where
    /// there is no keyframe at or before `frame`.
    pub fn sample_keyframes(&self, segment: Segment, frame: u16, wrapping: bool) -> (r: Option<(usize, usize)>)
        ensures
            r matches Some((a, b)) ==> a < self.spec_indices().len() && b < self.spec_indices().len(),
            ascending(self.spec_indices()) ==> if wrapping {
                match r {
                    Some((a, b)) => is_last_keyframe(self.spec_indices(), segment.end, Some(a))
                        && is_last_keyframe(self.spec_indices(), segment.start, Some(b)),
                    None => is_last_keyframe(self.spec_indices(), segment.start, None)
                        || is_last_keyframe(self.spec_indices(), segment.end, None),
                }
            } else {
                match r {
                    Some((a, b)) => is_last_keyframe(self.spec_indices(), frame, Some(a))
                        && b == if a + 1 >= self.spec_indices().len() { a } else { (a + 1) as usize },
                    None => is_last_keyframe(self.spec_indices(), frame, None),
                }
            },
    {
        if wrapping {
            let l = self.last_keyframe(segment.start)?;
            let r = self.last_keyframe(segment.end)?;
            Some((r, l))
        } else {
            let n = self.keyframe_indices.len();
            let k = self.last_keyframe(frame)?;
            if k + 1 >= n {
                Some((k, k))
            } else {
                Some((k, k + 1))
            }
        }
    }
}

/// Builder for keyframe curves: keyframes pushed one by one, each with its frame index.
#[derive(Debug)]
pub struct CurveBuilder<T> {
    indices: Vec<u16>,
    contents: Vec<T>,
}

impl<T> CurveBuilder<T> {
    /// One index per keyframe.
    #[verifier::type_invariant]
    spec fn aligned(self) -> bool {
        self.indices@.len() == self.contents@.len()
    }

    /// The frame indices pushed so far.
    pub closed spec fn spec_indices(self) -> Seq<u16> {
        self.indices@
    }

    /// The keyframes pushed so far.
    pub closed spec fn spec_keyframes(self) -> Seq<T> {
        self.contents@
    }

    /// Create a curve builder, with no keyframe yet.
    pub fn new() -> (b: CurveBuilder<T>)
        ensures
            b.spec_indices() == Seq::<u16>::empty(),
            b.spec_keyframes() == Seq::<T>::empty(),
    {
        CurveBuilder { indices: Vec::new(), contents: Vec::new() }
    }

    /// Push one keyframe into this curve.
    pub fn push_keyframe(&mut self, k: u16, x: T)
        ensures
            final(self).spec_indices() == old(self).spec_indices().push(k),
            final(self).spec_keyframes() == old(self).spec_keyframes().push(x),
    {
        proof { use_type_invariant(&*self); }
        let mut taken = CurveBuilder::new();
        std::mem::swap(&mut taken, self);
        proof { use_type_invariant(&taken); }
        let CurveBuilder { mut indices, mut contents } = taken;
        indices.push(k);
        contents.push(x);
        *self = CurveBuilder { indices, contents };
    }

    /// Finish building this curve: none for no keyframe.
    pub fn finish<F>(self, field_accessor: F) -> (c: Option<KeyframeCurve<F, T>>)
        ensures
            match c {
                None => self.spec_indices().len() == 0,
                Some(c) => self.spec_indices().len() > 0 && c.spec_indices() == self.spec_indices()
                    && c.spec_keyframes() == self.spec_keyframes() && c.spec_field() == field_accessor,
            },
    {
        proof { use_type_invariant(&self); }
        if self.indices.len() == 0 {
            return None;
        }
        Some(KeyframeCurve::new(field_accessor, self.indices, self.contents))
    }
}

} // verus!
