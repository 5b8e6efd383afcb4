//! Animation clips: curves grouped by entity path, their builders, and the binding of their
//! curves to the entities that the paths name.

use vstd::prelude::*;
use crate::ecs::Entity;
use crate::curve::{CurveBuilder, KeyframeCurve, CurveDescriptor, CurveBindingInfo, are_runs_of, bind_curves, ascending_between, lemma_runs_distinct};
use crate::stream::views;
use crate::cached::{str_lt, str_less, str_equal, lemma_str_lt_total, lemma_str_lt_transitive, lemma_str_lt_irreflexive};

verus! {

broadcast use vstd::seq_lib::group_to_multiset_ensures;

/// Entity path is all the names along the path.
#[derive(Debug)]
pub struct EntityPath(pub Vec<String>);

impl View for EntityPath {
    type V = Seq<Seq<char>>;

    /// The names along the path.
    open spec fn view(&self) -> Seq<Seq<char>> {
        views(self.0@)
    }
}

impl EntityPath {
    /// The names along the path, in order.
    pub fn iter(&self) -> (names: &[String])
        ensures
            names@ == self.0@,
    {
        self.0.as_slice()
    }
}

/// Strict lexicographic order on entity paths, name by name (as a sequence of strings orders).
pub open spec fn path_lt(a: Seq<Seq<char>>, b: Seq<Seq<char>>) -> bool
    decreases a.len(),
{
    if b.len() == 0 {
        false
    } else if a.len() == 0 {
        true
    } else if a[0] != b[0] {
        str_lt(a[0], b[0])
    } else {
        path_lt(a.drop_first(), b.drop_first())
    }
}

/// No path is below itself.
pub proof fn lemma_path_lt_irreflexive(a: Seq<Seq<char>>)
    ensures
        !path_lt(a, a),
    decreases a.len(),
{
    if a.len() > 0 {
        lemma_path_lt_irreflexive(a.drop_first());
    }
}

/// Of two different paths, one is below the other, and never both.
pub proof fn lemma_path_lt_total(a: Seq<Seq<char>>, b: Seq<Seq<char>>)
    ensures
        a != b ==> (path_lt(a, b) || path_lt(b, a)),
        !(path_lt(a, b) && path_lt(b, a)),
    decreases a.len(),
{
    if a.len() == 0 || b.len() == 0 {
        if a.len() == 0 && b.len() == 0 {
            assert(a =~= b);
        }
    } else if a[0] != b[0] {
        lemma_str_lt_total(a[0], b[0]);
    } else {
        let (a1, b1) = (a.drop_first(), b.drop_first());
        lemma_path_lt_total(a1, b1);
        if a1 == b1 {
            assert(a =~= seq![a[0]] + a1);
            assert(b =~= seq![b[0]] + b1);
        }
    }
}

/// The strict order on paths is transitive.
pub proof fn lemma_path_lt_transitive(a: Seq<Seq<char>>, b: Seq<Seq<char>>, c: Seq<Seq<char>>)
    requires
        path_lt(a, b),
        path_lt(b, c),
    ensures
        path_lt(a, c),
    decreases a.len(),
{
    if a.len() > 0 {
        if a[0] != b[0] {
            if b[0] != c[0] {
                lemma_str_lt_transitive(a[0], b[0], c[0]);
                if a[0] == c[0] {
                    lemma_str_lt_irreflexive(a[0]);
                }
            }
        } else if b[0] == c[0] {
            lemma_path_lt_transitive(a.drop_first(), b.drop_first(), c.drop_first());
        }
    }
}

/// Is the path `a` strictly below the path `b`?
pub fn path_less(a: &EntityPath, b: &EntityPath) -> (r: bool)
    ensures
        r == path_lt(a@, b@),
{
    let n: usize = a.0.len();
    let m: usize = b.0.len();
    let mut i: usize = 0;
    assert(a@.skip(0) =~= a@);
    assert(b@.skip(0) =~= b@);
    while i < n && i < m
        invariant
            n == a@.len(),
            m == b@.len(),
            i <= n,
            i <= m,
            path_lt(a@, b@) == path_lt(a@.skip(i as int), b@.skip(i as int)),
        decreases n - i,
    {
        let x = a.0[i].as_str();
        let y = b.0[i].as_str();
        assert(a@.skip(i as int)[0] == x@);
        assert(b@.skip(i as int)[0] == y@);
        if !str_equal(x, y) {
            return str_less(x, y);
        }
        assert(a@.skip(i as int).drop_first() =~= a@.skip(i + 1));
        assert(b@.skip(i as int).drop_first() =~= b@.skip(i + 1));
        i = i + 1;
    }
    i < m
}

/// Are the two paths the same?
pub fn path_equal(a: &EntityPath, b: &EntityPath) -> (r: bool)
    ensures
        r == (a@ == b@),
{
    let n: usize = a.0.len();
    if n != b.0.len() {
        assert(a@.len() != b@.len());
        return false;
    }
    let mut i: usize = 0;
    while i < n
        invariant
            n == a@.len(),
            n == b@.len(),
            i <= n,
            forall|j: int| 0 <= j < i ==> a@[j] == b@[j],
        decreases n - i,
    {
        if !str_equal(a.0[i].as_str(), b.0[i].as_str()) {
            assert(a@[i as int] != b@[i as int]);
            return false;
        }
        i = i + 1;
    }
    assert(a@ =~= b@);
    true
}

/// What the engine's world holds of an entity, as far as locating goes.
#[derive(Debug)]
pub struct EntityNode {
    /// Its children, if it has a list of children.
    pub children: Option<Vec<Entity>>,
    /// Its name, if it has one.
    pub name: Option<String>,
}

/// A snapshot of the entities of the world, the entity with identifier `k` at index `k`.
#[derive(Debug)]
pub struct EntityTree {
    /// Entities, by identifier.
    pub nodes: Vec<EntityNode>,
}

impl EntityTree {
    /// Children of an entity (none for an entity that is not in the snapshot).
    pub open spec fn children_of(&self, e: Entity) -> Option<Seq<Entity>> {
        if e.0 < self.nodes@.len() {
            match self.nodes@[e.0 as int].children {
                Some(c) => Some(c@),
                None => None,
            }
        } else {
            None
        }
    }

    /// Name of an entity, if it has one.
    pub open spec fn name_of(&self, e: Entity) -> Option<Seq<char>> {
        if e.0 < self.nodes@.len() {
            match self.nodes@[e.0 as int].name {
                Some(n) => Some(n@),
                None => None,
            }
        } else {
            None
        }
    }

    /// The first of the given entities with the given name.
    pub open spec fn first_named(&self, entities: Seq<Entity>, name: Seq<char>) -> Option<Entity>
        decreases entities.len(),
    {
        if entities.len() == 0 {
            None
        } else if self.name_of(entities[0]) == Some(name) {
            Some(entities[0])
        } else {
            self.first_named(entities.drop_first(), name)
        }
    }

    /// The entity reached from `current` by following the path: at each step, the first child
    /// with the next name. `None` where an entity on the way has no children, or no child of
    /// that name.
    pub open spec fn follow(&self, current: Entity, path: Seq<Seq<char>>) -> Option<Entity>
        decreases path.len(),
    {
        if path.len() == 0 {
            Some(current)
        } else {
            match self.children_of(current) {
                None => None,
                Some(children) => match self.first_named(children, path[0]) {
                    None => None,
                    Some(child) => self.follow(child, path.drop_first()),
                },
            }
        }
    }

    /// Does the entity have this name?
    fn has_name(&self, e: Entity, name: &String) -> (r: bool)
        ensures
            r == (self.name_of(e) == Some(name@)),
    {
        if e.0 >= self.nodes.len() as u64 {
            return false;
        }
        match &self.nodes[e.0 as usize].name {
            Some(n) => crate::cached::str_equal(n.as_str(), name.as_str()),
            None => false,
        }
    }

    /// The first child of `parent` with the given name, if `parent` has children.
    fn child_named(&self, parent: Entity, name: &String) -> (r: Option<Option<Entity>>)
        ensures
            match self.children_of(parent) {
                None => r is None,
                Some(children) => r == Some(self.first_named(children, name@)),
            },
    {
        if parent.0 >= self.nodes.len() as u64 {
            return None;
        }
        let children = match &self.nodes[parent.0 as usize].children {
            Some(c) => c,
            None => return None,
        };
        let mut i: usize = 0;
        assert(children@.skip(0) =~= children@);
        assert(self.children_of(parent) == Some(children@));
        while i < children.len()
            invariant
                i <= children@.len(),
                self.children_of(parent) == Some(children@),
                self.first_named(children@, name@) == self.first_named(children@.skip(i as int), name@),
            decreases children@.len() - i,
        {
            let child = children[i];
            assert(children@.skip(i as int)[0] == child);
            assert(children@.skip(i as int).drop_first() =~= children@.skip(i + 1));
            if self.has_name(child, name) {
                assert(self.first_named(children@.skip(i as int), name@) == Some(child));
                return Some(Some(child));
            }
            i = i + 1;
        }
        Some(None)
    }
}

/// Locate the entity that a path names, starting from `root`: at each step, the first child
/// with the next name.
pub fn locate(root: Entity, path: &EntityPath, tree: &EntityTree) -> (r: Option<Entity>)
    ensures
        r == tree.follow(root, views(path.0@)),
{
    let names = path.iter();
    let mut current = root;
    let mut i: usize = 0;
    assert(views(names@).skip(0) =~= views(names@));
    while i < names.len()
        invariant
            names@ == path.0@,
            i <= names@.len(),
            tree.follow(root, views(names@)) == tree.follow(current, views(names@).skip(i as int)),
        decreases names@.len() - i,
    {
        let ghost rest = views(names@).skip(i as int);
        assert(rest[0] == names@[i as int]@);
        assert(rest.drop_first() =~= views(names@).skip(i + 1));
        match tree.child_named(current, &names[i]) {
            Some(Some(child)) => {
                current = child;
            },
            _ => return None,
        }
        i = i + 1;
    }
    Some(current)
}

/// Are the curves in ascending order of their descriptors' component types?
pub open spec fn descriptors_ascending<C>(curves: Seq<(CurveDescriptor, C)>) -> bool {
    forall|i: int, j: int|
        0 <= i < j < curves.len() ==> (#[trigger] curves[i]).0.spec_component_type_id()
            <= (#[trigger] curves[j]).0.spec_component_type_id()
}

/// Sort curves by their descriptors. Curves with equal descriptors may come out in any order.
fn sort_by_descriptor<C>(v: Vec<(CurveDescriptor, C)>) -> (out: Vec<(CurveDescriptor, C)>)
    ensures
        out@.to_multiset() == v@.to_multiset(),
        descriptors_ascending(out@),
{
    let ghost all = v@;
    let mut rest = v;
    let mut out: Vec<(CurveDescriptor, C)> = Vec::new();
    while rest.len() > 0
        invariant
            descriptors_ascending(out@),
            out@.to_multiset().add(rest@.to_multiset()) == all.to_multiset(),
        decreases rest@.len(),
    {
        let ghost before = rest@;
        let x = rest.pop().unwrap();
        assert(before =~= rest@.push(x));
        let key = x.0.component_type_id();
        let mut pos: usize = 0;
        while pos < out.len() && out[pos].0.component_type_id() <= key
            invariant
                pos <= out@.len(),
                forall|k: int| 0 <= k < pos ==> (#[trigger] out@[k]).0.spec_component_type_id() <= key,
            decreases out@.len() - pos,
        {
            pos = pos + 1;
        }
        let ghost old_out = out@;
        out.insert(pos, x);
        proof {
            assert forall|i: int, j: int| 0 <= i < j < out@.len() implies (#[trigger] out@[i]).0.spec_component_type_id()
                <= (#[trigger] out@[j]).0.spec_component_type_id() by {
                if j < pos {
                    assert(out@[i] == old_out[i] && out@[j] == old_out[j]);
                } else if j == pos {
                    assert(out@[i] == old_out[i]);
                } else if i < pos {
                    assert(out@[i] == old_out[i] && out@[j] == old_out[j - 1]);
                } else if i == pos {
                    assert(out@[j] == old_out[j - 1]);
                    assert(old_out[pos as int].0.spec_component_type_id() > key);
                    if pos < j - 1 {
                        assert(old_out[pos as int].0.spec_component_type_id() <= old_out[j - 1].0.spec_component_type_id());
                    }
                } else {
                    assert(out@[i] == old_out[i - 1] && out@[j] == old_out[j - 1]);
                }
            }
            assert(out@.to_multiset() == old_out.to_multiset().insert(x));
            assert(before.to_multiset() == rest@.to_multiset().insert(x));
            broadcast use vstd::multiset::group_multiset_axioms;
            assert(out@.to_multiset().add(rest@.to_multiset()) =~= all.to_multiset());
        }
    }
    proof {
        broadcast use vstd::multiset::group_multiset_axioms;
        assert(rest@ =~= Seq::<(CurveDescriptor, C)>::empty());
        assert(out@.to_multiset() =~= all.to_multiset());
    }
    out
}

/// What a builder holds for one entity path: the path, and its curves in the order added.
pub open spec fn entries_of<C>(v: Seq<(EntityPath, Vec<(CurveDescriptor, C)>)>) -> Seq<(Seq<Seq<char>>, Seq<(CurveDescriptor, C)>)> {
    v.map_values(|e: (EntityPath, Vec<(CurveDescriptor, C)>)| (e.0@, e.1@))
}

/// Are the entries in strictly ascending order of their paths (so that no path occurs twice)?
pub open spec fn paths_ascending<C>(entries: Seq<(Seq<Seq<char>>, Seq<(CurveDescriptor, C)>)>) -> bool {
    forall|i: int, j: int| 0 <= i < j < entries.len() ==> path_lt((#[trigger] entries[i]).0, (#[trigger] entries[j]).0)
}

/// Does some entry belong to the path?
pub open spec fn has_path<C>(entries: Seq<(Seq<Seq<char>>, Seq<(CurveDescriptor, C)>)>, path: Seq<Seq<char>>) -> bool {
    exists|i: int| 0 <= i < entries.len() && (#[trigger] entries[i]).0 == path
}

/// `after` is `before` with `curves` added for `path`: appended to the path's curves where the
/// path has an entry, else as a new entry inserted somewhere.
pub open spec fn added<C>(
    before: Seq<(Seq<Seq<char>>, Seq<(CurveDescriptor, C)>)>,
    after: Seq<(Seq<Seq<char>>, Seq<(CurveDescriptor, C)>)>,
    path: Seq<Seq<char>>,
    curves: Seq<(CurveDescriptor, C)>,
) -> bool {
    if has_path(before, path) {
        exists|i: int| 0 <= i < before.len() && (#[trigger] before[i]).0 == path
            && after == before.update(i, (path, before[i].1 + curves))
    } else {
        exists|i: int| 0 <= i <= before.len() && after == #[trigger] before.insert(i, (path, curves))
    }
}

/// An animation track: all curves for some entity, each with its descriptor.
#[derive(Debug)]
pub struct Track<C>(pub Vec<(CurveDescriptor, C)>);

/// Builder for [`AnimationClip`]s: the curves added so far, grouped by entity path, the paths in
/// ascending order.
#[derive(Debug)]
pub struct AnimationClipBuilder<C> {
    curves: Vec<(EntityPath, Vec<(CurveDescriptor, C)>)>,
}

impl<C> Default for AnimationClipBuilder<C> {
    fn default() -> (b: AnimationClipBuilder<C>)
        ensures
            b.entries() == Seq::<(Seq<Seq<char>>, Seq<(CurveDescriptor, C)>)>::empty(),
    {
        AnimationClipBuilder::new()
    }
}

/// Index of the first entry whose path is not below `path`.
fn position<C>(curves: &Vec<(EntityPath, Vec<(CurveDescriptor, C)>)>, path: &EntityPath) -> (i: usize)
    ensures
        i <= curves@.len(),
        forall|k: int| 0 <= k < i ==> path_lt((#[trigger] entries_of(curves@)[k]).0, path@),
        i < curves@.len() ==> !path_lt(entries_of(curves@)[i as int].0, path@),
{
    let mut i: usize = 0;
    while i < curves.len() && path_less(&curves[i].0, path)
        invariant
            i <= curves@.len(),
            forall|k: int| 0 <= k < i ==> path_lt((#[trigger] entries_of(curves@)[k]).0, path@),
        decreases curves@.len() - i,
    {
        i = i + 1;
    }
    i
}

/// Where `position` stops, the entry (if any) carries the path exactly when some entry does;
/// a new entry for the path fits in there.
proof fn lemma_position<C>(entries: Seq<(Seq<Seq<char>>, Seq<(CurveDescriptor, C)>)>, path: Seq<Seq<char>>, i: int, curves: Seq<(CurveDescriptor, C)>)
    requires
        paths_ascending(entries),
        0 <= i <= entries.len(),
        forall|k: int| 0 <= k < i ==> path_lt((#[trigger] entries[k]).0, path),
        i < entries.len() ==> !path_lt(entries[i].0, path),
    ensures
        has_path(entries, path) <==> (i < entries.len() && entries[i].0 == path),
        !has_path(entries, path) ==> paths_ascending(entries.insert(i, (path, curves))),
{
    if i < entries.len() && entries[i].0 != path {
        lemma_path_lt_total(entries[i].0, path);
    }
    if has_path(entries, path) {
        let j = choose|j: int| 0 <= j < entries.len() && (#[trigger] entries[j]).0 == path;
        if j < i {
            lemma_path_lt_irreflexive(path);
        } else if j > i {
            if entries[i].0 != path {
                lemma_path_lt_transitive(path, entries[i].0, entries[j].0);
                lemma_path_lt_irreflexive(path);
            }
        }
    }
    if !has_path(entries, path) {
        let after = entries.insert(i, (path, curves));
        assert forall|a: int, b: int| 0 <= a < b < after.len() implies path_lt((#[trigger] after[a]).0, (#[trigger] after[b]).0) by {
            if b < i {
            } else if b == i {
            } else if a < i {
                assert(after[b] == entries[b - 1]);
            } else if a == i {
                assert(after[b] == entries[b - 1]);
                if i < b - 1 {
                    lemma_path_lt_transitive(path, entries[i].0, entries[b - 1].0);
                }
            } else {
                assert(after[a] == entries[a - 1] && after[b] == entries[b - 1]);
            }
        }
    }
}

impl<C> AnimationClipBuilder<C> {
    /// The entries: each path with its curves, in the order added.
    pub closed spec fn entries(&self) -> Seq<(Seq<Seq<char>>, Seq<(CurveDescriptor, C)>)> {
        entries_of(self.curves@)
    }

    /// The paths are in ascending order.
    #[verifier::type_invariant]
    spec fn ascending(self) -> bool {
        paths_ascending(self.entries())
    }

    /// Get a builder to build an animation clip.
    pub fn new() -> (b: AnimationClipBuilder<C>)
        ensures
            b.entries() == Seq::<(Seq<Seq<char>>, Seq<(CurveDescriptor, C)>)>::empty(),
    {
        let b = AnimationClipBuilder { curves: Vec::new() };
        assert(b.entries() =~= Seq::<(Seq<Seq<char>>, Seq<(CurveDescriptor, C)>)>::empty());
        b
    }

    /// Add a new curve into the clip.
    pub fn add_curve(&mut self, path: EntityPath, descriptor: CurveDescriptor, curve: C)
        ensures
            paths_ascending(final(self).entries()),
            added(old(self).entries(), final(self).entries(), path@, seq![(descriptor, curve)]),
    {
        self.add_dyn_curve(path, descriptor, curve)
    }

    /// Add a new curve into the clip.
    pub fn add_dyn_curve(&mut self, path: EntityPath, descriptor: CurveDescriptor, curve: C)
        ensures
            paths_ascending(final(self).entries()),
            added(old(self).entries(), final(self).entries(), path@, seq![(descriptor, curve)]),
    {
        proof { use_type_invariant(&*self); }
        let ghost before = self.entries();
        let i = position(&self.curves, &path);
        let mut curves = Vec::new();
        std::mem::swap(&mut curves, &mut self.curves);
        assert(entries_of(curves@) == before);
        proof { lemma_position(before, path@, i as int, seq![(descriptor, curve)]); }
        if i < curves.len() && path_equal(&curves[i].0, &path) {
            let ghost old_curves = curves@;
            let (p, mut list) = curves.remove(i);
            assert(entries_of(old_curves)[i as int] == (p@, list@));
            list.push((descriptor, curve));
            assert(list@ =~= before[i as int].1 + seq![(descriptor, curve)]);
            curves.insert(i, (p, list));
            assert(curves@ =~= old_curves.update(i as int, curves@[i as int]));
            assert(entries_of(curves@) =~= before.update(i as int, (path@, before[i as int].1 + seq![(descriptor, curve)])));
            assert(paths_ascending(entries_of(curves@))) by {
                assert forall|a: int, b: int| 0 <= a < b < entries_of(curves@).len() implies
                    path_lt((#[trigger] entries_of(curves@)[a]).0, (#[trigger] entries_of(curves@)[b]).0) by {
                    assert(before[a].0 == entries_of(curves@)[a].0);
                    assert(before[b].0 == entries_of(curves@)[b].0);
                }
            }
        } else {
            let mut list = Vec::new();
            list.push((descriptor, curve));
            curves.insert(i, (path, list));
            assert(entries_of(curves@) =~= before.insert(i as int, (path@, seq![(descriptor, curve)])));
        }
        self.curves = curves;
    }

    /// Add a whole new track into the clip, for a path that has no curves yet.
    pub fn add_track(&mut self, path: EntityPath, track: Track<C>)
        requires
            !has_path(old(self).entries(), path@),
        ensures
            paths_ascending(final(self).entries()),
            added(old(self).entries(), final(self).entries(), path@, track.0@),
    {
        proof { use_type_invariant(&*self); }
        let ghost before = self.entries();
        let i = position(&self.curves, &path);
        let mut curves = Vec::new();
        std::mem::swap(&mut curves, &mut self.curves);
        assert(entries_of(curves@) == before);
        proof { lemma_position(before, path@, i as int, track.0@); }
        let ghost list = track.0@;
        curves.insert(i, (path, track.0));
        assert(entries_of(curves@) =~= before.insert(i as int, (path@, list)));
        self.curves = curves;
    }
}

/// Where the curves of entry `i` start when the curves of all entries are laid end to end.
pub open spec fn curve_offset<C>(entries: Seq<(Seq<Seq<char>>, Seq<(CurveDescriptor, C)>)>, i: int) -> int
    decreases i,
{
    if i <= 0 {
        0
    } else {
        curve_offset(entries, i - 1) + entries[i - 1].1.len()
    }
}

/// Offsets grow with the index.
proof fn lemma_curve_offset_monotone<C>(entries: Seq<(Seq<Seq<char>>, Seq<(CurveDescriptor, C)>)>, a: int, b: int)
    requires
        0 <= a <= b,
    ensures
        curve_offset(entries, a) <= curve_offset(entries, b),
    decreases b - a,
{
    if a < b {
        lemma_curve_offset_monotone(entries, a, b - 1);
    }
}

/// The descriptors of the curves, in order.
pub open spec fn curve_descriptors<C>(curves: Seq<(CurveDescriptor, C)>) -> Seq<CurveDescriptor> {
    curves.map_values(|c: (CurveDescriptor, C)| c.0)
}

/// Animation clip: the curves of all entity paths, each path with the range of its curves.
#[derive(Debug)]
pub struct AnimationClip<C> {
    path_mapping: Vec<(EntityPath, u16, u16)>,
    curves: Vec<(CurveDescriptor, C)>,
}

impl<C> AnimationClip<C> {
    /// Each entity path, with the range `start..end` of its curves.
    pub closed spec fn spec_mapping(&self) -> Seq<(EntityPath, u16, u16)> {
        self.path_mapping@
    }

    /// The entity paths, each with the range of its curves.
    pub open spec fn spec_ranges(&self) -> Seq<(Seq<Seq<char>>, u16, u16)> {
        self.spec_mapping().map_values(|m: (EntityPath, u16, u16)| (m.0@, m.1, m.2))
    }

    /// All curves, each with its descriptor.
    pub closed spec fn spec_curves(&self) -> Seq<(CurveDescriptor, C)> {
        self.curves@
    }

    /// The ranges lay the curves out end to end, in order, and within each range the curves
    /// are in ascending order of their descriptors.
    pub open spec fn wf(&self) -> bool {
        let r = self.spec_ranges();
        let c = self.spec_curves();
        &&& r.len() == 0 ==> c.len() == 0
        &&& r.len() > 0 ==> r[0].1 == 0 && r.last().2 == c.len()
        &&& forall|i: int| 0 <= i < r.len() ==> {
            &&& (#[trigger] r[i]).1 <= r[i].2 <= c.len()
            &&& descriptors_ascending(c.subrange(r[i].1 as int, r[i].2 as int))
        }
        &&& forall|i: int| 0 <= i < r.len() - 1 ==> (#[trigger] r[i]).2 == r[i + 1].1
    }

    /// Get a builder to build an animation clip.
    pub fn builder() -> (b: AnimationClipBuilder<C>)
        ensures
            b.entries() == Seq::<(Seq<Seq<char>>, Seq<(CurveDescriptor, C)>)>::empty(),
    {
        AnimationClipBuilder::new()
    }

    /// The entity paths, each with the range of its curves.
    pub fn iter(&self) -> (m: &[(EntityPath, u16, u16)])
        ensures
            m@ == self.spec_mapping(),
    {
        self.path_mapping.as_slice()
    }

    /// The curve at index `k`.
    pub fn get(&self, k: u16) -> (c: &(CurveDescriptor, C))
        requires
            k < self.spec_curves().len(),
        ensures
            *c == self.spec_curves()[k as int],
    {
        &self.curves[k as usize]
    }

    /// All the curves.
    pub fn curves(&self) -> (c: &[(CurveDescriptor, C)])
        ensures
            c@ == self.spec_curves(),
    {
        self.curves.as_slice()
    }
}

impl<C> AnimationClip<C> {
    /// For each entity path of the clip, in order: the entity that the path names from `root`
    /// (see [`locate`]), with the bindings of the path's curves to the player `root` (one for
    /// each run of curves with equal descriptors); `None` where the path names no entity.
    pub fn bindings(&self, root: Entity, tree: &EntityTree) -> (r: Vec<Option<(Entity, Vec<(CurveDescriptor, CurveBindingInfo)>)>>)
        requires
            self.wf(),
        ensures
            r@.len() == self.spec_ranges().len(),
            forall|i: int| 0 <= i < r@.len() ==> match tree.follow(root, self.spec_ranges()[i].0) {
                None => (#[trigger] r@[i]) is None,
                Some(e) => r@[i] matches Some((located, runs)) && located == e && are_runs_of(
                    runs@,
                    curve_descriptors(self.spec_curves()),
                    self.spec_ranges()[i].1 as int,
                    self.spec_ranges()[i].2 as int,
                    root,
                ),
            },
    {
        let mut descriptors: Vec<CurveDescriptor> = Vec::new();
        let mut k: usize = 0;
        while k < self.curves.len()
            invariant
                k <= self.curves@.len(),
                descriptors@ == curve_descriptors(self.curves@).take(k as int),
            decreases self.curves@.len() - k,
        {
            descriptors.push(self.curves[k].0);
            k = k + 1;
            assert(descriptors@ =~= curve_descriptors(self.curves@).take(k as int));
        }
        assert(descriptors@ =~= curve_descriptors(self.curves@));
        let mut out: Vec<Option<(Entity, Vec<(CurveDescriptor, CurveBindingInfo)>)>> = Vec::new();
        let mut i: usize = 0;
        while i < self.path_mapping.len()
            invariant
                self.wf(),
                i <= self.path_mapping@.len(),
                descriptors@ == curve_descriptors(self.spec_curves()),
                out@.len() == i,
                forall|j: int| 0 <= j < i ==> match tree.follow(root, self.spec_ranges()[j].0) {
                    None => (#[trigger] out@[j]) is None,
                    Some(e) => out@[j] matches Some((located, runs)) && located == e && are_runs_of(
                        runs@,
                        curve_descriptors(self.spec_curves()),
                        self.spec_ranges()[j].1 as int,
                        self.spec_ranges()[j].2 as int,
                        root,
                    ),
                },
            decreases self.path_mapping@.len() - i,
        {
            let m = &self.path_mapping[i];
            assert(self.spec_ranges()[i as int] == (m.0@, m.1, m.2));
            match locate(root, &m.0, tree) {
                Some(entity) => {
                    let b = bind_curves(&descriptors, m.1, m.2, root);
                    out.push(Some((entity, b)));
                },
                None => {
                    out.push(None);
                },
            }
            i = i + 1;
        }
        out
    }
}

/// In a well-formed clip, the bindings of the curves of one entity path (the runs of its curves
/// with equal descriptors) carry pairwise different descriptors: each component type of the
/// entity is bound once.
pub proof fn lemma_clip_bindings_distinct<C>(
    clip: &AnimationClip<C>,
    i: int,
    bindings: Seq<(CurveDescriptor, CurveBindingInfo)>,
    player: Entity,
)
    requires
        clip.wf(),
        0 <= i < clip.spec_ranges().len(),
        are_runs_of(
            bindings,
            curve_descriptors(clip.spec_curves()),
            clip.spec_ranges()[i].1 as int,
            clip.spec_ranges()[i].2 as int,
            player,
        ),
    ensures
        forall|a: int, b: int| 0 <= a < b < bindings.len() ==> bindings[a].0 != bindings[b].0,
{
    let r = clip.spec_ranges()[i];
    let c = clip.spec_curves();
    let part = c.subrange(r.1 as int, r.2 as int);
    assert(descriptors_ascending(part));
    let ds = curve_descriptors(c);
    assert forall|j: int, k: int| r.1 <= j < k < r.2 implies (#[trigger] ds[j]).spec_component_type_id()
        <= (#[trigger] ds[k]).spec_component_type_id() by {
        assert(part[j - r.1] == c[j] && part[k - r.1] == c[k]);
    }
    lemma_runs_distinct(bindings, ds, r.1 as int, r.2 as int, player);
}

impl<C> AnimationClipBuilder<C> {
    /// Finish building the clip: the paths in ascending order, the curves of each path laid
    /// end to end, sorted by descriptor within each path (curves with equal descriptors in any
    /// order). Ranges are recorded as `u16`s.
    pub fn build(self) -> (clip: AnimationClip<C>)
        ensures
            clip.spec_ranges().len() == self.entries().len(),
            clip.spec_curves().len() == curve_offset(self.entries(), self.entries().len() as int),
            forall|i: int| 0 <= i < self.entries().len() ==> #[trigger] clip.spec_ranges()[i] == (
                self.entries()[i].0,
                curve_offset(self.entries(), i) as u16,
                curve_offset(self.entries(), i + 1) as u16,
            ),
            forall|i: int| 0 <= i < self.entries().len() ==> {
                let part = #[trigger] clip.spec_curves().subrange(curve_offset(self.entries(), i), curve_offset(self.entries(), i + 1));
                &&& part.to_multiset() == self.entries()[i].1.to_multiset()
                &&& descriptors_ascending(part)
            },
            curve_offset(self.entries(), self.entries().len() as int) <= u16::MAX ==> clip.wf(),
            curve_offset(self.entries(), self.entries().len() as int) <= u16::MAX ==> forall|i: int|
                0 <= i < self.entries().len() ==> (#[trigger] clip.spec_ranges()[i]).1 == curve_offset(self.entries(), i)
                    && clip.spec_ranges()[i].2 == curve_offset(self.entries(), i + 1),
    {
        let ghost all = self.entries();
        let mut rest = self.curves;
        let mut path_mapping: Vec<(EntityPath, u16, u16)> = Vec::new();
        let mut curves: Vec<(CurveDescriptor, C)> = Vec::new();
        let ghost mut i: int = 0;
        assert(entries_of(rest@) =~= all.skip(0));
        while rest.len() > 0
            invariant
                0 <= i <= all.len(),
                entries_of(rest@) == all.skip(i),
                path_mapping@.len() == i,
                curves@.len() == curve_offset(all, i),
                forall|k: int| 0 <= k < i ==> (#[trigger] path_mapping@[k]).0@ == all[k].0
                    && path_mapping@[k].1 == curve_offset(all, k) as u16
                    && path_mapping@[k].2 == curve_offset(all, k + 1) as u16,
                forall|k: int| 0 <= k < i ==> {
                    let part = #[trigger] curves@.subrange(curve_offset(all, k), curve_offset(all, k + 1));
                    &&& part.to_multiset() == all[k].1.to_multiset()
                    &&& descriptors_ascending(part)
                },
            decreases rest@.len(),
        {
            let ghost old_rest = rest@;
            let ghost old_curves = curves@;
            let (path, list) = rest.remove(0);
            proof {
                assert(all.skip(i).len() == old_rest.len());
                assert(all.skip(i)[0] == all[i]);
                assert(entries_of(old_rest)[0] == all[i]);
                assert(rest@ =~= old_rest.subrange(1, old_rest.len() as int));
                assert(entries_of(rest@) =~= entries_of(old_rest).drop_first());
                assert(all.skip(i).drop_first() =~= all.skip(i + 1));
            }
            let start = curves.len();
            let mut sorted = sort_by_descriptor(list);
            let ghost part = sorted@;
            curves.append(&mut sorted);
            let end = curves.len();
            path_mapping.push((path, start as u16, end as u16));
            proof {
                assert(part.to_multiset().len() == all[i].1.to_multiset().len());
                assert(part.len() == all[i].1.len());
                assert(curve_offset(all, i + 1) == curve_offset(all, i) + all[i].1.len());
                assert(curves@ =~= old_curves + part);
                assert(curves@.subrange(curve_offset(all, i), curve_offset(all, i + 1)) =~= part);
                assert forall|k: int| 0 <= k < i implies #[trigger] curves@.subrange(curve_offset(all, k), curve_offset(all, k + 1))
                    == old_curves.subrange(curve_offset(all, k), curve_offset(all, k + 1)) by {
                    lemma_curve_offset_monotone(all, k + 1, i);
                    lemma_curve_offset_monotone(all, k, k + 1);
                    lemma_curve_offset_monotone(all, 0, k);
                    assert(curves@.subrange(curve_offset(all, k), curve_offset(all, k + 1))
                        =~= old_curves.subrange(curve_offset(all, k), curve_offset(all, k + 1)));
                }
                assert forall|k: int| 0 <= k < i + 1 implies (#[trigger] path_mapping@[k]).0@ == all[k].0
                    && path_mapping@[k].1 == curve_offset(all, k) as u16
                    && path_mapping@[k].2 == curve_offset(all, k + 1) as u16 by {
                }
                i = i + 1;
            }
        }
        proof {
            assert(i == all.len()) by {
                assert(all.skip(i).len() == 0);
            }
        }
        let clip = AnimationClip { path_mapping, curves };
        proof {
            assert forall|k: int| 0 <= k < all.len() implies #[trigger] clip.spec_ranges()[k] == (
                all[k].0,
                curve_offset(all, k) as u16,
                curve_offset(all, k + 1) as u16,
            ) by {
                assert(clip.spec_ranges()[k] == (clip.path_mapping@[k].0@, clip.path_mapping@[k].1, clip.path_mapping@[k].2));
            }
            if curve_offset(all, all.len() as int) <= u16::MAX {
                assert forall|k: int| 0 <= k <= all.len() implies curve_offset(all, k) as u16 == curve_offset(all, k) by {
                    lemma_curve_offset_monotone(all, 0, k);
                    lemma_curve_offset_monotone(all, k, all.len() as int);
                }
                let r = clip.spec_ranges();
                assert forall|k: int| 0 <= k < r.len() implies {
                    &&& (#[trigger] r[k]).1 <= r[k].2 <= clip.spec_curves().len()
                    &&& descriptors_ascending(clip.spec_curves().subrange(r[k].1 as int, r[k].2 as int))
                } by {
                    lemma_curve_offset_monotone(all, k, k + 1);
                    lemma_curve_offset_monotone(all, k + 1, all.len() as int);
                    assert(curve_offset(all, k) as u16 == curve_offset(all, k));
                    assert(curve_offset(all, k + 1) as u16 == curve_offset(all, k + 1));
                }
                assert forall|k: int| 0 <= k < r.len() - 1 implies (#[trigger] r[k]).2 == r[k + 1].1 by {
                    assert(curve_offset(all, k + 1) as u16 == curve_offset(all, k + 1));
                }
                if r.len() > 0 {
                    assert(curve_offset(all, 0) as u16 == curve_offset(all, 0));
                    assert(curve_offset(all, all.len() as int) as u16 == curve_offset(all, all.len() as int));
                }
                assert forall|k: int| 0 <= k < all.len() implies (#[trigger] r[k]).1 == curve_offset(all, k)
                    && r[k].2 == curve_offset(all, k + 1) by {
                    assert(curve_offset(all, k) as u16 == curve_offset(all, k));
                    assert(curve_offset(all, k + 1) as u16 == curve_offset(all, k + 1));
                }
            }
        }
        clip
    }
}

/// The curve for a label among labelled curves (label, descriptor, frame indices, keyframes).
pub open spec fn label_entry<T>(entries: Seq<(u64, CurveDescriptor, Seq<u16>, Seq<T>)>, label: u64) -> Option<(CurveDescriptor, Seq<u16>, Seq<T>)> {
    if exists|i: int| 0 <= i < entries.len() && (#[trigger] entries[i]).0 == label {
        let i = choose|i: int| 0 <= i < entries.len() && (#[trigger] entries[i]).0 == label;
        Some((entries[i].1, entries[i].2, entries[i].3))
    } else {
        None
    }
}

/// Are the labelled curves in strictly ascending order of their labels?
pub open spec fn labels_ascending<T>(entries: Seq<(u64, CurveDescriptor, Seq<u16>, Seq<T>)>) -> bool {
    forall|i: int, j: int| 0 <= i < j < entries.len() ==> (#[trigger] entries[i]).0 < (#[trigger] entries[j]).0
}

/// With labels in ascending order, the curve for the label at some position is the one there.
proof fn lemma_label_entry_at<T>(entries: Seq<(u64, CurveDescriptor, Seq<u16>, Seq<T>)>, i: int)
    requires
        labels_ascending(entries),
        0 <= i < entries.len(),
    ensures
        label_entry(entries, entries[i].0) == Some((entries[i].1, entries[i].2, entries[i].3)),
{
    let l = entries[i].0;
    assert(entries[i].0 == l);
    let j = choose|j: int| 0 <= j < entries.len() && (#[trigger] entries[j]).0 == l;
    if j < i {
        assert(entries[j].0 < entries[i].0);
    } else if j > i {
        assert(entries[i].0 < entries[j].0);
    }
}

/// The labelled curves of curve builders.
pub open spec fn labelled_of<T>(v: Seq<(u64, CurveDescriptor, CurveBuilder<T>)>) -> Seq<(u64, CurveDescriptor, Seq<u16>, Seq<T>)> {
    v.map_values(|e: (u64, CurveDescriptor, CurveBuilder<T>)| (e.0, e.1, e.2.spec_indices(), e.2.spec_keyframes()))
}

/// After a change at one label (an update in place, or an insertion where the order puts it),
/// the curves for all other labels stay.
proof fn lemma_other_labels<T>(
    before: Seq<(u64, CurveDescriptor, Seq<u16>, Seq<T>)>,
    after: Seq<(u64, CurveDescriptor, Seq<u16>, Seq<T>)>,
    i: int,
    inserted: bool,
    label: u64,
)
    requires
        labels_ascending(before),
        labels_ascending(after),
        0 <= i < after.len(),
        after[i].0 == label,
        inserted ==> after.len() == before.len() + 1 && forall|k: int| 0 <= k < before.len()
            ==> #[trigger] before[k] == if k < i { after[k] } else { after[k + 1] },
        !inserted ==> after.len() == before.len() && forall|k: int| 0 <= k < before.len() && k != i
            ==> #[trigger] before[k] == after[k],
        !inserted ==> before[i].0 == label,
    ensures
        forall|l: u64| l != label ==> #[trigger] label_entry(after, l) == label_entry(before, l),
{
    assert forall|l: u64| l != label implies #[trigger] label_entry(after, l) == label_entry(before, l) by {
        if exists|k: int| 0 <= k < before.len() && (#[trigger] before[k]).0 == l {
            let k = choose|k: int| 0 <= k < before.len() && (#[trigger] before[k]).0 == l;
            lemma_label_entry_at(before, k);
            let k2 = if inserted && k >= i { k + 1 } else { k };
            assert(after[k2] == before[k]);
            lemma_label_entry_at(after, k2);
        } else if exists|k: int| 0 <= k < after.len() && (#[trigger] after[k]).0 == l {
            let k = choose|k: int| 0 <= k < after.len() && (#[trigger] after[k]).0 == l;
            if inserted {
                if k < i {
                    assert(before[k] == after[k]);
                } else if k > i {
                    assert(before[k - 1] == after[k]);
                }
            } else if k != i {
                assert(before[k] == after[k]);
            }
        }
    }
}

/// Builder for animation [`Track`]s: one curve builder for each label (the field that a curve
/// animates), the labels in ascending order.
#[derive(Debug)]
pub struct TrackBuilder<T> {
    curves: Vec<(u64, CurveDescriptor, CurveBuilder<T>)>,
}

/// Index of the first curve whose label is not below `label`.
fn label_position<T>(curves: &Vec<(u64, CurveDescriptor, CurveBuilder<T>)>, label: u64) -> (i: usize)
    ensures
        i <= curves@.len(),
        forall|k: int| 0 <= k < i ==> (#[trigger] labelled_of(curves@)[k]).0 < label,
        i < curves@.len() ==> labelled_of(curves@)[i as int].0 >= label,
{
    let mut i: usize = 0;
    while i < curves.len() && curves[i].0 < label
        invariant
            i <= curves@.len(),
            forall|k: int| 0 <= k < i ==> (#[trigger] labelled_of(curves@)[k]).0 < label,
        decreases curves@.len() - i,
    {
        i = i + 1;
    }
    i
}

impl<T> TrackBuilder<T> {
    /// The curves so far: label, descriptor, frame indices and keyframes of each.
    pub closed spec fn entries(&self) -> Seq<(u64, CurveDescriptor, Seq<u16>, Seq<T>)> {
        labelled_of(self.curves@)
    }

    /// The labels are in ascending order.
    #[verifier::type_invariant]
    spec fn ascending(self) -> bool {
        labels_ascending(self.entries())
    }

    /// Create a track builder, with no curve yet.
    pub fn new() -> (b: TrackBuilder<T>)
        ensures
            b.entries() == Seq::<(u64, CurveDescriptor, Seq<u16>, Seq<T>)>::empty(),
    {
        let b = TrackBuilder { curves: Vec::new() };
        assert(b.entries() =~= Seq::<(u64, CurveDescriptor, Seq<u16>, Seq<T>)>::empty());
        b
    }

    /// Insert a curve builder at the position that the labels' order gives it.
    fn insert_curve(&mut self, label: u64, descriptor: CurveDescriptor, builder: CurveBuilder<T>)
        requires
            label_entry(old(self).entries(), label) is None,
        ensures
            labels_ascending(final(self).entries()),
            forall|l: u64| l != label ==> #[trigger] label_entry(final(self).entries(), l) == label_entry(old(self).entries(), l),
            label_entry(final(self).entries(), label) == Some((descriptor, builder.spec_indices(), builder.spec_keyframes())),
    {
        proof { use_type_invariant(&*self); }
        let ghost before = self.entries();
        let i = label_position(&self.curves, label);
        let mut curves = Vec::new();
        std::mem::swap(&mut curves, &mut self.curves);
        assert(labelled_of(curves@) == before);
        if i < curves.len() {
            assert(before[i as int].0 != label);
        }
        curves.insert(i, (label, descriptor, builder));
        let ghost after = labelled_of(curves@);
        proof {
            assert(after =~= before.insert(i as int, (label, descriptor, builder.spec_indices(), builder.spec_keyframes())));
            assert forall|a: int, b: int| 0 <= a < b < after.len() implies (#[trigger] after[a]).0 < (#[trigger] after[b]).0 by {
                if b < i {
                } else if b == i {
                } else if a < i {
                    assert(after[b] == before[b - 1]);
                    if i < b - 1 {
                        assert(before[i as int].0 < before[b - 1].0);
                    }
                } else if a == i {
                    assert(after[b] == before[b - 1]);
                    if i < b - 1 {
                        assert(before[i as int].0 < before[b - 1].0);
                    }
                } else {
                    assert(after[a] == before[a - 1] && after[b] == before[b - 1]);
                }
            }
            lemma_other_labels(before, after, i as int, true, label);
            lemma_label_entry_at(after, i as int);
        }
        self.curves = curves;
    }

    /// Prepare an empty curve for a label that has none yet.
    pub fn prepare_curve(&mut self, label: u64, descriptor: CurveDescriptor)
        requires
            label_entry(old(self).entries(), label) is None,
        ensures
            labels_ascending(final(self).entries()),
            forall|l: u64| l != label ==> #[trigger] label_entry(final(self).entries(), l) == label_entry(old(self).entries(), l),
            label_entry(final(self).entries(), label) == Some((descriptor, Seq::<u16>::empty(), Seq::<T>::empty())),
    {
        self.insert_curve(label, descriptor, CurveBuilder::new());
    }

    /// Push a keyframe at `frame` (as a `u16`) into the curve for `label`, a new curve with
    /// the given descriptor if the label has none yet.
    pub fn push_keyframe(&mut self, label: u64, descriptor: CurveDescriptor, frame: usize, value: T)
        ensures
            labels_ascending(final(self).entries()),
            forall|l: u64| l != label ==> #[trigger] label_entry(final(self).entries(), l) == label_entry(old(self).entries(), l),
            label_entry(final(self).entries(), label) == Some(match label_entry(old(self).entries(), label) {
                Some((d, ix, vs)) => (d, ix.push(frame as u16), vs.push(value)),
                None => (descriptor, seq![frame as u16], seq![value]),
            }),
    {
        proof { use_type_invariant(&*self); }
        let ghost before = self.entries();
        let i = label_position(&self.curves, label);
        if i < self.curves.len() && self.curves[i].0 == label {
            proof { lemma_label_entry_at(before, i as int); }
            let mut curves = Vec::new();
            std::mem::swap(&mut curves, &mut self.curves);
            assert(labelled_of(curves@) == before);
            let (l, d, mut b) = curves.remove(i);
            b.push_keyframe(frame as u16, value);
            curves.insert(i, (l, d, b));
            let ghost after = labelled_of(curves@);
            proof {
                assert(after =~= before.update(i as int, (l, d, b.spec_indices(), b.spec_keyframes())));
                assert forall|a: int, c: int| 0 <= a < c < after.len() implies (#[trigger] after[a]).0 < (#[trigger] after[c]).0 by {
                    assert(after[a].0 == before[a].0 && after[c].0 == before[c].0);
                }
                lemma_other_labels(before, after, i as int, false, label);
                lemma_label_entry_at(after, i as int);
            }
            self.curves = curves;
        } else {
            proof {
                if label_entry(before, label) is Some {
                    let k = choose|k: int| 0 <= k < before.len() && (#[trigger] before[k]).0 == label;
                    if k > i {
                        assert(before[i as int].0 < before[k].0);
                    }
                }
            }
            let mut b = CurveBuilder::new();
            b.push_keyframe(frame as u16, value);
            assert(b.spec_indices() =~= seq![frame as u16]);
            assert(b.spec_keyframes() =~= seq![value]);
            self.insert_curve(label, descriptor, b);
        }
    }
}

impl<T> Default for TrackBuilder<T> {
    fn default() -> (b: TrackBuilder<T>)
        ensures
            b.entries() == Seq::<(u64, CurveDescriptor, Seq<u16>, Seq<T>)>::empty(),
    {
        TrackBuilder::new()
    }
}

impl<T> TrackBuilder<T> {
    /// Finish building this track: a keyframe curve (whose field accessor is its label) for
    /// each label with at least one keyframe, in ascending order of the labels.
    pub fn finish(self) -> (t: Track<KeyframeCurve<u64, T>>)
        ensures
            forall|j: int| 0 <= j < t.0@.len() ==> {
                let (d, c) = #[trigger] t.0@[j];
                &&& c.spec_indices().len() > 0
                &&& label_entry(self.entries(), c.spec_field()) == Some((d, c.spec_indices(), c.spec_keyframes()))
            },
            forall|j: int, k: int| 0 <= j < k < t.0@.len() ==> (#[trigger] t.0@[j]).1.spec_field() < (#[trigger] t.0@[k]).1.spec_field(),
            forall|l: u64| (#[trigger] label_entry(self.entries(), l) matches Some((d, ix, vs)) && ix.len() > 0)
                ==> exists|j: int| 0 <= j < t.0@.len() && (#[trigger] t.0@[j]).1.spec_field() == l,
    {
        proof { use_type_invariant(&self); }
        let ghost all = self.entries();
        let mut rest = self.curves;
        let mut out: Vec<(CurveDescriptor, KeyframeCurve<u64, T>)> = Vec::new();
        let ghost mut i: int = 0;
        assert(labelled_of(rest@) =~= all.skip(0));
        while rest.len() > 0
            invariant
                labels_ascending(all),
                0 <= i <= all.len(),
                labelled_of(rest@) == all.skip(i),
                forall|j: int| 0 <= j < out@.len() ==> {
                    let (d, c) = #[trigger] out@[j];
                    &&& c.spec_indices().len() > 0
                    &&& label_entry(all, c.spec_field()) == Some((d, c.spec_indices(), c.spec_keyframes()))
                    &&& exists|m: int| 0 <= m < i && (#[trigger] all[m]).0 == c.spec_field()
                },
                forall|j: int, k: int| 0 <= j < k < out@.len() ==> (#[trigger] out@[j]).1.spec_field() < (#[trigger] out@[k]).1.spec_field(),
                forall|m: int| 0 <= m < i && (#[trigger] all[m]).2.len() > 0
                    ==> exists|j: int| 0 <= j < out@.len() && (#[trigger] out@[j]).1.spec_field() == all[m].0,
            decreases rest@.len(),
        {
            let ghost old_rest = rest@;
            let ghost old_out = out@;
            let (label, descriptor, builder) = rest.remove(0);
            proof {
                assert(all.skip(i).len() == old_rest.len());
                assert(all.skip(i)[0] == all[i]);
                assert(labelled_of(old_rest)[0] == all[i]);
                assert(rest@ =~= old_rest.subrange(1, old_rest.len() as int));
                assert(labelled_of(rest@) =~= labelled_of(old_rest).drop_first());
                assert(all.skip(i).drop_first() =~= all.skip(i + 1));
                lemma_label_entry_at(all, i);
            }
            match builder.finish(label) {
                Some(c) => {
                    out.push((descriptor, c));
                    proof {
                        assert(out@[old_out.len() as int] == (descriptor, c));
                        assert forall|j: int| 0 <= j < old_out.len() implies out@[j].1.spec_field() < label by {
                            assert(out@[j] == old_out[j]);
                            let m = choose|m: int| 0 <= m < i && (#[trigger] all[m]).0 == old_out[j].1.spec_field();
                            assert(all[m].0 < all[i].0);
                        }
                        assert forall|m: int| 0 <= m < i + 1 && (#[trigger] all[m]).2.len() > 0 implies exists|j: int|
                            0 <= j < out@.len() && (#[trigger] out@[j]).1.spec_field() == all[m].0 by {
                            if m < i {
                                let j = choose|j: int| 0 <= j < old_out.len() && (#[trigger] old_out[j]).1.spec_field() == all[m].0;
                                assert(out@[j] == old_out[j]);
                            } else {
                                assert(out@[old_out.len() as int].1.spec_field() == all[m].0);
                            }
                        }
                        assert forall|j: int| 0 <= j < out@.len() implies {
                            let (d, c) = #[trigger] out@[j];
                            &&& c.spec_indices().len() > 0
                            &&& label_entry(all, c.spec_field()) == Some((d, c.spec_indices(), c.spec_keyframes()))
                            &&& exists|m: int| 0 <= m < i + 1 && (#[trigger] all[m]).0 == c.spec_field()
                        } by {
                            if j < old_out.len() {
                                assert(out@[j] == old_out[j]);
                                let m = choose|m: int| 0 <= m < i && (#[trigger] all[m]).0 == old_out[j].1.spec_field();
                                assert(all[m].0 == out@[j].1.spec_field());
                            } else {
                                assert(all[i].0 == out@[j].1.spec_field());
                            }
                        }
                    }
                },
                None => {
                    proof {
                        assert forall|j: int| 0 <= j < out@.len() implies {
                            let (d, c) = #[trigger] out@[j];
                            exists|m: int| 0 <= m < i + 1 && (#[trigger] all[m]).0 == c.spec_field()
                        } by {
                            let m = choose|m: int| 0 <= m < i && (#[trigger] all[m]).0 == out@[j].1.spec_field();
                            assert(all[m].0 == out@[j].1.spec_field());
                        }
                    }
                },
            }
            proof { i = i + 1; }
        }
        proof {
            assert(i == all.len()) by {
                assert(all.skip(i).len() == 0);
            }
            assert forall|l: u64| (#[trigger] label_entry(all, l) matches Some((d, ix, vs)) && ix.len() > 0)
                implies exists|j: int| 0 <= j < out@.len() && (#[trigger] out@[j]).1.spec_field() == l by {
                let m = choose|m: int| 0 <= m < all.len() && (#[trigger] all[m]).0 == l;
                lemma_label_entry_at(all, m);
                assert(all[m].2.len() > 0);
            }
        }
        Track(out)
    }
}

/// Two lists of curves with the same curves (as a multiset), the second with pairwise different
/// fields: each holds the other's curves, and the first has pairwise different fields too.
pub(crate) proof fn lemma_permuted_curves<T>(
    part: Seq<(CurveDescriptor, KeyframeCurve<u64, T>)>,
    src: Seq<(CurveDescriptor, KeyframeCurve<u64, T>)>,
)
    requires
        part.to_multiset() == src.to_multiset(),
        forall|j: int, k: int| 0 <= j < k < src.len() ==> (#[trigger] src[j]).1.spec_field() != (#[trigger] src[k]).1.spec_field(),
    ensures
        forall|j: int| 0 <= j < part.len() ==> src.contains(#[trigger] part[j]),
        forall|j: int| 0 <= j < src.len() ==> part.contains(#[trigger] src[j]),
        forall|j: int, k: int| 0 <= j < k < part.len() ==> (#[trigger] part[j]).1.spec_field() != (#[trigger] part[k]).1.spec_field(),
{
    broadcast use vstd::seq_lib::to_multiset_contains;
    assert forall|j: int| 0 <= j < part.len() implies src.contains(#[trigger] part[j]) by {
        assert(part.contains(part[j]));
        assert(part.to_multiset().count(part[j]) > 0);
    }
    assert forall|j: int| 0 <= j < src.len() implies part.contains(#[trigger] src[j]) by {
        assert(src.contains(src[j]));
        assert(src.to_multiset().count(src[j]) > 0);
    }
    assert(src.no_duplicates()) by {
        assert forall|j: int, k: int| 0 <= j < src.len() && 0 <= k < src.len() && j != k implies src[j] != src[k] by {
            if j < k {
                assert(src[j].1.spec_field() != src[k].1.spec_field());
            } else {
                assert(src[k].1.spec_field() != src[j].1.spec_field());
            }
        }
    }
    src.lemma_multiset_has_no_duplicates();
    part.lemma_multiset_has_no_duplicates_conv();
    assert forall|j: int, k: int| 0 <= j < k < part.len() implies (#[trigger] part[j]).1.spec_field() != (#[trigger] part[k]).1.spec_field() by {
        assert(src.contains(part[j]));
        assert(src.contains(part[k]));
        let a = choose|a: int| 0 <= a < src.len() && src[a] == part[j];
        let b = choose|b: int| 0 <= b < src.len() && src[b] == part[k];
        assert(part[j] != part[k]);
        if a < b {
            assert(src[a].1.spec_field() != src[b].1.spec_field());
        } else if b < a {
            assert(src[b].1.spec_field() != src[a].1.spec_field());
        }
    }
}

} // verus!
