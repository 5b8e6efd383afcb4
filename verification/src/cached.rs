//! Keys kept in raw form (a string, usually), used to index into some collection, together
//! with a cached handle (an index, say) that speeds up subsequent access.
//!
//! Keys are optional strings, ordered as `Option<String>` orders them: an absent key first,
//! then strings lexicographically by character (which is the byte order of their UTF-8
//! encodings).

use vstd::prelude::*;
use crate::stream::views;

verus! {

broadcast use vstd::seq_lib::group_to_multiset_ensures;

/// Strict lexicographic order on strings, by character.
pub open spec fn str_lt(a: Seq<char>, b: Seq<char>) -> bool
    decreases a.len(),
{
    if b.len() == 0 {
        false
    } else if a.len() == 0 {
        true
    } else if a[0] != b[0] {
        a[0] < b[0]
    } else {
        str_lt(a.drop_first(), b.drop_first())
    }
}

/// No string is below itself.
pub proof fn lemma_str_lt_irreflexive(a: Seq<char>)
    ensures
        !str_lt(a, a),
    decreases a.len(),
{
    if a.len() > 0 {
        lemma_str_lt_irreflexive(a.drop_first());
    }
}

/// Of two different strings, one is below the other, and never both.
pub proof fn lemma_str_lt_total(a: Seq<char>, b: Seq<char>)
    ensures
        a != b ==> (str_lt(a, b) || str_lt(b, a)),
        !(str_lt(a, b) && str_lt(b, a)),
    decreases a.len(),
{
    if a.len() == 0 || b.len() == 0 {
        if a.len() == 0 && b.len() == 0 {
            assert(a =~= b);
        }
    } else if a[0] != b[0] {
    } else {
        let (a1, b1) = (a.drop_first(), b.drop_first());
        lemma_str_lt_total(a1, b1);
        assert(str_lt(a, b) == str_lt(a1, b1));
        assert(str_lt(b, a) == str_lt(b1, a1));
        if a1 == b1 {
            assert(a =~= seq![a[0]] + a1);
            assert(b =~= seq![b[0]] + b1);
        }
    }
}

/// The strict order is transitive.
pub proof fn lemma_str_lt_transitive(a: Seq<char>, b: Seq<char>, c: Seq<char>)
    requires
        str_lt(a, b),
        str_lt(b, c),
    ensures
        str_lt(a, c),
    decreases a.len(),
{
    if a.len() > 0 && a[0] == b[0] && b[0] == c[0] {
        lemma_str_lt_transitive(a.drop_first(), b.drop_first(), c.drop_first());
    }
}

/// Is `a` strictly below `b` in the string order?
pub fn str_less(a: &str, b: &str) -> (r: bool)
    ensures
        r == str_lt(a@, b@),
{
    let n: usize = a.unicode_len();
    let m: usize = b.unicode_len();
    let mut i: usize = 0;
    assert(a@.skip(0) =~= a@);
    assert(b@.skip(0) =~= b@);
    while i < n && i < m
        invariant
            n == a@.len(),
            m == b@.len(),
            i <= n,
            i <= m,
            str_lt(a@, b@) == str_lt(a@.skip(i as int), b@.skip(i as int)),
        decreases n - i,
    {
        let x = a.get_char(i);
        let y = b.get_char(i);
        if x != y {
            return x < y;
        }
        assert(a@.skip(i as int).drop_first() =~= a@.skip(i + 1));
        assert(b@.skip(i as int).drop_first() =~= b@.skip(i + 1));
        i = i + 1;
    }
    i < m
}

/// Are the two strings the same?
pub fn str_equal(a: &str, b: &str) -> (r: bool)
    ensures
        r == (a@ == b@),
{
    let n: usize = a.unicode_len();
    let m: usize = b.unicode_len();
    if n != m {
        return false;
    }
    let mut i: usize = 0;
    while i < n
        invariant
            n == a@.len(),
            m == b@.len(),
            n == m,
            i <= n,
            forall|j: int| 0 <= j < i ==> a@[j] == b@[j],
        decreases n - i,
    {
        if a.get_char(i) != b.get_char(i) {
            return false;
        }
        i = i + 1;
    }
    assert(a@ =~= b@);
    true
}

/// Model of an optional string key.
pub open spec fn key_view(k: Option<&str>) -> Option<Seq<char>> {
    match k {
        Some(s) => Some(s@),
        None => None,
    }
}

/// Strict order on keys: an absent key comes first, present keys are in string order.
pub open spec fn key_lt(a: Option<Seq<char>>, b: Option<Seq<char>>) -> bool {
    match (a, b) {
        (None, Some(_)) => true,
        (Some(x), Some(y)) => str_lt(x, y),
        _ => false,
    }
}

/// Non-strict order on keys.
pub open spec fn key_le(a: Option<Seq<char>>, b: Option<Seq<char>>) -> bool {
    !key_lt(b, a)
}

/// No key is below itself.
pub proof fn lemma_key_lt_irreflexive(a: Option<Seq<char>>)
    ensures
        !key_lt(a, a),
{
    if let Some(x) = a {
        lemma_str_lt_irreflexive(x);
    }
}

/// Of two different keys, one is below the other, and never both.
pub proof fn lemma_key_lt_total(a: Option<Seq<char>>, b: Option<Seq<char>>)
    ensures
        a != b ==> (key_lt(a, b) || key_lt(b, a)),
        !(key_lt(a, b) && key_lt(b, a)),
{
    if let (Some(x), Some(y)) = (a, b) {
        lemma_str_lt_total(x, y);
    }
}

/// The strict key order is transitive.
pub proof fn lemma_key_lt_transitive(a: Option<Seq<char>>, b: Option<Seq<char>>, c: Option<Seq<char>>)
    requires
        key_lt(a, b),
        key_lt(b, c),
    ensures
        key_lt(a, c),
{
    if let (Some(x), Some(y), Some(z)) = (a, b, c) {
        lemma_str_lt_transitive(x, y, z);
    }
}

/// Mixed transitivity: below-or-equal, then strictly below.
pub proof fn lemma_key_le_lt(a: Option<Seq<char>>, b: Option<Seq<char>>, c: Option<Seq<char>>)
    requires
        key_le(a, b),
        key_lt(b, c),
    ensures
        key_lt(a, c),
{
    lemma_key_lt_total(a, b);
    if a != b {
        lemma_key_lt_transitive(a, b, c);
    }
}

/// Mixed transitivity: strictly below, then below-or-equal.
pub proof fn lemma_key_lt_le(a: Option<Seq<char>>, b: Option<Seq<char>>, c: Option<Seq<char>>)
    requires
        key_lt(a, b),
        key_le(b, c),
    ensures
        key_lt(a, c),
{
    lemma_key_lt_total(b, c);
    if b != c {
        lemma_key_lt_transitive(a, b, c);
    }
}

/// Is key `a` strictly below key `b`?
pub fn key_less(a: Option<&str>, b: Option<&str>) -> (r: bool)
    ensures
        r == key_lt(key_view(a), key_view(b)),
{
    match (a, b) {
        (None, Some(_)) => true,
        (Some(x), Some(y)) => str_less(x, y),
        _ => false,
    }
}

/// Are the two keys the same?
pub fn key_equal(a: Option<&str>, b: Option<&str>) -> (r: bool)
    ensures
        r == (key_view(a) == key_view(b)),
{
    match (a, b) {
        (None, None) => true,
        (Some(x), Some(y)) => str_equal(x, y),
        _ => false,
    }
}

/// Entries in linear homogeneous collections.
pub trait EntryWithKey: View {
    /// The key of this entry.
    spec fn spec_key(&self) -> Option<Seq<char>>;

    /// Get the key in this entry.
    fn key(&self) -> (k: Option<&str>)
        ensures
            key_view(k) == self.spec_key(),
    ;
}

/// Are the entries sorted by key?
pub open spec fn sorted_by_key<T: EntryWithKey>(s: Seq<T>) -> bool {
    forall|i: int, j: int| 0 <= i < j < s.len() ==> key_le(#[trigger] s[i].spec_key(), #[trigger] s[j].spec_key())
}

/// Does some entry have the given key?
pub open spec fn has_entry_with_key<T: EntryWithKey>(s: Seq<T>, key: Option<Seq<char>>) -> bool {
    exists|i: int| 0 <= i < s.len() && #[trigger] s[i].spec_key() == key
}

/// Container of key-value pairs, equipped with a handle type to speed up lookup.
pub trait ContainerWithKey {
    /// Key for fast lookup: indices into arrays, for instance. Should be cheap to copy.
    type Handle;
    /// Value type, usually the entries in the container.
    type Value;

    /// Does the handle denote a value in this container?
    spec fn valid_handle(&self, handle: Self::Handle) -> bool;

    /// The value that a valid handle denotes.
    spec fn value_at(&self, handle: Self::Handle) -> Self::Value;

    /// The key of the value that a valid handle denotes.
    spec fn key_at(&self, handle: Self::Handle) -> Option<Seq<char>>;

    /// Does some value in the container have this key?
    spec fn contains_key(&self, key: Option<Seq<char>>) -> bool;

    /// Access the values in the container by handle. Should be a cheap operation.
    fn get_by_handle(&self, handle: Self::Handle) -> (v: &Self::Value)
        requires
            self.valid_handle(handle),
        ensures
            *v == self.value_at(handle),
    ;

    /// Get the handle for the specific key, for access and for caching. Potentially expensive, so
    /// cache the handle somewhere to avoid calling this method repeatedly (i.e., use [`Cached`]).
    fn get_by_key(&self, key: Option<&str>) -> (h: Option<Self::Handle>)
        ensures
            match h {
                Some(h) => self.valid_handle(h) && self.key_at(h) == key_view(key),
                None => !self.contains_key(key_view(key)),
            },
    ;
}

/// Entries sorted by their keys.
#[derive(Debug)]
pub struct SortedSlice<T: EntryWithKey>(Vec<T>);

impl<T: EntryWithKey> SortedSlice<T> {
    /// The entries, in order.
    pub closed spec fn entries(self) -> Seq<T> {
        self.0@
    }

    /// The entries are sorted by key.
    #[verifier::type_invariant]
    pub open spec fn sorted(self) -> bool {
        sorted_by_key(self.entries())
    }

    /// Sort the entries by key. Entries with equal keys may come out in any order.
    pub fn from(xs: Vec<T>) -> (s: SortedSlice<T>)
        ensures
            s.entries().to_multiset() == xs@.to_multiset(),
            views(s.entries()).to_multiset() == views(xs@).to_multiset(),
            sorted_by_key(s.entries()),
    {
        let ghost all = xs@;
        let mut rest = xs;
        let mut out: Vec<T> = Vec::new();
        while rest.len() > 0
            invariant
                sorted_by_key(out@),
                out@.to_multiset().add(rest@.to_multiset()) == all.to_multiset(),
                views(out@).to_multiset().add(views(rest@).to_multiset()) == views(all).to_multiset(),
            decreases rest@.len(),
        {
            let ghost before = rest@;
            let x = rest.pop().unwrap();
            assert(before =~= rest@.push(x));
            let pos = insertion_point(&out, x.key());
            let ghost old_out = out@;
            out.insert(pos, x);
            proof {
                assert forall|i: int, j: int| 0 <= i < j < out@.len() implies key_le(
                    #[trigger] out@[i].spec_key(),
                    #[trigger] out@[j].spec_key(),
                ) by {
                    if j < pos {
                    } else if j == pos {
                        assert(key_le(old_out[i].spec_key(), x.spec_key()));
                    } else if i < pos {
                        assert(key_le(old_out[i].spec_key(), old_out[j - 1].spec_key()));
                    } else if i == pos {
                        lemma_key_lt_total(x.spec_key(), old_out[j - 1].spec_key());
                        if pos < j - 1 {
                            assert(key_le(old_out[pos as int].spec_key(), old_out[j - 1].spec_key()));
                            lemma_key_lt_le(x.spec_key(), old_out[pos as int].spec_key(), old_out[j - 1].spec_key());
                        }
                    } else {
                        assert(key_le(old_out[i - 1].spec_key(), old_out[j - 1].spec_key()));
                    }
                }
                assert(out@.to_multiset() == old_out.to_multiset().insert(x));
                assert(before.to_multiset() == rest@.to_multiset().insert(x));
                broadcast use vstd::multiset::group_multiset_axioms;
                assert(out@.to_multiset().add(rest@.to_multiset()) =~= all.to_multiset());
                assert(views(out@) =~= views(old_out).insert(pos as int, x@));
                assert(views(before) =~= views(rest@).push(x@));
                assert(views(out@).to_multiset() == views(old_out).to_multiset().insert(x@));
                assert(views(before).to_multiset() == views(rest@).to_multiset().insert(x@));
                assert(views(out@).to_multiset().add(views(rest@).to_multiset()) =~= views(all).to_multiset());
            }
        }
        proof {
            broadcast use vstd::multiset::group_multiset_axioms;
            assert(rest@ =~= Seq::<T>::empty());
            assert(out@.to_multiset() =~= all.to_multiset());
            assert(views(rest@) =~= Seq::<T::V>::empty());
            assert(views(out@).to_multiset() =~= views(all).to_multiset());
        }
        SortedSlice(out)
    }

    /// Number of entries.
    pub fn len(&self) -> (n: usize)
        ensures
            n == self.entries().len(),
    {
        self.0.len()
    }

    /// The entries, in order.
    pub fn as_slice(&self) -> (s: &[T])
        ensures
            s@ == self.entries(),
    {
        self.0.as_slice()
    }

    /// Find an entry with the given key, by binary search. Where several entries have that key,
    /// any one of them may be found.
    pub fn binary_search_by_key(&self, key: Option<&str>) -> (r: Option<usize>)
        ensures
            match r {
                Some(k) => k < self.entries().len() && self.entries()[k as int].spec_key() == key_view(key),
                None => !has_entry_with_key(self.entries(), key_view(key)),
            },
    {
        proof {
            use_type_invariant(self);
        }
        let mut lo: usize = 0;
        let mut hi: usize = self.0.len();
        while lo < hi
            invariant
                hi <= self.0@.len(),
                lo <= hi,
                sorted_by_key(self.0@),
                forall|i: int| 0 <= i < lo ==> key_lt(#[trigger] self.0@[i].spec_key(), key_view(key)),
                forall|i: int| hi <= i < self.0@.len() ==> key_lt(key_view(key), #[trigger] self.0@[i].spec_key()),
            decreases hi - lo,
        {
            let mid: usize = lo + (hi - lo) / 2;
            let k = self.0[mid].key();
            if key_less(k, key) {
                proof {
                    assert forall|i: int| 0 <= i < mid + 1 implies key_lt(#[trigger] self.0@[i].spec_key(), key_view(key)) by {
                        if i < mid {
                            lemma_key_le_lt(self.0@[i].spec_key(), self.0@[mid as int].spec_key(), key_view(key));
                        }
                    }
                }
                lo = mid + 1;
            } else if key_equal(k, key) {
                return Some(mid);
            } else {
                proof {
                    lemma_key_lt_total(key_view(k), key_view(key));
                    assert forall|i: int| mid <= i < self.0@.len() implies key_lt(key_view(key), #[trigger] self.0@[i].spec_key()) by {
                        if i > mid {
                            lemma_key_lt_le(key_view(key), self.0@[mid as int].spec_key(), self.0@[i].spec_key());
                        }
                    }
                }
                hi = mid;
            }
        }
        proof {
            assert forall|i: int| 0 <= i < self.0@.len() implies #[trigger] self.0@[i].spec_key() != key_view(key) by {
                lemma_key_lt_irreflexive(key_view(key));
            }
        }
        None
    }
}

/// Insertion point of a key in sorted entries: after all entries with a key below or equal.
fn insertion_point<T: EntryWithKey>(xs: &Vec<T>, key: Option<&str>) -> (pos: usize)
    requires
        sorted_by_key(xs@),
    ensures
        pos <= xs@.len(),
        forall|i: int| 0 <= i < pos ==> key_le(#[trigger] xs@[i].spec_key(), key_view(key)),
        forall|i: int| pos <= i < xs@.len() ==> key_lt(key_view(key), #[trigger] xs@[i].spec_key()),
{
    let mut pos: usize = xs.len();
    while pos > 0
        invariant
            pos <= xs@.len(),
            sorted_by_key(xs@),
            forall|i: int| pos <= i < xs@.len() ==> key_lt(key_view(key), #[trigger] xs@[i].spec_key()),
        decreases pos,
    {
        let k = xs[pos - 1].key();
        if key_less(key, k) {
            pos = pos - 1;
        } else {
            proof {
                assert forall|i: int| 0 <= i < pos implies key_le(#[trigger] xs@[i].spec_key(), key_view(key)) by {
                    if i < pos - 1 {
                        lemma_key_lt_total(xs@[i].spec_key(), key_view(key));
                        if key_lt(key_view(key), xs@[i].spec_key()) {
                            lemma_key_lt_le(key_view(key), xs@[i].spec_key(), xs@[pos - 1].spec_key());
                        }
                    }
                }
            }
            return pos;
        }
    }
    pos
}

impl<E: EntryWithKey> ContainerWithKey for SortedSlice<E> {
    type Handle = usize;
    type Value = E;

    open spec fn valid_handle(&self, handle: usize) -> bool {
        handle < self.entries().len()
    }

    open spec fn value_at(&self, handle: usize) -> E {
        self.entries()[handle as int]
    }

    open spec fn key_at(&self, handle: usize) -> Option<Seq<char>> {
        self.entries()[handle as int].spec_key()
    }

    open spec fn contains_key(&self, key: Option<Seq<char>>) -> bool {
        has_entry_with_key(self.entries(), key)
    }

    fn get_by_handle(&self, handle: usize) -> (v: &E) {
        &self.0[handle]
    }

    fn get_by_key(&self, key: Option<&str>) -> (h: Option<usize>) {
        self.binary_search_by_key(key)
    }
}

/// Raw key storage with cached handle.
#[derive(Debug)]
pub struct Cached<K, I> {
    /// Raw key to be serialized to the storage.
    pub raw_key: K,
    /// Cached shortcut version for this key: filled in once, by the first successful lookup.
    pub cached: Option<I>,
}

impl<K, I> Cached<K, I> {
    /// A raw key with nothing cached yet.
    pub fn from(raw_key: K) -> (c: Cached<K, I>)
        ensures
            c.raw_key == raw_key,
            c.cached is None,
    {
        Cached { raw_key, cached: None }
    }
}

impl<I: Copy> Cached<String, I> {
    /// Get from a container, and cache the handle for shortcut.
    /// If the result is a [`Some`], the handle is properly cached.
    pub fn get_or_init<'a, C: ContainerWithKey<Handle = I>>(&mut self, container: &'a C) -> (r: Option<&'a C::Value>)
        requires
            old(self).cached matches Some(h) ==> container.valid_handle(h),
        ensures
            final(self).raw_key == old(self).raw_key,
            match old(self).cached {
                Some(h) => final(self).cached == Some(h) && (r matches Some(v) && *v == container.value_at(h)),
                None => match final(self).cached {
                    Some(h) => container.valid_handle(h) && container.key_at(h) == Some(old(self).raw_key@)
                        && (r matches Some(v) && *v == container.value_at(h)),
                    None => r is None && !container.contains_key(Some(old(self).raw_key@)),
                },
            },
    {
        let handle = match self.cached {
            Some(h) => h,
            None => match container.get_by_key(Some(self.raw_key.as_str())) {
                Some(h) => {
                    self.cached = Some(h);
                    h
                },
                None => return None,
            },
        };
        Some(container.get_by_handle(handle))
    }
}

impl<I: Copy> Cached<String, I> {
    /// The handle for this key in a container: the cached one if there is one, else the result
    /// of a lookup (which is not stored).
    pub fn handle_in<C: ContainerWithKey<Handle = I>>(&self, container: &C) -> (h: Option<I>)
        ensures
            match self.cached {
                Some(c) => h == Some(c),
                None => match h {
                    Some(x) => container.valid_handle(x) && container.key_at(x) == Some(self.raw_key@),
                    None => !container.contains_key(Some(self.raw_key@)),
                },
            },
    {
        match self.cached {
            Some(c) => Some(c),
            None => container.get_by_key(Some(self.raw_key.as_str())),
        }
    }
}

} // verus!
