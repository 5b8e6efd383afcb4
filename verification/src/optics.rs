//! Optics: composable accessors into data (lenses, prisms, and the rest of the hierarchy),
//! each kind with the laws it obeys.
//!
//! The mathematical content of an optics is a pair of functions: `spec_preview`, the target
//! if there is one, and `spec_set`, the data with the target replaced. Errors carry no
//! meaning beyond "no target".

use vstd::prelude::*;
use std::marker::PhantomData;

verus! {

/// Any optics: a view type associated.
pub trait Optics<T> {
    /// View type for this optics.
    type View;
}

/// Optics with a success type and an error type associated.
pub trait OpticsFallible {
    /// Success type for this optics.
    type Success;
    /// Error type for this optics.
    type Error;

    /// The witness for success of this optics.
    spec fn spec_success_witness(&self) -> Self::Success;

    /// Get a lightweight witness for success.
    fn success_witness(&self) -> (w: Self::Success)
        ensures
            w == self.spec_success_witness(),
    ;
}

/// AffineFold: getter, but may fail.
pub trait AffineFold<T>: Optics<T> + OpticsFallible {
    /// The target, if there is one.
    spec fn spec_preview(&self, s: T) -> Option<Self::View>;

    /// Retrieve the value targeted by an AffineFold.
    fn preview(&self, s: T) -> (r: Result<Self::View, Self::Error>)
        ensures
            match r {
                Ok(v) => self.spec_preview(s) == Some(v),
                Err(_) => self.spec_preview(s) is None,
            },
    ;
}

/// AffineFold, with shared references.
pub trait AffineFoldRef<'a, T: 'a>: AffineFold<T> {
    /// Retrieve a shared reference the value targeted by an AffineFold.
    fn preview_ref(&self, s: &'a T) -> (r: Result<&'a Self::View, Self::Error>)
        ensures
            match r {
                Ok(v) => self.spec_preview(*s) == Some(*v),
                Err(_) => self.spec_preview(*s) is None,
            },
    ;
}

/// Getter: an AffineFold that never fails.
pub trait Getter<T>: AffineFold<T> {
    /// The value pointed to.
    spec fn spec_view(&self, s: T) -> Self::View;

    /// View the value pointed to by a getter.
    fn view(&self, s: T) -> (r: Self::View)
        ensures
            r == self.spec_view(s),
    ;

    /// A getter always has a target: its view.
    proof fn lemma_preview_is_view(&self, s: T)
        ensures
            self.spec_preview(s) == Some(self.spec_view(s)),
    ;
}

/// Getter, with shared references.
pub trait GetterRef<'a, T: 'a>: Getter<T> {
    /// Get a shared reference to the value pointed to by a getter.
    fn view_ref(&self, s: &'a T) -> (r: &'a Self::View)
        ensures
            *r == self.spec_view(*s),
    ;
}

/// AffineFold, with mutable references: writing through the reference sets the target.
pub trait AffineFoldMut<'a, T: 'a>: AffineTraversal<T> {
    /// Retrieve a mutable reference the value targeted by an AffineFold.
    fn preview_mut(&self, s: &'a mut T) -> (r: Result<&'a mut Self::View, Self::Error>)
        ensures
            match r {
                Ok(v) => self.spec_preview(*old(s)) == Some(*v) && *final(s) == self.spec_set(*old(s), *final(v)),
                Err(_) => self.spec_preview(*old(s)) is None && *final(s) == *old(s),
            },
    ;
}

/// Getter, with mutable references: writing through the reference sets the target.
pub trait GetterMut<'a, T: 'a>: Getter<T> + AffineFoldMut<'a, T> {
    /// Get a mutable reference to the value pointed to by a getter.
    fn view_mut(&self, s: &'a mut T) -> (r: &'a mut Self::View)
        ensures
            *r == self.spec_view(*old(s)),
            *final(s) == self.spec_set(*old(s), *final(r)),
    ;
}

/// Review: dual of getter.
pub trait Review<T>: Optics<T> {
    /// The data built from a value.
    spec fn spec_review(&self, a: Self::View) -> T;

    /// Retrieve the value targeted by a review.
    fn review(&self, a: Self::View) -> (r: T)
        ensures
            r == self.spec_review(a),
    ;
}

/// Setter.
pub trait Setter<T>: Optics<T> {
    /// The data with every target replaced by `a`.
    spec fn spec_set(&self, s: T, a: Self::View) -> T;

    /// Replace every target by `a`.
    fn set(&self, s: &mut T, a: Self::View)
        ensures
            *final(s) == self.spec_set(*old(s), a),
    ;
}

/// Traversal (and also Fold).
pub trait Traversal<T>: Setter<T> {
    /// The targets, from left to right.
    spec fn spec_elements(&self, s: T) -> Seq<Self::View>;

    /// Flatten the elements targeted by this Traversal into a [`Vec`].
    fn flatten(&self, s: T) -> (v: Vec<Self::View>)
        ensures
            v@ == self.spec_elements(s),
    ;
}

/// AffineTraversal: at most one target; usually composition of [`Lens`]es and [`Prism`]s.
///
/// Laws: setting where there is no target changes nothing; setting where there is a target
/// makes it the new target; setting the target to itself changes nothing; the second of two
/// settings wins; and the elements are the target, if any.
pub trait AffineTraversal<T>: Traversal<T> + AffineFold<T> {
    /// Setting where there is no target changes nothing.
    proof fn lemma_set_missing(&self, s: T, a: Self::View)
        ensures
            self.spec_preview(s) is None ==> self.spec_set(s, a) == s,
    ;

    /// Setting where there is a target makes `a` the target.
    proof fn lemma_preview_set(&self, s: T, a: Self::View)
        requires
            self.spec_preview(s) is Some,
        ensures
            self.spec_preview(self.spec_set(s, a)) == Some(a),
    ;

    /// Setting the target to itself changes nothing.
    proof fn lemma_set_preview(&self, s: T, a: Self::View)
        requires
            self.spec_preview(s) == Some(a),
        ensures
            self.spec_set(s, a) == s,
    ;

    /// The second of two settings wins.
    proof fn lemma_set_set(&self, s: T, a: Self::View, b: Self::View)
        ensures
            self.spec_set(self.spec_set(s, a), b) == self.spec_set(s, b),
    ;

    /// The elements of an affine traversal are its target, if any.
    proof fn lemma_elements_preview(&self, s: T)
        ensures
            self.spec_elements(s) == match self.spec_preview(s) {
                Some(v) => seq![v],
                None => Seq::empty(),
            },
    ;
}

/// Lens: getter and setter.
pub trait Lens<T>: Getter<T> + AffineTraversal<T> {}

/// Prism: review and setter.
pub trait Prism<T>: Review<T> + AffineTraversal<T> {
    /// What a review builds previews back to the value.
    proof fn lemma_preview_review(&self, a: Self::View)
        ensures
            self.spec_preview(self.spec_review(a)) == Some(a),
    ;

    /// Data with a target is the review of that target.
    proof fn lemma_review_preview(&self, s: T, a: Self::View)
        requires
            self.spec_preview(s) == Some(a),
        ensures
            self.spec_review(a) == s,
    ;
}

/// Isomorphisms: getter and review.
pub trait Iso<T>: Getter<T> + Review<T> + Lens<T> + Prism<T> {}

/// A lens: viewing what was set gives it back, and setting what is viewed changes nothing.
pub proof fn lemma_lens_laws<T, L: Lens<T>>(l: L, s: T, a: L::View)
    ensures
        l.spec_view(l.spec_set(s, a)) == a,
        l.spec_set(s, l.spec_view(s)) == s,
{
    l.lemma_preview_is_view(s);
    l.lemma_preview_set(s, a);
    l.lemma_preview_is_view(l.spec_set(s, a));
    l.lemma_set_preview(s, l.spec_view(s));
}

/// An isomorphism: review and view undo each other.
pub proof fn lemma_iso_laws<T, I: Iso<T>>(i: I, s: T, a: I::View)
    ensures
        i.spec_review(i.spec_view(s)) == s,
        i.spec_view(i.spec_review(a)) == a,
{
    i.lemma_preview_is_view(s);
    i.lemma_review_preview(s, i.spec_view(s));
    i.lemma_preview_review(a);
    i.lemma_preview_is_view(i.spec_review(a));
}

/// Identity optics, explicit about source and view types.
#[derive(Debug)]
pub struct _Identity<T>(PhantomData<T>);

impl<T> _Identity<T> {
    /// The identity optics.
    pub fn new() -> (i: _Identity<T>) {
        _Identity(PhantomData)
    }
}

impl<T> Optics<T> for _Identity<T> {
    type View = T;
}

impl<T> OpticsFallible for _Identity<T> {
    type Success = ();
    type Error = ();

    open spec fn spec_success_witness(&self) -> () {
        ()
    }

    fn success_witness(&self) {
    }
}

impl<T> AffineFold<T> for _Identity<T> {
    open spec fn spec_preview(&self, s: T) -> Option<T> {
        Some(s)
    }

    fn preview(&self, s: T) -> (r: Result<T, ()>) {
        Ok(s)
    }
}

impl<'a, T: 'a> AffineFoldRef<'a, T> for _Identity<T> {
    fn preview_ref(&self, s: &'a T) -> (r: Result<&'a T, ()>) {
        Ok(s)
    }
}

impl<'a, T: 'a> AffineFoldMut<'a, T> for _Identity<T> {
    fn preview_mut(&self, s: &'a mut T) -> (r: Result<&'a mut T, ()>) {
        Ok(s)
    }
}

impl<'a, T: 'a> GetterMut<'a, T> for _Identity<T> {
    fn view_mut(&self, s: &'a mut T) -> (r: &'a mut T) {
        s
    }
}

impl<T> Getter<T> for _Identity<T> {
    open spec fn spec_view(&self, s: T) -> T {
        s
    }

    fn view(&self, s: T) -> (r: T) {
        s
    }

    proof fn lemma_preview_is_view(&self, s: T) {
    }
}

impl<'a, T: 'a> GetterRef<'a, T> for _Identity<T> {
    fn view_ref(&self, s: &'a T) -> (r: &'a T) {
        s
    }
}

impl<T> Review<T> for _Identity<T> {
    open spec fn spec_review(&self, a: T) -> T {
        a
    }

    fn review(&self, a: T) -> (r: T) {
        a
    }
}

impl<T> Setter<T> for _Identity<T> {
    open spec fn spec_set(&self, s: T, a: T) -> T {
        a
    }

    fn set(&self, s: &mut T, a: T) {
        *s = a;
    }
}

impl<T> Traversal<T> for _Identity<T> {
    open spec fn spec_elements(&self, s: T) -> Seq<T> {
        seq![s]
    }

    fn flatten(&self, s: T) -> (v: Vec<T>) {
        let mut v = Vec::new();
        v.push(s);
        assert(v@ =~= seq![s]);
        v
    }
}

impl<T> AffineTraversal<T> for _Identity<T> {
    proof fn lemma_set_missing(&self, s: T, a: T) {
    }

    proof fn lemma_preview_set(&self, s: T, a: T) {
    }

    proof fn lemma_set_preview(&self, s: T, a: T) {
    }

    proof fn lemma_set_set(&self, s: T, a: T, b: T) {
    }

    proof fn lemma_elements_preview(&self, s: T) {
    }
}

impl<T> Lens<T> for _Identity<T> {}

impl<T> Prism<T> for _Identity<T> {
    proof fn lemma_preview_review(&self, a: T) {
    }

    proof fn lemma_review_preview(&self, s: T, a: T) {
    }
}

impl<T> Iso<T> for _Identity<T> {}

/// Success type for [`Compose`]d optics.
#[derive(Debug, Clone, Copy, PartialEq, Eq)]
pub struct SuccessCompose<S, R>(pub S, pub R);

/// Error type for [`Compose`]d optics.
#[derive(Debug, Clone, Copy, PartialEq, Eq)]
pub enum ErrorCompose<E, S, R> {
    /// Error happened for the first optics in this composition.
    Head(E),
    /// Operation for the first optics succeeded in this composition.
    Tail(S, R),
}

/// Text form of an optics, of its witness of success, or of its error: the optics' name, and a
/// dotted path of names for a composition.
pub trait OpticsText {
    /// The text.
    spec fn spec_text(&self) -> Seq<char>;

    /// The text, as a string.
    fn to_string(&self) -> (s: String)
        ensures
            s@ == self.spec_text(),
    ;
}

/// `a.b`.
pub open spec fn dotted(a: Seq<char>, b: Seq<char>) -> Seq<char> {
    a + seq!['.'] + b
}

/// Join two texts with a dot.
fn join_dotted(a: String, b: String) -> (s: String)
    ensures
        s@ == dotted(a@, b@),
{
    proof {
        reveal_strlit(".");
        assert("."@ =~= seq!['.']);
    }
    let mut s = a;
    s.append(".");
    s.append(b.as_str());
    assert(s@ =~= dotted(a@, b@));
    s
}

impl<S: OpticsText, R: OpticsText> OpticsText for SuccessCompose<S, R> {
    open spec fn spec_text(&self) -> Seq<char> {
        dotted(self.0.spec_text(), self.1.spec_text())
    }

    fn to_string(&self) -> (s: String) {
        join_dotted(self.0.to_string(), self.1.to_string())
    }
}

impl<E: OpticsText, S: OpticsText, R: OpticsText> OpticsText for ErrorCompose<E, S, R> {
    /// The failing optics: the head's error, or the head's witness then the tail's error.
    open spec fn spec_text(&self) -> Seq<char> {
        match self {
            ErrorCompose::Head(x) => x.spec_text(),
            ErrorCompose::Tail(x, r) => dotted(x.spec_text(), r.spec_text()),
        }
    }

    fn to_string(&self) -> (s: String) {
        match self {
            ErrorCompose::Head(x) => x.to_string(),
            ErrorCompose::Tail(x, r) => join_dotted(x.to_string(), r.to_string()),
        }
    }
}

impl OpticsText for std::convert::Infallible {
    /// An error that never happens has no text.
    open spec fn spec_text(&self) -> Seq<char> {
        Seq::empty()
    }

    fn to_string(&self) -> (s: String) {
        String::new()
    }
}

/// Composed optics of `K` and `L`; `K` is applied first.
#[derive(Debug, Clone, Copy)]
pub struct Compose<K, L>(pub K, pub L);

/// All the sequences, one after another.
pub open spec fn concat_all<V>(seqs: Seq<Seq<V>>) -> Seq<V>
    decreases seqs.len(),
{
    if seqs.len() == 0 {
        Seq::empty()
    } else {
        concat_all(seqs.drop_last()) + seqs.last()
    }
}

impl<K: OpticsText, L: OpticsText> OpticsText for Compose<K, L> {
    open spec fn spec_text(&self) -> Seq<char> {
        dotted(self.0.spec_text(), self.1.spec_text())
    }

    fn to_string(&self) -> (s: String) {
        join_dotted(self.0.to_string(), self.1.to_string())
    }
}

impl<T, K: Optics<T>, L: Optics<K::View>> Optics<T> for Compose<K, L> {
    type View = L::View;
}

impl<K: OpticsFallible, L: OpticsFallible> OpticsFallible for Compose<K, L> {
    type Success = SuccessCompose<K::Success, L::Success>;
    type Error = ErrorCompose<K::Error, K::Success, L::Error>;

    /// Both parts' witnesses.
    open spec fn spec_success_witness(&self) -> Self::Success {
        SuccessCompose(self.0.spec_success_witness(), self.1.spec_success_witness())
    }

    fn success_witness(&self) -> Self::Success {
        SuccessCompose(self.0.success_witness(), self.1.success_witness())
    }
}

impl<T, K: AffineFold<T>, L: AffineFold<K::View>> AffineFold<T> for Compose<K, L> {
    open spec fn spec_preview(&self, s: T) -> Option<L::View> {
        match self.0.spec_preview(s) {
            Some(v) => self.1.spec_preview(v),
            None => None,
        }
    }

    /// A failure names the part that failed: the head, or the tail (with the head's witness).
    fn preview(&self, s: T) -> (r: Result<L::View, Self::Error>)
        ensures
            (r matches Err(ErrorCompose::Head(_))) <==> self.0.spec_preview(s) is None,
            r matches Err(ErrorCompose::Tail(w, _)) ==> w == self.0.spec_success_witness(),
    {
        match self.0.preview(s) {
            Err(e) => Err(ErrorCompose::Head(e)),
            Ok(v) => match self.1.preview(v) {
                Ok(x) => Ok(x),
                Err(e) => Err(ErrorCompose::Tail(self.0.success_witness(), e)),
            },
        }
    }
}

impl<'a, T: 'a, K: AffineFoldRef<'a, T>, L: AffineFoldRef<'a, K::View>> AffineFoldRef<'a, T> for Compose<K, L> where K::View: 'a {
    /// A failure names the part that failed: the head, or the tail (with the head's witness).
    fn preview_ref(&self, s: &'a T) -> (r: Result<&'a L::View, Self::Error>)
        ensures
            (r matches Err(ErrorCompose::Head(_))) <==> self.0.spec_preview(*s) is None,
            r matches Err(ErrorCompose::Tail(w, _)) ==> w == self.0.spec_success_witness(),
    {
        match self.0.preview_ref(s) {
            Err(e) => Err(ErrorCompose::Head(e)),
            Ok(v) => match self.1.preview_ref(v) {
                Ok(x) => Ok(x),
                Err(e) => Err(ErrorCompose::Tail(self.0.success_witness(), e)),
            },
        }
    }
}

impl<'a, T: 'a, K: for<'b> AffineFoldMut<'b, T>, L: AffineFoldMut<'a, K::View>> AffineFoldMut<'a, T> for Compose<K, L> where K::View: 'a {
    /// A failure names the part that failed: the head, or the tail (with the head's witness).
    fn preview_mut(&self, s: &'a mut T) -> (r: Result<&'a mut L::View, Self::Error>)
        ensures
            (r matches Err(ErrorCompose::Head(_))) <==> self.0.spec_preview(*old(s)) is None,
            r matches Err(ErrorCompose::Tail(w, _)) ==> w == self.0.spec_success_witness(),
    {
        let ghost s0 = *s;
        match self.0.preview_mut(s) {
            Err(e) => Err(ErrorCompose::Head(e)),
            Ok(v) => {
                let ghost v0 = *v;
                match self.1.preview_mut(v) {
                    Ok(x) => Ok(x),
                    Err(e) => {
                        proof {
                            self.0.lemma_set_preview(s0, v0);
                        }
                        Err(ErrorCompose::Tail(self.0.success_witness(), e))
                    },
                }
            },
        }
    }
}

impl<T, K: Getter<T>, L: Getter<K::View>> Getter<T> for Compose<K, L> {
    open spec fn spec_view(&self, s: T) -> L::View {
        self.1.spec_view(self.0.spec_view(s))
    }

    fn view(&self, s: T) -> (r: L::View) {
        self.1.view(self.0.view(s))
    }

    proof fn lemma_preview_is_view(&self, s: T) {
        self.0.lemma_preview_is_view(s);
        self.1.lemma_preview_is_view(self.0.spec_view(s));
    }
}

impl<'a, T: 'a, K: GetterRef<'a, T>, L: GetterRef<'a, K::View>> GetterRef<'a, T> for Compose<K, L> where K::View: 'a {
    fn view_ref(&self, s: &'a T) -> (r: &'a L::View) {
        self.1.view_ref(self.0.view_ref(s))
    }
}

impl<'a, T: 'a, K: for<'b> GetterMut<'b, T>, L: GetterMut<'a, K::View>> GetterMut<'a, T> for Compose<K, L> where K::View: 'a {
    fn view_mut(&self, s: &'a mut T) -> (r: &'a mut L::View) {
        proof {
            self.0.lemma_preview_is_view(*s);
        }
        let inner = self.0.view_mut(s);
        proof {
            self.1.lemma_preview_is_view(*inner);
        }
        self.1.view_mut(inner)
    }
}

impl<T, K: Review<T>, L: Review<K::View>> Review<T> for Compose<K, L> {
    open spec fn spec_review(&self, a: L::View) -> T {
        self.0.spec_review(self.1.spec_review(a))
    }

    fn review(&self, a: L::View) -> (r: T) {
        self.0.review(self.1.review(a))
    }
}

impl<T, K: for<'b> AffineFoldMut<'b, T>, L: Setter<K::View>> Setter<T> for Compose<K, L> {
    open spec fn spec_set(&self, s: T, a: L::View) -> T {
        match self.0.spec_preview(s) {
            Some(v) => self.0.spec_set(s, self.1.spec_set(v, a)),
            None => s,
        }
    }

    fn set(&self, s: &mut T, a: L::View) {
        match self.0.preview_mut(s) {
            Ok(inner) => self.1.set(inner, a),
            Err(_) => {},
        }
    }
}

impl<T, K: for<'b> AffineFoldMut<'b, T> + Traversal<T>, L: Traversal<K::View>> Traversal<T> for Compose<K, L> {
    open spec fn spec_elements(&self, s: T) -> Seq<L::View> {
        concat_all(self.0.spec_elements(s).map_values(|v: K::View| self.1.spec_elements(v)))
    }

    fn flatten(&self, s: T) -> (out: Vec<L::View>) {
        let mut outer = self.0.flatten(s);
        let ghost all = outer@;
        let n: usize = outer.len();
        let mut out: Vec<L::View> = Vec::new();
        let mut i: usize = 0;
        while i < n
            invariant
                n == all.len(),
                i <= n,
                outer@ == all.skip(i as int),
                out@ == concat_all(all.take(i as int).map_values(|v: K::View| self.1.spec_elements(v))),
            decreases n - i,
        {
            let v = outer.remove(0);
            assert(v == all[i as int]);
            assert(outer@ =~= all.skip(i + 1));
            let mut inner = self.1.flatten(v);
            let ghost before = out@;
            out.append(&mut inner);
            proof {
                let f = |v: K::View| self.1.spec_elements(v);
                assert(all.take(i + 1).map_values(f).drop_last() =~= all.take(i as int).map_values(f));
                assert(all.take(i + 1).map_values(f).last() == self.1.spec_elements(v));
            }
            i = i + 1;
        }
        assert(all.take(n as int) =~= all);
        out
    }
}

impl<T, K: AffineTraversal<T> + for<'b> AffineFoldMut<'b, T>, L: AffineTraversal<K::View>> AffineTraversal<T> for Compose<K, L> {
    proof fn lemma_set_missing(&self, s: T, a: L::View) {
        if let Some(v) = self.0.spec_preview(s) {
            self.1.lemma_set_missing(v, a);
            self.0.lemma_set_preview(s, v);
        }
    }

    proof fn lemma_preview_set(&self, s: T, a: L::View) {
        let v = self.0.spec_preview(s).unwrap();
        self.0.lemma_preview_set(s, self.1.spec_set(v, a));
        self.1.lemma_preview_set(v, a);
    }

    proof fn lemma_set_preview(&self, s: T, a: L::View) {
        let v = self.0.spec_preview(s).unwrap();
        self.1.lemma_set_preview(v, a);
        self.0.lemma_set_preview(s, v);
    }

    proof fn lemma_set_set(&self, s: T, a: L::View, b: L::View) {
        if let Some(v) = self.0.spec_preview(s) {
            let s1 = self.0.spec_set(s, self.1.spec_set(v, a));
            self.0.lemma_preview_set(s, self.1.spec_set(v, a));
            self.1.lemma_set_set(v, a, b);
            self.0.lemma_set_set(s, self.1.spec_set(v, a), self.1.spec_set(v, b));
            assert(self.0.spec_preview(s1) == Some(self.1.spec_set(v, a)));
        }
    }

    proof fn lemma_elements_preview(&self, s: T) {
        self.0.lemma_elements_preview(s);
        let f = |v: K::View| self.1.spec_elements(v);
        if let Some(v) = self.0.spec_preview(s) {
            self.1.lemma_elements_preview(v);
            let e = self.1.spec_elements(v);
            assert(self.0.spec_elements(s).map_values(f) =~= seq![e]);
            assert(seq![e].drop_last() =~= Seq::<Seq<L::View>>::empty());
            assert(seq![e].last() == e);
            assert(concat_all(Seq::<Seq<L::View>>::empty()) =~= Seq::<L::View>::empty());
            assert(concat_all(seq![e]) =~= e);
        } else {
            assert(self.0.spec_elements(s).map_values(f) =~= Seq::<Seq<L::View>>::empty());
        }
    }
}

impl<T, K: Lens<T> + for<'b> AffineFoldMut<'b, T>, L: Lens<K::View>> Lens<T> for Compose<K, L> {}

impl<T, K: Prism<T> + for<'b> AffineFoldMut<'b, T>, L: Prism<K::View>> Prism<T> for Compose<K, L> {
    proof fn lemma_preview_review(&self, a: L::View) {
        self.1.lemma_preview_review(a);
        self.0.lemma_preview_review(self.1.spec_review(a));
    }

    proof fn lemma_review_preview(&self, s: T, a: L::View) {
        let v = self.0.spec_preview(s).unwrap();
        self.1.lemma_review_preview(v, a);
        self.0.lemma_review_preview(s, v);
    }
}

impl<T, K: Iso<T> + for<'b> AffineFoldMut<'b, T>, L: Iso<K::View>> Iso<T> for Compose<K, L> {}

} // verus!
