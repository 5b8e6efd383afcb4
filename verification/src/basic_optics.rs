//! Optics for the basic types: the prisms `_Some`, `_Ok` and `_Err` for [`Option`] and
//! [`Result`], and the lenses `_0` to `_3` for the fields of tuples of up to four elements.
//! The witness of success (and the error) of each is the optics itself.

use vstd::prelude::*;
use std::convert::Infallible;
use crate::optics::{
    AffineFold, AffineFoldMut, AffineFoldRef, AffineTraversal, Getter, GetterMut, GetterRef, Lens, Optics, OpticsFallible, OpticsText,
    Prism, Review, Setter, Traversal,
};

verus! {

/// Prism for [`Option::Some`].
#[derive(Debug, Clone, Copy, PartialEq, Eq, Default)]
pub struct _Some;

impl OpticsFallible for _Some {
    type Success = _Some;
    type Error = _Some;

    open spec fn spec_success_witness(&self) -> _Some {
        *self
    }

    fn success_witness(&self) -> (w: _Some) {
        *self
    }
}

impl<T> Optics<Option<T>> for _Some {
    type View = T;
}

impl<T> AffineFold<Option<T>> for _Some {
    open spec fn spec_preview(&self, s: Option<T>) -> Option<T> {
        match s {
            Some(v) => Some(v),
            None => None,
        }
    }

    fn preview(&self, s: Option<T>) -> (r: Result<T, _Some>) {
        match s {
            Some(v) => Ok(v),
            None => Err(*self),
        }
    }
}

impl<'a, T: 'a> AffineFoldRef<'a, Option<T>> for _Some {
    fn preview_ref(&self, s: &'a Option<T>) -> (r: Result<&'a T, _Some>) {
        match s {
            Some(v) => Ok(v),
            None => Err(*self),
        }
    }
}

impl<'a, T: 'a> AffineFoldMut<'a, Option<T>> for _Some {
    fn preview_mut(&self, s: &'a mut Option<T>) -> (r: Result<&'a mut T, _Some>) {
        match s {
            Some(v) => Ok(v),
            None => Err(*self),
        }
    }
}

impl<T> Review<Option<T>> for _Some {
    open spec fn spec_review(&self, a: T) -> Option<T> {
        Some(a)
    }

    fn review(&self, a: T) -> (r: Option<T>) {
        Some(a)
    }
}

impl<T> Setter<Option<T>> for _Some {
    open spec fn spec_set(&self, s: Option<T>, a: T) -> Option<T> {
        match s {
            Some(_) => Some(a),
            None => s,
        }
    }

    fn set(&self, s: &mut Option<T>, a: T) {
        if let Some(_) = s {
            *s = Some(a);
        }
    }
}

impl<T> Traversal<Option<T>> for _Some {
    open spec fn spec_elements(&self, s: Option<T>) -> Seq<T> {
        match s {
            Some(v) => seq![v],
            None => Seq::empty(),
        }
    }

    fn flatten(&self, s: Option<T>) -> (r: Vec<T>) {
        let ghost s0 = s;
        let mut r = Vec::new();
        if let Some(v) = s {
            r.push(v);
        }
        assert(r@ =~= self.spec_elements(s0));
        r
    }
}

impl<T> AffineTraversal<Option<T>> for _Some {
    proof fn lemma_set_missing(&self, s: Option<T>, a: T) {
    }

    proof fn lemma_preview_set(&self, s: Option<T>, a: T) {
    }

    proof fn lemma_set_preview(&self, s: Option<T>, a: T) {
    }

    proof fn lemma_set_set(&self, s: Option<T>, a: T, b: T) {
    }

    proof fn lemma_elements_preview(&self, s: Option<T>) {
    }
}

impl<T> Prism<Option<T>> for _Some {
    proof fn lemma_preview_review(&self, a: T) {
    }

    proof fn lemma_review_preview(&self, s: Option<T>, a: T) {
    }
}

/// Prism for [`Result::Ok`].
#[derive(Debug, Clone, Copy, PartialEq, Eq, Default)]
pub struct _Ok;

impl OpticsFallible for _Ok {
    type Success = _Ok;
    type Error = _Ok;

    open spec fn spec_success_witness(&self) -> _Ok {
        *self
    }

    fn success_witness(&self) -> (w: _Ok) {
        *self
    }
}

impl<T, E> Optics<Result<T, E>> for _Ok {
    type View = T;
}

impl<T, E> AffineFold<Result<T, E>> for _Ok {
    open spec fn spec_preview(&self, s: Result<T, E>) -> Option<T> {
        match s {
            Ok(v) => Some(v),
            Err(_) => None,
        }
    }

    fn preview(&self, s: Result<T, E>) -> (r: Result<T, _Ok>) {
        match s {
            Ok(v) => Ok(v),
            Err(_) => Err(*self),
        }
    }
}

impl<'a, T: 'a, E: 'a> AffineFoldRef<'a, Result<T, E>> for _Ok {
    fn preview_ref(&self, s: &'a Result<T, E>) -> (r: Result<&'a T, _Ok>) {
        match s {
            Ok(v) => Ok(v),
            Err(_) => Err(*self),
        }
    }
}

impl<'a, T: 'a, E: 'a> AffineFoldMut<'a, Result<T, E>> for _Ok {
    fn preview_mut(&self, s: &'a mut Result<T, E>) -> (r: Result<&'a mut T, _Ok>) {
        match s {
            Ok(v) => Ok(v),
            Err(_) => Err(*self),
        }
    }
}

impl<T, E> Review<Result<T, E>> for _Ok {
    open spec fn spec_review(&self, a: T) -> Result<T, E> {
        Ok(a)
    }

    fn review(&self, a: T) -> (r: Result<T, E>) {
        Ok(a)
    }
}

impl<T, E> Setter<Result<T, E>> for _Ok {
    open spec fn spec_set(&self, s: Result<T, E>, a: T) -> Result<T, E> {
        match s {
            Ok(_) => Ok(a),
            Err(_) => s,
        }
    }

    fn set(&self, s: &mut Result<T, E>, a: T) {
        if let Ok(_) = s {
            *s = Ok(a);
        }
    }
}

impl<T, E> Traversal<Result<T, E>> for _Ok {
    open spec fn spec_elements(&self, s: Result<T, E>) -> Seq<T> {
        match s {
            Ok(v) => seq![v],
            Err(_) => Seq::empty(),
        }
    }

    fn flatten(&self, s: Result<T, E>) -> (r: Vec<T>) {
        let ghost s0 = s;
        let mut r = Vec::new();
        if let Ok(v) = s {
            r.push(v);
        }
        assert(r@ =~= self.spec_elements(s0));
        r
    }
}

impl<T, E> AffineTraversal<Result<T, E>> for _Ok {
    proof fn lemma_set_missing(&self, s: Result<T, E>, a: T) {
    }

    proof fn lemma_preview_set(&self, s: Result<T, E>, a: T) {
    }

    proof fn lemma_set_preview(&self, s: Result<T, E>, a: T) {
    }

    proof fn lemma_set_set(&self, s: Result<T, E>, a: T, b: T) {
    }

    proof fn lemma_elements_preview(&self, s: Result<T, E>) {
    }
}

impl<T, E> Prism<Result<T, E>> for _Ok {
    proof fn lemma_preview_review(&self, a: T) {
    }

    proof fn lemma_review_preview(&self, s: Result<T, E>, a: T) {
    }
}

/// Prism for [`Result::Err`].
#[derive(Debug, Clone, Copy, PartialEq, Eq, Default)]
pub struct _Err;

impl OpticsFallible for _Err {
    type Success = _Err;
    type Error = _Err;

    open spec fn spec_success_witness(&self) -> _Err {
        *self
    }

    fn success_witness(&self) -> (w: _Err) {
        *self
    }
}

impl<T, E> Optics<Result<T, E>> for _Err {
    type View = E;
}

impl<T, E> AffineFold<Result<T, E>> for _Err {
    open spec fn spec_preview(&self, s: Result<T, E>) -> Option<E> {
        match s {
            Err(v) => Some(v),
            Ok(_) => None,
        }
    }

    fn preview(&self, s: Result<T, E>) -> (r: Result<E, _Err>) {
        match s {
            Err(v) => Ok(v),
            Ok(_) => Err(*self),
        }
    }
}

impl<'a, T: 'a, E: 'a> AffineFoldRef<'a, Result<T, E>> for _Err {
    fn preview_ref(&self, s: &'a Result<T, E>) -> (r: Result<&'a E, _Err>) {
        match s {
            Err(v) => Ok(v),
            Ok(_) => Err(*self),
        }
    }
}

impl<'a, T: 'a, E: 'a> AffineFoldMut<'a, Result<T, E>> for _Err {
    fn preview_mut(&self, s: &'a mut Result<T, E>) -> (r: Result<&'a mut E, _Err>) {
        match s {
            Err(v) => Ok(v),
            Ok(_) => Err(*self),
        }
    }
}

impl<T, E> Review<Result<T, E>> for _Err {
    open spec fn spec_review(&self, a: E) -> Result<T, E> {
        Err(a)
    }

    fn review(&self, a: E) -> (r: Result<T, E>) {
        Err(a)
    }
}

impl<T, E> Setter<Result<T, E>> for _Err {
    open spec fn spec_set(&self, s: Result<T, E>, a: E) -> Result<T, E> {
        match s {
            Err(_) => Err(a),
            Ok(_) => s,
        }
    }

    fn set(&self, s: &mut Result<T, E>, a: E) {
        if let Err(_) = s {
            *s = Err(a);
        }
    }
}

impl<T, E> Traversal<Result<T, E>> for _Err {
    open spec fn spec_elements(&self, s: Result<T, E>) -> Seq<E> {
        match s {
            Err(v) => seq![v],
            Ok(_) => Seq::empty(),
        }
    }

    fn flatten(&self, s: Result<T, E>) -> (r: Vec<E>) {
        let ghost s0 = s;
        let mut r = Vec::new();
        if let Err(v) = s {
            r.push(v);
        }
        assert(r@ =~= self.spec_elements(s0));
        r
    }
}

impl<T, E> AffineTraversal<Result<T, E>> for _Err {
    proof fn lemma_set_missing(&self, s: Result<T, E>, a: E) {
    }

    proof fn lemma_preview_set(&self, s: Result<T, E>, a: E) {
    }

    proof fn lemma_set_preview(&self, s: Result<T, E>, a: E) {
    }

    proof fn lemma_set_set(&self, s: Result<T, E>, a: E, b: E) {
    }

    proof fn lemma_elements_preview(&self, s: Result<T, E>) {
    }
}

impl<T, E> Prism<Result<T, E>> for _Err {
    proof fn lemma_preview_review(&self, a: E) {
    }

    proof fn lemma_review_preview(&self, s: Result<T, E>, a: E) {
    }
}

/// Lens for field `0` in tuples.
#[derive(Debug, Clone, Copy, PartialEq, Eq, Default)]
pub struct _0;

impl OpticsFallible for _0 {
    type Success = _0;
    type Error = Infallible;

    open spec fn spec_success_witness(&self) -> _0 {
        *self
    }

    fn success_witness(&self) -> (w: _0) {
        *self
    }
}

impl<T0> Optics<(T0,)> for _0 {
    type View = T0;
}

impl<T0> AffineFold<(T0,)> for _0 {
    open spec fn spec_preview(&self, s: (T0,)) -> Option<T0> {
        Some(s.0)
    }

    fn preview(&self, s: (T0,)) -> (r: Result<T0, Infallible>) {
        Ok(s.0)
    }
}

impl<'a, T0: 'a> AffineFoldRef<'a, (T0,)> for _0 {
    fn preview_ref(&self, s: &'a (T0,)) -> (r: Result<&'a T0, Infallible>) {
        Ok(&s.0)
    }
}

impl<'a, T0: 'a> AffineFoldMut<'a, (T0,)> for _0 {
    fn preview_mut(&self, s: &'a mut (T0,)) -> (r: Result<&'a mut T0, Infallible>) {
        Ok(&mut s.0)
    }
}

impl<T0> Getter<(T0,)> for _0 {
    open spec fn spec_view(&self, s: (T0,)) -> T0 {
        s.0
    }

    fn view(&self, s: (T0,)) -> (r: T0) {
        s.0
    }

    proof fn lemma_preview_is_view(&self, s: (T0,)) {
    }
}

impl<'a, T0: 'a> GetterRef<'a, (T0,)> for _0 {
    fn view_ref(&self, s: &'a (T0,)) -> (r: &'a T0) {
        &s.0
    }
}

impl<'a, T0: 'a> GetterMut<'a, (T0,)> for _0 {
    fn view_mut(&self, s: &'a mut (T0,)) -> (r: &'a mut T0) {
        &mut s.0
    }
}

impl<T0> Setter<(T0,)> for _0 {
    open spec fn spec_set(&self, s: (T0,), a: T0) -> (T0,) {
        (a,)
    }

    fn set(&self, s: &mut (T0,), a: T0) {
        s.0 = a;
    }
}

impl<T0> Traversal<(T0,)> for _0 {
    open spec fn spec_elements(&self, s: (T0,)) -> Seq<T0> {
        seq![s.0]
    }

    fn flatten(&self, s: (T0,)) -> (r: Vec<T0>) {
        let ghost s0 = s;
        let mut r = Vec::new();
        r.push(s.0);
        assert(r@ =~= self.spec_elements(s0));
        r
    }
}

impl<T0> AffineTraversal<(T0,)> for _0 {
    proof fn lemma_set_missing(&self, s: (T0,), a: T0) {
    }

    proof fn lemma_preview_set(&self, s: (T0,), a: T0) {
    }

    proof fn lemma_set_preview(&self, s: (T0,), a: T0) {
    }

    proof fn lemma_set_set(&self, s: (T0,), a: T0, b: T0) {
    }

    proof fn lemma_elements_preview(&self, s: (T0,)) {
    }
}

impl<T0> Lens<(T0,)> for _0 {}

impl<T0, T1> Optics<(T0, T1)> for _0 {
    type View = T0;
}

impl<T0, T1> AffineFold<(T0, T1)> for _0 {
    open spec fn spec_preview(&self, s: (T0, T1)) -> Option<T0> {
        Some(s.0)
    }

    fn preview(&self, s: (T0, T1)) -> (r: Result<T0, Infallible>) {
        Ok(s.0)
    }
}

impl<'a, T0: 'a, T1: 'a> AffineFoldRef<'a, (T0, T1)> for _0 {
    fn preview_ref(&self, s: &'a (T0, T1)) -> (r: Result<&'a T0, Infallible>) {
        Ok(&s.0)
    }
}

impl<'a, T0: 'a, T1: 'a> AffineFoldMut<'a, (T0, T1)> for _0 {
    fn preview_mut(&self, s: &'a mut (T0, T1)) -> (r: Result<&'a mut T0, Infallible>) {
        Ok(&mut s.0)
    }
}

impl<T0, T1> Getter<(T0, T1)> for _0 {
    open spec fn spec_view(&self, s: (T0, T1)) -> T0 {
        s.0
    }

    fn view(&self, s: (T0, T1)) -> (r: T0) {
        s.0
    }

    proof fn lemma_preview_is_view(&self, s: (T0, T1)) {
    }
}

impl<'a, T0: 'a, T1: 'a> GetterRef<'a, (T0, T1)> for _0 {
    fn view_ref(&self, s: &'a (T0, T1)) -> (r: &'a T0) {
        &s.0
    }
}

impl<'a, T0: 'a, T1: 'a> GetterMut<'a, (T0, T1)> for _0 {
    fn view_mut(&self, s: &'a mut (T0, T1)) -> (r: &'a mut T0) {
        &mut s.0
    }
}

impl<T0, T1> Setter<(T0, T1)> for _0 {
    open spec fn spec_set(&self, s: (T0, T1), a: T0) -> (T0, T1) {
        (a, s.1)
    }

    fn set(&self, s: &mut (T0, T1), a: T0) {
        s.0 = a;
    }
}

impl<T0, T1> Traversal<(T0, T1)> for _0 {
    open spec fn spec_elements(&self, s: (T0, T1)) -> Seq<T0> {
        seq![s.0]
    }

    fn flatten(&self, s: (T0, T1)) -> (r: Vec<T0>) {
        let ghost s0 = s;
        let mut r = Vec::new();
        r.push(s.0);
        assert(r@ =~= self.spec_elements(s0));
        r
    }
}

impl<T0, T1> AffineTraversal<(T0, T1)> for _0 {
    proof fn lemma_set_missing(&self, s: (T0, T1), a: T0) {
    }

    proof fn lemma_preview_set(&self, s: (T0, T1), a: T0) {
    }

    proof fn lemma_set_preview(&self, s: (T0, T1), a: T0) {
    }

    proof fn lemma_set_set(&self, s: (T0, T1), a: T0, b: T0) {
    }

    proof fn lemma_elements_preview(&self, s: (T0, T1)) {
    }
}

impl<T0, T1> Lens<(T0, T1)> for _0 {}

impl<T0, T1, T2> Optics<(T0, T1, T2)> for _0 {
    type View = T0;
}

impl<T0, T1, T2> AffineFold<(T0, T1, T2)> for _0 {
    open spec fn spec_preview(&self, s: (T0, T1, T2)) -> Option<T0> {
        Some(s.0)
    }

    fn preview(&self, s: (T0, T1, T2)) -> (r: Result<T0, Infallible>) {
        Ok(s.0)
    }
}

impl<'a, T0: 'a, T1: 'a, T2: 'a> AffineFoldRef<'a, (T0, T1, T2)> for _0 {
    fn preview_ref(&self, s: &'a (T0, T1, T2)) -> (r: Result<&'a T0, Infallible>) {
        Ok(&s.0)
    }
}

impl<'a, T0: 'a, T1: 'a, T2: 'a> AffineFoldMut<'a, (T0, T1, T2)> for _0 {
    fn preview_mut(&self, s: &'a mut (T0, T1, T2)) -> (r: Result<&'a mut T0, Infallible>) {
        Ok(&mut s.0)
    }
}

impl<T0, T1, T2> Getter<(T0, T1, T2)> for _0 {
    open spec fn spec_view(&self, s: (T0, T1, T2)) -> T0 {
        s.0
    }

    fn view(&self, s: (T0, T1, T2)) -> (r: T0) {
        s.0
    }

    proof fn lemma_preview_is_view(&self, s: (T0, T1, T2)) {
    }
}

impl<'a, T0: 'a, T1: 'a, T2: 'a> GetterRef<'a, (T0, T1, T2)> for _0 {
    fn view_ref(&self, s: &'a (T0, T1, T2)) -> (r: &'a T0) {
        &s.0
    }
}

impl<'a, T0: 'a, T1: 'a, T2: 'a> GetterMut<'a, (T0, T1, T2)> for _0 {
    fn view_mut(&self, s: &'a mut (T0, T1, T2)) -> (r: &'a mut T0) {
        &mut s.0
    }
}

impl<T0, T1, T2> Setter<(T0, T1, T2)> for _0 {
    open spec fn spec_set(&self, s: (T0, T1, T2), a: T0) -> (T0, T1, T2) {
        (a, s.1, s.2)
    }

    fn set(&self, s: &mut (T0, T1, T2), a: T0) {
        s.0 = a;
    }
}

impl<T0, T1, T2> Traversal<(T0, T1, T2)> for _0 {
    open spec fn spec_elements(&self, s: (T0, T1, T2)) -> Seq<T0> {
        seq![s.0]
    }

    fn flatten(&self, s: (T0, T1, T2)) -> (r: Vec<T0>) {
        let ghost s0 = s;
        let mut r = Vec::new();
        r.push(s.0);
        assert(r@ =~= self.spec_elements(s0));
        r
    }
}

impl<T0, T1, T2> AffineTraversal<(T0, T1, T2)> for _0 {
    proof fn lemma_set_missing(&self, s: (T0, T1, T2), a: T0) {
    }

    proof fn lemma_preview_set(&self, s: (T0, T1, T2), a: T0) {
    }

    proof fn lemma_set_preview(&self, s: (T0, T1, T2), a: T0) {
    }

    proof fn lemma_set_set(&self, s: (T0, T1, T2), a: T0, b: T0) {
    }

    proof fn lemma_elements_preview(&self, s: (T0, T1, T2)) {
    }
}

impl<T0, T1, T2> Lens<(T0, T1, T2)> for _0 {}

impl<T0, T1, T2, T3> Optics<(T0, T1, T2, T3)> for _0 {
    type View = T0;
}

impl<T0, T1, T2, T3> AffineFold<(T0, T1, T2, T3)> for _0 {
    open spec fn spec_preview(&self, s: (T0, T1, T2, T3)) -> Option<T0> {
        Some(s.0)
    }

    fn preview(&self, s: (T0, T1, T2, T3)) -> (r: Result<T0, Infallible>) {
        Ok(s.0)
    }
}

impl<'a, T0: 'a, T1: 'a, T2: 'a, T3: 'a> AffineFoldRef<'a, (T0, T1, T2, T3)> for _0 {
    fn preview_ref(&self, s: &'a (T0, T1, T2, T3)) -> (r: Result<&'a T0, Infallible>) {
        Ok(&s.0)
    }
}

impl<'a, T0: 'a, T1: 'a, T2: 'a, T3: 'a> AffineFoldMut<'a, (T0, T1, T2, T3)> for _0 {
    fn preview_mut(&self, s: &'a mut (T0, T1, T2, T3)) -> (r: Result<&'a mut T0, Infallible>) {
        Ok(&mut s.0)
    }
}

impl<T0, T1, T2, T3> Getter<(T0, T1, T2, T3)> for _0 {
    open spec fn spec_view(&self, s: (T0, T1, T2, T3)) -> T0 {
        s.0
    }

    fn view(&self, s: (T0, T1, T2, T3)) -> (r: T0) {
        s.0
    }

    proof fn lemma_preview_is_view(&self, s: (T0, T1, T2, T3)) {
    }
}

impl<'a, T0: 'a, T1: 'a, T2: 'a, T3: 'a> GetterRef<'a, (T0, T1, T2, T3)> for _0 {
    fn view_ref(&self, s: &'a (T0, T1, T2, T3)) -> (r: &'a T0) {
        &s.0
    }
}

impl<'a, T0: 'a, T1: 'a, T2: 'a, T3: 'a> GetterMut<'a, (T0, T1, T2, T3)> for _0 {
    fn view_mut(&self, s: &'a mut (T0, T1, T2, T3)) -> (r: &'a mut T0) {
        &mut s.0
    }
}

impl<T0, T1, T2, T3> Setter<(T0, T1, T2, T3)> for _0 {
    open spec fn spec_set(&self, s: (T0, T1, T2, T3), a: T0) -> (T0, T1, T2, T3) {
        (a, s.1, s.2, s.3)
    }

    fn set(&self, s: &mut (T0, T1, T2, T3), a: T0) {
        s.0 = a;
    }
}

impl<T0, T1, T2, T3> Traversal<(T0, T1, T2, T3)> for _0 {
    open spec fn spec_elements(&self, s: (T0, T1, T2, T3)) -> Seq<T0> {
        seq![s.0]
    }

    fn flatten(&self, s: (T0, T1, T2, T3)) -> (r: Vec<T0>) {
        let ghost s0 = s;
        let mut r = Vec::new();
        r.push(s.0);
        assert(r@ =~= self.spec_elements(s0));
        r
    }
}

impl<T0, T1, T2, T3> AffineTraversal<(T0, T1, T2, T3)> for _0 {
    proof fn lemma_set_missing(&self, s: (T0, T1, T2, T3), a: T0) {
    }

    proof fn lemma_preview_set(&self, s: (T0, T1, T2, T3), a: T0) {
    }

    proof fn lemma_set_preview(&self, s: (T0, T1, T2, T3), a: T0) {
    }

    proof fn lemma_set_set(&self, s: (T0, T1, T2, T3), a: T0, b: T0) {
    }

    proof fn lemma_elements_preview(&self, s: (T0, T1, T2, T3)) {
    }
}

impl<T0, T1, T2, T3> Lens<(T0, T1, T2, T3)> for _0 {}

/// Lens for field `1` in tuples.
#[derive(Debug, Clone, Copy, PartialEq, Eq, Default)]
pub struct _1;

impl OpticsFallible for _1 {
    type Success = _1;
    type Error = Infallible;

    open spec fn spec_success_witness(&self) -> _1 {
        *self
    }

    fn success_witness(&self) -> (w: _1) {
        *self
    }
}

impl<T0, T1> Optics<(T0, T1)> for _1 {
    type View = T1;
}

impl<T0, T1> AffineFold<(T0, T1)> for _1 {
    open spec fn spec_preview(&self, s: (T0, T1)) -> Option<T1> {
        Some(s.1)
    }

    fn preview(&self, s: (T0, T1)) -> (r: Result<T1, Infallible>) {
        Ok(s.1)
    }
}

impl<'a, T0: 'a, T1: 'a> AffineFoldRef<'a, (T0, T1)> for _1 {
    fn preview_ref(&self, s: &'a (T0, T1)) -> (r: Result<&'a T1, Infallible>) {
        Ok(&s.1)
    }
}

impl<'a, T0: 'a, T1: 'a> AffineFoldMut<'a, (T0, T1)> for _1 {
    fn preview_mut(&self, s: &'a mut (T0, T1)) -> (r: Result<&'a mut T1, Infallible>) {
        Ok(&mut s.1)
    }
}

impl<T0, T1> Getter<(T0, T1)> for _1 {
    open spec fn spec_view(&self, s: (T0, T1)) -> T1 {
        s.1
    }

    fn view(&self, s: (T0, T1)) -> (r: T1) {
        s.1
    }

    proof fn lemma_preview_is_view(&self, s: (T0, T1)) {
    }
}

impl<'a, T0: 'a, T1: 'a> GetterRef<'a, (T0, T1)> for _1 {
    fn view_ref(&self, s: &'a (T0, T1)) -> (r: &'a T1) {
        &s.1
    }
}

impl<'a, T0: 'a, T1: 'a> GetterMut<'a, (T0, T1)> for _1 {
    fn view_mut(&self, s: &'a mut (T0, T1)) -> (r: &'a mut T1) {
        &mut s.1
    }
}

impl<T0, T1> Setter<(T0, T1)> for _1 {
    open spec fn spec_set(&self, s: (T0, T1), a: T1) -> (T0, T1) {
        (s.0, a)
    }

    fn set(&self, s: &mut (T0, T1), a: T1) {
        s.1 = a;
    }
}

impl<T0, T1> Traversal<(T0, T1)> for _1 {
    open spec fn spec_elements(&self, s: (T0, T1)) -> Seq<T1> {
        seq![s.1]
    }

    fn flatten(&self, s: (T0, T1)) -> (r: Vec<T1>) {
        let ghost s0 = s;
        let mut r = Vec::new();
        r.push(s.1);
        assert(r@ =~= self.spec_elements(s0));
        r
    }
}

impl<T0, T1> AffineTraversal<(T0, T1)> for _1 {
    proof fn lemma_set_missing(&self, s: (T0, T1), a: T1) {
    }

    proof fn lemma_preview_set(&self, s: (T0, T1), a: T1) {
    }

    proof fn lemma_set_preview(&self, s: (T0, T1), a: T1) {
    }

    proof fn lemma_set_set(&self, s: (T0, T1), a: T1, b: T1) {
    }

    proof fn lemma_elements_preview(&self, s: (T0, T1)) {
    }
}

impl<T0, T1> Lens<(T0, T1)> for _1 {}

impl<T0, T1, T2> Optics<(T0, T1, T2)> for _1 {
    type View = T1;
}

impl<T0, T1, T2> AffineFold<(T0, T1, T2)> for _1 {
    open spec fn spec_preview(&self, s: (T0, T1, T2)) -> Option<T1> {
        Some(s.1)
    }

    fn preview(&self, s: (T0, T1, T2)) -> (r: Result<T1, Infallible>) {
        Ok(s.1)
    }
}

impl<'a, T0: 'a, T1: 'a, T2: 'a> AffineFoldRef<'a, (T0, T1, T2)> for _1 {
    fn preview_ref(&self, s: &'a (T0, T1, T2)) -> (r: Result<&'a T1, Infallible>) {
        Ok(&s.1)
    }
}

impl<'a, T0: 'a, T1: 'a, T2: 'a> AffineFoldMut<'a, (T0, T1, T2)> for _1 {
    fn preview_mut(&self, s: &'a mut (T0, T1, T2)) -> (r: Result<&'a mut T1, Infallible>) {
        Ok(&mut s.1)
    }
}

impl<T0, T1, T2> Getter<(T0, T1, T2)> for _1 {
    open spec fn spec_view(&self, s: (T0, T1, T2)) -> T1 {
        s.1
    }

    fn view(&self, s: (T0, T1, T2)) -> (r: T1) {
        s.1
    }

    proof fn lemma_preview_is_view(&self, s: (T0, T1, T2)) {
    }
}

impl<'a, T0: 'a, T1: 'a, T2: 'a> GetterRef<'a, (T0, T1, T2)> for _1 {
    fn view_ref(&self, s: &'a (T0, T1, T2)) -> (r: &'a T1) {
        &s.1
    }
}

impl<'a, T0: 'a, T1: 'a, T2: 'a> GetterMut<'a, (T0, T1, T2)> for _1 {
    fn view_mut(&self, s: &'a mut (T0, T1, T2)) -> (r: &'a mut T1) {
        &mut s.1
    }
}

impl<T0, T1, T2> Setter<(T0, T1, T2)> for _1 {
    open spec fn spec_set(&self, s: (T0, T1, T2), a: T1) -> (T0, T1, T2) {
        (s.0, a, s.2)
    }

    fn set(&self, s: &mut (T0, T1, T2), a: T1) {
        s.1 = a;
    }
}

impl<T0, T1, T2> Traversal<(T0, T1, T2)> for _1 {
    open spec fn spec_elements(&self, s: (T0, T1, T2)) -> Seq<T1> {
        seq![s.1]
    }

    fn flatten(&self, s: (T0, T1, T2)) -> (r: Vec<T1>) {
        let ghost s0 = s;
        let mut r = Vec::new();
        r.push(s.1);
        assert(r@ =~= self.spec_elements(s0));
        r
    }
}

impl<T0, T1, T2> AffineTraversal<(T0, T1, T2)> for _1 {
    proof fn lemma_set_missing(&self, s: (T0, T1, T2), a: T1) {
    }

    proof fn lemma_preview_set(&self, s: (T0, T1, T2), a: T1) {
    }

    proof fn lemma_set_preview(&self, s: (T0, T1, T2), a: T1) {
    }

    proof fn lemma_set_set(&self, s: (T0, T1, T2), a: T1, b: T1) {
    }

    proof fn lemma_elements_preview(&self, s: (T0, T1, T2)) {
    }
}

impl<T0, T1, T2> Lens<(T0, T1, T2)> for _1 {}

impl<T0, T1, T2, T3> Optics<(T0, T1, T2, T3)> for _1 {
    type View = T1;
}

impl<T0, T1, T2, T3> AffineFold<(T0, T1, T2, T3)> for _1 {
    open spec fn spec_preview(&self, s: (T0, T1, T2, T3)) -> Option<T1> {
        Some(s.1)
    }

    fn preview(&self, s: (T0, T1, T2, T3)) -> (r: Result<T1, Infallible>) {
        Ok(s.1)
    }
}

impl<'a, T0: 'a, T1: 'a, T2: 'a, T3: 'a> AffineFoldRef<'a, (T0, T1, T2, T3)> for _1 {
    fn preview_ref(&self, s: &'a (T0, T1, T2, T3)) -> (r: Result<&'a T1, Infallible>) {
        Ok(&s.1)
    }
}

impl<'a, T0: 'a, T1: 'a, T2: 'a, T3: 'a> AffineFoldMut<'a, (T0, T1, T2, T3)> for _1 {
    fn preview_mut(&self, s: &'a mut (T0, T1, T2, T3)) -> (r: Result<&'a mut T1, Infallible>) {
        Ok(&mut s.1)
    }
}

impl<T0, T1, T2, T3> Getter<(T0, T1, T2, T3)> for _1 {
    open spec fn spec_view(&self, s: (T0, T1, T2, T3)) -> T1 {
        s.1
    }

    fn view(&self, s: (T0, T1, T2, T3)) -> (r: T1) {
        s.1
    }

    proof fn lemma_preview_is_view(&self, s: (T0, T1, T2, T3)) {
    }
}

impl<'a, T0: 'a, T1: 'a, T2: 'a, T3: 'a> GetterRef<'a, (T0, T1, T2, T3)> for _1 {
    fn view_ref(&self, s: &'a (T0, T1, T2, T3)) -> (r: &'a T1) {
        &s.1
    }
}

impl<'a, T0: 'a, T1: 'a, T2: 'a, T3: 'a> GetterMut<'a, (T0, T1, T2, T3)> for _1 {
    fn view_mut(&self, s: &'a mut (T0, T1, T2, T3)) -> (r: &'a mut T1) {
        &mut s.1
    }
}

impl<T0, T1, T2, T3> Setter<(T0, T1, T2, T3)> for _1 {
    open spec fn spec_set(&self, s: (T0, T1, T2, T3), a: T1) -> (T0, T1, T2, T3) {
        (s.0, a, s.2, s.3)
    }

    fn set(&self, s: &mut (T0, T1, T2, T3), a: T1) {
        s.1 = a;
    }
}

impl<T0, T1, T2, T3> Traversal<(T0, T1, T2, T3)> for _1 {
    open spec fn spec_elements(&self, s: (T0, T1, T2, T3)) -> Seq<T1> {
        seq![s.1]
    }

    fn flatten(&self, s: (T0, T1, T2, T3)) -> (r: Vec<T1>) {
        let ghost s0 = s;
        let mut r = Vec::new();
        r.push(s.1);
        assert(r@ =~= self.spec_elements(s0));
        r
    }
}

impl<T0, T1, T2, T3> AffineTraversal<(T0, T1, T2, T3)> for _1 {
    proof fn lemma_set_missing(&self, s: (T0, T1, T2, T3), a: T1) {
    }

    proof fn lemma_preview_set(&self, s: (T0, T1, T2, T3), a: T1) {
    }

    proof fn lemma_set_preview(&self, s: (T0, T1, T2, T3), a: T1) {
    }

    proof fn lemma_set_set(&self, s: (T0, T1, T2, T3), a: T1, b: T1) {
    }

    proof fn lemma_elements_preview(&self, s: (T0, T1, T2, T3)) {
    }
}

impl<T0, T1, T2, T3> Lens<(T0, T1, T2, T3)> for _1 {}

/// Lens for field `2` in tuples.
#[derive(Debug, Clone, Copy, PartialEq, Eq, Default)]
pub struct _2;

impl OpticsFallible for _2 {
    type Success = _2;
    type Error = Infallible;

    open spec fn spec_success_witness(&self) -> _2 {
        *self
    }

    fn success_witness(&self) -> (w: _2) {
        *self
    }
}

impl<T0, T1, T2> Optics<(T0, T1, T2)> for _2 {
    type View = T2;
}

impl<T0, T1, T2> AffineFold<(T0, T1, T2)> for _2 {
    open spec fn spec_preview(&self, s: (T0, T1, T2)) -> Option<T2> {
        Some(s.2)
    }

    fn preview(&self, s: (T0, T1, T2)) -> (r: Result<T2, Infallible>) {
        Ok(s.2)
    }
}

impl<'a, T0: 'a, T1: 'a, T2: 'a> AffineFoldRef<'a, (T0, T1, T2)> for _2 {
    fn preview_ref(&self, s: &'a (T0, T1, T2)) -> (r: Result<&'a T2, Infallible>) {
        Ok(&s.2)
    }
}

impl<'a, T0: 'a, T1: 'a, T2: 'a> AffineFoldMut<'a, (T0, T1, T2)> for _2 {
    fn preview_mut(&self, s: &'a mut (T0, T1, T2)) -> (r: Result<&'a mut T2, Infallible>) {
        Ok(&mut s.2)
    }
}

impl<T0, T1, T2> Getter<(T0, T1, T2)> for _2 {
    open spec fn spec_view(&self, s: (T0, T1, T2)) -> T2 {
        s.2
    }

    fn view(&self, s: (T0, T1, T2)) -> (r: T2) {
        s.2
    }

    proof fn lemma_preview_is_view(&self, s: (T0, T1, T2)) {
    }
}

impl<'a, T0: 'a, T1: 'a, T2: 'a> GetterRef<'a, (T0, T1, T2)> for _2 {
    fn view_ref(&self, s: &'a (T0, T1, T2)) -> (r: &'a T2) {
        &s.2
    }
}

impl<'a, T0: 'a, T1: 'a, T2: 'a> GetterMut<'a, (T0, T1, T2)> for _2 {
    fn view_mut(&self, s: &'a mut (T0, T1, T2)) -> (r: &'a mut T2) {
        &mut s.2
    }
}

impl<T0, T1, T2> Setter<(T0, T1, T2)> for _2 {
    open spec fn spec_set(&self, s: (T0, T1, T2), a: T2) -> (T0, T1, T2) {
        (s.0, s.1, a)
    }

    fn set(&self, s: &mut (T0, T1, T2), a: T2) {
        s.2 = a;
    }
}

impl<T0, T1, T2> Traversal<(T0, T1, T2)> for _2 {
    open spec fn spec_elements(&self, s: (T0, T1, T2)) -> Seq<T2> {
        seq![s.2]
    }

    fn flatten(&self, s: (T0, T1, T2)) -> (r: Vec<T2>) {
        let ghost s0 = s;
        let mut r = Vec::new();
        r.push(s.2);
        assert(r@ =~= self.spec_elements(s0));
        r
    }
}

impl<T0, T1, T2> AffineTraversal<(T0, T1, T2)> for _2 {
    proof fn lemma_set_missing(&self, s: (T0, T1, T2), a: T2) {
    }

    proof fn lemma_preview_set(&self, s: (T0, T1, T2), a: T2) {
    }

    proof fn lemma_set_preview(&self, s: (T0, T1, T2), a: T2) {
    }

    proof fn lemma_set_set(&self, s: (T0, T1, T2), a: T2, b: T2) {
    }

    proof fn lemma_elements_preview(&self, s: (T0, T1, T2)) {
    }
}

impl<T0, T1, T2> Lens<(T0, T1, T2)> for _2 {}

impl<T0, T1, T2, T3> Optics<(T0, T1, T2, T3)> for _2 {
    type View = T2;
}

impl<T0, T1, T2, T3> AffineFold<(T0, T1, T2, T3)> for _2 {
    open spec fn spec_preview(&self, s: (T0, T1, T2, T3)) -> Option<T2> {
        Some(s.2)
    }

    fn preview(&self, s: (T0, T1, T2, T3)) -> (r: Result<T2, Infallible>) {
        Ok(s.2)
    }
}

impl<'a, T0: 'a, T1: 'a, T2: 'a, T3: 'a> AffineFoldRef<'a, (T0, T1, T2, T3)> for _2 {
    fn preview_ref(&self, s: &'a (T0, T1, T2, T3)) -> (r: Result<&'a T2, Infallible>) {
        Ok(&s.2)
    }
}

impl<'a, T0: 'a, T1: 'a, T2: 'a, T3: 'a> AffineFoldMut<'a, (T0, T1, T2, T3)> for _2 {
    fn preview_mut(&self, s: &'a mut (T0, T1, T2, T3)) -> (r: Result<&'a mut T2, Infallible>) {
        Ok(&mut s.2)
    }
}

impl<T0, T1, T2, T3> Getter<(T0, T1, T2, T3)> for _2 {
    open spec fn spec_view(&self, s: (T0, T1, T2, T3)) -> T2 {
        s.2
    }

    fn view(&self, s: (T0, T1, T2, T3)) -> (r: T2) {
        s.2
    }

    proof fn lemma_preview_is_view(&self, s: (T0, T1, T2, T3)) {
    }
}

impl<'a, T0: 'a, T1: 'a, T2: 'a, T3: 'a> GetterRef<'a, (T0, T1, T2, T3)> for _2 {
    fn view_ref(&self, s: &'a (T0, T1, T2, T3)) -> (r: &'a T2) {
        &s.2
    }
}

impl<'a, T0: 'a, T1: 'a, T2: 'a, T3: 'a> GetterMut<'a, (T0, T1, T2, T3)> for _2 {
    fn view_mut(&self, s: &'a mut (T0, T1, T2, T3)) -> (r: &'a mut T2) {
        &mut s.2
    }
}

impl<T0, T1, T2, T3> Setter<(T0, T1, T2, T3)> for _2 {
    open spec fn spec_set(&self, s: (T0, T1, T2, T3), a: T2) -> (T0, T1, T2, T3) {
        (s.0, s.1, a, s.3)
    }

    fn set(&self, s: &mut (T0, T1, T2, T3), a: T2) {
        s.2 = a;
    }
}

impl<T0, T1, T2, T3> Traversal<(T0, T1, T2, T3)> for _2 {
    open spec fn spec_elements(&self, s: (T0, T1, T2, T3)) -> Seq<T2> {
        seq![s.2]
    }

    fn flatten(&self, s: (T0, T1, T2, T3)) -> (r: Vec<T2>) {
        let ghost s0 = s;
        let mut r = Vec::new();
        r.push(s.2);
        assert(r@ =~= self.spec_elements(s0));
        r
    }
}

impl<T0, T1, T2, T3> AffineTraversal<(T0, T1, T2, T3)> for _2 {
    proof fn lemma_set_missing(&self, s: (T0, T1, T2, T3), a: T2) {
    }

    proof fn lemma_preview_set(&self, s: (T0, T1, T2, T3), a: T2) {
    }

    proof fn lemma_set_preview(&self, s: (T0, T1, T2, T3), a: T2) {
    }

    proof fn lemma_set_set(&self, s: (T0, T1, T2, T3), a: T2, b: T2) {
    }

    proof fn lemma_elements_preview(&self, s: (T0, T1, T2, T3)) {
    }
}

impl<T0, T1, T2, T3> Lens<(T0, T1, T2, T3)> for _2 {}

/// Lens for field `3` in tuples.
#[derive(Debug, Clone, Copy, PartialEq, Eq, Default)]
pub struct _3;

impl OpticsFallible for _3 {
    type Success = _3;
    type Error = Infallible;

    open spec fn spec_success_witness(&self) -> _3 {
        *self
    }

    fn success_witness(&self) -> (w: _3) {
        *self
    }
}

impl<T0, T1, T2, T3> Optics<(T0, T1, T2, T3)> for _3 {
    type View = T3;
}

impl<T0, T1, T2, T3> AffineFold<(T0, T1, T2, T3)> for _3 {
    open spec fn spec_preview(&self, s: (T0, T1, T2, T3)) -> Option<T3> {
        Some(s.3)
    }

    fn preview(&self, s: (T0, T1, T2, T3)) -> (r: Result<T3, Infallible>) {
        Ok(s.3)
    }
}

impl<'a, T0: 'a, T1: 'a, T2: 'a, T3: 'a> AffineFoldRef<'a, (T0, T1, T2, T3)> for _3 {
    fn preview_ref(&self, s: &'a (T0, T1, T2, T3)) -> (r: Result<&'a T3, Infallible>) {
        Ok(&s.3)
    }
}

impl<'a, T0: 'a, T1: 'a, T2: 'a, T3: 'a> AffineFoldMut<'a, (T0, T1, T2, T3)> for _3 {
    fn preview_mut(&self, s: &'a mut (T0, T1, T2, T3)) -> (r: Result<&'a mut T3, Infallible>) {
        Ok(&mut s.3)
    }
}

impl<T0, T1, T2, T3> Getter<(T0, T1, T2, T3)> for _3 {
    open spec fn spec_view(&self, s: (T0, T1, T2, T3)) -> T3 {
        s.3
    }

    fn view(&self, s: (T0, T1, T2, T3)) -> (r: T3) {
        s.3
    }

    proof fn lemma_preview_is_view(&self, s: (T0, T1, T2, T3)) {
    }
}

impl<'a, T0: 'a, T1: 'a, T2: 'a, T3: 'a> GetterRef<'a, (T0, T1, T2, T3)> for _3 {
    fn view_ref(&self, s: &'a (T0, T1, T2, T3)) -> (r: &'a T3) {
        &s.3
    }
}

impl<'a, T0: 'a, T1: 'a, T2: 'a, T3: 'a> GetterMut<'a, (T0, T1, T2, T3)> for _3 {
    fn view_mut(&self, s: &'a mut (T0, T1, T2, T3)) -> (r: &'a mut T3) {
        &mut s.3
    }
}

impl<T0, T1, T2, T3> Setter<(T0, T1, T2, T3)> for _3 {
    open spec fn spec_set(&self, s: (T0, T1, T2, T3), a: T3) -> (T0, T1, T2, T3) {
        (s.0, s.1, s.2, a)
    }

    fn set(&self, s: &mut (T0, T1, T2, T3), a: T3) {
        s.3 = a;
    }
}

impl<T0, T1, T2, T3> Traversal<(T0, T1, T2, T3)> for _3 {
    open spec fn spec_elements(&self, s: (T0, T1, T2, T3)) -> Seq<T3> {
        seq![s.3]
    }

    fn flatten(&self, s: (T0, T1, T2, T3)) -> (r: Vec<T3>) {
        let ghost s0 = s;
        let mut r = Vec::new();
        r.push(s.3);
        assert(r@ =~= self.spec_elements(s0));
        r
    }
}

impl<T0, T1, T2, T3> AffineTraversal<(T0, T1, T2, T3)> for _3 {
    proof fn lemma_set_missing(&self, s: (T0, T1, T2, T3), a: T3) {
    }

    proof fn lemma_preview_set(&self, s: (T0, T1, T2, T3), a: T3) {
    }

    proof fn lemma_set_preview(&self, s: (T0, T1, T2, T3), a: T3) {
    }

    proof fn lemma_set_set(&self, s: (T0, T1, T2, T3), a: T3, b: T3) {
    }

    proof fn lemma_elements_preview(&self, s: (T0, T1, T2, T3)) {
    }
}

impl<T0, T1, T2, T3> Lens<(T0, T1, T2, T3)> for _3 {}

impl OpticsText for _Some {
    open spec fn spec_text(&self) -> Seq<char> {
        "Some"@
    }

    fn to_string(&self) -> (s: String) {
        String::from_str("Some")
    }
}

impl OpticsText for _Ok {
    open spec fn spec_text(&self) -> Seq<char> {
        "Ok"@
    }

    fn to_string(&self) -> (s: String) {
        String::from_str("Ok")
    }
}

impl OpticsText for _Err {
    open spec fn spec_text(&self) -> Seq<char> {
        "Err"@
    }

    fn to_string(&self) -> (s: String) {
        String::from_str("Err")
    }
}

impl OpticsText for _0 {
    open spec fn spec_text(&self) -> Seq<char> {
        "0"@
    }

    fn to_string(&self) -> (s: String) {
        String::from_str("0")
    }
}

impl OpticsText for _1 {
    open spec fn spec_text(&self) -> Seq<char> {
        "1"@
    }

    fn to_string(&self) -> (s: String) {
        String::from_str("1")
    }
}

impl OpticsText for _2 {
    open spec fn spec_text(&self) -> Seq<char> {
        "2"@
    }

    fn to_string(&self) -> (s: String) {
        String::from_str("2")
    }
}

impl OpticsText for _3 {
    open spec fn spec_text(&self) -> Seq<char> {
        "3"@
    }

    fn to_string(&self) -> (s: String) {
        String::from_str("3")
    }
}

} // verus!
