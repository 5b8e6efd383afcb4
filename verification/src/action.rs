//! Prisms focusing on each kind of [`Action`].

use vstd::prelude::*;
use crate::animation::{Action, Element, RawVec2};
use crate::bits::F32Bits;
use crate::optics::{
    AffineFold, AffineFoldMut, AffineFoldRef, AffineTraversal, Optics, OpticsFallible, OpticsText, Prism, Review, Setter,
    Traversal,
};

verus! {

/// Prism for [`Action::LoadElement`].
#[derive(Debug, Clone, Copy, PartialEq, Eq, Default)]
pub struct _LoadElement;

impl Optics<Action> for _LoadElement {
    type View = Element;
}

impl OpticsFallible for _LoadElement {
    type Success = _LoadElement;
    type Error = _LoadElement;

    open spec fn spec_success_witness(&self) -> _LoadElement {
        *self
    }

    fn success_witness(&self) -> (w: _LoadElement) {
        *self
    }
}

impl AffineFold<Action> for _LoadElement {
    open spec fn spec_preview(&self, s: Action) -> Option<Element> {
        match s {
            Action::LoadElement(v) => Some(v),
            _ => None,
        }
    }

    fn preview(&self, s: Action) -> (r: Result<Element, _LoadElement>) {
        match s {
            Action::LoadElement(v) => Ok(v),
            _ => Err(*self),
        }
    }
}

impl<'a> AffineFoldRef<'a, Action> for _LoadElement {
    fn preview_ref(&self, s: &'a Action) -> (r: Result<&'a Element, _LoadElement>) {
        match s {
            Action::LoadElement(v) => Ok(v),
            _ => Err(*self),
        }
    }
}

impl<'a> AffineFoldMut<'a, Action> for _LoadElement {
    fn preview_mut(&self, s: &'a mut Action) -> (r: Result<&'a mut Element, _LoadElement>) {
        match s {
            Action::LoadElement(v) => Ok(v),
            _ => Err(*self),
        }
    }
}

impl Review<Action> for _LoadElement {
    open spec fn spec_review(&self, a: Element) -> Action {
        Action::LoadElement(a)
    }

    fn review(&self, a: Element) -> (r: Action) {
        Action::LoadElement(a)
    }
}

impl Setter<Action> for _LoadElement {
    open spec fn spec_set(&self, s: Action, a: Element) -> Action {
        match s {
            Action::LoadElement(_) => Action::LoadElement(a),
            _ => s,
        }
    }

    fn set(&self, s: &mut Action, a: Element) {
        if let Action::LoadElement(_) = s {
            *s = Action::LoadElement(a);
        }
    }
}

impl Traversal<Action> for _LoadElement {
    open spec fn spec_elements(&self, s: Action) -> Seq<Element> {
        match s {
            Action::LoadElement(v) => seq![v],
            _ => Seq::empty(),
        }
    }

    fn flatten(&self, s: Action) -> (r: Vec<Element>) {
        let mut r = Vec::new();
        if let Action::LoadElement(v) = s {
            r.push(v);
        }
        assert(r@ =~= self.spec_elements(s));
        r
    }
}

impl AffineTraversal<Action> for _LoadElement {
    proof fn lemma_set_missing(&self, s: Action, a: Element) {
    }

    proof fn lemma_preview_set(&self, s: Action, a: Element) {
    }

    proof fn lemma_set_preview(&self, s: Action, a: Element) {
    }

    proof fn lemma_set_set(&self, s: Action, a: Element, b: Element) {
    }

    proof fn lemma_elements_preview(&self, s: Action) {
    }
}

impl Prism<Action> for _LoadElement {
    proof fn lemma_preview_review(&self, a: Element) {
    }

    proof fn lemma_review_preview(&self, s: Action, a: Element) {
    }
}

/// Prism for [`Action::Alpha`].
#[derive(Debug, Clone, Copy, PartialEq, Eq, Default)]
pub struct _Alpha;

impl Optics<Action> for _Alpha {
    type View = F32Bits;
}

impl OpticsFallible for _Alpha {
    type Success = _Alpha;
    type Error = _Alpha;

    open spec fn spec_success_witness(&self) -> _Alpha {
        *self
    }

    fn success_witness(&self) -> (w: _Alpha) {
        *self
    }
}

impl AffineFold<Action> for _Alpha {
    open spec fn spec_preview(&self, s: Action) -> Option<F32Bits> {
        match s {
            Action::Alpha(v) => Some(v),
            _ => None,
        }
    }

    fn preview(&self, s: Action) -> (r: Result<F32Bits, _Alpha>) {
        match s {
            Action::Alpha(v) => Ok(v),
            _ => Err(*self),
        }
    }
}

impl<'a> AffineFoldRef<'a, Action> for _Alpha {
    fn preview_ref(&self, s: &'a Action) -> (r: Result<&'a F32Bits, _Alpha>) {
        match s {
            Action::Alpha(v) => Ok(v),
            _ => Err(*self),
        }
    }
}

impl<'a> AffineFoldMut<'a, Action> for _Alpha {
    fn preview_mut(&self, s: &'a mut Action) -> (r: Result<&'a mut F32Bits, _Alpha>) {
        match s {
            Action::Alpha(v) => Ok(v),
            _ => Err(*self),
        }
    }
}

impl Review<Action> for _Alpha {
    open spec fn spec_review(&self, a: F32Bits) -> Action {
        Action::Alpha(a)
    }

    fn review(&self, a: F32Bits) -> (r: Action) {
        Action::Alpha(a)
    }
}

impl Setter<Action> for _Alpha {
    open spec fn spec_set(&self, s: Action, a: F32Bits) -> Action {
        match s {
            Action::Alpha(_) => Action::Alpha(a),
            _ => s,
        }
    }

    fn set(&self, s: &mut Action, a: F32Bits) {
        if let Action::Alpha(_) = s {
            *s = Action::Alpha(a);
        }
    }
}

impl Traversal<Action> for _Alpha {
    open spec fn spec_elements(&self, s: Action) -> Seq<F32Bits> {
        match s {
            Action::Alpha(v) => seq![v],
            _ => Seq::empty(),
        }
    }

    fn flatten(&self, s: Action) -> (r: Vec<F32Bits>) {
        let mut r = Vec::new();
        if let Action::Alpha(v) = s {
            r.push(v);
        }
        assert(r@ =~= self.spec_elements(s));
        r
    }
}

impl AffineTraversal<Action> for _Alpha {
    proof fn lemma_set_missing(&self, s: Action, a: F32Bits) {
    }

    proof fn lemma_preview_set(&self, s: Action, a: F32Bits) {
    }

    proof fn lemma_set_preview(&self, s: Action, a: F32Bits) {
    }

    proof fn lemma_set_set(&self, s: Action, a: F32Bits, b: F32Bits) {
    }

    proof fn lemma_elements_preview(&self, s: Action) {
    }
}

impl Prism<Action> for _Alpha {
    proof fn lemma_preview_review(&self, a: F32Bits) {
    }

    proof fn lemma_review_preview(&self, s: Action, a: F32Bits) {
    }
}

/// Prism for [`Action::Show`].
#[derive(Debug, Clone, Copy, PartialEq, Eq, Default)]
pub struct _Show;

impl Optics<Action> for _Show {
    type View = bool;
}

impl OpticsFallible for _Show {
    type Success = _Show;
    type Error = _Show;

    open spec fn spec_success_witness(&self) -> _Show {
        *self
    }

    fn success_witness(&self) -> (w: _Show) {
        *self
    }
}

impl AffineFold<Action> for _Show {
    open spec fn spec_preview(&self, s: Action) -> Option<bool> {
        match s {
            Action::Show(v) => Some(v),
            _ => None,
        }
    }

    fn preview(&self, s: Action) -> (r: Result<bool, _Show>) {
        match s {
            Action::Show(v) => Ok(v),
            _ => Err(*self),
        }
    }
}

impl<'a> AffineFoldRef<'a, Action> for _Show {
    fn preview_ref(&self, s: &'a Action) -> (r: Result<&'a bool, _Show>) {
        match s {
            Action::Show(v) => Ok(v),
            _ => Err(*self),
        }
    }
}

impl<'a> AffineFoldMut<'a, Action> for _Show {
    fn preview_mut(&self, s: &'a mut Action) -> (r: Result<&'a mut bool, _Show>) {
        match s {
            Action::Show(v) => Ok(v),
            _ => Err(*self),
        }
    }
}

impl Review<Action> for _Show {
    open spec fn spec_review(&self, a: bool) -> Action {
        Action::Show(a)
    }

    fn review(&self, a: bool) -> (r: Action) {
        Action::Show(a)
    }
}

impl Setter<Action> for _Show {
    open spec fn spec_set(&self, s: Action, a: bool) -> Action {
        match s {
            Action::Show(_) => Action::Show(a),
            _ => s,
        }
    }

    fn set(&self, s: &mut Action, a: bool) {
        if let Action::Show(_) = s {
            *s = Action::Show(a);
        }
    }
}

impl Traversal<Action> for _Show {
    open spec fn spec_elements(&self, s: Action) -> Seq<bool> {
        match s {
            Action::Show(v) => seq![v],
            _ => Seq::empty(),
        }
    }

    fn flatten(&self, s: Action) -> (r: Vec<bool>) {
        let mut r = Vec::new();
        if let Action::Show(v) = s {
            r.push(v);
        }
        assert(r@ =~= self.spec_elements(s));
        r
    }
}

impl AffineTraversal<Action> for _Show {
    proof fn lemma_set_missing(&self, s: Action, a: bool) {
    }

    proof fn lemma_preview_set(&self, s: Action, a: bool) {
    }

    proof fn lemma_set_preview(&self, s: Action, a: bool) {
    }

    proof fn lemma_set_set(&self, s: Action, a: bool, b: bool) {
    }

    proof fn lemma_elements_preview(&self, s: Action) {
    }
}

impl Prism<Action> for _Show {
    proof fn lemma_preview_review(&self, a: bool) {
    }

    proof fn lemma_review_preview(&self, s: Action, a: bool) {
    }
}

/// Prism for [`Action::Translation`].
#[derive(Debug, Clone, Copy, PartialEq, Eq, Default)]
pub struct _Translation;

impl Optics<Action> for _Translation {
    type View = RawVec2;
}

impl OpticsFallible for _Translation {
    type Success = _Translation;
    type Error = _Translation;

    open spec fn spec_success_witness(&self) -> _Translation {
        *self
    }

    fn success_witness(&self) -> (w: _Translation) {
        *self
    }
}

impl AffineFold<Action> for _Translation {
    open spec fn spec_preview(&self, s: Action) -> Option<RawVec2> {
        match s {
            Action::Translation(v) => Some(v),
            _ => None,
        }
    }

    fn preview(&self, s: Action) -> (r: Result<RawVec2, _Translation>) {
        match s {
            Action::Translation(v) => Ok(v),
            _ => Err(*self),
        }
    }
}

impl<'a> AffineFoldRef<'a, Action> for _Translation {
    fn preview_ref(&self, s: &'a Action) -> (r: Result<&'a RawVec2, _Translation>) {
        match s {
            Action::Translation(v) => Ok(v),
            _ => Err(*self),
        }
    }
}

impl<'a> AffineFoldMut<'a, Action> for _Translation {
    fn preview_mut(&self, s: &'a mut Action) -> (r: Result<&'a mut RawVec2, _Translation>) {
        match s {
            Action::Translation(v) => Ok(v),
            _ => Err(*self),
        }
    }
}

impl Review<Action> for _Translation {
    open spec fn spec_review(&self, a: RawVec2) -> Action {
        Action::Translation(a)
    }

    fn review(&self, a: RawVec2) -> (r: Action) {
        Action::Translation(a)
    }
}

impl Setter<Action> for _Translation {
    open spec fn spec_set(&self, s: Action, a: RawVec2) -> Action {
        match s {
            Action::Translation(_) => Action::Translation(a),
            _ => s,
        }
    }

    fn set(&self, s: &mut Action, a: RawVec2) {
        if let Action::Translation(_) = s {
            *s = Action::Translation(a);
        }
    }
}

impl Traversal<Action> for _Translation {
    open spec fn spec_elements(&self, s: Action) -> Seq<RawVec2> {
        match s {
            Action::Translation(v) => seq![v],
            _ => Seq::empty(),
        }
    }

    fn flatten(&self, s: Action) -> (r: Vec<RawVec2>) {
        let mut r = Vec::new();
        if let Action::Translation(v) = s {
            r.push(v);
        }
        assert(r@ =~= self.spec_elements(s));
        r
    }
}

impl AffineTraversal<Action> for _Translation {
    proof fn lemma_set_missing(&self, s: Action, a: RawVec2) {
    }

    proof fn lemma_preview_set(&self, s: Action, a: RawVec2) {
    }

    proof fn lemma_set_preview(&self, s: Action, a: RawVec2) {
    }

    proof fn lemma_set_set(&self, s: Action, a: RawVec2, b: RawVec2) {
    }

    proof fn lemma_elements_preview(&self, s: Action) {
    }
}

impl Prism<Action> for _Translation {
    proof fn lemma_preview_review(&self, a: RawVec2) {
    }

    proof fn lemma_review_preview(&self, s: Action, a: RawVec2) {
    }
}

/// Prism for [`Action::Scale`].
#[derive(Debug, Clone, Copy, PartialEq, Eq, Default)]
pub struct _Scale;

impl Optics<Action> for _Scale {
    type View = RawVec2;
}

impl OpticsFallible for _Scale {
    type Success = _Scale;
    type Error = _Scale;

    open spec fn spec_success_witness(&self) -> _Scale {
        *self
    }

    fn success_witness(&self) -> (w: _Scale) {
        *self
    }
}

impl AffineFold<Action> for _Scale {
    open spec fn spec_preview(&self, s: Action) -> Option<RawVec2> {
        match s {
            Action::Scale(v) => Some(v),
            _ => None,
        }
    }

    fn preview(&self, s: Action) -> (r: Result<RawVec2, _Scale>) {
        match s {
            Action::Scale(v) => Ok(v),
            _ => Err(*self),
        }
    }
}

impl<'a> AffineFoldRef<'a, Action> for _Scale {
    fn preview_ref(&self, s: &'a Action) -> (r: Result<&'a RawVec2, _Scale>) {
        match s {
            Action::Scale(v) => Ok(v),
            _ => Err(*self),
        }
    }
}

impl<'a> AffineFoldMut<'a, Action> for _Scale {
    fn preview_mut(&self, s: &'a mut Action) -> (r: Result<&'a mut RawVec2, _Scale>) {
        match s {
            Action::Scale(v) => Ok(v),
            _ => Err(*self),
        }
    }
}

impl Review<Action> for _Scale {
    open spec fn spec_review(&self, a: RawVec2) -> Action {
        Action::Scale(a)
    }

    fn review(&self, a: RawVec2) -> (r: Action) {
        Action::Scale(a)
    }
}

impl Setter<Action> for _Scale {
    open spec fn spec_set(&self, s: Action, a: RawVec2) -> Action {
        match s {
            Action::Scale(_) => Action::Scale(a),
            _ => s,
        }
    }

    fn set(&self, s: &mut Action, a: RawVec2) {
        if let Action::Scale(_) = s {
            *s = Action::Scale(a);
        }
    }
}

impl Traversal<Action> for _Scale {
    open spec fn spec_elements(&self, s: Action) -> Seq<RawVec2> {
        match s {
            Action::Scale(v) => seq![v],
            _ => Seq::empty(),
        }
    }

    fn flatten(&self, s: Action) -> (r: Vec<RawVec2>) {
        let mut r = Vec::new();
        if let Action::Scale(v) = s {
            r.push(v);
        }
        assert(r@ =~= self.spec_elements(s));
        r
    }
}

impl AffineTraversal<Action> for _Scale {
    proof fn lemma_set_missing(&self, s: Action, a: RawVec2) {
    }

    proof fn lemma_preview_set(&self, s: Action, a: RawVec2) {
    }

    proof fn lemma_set_preview(&self, s: Action, a: RawVec2) {
    }

    proof fn lemma_set_set(&self, s: Action, a: RawVec2, b: RawVec2) {
    }

    proof fn lemma_elements_preview(&self, s: Action) {
    }
}

impl Prism<Action> for _Scale {
    proof fn lemma_preview_review(&self, a: RawVec2) {
    }

    proof fn lemma_review_preview(&self, s: Action, a: RawVec2) {
    }
}

/// Prism for [`Action::Rotation`].
#[derive(Debug, Clone, Copy, PartialEq, Eq, Default)]
pub struct _Rotation;

impl Optics<Action> for _Rotation {
    type View = RawVec2;
}

impl OpticsFallible for _Rotation {
    type Success = _Rotation;
    type Error = _Rotation;

    open spec fn spec_success_witness(&self) -> _Rotation {
        *self
    }

    fn success_witness(&self) -> (w: _Rotation) {
        *self
    }
}

impl AffineFold<Action> for _Rotation {
    open spec fn spec_preview(&self, s: Action) -> Option<RawVec2> {
        match s {
            Action::Rotation(v) => Some(v),
            _ => None,
        }
    }

    fn preview(&self, s: Action) -> (r: Result<RawVec2, _Rotation>) {
        match s {
            Action::Rotation(v) => Ok(v),
            _ => Err(*self),
        }
    }
}

impl<'a> AffineFoldRef<'a, Action> for _Rotation {
    fn preview_ref(&self, s: &'a Action) -> (r: Result<&'a RawVec2, _Rotation>) {
        match s {
            Action::Rotation(v) => Ok(v),
            _ => Err(*self),
        }
    }
}

impl<'a> AffineFoldMut<'a, Action> for _Rotation {
    fn preview_mut(&self, s: &'a mut Action) -> (r: Result<&'a mut RawVec2, _Rotation>) {
        match s {
            Action::Rotation(v) => Ok(v),
            _ => Err(*self),
        }
    }
}

impl Review<Action> for _Rotation {
    open spec fn spec_review(&self, a: RawVec2) -> Action {
        Action::Rotation(a)
    }

    fn review(&self, a: RawVec2) -> (r: Action) {
        Action::Rotation(a)
    }
}

impl Setter<Action> for _Rotation {
    open spec fn spec_set(&self, s: Action, a: RawVec2) -> Action {
        match s {
            Action::Rotation(_) => Action::Rotation(a),
            _ => s,
        }
    }

    fn set(&self, s: &mut Action, a: RawVec2) {
        if let Action::Rotation(_) = s {
            *s = Action::Rotation(a);
        }
    }
}

impl Traversal<Action> for _Rotation {
    open spec fn spec_elements(&self, s: Action) -> Seq<RawVec2> {
        match s {
            Action::Rotation(v) => seq![v],
            _ => Seq::empty(),
        }
    }

    fn flatten(&self, s: Action) -> (r: Vec<RawVec2>) {
        let mut r = Vec::new();
        if let Action::Rotation(v) = s {
            r.push(v);
        }
        assert(r@ =~= self.spec_elements(s));
        r
    }
}

impl AffineTraversal<Action> for _Rotation {
    proof fn lemma_set_missing(&self, s: Action, a: RawVec2) {
    }

    proof fn lemma_preview_set(&self, s: Action, a: RawVec2) {
    }

    proof fn lemma_set_preview(&self, s: Action, a: RawVec2) {
    }

    proof fn lemma_set_set(&self, s: Action, a: RawVec2, b: RawVec2) {
    }

    proof fn lemma_elements_preview(&self, s: Action) {
    }
}

impl Prism<Action> for _Rotation {
    proof fn lemma_preview_review(&self, a: RawVec2) {
    }

    proof fn lemma_review_preview(&self, s: Action, a: RawVec2) {
    }
}

impl OpticsText for _LoadElement {
    open spec fn spec_text(&self) -> Seq<char> {
        "LoadElement"@
    }

    fn to_string(&self) -> (s: String) {
        String::from_str("LoadElement")
    }
}

impl OpticsText for _Alpha {
    open spec fn spec_text(&self) -> Seq<char> {
        "Alpha"@
    }

    fn to_string(&self) -> (s: String) {
        String::from_str("Alpha")
    }
}

impl OpticsText for _Show {
    open spec fn spec_text(&self) -> Seq<char> {
        "Show"@
    }

    fn to_string(&self) -> (s: String) {
        String::from_str("Show")
    }
}

impl OpticsText for _Translation {
    open spec fn spec_text(&self) -> Seq<char> {
        "Translation"@
    }

    fn to_string(&self) -> (s: String) {
        String::from_str("Translation")
    }
}

impl OpticsText for _Scale {
    open spec fn spec_text(&self) -> Seq<char> {
        "Scale"@
    }

    fn to_string(&self) -> (s: String) {
        String::from_str("Scale")
    }
}

impl OpticsText for _Rotation {
    open spec fn spec_text(&self) -> Seq<char> {
        "Rotation"@
    }

    fn to_string(&self) -> (s: String) {
        String::from_str("Rotation")
    }
}

} // verus!
