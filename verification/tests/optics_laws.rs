use libre_pvz::action::{_Alpha, _LoadElement, _Show, _Translation};
use libre_pvz::animation::{Action, Element};
use libre_pvz::bits::F32Bits;
use libre_pvz::cached::Cached;
use libre_pvz::basic_optics::{_0, _1, _2, _3, _Err, _Ok, _Some};
use libre_pvz::optics::{
    AffineFold, AffineFoldMut, AffineFoldRef, Compose, ErrorCompose, Getter, GetterMut, GetterRef, OpticsText, Review,
    Setter, Traversal, _Identity,
};

fn f(x: f32) -> F32Bits {
    F32Bits(x.to_bits())
}

#[test]
fn prism_preview_review_set() {
    let t = Action::Translation([f(1.0), f(2.0)]);
    assert_eq!(_Translation.preview(Action::Translation([f(1.0), f(2.0)])).ok(), Some([f(1.0), f(2.0)]));
    assert!(_Translation.preview(Action::Show(true)).is_err());
    assert_eq!(_Translation.preview_ref(&t).ok(), Some(&[f(1.0), f(2.0)]));
    assert!(matches!(_Alpha.review(f(0.5)), Action::Alpha(a) if a == f(0.5)));
    let mut s = Action::Show(false);
    _Show.set(&mut s, true);
    assert!(matches!(s, Action::Show(true)));
    let mut other = Action::Alpha(f(1.0));
    _Show.set(&mut other, true);
    assert!(matches!(other, Action::Alpha(a) if a == f(1.0)));
    assert_eq!(_Alpha.flatten(Action::Alpha(f(3.0))), vec![f(3.0)]);
    assert!(_Alpha.flatten(Action::Show(true)).is_empty());
}

#[test]
fn prism_mutable_preview_writes_through() {
    let mut t = Action::Translation([f(1.0), f(2.0)]);
    if let Ok(v) = _Translation.preview_mut(&mut t) {
        v[1] = f(5.0);
    }
    assert!(matches!(t, Action::Translation([x, y]) if x == f(1.0) && y == f(5.0)));
    let mut e = Action::LoadElement(Element::Image { image: Cached::from("a.png".to_string()) });
    assert!(_Translation.preview_mut(&mut e).is_err());
    if let Ok(Element::Image { image }) = _LoadElement.preview_mut(&mut e) {
        image.raw_key = "b.png".to_string();
    }
    assert!(matches!(&e, Action::LoadElement(Element::Image { image }) if image.raw_key == "b.png"));
}

#[test]
fn identity_is_a_lens_and_a_prism() {
    let id = _Identity::<u32>::new();
    assert_eq!(id.view(7), 7);
    assert_eq!(*id.view_ref(&7), 7);
    assert_eq!(id.review(9), 9);
    let mut x = 1u32;
    *id.view_mut(&mut x) = 4;
    assert_eq!(x, 4);
    id.set(&mut x, 6);
    assert_eq!(x, 6);
    assert_eq!(id.flatten(3), vec![3]);
}

#[test]
fn composed_optics() {
    let c = Compose(_Translation, _Identity::<[F32Bits; 2]>::new());
    let mut s = Action::Translation([f(1.0), f(2.0)]);
    assert_eq!(c.preview(Action::Translation([f(1.0), f(2.0)])).ok(), Some([f(1.0), f(2.0)]));
    assert!(matches!(c.preview(Action::Show(true)), Err(ErrorCompose::Head(_Translation))));
    c.set(&mut s, [f(3.0), f(4.0)]);
    assert!(matches!(s, Action::Translation([x, y]) if x == f(3.0) && y == f(4.0)));
    let mut hidden = Action::Show(false);
    c.set(&mut hidden, [f(3.0), f(4.0)]);
    assert!(matches!(hidden, Action::Show(false)));
    assert!(matches!(c.review([f(0.0), f(1.0)]), Action::Translation([x, y]) if x == f(0.0) && y == f(1.0)));
    assert_eq!(c.flatten(Action::Translation([f(7.0), f(8.0)])), vec![[f(7.0), f(8.0)]]);
    if let Ok(v) = c.preview_mut(&mut s) {
        v[0] = f(9.0);
    }
    assert!(matches!(s, Action::Translation([x, _]) if x == f(9.0)));
    let ids = Compose(_Identity::<u8>::new(), _Identity::<u8>::new());
    assert_eq!(ids.view(5), 5);
    // a failure of the second part is reported as the tail's
    let tail = Compose(_Identity::<Action>::new(), _Alpha);
    assert!(matches!(tail.preview(Action::Show(true)), Err(ErrorCompose::Tail((), _Alpha))));
    assert!(matches!(tail.preview_ref(&Action::Show(true)), Err(ErrorCompose::Tail((), _Alpha))));
    assert!(matches!(c.preview_ref(&Action::Show(true)), Err(ErrorCompose::Head(_Translation))));
}

#[test]
fn prism_laws_on_values() {
    // preview after review gives the value back
    let a = [f(1.5), f(-2.0)];
    assert_eq!(_Translation.preview(_Translation.review(a)).ok(), Some(a));
    // a value with a target is the review of that target
    let s = Action::Alpha(f(0.75));
    let target = _Alpha.preview(Action::Alpha(f(0.75))).unwrap();
    assert!(matches!((_Alpha.review(target), s), (Action::Alpha(x), Action::Alpha(y)) if x == y));
    // the second of two settings wins
    let mut twice = Action::Scale([f(1.0), f(1.0)]);
    _Translation.set(&mut twice, a);
    assert!(matches!(twice, Action::Scale(_)));
    let mut s1 = Action::Show(true);
    _Show.set(&mut s1, false);
    _Show.set(&mut s1, true);
    assert!(matches!(s1, Action::Show(true)));
}

#[test]
fn lens_laws_on_values() {
    let id = _Identity::<i64>::new();
    let mut s = -3i64;
    id.set(&mut s, 8);
    assert_eq!(id.view(s), 8);
    let before = s;
    let v = id.view(s);
    id.set(&mut s, v);
    assert_eq!(s, before);
}

#[test]
fn basic_optics() {
    let x: Option<u8> = Some(3);
    assert_eq!(_Some.preview(x), Ok(3));
    assert_eq!(_Some.preview(None::<u8>), Err(_Some));
    let mut y: Option<u8> = None;
    _Some.set(&mut y, 9);
    assert_eq!(y, None);
    let mut z: Option<u8> = Some(1);
    _Some.set(&mut z, 9);
    assert_eq!(z, Some(9));
    assert_eq!(_Some.review(4u8), Some(4));
    let r: Result<u8, char> = Err('e');
    assert_eq!(_Err.preview(r), Ok('e'));
    assert_eq!(_Ok.preview(r), Err(_Ok));
    let mut t = (1u8, 'a', true);
    assert_eq!(_1.view(t), 'a');
    _2.set(&mut t, false);
    assert_eq!(t, (1, 'a', false));
    *_0.view_mut(&mut t) = 7;
    assert_eq!(t.0, 7);
    assert_eq!(_3.view((0u8, 1u8, 2u8, 3u8)), 3);
    assert_eq!(_0.flatten((5u8,)), vec![5]);
}

#[test]
fn composed_errors_name_the_failing_prefix() {
    let c = Compose(Compose(_Ok, _1), _Some);
    let good: Result<(u8, Option<u32>), ()> = Ok((0, Some(42)));
    assert_eq!(c.preview(good).ok(), Some(42));
    let tail: Result<(u8, Option<u32>), ()> = Ok((0, None));
    assert_eq!(c.preview(tail).unwrap_err().to_string(), "Ok.1.Some");
    let head: Result<(u8, Option<u32>), ()> = Err(());
    assert_eq!(c.preview(head).unwrap_err().to_string(), "Ok");
    assert_eq!(c.to_string(), "Ok.1.Some");
    assert_eq!(Compose(_Translation, _0).to_string(), "Translation.0");
}
