use libre_pvz::animation::Meta;
use libre_pvz::clip::{locate, path_equal, path_less, AnimationClip, AnimationClipBuilder, EntityNode, EntityPath, EntityTree, Track, TrackBuilder};
use libre_pvz::curve::{bind_curves, CurveBuilder, CurveBinding, CurveBindingInfo, CurveDescriptor, KeyframeCurve, Segment};
use libre_pvz::ecs::Entity;
use libre_pvz::reflect::{Access, FieldPath};
use libre_pvz::text::decimal_string;

#[test]
fn segment_lengths() {
    let s = Segment { start: 3, end: 7 };
    assert_eq!(s.len(), 4);
    assert_eq!(s.len_looping(), 5);
    let single = Segment { start: 5, end: 5 };
    assert_eq!(single.len(), 0);
    assert_eq!(single.len_looping(), 1);
    let m = Meta { name: "anim_idle".to_string(), start_frame: 2, end_frame: 9 };
    assert_eq!(Segment::from(&m), Segment { start: 2, end: 9 });
}

#[test]
fn curves_bound_by_runs() {
    let a = CurveDescriptor::new(1);
    let b = CurveDescriptor::new(2);
    let descriptors = vec![a, a, b, b, b, a, b];
    let player = Entity(9);
    let bindings = bind_curves(&descriptors, 1, 6, player);
    let ranges: Vec<(u64, u16, u16)> = bindings
        .iter()
        .map(|(d, info)| (d.component_type_id(), info.curve_index_start, info.curve_index_end))
        .collect();
    assert_eq!(ranges, vec![(1, 1, 2), (2, 2, 5), (1, 5, 6)]);
    assert!(bindings.iter().all(|(_, info)| info.player_entity == player));
    assert!(bind_curves(&descriptors, 4, 4, player).is_empty());
    let whole = bind_curves(&descriptors, 0, 7, player);
    assert_eq!(whole.len(), 4);
}

#[test]
fn curve_binding_carries_info() {
    let info = CurveBindingInfo { player_entity: Entity(1), curve_index_start: 2, curve_index_end: 4 };
    let binding: CurveBinding<u8> = CurveBinding::new(info);
    assert_eq!(binding.info, info);
    assert!(CurveDescriptor::new(5).same_as(&CurveDescriptor::new(5)));
    assert!(!CurveDescriptor::new(5).same_as(&CurveDescriptor::new(6)));
}

fn node(children: Option<Vec<u64>>, name: Option<&str>) -> EntityNode {
    EntityNode { children: children.map(|c| c.into_iter().map(Entity).collect()), name: name.map(|n| n.to_string()) }
}

fn sample_tree() -> EntityTree {
    EntityTree {
        nodes: vec![
            node(Some(vec![1, 2, 3]), Some("root")),
            node(None, Some("head")),
            node(Some(vec![4, 5]), Some("body")),
            node(Some(vec![6]), Some("body")),
            node(None, None),
            node(None, Some("arm")),
            node(None, Some("leg")),
        ],
    }
}

fn path(names: &[&str]) -> EntityPath {
    EntityPath(names.iter().map(|n| n.to_string()).collect())
}

#[test]
fn locate_follows_first_named_child() {
    let tree = sample_tree();
    assert_eq!(locate(Entity(0), &path(&[]), &tree), Some(Entity(0)));
    assert_eq!(locate(Entity(0), &path(&["head"]), &tree), Some(Entity(1)));
    assert_eq!(locate(Entity(0), &path(&["body", "arm"]), &tree), Some(Entity(5)));
    // the first child named "body" has no "leg"
    assert_eq!(locate(Entity(0), &path(&["body", "leg"]), &tree), None);
    // "head" has no children at all
    assert_eq!(locate(Entity(0), &path(&["head", "x"]), &tree), None);
    assert_eq!(locate(Entity(99), &path(&["head"]), &tree), None);
    assert_eq!(path(&["a", "b"]).iter().len(), 2);
}

#[test]
fn field_paths_render_and_truncate() {
    static ACCESSES: [Access; 3] = [Access::Field("field_name"), Access::TupleIndex(2), Access::ListIndex(42)];
    let p = FieldPath(&ACCESSES);
    assert_eq!(p.to_string(), "field_name.2.[42]");
    assert_eq!(p.truncate(1), FieldPath(&ACCESSES[..1]));
    assert_eq!(p.truncate(2).to_string(), "field_name.2");
    assert_eq!(p.truncate(0).to_string(), "");
    assert_eq!(FieldPath(&[]), FieldPath(&[]));
    assert_eq!(Access::TupleIndex(10).to_string(), "10");
    assert_eq!(Access::ListIndex(0).to_string(), "[0]");
}

#[test]
fn decimal_notation() {
    assert_eq!(decimal_string(0), "0");
    assert_eq!(decimal_string(7), "7");
    assert_eq!(decimal_string(10), "10");
    assert_eq!(decimal_string(1234567890), "1234567890");
    assert_eq!(decimal_string(usize::MAX), usize::MAX.to_string());
}

#[test]
fn keyframe_lookup() {
    let c = KeyframeCurve::new((), vec![0u16, 3, 3, 8], vec!['a', 'b', 'c', 'd']);
    assert_eq!(c.frame_count(), 8);
    assert_eq!(c.next_keyframe(0), 1);
    assert_eq!(c.next_keyframe(2), 1);
    assert_eq!(c.next_keyframe(3), 3);
    assert_eq!(c.next_keyframe(7), 3);
    assert_eq!(c.next_keyframe(8), 4);
    assert_eq!(c.next_keyframe(100), 4);
    assert_eq!(c.last_keyframe(5), Some(2));
    assert_eq!(c.last_keyframe(0), Some(0));
    let late = KeyframeCurve::new((), vec![4u16], vec![1u8]);
    assert_eq!(late.last_keyframe(3), None);
    assert_eq!(late.last_keyframe(4), Some(0));
}

#[test]
fn paths_order_name_by_name() {
    assert!(path_less(&path(&["a"]), &path(&["b"])));
    assert!(path_less(&path(&["a"]), &path(&["a", "b"])));
    assert!(path_less(&path(&[]), &path(&["a"])));
    assert!(path_less(&path(&["ab", "z"]), &path(&["b"])));
    assert!(!path_less(&path(&["b"]), &path(&["a", "z"])));
    assert!(!path_less(&path(&["a", "b"]), &path(&["a", "b"])));
    assert!(path_equal(&path(&["a", "b"]), &path(&["a", "b"])));
    assert!(!path_equal(&path(&["a", "b"]), &path(&["a"])));
    assert!(!path_equal(&path(&["a", "b"]), &path(&["a", "c"])));
}

#[test]
fn clip_lays_out_tracks_by_path() {
    let d = |k: u64| CurveDescriptor::new(k);
    let mut builder: AnimationClipBuilder<&str> = AnimationClip::builder();
    builder.add_curve(path(&["stem"]), d(3), "stem-3");
    builder.add_dyn_curve(path(&["head"]), d(2), "head-2");
    builder.add_curve(path(&["stem"]), d(1), "stem-1");
    builder.add_track(path(&["leaf"]), Track(vec![(d(5), "leaf-5"), (d(4), "leaf-4"), (d(5), "leaf-5b")]));
    builder.add_dyn_curve(path(&["head"]), d(2), "head-2b");
    let clip = builder.build();
    let mapping: Vec<(Vec<String>, u16, u16)> =
        clip.iter().iter().map(|(p, s, e)| (p.0.clone(), *s, *e)).collect();
    assert_eq!(
        mapping,
        vec![
            (vec!["head".to_string()], 0, 2),
            (vec!["leaf".to_string()], 2, 5),
            (vec!["stem".to_string()], 5, 7),
        ]
    );
    let ids: Vec<u64> = clip.curves().iter().map(|(d, _)| d.component_type_id()).collect();
    assert_eq!(ids, vec![2, 2, 4, 5, 5, 1, 3]);
    assert_eq!(clip.get(2).1, "leaf-4");
    assert_eq!(clip.get(5).1, "stem-1");
    assert_eq!(clip.get(6).1, "stem-3");
    let mut heads: Vec<&str> = clip.curves()[0..2].iter().map(|(_, c)| *c).collect();
    heads.sort();
    assert_eq!(heads, vec!["head-2", "head-2b"]);
    let empty: AnimationClipBuilder<u8> = AnimationClipBuilder::default();
    let empty = empty.build();
    assert!(empty.iter().is_empty() && empty.curves().is_empty());
}

#[test]
fn clip_bindings_bind_each_component_once() {
    let d = |k: u64| CurveDescriptor::new(k);
    let mut builder: AnimationClipBuilder<u8> = AnimationClipBuilder::new();
    builder.add_track(path(&["head"]), Track(vec![(d(7), 0), (d(3), 1), (d(7), 2), (d(3), 3)]));
    builder.add_track(path(&["body", "arm"]), Track(vec![(d(1), 4)]));
    builder.add_track(path(&["nowhere"]), Track(vec![(d(1), 5)]));
    let clip = builder.build();
    let tree = sample_tree();
    let bindings = clip.bindings(Entity(0), &tree);
    assert_eq!(bindings.len(), 3);
    // paths in order: ["body", "arm"], ["head"], ["nowhere"]
    let (arm, arm_runs) = bindings[0].as_ref().unwrap();
    assert_eq!(*arm, Entity(5));
    assert_eq!(arm_runs.len(), 1);
    assert_eq!((arm_runs[0].1.curve_index_start, arm_runs[0].1.curve_index_end), (0, 1));
    let (head, head_runs) = bindings[1].as_ref().unwrap();
    assert_eq!(*head, Entity(1));
    let runs: Vec<(u64, u16, u16)> = head_runs
        .iter()
        .map(|(d, info)| (d.component_type_id(), info.curve_index_start, info.curve_index_end))
        .collect();
    assert_eq!(runs, vec![(3, 1, 3), (7, 3, 5)]);
    assert!(head_runs.iter().all(|(_, info)| info.player_entity == Entity(0)));
    assert!(bindings[2].is_none());
}

#[test]
fn curve_builder_collects_keyframes() {
    let empty: CurveBuilder<char> = CurveBuilder::new();
    assert!(empty.finish(0u8).is_none());
    let mut b = CurveBuilder::new();
    b.push_keyframe(0, 'a');
    b.push_keyframe(4, 'b');
    let curve = b.finish("field").unwrap();
    assert_eq!(curve.keyframe_indices(), &[0, 4]);
    assert_eq!(curve.keyframes(), &['a', 'b']);
    assert_eq!(*curve.field_accessor(), "field");
    assert_eq!(curve.frame_count(), 4);
}

#[test]
fn track_builder_groups_keyframes_by_label() {
    let d = |k: u64| CurveDescriptor::new(k);
    let mut b: TrackBuilder<i32> = TrackBuilder::new();
    b.prepare_curve(9, d(1));
    b.push_keyframe(5, d(2), 0, 50);
    b.push_keyframe(3, d(3), 1, 30);
    b.push_keyframe(5, d(99), 2, 51);
    b.prepare_curve(1, d(4));
    b.push_keyframe(1, d(4), 70_000, 10);
    let track = b.finish();
    let curves: Vec<(u64, u64, Vec<u16>, Vec<i32>)> = track
        .0
        .iter()
        .map(|(d, c)| (*c.field_accessor(), d.component_type_id(), c.keyframe_indices().to_vec(), c.keyframes().to_vec()))
        .collect();
    // label 9 was prepared but got no keyframe; frame indices are kept as u16
    assert_eq!(
        curves,
        vec![
            (1, 4, vec![(70_000usize as u16)], vec![10]),
            (3, 3, vec![1], vec![30]),
            (5, 2, vec![0, 2], vec![50, 51]),
        ]
    );
    let none: TrackBuilder<i32> = TrackBuilder::default();
    assert!(none.finish().0.is_empty());
}

#[test]
fn keyframes_to_sample_between() {
    let curve = KeyframeCurve::new((), vec![2, 5, 9], vec!['a', 'b', 'c']);
    let seg = Segment { start: 3, end: 9 };
    // in range: the last keyframe at or before the frame, and the next one
    assert_eq!(curve.sample_keyframes(seg, 6, false), Some((1, 2)));
    assert_eq!(curve.sample_keyframes(seg, 5, false), Some((1, 2)));
    assert_eq!(curve.sample_keyframes(seg, 9, false), Some((2, 2)));
    assert_eq!(curve.sample_keyframes(seg, 1, false), None);
    // past the end: from the last keyframe of the segment back to its first
    assert_eq!(curve.sample_keyframes(seg, 9, true), Some((2, 0)));
    assert_eq!(curve.sample_keyframes(Segment { start: 0, end: 9 }, 9, true), None);
}
