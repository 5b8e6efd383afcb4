use libre_pvz::animation::{Action, AnimDesc, KeyframeValue, Animation as PackedAnimation, Element, Frame as PackedFrame, Track as PackedTrack};
use libre_pvz::bits::F32Bits;
use libre_pvz::cached::{Cached, SortedSlice};
use libre_pvz::pack::{pack_animation, pack_track, track_to_meta, Skew};
use libre_pvz::reanim::{Animation, Elements, Frame, Track, Transform};

fn f(x: f32) -> F32Bits {
    F32Bits(x.to_bits())
}

fn empty_transform() -> Transform {
    Transform { x: None, y: None, kx: None, ky: None, sx: None, sy: None, f: None, a: None }
}

fn no_elements() -> Elements {
    Elements { image: None, font: None, text: None }
}

fn no_skew() -> Skew {
    Skew { kx: None, ky: None }
}

fn show(v: bool) -> PackedFrame {
    PackedFrame(vec![Action::Show(v)])
}

fn image_name(action: &Action) -> Option<&str> {
    match action {
        Action::LoadElement(Element::Image { image }) => Some(image.raw_key.as_str()),
        _ => None,
    }
}

#[test]
fn pack_frame_actions_in_order() {
    let t = Transform {
        x: Some(f(3.0)),
        y: Some(f(4.0)),
        kx: Some(f(90.0)),
        ky: None,
        sx: Some(f(2.0)),
        sy: None,
        f: Some(f(0.0)),
        a: Some(f(0.5)),
    };
    let track = Track {
        name: "arm".to_string(),
        frames: vec![Frame {
            transform: t,
            elements: Elements { image: Some("IMAGE_REANIM_PEA_HEAD".to_string()), font: None, text: None },
        }],
    };
    let skews = vec![Skew { kx: Some(f(1.5)), ky: None }];
    let packed = pack_track(track, &skews);
    assert_eq!(packed.name, "arm");
    assert_eq!(packed.frames.len(), 1);
    let actions = &packed.frames[0].0;
    assert_eq!(actions.len(), 6);
    assert!(matches!(actions[0], Action::Translation([x, y]) if x == f(3.0) && y == f(-4.0)));
    assert!(matches!(actions[1], Action::Scale([x, y]) if x == f(2.0) && y == f(1.0)));
    assert!(matches!(actions[2], Action::Rotation([x, y]) if x == f(-1.5) && y == f(0.0)));
    assert!(matches!(actions[3], Action::Alpha(a) if a == f(0.5)));
    assert!(matches!(actions[4], Action::Show(true)));
    assert_eq!(image_name(&actions[5]), Some("Pea_head.png"));
}

#[test]
fn pack_state_carries_over_frames() {
    let mut t0 = empty_transform();
    t0.x = Some(f(10.0));
    t0.y = Some(f(20.0));
    let mut t1 = empty_transform();
    t1.y = Some(f(5.0));
    t1.f = Some(f(-1.0));
    let mut t2 = empty_transform();
    t2.sy = Some(f(3.0));
    let track = Track {
        name: "t".to_string(),
        frames: vec![
            Frame { transform: t0, elements: no_elements() },
            Frame { transform: t1, elements: no_elements() },
            Frame { transform: t2, elements: no_elements() },
            Frame { transform: empty_transform(), elements: no_elements() },
        ],
    };
    let packed = pack_track(track, &vec![no_skew(), no_skew(), no_skew(), no_skew()]);
    assert!(matches!(packed.frames[0].0[..], [Action::Translation([x, y])] if x == f(10.0) && y == f(-20.0)));
    assert!(matches!(packed.frames[1].0[..], [Action::Translation([x, y]), Action::Show(false)] if x == f(10.0) && y == f(-5.0)));
    assert!(matches!(packed.frames[2].0[..], [Action::Scale([x, y])] if x == f(1.0) && y == f(3.0)));
    assert!(packed.frames[3].0.is_empty());
}

#[test]
fn pack_text_and_image_names() {
    let frames = vec![
        Frame {
            transform: empty_transform(),
            elements: Elements { image: None, font: Some("DwarvenTodcraft18".to_string()), text: Some("Hi".to_string()) },
        },
        Frame {
            transform: empty_transform(),
            elements: Elements {
                image: Some("IMAGE_REANIM_X".to_string()),
                font: Some("F".to_string()),
                text: Some("dropped".to_string()),
            },
        },
        Frame {
            transform: empty_transform(),
            elements: Elements { image: None, font: None, text: Some("no font".to_string()) },
        },
        Frame {
            transform: empty_transform(),
            elements: Elements { image: Some("custom.png".to_string()), font: None, text: None },
        },
        Frame {
            transform: empty_transform(),
            elements: Elements { image: Some("IMAGE_REANIM_".to_string()), font: None, text: None },
        },
        Frame {
            transform: empty_transform(),
            elements: Elements { image: Some("IMAGE_REANIM_éAB".to_string()), font: None, text: None },
        },
    ];
    let n = frames.len();
    let packed = pack_track(Track { name: "text".to_string(), frames }, &vec![no_skew(); n]);
    match &packed.frames[0].0[..] {
        [Action::LoadElement(Element::Text { text, font })] => {
            assert_eq!(text, "Hi");
            assert_eq!(font.raw_key, "DwarvenTodcraft18");
            assert_eq!(font.cached, None);
        }
        other => panic!("unexpected actions {other:?}"),
    }
    assert_eq!(packed.frames[1].0.len(), 1);
    assert_eq!(image_name(&packed.frames[1].0[0]), Some("X.png"));
    assert!(packed.frames[2].0.is_empty());
    assert_eq!(image_name(&packed.frames[3].0[0]), Some("custom.png"));
    assert_eq!(image_name(&packed.frames[4].0[0]), Some(""));
    assert_eq!(image_name(&packed.frames[5].0[0]), Some("éAB"));
    // new elements carry their raw names only, nothing cached yet
    match &packed.frames[1].0[0] {
        Action::LoadElement(Element::Image { image }) => assert_eq!(image.cached, None),
        other => panic!("unexpected action {other:?}"),
    }
}

fn packed_track(name: &str, frames: Vec<PackedFrame>) -> PackedTrack {
    PackedTrack { name: name.to_string(), frames }
}

#[test]
fn meta_from_visibility_range() {
    let frames = vec![
        show(false),
        PackedFrame(vec![]),
        PackedFrame(vec![Action::Alpha(f(1.0))]),
        show(true),
        PackedFrame(vec![]),
        PackedFrame(vec![]),
        show(false),
        PackedFrame(vec![]),
    ];
    let meta = track_to_meta(packed_track("anim_idle", frames)).unwrap();
    assert_eq!(meta.name, "anim_idle");
    assert_eq!(meta.start_frame, 3);
    assert_eq!(meta.end_frame, 5);
}

#[test]
fn meta_visible_until_the_end() {
    let frames = vec![PackedFrame(vec![]), PackedFrame(vec![]), show(true), PackedFrame(vec![])];
    let meta = track_to_meta(packed_track("always", frames)).unwrap();
    assert_eq!((meta.start_frame, meta.end_frame), (0, 3));
}

#[test]
fn not_a_meta_track() {
    // two visible ranges
    let frames = vec![show(true), show(false), show(true), show(false)];
    let t = track_to_meta(packed_track("twice", frames)).unwrap_err();
    assert_eq!(t.name, "twice");
    assert_eq!(t.frames.len(), 4);
    // loads an element
    let frames = vec![PackedFrame(vec![Action::LoadElement(Element::Image { image: Cached::from("a.png".to_string()) })])];
    assert!(track_to_meta(packed_track("image", frames)).is_err());
    // hidden throughout
    assert!(track_to_meta(packed_track("hidden", vec![show(false), show(false)])).is_err());
    // no frames
    assert!(track_to_meta(packed_track("empty", vec![])).is_err());
}

fn reanim_track(name: &str, shows: &[Option<f32>]) -> Track {
    Track {
        name: name.to_string(),
        frames: shows
            .iter()
            .map(|s| {
                let mut t = empty_transform();
                t.f = s.map(f);
                Frame { transform: t, elements: no_elements() }
            })
            .collect(),
    }
}

fn sample_description() -> AnimDesc {
    let tracks = vec![
        reanim_track("anim_walk", &[Some(-1.0), None, Some(0.0), None, Some(-1.0)]),
        {
            let mut t = reanim_track("body", &[None, None]);
            t.frames[0].elements.image = Some("IMAGE_REANIM_BODY".to_string());
            t
        },
        reanim_track("anim_idle", &[Some(0.0), Some(-1.0)]),
    ];
    let skews = tracks.iter().map(|t| vec![no_skew(); t.frames.len()]).collect::<Vec<_>>();
    pack_animation(Animation { fps: f(12.0), tracks }, &skews)
}

#[test]
fn pack_animation_splits_meta_tracks() {
    let desc = sample_description();
    assert_eq!(desc.fps, f(12.0));
    assert_eq!(desc.tracks.len(), 1);
    assert_eq!(desc.tracks[0].name, "body");
    let metas = desc.meta.as_slice();
    assert_eq!(metas.len(), 2);
    assert_eq!(metas[0].name, "anim_idle");
    assert_eq!((metas[0].start_frame, metas[0].end_frame), (0, 0));
    assert_eq!(metas[1].name, "anim_walk");
    assert_eq!((metas[1].start_frame, metas[1].end_frame), (2, 3));
    let (k, m) = desc.get_meta("anim_walk").unwrap();
    assert_eq!(k, 1);
    assert_eq!(m.start_frame, 2);
    assert!(desc.get_meta("anim_run").is_none());
    assert_eq!(desc.image_files(), vec!["Body.png".to_string()]);
}

#[test]
fn accumulated_frame_keeps_last_of_each_kind() {
    let track = packed_track(
        "t",
        vec![
            PackedFrame(vec![Action::Alpha(f(0.1)), Action::Show(false)]),
            PackedFrame(vec![Action::Translation([f(1.0), f(2.0)]), Action::Alpha(f(0.2))]),
            PackedFrame(vec![Action::Alpha(f(0.3))]),
        ],
    );
    let anim = PackedAnimation { description: sample_description() };
    let acc = anim.accumulated_frame_to(&track, 1);
    assert_eq!(acc.0.len(), 3);
    assert!(matches!(acc.0[0], Action::Alpha(a) if a == f(0.2)));
    assert!(matches!(acc.0[1], Action::Show(false)));
    assert!(matches!(acc.0[2], Action::Translation([x, y]) if x == f(1.0) && y == f(2.0)));
    let acc0 = anim.accumulated_frame_to(&track, 0);
    assert_eq!(acc0.0.len(), 2);
    let acc2 = anim.accumulated_frame_to(&track, 2);
    assert!(matches!(acc2.0[0], Action::Alpha(a) if a == f(0.3)));
}

#[test]
fn actions_clone_equal() {
    let a = Action::LoadElement(Element::Text { text: "t".to_string(), font: Cached::from("f".to_string()) });
    match a.clone() {
        Action::LoadElement(Element::Text { text, font }) => {
            assert_eq!(text, "t");
            assert_eq!(font.raw_key, "f");
        }
        other => panic!("unexpected clone {other:?}"),
    }
}

fn image_action(name: &str, handle: u64) -> Action {
    Action::LoadElement(Element::Image { image: Cached { raw_key: name.to_string(), cached: Some(handle) } })
}

#[test]
fn clip_has_one_curve_per_kind() {
    let anim = PackedAnimation {
        description: AnimDesc {
            fps: f(12.0),
            meta: SortedSlice::from(vec![]),
            tracks: vec![
                packed_track(
                    "stem",
                    vec![
                        PackedFrame(vec![image_action("STEM", 7), Action::Translation([f(1.0), f(2.0)]), Action::Alpha(f(1.0))]),
                        PackedFrame(vec![Action::Translation([f(3.0), f(4.0)]), Action::Scale([f(2.0), f(2.0)])]),
                        PackedFrame(vec![]),
                        PackedFrame(vec![Action::Alpha(f(0.5)), Action::Show(false)]),
                    ],
                ),
                packed_track("head", vec![PackedFrame(vec![Action::Show(true)])]),
                packed_track("blank", vec![PackedFrame(vec![])]),
            ],
        },
    };
    let clip = anim.clip();
    let names: Vec<(String, u16, u16)> = clip.iter().iter().map(|(p, s, e)| (p.0[0].clone(), *s, *e)).collect();
    assert_eq!(
        names,
        vec![("blank".to_string(), 0, 0), ("head".to_string(), 0, 1), ("stem".to_string(), 1, 6)]
    );
    // the curves of "stem": image (0), alpha (1), visibility (2), then the transform's
    // translation (3) and scale (4) in some order
    let stem: Vec<(u64, u64, Vec<u16>)> = clip.curves()[1..6]
        .iter()
        .map(|(d, c)| (d.component_type_id(), *c.field_accessor(), c.keyframe_indices().to_vec()))
        .collect();
    assert_eq!(stem[0], (0, 0, vec![0]));
    assert_eq!(stem[1], (1, 1, vec![0, 3]));
    assert_eq!(stem[2], (2, 2, vec![3]));
    let mut transform: Vec<(u64, u64, Vec<u16>)> = stem[3..].to_vec();
    transform.sort();
    assert_eq!(transform, vec![(3, 3, vec![0, 1]), (3, 4, vec![1])]);
    assert!(matches!(clip.curves()[1].1.keyframes()[0], KeyframeValue::Image(7)));
    assert!(matches!(clip.curves()[2].1.keyframes()[1], KeyframeValue::Alpha(a) if a == f(0.5)));
    assert!(matches!(clip.curves()[0].1.keyframes()[0], KeyframeValue::Visible(true)));
}
