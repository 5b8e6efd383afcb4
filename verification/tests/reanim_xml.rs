use libre_pvz::bits::F32Bits;
use libre_pvz::reanim::{Animation, Elements, Frame, Track, Transform};
use libre_pvz::xml::animation_xml;

fn f(x: f32) -> F32Bits {
    F32Bits(x.to_bits())
}

fn empty_transform() -> Transform {
    Transform { x: None, y: None, kx: None, ky: None, sx: None, sy: None, f: None, a: None }
}

#[test]
fn xml_lays_out_tracks_and_frames() {
    let mut t = empty_transform();
    t.x = Some(f(1.5));
    t.a = Some(f(0.0));
    let anim = Animation {
        fps: f(12.0),
        tracks: vec![
            Track {
                name: "head".to_string(),
                frames: vec![
                    Frame { transform: t, elements: Elements { image: Some("IMG".to_string()), font: None, text: None } },
                    Frame { transform: empty_transform(), elements: Elements { image: None, font: Some("F".to_string()), text: Some("hi".to_string()) } },
                ],
            },
            Track { name: "empty".to_string(), frames: vec![] },
        ],
    };
    let mut n0: [Option<String>; 8] = Default::default();
    n0[0] = Some("1.5".to_string());
    n0[7] = Some("0".to_string());
    let numbers = vec![vec![n0, Default::default()], vec![]];
    let xml = animation_xml(&anim, "12", &numbers);
    assert_eq!(
        xml,
        "<fps>12</fps>\n\
         <track>\n<name>head</name>\n\
         <t><x>1.5</x><a>0</a><i>IMG</i></t>\n\
         <t><font>F</font><text>hi</text></t>\n\
         </track>\n\
         <track>\n<name>empty</name>\n</track>\n"
    );
}

#[test]
fn xml_of_animation_without_tracks() {
    let anim = Animation { fps: f(30.0), tracks: vec![] };
    assert_eq!(animation_xml(&anim, "30", &vec![]), "<fps>30</fps>\n");
}
