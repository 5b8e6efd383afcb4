use libre_pvz::bits::F32Bits;
use libre_pvz::cli::{AnimDecoder, Format, MaybePacked, UnpackingUnsupported};
use libre_pvz::pack::Skew;
use libre_pvz::reanim::{Animation, Elements, Frame, Track, Transform};

#[test]
fn infer_format_from_extension() {
    assert_eq!(Format::infer("a/b.txt"), Some(Format::Internal));
    assert_eq!(Format::infer("Peashooter.reanim.compiled"), Some(Format::Compiled));
    assert_eq!(Format::infer("x.bin"), Some(Format::Bin));
    assert_eq!(Format::infer("x.anim"), Some(Format::Bin));
    assert_eq!(Format::infer("x.reanim"), Some(Format::Xml));
    assert_eq!(Format::infer("x.xml"), Some(Format::Xml));
    assert_eq!(Format::infer("x.json"), Some(Format::Json));
    assert_eq!(Format::infer("x.yaml"), Some(Format::Yaml));
    assert_eq!(Format::infer("x.yml"), None);
    assert_eq!(Format::infer("noext"), None);
    assert_eq!(Format::infer(".json"), None);
}

#[test]
fn infer_packed_from_name() {
    assert!(Format::infer_packed("Peashooter.anim"));
    assert!(Format::infer_packed("dir/Peashooter.packed.json"));
    assert!(!Format::infer_packed("Peashooter.json"));
    assert!(!Format::infer_packed("packed"));
    assert!(Format::packed_by_name(Some("anim"), None));
    assert!(Format::packed_by_name(None, Some("a.packed")));
    assert!(!Format::packed_by_name(None, Some("packed")));
    // structural formats: .anim.bin, .anim.json, .anim.yaml
    assert!(Format::infer_packed("Peashooter.anim.json"));
    assert!(Format::infer_packed("dir/Peashooter.anim.yaml"));
    assert!(Format::infer_packed("Peashooter.anim.bin"));
    assert!(!Format::infer_packed("Peashooter.anim.xml"));
    assert!(!Format::infer_packed("Peashooteranim.json"));
    assert!(Format::packed_by_name(Some("json"), Some("Peashooter.anim")));
    assert!(!Format::packed_by_name(Some("txt"), Some("Peashooter.anim")));
}

#[test]
fn decide_format() {
    assert_eq!(Format::decide(Some(Format::Yaml), Some("x.json"), Format::Bin), Format::Yaml);
    assert_eq!(Format::decide(None, Some("x.json"), Format::Bin), Format::Json);
    assert_eq!(Format::decide(None, Some("x.unknown"), Format::Bin), Format::Bin);
    assert_eq!(Format::decide(None, None, Format::Xml), Format::Xml);
}

#[test]
fn format_names_and_support() {
    let all = [Format::Internal, Format::Compiled, Format::Bin, Format::Xml, Format::Json, Format::Yaml];
    let names: Vec<String> = all.iter().map(|f| f.to_string()).collect();
    assert_eq!(names, vec!["internal", "compiled", "bin", "xml", "json", "yaml"]);
    assert!(Format::Bin.supports_anim(true));
    assert!(!Format::Bin.supports_anim(false));
    assert!(Format::Xml.supports_anim(false));
    assert!(!Format::Xml.supports_anim(true));
    assert!(!Format::Compiled.supports_anim(true));
    assert!(Format::Json.supports_anim(false) && Format::Json.supports_anim(true));
    assert!(Format::Internal.supports_model());
    assert!(!Format::Xml.supports_model());
    assert!(!Format::Compiled.supports_model());
    assert_eq!(Format::Json.anim_decoder(true), Some(AnimDecoder::JsonPacked));
    assert_eq!(Format::Yaml.anim_decoder(false), Some(AnimDecoder::YamlPlain));
    assert_eq!(Format::Bin.anim_decoder(false), Some(AnimDecoder::Bincode));
    assert_eq!(Format::Compiled.anim_decoder(true), Some(AnimDecoder::Compiled));
    assert_eq!(Format::Xml.anim_decoder(false), None);
}

fn plain() -> Animation {
    let t = Transform { x: None, y: None, kx: None, ky: None, sx: None, sy: None, f: Some(F32Bits(0)), a: None };
    Animation {
        fps: F32Bits(12.0f32.to_bits()),
        tracks: vec![Track {
            name: "anim_idle".to_string(),
            frames: vec![Frame { transform: t, elements: Elements { image: None, font: None, text: None } }],
        }],
    }
}

#[test]
fn packing_on_request() {
    let skews = vec![vec![Skew { kx: None, ky: None }]];
    let p = MaybePacked::Plain(plain());
    assert!(!p.is_packed());
    let packed = p.into_packed(true, &skews).unwrap();
    assert!(packed.is_packed());
    match &packed {
        MaybePacked::Packed(d) => {
            assert_eq!(d.meta.len(), 1);
            assert!(d.tracks.is_empty());
        }
        MaybePacked::Plain(_) => panic!("expected packed"),
    }
    assert_eq!(packed.into_packed(false, &vec![]).unwrap_err(), UnpackingUnsupported);
    let still_plain = MaybePacked::Plain(plain()).into_packed(false, &vec![]).unwrap();
    assert!(!still_plain.is_packed());
}

#[test]
fn output_packing_and_format_defaults() {
    // asked for, or the output name says so, or the input is packed on standard output
    assert!(Format::decide_pack_output(true, Some("out.reanim"), false));
    assert!(Format::decide_pack_output(false, Some("out.anim.json"), false));
    assert!(!Format::decide_pack_output(false, Some("out.json"), true));
    assert!(Format::decide_pack_output(false, None, true));
    assert!(!Format::decide_pack_output(false, None, false));
    // the format given, else the output extension, else internal (packed) or XML (plain)
    assert_eq!(Format::decide_anim_output(Some(Format::Yaml), Some("out.json"), true), Format::Yaml);
    assert_eq!(Format::decide_anim_output(None, Some("out.json"), false), Format::Json);
    assert_eq!(Format::decide_anim_output(None, None, true), Format::Internal);
    assert_eq!(Format::decide_anim_output(None, None, false), Format::Xml);
    assert_eq!(Format::decide_anim_output(None, Some("out.unknown"), false), Format::Xml);
}
