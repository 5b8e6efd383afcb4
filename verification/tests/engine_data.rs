use libre_pvz::bits::F32Bits;
use libre_pvz::labels::{AssetState, BoundingBoxRoot};
use libre_pvz::loader::{asset_ext, AssetFormat, Bincode, Json, Yaml};

#[test]
fn asset_extensions_for_anim() {
    let e = asset_ext("anim");
    assert_eq!(e.yaml, vec!["anim.yaml".to_string(), "anim.yml".to_string()]);
    assert_eq!(e.json, vec!["anim.json".to_string()]);
    assert_eq!(e.bin, vec!["anim.bin".to_string()]);
    assert_eq!(Json.get_extension(&e), &e.json);
    assert_eq!(Yaml.get_extension(&e), &e.yaml);
    assert_eq!(Bincode.get_extension(&e), &e.bin);
}

#[test]
fn label_defaults() {
    assert_eq!(AssetState::default(), AssetState::AssetLoading);
    assert!(!BoundingBoxRoot::default().is_visible);
}

#[test]
fn float_bits_helpers() {
    assert_eq!(F32Bits::zero(), F32Bits(0.0f32.to_bits()));
    assert_eq!(F32Bits::one(), F32Bits(1.0f32.to_bits()));
    assert_eq!(F32Bits(2.5f32.to_bits()).negate(), F32Bits((-2.5f32).to_bits()));
    assert_eq!(F32Bits(0.0f32.to_bits()).negate(), F32Bits((-0.0f32).to_bits()));
    assert!(F32Bits(0.0f32.to_bits()).is_non_negative());
    assert!(F32Bits((-0.0f32).to_bits()).is_non_negative());
    assert!(!F32Bits((-1.0f32).to_bits()).is_non_negative());
    assert!(!F32Bits(f32::NAN.to_bits()).is_non_negative());
    assert!(F32Bits(f32::INFINITY.to_bits()).is_non_negative());
    assert!(F32Bits((-9999.5f32).to_bits()).greater_than_missing());
    assert!(!F32Bits((-10000.0f32).to_bits()).greater_than_missing());
    assert!(!F32Bits(f32::NEG_INFINITY.to_bits()).greater_than_missing());
}

#[test]
fn negation_twice_is_identity() {
    for x in [0.0f32, -0.0, 1.5, -7.25, f32::INFINITY, f32::NEG_INFINITY] {
        let b = F32Bits(x.to_bits());
        assert_eq!(b.negate().negate(), b);
        assert_eq!(b.negate(), F32Bits((-x).to_bits()));
    }
    let nan = F32Bits(f32::NAN.to_bits());
    assert_eq!(nan.negate().negate(), nan);
}
