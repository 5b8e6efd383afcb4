//! Decisions of the `reanim-decode` command line: formats inferred from file names, and
//! whether animations are packed.

use vstd::prelude::*;
use crate::animation::AnimDesc;
use crate::pack::{Skew, all_skews_match, meta_tracks, pack_animation, plain_tracks, skew_views, spec_packed_tracks};
use crate::reanim::Animation;
use crate::stream::views;

verus! {

/// Input/output format.
#[derive(Debug, Clone, Copy, PartialEq, Eq, Structural)]
pub enum Format {
    /// Internal encoding (Rust `{:#?}` debug pretty printing)
    Internal,
    /// Original "compiled format": file extension `.reanim.compiled`.
    Compiled,
    /// Binary encoding using `bincode`. Only support packed format.
    Bin,
    /// XML format as is used in original PvZ game.
    Xml,
    /// JSON format.
    Json,
    /// YAML format.
    Yaml,
}

/// Name of a format, as its `Display` writes it.
pub open spec fn format_name(f: Format) -> Seq<char> {
    match f {
        Format::Internal => seq!['i', 'n', 't', 'e', 'r', 'n', 'a', 'l'],
        Format::Compiled => seq!['c', 'o', 'm', 'p', 'i', 'l', 'e', 'd'],
        Format::Bin => seq!['b', 'i', 'n'],
        Format::Xml => seq!['x', 'm', 'l'],
        Format::Json => seq!['j', 's', 'o', 'n'],
        Format::Yaml => seq!['y', 'a', 'm', 'l'],
    }
}

/// The format that a file extension indicates.
pub open spec fn format_of_extension(ext: Seq<char>) -> Option<Format> {
    if ext == seq!['t', 'x', 't'] {
        Some(Format::Internal)
    } else if ext == seq!['c', 'o', 'm', 'p', 'i', 'l', 'e', 'd'] {
        Some(Format::Compiled)
    } else if ext == seq!['b', 'i', 'n'] || ext == seq!['a', 'n', 'i', 'm'] {
        Some(Format::Bin)
    } else if ext == seq!['r', 'e', 'a', 'n', 'i', 'm'] || ext == seq!['x', 'm', 'l'] {
        Some(Format::Xml)
    } else if ext == seq!['j', 's', 'o', 'n'] {
        Some(Format::Json)
    } else if ext == seq!['y', 'a', 'm', 'l'] {
        Some(Format::Yaml)
    } else {
        None
    }
}

/// The extension of a path, as `std::path::Path::extension` gives it (when it is valid UTF-8).
pub uninterp spec fn path_extension_of(path: Seq<char>) -> Option<Seq<char>>;

/// The file stem of a path, as `std::path::Path::file_stem` gives it (when it is valid UTF-8).
pub uninterp spec fn path_file_stem_of(path: Seq<char>) -> Option<Seq<char>>;

/// `std::path::Path::extension`, kept only when it is valid UTF-8 (`OsStr::to_str`): the
/// portion of the file name after its last `.`. The result is named, not stated.
#[verifier::external_body]
fn path_extension(path: &str) -> (r: Option<String>)
    ensures
        opt_string_view(r) == path_extension_of(path@),
{
    std::path::Path::new(path).extension().and_then(|e| e.to_str()).map(|e| e.to_string())
}

/// `std::path::Path::file_stem`, kept only when it is valid UTF-8 (`OsStr::to_str`): the file
/// name without its extension. The result is named, not stated.
#[verifier::external_body]
fn path_file_stem(path: &str) -> (r: Option<String>)
    ensures
        opt_string_view(r) == path_file_stem_of(path@),
{
    std::path::Path::new(path).file_stem().and_then(|e| e.to_str()).map(|e| e.to_string())
}

/// Model of an optional string.
pub open spec fn opt_string_view(s: Option<String>) -> Option<Seq<char>> {
    match s {
        Some(x) => Some(x@),
        None => None,
    }
}

/// Does `s` end with `suffix`?
pub open spec fn has_suffix(s: Seq<char>, suffix: Seq<char>) -> bool {
    suffix.len() <= s.len() && s.skip(s.len() - suffix.len()) == suffix
}

/// Is the extension that of a structural format after `.anim`: `bin`, `json` or `yaml`?
pub open spec fn structural_extension(ext: Option<Seq<char>>) -> bool {
    ||| ext == Some(seq!['b', 'i', 'n'])
    ||| ext == Some(seq!['j', 's', 'o', 'n'])
    ||| ext == Some(seq!['y', 'a', 'm', 'l'])
}

/// Does the name say that the file is packed (holds a structural animation)? Extension `anim`;
/// a stem ending in `.packed`; or the structural formats `.anim.bin`, `.anim.json` and
/// `.anim.yaml`: extension `bin`, `json` or `yaml` after a stem ending in `.anim`.
pub open spec fn packed_by_name(ext: Option<Seq<char>>, stem: Option<Seq<char>>) -> bool {
    ||| ext == Some(seq!['a', 'n', 'i', 'm'])
    ||| (stem matches Some(s) && has_suffix(s, seq!['.', 'p', 'a', 'c', 'k', 'e', 'd']))
    ||| (structural_extension(ext) && (stem matches Some(s) && has_suffix(s, seq!['.', 'a', 'n', 'i', 'm'])))
}

/// The format decided for an (option, path, default) tuple: the format given, else the one the
/// path's extension indicates, else the default.
pub open spec fn spec_decide(spec: Option<Format>, path: Option<Seq<char>>, default: Format) -> Format {
    match spec {
        Some(s) => s,
        None => match path {
            Some(p) => match path_extension_of(p) {
                Some(ext) => match format_of_extension(ext) {
                    Some(g) => g,
                    None => default,
                },
                None => default,
            },
            None => default,
        },
    }
}

/// Does `s` end with `suffix`?
fn ends_with(s: &str, suffix: &str) -> (r: bool)
    ensures
        r == (suffix@.len() <= s@.len() && s@.skip(s@.len() - suffix@.len()) == suffix@),
{
    let n: usize = s.unicode_len();
    let m: usize = suffix.unicode_len();
    if m > n {
        return false;
    }
    let tail = s.substring_char(n - m, n);
    assert(tail@ =~= s@.skip(n - m));
    crate::cached::str_equal(tail, suffix)
}

impl Format {
    /// Name of this format, as its `Display` writes it.
    pub fn to_string(&self) -> (s: String)
        ensures
            s@ == format_name(*self),
    {
        proof {
            reveal_strlit("internal");
            reveal_strlit("compiled");
            reveal_strlit("bin");
            reveal_strlit("xml");
            reveal_strlit("json");
            reveal_strlit("yaml");
        }
        let s = String::from_str(
            match self {
                Format::Internal => "internal",
                Format::Compiled => "compiled",
                Format::Bin => "bin",
                Format::Xml => "xml",
                Format::Json => "json",
                Format::Yaml => "yaml",
            },
        );
        assert(s@ =~= format_name(*self));
        s
    }

    /// The format that a file extension indicates, if any.
    pub fn from_extension(ext: &str) -> (f: Option<Format>)
        ensures
            f == format_of_extension(ext@),
    {
        proof {
            reveal_strlit("txt");
            reveal_strlit("compiled");
            reveal_strlit("bin");
            reveal_strlit("anim");
            reveal_strlit("reanim");
            reveal_strlit("xml");
            reveal_strlit("json");
            reveal_strlit("yaml");
        }
        let eq = |lit: &str| -> (r: bool)
            ensures
                r == (ext@ == lit@),
        { crate::cached::str_equal(ext, lit) };
        if eq("txt") {
            assert("txt"@ =~= seq!['t', 'x', 't']);
            Some(Format::Internal)
        } else if eq("compiled") {
            assert("compiled"@ =~= seq!['c', 'o', 'm', 'p', 'i', 'l', 'e', 'd']);
            Some(Format::Compiled)
        } else if eq("bin") || eq("anim") {
            assert("bin"@ =~= seq!['b', 'i', 'n']);
            assert("anim"@ =~= seq!['a', 'n', 'i', 'm']);
            Some(Format::Bin)
        } else if eq("reanim") || eq("xml") {
            assert("reanim"@ =~= seq!['r', 'e', 'a', 'n', 'i', 'm']);
            assert("xml"@ =~= seq!['x', 'm', 'l']);
            Some(Format::Xml)
        } else if eq("json") {
            assert("json"@ =~= seq!['j', 's', 'o', 'n']);
            Some(Format::Json)
        } else if eq("yaml") {
            assert("yaml"@ =~= seq!['y', 'a', 'm', 'l']);
            Some(Format::Yaml)
        } else {
            proof {
                assert("txt"@ =~= seq!['t', 'x', 't']);
                assert("compiled"@ =~= seq!['c', 'o', 'm', 'p', 'i', 'l', 'e', 'd']);
                assert("bin"@ =~= seq!['b', 'i', 'n']);
                assert("anim"@ =~= seq!['a', 'n', 'i', 'm']);
                assert("reanim"@ =~= seq!['r', 'e', 'a', 'n', 'i', 'm']);
                assert("xml"@ =~= seq!['x', 'm', 'l']);
                assert("json"@ =~= seq!['j', 's', 'o', 'n']);
                assert("yaml"@ =~= seq!['y', 'a', 'm', 'l']);
            }
            None
        }
    }

    /// Is the file packed, judging by its extension and stem (see [`packed_by_name`])?
    pub fn packed_by_name(ext: Option<&str>, stem: Option<&str>) -> (r: bool)
        ensures
            r == packed_by_name(crate::cached::key_view(ext), crate::cached::key_view(stem)),
    {
        proof {
            reveal_strlit("anim");
            reveal_strlit(".packed");
            reveal_strlit(".anim");
            reveal_strlit("bin");
            reveal_strlit("json");
            reveal_strlit("yaml");
            assert("anim"@ =~= seq!['a', 'n', 'i', 'm']);
            assert(".packed"@ =~= seq!['.', 'p', 'a', 'c', 'k', 'e', 'd']);
            assert(".anim"@ =~= seq!['.', 'a', 'n', 'i', 'm']);
            assert("bin"@ =~= seq!['b', 'i', 'n']);
            assert("json"@ =~= seq!['j', 's', 'o', 'n']);
            assert("yaml"@ =~= seq!['y', 'a', 'm', 'l']);
        }
        let (by_ext, structural_ext) = match ext {
            Some(e) => (
                crate::cached::str_equal(e, "anim"),
                crate::cached::str_equal(e, "bin") || crate::cached::str_equal(e, "json")
                    || crate::cached::str_equal(e, "yaml"),
            ),
            None => (false, false),
        };
        let (by_stem, anim_stem) = match stem {
            Some(s) => (ends_with(s, ".packed"), ends_with(s, ".anim")),
            None => (false, false),
        };
        by_ext || by_stem || (structural_ext && anim_stem)
    }

    /// Infer whether or not the file is packed, from its name (see [`packed_by_name`]).
    pub fn infer_packed(path: &str) -> (r: bool)
        ensures
            r == packed_by_name(path_extension_of(path@), path_file_stem_of(path@)),
    {
        let ext = path_extension(path);
        let stem = path_file_stem(path);
        let e = match &ext {
            Some(x) => Some(x.as_str()),
            None => None,
        };
        let s = match &stem {
            Some(x) => Some(x.as_str()),
            None => None,
        };
        Format::packed_by_name(e, s)
    }

    /// Infer a format from given file name.
    pub fn infer(path: &str) -> (f: Option<Format>)
        ensures
            f == match path_extension_of(path@) {
                Some(ext) => format_of_extension(ext),
                None => None,
            },
    {
        match path_extension(path) {
            Some(ext) => Format::from_extension(ext.as_str()),
            None => None,
        }
    }

    /// Decide an input/output format for a given (option, path, default) tuple: the format
    /// given, else the one the path indicates, else the default.
    pub fn decide(spec: Option<Format>, path: Option<&str>, default: Format) -> (f: Format)
        ensures
            f == spec_decide(spec, crate::cached::key_view(path), default),
    {
        match spec {
            Some(s) => s,
            None => match path {
                Some(p) => match Format::infer(p) {
                    Some(g) => g,
                    None => default,
                },
                None => default,
            },
        }
    }

    /// Should the animation output be packed: as requested, else as the name of the output file
    /// says ([`Format::infer_packed`]), else, writing to the standard output, as the input is.
    pub fn decide_pack_output(requested: bool, output: Option<&str>, input_packed: bool) -> (r: bool)
        ensures
            r == (requested || match output {
                Some(p) => packed_by_name(path_extension_of(p@), path_file_stem_of(p@)),
                None => input_packed,
            }),
    {
        requested || match output {
            Some(p) => Format::infer_packed(p),
            None => input_packed,
        }
    }

    /// The format of the animation output: the one given, else the one the output path
    /// indicates, else the internal format for a packed animation and XML for a plain one.
    pub fn decide_anim_output(spec: Option<Format>, output: Option<&str>, packed: bool) -> (f: Format)
        ensures
            f == spec_decide(spec, crate::cached::key_view(output), if packed { Format::Internal } else { Format::Xml }),
    {
        Format::decide(spec, output, if packed { Format::Internal } else { Format::Xml })
    }

    /// Can an animation be written in this format, packed or not? Internal, JSON and YAML
    /// take both; `bincode` only packed ones, XML only plain ones; compiled none.
    pub fn supports_anim(self, packed: bool) -> (r: bool)
        ensures
            r == match self {
                Format::Internal | Format::Json | Format::Yaml => true,
                Format::Bin => packed,
                Format::Xml => !packed,
                Format::Compiled => false,
            },
    {
        match self {
            Format::Internal | Format::Json | Format::Yaml => true,
            Format::Bin => packed,
            Format::Xml => !packed,
            Format::Compiled => false,
        }
    }

    /// Can a model be written in this format? All but compiled and XML.
    pub fn supports_model(self) -> (r: bool)
        ensures
            r == !(self == Format::Compiled || self == Format::Xml),
    {
        !(matches!(self, Format::Compiled | Format::Xml))
    }
}

/// How to read an animation.
#[derive(Debug, Clone, Copy, PartialEq, Eq, Structural)]
pub enum AnimDecoder {
    /// `bincode`, packed.
    Bincode,
    /// The compiled `.reanim` format, plain.
    Compiled,
    /// JSON, packed.
    JsonPacked,
    /// YAML, packed.
    YamlPacked,
    /// JSON, plain.
    JsonPlain,
    /// YAML, plain.
    YamlPlain,
}

impl Format {
    /// How to read an animation in this format (packed or not, where the format leaves it open);
    /// `None` for internal and XML, which cannot be read.
    pub fn anim_decoder(self, packed: bool) -> (d: Option<AnimDecoder>)
        ensures
            d == match self {
                Format::Internal | Format::Xml => None,
                Format::Bin => Some(AnimDecoder::Bincode),
                Format::Compiled => Some(AnimDecoder::Compiled),
                Format::Json => Some(if packed { AnimDecoder::JsonPacked } else { AnimDecoder::JsonPlain }),
                Format::Yaml => Some(if packed { AnimDecoder::YamlPacked } else { AnimDecoder::YamlPlain }),
            },
    {
        match self {
            Format::Internal | Format::Xml => None,
            Format::Bin => Some(AnimDecoder::Bincode),
            Format::Compiled => Some(AnimDecoder::Compiled),
            Format::Json => Some(if packed { AnimDecoder::JsonPacked } else { AnimDecoder::JsonPlain }),
            Format::Yaml => Some(if packed { AnimDecoder::YamlPacked } else { AnimDecoder::YamlPlain }),
        }
    }
}

/// Optionally packed animations.
#[derive(Debug)]
pub enum MaybePacked {
    /// Plain format, structurally equivalent to reanim XML.
    Plain(Animation),
    /// Packed format, compact and structural.
    Packed(AnimDesc),
}

/// Unpacking a packed animation is not supported.
#[derive(Debug, Clone, Copy, PartialEq, Eq, Structural)]
pub struct UnpackingUnsupported;

impl MaybePacked {
    /// Is this already packed?
    pub fn is_packed(&self) -> (r: bool)
        ensures
            r == (*self is Packed),
    {
        matches!(self, MaybePacked::Packed(_))
    }

    /// Force this to be packed (or to stay plain), given the skew angles in radians of the
    /// frames of a plain animation; fail if unpacking is requested.
    pub fn into_packed(self, packed: bool, skews: &Vec<Vec<Skew>>) -> (r: Result<MaybePacked, UnpackingUnsupported>)
        requires
            packed ==> (self matches MaybePacked::Plain(a) ==> all_skews_match(a@.tracks, skew_views(skews@))),
        ensures
            match self {
                MaybePacked::Packed(_) => if packed {
                    r == Ok::<MaybePacked, UnpackingUnsupported>(self)
                } else {
                    r == Err::<MaybePacked, UnpackingUnsupported>(UnpackingUnsupported)
                },
                MaybePacked::Plain(a) => if packed {
                    &&& r matches Ok(MaybePacked::Packed(d))
                    &&& d.fps == a.fps
                    &&& views(d.tracks@) == plain_tracks(spec_packed_tracks(a@.tracks, skew_views(skews@)))
                    &&& views(d.meta.entries()).to_multiset() == meta_tracks(
                        spec_packed_tracks(a@.tracks, skew_views(skews@)),
                    ).to_multiset()
                } else {
                    r == Ok::<MaybePacked, UnpackingUnsupported>(self)
                },
            },
    {
        match self {
            MaybePacked::Packed(d) => if packed {
                Ok(MaybePacked::Packed(d))
            } else {
                Err(UnpackingUnsupported)
            },
            MaybePacked::Plain(a) => if packed {
                Ok(MaybePacked::Packed(pack_animation(a, skews)))
            } else {
                Ok(MaybePacked::Plain(a))
            },
        }
    }
}

} // verus!
