//! File extensions of assets stored in `bincode`, JSON, or YAML. Asset files carry a
//! "secondary extension" naming the resource type: a file named "`Peashooter.anim.bin`" is
//! encoded in `bincode`, and has the resource type "`anim`".

use vstd::prelude::*;
use crate::stream::views;

verus! {

/// File extensions for two-stage assets.
#[derive(Debug)]
pub struct AssetExtensions {
    /// File extensions for YAML file storage, e.g., `["anim.yaml", "anim.yml"]`.
    pub yaml: Vec<String>,
    /// File extensions for JSON file storage, e.g., `["anim.json"]`.
    pub json: Vec<String>,
    /// File extensions for `bincode` file storage, e.g., `["anim.bin"]`.
    pub bin: Vec<String>,
}

/// `ext` followed by a dot and a suffix.
pub open spec fn dotted(ext: Seq<char>, suffix: Seq<char>) -> Seq<char> {
    ext + seq!['.'] + suffix
}

/// `ext` followed by a dot and a suffix.
fn dotted_string(ext: &str, suffix: &str) -> (s: String)
    ensures
        s@ == dotted(ext@, suffix@),
{
    proof {
        reveal_strlit(".");
    }
    let mut s = String::from_str(ext);
    s.append(".");
    s.append(suffix);
    s
}

/// Extensions of the files of a resource type: `X.yaml` and `X.yml` for YAML, `X.json` for
/// JSON, and `X.bin` for `bincode`.
pub fn asset_ext(ext: &str) -> (e: AssetExtensions)
    ensures
        views(e.yaml@) == seq![dotted(ext@, seq!['y', 'a', 'm', 'l']), dotted(ext@, seq!['y', 'm', 'l'])],
        views(e.json@) == seq![dotted(ext@, seq!['j', 's', 'o', 'n'])],
        views(e.bin@) == seq![dotted(ext@, seq!['b', 'i', 'n'])],
{
    proof {
        reveal_strlit("yaml");
        reveal_strlit("yml");
        reveal_strlit("json");
        reveal_strlit("bin");
        assert("yaml"@ =~= seq!['y', 'a', 'm', 'l']);
        assert("yml"@ =~= seq!['y', 'm', 'l']);
        assert("json"@ =~= seq!['j', 's', 'o', 'n']);
        assert("bin"@ =~= seq!['b', 'i', 'n']);
    }
    let yaml = vec![dotted_string(ext, "yaml"), dotted_string(ext, "yml")];
    let json = vec![dotted_string(ext, "json")];
    let bin = vec![dotted_string(ext, "bin")];
    assert(views(yaml@) =~= seq![dotted(ext@, seq!['y', 'a', 'm', 'l']), dotted(ext@, seq!['y', 'm', 'l'])]);
    assert(views(json@) =~= seq![dotted(ext@, seq!['j', 's', 'o', 'n'])]);
    assert(views(bin@) =~= seq![dotted(ext@, seq!['b', 'i', 'n'])]);
    AssetExtensions { yaml, json, bin }
}

/// Frontend asset format.
pub trait AssetFormat: Copy {
    /// The extensions, among those of a resource type, of the files in this format.
    spec fn spec_extension(self, extensions: AssetExtensions) -> Seq<String>;

    /// Get the extensions list.
    fn get_extension(self, extensions: &AssetExtensions) -> (l: &Vec<String>)
        ensures
            l@ == self.spec_extension(*extensions),
    ;
}

/// JSON format.
#[derive(Debug, Clone, Copy, Default)]
pub struct Json;

impl AssetFormat for Json {
    open spec fn spec_extension(self, extensions: AssetExtensions) -> Seq<String> {
        extensions.json@
    }

    fn get_extension(self, extensions: &AssetExtensions) -> (l: &Vec<String>) {
        &extensions.json
    }
}

/// YAML format.
#[derive(Debug, Clone, Copy, Default)]
pub struct Yaml;

impl AssetFormat for Yaml {
    open spec fn spec_extension(self, extensions: AssetExtensions) -> Seq<String> {
        extensions.yaml@
    }

    fn get_extension(self, extensions: &AssetExtensions) -> (l: &Vec<String>) {
        &extensions.yaml
    }
}

/// `bincode` format.
#[derive(Debug, Clone, Copy, Default)]
pub struct Bincode;

impl AssetFormat for Bincode {
    open spec fn spec_extension(self, extensions: AssetExtensions) -> Seq<String> {
        extensions.bin@
    }

    fn get_extension(self, extensions: &AssetExtensions) -> (l: &Vec<String>) {
        &extensions.bin
    }
}

} // verus!
