use vstd::prelude::*;
use vstd::string::StringExecFns;
use crate::types::{ComponentType, Config};

verus! {

/// The directory that custom templates are looked up in.
pub open spec fn template_root(config: &Config, base_path: Seq<char>) -> Seq<char> {
    match config.template_path {
        Some(t) => t@,
        None => base_path + "/.templates"@,
    }
}

/// The name under which templates of a kind are looked up.
pub open spec fn kind_stem(kind: ComponentType) -> Seq<char> {
    match kind {
        ComponentType::Functional => "functional"@,
        ComponentType::Class => "class"@,
    }
}

/// Where a single-file template of the kind would stand.
pub open spec fn file_candidate(config: &Config, base_path: Seq<char>, kind: ComponentType) -> Seq<char> {
    template_root(config, base_path) + "/"@ + kind_stem(kind) + ".js"@
}

/// Where a directory template of the kind would stand.
pub open spec fn dir_candidate(config: &Config, base_path: Seq<char>, kind: ComponentType) -> Seq<char> {
    template_root(config, base_path) + "/"@ + kind_stem(kind)
}

/// The template that applies: the single file if it exists, else the
/// directory if it exists, else none.
pub open spec fn chosen_template(
    config: &Config,
    base_path: Seq<char>,
    kind: ComponentType,
    file_exists: bool,
    dir_exists: bool,
) -> Option<Seq<char>> {
    if file_exists {
        Some(file_candidate(config, base_path, kind))
    } else if dir_exists {
        Some(dir_candidate(config, base_path, kind))
    } else {
        None
    }
}

/// The directory that custom templates are looked up in.
pub fn get_template_root(config: &Config, base_path: &str) -> (r: String)
    ensures
        r@ == template_root(config, base_path@),
{
    match &config.template_path {
        Some(t) => t.clone(),
        None => {
            let mut r = String::from_str(base_path);
            r.append("/.templates");
            r
        },
    }
}

/// The two places where a custom template of the kind may stand: the
/// single file first, the directory second.
pub fn template_candidates(config: &Config, base_path: &str, kind: &ComponentType) -> (r: (String, String))
    ensures
        r.0@ == file_candidate(config, base_path@, *kind),
        r.1@ == dir_candidate(config, base_path@, *kind),
{
    let root = get_template_root(config, base_path);
    let mut dir = root.clone();
    dir.append("/");
    match kind {
        ComponentType::Functional => dir.append("functional"),
        ComponentType::Class => dir.append("class"),
    }
    let mut file = dir.clone();
    file.append(".js");
    (file, dir)
}

/// Picks the template for a kind, given which of its two candidates exist
/// on disk.
pub fn get_template_path(
    config: &Config,
    base_path: &str,
    comp_type: &ComponentType,
    file_exists: bool,
    dir_exists: bool,
) -> (r: Option<String>)
    ensures
        r matches Some(p) ==> Some(p@) == chosen_template(config, base_path@, *comp_type, file_exists, dir_exists),
        r is None <==> chosen_template(config, base_path@, *comp_type, file_exists, dir_exists) is None,
{
    let (file, dir) = template_candidates(config, base_path, comp_type);
    if file_exists {
        Some(file)
    } else if dir_exists {
        Some(dir)
    } else {
        None
    }
}

/// The single-file template of a kind takes precedence over its directory
/// template, and the choice is the same on every call.
pub proof fn lemma_file_template_first(
    config: &Config,
    base_path: Seq<char>,
    kind: ComponentType,
    dir_exists: bool,
)
    ensures
        chosen_template(config, base_path, kind, true, dir_exists) == Some(file_candidate(config, base_path, kind)),
        chosen_template(config, base_path, kind, true, true) == chosen_template(config, base_path, kind, true, false),
{
}

} // verus!
