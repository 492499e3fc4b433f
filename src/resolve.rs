use vstd::prelude::*;
use vstd::string::StrSliceExecFns;
use vstd::string::StringExecFns;
use crate::locate::template_root;
use crate::types::{default_base_path, default_template_path, is_default_config, get_component_type, resolved_kind, Cli, ComponentType, Config};

verus! {

/// `k` is the index of the first `c` in `s`, or `s.len()` if there is none.
pub open spec fn is_first(s: Seq<char>, c: char, k: int) -> bool {
    &&& 0 <= k <= s.len()
    &&& forall|j: int| 0 <= j < k ==> s[j] != c
    &&& k < s.len() ==> s[k] == c
}

/// `k` is the index of the last `c` in `s`, or -1 if there is none.
pub open spec fn is_last(s: Seq<char>, c: char, k: int) -> bool {
    &&& -1 <= k < s.len()
    &&& forall|j: int| k < j < s.len() ==> s[j] != c
    &&& k >= 0 ==> s[k] == c
}

pub open spec fn first_index(s: Seq<char>, c: char) -> int {
    choose|k: int| is_first(s, c, k)
}

pub open spec fn last_index(s: Seq<char>, c: char) -> int {
    choose|k: int| is_last(s, c, k)
}

proof fn lemma_first_unique(s: Seq<char>, c: char, k: int)
    requires
        is_first(s, c, k),
    ensures
        first_index(s, c) == k,
{
    let f = first_index(s, c);
    assert(is_first(s, c, f));
    if f < k {
        assert(s[f] == c);
    } else if k < f {
        assert(s[k] == c);
    }
}

proof fn lemma_last_unique(s: Seq<char>, c: char, k: int)
    requires
        is_last(s, c, k),
    ensures
        last_index(s, c) == k,
{
    let l = last_index(s, c);
    assert(is_last(s, c, l));
    if l < k {
        assert(s[k] == c);
    } else if k < l {
        assert(s[l] == c);
    }
}

/// The part of a requested name after its last `/`.
pub open spec fn leaf_of(name: Seq<char>) -> Seq<char> {
    name.subrange(last_index(name, '/') + 1, name.len() as int)
}

/// The part of a requested name before its last `/` (empty without one).
pub open spec fn prefix_of(name: Seq<char>) -> Seq<char> {
    if last_index(name, '/') < 0 {
        Seq::empty()
    } else {
        name.subrange(0, last_index(name, '/'))
    }
}

/// A file name up to its first `.`.
pub open spec fn stem_of(s: Seq<char>) -> Seq<char> {
    s.subrange(0, first_index(s, '.'))
}

/// A file name from its first `.` on (empty without one).
pub open spec fn suffix_of(s: Seq<char>) -> Seq<char> {
    s.subrange(first_index(s, '.'), s.len() as int)
}

/// Finds the first `c` in `s`.
fn find_first(s: &str, c: char) -> (r: usize)
    ensures
        r == first_index(s@, c),
        is_first(s@, c, r as int),
{
    let n = s.unicode_len();
    let mut i: usize = 0;
    while i < n
        invariant
            n == s@.len(),
            i <= n,
            forall|j: int| 0 <= j < i ==> s@[j] != c,
        decreases n - i,
    {
        if s.get_char(i) == c {
            proof { lemma_first_unique(s@, c, i as int); }
            return i;
        }
        i = i + 1;
    }
    proof { lemma_first_unique(s@, c, n as int); }
    n
}

/// Finds the last `c` in `s`; `None` if there is none.
fn find_last(s: &str, c: char) -> (r: Option<usize>)
    ensures
        r matches Some(k) ==> k == last_index(s@, c) && is_last(s@, c, k as int),
        r is None ==> last_index(s@, c) == -1,
{
    let n = s.unicode_len();
    let mut i: usize = n;
    while i > 0
        invariant
            n == s@.len(),
            i <= n,
            forall|j: int| i <= j < n ==> s@[j] != c,
        decreases i,
    {
        if s.get_char(i - 1) == c {
            proof { lemma_last_unique(s@, c, i - 1); }
            return Some(i - 1);
        }
        i = i - 1;
    }
    proof { lemma_last_unique(s@, c, -1); }
    None
}

/// Splits a requested name into its directory prefix and its leaf.
pub fn split_name(name: &str) -> (r: (String, String))
    ensures
        r.0@ == prefix_of(name@),
        r.1@ == leaf_of(name@),
{
    let n = name.unicode_len();
    match find_last(name, '/') {
        Some(k) => (String::from_str(name.substring_char(0, k)), String::from_str(name.substring_char(k + 1, n))),
        None => (String::new(), String::from_str(name.substring_char(0, n))),
    }
}

/// A file name without what follows its first `.`.
pub fn strip_extension(s: &str) -> (r: String)
    ensures
        r@ == stem_of(s@),
{
    let k = find_first(s, '.');
    String::from_str(s.substring_char(0, k))
}

/// The extension that a directory template member's own name asks for: the
/// name from its first `.` on.
pub fn get_file_extension(file_name_with_extension: &str) -> (r: String)
    ensures
        r@ == suffix_of(file_name_with_extension@),
{
    let k = find_first(file_name_with_extension, '.');
    let n = file_name_with_extension.unicode_len();
    String::from_str(file_name_with_extension.substring_char(k, n))
}

/// What a request resolves to, once flags, configuration and defaults are
/// merged.
pub struct Request {
    pub base_path: String,
    pub component_path: String,
    pub component_name: String,
    pub extension: String,
    pub component_type: ComponentType,
    pub force: bool,
    pub verbose: bool,
}

pub open spec fn resolved_base(config: &Config) -> Seq<char> {
    match config.base_path {
        Some(b) => b@,
        None => default_base_path(),
    }
}

/// `.ts` where the flag or the configuration asks for typescript, else `.js`.
pub open spec fn resolved_extension(config: &Config, args: &Cli) -> Seq<char> {
    if args.typescript || config.typescript == Some(true) {
        ".ts"@
    } else {
        ".js"@
    }
}

/// The directory that the component's own directory is made in.
pub open spec fn output_dir(req: &Request) -> Seq<char> {
    req.base_path@ + "/"@ + req.component_path@
}

/// The component's own directory.
pub open spec fn component_dir(req: &Request) -> Seq<char> {
    output_dir(req) + "/"@ + req.component_name@
}

/// Merges the flags, the configuration and the defaults for a requested name.
pub fn resolve_request(config: &Config, args: &Cli, name: &str) -> (r: Request)
    ensures
        r.base_path@ == resolved_base(config),
        r.component_path@ == prefix_of(name@),
        r.component_name@ == stem_of(leaf_of(name@)),
        r.extension@ == resolved_extension(config, args),
        r.component_type == resolved_kind(config, args),
        r.force == (args.force || config.force == Some(true)),
        r.verbose == (args.verbose || config.verbose_output == Some(true)),
{
    let base_path = match &config.base_path {
        Some(b) => b.clone(),
        None => String::from_str("src/components"),
    };
    let (component_path, leaf) = split_name(name);
    let component_name = strip_extension(leaf.as_str());
    let ts = match config.typescript {
        Some(t) => t,
        None => false,
    };
    let extension = if args.typescript || ts {
        String::from_str(".ts")
    } else {
        String::from_str(".js")
    };
    let force = args.force || match config.force {
        Some(f) => f,
        None => false,
    };
    let verbose = args.verbose || match config.verbose_output {
        Some(v) => v,
        None => false,
    };
    Request {
        base_path,
        component_path,
        component_name,
        extension,
        component_type: get_component_type(config, args),
        force,
        verbose,
    }
}

/// The directory that the component's own directory is made in.
pub fn get_output_dir(req: &Request) -> (r: String)
    ensures
        r@ == output_dir(req),
{
    let mut r = req.base_path.clone();
    r.append("/");
    r.append(req.component_path.as_str());
    r
}

/// The component's own directory.
pub fn get_component_dir(req: &Request) -> (r: String)
    ensures
        r@ == component_dir(req),
{
    let mut r = get_output_dir(req);
    r.append("/");
    r.append(req.component_name.as_str());
    r
}

/// Why a request is refused.
pub enum StrapError {
    /// A component of that name already stands where it would be written.
    Conflict(String),
    /// The requested name leaves no component name once its directory
    /// prefix and extension are taken off.
    EmptyName,
}

/// Refuses a requested name whose component name would be empty.
pub fn check_name(name: &str) -> (r: Result<(), StrapError>)
    ensures
        r is Err <==> stem_of(leaf_of(name@)).len() == 0,
        r matches Err(e) ==> e is EmptyName,
{
    let (_, leaf) = split_name(name);
    let stem = strip_extension(leaf.as_str());
    if stem.as_str().unicode_len() == 0 {
        Err(StrapError::EmptyName)
    } else {
        Ok(())
    }
}

/// Refuses a request whose component already exists, unless overwriting was
/// asked for.
pub fn check_existing(req: &Request, exists: bool) -> (r: Result<(), StrapError>)
    ensures
        r is Err <==> (exists && !req.force),
        r matches Err(e) ==> (e matches StrapError::Conflict(n) && n@ == req.component_name@),
{
    if exists && !req.force {
        Err(StrapError::Conflict(req.component_name.clone()))
    } else {
        Ok(())
    }
}

/// A request made against the default configuration, with no flag that
/// overrides it, resolves to the default base path, template directory,
/// kind and extension.
pub proof fn lemma_default_config_resolves(config: &Config, args: &Cli)
    requires
        is_default_config(config),
        !args.typescript,
        !args.func,
        !args.class,
    ensures
        resolved_base(config) == default_base_path(),
        template_root(config, resolved_base(config)) == default_template_path(),
        resolved_kind(config, args) == ComponentType::Functional,
        resolved_extension(config, args) == ".js"@,
{
    reveal_strlit("functional");
    reveal_strlit("class");
    assert("functional"@.len() != "class"@.len());
}

} // verus!
