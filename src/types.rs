use vstd::prelude::*;
use vstd::string::StrSliceExecFns;
use vstd::string::StringExecFns;

verus! {

/// The command-line request: a component name and the flags that override
/// the project configuration.
pub struct Cli {
    pub name: Option<String>,
    pub init: bool,
    pub func: bool,
    pub class: bool,
    pub verbose: bool,
    pub typescript: bool,
    pub force: bool,
}

/// The project configuration file; every field is optional.
pub struct Config {
    pub base_path: Option<String>,
    pub template_path: Option<String>,
    pub component_type: Option<String>,
    pub verbose_output: Option<bool>,
    pub typescript: Option<bool>,
    pub force: Option<bool>,
}

/// The style of component to generate.
#[derive(Debug, Clone, Copy, PartialEq, Eq, Structural)]
pub enum ComponentType {
    Functional,
    Class,
}

/// Whether two strings hold the same characters.
pub fn str_eq(a: &str, b: &str) -> (r: bool)
    ensures
        r == (a@ == b@),
{
    let n = a.unicode_len();
    if n != b.unicode_len() {
        return false;
    }
    let mut i: usize = 0;
    while i < n
        invariant
            n == a@.len(),
            n == b@.len(),
            i <= n,
            forall|j: int| 0 <= j < i ==> a@[j] == b@[j],
        decreases n - i,
    {
        if a.get_char(i) != b.get_char(i) {
            return false;
        }
        i = i + 1;
    }
    assert(a@ =~= b@);
    true
}

/// The kind that a configured `componentType` string names; anything
/// unrecognised means functional.
pub open spec fn kind_of_name(s: Seq<char>) -> ComponentType {
    if s == "class"@ {
        ComponentType::Class
    } else {
        ComponentType::Functional
    }
}

/// The kind that the configuration alone selects.
pub open spec fn configured_kind(config: &Config) -> ComponentType {
    match config.component_type {
        Some(s) => kind_of_name(s@),
        None => ComponentType::Functional,
    }
}

/// The kind after the command-line flags: `func` wins over `class`, and
/// either wins over the configuration.
pub open spec fn resolved_kind(config: &Config, args: &Cli) -> ComponentType {
    if args.func {
        ComponentType::Functional
    } else if args.class {
        ComponentType::Class
    } else {
        configured_kind(config)
    }
}

/// Selects the component kind from the configuration and the flags.
pub fn get_component_type(config: &Config, args: &Cli) -> (r: ComponentType)
    ensures
        r == resolved_kind(config, args),
{
    proof {
        reveal_strlit("functional");
        reveal_strlit("func");
        reveal_strlit("class");
        assert("functional"@.len() != "class"@.len());
        assert("func"@.len() != "class"@.len());
    }
    let mut component_type = match &config.component_type {
        Some(s) => {
            if str_eq(s.as_str(), "functional") || str_eq(s.as_str(), "func") {
                ComponentType::Functional
            } else if str_eq(s.as_str(), "class") {
                ComponentType::Class
            } else {
                ComponentType::Functional
            }
        },
        None => ComponentType::Functional,
    };
    if args.class {
        component_type = ComponentType::Class;
    }
    if args.func {
        component_type = ComponentType::Functional;
    }
    component_type
}

pub open spec fn default_base_path() -> Seq<char> {
    "src/components"@
}

pub open spec fn default_template_path() -> Seq<char> {
    "src/components/.templates"@
}

/// The configuration that a new project starts from, with all six fields
/// present.
pub open spec fn is_default_config(c: &Config) -> bool {
    &&& c.base_path matches Some(s) && s@ == default_base_path()
    &&& c.template_path matches Some(s) && s@ == default_template_path()
    &&& c.component_type matches Some(s) && s@ == "functional"@
    &&& c.typescript == Some(false)
    &&& c.verbose_output == Some(false)
    &&& c.force == Some(false)
}

/// The configuration that a new project starts from.
pub fn default_config() -> (c: Config)
    ensures
        is_default_config(&c),
{
    Config {
        base_path: Some(String::from_str("src/components")),
        template_path: Some(String::from_str("src/components/.templates")),
        component_type: Some(String::from_str("functional")),
        typescript: Some(false),
        verbose_output: Some(false),
        force: Some(false),
    }
}

} // verus!
