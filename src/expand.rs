use vstd::prelude::*;
use vstd::string::StringExecFns;
use crate::resolve::{get_file_extension, suffix_of};
use crate::substitute::{occurs_at, contains_seq, contains_str, replace_all, replace_str, PLACEHOLDER};
use crate::resolve::{component_dir, output_dir, Request};
use crate::types::ComponentType;

verus! {

/// The built-in index file: re-exports the component's default export.
pub const INDEX_TEMPLATE: &'static str = "export { default } from \"./_component\";";

/// The built-in functional component.
pub const FUNCTIONAL_TEMPLATE: &'static str = "import React from \"react\";\n\nconst _component = () => {\n  return <div>_component</div>;\n};\n\nexport default _component;\n";

/// The built-in class component.
pub const CLASS_TEMPLATE: &'static str = "import React, { Component } from \"react\";\n\nclass _component extends Component {\n  render() {\n    return <div>_component</div>;\n  }\n}\n\nexport default _component;\n";

/// One file to write: its path below the output directory, and its text.
pub struct OutputFile {
    pub path: String,
    pub content: String,
}

/// One member of a directory template: its file name and its text.
pub struct TemplateEntry {
    pub file_name: String,
    pub content: String,
}

/// `template` with the component name put in for the placeholder.
pub open spec fn instantiate(template: Seq<char>, name: Seq<char>) -> Seq<char> {
    replace_all(template, PLACEHOLDER@, name)
}

/// The built-in template of a kind.
pub open spec fn default_template(kind: ComponentType) -> Seq<char> {
    match kind {
        ComponentType::Functional => FUNCTIONAL_TEMPLATE@,
        ComponentType::Class => CLASS_TEMPLATE@,
    }
}

/// Where the main file of the component goes: `<name>/<name><extension>`.
pub open spec fn main_file_path(name: Seq<char>, extension: Seq<char>) -> Seq<char> {
    name + "/"@ + name + extension
}

/// Whether a planned path lies in the component's own directory.
pub open spec fn in_component_dir(path: Seq<char>, name: Seq<char>) -> bool {
    path.len() > name.len() && path.subrange(0, name.len() as int + 1) == name + "/"@
}

/// Where the index file of the component goes: `<name>/index<extension>`.
pub open spec fn index_file_path(name: Seq<char>, extension: Seq<char>) -> Seq<char> {
    name + "/index"@ + extension
}

/// The file name that a directory template member is written under.
pub open spec fn member_file_name(
    file_name: Seq<char>,
    name: Seq<char>,
    extension: Seq<char>,
    use_template_extension: bool,
) -> Seq<char> {
    if contains_seq(file_name, PLACEHOLDER@) {
        if use_template_extension {
            name + suffix_of(file_name)
        } else {
            name + extension
        }
    } else {
        file_name
    }
}

/// Puts the component name in for every placeholder of `template`.
pub fn instantiate_text(template: &str, name: &str) -> (r: String)
    ensures
        r@ == instantiate(template@, name@),
{
    replace_str(template, PLACEHOLDER, name)
}

fn main_path(name: &str, extension: &str) -> (r: String)
    ensures
        r@ == main_file_path(name@, extension@),
{
    let mut p = String::from_str(name);
    p.append("/");
    p.append(name);
    p.append(extension);
    p
}

/// The files of a component made from a single-file template.
pub fn plan_single_file(template: &str, name: &str, extension: &str) -> (r: Vec<OutputFile>)
    ensures
        r@.len() == 1,
        r@[0].path@ == main_file_path(name@, extension@),
        r@[0].content@ == instantiate(template@, name@),
{
    let mut r: Vec<OutputFile> = Vec::new();
    r.push(OutputFile { path: main_path(name, extension), content: instantiate_text(template, name) });
    r
}

/// The file name that a directory template member is written under.
pub fn member_name(file_name: &str, name: &str, extension: &str, use_template_extension: bool) -> (r: String)
    ensures
        r@ == member_file_name(file_name@, name@, extension@, use_template_extension),
{
    if contains_str(file_name, PLACEHOLDER) {
        let mut p = String::from_str(name);
        if use_template_extension {
            let ext = get_file_extension(file_name);
            p.append(ext.as_str());
        } else {
            p.append(extension);
        }
        p
    } else {
        String::from_str(file_name)
    }
}

/// The files of a component made from a directory template, one for each
/// member, in the members' order.
pub fn plan_directory(
    entries: &Vec<TemplateEntry>,
    name: &str,
    extension: &str,
    use_template_extension: bool,
) -> (r: Vec<OutputFile>)
    ensures
        r@.len() == entries@.len(),
        forall|i: int| 0 <= i < entries@.len() ==> {
            &&& (#[trigger] r@[i]).path@ == name@ + "/"@ + member_file_name(
                entries@[i].file_name@,
                name@,
                extension@,
                use_template_extension,
            )
            &&& r@[i].content@ == instantiate(entries@[i].content@, name@)
        },
{
    let mut r: Vec<OutputFile> = Vec::new();
    let mut i: usize = 0;
    while i < entries.len()
        invariant
            i <= entries@.len(),
            r@.len() == i,
            forall|j: int| 0 <= j < i ==> {
                &&& (#[trigger] r@[j]).path@ == name@ + "/"@ + member_file_name(
                    entries@[j].file_name@,
                    name@,
                    extension@,
                    use_template_extension,
                )
                &&& r@[j].content@ == instantiate(entries@[j].content@, name@)
            },
        decreases entries@.len() - i,
    {
        let entry = &entries[i];
        let member = member_name(entry.file_name.as_str(), name, extension, use_template_extension);
        let mut path = String::from_str(name);
        path.append("/");
        path.append(member.as_str());
        let content = instantiate_text(entry.content.as_str(), name);
        r.push(OutputFile { path, content });
        i = i + 1;
    }
    r
}

/// The files of a component made from the built-in templates: the index
/// file, then the main file of the kind.
pub fn plan_default(name: &str, extension: &str, kind: &ComponentType) -> (r: Vec<OutputFile>)
    ensures
        r@.len() == 2,
        r@[0].path@ == index_file_path(name@, extension@),
        r@[0].content@ == instantiate(INDEX_TEMPLATE@, name@),
        r@[1].path@ == main_file_path(name@, extension@),
        r@[1].content@ == instantiate(default_template(*kind), name@),
{
    let mut index_path = String::from_str(name);
    index_path.append("/index");
    index_path.append(extension);
    let template = match kind {
        ComponentType::Functional => FUNCTIONAL_TEMPLATE,
        ComponentType::Class => CLASS_TEMPLATE,
    };
    let mut r: Vec<OutputFile> = Vec::new();
    r.push(OutputFile { path: index_path, content: instantiate_text(INDEX_TEMPLATE, name) });
    r.push(OutputFile { path: main_path(name, extension), content: instantiate_text(template, name) });
    r
}

} // verus!

verus! {

/// A custom template as read from disk.
pub enum LoadedTemplate {
    /// The text of a single-file template.
    SingleFile(String),
    /// The members of a directory template.
    Directory(Vec<TemplateEntry>),
}

/// The files of the requested component, below its output directory: from
/// the custom template where one was found, else from the built-in ones.
pub fn plan_component(req: &Request, template: &Option<LoadedTemplate>) -> (r: Vec<OutputFile>)
    ensures
        forall|i: int| 0 <= i < r@.len() ==> in_component_dir(#[trigger] r@[i].path@, req.component_name@),
        template is None ==> {
            &&& r@.len() == 2
            &&& r@[0].path@ == index_file_path(req.component_name@, req.extension@)
            &&& r@[0].content@ == instantiate(INDEX_TEMPLATE@, req.component_name@)
            &&& r@[1].path@ == main_file_path(req.component_name@, req.extension@)
            &&& r@[1].content@ == instantiate(default_template(req.component_type), req.component_name@)
        },
        template matches Some(LoadedTemplate::SingleFile(t)) ==> {
            &&& r@.len() == 1
            &&& r@[0].path@ == main_file_path(req.component_name@, req.extension@)
            &&& r@[0].content@ == instantiate(t@, req.component_name@)
        },
        template matches Some(LoadedTemplate::Directory(entries)) ==> {
            &&& r@.len() == entries@.len()
            &&& forall|i: int| 0 <= i < entries@.len() ==> {
                &&& (#[trigger] r@[i]).path@ == req.component_name@ + "/"@ + member_file_name(
                    entries@[i].file_name@,
                    req.component_name@,
                    req.extension@,
                    false,
                )
                &&& r@[i].content@ == instantiate(entries@[i].content@, req.component_name@)
            }
        },
{
    let name = req.component_name.as_str();
    let extension = req.extension.as_str();
    let ghost n = name@;
    let ghost e = extension@;
    proof {
        reveal_strlit("/index");
        reveal_strlit("/");
        assert(in_component_dir(index_file_path(n, e), n)) by {
            assert(index_file_path(n, e).subrange(0, n.len() as int + 1) =~= n + "/"@);
        }
        assert(in_component_dir(main_file_path(n, e), n)) by {
            assert(main_file_path(n, e).subrange(0, n.len() as int + 1) =~= n + "/"@);
        }
    }
    match template {
        None => plan_default(name, extension, &req.component_type),
        Some(LoadedTemplate::SingleFile(t)) => plan_single_file(t.as_str(), name, extension),
        Some(LoadedTemplate::Directory(entries)) => {
            let r = plan_directory(entries, name, extension, false);
            assert forall|i: int| 0 <= i < r@.len() implies in_component_dir(#[trigger] r@[i].path@, n) by {
                let m = member_file_name(entries@[i].file_name@, n, e, false);
                assert((n + "/"@ + m).subrange(0, n.len() as int + 1) =~= n + "/"@);
            }
            r
        },
    }
}

/// Every file that a plan writes below the output directory lies in the
/// component directory, the one whose existence refuses a repeated request.
pub proof fn lemma_plan_inside_checked_dir(req: &Request, path: Seq<char>)
    requires
        in_component_dir(path, req.component_name@),
    ensures
        ({
            let full = output_dir(req) + "/"@ + path;
            let dir = component_dir(req) + "/"@;
            full.len() >= dir.len() && full.subrange(0, dir.len() as int) == dir
        }),
{
    reveal_strlit("/");
    let o = output_dir(req) + "/"@;
    let n = req.component_name@;
    let full = o + path;
    let dir = component_dir(req) + "/"@;
    assert(dir =~= o + (n + "/"@));
    assert(full.subrange(0, dir.len() as int) =~= o + path.subrange(0, n.len() as int + 1));
}

/// Without custom templates, a component of either kind is made of exactly
/// two files below its own directory: `index<ext>` from the index template
/// and `<name><ext>` from the built-in template of its kind, each with the
/// name put in for the placeholder; a name that holds no placeholder leaves
/// none in either file.
pub proof fn lemma_default_plan_shape(req: &Request, r: Seq<OutputFile>)
    requires
        r.len() == 2,
        r[0].path@ == index_file_path(req.component_name@, req.extension@),
        r[0].content@ == instantiate(INDEX_TEMPLATE@, req.component_name@),
        r[1].path@ == main_file_path(req.component_name@, req.extension@),
        r[1].content@ == instantiate(default_template(req.component_type), req.component_name@),
    ensures
        r[0].path@ == req.component_name@ + "/"@ + ("index"@ + req.extension@),
        r[1].path@ == req.component_name@ + "/"@ + (req.component_name@ + req.extension@),
        req.component_name@ != "index"@ ==> r[0].path@ != r[1].path@,
        !contains_seq(req.component_name@, PLACEHOLDER@) ==> !contains_seq(r[0].content@, PLACEHOLDER@)
            && !contains_seq(r[1].content@, PLACEHOLDER@),
{
    if !contains_seq(req.component_name@, PLACEHOLDER@) {
        lemma_default_text_leaves_no_placeholder(req.component_type, req.component_name@);
    }
    reveal_strlit("/index");
    reveal_strlit("/");
    reveal_strlit("index");
    assert(("/index"@) =~= "/"@ + "index"@);
    assert(r[0].path@ =~= req.component_name@ + "/"@ + ("index"@ + req.extension@));
    assert(r[1].path@ =~= req.component_name@ + "/"@ + (req.component_name@ + req.extension@));
    if req.component_name@ != "index"@ {
        let n = req.component_name@;
        let e = req.extension@;
        let a = n + "/"@ + ("index"@ + e);
        let b = n + "/"@ + (n + e);
        if a == b {
            let k: int = n.len() as int + 1;
            assert(a.subrange(k, a.len() as int) =~= "index"@ + e);
            assert(b.subrange(k, b.len() as int) =~= n + e);
            assert(("index"@ + e).len() == (n + e).len());
            assert(n =~= ("index"@ + e).subrange(0, n.len() as int));
            assert(("index"@ + e).subrange(0, n.len() as int) =~= "index"@);
        }
    }
}

} // verus!

verus! {

/// Whether `s` holds no `c`.
pub open spec fn lacks_char(s: Seq<char>, c: char) -> bool {
    forall|i: int| 0 <= i < s.len() ==> s[i] != c
}

/// A text without the placeholder's first character holds no placeholder.
proof fn lemma_no_underscore_no_placeholder(t: Seq<char>)
    requires
        lacks_char(t, '_'),
    ensures
        !contains_seq(t, PLACEHOLDER@),
{
    reveal_strlit("_component");
    assert forall|i: int| !occurs_at(t, PLACEHOLDER@, i) by {
        if occurs_at(t, PLACEHOLDER@, i) {
            assert(t.subrange(i, i + 10)[0] == t[i]);
        }
    }
}

/// Whether `c` is none of the placeholder's characters.
pub open spec fn outside_placeholder(c: char) -> bool {
    forall|k: int| 0 <= k < PLACEHOLDER@.len() ==> PLACEHOLDER@[k] != c
}

/// A text that starts with no `p[0]` keeps that start when `p` is replaced.
proof fn lemma_replace_skips(x: Seq<char>, z: Seq<char>, p: Seq<char>, r: Seq<char>)
    requires
        p.len() > 0,
        lacks_char(x, p[0]),
    ensures
        replace_all(x + z, p, r) == x + replace_all(z, p, r),
    decreases x.len(),
{
    let s = x + z;
    if x.len() == 0 {
        assert(s =~= z);
    } else if s.len() < p.len() {
        assert(z.len() < p.len());
    } else {
        assert(s.subrange(0, p.len() as int)[0] == x[0]);
        let x1 = x.subrange(1, x.len() as int);
        assert(s.subrange(1, s.len() as int) =~= x1 + z);
        lemma_replace_skips(x1, z, p, r);
        assert(seq![x[0]] + (x1 + replace_all(z, p, r)) =~= x + replace_all(z, p, r));
    }
}

/// A text that starts with `p` has it replaced first.
proof fn lemma_replace_head(z: Seq<char>, p: Seq<char>, r: Seq<char>)
    requires
        p.len() > 0,
    ensures
        replace_all(p + z, p, r) == r + replace_all(z, p, r),
{
    let s = p + z;
    assert(s.subrange(0, p.len() as int) =~= p);
    assert(s.subrange(p.len() as int, s.len() as int) =~= z);
}

/// No placeholder straddles a name that holds none, between a text without
/// `_` and a text that starts with no character of the placeholder.
proof fn lemma_name_between(u: Seq<char>, n: Seq<char>, v: Seq<char>)
    requires
        lacks_char(u, '_'),
        !contains_seq(n, PLACEHOLDER@),
        v.len() > 0,
        outside_placeholder(v[0]),
        !contains_seq(v, PLACEHOLDER@),
    ensures
        !contains_seq(u + n + v, PLACEHOLDER@),
{
    reveal_strlit("_component");
    let p = PLACEHOLDER@;
    let m = p.len() as int;
    let t = u + n + v;
    let a = u.len() as int;
    let b = a + n.len();
    assert forall|i: int| !occurs_at(t, p, i) by {
        if occurs_at(t, p, i) {
            assert(t.subrange(i, i + m)[0] == t[i]);
            if i < a {
                assert(t[i] == u[i]);
            } else if i < b {
                if i + m <= b {
                    assert(n.subrange(i - a, i - a + m) =~= t.subrange(i, i + m));
                    assert(occurs_at(n, p, i - a));
                } else {
                    assert(t.subrange(i, i + m)[b - i] == t[b]);
                    assert(t[b] == v[0]);
                }
            } else {
                assert(v.subrange(i - b, i - b + m) =~= t.subrange(i, i + m));
                assert(occurs_at(v, p, i - b));
            }
        }
    }
}

/// One placeholder slot: text `a`, the placeholder, then the rest `z`.
proof fn lemma_slot(a: Seq<char>, z: Seq<char>, n: Seq<char>)
    requires
        lacks_char(a, '_'),
        !contains_seq(n, PLACEHOLDER@),
        z.len() > 0,
        outside_placeholder(z[0]),
        !contains_seq(replace_all(z, PLACEHOLDER@, n), PLACEHOLDER@),
    ensures
        !contains_seq(replace_all(a + (PLACEHOLDER@ + z), PLACEHOLDER@, n), PLACEHOLDER@),
{
    reveal_strlit("_component");
    let p = PLACEHOLDER@;
    assert(p[0] == '_');
    lemma_replace_skips(a, p + z, p, n);
    lemma_replace_head(z, p, n);
    let z0 = seq![z[0]];
    let z1 = z.subrange(1, z.len() as int);
    assert(z =~= z0 + z1);
    assert(z[0] != p[0]);
    lemma_replace_skips(z0, z1, p, n);
    let v = replace_all(z, p, n);
    assert(v[0] == z[0]);
    lemma_name_between(a, n, v);
    assert(a + (n + v) =~= a + n + v);
}

/// A text without `_` holds no placeholder after replacing.
proof fn lemma_last_piece(a: Seq<char>, n: Seq<char>)
    requires
        lacks_char(a, '_'),
    ensures
        !contains_seq(replace_all(a, PLACEHOLDER@, n), PLACEHOLDER@),
{
    reveal_strlit("_component");
    lemma_replace_skips(a, Seq::empty(), PLACEHOLDER@, n);
    assert(a + Seq::<char>::empty() =~= a);
    assert(replace_all(Seq::<char>::empty(), PLACEHOLDER@, n) == Seq::<char>::empty());
    lemma_no_underscore_no_placeholder(a);
}

proof fn lemma_index_clean(n: Seq<char>)
    requires
        !contains_seq(n, PLACEHOLDER@),
    ensures
        !contains_seq(instantiate(INDEX_TEMPLATE@, n), PLACEHOLDER@),
{
    reveal_strlit("export { default } from \"./_component\";");
    reveal_strlit("_component");
    reveal_strlit("export { default } from \"./");
    reveal_strlit("\";");
    let a0 = "export { default } from \"./"@;
    let a1 = "\";"@;
    assert(INDEX_TEMPLATE@ =~= a0 + (PLACEHOLDER@ + a1));
    lemma_last_piece(a1, n);
    lemma_slot(a0, a1, n);
}

proof fn lemma_functional_clean(n: Seq<char>)
    requires
        !contains_seq(n, PLACEHOLDER@),
    ensures
        !contains_seq(instantiate(FUNCTIONAL_TEMPLATE@, n), PLACEHOLDER@),
{
    reveal_strlit("import React from \"react\";\n\nconst _component = () => {\n  return <div>_component</div>;\n};\n\nexport default _component;\n");
    reveal_strlit("_component");
    reveal_strlit("import React from \"react\";\n\nconst ");
    reveal_strlit(" = () => {\n  return <div>");
    reveal_strlit("</div>;\n};\n\nexport default ");
    reveal_strlit(";\n");
    let p = PLACEHOLDER@;
    let a0 = "import React from \"react\";\n\nconst "@;
    let a1 = " = () => {\n  return <div>"@;
    let a2 = "</div>;\n};\n\nexport default "@;
    let a3 = ";\n"@;
    assert(FUNCTIONAL_TEMPLATE@ =~= a0 + (p + (a1 + (p + (a2 + (p + a3))))));
    lemma_last_piece(a3, n);
    lemma_slot(a2, a3, n);
    lemma_slot(a1, a2 + (p + a3), n);
    lemma_slot(a0, a1 + (p + (a2 + (p + a3))), n);
}

proof fn lemma_class_clean(n: Seq<char>)
    requires
        !contains_seq(n, PLACEHOLDER@),
    ensures
        !contains_seq(instantiate(CLASS_TEMPLATE@, n), PLACEHOLDER@),
{
    reveal_strlit("import React, { Component } from \"react\";\n\nclass _component extends Component {\n  render() {\n    return <div>_component</div>;\n  }\n}\n\nexport default _component;\n");
    reveal_strlit("_component");
    reveal_strlit("import React, { Component } from \"react\";\n\nclass ");
    reveal_strlit(" extends Component {\n  render() {\n    return <div>");
    reveal_strlit("</div>;\n  }\n}\n\nexport default ");
    reveal_strlit(";\n");
    let p = PLACEHOLDER@;
    let a0 = "import React, { Component } from \"react\";\n\nclass "@;
    let a1 = " extends Component {\n  render() {\n    return <div>"@;
    let a2 = "</div>;\n  }\n}\n\nexport default "@;
    let a3 = ";\n"@;
    assert(CLASS_TEMPLATE@ =~= a0 + (p + (a1 + (p + (a2 + (p + a3))))));
    lemma_last_piece(a3, n);
    lemma_slot(a2, a3, n);
    lemma_slot(a1, a2 + (p + a3), n);
    lemma_slot(a0, a1 + (p + (a2 + (p + a3))), n);
}

/// Instantiating a built-in template with a name that holds no placeholder
/// leaves no placeholder in the text.
pub proof fn lemma_default_text_leaves_no_placeholder(kind: ComponentType, name: Seq<char>)
    requires
        !contains_seq(name, PLACEHOLDER@),
    ensures
        !contains_seq(instantiate(INDEX_TEMPLATE@, name), PLACEHOLDER@),
        !contains_seq(instantiate(default_template(kind), name), PLACEHOLDER@),
{
    lemma_index_clean(name);
    lemma_functional_clean(name);
    lemma_class_clean(name);
}

/// What comes out of replacing starts as the input did, as far as it holds
/// only characters of the placeholder.
proof fn lemma_replace_prefix(s: Seq<char>, r: Seq<char>, k: int)
    requires
        r.len() > 0,
        outside_placeholder(r[0]),
        0 <= k <= replace_all(s, PLACEHOLDER@, r).len(),
        forall|j: int| 0 <= j < k ==> !outside_placeholder(#[trigger] replace_all(s, PLACEHOLDER@, r)[j]),
    ensures
        k <= s.len(),
        replace_all(s, PLACEHOLDER@, r).subrange(0, k) == s.subrange(0, k),
    decreases s.len(),
{
    reveal_strlit("_component");
    let p = PLACEHOLDER@;
    let m = p.len() as int;
    let out = replace_all(s, p, r);
    if s.len() < p.len() {
    } else if s.subrange(0, m) == p {
        if k > 0 {
            assert(out[0] == r[0]);
        }
    } else if k > 0 {
        let rest = s.subrange(1, s.len() as int);
        let tail = replace_all(rest, p, r);
        assert(out =~= seq![s[0]] + tail);
        assert forall|j: int| 0 <= j < k - 1 implies !outside_placeholder(#[trigger] tail[j]) by {
            assert(out[j + 1] == tail[j]);
        }
        lemma_replace_prefix(rest, r, k - 1);
        assert(out.subrange(0, k) =~= seq![s[0]] + tail.subrange(0, k - 1));
        assert(s.subrange(0, k) =~= seq![s[0]] + rest.subrange(0, k - 1));
    }
}

/// Replacing the placeholder by a text that holds no `_` and starts with none
/// of the placeholder's characters leaves no placeholder.
pub proof fn lemma_replace_leaves_none(s: Seq<char>, r: Seq<char>)
    requires
        r.len() > 0,
        lacks_char(r, '_'),
        outside_placeholder(r[0]),
    ensures
        !contains_seq(replace_all(s, PLACEHOLDER@, r), PLACEHOLDER@),
    decreases s.len(),
{
    reveal_strlit("_component");
    let p = PLACEHOLDER@;
    let m = p.len() as int;
    let out = replace_all(s, p, r);
    if s.len() < p.len() {
        assert forall|i: int| !occurs_at(out, p, i) by {}
    } else if s.subrange(0, m) == p {
        let rest = s.subrange(m, s.len() as int);
        let tail = replace_all(rest, p, r);
        lemma_replace_leaves_none(rest, r);
        assert forall|i: int| !occurs_at(out, p, i) by {
            if occurs_at(out, p, i) {
                assert(out.subrange(i, i + m)[0] == out[i]);
                if i < r.len() {
                    assert(out[i] == r[i]);
                } else {
                    assert(tail.subrange(i - r.len(), i - r.len() + m) =~= out.subrange(i, i + m));
                    assert(occurs_at(tail, p, i - r.len()));
                }
            }
        }
    } else {
        let rest = s.subrange(1, s.len() as int);
        let tail = replace_all(rest, p, r);
        lemma_replace_leaves_none(rest, r);
        assert(out =~= seq![s[0]] + tail);
        assert forall|i: int| !occurs_at(out, p, i) by {
            if occurs_at(out, p, i) {
                if i >= 1 {
                    assert(tail.subrange(i - 1, i - 1 + m) =~= out.subrange(i, i + m));
                    assert(occurs_at(tail, p, i - 1));
                } else {
                    assert forall|j: int| 0 <= j < m - 1 implies !outside_placeholder(#[trigger] tail[j]) by {
                        assert(out.subrange(0, m)[j + 1] == tail[j]);
                        assert(p[j + 1] == tail[j]);
                    }
                    lemma_replace_prefix(rest, r, m - 1);
                    assert(s.subrange(0, m) =~= seq![s[0]] + rest.subrange(0, m - 1));
                    assert(out.subrange(0, m) =~= seq![s[0]] + tail.subrange(0, m - 1));
                }
            }
        }
    }
}

/// A text that holds the placeholder shows the replacement afterwards.
pub proof fn lemma_replace_shows_name(s: Seq<char>, r: Seq<char>)
    requires
        contains_seq(s, PLACEHOLDER@),
    ensures
        contains_seq(replace_all(s, PLACEHOLDER@, r), r),
    decreases s.len(),
{
    reveal_strlit("_component");
    let p = PLACEHOLDER@;
    let m = p.len() as int;
    let out = replace_all(s, p, r);
    let i = choose|i: int| occurs_at(s, p, i);
    if s.subrange(0, m) == p {
        assert(out.subrange(0, r.len() as int) =~= r);
        assert(occurs_at(out, r, 0));
    } else {
        assert(i != 0);
        let rest = s.subrange(1, s.len() as int);
        assert(rest.subrange(i - 1, i - 1 + m) =~= s.subrange(i, i + m));
        assert(occurs_at(rest, p, i - 1));
        lemma_replace_shows_name(rest, r);
        let tail = replace_all(rest, p, r);
        let k = choose|k: int| occurs_at(tail, r, k);
        assert(out =~= seq![s[0]] + tail);
        assert(out.subrange(k + 1, k + 1 + r.len()) =~= tail.subrange(k, k + r.len()));
        assert(occurs_at(out, r, k + 1));
    }
}

/// A directory member's text shows the component name wherever it held the
/// placeholder; with a name that holds no `_` and starts with none of the
/// placeholder's characters, no placeholder is left.
pub proof fn lemma_member_text(content: Seq<char>, name: Seq<char>)
    ensures
        contains_seq(content, PLACEHOLDER@) ==> contains_seq(instantiate(content, name), name),
        name.len() > 0 && lacks_char(name, '_') && outside_placeholder(name[0]) ==> !contains_seq(
            instantiate(content, name),
            PLACEHOLDER@,
        ),
{
    if contains_seq(content, PLACEHOLDER@) {
        lemma_replace_shows_name(content, name);
    }
    if name.len() > 0 && lacks_char(name, '_') && outside_placeholder(name[0]) {
        lemma_replace_leaves_none(content, name);
    }
}

} // verus!
