use strap::expand::{
    instantiate_text, member_name, plan_component, plan_default, plan_directory, plan_single_file,
    LoadedTemplate, TemplateEntry, CLASS_TEMPLATE, FUNCTIONAL_TEMPLATE,
};
use strap::locate::{get_template_path, get_template_root, template_candidates};
use strap::resolve::{
    check_existing, check_name, get_component_dir, get_file_extension, get_output_dir, resolve_request, split_name,
    strip_extension, StrapError,
};
use strap::substitute::{contains_str, replace_str};
use strap::types::{default_config, get_component_type, str_eq, Cli, ComponentType, Config};

fn empty_config() -> Config {
    Config {
        base_path: None,
        template_path: None,
        component_type: None,
        verbose_output: None,
        typescript: None,
        force: None,
    }
}

fn cli(name: &str) -> Cli {
    Cli {
        name: Some(name.to_owned()),
        init: false,
        func: false,
        class: false,
        verbose: false,
        typescript: false,
        force: false,
    }
}

#[test]
fn replace_every_occurrence() {
    assert_eq!(replace_str("a_componentb_component", "_component", "X"), "aXbX");
    assert_eq!(replace_str("none here", "_component", "X"), "none here");
    assert_eq!(replace_str("aaa", "aa", "b"), "ba");
    assert_eq!(replace_str("", "_component", "X"), "");
}

#[test]
fn contains_finds_placeholder() {
    assert!(contains_str("_component.spec.js", "_component"));
    assert!(contains_str("x_component", "_component"));
    assert!(!contains_str("styles.css", "_component"));
    assert!(!contains_str("", "_component"));
}

#[test]
fn str_eq_compares_characters() {
    assert!(str_eq("class", "class"));
    assert!(!str_eq("class", "Class"));
    assert!(!str_eq("func", "functional"));
}

#[test]
fn component_type_from_config_and_flags() {
    let mut config = empty_config();
    assert_eq!(get_component_type(&config, &cli("A")), ComponentType::Functional);
    config.component_type = Some("class".to_owned());
    assert_eq!(get_component_type(&config, &cli("A")), ComponentType::Class);
    config.component_type = Some("func".to_owned());
    assert_eq!(get_component_type(&config, &cli("A")), ComponentType::Functional);
    config.component_type = Some("Class".to_owned());
    assert_eq!(get_component_type(&config, &cli("A")), ComponentType::Functional);
    let mut args = cli("A");
    args.class = true;
    assert_eq!(get_component_type(&config, &args), ComponentType::Class);
    config.component_type = Some("class".to_owned());
    args.class = false;
    args.func = true;
    assert_eq!(get_component_type(&config, &args), ComponentType::Functional);
}

#[test]
fn default_files_for_each_kind() {
    for kind in [ComponentType::Functional, ComponentType::Class] {
        let plan = plan_default("Button", ".js", &kind);
        assert_eq!(plan.len(), 2);
        assert_eq!(plan[0].path, "Button/index.js");
        assert_eq!(plan[0].content, "export { default } from \"./Button\";");
        assert_eq!(plan[1].path, "Button/Button.js");
        let template = match kind {
            ComponentType::Functional => FUNCTIONAL_TEMPLATE,
            ComponentType::Class => CLASS_TEMPLATE,
        };
        assert_eq!(plan[1].content, template.replace("_component", "Button"));
        assert!(plan[1].content.contains("Button"));
        assert!(!plan[1].content.contains("_component"));
        assert!(!plan[0].content.contains("_component"));
    }
    let class_plan = plan_default("Card", ".ts", &ComponentType::Class);
    assert_eq!(class_plan[1].path, "Card/Card.ts");
    assert!(class_plan[1].content.contains("class Card extends Component"));
}

#[test]
fn file_template_takes_precedence() {
    let config = empty_config();
    let base = "src/components";
    let (file, dir) = template_candidates(&config, base, &ComponentType::Functional);
    assert_eq!(file, "src/components/.templates/functional.js");
    assert_eq!(dir, "src/components/.templates/functional");
    let first = get_template_path(&config, base, &ComponentType::Functional, true, true);
    let second = get_template_path(&config, base, &ComponentType::Functional, true, true);
    assert_eq!(first, Some(file.clone()));
    assert_eq!(first, second);
    assert_eq!(get_template_path(&config, base, &ComponentType::Functional, false, true), Some(dir));
    assert_eq!(get_template_path(&config, base, &ComponentType::Functional, false, false), None);
    let (class_file, _) = template_candidates(&config, base, &ComponentType::Class);
    assert_eq!(class_file, "src/components/.templates/class.js");
}

#[test]
fn configured_template_root() {
    let mut config = empty_config();
    assert_eq!(get_template_root(&config, "app"), "app/.templates");
    config.template_path = Some("tpl".to_owned());
    assert_eq!(get_template_root(&config, "app"), "tpl");
    assert_eq!(
        get_template_path(&config, "app", &ComponentType::Class, false, true),
        Some("tpl/class".to_owned())
    );
}

#[test]
fn nested_name_is_split() {
    assert_eq!(split_name("foo/bar/Baz.tsx"), ("foo/bar".to_owned(), "Baz.tsx".to_owned()));
    assert_eq!(split_name("Baz"), (String::new(), "Baz".to_owned()));
    assert_eq!(strip_extension("Baz.tsx"), "Baz");
    assert_eq!(strip_extension("Baz"), "Baz");
    let mut config = empty_config();
    config.base_path = Some("web".to_owned());
    let req = resolve_request(&config, &cli("foo/bar/Baz.tsx"), "foo/bar/Baz.tsx");
    assert_eq!(req.component_name, "Baz");
    assert_eq!(req.component_path, "foo/bar");
    assert_eq!(req.extension, ".js");
    assert_eq!(get_output_dir(&req), "web/foo/bar");
    assert_eq!(get_component_dir(&req), "web/foo/bar/Baz");
    let plan = plan_component(&req, &None);
    assert_eq!(plan[1].path, "Baz/Baz.js");
}

#[test]
fn typescript_from_flag_or_config() {
    let mut args = cli("A");
    args.typescript = true;
    assert_eq!(resolve_request(&empty_config(), &args, "A").extension, ".ts");
    let mut config = empty_config();
    config.typescript = Some(true);
    assert_eq!(resolve_request(&config, &cli("A"), "A").extension, ".ts");
    config.typescript = Some(false);
    assert_eq!(resolve_request(&config, &cli("A"), "A").extension, ".js");
}

#[test]
fn existing_component_needs_force() {
    let config = empty_config();
    let req = resolve_request(&config, &cli("Nav"), "Nav");
    assert!(check_existing(&req, false).is_ok());
    match check_existing(&req, true) {
        Err(StrapError::Conflict(n)) => assert_eq!(n, "Nav"),
        _ => panic!("an existing component was not refused"),
    }
    let mut args = cli("Nav");
    args.force = true;
    assert!(check_existing(&resolve_request(&config, &args, "Nav"), true).is_ok());
    let mut forced = empty_config();
    forced.force = Some(true);
    assert!(check_existing(&resolve_request(&forced, &cli("Nav"), "Nav"), true).is_ok());
}

#[test]
fn directory_member_with_template_extension() {
    let entries = vec![
        TemplateEntry {
            file_name: "_component.spec.js".to_owned(),
            content: "test(\"_component\", () => render(<_component />));".to_owned(),
        },
        TemplateEntry { file_name: "styles.css".to_owned(), content: ".root {}".to_owned() },
    ];
    let plan = plan_directory(&entries, "Widget", ".js", true);
    assert_eq!(plan.len(), 2);
    assert_eq!(plan[0].path, "Widget/Widget.spec.js");
    assert!(plan[0].content.contains("Widget"));
    assert!(!plan[0].content.contains("_component"));
    assert_eq!(plan[1].path, "Widget/styles.css");
    assert_eq!(plan[1].content, ".root {}");
    let plain = plan_directory(&entries, "Widget", ".ts", false);
    assert_eq!(plain[0].path, "Widget/Widget.ts");
}

#[test]
fn member_names_and_extensions() {
    assert_eq!(get_file_extension("_component.spec.js"), ".spec.js");
    assert_eq!(get_file_extension("README"), "");
    assert_eq!(member_name("_component.test.tsx", "Nav", ".js", true), "Nav.test.tsx");
    assert_eq!(member_name("_component.test.tsx", "Nav", ".js", false), "Nav.js");
    assert_eq!(member_name("index.js", "Nav", ".js", true), "index.js");
}

#[test]
fn single_file_template() {
    let plan = plan_single_file("const _component = 1;", "Logo", ".ts");
    assert_eq!(plan.len(), 1);
    assert_eq!(plan[0].path, "Logo/Logo.ts");
    assert_eq!(plan[0].content, "const Logo = 1;");
    assert_eq!(instantiate_text("<_component/>", "Logo"), "<Logo/>");
    let req = resolve_request(&empty_config(), &cli("Logo"), "Logo");
    let via = plan_component(&req, &Some(LoadedTemplate::SingleFile("_component!".to_owned())));
    assert_eq!(via[0].content, "Logo!");
}

#[test]
fn default_config_round_trip() {
    let config = default_config();
    assert_eq!(config.base_path.as_deref(), Some("src/components"));
    assert_eq!(config.template_path.as_deref(), Some("src/components/.templates"));
    assert_eq!(config.component_type.as_deref(), Some("functional"));
    assert_eq!(config.typescript, Some(false));
    assert_eq!(config.verbose_output, Some(false));
    assert_eq!(config.force, Some(false));
    let req = resolve_request(&config, &cli("Box"), "Box");
    assert_eq!(req.base_path, "src/components");
    assert_eq!(get_template_root(&config, &req.base_path), "src/components/.templates");
    assert_eq!(req.component_type, ComponentType::Functional);
    assert_eq!(req.extension, ".js");
    assert!(!req.force);
    assert!(!req.verbose);
}

#[test]
fn underscore_names_leave_no_placeholder() {
    for kind in [ComponentType::Functional, ComponentType::Class] {
        let plan = plan_default("My_Button", ".js", &kind);
        assert!(plan[1].content.contains("My_Button"));
        assert!(!plan[1].content.contains("_component"));
        assert!(!plan[0].content.contains("_component"));
    }
    let req = resolve_request(&empty_config(), &cli("nav/Top_Bar.jsx"), "nav/Top_Bar.jsx");
    let plan = plan_component(&req, &None);
    assert_eq!(plan.len(), 2);
    for file in &plan {
        assert!(file.path.starts_with("Top_Bar/"));
    }
}

#[test]
fn empty_component_name_is_refused() {
    assert!(matches!(check_name("foo/"), Err(StrapError::EmptyName)));
    assert!(matches!(check_name("X/.tsx"), Err(StrapError::EmptyName)));
    assert!(matches!(check_name(""), Err(StrapError::EmptyName)));
    assert!(check_name("foo/bar/Baz.tsx").is_ok());
    assert!(check_name("Baz").is_ok());
}

#[test]
fn member_text_shows_name() {
    let entries = vec![TemplateEntry {
        file_name: "_component.spec.js".to_owned(),
        content: "_c_component __component _compo".to_owned(),
    }];
    let plan = plan_directory(&entries, "Widget", ".js", true);
    assert_eq!(plan[0].content, "_cWidget _Widget _compo");
    assert!(!plan[0].content.contains("_component"));
}
