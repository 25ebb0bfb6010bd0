use baml_ir::init::{Generator, LanguageConfig, PythonConfig, TypeScriptConfig};
use baml_ir::msg::{split_messages, split_on};
use baml_ir::order::{str_eq, str_le};

fn py_config() -> PythonConfig {
    PythonConfig {
        project_root: "./app".to_string(),
        test_command: "pytest".to_string(),
        install_command: "poetry add baml".to_string(),
        package_version_command: "poetry show baml".to_string(),
    }
}

fn ts_config() -> TypeScriptConfig {
    TypeScriptConfig {
        project_root: "./web".to_string(),
        test_command: "jest".to_string(),
        install_command: "npm install".to_string(),
        package_version_command: "npm ls".to_string(),
    }
}

#[test]
fn language_config_names() {
    assert_eq!(LanguageConfig::Python(py_config()).name(), "python");
    assert_eq!(LanguageConfig::TypeScript(ts_config()).name(), "typeScript");
}

#[test]
fn language_config_project_root() {
    assert_eq!(LanguageConfig::Python(py_config()).project_root().as_str(), "./app");
    assert_eq!(LanguageConfig::TypeScript(ts_config()).project_root().as_str(), "./web");
}

#[test]
fn language_config_commands() {
    let cfg = LanguageConfig::Python(py_config());
    assert_eq!(cfg.install_command(), "poetry add baml");
    assert_eq!(cfg.package_version_command(), "poetry show baml");
    assert_eq!(cfg.test_command(None), "pytest");
    assert_eq!(cfg.test_command(Some("poetry run")), "poetry run pytest");
}

#[test]
fn generator_renders_config_block() {
    let g = Generator::new(
        "python".to_string(),
        "./app".to_string(),
        "pytest".to_string(),
        "poetry add baml".to_string(),
        "poetry show baml".to_string(),
    );
    let expected = "generator lang_python {\n  language python\n  // This is where your non-baml source code located\n  // (relative directory where pyproject.toml, package.json, etc. lives)\n  project_root \"./app\"\n  // This command is used by \"baml test\" to run tests\n  // defined in the playground\n  test_command \"pytest\"\n  // This command is used by \"baml update-client\" to install\n  // dependencies to your language environment\n  install_command \"poetry add baml\"\n  package_version_command \"poetry show baml\"\n}";
    assert_eq!(g.to_baml(), expected);
}

#[test]
fn string_order_is_lexicographic() {
    assert!(str_le("", "a"));
    assert!(!str_le("a", ""));
    assert!(str_le("abc", "abd"));
    assert!(!str_le("abd", "abc"));
    assert!(str_le("ab", "abc"));
    assert!(!str_le("abc", "ab"));
    assert!(str_le("same", "same"));
    assert!(str_le("Zoo", "apple"));
}

#[test]
fn string_equality_is_by_contents() {
    assert!(str_eq("", ""));
    assert!(str_eq("abc", "abc"));
    assert!(!str_eq("abc", "abd"));
    assert!(!str_eq("ab", "abc"));
}

#[test]
fn messages_split_on_the_marker() {
    let pieces = split_messages("one<END_MSG>\ntwo<END_MSG>\n");
    assert_eq!(pieces, vec!["one", "two", ""]);
    let pieces = split_messages("lonely");
    assert_eq!(pieces, vec!["lonely"]);
    let pieces = split_messages("");
    assert_eq!(pieces, vec![""]);
}

#[test]
fn split_on_general_separator() {
    assert_eq!(split_on("a,b,,c", ","), vec!["a", "b", "", "c"]);
    assert_eq!(split_on("aaa", "aa"), vec!["", "a"]);
    assert_eq!(split_on("xyz", "q"), vec!["xyz"]);
}
