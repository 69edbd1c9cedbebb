use repo::config::{default_data, Config, LoadOutcome, LoadWarning, TargetType};
use repo::editor::EditorError;

fn s(x: &str) -> String {
    x.to_string()
}

fn scenario_config() -> Config {
    let mut c = default_data();
    c.aliases.push((s("web"), s("/repos/web")));
    c.sets.push((s("infra"), vec![s("/repos/infra-a"), s("/repos/infra-b")]));
    c.settings.set(&vec![], s("root"), s("/repos"));
    c
}

#[test]
fn scenario_resolves_each_kind() {
    let c = scenario_config();
    assert_eq!(c.get_target_type(&s("web")), TargetType::Alias(s("/repos/web")));
    assert_eq!(
        c.get_target_type(&s("infra")),
        TargetType::Group(vec![s("/repos/infra-a"), s("/repos/infra-b")])
    );
    assert_eq!(c.get_target_type(&s("foo/bar")), TargetType::Path(s("foo/bar")));
    assert_eq!(c.get_target_type(&s("newthing")), TargetType::Dir(s("/repos/newthing")));
}

#[test]
fn alias_wins_over_set() {
    let mut c = scenario_config();
    c.sets.push((s("web"), vec![s("/elsewhere")]));
    assert_eq!(c.get_target_type(&s("web")), TargetType::Alias(s("/repos/web")));
}

#[test]
fn separator_wins_over_set() {
    let mut c = scenario_config();
    c.sets.push((s("a/b"), vec![s("/x")]));
    assert_eq!(c.get_target_type(&s("a/b")), TargetType::Path(s("a/b")));
}

#[test]
fn alias_with_separator_stays_alias() {
    let mut c = scenario_config();
    c.aliases.push((s("a/b"), s("/aliased")));
    assert_eq!(c.get_target_type(&s("a/b")), TargetType::Alias(s("/aliased")));
}

#[test]
fn default_root_without_setting() {
    let c = default_data();
    assert_eq!(c.get_target_type(&s("proj")), TargetType::Dir(s("~/repos/proj")));
    assert_eq!(c.get_root_path(), None);
}

#[test]
fn root_with_trailing_separator() {
    let mut c = default_data();
    c.settings.set(&vec![], s("root"), s("/src/"));
    assert_eq!(c.get_target_type(&s("x")), TargetType::Dir(s("/src/x")));
    assert_eq!(c.get_root_path(), Some(s("/src/")));
}

#[test]
fn later_alias_overrides_earlier() {
    let mut c = default_data();
    c.aliases.push((s("a"), s("/one")));
    c.aliases.push((s("a"), s("/two")));
    assert_eq!(c.get_path_for_alias(&s("a")), Some(&s("/two")));
    assert_eq!(c.get_path_for_alias(&s("b")), None);
}

#[test]
fn paths_for_target_expand() {
    let c = scenario_config();
    assert_eq!(c.get_paths_for_target(&s("web")), vec![s("/repos/web")]);
    assert_eq!(
        c.get_paths_for_target(&s("infra")),
        vec![s("/repos/infra-a"), s("/repos/infra-b")]
    );
    assert_eq!(c.get_paths_for_target(&s("x/y")), vec![s("x/y")]);
    assert_eq!(c.get_paths_for_target(&s("z")), vec![s("/repos/z")]);
}

#[test]
fn empty_set_expands_to_nothing() {
    let mut c = default_data();
    c.sets.push((s("none"), vec![]));
    assert_eq!(c.get_paths_for_target(&s("none")), Vec::<String>::new());
    assert_eq!(c.get_paths_for_set("none"), Some(&vec![]));
    assert_eq!(c.get_paths_for_set("other"), None);
}

#[test]
fn editor_args_substitute_target() {
    let mut c = scenario_config();
    c.editor.command = Some(s("vim"));
    c.editor.args = Some(vec![s("-c"), s(":cd {{target}}")]);
    let t = TargetType::Alias(s("/repos/web"));
    assert_eq!(c.get_editor_args(&t), Ok(vec![s("-c"), s(":cd /repos/web")]));
    assert_eq!(c.get_editor(None), Ok(s("vim")));
}

#[test]
fn editor_args_every_occurrence_and_plain_text() {
    let mut c = default_data();
    c.editor.args = Some(vec![s("{{target}}{{target}}"), s("{{targ}}"), s("{{{target}}}")]);
    let t = TargetType::Path(s("/a$1"));
    assert_eq!(
        c.get_editor_args(&t),
        Ok(vec![s("/a$1/a$1"), s("{{targ}}"), s("{/a$1}")])
    );
}

#[test]
fn editor_args_use_primary_path_of_set() {
    let mut c = scenario_config();
    c.editor.args = Some(vec![s("{{target}}")]);
    let t = c.get_target_type(&s("infra"));
    assert_eq!(c.get_editor_args(&t), Ok(vec![s("/repos/infra-a")]));
}

#[test]
fn editor_args_empty_set_fails() {
    let mut c = default_data();
    c.editor.args = Some(vec![s("{{target}}")]);
    assert_eq!(c.get_editor_args(&TargetType::Group(vec![])), Err(EditorError::EmptySet));
}

#[test]
fn editor_args_without_templates() {
    let c = default_data();
    assert_eq!(c.get_editor_args(&TargetType::Dir(s("/d"))), Ok(vec![]));
}

#[test]
fn editor_command_fallback_and_missing() {
    let c = default_data();
    assert_eq!(c.get_editor(Some(s("nano"))), Ok(s("nano")));
    assert_eq!(c.get_editor(None), Err(EditorError::NoCommand));
}

#[test]
fn load_outcomes() {
    let (c, w) = Config::from_path_or_default(LoadOutcome::Missing);
    assert!(c.aliases.is_empty() && c.sets.is_empty() && w.is_none());
    let (c, w) = Config::from_path_or_default(LoadOutcome::Corrupt);
    assert!(c.aliases.is_empty() && c.editor.command.is_none());
    assert_eq!(w, Some(LoadWarning::Corrupt));
    let (c, w) = Config::from_path_or_default(LoadOutcome::Parsed(scenario_config()));
    assert_eq!(c.get_path_for_alias(&s("web")), Some(&s("/repos/web")));
    assert!(w.is_none());
}

#[test]
fn empty_root_joins_to_bare_name() {
    let mut c = default_data();
    c.settings.set(&vec![], s("root"), s(""));
    assert_eq!(c.get_target_type(&s("x")), TargetType::Dir(s("x")));
}

#[test]
fn root_setting_below_filesystem_root_is_not_global() {
    let mut c = default_data();
    c.settings.set(&vec![s("home")], s("root"), s("/elsewhere"));
    assert_eq!(c.get_target_type(&s("x")), TargetType::Dir(s("~/repos/x")));
}
