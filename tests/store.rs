use repo::store::SettingsStore;

fn s(x: &str) -> String {
    x.to_string()
}

fn dir(parts: &[&str]) -> Vec<String> {
    parts.iter().map(|p| p.to_string()).collect()
}

fn sorted(mut v: Vec<(String, String)>) -> Vec<(String, String)> {
    v.sort();
    v
}

fn as_map(v: Vec<(String, String)>) -> Vec<(String, String)> {
    let mut m: std::collections::BTreeMap<String, String> = std::collections::BTreeMap::new();
    for (k, val) in v {
        m.insert(k, val);
    }
    sorted(m.into_iter().collect())
}

#[test]
fn deepest_level_wins_over_gaps() {
    let mut st = SettingsStore::new();
    st.set(&dir(&[]), s("k"), s("root"));
    st.set(&dir(&["a", "b"]), s("k"), s("ab"));
    st.set(&dir(&["a"]), s("other"), s("a"));
    let pwd = dir(&["a", "b", "c", "d"]);
    assert_eq!(st.resolve_one(&pwd, &s("k")), Some(s("ab")));
    assert_eq!(st.resolve_one(&dir(&["a"]), &s("k")), Some(s("root")));
    assert_eq!(
        as_map(st.resolve_all(&pwd)),
        vec![(s("k"), s("ab")), (s("other"), s("a"))]
    );
}

#[test]
fn resolve_one_agrees_with_resolve_all() {
    let mut st = SettingsStore::new();
    st.set(&dir(&["x"]), s("a"), s("1"));
    st.set(&dir(&["x", "y"]), s("b"), s("2"));
    st.set(&dir(&["z"]), s("c"), s("3"));
    let pwd = dir(&["x", "y"]);
    let all = as_map(st.resolve_all(&pwd));
    for key in ["a", "b", "c", "d"] {
        let expected = all.iter().find(|(k, _)| k == key).map(|(_, v)| v.clone());
        assert_eq!(st.resolve_one(&pwd, &s(key)), expected);
    }
}

#[test]
fn set_is_seen_and_ancestors_unchanged() {
    let mut st = SettingsStore::new();
    st.set(&dir(&[]), s("k"), s("top"));
    let pwd = dir(&["p", "q"]);
    st.set(&pwd, s("k"), s("here"));
    assert_eq!(st.resolve_one(&pwd, &s("k")), Some(s("here")));
    assert_eq!(st.resolve_one(&dir(&["p"]), &s("k")), Some(s("top")));
    assert_eq!(st.resolve_one(&dir(&[]), &s("k")), Some(s("top")));
}

#[test]
fn set_overwrites() {
    let mut st = SettingsStore::new();
    let pwd = dir(&["p"]);
    st.set(&pwd, s("k"), s("1"));
    st.set(&pwd, s("k"), s("2"));
    assert_eq!(st.resolve_one(&pwd, &s("k")), Some(s("2")));
    assert_eq!(as_map(st.resolve_all(&pwd)), vec![(s("k"), s("2"))]);
}

#[test]
fn remove_falls_through_to_parent() {
    let mut st = SettingsStore::new();
    st.set(&dir(&["p"]), s("k"), s("parent"));
    let pwd = dir(&["p", "q"]);
    st.set(&pwd, s("k"), s("child"));
    st.remove(&pwd, &s("k"));
    assert_eq!(st.resolve_one(&pwd, &s("k")), Some(s("parent")));
}

#[test]
fn remove_at_root_leaves_nothing() {
    let mut st = SettingsStore::new();
    st.set(&dir(&[]), s("k"), s("v"));
    st.remove(&dir(&[]), &s("k"));
    assert_eq!(st.resolve_one(&dir(&[]), &s("k")), None);
    assert!(st.resolve_all(&dir(&["a"])).is_empty());
}

#[test]
fn remove_absent_is_no_op() {
    let mut st = SettingsStore::new();
    st.set(&dir(&["a"]), s("k"), s("v"));
    st.remove(&dir(&["a"]), &s("missing"));
    st.remove(&dir(&["b"]), &s("k"));
    assert_eq!(st.resolve_one(&dir(&["a"]), &s("k")), Some(s("v")));
    assert_eq!(st.entries().len(), 1);
}

#[test]
fn empty_store_resolves_nothing() {
    let st = SettingsStore::new();
    assert_eq!(st.resolve_one(&dir(&["a"]), &s("k")), None);
    assert!(st.resolve_all(&dir(&["a"])).is_empty());
}
