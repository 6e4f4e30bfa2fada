use tesapi::windows::{label_for, WindowWorkspaceState};

#[test]
fn labels_keep_ascii_alphanumerics() {
    assert_eq!(label_for("ws_1/é"), "workspace-ws-1--");
    assert_eq!(label_for("Abc9"), "workspace-Abc9");
}

#[test]
fn a_window_serves_one_workspace() {
    let mut state = WindowWorkspaceState::new();
    state.register("a".into(), "w1".into());
    state.register("b".into(), "w1".into());
    assert_eq!(state.label_of("a"), None);
    assert_eq!(state.label_of("b"), Some("w1".into()));
    state.insert("c".into(), "w2".into());
    state.forget("b");
    assert_eq!(state.label_of("b"), None);
    assert_eq!(state.label_of("c"), Some("w2".into()));
}
