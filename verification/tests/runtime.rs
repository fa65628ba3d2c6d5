use switchyard::runtime::{
    path_join, salt_file, state_dir, state_file, user_state_dir_from_env, StateDirError,
};

#[test]
fn uses_absolute_xdg_state_home() {
    let path = user_state_dir_from_env(Some("/tmp/state"), Some("/home/user")).unwrap();

    assert_eq!(path, "/tmp/state");
}

#[test]
fn ignores_relative_xdg_state_home() {
    let path = user_state_dir_from_env(Some("relative/state"), Some("/home/user")).unwrap();

    assert_eq!(path, "/home/user/.local/state");
}

#[test]
fn falls_back_to_home() {
    let path = user_state_dir_from_env(None, Some("/home/user")).unwrap();

    assert_eq!(path, "/home/user/.local/state");
}

#[test]
fn errors_when_home_is_missing() {
    let error = user_state_dir_from_env(None, None).unwrap_err();

    assert_eq!(error, StateDirError::HomeNotSet);
    assert_eq!(error.message(), "HOME environment variable is not set");
}

#[test]
fn appends_switchyard_to_user_state_dir() {
    let expected = path_join(
        &user_state_dir_from_env(Some("/tmp/state"), Some("/home/user")).unwrap(),
        "switchyard",
    );

    assert_eq!(state_dir(Some("/tmp/state"), Some("/home/user")).unwrap(), expected);
}

#[test]
fn appends_salt_file_to_state_dir() {
    let expected = path_join(&state_dir(None, Some("/home/user")).unwrap(), "salt");

    assert_eq!(salt_file(None, Some("/home/user")).unwrap(), expected);
    assert_eq!(expected, "/home/user/.local/state/switchyard/salt");
}

#[test]
fn path_join_follows_unix_rules() {
    assert_eq!(path_join("/a/", "b"), "/a/b");
    assert_eq!(path_join("", "b"), "b");
    assert_eq!(path_join("/a", "/b"), "/b");
}

#[test]
fn keeps_selections_in_state_json() {
    assert_eq!(
        state_file(Some("/tmp/state"), None).unwrap(),
        "/tmp/state/switchyard/state.json"
    );
    assert_eq!(state_file(None, None), Err(StateDirError::HomeNotSet));
}
