use mycel::body_slice::content_hash;
use mycel::paths::{
    bridge_command, default_target, graph_name_for, install_step, log_path, mise_shims_path, plist_path,
    render_launchd, render_systemd, repo_id_from_path, repo_id_of, source_for_repo, unit_path, InstallStep, TargetState,
};

#[test]
fn repo_id_is_basename_and_hash_prefix() {
    let id = repo_id_from_path("/home/me/work/foo");
    let hash = content_hash("/home/me/work/foo");
    assert_eq!(id, format!("foo-{}", &hash[..8]));
    assert_ne!(repo_id_from_path("/home/me/work/foo"), repo_id_from_path("/home/me/personal/foo"));
    assert!(repo_id_from_path("/").starts_with("repo-"));
    assert_eq!(graph_name_for(Some(&id)), format!("mycel:{id}"));
    assert_eq!(graph_name_for(None), "mycel:default");
}

#[test]
fn skill_paths() {
    assert_eq!(source_for_repo("/r"), "/r/skills/mycel-graph-care");
    assert_eq!(source_for_repo("/r/"), "/r/skills/mycel-graph-care");
    assert_eq!(default_target("/home/me/skills"), "/home/me/skills/mycel-graph-care");
}

#[test]
fn install_creates_link_once_and_never_overwrites() {
    assert_eq!(install_step("src/skill", true, "t", &TargetState::Missing), Ok(InstallStep::Link));
    assert_eq!(
        install_step("src/skill", true, "t", &TargetState::Symlink { to_source: true, destination: "\"src/skill\"".into() }),
        Ok(InstallStep::AlreadyLinked)
    );
    let err = install_step("src/skill", true, "home/agent/skills/x", &TargetState::Occupied).unwrap_err();
    assert!(err.contains("not a symlink"));
    let err = install_step(
        "src/skill",
        true,
        "home/agent/skills/x",
        &TargetState::Symlink { to_source: false, destination: "\"src/other\"".into() },
    )
    .unwrap_err();
    assert!(err.contains("points elsewhere"));
    assert_eq!(install_step("src/skill", false, "t", &TargetState::Missing), Err("source does not exist: src/skill".into()));
}

#[test]
fn service_files() {
    assert_eq!(plist_path("/Users/me"), "/Users/me/Library/LaunchAgents/com.gav.mycel.plist");
    assert_eq!(unit_path("/home/me"), "/home/me/.config/systemd/user/mycel.service");
    assert_eq!(log_path("/home/me"), "/home/me/.cache/mycel/daemon.log");
    assert_eq!(mise_shims_path("/home/me"), "/home/me/.local/share/mise/shims");
    let t = "ExecStart=__BINARY_PATH__\nLog=__LOG_PATH__ __LOG_PATH__\nPATH=__MISE_SHIMS__\nRepo=__REPO__\n";
    assert_eq!(
        render_systemd(t, "/bin/d", "/l", "/s", "/r"),
        "ExecStart=/bin/d\nLog=/l /l\nPATH=/s\nRepo=/r\n"
    );
    assert_eq!(render_launchd("<b>__BINARY_PATH__</b>", "/x", "/l", "/s"), "<b>/x</b>");
}

#[test]
fn bridge_command_defaults_to_repo_script() {
    let d = "python3 scripts/multilspy_bridge.py";
    assert_eq!(bridge_command(d, d, "/repo"), "python3 /repo/scripts/multilspy_bridge.py");
    assert_eq!(bridge_command("node bridge.js", d, "/repo"), "node bridge.js");
}

#[test]
fn repo_id_from_parts() {
    assert_eq!(repo_id_of(Some("foo"), "0123456789abcdef"), "foo-01234567");
    assert_eq!(repo_id_of(None, "deadbeefcafe"), "repo-deadbeef");
}
