use smarthub::workspace::{
    action_step, action_warning, builtin_profiles, find_profile, process_name_of, ActionStep,
    ProfileAction, ProfileActionKind, WorkspaceProfile, WorkspaceService,
};

fn action(kind: ProfileActionKind, value: &str) -> ProfileAction {
    ProfileAction { kind, value: value.to_string() }
}

fn profile(id: &str, name: &str) -> WorkspaceProfile {
    WorkspaceProfile {
        id: id.to_string(),
        name: name.to_string(),
        icon: "code".to_string(),
        actions: vec![action(ProfileActionKind::LaunchApp, "Code.exe")],
        builtin: false,
    }
}

#[test]
fn builtins() {
    let p = builtin_profiles();
    assert_eq!(p.len(), 3);
    let ids: Vec<&str> = p.iter().map(|x| x.id.as_str()).collect();
    assert_eq!(ids, vec!["p-focus", "p-stream", "p-code"]);
    assert_eq!(p[0].name, "Focus");
    assert_eq!(p[0].icon, "moon");
    assert!(p.iter().all(|x| x.builtin));
    assert_eq!(p[0].actions.len(), 4);
    assert_eq!(p[0].actions[0].kind, ProfileActionKind::KillApp);
    assert_eq!(p[0].actions[0].value, "Discord.exe");
    assert_eq!(p[0].actions[3].kind, ProfileActionKind::SetVolume);
    assert_eq!(p[0].actions[3].value, "0.2");
    assert_eq!(p[1].name, "Streaming");
    assert_eq!(p[1].actions.len(), 5);
    assert_eq!(p[1].actions[0].value, "obs64.exe");
    assert_eq!(p[1].actions[2].value, "Streamlabs OBS.exe");
    assert_eq!(p[2].name, "Coding");
    assert_eq!(p[2].actions[2].kind, ProfileActionKind::DoNotDisturb);
    assert_eq!(p[2].actions[2].value, "false");
    assert_eq!(p[2].actions[3].value, "0.35");
}

#[test]
fn listing_skips_unreadable_rows() {
    let rows = vec![Some(profile("a", "A")), None, Some(profile("b", "B"))];
    let d = WorkspaceService::list(rows, Some("b".to_string()));
    assert_eq!(d.profiles.len(), 2);
    assert_eq!(d.profiles[0].id, "a");
    assert_eq!(d.profiles[1].id, "b");
    assert_eq!(d.active_id.as_deref(), Some("b"));
    let empty = WorkspaceService::list(Vec::new(), None);
    assert!(empty.profiles.is_empty() && empty.active_id.is_none());
}

#[test]
fn saving_assigns_ids() {
    let fresh = WorkspaceService::save(profile("", "New"));
    assert_eq!(fresh.id.len(), 36);
    assert_eq!(fresh.name, "New");
    assert_eq!(fresh.actions.len(), 1);
    let other = WorkspaceService::save(profile("", "New"));
    assert_ne!(fresh.id, other.id);
    let kept = WorkspaceService::save(profile("p-mine", "Mine"));
    assert_eq!(kept.id, "p-mine");
}

#[test]
fn steps_of_actions() {
    assert_eq!(
        action_step(&action(ProfileActionKind::LaunchApp, "obs64.exe")),
        ActionStep::Launch("obs64.exe".to_string())
    );
    assert_eq!(
        action_step(&action(ProfileActionKind::KillApp, "Discord.exe")),
        ActionStep::Kill("Discord.exe".to_string())
    );
    assert_eq!(
        action_step(&action(ProfileActionKind::SetVolume, "0.6")),
        ActionStep::SetVolume("0.6".to_string())
    );
    assert_eq!(action_step(&action(ProfileActionKind::Mute, "true")), ActionStep::Mute(true));
    assert_eq!(action_step(&action(ProfileActionKind::Mute, "TRUE")), ActionStep::Mute(false));
    assert_eq!(
        action_step(&action(ProfileActionKind::DoNotDisturb, "false")),
        ActionStep::DoNotDisturb(false)
    );
    assert_eq!(
        action_step(&action(ProfileActionKind::SetWallpaper, "/w.png")),
        ActionStep::SetWallpaper("/w.png".to_string())
    );
    assert_eq!(
        action_step(&action(ProfileActionKind::RunCommand, "echo hi")),
        ActionStep::RunCommand("echo hi".to_string())
    );
}

#[test]
fn warnings_collect_failures() {
    assert_eq!(
        action_warning(ProfileActionKind::KillApp, "process not running: x.exe"),
        "KillApp → process not running: x.exe"
    );
    let actions = vec![
        action(ProfileActionKind::LaunchApp, "a.exe"),
        action(ProfileActionKind::KillApp, "b.exe"),
        action(ProfileActionKind::SetVolume, "loud"),
    ];
    let failures = vec![None, Some("process not running: b.exe".to_string()), Some("invalid float literal".to_string())];
    assert_eq!(
        WorkspaceService::warnings(&actions, &failures),
        vec![
            "KillApp → process not running: b.exe".to_string(),
            "SetVolume → invalid float literal".to_string()
        ]
    );
    assert!(WorkspaceService::warnings(&actions, &vec![None, None, None]).is_empty());
}

#[test]
fn finding_a_profile() {
    let rows = vec![
        ("x".to_string(), Some(profile("x", "X"))),
        ("y".to_string(), None),
        ("z".to_string(), Some(profile("z", "Z"))),
    ];
    assert_eq!(find_profile(rows, "z").unwrap().name, "Z");
    let rows = vec![("x".to_string(), Some(profile("x", "X"))), ("y".to_string(), None)];
    assert_eq!(find_profile(rows, "y").unwrap_err(), "profile not found: y");
    let rows = vec![("x".to_string(), Some(profile("x", "X")))];
    assert_eq!(find_profile(rows, "q").unwrap_err(), "profile not found: q");
}

#[test]
fn process_names() {
    assert_eq!(process_name_of("Discord.exe"), "Discord");
    assert_eq!(process_name_of("a.exe.exe"), "a");
    assert_eq!(process_name_of("Code"), "Code");
    assert_eq!(process_name_of(".exe"), "");
    assert_eq!(process_name_of("Tool.EXE"), "Tool.EXE");
}
