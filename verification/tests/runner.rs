use nullslate::runner::{
    build_commands, detect_project, dev_command, project_kind, CommandLine, Markers, ProjectKind,
};

const EMPTY: Markers = Markers { devforge_toml: false, package_json: false, cargo_toml: false };

#[test]
fn detect_fullstack_project() {
    let dir = Markers { devforge_toml: true, ..EMPTY };
    let (root, kind) = detect_project(&[dir]).unwrap();
    assert_eq!(root, 0);
    assert_eq!(kind, ProjectKind::Fullstack);
}

#[test]
fn detect_frontend_project() {
    let dir = Markers { package_json: true, ..EMPTY };
    let (root, kind) = detect_project(&[dir]).unwrap();
    assert_eq!(root, 0);
    assert_eq!(kind, ProjectKind::Frontend);
}

#[test]
fn detect_rust_project() {
    let dir = Markers { cargo_toml: true, ..EMPTY };
    let (root, kind) = detect_project(&[dir]).unwrap();
    assert_eq!(root, 0);
    assert_eq!(kind, ProjectKind::Rust);
}

#[test]
fn detect_fullstack_takes_priority() {
    let dir = Markers { devforge_toml: true, package_json: true, cargo_toml: true };
    let (_, kind) = detect_project(&[dir]).unwrap();
    assert_eq!(kind, ProjectKind::Fullstack);
}

#[test]
fn detect_walks_up() {
    let dir = Markers { package_json: true, ..EMPTY };
    let sub = EMPTY;
    let (root, kind) = detect_project(&[sub, dir]).unwrap();
    assert_eq!(root, 1);
    assert_eq!(kind, ProjectKind::Frontend);
}

#[test]
fn detect_no_project_fails() {
    let result = detect_project(&[EMPTY]);
    assert!(result.is_none());
    assert!(detect_project(&[]).is_none());
    assert!(detect_project(&[EMPTY, EMPTY, EMPTY]).is_none());
}

#[test]
fn detect_stops_at_the_nearest_root() {
    let near = Markers { cargo_toml: true, ..EMPTY };
    let far = Markers { devforge_toml: true, ..EMPTY };
    assert_eq!(detect_project(&[EMPTY, near, far]), Some((1, ProjectKind::Rust)));
}

#[test]
fn project_kind_priority() {
    assert_eq!(project_kind(&EMPTY), None);
    assert_eq!(project_kind(&Markers { package_json: true, cargo_toml: true, ..EMPTY }), Some(ProjectKind::Frontend));
}

#[test]
fn dev_command_by_kind() {
    assert_eq!(dev_command(ProjectKind::Fullstack), CommandLine { program: "cargo", args: vec!["xtask", "dev"], in_web: false });
    assert_eq!(dev_command(ProjectKind::Frontend), CommandLine { program: "bun", args: vec!["dev"], in_web: false });
    assert_eq!(dev_command(ProjectKind::Rust), CommandLine { program: "cargo", args: vec!["run"], in_web: false });
}

#[test]
fn build_commands_by_kind() {
    let cargo = CommandLine { program: "cargo", args: vec!["build", "--release"], in_web: false };
    let bun = CommandLine { program: "bun", args: vec!["run", "build"], in_web: false };
    let bun_in_web = CommandLine { program: "bun", args: vec!["run", "build"], in_web: true };
    assert_eq!(build_commands(ProjectKind::Fullstack, true), vec![cargo.clone(), bun_in_web]);
    assert_eq!(build_commands(ProjectKind::Fullstack, false), vec![cargo.clone()]);
    assert_eq!(build_commands(ProjectKind::Frontend, true), vec![bun.clone()]);
    assert_eq!(build_commands(ProjectKind::Frontend, false), vec![bun]);
    assert_eq!(build_commands(ProjectKind::Rust, true), vec![cargo]);
}
