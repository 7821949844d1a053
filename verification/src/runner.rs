//! Running a project: which kind it is, and what runs it.

use vstd::prelude::*;

verus! {

/// The kind of a project, told by the file at its root.
#[derive(Clone, Copy, Debug, PartialEq, Eq, Structural)]
pub enum ProjectKind {
    Fullstack,
    Frontend,
    Rust,
}

/// Which of the files that mark a project's root a directory holds.
#[derive(Clone, Copy, Debug, PartialEq, Eq)]
pub struct Markers {
    /// `devforge.toml`
    pub devforge_toml: bool,
    /// `package.json`
    pub package_json: bool,
    /// `Cargo.toml`
    pub cargo_toml: bool,
}

/// A program and its arguments.
#[derive(Clone, Debug, PartialEq, Eq)]
pub struct CommandLine {
    pub program: &'static str,
    pub args: Vec<&'static str>,
    /// Whether it runs in the directory `web` of the project, not at its
    /// root.
    pub in_web: bool,
}

/// What a [`CommandLine`] holds.
pub struct CommandView {
    pub program: Seq<char>,
    pub args: Seq<Seq<char>>,
    pub in_web: bool,
}

impl View for CommandLine {
    type V = CommandView;

    open spec fn view(&self) -> CommandView {
        CommandView {
            program: self.program@,
            args: self.args@.map_values(|a: &str| a@),
            in_web: self.in_web,
        }
    }
}

/// What a list of commands holds.
pub open spec fn commands_view(commands: Seq<CommandLine>) -> Seq<CommandView> {
    commands.map_values(|c: CommandLine| c@)
}

/// The kind of the project that a directory is the root of, if it is one:
/// `devforge.toml` before `package.json` before `Cargo.toml`.
pub open spec fn kind_of(markers: Markers) -> Option<ProjectKind> {
    if markers.devforge_toml {
        Some(ProjectKind::Fullstack)
    } else if markers.package_json {
        Some(ProjectKind::Frontend)
    } else if markers.cargo_toml {
        Some(ProjectKind::Rust)
    } else {
        None
    }
}

/// The kind of the project that a directory is the root of, if it is one.
pub fn project_kind(markers: &Markers) -> (kind: Option<ProjectKind>)
    ensures
        kind == kind_of(*markers),
{
    if markers.devforge_toml {
        Some(ProjectKind::Fullstack)
    } else if markers.package_json {
        Some(ProjectKind::Frontend)
    } else if markers.cargo_toml {
        Some(ProjectKind::Rust)
    } else {
        None
    }
}

/// The root of the project that a directory lies in. `ancestors` says what
/// the directory holds, then its parent, and so on upwards. The result is
/// the position of the first of them that is the root of a project, with
/// the project's kind; nothing where none is.
pub fn detect_project(ancestors: &[Markers]) -> (found: Option<(usize, ProjectKind)>)
    ensures
        match found {
            Some((at, kind)) => at < ancestors.len() && kind_of(ancestors[at as int]) == Some(kind)
                && forall|j: int| 0 <= j < at ==> kind_of(#[trigger] ancestors[j]) is None,
            None => forall|j: int|
                0 <= j < ancestors.len() ==> kind_of(#[trigger] ancestors[j]) is None,
        },
{
    let mut i: usize = 0;
    while i < ancestors.len()
        invariant
            0 <= i <= ancestors.len(),
            forall|j: int| 0 <= j < i ==> kind_of(#[trigger] ancestors[j]) is None,
        decreases ancestors.len() - i,
    {
        match project_kind(&ancestors[i]) {
            Some(kind) => {
                return Some((i, kind));
            },
            None => {},
        }
        i += 1;
    }
    None
}

/// The command that starts the development environment of a project.
pub open spec fn dev_plan(kind: ProjectKind) -> CommandView {
    match kind {
        ProjectKind::Fullstack => CommandView {
            program: "cargo"@,
            args: seq!["xtask"@, "dev"@],
            in_web: false,
        },
        ProjectKind::Frontend => CommandView { program: "bun"@, args: seq!["dev"@], in_web: false },
        ProjectKind::Rust => CommandView { program: "cargo"@, args: seq!["run"@], in_web: false },
    }
}

/// The commands that build a project, in their order. A project with a
/// front end and a server builds the server first and then, where it has a
/// directory `web`, the front end in it.
pub open spec fn build_plan(kind: ProjectKind, has_web_dir: bool) -> Seq<CommandView> {
    match kind {
        ProjectKind::Fullstack => if has_web_dir {
            seq![
                CommandView {
                    program: "cargo"@,
                    args: seq!["build"@, "--release"@],
                    in_web: false,
                },
                CommandView { program: "bun"@, args: seq!["run"@, "build"@], in_web: true },
            ]
        } else {
            seq![
                CommandView {
                    program: "cargo"@,
                    args: seq!["build"@, "--release"@],
                    in_web: false,
                },
            ]
        },
        ProjectKind::Frontend => seq![
            CommandView { program: "bun"@, args: seq!["run"@, "build"@], in_web: false },
        ],
        ProjectKind::Rust => seq![
            CommandView { program: "cargo"@, args: seq!["build"@, "--release"@], in_web: false },
        ],
    }
}

/// A command at the root of the project, or in its directory `web`.
fn command(program: &'static str, args: Vec<&'static str>, in_web: bool) -> (line: CommandLine)
    ensures
        line@ == (CommandView { program: program@, args: args@.map_values(|a: &str| a@), in_web }),
{
    CommandLine { program, args, in_web }
}

/// The command that starts the development environment of a project.
pub fn dev_command(kind: ProjectKind) -> (line: CommandLine)
    ensures
        line@ == dev_plan(kind),
{
    let line = match kind {
        ProjectKind::Fullstack => command("cargo", vec!["xtask", "dev"], false),
        ProjectKind::Frontend => command("bun", vec!["dev"], false),
        ProjectKind::Rust => command("cargo", vec!["run"], false),
    };
    assert(line@.args =~= dev_plan(kind).args);
    line
}

/// The commands that build a project, in their order.
pub fn build_commands(kind: ProjectKind, has_web_dir: bool) -> (lines: Vec<CommandLine>)
    ensures
        commands_view(lines@) == build_plan(kind, has_web_dir),
{
    let mut lines: Vec<CommandLine> = Vec::new();
    match kind {
        ProjectKind::Fullstack => {
            let server = command("cargo", vec!["build", "--release"], false);
            assert(server@.args =~= seq!["build"@, "--release"@]);
            lines.push(server);
            if has_web_dir {
                let web = command("bun", vec!["run", "build"], true);
                assert(web@.args =~= seq!["run"@, "build"@]);
                lines.push(web);
            }
        },
        ProjectKind::Frontend => {
            let web = command("bun", vec!["run", "build"], false);
            assert(web@.args =~= seq!["run"@, "build"@]);
            lines.push(web);
        },
        ProjectKind::Rust => {
            let server = command("cargo", vec!["build", "--release"], false);
            assert(server@.args =~= seq!["build"@, "--release"@]);
            lines.push(server);
        },
    }
    assert(commands_view(lines@) =~= build_plan(kind, has_web_dir));
    lines
}

} // verus!
