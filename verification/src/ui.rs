//! What the user can choose, and what the user is told.

use vstd::prelude::*;

verus! {

/// Whether the regular expression that `regex::Regex::new` compiles from
/// `pattern` matches somewhere in `text`; nothing where `pattern` is not
/// accepted.
pub uninterp spec fn regex_search(pattern: Seq<char>, text: Seq<char>) -> Option<bool>;

/// Compiles `pattern` with `regex::Regex::new` and asks `Regex::is_match`
/// whether the regular expression matches anywhere in `text`. The answer
/// depends on the pattern and the text alone.
#[verifier::external_body]
fn is_match(pattern: &str, text: &str) -> (found: Option<bool>)
    ensures
        found == regex_search(pattern@, text@),
{
    match regex::Regex::new(pattern) {
        Ok(regex) => Some(regex.is_match(text)),
        Err(_) => None,
    }
}

/// An optional part of an application.
#[derive(Clone, Copy, PartialEq, Eq, Debug, Structural)]
pub enum Feature {
    Auth,
    Docs,
    Db,
}

/// What is being built.
#[derive(Clone, Copy, PartialEq, Eq, Debug, Structural)]
pub enum ProjectType {
    App,
    Fullstack,
    Lib,
}

/// An optional part of a library.
#[derive(Clone, Copy, PartialEq, Eq, Debug, Structural)]
pub enum LibFeature {
    React,
    Css,
    Testing,
}

/// The language of a library.
#[derive(Clone, Copy, PartialEq, Eq, Debug, Structural)]
pub enum Language {
    TypeScript,
    JavaScript,
}

/// The pattern of a project's name: lower-case letters, digits and hyphens,
/// with no hyphen at either end.
pub open spec fn name_pattern() -> Seq<char> {
    "^[a-z0-9][a-z0-9-]*[a-z0-9]$|^[a-z0-9]$"@
}

/// Whether `name` can be the name of a project: whether the pattern of
/// names, as a regular expression, matches it.
pub open spec fn is_valid_name(name: Seq<char>) -> bool {
    regex_search(name_pattern(), name) == Some(true)
}

/// Whether `name` can be the name of a project.
pub fn is_valid_project_name(name: &str) -> (valid: bool)
    ensures
        valid == is_valid_name(name@),
{
    match is_match("^[a-z0-9][a-z0-9-]*[a-z0-9]$|^[a-z0-9]$", name) {
        Some(found) => found,
        None => false,
    }
}

/// The step that installs the dependencies, where they were not installed.
pub open spec fn install_step(no_install: bool) -> Seq<char> {
    if no_install {
        "\n    bun install"@
    } else {
        Seq::empty()
    }
}

/// What is said when an application has been created.
pub open spec fn success_text(
    project_name: Seq<char>,
    output_path: Seq<char>,
    no_install: bool,
) -> Seq<char> {
    "Created "@ + project_name + " at "@ + output_path + "\n\n  Next steps:\n    "@ + "cd "@
        + project_name + install_step(no_install) + "\n    bun dev"@
}

/// What is said when a project with a front end and a server has been created.
pub open spec fn success_text_fullstack(project_name: Seq<char>, output_path: Seq<char>) -> Seq<
    char,
> {
    "Created "@ + project_name + " at "@ + output_path + "\n\n  Next steps:\n    cd "@
        + project_name + "\n    ns dev"@
}

/// What is said when a library has been created.
pub open spec fn success_text_lib(
    project_name: Seq<char>,
    output_path: Seq<char>,
    no_install: bool,
) -> Seq<char> {
    "Created "@ + project_name + " at "@ + output_path + "\n\n  Next steps:\n    "@ + "cd "@
        + project_name + install_step(no_install) + "\n    bun run build"@
}

/// The start of every message: what was created, where, and how to go there.
fn created(project_name: &str, output_path: &str) -> (message: String)
    ensures
        message@ == "Created "@ + project_name@ + " at "@ + output_path@
            + "\n\n  Next steps:\n    "@ + "cd "@ + project_name@,
{
    let mut message = String::new();
    message.append("Created ");
    message.append(project_name);
    message.append(" at ");
    message.append(output_path);
    message.append("\n\n  Next steps:\n    ");
    message.append("cd ");
    message.append(project_name);
    assert(message@ =~= "Created "@ + project_name@ + " at "@ + output_path@
        + "\n\n  Next steps:\n    "@ + "cd "@ + project_name@);
    message
}

/// What is said when an application has been created.
pub fn success_message(project_name: &str, output_path: &str, no_install: bool) -> (message: String)
    ensures
        message@ == success_text(project_name@, output_path@, no_install),
{
    let mut message = created(project_name, output_path);
    if no_install {
        message.append("\n    bun install");
    }
    message.append("\n    bun dev");
    assert(message@ =~= success_text(project_name@, output_path@, no_install));
    message
}

/// What is said when a project with a front end and a server has been created.
pub fn success_message_fullstack(project_name: &str, output_path: &str) -> (message: String)
    ensures
        message@ == success_text_fullstack(project_name@, output_path@),
{
    let mut message = String::new();
    message.append("Created ");
    message.append(project_name);
    message.append(" at ");
    message.append(output_path);
    message.append("\n\n  Next steps:\n    cd ");
    message.append(project_name);
    message.append("\n    ns dev");
    assert(message@ =~= success_text_fullstack(project_name@, output_path@));
    message
}

/// What is said when a library has been created.
pub fn success_message_lib(project_name: &str, output_path: &str, no_install: bool) -> (message:
    String)
    ensures
        message@ == success_text_lib(project_name@, output_path@, no_install),
{
    let mut message = created(project_name, output_path);
    if no_install {
        message.append("\n    bun install");
    }
    message.append("\n    bun run build");
    assert(message@ =~= success_text_lib(project_name@, output_path@, no_install));
    message
}

} // verus!
