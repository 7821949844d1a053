//! What the command line asks for, and what it falls back to.

use vstd::prelude::*;
use crate::text::str_eq;
use crate::ui::ProjectType;

verus! {

/// The repository of the template for a kind of project, by the kind's name.
/// A library has a template of its own. A project with a server is generated
/// from the application's template, and so is every kind that has no name
/// here.
pub open spec fn template_url(project_type: Seq<char>) -> Seq<char> {
    if project_type == "lib"@ {
        "https://github.com/nullslate/lib-template.git"@
    } else if project_type == "fullstack"@ {
        "https://github.com/nullslate/app-template.git"@
    } else {
        "https://github.com/nullslate/app-template.git"@
    }
}

impl ProjectType {
    /// The name of the kind on the command line.
    pub open spec fn name(self) -> Seq<char> {
        match self {
            ProjectType::App => "app"@,
            ProjectType::Fullstack => "fullstack"@,
            ProjectType::Lib => "lib"@,
        }
    }

    /// The name of the kind on the command line.
    pub fn as_str(self) -> (name: &'static str)
        ensures
            name@ == self.name(),
    {
        match self {
            ProjectType::App => "app",
            ProjectType::Fullstack => "fullstack",
            ProjectType::Lib => "lib",
        }
    }
}

/// The kind of project that the command line asks for: a library where
/// `lib` is set, else a project with a server where `fullstack` is set, else
/// the kind that `project_type` names, an application where it names none.
pub open spec fn project_type_asked(
    project_type: Seq<char>,
    lib: bool,
    fullstack: bool,
) -> ProjectType {
    if lib || (!fullstack && project_type == "lib"@) {
        ProjectType::Lib
    } else if fullstack || project_type == "fullstack"@ {
        ProjectType::Fullstack
    } else {
        ProjectType::App
    }
}

/// The kind of project that the command line asks for.
pub fn project_type_of(project_type: &str, lib: bool, fullstack: bool) -> (kind: ProjectType)
    ensures
        kind == project_type_asked(project_type@, lib, fullstack),
{
    if lib {
        ProjectType::Lib
    } else if fullstack {
        ProjectType::Fullstack
    } else if str_eq(project_type, "lib") {
        ProjectType::Lib
    } else if str_eq(project_type, "fullstack") {
        ProjectType::Fullstack
    } else {
        ProjectType::App
    }
}

/// Whether the command line asks for a database: every value of `db` but
/// `none` does.
pub fn wants_database(db: &str) -> (wanted: bool)
    ensures
        wanted == (db@ != "none"@),
{
    !str_eq(db, "none")
}

/// The repository of the template for a kind of project.
pub fn default_template_url(project_type: &str) -> (url: &'static str)
    ensures
        url@ == template_url(project_type@),
{
    if str_eq(project_type, "lib") {
        "https://github.com/nullslate/lib-template.git"
    } else if str_eq(project_type, "fullstack") {
        "https://github.com/nullslate/app-template.git"
    } else {
        "https://github.com/nullslate/app-template.git"
    }
}

/// What `init` is asked for.
#[derive(Clone, Debug, PartialEq, Eq)]
pub struct InitArgs {
    /// Name of the project to create
    pub name: Option<String>,
    /// Include MDX documentation system
    pub docs: bool,
    /// Skip Auth.js authentication setup
    pub no_auth: bool,
    /// Database type: postgres or none
    pub db: String,
    /// Output directory (default: `./<project-name>`)
    pub path: Option<String>,
    /// Skip git initialization
    pub no_git: bool,
    /// Skip npm install
    pub no_install: bool,
    /// Custom template repository URL
    pub template: Option<String>,
    /// Project type: app or lib
    pub project_type: String,
    /// Shorthand for `--project-type lib`
    pub lib: bool,
    /// Shorthand for `--project-type fullstack`
    pub fullstack: bool,
    /// Language: typescript or javascript (lib only)
    pub lang: String,
    /// Include React support (lib only)
    pub react: bool,
    /// Include Tailwind CSS (lib only)
    pub css: bool,
    /// Include Vitest testing (lib only)
    pub testing: bool,
    /// Accept all defaults without prompting
    pub yes: bool,
}

/// What the program is asked to do.
#[derive(Clone, Debug, PartialEq, Eq)]
pub enum Commands {
    /// Scaffold a new project
    Init(InitArgs),
    /// Start the dev environment (auto-detects project type)
    Dev,
    /// Build the project (auto-detects project type)
    Build,
}

/// The command line.
#[derive(Clone, Debug, PartialEq, Eq)]
pub struct Cli {
    pub command: Commands,
}

impl InitArgs {
    /// The kind of project that is asked for.
    pub open spec fn kind_asked(&self) -> ProjectType {
        project_type_asked(self.project_type@, self.lib, self.fullstack)
    }

    /// The repository of the template: the one that is given, else the one
    /// of the kind of project that is asked for.
    pub open spec fn url_asked(&self) -> Seq<char> {
        match self.template {
            Some(url) => url@,
            None => template_url(self.kind_asked().name()),
        }
    }

    /// The directory of the project: the one that is given, else one that is
    /// named like the project.
    pub open spec fn path_asked(&self, project_name: Seq<char>) -> Seq<char> {
        match self.path {
            Some(path) => path@,
            None => project_name,
        }
    }

    /// The kind of project that is asked for.
    pub fn kind(&self) -> (kind: ProjectType)
        ensures
            kind == self.kind_asked(),
    {
        project_type_of(self.project_type.as_str(), self.lib, self.fullstack)
    }

    /// The repository of the template.
    pub fn template_url(&self) -> (url: String)
        ensures
            url@ == self.url_asked(),
    {
        match &self.template {
            Some(url) => url.clone(),
            None => default_template_url(self.kind().as_str()).to_owned(),
        }
    }

    /// The directory of the project named `project_name`.
    pub fn output_path(&self, project_name: &str) -> (path: String)
        ensures
            path@ == self.path_asked(project_name@),
    {
        match &self.path {
            Some(path) => path.clone(),
            None => project_name.to_owned(),
        }
    }

    /// Whether authentication is asked for: it is unless it is switched off.
    pub fn include_auth(&self) -> (included: bool)
        ensures
            included == !self.no_auth,
    {
        !self.no_auth
    }

    /// Whether a database is asked for.
    pub fn include_db(&self) -> (included: bool)
        ensures
            included == (self.db@ != "none"@),
    {
        wants_database(self.db.as_str())
    }
}

} // verus!
