//! The application template for Next.js.
//!
//! This template ships without the dependencies of its features, so its
//! manifest is edited the other way round: the entries of the features that
//! are switched on are put in, with fixed versions.

use vstd::prelude::*;
use crate::features::{only_if, rules_view};
use crate::manifest::{
    has_section, manifest_text, parsed_manifest, triples_view, with_entries, Manifest,
    ManifestError, ManifestFailure,
};
use crate::scaffold::{
    agrees, manifest_path, read_text, store_text, text_at, with_text, Found, Lookup, ScaffoldError,
    ScaffoldFailure,
};
use crate::template::{copied, copy_template, sources_view, OutputEntry, SourceEntry, TreeView};

verus! {

/// The paths of the documentation.
pub open spec fn docs_rules() -> Seq<Seq<char>> {
    seq!["app/docs"@, "content/docs"@, "lib/docs.ts"@]
}

/// The paths of authentication.
pub open spec fn auth_rules() -> Seq<Seq<char>> {
    seq![
        "auth.ts"@,
        "auth.config.ts"@,
        "app/api/auth"@,
        "components/session-provider.tsx"@,
        "types/next-auth.d.ts"@,
    ]
}

/// The paths of the database.
pub open spec fn db_rules() -> Seq<Seq<char>> {
    seq!["lib/db.ts"@]
}

/// The skip rules: those of the docs, then of authentication, then of the
/// database, each only where it is switched off.
pub open spec fn files_to_skip(include_docs: bool, include_auth: bool, include_db: bool) -> Seq<
    Seq<char>,
> {
    only_if(!include_docs, docs_rules()) + only_if(!include_auth, auth_rules()) + only_if(
        !include_db,
        db_rules(),
    )
}

/// The dependencies of the documentation, each as a section, a package and
/// a version.
pub open spec fn docs_additions() -> Seq<(Seq<char>, Seq<char>, Seq<char>)> {
    seq![
        ("dependencies"@, "@thesandybridge/ui"@, "^1.0.0"@),
        ("dependencies"@, "gray-matter"@, "^4.0.3"@),
    ]
}

/// The dependencies of authentication.
pub open spec fn auth_additions() -> Seq<(Seq<char>, Seq<char>, Seq<char>)> {
    seq![
        ("dependencies"@, "next-auth"@, "^5.0.0-beta.25"@),
        ("dependencies"@, "@auth/core"@, "^0.37.4"@),
        ("dependencies"@, "jose"@, "^6.0.11"@),
    ]
}

/// The dependencies of the database.
pub open spec fn db_additions() -> Seq<(Seq<char>, Seq<char>, Seq<char>)> {
    seq![("dependencies"@, "pg"@, "^8.14.1"@), ("devDependencies"@, "@types/pg"@, "^8.11.11"@)]
}

/// What is put into the manifest: the dependencies of the docs, then of
/// authentication, then of the database, each only where it is switched on.
pub open spec fn manifest_additions(
    include_docs: bool,
    include_auth: bool,
    include_db: bool,
) -> Seq<(Seq<char>, Seq<char>, Seq<char>)> {
    only_if(include_docs, docs_additions()) + only_if(include_auth, auth_additions()) + only_if(
        include_db,
        db_additions(),
    )
}

/// The text of the manifest `text` with the dependencies of the features
/// that are switched on. A section that receives an entry is created where
/// it is missing. A member `dependencies` that is not an object is a
/// failure, whatever is switched on.
pub open spec fn extended(
    text: Seq<char>,
    include_docs: bool,
    include_auth: bool,
    include_db: bool,
) -> Result<Seq<char>, ManifestFailure> {
    match parsed_manifest(text) {
        Ok(doc) => if doc.contains_key("dependencies"@) && !has_section(doc, "dependencies"@) {
            Err(ManifestFailure::NotASection)
        } else {
            match with_entries(doc, manifest_additions(include_docs, include_auth, include_db)) {
                Ok(full) => Ok(manifest_text(full)),
                Err(failure) => Err(failure),
            }
        },
        Err(failure) => Err(failure),
    }
}

/// The path prefixes that are left out of the output.
pub fn get_files_to_skip(include_docs: bool, include_auth: bool, include_db: bool) -> (skip: Vec<
    &'static str,
>)
    ensures
        rules_view(skip@) == files_to_skip(include_docs, include_auth, include_db),
{
    let mut skip: Vec<&'static str> = Vec::new();
    if !include_docs {
        skip.push("app/docs");
        skip.push("content/docs");
        skip.push("lib/docs.ts");
    }
    if !include_auth {
        skip.push("auth.ts");
        skip.push("auth.config.ts");
        skip.push("app/api/auth");
        skip.push("components/session-provider.tsx");
        skip.push("types/next-auth.d.ts");
    }
    if !include_db {
        skip.push("lib/db.ts");
    }
    assert(rules_view(skip@) =~= files_to_skip(include_docs, include_auth, include_db));
    skip
}

/// What is put into the manifest.
pub fn additions(include_docs: bool, include_auth: bool, include_db: bool) -> (out: Vec<
    (&'static str, &'static str, &'static str),
>)
    ensures
        triples_view(out@) == manifest_additions(include_docs, include_auth, include_db),
{
    let mut out: Vec<(&'static str, &'static str, &'static str)> = Vec::new();
    if include_docs {
        out.push(("dependencies", "@thesandybridge/ui", "^1.0.0"));
        out.push(("dependencies", "gray-matter", "^4.0.3"));
    }
    if include_auth {
        out.push(("dependencies", "next-auth", "^5.0.0-beta.25"));
        out.push(("dependencies", "@auth/core", "^0.37.4"));
        out.push(("dependencies", "jose", "^6.0.11"));
    }
    if include_db {
        out.push(("dependencies", "pg", "^8.14.1"));
        out.push(("devDependencies", "@types/pg", "^8.11.11"));
    }
    assert(triples_view(out@) =~= manifest_additions(include_docs, include_auth, include_db));
    out
}

/// The text of the manifest with the dependencies of the features that are
/// switched on. A section that receives an entry is created where it is
/// missing. It fails for a text that is not a JSON object, for a member
/// `dependencies` that is not an object and, with the database, for a member
/// `devDependencies` that is not one; it fails for no other text.
pub fn update_package_json(
    content: &str,
    include_docs: bool,
    include_auth: bool,
    include_db: bool,
) -> (res: Result<String, ManifestError>)
    ensures
        match res {
            Ok(text) => extended(content@, include_docs, include_auth, include_db) == Ok::<
                _,
                ManifestFailure,
            >(text@),
            Err(error) => extended(content@, include_docs, include_auth, include_db) == Err::<
                Seq<char>,
                _,
            >(error.failure()),
        },
{
    let mut manifest = match Manifest::parse(content) {
        Err(error) => {
            return Err(error);
        },
        Ok(manifest) => manifest,
    };
    if !manifest.allows_section("dependencies") {
        return Err(ManifestError::NotASection);
    }
    let out = additions(include_docs, include_auth, include_db);
    match manifest.insert_entries(out.as_slice()) {
        Err(error) => {
            return Err(error);
        },
        Ok(_) => {},
    }
    Ok(manifest.into_text())
}

/// The tree of a project.
pub open spec fn scaffolded(
    template: TreeView,
    project_name: Seq<char>,
    include_docs: bool,
    include_auth: bool,
    include_db: bool,
) -> Result<TreeView, ScaffoldFailure> {
    let tree = copied(
        template,
        project_name,
        files_to_skip(include_docs, include_auth, include_db),
    );
    match text_at(tree, manifest_path()) {
        Lookup::Missing => Err(ScaffoldFailure::MissingManifest),
        Lookup::NotText => Err(ScaffoldFailure::UnreadableManifest),
        Lookup::Text { at, text } => match extended(text, include_docs, include_auth, include_db) {
            Ok(new_text) => Ok(with_text(tree, at, new_text)),
            Err(failure) => Err(ScaffoldFailure::Manifest(failure)),
        },
    }
}

/// The tree of a project: the template is copied under the skip rules, and
/// the manifest of the copy receives the dependencies of the features that
/// are switched on.
pub fn scaffold(
    template: &[SourceEntry],
    project_name: &str,
    include_docs: bool,
    include_auth: bool,
    include_db: bool,
) -> (res: Result<Vec<OutputEntry>, ScaffoldError>)
    ensures
        agrees(
            res,
            scaffolded(
                sources_view(template@),
                project_name@,
                include_docs,
                include_auth,
                include_db,
            ),
        ),
{
    let skip = get_files_to_skip(include_docs, include_auth, include_db);
    let mut tree = copy_template(template, project_name, skip.as_slice());
    match read_text(&tree, "package.json") {
        Found::Missing => Err(ScaffoldError::MissingManifest),
        Found::NotText => Err(ScaffoldError::UnreadableManifest),
        Found::Text(at, text) => match update_package_json(
            text.as_str(),
            include_docs,
            include_auth,
            include_db,
        ) {
            Err(error) => Err(ScaffoldError::Manifest(error)),
            Ok(new_text) => {
                store_text(&mut tree, at, new_text.as_str());
                Ok(tree)
            },
        },
    }
}

} // verus!
