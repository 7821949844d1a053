//! From a template tree to the tree of a project.
//!
//! The steps follow each other once: the template is copied under the skip
//! rules of the features that are switched off, the manifest of the copy is
//! edited, and then, for an application, either the session provider leaves
//! the root layout (without authentication) or an environment file with a
//! secret is added (with it).

use vstd::prelude::*;
use vstd::utf8::*;
use crate::features::{
    app_removals, files_to_skip, get_files_to_skip, get_lib_files_to_skip, lib_files_to_skip,
    lib_manifest_removals, lib_removals, manifest_removals,
};
use crate::layout::{cleanup_layout_for_no_auth, without_session_provider};
use crate::secret::{env_file, env_text, generate_random_secret, is_secret};
use crate::manifest::{
    edit_manifest, edited, manifest_text, pairs_view, parsed_manifest, without_entries,
    ManifestError, ManifestFailure,
};
use crate::template::{
    copied, copy_template, outputs_view, sources_view, utf8_text, EntryView, OutputEntry,
    SourceEntry, TreeView,
};
use crate::text::{first_index, lemma_first_index, lemma_first_index_is_first, str_eq};

verus! {

/// What can be wrong with a template.
#[derive(Clone, Copy, Debug, PartialEq, Eq)]
pub enum ScaffoldFailure {
    /// The copy holds no manifest.
    MissingManifest,
    /// The manifest is a directory, or is not text.
    UnreadableManifest,
    /// The manifest cannot be edited.
    Manifest(ManifestFailure),
    /// The root layout is a directory, or is not text.
    UnreadableLayout,
}

/// Why a project could not be generated.
#[derive(Debug)]
pub enum ScaffoldError {
    /// The copy holds no manifest.
    MissingManifest,
    /// The manifest is a directory, or is not text.
    UnreadableManifest,
    /// The manifest could not be edited.
    Manifest(ManifestError),
    /// The root layout is a directory, or is not text.
    UnreadableLayout,
}

impl ScaffoldError {
    /// What was wrong with the template.
    pub open spec fn failure(self) -> ScaffoldFailure {
        match self {
            ScaffoldError::MissingManifest => ScaffoldFailure::MissingManifest,
            ScaffoldError::UnreadableManifest => ScaffoldFailure::UnreadableManifest,
            ScaffoldError::Manifest(error) => ScaffoldFailure::Manifest(error.failure()),
            ScaffoldError::UnreadableLayout => ScaffoldFailure::UnreadableLayout,
        }
    }
}

/// Whether a result is the one that was expected: the same tree, or an error
/// for the same failure.
pub open spec fn agrees(
    res: Result<Vec<OutputEntry>, ScaffoldError>,
    expected: Result<TreeView, ScaffoldFailure>,
) -> bool {
    match res {
        Ok(tree) => expected == Ok::<_, ScaffoldFailure>(outputs_view(tree@)),
        Err(error) => expected == Err::<TreeView, _>(error.failure()),
    }
}

/// The path of the manifest.
pub open spec fn manifest_path() -> Seq<char> {
    "package.json"@
}

/// The path of the root layout.
pub open spec fn layout_path() -> Seq<char> {
    "src/routes/__root.tsx"@
}

/// The path of the environment file.
pub open spec fn env_path() -> Seq<char> {
    ".env"@
}

/// The paths of the entries, in their order.
pub open spec fn entry_paths(tree: TreeView) -> Seq<Seq<char>> {
    tree.map_values(|e: EntryView| e.path)
}

/// What reading a path of a tree as text gives.
pub enum Lookup {
    /// No entry has the path.
    Missing,
    /// The first entry at the path is a directory, or is not text.
    NotText,
    /// The first entry at the path, and its text.
    Text { at: int, text: Seq<char> },
}

/// What reading `path` as text gives.
pub open spec fn text_at(tree: TreeView, path: Seq<char>) -> Lookup {
    let at = first_index(entry_paths(tree), path);
    if at >= tree.len() {
        Lookup::Missing
    } else if tree[at].is_dir || !valid_utf8(tree[at].content) {
        Lookup::NotText
    } else {
        Lookup::Text { at, text: decode_utf8(tree[at].content) }
    }
}

/// The tree with `text` as the content of the file at the position `at`.
pub open spec fn with_text(tree: TreeView, at: int, text: Seq<char>) -> TreeView {
    tree.update(at, EntryView { path: tree[at].path, is_dir: false, content: encode_utf8(text) })
}

/// The tree after `removals` have left its manifest.
pub open spec fn manifest_edited(tree: TreeView, removals: Seq<(Seq<char>, Seq<char>)>) -> Result<
    TreeView,
    ScaffoldFailure,
> {
    match text_at(tree, manifest_path()) {
        Lookup::Missing => Err(ScaffoldFailure::MissingManifest),
        Lookup::NotText => Err(ScaffoldFailure::UnreadableManifest),
        Lookup::Text { at, text } => match edited(text, removals) {
            Ok(new_text) => Ok(with_text(tree, at, new_text)),
            Err(failure) => Err(ScaffoldFailure::Manifest(failure)),
        },
    }
}

/// The tree after the session provider has left its root layout. A tree
/// without a root layout stays as it is.
pub open spec fn layout_cleaned(tree: TreeView) -> Result<TreeView, ScaffoldFailure> {
    match text_at(tree, layout_path()) {
        Lookup::Missing => Ok(tree),
        Lookup::NotText => Err(ScaffoldFailure::UnreadableLayout),
        Lookup::Text { at, text } => Ok(with_text(tree, at, without_session_provider(text))),
    }
}

/// The environment file that holds `secret`, at `path`.
pub open spec fn env_entry(path: Seq<char>, secret: Seq<char>) -> EntryView {
    EntryView { path, is_dir: false, content: encode_utf8(env_text(secret)) }
}

/// What follows the editing of an application's manifest: with
/// authentication, an environment file that holds `secret` comes last;
/// without it, the session provider leaves the root layout.
pub open spec fn finished(tree: TreeView, include_auth: bool, secret: Seq<char>) -> Result<
    TreeView,
    ScaffoldFailure,
> {
    if include_auth {
        Ok(tree.push(env_entry(env_path(), secret)))
    } else {
        layout_cleaned(tree)
    }
}

/// The tree of an application.
pub open spec fn scaffolded_app(
    template: TreeView,
    project_name: Seq<char>,
    include_docs: bool,
    include_auth: bool,
    include_db: bool,
    secret: Seq<char>,
) -> Result<TreeView, ScaffoldFailure> {
    match manifest_edited(
        copied(template, project_name, files_to_skip(include_docs, include_auth, include_db)),
        manifest_removals(include_docs, include_auth, include_db),
    ) {
        Ok(tree) => finished(tree, include_auth, secret),
        Err(failure) => Err(failure),
    }
}

/// The tree of a library.
pub open spec fn scaffolded_lib(
    template: TreeView,
    project_name: Seq<char>,
    lang: Seq<char>,
    include_react: bool,
    include_css: bool,
    include_testing: bool,
) -> Result<TreeView, ScaffoldFailure> {
    manifest_edited(
        copied(
            template,
            project_name,
            lib_files_to_skip(lang, include_react, include_css, include_testing),
        ),
        lib_manifest_removals(lang, include_react, include_css, include_testing),
    )
}

/// The position of the first entry at `path`; the number of entries where
/// there is none.
pub fn find_entry(tree: &Vec<OutputEntry>, path: &str) -> (at: usize)
    ensures
        at == first_index(entry_paths(outputs_view(tree@)), path@),
        at <= tree.len(),
{
    let mut i: usize = 0;
    while i < tree.len()
        invariant
            0 <= i <= tree.len(),
            forall|j: int| 0 <= j < i ==> tree@[j].path@ != path@,
        decreases tree.len() - i,
    {
        if str_eq(tree[i].path.as_str(), path) {
            proof {
                lemma_first_index(entry_paths(outputs_view(tree@)), path@, i as int);
            }
            return i;
        }
        i += 1;
    }
    proof {
        lemma_first_index(entry_paths(outputs_view(tree@)), path@, i as int);
    }
    i
}

/// What reading a path of a tree as text gave.
pub enum Found {
    Missing,
    NotText,
    Text(usize, String),
}

impl View for Found {
    type V = Lookup;

    open spec fn view(&self) -> Lookup {
        match self {
            Found::Missing => Lookup::Missing,
            Found::NotText => Lookup::NotText,
            Found::Text(at, text) => Lookup::Text { at: *at as int, text: text@ },
        }
    }
}

/// Reads the first entry at `path` as text.
pub fn read_text(tree: &Vec<OutputEntry>, path: &str) -> (found: Found)
    ensures
        found@ == text_at(outputs_view(tree@), path@),
{
    let at = find_entry(tree, path);
    if at == tree.len() {
        return Found::Missing;
    }
    if tree[at].is_dir {
        return Found::NotText;
    }
    match utf8_text(tree[at].content.as_slice()) {
        None => Found::NotText,
        Some(text) => {
            proof {
                encode_utf8_decode_utf8(text@);
            }
            Found::Text(at, text.to_owned())
        },
    }
}

/// Makes `text` the content of the file at the position `at`.
pub fn store_text(tree: &mut Vec<OutputEntry>, at: usize, text: &str)
    requires
        at < old(tree).len(),
    ensures
        outputs_view(final(tree)@) == with_text(outputs_view(old(tree)@), at as int, text@),
{
    let bytes = text.as_bytes_vec();
    let entry = &mut tree[at];
    entry.is_dir = false;
    entry.content = bytes;
    assert(outputs_view(tree@) =~= with_text(outputs_view(old(tree)@), at as int, text@));
}

/// Takes `removals` out of the manifest of the tree. Where that fails the
/// tree stays as it is.
pub fn rewrite_manifest(tree: &mut Vec<OutputEntry>, removals: &[(&str, &str)]) -> (res: Result<
    (),
    ScaffoldError,
>)
    ensures
        match res {
            Ok(_) => manifest_edited(outputs_view(old(tree)@), pairs_view(removals@)) == Ok::<
                _,
                ScaffoldFailure,
            >(outputs_view(final(tree)@)),
            Err(error) => final(tree)@ == old(tree)@ && manifest_edited(
                outputs_view(old(tree)@),
                pairs_view(removals@),
            ) == Err::<TreeView, _>(error.failure()),
        },
{
    match read_text(tree, "package.json") {
        Found::Missing => Err(ScaffoldError::MissingManifest),
        Found::NotText => Err(ScaffoldError::UnreadableManifest),
        Found::Text(at, text) => match edit_manifest(text.as_str(), removals) {
            Err(error) => Err(ScaffoldError::Manifest(error)),
            Ok(new_text) => {
                store_text(tree, at, new_text.as_str());
                Ok(())
            },
        },
    }
}

/// Takes the session provider out of the root layout of the tree. A tree
/// without a root layout stays as it is, and so does one whose root layout
/// cannot be read.
pub fn rewrite_layout(tree: &mut Vec<OutputEntry>) -> (res: Result<(), ScaffoldError>)
    ensures
        match res {
            Ok(_) => layout_cleaned(outputs_view(old(tree)@)) == Ok::<_, ScaffoldFailure>(
                outputs_view(final(tree)@),
            ),
            Err(error) => final(tree)@ == old(tree)@ && error is UnreadableLayout && layout_cleaned(
                outputs_view(old(tree)@),
            ) == Err::<TreeView, _>(ScaffoldFailure::UnreadableLayout),
        },
{
    match read_text(tree, "src/routes/__root.tsx") {
        Found::Missing => Ok(()),
        Found::NotText => Err(ScaffoldError::UnreadableLayout),
        Found::Text(at, text) => {
            let cleaned = cleanup_layout_for_no_auth(text.as_str());
            store_text(tree, at, cleaned.as_str());
            Ok(())
        },
    }
}

/// Adds the environment file that holds `secret`, at `path`, behind the
/// other entries.
pub fn push_env_file(tree: &mut Vec<OutputEntry>, path: &str, secret: &str)
    ensures
        outputs_view(final(tree)@) == outputs_view(old(tree)@).push(env_entry(path@, secret@)),
{
    let content = env_file(secret);
    let entry = OutputEntry {
        path: path.to_owned(),
        is_dir: false,
        content: content.as_str().as_bytes_vec(),
    };
    tree.push(entry);
    assert(outputs_view(tree@) =~= outputs_view(old(tree)@).push(env_entry(path@, secret@)));
}

/// The tree of an application whose environment file, if it has one, holds
/// `secret`.
pub fn scaffold_app_with(
    template: &[SourceEntry],
    project_name: &str,
    include_docs: bool,
    include_auth: bool,
    include_db: bool,
    secret: &str,
) -> (res: Result<Vec<OutputEntry>, ScaffoldError>)
    ensures
        agrees(
            res,
            scaffolded_app(
                sources_view(template@),
                project_name@,
                include_docs,
                include_auth,
                include_db,
                secret@,
            ),
        ),
{
    let skip = get_files_to_skip(include_docs, include_auth, include_db);
    let mut tree = copy_template(template, project_name, skip.as_slice());
    let out = app_removals(include_docs, include_auth, include_db);
    match rewrite_manifest(&mut tree, out.as_slice()) {
        Err(error) => Err(error),
        Ok(_) => {
            if include_auth {
                push_env_file(&mut tree, ".env", secret);
                Ok(tree)
            } else {
                match rewrite_layout(&mut tree) {
                    Err(error) => Err(error),
                    Ok(_) => Ok(tree),
                }
            }
        },
    }
}

/// The tree of an application. With authentication its environment file
/// holds a fresh secret; without it no secret is made. Whether it succeeds
/// does not depend on the secret.
pub fn scaffold_app(
    template: &[SourceEntry],
    project_name: &str,
    include_docs: bool,
    include_auth: bool,
    include_db: bool,
) -> (res: Result<Vec<OutputEntry>, ScaffoldError>)
    ensures
        exists|secret: Seq<char>|
            (include_auth ==> is_secret(secret)) && agrees(
                res,
                #[trigger] scaffolded_app(
                    sources_view(template@),
                    project_name@,
                    include_docs,
                    include_auth,
                    include_db,
                    secret,
                ),
            ),
        forall|secret: Seq<char>|
            (#[trigger] scaffolded_app(
                sources_view(template@),
                project_name@,
                include_docs,
                include_auth,
                include_db,
                secret,
            )) is Ok ==> res is Ok,
{
    let secret = if include_auth {
        generate_random_secret()
    } else {
        String::new()
    };
    let res = scaffold_app_with(
        template,
        project_name,
        include_docs,
        include_auth,
        include_db,
        secret.as_str(),
    );
    assert(agrees(
        res,
        scaffolded_app(
            sources_view(template@),
            project_name@,
            include_docs,
            include_auth,
            include_db,
            secret@,
        ),
    ));
    res
}

/// The tree of a library.
pub fn scaffold_lib(
    template: &[SourceEntry],
    project_name: &str,
    lang: &str,
    include_react: bool,
    include_css: bool,
    include_testing: bool,
) -> (res: Result<Vec<OutputEntry>, ScaffoldError>)
    ensures
        agrees(
            res,
            scaffolded_lib(
                sources_view(template@),
                project_name@,
                lang@,
                include_react,
                include_css,
                include_testing,
            ),
        ),
{
    let skip = get_lib_files_to_skip(lang, include_react, include_css, include_testing);
    let mut tree = copy_template(template, project_name, skip.as_slice());
    let out = lib_removals(lang, include_react, include_css, include_testing);
    match rewrite_manifest(&mut tree, out.as_slice()) {
        Err(error) => Err(error),
        Ok(_) => Ok(tree),
    }
}

// ---------------------------------------------------------------------------
// What holds of the tree of an application
// ---------------------------------------------------------------------------

/// Putting a text into a file leaves every path where it is.
pub proof fn lemma_with_text_keeps_the_paths(tree: TreeView, at: int, text: Seq<char>)
    requires
        0 <= at < tree.len(),
    ensures
        entry_paths(with_text(tree, at, text)) == entry_paths(tree),
{
    assert(entry_paths(with_text(tree, at, text)) =~= entry_paths(tree));
}

/// Editing the manifest of a tree, and taking the session provider out of
/// its root layout, leave every path where it is.
pub proof fn lemma_steps_keep_the_paths(tree: TreeView, removals: Seq<(Seq<char>, Seq<char>)>)
    ensures
        manifest_edited(tree, removals) matches Ok(edited_tree) ==> entry_paths(edited_tree)
            == entry_paths(tree),
        layout_cleaned(tree) matches Ok(cleaned) ==> entry_paths(cleaned) == entry_paths(tree),
{
    lemma_first_index_is_first(entry_paths(tree), manifest_path());
    lemma_first_index_is_first(entry_paths(tree), layout_path());
    match text_at(tree, manifest_path()) {
        Lookup::Text { at, text } => {
            if let Ok(new_text) = edited(text, removals) {
                lemma_with_text_keeps_the_paths(tree, at, new_text);
            }
        },
        _ => {},
    }
    match text_at(tree, layout_path()) {
        Lookup::Text { at, text } => {
            lemma_with_text_keeps_the_paths(tree, at, without_session_provider(text));
        },
        _ => {},
    }
}

/// Without authentication the tree of an application holds what was copied
/// from the template and nothing else: every path of the copy, in the same
/// order, and no environment file that the template did not hold.
pub proof fn law_without_authentication_nothing_is_added(
    template: TreeView,
    project_name: Seq<char>,
    include_docs: bool,
    include_db: bool,
    secret: Seq<char>,
)
    ensures
        scaffolded_app(template, project_name, include_docs, false, include_db, secret) matches Ok(
            tree,
        ) ==> entry_paths(tree) == entry_paths(
            copied(template, project_name, files_to_skip(include_docs, false, include_db)),
        ),
{
    let copy = copied(template, project_name, files_to_skip(include_docs, false, include_db));
    let removals = manifest_removals(include_docs, false, include_db);
    lemma_steps_keep_the_paths(copy, removals);
    if let Ok(edited_tree) = manifest_edited(copy, removals) {
        lemma_steps_keep_the_paths(edited_tree, removals);
    }
}

/// With authentication the tree of an application holds what was copied from
/// the template and, behind it, the environment file with the secret.
pub proof fn law_with_authentication_the_environment_file_is_last(
    template: TreeView,
    project_name: Seq<char>,
    include_docs: bool,
    include_db: bool,
    secret: Seq<char>,
)
    ensures
        scaffolded_app(template, project_name, include_docs, true, include_db, secret) matches Ok(
            tree,
        ) ==> tree.len() > 0 && tree.last() == env_entry(env_path(), secret) && entry_paths(
            tree.drop_last(),
        ) == entry_paths(
            copied(template, project_name, files_to_skip(include_docs, true, include_db)),
        ),
{
    let copy = copied(template, project_name, files_to_skip(include_docs, true, include_db));
    let removals = manifest_removals(include_docs, true, include_db);
    lemma_steps_keep_the_paths(copy, removals);
    if let Ok(edited_tree) = manifest_edited(copy, removals) {
        assert(edited_tree.push(env_entry(env_path(), secret)).drop_last() =~= edited_tree);
    }
}

/// The manifest of an application is the manifest of the template, with the
/// project's name in it, after the entries of the features that are switched
/// off have left it.
pub proof fn law_manifest_of_an_application(
    template: TreeView,
    project_name: Seq<char>,
    include_docs: bool,
    include_auth: bool,
    include_db: bool,
    secret: Seq<char>,
)
    ensures
        scaffolded_app(
            template,
            project_name,
            include_docs,
            include_auth,
            include_db,
            secret,
        ) matches Ok(tree) ==> {
            let copy = copied(
                template,
                project_name,
                files_to_skip(include_docs, include_auth, include_db),
            );
            &&& text_at(copy, manifest_path()) matches Lookup::Text { at, text }
            &&& parsed_manifest(text) matches Ok(doc)
            &&& at < tree.len()
            &&& tree[at].path == manifest_path()
            &&& tree[at].content == encode_utf8(
                manifest_text(
                    without_entries(doc, manifest_removals(include_docs, include_auth, include_db)),
                ),
            )
        },
{
    let copy = copied(
        template,
        project_name,
        files_to_skip(include_docs, include_auth, include_db),
    );
    let removals = manifest_removals(include_docs, include_auth, include_db);
    lemma_first_index_is_first(entry_paths(copy), manifest_path());
    if let Ok(edited_tree) = manifest_edited(copy, removals) {
        let at = first_index(entry_paths(copy), manifest_path());
        assert(edited_tree[at].path == manifest_path());
        if !include_auth {
            lemma_first_index_is_first(entry_paths(edited_tree), layout_path());
            reveal_strlit("package.json");
            reveal_strlit("src/routes/__root.tsx");
            assert(manifest_path().len() != layout_path().len());
        }
    }
}

/// Whether the manifest of a tree can be read and is a JSON object.
pub open spec fn has_a_manifest(tree: TreeView) -> bool {
    text_at(tree, manifest_path()) matches Lookup::Text { at, text } && parsed_manifest(text) is Ok
}

/// Whether the root layout of a tree, if it has one, can be read as text.
pub open spec fn has_no_unreadable_layout(tree: TreeView) -> bool {
    !(text_at(tree, layout_path()) is NotText)
}

/// Editing the manifest of a tree succeeds exactly where the tree has a
/// manifest that is a JSON object, and it leaves the root layout as it is.
pub proof fn lemma_manifest_step(tree: TreeView, removals: Seq<(Seq<char>, Seq<char>)>)
    ensures
        manifest_edited(tree, removals) is Ok <==> has_a_manifest(tree),
        manifest_edited(tree, removals) matches Ok(edited_tree) ==> text_at(
            edited_tree,
            layout_path(),
        ) == text_at(tree, layout_path()),
{
    lemma_steps_keep_the_paths(tree, removals);
    lemma_first_index_is_first(entry_paths(tree), manifest_path());
    lemma_first_index_is_first(entry_paths(tree), layout_path());
    reveal_strlit("package.json");
    reveal_strlit("src/routes/__root.tsx");
    assert(manifest_path().len() != layout_path().len());
}

/// An application is made exactly from a template whose copy has a manifest
/// that is a JSON object and, without authentication, no root layout that
/// cannot be read. On every such template the call succeeds.
pub proof fn law_an_application_is_made(
    template: TreeView,
    project_name: Seq<char>,
    include_docs: bool,
    include_auth: bool,
    include_db: bool,
    secret: Seq<char>,
)
    ensures
        scaffolded_app(template, project_name, include_docs, include_auth, include_db, secret)
            is Ok <==> {
            let copy = copied(
                template,
                project_name,
                files_to_skip(include_docs, include_auth, include_db),
            );
            has_a_manifest(copy) && (include_auth || has_no_unreadable_layout(copy))
        },
{
    let copy = copied(
        template,
        project_name,
        files_to_skip(include_docs, include_auth, include_db),
    );
    lemma_manifest_step(copy, manifest_removals(include_docs, include_auth, include_db));
}

/// A library is made exactly from a template whose copy has a manifest that
/// is a JSON object.
pub proof fn law_a_library_is_made(
    template: TreeView,
    project_name: Seq<char>,
    lang: Seq<char>,
    include_react: bool,
    include_css: bool,
    include_testing: bool,
)
    ensures
        scaffolded_lib(template, project_name, lang, include_react, include_css, include_testing)
            is Ok <==> has_a_manifest(
            copied(
                template,
                project_name,
                lib_files_to_skip(lang, include_react, include_css, include_testing),
            ),
        ),
{
    lemma_manifest_step(
        copied(
            template,
            project_name,
            lib_files_to_skip(lang, include_react, include_css, include_testing),
        ),
        lib_manifest_removals(lang, include_react, include_css, include_testing),
    );
}

} // verus!
