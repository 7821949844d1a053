//! A project with a web front end beside a server.
//!
//! The front end of the template goes below `web`, edited as an application
//! without a database of its own. What the template holds for the server
//! goes to the root of the project.

use vstd::prelude::*;
use vstd::utf8::*;
use crate::features::{
    app_removals, files_to_skip, get_files_to_skip, is_skipped, manifest_removals, rules_view,
    should_skip_file,
};
use crate::secret::{generate_random_secret, is_secret};
use crate::manifest::{manifest_text, parsed_manifest, without_entries};
use crate::scaffold::{
    agrees, entry_paths, env_entry, has_a_manifest, has_no_unreadable_layout, layout_cleaned,
    layout_path, lemma_manifest_step, lemma_steps_keep_the_paths, manifest_edited, manifest_path,
    push_env_file, rewrite_layout, rewrite_manifest, text_at, Lookup, ScaffoldError,
    ScaffoldFailure,
};
use crate::template::{
    filtered, lemma_filtered, materialize, outputs_view, sources_view, EntryView, OutputEntry,
    SourceEntry, TreeView,
};
use crate::text::{first_index, lemma_first_index_is_first};

verus! {

/// The paths that never reach the front end: the part of the template that
/// is for the server, and the template's own description.
pub open spec fn frontend_extra_rules() -> Seq<Seq<char>> {
    seq!["fullstack"@, "template.json"@]
}

/// The paths of the server's part that are never copied.
pub open spec fn overlay_extra_rules() -> Seq<Seq<char>> {
    seq!["template.json"@]
}

/// The project's entries for those template entries that neither `rules` nor
/// `extra` cover, in their order.
pub open spec fn copied_filtered(
    entries: TreeView,
    project_name: Seq<char>,
    rules: Seq<Seq<char>>,
    extra: Seq<Seq<char>>,
) -> TreeView {
    filtered(
        entries,
        project_name,
        |path: Seq<char>| !is_skipped(path, rules) && !is_skipped(path, extra),
    )
}

/// The directory at `path`.
pub open spec fn dir_entry(path: Seq<char>) -> EntryView {
    EntryView { path, is_dir: true, content: Seq::empty() }
}

/// `path` below the directory `dir`.
pub open spec fn joined(dir: Seq<char>, path: Seq<char>) -> Seq<char> {
    dir + "/"@ + path
}

/// The entries, each below the directory `dir`.
pub open spec fn placed_under(dir: Seq<char>, entries: TreeView) -> TreeView {
    entries.map_values(
        |e: EntryView|
            EntryView { path: joined(dir, e.path), is_dir: e.is_dir, content: e.content },
    )
}

/// The front end of the project, with its paths relative to `web`.
pub open spec fn scaffolded_frontend(
    frontend: TreeView,
    project_name: Seq<char>,
    include_auth: bool,
    include_docs: bool,
) -> Result<TreeView, ScaffoldFailure> {
    match manifest_edited(
        copied_filtered(
            frontend,
            project_name,
            files_to_skip(include_docs, include_auth, false),
            frontend_extra_rules(),
        ),
        manifest_removals(include_docs, include_auth, false),
    ) {
        Ok(web) => if include_auth {
            Ok(web)
        } else {
            layout_cleaned(web)
        },
        Err(failure) => Err(failure),
    }
}

/// The tree of the project: the directory `web`, the front end below it, the
/// server's part at the root and, with authentication, the environment file
/// of the front end.
pub open spec fn scaffolded_fullstack(
    frontend: TreeView,
    overlay: TreeView,
    project_name: Seq<char>,
    include_auth: bool,
    include_docs: bool,
    secret: Seq<char>,
) -> Result<TreeView, ScaffoldFailure> {
    match scaffolded_frontend(frontend, project_name, include_auth, include_docs) {
        Ok(web) => Ok(
            seq![dir_entry("web"@)] + placed_under("web"@, web) + copied_filtered(
                overlay,
                project_name,
                Seq::empty(),
                overlay_extra_rules(),
            ) + if include_auth {
                seq![env_entry("web/.env"@, secret)]
            } else {
                Seq::empty()
            },
        ),
        Err(failure) => Err(failure),
    }
}

/// The project's entries for those template entries that neither
/// `files_to_skip` nor `extra_skip` cover, in the order of the template.
pub fn copy_filtered(
    entries: &[SourceEntry],
    project_name: &str,
    files_to_skip: &[&str],
    extra_skip: &[&str],
) -> (out: Vec<OutputEntry>)
    ensures
        outputs_view(out@) == copied_filtered(
            sources_view(entries@),
            project_name@,
            rules_view(files_to_skip@),
            rules_view(extra_skip@),
        ),
{
    let ghost all = sources_view(entries@);
    let ghost rules = rules_view(files_to_skip@);
    let ghost extra = rules_view(extra_skip@);
    let ghost keep = |path: Seq<char>| !is_skipped(path, rules) && !is_skipped(path, extra);
    let mut out: Vec<OutputEntry> = Vec::new();
    let mut i: usize = 0;
    assert(outputs_view(out@) =~= filtered(all.take(0), project_name@, keep));
    while i < entries.len()
        invariant
            0 <= i <= entries.len(),
            all == sources_view(entries@),
            rules == rules_view(files_to_skip@),
            extra == rules_view(extra_skip@),
            keep == (|path: Seq<char>| !is_skipped(path, rules) && !is_skipped(path, extra)),
            outputs_view(out@) == filtered(all.take(i as int), project_name@, keep),
        decreases entries.len() - i,
    {
        let entry = &entries[i];
        proof {
            assert(all.take(i as int + 1).drop_last() =~= all.take(i as int));
            assert(all.take(i as int + 1).last() == entry@);
        }
        let skipped = should_skip_file(entry.path.as_str(), files_to_skip) || should_skip_file(
            entry.path.as_str(),
            extra_skip,
        );
        assert(skipped == !keep(entry@.path));
        if !skipped {
            let produced = materialize(entry, project_name);
            let ghost before = out@;
            out.push(produced);
            assert(outputs_view(out@) =~= outputs_view(before).push(produced@));
        }
        i += 1;
    }
    assert(all.take(i as int) =~= all);
    out
}

/// Appends the entries to `tree`, each below the directory `dir`.
fn append_under(tree: &mut Vec<OutputEntry>, dir: &str, entries: Vec<OutputEntry>)
    ensures
        outputs_view(final(tree)@) == outputs_view(old(tree)@) + placed_under(
            dir@,
            outputs_view(entries@),
        ),
{
    let ghost start = outputs_view(tree@);
    let ghost placed = placed_under(dir@, outputs_view(entries@));
    assert(outputs_view(tree@) =~= start + placed.take(0));
    for entry in it: entries
        invariant
            it.seq() == entries@,
            placed == placed_under(dir@, outputs_view(entries@)),
            outputs_view(tree@) == start + placed.take(it.index() as int),
    {
        let ghost k = it.index() as int;
        let mut path = String::new();
        path.append(dir);
        path.append("/");
        path.append(entry.path.as_str());
        let moved = OutputEntry { path, is_dir: entry.is_dir, content: entry.content };
        assert(moved@ == placed[k]) by {
            assert(moved@.path =~= joined(dir@, entry@.path));
        }
        let ghost before = tree@;
        tree.push(moved);
        assert(outputs_view(tree@) =~= start + placed.take(k + 1)) by {
            assert(outputs_view(tree@) =~= outputs_view(before).push(moved@));
            assert(placed.take(k + 1) =~= placed.take(k).push(placed[k]));
        }
    }
    assert(placed.take(entries@.len() as int) =~= placed);
}

/// The tree of a project with a front end and a server, whose environment
/// file, if it has one, holds `secret`. `frontend` is the template, `overlay`
/// what its directory `fullstack` holds, with paths relative to that
/// directory.
pub fn scaffold_fullstack_with(
    frontend: &[SourceEntry],
    overlay: &[SourceEntry],
    project_name: &str,
    include_auth: bool,
    include_docs: bool,
    secret: &str,
) -> (res: Result<Vec<OutputEntry>, ScaffoldError>)
    ensures
        agrees(
            res,
            scaffolded_fullstack(
                sources_view(frontend@),
                sources_view(overlay@),
                project_name@,
                include_auth,
                include_docs,
                secret@,
            ),
        ),
{
    let skip = get_files_to_skip(include_docs, include_auth, false);
    let frontend_extra: Vec<&'static str> = vec!["fullstack", "template.json"];
    let overlay_extra: Vec<&'static str> = vec!["template.json"];
    let nothing: Vec<&'static str> = Vec::new();
    proof {
        assert(rules_view(frontend_extra@) =~= frontend_extra_rules());
        assert(rules_view(overlay_extra@) =~= overlay_extra_rules());
        assert(rules_view(nothing@) =~= Seq::empty());
    }
    let mut web = copy_filtered(
        frontend,
        project_name,
        skip.as_slice(),
        frontend_extra.as_slice(),
    );
    let out = app_removals(include_docs, include_auth, false);
    match rewrite_manifest(&mut web, out.as_slice()) {
        Err(error) => {
            return Err(error);
        },
        Ok(_) => {},
    }
    if !include_auth {
        match rewrite_layout(&mut web) {
            Err(error) => {
                return Err(error);
            },
            Ok(_) => {},
        }
    }
    let mut tree: Vec<OutputEntry> = Vec::new();
    tree.push(OutputEntry { path: "web".to_owned(), is_dir: true, content: Vec::new() });
    assert(outputs_view(tree@) =~= seq![dir_entry("web"@)]);
    append_under(&mut tree, "web", web);
    let mut root = copy_filtered(
        overlay,
        project_name,
        nothing.as_slice(),
        overlay_extra.as_slice(),
    );
    let ghost before = outputs_view(tree@);
    let ghost added = outputs_view(root@);
    tree.append(&mut root);
    assert(outputs_view(tree@) =~= before + added);
    if include_auth {
        push_env_file(&mut tree, "web/.env", secret);
        assert(outputs_view(tree@) =~= before + added + seq![env_entry("web/.env"@, secret@)]);
    } else {
        assert(outputs_view(tree@) =~= before + added + Seq::empty());
    }
    Ok(tree)
}

/// The tree of a project with a front end and a server. With authentication
/// the environment file of the front end holds a fresh secret; without it no
/// secret is made. It succeeds wherever the front end can be made.
pub fn scaffold_fullstack(
    frontend: &[SourceEntry],
    overlay: &[SourceEntry],
    project_name: &str,
    include_auth: bool,
    include_docs: bool,
) -> (res: Result<Vec<OutputEntry>, ScaffoldError>)
    ensures
        exists|secret: Seq<char>|
            (include_auth ==> is_secret(secret)) && agrees(
                res,
                #[trigger] scaffolded_fullstack(
                    sources_view(frontend@),
                    sources_view(overlay@),
                    project_name@,
                    include_auth,
                    include_docs,
                    secret,
                ),
            ),
        scaffolded_frontend(sources_view(frontend@), project_name@, include_auth, include_docs)
            is Ok ==> res is Ok,
{
    let secret = if include_auth {
        generate_random_secret()
    } else {
        String::new()
    };
    let res = scaffold_fullstack_with(
        frontend,
        overlay,
        project_name,
        include_auth,
        include_docs,
        secret.as_str(),
    );
    assert(agrees(
        res,
        scaffolded_fullstack(
            sources_view(frontend@),
            sources_view(overlay@),
            project_name@,
            include_auth,
            include_docs,
            secret@,
        ),
    ));
    res
}

// ---------------------------------------------------------------------------
// What holds of the tree of a project with a front end and a server
// ---------------------------------------------------------------------------

/// What the front end is copied from: the template without what the skip
/// rules of the features cover, and without the server's part.
pub open spec fn frontend_copy(
    frontend: TreeView,
    project_name: Seq<char>,
    include_auth: bool,
    include_docs: bool,
) -> TreeView {
    copied_filtered(
        frontend,
        project_name,
        files_to_skip(include_docs, include_auth, false),
        frontend_extra_rules(),
    )
}

/// The front end of the project holds the paths of what was copied from the
/// template, in the same order, and no other.
pub proof fn law_front_end_holds_what_was_copied(
    frontend: TreeView,
    project_name: Seq<char>,
    include_auth: bool,
    include_docs: bool,
)
    ensures
        scaffolded_frontend(frontend, project_name, include_auth, include_docs) matches Ok(web)
            ==> entry_paths(web) == entry_paths(
            frontend_copy(frontend, project_name, include_auth, include_docs),
        ),
{
    let copy = frontend_copy(frontend, project_name, include_auth, include_docs);
    let removals = manifest_removals(include_docs, include_auth, false);
    lemma_steps_keep_the_paths(copy, removals);
    if let Ok(edited_tree) = manifest_edited(copy, removals) {
        lemma_steps_keep_the_paths(edited_tree, removals);
    }
}

/// No path of the front end is covered by a skip rule of a feature that is
/// switched off, by a skip rule of the database, or by the server's part of
/// the template.
pub proof fn law_front_end_holds_nothing_that_a_rule_covers(
    frontend: TreeView,
    project_name: Seq<char>,
    include_auth: bool,
    include_docs: bool,
)
    ensures
        scaffolded_frontend(frontend, project_name, include_auth, include_docs) matches Ok(web)
            ==> forall|j: int|
            0 <= j < web.len() ==> !is_skipped(
                (#[trigger] web[j]).path,
                files_to_skip(include_docs, include_auth, false),
            ) && !is_skipped(web[j].path, frontend_extra_rules()),
{
    let rules = files_to_skip(include_docs, include_auth, false);
    let extra = frontend_extra_rules();
    let copy = frontend_copy(frontend, project_name, include_auth, include_docs);
    let keep = |path: Seq<char>| !is_skipped(path, rules) && !is_skipped(path, extra);
    law_front_end_holds_what_was_copied(frontend, project_name, include_auth, include_docs);
    if let Ok(web) = scaffolded_frontend(frontend, project_name, include_auth, include_docs) {
        assert forall|j: int| 0 <= j < web.len() implies !is_skipped(
            (#[trigger] web[j]).path,
            rules,
        ) && !is_skipped(web[j].path, extra) by {
            assert(entry_paths(web)[j] == entry_paths(copy)[j]);
            assert(copy.contains(copy[j]));
            lemma_filtered(frontend, project_name, keep, copy[j]);
        }
    }
}

/// The tree of the project is the directory `web`, the front end below it,
/// the server's part and, with authentication only, the environment file of
/// the front end with the secret, in this order. Without authentication no
/// environment file is added.
pub proof fn law_tree_of_a_project_with_a_server(
    frontend: TreeView,
    overlay: TreeView,
    project_name: Seq<char>,
    include_auth: bool,
    include_docs: bool,
    secret: Seq<char>,
)
    ensures
        scaffolded_fullstack(
            frontend,
            overlay,
            project_name,
            include_auth,
            include_docs,
            secret,
        ) matches Ok(tree) ==> {
            let web = scaffolded_frontend(frontend, project_name, include_auth, include_docs)->Ok_0;
            let root = copied_filtered(overlay, project_name, Seq::empty(), overlay_extra_rules());
            &&& tree.len() == 1 + web.len() + root.len() + if include_auth {
                1int
            } else {
                0int
            }
            &&& tree[0] == dir_entry("web"@)
            &&& forall|j: int|
                0 <= j < web.len() ==> (#[trigger] tree[1 + j]).path == joined("web"@, web[j].path)
                    && tree[1 + j].content == web[j].content
            &&& forall|j: int| 0 <= j < root.len() ==> #[trigger] tree[1 + web.len() + j] == root[j]
            &&& include_auth ==> tree.last() == env_entry("web/.env"@, secret)
        },
{
}

/// The manifest of the front end is the manifest of the template, with the
/// project's name in it, after the entries of the features that are switched
/// off, and those of the database, have left it.
pub proof fn law_manifest_of_the_front_end(
    frontend: TreeView,
    project_name: Seq<char>,
    include_auth: bool,
    include_docs: bool,
)
    ensures
        scaffolded_frontend(frontend, project_name, include_auth, include_docs) matches Ok(web)
            ==> {
            let copy = frontend_copy(frontend, project_name, include_auth, include_docs);
            &&& text_at(copy, manifest_path()) matches Lookup::Text { at, text }
            &&& parsed_manifest(text) matches Ok(doc)
            &&& at < web.len()
            &&& web[at].path == manifest_path()
            &&& web[at].content == encode_utf8(
                manifest_text(
                    without_entries(doc, manifest_removals(include_docs, include_auth, false)),
                ),
            )
        },
{
    let copy = frontend_copy(frontend, project_name, include_auth, include_docs);
    let removals = manifest_removals(include_docs, include_auth, false);
    lemma_first_index_is_first(entry_paths(copy), manifest_path());
    if let Ok(edited_tree) = manifest_edited(copy, removals) {
        let at = first_index(entry_paths(copy), manifest_path());
        assert(edited_tree[at].path == manifest_path());
        if !include_auth {
            lemma_first_index_is_first(entry_paths(edited_tree), layout_path());
            reveal_strlit("package.json");
            reveal_strlit("src/routes/__root.tsx");
            assert(manifest_path().len() != layout_path().len());
        }
    }
}

/// A project with a front end and a server is made exactly from a template
/// whose copy for the front end has a manifest that is a JSON object and,
/// without authentication, no root layout that cannot be read. On every
/// such template the call succeeds.
pub proof fn law_a_project_with_a_server_is_made(
    frontend: TreeView,
    overlay: TreeView,
    project_name: Seq<char>,
    include_auth: bool,
    include_docs: bool,
    secret: Seq<char>,
)
    ensures
        scaffolded_fullstack(frontend, overlay, project_name, include_auth, include_docs, secret)
            is Ok <==> {
            let copy = frontend_copy(frontend, project_name, include_auth, include_docs);
            has_a_manifest(copy) && (include_auth || has_no_unreadable_layout(copy))
        },
{
    lemma_manifest_step(
        frontend_copy(frontend, project_name, include_auth, include_docs),
        manifest_removals(include_docs, include_auth, false),
    );
}

} // verus!
