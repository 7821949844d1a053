//! Copying a template tree into a project tree.
//!
//! A tree is a list of entries, each with its path relative to the root of
//! the tree. Copying keeps the order of the entries, leaves out what a skip
//! rule covers, and puts the project's name in place of the placeholder in
//! every file that is text.

use vstd::prelude::*;
use vstd::slice::slice_to_vec;
use vstd::utf8::*;
use crate::features::{
    is_skipped, law_skip_rule_covers_what_is_below, rules_view, should_skip_file,
};
use crate::text::{
    lemma_replace_all_leaves_no_occurrence, lemma_replace_all_without_occurrence, occurs, replace,
    replace_all, str_eq,
};

verus! {

/// One file or directory of a template.
#[derive(Clone, Debug, PartialEq, Eq)]
pub struct SourceEntry {
    /// The path, relative to the root of the template.
    pub path: String,
    pub is_dir: bool,
    /// The bytes of a file; of no meaning for a directory.
    pub content: Vec<u8>,
}

/// One file or directory of a generated project.
#[derive(Clone, Debug, PartialEq, Eq)]
pub struct OutputEntry {
    /// The path, relative to the root of the project.
    pub path: String,
    pub is_dir: bool,
    /// The bytes of a file; empty for a directory.
    pub content: Vec<u8>,
}

/// What an entry holds.
pub struct EntryView {
    pub path: Seq<char>,
    pub is_dir: bool,
    pub content: Seq<u8>,
}

impl View for SourceEntry {
    type V = EntryView;

    open spec fn view(&self) -> EntryView {
        EntryView { path: self.path@, is_dir: self.is_dir, content: self.content@ }
    }
}

impl View for OutputEntry {
    type V = EntryView;

    open spec fn view(&self) -> EntryView {
        EntryView { path: self.path@, is_dir: self.is_dir, content: self.content@ }
    }
}

/// What a tree holds: its entries in their order.
pub type TreeView = Seq<EntryView>;

/// What a list of template entries holds.
pub open spec fn sources_view(entries: Seq<SourceEntry>) -> TreeView {
    entries.map_values(|e: SourceEntry| e@)
}

/// What a list of project entries holds.
pub open spec fn outputs_view(entries: Seq<OutputEntry>) -> TreeView {
    entries.map_values(|e: OutputEntry| e@)
}

/// The token that stands for the project's name.
pub open spec fn placeholder() -> Seq<char> {
    "{{project_name}}"@
}

/// The name of the file that describes a template. It is never copied.
pub open spec fn reserved_name() -> Seq<char> {
    "template.json"@
}

/// The bytes of a file in the project: where the file is text, the text with
/// the project's name in place of the placeholder; the same bytes otherwise.
pub open spec fn rendered(content: Seq<u8>, project_name: Seq<char>) -> Seq<u8> {
    if valid_utf8(content) {
        encode_utf8(replace_all(decode_utf8(content), placeholder(), project_name))
    } else {
        content
    }
}

/// The project's entry for a template entry.
pub open spec fn materialized(entry: EntryView, project_name: Seq<char>) -> EntryView {
    EntryView {
        path: entry.path,
        is_dir: entry.is_dir,
        content: if entry.is_dir {
            Seq::empty()
        } else {
            rendered(entry.content, project_name)
        },
    }
}

/// The project's entries for those template entries whose path `keep`
/// accepts, in their order.
pub open spec fn filtered(
    entries: TreeView,
    project_name: Seq<char>,
    keep: spec_fn(Seq<char>) -> bool,
) -> TreeView
    decreases entries.len(),
{
    if entries.len() == 0 {
        Seq::empty()
    } else if keep(entries.last().path) {
        filtered(entries.drop_last(), project_name, keep).push(
            materialized(entries.last(), project_name),
        )
    } else {
        filtered(entries.drop_last(), project_name, keep)
    }
}

/// Whether a path of the template is copied under `rules`.
pub open spec fn is_copied(path: Seq<char>, rules: Seq<Seq<char>>) -> bool {
    !is_skipped(path, rules) && path != reserved_name()
}

/// The project tree for a template tree under `rules`.
pub open spec fn copied(
    entries: TreeView,
    project_name: Seq<char>,
    rules: Seq<Seq<char>>,
) -> TreeView {
    filtered(entries, project_name, |path: Seq<char>| is_copied(path, rules))
}

/// `content` with the project's name in place of each placeholder.
pub fn process_template(content: &str, project_name: &str) -> (out: String)
    ensures
        out@ == replace_all(content@, placeholder(), project_name@),
{
    replace(content, "{{project_name}}", project_name)
}

/// Calls `std::str::from_utf8`. It returns the text exactly for the bytes
/// that are well-formed UTF-8, and the text's encoding is those bytes.
#[verifier::external_body]
pub(crate) fn utf8_text(bytes: &[u8]) -> (text: Option<&str>)
    ensures
        text is Some <==> valid_utf8(bytes@),
        text matches Some(t) ==> encode_utf8(t@) == bytes@,
{
    std::str::from_utf8(bytes).ok()
}

/// The bytes that a file of the template has in the project.
pub fn render(content: &[u8], project_name: &str) -> (out: Vec<u8>)
    ensures
        out@ == rendered(content@, project_name@),
{
    match utf8_text(content) {
        Some(text) => {
            proof {
                encode_utf8_decode_utf8(text@);
            }
            let processed = process_template(text, project_name);
            processed.as_str().as_bytes_vec()
        },
        None => slice_to_vec(content),
    }
}

/// The project's entry for a template entry.
pub fn materialize(entry: &SourceEntry, project_name: &str) -> (out: OutputEntry)
    ensures
        out@ == materialized(entry@, project_name@),
{
    let content = if entry.is_dir {
        Vec::new()
    } else {
        render(entry.content.as_slice(), project_name)
    };
    OutputEntry { path: entry.path.clone(), is_dir: entry.is_dir, content }
}

/// The project tree for a template tree: every entry that no skip rule
/// covers and that is not the template's own description, in the order of
/// the template.
pub fn copy_template(entries: &[SourceEntry], project_name: &str, files_to_skip: &[&str]) -> (out:
    Vec<OutputEntry>)
    ensures
        outputs_view(out@) == copied(
            sources_view(entries@),
            project_name@,
            rules_view(files_to_skip@),
        ),
{
    let ghost all = sources_view(entries@);
    let ghost rules = rules_view(files_to_skip@);
    let ghost keep = |path: Seq<char>| is_copied(path, rules);
    let mut out: Vec<OutputEntry> = Vec::new();
    let mut i: usize = 0;
    assert(outputs_view(out@) =~= filtered(all.take(0), project_name@, keep));
    while i < entries.len()
        invariant
            0 <= i <= entries.len(),
            all == sources_view(entries@),
            rules == rules_view(files_to_skip@),
            keep == (|path: Seq<char>| is_copied(path, rules)),
            outputs_view(out@) == filtered(all.take(i as int), project_name@, keep),
        decreases entries.len() - i,
    {
        let entry = &entries[i];
        proof {
            assert(all.take(i as int + 1).drop_last() =~= all.take(i as int));
            assert(all.take(i as int + 1).last() == entry@);
        }
        let skipped = should_skip_file(entry.path.as_str(), files_to_skip) || str_eq(
            entry.path.as_str(),
            "template.json",
        );
        assert(skipped == !keep(entry@.path));
        if !skipped {
            let produced = materialize(entry, project_name);
            let ghost before = out@;
            out.push(produced);
            assert(outputs_view(out@) =~= outputs_view(before).push(produced@));
        }
        i += 1;
    }
    assert(all.take(i as int) =~= all);
    out
}

// ---------------------------------------------------------------------------
// What holds of a copy
// ---------------------------------------------------------------------------

/// The copy holds exactly the project's entries for those template entries
/// whose path is accepted: no entry is renamed, none is made up, and none
/// that is accepted is lost.
pub proof fn lemma_filtered(
    entries: TreeView,
    project_name: Seq<char>,
    keep: spec_fn(Seq<char>) -> bool,
    produced: EntryView,
)
    ensures
        filtered(entries, project_name, keep).contains(produced) <==> exists|i: int|
            0 <= i < entries.len() && keep(#[trigger] entries[i].path) && produced == materialized(
                entries[i],
                project_name,
            ),
    decreases entries.len(),
{
    let out = filtered(entries, project_name, keep);
    if entries.len() > 0 {
        let front = entries.drop_last();
        let last = entries.last();
        let before = filtered(front, project_name, keep);
        lemma_filtered(front, project_name, keep, produced);
        if out.contains(produced) {
            let j = choose|j: int| 0 <= j < out.len() && out[j] == produced;
            if keep(last.path) && j == before.len() {
                assert(keep(entries[entries.len() - 1].path));
            } else {
                assert(before[j] == produced);
                let i = choose|i: int|
                    0 <= i < front.len() && keep(#[trigger] front[i].path) && produced
                        == materialized(front[i], project_name);
                assert(keep(entries[i].path) && produced == materialized(entries[i], project_name));
            }
        }
        if exists|i: int|
            0 <= i < entries.len() && keep(#[trigger] entries[i].path) && produced == materialized(
                entries[i],
                project_name,
            ) {
            let i = choose|i: int|
                0 <= i < entries.len() && keep(#[trigger] entries[i].path) && produced
                    == materialized(entries[i], project_name);
            if i == entries.len() - 1 {
                assert(out[before.len() as int] == produced);
            } else {
                assert(keep(front[i].path) && produced == materialized(front[i], project_name));
                let j = choose|j: int| 0 <= j < before.len() && before[j] == produced;
                assert(out[j] == produced);
            }
        }
    }
}

/// Where a skip rule covers a directory, the copy holds neither the
/// directory nor anything below it: no path of the copy begins with the path
/// of the directory.
pub proof fn law_skipped_directory_leaves_nothing(
    entries: TreeView,
    project_name: Seq<char>,
    rules: Seq<Seq<char>>,
    dir: Seq<char>,
)
    requires
        is_skipped(dir, rules),
    ensures
        forall|j: int|
            0 <= j < copied(entries, project_name, rules).len() ==> !dir.is_prefix_of(
                #[trigger] copied(entries, project_name, rules)[j].path,
            ),
{
    let out = copied(entries, project_name, rules);
    let keep = |path: Seq<char>| is_copied(path, rules);
    assert forall|j: int| 0 <= j < out.len() implies !dir.is_prefix_of(#[trigger] out[j].path) by {
        assert(out.contains(out[j]));
        lemma_filtered(entries, project_name, keep, out[j]);
        let i = choose|i: int|
            0 <= i < entries.len() && keep(#[trigger] entries[i].path) && out[j] == materialized(
                entries[i],
                project_name,
            );
        let path = entries[i].path;
        if dir.is_prefix_of(path) {
            let rest = path.subrange(dir.len() as int, path.len() as int);
            assert(path =~= dir + rest);
            law_skip_rule_covers_what_is_below(dir, rest, rules);
        }
    }
}

/// A file that is copied and is not text is in the copy with the bytes that
/// it has in the template.
pub proof fn law_file_that_is_not_text_keeps_its_bytes(
    entries: TreeView,
    project_name: Seq<char>,
    rules: Seq<Seq<char>>,
    i: int,
)
    requires
        0 <= i < entries.len(),
        !entries[i].is_dir,
        is_copied(entries[i].path, rules),
        !valid_utf8(entries[i].content),
    ensures
        copied(entries, project_name, rules).contains(entries[i]),
{
    let keep = |path: Seq<char>| is_copied(path, rules);
    assert(keep(entries[i].path));
    assert(materialized(entries[i], project_name) == entries[i]);
    lemma_filtered(entries, project_name, keep, entries[i]);
}

/// A file that is copied and is text is in the copy, at its path, with the
/// project's name in place of every placeholder.
pub proof fn law_file_that_is_text_is_rewritten(
    entries: TreeView,
    project_name: Seq<char>,
    rules: Seq<Seq<char>>,
    i: int,
)
    requires
        0 <= i < entries.len(),
        !entries[i].is_dir,
        is_copied(entries[i].path, rules),
        valid_utf8(entries[i].content),
    ensures
        copied(entries, project_name, rules).contains(
            EntryView {
                path: entries[i].path,
                is_dir: false,
                content: encode_utf8(
                    replace_all(decode_utf8(entries[i].content), placeholder(), project_name),
                ),
            },
        ),
{
    let keep = |path: Seq<char>| is_copied(path, rules);
    assert(keep(entries[i].path));
    lemma_filtered(entries, project_name, keep, materialized(entries[i], project_name));
}

/// The copy holds no path that a skip rule covers, and not the template's
/// own description.
pub proof fn law_copy_holds_nothing_that_a_rule_covers(
    entries: TreeView,
    project_name: Seq<char>,
    rules: Seq<Seq<char>>,
)
    ensures
        forall|j: int|
            0 <= j < copied(entries, project_name, rules).len() ==> is_copied(
                #[trigger] copied(entries, project_name, rules)[j].path,
                rules,
            ),
{
    let out = copied(entries, project_name, rules);
    let keep = |path: Seq<char>| is_copied(path, rules);
    assert forall|j: int| 0 <= j < out.len() implies is_copied(#[trigger] out[j].path, rules) by {
        assert(out.contains(out[j]));
        lemma_filtered(entries, project_name, keep, out[j]);
    }
}

/// A text that holds no placeholder is left as it is.
pub proof fn law_text_without_placeholder_is_unchanged(content: Seq<char>, project_name: Seq<char>)
    requires
        !occurs(content, placeholder()),
    ensures
        replace_all(content, placeholder(), project_name) == content,
{
    lemma_replace_all_without_occurrence(content, placeholder(), project_name);
}

/// No placeholder is left in a text after the project's name has taken the
/// place of each, where the name holds no brace and holds some character
/// that the placeholder lacks.
pub proof fn law_no_placeholder_is_left(content: Seq<char>, project_name: Seq<char>)
    requires
        !project_name.contains('{'),
        !project_name.contains('}'),
        exists|c: char| project_name.contains(c) && !placeholder().contains(c),
    ensures
        !occurs(replace_all(content, placeholder(), project_name), placeholder()),
{
    reveal_strlit("{{project_name}}");
    let foreign = choose|c: char| project_name.contains(c) && !placeholder().contains(c);
    assert(placeholder().first() == '{');
    assert(placeholder().last() == '}');
    lemma_replace_all_leaves_no_occurrence(content, placeholder(), project_name, foreign);
}

} // verus!
