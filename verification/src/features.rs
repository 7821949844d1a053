//! What each feature owns in a template, and what leaves the output when the
//! feature is switched off.
//!
//! A feature owns path prefixes (its skip rules) and manifest entries, each a
//! section name with an entry name. The tables are data: the functions below
//! only join the tables of the features that are switched off, in a fixed
//! order.

use vstd::prelude::*;
use crate::manifest::{
    edit_manifest, edited, has_entry, lemma_without_entries, pairs_view, without_entries,
    Json, ManifestError, ManifestFailure, ManifestView,
};
use crate::text::{starts_with, str_eq};
use crate::ui::{Feature, Language, LibFeature};

verus! {

/// A list of rules, each as its characters.
pub open spec fn rules_view(rules: Seq<&str>) -> Seq<Seq<char>> {
    rules.map_values(|r: &str| r@)
}

/// Whether some rule is a prefix of `path`, character by character. A rule
/// is not held to the bounds of the parts of a path: the rule `docs` covers
/// `docs/page.md`, and `docsx/page.md` as well.
pub open spec fn is_skipped(path: Seq<char>, rules: Seq<Seq<char>>) -> bool {
    exists|i: int| 0 <= i < rules.len() && #[trigger] rules[i].is_prefix_of(path)
}

/// `items` where `wanted` holds, nothing where it does not.
pub open spec fn only_if<T>(wanted: bool, items: Seq<T>) -> Seq<T> {
    if wanted {
        items
    } else {
        Seq::empty()
    }
}

impl Feature {
    /// The paths that belong to the feature.
    pub open spec fn rules(self) -> Seq<Seq<char>> {
        match self {
            Feature::Docs => seq![
                "src/routes/docs"@,
                "content/docs"@,
                "src/lib/docs.ts"@,
                "src/lib/docs.test.ts"@,
                "src/lib/mdx-components.tsx"@,
                "src/components/docs-sidebar.tsx"@,
                "src/components/copyable-pre.tsx"@,
            ],
            Feature::Auth => seq![
                "src/lib/auth.ts"@,
                "api/auth"@,
                "src/components/session-provider.tsx"@,
            ],
            Feature::Db => seq!["src/lib/db.ts"@],
        }
    }

    /// The manifest entries that belong to the feature, each as a section and
    /// an entry name.
    pub open spec fn entries(self) -> Seq<(Seq<char>, Seq<char>)> {
        match self {
            Feature::Docs => seq![
                ("dependencies"@, "@mdx-js/react"@),
                ("dependencies"@, "gray-matter"@),
                ("devDependencies"@, "@mdx-js/rollup"@),
                ("devDependencies"@, "remark-frontmatter"@),
                ("devDependencies"@, "remark-mdx-frontmatter"@),
            ],
            Feature::Auth => seq![("dependencies"@, "@auth/core"@)],
            Feature::Db => seq![("dependencies"@, "pg"@), ("devDependencies"@, "@types/pg"@)],
        }
    }

    /// The paths that belong to the feature.
    pub fn skip_rules(self) -> (rules: Vec<&'static str>)
        ensures
            rules_view(rules@) == self.rules(),
    {
        let rules = match self {
            Feature::Docs => vec![
                "src/routes/docs",
                "content/docs",
                "src/lib/docs.ts",
                "src/lib/docs.test.ts",
                "src/lib/mdx-components.tsx",
                "src/components/docs-sidebar.tsx",
                "src/components/copyable-pre.tsx",
            ],
            Feature::Auth => vec![
                "src/lib/auth.ts",
                "api/auth",
                "src/components/session-provider.tsx",
            ],
            Feature::Db => vec!["src/lib/db.ts"],
        };
        assert(rules_view(rules@) =~= self.rules());
        rules
    }

    /// The manifest entries that belong to the feature.
    pub fn manifest_entries(self) -> (entries: Vec<(&'static str, &'static str)>)
        ensures
            pairs_view(entries@) == self.entries(),
    {
        let entries = match self {
            Feature::Docs => vec![
                ("dependencies", "@mdx-js/react"),
                ("dependencies", "gray-matter"),
                ("devDependencies", "@mdx-js/rollup"),
                ("devDependencies", "remark-frontmatter"),
                ("devDependencies", "remark-mdx-frontmatter"),
            ],
            Feature::Auth => vec![("dependencies", "@auth/core")],
            Feature::Db => vec![("dependencies", "pg"), ("devDependencies", "@types/pg")],
        };
        assert(pairs_view(entries@) =~= self.entries());
        entries
    }
}

impl LibFeature {
    /// The paths that belong to the feature.
    pub open spec fn rules(self) -> Seq<Seq<char>> {
        match self {
            LibFeature::React => seq!["src/components"@],
            LibFeature::Css => seq!["src/styles"@],
            LibFeature::Testing => seq!["vitest.config.ts"@, "src/__tests__"@],
        }
    }

    /// The manifest entries that belong to the feature, each as a section and
    /// an entry name.
    pub open spec fn entries(self) -> Seq<(Seq<char>, Seq<char>)> {
        match self {
            LibFeature::React => seq![
                ("peerDependencies"@, "react"@),
                ("peerDependencies"@, "react-dom"@),
                ("devDependencies"@, "@types/react"@),
                ("devDependencies"@, "@types/react-dom"@),
                ("devDependencies"@, "react"@),
                ("devDependencies"@, "react-dom"@),
            ],
            LibFeature::Css => seq![
                ("dependencies"@, "tailwindcss"@),
                ("dependencies"@, "@tailwindcss/vite"@),
                ("devDependencies"@, "tailwindcss"@),
                ("devDependencies"@, "@tailwindcss/vite"@),
            ],
            LibFeature::Testing => seq![
                ("devDependencies"@, "vitest"@),
                ("devDependencies"@, "@testing-library/react"@),
                ("devDependencies"@, "@testing-library/jest-dom"@),
                ("devDependencies"@, "jsdom"@),
                ("scripts"@, "test"@),
            ],
        }
    }

    /// The paths that belong to the feature.
    pub fn skip_rules(self) -> (rules: Vec<&'static str>)
        ensures
            rules_view(rules@) == self.rules(),
    {
        let rules = match self {
            LibFeature::React => vec!["src/components"],
            LibFeature::Css => vec!["src/styles"],
            LibFeature::Testing => vec!["vitest.config.ts", "src/__tests__"],
        };
        assert(rules_view(rules@) =~= self.rules());
        rules
    }

    /// The manifest entries that belong to the feature.
    pub fn manifest_entries(self) -> (entries: Vec<(&'static str, &'static str)>)
        ensures
            pairs_view(entries@) == self.entries(),
    {
        let entries = match self {
            LibFeature::React => vec![
                ("peerDependencies", "react"),
                ("peerDependencies", "react-dom"),
                ("devDependencies", "@types/react"),
                ("devDependencies", "@types/react-dom"),
                ("devDependencies", "react"),
                ("devDependencies", "react-dom"),
            ],
            LibFeature::Css => vec![
                ("dependencies", "tailwindcss"),
                ("dependencies", "@tailwindcss/vite"),
                ("devDependencies", "tailwindcss"),
                ("devDependencies", "@tailwindcss/vite"),
            ],
            LibFeature::Testing => vec![
                ("devDependencies", "vitest"),
                ("devDependencies", "@testing-library/react"),
                ("devDependencies", "@testing-library/jest-dom"),
                ("devDependencies", "jsdom"),
                ("scripts", "test"),
            ],
        };
        assert(pairs_view(entries@) =~= self.entries());
        entries
    }
}

impl Language {
    /// The language that a name selects: `javascript` selects JavaScript,
    /// every other name TypeScript.
    pub open spec fn named(name: Seq<char>) -> Language {
        if name == "javascript"@ {
            Language::JavaScript
        } else {
            Language::TypeScript
        }
    }

    /// The paths that a library in this language has no use for.
    pub open spec fn rules(self) -> Seq<Seq<char>> {
        match self {
            Language::TypeScript => Seq::empty(),
            Language::JavaScript => seq!["tsconfig.json"@],
        }
    }

    /// The manifest entries that a library in this language has no use for.
    pub open spec fn entries(self) -> Seq<(Seq<char>, Seq<char>)> {
        match self {
            Language::TypeScript => Seq::empty(),
            Language::JavaScript => seq![("devDependencies"@, "typescript"@)],
        }
    }

    /// The language that a name selects.
    pub fn from_name(name: &str) -> (language: Language)
        ensures
            language == Language::named(name@),
    {
        if str_eq(name, "javascript") {
            Language::JavaScript
        } else {
            Language::TypeScript
        }
    }

    /// The paths that a library in this language has no use for.
    pub fn skip_rules(self) -> (rules: Vec<&'static str>)
        ensures
            rules_view(rules@) == self.rules(),
    {
        let rules = match self {
            Language::TypeScript => Vec::new(),
            Language::JavaScript => vec!["tsconfig.json"],
        };
        assert(rules_view(rules@) =~= self.rules());
        rules
    }

    /// The manifest entries that a library in this language has no use for.
    pub fn manifest_entries(self) -> (entries: Vec<(&'static str, &'static str)>)
        ensures
            pairs_view(entries@) == self.entries(),
    {
        let entries = match self {
            Language::TypeScript => Vec::new(),
            Language::JavaScript => vec![("devDependencies", "typescript")],
        };
        assert(pairs_view(entries@) =~= self.entries());
        entries
    }
}

/// The skip rules of an application: those of the docs, then of
/// authentication, then of the database, each only where it is switched off.
pub open spec fn files_to_skip(include_docs: bool, include_auth: bool, include_db: bool) -> Seq<
    Seq<char>,
> {
    only_if(!include_docs, Feature::Docs.rules()) + only_if(!include_auth, Feature::Auth.rules())
        + only_if(!include_db, Feature::Db.rules())
}

/// The skip rules of a library: those of its language, then those of React,
/// of the styles and of the tests, each only where it is switched off.
pub open spec fn lib_files_to_skip(
    lang: Seq<char>,
    include_react: bool,
    include_css: bool,
    include_testing: bool,
) -> Seq<Seq<char>> {
    Language::named(lang).rules() + only_if(!include_react, LibFeature::React.rules()) + only_if(
        !include_css,
        LibFeature::Css.rules(),
    ) + only_if(!include_testing, LibFeature::Testing.rules())
}

/// What leaves the manifest of an application: the entries of the docs, then
/// of authentication, then of the database, each only where it is switched
/// off.
pub open spec fn manifest_removals(include_docs: bool, include_auth: bool, include_db: bool) -> Seq<
    (Seq<char>, Seq<char>),
> {
    only_if(!include_docs, Feature::Docs.entries()) + only_if(
        !include_auth,
        Feature::Auth.entries(),
    ) + only_if(!include_db, Feature::Db.entries())
}

/// What leaves the manifest of a library: the entries of its language, then
/// those of React, of the styles and of the tests, each only where it is
/// switched off.
pub open spec fn lib_manifest_removals(
    lang: Seq<char>,
    include_react: bool,
    include_css: bool,
    include_testing: bool,
) -> Seq<(Seq<char>, Seq<char>)> {
    Language::named(lang).entries() + only_if(!include_react, LibFeature::React.entries())
        + only_if(!include_css, LibFeature::Css.entries()) + only_if(
        !include_testing,
        LibFeature::Testing.entries(),
    )
}

/// Appends `rules` to `skip` where `wanted` holds.
fn append_rules(skip: &mut Vec<&'static str>, wanted: bool, rules: Vec<&'static str>)
    ensures
        rules_view(final(skip)@) == rules_view(old(skip)@) + only_if(wanted, rules_view(rules@)),
{
    if wanted {
        let mut rules = rules;
        let ghost added = rules@;
        skip.append(&mut rules);
        assert(rules_view(skip@) =~= rules_view(old(skip)@) + rules_view(added));
    } else {
        assert(rules_view(skip@) =~= rules_view(old(skip)@) + Seq::empty());
    }
}

/// Appends `entries` to `removals` where `wanted` holds.
fn append_entries(
    removals: &mut Vec<(&'static str, &'static str)>,
    wanted: bool,
    entries: Vec<(&'static str, &'static str)>,
)
    ensures
        pairs_view(final(removals)@) == pairs_view(old(removals)@) + only_if(
            wanted,
            pairs_view(entries@),
        ),
{
    if wanted {
        let mut entries = entries;
        let ghost added = entries@;
        removals.append(&mut entries);
        assert(pairs_view(removals@) =~= pairs_view(old(removals)@) + pairs_view(added));
    } else {
        assert(pairs_view(removals@) =~= pairs_view(old(removals)@) + Seq::empty());
    }
}

/// The path prefixes that an application leaves out of its output.
pub fn get_files_to_skip(include_docs: bool, include_auth: bool, include_db: bool) -> (skip: Vec<
    &'static str,
>)
    ensures
        rules_view(skip@) == files_to_skip(include_docs, include_auth, include_db),
{
    let mut skip: Vec<&'static str> = Vec::new();
    assert(rules_view(skip@) =~= Seq::empty());
    append_rules(&mut skip, !include_docs, Feature::Docs.skip_rules());
    append_rules(&mut skip, !include_auth, Feature::Auth.skip_rules());
    append_rules(&mut skip, !include_db, Feature::Db.skip_rules());
    assert(rules_view(skip@) =~= files_to_skip(include_docs, include_auth, include_db));
    skip
}

/// The path prefixes that a library leaves out of its output.
pub fn get_lib_files_to_skip(
    lang: &str,
    include_react: bool,
    include_css: bool,
    include_testing: bool,
) -> (skip: Vec<&'static str>)
    ensures
        rules_view(skip@) == lib_files_to_skip(lang@, include_react, include_css, include_testing),
{
    let mut skip: Vec<&'static str> = Language::from_name(lang).skip_rules();
    append_rules(&mut skip, !include_react, LibFeature::React.skip_rules());
    append_rules(&mut skip, !include_css, LibFeature::Css.skip_rules());
    append_rules(&mut skip, !include_testing, LibFeature::Testing.skip_rules());
    skip
}

/// Whether `path` is left out under `skip_patterns`: whether one of them is a
/// prefix of it, character by character.
pub fn should_skip_file(path: &str, skip_patterns: &[&str]) -> (skipped: bool)
    ensures
        skipped == is_skipped(path@, rules_view(skip_patterns@)),
{
    let mut i: usize = 0;
    while i < skip_patterns.len()
        invariant
            0 <= i <= skip_patterns.len(),
            forall|j: int|
                0 <= j < i ==> !(#[trigger] rules_view(skip_patterns@)[j]).is_prefix_of(path@),
        decreases skip_patterns.len() - i,
    {
        if starts_with(path, skip_patterns[i]) {
            assert(rules_view(skip_patterns@)[i as int].is_prefix_of(path@));
            return true;
        }
        i += 1;
    }
    false
}

/// What leaves the manifest of an application.
pub fn app_removals(include_docs: bool, include_auth: bool, include_db: bool) -> (out: Vec<
    (&'static str, &'static str),
>)
    ensures
        pairs_view(out@) == manifest_removals(include_docs, include_auth, include_db),
{
    let mut out: Vec<(&'static str, &'static str)> = Vec::new();
    assert(pairs_view(out@) =~= Seq::empty());
    append_entries(&mut out, !include_docs, Feature::Docs.manifest_entries());
    append_entries(&mut out, !include_auth, Feature::Auth.manifest_entries());
    append_entries(&mut out, !include_db, Feature::Db.manifest_entries());
    assert(pairs_view(out@) =~= manifest_removals(include_docs, include_auth, include_db));
    out
}

/// What leaves the manifest of a library.
pub fn lib_removals(
    lang: &str,
    include_react: bool,
    include_css: bool,
    include_testing: bool,
) -> (out: Vec<(&'static str, &'static str)>)
    ensures
        pairs_view(out@) == lib_manifest_removals(
            lang@,
            include_react,
            include_css,
            include_testing,
        ),
{
    let mut out: Vec<(&'static str, &'static str)> = Language::from_name(lang).manifest_entries();
    append_entries(&mut out, !include_react, LibFeature::React.manifest_entries());
    append_entries(&mut out, !include_css, LibFeature::Css.manifest_entries());
    append_entries(&mut out, !include_testing, LibFeature::Testing.manifest_entries());
    out
}

/// The text of an application's manifest after the entries of the features
/// that are switched off have left it. The template ships with every
/// dependency, so nothing is ever added. A manifest without one of the
/// sections keeps its other sections as they are. It fails for a text that
/// is not a JSON object, and for no other.
pub fn update_package_json(
    content: &str,
    include_docs: bool,
    include_auth: bool,
    include_db: bool,
) -> (res: Result<String, ManifestError>)
    ensures
        match res {
            Ok(text) => edited(
                content@,
                manifest_removals(include_docs, include_auth, include_db),
            ) == Ok::<_, ManifestFailure>(text@),
            Err(error) => edited(
                content@,
                manifest_removals(include_docs, include_auth, include_db),
            ) == Err::<Seq<char>, _>(error.failure()),
        },
{
    let out = app_removals(include_docs, include_auth, include_db);
    edit_manifest(content, out.as_slice())
}

/// The text of a library's manifest after the entries of the features that
/// are switched off, and those that its language has no use for, have left
/// it. It fails for a text that is not a JSON object, and for no other.
pub fn update_lib_package_json(
    content: &str,
    lang: &str,
    include_react: bool,
    include_css: bool,
    include_testing: bool,
) -> (res: Result<String, ManifestError>)
    ensures
        match res {
            Ok(text) => edited(
                content@,
                lib_manifest_removals(lang@, include_react, include_css, include_testing),
            ) == Ok::<_, ManifestFailure>(text@),
            Err(error) => edited(
                content@,
                lib_manifest_removals(lang@, include_react, include_css, include_testing),
            ) == Err::<Seq<char>, _>(error.failure()),
        },
{
    let out = lib_removals(lang, include_react, include_css, include_testing);
    edit_manifest(content, out.as_slice())
}

// ---------------------------------------------------------------------------
// What holds of the skip rules
// ---------------------------------------------------------------------------

/// The skip rules depend on the toggles alone: two lists that were computed
/// for the same toggles hold the same rules in the same order, and so the
/// same set of rules.
pub proof fn law_skip_rules_depend_on_toggles_alone(
    first: Seq<Seq<char>>,
    second: Seq<Seq<char>>,
    include_docs: bool,
    include_auth: bool,
    include_db: bool,
)
    requires
        first == files_to_skip(include_docs, include_auth, include_db),
        second == files_to_skip(include_docs, include_auth, include_db),
    ensures
        first == second,
        first.to_set() == second.to_set(),
{
}

/// The same holds of the skip rules of a library.
pub proof fn law_lib_skip_rules_depend_on_toggles_alone(
    first: Seq<Seq<char>>,
    second: Seq<Seq<char>>,
    lang: Seq<char>,
    include_react: bool,
    include_css: bool,
    include_testing: bool,
)
    requires
        first == lib_files_to_skip(lang, include_react, include_css, include_testing),
        second == lib_files_to_skip(lang, include_react, include_css, include_testing),
    ensures
        first == second,
        first.to_set() == second.to_set(),
{
}

/// With every feature switched on, an application skips nothing.
pub proof fn law_all_features_on_skips_nothing()
    ensures
        files_to_skip(true, true, true) == Seq::<Seq<char>>::empty(),
{
    assert(files_to_skip(true, true, true) =~= Seq::<Seq<char>>::empty());
}

/// With every feature switched on, a library in TypeScript skips nothing.
pub proof fn law_lib_all_features_on_skips_nothing(lang: Seq<char>)
    requires
        Language::named(lang) == Language::TypeScript,
    ensures
        lib_files_to_skip(lang, true, true, true) == Seq::<Seq<char>>::empty(),
{
    assert(lib_files_to_skip(lang, true, true, true) =~= Seq::<Seq<char>>::empty());
}

/// With every feature switched off, an application skips every rule of every
/// feature, and whatever the toggles are, it skips no rule beyond these.
pub proof fn law_all_features_off_skips_the_most(
    include_docs: bool,
    include_auth: bool,
    include_db: bool,
)
    ensures
        files_to_skip(false, false, false) == Feature::Docs.rules() + Feature::Auth.rules()
            + Feature::Db.rules(),
        forall|rule: Seq<char>|
            files_to_skip(include_docs, include_auth, include_db).contains(rule)
                ==> #[trigger] files_to_skip(false, false, false).contains(rule),
{
    let most = files_to_skip(false, false, false);
    let some = files_to_skip(include_docs, include_auth, include_db);
    let docs = only_if(!include_docs, Feature::Docs.rules());
    let auth = only_if(!include_auth, Feature::Auth.rules());
    let db = only_if(!include_db, Feature::Db.rules());
    assert forall|rule: Seq<char>| some.contains(rule) implies #[trigger] most.contains(rule) by {
        let i = choose|i: int| 0 <= i < some.len() && some[i] == rule;
        if i < docs.len() {
            assert(most[i] == rule);
        } else if i < docs.len() + auth.len() {
            assert(most[Feature::Docs.rules().len() + (i - docs.len())] == rule);
        } else {
            assert(most[Feature::Docs.rules().len() + Feature::Auth.rules().len() + (i
                - docs.len() - auth.len())] == rule);
        }
    }
}

/// With every feature switched off, a library in JavaScript skips every rule
/// of its language and of every feature, and whatever the language and the
/// toggles are, a library skips no rule beyond these.
pub proof fn law_lib_all_features_off_skips_the_most(
    lang: Seq<char>,
    include_react: bool,
    include_css: bool,
    include_testing: bool,
)
    ensures
        lib_files_to_skip("javascript"@, false, false, false) == Language::JavaScript.rules()
            + LibFeature::React.rules() + LibFeature::Css.rules() + LibFeature::Testing.rules(),
        forall|rule: Seq<char>|
            lib_files_to_skip(lang, include_react, include_css, include_testing).contains(rule)
                ==> #[trigger] lib_files_to_skip("javascript"@, false, false, false).contains(rule),
{
    let most = lib_files_to_skip("javascript"@, false, false, false);
    let some = lib_files_to_skip(lang, include_react, include_css, include_testing);
    let language = Language::named(lang).rules();
    let react = only_if(!include_react, LibFeature::React.rules());
    let css = only_if(!include_css, LibFeature::Css.rules());
    let testing = only_if(!include_testing, LibFeature::Testing.rules());
    assert forall|rule: Seq<char>| some.contains(rule) implies #[trigger] most.contains(rule) by {
        let i = choose|i: int| 0 <= i < some.len() && some[i] == rule;
        if i < language.len() {
            assert(most[i] == rule);
        } else if i < language.len() + react.len() {
            assert(most[1 + (i - language.len())] == rule);
        } else if i < language.len() + react.len() + css.len() {
            assert(most[2 + (i - language.len() - react.len())] == rule);
        } else {
            assert(most[3 + (i - language.len() - react.len() - css.len())] == rule);
        }
    }
}

/// A rule that covers a path covers every path that begins with it: with a
/// directory, everything below the directory is skipped.
pub proof fn law_skip_rule_covers_what_is_below(
    path: Seq<char>,
    rest: Seq<char>,
    rules: Seq<Seq<char>>,
)
    requires
        is_skipped(path, rules),
    ensures
        is_skipped(path + rest, rules),
{
    let i = choose|i: int| 0 <= i < rules.len() && #[trigger] rules[i].is_prefix_of(path);
    assert(rules[i].is_prefix_of(path + rest)) by {
        assert(rules[i] =~= (path + rest).subrange(0, rules[i].len() as int));
    }
}

// ---------------------------------------------------------------------------
// What holds of an edited manifest
// ---------------------------------------------------------------------------

/// Whether a feature of an application is switched on.
pub open spec fn is_included(
    feature: Feature,
    include_docs: bool,
    include_auth: bool,
    include_db: bool,
) -> bool {
    match feature {
        Feature::Docs => include_docs,
        Feature::Auth => include_auth,
        Feature::Db => include_db,
    }
}

/// Whether a feature of a library is switched on.
pub open spec fn is_lib_included(
    feature: LibFeature,
    include_react: bool,
    include_css: bool,
    include_testing: bool,
) -> bool {
    match feature {
        LibFeature::React => include_react,
        LibFeature::Css => include_css,
        LibFeature::Testing => include_testing,
    }
}

/// No manifest entry belongs to two features of an application.
pub proof fn lemma_entries_of_features_differ(first: Feature, second: Feature, i: int, j: int)
    requires
        first != second,
        0 <= i < first.entries().len(),
        0 <= j < second.entries().len(),
    ensures
        first.entries()[i] != second.entries()[j],
{
    reveal_strlit("@mdx-js/react");
    reveal_strlit("gray-matter");
    reveal_strlit("@mdx-js/rollup");
    reveal_strlit("remark-frontmatter");
    reveal_strlit("remark-mdx-frontmatter");
    reveal_strlit("@auth/core");
    reveal_strlit("pg");
    reveal_strlit("@types/pg");
    assert("@mdx-js/react"@.len() == 13);
    assert("gray-matter"@.len() == 11);
    assert("@mdx-js/rollup"@.len() == 14);
    assert("remark-frontmatter"@.len() == 18);
    assert("remark-mdx-frontmatter"@.len() == 22);
    assert("@auth/core"@.len() == 10);
    assert("pg"@.len() == 2);
    assert("@types/pg"@.len() == 9);
    assert(first.entries()[i].1.len() != second.entries()[j].1.len());
}

/// The manifest entries of the features that are switched off are all among
/// the removals, and no entry of a feature that is switched on is.
pub proof fn lemma_removals_are_those_of_what_is_off(
    include_docs: bool,
    include_auth: bool,
    include_db: bool,
    feature: Feature,
    i: int,
)
    requires
        0 <= i < feature.entries().len(),
    ensures
        manifest_removals(include_docs, include_auth, include_db).contains(feature.entries()[i])
            <==> !is_included(feature, include_docs, include_auth, include_db),
{
    let all = manifest_removals(include_docs, include_auth, include_db);
    let docs = only_if(!include_docs, Feature::Docs.entries());
    let auth = only_if(!include_auth, Feature::Auth.entries());
    let db = only_if(!include_db, Feature::Db.entries());
    let entry = feature.entries()[i];
    if !is_included(feature, include_docs, include_auth, include_db) {
        match feature {
            Feature::Docs => {
                assert(all[i] == entry);
            },
            Feature::Auth => {
                assert(all[docs.len() + i] == entry);
            },
            Feature::Db => {
                assert(all[docs.len() + auth.len() + i] == entry);
            },
        }
    } else if all.contains(entry) {
        let k = choose|k: int| 0 <= k < all.len() && all[k] == entry;
        if k < docs.len() {
            lemma_entries_of_features_differ(feature, Feature::Docs, i, k);
        } else if k < docs.len() + auth.len() {
            lemma_entries_of_features_differ(feature, Feature::Auth, i, k - docs.len());
        } else {
            lemma_entries_of_features_differ(feature, Feature::Db, i, k - docs.len() - auth.len());
        }
    }
}

/// After the edit, the manifest of an application holds exactly the entries
/// that it held before and that are not among the removals.
pub proof fn law_manifest_keeps_what_is_not_removed(
    doc: ManifestView,
    include_docs: bool,
    include_auth: bool,
    include_db: bool,
    section: Seq<char>,
    key: Seq<char>,
    value: Json,
)
    ensures
        has_entry(
            without_entries(doc, manifest_removals(include_docs, include_auth, include_db)),
            section,
            key,
            value,
        ) <==> has_entry(doc, section, key, value) && !manifest_removals(
            include_docs,
            include_auth,
            include_db,
        ).contains((section, key)),
{
    lemma_without_entries(
        doc,
        manifest_removals(include_docs, include_auth, include_db),
        section,
        key,
        value,
    );
}

/// After the edit, no entry of a feature that is switched off is left in the
/// manifest of an application, whatever its value.
pub proof fn law_feature_that_is_off_leaves_no_entry(
    doc: ManifestView,
    include_docs: bool,
    include_auth: bool,
    include_db: bool,
    feature: Feature,
    i: int,
    value: Json,
)
    requires
        !is_included(feature, include_docs, include_auth, include_db),
        0 <= i < feature.entries().len(),
    ensures
        !has_entry(
            without_entries(doc, manifest_removals(include_docs, include_auth, include_db)),
            feature.entries()[i].0,
            feature.entries()[i].1,
            value,
        ),
{
    lemma_removals_are_those_of_what_is_off(include_docs, include_auth, include_db, feature, i);
    lemma_without_entries(
        doc,
        manifest_removals(include_docs, include_auth, include_db),
        feature.entries()[i].0,
        feature.entries()[i].1,
        value,
    );
}

/// After the edit, every entry of a feature that is switched on is in the
/// manifest of an application as it was before, with its value.
pub proof fn law_feature_that_is_on_keeps_its_entries(
    doc: ManifestView,
    include_docs: bool,
    include_auth: bool,
    include_db: bool,
    feature: Feature,
    i: int,
    value: Json,
)
    requires
        is_included(feature, include_docs, include_auth, include_db),
        0 <= i < feature.entries().len(),
    ensures
        has_entry(
            without_entries(doc, manifest_removals(include_docs, include_auth, include_db)),
            feature.entries()[i].0,
            feature.entries()[i].1,
            value,
        ) == has_entry(doc, feature.entries()[i].0, feature.entries()[i].1, value),
{
    lemma_removals_are_those_of_what_is_off(include_docs, include_auth, include_db, feature, i);
    lemma_without_entries(
        doc,
        manifest_removals(include_docs, include_auth, include_db),
        feature.entries()[i].0,
        feature.entries()[i].1,
        value,
    );
}

/// After the edit, the manifest of a library holds exactly the entries that
/// it held before and that are not among the removals.
pub proof fn law_lib_manifest_keeps_what_is_not_removed(
    doc: ManifestView,
    lang: Seq<char>,
    include_react: bool,
    include_css: bool,
    include_testing: bool,
    section: Seq<char>,
    key: Seq<char>,
    value: Json,
)
    ensures
        has_entry(
            without_entries(
                doc,
                lib_manifest_removals(lang, include_react, include_css, include_testing),
            ),
            section,
            key,
            value,
        ) <==> has_entry(doc, section, key, value) && !lib_manifest_removals(
            lang,
            include_react,
            include_css,
            include_testing,
        ).contains((section, key)),
{
    lemma_without_entries(
        doc,
        lib_manifest_removals(lang, include_react, include_css, include_testing),
        section,
        key,
        value,
    );
}

/// After the edit, no entry of a feature that is switched off is left in the
/// manifest of a library, whatever its value.
pub proof fn law_lib_feature_that_is_off_leaves_no_entry(
    doc: ManifestView,
    lang: Seq<char>,
    include_react: bool,
    include_css: bool,
    include_testing: bool,
    feature: LibFeature,
    i: int,
    value: Json,
)
    requires
        !is_lib_included(feature, include_react, include_css, include_testing),
        0 <= i < feature.entries().len(),
    ensures
        !has_entry(
            without_entries(
                doc,
                lib_manifest_removals(lang, include_react, include_css, include_testing),
            ),
            feature.entries()[i].0,
            feature.entries()[i].1,
            value,
        ),
{
    let all = lib_manifest_removals(lang, include_react, include_css, include_testing);
    let language = Language::named(lang).entries();
    let react = only_if(!include_react, LibFeature::React.entries());
    let css = only_if(!include_css, LibFeature::Css.entries());
    let entry = feature.entries()[i];
    assert(all.contains(entry)) by {
        match feature {
            LibFeature::React => {
                assert(all[language.len() + i] == entry);
            },
            LibFeature::Css => {
                assert(all[language.len() + react.len() + i] == entry);
            },
            LibFeature::Testing => {
                assert(all[language.len() + react.len() + css.len() + i] == entry);
            },
        }
    }
    lemma_without_entries(doc, all, entry.0, entry.1, value);
}

/// The length and the first character of the name of a manifest entry.
pub open spec fn key_mark(entry: (Seq<char>, Seq<char>)) -> (nat, char) {
    (entry.1.len(), entry.1[0])
}

/// No manifest entry belongs to two features of a library, and none belongs
/// to a feature and to the language.
pub proof fn lemma_entries_of_lib_features_differ()
    ensures
        forall|first: LibFeature, second: LibFeature, i: int, j: int|
            first != second && 0 <= i < first.entries().len() && 0 <= j < second.entries().len()
                ==> #[trigger] first.entries()[i] != #[trigger] second.entries()[j],
        forall|feature: LibFeature, i: int|
            0 <= i < feature.entries().len() ==> #[trigger] feature.entries()[i]
                != Language::JavaScript.entries()[0],
{
    reveal_strlit("typescript");
    reveal_strlit("react");
    reveal_strlit("react-dom");
    reveal_strlit("@types/react");
    reveal_strlit("@types/react-dom");
    reveal_strlit("tailwindcss");
    reveal_strlit("@tailwindcss/vite");
    reveal_strlit("vitest");
    reveal_strlit("@testing-library/react");
    reveal_strlit("@testing-library/jest-dom");
    reveal_strlit("jsdom");
    reveal_strlit("test");
    assert("typescript"@.len() == 10);
    assert("react"@.len() == 5 && "react"@[0] == 'r');
    assert("react-dom"@.len() == 9);
    assert("@types/react"@.len() == 12);
    assert("@types/react-dom"@.len() == 16);
    assert("tailwindcss"@.len() == 11);
    assert("@tailwindcss/vite"@.len() == 17);
    assert("vitest"@.len() == 6);
    assert("@testing-library/react"@.len() == 22);
    assert("@testing-library/jest-dom"@.len() == 25);
    assert("jsdom"@.len() == 5 && "jsdom"@[0] == 'j');
    assert("test"@.len() == 4);
    assert forall|first: LibFeature, second: LibFeature, i: int, j: int|
        first != second && 0 <= i < first.entries().len() && 0 <= j < second.entries().len()
        implies #[trigger] first.entries()[i] != #[trigger] second.entries()[j] by {
        assert(key_mark(first.entries()[i]) != key_mark(second.entries()[j]));
    }
    assert forall|feature: LibFeature, i: int| 0 <= i < feature.entries().len() implies
        #[trigger] feature.entries()[i] != Language::JavaScript.entries()[0] by {
        assert(key_mark(feature.entries()[i]) != key_mark(Language::JavaScript.entries()[0]));
    }
}

/// After the edit, every entry of a feature that is switched on is in the
/// manifest of a library as it was before, with its value.
pub proof fn law_lib_feature_that_is_on_keeps_its_entries(
    doc: ManifestView,
    lang: Seq<char>,
    include_react: bool,
    include_css: bool,
    include_testing: bool,
    feature: LibFeature,
    i: int,
    value: Json,
)
    requires
        is_lib_included(feature, include_react, include_css, include_testing),
        0 <= i < feature.entries().len(),
    ensures
        has_entry(
            without_entries(
                doc,
                lib_manifest_removals(lang, include_react, include_css, include_testing),
            ),
            feature.entries()[i].0,
            feature.entries()[i].1,
            value,
        ) == has_entry(doc, feature.entries()[i].0, feature.entries()[i].1, value),
{
    let all = lib_manifest_removals(lang, include_react, include_css, include_testing);
    let language = Language::named(lang).entries();
    let react = only_if(!include_react, LibFeature::React.entries());
    let css = only_if(!include_css, LibFeature::Css.entries());
    let testing = only_if(!include_testing, LibFeature::Testing.entries());
    let entry = feature.entries()[i];
    lemma_entries_of_lib_features_differ();
    if all.contains(entry) {
        let k = choose|k: int| 0 <= k < all.len() && all[k] == entry;
        if k < language.len() {
            assert(all[k] == Language::JavaScript.entries()[0]);
        } else if k < language.len() + react.len() {
            assert(all[k] == LibFeature::React.entries()[k - language.len()]);
        } else if k < language.len() + react.len() + css.len() {
            assert(all[k] == LibFeature::Css.entries()[k - language.len() - react.len()]);
        } else {
            assert(all[k] == LibFeature::Testing.entries()[k - language.len() - react.len()
                - css.len()]);
        }
        assert(false);
    }
    lemma_without_entries(doc, all, entry.0, entry.1, value);
}

} // verus!
