//! The dependency manifest of a generated project.
//!
//! A manifest is a JSON object. Some of its members are sections: objects that
//! map an entry name to a value (`dependencies`, `devDependencies`, ...). The
//! editing rules look at member names and entry names only; every value is
//! carried through untouched.
//!
//! JSON is left to `serde_json`: it reads and writes the text, and its map
//! holds the members of the manifest and the entries of each section. The
//! contracts speak of what a value and a map hold. What text stands for which
//! value is named here, not defined.

use vstd::prelude::*;

verus! {

/// `serde_json::Value`, carried as an opaque value.
#[verifier::external_type_specification]
#[verifier::external_body]
pub struct ExJsonValue(serde_json::Value);

/// `serde_json::Error`, carried as an opaque value.
#[verifier::external_type_specification]
#[verifier::external_body]
pub struct ExJsonError(serde_json::Error);

/// `serde_json::Map`, the map of a JSON object.
#[verifier::external_type_specification]
#[verifier::external_body]
#[verifier::reject_recursive_types(K)]
#[verifier::reject_recursive_types(V)]
pub struct ExJsonMap<K, V>(serde_json::Map<K, V>);

/// What a JSON value holds.
pub enum Json {
    Null,
    Bool(bool),
    /// A number, as the text that stands for it.
    Number(Seq<char>),
    Str(Seq<char>),
    Array(Seq<Json>),
    /// The members of an object: each name with its value.
    Object(Map<Seq<char>, Json>),
}

/// The members of an object, or the entries of a section: each name with
/// what its value holds.
pub type Entries = Map<Seq<char>, Json>;

/// What a manifest holds: the members of its root object.
pub type ManifestView = Map<Seq<char>, Json>;

/// What `value` holds.
pub uninterp spec fn json_of(value: serde_json::Value) -> Json;

/// What `map` holds: each name with what its value holds.
pub uninterp spec fn json_entries(map: serde_json::Map<String, serde_json::Value>) -> Entries;

/// What the JSON value holds that `serde_json::from_str` reads from `text`,
/// if it reads one.
pub uninterp spec fn json_parse(text: Seq<char>) -> Option<Json>;

/// The indented text that `serde_json::to_string_pretty` writes for a value
/// that holds `value`.
pub uninterp spec fn json_pretty(value: Json) -> Seq<char>;

/// Calls `serde_json::from_str` for a `serde_json::Value`. It either fails or
/// returns a value; which of the two, and what the value holds, depend on
/// the text alone.
#[verifier::external_body]
fn parse_value(text: &str) -> (res: Result<serde_json::Value, serde_json::Error>)
    ensures
        res is Ok <==> json_parse(text@) is Some,
        res matches Ok(value) ==> json_parse(text@) == Some(json_of(value)),
{
    serde_json::from_str::<serde_json::Value>(text)
}

/// Takes the map out of `Value::Object`, or hands the value back where it is
/// of another variant.
#[verifier::external_body]
fn into_map(value: serde_json::Value) -> (res: Result<
    serde_json::Map<String, serde_json::Value>,
    serde_json::Value,
>)
    ensures
        res matches Ok(map) ==> json_of(value) == Json::Object(json_entries(map)),
        res matches Err(other) ==> other == value && !(json_of(value) is Object),
{
    match value {
        serde_json::Value::Object(map) => Ok(map),
        other => Err(other),
    }
}

/// Builds `Value::Object` round a map.
#[verifier::external_body]
fn object_value(map: serde_json::Map<String, serde_json::Value>) -> (value: serde_json::Value)
    ensures
        json_of(value) == Json::Object(json_entries(map)),
{
    serde_json::Value::Object(map)
}

/// Builds `Value::String` through `From<&str>` of `serde_json::Value`.
#[verifier::external_body]
fn string_value(text: &str) -> (value: serde_json::Value)
    ensures
        json_of(value) == Json::Str(text@),
{
    serde_json::Value::from(text)
}

/// Calls `serde_json::Map::remove`: the entry of that name leaves the map,
/// and its value is returned; a map without such an entry stays as it is.
#[verifier::external_body]
fn map_remove(map: &mut serde_json::Map<String, serde_json::Value>, key: &str) -> (res: Option<
    serde_json::Value,
>)
    ensures
        json_entries(*final(map)) == json_entries(*old(map)).remove(key@),
        match res {
            Some(value) => json_entries(*old(map)).contains_key(key@) && json_entries(
                *old(map),
            )[key@] == json_of(value),
            None => !json_entries(*old(map)).contains_key(key@),
        },
{
    map.remove(key)
}

/// Calls `serde_json::Map::insert`: the map holds the value under that name,
/// in place of the value that it held there, which is returned.
#[verifier::external_body]
fn map_insert(
    map: &mut serde_json::Map<String, serde_json::Value>,
    key: String,
    value: serde_json::Value,
) -> (res: Option<serde_json::Value>)
    ensures
        json_entries(*final(map)) == json_entries(*old(map)).insert(key@, json_of(value)),
        match res {
            Some(before) => json_entries(*old(map)).contains_key(key@) && json_entries(
                *old(map),
            )[key@] == json_of(before),
            None => !json_entries(*old(map)).contains_key(key@),
        },
{
    map.insert(key, value)
}

/// Calls `serde_json::Map::get`: the value under that name, if the map holds
/// one.
#[verifier::external_body]
fn map_get<'a>(map: &'a serde_json::Map<String, serde_json::Value>, key: &str) -> (res: Option<
    &'a serde_json::Value,
>)
    ensures
        match res {
            Some(value) => json_entries(*map).contains_key(key@) && json_entries(*map)[key@]
                == json_of(*value),
            None => !json_entries(*map).contains_key(key@),
        },
{
    map.get(key)
}

/// Calls `serde_json::Value::is_object`: whether the value is an object.
#[verifier::external_body]
fn is_object(value: &serde_json::Value) -> (res: bool)
    ensures
        res == (json_of(*value) is Object),
{
    value.is_object()
}

/// Calls `serde_json::Map::new`: a map that holds nothing.
#[verifier::external_body]
fn map_new() -> (map: serde_json::Map<String, serde_json::Value>)
    ensures
        json_entries(map) == Entries::empty(),
{
    serde_json::Map::new()
}

/// Calls `serde_json::to_string_pretty` on a `serde_json::Value`. The only
/// errors of the writer are those of its output and of a map whose names are
/// not strings; a `Value` written into a string gives neither, so the call
/// succeeds. The map of an object keeps its members in the order of their
/// names, so the text depends on what the value holds alone.
#[verifier::external_body]
fn pretty_text(value: &serde_json::Value) -> (res: Result<String, serde_json::Error>)
    ensures
        res is Ok,
        res matches Ok(text) ==> text@ == json_pretty(json_of(*value)),
{
    serde_json::to_string_pretty(value)
}

/// What can be wrong with a manifest.
#[derive(Clone, Copy, Debug, PartialEq, Eq, Structural)]
pub enum ManifestFailure {
    /// The text is not JSON.
    InvalidJson,
    /// The text is JSON, but its root is not an object.
    NotAnObject,
    /// A member that should receive an entry exists, and is not an object.
    NotASection,
}

/// Why a manifest could not be edited.
#[derive(Debug)]
pub enum ManifestError {
    /// The text is not JSON.
    Parse(serde_json::Error),
    /// The text is JSON, but its root is not an object.
    NotAnObject,
    /// A member that should receive an entry exists, and is not an object.
    NotASection,
}

impl ManifestError {
    /// What was wrong with the manifest.
    pub open spec fn failure(self) -> ManifestFailure {
        match self {
            ManifestError::Parse(_) => ManifestFailure::InvalidJson,
            ManifestError::NotAnObject => ManifestFailure::NotAnObject,
            ManifestError::NotASection => ManifestFailure::NotASection,
        }
    }
}

/// A manifest: the map of its root object.
#[derive(Debug, PartialEq)]
pub struct Manifest {
    pub root: serde_json::Map<String, serde_json::Value>,
}

impl View for Manifest {
    type V = ManifestView;

    open spec fn view(&self) -> ManifestView {
        json_entries(self.root)
    }
}

/// A list of `(section, key)` pairs, as character sequences.
pub open spec fn pairs_view(pairs: Seq<(&str, &str)>) -> Seq<(Seq<char>, Seq<char>)> {
    pairs.map_values(|p: (&str, &str)| (p.0@, p.1@))
}

/// A list of `(section, key, text)` triples, as character sequences.
pub open spec fn triples_view(triples: Seq<(&str, &str, &str)>) -> Seq<
    (Seq<char>, Seq<char>, Seq<char>),
> {
    triples.map_values(|t: (&str, &str, &str)| (t.0@, t.1@, t.2@))
}

// ---------------------------------------------------------------------------
// Reading and writing
// ---------------------------------------------------------------------------

/// The manifest that a text stands for.
pub open spec fn parsed_manifest(text: Seq<char>) -> Result<ManifestView, ManifestFailure> {
    match json_parse(text) {
        Some(Json::Object(members)) => Ok(members),
        Some(_) => Err(ManifestFailure::NotAnObject),
        None => Err(ManifestFailure::InvalidJson),
    }
}

/// The text of a manifest.
pub open spec fn manifest_text(doc: ManifestView) -> Seq<char> {
    json_pretty(Json::Object(doc))
}

// ---------------------------------------------------------------------------
// Taking entries out
// ---------------------------------------------------------------------------

/// Whether the manifest has a member `section` that is an object.
pub open spec fn has_section(doc: ManifestView, section: Seq<char>) -> bool {
    doc.contains_key(section) && doc[section] is Object
}

/// The manifest after the entry `key` has been taken out of the section
/// `section`. A manifest without that section stays as it is, and so does
/// one whose member of that name is not an object.
pub open spec fn without_entry(
    doc: ManifestView,
    section: Seq<char>,
    key: Seq<char>,
) -> ManifestView {
    if has_section(doc, section) {
        doc.insert(section, Json::Object(doc[section]->Object_0.remove(key)))
    } else {
        doc
    }
}

/// The manifest after each `(section, key)` of `removals` has been taken out,
/// in that order.
pub open spec fn without_entries(
    doc: ManifestView,
    removals: Seq<(Seq<char>, Seq<char>)>,
) -> ManifestView
    decreases removals.len(),
{
    if removals.len() == 0 {
        doc
    } else {
        without_entry(
            without_entries(doc, removals.drop_last()),
            removals.last().0,
            removals.last().1,
        )
    }
}

/// The text of the manifest `text` after `removals` have been taken out.
pub open spec fn edited(text: Seq<char>, removals: Seq<(Seq<char>, Seq<char>)>) -> Result<
    Seq<char>,
    ManifestFailure,
> {
    match parsed_manifest(text) {
        Ok(doc) => Ok(manifest_text(without_entries(doc, removals))),
        Err(failure) => Err(failure),
    }
}

// ---------------------------------------------------------------------------
// Putting entries in
// ---------------------------------------------------------------------------

/// The manifest with `value` under `key` in the section `section`, the
/// section created where no member has that name. A member of that name
/// that is not an object is a failure.
pub open spec fn with_entry(
    doc: ManifestView,
    section: Seq<char>,
    key: Seq<char>,
    value: Json,
) -> Result<ManifestView, ManifestFailure> {
    if has_section(doc, section) {
        Ok(doc.insert(section, Json::Object(doc[section]->Object_0.insert(key, value))))
    } else if doc.contains_key(section) {
        Err(ManifestFailure::NotASection)
    } else {
        Ok(doc.insert(section, Json::Object(Entries::empty().insert(key, value))))
    }
}

/// The manifest after each `(section, key, text)` of `additions` has been put
/// in as a JSON string, in that order; the first failure ends it.
pub open spec fn with_entries(
    doc: ManifestView,
    additions: Seq<(Seq<char>, Seq<char>, Seq<char>)>,
) -> Result<ManifestView, ManifestFailure>
    decreases additions.len(),
{
    if additions.len() == 0 {
        Ok(doc)
    } else {
        match with_entries(doc, additions.drop_last()) {
            Ok(before) => with_entry(
                before,
                additions.last().0,
                additions.last().1,
                Json::Str(additions.last().2),
            ),
            Err(failure) => Err(failure),
        }
    }
}

// ---------------------------------------------------------------------------
// What holds of an edited manifest
// ---------------------------------------------------------------------------

/// Whether the section `section` of the manifest holds `value` under `key`.
pub open spec fn has_entry(
    doc: ManifestView,
    section: Seq<char>,
    key: Seq<char>,
    value: Json,
) -> bool {
    has_section(doc, section) && doc[section]->Object_0.contains_key(key)
        && doc[section]->Object_0[key] == value
}

/// After one entry has been taken out, the manifest holds exactly the
/// entries that it held before, but for that one.
pub proof fn lemma_without_entry(
    doc: ManifestView,
    section: Seq<char>,
    key: Seq<char>,
    other_section: Seq<char>,
    other_key: Seq<char>,
    value: Json,
)
    ensures
        has_entry(without_entry(doc, section, key), other_section, other_key, value) <==> has_entry(
            doc,
            other_section,
            other_key,
            value,
        ) && !(other_section == section && other_key == key),
{
}

/// After entries have been taken out, the manifest holds exactly the entries
/// that it held before and that are not among the removals: none of these
/// is left, and every other entry is still there with its value.
pub proof fn lemma_without_entries(
    doc: ManifestView,
    removals: Seq<(Seq<char>, Seq<char>)>,
    section: Seq<char>,
    key: Seq<char>,
    value: Json,
)
    ensures
        has_entry(without_entries(doc, removals), section, key, value) <==> has_entry(
            doc,
            section,
            key,
            value,
        ) && !removals.contains((section, key)),
    decreases removals.len(),
{
    if removals.len() > 0 {
        let front = removals.drop_last();
        let last = removals.last();
        lemma_without_entries(doc, front, section, key, value);
        lemma_without_entry(without_entries(doc, front), last.0, last.1, section, key, value);
        assert(removals =~= front.push(last));
        assert(removals.contains((section, key)) <==> front.contains((section, key)) || last == (
            section,
            key,
        )) by {
            if front.contains((section, key)) {
                let j = choose|j: int| 0 <= j < front.len() && front[j] == (section, key);
                assert(removals[j] == (section, key));
            }
            if last == (section, key) {
                assert(removals[removals.len() - 1] == (section, key));
            }
            if removals.contains((section, key)) {
                let j = choose|j: int| 0 <= j < removals.len() && removals[j] == (section, key);
                if j < front.len() {
                    assert(front[j] == (section, key));
                }
            }
        }
    }
}

/// Taking entries out leaves the members in place: the manifest has the
/// same member names, each section is still a section, and every member
/// that is not a section is as it was.
pub proof fn law_removal_keeps_the_members(
    doc: ManifestView,
    removals: Seq<(Seq<char>, Seq<char>)>,
)
    ensures
        without_entries(doc, removals).dom() == doc.dom(),
        forall|name: Seq<char>|
            has_section(doc, name) <==> has_section(
                #[trigger] without_entries(doc, removals),
                name,
            ),
        forall|name: Seq<char>|
            doc.contains_key(name) && !has_section(doc, name) ==> (#[trigger] without_entries(
                doc,
                removals,
            )[name]) == doc[name],
    decreases removals.len(),
{
    if removals.len() > 0 {
        let before = without_entries(doc, removals.drop_last());
        law_removal_keeps_the_members(doc, removals.drop_last());
        let after = without_entries(doc, removals);
        assert(after.dom() =~= before.dom());
        assert forall|name: Seq<char>| has_section(doc, name) <==> has_section(after, name) by {
            assert(has_section(doc, name) <==> has_section(before, name));
        }
        assert forall|name: Seq<char>| doc.contains_key(name) && !has_section(doc, name) implies (
        #[trigger] after[name]) == doc[name] by {
            assert(has_section(doc, name) <==> has_section(before, name));
            assert(before[name] == doc[name]);
        }
    }
}

/// Taking nothing out leaves the manifest as it is, and taking out an entry
/// that is not there does so too.
pub proof fn law_removal_of_what_is_missing_changes_nothing(
    doc: ManifestView,
    section: Seq<char>,
    key: Seq<char>,
)
    requires
        !has_section(doc, section) || !doc[section]->Object_0.contains_key(key),
    ensures
        without_entry(doc, section, key) == doc,
        without_entries(doc, Seq::empty()) == doc,
{
    if has_section(doc, section) {
        let entries = doc[section]->Object_0;
        assert(entries.remove(key) =~= entries);
        assert(doc.insert(section, Json::Object(entries)) =~= doc);
    }
}

/// Two manifests are the same where they have the same members, the same
/// members are sections, the members that are no sections are the same, and
/// the sections hold the same entries.
pub proof fn lemma_same_manifest(first: ManifestView, second: ManifestView)
    requires
        first.dom() == second.dom(),
        forall|name: Seq<char>| has_section(first, name) <==> has_section(second, name),
        forall|name: Seq<char>|
            first.contains_key(name) && !has_section(first, name) ==> first[name] == second[name],
        forall|section: Seq<char>, key: Seq<char>, value: Json|
            has_entry(first, section, key, value) <==> has_entry(second, section, key, value),
    ensures
        first == second,
{
    assert forall|name: Seq<char>| first.contains_key(name) implies first[name] == second[name] by {
        if has_section(first, name) {
            assert(has_section(second, name));
            let a = first[name]->Object_0;
            let b = second[name]->Object_0;
            assert forall|key: Seq<char>| a.contains_key(key) <==> b.contains_key(key) by {
                if a.contains_key(key) {
                    assert(has_entry(first, name, key, a[key]));
                    assert(has_entry(second, name, key, a[key]));
                }
                if b.contains_key(key) {
                    assert(has_entry(second, name, key, b[key]));
                    assert(has_entry(first, name, key, b[key]));
                }
            }
            assert forall|key: Seq<char>| a.contains_key(key) implies a[key] == b[key] by {
                assert(has_entry(first, name, key, a[key]));
                assert(has_entry(second, name, key, a[key]));
            }
            assert(a =~= b);
        }
    }
    assert forall|name: Seq<char>| first.contains_key(name) <==> second.contains_key(name) by {
        assert(first.dom().contains(name) <==> second.dom().contains(name));
    }
    assert(first =~= second);
}

/// Taking the same entries out once more changes nothing.
pub proof fn law_removal_twice_is_removal_once(
    doc: ManifestView,
    removals: Seq<(Seq<char>, Seq<char>)>,
)
    ensures
        without_entries(without_entries(doc, removals), removals) == without_entries(doc, removals),
{
    let once = without_entries(doc, removals);
    let twice = without_entries(once, removals);
    law_removal_keeps_the_members(doc, removals);
    law_removal_keeps_the_members(once, removals);
    assert forall|section: Seq<char>, key: Seq<char>, value: Json|
        has_entry(twice, section, key, value) <==> has_entry(once, section, key, value) by {
        lemma_without_entries(doc, removals, section, key, value);
        lemma_without_entries(once, removals, section, key, value);
    }
    assert forall|name: Seq<char>| twice.contains_key(name) && !has_section(twice, name)
        implies twice[name] == once[name] by {
        assert(has_section(once, name) <==> has_section(twice, name));
        assert(twice.dom().contains(name));
    }
    lemma_same_manifest(twice, once);
}

// ---------------------------------------------------------------------------
// The operations
// ---------------------------------------------------------------------------

impl Manifest {
    /// The manifest for what the JSON reader returned.
    pub fn from_parsed(parsed: Result<serde_json::Value, serde_json::Error>) -> (res: Result<
        Manifest,
        ManifestError,
    >)
        ensures
            match parsed {
                Ok(value) => match json_of(value) {
                    Json::Object(members) => res is Ok && res->Ok_0@ == members,
                    _ => res is Err && res->Err_0 is NotAnObject,
                },
                Err(error) => res == Err::<Manifest, ManifestError>(ManifestError::Parse(error)),
            },
    {
        match parsed {
            Err(error) => Err(ManifestError::Parse(error)),
            Ok(value) => match into_map(value) {
                Err(_) => Err(ManifestError::NotAnObject),
                Ok(root) => Ok(Manifest { root }),
            },
        }
    }

    /// Reads a manifest from JSON text.
    pub fn parse(text: &str) -> (res: Result<Manifest, ManifestError>)
        ensures
            match res {
                Ok(manifest) => parsed_manifest(text@) == Ok::<_, ManifestFailure>(manifest@),
                Err(error) => parsed_manifest(text@) == Err::<ManifestView, _>(error.failure()),
            },
    {
        Manifest::from_parsed(parse_value(text))
    }

    /// The JSON value of the manifest.
    pub fn into_value(self) -> (value: serde_json::Value)
        ensures
            json_of(value) == Json::Object(self@),
    {
        object_value(self.root)
    }

    /// The manifest as indented JSON text.
    pub fn into_text(self) -> (text: String)
        ensures
            text@ == manifest_text(self@),
    {
        let value = self.into_value();
        match pretty_text(&value) {
            Ok(text) => text,
            Err(_) => String::new(),
        }
    }

    /// Takes the entry `key` out of the section `section`. A manifest without
    /// that section, or without that entry, stays as it is.
    pub fn remove_entry(&mut self, section: &str, key: &str)
        ensures
            final(self)@ == without_entry(old(self)@, section@, key@),
    {
        let ghost before = self@;
        match map_remove(&mut self.root, section) {
            None => {
                assert(self@ =~= before);
            },
            Some(member) => match into_map(member) {
                Ok(mut entries) => {
                    let ghost held = json_entries(entries);
                    let _ = map_remove(&mut entries, key);
                    let _ = map_insert(&mut self.root, section.to_owned(), object_value(entries));
                    assert(self@ =~= before.insert(section@, Json::Object(held.remove(key@))));
                },
                Err(other) => {
                    let _ = map_insert(&mut self.root, section.to_owned(), other);
                    assert(self@ =~= before);
                },
            },
        }
    }

    /// Takes each `(section, key)` of `removals` out of the manifest.
    pub fn remove_entries(&mut self, removals: &[(&str, &str)])
        ensures
            final(self)@ == without_entries(old(self)@, pairs_view(removals@)),
    {
        let ghost all = pairs_view(removals@);
        let mut i: usize = 0;
        while i < removals.len()
            invariant
                0 <= i <= removals.len(),
                all == pairs_view(removals@),
                self@ == without_entries(old(self)@, all.take(i as int)),
            decreases removals.len() - i,
        {
            proof {
                assert(all.take(i as int + 1).drop_last() == all.take(i as int));
            }
            self.remove_entry(removals[i].0, removals[i].1);
            i += 1;
        }
        assert(all.take(i as int) == all);
    }

    /// Whether no member of the manifest stands where the section `section`
    /// should: whether the member is missing or is an object.
    pub fn allows_section(&self, section: &str) -> (allowed: bool)
        ensures
            allowed == (!self@.contains_key(section@) || has_section(self@, section@)),
    {
        match map_get(&self.root, section) {
            None => true,
            Some(member) => is_object(member),
        }
    }

    /// Puts `value` under `key` in the section `section`. A section that is
    /// missing is created; an entry of that name is replaced. Where the
    /// member exists and is not an object, the manifest stays as it is.
    pub fn insert_entry(&mut self, section: &str, key: &str, value: serde_json::Value) -> (res:
        Result<(), ManifestError>)
        ensures
            match res {
                Ok(_) => with_entry(old(self)@, section@, key@, json_of(value)) == Ok::<
                    _,
                    ManifestFailure,
                >(final(self)@),
                Err(error) => error is NotASection && final(self)@ == old(self)@ && with_entry(
                    old(self)@,
                    section@,
                    key@,
                    json_of(value),
                ) == Err::<ManifestView, _>(ManifestFailure::NotASection),
            },
    {
        let ghost before = self@;
        let mut entries = match map_remove(&mut self.root, section) {
            None => map_new(),
            Some(member) => match into_map(member) {
                Ok(entries) => entries,
                Err(other) => {
                    let _ = map_insert(&mut self.root, section.to_owned(), other);
                    assert(self@ =~= before);
                    return Err(ManifestError::NotASection);
                },
            },
        };
        let ghost held = json_entries(entries);
        let _ = map_insert(&mut entries, key.to_owned(), value);
        let _ = map_insert(&mut self.root, section.to_owned(), object_value(entries));
        assert(self@ =~= before.insert(
            section@,
            Json::Object(held.insert(key@, json_of(value))),
        ));
        Ok(())
    }

    /// Puts each `(section, key, text)` of `additions` into the manifest, the
    /// text as a JSON string. The first failure ends it, and what was put in
    /// before stays.
    pub fn insert_entries(&mut self, additions: &[(&str, &str, &str)]) -> (res: Result<
        (),
        ManifestError,
    >)
        ensures
            match res {
                Ok(_) => with_entries(old(self)@, triples_view(additions@)) == Ok::<
                    _,
                    ManifestFailure,
                >(final(self)@),
                Err(error) => error is NotASection && with_entries(
                    old(self)@,
                    triples_view(additions@),
                ) == Err::<ManifestView, _>(ManifestFailure::NotASection),
            },
    {
        let ghost all = triples_view(additions@);
        let mut i: usize = 0;
        while i < additions.len()
            invariant
                0 <= i <= additions.len(),
                all == triples_view(additions@),
                with_entries(old(self)@, all.take(i as int)) == Ok::<_, ManifestFailure>(self@),
            decreases additions.len() - i,
        {
            proof {
                assert(all.take(i as int + 1).drop_last() == all.take(i as int));
            }
            let value = string_value(additions[i].2);
            match self.insert_entry(additions[i].0, additions[i].1, value) {
                Ok(_) => {},
                Err(error) => {
                    proof {
                        lemma_with_entries_fails_for_good(old(self)@, all, i as int + 1);
                    }
                    return Err(error);
                },
            }
            i += 1;
        }
        assert(all.take(i as int) == all);
        Ok(())
    }
}

/// Once putting in the first `n` additions has failed, putting in all of them
/// fails in the same way.
pub proof fn lemma_with_entries_fails_for_good(
    doc: ManifestView,
    additions: Seq<(Seq<char>, Seq<char>, Seq<char>)>,
    n: int,
)
    requires
        0 <= n <= additions.len(),
        with_entries(doc, additions.take(n)) is Err,
    ensures
        with_entries(doc, additions) == with_entries(doc, additions.take(n)),
    decreases additions.len() - n,
{
    if n < additions.len() {
        assert(additions.take(n + 1).drop_last() == additions.take(n));
        lemma_with_entries_fails_for_good(doc, additions, n + 1);
    } else {
        assert(additions.take(n) == additions);
    }
}

/// The text of a manifest after `removals` have been taken out of it. A
/// section that is missing, and an entry that is missing, are passed over.
/// It fails for a text that is not a JSON object, and for no other.
pub fn edit_manifest(content: &str, removals: &[(&str, &str)]) -> (res: Result<
    String,
    ManifestError,
>)
    ensures
        match res {
            Ok(text) => edited(content@, pairs_view(removals@)) == Ok::<_, ManifestFailure>(text@),
            Err(error) => edited(content@, pairs_view(removals@)) == Err::<Seq<char>, _>(
                error.failure(),
            ),
        },
{
    match Manifest::parse(content) {
        Err(error) => Err(error),
        Ok(mut manifest) => {
            manifest.remove_entries(removals);
            Ok(manifest.into_text())
        },
    }
}

/// With nothing to take out, the text that is written is the text of what
/// was read.
pub proof fn law_nothing_removed_writes_what_was_read(text: Seq<char>)
    ensures
        edited(text, Seq::empty()) matches Ok(written) ==> json_parse(text) is Some && written
            == json_pretty(json_parse(text)->Some_0),
{
}

} // verus!
