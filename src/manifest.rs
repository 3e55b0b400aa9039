use vstd::prelude::*;
use crate::error::CodeGenError;
use crate::generator::{suites_view, TestSuite};
use crate::text::{chars_of, string_of};

verus! {

#[verifier::external_type_specification]
#[verifier::external_body]
pub struct ExJsonValue(serde_json::Value);

#[verifier::external_type_specification]
#[verifier::external_body]
#[verifier::reject_recursive_types(K)]
#[verifier::reject_recursive_types(V)]
pub struct ExJsonMap<K, V>(serde_json::Map<K, V>);

#[verifier::external_type_specification]
#[verifier::external_body]
pub struct ExJsonError(serde_json::Error);

/// A JSON object with string keys.
pub type JsonObject = serde_json::Map<String, serde_json::Value>;

/// What `serde_json::from_str` makes of a text: none where it is not JSON;
/// otherwise the entries of its top-level object, or none where the top
/// level is not an object.
pub uninterp spec fn parsed_root(s: Seq<char>) -> Option<Option<Map<Seq<char>, serde_json::Value>>>;

/// The entries of a JSON object, by key.
pub uninterp spec fn object_entries(m: serde_json::Map<String, serde_json::Value>) -> Map<
    Seq<char>,
    serde_json::Value,
>;

/// What `serde_json::Value::String` makes of a string.
pub uninterp spec fn string_value(s: Seq<char>) -> serde_json::Value;

/// What `serde_json::Value::Array` makes of a list of values.
pub uninterp spec fn array_value(items: Seq<serde_json::Value>) -> serde_json::Value;

/// What `serde_json::Value::Object` makes of a map with these entries.
pub uninterp spec fn object_value(entries: Map<Seq<char>, serde_json::Value>) -> serde_json::Value;

/// The JSON text of an object with these entries, pretty-printed with
/// `indent` for each indentation level.
pub uninterp spec fn pretty_object(entries: Map<Seq<char>, serde_json::Value>, indent: Seq<char>) -> Seq<char>;

/// Relies on `serde_json::from_str` into a `Value`, whose result depends on
/// the text alone, and on telling the `Object` variant from the others.
#[verifier::external_body]
fn parse_manifest(text: &str) -> (r: Result<
    Option<serde_json::Map<String, serde_json::Value>>,
    serde_json::Error,
>)
    ensures
        r is Ok <==> parsed_root(text@) is Some,
        r matches Ok(o) ==> (o is Some <==> parsed_root(text@).unwrap() is Some),
        r matches Ok(Some(m)) ==> parsed_root(text@) == Some(Some(object_entries(m))),
{
    match serde_json::from_str::<serde_json::Value>(text) {
        Ok(serde_json::Value::Object(m)) => Ok(Some(m)),
        Ok(_) => Ok(None),
        Err(e) => Err(e),
    }
}

/// Relies on `serde_json::Map::insert`: the key is bound to the new value,
/// whatever it held before; the other entries stay.
pub assume_specification[ serde_json::Map::<String, serde_json::Value>::insert ](
    m: &mut serde_json::Map<String, serde_json::Value>,
    k: String,
    v: serde_json::Value,
) -> (r: Option<serde_json::Value>)
    ensures
        object_entries(*final(m)) == object_entries(*old(m)).insert(k@, v),
;

/// Relies on `serde_json::Map`'s `FromIterator`: a map of exactly the one
/// given entry.
#[verifier::external_body]
fn object_with(k: String, v: serde_json::Value) -> (r: JsonObject)
    ensures
        object_entries(r) == map![k@ => v],
{
    std::iter::once((k, v)).collect()
}

/// Relies on the `serde_json::Value::String` variant.
#[verifier::external_body]
fn json_string(s: String) -> (r: serde_json::Value)
    ensures
        r == string_value(s@),
{
    serde_json::Value::String(s)
}

/// Relies on the `serde_json::Value::Array` variant.
#[verifier::external_body]
fn json_array(items: Vec<serde_json::Value>) -> (r: serde_json::Value)
    ensures
        r == array_value(items@),
{
    serde_json::Value::Array(items)
}

/// Relies on the `serde_json::Value::Object` variant.
#[verifier::external_body]
fn json_object(m: serde_json::Map<String, serde_json::Value>) -> (r: serde_json::Value)
    ensures
        r == object_value(object_entries(m)),
{
    serde_json::Value::Object(m)
}

/// The manifest record of one suite: `{"id": .., "testcases": [..]}`.
pub open spec fn suite_json(s: (Seq<char>, Seq<Seq<char>>)) -> serde_json::Value {
    object_value(
        map![
            "id"@ => string_value(s.0),
            "testcases"@ => array_value(s.1.map_values(|c: Seq<char>| string_value(c))),
        ],
    )
}

/// The test section `{"testsuites": [..]}` for the given suites, in order.
pub open spec fn test_section_json(suites: Seq<(Seq<char>, Seq<Seq<char>>)>) -> serde_json::Value {
    object_value(
        map!["testsuites"@ => array_value(suites.map_values(|s: (Seq<char>, Seq<Seq<char>>)| suite_json(s)))],
    )
}

fn suite_value(s: &TestSuite) -> (r: serde_json::Value)
    ensures
        r == suite_json(s.view()),
{
    let mut cases: Vec<serde_json::Value> = Vec::new();
    let mut k: usize = 0;
    while k < s.testcases.len()
        invariant
            k <= s.testcases@.len(),
            cases@ == s.testcases@.subrange(0, k as int).map_values(|c: String| string_value(c@)),
        decreases s.testcases@.len() - k,
    {
        cases.push(json_string(s.testcases[k].clone()));
        k = k + 1;
        assert(cases@ =~= s.testcases@.subrange(0, k as int).map_values(
            |c: String| string_value(c@),
        ));
    }
    assert(cases@ =~= s.view().1.map_values(|c: Seq<char>| string_value(c)));
    let mut o = object_with(string_of(&chars_of("id")), json_string(s.id.clone()));
    o.insert(string_of(&chars_of("testcases")), json_array(cases));
    json_object(o)
}

fn section_value(suites: &Vec<TestSuite>) -> (r: serde_json::Value)
    ensures
        r == test_section_json(suites_view(suites@)),
{
    let mut list: Vec<serde_json::Value> = Vec::new();
    let mut k: usize = 0;
    while k < suites.len()
        invariant
            k <= suites@.len(),
            list@ == suites@.subrange(0, k as int).map_values(|s: TestSuite| suite_json(s.view())),
        decreases suites@.len() - k,
    {
        list.push(suite_value(&suites[k]));
        k = k + 1;
        assert(list@ =~= suites@.subrange(0, k as int).map_values(
            |s: TestSuite| suite_json(s.view()),
        ));
    }
    assert(list@ =~= suites_view(suites@).map_values(
        |s: (Seq<char>, Seq<Seq<char>>)| suite_json(s),
    ));
    let section = object_with(string_of(&chars_of("testsuites")), json_array(list));
    json_object(section)
}

/// Relies on serde_json's `Serializer::with_formatter` with
/// `PrettyFormatter::with_indent`: writing a map with string keys into a
/// `Vec` does not fail, and serde_json writes valid UTF-8. With the default
/// `BTreeMap` backing the text depends on the entries and the indent alone.
#[verifier::external_body]
fn pretty_text(m: &JsonObject, indent: &str) -> (r: Result<String, serde_json::Error>)
    ensures
        r is Ok,
        r matches Ok(t) ==> t@ == pretty_object(object_entries(*m), indent@),
{
    let mut buf: Vec<u8> = Vec::new();
    let formatter = serde_json::ser::PrettyFormatter::with_indent(indent.as_bytes());
    let mut ser = serde_json::Serializer::with_formatter(&mut buf, formatter);
    serde::Serialize::serialize(m, &mut ser)?;
    String::from_utf8(buf).map_err(<serde_json::Error as serde::ser::Error>::custom)
}

/// The reserved manifest key that holds the test section.
pub open spec fn test_key() -> Seq<char> {
    "test"@
}

/// The manifest entries after the test section is set to the given suites.
pub open spec fn merged_entries(
    entries: Map<Seq<char>, serde_json::Value>,
    suites: Seq<(Seq<char>, Seq<Seq<char>>)>,
) -> Map<Seq<char>, serde_json::Value> {
    entries.insert(test_key(), test_section_json(suites))
}

/// The indentation of one level in the written manifest.
pub open spec fn manifest_indent() -> Seq<char> {
    "    "@
}

/// The manifest text written for the merged entries: pretty-printed with
/// four spaces per indentation level.
pub open spec fn manifest_text(
    entries: Map<Seq<char>, serde_json::Value>,
    suites: Seq<(Seq<char>, Seq<Seq<char>>)>,
) -> Seq<char> {
    pretty_object(merged_entries(entries, suites), manifest_indent())
}

/// What merging `suites` into the manifest text `manifest` returns.
pub open spec fn merge_outcome(
    manifest: Option<Seq<char>>,
    suites: Seq<(Seq<char>, Seq<Seq<char>>)>,
    r: Result<String, CodeGenError>,
) -> bool {
    match manifest {
        None => r matches Err(e) && e is MissingManifest,
        Some(t) => match parsed_root(t) {
            None => r matches Err(e) && e is InvalidJson,
            Some(None) => r matches Err(e) && e is NotAnObject,
            Some(Some(entries)) => r matches Ok(s) && s@ == manifest_text(entries, suites),
        },
    }
}

/// The new manifest text: the current manifest (none where the file does
/// not exist) with its test section replaced by the given suites, every
/// other key kept.
pub fn update_testsuites_batch(manifest: Option<&str>, testsuites: &Vec<TestSuite>) -> (r: Result<
    String,
    CodeGenError,
>)
    ensures
        merge_outcome(
            match manifest {
                Some(t) => Some(t@),
                None => None,
            },
            suites_view(testsuites@),
            r,
        ),
{
    let text = match manifest {
        Some(t) => t,
        None => {
            return Err(CodeGenError::MissingManifest);
        },
    };
    let mut data = match parse_manifest(text) {
        Ok(Some(m)) => m,
        Ok(None) => {
            return Err(CodeGenError::NotAnObject);
        },
        Err(_) => {
            return Err(CodeGenError::InvalidJson);
        },
    };
    let section = section_value(testsuites);
    let key = string_of(&chars_of("test"));
    data.insert(key, section);
    match pretty_text(&data, "    ") {
        Ok(p) => Ok(p),
        Err(_) => {
            proof {
                assert(false);
            }
            Ok(String::new())
        },
    }
}

/// Merging leaves every key but the test section as it was, and the test
/// section holds exactly the new suites, whatever it held before.
pub proof fn lemma_merge_keeps_other_keys(
    entries: Map<Seq<char>, serde_json::Value>,
    suites: Seq<(Seq<char>, Seq<Seq<char>>)>,
    key: Seq<char>,
)
    requires
        key != test_key(),
    ensures
        merged_entries(entries, suites).contains_key(key) == entries.contains_key(key),
        entries.contains_key(key) ==> merged_entries(entries, suites)[key] == entries[key],
        merged_entries(entries, suites)[test_key()] == test_section_json(suites),
{
}

/// Merging the same suites a second time changes nothing, and the test
/// section after a merge does not depend on what the manifest held before.
pub proof fn lemma_merge_idempotent(
    entries: Map<Seq<char>, serde_json::Value>,
    other: Map<Seq<char>, serde_json::Value>,
    suites: Seq<(Seq<char>, Seq<Seq<char>>)>,
)
    ensures
        merged_entries(merged_entries(entries, suites), suites) == merged_entries(entries, suites),
        merged_entries(entries, suites)[test_key()] == merged_entries(other, suites)[test_key()],
{
    assert(merged_entries(merged_entries(entries, suites), suites) =~= merged_entries(
        entries,
        suites,
    ));
}

/// Merging the same suites into the same manifest twice gives the same text.
pub proof fn lemma_merge_repeatable(
    manifest: Option<Seq<char>>,
    suites: Seq<(Seq<char>, Seq<Seq<char>>)>,
    first: Result<String, CodeGenError>,
    second: Result<String, CodeGenError>,
)
    requires
        merge_outcome(manifest, suites, first),
        merge_outcome(manifest, suites, second),
    ensures
        first is Ok <==> second is Ok,
        first is Ok && second is Ok ==> first->Ok_0@ == second->Ok_0@,
{
}

} // verus!
