use c_cpp_doctest::error::CodeGenError;
use c_cpp_doctest::generator::TestSuite;
use c_cpp_doctest::manifest::update_testsuites_batch;

fn suite(id: &str, cases: &[&str]) -> TestSuite {
    TestSuite { id: id.to_string(), testcases: cases.iter().map(|c| c.to_string()).collect() }
}

#[test]
fn merge_replaces_test_section_only() {
    let before = r#"{"name":"proj","test":{"testsuites":[{"id":"old","testcases":["z"]}]}}"#;
    let out = update_testsuites_batch(Some(before), &vec![suite("doc", &["alpha", "beta"])]).unwrap();
    let got: serde_json::Value = serde_json::from_str(&out).unwrap();
    let want: serde_json::Value = serde_json::from_str(
        r#"{"name":"proj","test":{"testsuites":[{"id":"doc","testcases":["alpha","beta"]}]}}"#,
    )
    .unwrap();
    assert_eq!(got, want);
}

#[test]
fn merge_output_uses_four_space_indent() {
    let before = r#"{"name":"proj","test":{"testsuites":[]}}"#;
    let out = update_testsuites_batch(Some(before), &vec![suite("doc", &["alpha", "beta"])]).unwrap();
    let expected = "{\n    \"name\": \"proj\",\n    \"test\": {\n        \"testsuites\": [\n            {\n                \"id\": \"doc\",\n                \"testcases\": [\n                    \"alpha\",\n                    \"beta\"\n                ]\n            }\n        ]\n    }\n}";
    assert_eq!(out, expected);
}

#[test]
fn merge_adds_missing_test_key() {
    let out = update_testsuites_batch(Some(r#"{"name":"p"}"#), &vec![]).unwrap();
    let got: serde_json::Value = serde_json::from_str(&out).unwrap();
    let want: serde_json::Value =
        serde_json::from_str(r#"{"name":"p","test":{"testsuites":[]}}"#).unwrap();
    assert_eq!(got, want);
}

#[test]
fn merge_twice_is_stable() {
    let before = r#"{"name":"proj","other":[1,2,3]}"#;
    let suites = vec![suite("a", &["x", "y"]), suite("b", &["x"])];
    let once = update_testsuites_batch(Some(before), &suites).unwrap();
    let twice = update_testsuites_batch(Some(&once), &suites).unwrap();
    assert_eq!(once, twice);
}

#[test]
fn missing_manifest_fails() {
    assert_eq!(
        update_testsuites_batch(None, &vec![suite("doc", &["a"])]),
        Err(CodeGenError::MissingManifest)
    );
}

#[test]
fn invalid_json_fails() {
    assert_eq!(
        update_testsuites_batch(Some("{\"name\": "), &vec![]),
        Err(CodeGenError::InvalidJson)
    );
}

#[test]
fn non_object_root_fails() {
    assert_eq!(update_testsuites_batch(Some("[1, 2]"), &vec![]), Err(CodeGenError::NotAnObject));
    assert_eq!(update_testsuites_batch(Some("42"), &vec![]), Err(CodeGenError::NotAnObject));
}

#[test]
fn merge_keeps_double_spaces_in_strings() {
    let before = r#"{"name":"a  b","test":{}}"#;
    let once = update_testsuites_batch(Some(before), &vec![suite("doc", &["x  y"])]).unwrap();
    let got: serde_json::Value = serde_json::from_str(&once).unwrap();
    let want: serde_json::Value = serde_json::from_str(
        r#"{"name":"a  b","test":{"testsuites":[{"id":"doc","testcases":["x  y"]}]}}"#,
    )
    .unwrap();
    assert_eq!(got, want);
    let twice = update_testsuites_batch(Some(&once), &vec![suite("doc", &["x  y"])]).unwrap();
    assert_eq!(once, twice);
}
