use c_cpp_doctest::error::CodeGenError;
use c_cpp_doctest::generator::{extract_file_stem, generate_test_files};
use c_cpp_doctest::generators::{CGenerator, CppGenerator};
use c_cpp_doctest::language::LanguageTarget;
use c_cpp_doctest::render::{
    generate_file_content, generate_function_implementations, process_snippet_code, CodeSnippet,
    SourceFileSnippets,
};

fn snippet(name: &str, code: &str) -> CodeSnippet {
    CodeSnippet { name: name.to_string(), code: code.to_string() }
}

fn doc(source: &str, snippets: Vec<CodeSnippet>) -> SourceFileSnippets {
    SourceFileSnippets { source_file: source.to_string(), snippets }
}

#[test]
fn language_attributes() {
    assert_eq!(LanguageTarget::C.file_extension(), ".c");
    assert_eq!(LanguageTarget::Cpp.file_extension(), ".cpp");
    assert_eq!(LanguageTarget::C.header_include(), "core.h");
    assert_eq!(LanguageTarget::Cpp.header_include(), "cpp.h");
}

#[test]
fn assert_calls_are_renamed() {
    assert_eq!(process_snippet_code("assert(x == 1);"), "test_assert(x == 1);");
    assert_eq!(
        process_snippet_code("assert(a);\nint b = 2;\nassert(b);"),
        "test_assert(a);\nint b = 2;\ntest_assert(b);"
    );
}

#[test]
fn substitution_touches_nothing_else() {
    assert_eq!(
        process_snippet_code("static_assert(1);\ntest_ok();"),
        "static_assert(1);\ntest_ok();"
    );
    assert_eq!(process_snippet_code("test_assert(ok);"), "test_assert(ok);");
    assert_eq!(process_snippet_code("x = (assert(a));"), "x = (test_assert(a));");
    assert_eq!(process_snippet_code("test_check(assert );"), "test_check(assert );");
}

#[test]
fn fallback_assertion_is_appended() {
    assert_eq!(process_snippet_code("int x = 1;\n\n  "), "int x = 1;\n\ntest_assert(true);");
    assert_eq!(process_snippet_code("puts(\"hi\");\u{3000}\t"), "puts(\"hi\");\n\ntest_assert(true);");
}

#[test]
fn empty_snippet_gets_fallback() {
    assert_eq!(process_snippet_code(""), "\n\ntest_assert(true);");
}

#[test]
fn existing_test_call_keeps_body() {
    assert_eq!(process_snippet_code("test_expect(1);\n"), "test_expect(1);\n");
}

#[test]
fn function_bodies_are_indented() {
    let out = generate_function_implementations("doc", &vec![snippet("s", "int a;\n\nassert(a);")]);
    assert_eq!(out, "void doc_s(void) {\n    int a;\n\n    test_assert(a);\n}");
}

#[test]
fn functions_are_separated_by_blank_line() {
    let out = generate_function_implementations(
        "A",
        &vec![snippet("x", "test_a();"), snippet("y", "test_b();")],
    );
    assert_eq!(out, "void A_x(void) {\n    test_a();\n}\n\nvoid A_y(void) {\n    test_b();\n}");
    assert_eq!(generate_function_implementations("A", &vec![]), "");
}

#[test]
fn file_content_exact() {
    let d = doc("docs/guide.md", vec![snippet("first", "int v = 3;")]);
    let out = generate_file_content("guide", &d, LanguageTarget::C);
    assert_eq!(
        out,
        "/*\n * Tests generated from: docs/guide.md\n * Contains 1 test(s) from documentation code snippets\n */\n\n#include <core.h>\n\nvoid guide_first(void) {\n    int v = 3;\n\n    test_assert(true);\n}"
    );
}

#[test]
fn file_content_counts_in_decimal() {
    let snippets: Vec<CodeSnippet> =
        (0..12).map(|i| snippet(&format!("s{}", i), "test_x();")).collect();
    let d = doc("many.md", snippets);
    let out = generate_file_content("many", &d, LanguageTarget::Cpp);
    assert!(out.starts_with(
        "/*\n * Tests generated from: many.md\n * Contains 12 test(s) from documentation code snippets\n */\n\n#include <cpp.h>\n\n"
    ));
    assert!(out.ends_with("void many_s11(void) {\n    test_x();\n}"));
}

#[test]
fn file_stems() {
    assert_eq!(extract_file_stem("docs/guide.md"), Ok("guide".to_string()));
    assert_eq!(extract_file_stem("archive.tar.gz"), Ok("archive.tar".to_string()));
    assert_eq!(extract_file_stem("a/.hidden"), Ok(".hidden".to_string()));
    assert_eq!(extract_file_stem("README"), Ok("README".to_string()));
    assert_eq!(extract_file_stem("docs/"), Ok("docs".to_string()));
    assert_eq!(extract_file_stem("a/."), Ok("a".to_string()));
    assert_eq!(extract_file_stem("dir/guide.md/./"), Ok("guide".to_string()));
    assert_eq!(extract_file_stem("/"), Err(CodeGenError::InvalidSourcePath));
    assert_eq!(extract_file_stem("./"), Err(CodeGenError::InvalidSourcePath));
    assert_eq!(extract_file_stem(""), Err(CodeGenError::InvalidSourcePath));
    assert_eq!(extract_file_stem("a/.."), Err(CodeGenError::InvalidSourcePath));
}

#[test]
fn names_do_not_collide_across_documents() {
    let batch = vec![
        doc("A.md", vec![snippet("x", "test_1();"), snippet("y", "test_2();")]),
        doc("B.md", vec![snippet("x", "test_3();")]),
    ];
    let plan = generate_test_files(&batch, LanguageTarget::C).unwrap();
    assert_eq!(plan.files.len(), 2);
    assert_eq!(plan.files[0].file_name, "A.c");
    assert_eq!(plan.files[1].file_name, "B.c");
    assert!(plan.files[0].content.contains("void A_x(void)"));
    assert!(plan.files[0].content.contains("void A_y(void)"));
    assert!(plan.files[1].content.contains("void B_x(void)"));
    assert!(!plan.files[1].content.contains("void A_x(void)"));
}

#[test]
fn empty_document_is_skipped() {
    let batch = vec![
        doc("empty.md", vec![]),
        doc("full.md", vec![snippet("one", "test_1();")]),
        doc("/", vec![]),
    ];
    let plan = generate_test_files(&batch, LanguageTarget::Cpp).unwrap();
    assert_eq!(plan.files.len(), 1);
    assert_eq!(plan.files[0].file_name, "full.cpp");
    assert_eq!(plan.suites.len(), 1);
    assert_eq!(plan.suites[0].id, "full");
    assert_eq!(plan.suites[0].testcases, vec!["one".to_string()]);
}

#[test]
fn bad_source_path_fails() {
    let batch = vec![doc("docs/..", vec![snippet("one", "test_1();")])];
    assert_eq!(generate_test_files(&batch, LanguageTarget::C), Err(CodeGenError::InvalidSourcePath));
}

#[test]
fn regeneration_is_identical() {
    let batch = vec![
        doc("A.md", vec![snippet("x", "assert(1);"), snippet("y", "int z;")]),
        doc("B.md", vec![snippet("x", "")]),
    ];
    let first = generate_test_files(&batch, LanguageTarget::C).unwrap();
    let second = generate_test_files(&batch, LanguageTarget::C).unwrap();
    assert_eq!(first, second);
}

#[test]
fn generators_describe_their_language() {
    assert_eq!(CGenerator.code_fence_languages(), vec!["c"]);
    assert_eq!(CppGenerator.code_fence_languages(), vec!["cpp", "c++"]);
    assert_eq!(CGenerator.default_output(), "test/docs/core");
    assert_eq!(CppGenerator.default_output(), "test/docs/cpp");
    assert_eq!(CGenerator.target(), LanguageTarget::C);
    assert_eq!(CppGenerator.target(), LanguageTarget::Cpp);
    let batch = vec![doc("d.md", vec![snippet("s", "test_s();")])];
    let c = CGenerator.generate(&batch).unwrap();
    let cpp = CppGenerator.generate(&batch).unwrap();
    assert_eq!(c.files[0].file_name, "d.c");
    assert!(c.files[0].content.contains("#include <core.h>"));
    assert_eq!(cpp.files[0].file_name, "d.cpp");
    assert!(cpp.files[0].content.contains("#include <cpp.h>"));
}

#[test]
fn non_bare_assert_gets_fallback() {
    assert_eq!(
        process_snippet_code("static_assert(sizeof(int) == 4);"),
        "static_assert(sizeof(int) == 4);\n\ntest_assert(true);"
    );
}

#[test]
fn prefix_without_call_gets_fallback() {
    assert_eq!(process_snippet_code("int test_v;"), "int test_v;\n\ntest_assert(true);");
    assert_eq!(process_snippet_code("my_test_f();"), "my_test_f();\n\ntest_assert(true);");
    assert_eq!(process_snippet_code("test_f ();"), "test_f ();");
    assert_eq!(process_snippet_code("assert (x);"), "assert (x);\n\ntest_assert(true);");
    assert_eq!(process_snippet_code("test_assert\t(x);"), "test_assert\t(x);");
}

#[test]
fn existing_test_call_without_assert_is_unchanged() {
    assert_eq!(process_snippet_code("static_assert(x);test_y();"), "static_assert(x);test_y();");
}

#[test]
fn rendering_twice_changes_nothing() {
    for code in ["assert(x == 1);", "int a;\n", "static_assert(1);", ""] {
        let once = process_snippet_code(code);
        assert_eq!(process_snippet_code(&once), once);
    }
}
