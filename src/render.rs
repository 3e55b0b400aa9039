use vstd::prelude::*;
use crate::language::LanguageTarget;
use crate::text::{
    chars_of, contains, decimal, has_call, has_call_exec, indent_exec, indented, is_ident_char,
    occurs_at, push_chars, push_decimal, push_str, replace_bare, replace_bare_exec, string_of,
    trim_end, trim_end_exec, call_at, ident_end, space_end,
};

verus! {

/// One named code sample taken from a document.
#[derive(Debug, Clone, PartialEq, Eq)]
pub struct CodeSnippet {
    pub name: String,
    pub code: String,
}

/// A document and the code samples taken from it, in document order.
#[derive(Debug, Clone, PartialEq, Eq)]
pub struct SourceFileSnippets {
    pub source_file: String,
    pub snippets: Vec<CodeSnippet>,
}

/// The informal assertion call that snippets may use.
pub open spec fn informal_assert() -> Seq<char> {
    "assert("@
}

/// The test framework's assertion call.
pub open spec fn framework_assert() -> Seq<char> {
    "test_assert("@
}

/// The prefix that marks a call into the test framework.
pub open spec fn framework_prefix() -> Seq<char> {
    "test_"@
}

/// The always-true assertion appended to a snippet that checks nothing.
pub open spec fn fallback_assertion() -> Seq<char> {
    "\n\ntest_assert(true);"@
}

/// A snippet's code with its bare assertion calls (`assert(` not preceded
/// by an identifier character) renamed to the framework's.
pub open spec fn substituted(code: Seq<char>) -> Seq<char> {
    replace_bare(code, informal_assert(), framework_assert(), false)
}

/// The body of a test function made from a snippet's code.
pub open spec fn processed(code: Seq<char>) -> Seq<char> {
    let c = substituted(code);
    if has_call(c, framework_prefix()) {
        c
    } else {
        trim_end(c) + fallback_assertion()
    }
}

/// The name of the test function for a snippet of the document `stem`.
pub open spec fn function_name(stem: Seq<char>, name: Seq<char>) -> Seq<char> {
    stem + "_"@ + name
}

/// The test function made from one snippet of the document `stem`.
pub open spec fn function_text(stem: Seq<char>, s: CodeSnippet) -> Seq<char> {
    "void "@ + function_name(stem, s.name@) + "(void) {\n"@ + indented(processed(s.code@))
        + "\n}"@
}

/// The test functions of all snippets, separated by one blank line.
pub open spec fn functions_text(stem: Seq<char>, snippets: Seq<CodeSnippet>) -> Seq<char>
    decreases snippets.len(),
{
    if snippets.len() == 0 {
        Seq::empty()
    } else if snippets.len() == 1 {
        function_text(stem, snippets[0])
    } else {
        functions_text(stem, snippets.drop_last()) + "\n\n"@ + function_text(
            stem,
            snippets.last(),
        )
    }
}

/// The full content of the test file generated for one document.
pub open spec fn file_text(
    source_file: Seq<char>,
    stem: Seq<char>,
    snippets: Seq<CodeSnippet>,
    target: LanguageTarget,
) -> Seq<char> {
    "/*\n * Tests generated from: "@ + source_file + "\n * Contains "@ + decimal(snippets.len())
        + " test(s) from documentation code snippets\n */\n\n#include <"@ + target.header_spec()
        + ">\n\n"@ + functions_text(stem, snippets)
}

fn processed_chars(code: &str) -> (r: Vec<char>)
    ensures
        r@ == processed(code@),
{
    let chars = chars_of(code);
    let pat = chars_of("assert(");
    let rep = chars_of("test_assert(");
    let prefix = chars_of("test_");
    proof {
        reveal_strlit("assert(");
    }
    let c = replace_bare_exec(&chars, &pat, &rep);
    if has_call_exec(&c, &prefix) {
        c
    } else {
        let mut t = trim_end_exec(&c);
        push_str(&mut t, "\n\ntest_assert(true);");
        t
    }
}

/// Turns a snippet's code into a test function body: renames informal
/// assertion calls and adds a trivial assertion where the code has none.
pub fn process_snippet_code(code: &str) -> (r: String)
    ensures
        r@ == processed(code@),
{
    let v = processed_chars(code);
    string_of(&v)
}

fn push_function(out: &mut Vec<char>, file_stem: &str, snippet: &CodeSnippet)
    ensures
        final(out)@ == old(out)@ + function_text(file_stem@, *snippet),
{
    push_str(out, "void ");
    push_str(out, file_stem);
    push_str(out, "_");
    push_str(out, snippet.name.as_str());
    push_str(out, "(void) {\n");
    let body = processed_chars(snippet.code.as_str());
    let body = indent_exec(&body);
    push_chars(out, &body);
    push_str(out, "\n}");
    assert(final(out)@ =~= old(out)@ + function_text(file_stem@, *snippet));
}

fn push_functions(out: &mut Vec<char>, file_stem: &str, snippets: &Vec<CodeSnippet>)
    ensures
        final(out)@ == old(out)@ + functions_text(file_stem@, snippets@),
{
    let ghost start = out@;
    let mut k: usize = 0;
    assert(snippets@.subrange(0, 0) =~= Seq::<CodeSnippet>::empty());
    while k < snippets.len()
        invariant
            k <= snippets@.len(),
            out@ == start + functions_text(file_stem@, snippets@.subrange(0, k as int)),
        decreases snippets@.len() - k,
    {
        let ghost before = snippets@.subrange(0, k as int);
        if k > 0 {
            push_str(out, "\n\n");
        }
        push_function(out, file_stem, &snippets[k]);
        k = k + 1;
        let ghost now = snippets@.subrange(0, k as int);
        assert(now.drop_last() =~= before);
        assert(now.last() == snippets@[k - 1]);
        assert(out@ =~= start + functions_text(file_stem@, now));
    }
    assert(snippets@.subrange(0, k as int) =~= snippets@);
}

/// The test functions of all snippets of the document `file_stem`, each named
/// `<file_stem>_<snippet name>`, separated by one blank line.
pub fn generate_function_implementations(file_stem: &str, snippets: &Vec<CodeSnippet>) -> (r:
    String)
    ensures
        r@ == functions_text(file_stem@, snippets@),
{
    let mut out: Vec<char> = Vec::new();
    push_functions(&mut out, file_stem, snippets);
    assert(out@ =~= functions_text(file_stem@, snippets@));
    string_of(&out)
}

/// The content of the test file for one document: a header comment naming
/// the document and its snippet count, the include line, then the functions.
pub fn generate_file_content(
    file_stem: &str,
    source_file: &SourceFileSnippets,
    target: LanguageTarget,
) -> (r: String)
    ensures
        r@ == file_text(source_file.source_file@, file_stem@, source_file.snippets@, target),
{
    let mut out: Vec<char> = Vec::new();
    push_str(&mut out, "/*\n * Tests generated from: ");
    push_str(&mut out, source_file.source_file.as_str());
    push_str(&mut out, "\n * Contains ");
    push_decimal(&mut out, source_file.snippets.len());
    push_str(&mut out, " test(s) from documentation code snippets\n */\n\n#include <");
    push_str(&mut out, target.header_include());
    push_str(&mut out, ">\n\n");
    push_functions(&mut out, file_stem, &source_file.snippets);
    assert(out@ =~= file_text(
        source_file.source_file@,
        file_stem@,
        source_file.snippets@,
        target,
    ));
    string_of(&out)
}

/// A snippet whose code, after substitution, calls nothing with the test
/// prefix gets a body that ends in the always-true assertion; one that does
/// is left as the substitution made it.
pub proof fn lemma_fallback_assertion(code: Seq<char>)
    ensures
        !has_call(substituted(code), framework_prefix()) ==> processed(code) == trim_end(
            substituted(code),
        ) + fallback_assertion(),
        !has_call(substituted(code), framework_prefix()) ==> processed(code).subrange(
            processed(code).len() - fallback_assertion().len(),
            processed(code).len() as int,
        ) == fallback_assertion(),
        has_call(substituted(code), framework_prefix()) ==> processed(code) == substituted(code),
{
    let c = substituted(code);
    if !has_call(c, framework_prefix()) {
        let t = trim_end(c);
        assert((t + fallback_assertion()).subrange(
            t.len() as int,
            (t.len() + fallback_assertion().len()) as int,
        ) =~= fallback_assertion());
    }
}

/// Code without the informal assertion call is left exactly as it was by
/// the substitution.
pub proof fn lemma_substitution_alters_nothing_else(code: Seq<char>)
    requires
        !contains(code, informal_assert()),
    ensures
        substituted(code) == code,
{
    reveal_strlit("assert(");
    lemma_replace_absent(code, informal_assert(), framework_assert(), false);
}

/// Where `pat` does not occur, replacing it changes nothing.
pub proof fn lemma_replace_absent(s: Seq<char>, pat: Seq<char>, rep: Seq<char>, after_ident: bool)
    requires
        pat.len() > 0,
        !contains(s, pat),
    ensures
        replace_bare(s, pat, rep, after_ident) == s,
    decreases s.len(),
{
    if s.len() > 0 {
        assert(!occurs_at(s, 0, pat));
        let t = s.subrange(1, s.len() as int);
        assert forall|i: int| !occurs_at(t, i, pat) by {
            if occurs_at(t, i, pat) {
                assert(t.subrange(i, i + pat.len()) =~= s.subrange(i + 1, i + 1 + pat.len()));
                assert(occurs_at(s, i + 1, pat));
            }
        }
        lemma_replace_absent(t, pat, rep, is_ident_char(s[0]));
        assert(seq![s[0]] + t =~= s);
    }
}

/// Every rendered body holds at least one call into the test framework.
pub proof fn lemma_body_holds_check(code: Seq<char>)
    ensures
        has_call(processed(code), framework_prefix()),
{
    let c = substituted(code);
    if !has_call(c, framework_prefix()) {
        reveal_strlit("\n\ntest_assert(true);");
        reveal_strlit("test_");
        let tr = trim_end(c);
        let r = tr + fallback_assertion();
        let i: int = tr.len() as int + 2;
        assert(r[i - 1] == '\n');
        assert(r.subrange(i, i + 5) =~= framework_prefix());
        assert(ident_end(r, i + 11) == i + 11);
        assert(ident_end(r, i + 10) == i + 11);
        assert(ident_end(r, i + 9) == i + 11);
        assert(ident_end(r, i + 8) == i + 11);
        assert(ident_end(r, i + 7) == i + 11);
        assert(ident_end(r, i + 6) == i + 11);
        assert(ident_end(r, i + 5) == i + 11);
        assert(space_end(r, i + 11) == i + 11);
        assert(call_at(r, i, framework_prefix()));
    }
}

/// `pat` occurs at `i` as a token of its own: not preceded by an
/// identifier character.
pub open spec fn bare_at(s: Seq<char>, i: int, pat: Seq<char>) -> bool {
    occurs_at(s, i, pat) && (i == 0 || !is_ident_char(s[i - 1]))
}

proof fn lemma_copied_prefix(s: Seq<char>, w: Seq<char>)
    requires
        w.len() >= 1,
        forall|k: int| 0 <= k < w.len() - 1 ==> is_ident_char(#[trigger] w[k]),
        replace_bare(s, informal_assert(), framework_assert(), true).len() >= w.len(),
        replace_bare(s, informal_assert(), framework_assert(), true).subrange(0, w.len() as int)
            == w,
    ensures
        s.len() >= w.len(),
        s.subrange(0, w.len() as int) == w,
    decreases w.len(),
{
    let out = replace_bare(s, informal_assert(), framework_assert(), true);
    assert(s.len() > 0);
    assert(out[0] == w[0]);
    assert(out[0] == s[0]);
    if w.len() > 1 {
        assert(is_ident_char(w[0]));
        let s1 = s.subrange(1, s.len() as int);
        let w1 = w.subrange(1, w.len() as int);
        let out1 = replace_bare(s1, informal_assert(), framework_assert(), true);
        assert(out == seq![s[0]] + out1);
        assert(out1.subrange(0, w1.len() as int) =~= w1) by {
            assert forall|k: int| 0 <= k < w1.len() implies out1[k] == w1[k] by {
                assert(out[k + 1] == out1[k]);
                assert(out.subrange(0, w.len() as int)[k + 1] == w[k + 1]);
            }
        }
        assert forall|k: int| 0 <= k < w1.len() - 1 implies is_ident_char(#[trigger] w1[k]) by {
            assert(w1[k] == w[k + 1]);
        }
        lemma_copied_prefix(s1, w1);
        assert(s.subrange(0, w.len() as int) =~= w) by {
            assert forall|k: int| 0 <= k < w.len() implies s[k] == w[k] by {
                if k > 0 {
                    assert(s1.subrange(0, w1.len() as int)[k - 1] == w1[k - 1]);
                }
            }
        }
    }
}

proof fn lemma_no_bare_left(s: Seq<char>, after_ident: bool)
    ensures
        forall|i: int|
            #[trigger] occurs_at(
                replace_bare(s, informal_assert(), framework_assert(), after_ident),
                i,
                informal_assert(),
            ) ==> (i == 0 && after_ident) || (i > 0 && is_ident_char(
                replace_bare(s, informal_assert(), framework_assert(), after_ident)[i - 1],
            )),
    decreases s.len(),
{
    reveal_strlit("assert(");
    reveal_strlit("test_assert(");
    let p = informal_assert();
    let q = framework_assert();
    let out = replace_bare(s, p, q, after_ident);
    if s.len() > 0 {
        if !after_ident && occurs_at(s, 0, p) {
            let rest = s.subrange(7, s.len() as int);
            let tail = replace_bare(rest, p, q, false);
            lemma_no_bare_left(rest, false);
            assert(out == q + tail);
            assert forall|i: int| #[trigger] occurs_at(out, i, p) implies (i == 0 && after_ident) || (i
                > 0 && is_ident_char(out[i - 1])) by {
                assert(out.subrange(i, i + 7)[0] == out[i]);
                if i < 12 {
                    assert(out[i] == q[i]);
                    if i != 5 {
                        assert(q[i] != 'a');
                    }
                } else {
                    assert(tail.subrange(i - 12, i - 5) =~= out.subrange(i, i + 7));
                    assert(occurs_at(tail, i - 12, p));
                    assert(out[i - 1] == tail[i - 13]);
                }
            }
        } else {
            let rest = s.subrange(1, s.len() as int);
            let tail = replace_bare(rest, p, q, is_ident_char(s[0]));
            lemma_no_bare_left(rest, is_ident_char(s[0]));
            assert(out == seq![s[0]] + tail);
            assert forall|i: int| #[trigger] occurs_at(out, i, p) implies (i == 0 && after_ident) || (i
                > 0 && is_ident_char(out[i - 1])) by {
                if i > 0 {
                    assert(tail.subrange(i - 1, i + 6) =~= out.subrange(i, i + 7));
                    assert(occurs_at(tail, i - 1, p));
                    if i > 1 {
                        assert(out[i - 1] == tail[i - 2]);
                    }
                } else if !after_ident {
                    assert(out.subrange(0, 7)[0] == 'a');
                    assert(s[0] == 'a');
                    let w = seq!['s', 's', 'e', 'r', 't', '('];
                    assert(tail.subrange(0, 6) =~= w) by {
                        assert forall|k: int| 0 <= k < 6 implies tail[k] == w[k] by {
                            assert(out.subrange(0, 7)[k + 1] == p[k + 1]);
                            assert(out[k + 1] == tail[k]);
                        }
                    }
                    lemma_copied_prefix(rest, w);
                    assert(s.subrange(0, 7) =~= p) by {
                        assert forall|k: int| 0 <= k < 7 implies s[k] == p[k] by {
                            if k > 0 {
                                assert(rest.subrange(0, 6)[k - 1] == w[k - 1]);
                            }
                        }
                    }
                }
            }
        }
    }
}

/// After substitution no bare `assert(` is left: every occurrence of the
/// informal form is preceded by an identifier character.
pub proof fn lemma_no_bare_assert_left(code: Seq<char>)
    ensures
        forall|i: int| !#[trigger] bare_at(substituted(code), i, informal_assert()),
{
    lemma_no_bare_left(code, false);
}

} // verus!
