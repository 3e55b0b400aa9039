use vstd::prelude::*;
use crate::error::CodeGenError;
use crate::language::LanguageTarget;
use crate::render::{file_text, generate_file_content, CodeSnippet, SourceFileSnippets};
use crate::text::{chars_of, push_str, string_of};

verus! {

/// Where the last path component of `s` begins.
pub open spec fn name_start(s: Seq<char>) -> int
    decreases s.len(),
{
    if s.len() == 0 {
        0
    } else if s.last() == '/' {
        s.len() as int
    } else {
        name_start(s.drop_last())
    }
}

/// The length of `s` without trailing separators and trailing `/.`
/// components, which name no file.
pub open spec fn path_end(s: Seq<char>) -> int
    decreases s.len(),
{
    if s.len() > 0 && (s.last() == '/' || (s.len() >= 2 && s.last() == '.' && s[s.len() - 2]
        == '/')) {
        path_end(s.drop_last())
    } else {
        s.len() as int
    }
}

/// The last path component of `s`.
pub open spec fn file_name(s: Seq<char>) -> Seq<char> {
    let t = s.subrange(0, path_end(s));
    t.subrange(name_start(t), t.len() as int)
}

/// The position of the last `.` in `s`, or -1 where there is none.
pub open spec fn last_dot(s: Seq<char>) -> int
    decreases s.len(),
{
    if s.len() == 0 {
        -1
    } else if s.last() == '.' {
        s.len() - 1
    } else {
        last_dot(s.drop_last())
    }
}

/// The document identifier of a source path: its file name without the
/// final extension; none where the file name is empty, `.` or `..`.
pub open spec fn stem_of(path: Seq<char>) -> Option<Seq<char>> {
    let n = file_name(path);
    if n.len() == 0 || n == seq!['.'] || n == seq!['.', '.'] {
        None
    } else if last_dot(n) > 0 {
        Some(n.subrange(0, last_dot(n)))
    } else {
        Some(n)
    }
}

/// The document identifier derived from a source path.
pub fn extract_file_stem(path: &str) -> (r: Result<String, CodeGenError>)
    ensures
        stem_of(path@) is None <==> r is Err,
        r matches Ok(s) ==> stem_of(path@) == Some(s@),
        r matches Err(e) ==> e is InvalidSourcePath,
{
    let p = chars_of(path);
    let mut end: usize = p.len();
    assert(p@.subrange(0, p@.len() as int) == p@);
    while end > 0 && (p[end - 1] == '/' || (end >= 2 && p[end - 1] == '.' && p[end - 2] == '/'))
        invariant
            end <= p@.len(),
            path_end(p@.subrange(0, end as int)) == path_end(p@),
        decreases end,
    {
        assert(p@.subrange(0, end as int).drop_last() == p@.subrange(0, end - 1));
        end = end - 1;
    }
    let ghost t = p@.subrange(0, end as int);
    assert(path_end(t) == end);
    assert(t.subrange(0, end as int) == t);
    let mut start: usize = end;
    while start > 0 && p[start - 1] != '/'
        invariant
            start <= end <= p@.len(),
            t == p@.subrange(0, end as int),
            name_start(t.subrange(0, start as int)) == name_start(t),
        decreases start,
    {
        assert(t.subrange(0, start as int).drop_last() == t.subrange(0, start - 1));
        start = start - 1;
    }
    proof {
        if start > 0 {
            assert(t.subrange(0, start as int).last() == '/');
        }
        assert(name_start(t) == start);
    }
    let mut name: Vec<char> = Vec::new();
    let mut i: usize = start;
    while i < end
        invariant
            start <= i <= end <= p@.len(),
            name@ == p@.subrange(start as int, i as int),
        decreases end - i,
    {
        name.push(p[i]);
        i = i + 1;
        assert(name@ =~= p@.subrange(start as int, i as int));
    }
    assert(name@ =~= file_name(p@));
    let n = name.len();
    if n == 0 || (n == 1 && name[0] == '.') || (n == 2 && name[0] == '.' && name[1] == '.') {
        assert(n == 1 && name[0] == '.' ==> name@ =~= seq!['.']);
        assert(n == 2 && name[0] == '.' && name[1] == '.' ==> name@ =~= seq!['.', '.']);
        return Err(CodeGenError::InvalidSourcePath);
    }
    assert(name@ != seq!['.']);
    assert(name@ != seq!['.', '.']);
    let mut dot: usize = n;
    assert(name@.subrange(0, n as int) == name@);
    while dot > 0 && name[dot - 1] != '.'
        invariant
            dot <= name@.len(),
            last_dot(name@.subrange(0, dot as int)) == last_dot(name@),
        decreases dot,
    {
        assert(name@.subrange(0, dot as int).drop_last() == name@.subrange(0, dot - 1));
        dot = dot - 1;
    }
    proof {
        assert(name@.subrange(0, name@.len() as int) == name@);
        if dot > 0 {
            assert(name@.subrange(0, dot as int).last() == '.');
            assert(last_dot(name@) == dot - 1);
        } else {
            assert(last_dot(name@.subrange(0, 0)) == -1);
        }
    }
    if dot > 1 {
        let mut stem: Vec<char> = Vec::new();
        let mut j: usize = 0;
        while j < dot - 1
            invariant
                1 < dot <= name@.len(),
                j <= dot - 1,
                stem@ == name@.subrange(0, j as int),
            decreases dot - 1 - j,
        {
            stem.push(name[j]);
            j = j + 1;
            assert(stem@ =~= name@.subrange(0, j as int));
        }
        Ok(string_of(&stem))
    } else {
        Ok(string_of(&name))
    }
}

/// A generated test source: its file name and its content.
#[derive(Debug, Clone, PartialEq, Eq)]
pub struct GeneratedFile {
    pub file_name: String,
    pub content: String,
}

/// The test cases that one document contributes to the manifest.
#[derive(Debug, Clone, PartialEq, Eq)]
pub struct TestSuite {
    pub id: String,
    pub testcases: Vec<String>,
}

impl TestSuite {
    pub open spec fn view(&self) -> (Seq<char>, Seq<Seq<char>>) {
        (self.id@, self.testcases@.map_values(|c: String| c@))
    }
}

/// What one generation run produces: the files to write and the suites to
/// record in the manifest, both in document order.
#[derive(Debug, Clone, PartialEq, Eq)]
pub struct GenerationPlan {
    pub files: Vec<GeneratedFile>,
    pub suites: Vec<TestSuite>,
}

/// The views of a list of suites.
pub open spec fn suites_view(suites: Seq<TestSuite>) -> Seq<(Seq<char>, Seq<Seq<char>>)> {
    suites.map_values(|s: TestSuite| s.view())
}

impl GenerationPlan {
    pub open spec fn files_view(&self) -> Seq<(Seq<char>, Seq<char>)> {
        self.files@.map_values(|f: GeneratedFile| (f.file_name@, f.content@))
    }

    pub open spec fn suites_view(&self) -> Seq<(Seq<char>, Seq<Seq<char>>)> {
        suites_view(self.suites@)
    }
}

/// Every document with snippets has a document identifier.
pub open spec fn stems_ok(docs: Seq<SourceFileSnippets>) -> bool {
    forall|i: int|
        0 <= i < docs.len() && (#[trigger] docs[i]).snippets@.len() > 0 ==> stem_of(
            docs[i].source_file@,
        ) is Some
}

/// The names of the snippets, in order.
pub open spec fn snippet_names(snippets: Seq<CodeSnippet>) -> Seq<Seq<char>> {
    snippets.map_values(|s: CodeSnippet| s.name@)
}

/// The files generated for `docs`: one per document with snippets.
pub open spec fn planned_files(docs: Seq<SourceFileSnippets>, target: LanguageTarget) -> Seq<
    (Seq<char>, Seq<char>),
>
    decreases docs.len(),
{
    if docs.len() == 0 {
        Seq::empty()
    } else {
        let rest = planned_files(docs.drop_last(), target);
        let d = docs.last();
        if d.snippets@.len() == 0 {
            rest
        } else {
            let stem = stem_of(d.source_file@).unwrap();
            rest.push(
                (stem + target.extension_spec(), file_text(d.source_file@, stem, d.snippets@, target)),
            )
        }
    }
}

/// The suites recorded for `docs`: one per document with snippets.
pub open spec fn planned_suites(docs: Seq<SourceFileSnippets>) -> Seq<(Seq<char>, Seq<Seq<char>>)>
    decreases docs.len(),
{
    if docs.len() == 0 {
        Seq::empty()
    } else {
        let rest = planned_suites(docs.drop_last());
        let d = docs.last();
        if d.snippets@.len() == 0 {
            rest
        } else {
            rest.push((stem_of(d.source_file@).unwrap(), snippet_names(d.snippets@)))
        }
    }
}

/// What a generation run for `docs` returns.
pub open spec fn plan_outcome(
    docs: Seq<SourceFileSnippets>,
    target: LanguageTarget,
    r: Result<GenerationPlan, CodeGenError>,
) -> bool {
    &&& (r is Ok <==> stems_ok(docs))
    &&& (r matches Ok(p) ==> p.files_view() == planned_files(docs, target) && p.suites_view()
        == planned_suites(docs))
    &&& (r matches Err(e) ==> e is InvalidSourcePath)
}

fn snippet_name_list(snippets: &Vec<CodeSnippet>) -> (r: Vec<String>)
    ensures
        r@.map_values(|c: String| c@) == snippet_names(snippets@),
{
    let mut out: Vec<String> = Vec::new();
    let mut k: usize = 0;
    while k < snippets.len()
        invariant
            k <= snippets@.len(),
            out@.map_values(|c: String| c@) == snippet_names(snippets@.subrange(0, k as int)),
        decreases snippets@.len() - k,
    {
        let ghost before = snippets@.subrange(0, k as int);
        let ghost old_out = out@;
        let nm = snippets[k].name.clone();
        out.push(nm);
        k = k + 1;
        assert(snippets@.subrange(0, k as int) =~= before.push(snippets@[k - 1]));
        assert(out@.map_values(|c: String| c@) =~= old_out.map_values(|c: String| c@).push(
            snippets@[k - 1].name@,
        ));
        assert(snippet_names(before.push(snippets@[k - 1])) =~= snippet_names(before).push(
            snippets@[k - 1].name@,
        ));
        assert(out@.map_values(|c: String| c@) =~= snippet_names(snippets@.subrange(0, k as int)));
    }
    assert(snippets@.subrange(0, k as int) =~= snippets@);
    out
}

/// The test files and manifest suites for a batch of documents. Documents
/// without snippets are skipped; the others keep their order.
pub fn generate_test_files(source_files: &Vec<SourceFileSnippets>, target: LanguageTarget) -> (r:
    Result<GenerationPlan, CodeGenError>)
    ensures
        plan_outcome(source_files@, target, r),
{
    let mut files: Vec<GeneratedFile> = Vec::new();
    let mut suites: Vec<TestSuite> = Vec::new();
    let mut k: usize = 0;
    while k < source_files.len()
        invariant
            k <= source_files@.len(),
            stems_ok(source_files@.subrange(0, k as int)),
            files@.map_values(|f: GeneratedFile| (f.file_name@, f.content@)) == planned_files(
                source_files@.subrange(0, k as int),
                target,
            ),
            suites_view(suites@) == planned_suites(source_files@.subrange(0, k as int)),
        decreases source_files@.len() - k,
    {
        let ghost before = source_files@.subrange(0, k as int);
        let ghost now = source_files@.subrange(0, k + 1);
        assert(now.drop_last() =~= before);
        assert(now.last() == source_files@[k as int]);
        let doc = &source_files[k];
        if doc.snippets.len() > 0 {
            let stem = match extract_file_stem(doc.source_file.as_str()) {
                Ok(s) => s,
                Err(e) => {
                    assert(!stems_ok(source_files@)) by {
                        assert(source_files@[k as int].snippets@.len() > 0);
                    }
                    return Err(e);
                },
            };
            let content = generate_file_content(stem.as_str(), doc, target);
            let mut fname: Vec<char> = chars_of(stem.as_str());
            push_str(&mut fname, target.file_extension());
            files.push(GeneratedFile { file_name: string_of(&fname), content });
            suites.push(TestSuite { id: stem, testcases: snippet_name_list(&doc.snippets) });
        }
        k = k + 1;
        assert(files@.map_values(|f: GeneratedFile| (f.file_name@, f.content@)) =~= planned_files(
            now,
            target,
        ));
        assert(suites_view(suites@) =~= planned_suites(now));
        assert forall|i: int|
            0 <= i < now.len() && (#[trigger] now[i]).snippets@.len() > 0 implies stem_of(
            now[i].source_file@,
        ) is Some by {
            if i < k - 1 {
                assert(now[i] == before[i]);
            }
        }
    }
    assert(source_files@.subrange(0, k as int) =~= source_files@);
    Ok(GenerationPlan { files, suites })
}

/// A document without snippets, wherever it stands in the batch, adds no
/// file and no suite and cannot make the run fail.
pub proof fn lemma_empty_document_skipped(
    docs: Seq<SourceFileSnippets>,
    i: int,
    doc: SourceFileSnippets,
    target: LanguageTarget,
)
    requires
        0 <= i <= docs.len(),
        doc.snippets@.len() == 0,
    ensures
        planned_files(docs.insert(i, doc), target) == planned_files(docs, target),
        planned_suites(docs.insert(i, doc)) == planned_suites(docs),
        stems_ok(docs.insert(i, doc)) == stems_ok(docs),
    decreases docs.len(),
{
    let with = docs.insert(i, doc);
    if i == docs.len() {
        assert(with.drop_last() =~= docs);
    } else {
        lemma_empty_document_skipped(docs.drop_last(), i, doc, target);
        assert(with.drop_last() =~= docs.drop_last().insert(i, doc));
        assert(with.last() == docs.last());
    }
    assert forall|j: int|
        0 <= j < docs.len() && (#[trigger] docs[j]).snippets@.len() > 0 && stems_ok(with)
            implies stem_of(docs[j].source_file@) is Some by {
        if j < i {
            assert(with[j] == docs[j]);
        } else {
            assert(with[j + 1] == docs[j]);
        }
    }
    assert forall|j: int|
        0 <= j < with.len() && (#[trigger] with[j]).snippets@.len() > 0 && stems_ok(docs)
            implies stem_of(with[j].source_file@) is Some by {
        if j < i {
            assert(with[j] == docs[j]);
        } else if j > i {
            assert(with[j] == docs[j - 1]);
        }
    }
}

/// The document that a generated file or suite named `id` can come from:
/// one with snippets whose identifier is `id`.
pub open spec fn from_document_with_snippets(docs: Seq<SourceFileSnippets>, id: Seq<char>) -> bool {
    exists|j: int|
        0 <= j < docs.len() && (#[trigger] docs[j]).snippets@.len() > 0 && stem_of(
            docs[j].source_file@,
        ) == Some(id)
}

/// Every suite, and every file (its name less the extension), comes from a
/// document with snippets; so a document without snippets whose identifier
/// no such document shares gives neither a file nor a suite.
pub proof fn lemma_outputs_come_from_documents(docs: Seq<SourceFileSnippets>, target: LanguageTarget)
    requires
        stems_ok(docs),
    ensures
        planned_files(docs, target).len() == planned_suites(docs).len(),
        forall|k: int|
            0 <= k < planned_suites(docs).len() ==> from_document_with_snippets(
                docs,
                (#[trigger] planned_suites(docs)[k]).0,
            ),
        forall|k: int|
            0 <= k < planned_files(docs, target).len() ==> (#[trigger] planned_files(
                docs,
                target,
            )[k]).0 == planned_suites(docs)[k].0 + target.extension_spec(),
    decreases docs.len(),
{
    if docs.len() > 0 {
        let rest = docs.drop_last();
        assert forall|i: int|
            0 <= i < rest.len() && (#[trigger] rest[i]).snippets@.len() > 0 implies stem_of(
            rest[i].source_file@,
        ) is Some by {
            assert(rest[i] == docs[i]);
        }
        lemma_outputs_come_from_documents(rest, target);
        let n = docs.len() - 1;
        assert forall|k: int|
            0 <= k < planned_suites(docs).len() implies from_document_with_snippets(
            docs,
            (#[trigger] planned_suites(docs)[k]).0,
        ) by {
            if k < planned_suites(rest).len() {
                assert(planned_suites(docs)[k] == planned_suites(rest)[k]);
                assert(from_document_with_snippets(rest, planned_suites(rest)[k].0));
                let j = choose|j: int|
                    0 <= j < rest.len() && (#[trigger] rest[j]).snippets@.len() > 0 && stem_of(
                        rest[j].source_file@,
                    ) == Some(planned_suites(rest)[k].0);
                assert(docs[j] == rest[j]);
            } else {
                assert(docs[n].snippets@.len() > 0);
                assert(stem_of(docs[n].source_file@) is Some);
                assert(stem_of(docs[n].source_file@) == Some(planned_suites(docs)[k].0));
            }
        }
    }
}

/// Generating twice from the same batch and language gives the same files,
/// byte for byte, and the same suites.
pub proof fn lemma_generation_repeatable(
    docs: Seq<SourceFileSnippets>,
    target: LanguageTarget,
    first: Result<GenerationPlan, CodeGenError>,
    second: Result<GenerationPlan, CodeGenError>,
)
    requires
        plan_outcome(docs, target, first),
        plan_outcome(docs, target, second),
    ensures
        first is Ok <==> second is Ok,
        first is Ok && second is Ok ==> first->Ok_0.files_view() == second->Ok_0.files_view()
            && first->Ok_0.suites_view() == second->Ok_0.suites_view(),
{
}

} // verus!
