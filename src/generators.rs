use vstd::prelude::*;
use crate::error::CodeGenError;
use crate::generator::{generate_test_files, plan_outcome, GenerationPlan};
use crate::language::LanguageTarget;
use crate::render::SourceFileSnippets;

verus! {

/// Generates C tests from `c` code fences.
#[derive(Debug, Clone, Copy, Default)]
pub struct CGenerator;

/// Generates C++ tests from `cpp` and `c++` code fences.
#[derive(Debug, Clone, Copy, Default)]
pub struct CppGenerator;

impl CGenerator {
    /// The language this generator writes.
    pub fn target(&self) -> (r: LanguageTarget)
        ensures
            r == LanguageTarget::C,
    {
        LanguageTarget::C
    }

    /// The code fence tags whose snippets this generator takes.
    pub fn code_fence_languages(&self) -> (r: Vec<&'static str>)
        ensures
            r@.len() == 1,
            r@[0]@ == "c"@,
    {
        vec!["c"]
    }

    /// Where the generated tests go when no output is given.
    pub fn default_output(&self) -> (r: &'static str)
        ensures
            r@ == "test/docs/core"@,
    {
        "test/docs/core"
    }

    /// The C test files and manifest suites for a batch of documents.
    pub fn generate(&self, source_files: &Vec<SourceFileSnippets>) -> (r: Result<
        GenerationPlan,
        CodeGenError,
    >)
        ensures
            plan_outcome(source_files@, LanguageTarget::C, r),
    {
        generate_test_files(source_files, LanguageTarget::C)
    }
}

impl CppGenerator {
    /// The language this generator writes.
    pub fn target(&self) -> (r: LanguageTarget)
        ensures
            r == LanguageTarget::Cpp,
    {
        LanguageTarget::Cpp
    }

    /// The code fence tags whose snippets this generator takes.
    pub fn code_fence_languages(&self) -> (r: Vec<&'static str>)
        ensures
            r@.len() == 2,
            r@[0]@ == "cpp"@,
            r@[1]@ == "c++"@,
    {
        vec!["cpp", "c++"]
    }

    /// Where the generated tests go when no output is given.
    pub fn default_output(&self) -> (r: &'static str)
        ensures
            r@ == "test/docs/cpp"@,
    {
        "test/docs/cpp"
    }

    /// The C++ test files and manifest suites for a batch of documents.
    pub fn generate(&self, source_files: &Vec<SourceFileSnippets>) -> (r: Result<
        GenerationPlan,
        CodeGenError,
    >)
        ensures
            plan_outcome(source_files@, LanguageTarget::Cpp, r),
    {
        generate_test_files(source_files, LanguageTarget::Cpp)
    }
}

} // verus!
