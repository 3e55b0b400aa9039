use vstd::prelude::*;

verus! {

/// The target languages that test sources are generated for.
#[derive(Debug, Clone, Copy, PartialEq, Eq, Structural)]
pub enum LanguageTarget {
    C,
    Cpp,
}

impl LanguageTarget {
    /// The suffix appended to a document identifier to name its generated file.
    pub open spec fn extension_spec(self) -> Seq<char> {
        match self {
            LanguageTarget::C => ".c"@,
            LanguageTarget::Cpp => ".cpp"@,
        }
    }

    /// The runtime support header that generated files include.
    pub open spec fn header_spec(self) -> Seq<char> {
        match self {
            LanguageTarget::C => "core.h"@,
            LanguageTarget::Cpp => "cpp.h"@,
        }
    }

    /// File extension for the target language.
    pub fn file_extension(self) -> (r: &'static str)
        ensures
            r@ == self.extension_spec(),
    {
        match self {
            LanguageTarget::C => ".c",
            LanguageTarget::Cpp => ".cpp",
        }
    }

    /// Header include for the target language.
    pub fn header_include(self) -> (r: &'static str)
        ensures
            r@ == self.header_spec(),
    {
        match self {
            LanguageTarget::C => "core.h",
            LanguageTarget::Cpp => "cpp.h",
        }
    }
}

} // verus!
