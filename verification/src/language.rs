use vstd::prelude::*;
use vstd::string::StringExecFns;
use crate::text::str_eq;

verus! {

/// The programming language a crackme was written in.
#[derive(Debug, Clone, Copy, PartialEq, Eq, Structural)]
pub enum Language {
    COrCPlusPlus,
    Assembler,
    Java,
    VisualBasic,
    BorlandDelphi,
    TurboPascal,
    DotNet,
    Other,
}

/// The language that the catalog means by the name `s`. Several names may
/// mean one language; a name that the catalog does not use means none.
pub open spec fn language_named(s: Seq<char>) -> Option<Language> {
    if s == "cpp"@ || s == "C/C++"@ {
        Some(Language::COrCPlusPlus)
    } else if s == "Assembler"@ {
        Some(Language::Assembler)
    } else if s == "Java"@ {
        Some(Language::Java)
    } else if s == "vb"@ || s == "(Visual) Basic"@ {
        Some(Language::VisualBasic)
    } else if s == "Borland Delphi"@ {
        Some(Language::BorlandDelphi)
    } else if s == "Turbo Pascal"@ {
        Some(Language::TurboPascal)
    } else if s == "dotnet"@ || s == ".NET"@ {
        Some(Language::DotNet)
    } else if s == "other"@ || s == "Unspecified/other"@ {
        Some(Language::Other)
    } else {
        None
    }
}

impl Language {
    /// The name under which the language is shown: the longest of its names.
    pub open spec fn name_text(self) -> Seq<char> {
        match self {
            Language::COrCPlusPlus => "C/C++"@,
            Language::Assembler => "Assembler"@,
            Language::Java => "Java"@,
            Language::VisualBasic => "(Visual) Basic"@,
            Language::BorlandDelphi => "Borland Delphi"@,
            Language::TurboPascal => "Turbo Pascal"@,
            Language::DotNet => "dotnet"@,
            Language::Other => "Unspecified/other"@,
        }
    }

    /// The language that the catalog means by `s`.
    pub fn from_name(s: &str) -> (r: Option<Language>)
        ensures
            r == language_named(s@),
    {
        if str_eq(s, "cpp") || str_eq(s, "C/C++") {
            Some(Language::COrCPlusPlus)
        } else if str_eq(s, "Assembler") {
            Some(Language::Assembler)
        } else if str_eq(s, "Java") {
            Some(Language::Java)
        } else if str_eq(s, "vb") || str_eq(s, "(Visual) Basic") {
            Some(Language::VisualBasic)
        } else if str_eq(s, "Borland Delphi") {
            Some(Language::BorlandDelphi)
        } else if str_eq(s, "Turbo Pascal") {
            Some(Language::TurboPascal)
        } else if str_eq(s, "dotnet") || str_eq(s, ".NET") {
            Some(Language::DotNet)
        } else if str_eq(s, "other") || str_eq(s, "Unspecified/other") {
            Some(Language::Other)
        } else {
            None
        }
    }

    /// The name under which the language is shown.
    pub fn name(&self) -> (r: &'static str)
        ensures
            r@ == self.name_text(),
    {
        match self {
            Language::COrCPlusPlus => "C/C++",
            Language::Assembler => "Assembler",
            Language::Java => "Java",
            Language::VisualBasic => "(Visual) Basic",
            Language::BorlandDelphi => "Borland Delphi",
            Language::TurboPascal => "Turbo Pascal",
            Language::DotNet => "dotnet",
            Language::Other => "Unspecified/other",
        }
    }

    /// The name under which the language is shown, as an owned string.
    pub fn to_string(&self) -> (r: String)
        ensures
            r@ == self.name_text(),
    {
        String::from_str(self.name())
    }
}

/// Every language is meant by the name under which it is shown.
pub proof fn lemma_language_name_is_read_back(language: Language)
    ensures
        language_named(language.name_text()) == Some(language),
{
    reveal_strlit("cpp");
    reveal_strlit("C/C++");
    reveal_strlit("Assembler");
    reveal_strlit("Java");
    reveal_strlit("vb");
    reveal_strlit("(Visual) Basic");
    reveal_strlit("Borland Delphi");
    reveal_strlit("Turbo Pascal");
    reveal_strlit("dotnet");
    reveal_strlit(".NET");
    reveal_strlit("other");
    reveal_strlit("Unspecified/other");
    let s = language.name_text();
    match language {
        Language::COrCPlusPlus => {},
        Language::Assembler => {
            assert(s.len() == 9);
        },
        Language::Java => {
            assert(s.len() == 4);
        },
        Language::VisualBasic => {
            assert(s.len() == 14);
        },
        Language::BorlandDelphi => {
            assert(s.len() == 14);
            assert(s[0] == 'B');
        },
        Language::TurboPascal => {
            assert(s.len() == 12);
        },
        Language::DotNet => {
            assert(s.len() == 6);
        },
        Language::Other => {
            assert(s.len() == 17);
        },
    }
}

} // verus!
