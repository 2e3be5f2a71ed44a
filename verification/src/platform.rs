use vstd::prelude::*;
use vstd::string::StringExecFns;
use crate::text::str_eq;

verus! {

/// The system a crackme runs on.
#[allow(clippy::upper_case_acronyms)]
#[derive(Debug, Clone, Copy, PartialEq, Eq, Structural)]
pub enum Platform {
    DOS,
    MacOSX,
    Multiplatform,
    UnixLinux,
    Windows,
    Windows2000XP,
    Windows7,
    WindowsVista,
    Other,
}

/// The platform that the catalog means by the name `s`. Several names may
/// mean one platform; a name that the catalog does not use means none.
pub open spec fn platform_named(s: Seq<char>) -> Option<Platform> {
    if s == "DOS"@ {
        Some(Platform::DOS)
    } else if s == "macos"@ || s == "Mac OS X"@ {
        Some(Platform::MacOSX)
    } else if s == "multiplatform"@ || s == "Multiplatform"@ {
        Some(Platform::Multiplatform)
    } else if s == "linux"@ || s == "unix"@ || s == "Unix/linux etc."@ || s == "Unix/Linux"@ {
        Some(Platform::UnixLinux)
    } else if s == "windows"@ || s == "Windows"@ {
        Some(Platform::Windows)
    } else if s == "Windows 2000/XP only"@ {
        Some(Platform::Windows2000XP)
    } else if s == "Windows 7 Only"@ {
        Some(Platform::Windows7)
    } else if s == "Windows Vista Only"@ {
        Some(Platform::WindowsVista)
    } else if s == "other"@ || s == "Unspecified/other"@ {
        Some(Platform::Other)
    } else {
        None
    }
}

impl Platform {
    /// The name under which the platform is shown: the longest of its
    /// names, the later one where two are as long.
    pub open spec fn name_text(self) -> Seq<char> {
        match self {
            Platform::DOS => "DOS"@,
            Platform::MacOSX => "Mac OS X"@,
            Platform::Multiplatform => "Multiplatform"@,
            Platform::UnixLinux => "Unix/linux etc."@,
            Platform::Windows => "Windows"@,
            Platform::Windows2000XP => "Windows 2000/XP only"@,
            Platform::Windows7 => "Windows 7 Only"@,
            Platform::WindowsVista => "Windows Vista Only"@,
            Platform::Other => "Unspecified/other"@,
        }
    }

    /// The platform that the catalog means by `s`.
    pub fn from_name(s: &str) -> (r: Option<Platform>)
        ensures
            r == platform_named(s@),
    {
        if str_eq(s, "DOS") {
            Some(Platform::DOS)
        } else if str_eq(s, "macos") || str_eq(s, "Mac OS X") {
            Some(Platform::MacOSX)
        } else if str_eq(s, "multiplatform") || str_eq(s, "Multiplatform") {
            Some(Platform::Multiplatform)
        } else if str_eq(s, "linux") || str_eq(s, "unix") || str_eq(s, "Unix/linux etc.")
            || str_eq(s, "Unix/Linux") {
            Some(Platform::UnixLinux)
        } else if str_eq(s, "windows") || str_eq(s, "Windows") {
            Some(Platform::Windows)
        } else if str_eq(s, "Windows 2000/XP only") {
            Some(Platform::Windows2000XP)
        } else if str_eq(s, "Windows 7 Only") {
            Some(Platform::Windows7)
        } else if str_eq(s, "Windows Vista Only") {
            Some(Platform::WindowsVista)
        } else if str_eq(s, "other") || str_eq(s, "Unspecified/other") {
            Some(Platform::Other)
        } else {
            None
        }
    }

    /// The name under which the platform is shown.
    pub fn name(&self) -> (r: &'static str)
        ensures
            r@ == self.name_text(),
    {
        match self {
            Platform::DOS => "DOS",
            Platform::MacOSX => "Mac OS X",
            Platform::Multiplatform => "Multiplatform",
            Platform::UnixLinux => "Unix/linux etc.",
            Platform::Windows => "Windows",
            Platform::Windows2000XP => "Windows 2000/XP only",
            Platform::Windows7 => "Windows 7 Only",
            Platform::WindowsVista => "Windows Vista Only",
            Platform::Other => "Unspecified/other",
        }
    }

    /// The name under which the platform is shown, as an owned string.
    pub fn to_string(&self) -> (r: String)
        ensures
            r@ == self.name_text(),
    {
        String::from_str(self.name())
    }
}

/// Every platform is meant by the name under which it is shown.
pub proof fn lemma_platform_name_is_read_back(platform: Platform)
    ensures
        platform_named(platform.name_text()) == Some(platform),
{
    reveal_strlit("DOS");
    reveal_strlit("macos");
    reveal_strlit("Mac OS X");
    reveal_strlit("multiplatform");
    reveal_strlit("Multiplatform");
    reveal_strlit("linux");
    reveal_strlit("unix");
    reveal_strlit("Unix/linux etc.");
    reveal_strlit("Unix/Linux");
    reveal_strlit("windows");
    reveal_strlit("Windows");
    reveal_strlit("Windows 2000/XP only");
    reveal_strlit("Windows 7 Only");
    reveal_strlit("Windows Vista Only");
    reveal_strlit("other");
    reveal_strlit("Unspecified/other");
    let s = platform.name_text();
    match platform {
        Platform::DOS => {},
        Platform::MacOSX => {
            assert(s.len() == 8);
        },
        Platform::Multiplatform => {
            assert(s.len() == 13);
            assert(s[0] == 'M');
        },
        Platform::UnixLinux => {
            assert(s.len() == 15);
        },
        Platform::Windows => {
            assert(s.len() == 7);
            assert(s[0] == 'W');
        },
        Platform::Windows2000XP => {
            assert(s.len() == 20);
        },
        Platform::Windows7 => {
            assert(s.len() == 14);
        },
        Platform::WindowsVista => {
            assert(s.len() == 18);
        },
        Platform::Other => {
            assert(s.len() == 17);
        },
    }
}

} // verus!
