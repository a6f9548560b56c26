//! The languages that are known, and their servers.

use crate::paths::{extension, path_extension};
use crate::text::{ascii_lower, consts, same_text, to_ascii_lowercase};
use vstd::prelude::*;

verus! {

/// A programming language.
#[derive(Debug, Clone, Copy, PartialEq, Eq, Hash, Structural)]
pub enum Language {
    Rust,
    Go,
    Python,
    TypeScript,
    JavaScript,
    Java,
    Php,
    Vue,
    C,
    Cpp,
    Other,
}

impl Language {
    /// The key of a language in the settings.
    pub open spec fn key(self) -> Seq<char> {
        match self {
            Language::Rust => "rust"@,
            Language::Go => "go"@,
            Language::Python => "python"@,
            Language::TypeScript => "typescript"@,
            Language::JavaScript => "javascript"@,
            Language::Java => "java"@,
            Language::Php => "php"@,
            Language::Vue => "vue"@,
            Language::C => "c"@,
            Language::Cpp => "cpp"@,
            Language::Other => "other"@,
        }
    }

    /// The key of a language in the settings.
    pub fn as_key(self) -> (r: &'static str)
        ensures
            r@ == self.key(),
    {
        match self {
            Language::Rust => "rust",
            Language::Go => "go",
            Language::Python => "python",
            Language::TypeScript => "typescript",
            Language::JavaScript => "javascript",
            Language::Java => "java",
            Language::Php => "php",
            Language::Vue => "vue",
            Language::C => "c",
            Language::Cpp => "cpp",
            Language::Other => "other",
        }
    }

    /// The name by which servers know a language: its key, and plain text for
    /// one that is not known.
    pub fn language_id(self) -> (r: &'static str)
        ensures
            r@ == if self == Language::Other {
                "plaintext"@
            } else {
                self.key()
            },
    {
        match self {
            Language::Rust => "rust",
            Language::Go => "go",
            Language::Python => "python",
            Language::TypeScript => "typescript",
            Language::JavaScript => "javascript",
            Language::Java => "java",
            Language::Php => "php",
            Language::Vue => "vue",
            Language::C => "c",
            Language::Cpp => "cpp",
            Language::Other => "plaintext",
        }
    }
}

/// The language that an extension in small letters stands for.
pub open spec fn language_of_extension(ext: Seq<char>) -> Language {
    if ext == "rs"@ {
        Language::Rust
    } else if ext == "go"@ {
        Language::Go
    } else if ext == "py"@ || ext == "pyi"@ {
        Language::Python
    } else if ext == "ts"@ || ext == "tsx"@ {
        Language::TypeScript
    } else if ext == "js"@ || ext == "jsx"@ || ext == "mjs"@ || ext == "cjs"@ {
        Language::JavaScript
    } else if ext == "java"@ {
        Language::Java
    } else if ext == "php"@ {
        Language::Php
    } else if ext == "vue"@ {
        Language::Vue
    } else if ext == "c"@ || ext == "h"@ {
        Language::C
    } else if ext == "cpp"@ || ext == "cc"@ || ext == "cxx"@ || ext == "hpp"@ || ext == "hxx"@
        || ext == "hh"@ {
        Language::Cpp
    } else {
        Language::Other
    }
}

/// The language of a file, by its extension.
pub open spec fn language_of(path: Seq<char>) -> Language {
    match extension(path) {
        Some(ext) => language_of_extension(ascii_lower(ext)),
        None => Language::Other,
    }
}

/// The language of a file, by its extension.
pub fn detect_language(path: &str) -> (r: Language)
    ensures
        r == language_of(path@),
{
    let ext = match path_extension(path) {
        Some(e) => e,
        None => return Language::Other,
    };
    let lower = to_ascii_lowercase(ext.as_str());
    let e = lower.as_str();
    if same_text(e, "rs") {
        Language::Rust
    } else if same_text(e, "go") {
        Language::Go
    } else if same_text(e, "py") || same_text(e, "pyi") {
        Language::Python
    } else if same_text(e, "ts") || same_text(e, "tsx") {
        Language::TypeScript
    } else if same_text(e, "js") || same_text(e, "jsx") || same_text(e, "mjs") || same_text(
        e,
        "cjs",
    ) {
        Language::JavaScript
    } else if same_text(e, "java") {
        Language::Java
    } else if same_text(e, "php") {
        Language::Php
    } else if same_text(e, "vue") {
        Language::Vue
    } else if same_text(e, "c") || same_text(e, "h") {
        Language::C
    } else if same_text(e, "cpp") || same_text(e, "cc") || same_text(e, "cxx") || same_text(
        e,
        "hpp",
    ) || same_text(e, "hxx") || same_text(e, "hh") {
        Language::Cpp
    } else {
        Language::Other
    }
}

/// The server that is known for a language, with its arguments.
pub open spec fn server_of(lang: Language) -> Option<(Seq<char>, Seq<Seq<char>>)> {
    match lang {
        Language::Rust => Some(("rust-analyzer"@, Seq::empty())),
        Language::Go => Some(("gopls"@, seq!["serve"@])),
        Language::Python => Some(("pyright-langserver"@, seq!["--stdio"@])),
        Language::TypeScript => Some(("typescript-language-server"@, seq!["--stdio"@])),
        Language::JavaScript => Some(("typescript-language-server"@, seq!["--stdio"@])),
        Language::Java => Some(("jdtls"@, Seq::empty())),
        Language::Php => Some(("intelephense"@, seq!["--stdio"@])),
        Language::Vue => Some(("vue-language-server"@, seq!["--stdio"@])),
        Language::C => Some(("clangd"@, Seq::empty())),
        Language::Cpp => Some(("clangd"@, Seq::empty())),
        Language::Other => None,
    }
}

fn stdio() -> (r: Vec<&'static str>)
    ensures
        consts(r@) == seq!["--stdio"@],
{
    let r: Vec<&'static str> = vec!["--stdio"];
    proof {
        assert(consts(r@) =~= seq!["--stdio"@]);
    }
    r
}

/// The server that is known for a language, with its arguments.
pub fn server_for(lang: Language) -> (r: Option<(&'static str, Vec<&'static str>)>)
    ensures
        match r {
            Some((cmd, args)) => server_of(lang) == Some((cmd@, consts(args@))),
            None => server_of(lang) is None,
        },
{
    let none: Vec<&'static str> = Vec::new();
    proof {
        assert(consts(none@) =~= Seq::empty());
    }
    match lang {
        Language::Rust => Some(("rust-analyzer", none)),
        Language::Go => {
            let args: Vec<&'static str> = vec!["serve"];
            proof {
                assert(consts(args@) =~= seq!["serve"@]);
            }
            Some(("gopls", args))
        },
        Language::Python => Some(("pyright-langserver", stdio())),
        Language::TypeScript | Language::JavaScript => Some(
            ("typescript-language-server", stdio()),
        ),
        Language::Java => Some(("jdtls", none)),
        Language::Php => Some(("intelephense", stdio())),
        Language::Vue => Some(("vue-language-server", stdio())),
        Language::C | Language::Cpp => Some(("clangd", none)),
        Language::Other => None,
    }
}

/// Every language that is known has a server.
pub proof fn law_known_languages_have_servers(lang: Language)
    ensures
        server_of(lang) is Some <==> lang != Language::Other,
{
}

} // verus!
