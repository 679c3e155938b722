//! Language detection from a file's extension and, failing that, from
//! keywords in its content.

use vstd::prelude::*;
use vstd::string::*;
use crate::paths::{extension_of, is_portable_path, path_extension};
use crate::text::{chars_of, contains, contains_text, is_text, lowercase, to_lowercase};
use crate::types::Language;

verus! {

/// The language named by an extension that is already in lower case.
pub open spec fn language_of_lowercase_extension(ext: Seq<char>) -> Language {
    if ext == "py"@ {
        Language::Python
    } else if ext == "java"@ {
        Language::Java
    } else if ext == "kt"@ || ext == "kts"@ {
        Language::Kotlin
    } else if ext == "js"@ || ext == "mjs"@ {
        Language::JavaScript
    } else if ext == "ts"@ {
        Language::TypeScript
    } else {
        Language::Unknown
    }
}

/// The language of a file by its extension, whatever the case of its letters.
pub open spec fn language_of_file_extension(ext: Option<Seq<char>>) -> Language {
    match ext {
        Some(e) => language_of_lowercase_extension(lowercase(e)),
        None => Language::Unknown,
    }
}

/// The language that the keywords of a lowercased text point to.
pub open spec fn language_of_lowercase_content(c: Seq<char>) -> Language {
    if (contains(c, "def "@) || contains(c, "import "@) || contains(c, "from "@) || contains(
        c,
        "class "@,
    ) || contains(c, "print("@) || contains(c, "__init__"@)) && !contains(c, "{"@) && !contains(
        c,
        "public "@,
    ) {
        Language::Python
    } else if contains(c, "public class"@) || contains(c, "package "@) || (contains(c, "import "@)
        && contains(c, "{"@)) {
        Language::Java
    } else if contains(c, "fun "@) || contains(c, "val "@) || contains(c, "var "@) {
        Language::Kotlin
    } else if contains(c, "function "@) || contains(c, "const "@) || contains(c, "let "@)
        || contains(c, "var "@) {
        if contains(c, "interface "@) || contains(c, ": "@) {
            Language::TypeScript
        } else {
            Language::JavaScript
        }
    } else {
        Language::Unknown
    }
}

/// The glob patterns of the files of a language.
pub open spec fn file_patterns(language: Language) -> Seq<Seq<char>> {
    match language {
        Language::Python => seq!["*.py"@, "*.pyw"@],
        Language::Java => seq!["*.java"@],
        Language::Kotlin => seq!["*.kt"@, "*.kts"@],
        Language::JavaScript => seq!["*.js"@, "*.mjs"@],
        Language::TypeScript => seq!["*.ts"@, "*.tsx"@],
        Language::Unknown => Seq::empty(),
    }
}

fn mentions(c: &Vec<char>, needle: &str) -> (r: bool)
    ensures
        r == contains(c@, needle@),
{
    let n = chars_of(needle);
    contains_text(c.as_slice(), n.as_slice())
}

pub struct LanguageDetector;

impl LanguageDetector {
    /// The language named by an extension that is in lower case already.
    pub fn detect_from_lowercase_extension(ext: &str) -> (r: Language)
        ensures
            r == language_of_lowercase_extension(ext@),
    {
        let l = chars_of(ext);
        if is_text(l.as_slice(), "py") {
            Language::Python
        } else if is_text(l.as_slice(), "java") {
            Language::Java
        } else if is_text(l.as_slice(), "kt") || is_text(l.as_slice(), "kts") {
            Language::Kotlin
        } else if is_text(l.as_slice(), "js") || is_text(l.as_slice(), "mjs") {
            Language::JavaScript
        } else if is_text(l.as_slice(), "ts") {
            Language::TypeScript
        } else {
            Language::Unknown
        }
    }

    /// The language of a file by its extension, given with or without the
    /// extension.
    pub fn detect_from_extension(ext: Option<&str>) -> (r: Language)
        ensures
            r == language_of_file_extension(
                match ext {
                    Some(e) => Some(e@),
                    None => None,
                },
            ),
    {
        match ext {
            Some(e) => {
                let lower = to_lowercase(e);
                Self::detect_from_lowercase_extension(lower.as_str())
            },
            None => Language::Unknown,
        }
    }

    /// The language of a file by the extension of the file name that its
    /// path ends in. Of a path that holds a backslash or a colon, or
    /// begins with two separators, the platform's path rules decide what
    /// the file name is.
    pub fn detect_from_path(path: &str) -> (r: Language)
        ensures
            exists|ext: Option<Seq<char>>| r == language_of_file_extension(ext),
            is_portable_path(path@) ==> r == language_of_file_extension(extension_of(path@)),
    {
        let ext = path_extension(path);
        let r = match &ext {
            Some(e) => Self::detect_from_extension(Some(e.as_str())),
            None => Self::detect_from_extension(None),
        };
        assert(r == language_of_file_extension(
            match ext {
                Some(e) => Some(e@),
                None => None,
            },
        ));
        r
    }

    /// The language that the keywords of a text in lower case point to.
    pub fn detect_from_lowercase_content(content: &str) -> (r: Language)
        ensures
            r == language_of_lowercase_content(content@),
    {
        let c = chars_of(content);
        if (mentions(&c, "def ") || mentions(&c, "import ") || mentions(&c, "from ") || mentions(
            &c,
            "class ",
        ) || mentions(&c, "print(") || mentions(&c, "__init__")) && !mentions(&c, "{") && !mentions(&c, "public ") {
            return Language::Python;
        }
        if mentions(&c, "public class") || mentions(&c, "package ") || (mentions(&c, "import ") && mentions(&c, "{")) {
            return Language::Java;
        }
        if mentions(&c, "fun ") || mentions(&c, "val ") || mentions(&c, "var ") {
            return Language::Kotlin;
        }
        if mentions(&c, "function ") || mentions(&c, "const ") || mentions(&c, "let ") || mentions(&c, "var ") {
            if mentions(&c, "interface ") || mentions(&c, ": ") {
                return Language::TypeScript;
            }
            return Language::JavaScript;
        }
        Language::Unknown
    }

    /// The language that the keywords of a text point to, whatever the case
    /// of its letters.
    pub fn detect_from_content(content: &str) -> (r: Language)
        ensures
            r == language_of_lowercase_content(lowercase(content@)),
    {
        let lower = to_lowercase(content);
        Self::detect_from_lowercase_content(lower.as_str())
    }

    /// Whether the language is one that the engine knows.
    pub fn is_supported(language: &Language) -> (r: bool)
        ensures
            r == (*language != Language::Unknown),
    {
        match language {
            Language::Python
            | Language::Java
            | Language::Kotlin
            | Language::JavaScript
            | Language::TypeScript => true,
            Language::Unknown => false,
        }
    }

    /// The glob patterns of the files of a language.
    pub fn get_file_patterns(language: &Language) -> (r: Vec<&'static str>)
        ensures
            r@.map_values(|s: &'static str| s@) == file_patterns(*language),
    {
        let r: Vec<&'static str> = match language {
            Language::Python => vec!["*.py", "*.pyw"],
            Language::Java => vec!["*.java"],
            Language::Kotlin => vec!["*.kt", "*.kts"],
            Language::JavaScript => vec!["*.js", "*.mjs"],
            Language::TypeScript => vec!["*.ts", "*.tsx"],
            Language::Unknown => Vec::new(),
        };
        assert(r@.map_values(|s: &'static str| s@) =~= file_patterns(*language));
        r
    }
}

} // verus!
