use code_context_graph::detector::LanguageDetector;
use code_context_graph::types::Language;

#[test]
fn test_detect_from_extension() {
    assert_eq!(LanguageDetector::detect_from_path("test.py"), Language::Python);
    assert_eq!(LanguageDetector::detect_from_path("test.java"), Language::Java);
    assert_eq!(LanguageDetector::detect_from_path("test.kt"), Language::Kotlin);
    assert_eq!(LanguageDetector::detect_from_path("test.js"), Language::JavaScript);
    assert_eq!(LanguageDetector::detect_from_path("test.ts"), Language::TypeScript);
    assert_eq!(LanguageDetector::detect_from_path("README"), Language::Unknown);
}

#[test]
fn test_detect_from_content() {
    let python_code = "def hello():\n    print('Hello world')";
    assert_eq!(LanguageDetector::detect_from_content(python_code), Language::Python);

    let java_code = "public class Hello {\n    public static void main(String[] args) {}\n}";
    assert_eq!(LanguageDetector::detect_from_content(java_code), Language::Java);

    let kotlin_code = "fun main() {\n    val message = \"Hello\"\n}";
    assert_eq!(LanguageDetector::detect_from_content(kotlin_code), Language::Kotlin);

    let js_code = "function hello() {\n    console.log('Hello');\n}";
    assert_eq!(LanguageDetector::detect_from_content(js_code), Language::JavaScript);
}

#[test]
fn test_is_supported() {
    assert!(LanguageDetector::is_supported(&Language::Python));
    assert!(LanguageDetector::is_supported(&Language::Java));
    assert!(LanguageDetector::is_supported(&Language::Kotlin));
    assert!(LanguageDetector::is_supported(&Language::JavaScript));
    assert!(!LanguageDetector::is_supported(&Language::Unknown));
}

#[test]
fn file_names_have_the_extension_after_their_last_dot() {
    assert_eq!(LanguageDetector::detect_from_path("test.py"), Language::Python);
    assert_eq!(LanguageDetector::detect_from_path("archive.tar.KT"), Language::Kotlin);
    assert_eq!(LanguageDetector::detect_from_path("..js"), Language::JavaScript);
    assert_eq!(LanguageDetector::detect_from_path(".hidden.ts"), Language::TypeScript);
    assert_eq!(LanguageDetector::detect_from_path(".py"), Language::Unknown);
    assert_eq!(LanguageDetector::detect_from_path("py"), Language::Unknown);
    assert_eq!(LanguageDetector::detect_from_path("py."), Language::Unknown);
    assert_eq!(LanguageDetector::detect_from_path(""), Language::Unknown);
    assert_eq!(LanguageDetector::detect_from_path("a.py "), Language::Unknown);
}

#[test]
fn lowercase_extensions_and_contents_are_taken_letter_for_letter() {
    assert_eq!(LanguageDetector::detect_from_lowercase_extension("mjs"), Language::JavaScript);
    assert_eq!(LanguageDetector::detect_from_lowercase_extension("kts"), Language::Kotlin);
    assert_eq!(LanguageDetector::detect_from_lowercase_extension("PY"), Language::Unknown);
    assert_eq!(LanguageDetector::detect_from_lowercase_extension(""), Language::Unknown);
    assert_eq!(
        LanguageDetector::detect_from_lowercase_content("def f():\n    pass\n"),
        Language::Python
    );
    assert_eq!(
        LanguageDetector::detect_from_lowercase_content("public class a {}"),
        Language::Java
    );
    assert_eq!(LanguageDetector::detect_from_lowercase_content("DEF f"), Language::Unknown);
    assert_eq!(LanguageDetector::detect_from_content("DEF f"), Language::Python);
}

/// The extension of a path as the library states it for a path without
/// backslash or colon that does not begin with two separators.
fn stated_extension(path: &str) -> Option<String> {
    let mut rest = path;
    let name = loop {
        let (before, last) = match rest.rfind('/') {
            Some(i) => (Some(&rest[..i]), &rest[i + 1..]),
            None => (None, rest),
        };
        if last == ".." {
            return None;
        }
        if last.is_empty() || last == "." {
            match before {
                Some(b) if !b.is_empty() => rest = b,
                _ => return None,
            }
        } else {
            break last;
        }
    };
    match name.rfind('.') {
        Some(i) if i >= 1 => Some(name[i + 1..].to_string()),
        _ => None,
    }
}

#[test]
fn paths_with_directories_have_the_extension_of_their_file_name() {
    assert_eq!(LanguageDetector::detect_from_path("/abs/dir/Main.JAVA"), Language::Java);
    assert_eq!(LanguageDetector::detect_from_path("src/pkg.py/mod.kts"), Language::Kotlin);
    assert_eq!(LanguageDetector::detect_from_path("src/a.py/"), Language::Python);
    assert_eq!(LanguageDetector::detect_from_path("src/a.py/."), Language::Python);
    assert_eq!(LanguageDetector::detect_from_path("src/a.py//./"), Language::Python);
    assert_eq!(LanguageDetector::detect_from_path("src/a.py/.."), Language::Unknown);
    assert_eq!(LanguageDetector::detect_from_path("src/.py"), Language::Unknown);
    assert_eq!(LanguageDetector::detect_from_path("a.py/b"), Language::Unknown);
    assert_eq!(LanguageDetector::detect_from_path("/"), Language::Unknown);
    assert_eq!(LanguageDetector::detect_from_path("./"), Language::Unknown);
    assert_eq!(LanguageDetector::detect_from_path("./a.ts"), Language::TypeScript);
}

#[test]
fn every_short_path_has_the_language_of_its_stated_extension() {
    let letters = ['/', '.', 'p', 'y'];
    let mut paths: Vec<String> = vec![String::new()];
    let mut from = 0;
    for _ in 0..7 {
        let upto = paths.len();
        for i in from..upto {
            for c in letters {
                let mut longer = paths[i].clone();
                longer.push(c);
                paths.push(longer);
            }
        }
        from = upto;
    }
    assert_eq!(paths.len(), 21845);
    for path in &paths {
        if path.starts_with("//") {
            continue;
        }
        let expected = match stated_extension(path).as_deref() {
            Some("py") => Language::Python,
            _ => Language::Unknown,
        };
        assert_eq!(LanguageDetector::detect_from_path(path), expected, "{:?}", path);
    }
}
