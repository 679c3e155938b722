//! The fallback scanner: graph statements from plain substring scanning of
//! a source text, for when no grammar is at hand or a grammar yields too
//! little.

use vstd::prelude::*;
use vstd::string::*;
use crate::statements::{
    file_statement, function_statements, make_file_statement, module_statements,
    push_function_statements, push_module_statements,
};
use crate::text::{
    char_is_whitespace, chars_of, find, find_from, has_prefix, is_whitespace, lemma_find_from,
    skip_whitespace, slice_of, starts_with, texts, trim, trimmed,
};

verus! {

/// A character that ends a function name.
pub open spec fn is_name_end(c: char) -> bool {
    c == '(' || c == ' ' || c == ':'
}

/// The first position at or after `i` that ends a function name, or the end
/// of the text.
pub open spec fn name_end(s: Seq<char>, i: int) -> int
    decreases s.len() - i,
{
    if 0 <= i < s.len() && !is_name_end(s[i]) {
        name_end(s, i + 1)
    } else {
        i
    }
}

/// The function names that follow each `def ` at or after `from`: what
/// stands between the keyword and the next `(`, space or `:`, where that is
/// not empty. The search goes on right behind each keyword.
pub open spec fn def_names(s: Seq<char>, from: int) -> Seq<Seq<char>>
    decreases s.len() - from,
{
    match find_from(s, "def "@, from) {
        Some(pos) => {
            let start = pos + "def "@.len();
            if pos < from || start > s.len() || start <= from {
                Seq::empty()
            } else {
                let name = s.subrange(start, name_end(s, start));
                (if name.len() > 0 {
                    seq![name]
                } else {
                    Seq::empty()
                }) + def_names(s, start)
            }
        },
        None => Seq::empty(),
    }
}

pub open spec fn is_line_break(c: char) -> bool {
    c == '\n' || c == '\r'
}

/// The first line break at or after `i`, or the end of the text.
pub open spec fn line_end(s: Seq<char>, i: int) -> int
    decreases s.len() - i,
{
    if 0 <= i < s.len() && !is_line_break(s[i]) {
        line_end(s, i + 1)
    } else {
        i
    }
}

/// The end of the module name of an `import` line: the first white space or
/// comma at or after `i`, or the end of the text.
pub open spec fn import_name_end(s: Seq<char>, i: int) -> int
    decreases s.len() - i,
{
    if 0 <= i < s.len() && !(is_whitespace(s[i]) || s[i] == ',') {
        import_name_end(s, i + 1)
    } else {
        i
    }
}

/// The end of the word that starts at `i`: the first white space at or
/// after `i`, or the end of the text.
pub open spec fn word_end(s: Seq<char>, i: int) -> int
    decreases s.len() - i,
{
    if 0 <= i < s.len() && !is_whitespace(s[i]) {
        word_end(s, i + 1)
    } else {
        i
    }
}

/// The module that a line imports: after `import `, what stands before the
/// first white space or comma; after `from `, the first word. Nothing when
/// the line starts otherwise or the name is empty.
pub open spec fn module_of_line(line: Seq<char>) -> Option<Seq<char>> {
    let l = trimmed(line);
    if has_prefix(l, "import "@) {
        let rest = l.subrange("import "@.len() as int, l.len() as int);
        let m = rest.subrange(0, import_name_end(rest, 0));
        if m.len() > 0 {
            Some(m)
        } else {
            None
        }
    } else if has_prefix(l, "from "@) {
        let rest = l.subrange("from "@.len() as int, l.len() as int);
        let a = skip_whitespace(rest, 0);
        let m = rest.subrange(a, word_end(rest, a));
        if m.len() > 0 {
            Some(m)
        } else {
            None
        }
    } else {
        None
    }
}

/// The modules imported by the lines of the text from position `from` on.
pub open spec fn module_names(s: Seq<char>, from: int) -> Seq<Seq<char>>
    decreases s.len() - from,
{
    if from < 0 || from > s.len() {
        Seq::empty()
    } else {
        let e = line_end(s, from);
        let here = match module_of_line(s.subrange(from, e)) {
            Some(m) => seq![m],
            None => Seq::empty(),
        };
        if from <= e < s.len() {
            here + module_names(s, e + 1)
        } else {
            here
        }
    }
}

/// What the scanner emits for a source: the file statement, then two
/// statements for each function name, then two for each imported module.
pub open spec fn fallback_statements(src: Seq<char>, path: Seq<char>) -> Seq<Seq<char>> {
    seq![file_statement(path)] + function_statements(def_names(src, 0)) + module_statements(
        module_names(src, 0),
    )
}

/// The function names that the scanner finds in a source.
pub fn scan_function_names(s: &[char]) -> (names: Vec<Vec<char>>)
    ensures
        names@.map_values(|n: Vec<char>| n@) == def_names(s@, 0),
{
    let keyword = chars_of("def ");
    let mut names: Vec<Vec<char>> = Vec::new();
    let mut i: usize = 0;
    loop
        invariant
            i <= s.len(),
            keyword@ == "def "@,
            names@.map_values(|n: Vec<char>| n@) + def_names(s@, i as int) == def_names(s@, 0),
        decreases s.len() - i,
    {
        let ghost found_before = names@.map_values(|n: Vec<char>| n@);
        match find(s, keyword.as_slice(), i) {
            None => {
                assert(found_before + Seq::<Seq<char>>::empty() =~= found_before);
                return names;
            },
            Some(pos) => {
                proof {
                    lemma_find_from(s@, keyword@, i as int);
                }
                let start = pos + keyword.len();
                let mut e: usize = start;
                while e < s.len() && !(s[e] == '(' || s[e] == ' ' || s[e] == ':')
                    invariant
                        start <= e <= s.len(),
                        name_end(s@, start as int) == name_end(s@, e as int),
                    decreases s.len() - e,
                {
                    e += 1;
                }
                if start <= i {
                    // The keyword is empty only if its literal is; the scan ends.
                    assert(found_before + Seq::<Seq<char>>::empty() =~= found_before);
                    return names;
                }
                if e > start {
                    let name = slice_of(s, start, e);
                    proof {
                        let rest = def_names(s@, start as int);
                        assert(names@.push(name).map_values(|n: Vec<char>| n@) =~= found_before.push(
                            name@,
                        ));
                        assert(found_before.push(name@) + rest =~= found_before + (seq![name@]
                            + rest));
                    }
                    names.push(name);
                } else {
                    proof {
                        let rest = def_names(s@, start as int);
                        assert(Seq::<Seq<char>>::empty() + rest =~= rest);
                    }
                }
                i = start;
            },
        }
    }
}

/// The module that a line imports, if it imports one.
pub fn scan_line_module(line: &[char]) -> (r: Option<Vec<char>>)
    ensures
        match r {
            Some(m) => module_of_line(line@) == Some(m@),
            None => module_of_line(line@) is None,
        },
{
    let l = trim(line);
    let import_word = chars_of("import ");
    let from_word = chars_of("from ");
    if starts_with(l.as_slice(), import_word.as_slice()) {
        let rest = slice_of(l.as_slice(), import_word.len(), l.len());
        let mut e: usize = 0;
        while e < rest.len() && !(char_is_whitespace(rest[e]) || rest[e] == ',')
            invariant
                e <= rest.len(),
                import_name_end(rest@, 0) == import_name_end(rest@, e as int),
            decreases rest.len() - e,
        {
            e += 1;
        }
        if e > 0 {
            Some(slice_of(rest.as_slice(), 0, e))
        } else {
            None
        }
    } else if starts_with(l.as_slice(), from_word.as_slice()) {
        let rest = slice_of(l.as_slice(), from_word.len(), l.len());
        let mut a: usize = 0;
        while a < rest.len() && char_is_whitespace(rest[a])
            invariant
                a <= rest.len(),
                skip_whitespace(rest@, 0) == skip_whitespace(rest@, a as int),
            decreases rest.len() - a,
        {
            a += 1;
        }
        let mut b: usize = a;
        while b < rest.len() && !char_is_whitespace(rest[b])
            invariant
                a <= b <= rest.len(),
                word_end(rest@, a as int) == word_end(rest@, b as int),
            decreases rest.len() - b,
        {
            b += 1;
        }
        if b > a {
            Some(slice_of(rest.as_slice(), a, b))
        } else {
            None
        }
    } else {
        None
    }
}

/// The modules that the lines of a source import.
pub fn scan_module_names(s: &[char]) -> (names: Vec<Vec<char>>)
    ensures
        names@.map_values(|n: Vec<char>| n@) == module_names(s@, 0),
{
    let mut names: Vec<Vec<char>> = Vec::new();
    let mut i: usize = 0;
    loop
        invariant
            i <= s.len(),
            names@.map_values(|n: Vec<char>| n@) + module_names(s@, i as int) == module_names(
                s@,
                0,
            ),
        decreases s.len() - i,
    {
        let ghost found_before = names@.map_values(|n: Vec<char>| n@);
        let mut e: usize = i;
        while e < s.len() && !(s[e] == '\n' || s[e] == '\r')
            invariant
                i <= e <= s.len(),
                line_end(s@, i as int) == line_end(s@, e as int),
            decreases s.len() - e,
        {
            e += 1;
        }
        let line = slice_of(s, i, e);
        let ghost rest = if e < s.len() {
            module_names(s@, e + 1)
        } else {
            Seq::<Seq<char>>::empty()
        };
        match scan_line_module(line.as_slice()) {
            Some(m) => {
                proof {
                    assert(names@.push(m).map_values(|n: Vec<char>| n@) =~= found_before.push(m@));
                    assert(found_before.push(m@) + rest =~= found_before + (seq![m@] + rest));
                    assert(seq![m@] + Seq::<Seq<char>>::empty() =~= seq![m@]);
                }
                names.push(m);
            },
            None => {
                proof {
                    assert(Seq::<Seq<char>>::empty() + rest =~= rest);
                }
            },
        }
        if e < s.len() {
            i = e + 1;
        } else {
            assert(names@.map_values(|n: Vec<char>| n@) + Seq::<Seq<char>>::empty()
                =~= names@.map_values(|n: Vec<char>| n@));
            return names;
        }
    }
}

/// Scans a source for function declarations and imports and returns the
/// graph statements for them, the file statement first.
pub fn basic_queries_from_source(src: &str, file_path: &str) -> (q: Vec<String>)
    ensures
        texts(q@) == fallback_statements(src@, file_path@),
        q@.len() > 0,
        q@[0]@ == file_statement(file_path@),
{
    let s = chars_of(src);
    let mut q: Vec<String> = Vec::new();
    q.push(make_file_statement(file_path));
    assert(texts(q@) =~= seq![file_statement(file_path@)]);
    let functions = scan_function_names(s.as_slice());
    push_function_statements(&mut q, &functions);
    let modules = scan_module_names(s.as_slice());
    push_module_statements(&mut q, &modules);
    assert(texts(q@)[0] == file_statement(file_path@));
    q
}

} // verus!
