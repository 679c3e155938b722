//! The text of the graph statements: one upsert per file, class, function
//! and module, and one per relation between the file and each of them.

use vstd::prelude::*;
use vstd::string::*;
use crate::text::{chars_of, replace, replace_char, string_of, texts};

verus! {

/// A name with each single quote preceded by a backslash.
pub open spec fn escaped(name: Seq<char>) -> Seq<char> {
    replace_char(name, '\'', seq!['\\', '\''])
}

/// The statement that upserts the file node. Backslashes in the path are
/// written as slashes.
pub open spec fn file_statement(path: Seq<char>) -> Seq<char> {
    "MERGE (f:File { path: '"@ + replace_char(path, '\\', seq!['/']) + "' })"@
}

pub open spec fn class_statement(name: Seq<char>) -> Seq<char> {
    "MERGE (cls:Class { name: '"@ + escaped(name) + "' })"@
}

pub open spec fn contains_class_statement() -> Seq<char> {
    "MERGE (f)-[:CONTAINS]->(cls)"@
}

pub open spec fn function_statement(name: Seq<char>) -> Seq<char> {
    "MERGE (fn:Function { name: '"@ + escaped(name) + "' })"@
}

pub open spec fn contains_function_statement() -> Seq<char> {
    "MERGE (f)-[:CONTAINS]->(fn)"@
}

pub open spec fn module_statement(name: Seq<char>) -> Seq<char> {
    "MERGE (m:Module { name: '"@ + escaped(name) + "' })"@
}

pub open spec fn imports_module_statement() -> Seq<char> {
    "MERGE (f)-[:IMPORTS]->(m)"@
}

/// Two statements for each function name, in order.
pub open spec fn function_statements(names: Seq<Seq<char>>) -> Seq<Seq<char>>
    decreases names.len(),
{
    if names.len() == 0 {
        Seq::empty()
    } else {
        function_statements(names.drop_last()) + seq![
            function_statement(names.last()),
            contains_function_statement(),
        ]
    }
}

/// Two statements for each module name, in order.
pub open spec fn module_statements(names: Seq<Seq<char>>) -> Seq<Seq<char>>
    decreases names.len(),
{
    if names.len() == 0 {
        Seq::empty()
    } else {
        module_statements(names.drop_last()) + seq![
            module_statement(names.last()),
            imports_module_statement(),
        ]
    }
}

/// Escapes the single quotes of a name.
pub fn escape_chars(name: &[char]) -> (r: Vec<char>)
    ensures
        r@ == escaped(name@),
{
    let with: Vec<char> = vec!['\\', '\''];
    assert(with@ =~= seq!['\\', '\'']);
    replace(name, '\'', with.as_slice())
}

/// Escapes the single quotes of a name.
pub fn escape(s: &str) -> (r: String)
    ensures
        r@ == escaped(s@),
{
    let c = chars_of(s);
    string_of(escape_chars(c.as_slice()).as_slice())
}

fn wrap(prefix: &str, body: &[char], suffix: &str) -> (r: String)
    ensures
        r@ == prefix@ + body@ + suffix@,
{
    let mut out = String::from_str(prefix);
    out.append(string_of(body).as_str());
    out.append(suffix);
    out
}

pub fn make_file_statement(path: &str) -> (r: String)
    ensures
        r@ == file_statement(path@),
{
    let p = chars_of(path);
    let slash: Vec<char> = vec!['/'];
    assert(slash@ =~= seq!['/']);
    let body = replace(p.as_slice(), '\\', slash.as_slice());
    wrap("MERGE (f:File { path: '", body.as_slice(), "' })")
}

pub fn make_class_statement(name: &[char]) -> (r: String)
    ensures
        r@ == class_statement(name@),
{
    wrap("MERGE (cls:Class { name: '", escape_chars(name).as_slice(), "' })")
}

pub fn make_function_statement(name: &[char]) -> (r: String)
    ensures
        r@ == function_statement(name@),
{
    wrap("MERGE (fn:Function { name: '", escape_chars(name).as_slice(), "' })")
}

pub fn make_module_statement(name: &[char]) -> (r: String)
    ensures
        r@ == module_statement(name@),
{
    wrap("MERGE (m:Module { name: '", escape_chars(name).as_slice(), "' })")
}

/// Appends the statements for the given function names.
pub fn push_function_statements(q: &mut Vec<String>, names: &Vec<Vec<char>>)
    ensures
        texts(final(q)@) == texts(old(q)@) + function_statements(
            names@.map_values(|n: Vec<char>| n@),
        ),
{
    let ghost base = texts(q@);
    let ghost all = names@.map_values(|n: Vec<char>| n@);
    let mut i: usize = 0;
    assert(texts(q@) =~= base + function_statements(all.take(0)));
    while i < names.len()
        invariant
            i <= names.len(),
            all == names@.map_values(|n: Vec<char>| n@),
            texts(q@) == base + function_statements(all.take(i as int)),
        decreases names.len() - i,
    {
        let ghost prior = texts(q@);
        let first = make_function_statement(names[i].as_slice());
        q.push(first);
        q.push(String::from_str("MERGE (f)-[:CONTAINS]->(fn)"));
        proof {
            assert(all.take(i + 1).drop_last() =~= all.take(i as int));
            assert(all.take(i + 1).last() == names@[i as int]@);
            assert(texts(q@) =~= prior + seq![
                function_statement(names@[i as int]@),
                contains_function_statement(),
            ]);
            assert(texts(q@) =~= base + function_statements(all.take(i + 1)));
        }
        i += 1;
    }
    assert(all.take(all.len() as int) =~= all);
}

/// Appends the statements for the given module names.
pub fn push_module_statements(q: &mut Vec<String>, names: &Vec<Vec<char>>)
    ensures
        texts(final(q)@) == texts(old(q)@) + module_statements(
            names@.map_values(|n: Vec<char>| n@),
        ),
{
    let ghost base = texts(q@);
    let ghost all = names@.map_values(|n: Vec<char>| n@);
    let mut i: usize = 0;
    assert(texts(q@) =~= base + module_statements(all.take(0)));
    while i < names.len()
        invariant
            i <= names.len(),
            all == names@.map_values(|n: Vec<char>| n@),
            texts(q@) == base + module_statements(all.take(i as int)),
        decreases names.len() - i,
    {
        let ghost prior = texts(q@);
        let first = make_module_statement(names[i].as_slice());
        q.push(first);
        q.push(String::from_str("MERGE (f)-[:IMPORTS]->(m)"));
        proof {
            assert(all.take(i + 1).drop_last() =~= all.take(i as int));
            assert(all.take(i + 1).last() == names@[i as int]@);
            assert(texts(q@) =~= prior + seq![
                module_statement(names@[i as int]@),
                imports_module_statement(),
            ]);
            assert(texts(q@) =~= base + module_statements(all.take(i + 1)));
        }
        i += 1;
    }
    assert(all.take(all.len() as int) =~= all);
}

} // verus!
