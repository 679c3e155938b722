//! From a simplified syntax tree to graph statements, and the client that
//! hands statements to an executor.

use vstd::prelude::*;
use vstd::string::*;
use crate::ast::ASTNode;
use crate::error::CodeGraphError;
use crate::fallback::{basic_queries_from_source, def_names, fallback_statements, module_names};
use crate::simplified::SimplifiedAST;
use crate::statements::{
    class_statement, contains_class_statement, contains_function_statement, file_statement,
    function_statement, function_statements, imports_module_statement, make_class_statement,
    make_file_statement, make_function_statement, make_module_statement, module_statement,
    module_statements,
};
use crate::text::{chars_of, contains, contains_text, lemma_contains, occurs_at, texts};

verus! {

#[verifier::external_type_specification]
#[verifier::external_body]
pub struct ExRedisValue(redis::Value);

/// The statements for one node alone: two for a named class, function,
/// method or import, none otherwise.
pub open spec fn node_statements(node: ASTNode) -> Seq<Seq<char>> {
    match node.name {
        Some(n) => {
            if node.node_type is ClassDeclaration {
                seq![class_statement(n@), contains_class_statement()]
            } else if node.node_type is FunctionDeclaration || node.node_type is MethodDeclaration {
                seq![function_statement(n@), contains_function_statement()]
            } else if node.node_type is ImportDeclaration {
                seq![module_statement(n@), imports_module_statement()]
            } else {
                Seq::empty()
            }
        },
        None => Seq::empty(),
    }
}

/// The statements for the subtrees `kids[i..]`, in order.
pub open spec fn walk_children(kids: Seq<ASTNode>, i: int) -> Seq<Seq<char>>
    decreases kids, kids.len() - i,
{
    if 0 <= i < kids.len() {
        walk_statements(kids[i]) + walk_children(kids, i + 1)
    } else {
        Seq::empty()
    }
}

/// The statements for a subtree: the node's own, then those of its
/// children from left to right.
pub open spec fn walk_statements(node: ASTNode) -> Seq<Seq<char>>
    decreases node,
{
    node_statements(node) + walk_children(node.children@, 0)
}

/// The statements for a tree: the file statement, then those of the walk.
pub open spec fn tree_statements(root: ASTNode, path: Seq<char>) -> Seq<Seq<char>> {
    seq![file_statement(path)] + walk_statements(root)
}

/// Some statement upserts a function.
pub open spec fn mentions_function(stmts: Seq<Seq<char>>) -> bool {
    exists|i: int| 0 <= i < stmts.len() && contains(#[trigger] stmts[i], "(fn:Function"@)
}

/// Some statement upserts a module.
pub open spec fn mentions_module(stmts: Seq<Seq<char>>) -> bool {
    exists|i: int| 0 <= i < stmts.len() && contains(#[trigger] stmts[i], "(m:Module"@)
}

/// The statements of the tree walk, with those of the scanner behind them
/// where the walk found no function or no module.
pub open spec fn augmented(walked: Seq<Seq<char>>, src: Seq<char>, path: Seq<char>) -> Seq<
    Seq<char>,
> {
    if !mentions_function(walked) || !mentions_module(walked) {
        walked + fallback_statements(src, path)
    } else {
        walked
    }
}

/// The statements for one file: those of its tree, augmented, where it was
/// parsed; those of the scanner where it was not.
pub open spec fn file_statements(root: Option<ASTNode>, src: Seq<char>, path: Seq<char>) -> Seq<
    Seq<char>,
> {
    match root {
        Some(r) => augmented(tree_statements(r, path), src, path),
        None => fallback_statements(src, path),
    }
}

/// Generates graph statements from simplified syntax trees.
pub struct GraphBuilder {
    graph_name: String,
}

impl GraphBuilder {
    pub closed spec fn graph_name_text(self) -> Seq<char> {
        self.graph_name@
    }

    pub fn new(graph_name: &str) -> (r: Self)
        ensures
            r.graph_name_text() == graph_name@,
    {
        GraphBuilder { graph_name: graph_name.to_owned() }
    }

    /// The name of the graph that the statements are meant for.
    pub fn graph_name(&self) -> (r: &str)
        ensures
            r@ == self.graph_name_text(),
    {
        self.graph_name.as_str()
    }

    /// The statements for a tree: the file statement first, then two
    /// statements for every named class, function, method and import, in
    /// the order a depth-first walk meets them.
    pub fn build_queries(&self, ast: &SimplifiedAST, file_path: &str) -> (q: Vec<String>)
        ensures
            texts(q@) == tree_statements(ast.root, file_path@),
            q@.len() > 0,
            q@[0]@ == file_statement(file_path@),
    {
        let mut queries: Vec<String> = Vec::new();
        queries.push(make_file_statement(file_path));
        assert(texts(queries@) =~= seq![file_statement(file_path@)]);
        self.walk(&ast.root, &mut queries);
        assert(texts(queries@)[0] == file_statement(file_path@));
        queries
    }

    fn walk(&self, node: &ASTNode, queries: &mut Vec<String>)
        ensures
            texts(final(queries)@) == texts(old(queries)@) + walk_statements(*node),
        decreases node,
    {
        let ghost base = texts(queries@);
        match &node.name {
            Some(name) => {
                let n = chars_of(name.as_str());
                match node.node_type {
                    crate::node_type::ASTNodeType::ClassDeclaration => {
                        queries.push(make_class_statement(n.as_slice()));
                        queries.push(String::from_str("MERGE (f)-[:CONTAINS]->(cls)"));
                    },
                    crate::node_type::ASTNodeType::FunctionDeclaration
                    | crate::node_type::ASTNodeType::MethodDeclaration => {
                        queries.push(make_function_statement(n.as_slice()));
                        queries.push(String::from_str("MERGE (f)-[:CONTAINS]->(fn)"));
                    },
                    crate::node_type::ASTNodeType::ImportDeclaration => {
                        queries.push(make_module_statement(n.as_slice()));
                        queries.push(String::from_str("MERGE (f)-[:IMPORTS]->(m)"));
                    },
                    _ => {},
                }
            },
            None => {},
        }
        assert(texts(queries@) =~= base + node_statements(*node));
        let ghost own = texts(queries@);
        let mut i: usize = 0;
        while i < node.children.len()
            invariant
                i <= node.children.len(),
                texts(queries@) + walk_children(node.children@, i as int) == own + walk_children(
                    node.children@,
                    0,
                ),
            decreases node.children.len() - i,
        {
            let ghost prior = texts(queries@);
            self.walk(&node.children[i], queries);
            proof {
                let here = walk_statements(node.children@[i as int]);
                let rest = walk_children(node.children@, i + 1);
                assert((prior + here) + rest =~= prior + (here + rest));
            }
            i += 1;
        }
        assert(texts(queries@) + Seq::<Seq<char>>::empty() =~= texts(queries@));
        assert(base + node_statements(*node) + walk_children(node.children@, 0) =~= base
            + walk_statements(*node));
    }
}

/// Whether some statement holds the given marker.
fn any_mentions(queries: &Vec<String>, marker: &str) -> (r: bool)
    ensures
        r == exists|i: int| 0 <= i < queries@.len() && contains(#[trigger] texts(queries@)[i], marker@),
{
    let m = chars_of(marker);
    let mut i: usize = 0;
    while i < queries.len()
        invariant
            i <= queries.len(),
            m@ == marker@,
            forall|k: int| 0 <= k < i ==> !contains(#[trigger] texts(queries@)[k], marker@),
        decreases queries.len() - i,
    {
        let q = chars_of(queries[i].as_str());
        assert(q@ == texts(queries@)[i as int]);
        if contains_text(q.as_slice(), m.as_slice()) {
            return true;
        }
        i += 1;
    }
    false
}

/// Appends the scanner's statements to those of the tree walk where the
/// walk found no function or no module.
pub fn augment_statements(queries: Vec<String>, src: &str, file_path: &str) -> (r: Vec<String>)
    ensures
        texts(r@) == augmented(texts(queries@), src@, file_path@),
{
    let has_fn = any_mentions(&queries, "(fn:Function");
    let has_mod = any_mentions(&queries, "(m:Module");
    assert(has_fn == mentions_function(texts(queries@)));
    assert(has_mod == mentions_module(texts(queries@)));
    if !has_fn || !has_mod {
        let mut out = queries;
        let ghost before = texts(out@);
        let mut fb = basic_queries_from_source(src, file_path);
        let ghost added = texts(fb@);
        out.append(&mut fb);
        assert(texts(out@) =~= before + added);
        out
    } else {
        queries
    }
}

/// The statements to persist for one file, the file statement first: those
/// of its tree where it was parsed, with the scanner's behind them where
/// the tree names no function or no module; the scanner's alone where it
/// was not parsed.
pub fn statements_for_file(
    builder: &GraphBuilder,
    ast: Option<&SimplifiedAST>,
    src: &str,
    file_path: &str,
) -> (r: Vec<String>)
    ensures
        texts(r@) == file_statements(
            match ast {
                Some(a) => Some(a.root),
                None => None,
            },
            src@,
            file_path@,
        ),
        r@.len() > 0,
        r@[0]@ == file_statement(file_path@),
{
    match ast {
        Some(a) => {
            let walked = builder.build_queries(a, file_path);
            let r = augment_statements(walked, src, file_path);
            assert(texts(r@)[0] == texts(walked@)[0]);
            r
        },
        None => basic_queries_from_source(src, file_path),
    }
}

proof fn lemma_function_statement_mentions(name: Seq<char>)
    ensures
        contains(function_statement(name), "(fn:Function"@),
{
    reveal_strlit("MERGE (fn:Function { name: '");
    reveal_strlit("(fn:Function");
    let stmt = function_statement(name);
    let needle = "(fn:Function"@;
    assert(stmt.subrange(6, 6 + needle.len() as int) =~= needle);
    assert(occurs_at(stmt, needle, 6));
    lemma_contains(stmt, needle);
}

proof fn lemma_module_statement_mentions(name: Seq<char>)
    ensures
        contains(module_statement(name), "(m:Module"@),
{
    reveal_strlit("MERGE (m:Module { name: '");
    reveal_strlit("(m:Module");
    let stmt = module_statement(name);
    let needle = "(m:Module"@;
    assert(stmt.subrange(6, 6 + needle.len() as int) =~= needle);
    assert(occurs_at(stmt, needle, 6));
    lemma_contains(stmt, needle);
}

proof fn lemma_mentions_in_parts(a: Seq<Seq<char>>, b: Seq<Seq<char>>, c: Seq<Seq<char>>)
    ensures
        mentions_function(a) || mentions_function(b) || mentions_function(c) ==> mentions_function(
            a + b + c,
        ),
        mentions_module(a) || mentions_module(b) || mentions_module(c) ==> mentions_module(
            a + b + c,
        ),
{
    let all = a + b + c;
    if mentions_function(a) {
        let i = choose|i: int| 0 <= i < a.len() && contains(#[trigger] a[i], "(fn:Function"@);
        assert(all[i] == a[i]);
    }
    if mentions_function(b) {
        let i = choose|i: int| 0 <= i < b.len() && contains(#[trigger] b[i], "(fn:Function"@);
        assert(all[a.len() + i] == b[i]);
    }
    if mentions_function(c) {
        let i = choose|i: int| 0 <= i < c.len() && contains(#[trigger] c[i], "(fn:Function"@);
        assert(all[a.len() + b.len() + i] == c[i]);
    }
    if mentions_module(a) {
        let i = choose|i: int| 0 <= i < a.len() && contains(#[trigger] a[i], "(m:Module"@);
        assert(all[i] == a[i]);
    }
    if mentions_module(b) {
        let i = choose|i: int| 0 <= i < b.len() && contains(#[trigger] b[i], "(m:Module"@);
        assert(all[a.len() + i] == b[i]);
    }
    if mentions_module(c) {
        let i = choose|i: int| 0 <= i < c.len() && contains(#[trigger] c[i], "(m:Module"@);
        assert(all[a.len() + b.len() + i] == c[i]);
    }
}

/// What the scanner mentions: a function where the source holds a `def `
/// with a name behind it, a module where a line of the source imports one.
pub proof fn lemma_scanner_mentions(src: Seq<char>, path: Seq<char>)
    ensures
        def_names(src, 0).len() > 0 ==> mentions_function(fallback_statements(src, path)),
        module_names(src, 0).len() > 0 ==> mentions_module(fallback_statements(src, path)),
{
    let f = function_statements(def_names(src, 0));
    let m = module_statements(module_names(src, 0));
    if def_names(src, 0).len() > 0 {
        let names = def_names(src, 0);
        lemma_function_statement_mentions(names.last());
        assert(f[f.len() - 2] == function_statement(names.last()));
    }
    if module_names(src, 0).len() > 0 {
        let names = module_names(src, 0);
        lemma_module_statement_mentions(names.last());
        assert(m[m.len() - 2] == module_statement(names.last()));
    }
    lemma_mentions_in_parts(seq![file_statement(path)], f, m);
}

/// Fallback completeness: whatever the tree of a file yields, and whether
/// or not it was parsed at all, the statements for a file whose source
/// holds a `def ` with a name behind it and a line that imports a module
/// mention a function and a module.
pub proof fn lemma_fallback_completeness(root: Option<ASTNode>, src: Seq<char>, path: Seq<char>)
    requires
        def_names(src, 0).len() > 0,
        module_names(src, 0).len() > 0,
    ensures
        mentions_function(file_statements(root, src, path)),
        mentions_module(file_statements(root, src, path)),
{
    lemma_scanner_mentions(src, path);
    match root {
        Some(r) => {
            let walked = tree_statements(r, path);
            if !mentions_function(walked) || !mentions_module(walked) {
                lemma_mentions_in_parts(
                    walked,
                    fallback_statements(src, path),
                    Seq::<Seq<char>>::empty(),
                );
                assert(walked + fallback_statements(src, path) + Seq::<Seq<char>>::empty()
                    =~= walked + fallback_statements(src, path));
            }
        },
        None => {},
    }
}

/// Whether a tree holds a named function or method declaration.
pub open spec fn declares_function(node: ASTNode) -> bool
    decreases node,
{
    ||| node.name is Some && (node.node_type is FunctionDeclaration
        || node.node_type is MethodDeclaration)
    ||| exists|i: int|
        0 <= i < node.children@.len() && declares_function(#[trigger] node.children@[i])
}

/// Whether a tree holds a named import.
pub open spec fn imports_module(node: ASTNode) -> bool
    decreases node,
{
    ||| node.name is Some && node.node_type is ImportDeclaration
    ||| exists|i: int| 0 <= i < node.children@.len() && imports_module(#[trigger] node.children@[i])
}

proof fn lemma_child_is_walked(kids: Seq<ASTNode>, from: int, i: int)
    requires
        0 <= from <= i < kids.len(),
    ensures
        mentions_function(walk_statements(kids[i])) ==> mentions_function(
            walk_children(kids, from),
        ),
        mentions_module(walk_statements(kids[i])) ==> mentions_module(walk_children(kids, from)),
    decreases i - from,
{
    let here = walk_statements(kids[from]);
    let rest = walk_children(kids, from + 1);
    if from < i {
        lemma_child_is_walked(kids, from + 1, i);
    }
    lemma_mentions_in_parts(here, rest, Seq::<Seq<char>>::empty());
    assert(here + rest + Seq::<Seq<char>>::empty() =~= here + rest);
}

/// The walk of a tree mentions a function where the tree holds a named
/// function or method declaration, and a module where it holds a named
/// import.
pub proof fn lemma_walk_mentions_declarations(node: ASTNode)
    ensures
        declares_function(node) ==> mentions_function(walk_statements(node)),
        imports_module(node) ==> mentions_module(walk_statements(node)),
    decreases node,
{
    let own = node_statements(node);
    let below = walk_children(node.children@, 0);
    if declares_function(node) {
        if node.name is Some && (node.node_type is FunctionDeclaration
            || node.node_type is MethodDeclaration) {
            lemma_function_statement_mentions(node.name->Some_0@);
            assert(contains(own[0], "(fn:Function"@));
        } else {
            let i = choose|i: int|
                0 <= i < node.children@.len() && declares_function(#[trigger] node.children@[i]);
            lemma_walk_mentions_declarations(node.children@[i]);
            lemma_child_is_walked(node.children@, 0, i);
        }
    }
    if imports_module(node) {
        if node.name is Some && node.node_type is ImportDeclaration {
            lemma_module_statement_mentions(node.name->Some_0@);
            assert(contains(own[0], "(m:Module"@));
        } else {
            let i = choose|i: int|
                0 <= i < node.children@.len() && imports_module(#[trigger] node.children@[i]);
            lemma_walk_mentions_declarations(node.children@[i]);
            lemma_child_is_walked(node.children@, 0, i);
        }
    }
    lemma_mentions_in_parts(own, below, Seq::<Seq<char>>::empty());
    assert(own + below + Seq::<Seq<char>>::empty() =~= own + below);
}

/// Completeness in every language: the statements for a parsed file
/// mention a function where its tree holds a named function or method
/// declaration or the scanner finds a function in its source, and a
/// module where its tree holds a named import or the scanner finds one,
/// whichever of the two ways the statements came.
pub proof fn lemma_declarations_are_mentioned(root: ASTNode, src: Seq<char>, path: Seq<char>)
    requires
        declares_function(root) || def_names(src, 0).len() > 0,
        imports_module(root) || module_names(src, 0).len() > 0,
    ensures
        mentions_function(file_statements(Some(root), src, path)),
        mentions_module(file_statements(Some(root), src, path)),
{
    let walked = tree_statements(root, path);
    lemma_walk_mentions_declarations(root);
    lemma_scanner_mentions(src, path);
    lemma_mentions_in_parts(
        seq![file_statement(path)],
        walk_statements(root),
        Seq::<Seq<char>>::empty(),
    );
    assert(seq![file_statement(path)] + walk_statements(root) + Seq::<Seq<char>>::empty()
        =~= walked);
    if !mentions_function(walked) || !mentions_module(walked) {
        lemma_mentions_in_parts(walked, fallback_statements(src, path), Seq::<Seq<char>>::empty());
        assert(walked + fallback_statements(src, path) + Seq::<Seq<char>>::empty() =~= walked
            + fallback_statements(src, path));
    }
}

/// Statement order within a file: the statements for a file begin with the
/// file statement, parsed or not.
pub proof fn lemma_file_statement_first(root: Option<ASTNode>, src: Seq<char>, path: Seq<char>)
    ensures
        file_statements(root, src, path).len() > 0,
        file_statements(root, src, path)[0] == file_statement(path),
{
}

/// The sink for graph statements: runs one statement against a named graph.
pub trait GraphExecutor {
    fn query(&self, graph: &str, cypher: &str) -> Result<redis::Value, CodeGraphError>;
}

/// The `(graph, statement)` pairs as text.
pub open spec fn recorded_pairs(log: Seq<(String, String)>) -> Seq<(Seq<char>, Seq<char>)> {
    log.map_values(|e: (String, String)| (e.0@, e.1@))
}

/// The pairs that handing over the statements `queries[..n]` records.
pub open spec fn pairs_for(graph: Seq<char>, queries: Seq<String>, n: int) -> Seq<
    (Seq<char>, Seq<char>),
> {
    queries.take(n).map_values(|q: String| (graph, q@))
}

/// Hands statements to an executor and keeps a record of what it handed over.
pub struct GraphClient<E: GraphExecutor> {
    graph_name: String,
    executor: E,
    recorded: Vec<(String, String)>,
}

impl<E: GraphExecutor> GraphClient<E> {
    pub closed spec fn graph_name_text(self) -> Seq<char> {
        self.graph_name@
    }

    /// What was handed over so far, oldest first.
    pub closed spec fn log(self) -> Seq<(Seq<char>, Seq<char>)> {
        recorded_pairs(self.recorded@)
    }

    /// A client for the named graph with nothing recorded.
    pub fn with_executor(graph_name: &str, executor: E) -> (r: Self)
        ensures
            r.graph_name_text() == graph_name@,
            r.log() == Seq::<(Seq<char>, Seq<char>)>::empty(),
    {
        let r = GraphClient { graph_name: graph_name.to_owned(), executor, recorded: Vec::new() };
        assert(r.log() =~= Seq::<(Seq<char>, Seq<char>)>::empty());
        r
    }

    /// Hands the statements over one by one, recording each before it runs,
    /// and stops at the first that the executor rejects.
    pub fn persist_queries(&mut self, queries: &[String]) -> (r: Result<(), CodeGraphError>)
        ensures
            final(self).graph_name_text() == old(self).graph_name_text(),
            match r {
                Ok(_) => final(self).log() == old(self).log() + pairs_for(
                    old(self).graph_name_text(),
                    queries@,
                    queries@.len() as int,
                ),
                Err(_) => exists|n: int|
                    0 < n <= queries@.len() && final(self).log() == old(self).log() + pairs_for(
                        old(self).graph_name_text(),
                        queries@,
                        n,
                    ),
            },
    {
        let ghost base = self.log();
        let ghost graph = self.graph_name@;
        let mut i: usize = 0;
        assert(base + pairs_for(graph, queries@, 0) =~= base);
        while i < queries.len()
            invariant
                i <= queries.len(),
                graph == self.graph_name@,
                self.graph_name == old(self).graph_name,
                base == old(self).log(),
                graph == old(self).graph_name_text(),
                self.log() == base + pairs_for(graph, queries@, i as int),
            decreases queries.len() - i,
        {
            let ghost prior = self.log();
            self.recorded.push((self.graph_name.clone(), queries[i].clone()));
            proof {
                assert(self.log() =~= prior.push((graph, queries@[i as int]@)));
                assert(pairs_for(graph, queries@, i + 1) =~= pairs_for(graph, queries@, i as int).push(
                    (graph, queries@[i as int]@),
                ));
                assert(self.log() =~= base + pairs_for(graph, queries@, i + 1));
            }
            match self.executor.query(self.graph_name.as_str(), queries[i].as_str()) {
                Ok(_) => {},
                Err(e) => {
                    assert(self.log() == old(self).log() + pairs_for(
                        old(self).graph_name_text(),
                        queries@,
                        i + 1,
                    ));
                    return Err(e);
                },
            }
            i += 1;
        }
        Ok(())
    }

    /// Records one statement and hands it to the executor.
    pub fn execute(&mut self, cypher: &str) -> (r: Result<redis::Value, CodeGraphError>)
        ensures
            final(self).graph_name_text() == old(self).graph_name_text(),
            final(self).log() == old(self).log().push((old(self).graph_name_text(), cypher@)),
    {
        let ghost prior = self.log();
        self.recorded.push((self.graph_name.clone(), cypher.to_owned()));
        assert(self.log() =~= prior.push((self.graph_name@, cypher@)));
        self.executor.query(self.graph_name.as_str(), cypher)
    }

    /// A copy of what was handed over so far.
    pub fn recorded_for_tests(&self) -> (r: Vec<(String, String)>)
        ensures
            recorded_pairs(r@) == self.log(),
    {
        let mut out: Vec<(String, String)> = Vec::new();
        let mut i: usize = 0;
        while i < self.recorded.len()
            invariant
                i <= self.recorded.len(),
                recorded_pairs(out@) == self.log().take(i as int),
            decreases self.recorded.len() - i,
        {
            let ghost prior = recorded_pairs(out@);
            out.push((self.recorded[i].0.clone(), self.recorded[i].1.clone()));
            assert(recorded_pairs(out@) =~= prior.push(self.log()[i as int]));
            assert(recorded_pairs(out@) =~= self.log().take(i + 1));
            i += 1;
        }
        assert(self.log().take(self.log().len() as int) =~= self.log());
        out
    }
}

} // verus!
