use code_context_graph::error::CodeGraphError;
use code_context_graph::graph::{GraphBuilder, GraphClient, GraphExecutor};
use code_context_graph::test_utils::TestUtils;
use code_context_graph::types::Language;
use std::sync::{Arc, Mutex};

fn contains_all(haystack: &str, needles: &[&str]) {
    for n in needles {
        assert!(haystack.contains(n), "expected to find '{}', got: {}", n, haystack);
    }
}

struct MockExec(Arc<Mutex<Vec<(String, String)>>>);

impl MockExec {
    fn new() -> Self {
        Self(Arc::new(Mutex::new(Vec::new())))
    }
}

impl GraphExecutor for MockExec {
    fn query(&self, graph: &str, cypher: &str) -> Result<redis::Value, CodeGraphError> {
        self.0.lock().unwrap().push((graph.to_string(), cypher.to_string()));
        Ok(redis::Value::Okay)
    }
}

struct FailingExec {
    reject: String,
}

impl GraphExecutor for FailingExec {
    fn query(&self, _graph: &str, cypher: &str) -> Result<redis::Value, CodeGraphError> {
        if cypher == self.reject {
            Err(CodeGraphError::Graph { message: "rejected".to_string() })
        } else {
            Ok(redis::Value::Okay)
        }
    }
}

#[test]
fn builds_basic_python_class_graph_queries() {
    let source = r#"
class Foo:
    def bar(self):
        pass
"#;
    let ast = TestUtils::parse_source(source, Language::Python).unwrap();
    let builder = GraphBuilder::new("code_graph");
    let queries = builder.build_queries(&ast, "src/foo.py");
    let all = queries.join("\n");
    contains_all(&all, &[
        "MERGE (f:File",
        "{ path: 'src/foo.py' }",
        "MERGE (cls:Class",
        "{ name: 'Foo' }",
        "MERGE (f)-[:CONTAINS]->(cls)",
    ]);
}

#[test]
fn builds_basic_python_function_graph_queries() {
    let source = r#"
def foo(x):
    return x
"#;
    let ast = TestUtils::parse_source(source, Language::Python).unwrap();
    let builder = GraphBuilder::new("code_graph");
    let queries = builder.build_queries(&ast, "src/main.py");
    let all = queries.join("\n");
    // Expect MERGE for File and Function, and CONTAINS relation
    contains_all(&all, &[
        "MERGE (f:File",
        "{ path: 'src/main.py' }",
        "MERGE (fn:Function",
        "{ name: 'foo' }",
        "MERGE (f)-[:CONTAINS]->(fn)",
    ]);
}

#[test]
fn includes_import_relationships_for_python() {
    let source = r#"
import os
def foo():
    return os.getcwd()
"#;
    let ast = TestUtils::parse_source(source, Language::Python).unwrap();
    let builder = GraphBuilder::new("code_graph");
    let queries = builder.build_queries(&ast, "app/util.py");
    let all = queries.join("\n");
    contains_all(&all, &[
        "MERGE (m:Module { name: 'os' })",
        "MERGE (f:File { path: 'app/util.py' })",
        "MERGE (f)-[:IMPORTS]->(m)",
    ]);
}

#[test]
fn persist_executes_all_queries_in_order() {
    let exec = MockExec::new();
    let mut client = GraphClient::with_executor("code_graph", exec);
    let queries = vec![
        "MERGE (f:File { path: 'a.py' })".to_string(),
        "MERGE (x:X)".to_string(),
    ];
    client.persist_queries(&queries).unwrap();
    let recorded = client.recorded_for_tests();
    assert_eq!(recorded.len(), 2);
    assert_eq!(recorded[0].0, "code_graph");
    assert_eq!(recorded[0].1, "MERGE (f:File { path: 'a.py' })");
    assert_eq!(recorded[1].1, "MERGE (x:X)");
}

#[test]
fn persist_ast_builds_and_executes() {
    let source = r#"
import os

def foo(x):
    return os.getcwd()
"#;
    let ast = TestUtils::parse_source(source, Language::Python).unwrap();
    let builder = GraphBuilder::new("code_graph");
    let exec = MockExec::new();
    let mut client = GraphClient::with_executor("code_graph", exec);
    let queries = builder.build_queries(&ast, "src/app.py");
    client.persist_queries(&queries).unwrap();
    let recorded = client.recorded_for_tests();
    let all = recorded.iter().map(|(_, q)| q.clone()).collect::<Vec<_>>().join("\n");
    assert!(all.contains("MERGE (fn:Function { name: 'foo' })"));
    assert!(all.contains("MERGE (m:Module { name: 'os' })"));
}

#[test]
fn persist_stops_at_the_first_rejected_statement() {
    let exec = FailingExec { reject: "B".to_string() };
    let mut client = GraphClient::with_executor("g", exec);
    let queries = vec!["A".to_string(), "B".to_string(), "C".to_string()];
    let r = client.persist_queries(&queries);
    assert!(matches!(r, Err(CodeGraphError::Graph { .. })));
    let recorded = client.recorded_for_tests();
    assert_eq!(
        recorded,
        vec![("g".to_string(), "A".to_string()), ("g".to_string(), "B".to_string())]
    );
}

#[test]
fn execute_records_and_runs_one_statement() {
    let mut client = GraphClient::with_executor("g", MockExec::new());
    let r = client.execute("MERGE (x:X)");
    assert!(matches!(r, Ok(redis::Value::Okay)));
    assert_eq!(client.recorded_for_tests(), vec![("g".to_string(), "MERGE (x:X)".to_string())]);
}
