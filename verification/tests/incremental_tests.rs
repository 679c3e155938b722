use code_context_graph::hash;
use code_context_graph::incremental::{IncrementalParser, ParseCache};
use code_context_graph::types::Language;

#[test]
fn test_parse_cache() {
    let cache = ParseCache::new();
    let key = hash::Hash::from_string("test");

    assert!(!cache.contains_key(&key));
    assert_eq!(cache.len(), 0);

    // This would require creating a mock SimplifiedAST
    // For now, just test the cache structure
    assert!(cache.get(&key).is_none());
}

#[test]
fn test_incremental_parser_creation() {
    let parser = IncrementalParser::new();
    assert_eq!(parser.cache_stats().max_capacity, 1000);

    let parser_custom = IncrementalParser::with_cache_size(500);
    assert_eq!(parser_custom.cache_stats().max_capacity, 500);
}

#[test]
fn test_cache_stats() {
    let parser = IncrementalParser::new();
    let stats = parser.cache_stats();

    assert_eq!(stats.total_entries, 0);
    assert_eq!(stats.max_capacity, 1000);
}

#[test]
fn test_cache_cleanup_expired() {
    let mut cache = ParseCache::new();

    // Test cleanup with no entries
    cache.cleanup_expired(0, 3600);
    assert_eq!(cache.len(), 0);
}

#[test]
fn unchanged_source_is_served_from_the_cache() {
    let mut parser = IncrementalParser::with_cache_size(2);
    let a = parser.parse_incremental("def f():\n    pass\n", Language::Python, "a.py", 1).unwrap();
    assert_eq!(parser.cache_stats().total_entries, 1);
    let again =
        parser.parse_incremental("def f():\n    pass\n", Language::Python, "a.py", 2).unwrap();
    assert_eq!(a.root, again.root);
    assert_eq!(a.source_hash, again.source_hash);
    assert_eq!(parser.cache_stats().total_entries, 1);
    // A changed source is parsed anew and replaces the entry.
    let changed =
        parser.parse_incremental("def g():\n    pass\n", Language::Python, "a.py", 3).unwrap();
    assert_ne!(changed.source_hash, a.source_hash);
    assert_eq!(parser.cache_stats().total_entries, 1);
}

#[test]
fn the_oldest_entries_make_room() {
    let mut parser = IncrementalParser::with_cache_size(2);
    parser.parse_incremental("x = 1\n", Language::Python, "a.py", 10).unwrap();
    parser.parse_incremental("x = 2\n", Language::Python, "b.py", 20).unwrap();
    parser.parse_incremental("x = 3\n", Language::Python, "c.py", 30).unwrap();
    assert_eq!(parser.cache_stats().total_entries, 2);
    parser.invalidate_file("a.py");
    assert_eq!(parser.cache_stats().total_entries, 2);
    parser.invalidate_file("b.py");
    assert_eq!(parser.cache_stats().total_entries, 1);
    parser.clear_cache();
    assert_eq!(parser.cache_stats().total_entries, 0);
}

#[test]
fn expired_entries_are_dropped_and_later_ones_kept() {
    let mut parser = IncrementalParser::new();
    parser.parse_incremental("x = 1\n", Language::Python, "old.py", 100).unwrap();
    parser.parse_incremental("x = 2\n", Language::Python, "new.py", 900).unwrap();
    parser.parse_incremental("x = 3\n", Language::Python, "future.py", 5000).unwrap();
    parser.cleanup_expired_entries(1000, 500);
    assert_eq!(parser.cache_stats().total_entries, 2);
}

#[test]
fn a_language_without_a_parser_is_an_error_and_keeps_nothing() {
    let mut parser = IncrementalParser::new();
    assert!(parser.parse_incremental("x", Language::Unknown, "x", 1).is_err());
    assert_eq!(parser.cache_stats().total_entries, 0);
}

#[test]
fn a_cache_without_room_keeps_nothing() {
    let mut parser = IncrementalParser::with_cache_size(0);
    // With no room at all, nothing is kept, yet every source is parsed.
    assert!(parser.parse_incremental("x = 1\n", Language::Python, "a.py", 1).is_ok());
    assert_eq!(parser.cache_stats().total_entries, 0);
}
