//! The options of the engine, section by section, with their defaults and
//! the overlay of a partly given section over a complete one.

use vstd::prelude::*;
use vstd::string::*;
use crate::text::texts;

verus! {

/// The text of an optional string.
pub open spec fn text_of(o: Option<String>) -> Option<Seq<char>> {
    match o {
        Some(s) => Some(s@),
        None => None,
    }
}

#[derive(Debug, Clone)]
pub struct EngineConfig {
    pub name: String,
    pub languages: Vec<String>,
}

#[derive(Debug, Clone)]
pub struct ParserConfig {
    pub max_file_size_kb: usize,
    pub ignore_patterns: Vec<String>,
}

#[derive(Debug, Clone)]
pub struct FalkorDBConfig {
    pub url: String,
    pub graph_name: String,
}

#[derive(Debug, Clone)]
pub struct FileWatcherConfig {
    pub enabled: bool,
    pub debounce_ms: u64,
    pub batch_threshold: usize,
    pub ignore_patterns: Vec<String>,
    pub recursive: bool,
}

#[derive(Debug, Clone, Copy, PartialEq, Eq, Structural)]
pub struct VersioningConfig {
    pub enabled: bool,
    pub max_versions: usize,
    pub auto_snapshot_interval: u64,
    pub merkle_tree_fanout: usize,
}

#[derive(Debug, Clone, Copy, PartialEq, Eq, Structural)]
pub struct QualityMetricsConfig {
    pub calculate_cohesion: bool,
    pub calculate_coupling: bool,
    pub maintainability_threshold: u32,
    pub complexity_warning: u32,
}

#[derive(Debug, Clone, Copy, PartialEq, Eq, Structural)]
pub struct ApiConfig {
    pub port: u16,
    pub max_context_size: usize,
    pub enable_version_api: bool,
    pub enable_quality_api: bool,
    pub enable_aase_api: bool,
}

#[derive(Debug, Clone)]
pub struct LoggingConfig {
    pub level: String,
    pub format: String,
}

/// The part of an engine section that a configuration file gives.
#[derive(Debug, Clone)]
pub struct PartialEngine {
    pub name: Option<String>,
    pub languages: Option<Vec<String>>,
}

#[derive(Debug, Clone)]
pub struct PartialParser {
    pub max_file_size_kb: Option<usize>,
    pub ignore_patterns: Option<Vec<String>>,
}

#[derive(Debug, Clone)]
pub struct PartialFalkor {
    pub url: Option<String>,
    pub graph_name: Option<String>,
}

#[derive(Debug, Clone)]
pub struct PartialFileWatcher {
    pub enabled: Option<bool>,
    pub debounce_ms: Option<u64>,
    pub batch_threshold: Option<usize>,
    pub ignore_patterns: Option<Vec<String>>,
    pub recursive: Option<bool>,
}

#[derive(Debug, Clone, Copy)]
pub struct PartialVersioning {
    pub enabled: Option<bool>,
    pub max_versions: Option<usize>,
    pub auto_snapshot_interval: Option<u64>,
    pub merkle_tree_fanout: Option<usize>,
}

#[derive(Debug, Clone, Copy)]
pub struct PartialQualityMetrics {
    pub calculate_cohesion: Option<bool>,
    pub calculate_coupling: Option<bool>,
    pub maintainability_threshold: Option<u32>,
    pub complexity_warning: Option<u32>,
}

#[derive(Debug, Clone, Copy)]
pub struct PartialApi {
    pub port: Option<u16>,
    pub max_context_size: Option<usize>,
    pub enable_version_api: Option<bool>,
    pub enable_quality_api: Option<bool>,
    pub enable_aase_api: Option<bool>,
}

#[derive(Debug, Clone)]
pub struct PartialLogging {
    pub level: Option<String>,
    pub format: Option<String>,
}

fn pick<T>(given: Option<T>, fallback: T) -> (r: T)
    ensures
        r == (match given {
            Some(v) => v,
            None => fallback,
        }),
{
    match given {
        Some(v) => v,
        None => fallback,
    }
}

impl Default for EngineConfig {
    fn default() -> (r: Self)
        ensures
            r.name@ == "code-context-graph"@,
            texts(r.languages@) == seq!["python"@, "javascript"@, "java"@, "kotlin"@],
    {
        let languages: Vec<String> = vec![
            String::from_str("python"),
            String::from_str("javascript"),
            String::from_str("java"),
            String::from_str("kotlin"),
        ];
        assert(texts(languages@) =~= seq!["python"@, "javascript"@, "java"@, "kotlin"@]);
        EngineConfig { name: String::from_str("code-context-graph"), languages }
    }
}

impl EngineConfig {
    /// The section with what the file gives laid over it.
    pub fn overlay(self, partial: PartialEngine) -> (r: Self)
        ensures
            r.name == (match partial.name {
                Some(v) => v,
                None => self.name,
            }),
            r.languages == (match partial.languages {
                Some(v) => v,
                None => self.languages,
            }),
    {
        EngineConfig {
            name: pick(partial.name, self.name),
            languages: pick(partial.languages, self.languages),
        }
    }
}

impl Default for ParserConfig {
    fn default() -> (r: Self)
        ensures
            r.max_file_size_kb == 1024,
            texts(r.ignore_patterns@) == seq!["*_test.py"@, "*.min.js"@],
    {
        let ignore_patterns: Vec<String> = vec![
            String::from_str("*_test.py"),
            String::from_str("*.min.js"),
        ];
        assert(texts(ignore_patterns@) =~= seq!["*_test.py"@, "*.min.js"@]);
        ParserConfig { max_file_size_kb: 1024, ignore_patterns }
    }
}

impl ParserConfig {
    pub fn overlay(self, partial: PartialParser) -> (r: Self)
        ensures
            r.max_file_size_kb == (match partial.max_file_size_kb {
                Some(v) => v,
                None => self.max_file_size_kb,
            }),
            r.ignore_patterns == (match partial.ignore_patterns {
                Some(v) => v,
                None => self.ignore_patterns,
            }),
    {
        ParserConfig {
            max_file_size_kb: pick(partial.max_file_size_kb, self.max_file_size_kb),
            ignore_patterns: pick(partial.ignore_patterns, self.ignore_patterns),
        }
    }
}

impl Default for FalkorDBConfig {
    fn default() -> (r: Self)
        ensures
            r.url@ == "redis://localhost:6379"@,
            r.graph_name@ == "code_graph"@,
    {
        FalkorDBConfig {
            url: String::from_str("redis://localhost:6379"),
            graph_name: String::from_str("code_graph"),
        }
    }
}

impl FalkorDBConfig {
    pub fn overlay(self, partial: PartialFalkor) -> (r: Self)
        ensures
            r.url == (match partial.url {
                Some(v) => v,
                None => self.url,
            }),
            r.graph_name == (match partial.graph_name {
                Some(v) => v,
                None => self.graph_name,
            }),
    {
        FalkorDBConfig {
            url: pick(partial.url, self.url),
            graph_name: pick(partial.graph_name, self.graph_name),
        }
    }
}

impl Default for FileWatcherConfig {
    fn default() -> (r: Self)
        ensures
            r.enabled,
            r.debounce_ms == 100,
            r.batch_threshold == 50,
            texts(r.ignore_patterns@) == seq![".git"@, "node_modules"@, "target"@],
            r.recursive,
    {
        let ignore_patterns: Vec<String> = vec![
            String::from_str(".git"),
            String::from_str("node_modules"),
            String::from_str("target"),
        ];
        assert(texts(ignore_patterns@) =~= seq![".git"@, "node_modules"@, "target"@]);
        FileWatcherConfig {
            enabled: true,
            debounce_ms: 100,
            batch_threshold: 50,
            ignore_patterns,
            recursive: true,
        }
    }
}

impl FileWatcherConfig {
    pub fn overlay(self, partial: PartialFileWatcher) -> (r: Self)
        ensures
            r.enabled == (match partial.enabled {
                Some(v) => v,
                None => self.enabled,
            }),
            r.debounce_ms == (match partial.debounce_ms {
                Some(v) => v,
                None => self.debounce_ms,
            }),
            r.batch_threshold == (match partial.batch_threshold {
                Some(v) => v,
                None => self.batch_threshold,
            }),
            r.ignore_patterns == (match partial.ignore_patterns {
                Some(v) => v,
                None => self.ignore_patterns,
            }),
            r.recursive == (match partial.recursive {
                Some(v) => v,
                None => self.recursive,
            }),
    {
        FileWatcherConfig {
            enabled: pick(partial.enabled, self.enabled),
            debounce_ms: pick(partial.debounce_ms, self.debounce_ms),
            batch_threshold: pick(partial.batch_threshold, self.batch_threshold),
            ignore_patterns: pick(partial.ignore_patterns, self.ignore_patterns),
            recursive: pick(partial.recursive, self.recursive),
        }
    }
}

impl Default for VersioningConfig {
    fn default() -> (r: Self)
        ensures
            r == (VersioningConfig {
                enabled: true,
                max_versions: 1000,
                auto_snapshot_interval: 3600,
                merkle_tree_fanout: 16,
            }),
    {
        VersioningConfig {
            enabled: true,
            max_versions: 1000,
            auto_snapshot_interval: 3600,
            merkle_tree_fanout: 16,
        }
    }
}

impl VersioningConfig {
    pub fn overlay(self, partial: PartialVersioning) -> (r: Self)
        ensures
            r == (VersioningConfig {
                enabled: match partial.enabled {
                    Some(v) => v,
                    None => self.enabled,
                },
                max_versions: match partial.max_versions {
                    Some(v) => v,
                    None => self.max_versions,
                },
                auto_snapshot_interval: match partial.auto_snapshot_interval {
                    Some(v) => v,
                    None => self.auto_snapshot_interval,
                },
                merkle_tree_fanout: match partial.merkle_tree_fanout {
                    Some(v) => v,
                    None => self.merkle_tree_fanout,
                },
            }),
    {
        VersioningConfig {
            enabled: pick(partial.enabled, self.enabled),
            max_versions: pick(partial.max_versions, self.max_versions),
            auto_snapshot_interval: pick(
                partial.auto_snapshot_interval,
                self.auto_snapshot_interval,
            ),
            merkle_tree_fanout: pick(partial.merkle_tree_fanout, self.merkle_tree_fanout),
        }
    }
}

impl Default for QualityMetricsConfig {
    fn default() -> (r: Self)
        ensures
            r == (QualityMetricsConfig {
                calculate_cohesion: true,
                calculate_coupling: true,
                maintainability_threshold: 65,
                complexity_warning: 10,
            }),
    {
        QualityMetricsConfig {
            calculate_cohesion: true,
            calculate_coupling: true,
            maintainability_threshold: 65,
            complexity_warning: 10,
        }
    }
}

impl QualityMetricsConfig {
    pub fn overlay(self, partial: PartialQualityMetrics) -> (r: Self)
        ensures
            r == (QualityMetricsConfig {
                calculate_cohesion: match partial.calculate_cohesion {
                    Some(v) => v,
                    None => self.calculate_cohesion,
                },
                calculate_coupling: match partial.calculate_coupling {
                    Some(v) => v,
                    None => self.calculate_coupling,
                },
                maintainability_threshold: match partial.maintainability_threshold {
                    Some(v) => v,
                    None => self.maintainability_threshold,
                },
                complexity_warning: match partial.complexity_warning {
                    Some(v) => v,
                    None => self.complexity_warning,
                },
            }),
    {
        QualityMetricsConfig {
            calculate_cohesion: pick(partial.calculate_cohesion, self.calculate_cohesion),
            calculate_coupling: pick(partial.calculate_coupling, self.calculate_coupling),
            maintainability_threshold: pick(
                partial.maintainability_threshold,
                self.maintainability_threshold,
            ),
            complexity_warning: pick(partial.complexity_warning, self.complexity_warning),
        }
    }
}

impl Default for ApiConfig {
    fn default() -> (r: Self)
        ensures
            r == (ApiConfig {
                port: 8080,
                max_context_size: 8192,
                enable_version_api: true,
                enable_quality_api: true,
                enable_aase_api: true,
            }),
    {
        ApiConfig {
            port: 8080,
            max_context_size: 8192,
            enable_version_api: true,
            enable_quality_api: true,
            enable_aase_api: true,
        }
    }
}

impl ApiConfig {
    pub fn overlay(self, partial: PartialApi) -> (r: Self)
        ensures
            r == (ApiConfig {
                port: match partial.port {
                    Some(v) => v,
                    None => self.port,
                },
                max_context_size: match partial.max_context_size {
                    Some(v) => v,
                    None => self.max_context_size,
                },
                enable_version_api: match partial.enable_version_api {
                    Some(v) => v,
                    None => self.enable_version_api,
                },
                enable_quality_api: match partial.enable_quality_api {
                    Some(v) => v,
                    None => self.enable_quality_api,
                },
                enable_aase_api: match partial.enable_aase_api {
                    Some(v) => v,
                    None => self.enable_aase_api,
                },
            }),
    {
        ApiConfig {
            port: pick(partial.port, self.port),
            max_context_size: pick(partial.max_context_size, self.max_context_size),
            enable_version_api: pick(partial.enable_version_api, self.enable_version_api),
            enable_quality_api: pick(partial.enable_quality_api, self.enable_quality_api),
            enable_aase_api: pick(partial.enable_aase_api, self.enable_aase_api),
        }
    }
}

impl Default for LoggingConfig {
    fn default() -> (r: Self)
        ensures
            r.level@ == "info"@,
            r.format@ == "json"@,
    {
        LoggingConfig { level: String::from_str("info"), format: String::from_str("json") }
    }
}

impl LoggingConfig {
    pub fn overlay(self, partial: PartialLogging) -> (r: Self)
        ensures
            r.level == (match partial.level {
                Some(v) => v,
                None => self.level,
            }),
            r.format == (match partial.format {
                Some(v) => v,
                None => self.format,
            }),
    {
        LoggingConfig {
            level: pick(partial.level, self.level),
            format: pick(partial.format, self.format),
        }
    }
}

} // verus!
