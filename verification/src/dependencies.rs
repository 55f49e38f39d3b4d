//! The dependency counter: given the contents of a project's candidate
//! manifests, counts the declared dependency entries. Reading the files is
//! input/output and lives with the caller; which manifest is consulted and
//! how a parse failure is absorbed is verified here.

use vstd::prelude::*;

verus! {

/// How a manifest file stands on disk: absent, present but unreadable, or
/// read in full.
pub enum ManifestFile {
    Absent,
    Unreadable,
    Text(String),
}

/// Number of entries in the table at top-level `key` of the TOML document
/// `text`; None when the document does not parse, or the key is missing or
/// holds no table. A function of the text and key alone.
pub uninterp spec fn toml_table_count(text: Seq<char>, key: Seq<char>) -> Option<usize>;

/// Number of entries in the object at top-level `key` of the JSON document
/// `text`; None when the document does not parse, or the key is missing or
/// holds no object. A function of the text and key alone.
pub uninterp spec fn json_object_count(text: Seq<char>, key: Seq<char>) -> Option<usize>;

/// Relies on toml::from_str::<toml::Table>, toml::map::Map::get,
/// toml::Value::as_table and toml::map::Map::len: the number of entries in
/// the table at top-level `key` of the TOML document `text`, a function of
/// the arguments alone.
#[verifier::external_body]
fn toml_key_table_len(text: &str, key: &str) -> (r: Option<usize>)
    ensures
        r == toml_table_count(text@, key@),
{
    let table: toml::Table = match toml::from_str(text) {
        Ok(t) => t,
        Err(_) => return None,
    };
    match table.get(key) {
        Some(v) => match v.as_table() {
            Some(t) => Some(t.len()),
            None => None,
        },
        None => None,
    }
}

/// Relies on serde_json::from_str::<serde_json::Value>,
/// serde_json::Value::get, serde_json::Value::as_object and
/// serde_json::Map::len: the number of entries in the object at top-level
/// `key` of the JSON document `text`, a function of the arguments alone.
#[verifier::external_body]
fn json_key_object_len(text: &str, key: &str) -> (r: Option<usize>)
    ensures
        r == json_object_count(text@, key@),
{
    let value: serde_json::Value = match serde_json::from_str(text) {
        Ok(v) => v,
        Err(_) => return None,
    };
    match value.get(key) {
        Some(v) => match v.as_object() {
            Some(m) => Some(m.len()),
            None => None,
        },
        None => None,
    }
}

/// How many dependencies the project declares, given its two candidate
/// manifests: a cargo manifest, when it exists at all, is consulted alone;
/// otherwise a node manifest; otherwise zero. An unreadable or unparseable
/// consulted manifest counts zero.
pub open spec fn spec_dependency_count(cargo: ManifestFile, node: ManifestFile) -> int {
    match cargo {
        ManifestFile::Text(s) => match toml_table_count(s@, "dependencies"@) {
            Option::Some(n) => n as int,
            Option::None => 0,
        },
        ManifestFile::Unreadable => 0,
        ManifestFile::Absent => match node {
            ManifestFile::Text(s) => match json_object_count(s@, "dependencies"@) {
                Option::Some(n) => n as int,
                Option::None => 0,
            },
            ManifestFile::Unreadable => 0,
            ManifestFile::Absent => 0,
        },
    }
}

/// Dependency statistics for one project.
#[derive(PartialEq, Eq, Structural, Clone, Copy, Debug)]
pub struct DependencyStats {
    pub total_deps: usize,
}

impl Default for DependencyStats {
    /// Zero dependencies.
    fn default() -> (r: Self)
        ensures
            r.total_deps == 0,
    {
        DependencyStats { total_deps: 0 }
    }
}

/// The dependency counter, over the two recognized manifest formats.
pub struct DependencyAnalyzer;

impl DependencyAnalyzer {
    /// A counter for the two recognized manifest formats.
    pub fn new() -> (r: DependencyAnalyzer) {
        DependencyAnalyzer
    }

    /// Count the declared dependencies: the cargo manifest's table under
    /// its dependencies key when that manifest exists, else the node
    /// manifest's object under the same key, else zero.
    pub fn analyze(&self, cargo_manifest: &ManifestFile, node_manifest: &ManifestFile) -> (r:
        DependencyStats)
        ensures
            r.total_deps == spec_dependency_count(*cargo_manifest, *node_manifest),
    {
        match cargo_manifest {
            ManifestFile::Text(s) => match toml_key_table_len(s.as_str(), "dependencies") {
                Some(n) => DependencyStats { total_deps: n },
                None => DependencyStats { total_deps: 0 },
            },
            ManifestFile::Unreadable => DependencyStats { total_deps: 0 },
            ManifestFile::Absent => match node_manifest {
                ManifestFile::Text(s) => match json_key_object_len(s.as_str(), "dependencies") {
                    Some(n) => DependencyStats { total_deps: n },
                    None => DependencyStats { total_deps: 0 },
                },
                ManifestFile::Unreadable => DependencyStats { total_deps: 0 },
                ManifestFile::Absent => DependencyStats { total_deps: 0 },
            },
        }
    }
}

} // verus!
