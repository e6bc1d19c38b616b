//! The artifact's metadata rows: the required keys and the values an
//! artifact records under them.

use vstd::prelude::*;

use crate::text::{i64_text, int_text, owned, push_chars};

verus! {

/// The version of the artifact's SQLite schema.
pub const SQLITE_SCHEMA_VERSION: i64 = 6;

/// The version of the extraction contract.
pub const EXTRACT_CONTRACT_VERSION: i64 = 4;

/// The metadata key that records the artifact's extraction level; absent
/// means `full`. It is not one of the required keys.
pub const KEY_INDEX_LEVEL: &'static str = "index_level";

/// The keys every artifact's metadata holds, in order.
pub open spec fn required_keys() -> Seq<Seq<char>> {
    seq![
        "artifact_id"@,
        "root_path"@,
        "schema_version"@,
        "extract_contract_version"@,
        "sqlite_schema_version"@,
        "binary_version"@,
        "hash_algorithm"@,
        "parser_inventory_fingerprint"@,
        "capability_snapshot_fingerprint"@,
        "created_at"@,
        "updated_at"@,
    ]
}

/// The keys every artifact's metadata holds, in order.
pub fn required_metadata_keys() -> (r: Vec<&'static str>)
    ensures
        r@.map_values(|k: &'static str| k@) == required_keys(),
{
    let v = vec![
        "artifact_id",
        "root_path",
        "schema_version",
        "extract_contract_version",
        "sqlite_schema_version",
        "binary_version",
        "hash_algorithm",
        "parser_inventory_fingerprint",
        "capability_snapshot_fingerprint",
        "created_at",
        "updated_at",
    ];
    assert(v@.map_values(|k: &'static str| k@) =~= required_keys());
    v
}

#[derive(Debug, Clone, PartialEq, Eq)]
pub struct ArtifactMetadata {
    pub artifact_id: String,
    pub root_path: String,
    pub binary_version: String,
    pub hash_algorithm: String,
    pub parser_inventory_fingerprint: String,
    pub capability_snapshot_fingerprint: String,
    pub created_at: String,
    pub updated_at: String,
}

/// The rows of `m`: each required key with its value; the three schema
/// versions are the library's own.
pub open spec fn metadata_rows(m: ArtifactMetadata) -> Seq<(Seq<char>, Seq<char>)> {
    seq![
        ("artifact_id"@, m.artifact_id@),
        ("root_path"@, m.root_path@),
        ("schema_version"@, int_text(SQLITE_SCHEMA_VERSION as int)),
        ("extract_contract_version"@, int_text(EXTRACT_CONTRACT_VERSION as int)),
        ("sqlite_schema_version"@, int_text(SQLITE_SCHEMA_VERSION as int)),
        ("binary_version"@, m.binary_version@),
        ("hash_algorithm"@, m.hash_algorithm@),
        ("parser_inventory_fingerprint"@, m.parser_inventory_fingerprint@),
        ("capability_snapshot_fingerprint"@, m.capability_snapshot_fingerprint@),
        ("created_at"@, m.created_at@),
        ("updated_at"@, m.updated_at@),
    ]
}

/// The decimal text of `n`.
fn decimal(n: i64) -> (r: String)
    ensures
        r@ == int_text(n as int),
{
    let digits = i64_text(n);
    let mut r = String::new();
    push_chars(&mut r, digits.as_slice());
    r
}

impl ArtifactMetadata {
    /// The metadata rows to record, one per required key, in order.
    pub fn rows(&self) -> (r: Vec<(&'static str, String)>)
        ensures
            r@.map_values(|row: (&'static str, String)| (row.0@, row.1@)) == metadata_rows(*self),
    {
        let v = vec![
            ("artifact_id", owned(self.artifact_id.as_str())),
            ("root_path", owned(self.root_path.as_str())),
            ("schema_version", decimal(SQLITE_SCHEMA_VERSION)),
            ("extract_contract_version", decimal(EXTRACT_CONTRACT_VERSION)),
            ("sqlite_schema_version", decimal(SQLITE_SCHEMA_VERSION)),
            ("binary_version", owned(self.binary_version.as_str())),
            ("hash_algorithm", owned(self.hash_algorithm.as_str())),
            ("parser_inventory_fingerprint", owned(self.parser_inventory_fingerprint.as_str())),
            ("capability_snapshot_fingerprint", owned(self.capability_snapshot_fingerprint.as_str())),
            ("created_at", owned(self.created_at.as_str())),
            ("updated_at", owned(self.updated_at.as_str())),
        ];
        assert(v@.map_values(|row: (&'static str, String)| (row.0@, row.1@)) =~= metadata_rows(*self));
        v
    }
}

} // verus!
