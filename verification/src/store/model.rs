//! Store value types: detail levels, projection failures, reference sites
//! and per-table row counts of a file version.

use vstd::prelude::*;

use crate::model::FileStatus;
use crate::model::{running_totals_fit, sum, checked_running_sum};

verus! {

/// How much of a file version's detail is kept: L1 is the core, L2 adds
/// identifiers, L3 adds the deep rows.
#[derive(Debug, Clone, Copy, PartialEq, Eq)]
pub enum StoreLevel {
    L1,
    L2,
    L3,
}

impl StoreLevel {
    pub open spec fn number(self) -> i64 {
        match self {
            StoreLevel::L1 => 1,
            StoreLevel::L2 => 2,
            StoreLevel::L3 => 3,
        }
    }

    pub fn as_i64(self) -> (r: i64)
        ensures
            r == self.number(),
    {
        match self {
            StoreLevel::L1 => 1,
            StoreLevel::L2 => 2,
            StoreLevel::L3 => 3,
        }
    }
}

/// Why a file cannot become a store version.
#[derive(Debug, Clone, PartialEq, Eq)]
pub enum StoreProjectionError {
    FileNotIndexed(FileStatus),
    MissingContentHash,
    InvalidExtractionEpoch(u32),
    NegativeContentBytes(i64),
    NegativeLineCount(i64),
}

#[derive(Debug, Clone, PartialEq, Eq)]
pub struct StoreReferenceSite {
    pub reference_site_id: String,
    pub path: String,
    pub language: String,
    pub containing_symbol_id: Option<String>,
    pub start_line: Option<i64>,
    pub start_column: Option<i64>,
    pub end_line: Option<i64>,
    pub end_column: Option<i64>,
    pub start_byte: Option<i64>,
    pub end_byte: Option<i64>,
    pub is_exact: bool,
    pub provenance: String,
    pub level: i64,
}

#[derive(Debug, Clone, Copy, Default, PartialEq, Eq)]
pub struct StoreRowCounts {
    pub file_versions: i64,
    pub parser_inventory: i64,
    pub language_capabilities: i64,
    pub language_capability_fixtures: i64,
    pub language_capability_gaps: i64,
    pub symbols: i64,
    pub symbol_annotations: i64,
    pub reference_sites: i64,
    pub identifiers: i64,
    pub relationships: i64,
    pub pending_relationships: i64,
    pub type_facts: i64,
    pub type_argument_usages: i64,
    pub type_arguments: i64,
    pub literals: i64,
    pub source_regions: i64,
    pub structural_facts: i64,
    pub complexity_metrics: i64,
    pub parse_diagnostics: i64,
}

impl StoreRowCounts {
    /// Every table's count, in the order they are added.
    pub open spec fn terms(self) -> Seq<int> {
        seq![
            self.file_versions as int,
            self.parser_inventory as int,
            self.language_capabilities as int,
            self.language_capability_fixtures as int,
            self.language_capability_gaps as int,
            self.symbols as int,
            self.symbol_annotations as int,
            self.reference_sites as int,
            self.identifiers as int,
            self.relationships as int,
            self.pending_relationships as int,
            self.type_facts as int,
            self.type_argument_usages as int,
            self.type_arguments as int,
            self.literals as int,
            self.source_regions as int,
            self.structural_facts as int,
            self.complexity_metrics as int,
            self.parse_diagnostics as int,
        ]
    }

    /// The rows across every table.
    pub fn total(self) -> (r: i64)
        requires
            running_totals_fit(self.terms()),
        ensures
            r == sum(self.terms()),
    {
        let vals = [
            self.file_versions,
            self.parser_inventory,
            self.language_capabilities,
            self.language_capability_fixtures,
            self.language_capability_gaps,
            self.symbols,
            self.symbol_annotations,
            self.reference_sites,
            self.identifiers,
            self.relationships,
            self.pending_relationships,
            self.type_facts,
            self.type_argument_usages,
            self.type_arguments,
            self.literals,
            self.source_regions,
            self.structural_facts,
            self.complexity_metrics,
            self.parse_diagnostics,
        ];
        assert(vals@.map_values(|v: i64| v as int) =~= self.terms());
        checked_running_sum(&vals)
    }
}

/// The level a stored level number denotes, if any.
pub open spec fn level_of(value: i64) -> Option<StoreLevel> {
    if value == 1 {
        Some(StoreLevel::L1)
    } else if value == 2 {
        Some(StoreLevel::L2)
    } else if value == 3 {
        Some(StoreLevel::L3)
    } else {
        None
    }
}

/// A level number decodes to the level that encodes to it.
pub proof fn lemma_level_number_round_trip(level: StoreLevel)
    ensures
        level_of(level.number()) == Some(level),
{
}

} // verus!
