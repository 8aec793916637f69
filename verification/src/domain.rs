//! Records exchanged between the command layer and the analysis code.
use std::path::PathBuf;
use vstd::prelude::*;

verus! {

/// `std::path::PathBuf`, carried through as an opaque value.
#[verifier::external_type_specification]
#[verifier::external_body]
pub struct ExPathBuf(PathBuf);

/// `PathBuf::clone`: promises nothing of the copy beyond its type.
pub assume_specification[ <PathBuf as Clone>::clone ](p: &PathBuf) -> PathBuf;

/// Where the application keeps its database.
#[derive(Clone)]
pub struct AppState {
    pub db_path: PathBuf,
}

#[derive(Clone, Debug, PartialEq, Eq)]
pub struct StatTier {
    pub tier_index: i64,
    pub value_scaled: i64,
}

#[derive(Clone, Debug, PartialEq, Eq)]
pub struct StatDef {
    pub stat_key: String,
    pub display_name: String,
    pub unit: String,
    pub tiers: Vec<StatTier>,
}

#[derive(Clone, Debug, PartialEq, Eq)]
pub struct ExpectationItem {
    pub stat_key: String,
    pub rank: i64,
}

#[derive(Clone, Debug, PartialEq, Eq)]
pub struct ExpectationPreset {
    pub preset_id: String,
    pub name: String,
    pub created_at: String,
    pub updated_at: String,
    pub items: Vec<ExpectationItem>,
}

#[derive(Clone, Debug, PartialEq, Eq)]
pub struct SaveExpectationPresetInput {
    pub preset_id: Option<String>,
    pub name: String,
    pub items: Vec<ExpectationItem>,
}

#[derive(Clone, Debug, PartialEq, Eq)]
pub struct SaveExpectationPresetOutput {
    pub preset_id: String,
}

#[derive(Clone, Debug, PartialEq, Eq)]
pub struct DeleteExpectationPresetInput {
    pub preset_id: String,
}

#[derive(Clone, Debug, PartialEq, Eq)]
pub struct EchoSubstatSlot {
    pub slot_no: i64,
    pub stat_key: String,
    pub tier_index: i64,
    pub value_scaled: i64,
    pub source: String,
}

#[derive(Clone, Debug, PartialEq, Eq)]
pub struct CreateEchoInput {
    pub nickname: Option<String>,
    pub main_stat_key: String,
    pub cost_class: i64,
    pub status: Option<String>,
}

#[derive(Clone, Debug, PartialEq, Eq)]
pub struct CreateEchoOutput {
    pub echo_id: String,
}

#[derive(Clone, Debug, PartialEq, Eq)]
pub struct UpdateEchoInput {
    pub echo_id: String,
    pub nickname: Option<String>,
    pub main_stat_key: Option<String>,
    pub cost_class: Option<i64>,
    pub status: Option<String>,
}

#[derive(Clone, Debug, PartialEq, Eq)]
pub struct DeleteEchoInput {
    pub echo_id: String,
}

#[derive(Clone, Debug, PartialEq, Eq, Default)]
pub struct EchoFilter {
    pub status: Option<String>,
    pub main_stat_key: Option<String>,
    pub cost_class: Option<i64>,
}

#[derive(Clone, Debug, PartialEq, Eq)]
pub struct EchoSummary {
    pub echo_id: String,
    pub nickname: Option<String>,
    pub main_stat_key: String,
    pub cost_class: i64,
    pub status: String,
    pub opened_slots_count: i64,
    pub created_at: String,
    pub updated_at: String,
    pub expectations: Vec<ExpectationItem>,
    pub current_substats: Vec<EchoSubstatSlot>,
}

#[derive(Clone, Debug, PartialEq, Eq)]
pub struct SetExpectationsInput {
    pub echo_id: String,
    pub items: Vec<ExpectationItem>,
}

#[derive(Clone, Debug, PartialEq, Eq)]
pub struct BackfillSlotInput {
    pub slot_no: i64,
    pub stat_key: String,
    pub tier_index: i64,
}

#[derive(Clone, Debug, PartialEq, Eq)]
pub struct UpsertBackfillInput {
    pub echo_id: String,
    pub slots: Vec<BackfillSlotInput>,
}

#[derive(Clone, Debug, PartialEq, Eq)]
pub struct SimpleOk {
    pub ok: bool,
}

#[derive(Clone, Debug, PartialEq, Eq)]
pub struct AppendOrderedEventInput {
    pub echo_id: String,
    pub slot_no: i64,
    pub stat_key: String,
    pub tier_index: i64,
    pub event_time: String,
}

#[derive(Clone, Debug, PartialEq, Eq)]
pub struct AppendOrderedEventOutput {
    pub event_id: String,
}

#[derive(Clone, Debug, PartialEq, Eq)]
pub struct EditOrderedEventInput {
    pub event_id: String,
    pub slot_no: Option<i64>,
    pub stat_key: Option<String>,
    pub tier_index: Option<i64>,
    pub event_time: Option<String>,
    pub reorder_mode: Option<String>,
}

#[derive(Clone, Debug, PartialEq, Eq)]
pub struct EditOrderedEventOutput {
    pub ok: bool,
    pub affected_range: String,
}

#[derive(Clone, Debug, PartialEq, Eq)]
pub struct DeleteOrderedEventInput {
    pub event_id: String,
}

#[derive(Clone, Debug, PartialEq, Eq)]
pub struct DeleteOrderedEventOutput {
    pub ok: bool,
}

#[derive(Clone, Debug, PartialEq, Eq, Default)]
pub struct EventHistoryFilter {
    pub echo_id: Option<String>,
    pub limit: Option<i64>,
}

#[derive(Clone, Debug, PartialEq, Eq)]
pub struct EventRow {
    pub event_id: String,
    pub echo_id: String,
    pub echo_nickname: Option<String>,
    pub slot_no: i64,
    pub stat_key: String,
    pub tier_index: i64,
    pub value_scaled: i64,
    pub event_time: String,
    pub created_seq: i64,
    pub analysis_seq: i64,
    pub game_day: String,
    pub created_at: String,
}

#[derive(Clone, Debug, PartialEq, Eq, Default)]
pub struct DistributionFilter {
    pub start_time: Option<String>,
    pub end_time: Option<String>,
    pub main_stat_key: Option<String>,
    pub cost_class: Option<i64>,
    pub status: Option<String>,
}

#[derive(Clone, Debug, PartialEq, Eq)]
pub struct CreateProbabilitySnapshotInput {
    pub scope: DistributionFilter,
}

#[derive(Clone, Debug, PartialEq, Eq)]
pub struct CreateProbabilitySnapshotOutput {
    pub snapshot_id: String,
}

#[derive(Clone, Debug, PartialEq, Eq)]
pub struct ExportCsvInput {
    pub scope: DistributionFilter,
    pub include_snapshots: bool,
}

#[derive(Clone, Debug, PartialEq, Eq)]
pub struct ExportCsvOutput {
    pub zip_path: String,
}

#[derive(Clone, Debug, PartialEq, Eq)]
pub struct ImportDataInput {
    pub zip_path: String,
}

#[derive(Clone, Debug, PartialEq, Eq)]
pub struct ImportDataOutput {
    pub ok: bool,
    pub imported_tables: Vec<String>,
}

#[derive(Clone, Debug, PartialEq, Eq, Default)]
pub struct DailyPatternDecisionFilter {
    pub game_day: Option<String>,
    pub cost_class: Option<i64>,
    pub main_stat_key: Option<String>,
    pub status: Option<String>,
    pub manual_start_index: Option<i64>,
    pub manual_cycle_len: Option<i64>,
    pub manual_guess_shapes: Option<Vec<String>>,
    pub min_len: Option<i64>,
    pub max_len: Option<i64>,
    pub min_support: Option<i64>,
    pub max_order: Option<i64>,
    pub top_k: Option<i64>,
}

#[derive(Clone, Debug, PartialEq, Eq, Default)]
pub struct HypothesisFilter {
    pub cost_class: Option<i64>,
    pub main_stat_key: Option<String>,
    pub status: Option<String>,
}

/// A detected streak of same-category stats
#[derive(Clone, Debug, PartialEq, Eq)]
pub struct CategoryStreakRow {
    pub echo_id: String,
    pub category: String,
    pub start_slot: i64,
    pub end_slot: i64,
    pub length: i64,
    pub stats: Vec<String>,
    pub tiers: Vec<i64>,
    pub possible_zones: Vec<String>,
}

} // verus!
