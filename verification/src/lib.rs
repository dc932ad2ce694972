//! Verified decision logic for a local engineering-graph store.

pub mod acceptance_laws;
pub mod api_error;
pub mod citation_laws;
pub mod codex;
pub mod codex_events;
pub mod codex_laws;
pub mod collections;
pub mod commit_view;
pub mod coverage_query;
pub mod crate_attribution;
pub mod criteria_coverage;
pub mod criteria_laws;
pub mod daemon;
pub mod daemon_laws;
pub mod decide;
pub mod decide_laws;
pub mod drift_laws;
pub mod embedding_laws;
pub mod embeddings;
pub mod entry_laws;
pub mod evidence_edges;
pub mod evidence_freshness;
pub mod evidence_laws;
pub mod evidence_rules;
pub mod evidence_synthesis;
pub mod freshness_laws;
pub mod freshness_query;
pub mod history;
pub mod http;
pub mod identity;
pub mod ingest_laws;
pub mod ingest_rules;
pub mod inventories;
pub mod ir;
pub mod jobs;
pub mod keys;
pub mod line_laws;
pub mod listing_laws;
pub mod liveness;
pub mod maintenance;
pub mod name_laws;
pub mod outside;
pub mod queries;
pub mod query_laws;
pub mod reach;
pub mod reach_report;
pub mod record_rules;
pub mod report_laws;
pub mod repository;
pub mod requests;
pub mod responses;
pub mod scan;
pub mod store_laws;
pub mod subsystem;
pub mod symbol_results;
pub mod text;
pub mod text_laws;
pub mod time;
pub mod trigger_laws;
pub mod view_laws;
pub mod wire_laws;
pub mod write;
pub mod write_laws;
