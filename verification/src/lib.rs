//! Python scripts that carry their own environment.

pub mod add;
pub mod atomic_write;
pub mod atomic_write_laws;
pub mod error;
pub mod initial_metadata;
pub mod lock_file;
pub mod lock_file_laws;
pub mod lock_markers;
pub mod lock_markers_laws;
pub mod lock_text;
pub mod lock_text_laws;
pub mod manifest;
pub mod ordered;
pub mod pypi;
pub mod pyproject;
pub mod pyproject_laws;
pub mod reconcile;
pub mod reconcile_laws;
pub mod requirement;
pub mod requirement_laws;
pub mod resolution;
pub mod resolution_laws;
pub mod run;
pub mod run_laws;
pub mod run_script;
pub mod run_script_laws;
pub mod satisfiability;
pub mod satisfiability_laws;
pub mod script_block;
pub mod script_block_laws;
pub mod script_header;
pub mod script_header_laws;
pub mod script_metadata;
pub mod script_metadata_laws;
pub mod script_reading_laws;
pub mod similar;
pub mod tasks;
pub mod tasks_laws;
pub mod text;
pub mod toml;
pub mod unsat;
pub mod update;
pub mod update_laws;
pub mod update_script;
pub mod update_script_laws;
pub mod yaml;
