//! Verified core of a word-processor document toolkit: form objects in a
//! document (creating, reading, setting and deleting them, in body and cell
//! paragraphs) and the compatibility check that reports, as JSON, what the
//! desktop and web viewers trip over.
pub mod collect;
pub mod decimal;
pub mod extract;
pub mod form_edit;
pub mod form_json;
pub mod form_query;
pub mod help;
pub mod help_doc;
pub mod json;
pub mod lint_base;
pub mod lint_cells;
pub mod lint_chars;
pub mod lint_orphan;
pub mod lint_pushed;
pub mod lint_report;
pub mod lint_style;
pub mod lint_table;
pub mod lint_walk;
pub mod model;
pub mod num;
pub mod path;
pub mod positions;
pub mod props;
pub mod script;
pub mod text;
