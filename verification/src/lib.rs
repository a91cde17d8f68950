//! Reading the conversations of Antigravity.
//!
//! The IDE writes a full transcript of each conversation, one JSON step per line:
//! [`transcript`] makes messages of it. The command line tool keeps a summary of
//! each conversation in a database: [`store`] reads those. [`sessions`] lists both
//! and reads one, through the adapter in [`adapter`]. What all this comes to is
//! proved in [`laws`], [`step_laws`], [`conversation_laws`], [`text_laws`],
//! [`listing_laws`], [`call_laws`], [`path_laws`], [`prefix_laws`] and
//! [`plain_laws`].

pub mod adapter;
pub mod call_laws;
pub mod conventions;
pub mod conversation_laws;
pub mod json;
pub mod laws;
pub mod layout;
pub mod listing_laws;
pub mod models;
pub mod pairs;
pub mod path_laws;
pub mod paths;
pub mod pending;
pub mod plain;
pub mod plain_laws;
pub mod prefix_laws;
pub mod projects;
pub mod request;
pub mod row;
pub mod sessions;
pub mod step_laws;
pub mod store;
pub mod text;
pub mod text_laws;
pub mod time;
pub mod tool_args;
pub mod transcript;
pub mod workspace;
