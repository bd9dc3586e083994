//! Session and autosave coordination for a local-first writing tool:
//! the document registry, the debounced autosave scheduler, the timed
//! flow session, and the pure parts of the persistence layer.

pub mod autosave;
pub mod choices;
pub mod clock;
pub mod export;
pub mod flow;
pub mod flow_laws;
pub mod journal;
pub mod markdown;
pub mod models;
pub mod preview;
pub mod registry;
pub mod registry_laws;
pub mod registry_model;
pub mod settings;
pub mod storage;
pub mod text;
