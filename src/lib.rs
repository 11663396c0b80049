//! Repository indexing and document generation.
//!
//! A walk of a repository's tree, handed over as plain entries, becomes an
//! [`index::Index`]: the files of the supported languages, the modules among
//! them, the dependency tokens their text names and the entry points of the
//! program. The index answers lexical searches, and its sections (pages of a
//! site, slides of a deck) are rendered as independent tasks whose outcomes
//! [`pipeline`] collects in the order the caller asked for.

pub mod text;
pub mod deps;
pub mod lang;
pub mod glob;
pub mod config;
pub mod entry;
pub mod index;
pub mod analyzer;
pub mod search;
pub mod pipeline;
pub mod site;
pub mod functions;
pub mod diagram;
pub mod wiki;
pub mod summary;
pub mod methods;
pub mod summarize;
pub mod slides;
pub mod publish;
pub mod registry;
pub mod serial;
