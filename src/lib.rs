//! A URL-shortening alias store: validated aliases, a pluggable mapping store
//! with atomic create-if-absent, and the allocator that claims custom or
//! randomly generated aliases.

pub mod suffix;
pub mod external;
pub mod laws;
pub mod list;
pub mod mapping;
pub mod url;
pub mod database;
pub mod random;
pub mod redirect;
pub mod remote;
pub mod set;
pub mod text_api;
