//! Cross-platform resolution of music share links: a strict share-link
//! parser, a normaliser for free-text metadata, fuzzy equivalence of songs,
//! albums and artists, an access-token cache and the assembly of conversion
//! results.
pub mod text;
pub mod share_link;
pub mod shared_item;
pub mod api;
pub mod config;
pub mod server;
