//! What the service exposes besides conversions: the provider list, the
//! request authorization check and the names of link kinds.
pub mod authorization;
pub mod link_type;
pub mod public_utils;
pub mod routing;
