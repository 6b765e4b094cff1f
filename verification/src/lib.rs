//! Analytics for an HTTP serving stack: connection identities, the records
//! kept of connections, requests and responses, and the rules that tie them
//! together.

pub mod correlation;
pub mod duration;
pub mod id;
pub mod interceptor;
pub mod journal;
pub mod store;
pub mod text;
pub mod version;
pub mod wire;
