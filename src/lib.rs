//! An offline catalog of Steam apps and a resolver from free-text titles to app
//! ids: texts are normalized to `[a-z0-9]` keys, an exact key match wins, else the
//! first name that contains the query's key.

pub mod catalog;
pub mod gpu;
pub mod json;
pub mod normalize;
pub mod refresh;
pub mod resolve;
pub mod system;
