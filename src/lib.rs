//! An ergonomic layer over the `url` crate: a URL value with a lazily built
//! view of its query as a map with unique keys.
pub mod engine;
pub mod error;
pub mod pairs;
pub mod query_unique;
pub mod url2;

pub use crate::error::{Url2Error, Url2ErrorKind, Url2Result};
pub use crate::query_unique::Url2QueryUnique;
pub use crate::url2::Url2;
