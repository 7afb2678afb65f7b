//! Client-side logic for querying the OSV vulnerability database: the
//! ecosystem registry, the advisory model, the query document encoder,
//! the response decoder, and the output renderers.

pub mod text;
pub mod ecosystem;
pub mod model;
pub mod encode;
pub mod decode;
pub mod laws;
