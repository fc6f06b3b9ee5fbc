//! Validating parsers for the components of a URI reference.
//!
//! Each component — scheme, authority (host with an optional port),
//! absolute path, and query string — has its own parser over ASCII
//! bytes. A parser either accepts the whole input and returns a
//! structured value, or rejects it with a typed error; malformed
//! input is never silently normalized. Percent-encoding is validated
//! but never decoded. HTTP method and version keywords are matched
//! by closed enumerations.

pub mod authority;
pub mod method;
pub mod path;
pub mod query;
pub mod scheme;
pub mod utils;
pub mod version;
