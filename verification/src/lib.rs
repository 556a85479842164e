//! A documentation-driven client generator for the Alpha Vantage API.
//!
//! The library reads the API's reference document as a traversable tree
//! ([`doc`]), scans it into an ordered model of capability groups,
//! operations and parameters ([`extract`]), and renders that model as
//! source text: one trait and one implementation per group, each
//! operation building its request URL from the documented parameters
//! ([`emit`]). The name-derivation rules live in [`ident`] and [`names`];
//! [`client`] holds the runtime pieces the emitted code leans on, and
//! [`url`] splits request URLs for raw transports.

pub mod client;
pub mod doc;
pub mod emit;
pub mod extract;
pub mod ident;
pub mod model;
pub mod names;
pub mod text;
pub mod url;
