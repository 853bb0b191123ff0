//! Client library for the Kite Connect trading API: the binary market-data
//! feed decoder, the ticker's connection logic, and the request building and
//! response checking of the REST client.

pub mod connect;
pub mod error;
pub mod json;
pub mod models;
pub mod text;
pub mod ticker;
pub mod wire;

pub use connect::KiteClient;
pub use error::KiteError;
