//! A compositor without hardware and clients without sockets, for tests.
pub mod client;
pub mod fixture;

pub use crate::testing::client::{
    ClientId, ClientManager, ConfigureEvent, TestClient, TestSurface,
};
pub use crate::testing::fixture::Fixture;
