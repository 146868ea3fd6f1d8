//! Order placement and fulfillment core of an art marketplace: carts,
//! inventory, checkout and the per-line fulfillment state machine.

pub mod status;
pub mod checkout;
pub mod store;
pub mod laws;
pub mod account;
pub mod queries;
pub mod upload;
