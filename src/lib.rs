//! A storefront backend library: products, customers and orders, with the
//! order workflow that keeps an order and its lines consistent, computes
//! exact totals from live prices and renders the confirmation message.
pub mod assembler;
pub mod customer;
pub mod error;
pub mod laws;
pub mod pattern;
pub mod product;
pub mod store;
pub mod text;
pub mod types;
pub mod workflow;
