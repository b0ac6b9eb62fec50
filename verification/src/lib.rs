//! A constant-product exchange: pools of two tokens, the arithmetic that
//! prices trades against them, and the router through which callers add and
//! remove liquidity and swap.

pub mod address;
pub mod amount;
pub mod bank;
pub mod error;
pub mod exchange;
pub mod factory;
pub mod library;
pub mod liquidity;
pub mod pair;
pub mod router;
pub mod table;
pub mod trade;
