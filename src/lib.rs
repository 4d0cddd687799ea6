//! Tool-execution core of a JSON-RPC server that answers balance, price and
//! swap-simulation queries against an Ethereum-style chain.

pub mod config;
pub mod numeric;
pub mod text;
pub mod tools;
pub mod balance;
pub mod price;
pub mod swap;
pub mod rpc;
