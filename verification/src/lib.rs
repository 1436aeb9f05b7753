//! Order-book synchronisation and a batching event pipeline for exchange
//! market data, with every rule stated as a contract and proved.

pub mod batch;
pub mod bitget;
pub mod chain;
pub mod combined_order_book;
pub mod decimal;
pub mod elapsed;
pub mod events;
pub mod feature;
pub mod imbalance;
pub mod levels;
pub mod market;
pub mod order_book;
pub mod reader;
pub mod side;
pub mod sql;
pub mod streams;
pub mod sync;
pub mod text;
