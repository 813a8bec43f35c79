//! Verified core of a trading desk: order-status rules, symbol resolution,
//! fuzzy symbol search, market-hours gates and plugin bookkeeping.

pub mod models;
pub mod text;
pub mod numbers;
pub mod cli;
pub mod search;
pub mod broker;
pub mod dhan;
pub mod plugin;
pub mod live;
pub mod commands;
pub mod strategies;
pub mod data;
pub mod indices;
pub mod feed;
