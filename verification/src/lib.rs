//! A pipeline that turns tabular market data into XML documents, chunk by
//! chunk: conversion, structural validation, persistence, and the detection,
//! exactly once, of the moment at which all chunks of a job are done.
//!
//! The library holds the decisions. Queues, stores and callbacks are reached
//! by the caller, who does what the library asks for and reports back.

pub mod completion;
pub mod config;
pub mod connector;
pub mod converter;
pub mod document;
pub mod failure;
pub mod message;
pub mod notifier;
pub mod query;
pub mod round_trip;
pub mod stage;
pub mod status;
pub mod store;
pub mod table;
pub mod text;
pub mod tracker;
pub mod validator;
