//! Verified core of the Anahtar KeePass vault tools.
use vstd::prelude::*;

pub mod error;
pub mod ffi;
pub mod header;
pub mod ids;
pub mod inplace;
pub mod kdbx;
pub mod listing;
pub mod order;
pub mod paths;
pub mod query;
pub mod readback;
pub mod service;
pub mod detail;
pub mod edit;
pub mod generator;
pub mod gui;
pub mod audit;
pub mod census;
pub mod cli;
pub mod clipboard;
pub mod commit;
pub mod totp;
pub mod stdtext;
pub mod text;
pub mod vault;
pub mod write;
