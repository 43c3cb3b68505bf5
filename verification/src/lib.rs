//! Governance of shared document collections: stakeholders propose changes,
//! vote on them under the rule of the collection, and carry out what was
//! approved, step by step and only after every check has passed.
//!
//! The records live in [`types`], the registry in [`storage`]. Votes are
//! taken in [`governance`], thresholds are decided in [`threshold`], and
//! approved proposals are carried out in [`execution`]; [`lifecycle`] says
//! which statuses a proposal can take. The rest draws documents from files
//! and addresses ([`extractor`]) and keeps the resource budget ([`cycles`]).

pub mod archive;
pub mod cycles;
pub mod dates;
pub mod decoding;
pub mod entropy;
pub mod execution;
pub mod external;
pub mod extractor;
pub mod governance;
pub mod identity;
pub mod keys;
pub mod lifecycle;
pub mod operations;
pub mod pdf;
pub mod playlist;
pub mod random;
pub mod scan;
pub mod service;
pub mod storage;
pub mod text;
pub mod threshold;
pub mod types;
pub mod votes;
pub mod wide;
pub mod xml;
