//! Client-side orchestration for bulk object-storage operations.
//!
//! The storage service itself (an S3-compatible HTTP API) is an external
//! collaborator; callers drive it with the plain request values produced
//! here.  This crate holds the verified core that decides *what* to do and
//! *in which order*:
//!
//! - an adaptive per-request timeout estimator driven by observed throughput,
//! - a retry engine that uses that estimator and counts attempts,
//! - an upload scheduler that preserves caller-visible result ordering
//!   despite out-of-order completion,
//! - a cursor-based pagination engine and the bulk copy/move/delete plans
//!   built on it.

pub mod config;
pub mod timeout;
pub mod retry;
pub mod upload;
pub mod list;
