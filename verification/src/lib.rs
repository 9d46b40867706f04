//! Promo lifecycle and activation engine.
//!
//! A promo is a redeemable offer owned by a company, carrying either a single
//! shared code (COMMON mode) or a finite pool of distinct codes (UNIQUE mode).
//! This crate holds the rules that govern how a promo is created, targeted,
//! listed and activated: the validation layer, the targeting evaluator, the
//! promo store with its atomic read-modify-write operations, the activation
//! engine that consumes capacity exactly once per user, and the
//! listing/filtering engine. Everything here is verified; I/O, routing and
//! credential handling live outside the library and hand in plain values.

pub mod activation;
pub mod auth;
pub mod dates;
pub mod eligibility;
pub mod listing;
pub mod promo;
pub mod store;
pub mod target;
pub mod text;
pub mod user;
pub mod validate;
