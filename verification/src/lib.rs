//! Core of a repetitive-strain-injury break reminder: a one-hertz timer state
//! machine that accumulates active and idle seconds and decides when micro and
//! rest breaks are due, plus a per-day statistics ledger of break-taking
//! behaviour. Input polling, notification delivery and persistence are left to
//! the surrounding application; this crate holds the verified logic.

pub mod driver;
pub mod idle;
pub mod stats;
pub mod text;
pub mod timer;
