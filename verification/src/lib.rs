//! Typed access to a stock exchange's public market-data surfaces.
//!
//! The exchange publishes three surfaces with no versioned schema: a daily
//! history report (JSON rows under a header row), a realtime quote snapshot
//! (JSON frames with one-letter keys), and a static issuer directory (an HTML
//! table in a legacy single-byte encoding). This crate holds the adaptive
//! field-mapping and decoding layer: it discovers which logical field each
//! raw column or key carries, converts raw cells into typed values, and
//! classifies failures into schema drift, upstream-reported errors, and
//! legitimate domain states such as a closed market.

use vstd::prelude::*;

pub mod cell;
pub mod date;
pub mod history;
pub mod json;
pub mod list;
pub mod realtime;
pub mod text;

verus! {

/// Failure taxonomy shared by all surfaces.
///
/// Domain states (a closed market) and upstream-declared errors are
/// first-class outcomes, kept apart from schema drift and transport trouble.
#[derive(Debug, Clone, PartialEq)]
pub enum Error {
    /// The HTTP transport failed; carries the transport's own message.
    Transport(String),
    /// The upstream answered with a non-success HTTP status, its only way to
    /// signal throttling.
    RateLimitExceeded,
    /// The response's shape or vocabulary no longer matches the mapper.
    IncompatibleApi,
    /// The caller asked for a calendar date that cannot exist.
    DateDoesNotExist,
    /// The upstream reported an error of its own; the message is verbatim.
    StatMessage(String),
    /// The market is closed: a sentinel cell, not a malfunction.
    MarketClosed,
}

/// The mathematical shape of an `Error`: messages as character sequences.
pub ghost enum ErrV {
    Transport(Seq<char>),
    RateLimitExceeded,
    IncompatibleApi,
    DateDoesNotExist,
    StatMessage(Seq<char>),
    MarketClosed,
}

impl View for Error {
    type V = ErrV;

    open spec fn view(&self) -> ErrV {
        match self {
            Error::Transport(m) => ErrV::Transport(m@),
            Error::RateLimitExceeded => ErrV::RateLimitExceeded,
            Error::IncompatibleApi => ErrV::IncompatibleApi,
            Error::DateDoesNotExist => ErrV::DateDoesNotExist,
            Error::StatMessage(m) => ErrV::StatMessage(m@),
            Error::MarketClosed => ErrV::MarketClosed,
        }
    }
}

/// Market segment of an instrument.
#[derive(Debug, Hash, Clone, Copy, PartialEq, Eq, Structural)]
pub enum StockKind {
    Live,
    OverTheCounter,
}

impl StockKind {
    /// Segment code the directory surface expects in its query.
    pub fn mode_code(&self) -> (r: u8)
        ensures
            r == self.spec_mode_code(),
    {
        match self {
            StockKind::Live => 2,
            StockKind::OverTheCounter => 4,
        }
    }

    pub open spec fn spec_mode_code(self) -> u8 {
        match self {
            StockKind::Live => 2,
            StockKind::OverTheCounter => 4,
        }
    }
}

impl Default for StockKind {
    fn default() -> (r: Self)
        ensures
            r == StockKind::Live,
    {
        StockKind::Live
    }
}

/// Instrument identifier: a market segment and a numeric code.
#[derive(Debug, Hash, Clone, Copy, PartialEq, Eq, Structural)]
pub struct Stock {
    pub kind: StockKind,
    pub code: u32,
}

impl Default for Stock {
    fn default() -> (r: Self)
        ensures
            r == (Stock { kind: StockKind::Live, code: 0 }),
    {
        Stock { kind: StockKind::Live, code: 0 }
    }
}

} // verus!
