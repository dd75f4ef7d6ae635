//! The issuer-directory surface.
//!
//! The directory is one HTML table per market segment, served in a legacy
//! single-byte national encoding. Its vocabulary — industry categories and
//! segment names — is fixed text; rows that do not resolve to an instrument
//! are section headers or decoration and are dropped, not errors.

pub mod parser;

use vstd::prelude::*;

use crate::Stock;
use crate::StockKind;
use crate::date::Date;
use crate::text::str_eq;

verus! {

/// Industry category of an issuer; categories outside the fixed vocabulary
/// keep their original wording.
#[derive(Debug, Clone, PartialEq)]
pub enum Industry {
    Electronic,
    Cement,
    Food,
    Car,
    Motor,
    Steel,
    Semiconductor,
    Construction,
    Other(String),
}

/// The mathematical shape of an industry category.
pub ghost enum IndustryV {
    Electronic,
    Cement,
    Food,
    Car,
    Motor,
    Steel,
    Semiconductor,
    Construction,
    Other(Seq<char>),
}

impl View for Industry {
    type V = IndustryV;

    open spec fn view(&self) -> IndustryV {
        match self {
            Industry::Electronic => IndustryV::Electronic,
            Industry::Cement => IndustryV::Cement,
            Industry::Food => IndustryV::Food,
            Industry::Car => IndustryV::Car,
            Industry::Motor => IndustryV::Motor,
            Industry::Steel => IndustryV::Steel,
            Industry::Semiconductor => IndustryV::Semiconductor,
            Industry::Construction => IndustryV::Construction,
            Industry::Other(s) => IndustryV::Other(s@),
        }
    }
}

/// The directory's industry vocabulary: exact text to category.
pub open spec fn industry_of(s: Seq<char>) -> IndustryV {
    if s == "電子零組件業"@ || s == "電子通路"@ || s == "電器電纜"@ {
        IndustryV::Electronic
    } else if s == "水泥工業"@ {
        IndustryV::Cement
    } else if s == "食品工業"@ {
        IndustryV::Food
    } else if s == "汽車工業"@ {
        IndustryV::Car
    } else if s == "電機機械"@ {
        IndustryV::Motor
    } else if s == "鋼鐵工業"@ {
        IndustryV::Steel
    } else if s == "半導體業"@ {
        IndustryV::Semiconductor
    } else if s == "建材營造業"@ {
        IndustryV::Construction
    } else {
        IndustryV::Other(s)
    }
}

impl Industry {
    /// Reads a category from the directory's wording.
    pub fn from_name(s: &str) -> (r: Industry)
        ensures
            r@ == industry_of(s@),
    {
        if str_eq(s, "電子零組件業") || str_eq(s, "電子通路") || str_eq(s, "電器電纜") {
            Industry::Electronic
        } else if str_eq(s, "水泥工業") {
            Industry::Cement
        } else if str_eq(s, "食品工業") {
            Industry::Food
        } else if str_eq(s, "汽車工業") {
            Industry::Car
        } else if str_eq(s, "電機機械") {
            Industry::Motor
        } else if str_eq(s, "鋼鐵工業") {
            Industry::Steel
        } else if str_eq(s, "半導體業") {
            Industry::Semiconductor
        } else if str_eq(s, "建材營造業") {
            Industry::Construction
        } else {
            Industry::Other(s.to_owned())
        }
    }
}

impl Default for Industry {
    fn default() -> (r: Self)
        ensures
            r@ == IndustryV::Other(Seq::<char>::empty()),
    {
        Industry::Other(String::new())
    }
}

/// One issuer of the directory.
#[derive(Debug, Clone, PartialEq)]
pub struct StockInfo {
    /// Instrument identifier.
    pub id: Stock,
    /// Abbreviated name.
    pub abbr: String,
    /// First trading date.
    pub release_date: Date,
    /// Industry category.
    pub industry: Industry,
}

/// The mathematical shape of an issuer entry.
pub ghost struct InfoV {
    pub id: Stock,
    pub abbr: Seq<char>,
    pub release_date: Date,
    pub industry: IndustryV,
}

impl View for StockInfo {
    type V = InfoV;

    open spec fn view(&self) -> InfoV {
        InfoV {
            id: self.id,
            abbr: self.abbr@,
            release_date: self.release_date,
            industry: self.industry@,
        }
    }
}

/// The directory's market-segment vocabulary; anything else keeps the
/// default segment.
pub open spec fn kind_of(s: Seq<char>) -> StockKind {
    if s == "上市"@ {
        StockKind::Live
    } else if s == "上櫃"@ {
        StockKind::OverTheCounter
    } else {
        StockKind::Live
    }
}

pub fn kind_from_name(s: &str) -> (r: StockKind)
    ensures
        r == kind_of(s@),
{
    if str_eq(s, "上市") {
        StockKind::Live
    } else if str_eq(s, "上櫃") {
        StockKind::OverTheCounter
    } else {
        StockKind::Live
    }
}

} // verus!
