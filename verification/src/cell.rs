//! The cell decoder.
//!
//! One raw cell — a JSON scalar or a table text — becomes one typed value.
//! A cell may carry a number natively or as a string with thousands
//! separators; both read the same. A string equal to the closed-market
//! sentinel (a single dash) is a domain state, not malformed data, and
//! decodes to `Error::MarketClosed` whatever value was expected.

use vstd::prelude::*;

use crate::Error;
use crate::date::Date;
use crate::date::parse_compact_date;
use crate::date::parse_compact_date_exec;
use crate::date::parse_slash_date;
use crate::date::parse_slash_date_exec;
use crate::json::Json;
use crate::json::JsonV;
use crate::text::chars_of;
use crate::text::dec_chars;
use crate::text::lemma_strip_commas_idempotent;
use crate::text::parse_price_str;
use crate::text::parse_price_chars;
use crate::text::parse_u64_str;
use crate::text::parse_u64_chars;
use crate::text::strip_commas;
use crate::text::strip_commas_exec;
use crate::text::u64_digits;

verus! {

/// A currency amount as a fixed-point count of ten-thousandths, so that
/// prices carry no rounding: `scaled == 12_5000` reads as 12.5.
#[derive(Debug, Hash, Clone, Copy, PartialEq, Eq, Structural)]
pub struct Price {
    pub scaled: i64,
}

/// The closed-market sentinel: a single dash.
pub open spec fn is_sentinel(s: Seq<char>) -> bool {
    s == seq!['-']
}

pub fn is_sentinel_exec(v: &Vec<char>) -> (r: bool)
    ensures
        r == is_sentinel(v@),
{
    if v.len() == 1 && v[0] == '-' {
        proof {
            assert(v@ =~= seq!['-']);
        }
        true
    } else {
        proof {
            if v@ == seq!['-'] {
                assert(v@.len() == 1 && v@[0] == '-');
            }
        }
        false
    }
}

pub open spec fn num_u64(t: Seq<char>) -> Result<u64, Error> {
    match parse_u64_str(strip_commas(t)) {
        Some(v) => Ok(v),
        None => Err(Error::IncompatibleApi),
    }
}

pub open spec fn num_price(t: Seq<char>) -> Result<Price, Error> {
    match parse_price_str(strip_commas(t)) {
        Some(v) => Ok(Price { scaled: v }),
        None => Err(Error::IncompatibleApi),
    }
}

/// An unsigned count (a volume, a transaction tally).
pub open spec fn decode_u64_spec(c: JsonV) -> Result<u64, Error> {
    match c {
        JsonV::Num(t) => num_u64(t),
        JsonV::Text(t) => if is_sentinel(t) {
            Err(Error::MarketClosed)
        } else {
            num_u64(t)
        },
        _ => Err(Error::IncompatibleApi),
    }
}

/// A fixed-point price.
pub open spec fn decode_price_spec(c: JsonV) -> Result<Price, Error> {
    match c {
        JsonV::Num(t) => num_price(t),
        JsonV::Text(t) => if is_sentinel(t) {
            Err(Error::MarketClosed)
        } else {
            num_price(t)
        },
        _ => Err(Error::IncompatibleApi),
    }
}

/// A local-era slash-delimited date; only a string cell carries it.
pub open spec fn decode_roc_date_spec(c: JsonV) -> Result<Date, Error> {
    match c {
        JsonV::Text(t) => if is_sentinel(t) {
            Err(Error::MarketClosed)
        } else {
            match parse_slash_date(t, 1911) {
                Some(d) => Ok(d),
                None => Err(Error::IncompatibleApi),
            }
        },
        _ => Err(Error::IncompatibleApi),
    }
}

/// A compact eight-digit date, carried as a number or as digits in a string.
pub open spec fn decode_compact_date_spec(c: JsonV) -> Result<Date, Error> {
    match decode_u64_spec(c) {
        Ok(v) => match parse_compact_date(u64_digits(v as nat)) {
            Some(d) => Ok(d),
            None => Err(Error::IncompatibleApi),
        },
        Err(e) => Err(e),
    }
}

pub fn decode_unsigned(c: &Json) -> (r: Result<u64, Error>)
    ensures
        r == decode_u64_spec(c@),
{
    match c {
        Json::Num(t) => num_u64_exec(t),
        Json::Text(t) => {
            let v = chars_of(t.as_str());
            if is_sentinel_exec(&v) {
                Err(Error::MarketClosed)
            } else {
                num_u64_exec(t)
            }
        },
        _ => Err(Error::IncompatibleApi),
    }
}

fn num_u64_exec(t: &String) -> (r: Result<u64, Error>)
    ensures
        r == num_u64(t@),
{
    let v = chars_of(t.as_str());
    let sv = strip_commas_exec(&v);
    match parse_u64_chars(&sv) {
        Some(x) => Ok(x),
        None => Err(Error::IncompatibleApi),
    }
}

pub fn decode_price(c: &Json) -> (r: Result<Price, Error>)
    ensures
        r == decode_price_spec(c@),
{
    match c {
        Json::Num(t) => num_price_exec(t),
        Json::Text(t) => {
            let v = chars_of(t.as_str());
            if is_sentinel_exec(&v) {
                Err(Error::MarketClosed)
            } else {
                num_price_exec(t)
            }
        },
        _ => Err(Error::IncompatibleApi),
    }
}

fn num_price_exec(t: &String) -> (r: Result<Price, Error>)
    ensures
        r == num_price(t@),
{
    let v = chars_of(t.as_str());
    let sv = strip_commas_exec(&v);
    match parse_price_chars(&sv) {
        Some(x) => Ok(Price { scaled: x }),
        None => Err(Error::IncompatibleApi),
    }
}

pub fn decode_roc_date(c: &Json) -> (r: Result<Date, Error>)
    ensures
        r == decode_roc_date_spec(c@),
{
    match c {
        Json::Text(t) => {
            let v = chars_of(t.as_str());
            if is_sentinel_exec(&v) {
                Err(Error::MarketClosed)
            } else {
                match parse_slash_date_exec(&v, 1911) {
                    Some(d) => Ok(d),
                    None => Err(Error::IncompatibleApi),
                }
            }
        },
        _ => Err(Error::IncompatibleApi),
    }
}

pub fn decode_compact_date(c: &Json) -> (r: Result<Date, Error>)
    ensures
        r == decode_compact_date_spec(c@),
{
    match decode_unsigned(c) {
        Ok(v) => {
            let digits = dec_chars(v);
            match parse_compact_date_exec(&digits) {
                Some(d) => Ok(d),
                None => Err(Error::IncompatibleApi),
            }
        },
        Err(e) => Err(e),
    }
}

/// The closed-market sentinel decodes to the domain-closed outcome whatever
/// kind of value the field expected — never to a number, price or date.
pub proof fn lemma_sentinel_is_closed(t: Seq<char>)
    requires
        is_sentinel(t),
    ensures
        decode_u64_spec(JsonV::Text(t)) == Err::<u64, Error>(Error::MarketClosed),
        decode_price_spec(JsonV::Text(t)) == Err::<Price, Error>(Error::MarketClosed),
        decode_roc_date_spec(JsonV::Text(t)) == Err::<Date, Error>(Error::MarketClosed),
        decode_compact_date_spec(JsonV::Text(t)) == Err::<Date, Error>(Error::MarketClosed),
{
}

/// A cell carried as a native number and the same text carried as a string
/// decode to the same typed value.
pub proof fn lemma_number_text_agree(t: Seq<char>)
    requires
        !is_sentinel(t),
    ensures
        decode_u64_spec(JsonV::Num(t)) == decode_u64_spec(JsonV::Text(t)),
        decode_price_spec(JsonV::Num(t)) == decode_price_spec(JsonV::Text(t)),
{
}

/// Thousands separators do not change what a numeric cell decodes to.
pub proof fn lemma_separators_immaterial(t: Seq<char>)
    requires
        !is_sentinel(t),
        !is_sentinel(strip_commas(t)),
    ensures
        decode_u64_spec(JsonV::Text(t)) == decode_u64_spec(JsonV::Text(strip_commas(t))),
        decode_price_spec(JsonV::Text(t)) == decode_price_spec(JsonV::Text(strip_commas(t))),
{
    lemma_strip_commas_idempotent(t);
}

} // verus!
