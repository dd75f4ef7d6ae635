//! The realtime quote surface.
//!
//! A snapshot arrives as a JSON object whose `msgArray` member holds one
//! frame per requested instrument, keyed by one-letter names. Frames convert
//! independently: in a batch a closed-market frame flags only itself, while a
//! single-instrument fetch surfaces it as the sole outcome. A body without
//! `msgArray` is read as the upstream's `stat` error payload or as schema
//! drift.

use vstd::prelude::*;

use crate::Error;
use crate::ErrV;
use crate::Stock;
use crate::StockKind;
use crate::cell::Price;
use crate::cell::decode_compact_date_spec;
use crate::cell::decode_price_spec;
use crate::cell::decode_u64_spec;
use crate::cell::decode_compact_date;
use crate::cell::decode_price;
use crate::cell::decode_unsigned;
use crate::date::Date;
use crate::json::Json;
use crate::json::JsonV;
use crate::json::doc_get;
use crate::json::get_stat;
use crate::json::json_get;
use crate::json::jview_list;
use crate::json::lemma_jview_list;
use crate::json::lemma_jview_kind;
use crate::json::json_tree_of;
use crate::json::parse_json_bytes;
use crate::json::stat_of;
use crate::text::chars_of;
use crate::text::dec_chars;
use crate::text::u64_digits;

verus! {

/// One instrument's realtime frame. `update_at` is the upstream's
/// milliseconds-since-epoch timestamp; the trading date is the exchange's
/// local calendar day.
#[derive(Debug, Clone, PartialEq)]
pub struct RealTimeData {
    pub price: Price,
    pub volume: u64,
    pub history_volume: u64,
    pub update_at: u64,
    pub recent_trading_date: Date,
    pub name: String,
    pub opening_price: Price,
    pub histroy_high_price: Price,
    pub histroy_low_price: Price,
    pub yesterday_closing_price: Price,
    pub limit_up_price: Price,
    pub limit_down_price: Price,
}

/// The mathematical shape of a frame: the name as a character sequence.
pub ghost struct QuoteV {
    pub price: Price,
    pub volume: u64,
    pub history_volume: u64,
    pub update_at: u64,
    pub recent_trading_date: Date,
    pub name: Seq<char>,
    pub opening_price: Price,
    pub histroy_high_price: Price,
    pub histroy_low_price: Price,
    pub yesterday_closing_price: Price,
    pub limit_up_price: Price,
    pub limit_down_price: Price,
}

impl View for RealTimeData {
    type V = QuoteV;

    open spec fn view(&self) -> QuoteV {
        QuoteV {
            price: self.price,
            volume: self.volume,
            history_volume: self.history_volume,
            update_at: self.update_at,
            recent_trading_date: self.recent_trading_date,
            name: self.name@,
            opening_price: self.opening_price,
            histroy_high_price: self.histroy_high_price,
            histroy_low_price: self.histroy_low_price,
            yesterday_closing_price: self.yesterday_closing_price,
            limit_up_price: self.limit_up_price,
            limit_down_price: self.limit_down_price,
        }
    }
}

/// A required unsigned field of a frame.
pub open spec fn req_u64(frame: JsonV, key: Seq<char>) -> Result<u64, Error> {
    match doc_get(frame, key) {
        Some(c) => decode_u64_spec(c),
        None => Err(Error::IncompatibleApi),
    }
}

/// A required price field of a frame.
pub open spec fn req_price(frame: JsonV, key: Seq<char>) -> Result<Price, Error> {
    match doc_get(frame, key) {
        Some(c) => decode_price_spec(c),
        None => Err(Error::IncompatibleApi),
    }
}

/// The frame's compact trading date.
pub open spec fn req_date(frame: JsonV, key: Seq<char>) -> Result<Date, Error> {
    match doc_get(frame, key) {
        Some(c) => decode_compact_date_spec(c),
        None => Err(Error::IncompatibleApi),
    }
}

/// The cumulative volume, which older frames omit; it then defaults to one.
pub open spec fn vol_or_default(frame: JsonV) -> Result<u64, Error> {
    match doc_get(frame, "v"@) {
        Some(c) => decode_u64_spec(c),
        None => decode_u64_spec(JsonV::Text("1"@)),
    }
}

/// The instrument's name, a plain string field.
pub open spec fn req_name(frame: JsonV) -> Result<Seq<char>, Error> {
    match doc_get(frame, "n"@) {
        Some(c) => match c {
            JsonV::Text(t) => Ok(t),
            _ => Err(Error::IncompatibleApi),
        },
        None => Err(Error::IncompatibleApi),
    }
}

/// One frame decoded field by field. A sentinel in any cell yields the
/// closed-market outcome; a missing or ill-typed cell is schema drift.
pub open spec fn frame_decode_spec(frame: JsonV) -> Result<QuoteV, Error> {
    match req_u64(frame, "tlong"@) {
        Err(e) => Err(e),
        Ok(update_at) => match req_date(frame, "d"@) {
            Err(e) => Err(e),
            Ok(recent_trading_date) => match req_price(frame, "z"@) {
                Err(e) => Err(e),
                Ok(price) => match req_u64(frame, "tv"@) {
                    Err(e) => Err(e),
                    Ok(volume) => match vol_or_default(frame) {
                        Err(e) => Err(e),
                        Ok(history_volume) => match req_price(frame, "o"@) {
                            Err(e) => Err(e),
                            Ok(opening_price) => match req_price(frame, "h"@) {
                                Err(e) => Err(e),
                                Ok(histroy_high_price) => match req_price(frame, "l"@) {
                                    Err(e) => Err(e),
                                    Ok(histroy_low_price) => match req_price(frame, "y"@) {
                                        Err(e) => Err(e),
                                        Ok(yesterday_closing_price) => match req_price(
                                            frame,
                                            "u"@,
                                        ) {
                                            Err(e) => Err(e),
                                            Ok(limit_up_price) => match req_price(frame, "w"@) {
                                                Err(e) => Err(e),
                                                Ok(limit_down_price) => match req_name(frame) {
                                                    Err(e) => Err(e),
                                                    Ok(name) => Ok(
                                                        QuoteV {
                                                            price,
                                                            volume,
                                                            history_volume,
                                                            update_at,
                                                            recent_trading_date,
                                                            name,
                                                            opening_price,
                                                            histroy_high_price,
                                                            histroy_low_price,
                                                            yesterday_closing_price,
                                                            limit_up_price,
                                                            limit_down_price,
                                                        },
                                                    ),
                                                },
                                            },
                                        },
                                    },
                                },
                            },
                        },
                    },
                },
            },
        },
    }
}

fn req_u64_exec(frame: &Json, key: &str) -> (r: Result<u64, Error>)
    ensures
        r == req_u64(frame@, key@),
{
    match json_get(frame, key) {
        Some(c) => decode_unsigned(c),
        None => Err(Error::IncompatibleApi),
    }
}

fn req_price_exec(frame: &Json, key: &str) -> (r: Result<Price, Error>)
    ensures
        r == req_price(frame@, key@),
{
    match json_get(frame, key) {
        Some(c) => decode_price(c),
        None => Err(Error::IncompatibleApi),
    }
}

fn req_date_exec(frame: &Json, key: &str) -> (r: Result<Date, Error>)
    ensures
        r == req_date(frame@, key@),
{
    match json_get(frame, key) {
        Some(c) => decode_compact_date(c),
        None => Err(Error::IncompatibleApi),
    }
}

fn vol_or_default_exec(frame: &Json) -> (r: Result<u64, Error>)
    ensures
        r == vol_or_default(frame@),
{
    match json_get(frame, "v") {
        Some(c) => decode_unsigned(c),
        None => {
            let one = Json::Text(String::from_str("1"));
            decode_unsigned(&one)
        },
    }
}

fn req_name_exec(frame: &Json) -> (r: Result<String, Error>)
    ensures
        match r {
            Ok(s) => req_name(frame@) == Ok::<Seq<char>, Error>(s@),
            Err(e) => req_name(frame@) == Err::<Seq<char>, Error>(e),
        },
{
    match json_get(frame, "n") {
        Some(c) => match c {
            Json::Text(t) => Ok(t.clone()),
            _ => {
                proof {
                    lemma_jview_kind(*c);
                }
                Err(Error::IncompatibleApi)
            },
        },
        None => Err(Error::IncompatibleApi),
    }
}

/// Converts one frame into a quote.
pub fn decode_frame(frame: &Json) -> (r: Result<RealTimeData, Error>)
    ensures
        match r {
            Ok(q) => frame_decode_spec(frame@) == Ok::<QuoteV, Error>(q@),
            Err(e) => frame_decode_spec(frame@) == Err::<QuoteV, Error>(e),
        },
{
    let update_at = match req_u64_exec(frame, "tlong") {
        Ok(v) => v,
        Err(e) => {
            return Err(e);
        },
    };
    let recent_trading_date = match req_date_exec(frame, "d") {
        Ok(v) => v,
        Err(e) => {
            return Err(e);
        },
    };
    let price = match req_price_exec(frame, "z") {
        Ok(v) => v,
        Err(e) => {
            return Err(e);
        },
    };
    let volume = match req_u64_exec(frame, "tv") {
        Ok(v) => v,
        Err(e) => {
            return Err(e);
        },
    };
    let history_volume = match vol_or_default_exec(frame) {
        Ok(v) => v,
        Err(e) => {
            return Err(e);
        },
    };
    let opening_price = match req_price_exec(frame, "o") {
        Ok(v) => v,
        Err(e) => {
            return Err(e);
        },
    };
    let histroy_high_price = match req_price_exec(frame, "h") {
        Ok(v) => v,
        Err(e) => {
            return Err(e);
        },
    };
    let histroy_low_price = match req_price_exec(frame, "l") {
        Ok(v) => v,
        Err(e) => {
            return Err(e);
        },
    };
    let yesterday_closing_price = match req_price_exec(frame, "y") {
        Ok(v) => v,
        Err(e) => {
            return Err(e);
        },
    };
    let limit_up_price = match req_price_exec(frame, "u") {
        Ok(v) => v,
        Err(e) => {
            return Err(e);
        },
    };
    let limit_down_price = match req_price_exec(frame, "w") {
        Ok(v) => v,
        Err(e) => {
            return Err(e);
        },
    };
    let name = match req_name_exec(frame) {
        Ok(v) => v,
        Err(e) => {
            return Err(e);
        },
    };
    Ok(
        RealTimeData {
            price,
            volume,
            history_volume,
            update_at,
            recent_trading_date,
            name,
            opening_price,
            histroy_high_price,
            histroy_low_price,
            yesterday_closing_price,
            limit_up_price,
            limit_down_price,
        },
    )
}

/// The frames of a snapshot document.
pub open spec fn frames_of(doc: JsonV) -> Option<Seq<JsonV>> {
    match doc_get(doc, "msgArray"@) {
        Some(d) => match d {
            JsonV::Arr(frames) => Some(frames),
            _ => None,
        },
        _ => None,
    }
}

/// A frame's outcome, with the error viewed mathematically.
pub open spec fn frame_outcome(frame: JsonV) -> Result<QuoteV, ErrV> {
    match frame_decode_spec(frame) {
        Ok(q) => Ok(q),
        Err(e) => Err(e@),
    }
}

/// What a snapshot body means in batch mode: one outcome per frame, each
/// frame independent; a body without frames is the upstream's error payload
/// or schema drift.
pub open spec fn realtime_batch_spec(parsed: Option<JsonV>) -> Result<
    Seq<Result<QuoteV, ErrV>>,
    ErrV,
> {
    match parsed {
        None => Err(ErrV::IncompatibleApi),
        Some(doc) => match frames_of(doc) {
            Some(frames) => Ok(Seq::new(frames.len(), |i: int| frame_outcome(frames[i]))),
            None => match stat_of(doc) {
                Some(m) => Err(ErrV::StatMessage(m)),
                None => Err(ErrV::IncompatibleApi),
            },
        },
    }
}

/// What the same body means for a single-instrument fetch: the first frame's
/// outcome alone, and an empty answer is schema drift.
pub open spec fn realtime_single_spec(parsed: Option<JsonV>) -> Result<QuoteV, ErrV> {
    match realtime_batch_spec(parsed) {
        Err(e) => Err(e),
        Ok(outcomes) => if outcomes.len() == 0 {
            Err(ErrV::IncompatibleApi)
        } else {
            outcomes[0]
        },
    }
}

pub open spec fn outcome_view(o: Result<RealTimeData, Error>) -> Result<QuoteV, ErrV> {
    match o {
        Ok(q) => Ok(q@),
        Err(e) => Err(e@),
    }
}

pub open spec fn batch_view(r: Result<Vec<Result<RealTimeData, Error>>, Error>) -> Result<
    Seq<Result<QuoteV, ErrV>>,
    ErrV,
> {
    match r {
        Ok(v) => Ok(Seq::new(v@.len(), |i: int| outcome_view(v@[i]))),
        Err(e) => Err(e@),
    }
}

/// Decodes a snapshot body in batch mode, one outcome per frame.
#[verifier::loop_isolation(false)]
pub fn parse_realtime_batch(body: &[u8]) -> (r: Result<Vec<Result<RealTimeData, Error>>, Error>)
    ensures
        batch_view(r) == realtime_batch_spec(json_tree_of(body@)),
{
    let doc = match parse_json_bytes(body) {
        Some(d) => d,
        None => {
            return Err(Error::IncompatibleApi);
        },
    };
    match json_get(&doc, "msgArray") {
        Some(j) => match j {
            Json::Arr(frames) => {
                proof {
                    lemma_jview_list(frames@);
                }
                let ghost jframes = jview_list(frames@);
                let mut out: Vec<Result<RealTimeData, Error>> = Vec::new();
                let mut i: usize = 0;
                while i < frames.len()
                    invariant
                        i <= frames@.len(),
                        jframes.len() == frames@.len(),
                        forall|k: int|
                            0 <= k < frames@.len() ==> jframes[k] == crate::json::jview(
                                frames@[k],
                            ),
                        out@.len() == i,
                        forall|k: int|
                            0 <= k < i ==> outcome_view(out@[k]) == frame_outcome(jframes[k]),
                    decreases frames@.len() - i,
                {
                    let one = decode_frame(&frames[i]);
                    out.push(one);
                    proof {
                        assert(outcome_view(out@[i as int]) == frame_outcome(jframes[i as int]));
                    }
                    i = i + 1;
                }
                proof {
                    assert(Seq::new(out@.len(), |k: int| outcome_view(out@[k])) =~= Seq::new(
                        jframes.len(),
                        |k: int| frame_outcome(jframes[k]),
                    ));
                }
                Ok(out)
            },
            _ => {
                proof {
                    lemma_jview_kind(*j);
                }
                match get_stat(&doc) {
                    Some(msg) => Err(Error::StatMessage(msg.clone())),
                    None => Err(Error::IncompatibleApi),
                }
            },
        },
        None => {
            match get_stat(&doc) {
                Some(msg) => Err(Error::StatMessage(msg.clone())),
                None => Err(Error::IncompatibleApi),
            }
        },
    }
}

pub open spec fn single_view(r: Result<RealTimeData, Error>) -> Result<QuoteV, ErrV> {
    match r {
        Ok(q) => Ok(q@),
        Err(e) => Err(e@),
    }
}

/// Decodes a snapshot body for a single-instrument fetch: the first frame
/// alone decides, so a closed market is the sole outcome.
pub fn parse_realtime_single(body: &[u8]) -> (r: Result<RealTimeData, Error>)
    ensures
        single_view(r) == realtime_single_spec(json_tree_of(body@)),
{
    let mut outcomes = match parse_realtime_batch(body) {
        Ok(v) => v,
        Err(e) => {
            return Err(e);
        },
    };
    if outcomes.len() == 0 {
        return Err(Error::IncompatibleApi);
    }
    outcomes.remove(0)
}

/// A batch answers one outcome for each frame of the response, each frame
/// decoded on its own.
pub proof fn lemma_batch_one_outcome_per_frame(doc: JsonV, frames: Seq<JsonV>)
    requires
        frames_of(doc) == Some(frames),
    ensures
        realtime_batch_spec(Some(doc)) matches Ok(outcomes) && outcomes.len() == frames.len()
            && forall|i: int| 0 <= i < frames.len() ==> outcomes[i] == frame_outcome(frames[i]),
{
}

/// A single-instrument fetch returns exactly the batch's first outcome; an
/// empty batch is schema drift.
pub proof fn lemma_single_is_first_of_batch(parsed: Option<JsonV>)
    ensures
        realtime_single_spec(parsed) == (match realtime_batch_spec(parsed) {
            Ok(outcomes) => if outcomes.len() == 0 {
                Err(ErrV::IncompatibleApi)
            } else {
                outcomes[0]
            },
            Err(e) => Err::<QuoteV, ErrV>(e),
        }),
{
}

/// The query value naming one instrument: its segment prefix, code, and the
/// exchange suffix.
pub open spec fn stock_param(s: Stock) -> Seq<char> {
    (match s.kind {
        StockKind::Live => "tse_"@,
        StockKind::OverTheCounter => "otc_"@,
    }) + u64_digits(s.code as nat) + ".tw"@
}

/// The batched query value: instrument names joined by a pipe.
pub open spec fn query_value(stocks: Seq<Stock>) -> Seq<char>
    decreases stocks.len(),
{
    if stocks.len() == 0 {
        Seq::empty()
    } else if stocks.len() == 1 {
        stock_param(stocks[0])
    } else {
        query_value(stocks.drop_last()) + seq!['|'] + stock_param(stocks.last())
    }
}

fn stock_param_chars(s: Stock) -> (r: Vec<char>)
    ensures
        r@ == stock_param(s),
{
    let mut v = match s.kind {
        StockKind::Live => chars_of("tse_"),
        StockKind::OverTheCounter => chars_of("otc_"),
    };
    let mut digits = dec_chars(s.code as u64);
    v.append(&mut digits);
    let mut suffix = chars_of(".tw");
    v.append(&mut suffix);
    proof {
        assert(v@ =~= stock_param(s));
    }
    v
}

/// Builds the batched query value for these instruments.
pub fn realtime_query_value(stocks: &Vec<Stock>) -> (r: String)
    ensures
        r@ == query_value(stocks@),
{
    let mut v: Vec<char> = Vec::new();
    let mut i: usize = 0;
    proof {
        assert(stocks@.subrange(0, 0) =~= Seq::<Stock>::empty());
    }
    while i < stocks.len()
        invariant
            i <= stocks@.len(),
            v@ == query_value(stocks@.subrange(0, i as int)),
        decreases stocks@.len() - i,
    {
        if i > 0 {
            v.push('|');
        }
        let mut p = stock_param_chars(stocks[i]);
        v.append(&mut p);
        proof {
            let pre = stocks@.subrange(0, i + 1);
            assert(pre.drop_last() =~= stocks@.subrange(0, i as int));
            assert(pre.last() == stocks@[i as int]);
            if i == 0 {
                assert(v@ =~= stock_param(stocks@[0]));
                assert(pre.len() == 1);
            } else {
                assert(v@ =~= query_value(stocks@.subrange(0, i as int)) + seq!['|'] + stock_param(
                    stocks@[i as int],
                ));
            }
        }
        i = i + 1;
    }
    proof {
        assert(stocks@.subrange(0, stocks@.len() as int) =~= stocks@);
    }
    crate::text::string_of(&v)
}

} // verus!
