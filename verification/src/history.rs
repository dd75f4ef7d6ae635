//! The daily-history surface.
//!
//! A month's report arrives as a JSON object: a `fields` member with nine
//! header strings and a `data` member with one nine-cell row per trading day.
//! The column order is not promised, so a mapper is built from the header row
//! and applied to every data row. A body of any other shape is read as the
//! upstream's error payload (its `stat` message) or, failing that, as schema
//! drift. A malformed row fails the whole response: a partially decoded row
//! signals drift, not one bad data point.

use vstd::prelude::*;

use crate::Error;
use crate::ErrV;
use crate::cell::Price;
use crate::cell::decode_price_spec;
use crate::cell::decode_roc_date_spec;
use crate::cell::decode_u64_spec;
use crate::cell::decode_price;
use crate::cell::decode_roc_date;
use crate::cell::decode_unsigned;
use crate::date::Date;
use crate::json::Json;
use crate::json::JsonV;
use crate::json::doc_get;
use crate::json::get_stat;
use crate::json::json_get;
use crate::json::jview_list;
use crate::json::lemma_jview_list;
use crate::json::json_tree_of;
use crate::json::parse_json_bytes;
use crate::json::stat_of;
use crate::text::dec_chars_padded;
use crate::text::string_of;
use crate::text::str_eq;
use crate::text::u64_digits;
use crate::text::zero_pad;

verus! {

/// Trading summary of a single day. The date is the exchange's local
/// calendar day; prices are fixed-point.
#[derive(Debug, Hash, Clone, Copy, PartialEq, Eq, Structural)]
pub struct DailyData {
    pub date: Date,
    pub volume: u64,
    pub transaction_price: Price,
    pub open_price: Price,
    pub high_price: Price,
    pub low_price: Price,
    pub close_price: Price,
    pub diff: Price,
    pub transaction: u64,
}

/// The nine logical fields of a history row.
#[derive(Debug, Clone, Copy, PartialEq, Eq, Structural)]
pub enum Column {
    Date,
    Volume,
    TransactionPrice,
    OpenPrice,
    HighPrice,
    LowPrice,
    ClosePrice,
    Diff,
    Transaction,
}

/// The surface's header vocabulary: exact text, fixed by the upstream locale.
pub open spec fn header_field(t: Seq<char>) -> Option<Column> {
    if t == "日期"@ {
        Some(Column::Date)
    } else if t == "成交股數"@ {
        Some(Column::Volume)
    } else if t == "成交金額"@ {
        Some(Column::TransactionPrice)
    } else if t == "開盤價"@ {
        Some(Column::OpenPrice)
    } else if t == "最高價"@ {
        Some(Column::HighPrice)
    } else if t == "最低價"@ {
        Some(Column::LowPrice)
    } else if t == "收盤價"@ {
        Some(Column::ClosePrice)
    } else if t == "漲跌價差"@ {
        Some(Column::Diff)
    } else if t == "成交筆數"@ {
        Some(Column::Transaction)
    } else {
        None
    }
}

pub fn header_field_exec(s: &str) -> (r: Option<Column>)
    ensures
        r == header_field(s@),
{
    if str_eq(s, "日期") {
        Some(Column::Date)
    } else if str_eq(s, "成交股數") {
        Some(Column::Volume)
    } else if str_eq(s, "成交金額") {
        Some(Column::TransactionPrice)
    } else if str_eq(s, "開盤價") {
        Some(Column::OpenPrice)
    } else if str_eq(s, "最高價") {
        Some(Column::HighPrice)
    } else if str_eq(s, "最低價") {
        Some(Column::LowPrice)
    } else if str_eq(s, "收盤價") {
        Some(Column::ClosePrice)
    } else if str_eq(s, "漲跌價差") {
        Some(Column::Diff)
    } else if str_eq(s, "成交筆數") {
        Some(Column::Transaction)
    } else {
        None
    }
}

/// Index of the first position mapped to `c`, if any.
pub open spec fn first_col_idx(m: Seq<Column>, c: Column) -> Option<int>
    decreases m.len(),
{
    if m.len() == 0 {
        None
    } else if m[0] == c {
        Some(0)
    } else {
        match first_col_idx(m.skip(1), c) {
            Some(i) => Some(i + 1),
            None => None,
        }
    }
}

pub proof fn lemma_first_col_idx_at(m: Seq<Column>, c: Column, j: int)
    requires
        0 <= j < m.len(),
        m[j] == c,
        forall|k: int| 0 <= k < j ==> m[k] != c,
    ensures
        first_col_idx(m, c) == Some(j),
    decreases j,
{
    if j > 0 {
        let t = m.skip(1);
        assert(forall|k: int| 0 <= k < j - 1 ==> t[k] == m[k + 1] && t[k] != c);
        assert(t[j - 1] == c);
        lemma_first_col_idx_at(t, c, j - 1);
    }
}

pub proof fn lemma_first_col_idx_none(m: Seq<Column>, c: Column)
    requires
        forall|k: int| 0 <= k < m.len() ==> m[k] != c,
    ensures
        first_col_idx(m, c) is None,
    decreases m.len(),
{
    if m.len() > 0 {
        let t = m.skip(1);
        assert(forall|k: int| 0 <= k < t.len() ==> t[k] == m[k + 1] && t[k] != c);
        lemma_first_col_idx_none(t, c);
    }
}

pub proof fn lemma_first_col_idx_found(m: Seq<Column>, c: Column)
    ensures
        match first_col_idx(m, c) {
            Some(i) => 0 <= i < m.len() && m[i] == c,
            None => forall|k: int| 0 <= k < m.len() ==> m[k] != c,
        },
    decreases m.len(),
{
    if m.len() > 0 && m[0] != c {
        let t = m.skip(1);
        lemma_first_col_idx_found(t, c);
        if first_col_idx(t, c) is None {
            assert(forall|k: int| 1 <= k < m.len() ==> m[k] == t[k - 1] && m[k] != c);
        }
    }
}

/// Every field has a position.
pub open spec fn complete_cols(m: Seq<Column>) -> bool {
    forall|c: Column| first_col_idx(m, c) is Some
}

/// The position-to-field table built from a header row.
pub struct FieldMapper {
    pub cols: Vec<Column>,
}

impl FieldMapper {
    /// Nine positions, each field at exactly one of them.
    pub open spec fn wf(self) -> bool {
        &&& self.cols@.len() == 9
        &&& forall|i: int, j: int| 0 <= i < j < 9 ==> self.cols@[i] != self.cols@[j]
        &&& complete_cols(self.cols@)
    }
}

/// The mapping a well-formed header row yields: each header recognized, and
/// the nine fields covered without repetition.
pub open spec fn build_spec(h: Seq<Seq<char>>) -> Option<Seq<Column>> {
    let m = Seq::new(h.len(), |i: int| header_field(h[i]).unwrap());
    if h.len() == 9 && (forall|i: int| 0 <= i < 9 ==> header_field(h[i]) is Some) && (forall|
        i: int,
        j: int,
    | 0 <= i < j < 9 ==> m[i] != m[j]) && complete_cols(m) {
        Some(m)
    } else {
        None
    }
}

fn find_col(cols: &Vec<Column>, c: Column) -> (r: Option<usize>)
    ensures
        match r {
            Some(i) => first_col_idx(cols@, c) == Some(i as int) && i < cols@.len(),
            None => first_col_idx(cols@, c) is None,
        },
{
    let mut i: usize = 0;
    while i < cols.len()
        invariant
            i <= cols@.len(),
            forall|k: int| 0 <= k < i ==> cols@[k] != c,
        decreases cols@.len() - i,
    {
        if cols[i] == c {
            proof {
                lemma_first_col_idx_at(cols@, c, i as int);
            }
            return Some(i);
        }
        i = i + 1;
    }
    proof {
        lemma_first_col_idx_none(cols@, c);
    }
    None
}

fn contains_col(cols: &Vec<Column>, c: Column) -> (r: bool)
    ensures
        r == (first_col_idx(cols@, c) is Some),
{
    proof {
        lemma_first_col_idx_found(cols@, c);
    }
    match find_col(cols, c) {
        Some(_) => true,
        None => false,
    }
}

fn distinct_cols(cols: &Vec<Column>) -> (r: bool)
    ensures
        r == (forall|i: int, j: int| 0 <= i < j < cols@.len() ==> cols@[i] != cols@[j]),
{
    let n = cols.len();
    let mut i: usize = 0;
    while i < n
        invariant
            i <= n,
            n == cols@.len(),
            forall|p: int, q: int| 0 <= p < q < n && p < i ==> cols@[p] != cols@[q],
        decreases n - i,
    {
        let mut j: usize = i + 1;
        while j < n
            invariant
                i < j <= n,
                i < n,
                n == cols@.len(),
                forall|p: int, q: int| 0 <= p < q < n && p < i ==> cols@[p] != cols@[q],
                forall|q: int| i < q < j ==> cols@[i as int] != cols@[q],
            decreases n - j,
        {
            if cols[i] == cols[j] {
                return false;
            }
            j = j + 1;
        }
        i = i + 1;
    }
    true
}

impl FieldMapper {
    /// Builds the table from the header row; any unrecognized header, or a
    /// set of headers that does not cover the nine fields exactly, is schema
    /// drift.
    #[verifier::loop_isolation(false)]
    pub fn new(headers: &Vec<String>) -> (r: Result<FieldMapper, Error>)
        ensures
            match r {
                Ok(m) => build_spec(headers.deep_view()) == Some(m.cols@) && m.wf(),
                Err(e) => build_spec(headers.deep_view()) is None && e == Error::IncompatibleApi,
            },
    {
        let ghost h = headers.deep_view();
        if headers.len() != 9 {
            return Err(Error::IncompatibleApi);
        }
        let mut cols: Vec<Column> = Vec::new();
        let mut i: usize = 0;
        while i < 9
            invariant
                i <= 9,
                h == headers.deep_view(),
                h.len() == 9,
                headers@.len() == 9,
                cols@.len() == i,
                forall|k: int| 0 <= k < i ==> header_field(h[k]) == Some(cols@[k]),
            decreases 9 - i,
        {
            proof {
                assert(h[i as int] == headers@[i as int]@);
            }
            match header_field_exec(headers[i].as_str()) {
                Some(c) => {
                    cols.push(c);
                    proof {
                        assert(header_field(h[i as int]) == Some(c));
                        assert(cols@[i as int] == c);
                    }
                },
                None => {
                    return Err(Error::IncompatibleApi);
                },
            }
            i = i + 1;
        }
        let ghost m = Seq::new(h.len(), |k: int| header_field(h[k]).unwrap());
        proof {
            assert(cols@ =~= m);
        }
        if !distinct_cols(&cols) {
            return Err(Error::IncompatibleApi);
        }
        let all_there = contains_col(&cols, Column::Date) && contains_col(&cols, Column::Volume)
            && contains_col(&cols, Column::TransactionPrice) && contains_col(
            &cols,
            Column::OpenPrice,
        ) && contains_col(&cols, Column::HighPrice) && contains_col(&cols, Column::LowPrice)
            && contains_col(&cols, Column::ClosePrice) && contains_col(&cols, Column::Diff)
            && contains_col(&cols, Column::Transaction);
        if !all_there {
            proof {
                assert(!complete_cols(m)) by {
                    if complete_cols(m) {
                        assert(first_col_idx(m, Column::Date) is Some);
                        assert(first_col_idx(m, Column::Volume) is Some);
                        assert(first_col_idx(m, Column::TransactionPrice) is Some);
                        assert(first_col_idx(m, Column::OpenPrice) is Some);
                        assert(first_col_idx(m, Column::HighPrice) is Some);
                        assert(first_col_idx(m, Column::LowPrice) is Some);
                        assert(first_col_idx(m, Column::ClosePrice) is Some);
                        assert(first_col_idx(m, Column::Diff) is Some);
                        assert(first_col_idx(m, Column::Transaction) is Some);
                    }
                }
            }
            return Err(Error::IncompatibleApi);
        }
        proof {
            assert(complete_cols(m)) by {
                assert forall|c: Column| first_col_idx(m, c) is Some by {
                    match c {
                        Column::Date => assert(first_col_idx(m, Column::Date) is Some),
                        Column::Volume => assert(first_col_idx(m, Column::Volume) is Some),
                        Column::TransactionPrice => assert(first_col_idx(
                            m,
                            Column::TransactionPrice,
                        ) is Some),
                        Column::OpenPrice => assert(first_col_idx(m, Column::OpenPrice) is Some),
                        Column::HighPrice => assert(first_col_idx(m, Column::HighPrice) is Some),
                        Column::LowPrice => assert(first_col_idx(m, Column::LowPrice) is Some),
                        Column::ClosePrice => assert(first_col_idx(m, Column::ClosePrice) is Some),
                        Column::Diff => assert(first_col_idx(m, Column::Diff) is Some),
                        Column::Transaction => assert(first_col_idx(
                            m,
                            Column::Transaction,
                        ) is Some),
                    }
                }
            }
        }
        Ok(FieldMapper { cols })
    }
}

/// The cell sitting under field `c`.
pub open spec fn cell_for(m: Seq<Column>, row: Seq<JsonV>, c: Column) -> JsonV {
    row[first_col_idx(m, c).unwrap()]
}

/// One row decoded field by field; the first failing field decides the error.
pub open spec fn map_row_spec(m: Seq<Column>, row: Seq<JsonV>) -> Result<DailyData, Error> {
    if m.len() == 9 && row.len() == 9 && complete_cols(m) {
        match decode_roc_date_spec(cell_for(m, row, Column::Date)) {
            Err(e) => Err(e),
            Ok(date) => match decode_u64_spec(cell_for(m, row, Column::Volume)) {
                Err(e) => Err(e),
                Ok(volume) => match decode_price_spec(cell_for(m, row, Column::TransactionPrice)) {
                    Err(e) => Err(e),
                    Ok(transaction_price) => match decode_price_spec(
                        cell_for(m, row, Column::OpenPrice),
                    ) {
                        Err(e) => Err(e),
                        Ok(open_price) => match decode_price_spec(
                            cell_for(m, row, Column::HighPrice),
                        ) {
                            Err(e) => Err(e),
                            Ok(high_price) => match decode_price_spec(
                                cell_for(m, row, Column::LowPrice),
                            ) {
                                Err(e) => Err(e),
                                Ok(low_price) => match decode_price_spec(
                                    cell_for(m, row, Column::ClosePrice),
                                ) {
                                    Err(e) => Err(e),
                                    Ok(close_price) => match decode_price_spec(
                                        cell_for(m, row, Column::Diff),
                                    ) {
                                        Err(e) => Err(e),
                                        Ok(diff) => match decode_u64_spec(
                                            cell_for(m, row, Column::Transaction),
                                        ) {
                                            Err(e) => Err(e),
                                            Ok(transaction) => Ok(
                                                DailyData {
                                                    date,
                                                    volume,
                                                    transaction_price,
                                                    open_price,
                                                    high_price,
                                                    low_price,
                                                    close_price,
                                                    diff,
                                                    transaction,
                                                },
                                            ),
                                        },
                                    },
                                },
                            },
                        },
                    },
                },
            },
        }
    } else {
        Err(Error::IncompatibleApi)
    }
}

impl FieldMapper {
    /// Decodes one data row through the table.
    pub fn map(&self, row: &Vec<Json>) -> (r: Result<DailyData, Error>)
        ensures
            r == map_row_spec(self.cols@, jview_list(row@)),
    {
        proof {
            lemma_jview_list(row@);
        }
        let ghost jrow = jview_list(row@);
        if self.cols.len() != 9 || row.len() != 9 {
            return Err(Error::IncompatibleApi);
        }
        let i_date = match find_col(&self.cols, Column::Date) {
            Some(x) => x,
            None => {
                return Err(Error::IncompatibleApi);
            },
        };
        let i_volume = match find_col(&self.cols, Column::Volume) {
            Some(x) => x,
            None => {
                return Err(Error::IncompatibleApi);
            },
        };
        let i_tp = match find_col(&self.cols, Column::TransactionPrice) {
            Some(x) => x,
            None => {
                return Err(Error::IncompatibleApi);
            },
        };
        let i_open = match find_col(&self.cols, Column::OpenPrice) {
            Some(x) => x,
            None => {
                return Err(Error::IncompatibleApi);
            },
        };
        let i_high = match find_col(&self.cols, Column::HighPrice) {
            Some(x) => x,
            None => {
                return Err(Error::IncompatibleApi);
            },
        };
        let i_low = match find_col(&self.cols, Column::LowPrice) {
            Some(x) => x,
            None => {
                return Err(Error::IncompatibleApi);
            },
        };
        let i_close = match find_col(&self.cols, Column::ClosePrice) {
            Some(x) => x,
            None => {
                return Err(Error::IncompatibleApi);
            },
        };
        let i_diff = match find_col(&self.cols, Column::Diff) {
            Some(x) => x,
            None => {
                return Err(Error::IncompatibleApi);
            },
        };
        let i_tx = match find_col(&self.cols, Column::Transaction) {
            Some(x) => x,
            None => {
                return Err(Error::IncompatibleApi);
            },
        };
        proof {
            assert(complete_cols(self.cols@)) by {
                assert forall|c: Column| first_col_idx(self.cols@, c) is Some by {
                    match c {
                        Column::Date => assert(first_col_idx(self.cols@, Column::Date) is Some),
                        Column::Volume => assert(first_col_idx(self.cols@, Column::Volume) is Some),
                        Column::TransactionPrice => assert(first_col_idx(
                            self.cols@,
                            Column::TransactionPrice,
                        ) is Some),
                        Column::OpenPrice => assert(first_col_idx(
                            self.cols@,
                            Column::OpenPrice,
                        ) is Some),
                        Column::HighPrice => assert(first_col_idx(
                            self.cols@,
                            Column::HighPrice,
                        ) is Some),
                        Column::LowPrice => assert(first_col_idx(
                            self.cols@,
                            Column::LowPrice,
                        ) is Some),
                        Column::ClosePrice => assert(first_col_idx(
                            self.cols@,
                            Column::ClosePrice,
                        ) is Some),
                        Column::Diff => assert(first_col_idx(self.cols@, Column::Diff) is Some),
                        Column::Transaction => assert(first_col_idx(
                            self.cols@,
                            Column::Transaction,
                        ) is Some),
                    }
                }
            }
        }
        let date = match decode_roc_date(&row[i_date]) {
            Ok(v) => v,
            Err(e) => {
                return Err(e);
            },
        };
        let volume = match decode_unsigned(&row[i_volume]) {
            Ok(v) => v,
            Err(e) => {
                return Err(e);
            },
        };
        let transaction_price = match decode_price(&row[i_tp]) {
            Ok(v) => v,
            Err(e) => {
                return Err(e);
            },
        };
        let open_price = match decode_price(&row[i_open]) {
            Ok(v) => v,
            Err(e) => {
                return Err(e);
            },
        };
        let high_price = match decode_price(&row[i_high]) {
            Ok(v) => v,
            Err(e) => {
                return Err(e);
            },
        };
        let low_price = match decode_price(&row[i_low]) {
            Ok(v) => v,
            Err(e) => {
                return Err(e);
            },
        };
        let close_price = match decode_price(&row[i_close]) {
            Ok(v) => v,
            Err(e) => {
                return Err(e);
            },
        };
        let diff = match decode_price(&row[i_diff]) {
            Ok(v) => v,
            Err(e) => {
                return Err(e);
            },
        };
        let transaction = match decode_unsigned(&row[i_tx]) {
            Ok(v) => v,
            Err(e) => {
                return Err(e);
            },
        };
        Ok(
            DailyData {
                date,
                volume,
                transaction_price,
                open_price,
                high_price,
                low_price,
                close_price,
                diff,
                transaction,
            },
        )
    }
}

/// Two valid header permutations decode equivalent data identically: the
/// record depends only on which cell sits under which field, never on the
/// column order the upstream chose.
pub proof fn lemma_mapping_permutation_invariant(
    m1: Seq<Column>,
    row1: Seq<JsonV>,
    m2: Seq<Column>,
    row2: Seq<JsonV>,
    perm: Seq<int>,
)
    requires
        m1.len() == 9,
        row1.len() == 9,
        m2.len() == 9,
        row2.len() == 9,
        perm.len() == 9,
        forall|i: int| 0 <= i < 9 ==> 0 <= #[trigger] perm[i] < 9,
        forall|i: int| 0 <= i < 9 ==> m2[i] == m1[#[trigger] perm[i]],
        forall|i: int| 0 <= i < 9 ==> row2[i] == row1[#[trigger] perm[i]],
        forall|i: int, j: int| 0 <= i < j < 9 ==> m1[i] != m1[j],
        complete_cols(m1),
        complete_cols(m2),
    ensures
        map_row_spec(m1, row1) == map_row_spec(m2, row2),
{
    assert forall|c: Column| cell_for(m2, row2, c) == cell_for(m1, row1, c) by {
        lemma_first_col_idx_found(m1, c);
        lemma_first_col_idx_found(m2, c);
        let i1 = first_col_idx(m1, c).unwrap();
        let i2 = first_col_idx(m2, c).unwrap();
        assert(m1[perm[i2]] == c);
        if perm[i2] != i1 {
            assert(m1[perm[i2]] != m1[i1]);
        }
        assert(row2[i2] == row1[i1]);
    }
    assert(cell_for(m2, row2, Column::Date) == cell_for(m1, row1, Column::Date));
    assert(cell_for(m2, row2, Column::Volume) == cell_for(m1, row1, Column::Volume));
    assert(cell_for(m2, row2, Column::TransactionPrice) == cell_for(
        m1,
        row1,
        Column::TransactionPrice,
    ));
    assert(cell_for(m2, row2, Column::OpenPrice) == cell_for(m1, row1, Column::OpenPrice));
    assert(cell_for(m2, row2, Column::HighPrice) == cell_for(m1, row1, Column::HighPrice));
    assert(cell_for(m2, row2, Column::LowPrice) == cell_for(m1, row1, Column::LowPrice));
    assert(cell_for(m2, row2, Column::ClosePrice) == cell_for(m1, row1, Column::ClosePrice));
    assert(cell_for(m2, row2, Column::Diff) == cell_for(m1, row1, Column::Diff));
    assert(cell_for(m2, row2, Column::Transaction) == cell_for(m1, row1, Column::Transaction));
}

/// The nine header texts, when the document carries them as such.
pub open spec fn history_fields(doc: JsonV) -> Option<Seq<Seq<char>>> {
    match doc_get(doc, "fields"@) {
        Some(f) => match f {
            JsonV::Arr(items) => if items.len() == 9 && (forall|i: int|
                0 <= i < 9 ==> items[i] is Text) {
                Some(Seq::new(9, |i: int| items[i]->Text_0))
            } else {
                None
            },
            _ => None,
        },
        _ => None,
    }
}

/// The data rows, when every row is a nine-cell array.
pub open spec fn history_rows(doc: JsonV) -> Option<Seq<Seq<JsonV>>> {
    match doc_get(doc, "data"@) {
        Some(d) => match d {
            JsonV::Arr(rows) => if forall|i: int|
                0 <= i < rows.len() ==> rows[i] is Arr && rows[i]->Arr_0.len() == 9 {
                Some(Seq::new(rows.len(), |i: int| rows[i]->Arr_0))
            } else {
                None
            },
            _ => None,
        },
        _ => None,
    }
}

/// Rows decoded in order; the first bad row rejects the whole response.
pub open spec fn decode_rows(cols: Seq<Column>, rows: Seq<Seq<JsonV>>) -> Result<
    Seq<DailyData>,
    ErrV,
>
    decreases rows.len(),
{
    if rows.len() == 0 {
        Ok(Seq::empty())
    } else {
        match map_row_spec(cols, rows[0]) {
            Err(e) => Err(e@),
            Ok(d) => match decode_rows(cols, rows.subrange(1, rows.len() as int)) {
                Ok(rest) => Ok(seq![d] + rest),
                Err(e) => Err(e),
            },
        }
    }
}

/// A month that decodes at all decodes to exactly one record per data row:
/// days the market was closed are absent from the upstream output, so the
/// record count is the count of trading days reported.
pub proof fn lemma_one_record_per_row(cols: Seq<Column>, rows: Seq<Seq<JsonV>>)
    ensures
        decode_rows(cols, rows) matches Ok(out) ==> out.len() == rows.len(),
    decreases rows.len(),
{
    if rows.len() > 0 {
        lemma_one_record_per_row(cols, rows.subrange(1, rows.len() as int));
    }
}

/// What a history response body means: a well-shaped document decodes row by
/// row; otherwise the upstream's own `stat` message is surfaced; anything
/// else is schema drift.
pub open spec fn history_parse_spec(parsed: Option<JsonV>) -> Result<Seq<DailyData>, ErrV> {
    match parsed {
        None => Err(ErrV::IncompatibleApi),
        Some(doc) => match (history_fields(doc), history_rows(doc)) {
            (Some(fields), Some(rows)) => match build_spec(fields) {
                Some(cols) => decode_rows(cols, rows),
                None => Err(ErrV::IncompatibleApi),
            },
            _ => match stat_of(doc) {
                Some(msg) => Err(ErrV::StatMessage(msg)),
                None => Err(ErrV::IncompatibleApi),
            },
        },
    }
}

pub open spec fn history_result_view(r: Result<Vec<DailyData>, Error>) -> Result<
    Seq<DailyData>,
    ErrV,
> {
    match r {
        Ok(v) => Ok(v@),
        Err(e) => Err(e@),
    }
}

#[verifier::loop_isolation(false)]
fn extract_fields(doc: &Json) -> (r: Option<Vec<String>>)
    ensures
        match r {
            Some(v) => history_fields(doc@) == Some(v.deep_view()),
            None => history_fields(doc@) is None,
        },
{
    match json_get(doc, "fields") {
        Some(j) => match j {
            Json::Arr(items) => {
                proof {
                    lemma_jview_list(items@);
                }
                let ghost jitems = jview_list(items@);
                if items.len() != 9 {
                    return None;
                }
                let mut out: Vec<String> = Vec::new();
                let mut i: usize = 0;
                while i < 9
                    invariant
                        i <= 9,
                        items@.len() == 9,
                        jitems == jview_list(items@),
                        jitems.len() == 9,
                        forall|k: int| 0 <= k < 9 ==> jitems[k] == crate::json::jview(items@[k]),
                        out@.len() == i,
                        forall|k: int| 0 <= k < i ==> jitems[k] == JsonV::Text(out.deep_view()[k]),
                    decreases 9 - i,
                {
                    match &items[i] {
                        Json::Text(s) => {
                            proof {
                                assert(jitems[i as int] == crate::json::jview(items@[i as int]));
                                assert(jitems[i as int] == JsonV::Text(s@));
                            }
                            out.push(s.clone());
                            proof {
                                assert(out@[i as int]@ == s@);
                                assert(out.deep_view()[i as int] == out@[i as int]@);
                            }
                        },
                        _ => {
                            proof {
                                crate::json::lemma_jview_kind(items@[i as int]);
                                assert(!(jitems[i as int] is Text));
                            }
                            return None;
                        },
                    }
                    i = i + 1;
                }
                proof {
                    assert(out.deep_view() =~= Seq::new(9, |i: int| jitems[i]->Text_0));
                }
                Some(out)
            },
            _ => {
                proof {
                    crate::json::lemma_jview_kind(*j);
                }
                None
            },
        },
        None => None,
    }
}

/// Decodes a history response body that arrived with a success status.
pub fn parse_history_body(body: &[u8]) -> (r: Result<Vec<DailyData>, Error>)
    ensures
        history_result_view(r) == history_parse_spec(json_tree_of(body@)),
{
    let doc = match parse_json_bytes(body) {
        Some(d) => d,
        None => {
            return Err(Error::IncompatibleApi);
        },
    };
    let fields = extract_fields(&doc);
    let rows_ok = history_rows_shape_ok(&doc);
    match (fields, rows_ok) {
        (Some(fields), true) => {
            let mapper = match FieldMapper::new(&fields) {
                Ok(m) => m,
                Err(e) => {
                    return Err(e);
                },
            };
            decode_rows_exec(&mapper, &doc)
        },
        _ => {
            match get_stat(&doc) {
                Some(msg) => Err(Error::StatMessage(msg.clone())),
                None => Err(Error::IncompatibleApi),
            }
        },
    }
}

#[verifier::loop_isolation(false)]
fn history_rows_shape_ok(doc: &Json) -> (r: bool)
    ensures
        r == (history_rows(doc@) is Some),
{
    match json_get(doc, "data") {
        Some(j) => match j {
            Json::Arr(rows) => {
                proof {
                    lemma_jview_list(rows@);
                }
                let ghost jrows = jview_list(rows@);
                proof {
                    assert(doc_get(doc@, "data"@) == Some(JsonV::Arr(jrows)));
                }
                let mut i: usize = 0;
                while i < rows.len()
                    invariant
                        i <= rows@.len(),
                        doc_get(doc@, "data"@) == Some(JsonV::Arr(jrows)),
                        jrows == jview_list(rows@),
                        jrows.len() == rows@.len(),
                        forall|k: int|
                            0 <= k < rows@.len() ==> jrows[k] == crate::json::jview(rows@[k]),
                        forall|k: int|
                            0 <= k < i ==> jrows[k] is Arr && jrows[k]->Arr_0.len() == 9,
                    decreases rows@.len() - i,
                {
                    match &rows[i] {
                        Json::Arr(cells) => {
                            proof {
                                crate::json::lemma_jview_list(cells@);
                                assert(jrows[i as int] == JsonV::Arr(jview_list(cells@)));
                                assert(jrows[i as int]->Arr_0.len() == cells@.len());
                            }
                            if cells.len() != 9 {
                                return false;
                            }
                        },
                        _ => {
                            proof {
                                crate::json::lemma_jview_kind(rows@[i as int]);
                                assert(!(jrows[i as int] is Arr));
                            }
                            return false;
                        },
                    }
                    i = i + 1;
                }
                true
            },
            _ => {
                proof {
                    crate::json::lemma_jview_kind(*j);
                }
                false
            },
        },
        None => false,
    }
}

#[verifier::rlimit(100)]
#[verifier::loop_isolation(false)]
fn decode_rows_exec(mapper: &FieldMapper, doc: &Json) -> (r: Result<Vec<DailyData>, Error>)
    requires
        history_rows(doc@) is Some,
    ensures
        history_result_view(r) == decode_rows(mapper.cols@, history_rows(doc@).unwrap()),
{
    let ghost jrows = history_rows(doc@).unwrap();
    match json_get(doc, "data") {
        Some(j) => match j {
            Json::Arr(rows) => {
                proof {
                    lemma_jview_list(rows@);
                    assert(doc_get(doc@, "data"@) == Some(JsonV::Arr(jview_list(rows@))));
                    assert(jrows =~= Seq::new(
                        jview_list(rows@).len(),
                        |i: int| jview_list(rows@)[i]->Arr_0,
                    ));
                    assert forall|k: int|
                        0 <= k < rows@.len() implies crate::json::jview(rows@[k]) == JsonV::Arr(
                        jrows[k],
                    ) by {
                        assert(jview_list(rows@)[k] is Arr);
                        assert(jview_list(rows@)[k] == crate::json::jview(rows@[k]));
                        assert(jrows[k] == jview_list(rows@)[k]->Arr_0);
                    }
                    assert(jrows.subrange(0, jrows.len() as int) =~= jrows);
                }
                let mut out: Vec<DailyData> = Vec::new();
                proof {
                    if decode_rows(mapper.cols@, jrows) is Ok {
                        let r0 = decode_rows(mapper.cols@, jrows)->Ok_0;
                        assert(out@ + r0 =~= r0);
                    }
                }
                let mut i: usize = 0;
                while i < rows.len()
                    invariant
                        i <= rows@.len(),
                        jrows.len() == rows@.len(),
                        forall|k: int|
                            0 <= k < rows@.len() ==> crate::json::jview(rows@[k]) == JsonV::Arr(
                                jrows[k],
                            ),
                        decode_rows(mapper.cols@, jrows) == (match decode_rows(
                            mapper.cols@,
                            jrows.subrange(i as int, jrows.len() as int),
                        ) {
                            Ok(rest) => Ok::<Seq<DailyData>, ErrV>(out@ + rest),
                            Err(e) => Err::<Seq<DailyData>, ErrV>(e),
                        }),
                        out@.len() == i,
                    decreases rows@.len() - i,
                {
                    let row = match &rows[i] {
                        Json::Arr(cells) => cells,
                        _ => {
                            proof {
                                crate::json::lemma_jview_kind(rows@[i as int]);
                            }
                            assert(false);
                            return Err(Error::IncompatibleApi);
                        },
                    };
                    proof {
                        let suf = jrows.subrange(i as int, jrows.len() as int);
                        assert(suf[0] == jrows[i as int]);
                        assert(jview_list(row@) == jrows[i as int]);
                        assert(suf.subrange(1, suf.len() as int) =~= jrows.subrange(
                            i + 1,
                            jrows.len() as int,
                        ));
                    }
                    match mapper.map(row) {
                        Ok(d) => {
                            proof {
                                let suf2 = jrows.subrange(i + 1, jrows.len() as int);
                                if decode_rows(mapper.cols@, suf2) is Ok {
                                    let r2 = decode_rows(mapper.cols@, suf2)->Ok_0;
                                    assert(out@.push(d) + r2 =~= out@ + (seq![d] + r2));
                                }
                            }
                            out.push(d);
                        },
                        Err(e) => {
                            return Err(e);
                        },
                    }
                    i = i + 1;
                }
                proof {
                    assert(jrows.subrange(jrows.len() as int, jrows.len() as int)
                        =~= Seq::<Seq<JsonV>>::empty());
                    assert(out@ + Seq::<DailyData>::empty() =~= out@);
                }
                Ok(out)
            },
            _ => {
                proof {
                    crate::json::lemma_jview_kind(*j);
                }
                assert(false);
                Err(Error::IncompatibleApi)
            },
        },
        None => {
            assert(false);
            Err(Error::IncompatibleApi)
        },
    }
}

/// The `date` query parameter for a requested month: its first day, as eight
/// digits; a month outside the calendar cannot be requested.
pub open spec fn month_param(y: int, m: int) -> Seq<char> {
    zero_pad(u64_digits(y as nat), 4) + zero_pad(u64_digits(m as nat), 2) + seq!['0', '1']
}

pub fn history_date_param(year: u16, month: u8) -> (r: Result<String, Error>)
    ensures
        1 <= month <= 12 ==> (r matches Ok(s) && s@ == month_param(year as int, month as int)),
        !(1 <= month <= 12) ==> r == Err::<String, Error>(Error::DateDoesNotExist),
{
    if month < 1 || month > 12 {
        return Err(Error::DateDoesNotExist);
    }
    let mut v = dec_chars_padded(year as u64, 4);
    let mut mm = dec_chars_padded(month as u64, 2);
    v.append(&mut mm);
    v.push('0');
    v.push('1');
    proof {
        assert(v@ =~= month_param(year as int, month as int));
    }
    Ok(string_of(&v))
}

} // verus!
