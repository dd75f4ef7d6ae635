//! The directory table parser.
//!
//! The issuer directory is an HTML table. Between the meaningful cells of
//! each row the markup carries whitespace-only text nodes, so both the header
//! row and every data row are sieved the same way: blank texts are dropped,
//! then every second survivor is taken. That keeps header and data columns
//! aligned even though the raw table shows roughly twice the logical column
//! count. Short rows are section separators and are skipped; rows between the
//! required and the full width are padded with empty cells so optional
//! trailing fields decode to defaults.

use vstd::prelude::*;

use vstd::slice::slice_to_vec;

use crate::Error;
use crate::ErrV;
use crate::Stock;
use crate::date::parse_slash_date;
use crate::date::parse_slash_date_exec;
use crate::list::Industry;
use crate::list::InfoV;
use crate::list::StockInfo;
use crate::list::industry_of;
use crate::list::kind_of;
use crate::list::kind_from_name;
use crate::text::chars_eq;
use crate::text::chars_of;
use crate::text::copy_chars;
use crate::text::filter_digits;
use crate::text::filter_digits_exec;
use crate::text::first_word;
use crate::text::first_word_exec;
use crate::text::is_all_blank;
use crate::text::is_all_blank_exec;
use crate::text::lemma_chars_deep_view;
use crate::text::last_word;
use crate::text::last_word_exec;
use crate::text::parse_u64_chars;
use crate::text::parse_u64_str;
use crate::text::string_of;
use crate::text::trim;
use crate::text::trim_exec;

verus! {

/// The texts that carry content: blank ones dropped, order kept.
pub open spec fn keep_texts(texts: Seq<Seq<char>>) -> Seq<Seq<char>>
    decreases texts.len(),
{
    if texts.len() == 0 {
        Seq::empty()
    } else if is_all_blank(texts.last()) {
        keep_texts(texts.drop_last())
    } else {
        keep_texts(texts.drop_last()).push(texts.last())
    }
}

/// Every second text, starting with the first: the table alternates content
/// and decorative cells.
pub open spec fn stride2(s: Seq<Seq<char>>) -> Seq<Seq<char>> {
    Seq::new((s.len() + 1) / 2, |i: int| s[2 * i])
}

pub open spec fn empties(k: nat) -> Seq<Seq<char>> {
    Seq::new(k, |i: int| Seq::<char>::empty())
}

/// The row brought to the full seven-column width: long rows truncated,
/// short ones padded with empty cells.
pub open spec fn pad7(s: Seq<Seq<char>>) -> Seq<Seq<char>> {
    if s.len() >= 7 {
        s.take(7)
    } else {
        s + empties((7 - s.len()) as nat)
    }
}

/// One row's logical cells: blank texts dropped, then every second survivor.
pub open spec fn row_cells(texts: Seq<Seq<char>>) -> Seq<Seq<char>> {
    stride2(keep_texts(texts))
}

fn sieve_row(texts: &Vec<String>) -> (r: Vec<Vec<char>>)
    ensures
        r.deep_view() == row_cells(texts.deep_view()),
{
    let ghost dv = texts.deep_view();
    let mut kept: Vec<Vec<char>> = Vec::new();
    let mut i: usize = 0;
    proof {
        assert(dv.subrange(0, 0) =~= Seq::<Seq<char>>::empty());
        assert(kept.deep_view() =~= keep_texts(dv.subrange(0, 0)));
    }
    while i < texts.len()
        invariant
            i <= texts@.len(),
            dv == texts.deep_view(),
            dv.len() == texts@.len(),
            kept.deep_view() == keep_texts(dv.subrange(0, i as int)),
        decreases texts@.len() - i,
    {
        let c = chars_of(texts[i].as_str());
        proof {
            assert(dv[i as int] == texts@[i as int]@);
            assert(dv.subrange(0, i + 1).drop_last() =~= dv.subrange(0, i as int));
            assert(dv.subrange(0, i + 1).last() == dv[i as int]);
        }
        if !is_all_blank_exec(&c) {
            let ghost pre = kept.deep_view();
            proof {
                lemma_chars_deep_view(c);
            }
            kept.push(c);
            proof {
                assert(kept.deep_view() =~= pre.push(dv[i as int]));
            }
        }
        i = i + 1;
    }
    proof {
        assert(dv.subrange(0, dv.len() as int) =~= dv);
    }
    let ghost kdv = kept.deep_view();
    let mut out: Vec<Vec<char>> = Vec::new();
    let n = kept.len();
    let half = kept.len() / 2;
    let target = kept.len() - half;
    proof {
        assert(out.deep_view() =~= stride2(kdv).subrange(0, 0));
    }
    let mut k: usize = 0;
    while k < target
        invariant
            k <= target,
            n == kept@.len(),
            target == kept@.len() - kept@.len() / 2,
            kdv == kept.deep_view(),
            kdv.len() == kept@.len(),
            out@.len() == k,
            out.deep_view() == stride2(kdv).subrange(0, k as int),
        decreases target - k,
    {
        proof {
            assert(2 * (k as int) < kdv.len());
            assert((k as int) < (kdv.len() + 1) / 2);
        }
        let c = copy_chars(&kept[2 * k]);
        proof {
            lemma_chars_deep_view(c);
            lemma_chars_deep_view(kept@[2 * (k as int)]);
        }
        let ghost pre = out.deep_view();
        out.push(c);
        proof {
            assert(stride2(kdv)[k as int] == kdv[2 * (k as int)]);
            assert(out.deep_view() =~= pre.push(kdv[2 * (k as int)]));
            assert(stride2(kdv).subrange(0, k + 1) =~= pre.push(stride2(kdv)[k as int]));
        }
        k = k + 1;
    }
    proof {
        assert(target == (kdv.len() + 1) / 2);
        assert(out.deep_view() =~= stride2(kdv));
    }
    out
}

fn pad7_exec(cells: Vec<Vec<char>>) -> (r: Vec<Vec<char>>)
    ensures
        r.deep_view() == pad7(cells.deep_view()),
{
    let ghost orig = cells.deep_view();
    let mut cells = cells;
    if cells.len() > 7 {
        cells.truncate(7);
        proof {
            assert(cells.deep_view() =~= orig.take(7));
        }
        return cells;
    }
    while cells.len() < 7
        invariant
            orig.len() <= 7 ==> cells.deep_view() =~= orig + empties(
                (cells@.len() - orig.len()) as nat,
            ),
            orig.len() <= cells@.len() <= 7 || orig.len() == cells@.len(),
        decreases 7 - cells@.len(),
    {
        let ghost pre = cells.deep_view();
        let filler: Vec<char> = Vec::new();
        proof {
            lemma_chars_deep_view(filler);
        }
        cells.push(filler);
        proof {
            assert(cells.deep_view() =~= pre.push(Seq::<char>::empty()));
            assert(pre.push(Seq::<char>::empty()) =~= orig + empties(
                (cells@.len() - orig.len()) as nat,
            ));
        }
    }
    proof {
        if orig.len() == 7 {
            assert(orig.take(7) =~= orig);
        }
        if orig.len() < 7 {
            assert(cells.deep_view() =~= pad7(orig));
        } else {
            assert(cells.deep_view() =~= orig + empties(0));
            assert(orig + empties(0) =~= orig);
        }
    }
    cells
}

/// The directory's seven logical columns; headers outside the vocabulary map
/// to an ignored position that still shifts later columns.
#[derive(Debug, Clone, Copy, PartialEq, Eq, Structural)]
pub enum Column {
    CodeAndAbbr,
    ReleaseDate,
    Industry,
    Kind,
    Unselected,
}

/// The directory's header vocabulary, matched on the trimmed cell text.
pub open spec fn list_header_field(t: Seq<char>) -> Column {
    if trim(t) == "有價證券代號及名稱"@ {
        Column::CodeAndAbbr
    } else if trim(t) == "上市日"@ {
        Column::ReleaseDate
    } else if trim(t) == "產業別"@ {
        Column::Industry
    } else if trim(t) == "市場別"@ {
        Column::Kind
    } else {
        Column::Unselected
    }
}

fn list_header_field_exec(cell: &Vec<char>) -> (r: Column)
    ensures
        r == list_header_field(cell@),
{
    let tr = trim_exec(cell);
    if chars_eq(&tr, &chars_of("有價證券代號及名稱")) {
        Column::CodeAndAbbr
    } else if chars_eq(&tr, &chars_of("上市日")) {
        Column::ReleaseDate
    } else if chars_eq(&tr, &chars_of("產業別")) {
        Column::Industry
    } else if chars_eq(&tr, &chars_of("市場別")) {
        Column::Kind
    } else {
        Column::Unselected
    }
}

/// Index of the first position mapped to `c`, if any.
pub open spec fn col_idx(m: Seq<Column>, c: Column) -> Option<int>
    decreases m.len(),
{
    if m.len() == 0 {
        None
    } else if m[0] == c {
        Some(0)
    } else {
        match col_idx(m.skip(1), c) {
            Some(i) => Some(i + 1),
            None => None,
        }
    }
}

proof fn lemma_col_idx_at(m: Seq<Column>, c: Column, j: int)
    requires
        0 <= j < m.len(),
        m[j] == c,
        forall|k: int| 0 <= k < j ==> m[k] != c,
    ensures
        col_idx(m, c) == Some(j),
    decreases j,
{
    if j > 0 {
        let t = m.skip(1);
        assert(forall|k: int| 0 <= k < j - 1 ==> t[k] == m[k + 1] && t[k] != c);
        assert(t[j - 1] == c);
        lemma_col_idx_at(t, c, j - 1);
    }
}

proof fn lemma_col_idx_none(m: Seq<Column>, c: Column)
    requires
        forall|k: int| 0 <= k < m.len() ==> m[k] != c,
    ensures
        col_idx(m, c) is None,
    decreases m.len(),
{
    if m.len() > 0 {
        let t = m.skip(1);
        assert(forall|k: int| 0 <= k < t.len() ==> t[k] == m[k + 1] && t[k] != c);
        lemma_col_idx_none(t, c);
    }
}

fn find_col(cols: &Vec<Column>, c: Column) -> (r: Option<usize>)
    ensures
        match r {
            Some(i) => col_idx(cols@, c) == Some(i as int) && i < cols@.len(),
            None => col_idx(cols@, c) is None,
        },
{
    let mut i: usize = 0;
    while i < cols.len()
        invariant
            i <= cols@.len(),
            forall|k: int| 0 <= k < i ==> cols@[k] != c,
        decreases cols@.len() - i,
    {
        if cols[i] == c {
            proof {
                lemma_col_idx_at(cols@, c, i as int);
            }
            return Some(i);
        }
        i = i + 1;
    }
    proof {
        lemma_col_idx_none(cols@, c);
    }
    None
}

/// The mapping a well-formed directory header yields: exactly seven logical
/// cells, covering the four required fields.
pub open spec fn list_build_spec(header_texts: Seq<Seq<char>>) -> Option<Seq<Column>> {
    let cells = row_cells(header_texts);
    let m = Seq::new(cells.len(), |i: int| list_header_field(cells[i]));
    if cells.len() == 7 && col_idx(m, Column::CodeAndAbbr) is Some && col_idx(
        m,
        Column::ReleaseDate,
    ) is Some && col_idx(m, Column::Industry) is Some && col_idx(m, Column::Kind) is Some {
        Some(m)
    } else {
        None
    }
}

/// Builds the directory mapper from the table's header row; a header that
/// does not cover the four required fields at seven positions is schema
/// drift.
pub fn build_list_mapper(header: &Vec<String>) -> (r: Result<Vec<Column>, Error>)
    ensures
        match r {
            Ok(m) => list_build_spec(header.deep_view()) == Some(m@),
            Err(e) => list_build_spec(header.deep_view()) is None && e == Error::IncompatibleApi,
        },
{
    let cells = sieve_row(header);
    let ghost cdv = cells.deep_view();
    if cells.len() != 7 {
        return Err(Error::IncompatibleApi);
    }
    let mut m: Vec<Column> = Vec::new();
    let mut i: usize = 0;
    while i < 7
        invariant
            i <= 7,
            cdv == cells.deep_view(),
            cdv.len() == 7,
            cells@.len() == 7,
            m@.len() == i,
            forall|k: int| 0 <= k < i ==> m@[k] == list_header_field(cdv[k]),
        decreases 7 - i,
    {
        proof {
            assert(cdv[i as int] == cells@[i as int]@);
        }
        let c = list_header_field_exec(&cells[i]);
        m.push(c);
        i = i + 1;
    }
    proof {
        assert(m@ =~= Seq::new(cdv.len(), |k: int| list_header_field(cdv[k])));
    }
    if find_col(&m, Column::CodeAndAbbr).is_none() {
        return Err(Error::IncompatibleApi);
    }
    if find_col(&m, Column::ReleaseDate).is_none() {
        return Err(Error::IncompatibleApi);
    }
    if find_col(&m, Column::Industry).is_none() {
        return Err(Error::IncompatibleApi);
    }
    if find_col(&m, Column::Kind).is_none() {
        return Err(Error::IncompatibleApi);
    }
    Ok(m)
}

/// Instrument code and abbreviated name read from the composite cell: the
/// code is the digits of the first word, the name the last word.
pub open spec fn code_of(c: Seq<char>) -> Option<(u32, Seq<char>)> {
    match parse_u64_str(filter_digits(first_word(c))) {
        Some(v) => if v <= u32::MAX {
            Some(((v as u32), last_word(c)))
        } else {
            None
        },
        None => None,
    }
}

/// One padded row read through the mapper; a row whose code or date does not
/// decode resolves to no issuer and is dropped by the caller.
pub open spec fn row_info(m: Seq<Column>, cells: Seq<Seq<char>>) -> Option<InfoV> {
    if m.len() == 7 && cells.len() == 7 && col_idx(m, Column::CodeAndAbbr) is Some && col_idx(
        m,
        Column::ReleaseDate,
    ) is Some && col_idx(m, Column::Industry) is Some && col_idx(m, Column::Kind) is Some {
        match code_of(cells[col_idx(m, Column::CodeAndAbbr).unwrap()]) {
            None => None,
            Some((code, abbr)) => match parse_slash_date(
                cells[col_idx(m, Column::ReleaseDate).unwrap()],
                0,
            ) {
                None => None,
                Some(date) => Some(
                    InfoV {
                        id: Stock { kind: kind_of(cells[col_idx(m, Column::Kind).unwrap()]), code },
                        abbr,
                        release_date: date,
                        industry: industry_of(cells[col_idx(m, Column::Industry).unwrap()]),
                    },
                ),
            },
        }
    } else {
        None
    }
}

pub fn row_info_exec(m: &Vec<Column>, cells: &Vec<Vec<char>>) -> (r: Option<StockInfo>)
    ensures
        match r {
            Some(info) => row_info(m@, cells.deep_view()) == Some(info@),
            None => row_info(m@, cells.deep_view()) is None,
        },
{
    let ghost cdv = cells.deep_view();
    if m.len() != 7 || cells.len() != 7 {
        return None;
    }
    let i_code = match find_col(m, Column::CodeAndAbbr) {
        Some(i) => i,
        None => {
            return None;
        },
    };
    let i_date = match find_col(m, Column::ReleaseDate) {
        Some(i) => i,
        None => {
            return None;
        },
    };
    let i_ind = match find_col(m, Column::Industry) {
        Some(i) => i,
        None => {
            return None;
        },
    };
    let i_kind = match find_col(m, Column::Kind) {
        Some(i) => i,
        None => {
            return None;
        },
    };
    proof {
        assert(cdv[i_code as int] == cells@[i_code as int]@);
        assert(cdv[i_date as int] == cells@[i_date as int]@);
        assert(cdv[i_ind as int] == cells@[i_ind as int]@);
        assert(cdv[i_kind as int] == cells@[i_kind as int]@);
    }
    let fw = first_word_exec(&cells[i_code]);
    let fd = filter_digits_exec(&fw);
    let code64 = match parse_u64_chars(&fd) {
        Some(v) => v,
        None => {
            return None;
        },
    };
    if code64 > u32::MAX as u64 {
        return None;
    }
    let lw = last_word_exec(&cells[i_code]);
    let date = match parse_slash_date_exec(&cells[i_date], 0) {
        Some(d) => d,
        None => {
            return None;
        },
    };
    let ind_text = string_of(&cells[i_ind]);
    let industry = Industry::from_name(ind_text.as_str());
    let kind_text = string_of(&cells[i_kind]);
    let kind = kind_from_name(kind_text.as_str());
    let info = StockInfo {
        id: Stock { kind, code: code64 as u32 },
        abbr: string_of(&lw),
        release_date: date,
        industry,
    };
    Some(info)
}

/// The issuers of the data rows, in table order: short rows skipped, rows
/// that resolve to no issuer dropped.
pub open spec fn rows_infos(m: Seq<Column>, rows: Seq<Seq<Seq<char>>>) -> Seq<InfoV>
    decreases rows.len(),
{
    if rows.len() == 0 {
        Seq::empty()
    } else {
        let cells = row_cells(rows[0]);
        let rest = rows_infos(m, rows.subrange(1, rows.len() as int));
        if cells.len() < 5 {
            rest
        } else {
            match row_info(m, pad7(cells)) {
                Some(info) => seq![info] + rest,
                None => rest,
            }
        }
    }
}

/// What the extracted table means: the first row builds the mapper, the rest
/// are data; no rows at all, or an uncovered header, is schema drift.
pub open spec fn list_parse_spec(rows_opt: Option<Seq<Seq<Seq<char>>>>) -> Result<
    Seq<InfoV>,
    ErrV,
> {
    match rows_opt {
        None => Err(ErrV::IncompatibleApi),
        Some(rows) => if rows.len() == 0 {
            Err(ErrV::IncompatibleApi)
        } else {
            match list_build_spec(rows[0]) {
                Some(m) => Ok(rows_infos(m, rows.subrange(1, rows.len() as int))),
                None => Err(ErrV::IncompatibleApi),
            }
        },
    }
}

pub open spec fn infos_view(v: Seq<StockInfo>) -> Seq<InfoV> {
    Seq::new(v.len(), |i: int| v[i]@)
}

pub open spec fn list_result_view(r: Result<Vec<StockInfo>, Error>) -> Result<Seq<InfoV>, ErrV> {
    match r {
        Ok(v) => Ok(infos_view(v@)),
        Err(e) => Err(e@),
    }
}

/// What decoding these bytes as the legacy single-byte national encoding
/// yields; the bytes alone determine it.
pub uninterp spec fn big5_text_of(bytes: Seq<u8>) -> Seq<char>;

/// Relies on `encoding_rs::BIG5.decode_without_bom_handling`: a lossy decode
/// that is a pure function of the bytes; malformed sequences become
/// replacement characters rather than failures.
#[verifier::external_body]
pub fn big5_to_utf8(raw: Vec<u8>) -> (r: String)
    ensures
        r@ == big5_text_of(raw@),
{
    encoding_rs::BIG5.decode_without_bom_handling(&raw).0.into_owned()
}

/// The texts under each node the selector matches, in document order, when
/// tl accepts the document; the document and the selector alone determine it.
pub uninterp spec fn html_row_texts(doc: Seq<char>, selector: Seq<char>) -> Option<
    Seq<Seq<Seq<char>>>,
>;

/// Relies on `tl::parse`, `VDom::query_selector`, `NodeHandle::get`,
/// `Node::children`, `Children::all` and `Node::inner_text`: one entry per
/// matched node, holding the inner text of every node beneath it in document
/// order; `None` only when tl refuses the document, the selector, or a node
/// lookup.
#[verifier::external_body]
fn extract_row_texts(doc: &str, selector: &str) -> (r: Option<Vec<Vec<String>>>)
    ensures
        match r {
            Some(rows) => html_row_texts(doc@, selector@) == Some(rows.deep_view()),
            None => html_row_texts(doc@, selector@) is None,
        },
{
    let dom = tl::parse(doc, tl::ParserOptions::default()).ok()?;
    let parser = dom.parser();
    let mut rows: Vec<Vec<String>> = Vec::new();
    for handle in dom.query_selector(selector)? {
        let kids = handle.get(parser)?.children()?;
        let mut texts: Vec<String> = Vec::new();
        for node in kids.all(parser) {
            texts.push(node.inner_text(parser).into_owned());
        }
        rows.push(texts);
    }
    Some(rows)
}

/// A raw directory response body, still in the legacy encoding.
pub struct RawContent<'a>(pub &'a [u8]);

impl RawContent<'_> {
    /// Parses the whole directory table: decode the legacy encoding, extract
    /// the table rows, build the mapper from the header row, and read every
    /// data row.
    pub fn parse(self) -> (r: Result<Vec<StockInfo>, Error>)
        ensures
            list_result_view(r) == list_parse_spec(
                html_row_texts(big5_text_of(self.0@), "tr"@),
            ),
    {
        let text = big5_to_utf8(slice_to_vec(self.0));
        let rows = match extract_row_texts(text.as_str(), "tr") {
            Some(r) => r,
            None => {
                return Err(Error::IncompatibleApi);
            },
        };
        let ghost rdv = rows.deep_view();
        if rows.len() == 0 {
            return Err(Error::IncompatibleApi);
        }
        proof {
            assert(rdv[0] == rows@[0].deep_view());
        }
        let mapper = match build_list_mapper(&rows[0]) {
            Ok(m) => m,
            Err(e) => {
                return Err(e);
            },
        };
        let mut out: Vec<StockInfo> = Vec::new();
        proof {
            assert(infos_view(out@) + rows_infos(mapper@, rdv.subrange(1, rdv.len() as int))
                =~= rows_infos(mapper@, rdv.subrange(1, rdv.len() as int)));
        }
        let mut i: usize = 1;
        while i < rows.len()
            invariant
                1 <= i <= rows@.len() || (rows@.len() == 0 && i == 1),
                rdv == rows.deep_view(),
                rdv.len() == rows@.len(),
                rows_infos(mapper@, rdv.subrange(1, rdv.len() as int)) == infos_view(out@)
                    + rows_infos(mapper@, rdv.subrange(i as int, rdv.len() as int)),
            decreases rows@.len() - i,
        {
            proof {
                assert(rdv[i as int] == rows@[i as int].deep_view());
                let suf = rdv.subrange(i as int, rdv.len() as int);
                assert(suf[0] == rdv[i as int]);
                assert(suf.subrange(1, suf.len() as int) =~= rdv.subrange(
                    i + 1,
                    rdv.len() as int,
                ));
            }
            let cells = sieve_row(&rows[i]);
            if cells.len() >= 5 {
                let ghost cell_views = cells.deep_view();
                let padded = pad7_exec(cells);
                match row_info_exec(&mapper, &padded) {
                    Some(info) => {
                        let ghost pre = infos_view(out@);
                        out.push(info);
                        proof {
                            assert(infos_view(out@) =~= pre.push(info@));
                            let rest = rows_infos(
                                mapper@,
                                rdv.subrange(i + 1, rdv.len() as int),
                            );
                            assert(pre.push(info@) + rest =~= pre + (seq![info@] + rest));
                        }
                    },
                    None => {},
                }
            }
            i = i + 1;
        }
        proof {
            assert(rdv.subrange(rdv.len() as int, rdv.len() as int) =~= Seq::<
                Seq<Seq<char>>,
            >::empty());
            assert(infos_view(out@) + Seq::<InfoV>::empty() =~= infos_view(out@));
        }
        Ok(out)
    }
}

} // verus!
