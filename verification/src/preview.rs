//! Normalizing a stored preview: the parser's JSON blocks, tables and
//! warnings are kept only in the shapes the viewer shows, within the node and
//! character budget of one preview.
use vstd::prelude::*;

use crate::library::{
    at_most_chars, spec_safe_href, safe_href, LibraryError, PreviewBudget, MAX_PREVIEW_CHARS,
    MAX_PREVIEW_NODES,
};
use crate::models::{PreviewBlock, PreviewCell, PreviewTable, PreviewWarning};
use crate::ocr::eq_literal;
use crate::text::{chars_of, utf8_len, utf8_len_capped};

verus! {

broadcast use vstd::string::group_string_axioms;

/// A JSON value as the preview reads it. A number is kept as the `u64` it
/// denotes, or `None` where it is negative or fractional; an object keeps
/// its members in order.
#[derive(Debug)]
pub enum JsonValue {
    Null,
    Bool(bool),
    Number(Option<u64>),
    Str(String),
    Array(Vec<JsonValue>),
    Object(Vec<(String, JsonValue)>),
}

// ---------------------------------------------------------------------------
// Reading JSON
// ---------------------------------------------------------------------------

/// What `serde_json::from_str` reads from a text, as a `JsonValue`; `None`
/// where the text is not JSON.
pub uninterp spec fn json_of(text: Seq<char>) -> Option<JsonValue>;

/// Reads one JSON text with `serde_json::from_str` into a `serde_json::Value`
/// and hands it back as a `JsonValue`; the contract claims only that the
/// result depends on the text alone.
#[verifier::external_body]
pub(crate) fn parse_json_line(line: &str) -> (r: Option<JsonValue>)
    ensures
        r == json_of(line@),
{
    serde_json::from_str::<serde_json::Value>(line).ok().map(|value| json_from_serde(&value))
}

/// A `serde_json::Value` as a `JsonValue`, variant for variant; a number
/// keeps what `serde_json::Number::as_u64` gives, an object its members in
/// the map's order.
#[verifier::external_body]
fn json_from_serde(value: &serde_json::Value) -> JsonValue {
    match value {
        serde_json::Value::Null => JsonValue::Null,
        serde_json::Value::Bool(b) => JsonValue::Bool(*b),
        serde_json::Value::Number(n) => JsonValue::Number(n.as_u64()),
        serde_json::Value::String(text) => JsonValue::Str(text.clone()),
        serde_json::Value::Array(items) => JsonValue::Array(items.iter().map(json_from_serde).collect()),
        serde_json::Value::Object(members) => JsonValue::Object(
            members.iter().map(|(key, member)| (key.clone(), json_from_serde(member))).collect(),
        ),
    }
}

/// The member of an object with this key, the first one if several.
pub open spec fn member(fields: Seq<(String, JsonValue)>, key: Seq<char>) -> Option<JsonValue>
    decreases fields.len(),
{
    if fields.len() == 0 {
        None
    } else if fields[0].0@ == key {
        Some(fields[0].1)
    } else {
        member(fields.drop_first(), key)
    }
}

pub open spec fn as_str(v: Option<JsonValue>) -> Option<Seq<char>> {
    match v {
        Some(JsonValue::Str(s)) => Some(s@),
        _ => None,
    }
}

pub open spec fn as_u64(v: Option<JsonValue>) -> Option<u64> {
    match v {
        Some(JsonValue::Number(n)) => n,
        _ => None,
    }
}

pub open spec fn as_bool(v: Option<JsonValue>) -> Option<bool> {
    match v {
        Some(JsonValue::Bool(b)) => Some(b),
        _ => None,
    }
}

pub open spec fn as_array(v: Option<JsonValue>) -> Option<Seq<JsonValue>> {
    match v {
        Some(JsonValue::Array(a)) => Some(a@),
        _ => None,
    }
}

pub(crate) fn member_exec<'a>(fields: &'a Vec<(String, JsonValue)>, key: &str) -> (r: Option<&'a JsonValue>)
    ensures
        match member(fields@, key@) {
            Some(v) => r matches Some(x) && *x == v,
            None => r is None,
        },
{
    let k = chars_of(key);
    let mut i: usize = 0;
    assert(fields@.skip(0) =~= fields@);
    while i < fields.len()
        invariant
            i <= fields@.len(),
            k@ == key@,
            member(fields@, key@) == member(fields@.skip(i as int), key@),
        decreases fields@.len() - i,
    {
        proof {
            let rest = fields@.skip(i as int);
            assert(rest.drop_first() =~= fields@.skip(i + 1));
            assert(rest[0] == fields@[i as int]);
        }
        if crate::text::eq_chars(chars_of(fields[i].0.as_str()).as_slice(), k.as_slice()) {
            return Some(&fields[i].1);
        }
        i += 1;
    }
    None
}

pub(crate) fn str_of<'a>(v: Option<&'a JsonValue>) -> (r: Option<&'a str>)
    ensures
        as_str(
            match v {
                Some(x) => Some(*x),
                None => None,
            },
        ) == match r {
            Some(s) => Some(s@),
            None => None::<Seq<char>>,
        },
{
    match v {
        Some(JsonValue::Str(s)) => Some(s.as_str()),
        _ => None,
    }
}

fn u64_of(v: Option<&JsonValue>) -> (r: Option<u64>)
    ensures
        r == as_u64(
            match v {
                Some(x) => Some(*x),
                None => None,
            },
        ),
{
    match v {
        Some(JsonValue::Number(n)) => *n,
        _ => None,
    }
}

// ---------------------------------------------------------------------------
// The budget as values
// ---------------------------------------------------------------------------

pub open spec fn consumed(b: PreviewBudget) -> (bool, PreviewBudget) {
    if b.remaining_nodes == 0 {
        (false, PreviewBudget { truncated: true, ..b })
    } else {
        (true, PreviewBudget { remaining_nodes: (b.remaining_nodes - 1) as usize, ..b })
    }
}

pub open spec fn taken(b: PreviewBudget, s: Seq<char>) -> (Seq<char>, PreviewBudget) {
    let t = at_most_chars(s, b.remaining_chars as int);
    (
        t,
        PreviewBudget {
            remaining_chars: (b.remaining_chars - t.len()) as usize,
            truncated: b.truncated || s.len() > b.remaining_chars,
            ..b
        },
    )
}

pub open spec fn exhausted(b: PreviewBudget) -> bool {
    b.remaining_nodes == 0 || b.remaining_chars == 0
}

pub open spec fn cut(b: PreviewBudget) -> PreviewBudget {
    PreviewBudget { truncated: true, ..b }
}

// ---------------------------------------------------------------------------
// What a normalized preview holds
// ---------------------------------------------------------------------------

pub struct CellView {
    pub text: Seq<char>,
    pub col_span: u32,
    pub row_span: u32,
}

pub struct TableView {
    pub rows: u32,
    pub cols: u32,
    pub has_header: bool,
    pub cells: Seq<Seq<CellView>>,
}

pub struct BlockView {
    pub kind: Seq<char>,
    pub text: Seq<char>,
    pub level: Option<u8>,
    pub page_number: Option<u32>,
    pub href: Option<Seq<char>>,
    pub list_type: Option<Seq<char>>,
    pub children: Seq<BlockView>,
    pub table: Option<TableView>,
}

pub struct WarningView {
    pub code: Seq<char>,
    pub message: Seq<char>,
    pub page: Option<u32>,
}

pub open spec fn cell_view(c: PreviewCell) -> CellView {
    CellView { text: c.text@, col_span: c.col_span, row_span: c.row_span }
}

pub open spec fn row_view(r: Seq<PreviewCell>) -> Seq<CellView> {
    r.map_values(|c: PreviewCell| cell_view(c))
}

pub open spec fn table_view(t: PreviewTable) -> TableView {
    TableView {
        rows: t.rows,
        cols: t.cols,
        has_header: t.has_header,
        cells: t.cells@.map_values(|r: Vec<PreviewCell>| row_view(r@)),
    }
}

pub open spec fn block_view(b: PreviewBlock) -> BlockView
    decreases b,
{
    BlockView {
        kind: b.kind@,
        text: b.text@,
        level: b.level,
        page_number: b.page_number,
        href: crate::discovery::string_option_view(b.href),
        list_type: crate::discovery::string_option_view(b.list_type),
        children: blocks_view(b.children@),
        table: match b.table {
            Some(t) => Some(table_view(t)),
            None => None,
        },
    }
}

pub open spec fn blocks_view(s: Seq<PreviewBlock>) -> Seq<BlockView>
    decreases s,
{
    if s.len() == 0 {
        seq![]
    } else {
        blocks_view(s.drop_last()).push(block_view(s.last()))
    }
}

pub open spec fn warning_view(w: PreviewWarning) -> WarningView {
    WarningView { code: w.code@, message: w.message@, page: w.page }
}

// ---------------------------------------------------------------------------
// Tables
// ---------------------------------------------------------------------------

pub const MAX_TABLE_ROWS: usize = 2000;

pub const MAX_TABLE_COLS: usize = 200;

pub open spec fn clamp(v: u64, lo: u64, hi: u64) -> u64 {
    if v < lo {
        lo
    } else if v > hi {
        hi
    } else {
        v
    }
}

pub open spec fn spec_cell(fields: Seq<(String, JsonValue)>, b: PreviewBudget) -> (CellView, PreviewBudget) {
    let text = match as_str(member(fields, "text"@)) {
        Some(s) => s,
        None => seq![],
    };
    let (t, b1) = taken(b, text);
    let col = match as_u64(member(fields, "colSpan"@)) {
        Some(n) => n,
        None => 1,
    };
    let row = match as_u64(member(fields, "rowSpan"@)) {
        Some(n) => n,
        None => 1,
    };
    (
        CellView {
            text: t,
            col_span: clamp(col, 1, MAX_TABLE_COLS as u64) as u32,
            row_span: clamp(row, 1, MAX_TABLE_ROWS as u64) as u32,
        },
        b1,
    )
}

/// The cells of one row: each takes a node; a row stops where the nodes or
/// characters run out.
pub open spec fn spec_cells(cells: Seq<JsonValue>, b: PreviewBudget) -> (Seq<CellView>, PreviewBudget)
    decreases cells.len(),
{
    if cells.len() == 0 {
        (seq![], b)
    } else {
        let (ok, b1) = consumed(b);
        if !ok {
            (seq![], b1)
        } else {
            match cells[0] {
                JsonValue::Object(o) => {
                    let (c, b2) = spec_cell(o@, b1);
                    if exhausted(b2) {
                        (seq![c], b2)
                    } else {
                        let (rest, b3) = spec_cells(cells.drop_first(), b2);
                        (seq![c] + rest, b3)
                    }
                },
                _ => spec_cells(cells.drop_first(), b1),
            }
        }
    }
}

pub open spec fn first_cols(row: Seq<JsonValue>) -> Seq<JsonValue> {
    if row.len() > MAX_TABLE_COLS {
        row.take(MAX_TABLE_COLS as int)
    } else {
        row
    }
}

/// The rows of a table: rows that are not arrays are left out, a row wider
/// than 200 cells marks the preview as cut, and the rows stop where the
/// budget runs out.
pub open spec fn spec_rows(rows: Seq<JsonValue>, b: PreviewBudget) -> (Seq<Seq<CellView>>, PreviewBudget)
    decreases rows.len(),
{
    if rows.len() == 0 {
        (seq![], b)
    } else {
        match rows[0] {
            JsonValue::Array(row) => {
                let b1 = if row@.len() > MAX_TABLE_COLS {
                    cut(b)
                } else {
                    b
                };
                let (cells, b2) = spec_cells(first_cols(row@), b1);
                if exhausted(b2) {
                    (seq![cells], b2)
                } else {
                    let (rest, b3) = spec_rows(rows.drop_first(), b2);
                    (seq![cells] + rest, b3)
                }
            },
            _ => spec_rows(rows.drop_first(), b),
        }
    }
}

pub open spec fn max_len(rows: Seq<Seq<CellView>>) -> nat
    decreases rows.len(),
{
    if rows.len() == 0 {
        0
    } else {
        let m = max_len(rows.drop_last());
        if rows.last().len() > m {
            rows.last().len()
        } else {
            m
        }
    }
}

pub open spec fn first_rows(rows: Seq<JsonValue>) -> Seq<JsonValue> {
    if rows.len() > MAX_TABLE_ROWS {
        rows.take(MAX_TABLE_ROWS as int)
    } else {
        rows
    }
}

/// A table: its `cells` must be an array; at most 2000 rows are read, and
/// having read fewer rows than it has marks the preview as cut.
pub open spec fn spec_table(v: JsonValue, b: PreviewBudget) -> (Option<TableView>, PreviewBudget) {
    match v {
        JsonValue::Object(o) => match as_array(member(o@, "cells"@)) {
            Some(rows) => {
                let (cells, b1) = spec_rows(first_rows(rows), b);
                let b2 = if rows.len() > cells.len() {
                    cut(b1)
                } else {
                    b1
                };
                (
                    Some(
                        TableView {
                            rows: cells.len() as u32,
                            cols: max_len(cells) as u32,
                            has_header: match as_bool(member(o@, "hasHeader"@)) {
                                Some(h) => h,
                                None => false,
                            },
                            cells,
                        },
                    ),
                    b2,
                )
            },
            None => (None, b),
        },
        _ => (None, b),
    }
}

pub open spec fn then_rest<A>(acc: Seq<A>, rest: (Seq<A>, PreviewBudget)) -> (Seq<A>, PreviewBudget) {
    (acc + rest.0, rest.1)
}

fn consume(budget: &mut PreviewBudget) -> (r: bool)
    ensures
        (r, *final(budget)) == consumed(*old(budget)),
{
    let ok = budget.consume_node();
    proof {
        if ok {
            assert(*budget == PreviewBudget { remaining_nodes: (old(budget).remaining_nodes - 1) as usize, ..*old(budget) });
        } else {
            assert(*budget == PreviewBudget { truncated: true, ..*old(budget) });
        }
    }
    ok
}

fn take(budget: &mut PreviewBudget, s: &str) -> (r: String)
    ensures
        (r@, *final(budget)) == taken(*old(budget), s@),
{
    let t = budget.take_text(s);
    proof {
        assert(*budget == taken(*old(budget), s@).1);
    }
    t
}

fn normalize_cells(row: &Vec<JsonValue>, limit: usize, budget: &mut PreviewBudget) -> (r: Vec<
    PreviewCell,
>)
    requires
        limit <= row@.len(),
    ensures
        (row_view(r@), *final(budget)) == spec_cells(row@.take(limit as int), *old(budget)),
        r@.len() <= limit,
{
    let ghost cs = row@.take(limit as int);
    let ghost b0 = *budget;
    let mut out: Vec<PreviewCell> = Vec::new();
    let mut i: usize = 0;
    assert(cs.skip(0) =~= cs);
    while i < limit
        invariant
            i <= limit,
            limit <= row@.len(),
            cs == row@.take(limit as int),
            out@.len() <= i,
            b0 == *old(budget),
            spec_cells(cs, b0) == then_rest(row_view(out@), spec_cells(cs.skip(i as int), *budget)),
        decreases limit - i,
    {
        let ghost rest = cs.skip(i as int);
        let ghost bi = *budget;
        assert(rest[0] == row@[i as int]);
        assert(rest.drop_first() =~= cs.skip(i + 1));
        if !consume(budget) {
            proof {
                assert(rest.len() > 0);
                assert(spec_cells(rest, bi) == (Seq::<CellView>::empty(), *budget));
                assert(row_view(out@) + Seq::<CellView>::empty() =~= row_view(out@));
                assert(spec_cells(cs, b0) == then_rest(row_view(out@), spec_cells(rest, bi)));
                assert(then_rest(row_view(out@), spec_cells(rest, bi)) == (row_view(out@), *budget));
            }
            return out;
        }
        match &row[i] {
            JsonValue::Object(o) => {
                proof {
                    reveal_strlit("");
                }
                let text = match str_of(member_exec(o, "text")) {
                    Some(t) => take(budget, t),
                    None => take(budget, ""),
                };
                proof {
                    reveal_strlit("");
                }
                let col = match u64_of(member_exec(o, "colSpan")) {
                    Some(n) => n,
                    None => 1,
                };
                let rspan = match u64_of(member_exec(o, "rowSpan")) {
                    Some(n) => n,
                    None => 1,
                };
                let col_span: u32 = if col < 1 {
                    1
                } else if col > 200 {
                    200
                } else {
                    col as u32
                };
                let row_span: u32 = if rspan < 1 {
                    1
                } else if rspan > 2000 {
                    2000
                } else {
                    rspan as u32
                };
                let cell = PreviewCell { text, col_span, row_span };
                let ghost before = out@;
                out.push(cell);
                proof {
                    assert(row_view(out@) =~= row_view(before) + seq![cell_view(cell)]);
                    let sc = spec_cell(o@, consumed(bi).1).0;
                    assert(sc.text == cell.text@);
                    assert(sc.col_span == cell.col_span);
                    assert(sc.row_span == cell.row_span);
                    assert(spec_cell(o@, consumed(bi).1).0 == cell_view(cell));
                    assert(spec_cell(o@, consumed(bi).1).1 == *budget);
                    assert(rest.len() > 0);
                }
                if budget.exhausted() {
                    proof {
                        assert(spec_cells(rest, bi) == (seq![cell_view(cell)], *budget));
                    }
                    return out;
                }
                proof {
                    assert(row_view(before) + (seq![cell_view(cell)] + spec_cells(cs.skip(i + 1), *budget).0)
                        =~= row_view(out@) + spec_cells(cs.skip(i + 1), *budget).0);
                }
            },
            _ => {},
        }
        i += 1;
    }
    assert(cs.skip(limit as int) =~= Seq::<JsonValue>::empty());
    assert(row_view(out@) + seq![] =~= row_view(out@));
    out
}

pub open spec fn rows_view(rows: Seq<Vec<PreviewCell>>) -> Seq<Seq<CellView>> {
    rows.map_values(|r: Vec<PreviewCell>| row_view(r@))
}

fn normalize_rows(rows: &Vec<JsonValue>, limit: usize, budget: &mut PreviewBudget) -> (r: Vec<
    Vec<PreviewCell>,
>)
    requires
        limit <= rows@.len(),
    ensures
        (rows_view(r@), *final(budget)) == spec_rows(rows@.take(limit as int), *old(budget)),
        r@.len() <= limit,
        forall|k: int| 0 <= k < r@.len() ==> #[trigger] r@[k]@.len() <= MAX_TABLE_COLS,
{
    let ghost rs = rows@.take(limit as int);
    let ghost b0 = *budget;
    let mut out: Vec<Vec<PreviewCell>> = Vec::new();
    let mut i: usize = 0;
    assert(rs.skip(0) =~= rs);
    while i < limit
        invariant
            i <= limit,
            limit <= rows@.len(),
            rs == rows@.take(limit as int),
            out@.len() <= i,
            b0 == *old(budget),
            forall|k: int| 0 <= k < out@.len() ==> #[trigger] out@[k]@.len() <= MAX_TABLE_COLS,
            spec_rows(rs, b0) == then_rest(rows_view(out@), spec_rows(rs.skip(i as int), *budget)),
        decreases limit - i,
    {
        let ghost rest = rs.skip(i as int);
        let ghost bi = *budget;
        assert(rest[0] == rows@[i as int]);
        assert(rest.drop_first() =~= rs.skip(i + 1));
        match &rows[i] {
            JsonValue::Array(row) => {
                if row.len() > MAX_TABLE_COLS {
                    budget.truncated = true;
                }
                let ghost b1 = *budget;
                let width = if row.len() > MAX_TABLE_COLS {
                    MAX_TABLE_COLS
                } else {
                    row.len()
                };
                proof {
                    if row@.len() > MAX_TABLE_COLS {
                        assert(b1 == cut(bi));
                    } else {
                        assert(b1 == bi);
                        assert(row@.take(width as int) =~= row@);
                    }
                    assert(row@.take(width as int) == first_cols(row@));
                }
                let cells = normalize_cells(row, width, budget);
                let ghost before = out@;
                let ghost cv = row_view(cells@);
                out.push(cells);
                proof {
                    assert(rows_view(out@) =~= rows_view(before) + seq![cv]);
                    assert(rest.len() > 0);
                }
                if budget.exhausted() {
                    proof {
                        assert(spec_rows(rest, bi) == (seq![cv], *budget));
                        assert(then_rest(rows_view(before), spec_rows(rest, bi)) == (rows_view(out@), *budget));
                    }
                    return out;
                }
                proof {
                    assert(rows_view(before) + (seq![cv] + spec_rows(rs.skip(i + 1), *budget).0)
                        =~= rows_view(out@) + spec_rows(rs.skip(i + 1), *budget).0);
                }
            },
            _ => {},
        }
        i += 1;
    }
    assert(rs.skip(limit as int) =~= Seq::<JsonValue>::empty());
    assert(rows_view(out@) + Seq::<Seq<CellView>>::empty() =~= rows_view(out@));
    out
}

/// Normalizes a table, or gives nothing where its shape is wrong.
pub fn normalize_table(value: &JsonValue, budget: &mut PreviewBudget) -> (r: Option<PreviewTable>)
    ensures
        (match r {
            Some(t) => Some(table_view(t)),
            None => None,
        }, *final(budget)) == spec_table(*value, *old(budget)),
{
    let o = match value {
        JsonValue::Object(o) => o,
        _ => {
            return None;
        },
    };
    let rows = match member_exec(o, "cells") {
        Some(JsonValue::Array(rows)) => rows,
        _ => {
            return None;
        },
    };
    let limit = if rows.len() > MAX_TABLE_ROWS {
        MAX_TABLE_ROWS
    } else {
        rows.len()
    };
    proof {
        if rows@.len() <= MAX_TABLE_ROWS {
            assert(rows@.take(limit as int) =~= rows@);
        }
        assert(rows@.take(limit as int) == first_rows(rows@));
    }
    let cells = normalize_rows(rows, limit, budget);
    if rows.len() > cells.len() {
        budget.truncated = true;
    }
    let mut cols: usize = 0;
    let mut k: usize = 0;
    while k < cells.len()
        invariant
            k <= cells@.len(),
            forall|j: int| 0 <= j < cells@.len() ==> #[trigger] cells@[j]@.len() <= MAX_TABLE_COLS,
            cols == max_len(rows_view(cells@.take(k as int))),
            cols <= MAX_TABLE_COLS,
        decreases cells@.len() - k,
    {
        proof {
            assert(rows_view(cells@.take(k + 1)) =~= rows_view(cells@.take(k as int)).push(
                row_view(cells@[k as int]@),
            ));
            assert(rows_view(cells@.take(k + 1)).drop_last() =~= rows_view(cells@.take(k as int)));
        }
        if cells[k].len() > cols {
            cols = cells[k].len();
        }
        k += 1;
    }
    assert(cells@.take(cells@.len() as int) =~= cells@);
    let has_header = match member_exec(o, "hasHeader") {
        Some(JsonValue::Bool(h)) => *h,
        _ => false,
    };
    let row_count = cells.len();
    Some(PreviewTable { rows: row_count as u32, cols: cols as u32, has_header, cells })
}

// ---------------------------------------------------------------------------
// Blocks
// ---------------------------------------------------------------------------

pub const MAX_BLOCK_DEPTH: usize = 16;

pub open spec fn block_kind_ok(kind: Seq<char>) -> bool {
    ||| kind == "paragraph"@
    ||| kind == "heading"@
    ||| kind == "list"@
    ||| kind == "table"@
    ||| kind == "image"@
    ||| kind == "separator"@
}

pub open spec fn spec_level(fields: Seq<(String, JsonValue)>) -> Option<u8> {
    match as_u64(member(fields, "level"@)) {
        Some(l) => Some(clamp(l, 1, 6) as u8),
        None => None,
    }
}

pub open spec fn spec_page(fields: Seq<(String, JsonValue)>) -> Option<u32> {
    match as_u64(member(fields, "pageNumber"@)) {
        Some(p) => if p <= u32::MAX && p > 0 {
            Some(p as u32)
        } else {
            None
        },
        None => None,
    }
}

pub open spec fn spec_list_type(fields: Seq<(String, JsonValue)>) -> Option<Seq<char>> {
    match as_str(member(fields, "listType"@)) {
        Some(l) => if l == "ordered"@ || l == "unordered"@ {
            Some(l)
        } else {
            None
        },
        None => None,
    }
}

/// One block: deeper than 16 levels it is cut; otherwise it takes a node,
/// must be an object of a known type, and keeps its text, level, page, safe
/// link, list type, children and table within the budget.
pub open spec fn spec_block(v: JsonValue, depth: int, b: PreviewBudget) -> (Option<BlockView>, PreviewBudget)
    decreases 17 - depth, 0int,
{
    if depth > MAX_BLOCK_DEPTH {
        (None, cut(b))
    } else {
        let (ok, b1) = consumed(b);
        if !ok {
            (None, b1)
        } else {
            match v {
                JsonValue::Object(o) => {
                    let fields = o@;
                    match as_str(member(fields, "type"@)) {
                        None => (None, b1),
                        Some(kind) => if !block_kind_ok(kind) {
                            (None, b1)
                        } else {
                            let text_in = match as_str(member(fields, "text"@)) {
                                Some(t) => t,
                                None => seq![],
                            };
                            let (text, b2) = taken(b1, text_in);
                            let (href, b3) = match as_str(member(fields, "href"@)) {
                                Some(h) => match spec_safe_href(h) {
                                    Some(safe) => {
                                        let (t, bt) = taken(b2, safe);
                                        (Some(t), bt)
                                    },
                                    None => (None, b2),
                                },
                                None => (None, b2),
                            };
                            let (children, b4) = match member(fields, "children"@) {
                                Some(JsonValue::Array(a)) => spec_children(a@, depth + 1, b3),
                                _ => (seq![], b3),
                            };
                            let (table, b5) = match member(fields, "table"@) {
                                Some(t) => spec_table(t, b4),
                                None => (None, b4),
                            };
                            (
                                Some(
                                    BlockView {
                                        kind,
                                        text,
                                        level: spec_level(fields),
                                        page_number: spec_page(fields),
                                        href,
                                        list_type: spec_list_type(fields),
                                        children,
                                        table,
                                    },
                                ),
                                b5,
                            )
                        },
                    }
                },
                _ => (None, b1),
            }
        }
    }
}

/// A list of blocks at one depth: each kept block is added, and the list
/// stops, marked as cut, once the budget runs out.
pub open spec fn spec_children(items: Seq<JsonValue>, depth: int, b: PreviewBudget) -> (
    Seq<BlockView>,
    PreviewBudget,
)
    decreases 17 - depth, items.len() + 1,
{
    if items.len() == 0 {
        (seq![], b)
    } else {
        let (block, b1) = spec_block(items[0], depth, b);
        let kept: Seq<BlockView> = match block {
            Some(x) => seq![x],
            None => seq![],
        };
        if exhausted(b1) {
            (kept, cut(b1))
        } else {
            let (rest, b2) = spec_children(items.drop_first(), depth, b1);
            (kept + rest, b2)
        }
    }
}

pub open spec fn opt_block_view(b: Option<PreviewBlock>) -> Option<BlockView> {
    match b {
        Some(x) => Some(block_view(x)),
        None => None,
    }
}

proof fn lemma_blocks_view_push(s: Seq<PreviewBlock>, x: PreviewBlock)
    ensures
        blocks_view(s.push(x)) == blocks_view(s).push(block_view(x)),
{
    assert(s.push(x).drop_last() =~= s);
}

fn normalize_children(items: &Vec<JsonValue>, depth: usize, budget: &mut PreviewBudget) -> (r: Vec<
    PreviewBlock,
>)
    requires
        depth <= MAX_BLOCK_DEPTH + 1,
    ensures
        (blocks_view(r@), *final(budget)) == spec_children(items@, depth as int, *old(budget)),
    decreases 17 - depth, items@.len() + 1,
{
    let ghost b0 = *budget;
    let mut out: Vec<PreviewBlock> = Vec::new();
    let mut i: usize = 0;
    assert(items@.skip(0) =~= items@);
    while i < items.len()
        invariant
            i <= items@.len(),
            depth <= MAX_BLOCK_DEPTH + 1,
            b0 == *old(budget),
            spec_children(items@, depth as int, b0) == then_rest(
                blocks_view(out@),
                spec_children(items@.skip(i as int), depth as int, *budget),
            ),
        decreases items@.len() - i,
    {
        let ghost rest = items@.skip(i as int);
        let ghost bi = *budget;
        assert(rest[0] == items@[i as int]);
        assert(rest.drop_first() =~= items@.skip(i + 1));
        let block = normalize_block(&items[i], depth, budget);
        let ghost before = out@;
        let ghost kept: Seq<BlockView> = match opt_block_view(block) {
            Some(x) => seq![x],
            None => seq![],
        };
        match block {
            Some(b) => {
                proof {
                    lemma_blocks_view_push(before, b);
                }
                out.push(b);
            },
            None => {},
        }
        proof {
            assert(blocks_view(out@) =~= blocks_view(before) + kept);
        }
        if budget.exhausted() {
            budget.truncated = true;
            proof {
                assert(spec_children(rest, depth as int, bi) == (kept, *budget));
            }
            return out;
        }
        proof {
            assert(blocks_view(before) + (kept + spec_children(items@.skip(i + 1), depth as int, *budget).0)
                =~= blocks_view(out@) + spec_children(items@.skip(i + 1), depth as int, *budget).0);
        }
        i += 1;
    }
    assert(items@.skip(items@.len() as int) =~= Seq::<JsonValue>::empty());
    assert(blocks_view(out@) + Seq::<BlockView>::empty() =~= blocks_view(out@));
    out
}

/// Normalizes one block at a depth.
pub fn normalize_block(value: &JsonValue, depth: usize, budget: &mut PreviewBudget) -> (r: Option<
    PreviewBlock,
>)
    requires
        depth <= MAX_BLOCK_DEPTH + 1,
    ensures
        (opt_block_view(r), *final(budget)) == spec_block(*value, depth as int, *old(budget)),
    decreases 17 - depth, 0int,
{
    if depth > MAX_BLOCK_DEPTH {
        budget.truncated = true;
        return None;
    }
    if !consume(budget) {
        return None;
    }
    let o = match value {
        JsonValue::Object(o) => o,
        _ => {
            return None;
        },
    };
    let kind = match str_of(member_exec(o, "type")) {
        Some(k) => k,
        None => {
            return None;
        },
    };
    let kc = chars_of(kind);
    if !(eq_literal(kc.as_slice(), "paragraph") || eq_literal(kc.as_slice(), "heading")
        || eq_literal(kc.as_slice(), "list") || eq_literal(kc.as_slice(), "table") || eq_literal(
        kc.as_slice(),
        "image",
    ) || eq_literal(kc.as_slice(), "separator")) {
        return None;
    }
    proof {
        reveal_strlit("");
    }
    let ghost b1 = *budget;
    let text = match str_of(member_exec(o, "text")) {
        Some(t) => take(budget, t),
        None => take(budget, ""),
    };
    let ghost b2 = *budget;
    let level: Option<u8> = match u64_of(member_exec(o, "level")) {
        Some(l) => Some(
            if l < 1 {
                1u8
            } else if l > 6 {
                6u8
            } else {
                l as u8
            },
        ),
        None => None,
    };
    let page_number: Option<u32> = match u64_of(member_exec(o, "pageNumber")) {
        Some(p) => if p <= 0xffff_ffff && p > 0 {
            Some(p as u32)
        } else {
            None
        },
        None => None,
    };
    let href: Option<String> = match str_of(member_exec(o, "href")) {
        Some(h) => match safe_href(h) {
            Some(safe) => Some(take(budget, safe.as_str())),
            None => None,
        },
        None => None,
    };
    let ghost b3 = *budget;
    let list_type: Option<String> = match str_of(member_exec(o, "listType")) {
        Some(l) => {
            let lc = chars_of(l);
            if eq_literal(lc.as_slice(), "ordered") || eq_literal(lc.as_slice(), "unordered") {
                Some(l.to_string())
            } else {
                None
            }
        },
        None => None,
    };
    let children = match member_exec(o, "children") {
        Some(JsonValue::Array(a)) => normalize_children(a, depth + 1, budget),
        _ => Vec::new(),
    };
    let ghost b4 = *budget;
    let table = match member_exec(o, "table") {
        Some(t) => normalize_table(t, budget),
        None => None,
    };
    let ghost fields = o@;
    proof {
        let text_in = match as_str(member(fields, "text"@)) {
            Some(t) => t,
            None => seq![],
        };
        assert((text@, b2) == taken(b1, text_in));
        let sh = match as_str(member(fields, "href"@)) {
            Some(h) => match spec_safe_href(h) {
                Some(safe) => {
                    let (t, bt) = taken(b2, safe);
                    (Some(t), bt)
                },
                None => (None, b2),
            },
            None => (None, b2),
        };
        assert(sh == (crate::discovery::string_option_view(href), b3));
        let sc = match member(fields, "children"@) {
            Some(JsonValue::Array(a)) => spec_children(a@, depth + 1, b3),
            _ => (seq![], b3),
        };
        if !(member(fields, "children"@) matches Some(JsonValue::Array(_))) {
            assert(blocks_view(children@) =~= Seq::<BlockView>::empty());
        }
        assert(sc == (blocks_view(children@), b4));
        let st = match member(fields, "table"@) {
            Some(t) => spec_table(t, b4),
            None => (None, b4),
        };
        assert(st == (match table {
            Some(t) => Some(table_view(t)),
            None => None,
        }, *budget));
        assert(spec_level(fields) == level);
        assert(spec_page(fields) == page_number);
        assert(spec_list_type(fields) == crate::discovery::string_option_view(list_type));
    }
    let block = PreviewBlock {
        kind: kind.to_string(),
        text,
        level,
        page_number,
        href,
        list_type,
        children,
        table,
    };
    proof {
        assert(blocks_view(Seq::<PreviewBlock>::empty()) =~= Seq::<BlockView>::empty());
    }
    Some(block)
}

/// Normalizes the blocks of a preview: they must form an array.
pub fn normalize_blocks(value: &JsonValue, budget: &mut PreviewBudget) -> (r: Result<
    Vec<PreviewBlock>,
    crate::library::LibraryError,
>)
    ensures
        match *value {
            JsonValue::Array(a) => r matches Ok(blocks) && (blocks_view(blocks@), *final(budget))
                == spec_children(a@, 0, *old(budget)),
            _ => r == Err::<Vec<PreviewBlock>, crate::library::LibraryError>(
                crate::library::LibraryError::InvalidPreviewData,
            ) && *final(budget) == *old(budget),
        },
{
    match value {
        JsonValue::Array(a) => Ok(normalize_children(a, 0, budget)),
        _ => Err(crate::library::LibraryError::InvalidPreviewData),
    }
}

// ---------------------------------------------------------------------------
// Warnings
// ---------------------------------------------------------------------------

pub open spec fn spec_warning_page(fields: Seq<(String, JsonValue)>) -> Option<u32> {
    match as_u64(member(fields, "page"@)) {
        Some(p) => if p <= u32::MAX {
            Some(p as u32)
        } else {
            None
        },
        None => None,
    }
}

/// The warnings: each takes a node and needs a code and a message; they stop
/// where the budget runs out.
pub open spec fn spec_warnings(items: Seq<JsonValue>, b: PreviewBudget) -> (Seq<WarningView>, PreviewBudget)
    decreases items.len(),
{
    if items.len() == 0 {
        (seq![], b)
    } else {
        let (ok, b1) = consumed(b);
        if !ok {
            (seq![], b1)
        } else {
            match items[0] {
                JsonValue::Object(o) => match (
                    as_str(member(o@, "code"@)),
                    as_str(member(o@, "message"@)),
                ) {
                    (Some(code), Some(message)) => {
                        let (c, b2) = taken(b1, code);
                        let (m, b3) = taken(b2, message);
                        let w = WarningView { code: c, message: m, page: spec_warning_page(o@) };
                        if exhausted(b3) {
                            (seq![w], b3)
                        } else {
                            let (rest, b4) = spec_warnings(items.drop_first(), b3);
                            (seq![w] + rest, b4)
                        }
                    },
                    _ => spec_warnings(items.drop_first(), b1),
                },
                _ => spec_warnings(items.drop_first(), b1),
            }
        }
    }
}

pub open spec fn warnings_view(v: Seq<PreviewWarning>) -> Seq<WarningView> {
    v.map_values(|w: PreviewWarning| warning_view(w))
}

fn collect_warnings(items: &Vec<JsonValue>, budget: &mut PreviewBudget) -> (r: Vec<PreviewWarning>)
    ensures
        (warnings_view(r@), *final(budget)) == spec_warnings(items@, *old(budget)),
        r@.len() <= items@.len(),
{
    let ghost b0 = *budget;
    let mut out: Vec<PreviewWarning> = Vec::new();
    let mut i: usize = 0;
    assert(items@.skip(0) =~= items@);
    while i < items.len()
        invariant
            i <= items@.len(),
            out@.len() <= i,
            b0 == *old(budget),
            spec_warnings(items@, b0) == then_rest(
                warnings_view(out@),
                spec_warnings(items@.skip(i as int), *budget),
            ),
        decreases items@.len() - i,
    {
        let ghost rest = items@.skip(i as int);
        let ghost bi = *budget;
        assert(rest[0] == items@[i as int]);
        assert(rest.drop_first() =~= items@.skip(i + 1));
        if !consume(budget) {
            proof {
                assert(spec_warnings(rest, bi) == (Seq::<WarningView>::empty(), *budget));
                assert(warnings_view(out@) + Seq::<WarningView>::empty() =~= warnings_view(out@));
            }
            return out;
        }
        match &items[i] {
            JsonValue::Object(o) => {
                match (str_of(member_exec(o, "code")), str_of(member_exec(o, "message"))) {
                    (Some(code), Some(message)) => {
                        let ghost b1 = *budget;
                        let c = take(budget, code);
                        let ghost b2 = *budget;
                        let m = take(budget, message);
                        let page: Option<u32> = match u64_of(member_exec(o, "page")) {
                            Some(p) => if p <= 0xffff_ffff {
                                Some(p as u32)
                            } else {
                                None
                            },
                            None => None,
                        };
                        let w = PreviewWarning { code: c, message: m, page };
                        let ghost before = out@;
                        out.push(w);
                        proof {
                            assert(warnings_view(out@) =~= warnings_view(before) + seq![warning_view(w)]);
                            assert(spec_warning_page(o@) == page);
                        }
                        if budget.exhausted() {
                            proof {
                                assert(spec_warnings(rest, bi) == (seq![warning_view(w)], *budget));
                            }
                            return out;
                        }
                        proof {
                            assert(warnings_view(before) + (seq![warning_view(w)] + spec_warnings(items@.skip(i + 1), *budget).0)
                                =~= warnings_view(out@) + spec_warnings(items@.skip(i + 1), *budget).0);
                        }
                    },
                    _ => {},
                }
            },
            _ => {},
        }
        i += 1;
    }
    assert(items@.skip(items@.len() as int) =~= Seq::<JsonValue>::empty());
    assert(warnings_view(out@) + Seq::<WarningView>::empty() =~= warnings_view(out@));
    out
}

/// Normalizes the warnings of a preview: they must form an array, and
/// keeping fewer than were stored marks the preview as cut.
pub fn normalize_warnings(value: &JsonValue, budget: &mut PreviewBudget) -> (r: Result<
    Vec<PreviewWarning>,
    crate::library::LibraryError,
>)
    ensures
        match *value {
            JsonValue::Array(a) => r matches Ok(ws) && ({
                let (sw, b1) = spec_warnings(a@, *old(budget));
                &&& warnings_view(ws@) == sw
                &&& *final(budget) == if sw.len() < a@.len() {
                    cut(b1)
                } else {
                    b1
                }
            }),
            _ => r == Err::<Vec<PreviewWarning>, crate::library::LibraryError>(
                crate::library::LibraryError::InvalidPreviewData,
            ) && *final(budget) == *old(budget),
        },
{
    match value {
        JsonValue::Array(a) => {
            let ws = collect_warnings(a, budget);
            if ws.len() < a.len() {
                budget.truncated = true;
            }
            Ok(ws)
        },
        _ => Err(crate::library::LibraryError::InvalidPreviewData),
    }
}

// ---------------------------------------------------------------------------
// A whole preview
// ---------------------------------------------------------------------------

pub const MAX_STORED_FIELD_BYTES: usize = 8388608;

pub const MAX_STORED_PREVIEW_BYTES: usize = 12582912;

/// A stored preview is refused when one of its fields is over 8 MiB or the
/// three together are over 12 MiB (sizes in bytes).
pub fn check_stored_sizes(markdown: usize, blocks: usize, warnings: usize) -> (r: Result<
    (),
    crate::library::LibraryError,
>)
    ensures
        (markdown > MAX_STORED_FIELD_BYTES || blocks > MAX_STORED_FIELD_BYTES || warnings
            > MAX_STORED_FIELD_BYTES || markdown + blocks + warnings > MAX_STORED_PREVIEW_BYTES)
            ==> r == Err::<(), crate::library::LibraryError>(
            crate::library::LibraryError::PreviewTooLarge,
        ),
        !(markdown > MAX_STORED_FIELD_BYTES || blocks > MAX_STORED_FIELD_BYTES || warnings
            > MAX_STORED_FIELD_BYTES || markdown + blocks + warnings > MAX_STORED_PREVIEW_BYTES)
            ==> r is Ok,
{
    if markdown > MAX_STORED_FIELD_BYTES || blocks > MAX_STORED_FIELD_BYTES || warnings
        > MAX_STORED_FIELD_BYTES {
        return Err(crate::library::LibraryError::PreviewTooLarge);
    }
    if markdown + blocks + warnings > MAX_STORED_PREVIEW_BYTES {
        return Err(crate::library::LibraryError::PreviewTooLarge);
    }
    Ok(())
}

/// A stored preview over the limits: one of its fields over 8 MiB, or the
/// three together over 12 MiB (sizes in UTF-8 bytes).
pub open spec fn stored_too_large(markdown: Seq<char>, blocks: Seq<char>, warnings: Seq<char>) -> bool {
    utf8_len(markdown) > MAX_STORED_FIELD_BYTES || utf8_len(blocks) > MAX_STORED_FIELD_BYTES
        || utf8_len(warnings) > MAX_STORED_FIELD_BYTES || utf8_len(markdown) + utf8_len(blocks)
        + utf8_len(warnings) > MAX_STORED_PREVIEW_BYTES
}

/// The budget of a preview before anything was taken.
pub open spec fn fresh_budget() -> PreviewBudget {
    PreviewBudget {
        remaining_nodes: MAX_PREVIEW_NODES,
        remaining_chars: MAX_PREVIEW_CHARS,
        truncated: false,
    }
}

/// What a stored preview shows: its markdown, blocks and warnings within
/// one budget, and whether anything was cut.
pub struct PreviewContent {
    pub markdown: String,
    pub blocks: Vec<PreviewBlock>,
    pub warnings: Vec<PreviewWarning>,
    pub truncated: bool,
}

/// A stored preview read back: refused when too large, invalid unless the
/// blocks and the warnings are each a JSON array; otherwise the markdown,
/// then the blocks, then the warnings take from one budget.
pub open spec fn spec_preview_content(markdown: Seq<char>, blocks: Seq<char>, warnings: Seq<char>) -> Result<
    (Seq<char>, Seq<BlockView>, Seq<WarningView>, bool),
    LibraryError,
> {
    if stored_too_large(markdown, blocks, warnings) {
        Err(LibraryError::PreviewTooLarge)
    } else {
        match (json_of(blocks), json_of(warnings)) {
            (Some(JsonValue::Array(bs)), Some(JsonValue::Array(ws))) => {
                let (md, b1) = taken(fresh_budget(), markdown);
                let (shown, b2) = spec_children(bs@, 0, b1);
                let (kept, b3) = spec_warnings(ws@, b2);
                let b4 = if kept.len() < ws@.len() {
                    cut(b3)
                } else {
                    b3
                };
                Ok((md, shown, kept, b4.truncated))
            },
            _ => Err(LibraryError::InvalidPreviewData),
        }
    }
}

/// Reads back a stored preview from its markdown and its blocks and warnings
/// as JSON text.
pub fn preview_content(markdown: &str, blocks_json: &str, warnings_json: &str) -> (r: Result<
    PreviewContent,
    LibraryError,
>)
    ensures
        match spec_preview_content(markdown@, blocks_json@, warnings_json@) {
            Ok((md, shown, kept, cut_short)) => r matches Ok(c) && c.markdown@ == md && blocks_view(
                c.blocks@,
            ) == shown && warnings_view(c.warnings@) == kept && c.truncated == cut_short,
            Err(e) => r matches Err(f) && f == e,
        },
{
    let cap = MAX_STORED_FIELD_BYTES + 1;
    let m = utf8_len_capped(chars_of(markdown).as_slice(), cap);
    let b = utf8_len_capped(chars_of(blocks_json).as_slice(), cap);
    let w = utf8_len_capped(chars_of(warnings_json).as_slice(), cap);
    check_stored_sizes(m, b, w)?;
    let blocks_value = match parse_json_line(blocks_json) {
        Some(v) => v,
        None => return Err(LibraryError::InvalidPreviewData),
    };
    let warnings_value = match parse_json_line(warnings_json) {
        Some(v) => v,
        None => return Err(LibraryError::InvalidPreviewData),
    };
    let is_array = match (&blocks_value, &warnings_value) {
        (JsonValue::Array(_), JsonValue::Array(_)) => true,
        _ => false,
    };
    if !is_array {
        return Err(LibraryError::InvalidPreviewData);
    }
    let mut budget = PreviewBudget::new();
    let md = budget.take_text(markdown);
    let blocks = normalize_blocks(&blocks_value, &mut budget)?;
    let warnings = normalize_warnings(&warnings_value, &mut budget)?;
    let truncated = budget.truncated;
    Ok(PreviewContent { markdown: md, blocks, warnings, truncated })
}

// ---------------------------------------------------------------------------
// Laws
// ---------------------------------------------------------------------------

/// Taking text never hands out more characters than are left, and what is
/// left only shrinks.
pub proof fn law_taking_text_stays_within_budget(b: PreviewBudget, s: Seq<char>)
    ensures
        taken(b, s).0.len() <= b.remaining_chars,
        taken(b, s).1.remaining_chars == b.remaining_chars - taken(b, s).0.len(),
        taken(b, s).1.remaining_nodes == b.remaining_nodes,
        b.truncated ==> taken(b, s).1.truncated,
{
}

/// A normalized table never has more rows than it may hold.
pub proof fn law_table_rows_are_bounded(v: JsonValue, b: PreviewBudget)
    ensures
        spec_table(v, b).0 matches Some(t) ==> t.cells.len() <= MAX_TABLE_ROWS,
{
    match v {
        JsonValue::Object(o) => match as_array(member(o@, "cells"@)) {
            Some(rows) => {
                lemma_rows_len(first_rows(rows), b);
            },
            None => {},
        },
        _ => {},
    }
}

proof fn lemma_rows_len(rows: Seq<JsonValue>, b: PreviewBudget)
    ensures
        spec_rows(rows, b).0.len() <= rows.len(),
    decreases rows.len(),
{
    if rows.len() > 0 {
        lemma_rows_len(rows.drop_first(), b);
        match rows[0] {
            JsonValue::Array(row) => {
                let b1 = if row@.len() > MAX_TABLE_COLS {
                    cut(b)
                } else {
                    b
                };
                let b2 = spec_cells(first_cols(row@), b1).1;
                lemma_rows_len(rows.drop_first(), b2);
            },
            _ => {},
        }
    }
}

} // verus!




