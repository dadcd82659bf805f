//! Validation and reshaping of the server's JSON response: status-code
//! checking, extraction of the columnar `data.fields` / `data.items` pair,
//! the columnar-to-row reshape, and materialization into a table.
//!
//! The outside calls involved are deterministic in their arguments, so their
//! results carry names (see `ext`), and the contracts here fix the whole
//! pipeline over those names: which error comes on which response shape, and
//! which table text reaches the engine on success.

use vstd::prelude::*;
use vstd::string::StringExecFns;
use crate::errors::TushareError;
use crate::ext::{
    parse_json, json_get, json_as_array, json_as_str, json_as_i64, json_clone, value_to_string,
    materialize_df, parsed_json_of, json_member_of, json_elements_of, json_str_of, json_i64_of,
    json_text_of,
};
use crate::jsontext::{
    int_rep, dec_rep, json_string, i64_to_string, u64_to_string, push_char, append_json_string,
};

verus! {

/// The length of a zip of two sequences: the shorter side wins.
pub open spec fn zip_len(a: int, b: int) -> int {
    if a <= b {
        a
    } else {
        b
    }
}

/// The member two keys deep: `v[k1][k2]` when both lookups land on object
/// members, nothing otherwise.
pub open spec fn spec_member2(v: serde_json::Value, k1: Seq<char>, k2: Seq<char>) -> Option<
    serde_json::Value,
> {
    match json_member_of(v, k1) {
        Some(d) => json_member_of(d, k2),
        None => None,
    }
}

/// The elements of the array at `v[k1][k2]`, nothing when the path or the
/// array shape is missing.
pub open spec fn spec_node_elements(v: serde_json::Value, k1: Seq<char>, k2: Seq<char>) -> Option<
    Seq<serde_json::Value>,
> {
    match spec_member2(v, k1, k2) {
        Some(n) => json_elements_of(n),
        None => None,
    }
}

/// The response's status code, when `code` is an integer member.
pub open spec fn spec_code(v: serde_json::Value) -> Option<i64> {
    match json_member_of(v, "code"@) {
        Some(cv) => json_i64_of(cv),
        None => None,
    }
}

/// True when the response carries no explicit rejection: `code` absent, not
/// an integer, or zero.
pub open spec fn code_ok(v: serde_json::Value) -> bool {
    !(spec_code(v) matches Some(c) && c != 0)
}

/// The response's `msg` member when it is a string, else `"unknown"`.
pub open spec fn spec_msg_or_unknown(v: serde_json::Value) -> Seq<char> {
    match json_member_of(v, "msg"@) {
        Some(mv) => match json_str_of(mv) {
            Some(s) => s,
            None => "unknown"@,
        },
        None => "unknown"@,
    }
}

/// The array of column names the response carries under `data.fields`.
pub open spec fn spec_fields_node(v: serde_json::Value) -> Option<Seq<serde_json::Value>> {
    spec_node_elements(v, "data"@, "fields"@)
}

/// The array of rows the response carries under `data.items`.
pub open spec fn spec_items_node(v: serde_json::Value) -> Option<Seq<serde_json::Value>> {
    spec_node_elements(v, "data"@, "items"@)
}

/// The first index at or after `i` whose entry is not a JSON string.
pub open spec fn first_non_string(fs: Seq<serde_json::Value>, i: int) -> Option<int>
    decreases fs.len() - i,
{
    if i >= fs.len() {
        None
    } else if json_str_of(fs[i]) is None {
        Some(i)
    } else {
        first_non_string(fs, i + 1)
    }
}

/// The first index at or after `i` whose entry is not a JSON array.
pub open spec fn first_non_array(its: Seq<serde_json::Value>, i: int) -> Option<int>
    decreases its.len() - i,
{
    if i >= its.len() {
        None
    } else if json_elements_of(its[i]) is None {
        Some(i)
    } else {
        first_non_array(its, i + 1)
    }
}

/// A good prefix does not move the first offending index.
proof fn lemma_first_non_string_skip(fs: Seq<serde_json::Value>, i: int)
    requires
        0 <= i <= fs.len(),
        forall|j: int| 0 <= j < i ==> json_str_of(#[trigger] fs[j]) is Some,
    ensures
        first_non_string(fs, i) == first_non_string(fs, 0),
    decreases i,
{
    if i > 0 {
        lemma_first_non_string_skip(fs, i - 1);
        assert(first_non_string(fs, i - 1) == first_non_string(fs, i));
    }
}

/// A good prefix does not move the first offending index.
proof fn lemma_first_non_array_skip(its: Seq<serde_json::Value>, i: int)
    requires
        0 <= i <= its.len(),
        forall|j: int| 0 <= j < i ==> json_elements_of(#[trigger] its[j]) is Some,
    ensures
        first_non_array(its, i) == first_non_array(its, 0),
    decreases i,
{
    if i > 0 {
        lemma_first_non_array_skip(its, i - 1);
        assert(first_non_array(its, i - 1) == first_non_array(its, i));
    }
}

/// The structural verdict on a response: the JSON path named by the first
/// structural fault, in the order the extraction checks them, or nothing
/// when the columnar pair is well-shaped.
pub open spec fn structure_error_path(v: serde_json::Value) -> Option<Seq<char>> {
    match spec_fields_node(v) {
        None => Some("data/fields"@),
        Some(fs) => match first_non_string(fs, 0) {
            Some(i) => Some("data/fields at "@ + dec_rep(i as nat)),
            None => match spec_items_node(v) {
                None => Some("data/items"@),
                Some(its) => match first_non_array(its, 0) {
                    Some(j) => Some(
                        "data/items/"@ + dec_rep(j as nat) + " is expected to be an array"@,
                    ),
                    None => None,
                },
            },
        },
    }
}

/// The column names of a structurally good response, as character strings.
pub open spec fn extracted_fields(v: serde_json::Value) -> Seq<Seq<char>> {
    spec_fields_node(v).unwrap().map_values(
        |f: serde_json::Value| json_str_of(f).unwrap(),
    )
}

/// The rows of a structurally good response, each as its cell values.
pub open spec fn extracted_items(v: serde_json::Value) -> Seq<Seq<serde_json::Value>> {
    spec_items_node(v).unwrap().map_values(
        |it: serde_json::Value| json_elements_of(it).unwrap(),
    )
}

/// The views of a vector of strings.
pub open spec fn string_views(ss: Seq<String>) -> Seq<Seq<char>> {
    ss.map_values(|s: String| s@)
}

/// The views of a vector of rows.
pub open spec fn row_views(rs: Seq<Vec<serde_json::Value>>) -> Seq<Seq<serde_json::Value>> {
    rs.map_values(|r: Vec<serde_json::Value>| r@)
}

/// The members of one reshaped row object, in cell order: each key as a
/// JSON string literal, each value as its JSON text.
pub open spec fn obj_members_text(cells: Seq<(String, serde_json::Value)>) -> Seq<char>
    decreases cells.len(),
{
    if cells.len() == 0 {
        Seq::<char>::empty()
    } else {
        obj_members_text(cells.drop_last()) + (if cells.len() == 1 {
            Seq::<char>::empty()
        } else {
            seq![',']
        }) + json_string(cells.last().0@) + seq![':'] + json_text_of(cells.last().1)
    }
}

/// One reshaped row as a JSON object text.
pub open spec fn object_text(cells: Seq<(String, serde_json::Value)>) -> Seq<char> {
    seq!['{'] + obj_members_text(cells) + seq!['}']
}

/// The row objects of the reshaped row set, in row order, comma-separated.
pub open spec fn array_body_text(rows: Seq<Vec<(String, serde_json::Value)>>) -> Seq<char>
    decreases rows.len(),
{
    if rows.len() == 0 {
        Seq::<char>::empty()
    } else {
        array_body_text(rows.drop_last()) + (if rows.len() == 1 {
            Seq::<char>::empty()
        } else {
            seq![',']
        }) + object_text(rows.last()@)
    }
}

/// The reshaped row set as a JSON array-of-objects text.
pub open spec fn rows_json_text(rows: Seq<Vec<(String, serde_json::Value)>>) -> Seq<char> {
    seq!['['] + array_body_text(rows) + seq![']']
}

/// True when some pair of `ps` carries the key `k`.
pub open spec fn pair_has_key(ps: Seq<(Seq<char>, serde_json::Value)>, k: Seq<char>) -> bool {
    exists|i: int| 0 <= i < ps.len() && ps[i].0 == k
}

/// True when no two pairs of `ps` share a key.
pub open spec fn pair_keys_unique(ps: Seq<(Seq<char>, serde_json::Value)>) -> bool {
    forall|i: int, j: int| 0 <= i < j < ps.len() ==> ps[i].0 != ps[j].0
}

/// `ps` with `k` bound to `val`: pairs that carried `k` are overwritten in
/// place; if none did, `(k, val)` is appended.
pub open spec fn pair_set(
    ps: Seq<(Seq<char>, serde_json::Value)>,
    k: Seq<char>,
    val: serde_json::Value,
) -> Seq<(Seq<char>, serde_json::Value)> {
    if pair_has_key(ps, k) {
        ps.map_values(
            |p: (Seq<char>, serde_json::Value)|
                if p.0 == k {
                    (k, val)
                } else {
                    p
                },
        )
    } else {
        ps.push((k, val))
    }
}

/// Binding a key keeps the keys unique.
proof fn lemma_pair_set_keeps_unique(
    ps: Seq<(Seq<char>, serde_json::Value)>,
    k: Seq<char>,
    val: serde_json::Value,
)
    requires
        pair_keys_unique(ps),
    ensures
        pair_keys_unique(pair_set(ps, k, val)),
{
    let qs = pair_set(ps, k, val);
    if pair_has_key(ps, k) {
        assert forall|i: int, j: int| 0 <= i < j < qs.len() implies qs[i].0 != qs[j].0 by {
            assert(qs[i] == (if ps[i].0 == k {
                (k, val)
            } else {
                ps[i]
            }));
            assert(qs[j] == (if ps[j].0 == k {
                (k, val)
            } else {
                ps[j]
            }));
        }
    } else {
        assert forall|i: int, j: int| 0 <= i < j < qs.len() implies qs[i].0 != qs[j].0 by {
            if j == ps.len() {
                assert(qs[j] == (k, val));
                assert(qs[i] == ps[i]);
            }
        }
    }
}

/// The row object of one item row: the first `n` field names zipped
/// positionally against the row's values and folded into a key-unique pair
/// sequence, a later occurrence of a repeated name overwriting the earlier
/// value in place.
pub open spec fn row_pairs(f: Seq<Seq<char>>, item: Seq<serde_json::Value>, n: int) -> Seq<
    (Seq<char>, serde_json::Value),
>
    decreases n,
{
    if n <= 0 {
        Seq::<(Seq<char>, serde_json::Value)>::empty()
    } else {
        pair_set(row_pairs(f, item, n - 1), f[n - 1], item[n - 1])
    }
}

/// The folded row object always has unique keys.
proof fn lemma_row_pairs_unique(f: Seq<Seq<char>>, item: Seq<serde_json::Value>, n: int)
    ensures
        pair_keys_unique(row_pairs(f, item, n)),
    decreases n,
{
    if n > 0 {
        lemma_row_pairs_unique(f, item, n - 1);
        lemma_pair_set_keeps_unique(row_pairs(f, item, n - 1), f[n - 1], item[n - 1]);
    }
}

/// The key/value views of a reshaped row's cells.
pub open spec fn pair_views(cells: Seq<(String, serde_json::Value)>) -> Seq<
    (Seq<char>, serde_json::Value),
> {
    cells.map_values(|c: (String, serde_json::Value)| (c.0@, c.1))
}

/// The members of a key-unique row object, in pair order.
pub open spec fn pair_members_text(ps: Seq<(Seq<char>, serde_json::Value)>) -> Seq<char>
    decreases ps.len(),
{
    if ps.len() == 0 {
        Seq::<char>::empty()
    } else {
        pair_members_text(ps.drop_last()) + (if ps.len() == 1 {
            Seq::<char>::empty()
        } else {
            seq![',']
        }) + json_string(ps.last().0) + seq![':'] + json_text_of(ps.last().1)
    }
}

/// The row object text for one item row: the folded, key-unique members
/// between braces.
pub open spec fn row_object_text(f: Seq<Seq<char>>, item: Seq<serde_json::Value>) -> Seq<char> {
    seq!['{'] + pair_members_text(
        row_pairs(f, item, zip_len(f.len() as int, item.len() as int)),
    ) + seq!['}']
}

/// The first `m` row objects, comma-separated.
pub open spec fn table_body_text(
    f: Seq<Seq<char>>,
    items: Seq<Seq<serde_json::Value>>,
    m: int,
) -> Seq<char>
    decreases m,
{
    if m <= 0 {
        Seq::<char>::empty()
    } else {
        table_body_text(f, items, m - 1) + (if m == 1 {
            Seq::<char>::empty()
        } else {
            seq![',']
        }) + row_object_text(f, items[m - 1])
    }
}

/// The JSON array-of-objects text that the reshaped columnar pair
/// serializes to: the text that reaches the table engine.
pub open spec fn table_text(f: Seq<Seq<char>>, items: Seq<Seq<serde_json::Value>>) -> Seq<char> {
    seq!['['] + table_body_text(f, items, items.len() as int) + seq![']']
}

/// A cell sequence whose key/value views equal a pair sequence spells the
/// same member text.
proof fn lemma_obj_members_from_pairs(
    cells: Seq<(String, serde_json::Value)>,
    ps: Seq<(Seq<char>, serde_json::Value)>,
    n: int,
)
    requires
        pair_views(cells) == ps,
        0 <= n <= cells.len(),
    ensures
        obj_members_text(cells.take(n)) == pair_members_text(ps.take(n)),
    decreases n,
{
    assert(ps.len() == cells.len());
    if n > 0 {
        lemma_obj_members_from_pairs(cells, ps, n - 1);
        assert(cells.take(n).drop_last() =~= cells.take(n - 1));
        assert(ps.take(n).drop_last() =~= ps.take(n - 1));
        assert(cells.take(n).last() == cells[n - 1]);
        assert(ps.take(n).last() == ps[n - 1]);
        assert(ps[n - 1] == pair_views(cells)[n - 1]);
    } else {
        assert(cells.take(0) =~= Seq::<(String, serde_json::Value)>::empty());
        assert(ps.take(0) =~= Seq::<(Seq<char>, serde_json::Value)>::empty());
    }
}

/// The reshaped row set of a columnar pair spells the same array text as the
/// pair itself.
proof fn lemma_array_body_matches(
    f: Seq<Seq<char>>,
    items: Seq<Seq<serde_json::Value>>,
    rows: Seq<Vec<(String, serde_json::Value)>>,
    m: int,
)
    requires
        rows.len() == items.len(),
        0 <= m <= rows.len(),
        forall|j: int|
            0 <= j < rows.len() ==> pair_views((#[trigger] rows[j])@) == row_pairs(
                f,
                items[j],
                zip_len(f.len() as int, items[j].len() as int),
            ),
    ensures
        array_body_text(rows.take(m)) == table_body_text(f, items, m),
    decreases m,
{
    if m > 0 {
        lemma_array_body_matches(f, items, rows, m - 1);
        assert(rows.take(m).drop_last() =~= rows.take(m - 1));
        assert(rows.take(m).last() == rows[m - 1]);
        let cells = rows[m - 1]@;
        let ps = row_pairs(f, items[m - 1], zip_len(f.len() as int, items[m - 1].len() as int));
        assert(ps.len() == cells.len());
        lemma_obj_members_from_pairs(cells, ps, cells.len() as int);
        assert(cells.take(cells.len() as int) =~= cells);
        assert(ps.take(ps.len() as int) =~= ps);
    } else {
        assert(rows.take(0) =~= Seq::<Vec<(String, serde_json::Value)>>::empty());
    }
}

/// What the response pipeline owes for a received body: parse failure is the
/// decode error and nothing else is; a parsed body with a non-zero integer
/// `code` is the server's rejection, verbatim; a structural fault names its
/// path; an empty row set is the empty-data error; and otherwise the result
/// is a table or the engine's own error — the engine receives exactly the
/// reshaped table text (see [`render_table_text`]), but its verdict on it is
/// not a function of the text alone, so which of the two comes is its own.
/// No failure is ever the network error.
pub open spec fn response_verdict(
    body: Seq<char>,
    r: Result<polars::prelude::DataFrame, TushareError>,
) -> bool {
    &&& (parsed_json_of(body) is None <==> (r matches Err(e) && e is JsonError))
    &&& (r matches Err(e) ==> !(e is NetworkError))
    &&& (parsed_json_of(body) matches Some(v) ==> {
        &&& ((r matches Err(e) && e is RequestError) <==> !code_ok(v))
        &&& (!code_ok(v) ==> (r matches Err(e) && e matches TushareError::RequestError {
            code: cs,
            msg: m,
        } && cs@ == int_rep(spec_code(v).unwrap() as int) && m@ == spec_msg_or_unknown(v)))
        &&& (code_ok(v) ==> {
            &&& ((r matches Err(e) && e is DataError) <==> structure_error_path(v) is Some)
            &&& (structure_error_path(v) matches Some(p) ==> (r matches Err(e)
                && e matches TushareError::DataError(pp) && pp@ == p))
            &&& (structure_error_path(v) is None ==> {
                &&& ((r matches Err(e) && e is EmptyError) <==> extracted_items(v).len() == 0)
                &&& (extracted_items(v).len() > 0 ==> (r is Ok || (r matches Err(e)
                    && e is PolarsError)))
            })
        })
    })
}

/// Decides the response's status code as the server reported it: a present,
/// non-zero code fails the query with exactly that code (rendered in
/// decimal) and the server's message, `"unknown"` when no message came; an
/// absent or zero code passes.
pub fn code_outcome(code: Option<i64>, msg: Option<String>) -> (r: Result<(), TushareError>)
    ensures
        r is Err <==> (code matches Some(c) && c != 0),
        r matches Err(e) ==> (e matches TushareError::RequestError { code: cs, msg: m }
            && cs@ == int_rep(code.unwrap() as int) && m@ == (match msg {
            Some(ms) => ms@,
            None => "unknown"@,
        })),
{
    match code {
        Some(c) => {
            if c != 0 {
                let cs = i64_to_string(c);
                let m = match msg {
                    Some(ms) => ms,
                    None => "unknown".to_owned(),
                };
                Err(TushareError::RequestError { code: cs, msg: m })
            } else {
                Ok(())
            }
        },
        None => Ok(()),
    }
}

/// Reads the response's `code` and `msg` members and decides them with
/// [`code_outcome`]: a failure here is the server's rejection, with its code
/// rendered in decimal and its message verbatim, and comes exactly when the
/// response carries a non-zero integer `code`.
pub fn check_code(resp: &serde_json::Value) -> (r: Result<(), TushareError>)
    ensures
        r is Ok <==> code_ok(*resp),
        r matches Err(e) ==> (e matches TushareError::RequestError { code: cs, msg: m }
            && cs@ == int_rep(spec_code(*resp).unwrap() as int) && m@ == spec_msg_or_unknown(
            *resp,
        )),
{
    let code: Option<i64> = match json_get(resp, "code") {
        Some(cv) => json_as_i64(cv),
        None => None,
    };
    let msg: Option<String> = match json_get(resp, "msg") {
        Some(mv) => match json_as_str(mv) {
            Some(s) => Some(s.to_owned()),
            None => None,
        },
        None => None,
    };
    proof {
        assert(code == spec_code(*resp));
        assert(match msg {
            Some(ms) => ms@ == spec_msg_or_unknown(*resp),
            None => spec_msg_or_unknown(*resp) == "unknown"@,
        });
    }
    code_outcome(code, msg)
}

/// The member two keys deep, as [`spec_member2`] names it.
fn member2<'a>(v: &'a serde_json::Value, k1: &str, k2: &str) -> (r: Option<&'a serde_json::Value>)
    ensures
        r matches Some(m) ==> spec_member2(*v, k1@, k2@) == Some(*m),
        r is None <==> spec_member2(*v, k1@, k2@) is None,
{
    match json_get(v, k1) {
        Some(d) => json_get(d, k2),
        None => None,
    }
}

/// The elements of the array two keys deep, as [`spec_node_elements`] names
/// them.
fn node_elements<'a>(v: &'a serde_json::Value, k1: &str, k2: &str) -> (r: Option<
    &'a Vec<serde_json::Value>,
>)
    ensures
        r matches Some(a) ==> spec_node_elements(*v, k1@, k2@) == Some(a@),
        r is None <==> spec_node_elements(*v, k1@, k2@) is None,
{
    match member2(v, k1, k2) {
        Some(n) => json_as_array(n),
        None => None,
    }
}

/// Extracts the columnar pair from the response: `data.fields` as the
/// column names and `data.items` as the rows, each cell copied out as an
/// opaque JSON value. It fails exactly on the first structural fault, with
/// the structural error naming that fault's JSON path; on success the pair
/// is exactly the response's columnar content.
pub fn extract_table(resp: &serde_json::Value) -> (r: Result<
    (Vec<String>, Vec<Vec<serde_json::Value>>),
    TushareError,
>)
    ensures
        r is Err <==> structure_error_path(*resp) is Some,
        r matches Err(e) ==> (e matches TushareError::DataError(p) && Some(p@)
            == structure_error_path(*resp)),
        r matches Ok(pair) ==> (string_views(pair.0@) == extracted_fields(*resp) && row_views(
            pair.1@,
        ) == extracted_items(*resp)),
{
    let fields_json = match node_elements(resp, "data", "fields") {
        Some(a) => a,
        None => {
            return Err(TushareError::DataError("data/fields".to_owned()));
        },
    };
    let ghost fs = spec_fields_node(*resp).unwrap();
    proof {
        assert(fs == fields_json@);
    }
    let mut fields: Vec<String> = Vec::new();
    let n = fields_json.len();
    let mut i: usize = 0;
    while i < n
        invariant
            i <= n,
            n == fields_json@.len(),
            fs == fields_json@,
            fs == spec_fields_node(*resp).unwrap(),
            spec_fields_node(*resp) is Some,
            fields@.len() == i,
            forall|j: int| 0 <= j < i ==> json_str_of(#[trigger] fs[j]) is Some,
            forall|j: int| 0 <= j < i ==> Some((#[trigger] fields@[j])@) == json_str_of(fs[j]),
        decreases n - i,
    {
        match json_as_str(&fields_json[i]) {
            Some(s) => fields.push(s.to_owned()),
            None => {
                let mut path = "data/fields at ".to_owned();
                let idx = u64_to_string(i as u64);
                path.append(idx.as_str());
                proof {
                    lemma_first_non_string_skip(fs, i as int);
                    assert(first_non_string(fs, i as int) == Some(i as int));
                    assert(path@ == "data/fields at "@ + dec_rep(i as nat));
                }
                return Err(TushareError::DataError(path));
            },
        }
        i = i + 1;
    }
    proof {
        lemma_first_non_string_skip(fs, n as int);
        assert(first_non_string(fs, 0) is None);
    }
    let items_json = match node_elements(resp, "data", "items") {
        Some(a) => a,
        None => {
            return Err(TushareError::DataError("data/items".to_owned()));
        },
    };
    let ghost its = spec_items_node(*resp).unwrap();
    proof {
        assert(its == items_json@);
    }
    let mut items: Vec<Vec<serde_json::Value>> = Vec::new();
    let m = items_json.len();
    let mut j: usize = 0;
    while j < m
        invariant
            j <= m,
            m == items_json@.len(),
            its == items_json@,
            its == spec_items_node(*resp).unwrap(),
            spec_items_node(*resp) is Some,
            spec_fields_node(*resp) is Some,
            fs == spec_fields_node(*resp).unwrap(),
            first_non_string(fs, 0) is None,
            fields@.len() == fs.len(),
            forall|l: int| 0 <= l < fs.len() ==> Some((#[trigger] fields@[l])@) == json_str_of(
                fs[l],
            ),
            items@.len() == j,
            forall|l: int| 0 <= l < j ==> json_elements_of(#[trigger] its[l]) is Some,
            forall|l: int| 0 <= l < j ==> Some((#[trigger] items@[l])@) == json_elements_of(
                its[l],
            ),
        decreases m - j,
    {
        match json_as_array(&items_json[j]) {
            Some(row) => {
                let mut cells: Vec<serde_json::Value> = Vec::new();
                let rl = row.len();
                let mut k: usize = 0;
                while k < rl
                    invariant
                        k <= rl,
                        rl == row@.len(),
                        cells@.len() == k,
                        forall|l: int| 0 <= l < k ==> #[trigger] cells@[l] == row@[l],
                    decreases rl - k,
                {
                    cells.push(json_clone(&row[k]));
                    k = k + 1;
                }
                proof {
                    assert(cells@ =~= row@);
                }
                items.push(cells);
            },
            None => {
                let mut path = "data/items/".to_owned();
                let idx = u64_to_string(j as u64);
                path.append(idx.as_str());
                path.append(" is expected to be an array");
                proof {
                    lemma_first_non_array_skip(its, j as int);
                    assert(first_non_array(its, j as int) == Some(j as int));
                    assert(path@ == "data/items/"@ + dec_rep(j as nat)
                        + " is expected to be an array"@);
                }
                return Err(TushareError::DataError(path));
            },
        }
        j = j + 1;
    }
    proof {
        lemma_first_non_array_skip(its, m as int);
        assert(first_non_array(its, 0) is None);
        assert(structure_error_path(*resp) is None);
        assert(string_views(fields@) =~= extracted_fields(*resp));
        assert(row_views(items@) =~= extracted_items(*resp));
    }
    Ok((fields, items))
}

/// Reshapes the columnar pair into rows: for each item row, the field names
/// are zipped positionally against the row's values and folded into a
/// key-unique row object ([`row_pairs`]). The shorter side truncates —
/// values beyond the field-name list are dropped, and so are field names
/// beyond a short row — and when the server repeats a field name the value
/// at the last repeated position wins, overwriting the earlier one in
/// place.
pub fn reshape(fields: &Vec<String>, items: &Vec<Vec<serde_json::Value>>) -> (rows: Vec<
    Vec<(String, serde_json::Value)>,
>)
    ensures
        rows@.len() == items@.len(),
        forall|j: int|
            0 <= j < items@.len() ==> pair_views((#[trigger] rows@[j])@) == row_pairs(
                string_views(fields@),
                items@[j]@,
                zip_len(fields@.len() as int, items@[j]@.len() as int),
            ),
{
    let ghost f_model = string_views(fields@);
    proof {
        assert(forall|i: int| 0 <= i < fields@.len() ==> #[trigger] f_model[i] == fields@[i]@);
    }
    let mut rows: Vec<Vec<(String, serde_json::Value)>> = Vec::new();
    let m = items.len();
    let mut j: usize = 0;
    while j < m
        invariant
            j <= m,
            m == items@.len(),
            rows@.len() == j,
            f_model == string_views(fields@),
            forall|i: int| 0 <= i < fields@.len() ==> #[trigger] f_model[i] == fields@[i]@,
            forall|j2: int|
                0 <= j2 < j ==> pair_views((#[trigger] rows@[j2])@) == row_pairs(
                    f_model,
                    items@[j2]@,
                    zip_len(fields@.len() as int, items@[j2]@.len() as int),
                ),
        decreases m - j,
    {
        let item = &items[j];
        let bound = if fields.len() <= item.len() {
            fields.len()
        } else {
            item.len()
        };
        let mut cells: Vec<(String, serde_json::Value)> = Vec::new();
        let mut i: usize = 0;
        while i < bound
            invariant
                i <= bound,
                bound == zip_len(fields@.len() as int, item@.len() as int),
                item == items@[j as int],
                j < items@.len(),
                bound <= fields@.len(),
                f_model == string_views(fields@),
                forall|l: int| 0 <= l < fields@.len() ==> #[trigger] f_model[l] == fields@[l]@,
                pair_views(cells@) == row_pairs(f_model, item@, i as int),
                pair_keys_unique(pair_views(cells@)),
            decreases bound - i,
        {
            let ghost prev = cells@;
            let ghost pv = pair_views(prev);
            let cl = cells.len();
            let mut found = false;
            let mut found_idx: usize = 0;
            let mut k: usize = 0;
            while k < cl
                invariant
                    k <= cl,
                    cl == cells@.len(),
                    cells@ == prev,
                    i < fields@.len(),
                    found ==> found_idx < cl && (#[trigger] cells@[found_idx as int]).0@
                        == fields@[i as int]@,
                    !found ==> forall|l: int|
                        0 <= l < k ==> (#[trigger] cells@[l]).0@ != fields@[i as int]@,
                decreases cl - k,
            {
                let c = &cells[k];
                if c.0 == fields[i] {
                    found = true;
                    found_idx = k;
                }
                k = k + 1;
            }
            if found {
                cells[found_idx] = (fields[i].clone(), json_clone(&item[i]));
                proof {
                    let key = fields@[i as int]@;
                    let val = item@[i as int];
                    assert(pv[found_idx as int].0 == key);
                    assert(pair_has_key(pv, key));
                    assert forall|l: int| 0 <= l < pv.len() implies #[trigger] pair_views(
                        cells@,
                    )[l] == pair_set(pv, key, val)[l] by {
                        assert(pair_set(pv, key, val)[l] == (if pv[l].0 == key {
                            (key, val)
                        } else {
                            pv[l]
                        }));
                        if l != found_idx {
                            assert(pv[l].0 != key);
                            assert(cells@[l] == prev[l]);
                        }
                    }
                    assert(pair_views(cells@) =~= pair_set(pv, key, val));
                    lemma_pair_set_keeps_unique(pv, key, val);
                }
            } else {
                cells.push((fields[i].clone(), json_clone(&item[i])));
                proof {
                    let key = fields@[i as int]@;
                    let val = item@[i as int];
                    if pair_has_key(pv, key) {
                        let l = choose|l: int| 0 <= l < pv.len() && (#[trigger] pv[l]).0 == key;
                        assert(prev[l].0@ == key);
                        assert(false);
                    }
                    assert(pair_views(cells@) =~= pv.push((key, val)));
                    lemma_pair_set_keeps_unique(pv, key, val);
                }
            }
            proof {
                assert(f_model[i as int] == fields@[i as int]@);
                assert(row_pairs(f_model, item@, i + 1) == pair_set(
                    row_pairs(f_model, item@, i as int),
                    f_model[i as int],
                    item@[i as int],
                ));
            }
            i = i + 1;
        }
        rows.push(cells);
        j = j + 1;
    }
    rows
}

/// Serializes the reshaped rows back into a JSON array-of-objects text: the
/// library frames the array and the objects itself, with its verified
/// escaping for the keys, and each cell's text comes from the JSON
/// serializer. The produced text is exactly [`rows_json_text`] of the rows,
/// and serialization of a JSON value cannot fail, so the result is always
/// the text.
pub fn rows_to_json(rows: &Vec<Vec<(String, serde_json::Value)>>) -> (r: Result<
    String,
    TushareError,
>)
    ensures
        r is Ok,
        r matches Ok(t) ==> t@ == rows_json_text(rows@),
{
    let mut out = String::new();
    push_char(&mut out, '[');
    proof {
        assert(out@ =~= seq!['['] + array_body_text(rows@.take(0)));
    }
    let m = rows.len();
    let mut j: usize = 0;
    while j < m
        invariant
            j <= m,
            m == rows@.len(),
            out@ == seq!['['] + array_body_text(rows@.take(j as int)),
        decreases m - j,
    {
        if j > 0 {
            push_char(&mut out, ',');
        }
        push_char(&mut out, '{');
        let ghost obj_start = out@;
        let row = &rows[j];
        let n = row.len();
        let mut i: usize = 0;
        while i < n
            invariant
                i <= n,
                n == row@.len(),
                row == rows@[j as int],
                j < rows@.len(),
                obj_start == seq!['['] + array_body_text(rows@.take(j as int)) + (if j == 0 {
                    Seq::<char>::empty()
                } else {
                    seq![',']
                }) + seq!['{'],
                out@ == obj_start + obj_members_text(row@.take(i as int)),
            decreases n - i,
        {
            if i > 0 {
                push_char(&mut out, ',');
            }
            let cell = &row[i];
            append_json_string(&mut out, cell.0.as_str());
            push_char(&mut out, ':');
            match value_to_string(&cell.1) {
                Ok(t) => out.append(t.as_str()),
                Err(e) => {
                    return Err(TushareError::JsonError(e));
                },
            }
            proof {
                assert(row@.take(i + 1).drop_last() =~= row@.take(i as int));
                assert(row@.take(i + 1).last() == row@[i as int]);
                assert(out@ =~= obj_start + obj_members_text(row@.take(i + 1)));
            }
            i = i + 1;
        }
        push_char(&mut out, '}');
        proof {
            assert(row@.take(n as int) =~= row@);
            assert(rows@.take(j + 1).drop_last() =~= rows@.take(j as int));
            assert(rows@.take(j + 1).last() == rows@[j as int]);
            assert(out@ =~= seq!['['] + array_body_text(rows@.take(j + 1)));
        }
        j = j + 1;
    }
    push_char(&mut out, ']');
    proof {
        assert(rows@.take(m as int) =~= rows@);
        assert(out@ =~= rows_json_text(rows@));
    }
    Ok(out)
}

/// Reshapes the columnar pair and serializes it: exactly the JSON
/// array-of-objects text [`table_text`] of the pair, the text that is
/// handed to the table engine.
pub fn render_table_text(fields: &Vec<String>, items: &Vec<Vec<serde_json::Value>>) -> (r: String)
    ensures
        r@ == table_text(string_views(fields@), row_views(items@)),
{
    let rows = reshape(fields, items);
    let ghost f_model = string_views(fields@);
    let ghost i_model = row_views(items@);
    proof {
        assert(forall|j: int| 0 <= j < items@.len() ==> #[trigger] i_model[j] == items@[j]@);
        lemma_array_body_matches(f_model, i_model, rows@, rows@.len() as int);
        assert(rows@.take(rows@.len() as int) =~= rows@);
        assert(rows_json_text(rows@) == table_text(f_model, i_model));
    }
    match rows_to_json(&rows) {
        Ok(t) => t,
        // unreachable: rows_to_json always succeeds
        Err(_) => String::new(),
    }
}

/// Reshapes the columnar pair and materializes it as a typed table. An
/// empty row set fails with the empty-data error — and only an empty row
/// set does; otherwise the engine receives exactly the reshaped table text
/// of [`render_table_text`], and the result is the table it made of it or
/// its own error. Which of the two the engine answers is not a function of
/// the text alone, so no more is stated of it.
pub fn tabulate(fields: &Vec<String>, items: &Vec<Vec<serde_json::Value>>) -> (r: Result<
    polars::prelude::DataFrame,
    TushareError,
>)
    ensures
        (r matches Err(e) && e is EmptyError) <==> items@.len() == 0,
        r matches Err(e) ==> (e is EmptyError || e is PolarsError),
{
    if items.len() == 0 {
        return Err(TushareError::EmptyError);
    }
    let text = render_table_text(fields, items);
    match materialize_df(text) {
        Ok(df) => Ok(df),
        Err(pe) => Err(TushareError::PolarsError(pe)),
    }
}

/// Runs the whole response pipeline on a body already received from the
/// transport: parse as JSON, check the server's status code, extract the
/// columnar pair, reshape and materialize. The outcome is the
/// [`response_verdict`] for the body: each failure keeps its own kind, with
/// its exact content as far as the engine's own verdict allows.
pub fn process_response(body: &str) -> (r: Result<polars::prelude::DataFrame, TushareError>)
    ensures
        response_verdict(body@, r),
{
    let resp = match parse_json(body) {
        Ok(v) => v,
        Err(je) => {
            return Err(TushareError::JsonError(je));
        },
    };
    match check_code(&resp) {
        Ok(u) => u,
        Err(e) => {
            return Err(e);
        },
    }
    let (fields, items) = match extract_table(&resp) {
        Ok(p) => p,
        Err(e) => {
            return Err(e);
        },
    };
    tabulate(&fields, &items)
}

/// Decides a transport outcome: a transport failure surfaces as a network
/// error carrying the transport's own description — never as a decode or
/// structural error — and a received body goes through the response
/// pipeline, whose verdict never includes a network error.
pub fn handle_reply(outcome: Result<String, String>) -> (r: Result<
    polars::prelude::DataFrame,
    TushareError,
>)
    ensures
        outcome matches Err(c) ==> (r matches Err(e) && e matches TushareError::NetworkError {
            cause,
        } && cause@ == c@),
        outcome matches Ok(b) ==> response_verdict(b@, r),
{
    match outcome {
        Ok(body) => process_response(body.as_str()),
        Err(cause) => Err(TushareError::NetworkError { cause }),
    }
}

} // verus!
