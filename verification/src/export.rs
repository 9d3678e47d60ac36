//! Export support: the formats offered, the textual form a cell takes
//! in delimited output, and the row objects of a JSON export.

use vstd::prelude::*;
use crate::text::idec;
use crate::values::{JsonVal, jv_like, clone_value};

verus! {

/// The file formats an export can take.
#[derive(Debug, Clone, Copy, PartialEq, Eq, Structural)]
pub enum ExportFormat {
    Csv,
    Json,
    Excel,
    SqlDump,
}

/// How an export run is shaped.
#[derive(Debug, Clone)]
pub struct ExportOptions {
    pub format: ExportFormat,
    pub file_path: String,
    pub include_headers: bool,
    pub delimiter: Option<char>,
    pub pretty_print: Option<bool>,
}

/// The report of an export run.
#[derive(Debug, Clone)]
pub struct ExportResult {
    pub success: bool,
    pub file_path: String,
    pub rows_exported: usize,
    pub message: Option<String>,
}

/// The text a cell takes in delimited output: nulls empty, booleans and
/// numbers by their literal, strings bare, composites by their JSON
/// text.
pub open spec fn cell_text_spec(v: JsonVal) -> Seq<char> {
    match v {
        JsonVal::Null => Seq::empty(),
        JsonVal::Bool(b) => if b {
            "true"@
        } else {
            "false"@
        },
        JsonVal::Int(i) => idec(i as int),
        JsonVal::Num(s) => s@,
        JsonVal::Str(s) => s@,
        JsonVal::Arr(_, raw) => raw@,
        JsonVal::Obj(raw) => raw@,
    }
}

/// Render one cell for delimited output.
pub fn cell_text(v: &JsonVal) -> (r: String)
    ensures
        r@ == cell_text_spec(*v),
{
    proof {
        reveal_strlit("true");
        reveal_strlit("false");
    }
    match v {
        JsonVal::Null => String::new(),
        JsonVal::Bool(b) => if *b {
            "true".to_owned()
        } else {
            "false".to_owned()
        },
        JsonVal::Int(i) => crate::text::i64_to_dec(*i),
        JsonVal::Num(s) => s.clone(),
        JsonVal::Str(s) => s.clone(),
        JsonVal::Arr(_, raw) => raw.clone(),
        JsonVal::Obj(raw) => raw.clone(),
    }
}

/// Pair one row's cells with the headers, missing cells standing in as
/// null.
#[verifier::loop_isolation(false)]
fn json_row_object(headers: &Vec<String>, row: &Vec<JsonVal>) -> (r: Vec<(String, JsonVal)>)
    ensures
        r@.len() == headers@.len(),
        forall|j: int|
            0 <= j < r@.len() ==> (#[trigger] r@[j]).0@ == headers@[j]@ && jv_like(
                r@[j].1,
                if j < row@.len() {
                    row@[j]
                } else {
                    JsonVal::Null
                },
            ),
{
    let mut obj: Vec<(String, JsonVal)> = Vec::new();
    for j in 0..headers.len()
        invariant
            obj@.len() == j,
            forall|k: int|
                0 <= k < j ==> (#[trigger] obj@[k]).0@ == headers@[k]@ && jv_like(
                    obj@[k].1,
                    if k < row@.len() {
                        row@[k]
                    } else {
                        JsonVal::Null
                    },
                ),
    {
        let value: JsonVal = if j < row.len() {
            clone_value(&row[j])
        } else {
            JsonVal::Null
        };
        obj.push((headers[j].clone(), value));
    }
    obj
}

/// The row objects of a JSON export: one object per row, the headers as
/// keys in order, missing cells null.
#[verifier::loop_isolation(false)]
pub fn json_export_objects(headers: &Vec<String>, rows: &Vec<Vec<JsonVal>>) -> (r: Vec<
    Vec<(String, JsonVal)>,
>)
    ensures
        r@.len() == rows@.len(),
        forall|i: int, j: int|
            0 <= i < r@.len() && 0 <= j < (#[trigger] r@[i])@.len() ==> (#[trigger] r@[i]@[j]).0@
                == headers@[j]@ && jv_like(
                r@[i]@[j].1,
                if j < rows@[i]@.len() {
                    rows@[i]@[j]
                } else {
                    JsonVal::Null
                },
            ),
        forall|i: int| 0 <= i < r@.len() ==> (#[trigger] r@[i])@.len() == headers@.len(),
{
    let mut out: Vec<Vec<(String, JsonVal)>> = Vec::new();
    for i in 0..rows.len()
        invariant
            out@.len() == i,
            forall|k: int, j: int|
                0 <= k < i && 0 <= j < (#[trigger] out@[k])@.len() ==> (#[trigger] out@[k]@[
                    j]).0@ == headers@[j]@ && jv_like(
                    out@[k]@[j].1,
                    if j < rows@[k]@.len() {
                        rows@[k]@[j]
                    } else {
                        JsonVal::Null
                    },
                ),
            forall|k: int| 0 <= k < i ==> (#[trigger] out@[k])@.len() == headers@.len(),
    {
        let obj = json_row_object(headers, &rows[i]);
        out.push(obj);
    }
    out
}

} // verus!
