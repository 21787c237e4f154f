//! The decoded log record ("envelope") and its extraction from a JSON
//! document.
//!
//! An envelope carries an optional rank, an optional structured compile
//! id, an optional expected payload hash, an optional intern side-channel
//! entry, and an open set of named kind fields of which normally zero or
//! one is populated; unrecognized fields are collected for diagnostics
//! rather than dropped.  A recognized field of the wrong shape fails the
//! whole decode, as a strict decoder would.

use vstd::prelude::*;
use vstd::string::StringExecFns;
use crate::json::Jv;
use crate::json::jmodel;
use crate::json::jv_get;
use crate::json::jv_keys;
use crate::json::value_get;
use crate::json::value_as_u64;
use crate::json::value_as_str;
use crate::json::value_is_null;
use crate::json::value_is_object;
use crate::json::value_array_len;
use crate::json::value_array_get;
use crate::json::object_keys;
use crate::strutil::str_eq;

verus! {

/// Sentinel metadata: the record kind is the whole information.
pub struct EmptyMetadata {}

pub struct GraphDumpMetadata {
    pub name: String,
}

pub struct InductorOutputCodeMetadata {
    pub filename: Option<String>,
}

pub struct OptimizeDdpSplitChildMetadata {
    pub name: String,
}

pub struct LinkMetadata {
    pub name: String,
    pub url: String,
}

pub struct ArtifactMetadata {
    pub name: String,
    pub encoding: String,
}

pub struct DumpFileMetadata {
    pub name: String,
}

/// One stack frame: an interned filename id, a line and a symbol name.
pub struct FrameSummary {
    pub filename: u32,
    pub line: u64,
    pub name: String,
    pub uninterned_filename: Option<String>,
}

pub type StackSummary = Vec<FrameSummary>;

pub struct DynamoStartMetadata {
    pub stack: Option<StackSummary>,
}

pub struct CompilationMetricsMetadata {
    pub co_name: Option<String>,
    pub co_filename: Option<String>,
    pub co_firstlineno: Option<u64>,
    pub restart_reasons: Option<Vec<String>>,
    pub fail_type: Option<String>,
    pub fail_reason: Option<String>,
    pub fail_user_frame_filename: Option<String>,
    pub fail_user_frame_lineno: Option<u64>,
}

pub struct GuardMetadata {
    pub expr: Option<String>,
    pub prefix: Option<String>,
    pub result: Option<String>,
    pub expr_node_id: Option<u64>,
    pub user_stack: Option<StackSummary>,
    pub stack: Option<StackSummary>,
}

pub struct KernelMetadata {
    pub op: Option<String>,
    pub reason: Option<String>,
}

pub struct SymExprInfoMetadata {
    pub result: Option<String>,
    pub result_id: Option<u64>,
    pub method: Option<String>,
    pub arguments: Option<Vec<String>>,
    pub argument_ids: Option<Vec<u64>>,
    pub user_stack: Option<StackSummary>,
    pub stack: Option<StackSummary>,
}

pub struct UnbackedSymbolMetadata {
    pub symbol: Option<String>,
    pub node_id: Option<u64>,
    pub user_stack: Option<StackSummary>,
    pub stack: Option<StackSummary>,
}

pub struct SymbolicShapeSpecializationMetadata {
    pub symbol: Option<String>,
    pub sources: Option<Vec<String>>,
    pub value: Option<String>,
    pub user_stack: Option<StackSummary>,
    pub stack: Option<StackSummary>,
}

pub struct GuardAddedFastMetadata {
    pub expr: Option<String>,
    pub user_stack: Option<StackSummary>,
    pub stack: Option<StackSummary>,
}

/// The ordered 4-part key identifying a compilation attempt.
pub struct CompileId {
    pub compiled_autograd_id: Option<u32>,
    pub frame_id: Option<u32>,
    pub frame_compile_id: Option<u32>,
    pub attempt: Option<u32>,
}

// ----- spec-level field extraction primitives -----
/// Optional string field: absent or null is `None`; a non-string value
/// is a decode error (outer `None`).
pub open spec fn sp_opt_str(m: Jv, key: Seq<char>) -> Option<Option<Seq<char>>> {
    match jv_get(m, key) {
        None => Some(None),
        Some(Jv::Null) => Some(None),
        Some(Jv::Str(s)) => Some(Some(s)),
        Some(_) => None,
    }
}

/// Optional non-negative integer field.
pub open spec fn sp_opt_u64(m: Jv, key: Seq<char>) -> Option<Option<u64>> {
    match jv_get(m, key) {
        None => Some(None),
        Some(Jv::Null) => Some(None),
        Some(Jv::UInt(n)) => Some(Some(n)),
        Some(_) => None,
    }
}

/// Optional `u32` field: an integer beyond `u32` is a decode error.
pub open spec fn sp_opt_u32(m: Jv, key: Seq<char>) -> Option<Option<u32>> {
    match jv_get(m, key) {
        None => Some(None),
        Some(Jv::Null) => Some(None),
        Some(Jv::UInt(n)) => if n <= u32::MAX as u64 {
            Some(Some(n as u32))
        } else {
            None
        },
        Some(_) => None,
    }
}

/// Optional sentinel field: any object is the sentinel.
pub open spec fn sp_opt_empty(m: Jv, key: Seq<char>) -> Option<bool> {
    match jv_get(m, key) {
        None => Some(false),
        Some(Jv::Null) => Some(false),
        Some(Jv::Obj(es)) => Some(true),
        Some(_) => None,
    }
}

/// An array of strings.
pub open spec fn sp_str_list_ok(x: Jv) -> bool {
    x matches Jv::Arr(xs) && forall|i: int| 0 <= i < xs.len() ==> (#[trigger] xs[i]) is Str
}

pub open spec fn sp_str_list(x: Jv) -> Seq<Seq<char>> {
    match x {
        Jv::Arr(xs) => xs.map_values(
            |e: Jv|
                match e {
                    Jv::Str(s) => s,
                    _ => Seq::empty(),
                },
        ),
        _ => Seq::empty(),
    }
}

/// An array of non-negative integers.
pub open spec fn sp_u64_list_ok(x: Jv) -> bool {
    x matches Jv::Arr(xs) && forall|i: int| 0 <= i < xs.len() ==> (#[trigger] xs[i]) is UInt
}

pub open spec fn sp_u64_list(x: Jv) -> Seq<u64> {
    match x {
        Jv::Arr(xs) => xs.map_values(
            |e: Jv|
                match e {
                    Jv::UInt(n) => n,
                    _ => 0u64,
                },
        ),
        _ => Seq::empty(),
    }
}

/// One stack frame: filename id, line and name are required; the
/// filename id must fit `u32`.
pub open spec fn sp_frame_ok(x: Jv) -> bool {
    &&& x is Obj
    &&& (jv_get(x, "filename"@) matches Some(f) && f matches Jv::UInt(n) && n <= u32::MAX as u64)
    &&& (jv_get(x, "line"@) matches Some(l) && l is UInt)
    &&& (jv_get(x, "name"@) matches Some(nm) && nm is Str)
    &&& sp_opt_str(x, "uninterned_filename"@) is Some
}

/// The frame fields: (filename id, line, name, uninterned filename).
pub open spec fn sp_frame(x: Jv) -> (u32, u64, Seq<char>, Option<Seq<char>>) {
    (
        match jv_get(x, "filename"@) {
            Some(Jv::UInt(n)) => n as u32,
            _ => 0u32,
        },
        match jv_get(x, "line"@) {
            Some(Jv::UInt(n)) => n,
            _ => 0u64,
        },
        match jv_get(x, "name"@) {
            Some(Jv::Str(s)) => s,
            _ => Seq::empty(),
        },
        match sp_opt_str(x, "uninterned_filename"@) {
            Some(o) => o,
            None => None,
        },
    )
}

/// A stack: an array of frames.
pub open spec fn sp_stack_ok(x: Jv) -> bool {
    x matches Jv::Arr(xs) && forall|i: int| 0 <= i < xs.len() ==> sp_frame_ok(#[trigger] xs[i])
}

pub open spec fn sp_stack(x: Jv) -> Seq<(u32, u64, Seq<char>, Option<Seq<char>>)> {
    match x {
        Jv::Arr(xs) => xs.map_values(|e: Jv| sp_frame(e)),
        _ => Seq::empty(),
    }
}

// ----- views of the exec metadata -----
pub open spec fn vs_opt_str(o: Option<String>) -> Option<Seq<char>> {
    match o {
        Some(s) => Some(s@),
        None => None,
    }
}

pub open spec fn vs_str_list(v: Vec<String>) -> Seq<Seq<char>> {
    v@.map_values(|s: String| s@)
}

pub open spec fn vs_frame(f: FrameSummary) -> (u32, u64, Seq<char>, Option<Seq<char>>) {
    (f.filename, f.line, f.name@, vs_opt_str(f.uninterned_filename))
}

pub open spec fn vs_stack(v: Vec<FrameSummary>) -> Seq<(u32, u64, Seq<char>, Option<Seq<char>>)> {
    v@.map_values(|f: FrameSummary| vs_frame(f))
}

// ----- exec field extraction primitives -----
/// Extracts an optional string field.
pub fn get_opt_string(v: &serde_json::Value, key: &str) -> (r: Option<Option<String>>)
    ensures
        match r {
            None => sp_opt_str(jmodel(*v), key@) is None,
            Some(o) => sp_opt_str(jmodel(*v), key@) == Some(vs_opt_str(o)),
        },
{
    match value_get(v, key) {
        None => Some(None),
        Some(x) => {
            if value_is_null(x) {
                Some(None)
            } else {
                match value_as_str(x) {
                    Some(s) => Some(Some(String::from_str(s))),
                    None => None,
                }
            }
        },
    }
}

/// Extracts an optional non-negative integer field.
pub fn get_opt_u64(v: &serde_json::Value, key: &str) -> (r: Option<Option<u64>>)
    ensures
        match r {
            None => sp_opt_u64(jmodel(*v), key@) is None,
            Some(o) => sp_opt_u64(jmodel(*v), key@) == Some(o),
        },
{
    match value_get(v, key) {
        None => Some(None),
        Some(x) => {
            if value_is_null(x) {
                Some(None)
            } else {
                match value_as_u64(x) {
                    Some(n) => Some(Some(n)),
                    None => None,
                }
            }
        },
    }
}

/// Extracts an optional `u32` field.
pub fn get_opt_u32(v: &serde_json::Value, key: &str) -> (r: Option<Option<u32>>)
    ensures
        match r {
            None => sp_opt_u32(jmodel(*v), key@) is None,
            Some(o) => sp_opt_u32(jmodel(*v), key@) == Some(o),
        },
{
    match value_get(v, key) {
        None => Some(None),
        Some(x) => {
            if value_is_null(x) {
                Some(None)
            } else {
                match value_as_u64(x) {
                    Some(n) => {
                        if n <= 0xFFFF_FFFF {
                            Some(Some(n as u32))
                        } else {
                            None
                        }
                    },
                    None => None,
                }
            }
        },
    }
}

/// Extracts an optional sentinel field.
pub fn get_opt_empty(v: &serde_json::Value, key: &str) -> (r: Option<bool>)
    ensures
        r == sp_opt_empty(jmodel(*v), key@),
{
    match value_get(v, key) {
        None => Some(false),
        Some(x) => {
            if value_is_null(x) {
                Some(false)
            } else if value_is_object(x) {
                Some(true)
            } else {
                None
            }
        },
    }
}

/// Extracts an array of strings.
pub fn get_string_list(x: &serde_json::Value) -> (r: Option<Vec<String>>)
    ensures
        (r is Some) == sp_str_list_ok(jmodel(*x)),
        r matches Some(l) ==> vs_str_list(l) == sp_str_list(jmodel(*x)),
{
    let n = match value_array_len(x) {
        Some(n) => n,
        None => {
            return None;
        },
    };
    let mut out: Vec<String> = Vec::new();
    let mut i: usize = 0;
    while i < n
        invariant
            i <= n,
            jmodel(*x) matches Jv::Arr(xs) && xs.len() == n,
            out@.len() == i,
            forall|k: int| 0 <= k < i ==> (#[trigger] jmodel(*x)->Arr_0[k]) is Str,
            forall|k: int|
                0 <= k < i ==> (#[trigger] out@[k])@ == sp_str_list(jmodel(*x))[k],
        decreases n - i,
    {
        let e = match value_array_get(x, i) {
            Some(e) => e,
            None => {
                return None;
            },
        };
        match value_as_str(e) {
            Some(s) => {
                out.push(String::from_str(s));
            },
            None => {
                return None;
            },
        }
        i = i + 1;
    }
    proof {
        assert(vs_str_list(out) =~= sp_str_list(jmodel(*x)));
    }
    Some(out)
}

/// Extracts an array of non-negative integers.
pub fn get_u64_list(x: &serde_json::Value) -> (r: Option<Vec<u64>>)
    ensures
        (r is Some) == sp_u64_list_ok(jmodel(*x)),
        r matches Some(l) ==> l@ == sp_u64_list(jmodel(*x)),
{
    let n = match value_array_len(x) {
        Some(n) => n,
        None => {
            return None;
        },
    };
    let mut out: Vec<u64> = Vec::new();
    let mut i: usize = 0;
    while i < n
        invariant
            i <= n,
            jmodel(*x) matches Jv::Arr(xs) && xs.len() == n,
            out@.len() == i,
            forall|k: int| 0 <= k < i ==> (#[trigger] jmodel(*x)->Arr_0[k]) is UInt,
            forall|k: int| 0 <= k < i ==> #[trigger] out@[k] == sp_u64_list(jmodel(*x))[k],
        decreases n - i,
    {
        let e = match value_array_get(x, i) {
            Some(e) => e,
            None => {
                return None;
            },
        };
        match value_as_u64(e) {
            Some(nv) => {
                out.push(nv);
            },
            None => {
                return None;
            },
        }
        i = i + 1;
    }
    proof {
        assert(out@ =~= sp_u64_list(jmodel(*x)));
    }
    Some(out)
}

/// Extracts one stack frame.
pub fn get_frame(x: &serde_json::Value) -> (r: Option<FrameSummary>)
    ensures
        (r is Some) == sp_frame_ok(jmodel(*x)),
        r matches Some(f) ==> vs_frame(f) == sp_frame(jmodel(*x)),
{
    if !value_is_object(x) {
        return None;
    }
    let filename = match value_get(x, "filename") {
        Some(fv) => match value_as_u64(fv) {
            Some(n) => {
                if n <= 0xFFFF_FFFF {
                    n as u32
                } else {
                    return None;
                }
            },
            None => {
                return None;
            },
        },
        None => {
            return None;
        },
    };
    let line = match value_get(x, "line") {
        Some(lv) => match value_as_u64(lv) {
            Some(n) => n,
            None => {
                return None;
            },
        },
        None => {
            return None;
        },
    };
    let name = match value_get(x, "name") {
        Some(nv) => match value_as_str(nv) {
            Some(s) => String::from_str(s),
            None => {
                return None;
            },
        },
        None => {
            return None;
        },
    };
    let uninterned_filename = match get_opt_string(x, "uninterned_filename") {
        Some(o) => o,
        None => {
            return None;
        },
    };
    Some(FrameSummary { filename, line, name, uninterned_filename })
}

/// Extracts a stack: an array of frames.
pub fn get_stack(x: &serde_json::Value) -> (r: Option<Vec<FrameSummary>>)
    ensures
        (r is Some) == sp_stack_ok(jmodel(*x)),
        r matches Some(st) ==> vs_stack(st) == sp_stack(jmodel(*x)),
{
    let n = match value_array_len(x) {
        Some(n) => n,
        None => {
            return None;
        },
    };
    let mut out: Vec<FrameSummary> = Vec::new();
    let mut i: usize = 0;
    while i < n
        invariant
            i <= n,
            jmodel(*x) matches Jv::Arr(xs) && xs.len() == n,
            out@.len() == i,
            forall|k: int| 0 <= k < i ==> sp_frame_ok(#[trigger] jmodel(*x)->Arr_0[k]),
            forall|k: int|
                0 <= k < i ==> vs_frame(#[trigger] out@[k]) == sp_stack(jmodel(*x))[k],
        decreases n - i,
    {
        let e = match value_array_get(x, i) {
            Some(e) => e,
            None => {
                return None;
            },
        };
        match get_frame(e) {
            Some(f) => {
                out.push(f);
            },
            None => {
                return None;
            },
        }
        i = i + 1;
    }
    proof {
        assert(vs_stack(out) =~= sp_stack(jmodel(*x)));
    }
    Some(out)
}

/// Extracts an optional stack field.
pub fn get_opt_stack(v: &serde_json::Value, key: &str) -> (r: Option<Option<Vec<FrameSummary>>>)
    ensures
        match r {
            None => !sp_opt_stack_ok(jmodel(*v), key@),
            Some(o) => sp_opt_stack_ok(jmodel(*v), key@) && (match o {
                Some(st) => sp_opt_stack(jmodel(*v), key@) == Some(vs_stack(st)),
                None => sp_opt_stack(jmodel(*v), key@) is None,
            }),
        },
{
    match value_get(v, key) {
        None => Some(None),
        Some(x) => {
            if value_is_null(x) {
                Some(None)
            } else {
                match get_stack(x) {
                    Some(st) => Some(Some(st)),
                    None => None,
                }
            }
        },
    }
}

/// Whether an optional stack field decodes.
pub open spec fn sp_opt_stack_ok(m: Jv, key: Seq<char>) -> bool {
    match jv_get(m, key) {
        None => true,
        Some(Jv::Null) => true,
        Some(x) => sp_stack_ok(x),
    }
}

/// The decoded optional stack field.
pub open spec fn sp_opt_stack(m: Jv, key: Seq<char>) -> Option<
    Seq<(u32, u64, Seq<char>, Option<Seq<char>>)>,
> {
    match jv_get(m, key) {
        None => None,
        Some(Jv::Null) => None,
        Some(x) => Some(sp_stack(x)),
    }
}

/// Whether an optional string-list field decodes.
pub open spec fn sp_opt_str_list_ok(m: Jv, key: Seq<char>) -> bool {
    match jv_get(m, key) {
        None => true,
        Some(Jv::Null) => true,
        Some(x) => sp_str_list_ok(x),
    }
}

pub open spec fn sp_opt_str_list(m: Jv, key: Seq<char>) -> Option<Seq<Seq<char>>> {
    match jv_get(m, key) {
        None => None,
        Some(Jv::Null) => None,
        Some(x) => Some(sp_str_list(x)),
    }
}

/// Extracts an optional string-list field.
pub fn get_opt_string_list(v: &serde_json::Value, key: &str) -> (r: Option<Option<Vec<String>>>)
    ensures
        match r {
            None => !sp_opt_str_list_ok(jmodel(*v), key@),
            Some(o) => sp_opt_str_list_ok(jmodel(*v), key@) && (match o {
                Some(l) => sp_opt_str_list(jmodel(*v), key@) == Some(vs_str_list(l)),
                None => sp_opt_str_list(jmodel(*v), key@) is None,
            }),
        },
{
    match value_get(v, key) {
        None => Some(None),
        Some(x) => {
            if value_is_null(x) {
                Some(None)
            } else {
                match get_string_list(x) {
                    Some(l) => Some(Some(l)),
                    None => None,
                }
            }
        },
    }
}

/// Whether an optional integer-list field decodes.
pub open spec fn sp_opt_u64_list_ok(m: Jv, key: Seq<char>) -> bool {
    match jv_get(m, key) {
        None => true,
        Some(Jv::Null) => true,
        Some(x) => sp_u64_list_ok(x),
    }
}

pub open spec fn sp_opt_u64_list(m: Jv, key: Seq<char>) -> Option<Seq<u64>> {
    match jv_get(m, key) {
        None => None,
        Some(Jv::Null) => None,
        Some(x) => Some(sp_u64_list(x)),
    }
}

/// Extracts an optional integer-list field.
pub fn get_opt_u64_list(v: &serde_json::Value, key: &str) -> (r: Option<Option<Vec<u64>>>)
    ensures
        match r {
            None => !sp_opt_u64_list_ok(jmodel(*v), key@),
            Some(o) => sp_opt_u64_list_ok(jmodel(*v), key@) && (match o {
                Some(l) => sp_opt_u64_list(jmodel(*v), key@) == Some(l@),
                None => sp_opt_u64_list(jmodel(*v), key@) is None,
            }),
        },
{
    match value_get(v, key) {
        None => Some(None),
        Some(x) => {
            if value_is_null(x) {
                Some(None)
            } else {
                match get_u64_list(x) {
                    Some(l) => Some(Some(l)),
                    None => None,
                }
            }
        },
    }
}

// ----- metadata sub-documents -----
/// Whether a guard record decodes.
pub open spec fn sp_guard_ok(x: Jv) -> bool {
    &&& x is Obj
    &&& sp_opt_str(x, "expr"@) is Some
    &&& sp_opt_str(x, "prefix"@) is Some
    &&& sp_opt_str(x, "result"@) is Some
    &&& sp_opt_u64(x, "expr_node_id"@) is Some
    &&& sp_opt_stack_ok(x, "user_stack"@)
    &&& sp_opt_stack_ok(x, "stack"@)
}

pub open spec fn sp_guard_matches(x: Jv, g: GuardMetadata) -> bool {
    &&& sp_opt_str(x, "expr"@) == Some(vs_opt_str(g.expr))
    &&& sp_opt_str(x, "prefix"@) == Some(vs_opt_str(g.prefix))
    &&& sp_opt_str(x, "result"@) == Some(vs_opt_str(g.result))
    &&& sp_opt_u64(x, "expr_node_id"@) == Some(g.expr_node_id)
    &&& (match g.user_stack {
        Some(st) => sp_opt_stack(x, "user_stack"@) == Some(vs_stack(st)),
        None => sp_opt_stack(x, "user_stack"@) is None,
    })
    &&& (match g.stack {
        Some(st) => sp_opt_stack(x, "stack"@) == Some(vs_stack(st)),
        None => sp_opt_stack(x, "stack"@) is None,
    })
}

fn parse_guard(x: &serde_json::Value) -> (r: Option<GuardMetadata>)
    ensures
        (r is Some) == sp_guard_ok(jmodel(*x)),
        r matches Some(g) ==> sp_guard_matches(jmodel(*x), g),
{
    if !value_is_object(x) {
        return None;
    }
    let expr = match get_opt_string(x, "expr") {
        Some(o) => o,
        None => { return None; },
    };
    let prefix = match get_opt_string(x, "prefix") {
        Some(o) => o,
        None => { return None; },
    };
    let result = match get_opt_string(x, "result") {
        Some(o) => o,
        None => { return None; },
    };
    let expr_node_id = match get_opt_u64(x, "expr_node_id") {
        Some(o) => o,
        None => { return None; },
    };
    let user_stack = match get_opt_stack(x, "user_stack") {
        Some(o) => o,
        None => { return None; },
    };
    let stack = match get_opt_stack(x, "stack") {
        Some(o) => o,
        None => { return None; },
    };
    Some(GuardMetadata { expr, prefix, result, expr_node_id, user_stack, stack })
}

/// Whether a compilation-metrics record decodes.
pub open spec fn sp_metrics_ok(x: Jv) -> bool {
    &&& x is Obj
    &&& sp_opt_str(x, "co_name"@) is Some
    &&& sp_opt_str(x, "co_filename"@) is Some
    &&& sp_opt_u64(x, "co_firstlineno"@) is Some
    &&& sp_opt_str_list_ok(x, "restart_reasons"@)
    &&& sp_opt_str(x, "fail_type"@) is Some
    &&& sp_opt_str(x, "fail_reason"@) is Some
    &&& sp_opt_str(x, "fail_user_frame_filename"@) is Some
    &&& sp_opt_u64(x, "fail_user_frame_lineno"@) is Some
}

pub open spec fn sp_metrics_matches(x: Jv, m: CompilationMetricsMetadata) -> bool {
    &&& sp_opt_str(x, "co_name"@) == Some(vs_opt_str(m.co_name))
    &&& sp_opt_str(x, "co_filename"@) == Some(vs_opt_str(m.co_filename))
    &&& sp_opt_u64(x, "co_firstlineno"@) == Some(m.co_firstlineno)
    &&& (match m.restart_reasons {
        Some(l) => sp_opt_str_list(x, "restart_reasons"@) == Some(vs_str_list(l)),
        None => sp_opt_str_list(x, "restart_reasons"@) is None,
    })
    &&& sp_opt_str(x, "fail_type"@) == Some(vs_opt_str(m.fail_type))
    &&& sp_opt_str(x, "fail_reason"@) == Some(vs_opt_str(m.fail_reason))
    &&& sp_opt_str(x, "fail_user_frame_filename"@) == Some(vs_opt_str(m.fail_user_frame_filename))
    &&& sp_opt_u64(x, "fail_user_frame_lineno"@) == Some(m.fail_user_frame_lineno)
}

fn parse_metrics(x: &serde_json::Value) -> (r: Option<CompilationMetricsMetadata>)
    ensures
        (r is Some) == sp_metrics_ok(jmodel(*x)),
        r matches Some(m) ==> sp_metrics_matches(jmodel(*x), m),
{
    if !value_is_object(x) {
        return None;
    }
    let co_name = match get_opt_string(x, "co_name") {
        Some(o) => o,
        None => { return None; },
    };
    let co_filename = match get_opt_string(x, "co_filename") {
        Some(o) => o,
        None => { return None; },
    };
    let co_firstlineno = match get_opt_u64(x, "co_firstlineno") {
        Some(o) => o,
        None => { return None; },
    };
    let restart_reasons = match get_opt_string_list(x, "restart_reasons") {
        Some(o) => o,
        None => { return None; },
    };
    let fail_type = match get_opt_string(x, "fail_type") {
        Some(o) => o,
        None => { return None; },
    };
    let fail_reason = match get_opt_string(x, "fail_reason") {
        Some(o) => o,
        None => { return None; },
    };
    let fail_user_frame_filename = match get_opt_string(x, "fail_user_frame_filename") {
        Some(o) => o,
        None => { return None; },
    };
    let fail_user_frame_lineno = match get_opt_u64(x, "fail_user_frame_lineno") {
        Some(o) => o,
        None => { return None; },
    };
    Some(
        CompilationMetricsMetadata {
            co_name,
            co_filename,
            co_firstlineno,
            restart_reasons,
            fail_type,
            fail_reason,
            fail_user_frame_filename,
            fail_user_frame_lineno,
        },
    )
}

/// Whether a symbolic-expression record decodes.
pub open spec fn sp_symexpr_ok(x: Jv) -> bool {
    &&& x is Obj
    &&& sp_opt_str(x, "result"@) is Some
    &&& sp_opt_u64(x, "result_id"@) is Some
    &&& sp_opt_str(x, "method"@) is Some
    &&& sp_opt_str_list_ok(x, "arguments"@)
    &&& sp_opt_u64_list_ok(x, "argument_ids"@)
    &&& sp_opt_stack_ok(x, "user_stack"@)
    &&& sp_opt_stack_ok(x, "stack"@)
}

pub open spec fn sp_symexpr_matches(x: Jv, m: SymExprInfoMetadata) -> bool {
    &&& sp_opt_str(x, "result"@) == Some(vs_opt_str(m.result))
    &&& sp_opt_u64(x, "result_id"@) == Some(m.result_id)
    &&& sp_opt_str(x, "method"@) == Some(vs_opt_str(m.method))
    &&& (match m.arguments {
        Some(l) => sp_opt_str_list(x, "arguments"@) == Some(vs_str_list(l)),
        None => sp_opt_str_list(x, "arguments"@) is None,
    })
    &&& (match m.argument_ids {
        Some(l) => sp_opt_u64_list(x, "argument_ids"@) == Some(l@),
        None => sp_opt_u64_list(x, "argument_ids"@) is None,
    })
    &&& (match m.user_stack {
        Some(st) => sp_opt_stack(x, "user_stack"@) == Some(vs_stack(st)),
        None => sp_opt_stack(x, "user_stack"@) is None,
    })
    &&& (match m.stack {
        Some(st) => sp_opt_stack(x, "stack"@) == Some(vs_stack(st)),
        None => sp_opt_stack(x, "stack"@) is None,
    })
}

fn parse_symexpr(x: &serde_json::Value) -> (r: Option<SymExprInfoMetadata>)
    ensures
        (r is Some) == sp_symexpr_ok(jmodel(*x)),
        r matches Some(m) ==> sp_symexpr_matches(jmodel(*x), m),
{
    if !value_is_object(x) {
        return None;
    }
    let result = match get_opt_string(x, "result") {
        Some(o) => o,
        None => { return None; },
    };
    let result_id = match get_opt_u64(x, "result_id") {
        Some(o) => o,
        None => { return None; },
    };
    let method = match get_opt_string(x, "method") {
        Some(o) => o,
        None => { return None; },
    };
    let arguments = match get_opt_string_list(x, "arguments") {
        Some(o) => o,
        None => { return None; },
    };
    let argument_ids = match get_opt_u64_list(x, "argument_ids") {
        Some(o) => o,
        None => { return None; },
    };
    let user_stack = match get_opt_stack(x, "user_stack") {
        Some(o) => o,
        None => { return None; },
    };
    let stack = match get_opt_stack(x, "stack") {
        Some(o) => o,
        None => { return None; },
    };
    Some(
        SymExprInfoMetadata {
            result,
            result_id,
            method,
            arguments,
            argument_ids,
            user_stack,
            stack,
        },
    )
}

/// Whether a generic (symbol, id, stacks) record decodes: used for
/// unbacked symbols, specializations and fast guards.
pub open spec fn sp_sym_ok(x: Jv, key1: Seq<char>, key2_u64: bool, key2: Seq<char>) -> bool {
    &&& x is Obj
    &&& sp_opt_str(x, key1) is Some
    &&& (if key2_u64 {
        sp_opt_u64(x, key2) is Some
    } else {
        sp_opt_str_list_ok(x, key2)
    })
    &&& sp_opt_stack_ok(x, "user_stack"@)
    &&& sp_opt_stack_ok(x, "stack"@)
}

fn parse_unbacked(x: &serde_json::Value) -> (r: Option<UnbackedSymbolMetadata>)
    ensures
        (r is Some) == sp_sym_ok(jmodel(*x), "symbol"@, true, "node_id"@),
        r matches Some(m) ==> {
            &&& sp_opt_str(jmodel(*x), "symbol"@) == Some(vs_opt_str(m.symbol))
            &&& sp_opt_u64(jmodel(*x), "node_id"@) == Some(m.node_id)
            &&& (match m.user_stack {
                Some(st) => sp_opt_stack(jmodel(*x), "user_stack"@) == Some(vs_stack(st)),
                None => sp_opt_stack(jmodel(*x), "user_stack"@) is None,
            })
            &&& (match m.stack {
                Some(st) => sp_opt_stack(jmodel(*x), "stack"@) == Some(vs_stack(st)),
                None => sp_opt_stack(jmodel(*x), "stack"@) is None,
            })
        },
{
    if !value_is_object(x) {
        return None;
    }
    let symbol = match get_opt_string(x, "symbol") {
        Some(o) => o,
        None => { return None; },
    };
    let node_id = match get_opt_u64(x, "node_id") {
        Some(o) => o,
        None => { return None; },
    };
    let user_stack = match get_opt_stack(x, "user_stack") {
        Some(o) => o,
        None => { return None; },
    };
    let stack = match get_opt_stack(x, "stack") {
        Some(o) => o,
        None => { return None; },
    };
    Some(UnbackedSymbolMetadata { symbol, node_id, user_stack, stack })
}

/// Whether a specialization record decodes.
pub open spec fn sp_spec_ok(x: Jv) -> bool {
    &&& x is Obj
    &&& sp_opt_str(x, "symbol"@) is Some
    &&& sp_opt_str_list_ok(x, "sources"@)
    &&& sp_opt_str(x, "value"@) is Some
    &&& sp_opt_stack_ok(x, "user_stack"@)
    &&& sp_opt_stack_ok(x, "stack"@)
}

fn parse_specialization(x: &serde_json::Value) -> (r: Option<SymbolicShapeSpecializationMetadata>)
    ensures
        (r is Some) == sp_spec_ok(jmodel(*x)),
        r matches Some(m) ==> {
            &&& sp_opt_str(jmodel(*x), "symbol"@) == Some(vs_opt_str(m.symbol))
            &&& (match m.sources {
                Some(l) => sp_opt_str_list(jmodel(*x), "sources"@) == Some(vs_str_list(l)),
                None => sp_opt_str_list(jmodel(*x), "sources"@) is None,
            })
            &&& sp_opt_str(jmodel(*x), "value"@) == Some(vs_opt_str(m.value))
        },
{
    if !value_is_object(x) {
        return None;
    }
    let symbol = match get_opt_string(x, "symbol") {
        Some(o) => o,
        None => { return None; },
    };
    let sources = match get_opt_string_list(x, "sources") {
        Some(o) => o,
        None => { return None; },
    };
    let value = match get_opt_string(x, "value") {
        Some(o) => o,
        None => { return None; },
    };
    let user_stack = match get_opt_stack(x, "user_stack") {
        Some(o) => o,
        None => { return None; },
    };
    let stack = match get_opt_stack(x, "stack") {
        Some(o) => o,
        None => { return None; },
    };
    Some(SymbolicShapeSpecializationMetadata { symbol, sources, value, user_stack, stack })
}

/// Whether a fast-guard record decodes.
pub open spec fn sp_fastguard_ok(x: Jv) -> bool {
    &&& x is Obj
    &&& sp_opt_str(x, "expr"@) is Some
    &&& sp_opt_stack_ok(x, "user_stack"@)
    &&& sp_opt_stack_ok(x, "stack"@)
}

fn parse_fastguard(x: &serde_json::Value) -> (r: Option<GuardAddedFastMetadata>)
    ensures
        (r is Some) == sp_fastguard_ok(jmodel(*x)),
        r matches Some(m) ==> sp_opt_str(jmodel(*x), "expr"@) == Some(vs_opt_str(m.expr)),
{
    if !value_is_object(x) {
        return None;
    }
    let expr = match get_opt_string(x, "expr") {
        Some(o) => o,
        None => { return None; },
    };
    let user_stack = match get_opt_stack(x, "user_stack") {
        Some(o) => o,
        None => { return None; },
    };
    let stack = match get_opt_stack(x, "stack") {
        Some(o) => o,
        None => { return None; },
    };
    Some(GuardAddedFastMetadata { expr, user_stack, stack })
}

/// Whether a fake-kernel record decodes.
pub open spec fn sp_kernel_ok(x: Jv) -> bool {
    &&& x is Obj
    &&& sp_opt_str(x, "op"@) is Some
    &&& sp_opt_str(x, "reason"@) is Some
}

fn parse_kernel(x: &serde_json::Value) -> (r: Option<KernelMetadata>)
    ensures
        (r is Some) == sp_kernel_ok(jmodel(*x)),
        r matches Some(m) ==> sp_opt_str(jmodel(*x), "op"@) == Some(vs_opt_str(m.op))
            && sp_opt_str(jmodel(*x), "reason"@) == Some(vs_opt_str(m.reason)),
{
    if !value_is_object(x) {
        return None;
    }
    let op = match get_opt_string(x, "op") {
        Some(o) => o,
        None => { return None; },
    };
    let reason = match get_opt_string(x, "reason") {
        Some(o) => o,
        None => { return None; },
    };
    Some(KernelMetadata { op, reason })
}

/// Whether a dynamo-start record decodes.
pub open spec fn sp_dynamo_start_ok(x: Jv) -> bool {
    x is Obj && sp_opt_stack_ok(x, "stack"@)
}

fn parse_dynamo_start(x: &serde_json::Value) -> (r: Option<DynamoStartMetadata>)
    ensures
        (r is Some) == sp_dynamo_start_ok(jmodel(*x)),
        r matches Some(m) ==> (match m.stack {
            Some(st) => sp_opt_stack(jmodel(*x), "stack"@) == Some(vs_stack(st)),
            None => sp_opt_stack(jmodel(*x), "stack"@) is None,
        }),
{
    if !value_is_object(x) {
        return None;
    }
    let stack = match get_opt_stack(x, "stack") {
        Some(o) => o,
        None => { return None; },
    };
    Some(DynamoStartMetadata { stack })
}

/// Whether a record with one required string field decodes.
pub open spec fn sp_named_ok(x: Jv, key: Seq<char>) -> bool {
    x is Obj && (jv_get(x, key) matches Some(nm) && nm is Str)
}

/// The required string field.
pub open spec fn sp_named(x: Jv, key: Seq<char>) -> Seq<char> {
    match jv_get(x, key) {
        Some(Jv::Str(s)) => s,
        _ => Seq::empty(),
    }
}

/// Extracts a required string field of a sub-record.
fn get_required_string(x: &serde_json::Value, key: &str) -> (r: Option<String>)
    ensures
        (r is Some) == (jv_get(jmodel(*x), key@) matches Some(nm) && nm is Str),
        r matches Some(s) ==> s@ == sp_named(jmodel(*x), key@),
{
    match value_get(x, key) {
        Some(nv) => match value_as_str(nv) {
            Some(s) => Some(String::from_str(s)),
            None => None,
        },
        None => None,
    }
}

/// Whether a compile id record decodes.
pub open spec fn sp_cid_ok(x: Jv) -> bool {
    &&& x is Obj
    &&& sp_opt_u32(x, "compiled_autograd_id"@) is Some
    &&& sp_opt_u32(x, "frame_id"@) is Some
    &&& sp_opt_u32(x, "frame_compile_id"@) is Some
    &&& sp_opt_u32(x, "attempt"@) is Some
}

pub open spec fn sp_cid_matches(x: Jv, c: CompileId) -> bool {
    &&& sp_opt_u32(x, "compiled_autograd_id"@) == Some(c.compiled_autograd_id)
    &&& sp_opt_u32(x, "frame_id"@) == Some(c.frame_id)
    &&& sp_opt_u32(x, "frame_compile_id"@) == Some(c.frame_compile_id)
    &&& sp_opt_u32(x, "attempt"@) == Some(c.attempt)
}

fn parse_compile_id(x: &serde_json::Value) -> (r: Option<CompileId>)
    ensures
        (r is Some) == sp_cid_ok(jmodel(*x)),
        r matches Some(c) ==> sp_cid_matches(jmodel(*x), c),
{
    if !value_is_object(x) {
        return None;
    }
    let compiled_autograd_id = match get_opt_u32(x, "compiled_autograd_id") {
        Some(o) => o,
        None => { return None; },
    };
    let frame_id = match get_opt_u32(x, "frame_id") {
        Some(o) => o,
        None => { return None; },
    };
    let frame_compile_id = match get_opt_u32(x, "frame_compile_id") {
        Some(o) => o,
        None => { return None; },
    };
    let attempt = match get_opt_u32(x, "attempt") {
        Some(o) => o,
        None => { return None; },
    };
    Some(CompileId { compiled_autograd_id, frame_id, frame_compile_id, attempt })
}

/// Whether an intern side-channel entry decodes: a two-element array of
/// a string and an id that fits `u32`.
pub open spec fn sp_str_entry_ok(x: Jv) -> bool {
    x matches Jv::Arr(xs) && xs.len() == 2 && xs[0] is Str && (xs[1] matches Jv::UInt(n) && n
        <= u32::MAX as u64)
}

pub open spec fn sp_str_entry(x: Jv) -> (Seq<char>, u32) {
    match x {
        Jv::Arr(xs) => (
            match xs[0] {
                Jv::Str(s) => s,
                _ => Seq::empty(),
            },
            match xs[1] {
                Jv::UInt(n) => n as u32,
                _ => 0u32,
            },
        ),
        _ => (Seq::empty(), 0u32),
    }
}

fn parse_str_entry(x: &serde_json::Value) -> (r: Option<(String, u32)>)
    ensures
        (r is Some) == sp_str_entry_ok(jmodel(*x)),
        r matches Some(p) ==> (p.0@, p.1) == sp_str_entry(jmodel(*x)),
{
    let n = match value_array_len(x) {
        Some(n) => n,
        None => { return None; },
    };
    if n != 2 {
        return None;
    }
    let s = match value_array_get(x, 0) {
        Some(e) => match value_as_str(e) {
            Some(s) => String::from_str(s),
            None => { return None; },
        },
        None => { return None; },
    };
    let id = match value_array_get(x, 1) {
        Some(e) => match value_as_u64(e) {
            Some(nv) => {
                if nv <= 0xFFFF_FFFF {
                    nv as u32
                } else {
                    return None;
                }
            },
            None => { return None; },
        },
        None => { return None; },
    };
    Some((s, id))
}

/// One decoded log record.  Exactly the recognized fields are modeled;
/// the keys of unrecognized fields are kept for diagnostics.
pub struct Envelope {
    pub rank: Option<u32>,
    pub compile_id: Option<CompileId>,
    pub has_payload: Option<String>,
    pub str_entry: Option<(String, u32)>,
    pub chromium_event: Option<EmptyMetadata>,
    pub stack: Option<StackSummary>,
    pub dynamo_start: Option<DynamoStartMetadata>,
    pub compilation_metrics: Option<CompilationMetricsMetadata>,
    pub guard_added: Option<GuardMetadata>,
    pub propagate_real_tensors_provenance: Option<GuardMetadata>,
    pub missing_fake_kernel: Option<KernelMetadata>,
    pub mismatched_fake_kernel: Option<KernelMetadata>,
    pub expression_created: Option<SymExprInfoMetadata>,
    pub create_unbacked_symbol: Option<UnbackedSymbolMetadata>,
    pub symbolic_shape_specialization: Option<SymbolicShapeSpecializationMetadata>,
    pub guard_added_fast: Option<GuardAddedFastMetadata>,
    pub graph_dump: Option<GraphDumpMetadata>,
    pub dynamo_output_graph: Option<EmptyMetadata>,
    pub dynamo_guards: Option<EmptyMetadata>,
    pub inductor_output_code: Option<InductorOutputCodeMetadata>,
    pub optimize_ddp_split_child: Option<OptimizeDdpSplitChildMetadata>,
    pub link: Option<LinkMetadata>,
    pub artifact: Option<ArtifactMetadata>,
    pub dump_file: Option<DumpFileMetadata>,
    pub optimize_ddp_split_graph: Option<EmptyMetadata>,
    pub compiled_autograd_graph: Option<EmptyMetadata>,
    pub aot_forward_graph: Option<EmptyMetadata>,
    pub aot_backward_graph: Option<EmptyMetadata>,
    pub aot_inference_graph: Option<EmptyMetadata>,
    pub aot_joint_graph: Option<EmptyMetadata>,
    pub inductor_post_grad_graph: Option<EmptyMetadata>,
    pub inductor_pre_grad_graph: Option<EmptyMetadata>,
    pub dynamo_cpp_guards_str: Option<EmptyMetadata>,
    pub exported_program: Option<EmptyMetadata>,
    pub aot_autograd_backward_compilation_metrics: Option<EmptyMetadata>,
    pub bwd_compilation_metrics: Option<EmptyMetadata>,
    pub unknown_keys: Vec<String>,
}

/// The keys the decoder recognizes.
pub open spec fn recognized_key(k: Seq<char>) -> bool {
    ||| k == "rank"@
    ||| k == "compile_id"@
    ||| k == "has_payload"@
    ||| k == "str"@
    ||| k == "chromium_event"@
    ||| k == "stack"@
    ||| k == "dynamo_start"@
    ||| k == "compilation_metrics"@
    ||| k == "guard_added"@
    ||| k == "propagate_real_tensors_provenance"@
    ||| k == "missing_fake_kernel"@
    ||| k == "mismatched_fake_kernel"@
    ||| k == "expression_created"@
    ||| k == "create_unbacked_symbol"@
    ||| k == "symbolic_shape_specialization"@
    ||| k == "guard_added_fast"@
    ||| k == "graph_dump"@
    ||| k == "dynamo_output_graph"@
    ||| k == "dynamo_guards"@
    ||| k == "inductor_output_code"@
    ||| k == "optimize_ddp_split_child"@
    ||| k == "link"@
    ||| k == "artifact"@
    ||| k == "dump_file"@
    ||| k == "optimize_ddp_split_graph"@
    ||| k == "compiled_autograd_graph"@
    ||| k == "aot_forward_graph"@
    ||| k == "aot_backward_graph"@
    ||| k == "aot_inference_graph"@
    ||| k == "aot_joint_graph"@
    ||| k == "inductor_post_grad_graph"@
    ||| k == "inductor_pre_grad_graph"@
    ||| k == "dynamo_cpp_guards_str"@
    ||| k == "exported_program"@
    ||| k == "aot_autograd_backward_compilation_metrics"@
    ||| k == "bwd_compilation_metrics"@
}

/// The unrecognized keys, in object order.
pub open spec fn spec_unknown_keys(keys: Seq<Seq<char>>) -> Seq<Seq<char>>
    decreases keys.len(),
{
    if keys.len() == 0 {
        Seq::empty()
    } else {
        spec_unknown_keys(keys.drop_last()) + (if recognized_key(keys.last()) {
            Seq::empty()
        } else {
            seq![keys.last()]
        })
    }
}

/// Exec test against the recognized keys.
fn is_recognized_key(k: &str) -> (r: bool)
    ensures
        r == recognized_key(k@),
{
    str_eq(k, "rank") || str_eq(k, "compile_id") || str_eq(k, "has_payload") || str_eq(k, "str")
        || str_eq(k, "chromium_event") || str_eq(k, "stack") || str_eq(k, "dynamo_start") || str_eq(
        k,
        "compilation_metrics",
    ) || str_eq(k, "guard_added") || str_eq(k, "propagate_real_tensors_provenance") || str_eq(
        k,
        "missing_fake_kernel",
    ) || str_eq(k, "mismatched_fake_kernel") || str_eq(k, "expression_created") || str_eq(
        k,
        "create_unbacked_symbol",
    ) || str_eq(k, "symbolic_shape_specialization") || str_eq(k, "guard_added_fast") || str_eq(
        k,
        "graph_dump",
    ) || str_eq(k, "dynamo_output_graph") || str_eq(k, "dynamo_guards") || str_eq(
        k,
        "inductor_output_code",
    ) || str_eq(k, "optimize_ddp_split_child") || str_eq(k, "link") || str_eq(k, "artifact")
        || str_eq(k, "dump_file") || str_eq(k, "optimize_ddp_split_graph") || str_eq(
        k,
        "compiled_autograd_graph",
    ) || str_eq(k, "aot_forward_graph") || str_eq(k, "aot_backward_graph") || str_eq(
        k,
        "aot_inference_graph",
    ) || str_eq(k, "aot_joint_graph") || str_eq(k, "inductor_post_grad_graph") || str_eq(
        k,
        "inductor_pre_grad_graph",
    ) || str_eq(k, "dynamo_cpp_guards_str") || str_eq(k, "exported_program") || str_eq(
        k,
        "aot_autograd_backward_compilation_metrics",
    ) || str_eq(k, "bwd_compilation_metrics")
}

/// Whether an optional metadata field either is absent/null or its
/// sub-record satisfies the given shape.
pub open spec fn field_absent(m: Jv, key: Seq<char>) -> bool {
    jv_get(m, key) is None || jv_get(m, key) == Some(Jv::Null)
}

/// Whether the whole record decodes.
pub open spec fn env_ok(m: Jv) -> bool {
    &&& m is Obj
    &&& sp_opt_u32(m, "rank"@) is Some
    &&& (field_absent(m, "compile_id"@) || (jv_get(m, "compile_id"@) matches Some(x) && sp_cid_ok(
        x,
    )))
    &&& sp_opt_str(m, "has_payload"@) is Some
    &&& (field_absent(m, "str"@) || (jv_get(m, "str"@) matches Some(x) && sp_str_entry_ok(x)))
    &&& sp_opt_empty(m, "chromium_event"@) is Some
    &&& sp_opt_stack_ok(m, "stack"@)
    &&& (field_absent(m, "dynamo_start"@) || (jv_get(m, "dynamo_start"@) matches Some(x)
        && sp_dynamo_start_ok(x)))
    &&& (field_absent(m, "compilation_metrics"@) || (jv_get(m, "compilation_metrics"@) matches Some(
        x,
    ) && sp_metrics_ok(x)))
    &&& (field_absent(m, "guard_added"@) || (jv_get(m, "guard_added"@) matches Some(x)
        && sp_guard_ok(x)))
    &&& (field_absent(m, "propagate_real_tensors_provenance"@) || (jv_get(
        m,
        "propagate_real_tensors_provenance"@,
    ) matches Some(x) && sp_guard_ok(x)))
    &&& (field_absent(m, "missing_fake_kernel"@) || (jv_get(m, "missing_fake_kernel"@) matches Some(
        x,
    ) && sp_kernel_ok(x)))
    &&& (field_absent(m, "mismatched_fake_kernel"@) || (jv_get(
        m,
        "mismatched_fake_kernel"@,
    ) matches Some(x) && sp_kernel_ok(x)))
    &&& (field_absent(m, "expression_created"@) || (jv_get(m, "expression_created"@) matches Some(x)
        && sp_symexpr_ok(x)))
    &&& (field_absent(m, "create_unbacked_symbol"@) || (jv_get(
        m,
        "create_unbacked_symbol"@,
    ) matches Some(x) && sp_sym_ok(x, "symbol"@, true, "node_id"@)))
    &&& (field_absent(m, "symbolic_shape_specialization"@) || (jv_get(
        m,
        "symbolic_shape_specialization"@,
    ) matches Some(x) && sp_spec_ok(x)))
    &&& (field_absent(m, "guard_added_fast"@) || (jv_get(m, "guard_added_fast"@) matches Some(x)
        && sp_fastguard_ok(x)))
    &&& (field_absent(m, "graph_dump"@) || (jv_get(m, "graph_dump"@) matches Some(x) && sp_named_ok(
        x,
        "name"@,
    )))
    &&& sp_opt_empty(m, "dynamo_output_graph"@) is Some
    &&& sp_opt_empty(m, "dynamo_guards"@) is Some
    &&& (field_absent(m, "inductor_output_code"@) || (jv_get(
        m,
        "inductor_output_code"@,
    ) matches Some(x) && x is Obj && sp_opt_str(x, "filename"@) is Some))
    &&& (field_absent(m, "optimize_ddp_split_child"@) || (jv_get(
        m,
        "optimize_ddp_split_child"@,
    ) matches Some(x) && sp_named_ok(x, "name"@)))
    &&& (field_absent(m, "link"@) || (jv_get(m, "link"@) matches Some(x) && sp_named_ok(x, "name"@)
        && sp_named_ok(x, "url"@)))
    &&& (field_absent(m, "artifact"@) || (jv_get(m, "artifact"@) matches Some(x) && sp_named_ok(
        x,
        "name"@,
    ) && sp_named_ok(x, "encoding"@)))
    &&& (field_absent(m, "dump_file"@) || (jv_get(m, "dump_file"@) matches Some(x) && sp_named_ok(
        x,
        "name"@,
    )))
    &&& sp_opt_empty(m, "optimize_ddp_split_graph"@) is Some
    &&& sp_opt_empty(m, "compiled_autograd_graph"@) is Some
    &&& sp_opt_empty(m, "aot_forward_graph"@) is Some
    &&& sp_opt_empty(m, "aot_backward_graph"@) is Some
    &&& sp_opt_empty(m, "aot_inference_graph"@) is Some
    &&& sp_opt_empty(m, "aot_joint_graph"@) is Some
    &&& sp_opt_empty(m, "inductor_post_grad_graph"@) is Some
    &&& sp_opt_empty(m, "inductor_pre_grad_graph"@) is Some
    &&& sp_opt_empty(m, "dynamo_cpp_guards_str"@) is Some
    &&& sp_opt_empty(m, "exported_program"@) is Some
    &&& sp_opt_empty(m, "aot_autograd_backward_compilation_metrics"@) is Some
    &&& sp_opt_empty(m, "bwd_compilation_metrics"@) is Some
}

/// The sentinel an optional-sentinel field decodes to.
pub open spec fn matches_empty(m: Jv, key: Seq<char>, f: Option<EmptyMetadata>) -> bool {
    sp_opt_empty(m, key) == Some(f is Some)
}

/// The decoded record carries exactly the fields of the document.
pub open spec fn env_matches(m: Jv, e: Envelope) -> bool {
    &&& sp_opt_u32(m, "rank"@) == Some(e.rank)
    &&& (match e.compile_id {
        None => field_absent(m, "compile_id"@),
        Some(c) => jv_get(m, "compile_id"@) matches Some(x) && !(x is Null) && sp_cid_matches(
            x,
            c,
        ),
    })
    &&& sp_opt_str(m, "has_payload"@) == Some(vs_opt_str(e.has_payload))
    &&& (match e.str_entry {
        None => field_absent(m, "str"@),
        Some(p) => jv_get(m, "str"@) matches Some(x) && sp_str_entry_ok(x) && (p.0@, p.1)
            == sp_str_entry(x),
    })
    &&& matches_empty(m, "chromium_event"@, e.chromium_event)
    &&& (match e.stack {
        None => sp_opt_stack(m, "stack"@) is None,
        Some(st) => sp_opt_stack(m, "stack"@) == Some(vs_stack(st)),
    })
    &&& (match e.dynamo_start {
        None => field_absent(m, "dynamo_start"@),
        Some(d) => jv_get(m, "dynamo_start"@) matches Some(x) && (match d.stack {
            Some(st) => sp_opt_stack(x, "stack"@) == Some(vs_stack(st)),
            None => sp_opt_stack(x, "stack"@) is None,
        }),
    })
    &&& (match e.compilation_metrics {
        None => field_absent(m, "compilation_metrics"@),
        Some(cm) => jv_get(m, "compilation_metrics"@) matches Some(x) && sp_metrics_matches(x, cm),
    })
    &&& (match e.guard_added {
        None => field_absent(m, "guard_added"@),
        Some(g) => jv_get(m, "guard_added"@) matches Some(x) && sp_guard_matches(x, g),
    })
    &&& (match e.propagate_real_tensors_provenance {
        None => field_absent(m, "propagate_real_tensors_provenance"@),
        Some(g) => jv_get(m, "propagate_real_tensors_provenance"@) matches Some(x)
            && sp_guard_matches(x, g),
    })
    &&& (match e.missing_fake_kernel {
        None => field_absent(m, "missing_fake_kernel"@),
        Some(km) => jv_get(m, "missing_fake_kernel"@) matches Some(x) && sp_opt_str(x, "op"@)
            == Some(vs_opt_str(km.op)),
    })
    &&& (match e.mismatched_fake_kernel {
        None => field_absent(m, "mismatched_fake_kernel"@),
        Some(km) => jv_get(m, "mismatched_fake_kernel"@) matches Some(x) && sp_opt_str(x, "op"@)
            == Some(vs_opt_str(km.op)) && sp_opt_str(x, "reason"@) == Some(vs_opt_str(km.reason)),
    })
    &&& (match e.expression_created {
        None => field_absent(m, "expression_created"@),
        Some(si) => jv_get(m, "expression_created"@) matches Some(x) && sp_symexpr_matches(x, si),
    })
    &&& (match e.create_unbacked_symbol {
        None => field_absent(m, "create_unbacked_symbol"@),
        Some(us) => jv_get(m, "create_unbacked_symbol"@) matches Some(x) && sp_opt_str(
            x,
            "symbol"@,
        ) == Some(vs_opt_str(us.symbol)) && sp_opt_u64(x, "node_id"@) == Some(us.node_id),
    })
    &&& (match e.symbolic_shape_specialization {
        None => field_absent(m, "symbolic_shape_specialization"@),
        Some(sp) => jv_get(m, "symbolic_shape_specialization"@) matches Some(x) && sp_opt_str(
            x,
            "symbol"@,
        ) == Some(vs_opt_str(sp.symbol)),
    })
    &&& (match e.guard_added_fast {
        None => field_absent(m, "guard_added_fast"@),
        Some(gf) => jv_get(m, "guard_added_fast"@) matches Some(x) && sp_opt_str(x, "expr"@)
            == Some(vs_opt_str(gf.expr)),
    })
    &&& (match e.graph_dump {
        None => field_absent(m, "graph_dump"@),
        Some(gd) => jv_get(m, "graph_dump"@) matches Some(x) && gd.name@ == sp_named(x, "name"@),
    })
    &&& matches_empty(m, "dynamo_output_graph"@, e.dynamo_output_graph)
    &&& matches_empty(m, "dynamo_guards"@, e.dynamo_guards)
    &&& (match e.inductor_output_code {
        None => field_absent(m, "inductor_output_code"@),
        Some(ic) => jv_get(m, "inductor_output_code"@) matches Some(x) && sp_opt_str(
            x,
            "filename"@,
        ) == Some(vs_opt_str(ic.filename)),
    })
    &&& (match e.optimize_ddp_split_child {
        None => field_absent(m, "optimize_ddp_split_child"@),
        Some(oc) => jv_get(m, "optimize_ddp_split_child"@) matches Some(x) && oc.name@ == sp_named(
            x,
            "name"@,
        ),
    })
    &&& (match e.link {
        None => field_absent(m, "link"@),
        Some(l) => jv_get(m, "link"@) matches Some(x) && l.name@ == sp_named(x, "name"@) && l.url@
            == sp_named(x, "url"@),
    })
    &&& (match e.artifact {
        None => field_absent(m, "artifact"@),
        Some(a) => jv_get(m, "artifact"@) matches Some(x) && a.name@ == sp_named(x, "name"@)
            && a.encoding@ == sp_named(x, "encoding"@),
    })
    &&& (match e.dump_file {
        None => field_absent(m, "dump_file"@),
        Some(d) => jv_get(m, "dump_file"@) matches Some(x) && d.name@ == sp_named(x, "name"@),
    })
    &&& matches_empty(m, "optimize_ddp_split_graph"@, e.optimize_ddp_split_graph)
    &&& matches_empty(m, "compiled_autograd_graph"@, e.compiled_autograd_graph)
    &&& matches_empty(m, "aot_forward_graph"@, e.aot_forward_graph)
    &&& matches_empty(m, "aot_backward_graph"@, e.aot_backward_graph)
    &&& matches_empty(m, "aot_inference_graph"@, e.aot_inference_graph)
    &&& matches_empty(m, "aot_joint_graph"@, e.aot_joint_graph)
    &&& matches_empty(m, "inductor_post_grad_graph"@, e.inductor_post_grad_graph)
    &&& matches_empty(m, "inductor_pre_grad_graph"@, e.inductor_pre_grad_graph)
    &&& matches_empty(m, "dynamo_cpp_guards_str"@, e.dynamo_cpp_guards_str)
    &&& matches_empty(m, "exported_program"@, e.exported_program)
    &&& matches_empty(
        m,
        "aot_autograd_backward_compilation_metrics"@,
        e.aot_autograd_backward_compilation_metrics,
    )
    &&& matches_empty(m, "bwd_compilation_metrics"@, e.bwd_compilation_metrics)
    &&& vs_str_list(e.unknown_keys) == spec_unknown_keys(jv_keys(m))
}

/// Decodes one record from its JSON document; `None` exactly where a
/// recognized field has the wrong shape or the document is no object.
#[verifier::rlimit(100)]
pub fn extract_envelope(v: &serde_json::Value) -> (r: Option<Envelope>)
    ensures
        (r is Some) == env_ok(jmodel(*v)),
        r matches Some(e) ==> env_matches(jmodel(*v), e),
{
    if !value_is_object(v) {
        return None;
    }
    let rank = match get_opt_u32(v, "rank") {
        Some(o) => o,
        None => { return None; },
    };
    let compile_id = match value_get(v, "compile_id") {
        None => None,
        Some(x) => {
            if value_is_null(x) {
                None
            } else {
                match parse_compile_id(x) {
                    Some(c) => Some(c),
                    None => { return None; },
                }
            }
        },
    };
    let has_payload = match get_opt_string(v, "has_payload") {
        Some(o) => o,
        None => { return None; },
    };
    let str_entry = match value_get(v, "str") {
        None => None,
        Some(x) => {
            if value_is_null(x) {
                None
            } else {
                match parse_str_entry(x) {
                    Some(p) => Some(p),
                    None => { return None; },
                }
            }
        },
    };
    let chromium_event = match get_opt_empty(v, "chromium_event") {
        Some(true) => Some(EmptyMetadata {}),
        Some(false) => None,
        None => { return None; },
    };
    let stack = match get_opt_stack(v, "stack") {
        Some(o) => o,
        None => { return None; },
    };
    let dynamo_start = match value_get(v, "dynamo_start") {
        None => None,
        Some(x) => {
            if value_is_null(x) {
                None
            } else {
                match parse_dynamo_start(x) {
                    Some(d) => Some(d),
                    None => { return None; },
                }
            }
        },
    };
    let compilation_metrics = match value_get(v, "compilation_metrics") {
        None => None,
        Some(x) => {
            if value_is_null(x) {
                None
            } else {
                match parse_metrics(x) {
                    Some(cm) => Some(cm),
                    None => { return None; },
                }
            }
        },
    };
    let guard_added = match value_get(v, "guard_added") {
        None => None,
        Some(x) => {
            if value_is_null(x) {
                None
            } else {
                match parse_guard(x) {
                    Some(g) => Some(g),
                    None => { return None; },
                }
            }
        },
    };
    let propagate_real_tensors_provenance = match value_get(
        v,
        "propagate_real_tensors_provenance",
    ) {
        None => None,
        Some(x) => {
            if value_is_null(x) {
                None
            } else {
                match parse_guard(x) {
                    Some(g) => Some(g),
                    None => { return None; },
                }
            }
        },
    };
    let missing_fake_kernel = match value_get(v, "missing_fake_kernel") {
        None => None,
        Some(x) => {
            if value_is_null(x) {
                None
            } else {
                match parse_kernel(x) {
                    Some(km) => Some(km),
                    None => { return None; },
                }
            }
        },
    };
    let mismatched_fake_kernel = match value_get(v, "mismatched_fake_kernel") {
        None => None,
        Some(x) => {
            if value_is_null(x) {
                None
            } else {
                match parse_kernel(x) {
                    Some(km) => Some(km),
                    None => { return None; },
                }
            }
        },
    };
    let expression_created = match value_get(v, "expression_created") {
        None => None,
        Some(x) => {
            if value_is_null(x) {
                None
            } else {
                match parse_symexpr(x) {
                    Some(si) => Some(si),
                    None => { return None; },
                }
            }
        },
    };
    let create_unbacked_symbol = match value_get(v, "create_unbacked_symbol") {
        None => None,
        Some(x) => {
            if value_is_null(x) {
                None
            } else {
                match parse_unbacked(x) {
                    Some(us) => Some(us),
                    None => { return None; },
                }
            }
        },
    };
    let symbolic_shape_specialization = match value_get(v, "symbolic_shape_specialization") {
        None => None,
        Some(x) => {
            if value_is_null(x) {
                None
            } else {
                match parse_specialization(x) {
                    Some(sp) => Some(sp),
                    None => { return None; },
                }
            }
        },
    };
    let guard_added_fast = match value_get(v, "guard_added_fast") {
        None => None,
        Some(x) => {
            if value_is_null(x) {
                None
            } else {
                match parse_fastguard(x) {
                    Some(gf) => Some(gf),
                    None => { return None; },
                }
            }
        },
    };
    let graph_dump = match value_get(v, "graph_dump") {
        None => None,
        Some(x) => {
            if value_is_null(x) {
                None
            } else if !value_is_object(x) {
                return None;
            } else {
                match get_required_string(x, "name") {
                    Some(name) => Some(GraphDumpMetadata { name }),
                    None => { return None; },
                }
            }
        },
    };
    let dynamo_output_graph = match get_opt_empty(v, "dynamo_output_graph") {
        Some(true) => Some(EmptyMetadata {}),
        Some(false) => None,
        None => { return None; },
    };
    let dynamo_guards = match get_opt_empty(v, "dynamo_guards") {
        Some(true) => Some(EmptyMetadata {}),
        Some(false) => None,
        None => { return None; },
    };
    let inductor_output_code = match value_get(v, "inductor_output_code") {
        None => None,
        Some(x) => {
            if value_is_null(x) {
                None
            } else if !value_is_object(x) {
                return None;
            } else {
                match get_opt_string(x, "filename") {
                    Some(filename) => Some(InductorOutputCodeMetadata { filename }),
                    None => { return None; },
                }
            }
        },
    };
    let optimize_ddp_split_child = match value_get(v, "optimize_ddp_split_child") {
        None => None,
        Some(x) => {
            if value_is_null(x) {
                None
            } else if !value_is_object(x) {
                return None;
            } else {
                match get_required_string(x, "name") {
                    Some(name) => Some(OptimizeDdpSplitChildMetadata { name }),
                    None => { return None; },
                }
            }
        },
    };
    let link = match value_get(v, "link") {
        None => None,
        Some(x) => {
            if value_is_null(x) {
                None
            } else if !value_is_object(x) {
                return None;
            } else {
                let name = match get_required_string(x, "name") {
                    Some(name) => name,
                    None => { return None; },
                };
                let url = match get_required_string(x, "url") {
                    Some(url) => url,
                    None => { return None; },
                };
                Some(LinkMetadata { name, url })
            }
        },
    };
    let artifact = match value_get(v, "artifact") {
        None => None,
        Some(x) => {
            if value_is_null(x) {
                None
            } else if !value_is_object(x) {
                return None;
            } else {
                let name = match get_required_string(x, "name") {
                    Some(name) => name,
                    None => { return None; },
                };
                let encoding = match get_required_string(x, "encoding") {
                    Some(encoding) => encoding,
                    None => { return None; },
                };
                Some(ArtifactMetadata { name, encoding })
            }
        },
    };
    let dump_file = match value_get(v, "dump_file") {
        None => None,
        Some(x) => {
            if value_is_null(x) {
                None
            } else if !value_is_object(x) {
                return None;
            } else {
                match get_required_string(x, "name") {
                    Some(name) => Some(DumpFileMetadata { name }),
                    None => { return None; },
                }
            }
        },
    };
    let optimize_ddp_split_graph = match get_opt_empty(v, "optimize_ddp_split_graph") {
        Some(true) => Some(EmptyMetadata {}),
        Some(false) => None,
        None => { return None; },
    };
    let compiled_autograd_graph = match get_opt_empty(v, "compiled_autograd_graph") {
        Some(true) => Some(EmptyMetadata {}),
        Some(false) => None,
        None => { return None; },
    };
    let aot_forward_graph = match get_opt_empty(v, "aot_forward_graph") {
        Some(true) => Some(EmptyMetadata {}),
        Some(false) => None,
        None => { return None; },
    };
    let aot_backward_graph = match get_opt_empty(v, "aot_backward_graph") {
        Some(true) => Some(EmptyMetadata {}),
        Some(false) => None,
        None => { return None; },
    };
    let aot_inference_graph = match get_opt_empty(v, "aot_inference_graph") {
        Some(true) => Some(EmptyMetadata {}),
        Some(false) => None,
        None => { return None; },
    };
    let aot_joint_graph = match get_opt_empty(v, "aot_joint_graph") {
        Some(true) => Some(EmptyMetadata {}),
        Some(false) => None,
        None => { return None; },
    };
    let inductor_post_grad_graph = match get_opt_empty(v, "inductor_post_grad_graph") {
        Some(true) => Some(EmptyMetadata {}),
        Some(false) => None,
        None => { return None; },
    };
    let inductor_pre_grad_graph = match get_opt_empty(v, "inductor_pre_grad_graph") {
        Some(true) => Some(EmptyMetadata {}),
        Some(false) => None,
        None => { return None; },
    };
    let dynamo_cpp_guards_str = match get_opt_empty(v, "dynamo_cpp_guards_str") {
        Some(true) => Some(EmptyMetadata {}),
        Some(false) => None,
        None => { return None; },
    };
    let exported_program = match get_opt_empty(v, "exported_program") {
        Some(true) => Some(EmptyMetadata {}),
        Some(false) => None,
        None => { return None; },
    };
    let aot_autograd_backward_compilation_metrics = match get_opt_empty(
        v,
        "aot_autograd_backward_compilation_metrics",
    ) {
        Some(true) => Some(EmptyMetadata {}),
        Some(false) => None,
        None => { return None; },
    };
    let bwd_compilation_metrics = match get_opt_empty(v, "bwd_compilation_metrics") {
        Some(true) => Some(EmptyMetadata {}),
        Some(false) => None,
        None => { return None; },
    };
    let keys = object_keys(v);
    let mut unknown_keys: Vec<String> = Vec::new();
    let ghost kv = keys@.map_values(|s: String| s@);
    let mut ki: usize = 0;
    while ki < keys.len()
        invariant
            ki <= keys@.len(),
            kv == keys@.map_values(|s: String| s@),
            vs_str_list(unknown_keys) == spec_unknown_keys(kv.subrange(0, ki as int)),
        decreases keys@.len() - ki,
    {
        let k = &keys[ki];
        if !is_recognized_key(k.as_str()) {
            unknown_keys.push(k.clone());
        }
        ki = ki + 1;
        proof {
            assert(kv.subrange(0, ki as int).drop_last() =~= kv.subrange(0, ki - 1));
            assert(kv.subrange(0, ki as int).last() == kv[ki - 1]);
            assert(vs_str_list(unknown_keys) =~= spec_unknown_keys(kv.subrange(0, ki as int)));
        }
    }
    proof {
        assert(kv.subrange(0, kv.len() as int) =~= kv);
    }
    Some(
        Envelope {
            rank,
            compile_id,
            has_payload,
            str_entry,
            chromium_event,
            stack,
            dynamo_start,
            compilation_metrics,
            guard_added,
            propagate_real_tensors_provenance,
            missing_fake_kernel,
            mismatched_fake_kernel,
            expression_created,
            create_unbacked_symbol,
            symbolic_shape_specialization,
            guard_added_fast,
            graph_dump,
            dynamo_output_graph,
            dynamo_guards,
            inductor_output_code,
            optimize_ddp_split_child,
            link,
            artifact,
            dump_file,
            optimize_ddp_split_graph,
            compiled_autograd_graph,
            aot_forward_graph,
            aot_backward_graph,
            aot_inference_graph,
            aot_joint_graph,
            inductor_post_grad_graph,
            inductor_pre_grad_graph,
            dynamo_cpp_guards_str,
            exported_program,
            aot_autograd_backward_compilation_metrics,
            bwd_compilation_metrics,
            unknown_keys,
        },
    )
}

} // verus!
