//! The syntax checker: whether one line is a complete JSON document.
use vstd::prelude::*;

verus! {

/// What `serde_json` makes of a line parsed as a `serde_json::Value`: `None`
/// when it accepts the line, else the text of the parse error. (It refuses
/// values nested deeper than its recursion limit, valid or not.)
pub uninterp spec fn serde_json_verdict(line: Seq<char>) -> Option<Seq<char>>;

/// What `sonic_rs` makes of a line parsed as a `sonic_rs::LazyValue`: `None`
/// when it accepts the line, else the text of the parse error.
pub uninterp spec fn sonic_rs_verdict(line: Seq<char>) -> Option<Seq<char>>;

/// The JSON parser that decides whether a line is valid.
#[derive(Clone, Copy, Debug, PartialEq, Eq, Structural)]
pub enum Backend {
    /// `serde_json`, the general-purpose parser.
    Serde,
    /// `sonic_rs`, the SIMD parser.
    Sonic,
}

/// The deepest nesting of brackets that `sonic_rs` is handed: deeper lines
/// are refused before parsing, since its parser recurses once per level.
pub const SONIC_MAX_NESTING: usize = 128;

/// The state of a scan of JSON text for brackets: the current depth, the
/// deepest depth so far, whether the scan is inside a string, and whether
/// the previous character inside a string was an escaping backslash.
pub open spec fn bracket_scan(s: Seq<char>) -> (nat, nat, bool, bool)
    decreases s.len(),
{
    if s.len() == 0 {
        (0, 0, false, false)
    } else {
        let (depth, deepest, in_string, escaped) = bracket_scan(s.drop_last());
        let c = s.last();
        if in_string {
            if escaped {
                (depth, deepest, true, false)
            } else if c == '\\' {
                (depth, deepest, true, true)
            } else if c == '"' {
                (depth, deepest, false, false)
            } else {
                (depth, deepest, true, false)
            }
        } else if c == '"' {
            (depth, deepest, true, false)
        } else if c == '[' || c == '{' {
            let d = depth + 1;
            (d, if d > deepest {
                d
            } else {
                deepest
            }, false, false)
        } else if c == ']' || c == '}' {
            (if depth > 0 {
                (depth - 1) as nat
            } else {
                0
            }, deepest, false, false)
        } else {
            (depth, deepest, false, false)
        }
    }
}

/// The deepest nesting of `[` and `{` in a text, outside strings. A
/// recursive-descent parser never goes deeper than this before it stops.
pub open spec fn nesting_depth(s: Seq<char>) -> nat {
    bracket_scan(s).1
}

/// The verdict of `backend` on `line`: `None` when the parser accepts the
/// line, else the description of the failure. Lines nested deeper than
/// `SONIC_MAX_NESTING` are refused without being handed to `sonic_rs`.
pub open spec fn verdict(backend: Backend, line: Seq<char>) -> Option<Seq<char>> {
    match backend {
        Backend::Serde => serde_json_verdict(line),
        Backend::Sonic => if nesting_depth(line) > SONIC_MAX_NESTING {
            Some("nesting deeper than 128 levels"@)
        } else {
            sonic_rs_verdict(line)
        },
    }
}

proof fn nesting_depth_grows(s: Seq<char>, i: int)
    requires
        0 <= i <= s.len(),
    ensures
        nesting_depth(s.take(i)) <= nesting_depth(s),
    decreases s.len() - i,
{
    if i < s.len() {
        let p = s.drop_last();
        assert(s.take(i) =~= p.take(i));
        nesting_depth_grows(p, i);
    } else {
        assert(s.take(i) =~= s);
    }
}

/// Whether `line` nests brackets deeper than `limit`.
pub fn nesting_exceeds(line: &str, limit: usize) -> (r: bool)
    ensures
        r == (nesting_depth(line@) > limit),
{
    let mut depth: usize = 0;
    let mut deepest: usize = 0;
    let mut in_string: bool = false;
    let mut escaped: bool = false;
    for c in it: line.chars()
        invariant
            it.seq() == line@,
            bracket_scan(line@.take(it.index() as int)) == (
                depth as nat,
                deepest as nat,
                in_string,
                escaped,
            ),
            depth <= deepest <= limit,
    {
        let ghost k = it.index();
        let ghost next = line@.take(k + 1);
        assert(next.drop_last() =~= line@.take(k as int));
        assert(next.last() == c);
        if in_string {
            if escaped {
                escaped = false;
            } else if c == '\\' {
                escaped = true;
            } else if c == '"' {
                in_string = false;
            }
        } else if c == '"' {
            in_string = true;
        } else if c == '[' || c == '{' {
            if depth >= limit {
                proof {
                    nesting_depth_grows(line@, k + 1);
                }
                return true;
            }
            depth = depth + 1;
            if depth > deepest {
                deepest = depth;
            }
        } else if c == ']' || c == '}' {
            if depth > 0 {
                depth = depth - 1;
            }
        }
    }
    assert(line@.take(line@.len() as int) =~= line@);
    false
}

/// The views of an optional message.
pub open spec fn opt_view(m: Option<String>) -> Option<Seq<char>> {
    match m {
        Some(s) => Some(s@),
        None => None,
    }
}

/// Relies on `serde_json::from_str::<serde_json::Value>`: `Ok` when the text
/// is one JSON value, else an error, whose text is returned. The outcome
/// depends on the text alone.
#[verifier::external_body]
fn serde_json_check(line: &str) -> (r: Option<String>)
    ensures
        opt_view(r) == serde_json_verdict(line@),
{
    match serde_json::from_str::<serde_json::Value>(line) {
        Ok(_) => None,
        Err(e) => Some(e.to_string()),
    }
}

/// Relies on `sonic_rs::from_str::<sonic_rs::LazyValue>`: `Ok` when it
/// accepts the text, else an error, whose text is returned. The outcome
/// depends on the text alone. Its parser skips the value by recursion
/// (`skip_one`, `skip_array`, `skip_object`) without a depth limit, one level
/// per bracket that it opens outside a string, so the nesting is bounded here
/// to keep the stack small.
#[verifier::external_body]
fn sonic_rs_check(line: &str) -> (r: Option<String>)
    requires
        nesting_depth(line@) <= SONIC_MAX_NESTING,
    ensures
        opt_view(r) == sonic_rs_verdict(line@),
{
    match sonic_rs::from_str::<sonic_rs::LazyValue>(line) {
        Ok(_) => None,
        Err(e) => Some(e.to_string()),
    }
}

/// Checks one line with the chosen parser: `None` when it accepts the line,
/// else the description of the failure.
pub fn check_line(backend: Backend, line: &str) -> (r: Option<String>)
    ensures
        opt_view(r) == verdict(backend, line@),
{
    match backend {
        Backend::Serde => serde_json_check(line),
        Backend::Sonic => {
            if nesting_exceeds(line, SONIC_MAX_NESTING) {
                Some("nesting deeper than 128 levels".to_owned())
            } else {
                sonic_rs_check(line)
            }
        },
    }
}

} // verus!
