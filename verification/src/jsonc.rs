//! Turning JSONC (JSON with comments and trailing commas, as editors write
//! their config files) into plain JSON text.
//!
//! Both passes walk the characters of their input and keep every character
//! that is not part of a comment or a dropped comma, unchanged and in order.

use vstd::prelude::*;
use crate::text::{chars_of, is_ws, is_whitespace};

verus! {

/// Where the comment scanner is.
#[derive(PartialEq, Eq, Structural)]
pub enum Mode {
    /// Outside strings and comments.
    Code,
    /// Inside a string literal.
    Str,
    /// Inside a `//` comment (up to, not including, the end of the line).
    Line,
    /// Inside a `/* */` comment.
    Block,
}

/// The characters the comment pass emits for `b[i..]`, scanning in mode `m`.
pub open spec fn uncomment(b: Seq<char>, i: int, m: Mode) -> Seq<char>
    decreases b.len() - i,
{
    if i < 0 || i >= b.len() {
        Seq::empty()
    } else {
        let c = b[i];
        let has_next = i + 1 < b.len();
        match m {
            Mode::Str => {
                if c == '\\' && has_next {
                    seq![c, b[i + 1]] + uncomment(b, i + 2, Mode::Str)
                } else if c == '"' {
                    seq![c] + uncomment(b, i + 1, Mode::Code)
                } else {
                    seq![c] + uncomment(b, i + 1, Mode::Str)
                }
            },
            Mode::Code => {
                if c == '"' {
                    seq![c] + uncomment(b, i + 1, Mode::Str)
                } else if c == '/' && has_next && b[i + 1] == '/' {
                    uncomment(b, i + 2, Mode::Line)
                } else if c == '/' && has_next && b[i + 1] == '*' {
                    uncomment(b, i + 2, Mode::Block)
                } else {
                    seq![c] + uncomment(b, i + 1, Mode::Code)
                }
            },
            Mode::Line => {
                if c == '\n' {
                    seq![c] + uncomment(b, i + 1, Mode::Code)
                } else {
                    uncomment(b, i + 1, Mode::Line)
                }
            },
            Mode::Block => {
                if c == '*' && has_next && b[i + 1] == '/' {
                    uncomment(b, i + 2, Mode::Code)
                } else if has_next {
                    uncomment(b, i + 1, Mode::Block)
                } else {
                    Seq::empty()
                }
            },
        }
    }
}

/// Remove `//` and `/* */` comments outside string literals.
pub fn strip_comments(src: &str) -> (out: String)
    ensures
        out@ == uncomment(src@, 0, Mode::Code),
{
    let b = chars_of(src);
    let n = b.len();
    let mut out = String::new();
    let mut i: usize = 0;
    let mut m = Mode::Code;
    while i < n
        invariant
            n == b@.len(),
            b@ == src@,
            out@ + uncomment(b@, i as int, m) == uncomment(b@, 0, Mode::Code),
        decreases n - i,
    {
        let c = b[i];
        let has_next = i + 1 < n;
        match m {
            Mode::Str => {
                if c == '\\' && has_next {
                    out.push(c);
                    out.push(b[i + 1]);
                    i = i + 2;
                } else if c == '"' {
                    out.push(c);
                    i = i + 1;
                    m = Mode::Code;
                } else {
                    out.push(c);
                    i = i + 1;
                }
            },
            Mode::Code => {
                if c == '"' {
                    out.push(c);
                    i = i + 1;
                    m = Mode::Str;
                } else if c == '/' && has_next && b[i + 1] == '/' {
                    i = i + 2;
                    m = Mode::Line;
                } else if c == '/' && has_next && b[i + 1] == '*' {
                    i = i + 2;
                    m = Mode::Block;
                } else {
                    out.push(c);
                    i = i + 1;
                }
            },
            Mode::Line => {
                if c == '\n' {
                    out.push(c);
                    m = Mode::Code;
                }
                i = i + 1;
            },
            Mode::Block => {
                if c == '*' && has_next && b[i + 1] == '/' {
                    i = i + 2;
                    m = Mode::Code;
                } else if has_next {
                    i = i + 1;
                } else {
                    i = n;
                }
            },
        }
    }
    assert(out@ + uncomment(b@, i as int, m) == out@);
    out
}

/// First position at or after `j` whose character is not whitespace (`b.len()` when none).
pub open spec fn next_solid(b: Seq<char>, j: int) -> int
    decreases b.len() - j,
{
    if j < 0 || j >= b.len() {
        b.len() as int
    } else if is_ws(b[j]) {
        next_solid(b, j + 1)
    } else {
        j
    }
}

/// The characters the comma pass emits for `b[i..]` (`in_str`: inside a string
/// literal): a comma outside strings is dropped when the next non-whitespace
/// character closes an object or an array.
pub open spec fn uncomma(b: Seq<char>, i: int, in_str: bool) -> Seq<char>
    decreases b.len() - i,
{
    if i < 0 || i >= b.len() {
        Seq::empty()
    } else {
        let c = b[i];
        if in_str {
            if c == '\\' && i + 1 < b.len() {
                seq![c, b[i + 1]] + uncomma(b, i + 2, true)
            } else if c == '"' {
                seq![c] + uncomma(b, i + 1, false)
            } else {
                seq![c] + uncomma(b, i + 1, true)
            }
        } else if c == '"' {
            seq![c] + uncomma(b, i + 1, true)
        } else if c == ',' && next_solid(b, i + 1) < b.len() && (b[next_solid(b, i + 1)] == '}'
            || b[next_solid(b, i + 1)] == ']') {
            uncomma(b, i + 1, false)
        } else {
            seq![c] + uncomma(b, i + 1, false)
        }
    }
}

/// Remove commas that immediately precede a closing `}` or `]` (ignoring whitespace).
pub fn strip_trailing_commas(src: &str) -> (out: String)
    ensures
        out@ == uncomma(src@, 0, false),
{
    let b = chars_of(src);
    let n = b.len();
    let mut out = String::new();
    let mut i: usize = 0;
    let mut in_str = false;
    while i < n
        invariant
            n == b@.len(),
            b@ == src@,
            out@ + uncomma(b@, i as int, in_str) == uncomma(b@, 0, false),
        decreases n - i,
    {
        let c = b[i];
        if in_str {
            if c == '\\' && i + 1 < n {
                out.push(c);
                out.push(b[i + 1]);
                i = i + 2;
            } else if c == '"' {
                out.push(c);
                in_str = false;
                i = i + 1;
            } else {
                out.push(c);
                i = i + 1;
            }
        } else if c == '"' {
            out.push(c);
            in_str = true;
            i = i + 1;
        } else {
            let mut drop = false;
            if c == ',' {
                let mut j = i + 1;
                while j < n && is_whitespace(b[j])
                    invariant
                        n == b@.len(),
                        i + 1 <= j <= n,
                        next_solid(b@, j as int) == next_solid(b@, i + 1),
                    decreases n - j,
                {
                    j = j + 1;
                }
                drop = j < n && (b[j] == '}' || b[j] == ']');
            }
            if !drop {
                out.push(c);
            }
            i = i + 1;
        }
    }
    out
}

/// Strip JSONC niceties: line/block comments, then trailing commas.
pub fn strip_jsonc(src: &str) -> (out: String)
    ensures
        out@ == uncomma(uncomment(src@, 0, Mode::Code), 0, false),
{
    let without_comments = strip_comments(src);
    strip_trailing_commas(without_comments.as_str())
}

} // verus!
