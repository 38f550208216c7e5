//! The client token: a shared secret that a client presents in `hello`.

use crate::text::{chars_of, is_ws, lemma_skip_ws, lemma_trim_end_at, skip_ws, trim, trim_bounds, trim_end_at, string_of};
use vstd::prelude::*;

verus! {

/// Calls `getrandom::getrandom` on a buffer of `len` bytes. Claimed: on success
/// the `len` bytes are returned; on failure, the error's message. Nothing is
/// claimed of the bytes.
#[verifier::external_body]
fn random_bytes(len: usize) -> (r: Result<Vec<u8>, String>)
    ensures
        r matches Ok(b) ==> b@.len() == len,
{
    let mut buf = vec![0u8; len];
    match getrandom::getrandom(&mut buf) {
        Ok(()) => Ok(buf),
        Err(e) => Err(e.to_string()),
    }
}

/// The lowercase hex digit for `d < 16`.
pub open spec fn hex_digit(d: nat) -> char {
    if d < 10 { ((48 + d) as u8) as char } else { ((87 + d) as u8) as char }
}

/// Each byte as two lowercase hex digits, high nibble first.
pub open spec fn hex(bytes: Seq<u8>) -> Seq<char>
    decreases bytes.len(),
{
    if bytes.len() == 0 {
        Seq::empty()
    } else {
        hex(bytes.drop_last()) + seq![hex_digit((bytes.last() / 16) as nat), hex_digit((bytes.last() % 16) as nat)]
    }
}

proof fn lemma_hex_chars(b: Seq<u8>)
    ensures
        hex(b).len() == 2 * b.len(),
        forall|k: int| 0 <= k < hex(b).len() ==> !is_ws(#[trigger] hex(b)[k]),
    decreases b.len(),
{
    if b.len() > 0 {
        let p = b.drop_last();
        lemma_hex_chars(p);
        let x = b.last();
        let hi = (x / 16) as nat;
        let lo = (x % 16) as nat;
        assert(hex_digit(hi) as u32 == (if hi < 10 { 48 + hi } else { 87 + hi }));
        assert(hex_digit(lo) as u32 == (if lo < 10 { 48 + lo } else { 87 + lo }));
        assert forall|k: int| 0 <= k < hex(b).len() implies !is_ws(#[trigger] hex(b)[k]) by {
            if k < hex(p).len() {
                assert(hex(b)[k] == hex(p)[k]);
            }
        }
    }
}

/// Law: a freshly minted token reads back unchanged: the hex text of any
/// non-empty byte string is its own trimmed form and is not empty, so
/// `stored_token` hands back exactly the token that was written.
pub proof fn lemma_fresh_token_reads_back(b: Seq<u8>)
    requires
        b.len() > 0,
    ensures
        trim(hex(b)) == hex(b),
        trim(hex(b)).len() > 0,
{
    let h = hex(b);
    lemma_hex_chars(b);
    lemma_skip_ws(h, 0);
    lemma_trim_end_at(h, h.len() as int);
    assert(!is_ws(h[0]));
    assert(skip_ws(h, 0) == 0);
    assert(!is_ws(h[h.len() - 1]));
    assert(trim_end_at(h, h.len() as int) == h.len());
    assert(h.subrange(0, h.len() as int) =~= h);
}

fn hex_char(d: u8) -> (c: char)
    requires
        d < 16,
    ensures
        c == hex_digit(d as nat),
{
    if d < 10 { (48u8 + d) as char } else { (87u8 + d) as char }
}

/// Encode `bytes` as lowercase hex.
pub fn hex_encode(bytes: &Vec<u8>) -> (s: String)
    ensures
        s@ == hex(bytes@),
        s@.len() == 2 * bytes@.len(),
{
    let mut s = String::new();
    let mut i: usize = 0;
    while i < bytes.len()
        invariant
            i <= bytes.len(),
            s@ == hex(bytes@.take(i as int)),
            s@.len() == 2 * i,
        decreases bytes.len() - i,
    {
        assert(bytes@.take(i + 1).drop_last() == bytes@.take(i as int));
        let b = bytes[i];
        s.push(hex_char(b / 16));
        s.push(hex_char(b % 16));
        i = i + 1;
    }
    assert(bytes@.take(bytes.len() as int) == bytes@);
    s
}

/// A token stored earlier: the file's text without surrounding whitespace,
/// unless that is empty.
pub fn stored_token(contents: &str) -> (t: Option<String>)
    ensures
        match t {
            Some(s) => s@ == trim(contents@) && s@.len() > 0,
            None => trim(contents@).len() == 0,
        },
{
    let cs = chars_of(contents);
    let (a, b) = trim_bounds(&cs, 0, cs.len());
    assert(cs@.subrange(0, cs.len() as int) == cs@);
    if a == b {
        None
    } else {
        Some(string_of(&cs, a, b))
    }
}

/// A fresh token: 32 random bytes as 64 lowercase hex digits, or the error of the random source.
pub fn new_token() -> (r: Result<String, String>)
    ensures
        r matches Ok(t) ==> t@.len() == 64 && exists|b: Seq<u8>| b.len() == 32 && t@ == hex(b),
{
    match random_bytes(32) {
        Ok(b) => Ok(hex_encode(&b)),
        Err(e) => Err(e),
    }
}

/// Which token the daemon serves with.
pub enum TokenChoice {
    /// The token already stored; nothing is written.
    Reuse(String),
    /// A new token, to be written to the token file (readable by the user only).
    Mint(String),
}

/// Choose the token from the token file's text (`None` when it cannot be
/// read): the stored token when there is one, else a fresh one, or the
/// error of the random source. A token written after `Mint` is reused by the
/// next choice (see `lemma_fresh_token_reads_back`).
pub fn choose_token(existing: Option<&str>) -> (r: Result<TokenChoice, String>)
    ensures
        (existing matches Some(c) && trim(c@).len() > 0) ==> (r matches Ok(TokenChoice::Reuse(t))
            && t@ == trim(existing->0@)),
        !(existing matches Some(c) && trim(c@).len() > 0) ==> (r is Err || (r matches Ok(TokenChoice::Mint(t))
            && t@.len() == 64 && exists|b: Seq<u8>| b.len() == 32 && t@ == hex(b))),
{
    if let Some(c) = existing {
        if let Some(t) = stored_token(c) {
            return Ok(TokenChoice::Reuse(t));
        }
    }
    match new_token() {
        Ok(t) => Ok(TokenChoice::Mint(t)),
        Err(e) => Err(e),
    }
}

} // verus!
