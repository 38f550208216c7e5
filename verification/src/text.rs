//! Character-level helpers shared by the parsers and formatters.

use vstd::prelude::*;
use vstd::utf8::{char_u32_cast, encode_utf8_decode_utf8};

verus! {

/// `String::push`, as its documentation states it: appending one character
/// extends the string's character sequence by that character.
pub assume_specification[ String::push ](s: &mut String, ch: char)
    ensures
        final(s)@ == old(s)@.push(ch),
;

/// The characters of `s`, in order.
pub fn chars_of(s: &str) -> (out: Vec<char>)
    ensures
        out@ == s@,
{
    let mut out: Vec<char> = Vec::new();
    for c in it: s.chars()
        invariant
            out@ == it.seq().take(it.index() as int),
    {
        out.push(c);
    }
    out
}

} // verus!

verus! {

/// The ASCII digit for `d < 10`.
pub open spec fn digit_char(d: nat) -> char {
    ((48 + d) as u8) as char
}

/// The decimal digits of `n`, most significant first, with no leading zeros.
pub open spec fn decimal(n: nat) -> Seq<char>
    decreases n,
{
    if n < 10 {
        seq![digit_char(n)]
    } else {
        decimal(n / 10).push(digit_char(n % 10))
    }
}

/// Append the decimal form of `n` to `out`.
pub fn push_decimal(out: &mut String, n: u64)
    ensures
        final(out)@ == old(out)@ + decimal(n as nat),
    decreases n,
{
    if n >= 10 {
        push_decimal(out, n / 10);
    }
    let d = (n % 10) as u8;
    out.push((48u8 + d) as char);
}

} // verus!

verus! {

/// Unicode `White_Space`, the set `char::is_whitespace` tests.
pub open spec fn is_ws(c: char) -> bool {
    let u = c as u32;
    (0x9 <= u <= 0xD) || u == 0x20 || u == 0x85 || u == 0xA0 || u == 0x1680
        || (0x2000 <= u <= 0x200A) || u == 0x2028 || u == 0x2029 || u == 0x202F
        || u == 0x205F || u == 0x3000
}

/// Whether `c` is Unicode whitespace.
pub fn is_whitespace(c: char) -> (b: bool)
    ensures
        b == is_ws(c),
{
    let u = c as u32;
    (0x9 <= u && u <= 0xD) || u == 0x20 || u == 0x85 || u == 0xA0 || u == 0x1680
        || (0x2000 <= u && u <= 0x200A) || u == 0x2028 || u == 0x2029 || u == 0x202F
        || u == 0x205F || u == 0x3000
}

/// Number of whitespace-separated words of `s` (maximal runs of non-whitespace).
pub open spec fn word_count(s: Seq<char>) -> nat
    decreases s.len(),
{
    if s.len() == 0 {
        0
    } else {
        let prev = word_count(s.drop_last());
        let i = s.len() - 1;
        if !is_ws(s[i]) && (i == 0 || is_ws(s[i - 1])) { prev + 1 } else { prev }
    }
}

/// Count the whitespace-separated words of `s`.
pub fn count_words(s: &str) -> (n: usize)
    ensures
        n == word_count(s@),
{
    let cs = chars_of(s);
    let mut n: usize = 0;
    let mut i: usize = 0;
    while i < cs.len()
        invariant
            cs@ == s@,
            i <= cs.len(),
            n == word_count(cs@.take(i as int)),
            n <= i,
        decreases cs.len() - i,
    {
        assert(cs@.take(i + 1).drop_last() == cs@.take(i as int));
        if !is_whitespace(cs[i]) && (i == 0 || is_whitespace(cs[i - 1])) {
            n = n + 1;
        }
        i = i + 1;
    }
    assert(cs@.take(cs.len() as int) == cs@);
    n
}

} // verus!

verus! {

/// A `String` holding the characters `cs[from..to]`.
pub fn string_of(cs: &Vec<char>, from: usize, to: usize) -> (s: String)
    requires
        from <= to <= cs.len(),
    ensures
        s@ == cs@.subrange(from as int, to as int),
{
    let mut s = String::new();
    let mut i = from;
    while i < to
        invariant
            from <= i <= to <= cs.len(),
            s@ == cs@.subrange(from as int, i as int),
        decreases to - i,
    {
        s.push(cs[i]);
        assert(cs@.subrange(from as int, i + 1) == cs@.subrange(from as int, i as int).push(cs@[i as int]));
        i = i + 1;
    }
    s
}

} // verus!

verus! {

/// First position at or after `i` that is not whitespace (`s.len()` when none).
pub open spec fn skip_ws(s: Seq<char>, i: int) -> int
    decreases s.len() - i,
{
    if 0 <= i < s.len() && is_ws(s[i]) { skip_ws(s, i + 1) } else { i }
}

/// Position after the whitespace-free run that starts at `i`.
pub open spec fn word_end(s: Seq<char>, i: int) -> int
    decreases s.len() - i,
{
    if 0 <= i < s.len() && !is_ws(s[i]) { word_end(s, i + 1) } else { i }
}

/// Position after the last non-whitespace character before `j`.
pub open spec fn trim_end_at(s: Seq<char>, j: int) -> int
    decreases j,
{
    if 0 < j <= s.len() && is_ws(s[j - 1]) { trim_end_at(s, j - 1) } else { j }
}

/// `s` without leading and trailing whitespace.
pub open spec fn trim(s: Seq<char>) -> Seq<char> {
    let a = skip_ws(s, 0);
    let b = trim_end_at(s, s.len() as int);
    if a < b { s.subrange(a, b) } else { Seq::empty() }
}

pub proof fn lemma_skip_ws(s: Seq<char>, i: int)
    requires
        0 <= i <= s.len(),
    ensures
        i <= skip_ws(s, i) <= s.len(),
        forall|k: int| i <= k < skip_ws(s, i) ==> is_ws(s[k]),
        skip_ws(s, i) < s.len() ==> !is_ws(s[skip_ws(s, i)]),
    decreases s.len() - i,
{
    if i < s.len() && is_ws(s[i]) {
        lemma_skip_ws(s, i + 1);
    }
}

pub proof fn lemma_word_end(s: Seq<char>, i: int)
    requires
        0 <= i <= s.len(),
    ensures
        i <= word_end(s, i) <= s.len(),
        forall|k: int| i <= k < word_end(s, i) ==> !is_ws(s[k]),
        word_end(s, i) < s.len() ==> is_ws(s[word_end(s, i)]),
    decreases s.len() - i,
{
    if i < s.len() && !is_ws(s[i]) {
        lemma_word_end(s, i + 1);
    }
}

pub proof fn lemma_trim_end_at(s: Seq<char>, j: int)
    requires
        0 <= j <= s.len(),
    ensures
        0 <= trim_end_at(s, j) <= j,
        forall|k: int| trim_end_at(s, j) <= k < j ==> is_ws(s[k]),
        trim_end_at(s, j) > 0 ==> !is_ws(s[trim_end_at(s, j) - 1]),
    decreases j,
{
    if 0 < j && is_ws(s[j - 1]) {
        lemma_trim_end_at(s, j - 1);
    }
}

/// The whitespace-separated words of `s[i..]`, in order.
pub open spec fn words_from(s: Seq<char>, i: int) -> Seq<Seq<char>>
    decreases s.len() - i,
{
    if i < 0 || i >= s.len() {
        Seq::empty()
    } else if is_ws(s[i]) {
        words_from(s, i + 1)
    } else {
        let e = word_end(s, i);
        if i < e <= s.len() { seq![s.subrange(i, e)] + words_from(s, e) } else { Seq::empty() }
    }
}

/// The whitespace-separated words of `s` (what `split_whitespace` yields).
pub open spec fn words(s: Seq<char>) -> Seq<Seq<char>> {
    words_from(s, 0)
}

/// Characters of `cs[from..to]` without leading and trailing whitespace, as positions.
pub fn trim_bounds(cs: &Vec<char>, from: usize, to: usize) -> (r: (usize, usize))
    requires
        from <= to <= cs.len(),
    ensures
        from <= r.0 <= r.1 <= to,
        trim(cs@.subrange(from as int, to as int)) == cs@.subrange(r.0 as int, r.1 as int),
{
    let ghost s = cs@.subrange(from as int, to as int);
    let mut a = from;
    while a < to && is_whitespace(cs[a])
        invariant
            from <= a <= to <= cs.len(),
            s == cs@.subrange(from as int, to as int),
            skip_ws(s, 0) == skip_ws(s, a - from),
        decreases to - a,
    {
        assert(s[a - from] == cs@[a as int]);
        a = a + 1;
    }
    let mut b = to;
    while b > a && is_whitespace(cs[b - 1])
        invariant
            from <= a <= b <= to <= cs.len(),
            forall|k: int| b <= k < to ==> is_ws(cs@[k]),
            s == cs@.subrange(from as int, to as int),
            trim_end_at(s, s.len() as int) == trim_end_at(s, b - from),
        decreases b,
    {
        assert(s[b - 1 - from] == cs@[b - 1]);
        b = b - 1;
    }
    proof {
        lemma_skip_ws(s, 0);
        lemma_trim_end_at(s, s.len() as int);
        lemma_trim_end_at(s, b - from);
        if a == b {
            if a < to {
                assert(!is_ws(s[a - from]));
            }
        }
        assert(cs@.subrange(a as int, b as int) =~= s.subrange(a - from, b - from));
    }
    (a, b)
}

/// `s` without leading and trailing whitespace.
pub fn trimmed(s: &str) -> (t: String)
    ensures
        t@ == trim(s@),
{
    let cs = chars_of(s);
    let (a, b) = trim_bounds(&cs, 0, cs.len());
    assert(cs@.subrange(0, cs.len() as int) == cs@);
    string_of(&cs, a, b)
}

/// The whitespace-separated words of `cs[from..to]`.
pub fn split_words(cs: &Vec<char>, from: usize, to: usize) -> (ws: Vec<String>)
    requires
        from <= to <= cs.len(),
    ensures
        ws@.map_values(|w: String| w@) == words(cs@.subrange(from as int, to as int)),
{
    let ghost s = cs@.subrange(from as int, to as int);
    let mut ws: Vec<String> = Vec::new();
    let mut i = from;
    while i < to
        invariant
            from <= i <= to <= cs.len(),
            s == cs@.subrange(from as int, to as int),
            ws@.map_values(|w: String| w@) + words_from(s, i - from) == words(s),
        decreases to - i,
    {
        if is_whitespace(cs[i]) {
            i = i + 1;
        } else {
            let mut e = i;
            while e < to && !is_whitespace(cs[e])
                invariant
                    from <= i <= e <= to <= cs.len(),
                    s == cs@.subrange(from as int, to as int),
                    word_end(s, i - from) == word_end(s, e - from),
                decreases to - e,
            {
                assert(s[e - from] == cs@[e as int]);
                e = e + 1;
            }
            let w = string_of(cs, i, e);
            proof {
                lemma_word_end(s, e - from);
                assert(w@ == s.subrange(i - from, e - from));
                assert((ws@.push(w)).map_values(|w: String| w@) == ws@.map_values(|w: String| w@).push(w@));
            }
            ws.push(w);
            i = e;
        }
    }
    ws
}

} // verus!

verus! {

/// Whether two texts are equal.
pub fn str_eq(a: &str, b: &str) -> (r: bool)
    ensures
        r == (a@ == b@),
{
    let x = a.as_bytes();
    let y = b.as_bytes();
    proof {
        encode_utf8_decode_utf8(a@);
        encode_utf8_decode_utf8(b@);
        assert(a@ == b@ ==> x@ == y@);
    }
    if x.len() != y.len() {
        return false;
    }
    let mut i: usize = 0;
    while i < x.len()
        invariant
            x@.len() == y@.len(),
            i <= x@.len(),
            forall|k: int| 0 <= k < i ==> x@[k] == y@[k],
            a@ == b@ ==> x@ == y@,
        decreases x@.len() - i,
    {
        if x[i] != y[i] {
            assert(x@[i as int] != y@[i as int]);
            return false;
        }
        i = i + 1;
    }
    assert(x@ == y@);
    true
}

} // verus!

verus! {

/// First position at or after `i` holding `c` (`s.len()` when none).
pub open spec fn find_char(s: Seq<char>, c: char, i: int) -> int
    decreases s.len() - i,
{
    if i < 0 || i >= s.len() {
        s.len() as int
    } else if s[i] == c {
        i
    } else {
        find_char(s, c, i + 1)
    }
}

pub proof fn lemma_find_char(s: Seq<char>, c: char, i: int)
    requires
        0 <= i <= s.len(),
    ensures
        i <= find_char(s, c, i) <= s.len(),
        forall|k: int| i <= k < find_char(s, c, i) ==> s[k] != c,
        find_char(s, c, i) < s.len() ==> s[find_char(s, c, i)] == c,
    decreases s.len() - i,
{
    if i < s.len() && s[i] != c {
        lemma_find_char(s, c, i + 1);
    }
}

/// Find `c` in `cs[from..to]`: its first position, or `to` when it does not occur.
pub fn find_in(cs: &Vec<char>, c: char, from: usize, to: usize) -> (k: usize)
    requires
        from <= to <= cs.len(),
    ensures
        from <= k <= to,
        k - from == find_char(cs@.subrange(from as int, to as int), c, 0),
{
    let ghost s = cs@.subrange(from as int, to as int);
    let mut k = from;
    while k < to && cs[k] != c
        invariant
            from <= k <= to <= cs.len(),
            s == cs@.subrange(from as int, to as int),
            find_char(s, c, 0) == find_char(s, c, k - from),
        decreases to - k,
    {
        assert(s[k - from] == cs@[k as int]);
        k = k + 1;
    }
    proof {
        if k < to {
            assert(s[k - from] == cs@[k as int]);
        }
    }
    k
}

/// The pieces of `s[i..]` between occurrences of `c` (the last piece may be empty).
pub open spec fn pieces_from(s: Seq<char>, c: char, i: int) -> Seq<Seq<char>>
    decreases s.len() - i + 1,
{
    if i < 0 || i > s.len() {
        Seq::empty()
    } else {
        let k = find_char(s, c, i);
        if k < i || k >= s.len() {
            seq![s.subrange(i, s.len() as int)]
        } else {
            seq![s.subrange(i, k)] + pieces_from(s, c, k + 1)
        }
    }
}

} // verus!

verus! {

/// `s` with every space replaced by `-`.
pub open spec fn dashed(s: Seq<char>) -> Seq<char> {
    s.map_values(|c: char| if c == ' ' { '-' } else { c })
}

/// Replace every space of `s` with `-`.
pub fn dash_spaces(s: &str) -> (r: String)
    ensures
        r@ == dashed(s@),
{
    let cs = chars_of(s);
    let mut r = String::new();
    let mut i: usize = 0;
    while i < cs.len()
        invariant
            i <= cs.len(),
            r@ == dashed(cs@.take(i as int)),
        decreases cs.len() - i,
    {
        let c = cs[i];
        r.push(if c == ' ' { '-' } else { c });
        assert(dashed(cs@.take(i + 1)) =~= dashed(cs@.take(i as int)).push(if c == ' ' { '-' } else { c }));
        i = i + 1;
    }
    assert(cs@.take(cs.len() as int) == cs@);
    r
}

/// `p` occurs in `s` starting at position `i`.
pub open spec fn occurs_at(s: Seq<char>, p: Seq<char>, i: int) -> bool {
    0 <= i && i + p.len() <= s.len() && s.subrange(i, i + p.len()) == p
}

/// `p` occurs somewhere in `s`.
pub open spec fn contains_text(s: Seq<char>, p: Seq<char>) -> bool {
    exists|i: int| occurs_at(s, p, i)
}

/// Whether `p` occurs in `s`.
pub fn contains(s: &str, p: &str) -> (b: bool)
    ensures
        b == contains_text(s@, p@),
{
    let cs = chars_of(s);
    let ps = chars_of(p);
    if ps.len() > cs.len() {
        assert forall|i: int| !occurs_at(s@, p@, i) by {}
        return false;
    }
    let mut i: usize = 0;
    while i <= cs.len() - ps.len()
        invariant
            cs@ == s@,
            ps@ == p@,
            ps.len() <= cs.len(),
            i <= cs.len() - ps.len() + 1,
            forall|j: int| 0 <= j < i ==> !occurs_at(s@, p@, j),
        decreases cs.len() - i,
    {
        let mut k: usize = 0;
        while k < ps.len() && cs[i + k] == ps[k]
            invariant
                i + ps.len() <= cs.len(),
                k <= ps.len(),
                forall|m: int| 0 <= m < k ==> cs@[i + m] == ps@[m],
            decreases ps.len() - k,
        {
            k = k + 1;
        }
        if k == ps.len() {
            assert(cs@.subrange(i as int, i + ps.len()) =~= ps@);
            assert(occurs_at(s@, p@, i as int));
            return true;
        }
        assert(cs@.subrange(i as int, i + ps.len())[k as int] != ps@[k as int]);
        i = i + 1;
    }
    assert forall|j: int| !occurs_at(s@, p@, j) by {
        if 0 <= j && j + p@.len() <= s@.len() {
            assert(j < i);
        }
    }
    false
}

/// `parts` joined with `sep` between neighbours.
pub open spec fn joined_with(parts: Seq<Seq<char>>, sep: Seq<char>) -> Seq<char>
    decreases parts.len(),
{
    if parts.len() == 0 {
        Seq::empty()
    } else if parts.len() == 1 {
        parts[0]
    } else {
        joined_with(parts.drop_last(), sep) + sep + parts.last()
    }
}

/// Join `parts` with `sep`.
pub fn join_with(parts: &Vec<String>, sep: &str) -> (r: String)
    ensures
        r@ == joined_with(parts@.map_values(|s: String| s@), sep@),
{
    let ghost v = parts@.map_values(|s: String| s@);
    let mut r = String::new();
    let mut i: usize = 0;
    while i < parts.len()
        invariant
            i <= parts.len(),
            v == parts@.map_values(|s: String| s@),
            r@ == joined_with(v.take(i as int), sep@),
        decreases parts.len() - i,
    {
        assert(v.take(i + 1).drop_last() == v.take(i as int));
        if i > 0 {
            r.append(sep);
        }
        r.append(parts[i].as_str());
        i = i + 1;
    }
    assert(v.take(parts.len() as int) == v);
    r
}

} // verus!

verus! {

/// `a` sorts strictly before `b` (character by character, by code point; a
/// proper prefix sorts first). This is the order of `str`'s `Ord`.
pub open spec fn lex_lt(a: Seq<char>, b: Seq<char>) -> bool
    decreases a.len(),
{
    if a.len() == 0 {
        b.len() > 0
    } else if b.len() == 0 {
        false
    } else if a[0] != b[0] {
        (a[0] as u32) < (b[0] as u32)
    } else {
        lex_lt(a.drop_first(), b.drop_first())
    }
}

pub proof fn lemma_lex_irreflexive(a: Seq<char>)
    ensures
        !lex_lt(a, a),
    decreases a.len(),
{
    if a.len() > 0 {
        lemma_lex_irreflexive(a.drop_first());
    }
}

pub proof fn lemma_lex_trans(a: Seq<char>, b: Seq<char>, c: Seq<char>)
    requires
        lex_lt(a, b),
        lex_lt(b, c),
    ensures
        lex_lt(a, c),
    decreases a.len(),
{
    if a.len() > 0 && b.len() > 0 && c.len() > 0 && a[0] == b[0] && b[0] == c[0] {
        lemma_lex_trans(a.drop_first(), b.drop_first(), c.drop_first());
    }
}

pub proof fn lemma_lex_total(a: Seq<char>, b: Seq<char>)
    ensures
        lex_lt(a, b) || lex_lt(b, a) || a == b,
    decreases a.len(),
{
    if a.len() > 0 && b.len() > 0 {
        if a[0] == b[0] {
            lemma_lex_total(a.drop_first(), b.drop_first());
            if a.drop_first() == b.drop_first() {
                assert(a =~= seq![a[0]] + a.drop_first());
                assert(b =~= seq![b[0]] + b.drop_first());
            }
        } else {
            if (a[0] as u32) == (b[0] as u32) {
                char_u32_cast(a[0], a[0] as u32);
                char_u32_cast(b[0], b[0] as u32);
            }
        }
    } else if a.len() == 0 && b.len() == 0 {
        assert(a =~= b);
    }
}

/// Whether `a` sorts strictly before `b`.
pub fn text_lt(a: &str, b: &str) -> (r: bool)
    ensures
        r == lex_lt(a@, b@),
{
    let x = chars_of(a);
    let y = chars_of(b);
    let mut i: usize = 0;
    assert(x@.skip(0) == x@ && y@.skip(0) == y@);
    while i < x.len() && i < y.len() && x[i] == y[i]
        invariant
            x@ == a@,
            y@ == b@,
            i <= x.len(),
            i <= y.len(),
            lex_lt(a@, b@) == lex_lt(x@.skip(i as int), y@.skip(i as int)),
        decreases x.len() - i,
    {
        assert(x@.skip(i as int).drop_first() == x@.skip(i + 1));
        assert(y@.skip(i as int).drop_first() == y@.skip(i + 1));
        assert(x@.skip(i as int)[0] == x@[i as int]);
        assert(y@.skip(i as int)[0] == y@[i as int]);
        i = i + 1;
    }
    if i < x.len() && i < y.len() {
        assert(x@.skip(i as int)[0] == x@[i as int]);
        assert(y@.skip(i as int)[0] == y@[i as int]);
        (x[i] as u32) < (y[i] as u32)
    } else {
        i == x.len() && i < y.len()
    }
}

} // verus!
