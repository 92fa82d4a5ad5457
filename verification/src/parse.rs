//! Splits a submitted compilation unit into the item model.
//!
//! The scanner works at item granularity: it recognizes namespace
//! declarations with inline bodies and public function declarations, and
//! passes every other construct through verbatim as an opaque run of text.
//! Tokens that could hide a brace (string and character literals, line and
//! nested block comments, lifetimes) are skipped as wholes.  The main
//! theorem is that the recognized items concatenate back to exactly the
//! input text, so planning can never lose or alter submitted source.
//!
//! Accepted shapes for an exported function are `pub fn name(...)` with an
//! optional `-> Type` return; a function with generic parameters, a
//! `where` clause or a restricted visibility such as `pub(crate)` is
//! copied through unchanged and not exported.  A failure to balance
//! delimiters at item level is a parse error; this is deliberately
//! narrower than a full guest-language parse, so other text the guest
//! language refuses flows through planning and surfaces when the
//! toolchain rejects the build.

use vstd::prelude::*;
use vstd::string::StringExecFns;
use crate::errors::UntRustedError;
use crate::model::{
    Param, SigParse, Item, item_text, items_text, lemma_items_text_snoc, ident_seq, wf_item,
    wf_items, lemma_wf_items_snoc,
};
use crate::text::slice_chars;
use crate::text::{is_ws_char, is_ident_char_at};

verus! {

fn is_ws(c: char) -> (r: bool)
    ensures
        r == is_ws_char(c),
{
    c == ' ' || c == '\t' || c == '\n' || c == '\r'
}

fn is_ident_char(c: char) -> (r: bool)
    ensures
        r == is_ident_char_at(c),
{
    ('a' <= c && c <= 'z') || ('A' <= c && c <= 'Z') || ('0' <= c && c <= '9') || c == '_'
}

/// The end of a string literal's remainder starting at `k` (just past
/// the opening quote): escapes skip two characters, the closing quote
/// ends the literal, and an unterminated literal runs to the end.
pub open spec fn str_lit_end(s: Seq<char>, k: int) -> int
    decreases s.len() - k,
{
    if k < 0 || k >= s.len() {
        s.len() as int
    } else if s[k] == '\\' {
        if k + 1 < s.len() {
            str_lit_end(s, k + 2)
        } else {
            s.len() as int
        }
    } else if s[k] == '"' {
        k + 1
    } else {
        str_lit_end(s, k + 1)
    }
}

/// As `str_lit_end`, for a character literal after `'\`.
pub open spec fn char_lit_end(s: Seq<char>, k: int) -> int
    decreases s.len() - k,
{
    if k < 0 || k >= s.len() {
        s.len() as int
    } else if s[k] == '\\' {
        if k + 1 < s.len() {
            char_lit_end(s, k + 2)
        } else {
            s.len() as int
        }
    } else if s[k] == '\'' {
        k + 1
    } else {
        char_lit_end(s, k + 1)
    }
}

/// The end of a line comment's remainder starting at `k`.
pub open spec fn line_end(s: Seq<char>, k: int) -> int
    decreases s.len() - k,
{
    if k < 0 || k >= s.len() {
        s.len() as int
    } else if s[k] == '\n' {
        k + 1
    } else {
        line_end(s, k + 1)
    }
}

/// The end of a block comment's remainder starting at `k` with `depth`
/// open comments; block comments nest.
pub open spec fn block_end(s: Seq<char>, k: int, depth: int) -> int
    decreases s.len() - k,
{
    if k < 0 || k >= s.len() {
        s.len() as int
    } else if k + 1 < s.len() && s[k] == '*' && s[k + 1] == '/' {
        if depth == 1 {
            k + 2
        } else {
            block_end(s, k + 2, depth - 1)
        }
    } else if k + 1 < s.len() && s[k] == '/' && s[k + 1] == '*' {
        block_end(s, k + 2, depth + 1)
    } else {
        block_end(s, k + 1, depth)
    }
}

/// The end of the token starting at `i`, as a total function of the
/// text.
pub open spec fn tok_end_at(s: Seq<char>, i: int) -> int {
    if i < 0 || i >= s.len() {
        i + 1
    } else {
        let c = s[i];
        if c == '"' {
            str_lit_end(s, i + 1)
        } else if c == '/' && i + 1 < s.len() && s[i + 1] == '/' {
            line_end(s, i + 2)
        } else if c == '/' && i + 1 < s.len() && s[i + 1] == '*' {
            block_end(s, i + 2, 1)
        } else if c == '\'' {
            if i + 1 < s.len() && s[i + 1] == '\\' {
                char_lit_end(s, i + 2)
            } else if i + 1 < s.len() && i + 2 < s.len() && s[i + 2] == '\'' && s[i + 1] != '\'' {
                i + 3
            } else {
                i + 1
            }
        } else {
            i + 1
        }
    }
}

/// `tok_end_at` clamped to one step forward at least and the input's end
/// at most, so that scans over tokens terminate by construction.
pub open spec fn step_tok(s: Seq<char>, k: int) -> int {
    let e = tok_end_at(s, k);
    if e <= k {
        k + 1
    } else if e > s.len() {
        s.len() as int
    } else {
        e
    }
}

/// The end of the token starting at `i`: a string or character literal, a
/// line or (nested) block comment, a lifetime, or a single character.  An
/// unterminated literal or comment runs to the end of the input.
fn tok_end(s: &Vec<char>, i: usize, n: usize) -> (r: usize)
    requires
        n == s@.len(),
        i < n,
    ensures
        i < r <= n,
        r as int == tok_end_at(s@, i as int),
{
    let c = s[i];
    if c == '"' {
        let mut k: usize = i + 1;
        while k < n
            invariant
                n == s@.len(),
                i < k <= n,
                s@[i as int] == '"',
                str_lit_end(s@, i + 1) == str_lit_end(s@, k as int),
            decreases n - k,
        {
            if s[k] == '\\' {
                if k + 1 < n {
                    k = k + 2;
                } else {
                    k = n;
                }
            } else if s[k] == '"' {
                return k + 1;
            } else {
                k = k + 1;
            }
        }
        n
    } else if c == '/' && i + 1 < n && s[i + 1] == '/' {
        let mut k: usize = i + 2;
        while k < n
            invariant
                n == s@.len(),
                i + 1 < k <= n,
                s@[i as int] == '/' && s@[i as int + 1] == '/',
                line_end(s@, i + 2) == line_end(s@, k as int),
            decreases n - k,
        {
            if s[k] == '\n' {
                return k + 1;
            }
            k = k + 1;
        }
        n
    } else if c == '/' && i + 1 < n && s[i + 1] == '*' {
        let mut k: usize = i + 2;
        let mut depth: usize = 1;
        while k < n
            invariant
                n == s@.len(),
                i + 1 < k <= n,
                1 <= depth <= k,
                s@[i as int] == '/' && s@[i as int + 1] == '*',
                block_end(s@, i + 2, 1) == block_end(s@, k as int, depth as int),
            decreases n - k,
        {
            if k + 1 < n && s[k] == '*' && s[k + 1] == '/' {
                if depth == 1 {
                    return k + 2;
                }
                depth = depth - 1;
                k = k + 2;
            } else if k + 1 < n && s[k] == '/' && s[k + 1] == '*' {
                depth = depth + 1;
                k = k + 2;
            } else {
                k = k + 1;
            }
        }
        n
    } else if c == '\'' {
        if i + 1 < n && s[i + 1] == '\\' {
            let mut k: usize = i + 2;
            while k < n
                invariant
                    n == s@.len(),
                    i + 1 < k <= n,
                    s@[i as int] == '\'' && s@[i as int + 1] == '\\',
                    char_lit_end(s@, i + 2) == char_lit_end(s@, k as int),
                decreases n - k,
            {
                if s[k] == '\\' {
                    if k + 1 < n {
                        k = k + 2;
                    } else {
                        k = n;
                    }
                } else if s[k] == '\'' {
                    return k + 1;
                } else {
                    k = k + 1;
                }
            }
            n
        } else if i + 1 < n && i + 2 < n && s[i + 2] == '\'' && s[i + 1] != '\'' {
            i + 3
        } else {
            i + 1
        }
    } else {
        i + 1
    }
}

/// The end of the maximal run of whitespace and comments starting at
/// `k`.
pub open spec fn trivia_end_at(s: Seq<char>, k: int) -> int
    decreases s.len() - k,
{
    if k < 0 || k >= s.len() {
        s.len() as int
    } else if is_ws_char(s[k]) {
        trivia_end_at(s, k + 1)
    } else if s[k] == '/' && k + 1 < s.len() && (s[k + 1] == '/' || s[k + 1] == '*') {
        trivia_end_at(s, step_tok(s, k))
    } else {
        k
    }
}

/// The end of the maximal run of whitespace and comments starting at `i`.
fn trivia_end(s: &Vec<char>, i: usize, n: usize) -> (r: usize)
    requires
        n == s@.len(),
        i <= n,
    ensures
        i <= r <= n,
        r as int == trivia_end_at(s@, i as int),
{
    let mut k: usize = i;
    while k < n
        invariant
            n == s@.len(),
            i <= k <= n,
            trivia_end_at(s@, i as int) == trivia_end_at(s@, k as int),
        decreases n - k,
    {
        let c = s[k];
        if is_ws(c) {
            k = k + 1;
        } else if c == '/' && k + 1 < n && (s[k + 1] == '/' || s[k + 1] == '*') {
            let e = tok_end(s, k, n);
            proof {
                assert(step_tok(s@, k as int) == e as int);
            }
            k = e;
        } else {
            return k;
        }
    }
    n
}

/// The end of the maximal identifier run starting at `i`.
pub open spec fn idrun_end(s: Seq<char>, i: int) -> int
    decreases s.len() - i,
{
    if i < 0 || i >= s.len() {
        i
    } else if is_ident_char_at(s[i]) {
        idrun_end(s, i + 1)
    } else {
        i
    }
}

/// The end of the maximal run of identifier characters starting at `i`.
fn ident_end(s: &Vec<char>, i: usize, n: usize) -> (r: usize)
    requires
        n == s@.len(),
        i <= n,
    ensures
        i <= r <= n,
        forall|k: int| i <= k < r ==> is_ident_char_at(#[trigger] s@[k]),
        r as int == idrun_end(s@, i as int),
{
    let mut k: usize = i;
    while k < n
        invariant
            n == s@.len(),
            i <= k <= n,
            forall|j: int| i <= j < k ==> is_ident_char_at(#[trigger] s@[j]),
            idrun_end(s@, i as int) == idrun_end(s@, k as int),
        decreases n - k,
    {
        if is_ident_char(s[k]) {
            k = k + 1;
        } else {
            return k;
        }
    }
    n
}

/// Whether the characters of `s[from..to]` spell exactly the word `w`.
fn word_is(s: &Vec<char>, from: usize, to: usize, w: &str) -> (r: bool)
    requires
        n_le(s@, from, to),
    ensures
        r == (s@.subrange(from as int, to as int) == w@),
{
    let n = s.len();
    let wn = w.unicode_len();
    if to - from != wn {
        assert(s@.subrange(from as int, to as int).len() != w@.len());
        return false;
    }
    let mut k: usize = 0;
    while k < wn
        invariant
            n == s@.len(),
            from + wn <= n,
            to == from + wn,
            wn == w@.len(),
            k <= wn,
            forall|j: int| 0 <= j < k ==> s@[from + j] == w@[j],
        decreases wn - k,
    {
        if s[from + k] != w.get_char(k) {
            assert(s@.subrange(from as int, to as int) != w@) by {
                assert(s@.subrange(from as int, to as int)[k as int] == s@[from + k]);
            }
            return false;
        }
        k = k + 1;
    }
    assert forall|j: int|
        0 <= j < wn implies s@.subrange(from as int, to as int)[j] == w@[j] by {
        assert(s@[from + j] == w@[j]);
    }
    assert(s@.subrange(from as int, to as int) =~= w@);
    true
}

pub open spec fn n_le(s: Seq<char>, from: usize, to: usize) -> bool {
    from <= to <= s.len()
}

/// The index just past the closing delimiter matching `depth` open ones
/// at `k`, or `None` when the input ends first.
pub open spec fn close_pos(s: Seq<char>, k: int, depth: int, oc: char, cc: char) -> Option<int>
    decreases s.len() - k,
{
    if k < 0 || k >= s.len() {
        None
    } else {
        let c = s[k];
        if c == oc {
            close_pos(s, k + 1, depth + 1, oc, cc)
        } else if c == cc {
            if depth == 1 {
                Some(k + 1)
            } else {
                close_pos(s, k + 1, depth - 1, oc, cc)
            }
        } else {
            close_pos(s, step_tok(s, k), depth, oc, cc)
        }
    }
}

/// The index just past the closing delimiter matching the opener at
/// `open_pos`, or `None` when the input ends first.  Only `oc`/`cc` pairs
/// are counted; literal and comment tokens are skipped whole.
fn match_close(s: &Vec<char>, open_pos: usize, n: usize, oc: char, cc: char) -> (r: Option<usize>)
    requires
        n == s@.len(),
        open_pos < n,
    ensures
        r is Some ==> open_pos + 2 <= r->0 <= n,
        (match r {
            Some(e) => close_pos(s@, open_pos + 1, 1, oc, cc) == Some(e as int),
            None => close_pos(s@, open_pos + 1, 1, oc, cc) is None,
        }),
{
    let mut depth: usize = 1;
    let mut k: usize = open_pos + 1;
    while k < n
        invariant
            n == s@.len(),
            open_pos < k <= n,
            1 <= depth <= k,
            close_pos(s@, open_pos + 1, 1, oc, cc) == close_pos(
                s@,
                k as int,
                depth as int,
                oc,
                cc,
            ),
        decreases n - k,
    {
        let c = s[k];
        if c == oc {
            depth = depth + 1;
            k = k + 1;
        } else if c == cc {
            depth = depth - 1;
            k = k + 1;
            if depth == 0 {
                return Some(k);
            }
        } else {
            let e = tok_end(s, k, n);
            proof {
                assert(step_tok(s@, k as int) == e as int);
            }
            k = e;
        }
    }
    None
}

/// The end of the attribute starting at the `#` at `i`: an optional
/// `!`, trivia, then a bracketed group; anything else spans one
/// character.
pub open spec fn attr_end_at(s: Seq<char>, i: int) -> int {
    let k = if i + 1 < s.len() && s[i + 1] == '!' {
        i + 2
    } else {
        i + 1
    };
    let k2 = trivia_end_at(s, k);
    if k2 < s.len() && s[k2] == '[' {
        match close_pos(s, k2 + 1, 1, '[', ']') {
            Some(e) => e,
            None => s.len() as int,
        }
    } else {
        i + 1
    }
}

/// The end of the attribute starting at the `#` at `i`.
fn attr_end(s: &Vec<char>, i: usize, n: usize) -> (r: usize)
    requires
        n == s@.len(),
        i < n,
    ensures
        i < r <= n,
        r as int == attr_end_at(s@, i as int),
{
    let mut k: usize = i + 1;
    if k < n && s[k] == '!' {
        k = k + 1;
    }
    let k2 = trivia_end(s, k, n);
    if k2 < n && s[k2] == '[' {
        match match_close(s, k2, n, '[', ']') {
            Some(e) => e,
            None => n,
        }
    } else {
        i + 1
    }
}

/// `b` moved left past trailing whitespace of `s[a..b]`.
pub open spec fn ws_run_end(s: Seq<char>, a: int, b: int) -> int
    decreases b - a,
{
    if b <= a {
        b
    } else if is_ws_char(s[b - 1]) {
        ws_run_end(s, a, b - 1)
    } else {
        b
    }
}

/// `a` moved right past leading whitespace of `s[a..b]`.
pub open spec fn ws_run_start(s: Seq<char>, a: int, b: int) -> int
    decreases b - a,
{
    if a >= b {
        b
    } else if is_ws_char(s[a]) {
        ws_run_start(s, a + 1, b)
    } else {
        a
    }
}

/// `to` moved left past trailing whitespace.
fn trim_right(s: &Vec<char>, from: usize, to: usize) -> (r: usize)
    requires
        n_le(s@, from, to),
    ensures
        from <= r <= to,
        r as int == ws_run_end(s@, from as int, to as int),
{
    let mut k: usize = to;
    while k > from
        invariant
            from <= k <= to <= s@.len(),
            ws_run_end(s@, from as int, to as int) == ws_run_end(s@, from as int, k as int),
        decreases k,
    {
        if is_ws(s[k - 1]) {
            k = k - 1;
        } else {
            return k;
        }
    }
    k
}

/// `from` moved right past leading whitespace.
fn trim_left(s: &Vec<char>, from: usize, to: usize) -> (r: usize)
    requires
        n_le(s@, from, to),
    ensures
        from <= r <= to,
        r as int == ws_run_start(s@, from as int, to as int),
{
    let mut k: usize = from;
    while k < to
        invariant
            from <= k <= to <= s@.len(),
            ws_run_start(s@, from as int, to as int) == ws_run_start(s@, k as int, to as int),
        decreases to - k,
    {
        if is_ws(s[k]) {
            k = k + 1;
        } else {
            return k;
        }
    }
    k
}

/// The opening brace of the function body scanned from `k`, or `None`
/// on a `where` clause or when the input ends first.
pub open spec fn body_open_at(s: Seq<char>, k: int) -> Option<int>
    decreases s.len() - k,
{
    if k < 0 || k >= s.len() {
        None
    } else if s[k] == '{' {
        Some(k)
    } else if is_ident_char_at(s[k]) {
        let we = idrun_end(s, k);
        if s.subrange(k, we) == "where"@ {
            None
        } else if we <= k {
            body_open_at(s, k + 1)
        } else if we > s.len() {
            body_open_at(s, s.len() as int)
        } else {
            body_open_at(s, we)
        }
    } else {
        body_open_at(s, step_tok(s, k))
    }
}

/// Finds the opening brace of the function body; gives up on a `where`
/// clause or when the input ends first.
fn find_body_open(s: &Vec<char>, rs: usize, n: usize) -> (r: Option<usize>)
    requires
        n == s@.len(),
        rs <= n,
    ensures
        r is Some ==> rs <= r->0 < n,
        (match r {
            Some(b) => body_open_at(s@, rs as int) == Some(b as int),
            None => body_open_at(s@, rs as int) is None,
        }),
{
    let mut k: usize = rs;
    while k < n
        invariant
            n == s@.len(),
            rs <= k <= n,
            body_open_at(s@, rs as int) == body_open_at(s@, k as int),
        decreases n - k,
    {
        if s[k] == '{' {
            return Some(k);
        }
        if is_ident_char(s[k]) {
            let we = ident_end(s, k, n);
            if word_is(s, k, we, "where") {
                return None;
            }
            if we == k {
                k = k + 1;
            } else {
                k = we;
            }
        } else {
            let e = tok_end(s, k, n);
            proof {
                assert(step_tok(s@, k as int) == e as int);
            }
            k = e;
        }
    }
    None
}

/// The first single colon at top nesting depth in `s[k..b2]`, mirroring
/// the scan: parentheses, brackets and angle brackets nest, a `>` that
/// closes an arrow `->` does not, and `::` is skipped.
pub open spec fn colon_pos(s: Seq<char>, k: int, a2: int, b2: int, pd: int, ad: int) -> Option<
    int,
>
    decreases b2 - k,
{
    if k < 0 || k >= b2 || b2 > s.len() {
        None
    } else {
        let c = s[k];
        if c == '(' || c == '[' {
            colon_pos(s, k + 1, a2, b2, pd + 1, ad)
        } else if c == ')' || c == ']' {
            colon_pos(
                s,
                k + 1,
                a2,
                b2,
                if pd > 0 {
                    pd - 1
                } else {
                    0
                },
                ad,
            )
        } else if c == '<' {
            colon_pos(s, k + 1, a2, b2, pd, ad + 1)
        } else if c == '>' {
            colon_pos(
                s,
                k + 1,
                a2,
                b2,
                pd,
                if !(k > a2 && s[k - 1] == '-') && ad > 0 {
                    ad - 1
                } else {
                    ad
                },
            )
        } else if c == ':' && pd == 0 && ad == 0 {
            if k + 1 < b2 && s[k + 1] == ':' {
                colon_pos(s, k + 2, a2, b2, pd, ad)
            } else {
                Some(k)
            }
        } else {
            colon_pos(s, k + 1, a2, b2, pd, ad)
        }
    }
}

/// Finds the first single colon at top nesting depth in `s[a2..b2]`.
fn find_colon(s: &Vec<char>, a2: usize, b2: usize, n: usize) -> (r: Option<usize>)
    requires
        n == s@.len(),
        a2 <= b2 <= n,
    ensures
        r matches Some(c) ==> a2 <= c < b2,
        (match r {
            Some(c) => colon_pos(s@, a2 as int, a2 as int, b2 as int, 0, 0) == Some(c as int),
            None => colon_pos(s@, a2 as int, a2 as int, b2 as int, 0, 0) is None,
        }),
{
    let mut k: usize = a2;
    let mut pdepth: usize = 0;
    let mut adepth: usize = 0;
    while k < b2
        invariant
            n == s@.len(),
            a2 <= k <= b2 <= n,
            pdepth <= k,
            adepth <= k,
            colon_pos(s@, a2 as int, a2 as int, b2 as int, 0, 0) == colon_pos(
                s@,
                k as int,
                a2 as int,
                b2 as int,
                pdepth as int,
                adepth as int,
            ),
        decreases b2 - k,
    {
        let c = s[k];
        if c == '(' || c == '[' {
            pdepth = pdepth + 1;
            k = k + 1;
        } else if c == ')' || c == ']' {
            if pdepth > 0 {
                pdepth = pdepth - 1;
            }
            k = k + 1;
        } else if c == '<' {
            adepth = adepth + 1;
            k = k + 1;
        } else if c == '>' {
            if !(k > a2 && s[k - 1] == '-') && adepth > 0 {
                adepth = adepth - 1;
            }
            k = k + 1;
        } else if c == ':' && pdepth == 0 && adepth == 0 {
            if k + 1 < b2 && s[k + 1] == ':' {
                k = k + 2;
            } else {
                return Some(k);
            }
        } else {
            k = k + 1;
        }
    }
    None
}

/// What one parameter text denotes: a typed plain-identifier binding
/// (its name and its trimmed type text), a pattern that is not a plain
/// identifier, or a parameter that is not a typed binding at all.
pub enum ParamShape {
    Binding(Seq<char>, Seq<char>),
    NotIdent,
    NotTyped,
}

/// The shape of the parameter text `s[a..b]`: trim, find the single
/// top-level colon (none means an untyped parameter such as a receiver),
/// read the pattern as an optional `mut` followed by one plain identifier
/// other than `_`, and take the trimmed remainder after the colon as the
/// type text, which must be nonempty.
pub open spec fn param_shape(s: Seq<char>, a: int, b: int) -> ParamShape {
    let a2 = ws_run_start(s, a, b);
    let b2 = ws_run_end(s, a2, b);
    match colon_pos(s, a2, a2, b2, 0, 0) {
        None => ParamShape::NotTyped,
        Some(c) => {
            let pat_end = ws_run_end(s, a2, c);
            let we = idrun_end(s, a2);
            let we2 = if we > pat_end {
                pat_end
            } else {
                we
            };
            let pa = if s.subrange(a2, we2) == "mut"@ && we2 < pat_end {
                ws_run_start(s, we2, pat_end)
            } else {
                a2
            };
            let ie = idrun_end(s, pa);
            let ie2 = if ie > pat_end {
                pat_end
            } else {
                ie
            };
            if ie2 == pa || ie2 != pat_end {
                ParamShape::NotIdent
            } else if s.subrange(pa, ie2) == "_"@ {
                ParamShape::NotIdent
            } else {
                let ta = ws_run_start(s, c + 1, b2);
                if ta == b2 {
                    ParamShape::NotTyped
                } else {
                    ParamShape::Binding(s.subrange(pa, ie2), s.subrange(ta, b2))
                }
            }
        },
    }
}

enum ParamParse {
    One(Param),
    Name,
    Arg,
}

/// Parses one parameter `pattern: Type` out of `s[a..b]`; the result is
/// exactly the shape the text denotes.
fn parse_one_param(s: &Vec<char>, a: usize, b: usize, n: usize) -> (r: ParamParse)
    requires
        n == s@.len(),
        a <= b <= n,
    ensures
        (match r {
            ParamParse::One(p) => param_shape(s@, a as int, b as int) == ParamShape::Binding(
                p.name@,
                p.ty@,
            ),
            ParamParse::Name => param_shape(s@, a as int, b as int) == ParamShape::NotIdent,
            ParamParse::Arg => param_shape(s@, a as int, b as int) == ParamShape::NotTyped,
        }),
{
    let a2 = trim_left(s, a, b);
    let b2 = trim_right(s, a2, b);
    let colon = match find_colon(s, a2, b2, n) {
        Some(c) => c,
        None => {
            return ParamParse::Arg;
        },
    };
    // the pattern: an optional `mut` then a single plain identifier
    let pat_end = trim_right(s, a2, colon);
    let mut pa = a2;
    let we = ident_end(s, pa, n);
    let we2 = if we > pat_end {
        pat_end
    } else {
        we
    };
    if word_is(s, pa, we2, "mut") && we2 < pat_end {
        pa = trim_left(s, we2, pat_end);
    }
    let ie = ident_end(s, pa, n);
    let ie2 = if ie > pat_end {
        pat_end
    } else {
        ie
    };
    if ie2 == pa || ie2 != pat_end {
        return ParamParse::Name;
    }
    if word_is(s, pa, ie2, "_") {
        return ParamParse::Name;
    }
    // the type text
    let ta = trim_left(s, colon + 1, b2);
    if ta == b2 {
        return ParamParse::Arg;
    }
    ParamParse::One(Param { name: slice_chars(s, pa, ie2), ty: slice_chars(s, ta, b2) })
}

/// The outcome a parameter-list text denotes: the bindings of every
/// parameter in order, or the trimmed text of the first parameter whose
/// pattern is not a plain identifier, or of the first that is not a
/// typed binding.
pub enum SigShape {
    Good(Seq<(Seq<char>, Seq<char>)>),
    BadName(Seq<char>),
    BadArg(Seq<char>),
}

/// The piece `s[a..b]` with surrounding whitespace trimmed.
pub open spec fn trimmed_piece(s: Seq<char>, a: int, b: int) -> Seq<char> {
    let a2 = ws_run_start(s, a, b);
    s.subrange(a2, ws_run_end(s, a2, b))
}

/// Splits a parameter-list text at top-level commas, left to right, and
/// classifies each piece; the first unsupported piece decides.  A final
/// piece of pure whitespace (an empty list, a trailing comma) is skipped.
pub open spec fn split_scan(
    s: Seq<char>,
    k: int,
    start: int,
    pd: int,
    ad: int,
    acc: Seq<(Seq<char>, Seq<char>)>,
) -> SigShape
    decreases s.len() - k,
{
    if k < 0 || k >= s.len() || start > k {
        if ws_run_start(s, start, s.len() as int) < s.len() {
            match param_shape(s, start, s.len() as int) {
                ParamShape::Binding(nm, ty) => SigShape::Good(acc.push((nm, ty))),
                ParamShape::NotIdent => SigShape::BadName(trimmed_piece(s, start, s.len() as int)),
                ParamShape::NotTyped => SigShape::BadArg(trimmed_piece(s, start, s.len() as int)),
            }
        } else {
            SigShape::Good(acc)
        }
    } else {
        let c = s[k];
        if c == ',' && pd == 0 && ad == 0 {
            match param_shape(s, start, k) {
                ParamShape::Binding(nm, ty) => split_scan(s, k + 1, k + 1, pd, ad, acc.push((nm, ty))),
                ParamShape::NotIdent => SigShape::BadName(trimmed_piece(s, start, k)),
                ParamShape::NotTyped => SigShape::BadArg(trimmed_piece(s, start, k)),
            }
        } else if c == '(' || c == '[' {
            split_scan(s, k + 1, start, pd + 1, ad, acc)
        } else if c == ')' || c == ']' {
            split_scan(
                s,
                k + 1,
                start,
                if pd > 0 {
                    pd - 1
                } else {
                    0
                },
                ad,
                acc,
            )
        } else if c == '<' {
            split_scan(s, k + 1, start, pd, ad + 1, acc)
        } else if c == '>' {
            split_scan(
                s,
                k + 1,
                start,
                pd,
                if !(k > 0 && s[k - 1] == '-') && ad > 0 {
                    ad - 1
                } else {
                    ad
                },
                acc,
            )
        } else {
            split_scan(s, k + 1, start, pd, ad, acc)
        }
    }
}

/// What a whole parameter-list text denotes.
pub open spec fn sig_of(s: Seq<char>) -> SigShape {
    split_scan(s, 0, 0, 0, 0, Seq::empty())
}

/// The name and type texts of a parsed parameter list.
pub open spec fn pairs_of(ps: Seq<Param>) -> Seq<(Seq<char>, Seq<char>)> {
    ps.map_values(|p: Param| (p.name@, p.ty@))
}

/// Splits a parameter-list text at top-level commas and parses each
/// parameter; the result is exactly what the text denotes, with the
/// first unsupported parameter deciding the error.
pub fn parse_params(s: &Vec<char>) -> (r: SigParse)
    ensures
        (match r {
            SigParse::Good(ps) => sig_of(s@) == SigShape::Good(pairs_of(ps@)),
            SigParse::BadName(t) => sig_of(s@) == SigShape::BadName(t@),
            SigParse::BadArg(t) => sig_of(s@) == SigShape::BadArg(t@),
        }),
{
    let n = s.len();
    let mut out: Vec<Param> = Vec::new();
    let mut start: usize = 0;
    let mut k: usize = 0;
    let mut pdepth: usize = 0;
    let mut adepth: usize = 0;
    proof {
        assert(pairs_of(out@) =~= Seq::<(Seq<char>, Seq<char>)>::empty());
    }
    while k < n
        invariant
            n == s@.len(),
            start <= k <= n,
            pdepth <= k,
            adepth <= k,
            sig_of(s@) == split_scan(
                s@,
                k as int,
                start as int,
                pdepth as int,
                adepth as int,
                pairs_of(out@),
            ),
        decreases n - k,
    {
        let c = s[k];
        if c == ',' && pdepth == 0 && adepth == 0 {
            match parse_one_param(s, start, k, n) {
                ParamParse::One(p) => {
                    let ghost prev = out@;
                    let ghost nm = p.name@;
                    let ghost ty = p.ty@;
                    out.push(p);
                    proof {
                        assert(pairs_of(out@) =~= pairs_of(prev).push((nm, ty)));
                    }
                },
                ParamParse::Name => {
                    let a2 = trim_left(s, start, k);
                    let b2 = trim_right(s, a2, k);
                    return SigParse::BadName(slice_chars(s, a2, b2));
                },
                ParamParse::Arg => {
                    let a2 = trim_left(s, start, k);
                    let b2 = trim_right(s, a2, k);
                    return SigParse::BadArg(slice_chars(s, a2, b2));
                },
            }
            start = k + 1;
            k = k + 1;
        } else if c == '(' || c == '[' {
            pdepth = pdepth + 1;
            k = k + 1;
        } else if c == ')' || c == ']' {
            if pdepth > 0 {
                pdepth = pdepth - 1;
            }
            k = k + 1;
        } else if c == '<' {
            adepth = adepth + 1;
            k = k + 1;
        } else if c == '>' {
            if !(k > 0 && s[k - 1] == '-') && adepth > 0 {
                adepth = adepth - 1;
            }
            k = k + 1;
        } else {
            k = k + 1;
        }
    }
    // the final piece, absent when the list is empty or ends with a comma
    let a2 = trim_left(s, start, n);
    if a2 < n {
        match parse_one_param(s, start, n, n) {
            ParamParse::One(p) => {
                let ghost prev = out@;
                let ghost nm = p.name@;
                let ghost ty = p.ty@;
                out.push(p);
                proof {
                    assert(pairs_of(out@) =~= pairs_of(prev).push((nm, ty)));
                }
            },
            ParamParse::Name => {
                let b2 = trim_right(s, a2, n);
                return SigParse::BadName(slice_chars(s, a2, b2));
            },
            ParamParse::Arg => {
                let b2 = trim_right(s, a2, n);
                return SigParse::BadArg(slice_chars(s, a2, b2));
            },
        }
    }
    SigParse::Good(out)
}

/// The shape of a recognized item: the same structure as [`Item`], over
/// mathematical sequences.  The canonical scan below computes shapes
/// directly from the text, and the executable scanner is proved to
/// return items matching them.
pub enum ItemShape {
    FuncS { text: Seq<char>, name: Seq<char>, sig: SigShape, ret: Option<Seq<char>> },
    NamespaceS { open: Seq<char>, name: Seq<char>, body: Seq<ItemShape>, close: Seq<char> },
    OtherS { text: Seq<char> },
}

/// A parsed parameter list carries exactly the outcome a shape denotes.
pub open spec fn sig_matches(sig: SigParse, sh: SigShape) -> bool {
    match sig {
        SigParse::Good(ps) => sh == SigShape::Good(pairs_of(ps@)),
        SigParse::BadName(t) => sh == SigShape::BadName(t@),
        SigParse::BadArg(t) => sh == SigShape::BadArg(t@),
    }
}

pub open spec fn ret_matches(ret: Option<Vec<char>>, r2: Option<Seq<char>>) -> bool {
    match ret {
        Some(t) => r2 == Some(t@),
        None => r2 is None,
    }
}

/// An item carries exactly the texts and facts of a shape.
pub open spec fn item_matches(it: Item, sh: ItemShape) -> bool
    decreases it,
{
    match it {
        Item::Func { text, name, sig, ret } => sh matches ItemShape::FuncS {
            text: t2,
            name: n2,
            sig: s2,
            ret: r2,
        } && text@ == t2 && name@ == n2 && sig_matches(sig, s2) && ret_matches(ret, r2),
        Item::Namespace { open, name, body, close } => sh matches ItemShape::NamespaceS {
            open: o2,
            name: n2,
            body: b2,
            close: c2,
        } && open@ == o2 && name@ == n2 && close@ == c2 && items_match(body@, b2),
        Item::Other { text } => sh matches ItemShape::OtherS { text: t2 } && text@ == t2,
    }
}

pub open spec fn items_match(items: Seq<Item>, shs: Seq<ItemShape>) -> bool
    decreases items,
{
    if items.len() == 0 {
        shs.len() == 0
    } else {
        shs.len() == items.len() && item_matches(items[0], shs[0]) && items_match(
            items.drop_first(),
            shs.drop_first(),
        )
    }
}

pub proof fn lemma_items_match_snoc(items: Seq<Item>, shs: Seq<ItemShape>, it: Item, sh: ItemShape)
    requires
        items_match(items, shs),
        item_matches(it, sh),
    ensures
        items_match(items.push(it), shs.push(sh)),
    decreases items.len(),
{
    if items.len() == 0 {
        assert(items.push(it)[0] == it);
        assert(shs.push(sh)[0] == sh);
        assert(items.push(it).drop_first() =~= Seq::<Item>::empty());
        assert(shs.push(sh).drop_first() =~= Seq::<ItemShape>::empty());
        assert(items_match(Seq::<Item>::empty(), Seq::<ItemShape>::empty()));
    } else {
        lemma_items_match_snoc(items.drop_first(), shs.drop_first(), it, sh);
        assert(items.push(it)[0] == items[0]);
        assert(shs.push(sh)[0] == shs[0]);
        assert(items.push(it).drop_first() =~= items.drop_first().push(it));
        assert(shs.push(sh).drop_first() =~= shs.drop_first().push(sh));
    }
}

/// The canonical reading of a public function item whose `fn` keyword
/// ends at `fn_kw_end`: its shape and its end, or `None` when the
/// declaration has an unsupported form.
pub open spec fn fn_item_at(s: Seq<char>, item_start: int, fn_kw_end: int) -> Option<
    (ItemShape, int),
> {
    let p = trivia_end_at(s, fn_kw_end);
    let ne = idrun_end(s, p);
    if ne == p {
        None
    } else {
        let q = trivia_end_at(s, ne);
        if !(q < s.len() && s[q] == '(') {
            None
        } else {
            match close_pos(s, q + 1, 1, '(', ')') {
                None => None,
                Some(pe) => {
                    let r0 = trivia_end_at(s, pe);
                    let bo_ret = if r0 < s.len() && r0 + 1 < s.len() && s[r0] == '-' && s[r0 + 1]
                        == '>' {
                        let rs = trivia_end_at(s, r0 + 2);
                        match body_open_at(s, rs) {
                            None => None,
                            Some(b) => {
                                let rt = ws_run_end(s, rs, b);
                                if rt == rs {
                                    None
                                } else {
                                    Some((b, Some(s.subrange(rs, rt))))
                                }
                            },
                        }
                    } else {
                        if r0 < s.len() && s[r0] == '{' {
                            Some((r0, None))
                        } else {
                            None
                        }
                    };
                    match bo_ret {
                        None => None,
                        Some((body_open, ret)) => {
                            match close_pos(s, body_open + 1, 1, '{', '}') {
                                None => None,
                                Some(be) => Some(
                                    (
                                        ItemShape::FuncS {
                                            text: s.subrange(item_start, be),
                                            name: s.subrange(p, ne),
                                            sig: sig_of(s.subrange(q + 1, pe - 1)),
                                            ret,
                                        },
                                        be,
                                    ),
                                ),
                            }
                        },
                    }
                },
            }
        }
    }
}

/// Tries to read a public function item whose `fn` keyword ends at
/// `fn_kw_end`; `item_start` is where the item's text (the `pub`) begins.
/// `None` means the declaration has an unsupported shape and the caller
/// copies it through unexported.
fn parse_fn(s: &Vec<char>, item_start: usize, fn_kw_end: usize, n: usize) -> (r: Option<
    (Item, usize),
>)
    requires
        n == s@.len(),
        item_start <= fn_kw_end <= n,
    ensures
        r is Some ==> item_start < (r->0).1 <= n,
        r is Some ==> item_text((r->0).0) == s@.subrange(item_start as int, (r->0).1 as int),
        r is Some ==> wf_item((r->0).0),
        r is Some ==> (fn_item_at(s@, item_start as int, fn_kw_end as int) matches Some(pr)
            && item_matches((r->0).0, pr.0) && pr.1 == (r->0).1 as int),
        r is None ==> fn_item_at(s@, item_start as int, fn_kw_end as int) is None,
{
    let p = trivia_end(s, fn_kw_end, n);
    let ne = ident_end(s, p, n);
    if ne == p {
        return None;
    }
    let q = trivia_end(s, ne, n);
    if !(q < n && s[q] == '(') {
        return None;
    }
    let pe = match match_close(s, q, n, '(', ')') {
        Some(e) => e,
        None => {
            return None;
        },
    };
    // `pe` is just past the closing parenthesis
    let r0 = trivia_end(s, pe, n);
    let mut ret: Option<Vec<char>> = None;
    let mut body_open: usize = r0;
    if r0 < n && r0 + 1 < n && s[r0] == '-' && s[r0 + 1] == '>' {
        let rs = trivia_end(s, r0 + 2, n);
        body_open = match find_body_open(s, rs, n) {
            Some(b) => b,
            None => {
                return None;
            },
        };
        let rt = trim_right(s, rs, body_open);
        if rt == rs {
            return None;
        }
        ret = Some(slice_chars(s, rs, rt));
    } else {
        if !(r0 < n && s[r0] == '{') {
            return None;
        }
        body_open = r0;
    }
    let be = match match_close(s, body_open, n, '{', '}') {
        Some(e) => e,
        None => {
            return None;
        },
    };
    // `be` is just past the closing brace of the body
    let text = slice_chars(s, item_start, be);
    let raw = slice_chars(s, q + 1, pe - 1);
    let sig = parse_params(&raw);
    let name = slice_chars(s, p, ne);
    proof {
        assert(ident_seq(name@));
    }
    Some((Item::Func { text, name, sig, ret }, be))
}

/// The canonical reading of one opaque item starting at `pos`.
pub open spec fn other_at(s: Seq<char>, pos: int) -> Option<(ItemShape, int)> {
    let e = item_end_at(s, pos, 0);
    Some((ItemShape::OtherS { text: s.subrange(pos, e) }, e))
}

/// The canonical reading of one item starting at `pos`: leading trivia
/// or an attribute as an opaque run; a namespace with an inline body,
/// scanned recursively; a public plain function; anything else opaque.
/// `None` is a parse failure inside a namespace body.
pub open spec fn chunk_at(s: Seq<char>, pos: int) -> Option<(ItemShape, int)>
    decreases s.len() - pos, 0int,
{
    if pos < 0 || pos >= s.len() {
        None
    } else {
        let t = trivia_end_at(s, pos);
        if t > pos {
            Some((ItemShape::OtherS { text: s.subrange(pos, t) }, t))
        } else {
            let c = s[pos];
            if c == '#' {
                let e = attr_end_at(s, pos);
                Some((ItemShape::OtherS { text: s.subrange(pos, e) }, e))
            } else if is_ident_char_at(c) {
                let w = idrun_end(s, pos);
                let pub0 = s.subrange(pos, w) == "pub"@;
                let vis = if pub0 {
                    let q0 = trivia_end_at(s, w);
                    if q0 < s.len() && s[q0] == '(' {
                        match close_pos(s, q0 + 1, 1, '(', ')') {
                            Some(e) => Some((false, trivia_end_at(s, e))),
                            None => None,
                        }
                    } else {
                        Some((true, q0))
                    }
                } else {
                    Some((false, pos))
                };
                match vis {
                    None => other_at(s, pos),
                    Some((public, ks)) => {
                        let ke = idrun_end(s, ks);
                        if s.subrange(ks, ke) == "mod"@ {
                            let p = trivia_end_at(s, ke);
                            let ne = idrun_end(s, p);
                            if ne > p {
                                let q2 = trivia_end_at(s, ne);
                                if q2 < s.len() && s[q2] == '{' {
                                    let bs0 = q2 + 1;
                                    let bs = if bs0 <= pos {
                                        pos + 1
                                    } else if bs0 > s.len() {
                                        s.len() as int
                                    } else {
                                        bs0
                                    };
                                    match items_until_at(s, bs, false) {
                                        None => None,
                                        Some((body, be)) => Some(
                                            (
                                                ItemShape::NamespaceS {
                                                    open: s.subrange(pos, bs),
                                                    name: s.subrange(p, ne),
                                                    body,
                                                    close: s.subrange(be, be + 1),
                                                },
                                                be + 1,
                                            ),
                                        ),
                                    }
                                } else {
                                    other_at(s, pos)
                                }
                            } else {
                                other_at(s, pos)
                            }
                        } else if public && s.subrange(ks, ke) == "fn"@ {
                            match fn_item_at(s, pos, ke) {
                                Some(pr) => Some(pr),
                                None => other_at(s, pos),
                            }
                        } else {
                            other_at(s, pos)
                        }
                    },
                }
            } else {
                other_at(s, pos)
            }
        }
    }
}

/// The canonical scan of items from `start`: at the root it must consume
/// the whole input; inside a namespace body it stops at the closing
/// brace.  `None` is a parse failure: a stray closing brace at the root,
/// or an input that ends inside a namespace body.
pub open spec fn items_until_at(s: Seq<char>, start: int, at_root: bool) -> Option<
    (Seq<ItemShape>, int),
>
    decreases s.len() - start, 1int,
{
    if start < 0 {
        None
    } else if start >= s.len() {
        if at_root {
            Some((Seq::empty(), s.len() as int))
        } else {
            None
        }
    } else if s[start] == '}' {
        if at_root {
            None
        } else {
            Some((Seq::empty(), start))
        }
    } else {
        match chunk_at(s, start) {
            None => None,
            Some((sh, np)) => {
                let np2 = if np <= start {
                    start + 1
                } else if np > s.len() {
                    s.len() as int
                } else {
                    np
                };
                match items_until_at(s, np2, at_root) {
                    None => None,
                    Some((rest, end)) => Some((seq![sh] + rest, end)),
                }
            },
        }
    }
}

/// Reads one item (or one opaque run of trivia or text) starting at
/// `pos`; never called on a closing brace.
fn parse_chunk(s: &Vec<char>, pos: usize, n: usize) -> (r: Result<(Item, usize), UntRustedError>)
    requires
        n == s@.len(),
        pos < n,
        s@[pos as int] != '}',
    ensures
        r is Err ==> r->Err_0 is ParseError,
        r is Err ==> exists|i: int|
            0 <= i < s@.len() && (#[trigger] s@[i] == '}' || s@[i] == '{'),
        r is Ok ==> pos < (r->Ok_0).1 <= n,
        r is Ok ==> item_text((r->Ok_0).0) == s@.subrange(pos as int, (r->Ok_0).1 as int),
        r is Ok ==> wf_item((r->Ok_0).0),
        r is Ok ==> (chunk_at(s@, pos as int) matches Some(pr) && item_matches(
            (r->Ok_0).0,
            pr.0,
        ) && pr.1 == (r->Ok_0).1 as int),
        r is Err ==> chunk_at(s@, pos as int) is None,
    decreases n - pos, 0int,
{
    let t = trivia_end(s, pos, n);
    if t > pos {
        return Ok((Item::Other { text: slice_chars(s, pos, t) }, t));
    }
    let c = s[pos];
    if c == '#' {
        let e = attr_end(s, pos, n);
        return Ok((Item::Other { text: slice_chars(s, pos, e) }, e));
    }
    if is_ident_char(c) {
        let w = ident_end(s, pos, n);
        let mut public = false;
        let mut kw_start: usize = pos;
        let mut kw_end: usize = w;
        if word_is(s, pos, w, "pub") {
            public = true;
            let mut q = trivia_end(s, w, n);
            if q < n && s[q] == '(' {
                public = false;
                match match_close(s, q, n, '(', ')') {
                    Some(e) => {
                        q = trivia_end(s, e, n);
                    },
                    None => {
                        let e = item_end(s, pos, n);
                        return Ok((Item::Other { text: slice_chars(s, pos, e) }, e));
                    },
                }
            }
            kw_start = q;
            kw_end = ident_end(s, q, n);
        }
        if word_is(s, kw_start, kw_end, "mod") {
            let p = trivia_end(s, kw_end, n);
            let ne = ident_end(s, p, n);
            if ne > p {
                let q = trivia_end(s, ne, n);
                if q < n && s[q] == '{' {
                    let body_start = q + 1;
                    assert(s@[q as int] == '{');
                    let (body, body_end) = match parse_items_until(s, body_start, n, false) {
                        Ok(x) => x,
                        Err(e) => {
                            return Err(e);
                        },
                    };
                    let it = Item::Namespace {
                        open: slice_chars(s, pos, body_start),
                        name: slice_chars(s, p, ne),
                        body,
                        close: slice_chars(s, body_end, body_end + 1),
                    };
                    proof {
                        assert(item_text(it) =~= s@.subrange(pos as int, body_end + 1));
                        assert(it matches Item::Namespace { name: nm, body: b, .. } ==> (
                        ident_seq(nm@) && wf_items(b@)));
                    }
                    return Ok((it, body_end + 1));
                }
            }
            let e = item_end(s, pos, n);
            return Ok((Item::Other { text: slice_chars(s, pos, e) }, e));
        }
        if public && word_is(s, kw_start, kw_end, "fn") {
            match parse_fn(s, pos, kw_end, n) {
                Some(r) => {
                    return Ok(r);
                },
                None => {
                    let e = item_end(s, pos, n);
                    return Ok((Item::Other { text: slice_chars(s, pos, e) }, e));
                },
            }
        }
        let e = item_end(s, pos, n);
        return Ok((Item::Other { text: slice_chars(s, pos, e) }, e));
    }
    let e = item_end(s, pos, n);
    Ok((Item::Other { text: slice_chars(s, pos, e) }, e))
}

/// The end of an opaque item scanned from `k` with `depth` open
/// delimiters: after a semicolon at depth zero, after the brace closing
/// a depth-zero brace block, or before a stray closing brace.
pub open spec fn item_end_at(s: Seq<char>, k: int, depth: int) -> int
    decreases s.len() - k,
{
    if k < 0 || k >= s.len() {
        s.len() as int
    } else {
        let c = s[k];
        if c == '{' || c == '(' || c == '[' {
            item_end_at(s, k + 1, depth + 1)
        } else if c == '}' {
            if depth == 0 {
                k
            } else if depth == 1 {
                k + 1
            } else {
                item_end_at(s, k + 1, depth - 1)
            }
        } else if c == ')' || c == ']' {
            item_end_at(
                s,
                k + 1,
                if depth > 0 {
                    depth - 1
                } else {
                    0
                },
            )
        } else if c == ';' && depth == 0 {
            k + 1
        } else {
            item_end_at(s, step_tok(s, k), depth)
        }
    }
}

/// The end of an opaque item starting at `pos`: after a semicolon at
/// nesting depth zero, after the brace closing a depth-zero brace block,
/// or before a stray closing brace (which the enclosing scan handles).
fn item_end(s: &Vec<char>, pos: usize, n: usize) -> (r: usize)
    requires
        n == s@.len(),
        pos < n,
        s@[pos as int] != '}',
    ensures
        pos < r <= n,
        r as int == item_end_at(s@, pos as int, 0),
{
    let mut k: usize = pos;
    let mut depth: usize = 0;
    while k < n
        invariant
            n == s@.len(),
            pos <= k <= n,
            depth <= k,
            k == pos ==> depth == 0,
            s@[pos as int] != '}',
            item_end_at(s@, pos as int, 0) == item_end_at(s@, k as int, depth as int),
        decreases n - k,
    {
        let c = s[k];
        if c == '{' || c == '(' || c == '[' {
            depth = depth + 1;
            k = k + 1;
        } else if c == '}' {
            if depth == 0 {
                return k;
            }
            depth = depth - 1;
            k = k + 1;
            if depth == 0 {
                return k;
            }
        } else if c == ')' || c == ']' {
            if depth > 0 {
                depth = depth - 1;
            }
            k = k + 1;
        } else if c == ';' && depth == 0 {
            return k + 1;
        } else {
            let e = tok_end(s, k, n);
            proof {
                assert(step_tok(s@, k as int) == e as int);
            }
            k = e;
        }
    }
    n
}

/// Scans items from `start`.  At the root the scan must consume the whole
/// input; inside a namespace body it stops at the closing brace, which is
/// left for the caller.  A stray closing brace at the root, or an input
/// that ends inside a namespace body, is a parse error.
pub fn parse_items_until(s: &Vec<char>, start: usize, n: usize, at_root: bool) -> (r: Result<
    (Vec<Item>, usize),
    UntRustedError,
>)
    requires
        n == s@.len(),
        start <= n,
        !at_root ==> exists|i: int| 0 <= i < s@.len() && #[trigger] s@[i] == '{',
    ensures
        r is Err ==> r->Err_0 is ParseError,
        r is Err ==> exists|i: int|
            0 <= i < s@.len() && (#[trigger] s@[i] == '}' || s@[i] == '{'),
        r is Ok ==> start <= (r->Ok_0).1 <= n,
        r is Ok ==> items_text((r->Ok_0).0@) == s@.subrange(start as int, (r->Ok_0).1 as int),
        r is Ok ==> wf_items((r->Ok_0).0@),
        r is Ok ==> (items_until_at(s@, start as int, at_root) matches Some(pr) && items_match(
            (r->Ok_0).0@,
            pr.0,
        ) && pr.1 == (r->Ok_0).1 as int),
        r is Err ==> items_until_at(s@, start as int, at_root) is None,
        r is Ok && at_root ==> (r->Ok_0).1 == n,
        r is Ok && !at_root ==> (r->Ok_0).1 < n && s@[(r->Ok_0).1 as int] == '}',
    decreases n - start, 1int,
{
    let mut items: Vec<Item> = Vec::new();
    let mut pos: usize = start;
    let ghost mut done: Seq<ItemShape> = Seq::empty();
    proof {
        assert(items_text(items@) =~= s@.subrange(start as int, start as int));
        assert(wf_items(items@));
        if items_until_at(s@, start as int, at_root) is Some {
            let pr = items_until_at(s@, start as int, at_root)->0;
            assert(Seq::<ItemShape>::empty() + pr.0 =~= pr.0);
        }
    }
    while pos < n
        invariant
            n == s@.len(),
            start <= pos <= n,
            items_text(items@) == s@.subrange(start as int, pos as int),
            wf_items(items@),
            items_match(items@, done),
            items_until_at(s@, pos as int, at_root) matches Some(pr)
                ==> items_until_at(s@, start as int, at_root) == Some(
                (done + pr.0, pr.1),
            ),
            items_until_at(s@, pos as int, at_root) is None ==> items_until_at(
                s@,
                start as int,
                at_root,
            ) is None,
        decreases n - pos,
    {
        if s[pos] == '}' {
            if at_root {
                assert(s@[pos as int] == '}');
                assert(items_until_at(s@, pos as int, at_root) is None);
                return Err(
                    UntRustedError::ParseError(
                        String::from_str("unmatched closing brace at the top level"),
                    ),
                );
            }
            proof {
                assert(items_until_at(s@, pos as int, at_root) == Some(
                    (Seq::<ItemShape>::empty(), pos as int),
                ));
                assert(done + Seq::<ItemShape>::empty() =~= done);
            }
            return Ok((items, pos));
        }
        let (it, np) = match parse_chunk(s, pos, n) {
            Ok(x) => x,
            Err(e) => {
                proof {
                    assert(chunk_at(s@, pos as int) is None);
                    assert(items_until_at(s@, pos as int, at_root) is None);
                }
                return Err(e);
            },
        };
        proof {
            lemma_items_text_snoc(items@, it);
            lemma_wf_items_snoc(items@, it);
            assert(s@.subrange(start as int, pos as int) + s@.subrange(pos as int, np as int)
                =~= s@.subrange(start as int, np as int));
            let pr = chunk_at(s@, pos as int)->0;
            let sh = pr.0;
            lemma_items_match_snoc(items@, done, it, sh);
            assert(items_until_at(s@, pos as int, at_root) == (match items_until_at(
                s@,
                np as int,
                at_root,
            ) {
                Some(r2) => Some((seq![sh] + r2.0, r2.1)),
                None => None,
            }));
            if items_until_at(s@, np as int, at_root) is Some {
                let r2 = items_until_at(s@, np as int, at_root)->0;
                assert(done + (seq![sh] + r2.0) =~= done.push(sh) + r2.0);
            }
            done = done.push(sh);
        }
        items.push(it);
        pos = np;
    }
    if at_root {
        proof {
            assert(items_until_at(s@, pos as int, at_root) == Some(
                (Seq::<ItemShape>::empty(), n as int),
            ));
            assert(done + Seq::<ItemShape>::empty() =~= done);
        }
        Ok((items, pos))
    } else {
        assert(items_until_at(s@, pos as int, at_root) is None);
        Err(
            UntRustedError::ParseError(
                String::from_str("a namespace body is not closed before the end of the input"),
            ),
        )
    }
}

/// Parses a whole compilation unit into its item sequence.  On success
/// the items concatenate back to exactly the input.
pub fn parse_source(src: &Vec<char>) -> (r: Result<Vec<Item>, UntRustedError>)
    ensures
        r is Err ==> r->Err_0 is ParseError,
        r is Err ==> exists|i: int|
            0 <= i < src@.len() && (#[trigger] src@[i] == '}' || src@[i] == '{'),
        r is Ok ==> items_text(r->Ok_0@) == src@,
        r is Ok ==> wf_items(r->Ok_0@),
        r is Ok ==> (items_until_at(src@, 0, true) matches Some(pr) && items_match(
            r->Ok_0@,
            pr.0,
        )),
        r is Err ==> items_until_at(src@, 0, true) is None,
{
    let n = src.len();
    match parse_items_until(src, 0, n, true) {
        Ok((items, _end)) => {
            proof {
                assert(src@.subrange(0, src@.len() as int) =~= src@);
            }
            Ok(items)
        },
        Err(e) => Err(e),
    }
}

} // verus!
