//! Character-sequence utilities shared by the planner, the name codec and
//! the failure classifiers.  All source manipulation in this crate works on
//! `Vec<char>` values whose mathematical model is `Seq<char>`.

use vstd::prelude::*;
use vstd::string::StrSliceExecFns;

verus! {

/// The whitespace characters the scanner recognizes.
pub open spec fn is_ws_char(c: char) -> bool {
    c == ' ' || c == '\t' || c == '\n' || c == '\r'
}

/// The identifier alphabet: ASCII letters, digits and the underscore.
pub open spec fn is_ident_char_at(c: char) -> bool {
    ('a' <= c && c <= 'z') || ('A' <= c && c <= 'Z') || ('0' <= c && c <= '9') || c == '_'
}

/// True when `needle` occurs as a contiguous run inside `hay`.
pub open spec fn seq_contains(hay: Seq<char>, needle: Seq<char>) -> bool {
    exists|i: int|
        0 <= i && i + needle.len() <= hay.len() && #[trigger] hay.subrange(i, i + needle.len())
            == needle
}

/// A run that provably stands at offset `i` witnesses containment.
pub proof fn lemma_contains_at(hay: Seq<char>, needle: Seq<char>, i: int)
    requires
        0 <= i,
        i + needle.len() <= hay.len(),
        hay.subrange(i, i + needle.len()) == needle,
    ensures
        seq_contains(hay, needle),
{
}

pub proof fn lemma_contains_prefix(a: Seq<char>, b: Seq<char>)
    ensures
        seq_contains(a + b, a),
        seq_contains(a + b, b),
{
    assert((a + b).subrange(0, a.len() as int) =~= a);
    lemma_contains_at(a + b, a, 0);
    assert((a + b).subrange(a.len() as int, (a.len() + b.len()) as int) =~= b);
    lemma_contains_at(a + b, b, a.len() as int);
}

/// Containment survives extending the haystack on either side.
pub proof fn lemma_contains_concat(a: Seq<char>, b: Seq<char>, needle: Seq<char>)
    requires
        seq_contains(a, needle) || seq_contains(b, needle),
    ensures
        seq_contains(a + b, needle),
{
    if seq_contains(a, needle) {
        let i = choose|i: int|
            0 <= i && i + needle.len() <= a.len() && #[trigger] a.subrange(i, i + needle.len())
                == needle;
        assert((a + b).subrange(i, i + needle.len() as int) =~= a.subrange(i, i + needle.len()));
        lemma_contains_at(a + b, needle, i);
    } else {
        let i = choose|i: int|
            0 <= i && i + needle.len() <= b.len() && #[trigger] b.subrange(i, i + needle.len())
                == needle;
        assert((a + b).subrange(a.len() + i, a.len() + i + needle.len() as int) =~= b.subrange(
            i,
            i + needle.len(),
        ));
        lemma_contains_at(a + b, needle, a.len() + i);
    }
}

/// Copies the characters of `s` into a vector; the vector models the same
/// character sequence as the string.
pub fn str_to_chars(s: &str) -> (r: Vec<char>)
    ensures
        r@ == s@,
{
    let n = s.unicode_len();
    let mut r: Vec<char> = Vec::new();
    let mut i: usize = 0;
    while i < n
        invariant
            n == s@.len(),
            i <= n,
            r@ == s@.subrange(0, i as int),
        decreases n - i,
    {
        r.push(s.get_char(i));
        assert(s@.subrange(0, i as int).push(s@[i as int]) =~= s@.subrange(0, i + 1));
        i += 1;
    }
    assert(s@.subrange(0, s@.len() as int) =~= s@);
    r
}

/// Relies on `String::push`: appends one character to the string.
#[verifier::external_body]
fn push_char(s: &mut String, c: char)
    ensures
        final (s)@ == old(s)@.push(c),
{
    s.push(c);
}

/// Builds a string holding exactly the characters of `v`.
pub fn chars_to_string(v: &Vec<char>) -> (r: String)
    ensures
        r@ == v@,
{
    let mut r = String::new();
    let mut i: usize = 0;
    while i < v.len()
        invariant
            i <= v.len(),
            r@ == v@.subrange(0, i as int),
        decreases v.len() - i,
    {
        push_char(&mut r, v[i]);
        assert(v@.subrange(0, i as int).push(v@[i as int]) =~= v@.subrange(0, i + 1));
        i += 1;
    }
    assert(v@.subrange(0, v@.len() as int) =~= v@);
    r
}

/// Appends every character of the string slice `s` to `out`.
pub fn append_str(out: &mut Vec<char>, s: &str)
    ensures
        final (out)@ == old(out)@ + s@,
{
    let n = s.unicode_len();
    let mut i: usize = 0;
    while i < n
        invariant
            n == s@.len(),
            i <= n,
            out@ == old(out)@ + s@.subrange(0, i as int),
        decreases n - i,
    {
        let ghost prev = out@;
        out.push(s.get_char(i));
        assert(out@ =~= old(out)@ + s@.subrange(0, i + 1)) by {
            assert(prev.push(s@[i as int]) =~= old(out)@ + s@.subrange(0, i + 1));
        }
        i += 1;
    }
    assert(s@.subrange(0, s@.len() as int) =~= s@);
}

/// Appends every character of `s` to `out`.
pub fn append_chars(out: &mut Vec<char>, s: &Vec<char>)
    ensures
        final (out)@ == old(out)@ + s@,
{
    let mut i: usize = 0;
    while i < s.len()
        invariant
            i <= s.len(),
            out@ == old(out)@ + s@.subrange(0, i as int),
        decreases s.len() - i,
    {
        let ghost prev = out@;
        out.push(s[i]);
        assert(out@ =~= old(out)@ + s@.subrange(0, i + 1)) by {
            assert(prev.push(s@[i as int]) =~= old(out)@ + s@.subrange(0, i + 1));
        }
        i += 1;
    }
    assert(s@.subrange(0, s@.len() as int) =~= s@);
}

/// Copies `s[from..to]` into a fresh vector.
pub fn slice_chars(s: &Vec<char>, from: usize, to: usize) -> (r: Vec<char>)
    requires
        from <= to <= s@.len(),
    ensures
        r@ == s@.subrange(from as int, to as int),
{
    let mut r: Vec<char> = Vec::new();
    let mut i: usize = from;
    while i < to
        invariant
            from <= i <= to <= s@.len(),
            r@ == s@.subrange(from as int, i as int),
        decreases to - i,
    {
        r.push(s[i]);
        assert(s@.subrange(from as int, i as int).push(s@[i as int]) =~= s@.subrange(
            from as int,
            i + 1,
        ));
        i += 1;
    }
    r
}

/// Decides `seq_contains(hay, needle)`.
pub fn contains_chars(hay: &Vec<char>, needle: &Vec<char>) -> (r: bool)
    ensures
        r == seq_contains(hay@, needle@),
{
    if needle.len() > hay.len() {
        assert(!seq_contains(hay@, needle@));
        return false;
    }
    if needle.len() == 0 {
        proof {
            assert(hay@.subrange(0, 0) =~= needle@);
            lemma_contains_at(hay@, needle@, 0);
        }
        return true;
    }
    let bound = hay.len() - needle.len();
    let mut i: usize = 0;
    while i <= bound
        invariant
            1 <= needle@.len() <= hay@.len() <= usize::MAX,
            bound == hay@.len() - needle@.len(),
            i <= bound + 1,
            forall|k: int|
                0 <= k < i ==> #[trigger] hay@.subrange(k, k + needle@.len()) != needle@,
        decreases bound + 1 - i,
    {
        let mut j: usize = 0;
        let mut all_eq: bool = true;
        while j < needle.len()
            invariant
                i + needle@.len() <= hay@.len() <= usize::MAX,
                j <= needle@.len(),
                all_eq ==> forall|k: int| 0 <= k < j ==> #[trigger] hay@[i + k] == needle@[k],
                !all_eq ==> exists|k: int|
                    0 <= k < needle@.len() && #[trigger] hay@[i + k] != needle@[k],
            decreases needle.len() - j,
        {
            if hay[i + j] != needle[j] {
                all_eq = false;
                j = needle.len();
            } else {
                j += 1;
            }
        }
        if all_eq {
            assert forall|k: int|
                0 <= k < needle@.len() implies hay@.subrange(i as int, i + needle@.len())[k]
                == needle@[k] by {
                assert(hay@[i + k] == needle@[k]);
            }
            assert(hay@.subrange(i as int, i + needle@.len()) =~= needle@);
            return true;
        }
        assert(hay@.subrange(i as int, i + needle@.len()) != needle@) by {
            let k = choose|k: int| 0 <= k < needle@.len() && #[trigger] hay@[i + k] != needle@[k];
            assert(hay@.subrange(i as int, i + needle@.len())[k] == hay@[i + k]);
        }
        i += 1;
    }
    assert forall|k: int| 0 <= k && k + needle@.len() <= hay@.len() implies #[trigger] hay@
        .subrange(k, k + needle@.len()) != needle@ by {
        assert(k < i);
    }
    false
}

} // verus!
