//! The wrapper-name protocol shared by the export planner and the call-time
//! resolver.
//!
//! The planner joins namespace segments with a double underscore and puts
//! one more double underscore before the function name, so a function `f`
//! inside `a::b` is exported as `a__b__f` and a root-level `f` as `__f`.
//! At call time the embedding caller supplies `a::b::f` or `f`; resolution
//! must land on exactly the name the planner emitted.

use vstd::prelude::*;
use crate::model::ident_seq;
use crate::text::str_to_chars;
use crate::text::chars_to_string;

verus! {

pub open spec fn colon_sep() -> Seq<char> {
    seq![':', ':']
}

pub open spec fn uscore_sep() -> Seq<char> {
    seq!['_', '_']
}

/// The exported name of function `name` under the joined namespace prefix
/// `prefix` (empty at the root).
pub open spec fn wrapper_name(prefix: Seq<char>, name: Seq<char>) -> Seq<char> {
    prefix + uscore_sep() + name
}

/// The joined prefix after entering a namespace called `seg`.
pub open spec fn extend_prefix(prefix: Seq<char>, seg: Seq<char>) -> Seq<char> {
    if prefix.len() == 0 {
        seg
    } else {
        prefix + uscore_sep() + seg
    }
}

/// True when a `::` separator occurs anywhere in `s`.
pub open spec fn has_colon_pair(s: Seq<char>) -> bool {
    exists|i: int| 0 <= i && i + 2 <= s.len() && #[trigger] s[i] == ':' && s[i + 1] == ':'
}

/// Every `::` of `s` replaced by `__`, left to right.
pub open spec fn replace_seps(s: Seq<char>) -> Seq<char>
    decreases s.len(),
{
    if s.len() >= 2 && s[0] == ':' && s[1] == ':' {
        uscore_sep() + replace_seps(s.skip(2))
    } else if s.len() >= 1 {
        seq![s[0]] + replace_seps(s.skip(1))
    } else {
        s
    }
}

/// What a caller-supplied function name resolves to: a qualified name has
/// each `::` turned into `__`; an unqualified name gains a leading `__`.
pub open spec fn resolved_name(s: Seq<char>) -> Seq<char> {
    if has_colon_pair(s) {
        replace_seps(s)
    } else {
        uscore_sep() + s
    }
}

/// Resolves a caller-supplied function name to the exported wrapper name.
pub fn resolve_call_name(name: &str) -> (r: String)
    ensures
        r@ == resolved_name(name@),
{
    let s = str_to_chars(name);
    let n = s.len();
    let mut found: bool = false;
    let mut i: usize = 0;
    while i < n
        invariant
            n == s@.len(),
            i <= n,
            found <==> exists|k: int|
                0 <= k < i && k + 2 <= s@.len() && #[trigger] s@[k] == ':' && s@[k + 1] == ':',
        decreases n - i,
    {
        if i + 1 < n {
            if s[i] == ':' && s[i + 1] == ':' {
                found = true;
            }
        }
        i += 1;
    }
    assert(found <==> has_colon_pair(s@)) by {
        if has_colon_pair(s@) {
            let k = choose|k: int|
                0 <= k && k + 2 <= s@.len() && #[trigger] s@[k] == ':' && s@[k + 1] == ':';
            assert(0 <= k < i && k + 2 <= s@.len() && s@[k] == ':' && s@[k + 1] == ':');
        }
    }
    if !found {
        let mut out: Vec<char> = Vec::new();
        out.push('_');
        out.push('_');
        let mut j: usize = 0;
        while j < n
            invariant
                n == s@.len(),
                j <= n,
                out@ == uscore_sep() + s@.subrange(0, j as int),
            decreases n - j,
        {
            let ghost prev = out@;
            out.push(s[j]);
            assert(out@ =~= uscore_sep() + s@.subrange(0, j + 1)) by {
                assert(prev.push(s@[j as int]) =~= uscore_sep() + s@.subrange(0, j + 1));
            }
            j += 1;
        }
        assert(s@.subrange(0, s@.len() as int) =~= s@);
        return chars_to_string(&out);
    }
    let mut out: Vec<char> = Vec::new();
    proof {
        assert(s@.skip(0) =~= s@);
        assert(Seq::<char>::empty() + replace_seps(s@) =~= replace_seps(s@));
    }
    let mut j: usize = 0;
    while j < n
        invariant
            n == s@.len(),
            j <= n,
            replace_seps(s@) == out@ + replace_seps(s@.skip(j as int)),
        decreases n - j,
    {
        let ghost rest = s@.skip(j as int);
        if j + 1 < n && s[j] == ':' && s[j + 1] == ':' {
            proof {
                assert(rest.len() >= 2 && rest[0] == ':' && rest[1] == ':');
                assert(rest.skip(2) =~= s@.skip(j + 2));
                assert(replace_seps(rest) == uscore_sep() + replace_seps(s@.skip(j + 2)));
            }
            let ghost prev = out@;
            out.push('_');
            out.push('_');
            proof {
                assert(out@ =~= prev + uscore_sep());
                assert(out@ + replace_seps(s@.skip(j + 2)) =~= prev + replace_seps(rest));
            }
            j += 2;
        } else {
            proof {
                assert(rest.len() >= 1 && !(rest.len() >= 2 && rest[0] == ':' && rest[1] == ':'));
                assert(rest.skip(1) =~= s@.skip(j + 1));
                assert(replace_seps(rest) == seq![rest[0]] + replace_seps(s@.skip(j + 1)));
            }
            let ghost prev = out@;
            out.push(s[j]);
            proof {
                assert(out@ =~= prev + seq![s@[j as int]]);
                assert(out@ + replace_seps(s@.skip(j + 1)) =~= prev + replace_seps(rest));
            }
            j += 1;
        }
    }
    proof {
        assert(s@.skip(s@.len() as int) =~= Seq::<char>::empty());
        assert(out@ + replace_seps(s@.skip(s@.len() as int)) =~= out@);
    }
    chars_to_string(&out)
}

/// True when no character of `s` is a colon.
pub open spec fn colon_free(s: Seq<char>) -> bool {
    forall|i: int| 0 <= i < s.len() ==> #[trigger] s[i] != ':'
}

/// The parts joined with the separator `sep` between each two of them.
pub open spec fn join_with(parts: Seq<Seq<char>>, sep: Seq<char>) -> Seq<char>
    decreases parts.len(),
{
    if parts.len() == 0 {
        Seq::empty()
    } else if parts.len() == 1 {
        parts[0]
    } else {
        parts[0] + sep + join_with(parts.skip(1), sep)
    }
}

proof fn lemma_colon_free_replace_id(s: Seq<char>)
    requires
        colon_free(s),
    ensures
        replace_seps(s) == s,
    decreases s.len(),
{
    if s.len() >= 1 {
        assert(s[0] != ':');
        lemma_colon_free_replace_id(s.skip(1));
        assert(seq![s[0]] + s.skip(1) =~= s);
    }
}

proof fn lemma_colon_free_no_pair(s: Seq<char>)
    requires
        colon_free(s),
    ensures
        !has_colon_pair(s),
{
}

proof fn lemma_replace_step(p: Seq<char>, t: Seq<char>)
    requires
        colon_free(p),
    ensures
        replace_seps(p + colon_sep() + t) == p + uscore_sep() + replace_seps(t),
    decreases p.len(),
{
    let s = p + colon_sep() + t;
    if p.len() == 0 {
        assert(s.len() >= 2 && s[0] == ':' && s[1] == ':');
        assert(s.skip(2) =~= t);
        assert(uscore_sep() + replace_seps(t) =~= p + uscore_sep() + replace_seps(t));
    } else {
        assert(s[0] == p[0]);
        assert(s[0] != ':');
        lemma_replace_step(p.skip(1), t);
        assert(s.skip(1) =~= p.skip(1) + colon_sep() + t);
        assert(replace_seps(s) == seq![p[0]] + (p.skip(1) + uscore_sep() + replace_seps(t)));
        assert(seq![p[0]] + (p.skip(1) + uscore_sep() + replace_seps(t)) =~= p + uscore_sep()
            + replace_seps(t));
    }
}

proof fn lemma_replace_join(parts: Seq<Seq<char>>)
    requires
        parts.len() >= 1,
        forall|i: int| 0 <= i < parts.len() ==> colon_free(#[trigger] parts[i]),
    ensures
        replace_seps(join_with(parts, colon_sep())) == join_with(parts, uscore_sep()),
    decreases parts.len(),
{
    if parts.len() == 1 {
        lemma_colon_free_replace_id(parts[0]);
    } else {
        lemma_replace_join(parts.skip(1));
        lemma_replace_step(parts[0], join_with(parts.skip(1), colon_sep()));
    }
}

proof fn lemma_join_snoc(parts: Seq<Seq<char>>, sep: Seq<char>)
    requires
        parts.len() >= 2,
    ensures
        join_with(parts, sep) == join_with(parts.drop_last(), sep) + sep + parts.last(),
    decreases parts.len(),
{
    if parts.len() == 2 {
        assert(parts.skip(1) =~= seq![parts[1]]);
        assert(join_with(parts.skip(1), sep) == parts[1]);
        assert(parts.drop_last() =~= seq![parts[0]]);
    } else {
        lemma_join_snoc(parts.skip(1), sep);
        assert(parts.skip(1).drop_last() =~= parts.drop_last().skip(1));
        assert(parts.skip(1).last() == parts.last());
        assert(join_with(parts, sep) == parts[0] + sep + (join_with(
            parts.drop_last().skip(1),
            sep,
        ) + sep + parts.last()));
        assert(parts.drop_last()[0] == parts[0]);
        assert(join_with(parts.drop_last(), sep) == parts[0] + sep + join_with(
            parts.drop_last().skip(1),
            sep,
        ));
        assert(parts[0] + sep + (join_with(parts.drop_last().skip(1), sep) + sep + parts.last())
            =~= (parts[0] + sep + join_with(parts.drop_last().skip(1), sep)) + sep + parts.last());
    }
}

/// Name resolution is consistent with the planner's naming scheme: for any
/// colon-free path parts, resolving the `::`-joined caller name yields the
/// wrapper name the planner emits for that namespace path and function
/// name.  With a single part this covers root-level exports: `f` resolves
/// to `__f`.
pub proof fn lemma_call_name_resolution(parts: Seq<Seq<char>>)
    requires
        parts.len() >= 1,
        forall|i: int| 0 <= i < parts.len() ==> colon_free(#[trigger] parts[i]),
    ensures
        resolved_name(join_with(parts, colon_sep())) == wrapper_name(
            join_with(parts.drop_last(), uscore_sep()),
            parts.last(),
        ),
{
    if parts.len() == 1 {
        let p = parts[0];
        assert(join_with(parts, colon_sep()) == p);
        lemma_colon_free_no_pair(p);
        assert(resolved_name(p) == uscore_sep() + p);
        assert(parts.drop_last() =~= Seq::<Seq<char>>::empty());
        assert(wrapper_name(Seq::empty(), p) =~= uscore_sep() + p);
    } else {
        let joined = join_with(parts, colon_sep());
        lemma_join_snoc(parts, colon_sep());
        assert(has_colon_pair(joined)) by {
            let left = join_with(parts.drop_last(), colon_sep());
            assert(joined == left + colon_sep() + parts.last());
            assert(joined[left.len() as int] == ':' && joined[left.len() as int + 1] == ':');
        }
        lemma_replace_join(parts);
        lemma_join_snoc(parts, uscore_sep());
        assert(forall|i: int|
            0 <= i < parts.drop_last().len() ==> colon_free(#[trigger] parts.drop_last()[i]));
    }
}


/// Entering namespaces one segment at a time builds exactly the joined
/// path: extending the joined prefix of `parts` with one more nonempty
/// segment gives the join of `parts` with that segment appended.
pub proof fn lemma_extend_prefix_join(parts: Seq<Seq<char>>, seg: Seq<char>)
    requires
        forall|i: int| 0 <= i < parts.len() ==> #[trigger] parts[i].len() >= 1,
    ensures
        extend_prefix(join_with(parts, uscore_sep()), seg) == join_with(
            parts.push(seg),
            uscore_sep(),
        ),
{
    let w = parts.push(seg);
    if parts.len() == 0 {
        assert(join_with(parts, uscore_sep()) == Seq::<char>::empty());
        assert(w.len() == 1 && w[0] == seg);
    } else if parts.len() == 1 {
        assert(join_with(parts, uscore_sep()) == parts[0]);
        assert(w[0] == parts[0]);
        assert(w.skip(1) =~= seq![seg]);
        assert(join_with(w.skip(1), uscore_sep()) == seg);
    } else {
        lemma_join_snoc(w, uscore_sep());
        assert(w.drop_last() =~= parts);
        assert(w.last() == seg);
        assert(join_with(parts, uscore_sep()).len() >= 1) by {
            assert(join_with(parts, uscore_sep()) == parts[0] + uscore_sep() + join_with(
                parts.skip(1),
                uscore_sep(),
            ));
        }
    }
}


/// A plain identifier is nonempty and free of colons, so the namespace
/// and function names the scanner extracts always satisfy the
/// precondition of the resolution law.
pub proof fn lemma_ident_is_resolvable_part(s: Seq<char>)
    requires
        ident_seq(s),
    ensures
        colon_free(s),
        s.len() >= 1,
{
    assert forall|i: int| 0 <= i < s.len() implies #[trigger] s[i] != ':' by {
        assert(crate::text::is_ident_char_at(s[i]));
    }
}

} // verus!
