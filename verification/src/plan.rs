//! The export planner.
//!
//! For every public function discovered at any namespace depth the planner
//! inserts, right after the original item, a boundary wrapper tagged with
//! the sandbox export attribute.  The wrapper's name joins the namespace
//! path and the function name with double underscores; parameters and
//! results whose type is registered as host-exposed or externally declared
//! are marshaled through the JSON envelope, all others pass through raw.
//! Everything else in the submitted source is emitted verbatim.

use vstd::prelude::*;
use crate::errors::UntRustedError;
use crate::model::{Param, SigParse, Item, items_text};
use crate::names::{wrapper_name, extend_prefix};
use crate::text::is_ws_char;
use crate::text::{append_str, append_chars, seq_contains};

verus! {

/// The views of a list of character vectors.
pub open spec fn views_of(v: Seq<Vec<char>>) -> Seq<Seq<char>> {
    v.map_values(|x: Vec<char>| x@)
}

/// `s` with every whitespace character removed; type names are compared
/// in this form, so `Vec<u8>` and `Vec < u8 >` name the same type.
pub open spec fn nows(s: Seq<char>) -> Seq<char> {
    s.filter(|c: char| !is_ws_char(c))
}

/// Whether a type text names a registered boundary type.  Membership is
/// purely textual (whitespace-insensitive equality with a registered
/// name): registration is under the embedding application's control, so
/// no restriction to path types is imposed; a registered text that spells
/// a non-path type would be marshaled accordingly.
pub open spec fn is_marshaled(ty: Seq<char>, jn: Seq<Seq<char>>) -> bool {
    exists|i: int| 0 <= i < jn.len() && #[trigger] nows(jn[i]) == nows(ty)
}

/// Whether the declared return type participates in marshaling.
pub open spec fn ret_marshaled(ret: Option<Vec<char>>, jn: Seq<Seq<char>>) -> bool {
    match ret {
        Some(t) => is_marshaled(t@, jn),
        None => false,
    }
}

/// One wrapper parameter: a marshaled one is bound through the JSON
/// envelope, any other passes through unchanged.
pub open spec fn render_param(p: Param, jn: Seq<Seq<char>>) -> Seq<char> {
    if is_marshaled(p.ty@, jn) {
        "Json("@ + p.name@ + "): Json<"@ + p.ty@ + ">"@
    } else {
        p.name@ + ": "@ + p.ty@
    }
}

pub open spec fn render_params(ps: Seq<Param>, jn: Seq<Seq<char>>) -> Seq<char>
    decreases ps.len(),
{
    if ps.len() == 0 {
        Seq::empty()
    } else if ps.len() == 1 {
        render_param(ps[0], jn)
    } else {
        render_param(ps[0], jn) + ", "@ + render_params(ps.drop_first(), jn)
    }
}

/// The argument list forwarding each parameter by name.
pub open spec fn render_args(ps: Seq<Param>) -> Seq<char>
    decreases ps.len(),
{
    if ps.len() == 0 {
        Seq::empty()
    } else if ps.len() == 1 {
        ps[0].name@
    } else {
        ps[0].name@ + ", "@ + render_args(ps.drop_first())
    }
}

/// The wrapper's declared return type: the success-result envelope around
/// the original type, itself wrapped in the JSON envelope when marshaled.
pub open spec fn render_ret(ret: Option<Vec<char>>, jn: Seq<Seq<char>>) -> Seq<char> {
    match ret {
        Some(t) => {
            if is_marshaled(t@, jn) {
                "FnResult<Json<"@ + t@ + ">>"@
            } else {
                "FnResult<"@ + t@ + ">"@
            }
        },
        None => "FnResult<()>"@,
    }
}

/// The wrapper's body: the forwarded call wrapped in the success
/// constructor, and in the JSON envelope when the result is marshaled.
pub open spec fn render_body(name: Seq<char>, ps: Seq<Param>, ret: Option<Vec<char>>, jn: Seq<
    Seq<char>,
>) -> Seq<char> {
    if ret_marshaled(ret, jn) {
        "Ok(Json("@ + name + "("@ + render_args(ps) + ")))"@
    } else {
        "Ok("@ + name + "("@ + render_args(ps) + "))"@
    }
}

/// The complete synthesized wrapper item for one public function.
pub open spec fn wrapper_text(
    prefix: Seq<char>,
    name: Seq<char>,
    ps: Seq<Param>,
    ret: Option<Vec<char>>,
    jn: Seq<Seq<char>>,
) -> Seq<char> {
    "\n#[plugin_fn]\npub fn "@ + wrapper_name(prefix, name) + "("@ + render_params(ps, jn)
        + ") -> "@ + render_ret(ret, jn) + " {\n    "@ + render_body(name, ps, ret, jn) + "\n}\n"@
}

/// Compares two character vectors.
pub fn eq_chars(a: &Vec<char>, b: &Vec<char>) -> (r: bool)
    ensures
        r == (a@ == b@),
{
    let n = a.len();
    if b.len() != n {
        return false;
    }
    let mut i: usize = 0;
    while i < n
        invariant
            n == a@.len() == b@.len(),
            i <= n,
            forall|k: int| 0 <= k < i ==> a@[k] == b@[k],
        decreases n - i,
    {
        if a[i] != b[i] {
            return false;
        }
        i += 1;
    }
    assert(a@ =~= b@);
    true
}

/// Removes every whitespace character.
fn strip_ws(s: &Vec<char>) -> (r: Vec<char>)
    ensures
        r@ == nows(s@),
{
    let n = s.len();
    let mut out: Vec<char> = Vec::new();
    proof {
        reveal_with_fuel(Seq::filter, 2);
        assert(s@.subrange(0, 0) =~= Seq::<char>::empty());
        assert(out@ =~= nows(s@.subrange(0, 0)));
    }
    let mut i: usize = 0;
    while i < n
        invariant
            n == s@.len(),
            i <= n,
            out@ == nows(s@.subrange(0, i as int)),
        decreases n - i,
    {
        proof {
            reveal_with_fuel(Seq::filter, 2);
            assert(s@.subrange(0, i + 1).drop_last() =~= s@.subrange(0, i as int));
            assert(s@.subrange(0, i + 1).last() == s@[i as int]);
        }
        if !(s[i] == ' ' || s[i] == '\t' || s[i] == '\n' || s[i] == '\r') {
            out.push(s[i]);
        }
        i += 1;
    }
    proof {
        assert(s@.subrange(0, n as int) =~= s@);
    }
    out
}

/// Decides whether a type text names a registered boundary type.
fn marshaled_in(ty: &Vec<char>, jn: &Vec<Vec<char>>) -> (r: bool)
    ensures
        r == is_marshaled(ty@, views_of(jn@)),
{
    let t = strip_ws(ty);
    let n = jn.len();
    let mut i: usize = 0;
    while i < n
        invariant
            n == jn@.len(),
            i <= n,
            t@ == nows(ty@),
            forall|k: int| 0 <= k < i ==> #[trigger] nows(views_of(jn@)[k]) != nows(ty@),
        decreases n - i,
    {
        let c = strip_ws(&jn[i]);
        let e = eq_chars(&c, &t);
        proof {
            assert(views_of(jn@)[i as int] == jn@[i as int]@);
        }
        if e {
            return true;
        }
        i += 1;
    }
    assert(!is_marshaled(ty@, views_of(jn@)));
    false
}

/// Appends the rendered parameter list.
fn emit_params(out: &mut Vec<char>, ps: &Vec<Param>, jn: &Vec<Vec<char>>)
    ensures
        final (out)@ == old(out)@ + render_params(ps@, views_of(jn@)),
{
    let ghost jnv = views_of(jn@);
    let pn = ps.len();
    let mut i: usize = 0;
    proof {
        assert(ps@.subrange(0, 0) =~= Seq::<Param>::empty());
        assert(out@ =~= old(out)@ + render_params(ps@.subrange(0, 0), jnv));
    }
    while i < pn
        invariant
            pn == ps@.len(),
            i <= pn,
            jnv == views_of(jn@),
            out@ == old(out)@ + render_params(ps@.subrange(0, i as int), jnv),
        decreases pn - i,
    {
        let ghost before = out@;
        if i > 0 {
            append_str(out, ", ");
        }
        let m = marshaled_in(&ps[i].ty, jn);
        if m {
            append_str(out, "Json(");
            append_chars(out, &ps[i].name);
            append_str(out, "): Json<");
            append_chars(out, &ps[i].ty);
            append_str(out, ">");
        } else {
            append_chars(out, &ps[i].name);
            append_str(out, ": ");
            append_chars(out, &ps[i].ty);
        }
        proof {
            let p = ps@[i as int];
            let pre = ps@.subrange(0, i as int);
            let now = ps@.subrange(0, i + 1);
            assert(now =~= pre.push(p));
            lemma_render_params_snoc(pre, p, jnv);
            if m {
                assert(render_param(p, jnv) == "Json("@ + p.name@ + "): Json<"@ + p.ty@ + ">"@);
                if i > 0 {
                    assert(out@ =~= before + ", "@ + render_param(p, jnv));
                } else {
                    assert(out@ =~= before + render_param(p, jnv));
                }
            } else {
                assert(render_param(p, jnv) == p.name@ + ": "@ + p.ty@);
                if i > 0 {
                    assert(out@ =~= before + ", "@ + render_param(p, jnv));
                } else {
                    assert(out@ =~= before + render_param(p, jnv));
                }
            }
            assert(out@ =~= old(out)@ + render_params(now, jnv));
        }
        i += 1;
    }
    proof {
        assert(ps@.subrange(0, ps@.len() as int) =~= ps@);
    }
}

/// Appends the rendered forwarding argument list.
fn emit_args(out: &mut Vec<char>, ps: &Vec<Param>)
    ensures
        final (out)@ == old(out)@ + render_args(ps@),
{
    let pn = ps.len();
    let mut i: usize = 0;
    proof {
        assert(ps@.subrange(0, 0) =~= Seq::<Param>::empty());
        assert(out@ =~= old(out)@ + render_args(ps@.subrange(0, 0)));
    }
    while i < pn
        invariant
            pn == ps@.len(),
            i <= pn,
            out@ == old(out)@ + render_args(ps@.subrange(0, i as int)),
        decreases pn - i,
    {
        let ghost before = out@;
        if i > 0 {
            append_str(out, ", ");
        }
        append_chars(out, &ps[i].name);
        proof {
            let p = ps@[i as int];
            let pre = ps@.subrange(0, i as int);
            let now = ps@.subrange(0, i + 1);
            assert(now =~= pre.push(p));
            lemma_render_args_snoc(pre, p);
            if i > 0 {
                assert(out@ =~= before + ", "@ + p.name@);
            } else {
                assert(out@ =~= before + p.name@);
            }
            assert(out@ =~= old(out)@ + render_args(now));
        }
        i += 1;
    }
    proof {
        assert(ps@.subrange(0, ps@.len() as int) =~= ps@);
    }
}

/// Appends the rendered wrapper return type.
fn emit_ret(out: &mut Vec<char>, ret: &Option<Vec<char>>, jn: &Vec<Vec<char>>)
    ensures
        final (out)@ == old(out)@ + render_ret(*ret, views_of(jn@)),
{
    match ret {
        Some(t) => {
            if marshaled_in(t, jn) {
                append_str(out, "FnResult<Json<");
                append_chars(out, t);
                append_str(out, ">>");
                assert(out@ =~= old(out)@ + render_ret(*ret, views_of(jn@)));
            } else {
                append_str(out, "FnResult<");
                append_chars(out, t);
                append_str(out, ">");
                assert(out@ =~= old(out)@ + render_ret(*ret, views_of(jn@)));
            }
        },
        None => {
            append_str(out, "FnResult<()>");
        },
    }
}

/// Appends the synthesized wrapper for one public function.
#[verifier::rlimit(50)]
fn emit_wrapper(
    out: &mut Vec<char>,
    prefix: &Vec<char>,
    name: &Vec<char>,
    ps: &Vec<Param>,
    ret: &Option<Vec<char>>,
    jn: &Vec<Vec<char>>,
)
    ensures
        final (out)@ == old(out)@ + wrapper_text(prefix@, name@, ps@, *ret, views_of(jn@)),
{
    let ghost jnv = views_of(jn@);
    append_str(out, "\n#[plugin_fn]\npub fn ");
    append_chars(out, prefix);
    append_str(out, "__");
    append_chars(out, name);
    append_str(out, "(");
    proof {
        assert("__"@ =~= seq!['_', '_']) by {
            reveal_strlit("__");
        }
        assert(out@ =~= old(out)@ + "\n#[plugin_fn]\npub fn "@ + wrapper_name(prefix@, name@)
            + "("@);
    }
    let ghost head = out@;
    emit_params(out, ps, jn);
    append_str(out, ") -> ");
    emit_ret(out, ret, jn);
    append_str(out, " {\n    ");
    let rm = match ret {
        Some(t) => marshaled_in(t, jn),
        None => false,
    };
    if rm {
        append_str(out, "Ok(Json(");
    } else {
        append_str(out, "Ok(");
    }
    append_chars(out, name);
    append_str(out, "(");
    let ghost mid = out@;
    emit_args(out, ps);
    if rm {
        append_str(out, ")))");
    } else {
        append_str(out, "))");
    }
    append_str(out, "\n}\n");
    proof {
        assert(ret_marshaled(*ret, jnv) == rm);
        if rm {
            assert(out@ =~= mid + render_args(ps@) + ")))"@ + "\n}\n"@);
            assert(render_body(name@, ps@, *ret, jnv) == "Ok(Json("@ + name@ + "("@ + render_args(
                ps@,
            ) + ")))"@);
        } else {
            assert(out@ =~= mid + render_args(ps@) + "))"@ + "\n}\n"@);
            assert(render_body(name@, ps@, *ret, jnv) == "Ok("@ + name@ + "("@ + render_args(ps@)
                + "))"@);
        }
        assert(out@ =~= old(out)@ + wrapper_text(prefix@, name@, ps@, *ret, jnv));
    }
}

proof fn lemma_render_params_snoc(ps: Seq<Param>, p: Param, jn: Seq<Seq<char>>)
    ensures
        render_params(ps.push(p), jn) == if ps.len() == 0 {
            render_param(p, jn)
        } else {
            render_params(ps, jn) + ", "@ + render_param(p, jn)
        },
    decreases ps.len(),
{
    let w = ps.push(p);
    if ps.len() == 0 {
        assert(w.len() == 1 && w[0] == p);
    } else {
        lemma_render_params_snoc(ps.drop_first(), p, jn);
        assert(w[0] == ps[0]);
        assert(w.drop_first() =~= ps.drop_first().push(p));
        if ps.len() == 1 {
            assert(render_params(w, jn) == render_param(ps[0], jn) + ", "@ + render_param(p, jn));
        } else {
            assert(render_params(w, jn) == render_param(ps[0], jn) + ", "@ + (render_params(
                ps.drop_first(),
                jn,
            ) + ", "@ + render_param(p, jn)));
            assert(render_param(ps[0], jn) + ", "@ + (render_params(ps.drop_first(), jn) + ", "@
                + render_param(p, jn)) =~= (render_param(ps[0], jn) + ", "@ + render_params(
                ps.drop_first(),
                jn,
            )) + ", "@ + render_param(p, jn));
        }
    }
}

proof fn lemma_render_args_snoc(ps: Seq<Param>, p: Param)
    ensures
        render_args(ps.push(p)) == if ps.len() == 0 {
            p.name@
        } else {
            render_args(ps) + ", "@ + p.name@
        },
    decreases ps.len(),
{
    let w = ps.push(p);
    if ps.len() == 0 {
        assert(w.len() == 1 && w[0] == p);
    } else {
        lemma_render_args_snoc(ps.drop_first(), p);
        assert(w[0] == ps[0]);
        assert(w.drop_first() =~= ps.drop_first().push(p));
        if ps.len() == 1 {
            assert(render_args(w) == ps[0].name@ + ", "@ + p.name@);
        } else {
            assert(render_args(w) == ps[0].name@ + ", "@ + (render_args(ps.drop_first()) + ", "@
                + p.name@));
            assert(ps[0].name@ + ", "@ + (render_args(ps.drop_first()) + ", "@ + p.name@) =~= (
            ps[0].name@ + ", "@ + render_args(ps.drop_first())) + ", "@ + p.name@);
        }
    }
}


/// The first unsupported parameter shape among the public functions of
/// `it`, in planning order, or `None` when every one can be wrapped.
pub open spec fn fault_item(it: Item) -> Option<SigParse>
    decreases it,
{
    match it {
        Item::Func { sig, .. } => if sig is Good {
            None
        } else {
            Some(sig)
        },
        Item::Namespace { body, .. } => fault_items(body@),
        Item::Other { .. } => None,
    }
}

pub open spec fn fault_items(items: Seq<Item>) -> Option<SigParse>
    decreases items,
{
    if items.len() == 0 {
        None
    } else {
        match fault_item(items[0]) {
            Some(f) => Some(f),
            None => fault_items(items.drop_first()),
        }
    }
}

/// The emitted text for one item: its verbatim text, followed (for a
/// public function) by its synthesized wrapper, with namespace bodies
/// planned under the extended prefix.
pub open spec fn plan_txt_item(it: Item, prefix: Seq<char>, jn: Seq<Seq<char>>) -> Seq<char>
    decreases it,
{
    match it {
        Item::Func { text, name, sig, ret } => text@ + match sig {
            SigParse::Good(ps) => wrapper_text(prefix, name@, ps@, ret, jn),
            _ => Seq::empty(),
        },
        Item::Namespace { open, name, body, close } => open@ + plan_txt_items(
            body@,
            extend_prefix(prefix, name@),
            jn,
        ) + close@,
        Item::Other { text } => text@,
    }
}

pub open spec fn plan_txt_items(items: Seq<Item>, prefix: Seq<char>, jn: Seq<Seq<char>>) -> Seq<
    char,
>
    decreases items,
{
    if items.len() == 0 {
        Seq::empty()
    } else {
        plan_txt_item(items[0], prefix, jn) + plan_txt_items(items.drop_first(), prefix, jn)
    }
}

/// How an unsupported parameter shape surfaces as an error value.
pub open spec fn fault_to_error(f: SigParse, e: UntRustedError) -> bool {
    match f {
        SigParse::BadName(t) => e matches UntRustedError::UnsupportedParamName(m) && m@ == t@,
        SigParse::BadArg(t) => e matches UntRustedError::UnsupportedFnArg(m) && m@ == t@,
        SigParse::Good(_) => false,
    }
}

/// Emits the planned text of `items` under the joined namespace prefix
/// `prefix`: every item verbatim, every public function followed by its
/// wrapper.  Fails exactly when some public function has a parameter the
/// planner cannot bind, with the matching error.
pub fn plan_emit_items(
    items: &Vec<Item>,
    prefix: &Vec<char>,
    jn: &Vec<Vec<char>>,
    out: &mut Vec<char>,
) -> (r: Result<(), UntRustedError>)
    ensures
        r is Ok <==> fault_items(items@) is None,
        r is Ok ==> final (out)@ == old(out)@ + plan_txt_items(items@, prefix@, views_of(jn@)),
        r is Err ==> fault_items(items@) is Some && fault_to_error(
            fault_items(items@)->0,
            r->Err_0,
        ),
    decreases items@,
{
    let ghost jnv = views_of(jn@);
    let n = items.len();
    let mut i: usize = 0;
    proof {
        assert(items@.subrange(0, n as int) =~= items@);
    }
    while i < n
        invariant
            n == items@.len(),
            i <= n,
            jnv == views_of(jn@),
            fault_items(items@) == fault_items(items@.subrange(i as int, n as int)),
            out@ + plan_txt_items(items@.subrange(i as int, n as int), prefix@, jnv) == old(out)@
                + plan_txt_items(items@, prefix@, jnv),
        decreases n - i,
    {
        let ghost suf = items@.subrange(i as int, n as int);
        let ghost cur = items@[i as int];
        proof {
            assert(suf.len() > 0);
            assert(suf[0] == cur);
            assert(suf.drop_first() =~= items@.subrange(i + 1, n as int));
        }
        let ghost before = out@;
        match &items[i] {
            Item::Func { text, name, sig, ret } => {
                append_chars(out, text);
                match sig {
                    SigParse::Good(ps) => {
                        emit_wrapper(out, prefix, name, ps, ret, jn);
                        proof {
                            assert(plan_txt_item(cur, prefix@, jnv) == text@ + wrapper_text(
                                prefix@,
                                name@,
                                ps@,
                                *ret,
                                jnv,
                            ));
                            assert(out@ =~= before + plan_txt_item(cur, prefix@, jnv));
                        }
                    },
                    SigParse::BadName(t) => {
                        proof {
                            assert(fault_item(cur) == Some(SigParse::BadName(*t)));
                            assert(fault_items(suf) == Some(SigParse::BadName(*t)));
                        }
                        return Err(
                            UntRustedError::UnsupportedParamName(crate::text::chars_to_string(t)),
                        );
                    },
                    SigParse::BadArg(t) => {
                        proof {
                            assert(fault_item(cur) == Some(SigParse::BadArg(*t)));
                            assert(fault_items(suf) == Some(SigParse::BadArg(*t)));
                        }
                        return Err(
                            UntRustedError::UnsupportedFnArg(crate::text::chars_to_string(t)),
                        );
                    },
                }
            },
            Item::Namespace { open, name, body, close } => {
                append_chars(out, open);
                let mut new_prefix: Vec<char> = Vec::new();
                if prefix.len() == 0 {
                    append_chars(&mut new_prefix, name);
                } else {
                    append_chars(&mut new_prefix, prefix);
                    append_str(&mut new_prefix, "__");
                    append_chars(&mut new_prefix, name);
                }
                proof {
                    assert("__"@ =~= seq!['_', '_']) by {
                        reveal_strlit("__");
                    }
                    assert(new_prefix@ =~= extend_prefix(prefix@, name@));
                    assert(decreases_to!(items@ => cur));
                    assert(decreases_to!(cur => cur->Namespace_body));
                    assert(cur->Namespace_body == *body);
                    assert(decreases_to!(*body => body@));
                }
                let sub = plan_emit_items(body, &new_prefix, jn, out);
                match sub {
                    Ok(_) => {
                        append_chars(out, close);
                        proof {
                            assert(plan_txt_item(cur, prefix@, jnv) == open@ + plan_txt_items(
                                body@,
                                extend_prefix(prefix@, name@),
                                jnv,
                            ) + close@);
                            assert(fault_item(cur) is None);
                            assert(out@ =~= before + plan_txt_item(cur, prefix@, jnv));
                        }
                    },
                    Err(e) => {
                        proof {
                            assert(fault_item(cur) == fault_items(body@));
                            assert(fault_items(suf) == fault_items(body@));
                        }
                        return Err(e);
                    },
                }
            },
            Item::Other { text } => {
                append_chars(out, text);
                proof {
                    assert(plan_txt_item(cur, prefix@, jnv) == text@);
                }
            },
        }
        proof {
            assert(fault_item(cur) is None);
            assert(fault_items(suf) == fault_items(suf.drop_first()));
            assert(plan_txt_items(suf, prefix@, jnv) == plan_txt_item(cur, prefix@, jnv)
                + plan_txt_items(suf.drop_first(), prefix@, jnv));
            assert(out@ =~= before + plan_txt_item(cur, prefix@, jnv));
            assert(out@ + plan_txt_items(items@.subrange(i + 1, n as int), prefix@, jnv)
                =~= old(out)@ + plan_txt_items(items@, prefix@, jnv));
        }
        i += 1;
    }
    proof {
        assert(items@.subrange(n as int, n as int) =~= Seq::<Item>::empty());
        assert(plan_txt_items(Seq::<Item>::empty(), prefix@, jnv) == Seq::<char>::empty());
        assert(out@ =~= old(out)@ + plan_txt_items(items@, prefix@, jnv));
    }
    Ok(())
}


/// The annotation put before each host-exposed type definition so that it
/// derives the marshaling capability inside the generated unit.
pub open spec fn derive_line() -> Seq<char> {
    "\n#[derive(Debug, serde::Serialize, serde::Deserialize)]\n"@
}

/// The host-exposed type definitions, each under its annotation.
pub open spec fn typedefs_text(defs: Seq<Seq<char>>) -> Seq<char>
    decreases defs.len(),
{
    if defs.len() == 0 {
        Seq::empty()
    } else {
        derive_line() + defs[0] + typedefs_text(defs.drop_first())
    }
}

/// The import that brings the sandbox bridge into scope in the generated
/// unit.
pub open spec fn use_line() -> Seq<char> {
    "use extism_pdk::*;\n"@
}

pub open spec fn host_names(hosts: Seq<(String, String)>) -> Seq<Seq<char>> {
    hosts.map_values(|p: (String, String)| p.0@)
}

pub open spec fn host_defs(hosts: Seq<(String, String)>) -> Seq<Seq<char>> {
    hosts.map_values(|p: (String, String)| p.1@)
}

pub open spec fn sdk_views(sdks: Seq<String>) -> Seq<Seq<char>> {
    sdks.map_values(|s: String| s@)
}

/// Every type name treated as a marshaling boundary: the host-exposed
/// names and the externally declared ones.
pub open spec fn registry_names(hosts: Seq<(String, String)>, sdks: Seq<String>) -> Seq<Seq<char>> {
    host_names(hosts) + sdk_views(sdks)
}

/// The submitted source with every host-exposed type definition appended
/// under its marshaling annotation.
pub open spec fn augmented_source(src: Seq<char>, hosts: Seq<(String, String)>) -> Seq<char> {
    src + typedefs_text(host_defs(hosts))
}

proof fn lemma_typedefs_snoc(defs: Seq<Seq<char>>, d: Seq<char>)
    ensures
        typedefs_text(defs.push(d)) == typedefs_text(defs) + (derive_line() + d),
    decreases defs.len(),
{
    let w = defs.push(d);
    if defs.len() == 0 {
        assert(w[0] == d);
        assert(w.drop_first() =~= Seq::<Seq<char>>::empty());
        assert(typedefs_text(Seq::<Seq<char>>::empty()) == Seq::<char>::empty());
        assert(derive_line() + d + Seq::<char>::empty() =~= Seq::<char>::empty() + (derive_line()
            + d));
    } else {
        lemma_typedefs_snoc(defs.drop_first(), d);
        assert(w[0] == defs[0]);
        assert(w.drop_first() =~= defs.drop_first().push(d));
        assert(derive_line() + defs[0] + (typedefs_text(defs.drop_first()) + (derive_line() + d))
            =~= (derive_line() + defs[0] + typedefs_text(defs.drop_first())) + (derive_line() + d));
    }
}

/// Plans a submission: appends the host-exposed type definitions, splits
/// the result into items, prepends the sandbox bridge import and inserts
/// an export wrapper after every public function at any namespace depth.
/// Fails with a parse error on unbalanced input and with an unsupported
/// parameter error when some public function cannot be wrapped; no other
/// error can come out.
pub fn plan_rewritten_source(
    source: &str,
    host_types: &Vec<(String, String)>,
    sdk_types: &Vec<String>,
) -> (r: Result<String, UntRustedError>)
    ensures
        r is Ok ==> crate::parse::items_until_at(
            augmented_source(source@, host_types@),
            0,
            true,
        ) is Some,
        r is Ok ==> exists|items: Seq<Item>|
            {
                &&& #[trigger] items_text(items) == augmented_source(source@, host_types@)
                &&& crate::model::wf_items(items)
                &&& crate::parse::items_match(
                    items,
                    (crate::parse::items_until_at(
                        augmented_source(source@, host_types@),
                        0,
                        true,
                    )->0).0,
                )
                &&& fault_items(items) is None
                &&& r->Ok_0@ == use_line() + plan_txt_items(
                    items,
                    Seq::empty(),
                    registry_names(host_types@, sdk_types@),
                )
            },
        r is Err && r->Err_0 is ParseError ==> crate::parse::items_until_at(
            augmented_source(source@, host_types@),
            0,
            true,
        ) is None,
        r is Err && !(r->Err_0 is ParseError) ==> exists|items: Seq<Item>|
            {
                &&& #[trigger] items_text(items) == augmented_source(source@, host_types@)
                &&& crate::model::wf_items(items)
                &&& crate::parse::items_match(
                    items,
                    (crate::parse::items_until_at(
                        augmented_source(source@, host_types@),
                        0,
                        true,
                    )->0).0,
                )
                &&& fault_items(items) is Some
                &&& fault_to_error(fault_items(items)->0, r->Err_0)
            },
        r is Err ==> r->Err_0 is ParseError || r->Err_0 is UnsupportedParamName
            || r->Err_0 is UnsupportedFnArg,
{
    let ghost jnv = registry_names(host_types@, sdk_types@);
    // the source with the host-exposed type definitions appended
    let mut src = crate::text::str_to_chars(source);
    let hn = host_types.len();
    let mut i: usize = 0;
    proof {
        assert(host_defs(host_types@.subrange(0, 0)) =~= Seq::<Seq<char>>::empty());
        assert(src@ =~= source@ + typedefs_text(host_defs(host_types@.subrange(0, 0))));
    }
    while i < hn
        invariant
            hn == host_types@.len(),
            i <= hn,
            src@ == source@ + typedefs_text(host_defs(host_types@.subrange(0, i as int))),
        decreases hn - i,
    {
        let ghost before = src@;
        append_str(&mut src, "\n#[derive(Debug, serde::Serialize, serde::Deserialize)]\n");
        append_str(&mut src, host_types[i].1.as_str());
        proof {
            let pre = host_defs(host_types@.subrange(0, i as int));
            let now = host_defs(host_types@.subrange(0, i + 1));
            assert(now =~= pre.push(host_types@[i as int].1@));
            lemma_typedefs_snoc(pre, host_types@[i as int].1@);
            assert(src@ =~= before + (derive_line() + host_types@[i as int].1@));
            assert(src@ =~= source@ + typedefs_text(now));
        }
        i += 1;
    }
    proof {
        assert(host_types@.subrange(0, hn as int) =~= host_types@);
    }
    // the marshaling registry: host-exposed names, then external names
    let mut jn: Vec<Vec<char>> = Vec::new();
    let mut i: usize = 0;
    proof {
        assert(views_of(jn@) =~= host_names(host_types@.subrange(0, 0)));
    }
    while i < hn
        invariant
            hn == host_types@.len(),
            i <= hn,
            views_of(jn@) == host_names(host_types@.subrange(0, i as int)),
        decreases hn - i,
    {
        let ghost prev = jn@;
        jn.push(crate::text::str_to_chars(host_types[i].0.as_str()));
        proof {
            let now = host_names(host_types@.subrange(0, i + 1));
            assert(jn@ == prev.push(jn@[prev.len() as int]));
            assert(jn@.len() == prev.len() + 1);
            assert(views_of(jn@).len() == jn@.len());
            assert(now.len() == host_types@.subrange(0, i + 1).len());
            assert(views_of(prev).len() == prev.len());
            assert(prev.len() == i);
            assert(views_of(jn@).len() == now.len());
            assert forall|k: int| 0 <= k < now.len() implies views_of(jn@)[k] == now[k] by {
                assert(views_of(jn@)[k] == jn@[k]@);
                assert(now[k] == host_types@.subrange(0, i + 1)[k].0@);
                if k < i {
                    assert(views_of(prev)[k] == prev[k]@);
                    assert(views_of(prev)[k] == host_names(host_types@.subrange(0, i as int))[k]);
                }
            }
            assert(views_of(jn@) =~= now);
        }
        i += 1;
    }
    let sn = sdk_types.len();
    let mut j: usize = 0;
    proof {
        assert(host_types@.subrange(0, hn as int) =~= host_types@);
        assert(views_of(jn@) =~= host_names(host_types@) + sdk_views(sdk_types@.subrange(0, 0)));
    }
    while j < sn
        invariant
            sn == sdk_types@.len(),
            j <= sn,
            views_of(jn@) == host_names(host_types@) + sdk_views(sdk_types@.subrange(0, j as int)),
        decreases sn - j,
    {
        let ghost prev = jn@;
        jn.push(crate::text::str_to_chars(sdk_types[j].as_str()));
        proof {
            let now = host_names(host_types@) + sdk_views(sdk_types@.subrange(0, j + 1));
            assert(jn@.len() == prev.len() + 1);
            assert(views_of(jn@).len() == jn@.len());
            assert(views_of(prev).len() == prev.len());
            assert(sdk_views(sdk_types@.subrange(0, j as int)).len() == j);
            assert(prev.len() == host_names(host_types@).len() + j);
            assert(views_of(jn@).len() == now.len());
            assert forall|k: int| 0 <= k < now.len() implies views_of(jn@)[k] == now[k] by {
                assert(views_of(jn@)[k] == jn@[k]@);
                if k < prev.len() {
                    assert(views_of(prev)[k] == prev[k]@);
                    assert(views_of(prev)[k] == (host_names(host_types@) + sdk_views(
                        sdk_types@.subrange(0, j as int),
                    ))[k]);
                    if k >= host_names(host_types@).len() {
                        assert(sdk_views(sdk_types@.subrange(0, j as int))[k - host_names(
                            host_types@,
                        ).len()] == sdk_types@.subrange(0, j as int)[k - host_names(
                            host_types@,
                        ).len()]@);
                    }
                } else {
                    assert(now[k] == sdk_views(sdk_types@.subrange(0, j + 1))[k - host_names(
                        host_types@,
                    ).len()]);
                }
            }
            assert(views_of(jn@) =~= now);
        }
        j += 1;
    }
    proof {
        assert(sdk_types@.subrange(0, sn as int) =~= sdk_types@);
        assert(views_of(jn@) == jnv);
    }
    // split into items, then emit the rewritten unit
    let items = match crate::parse::parse_source(&src) {
        Ok(it) => it,
        Err(e) => {
            proof {
                assert(src@ == augmented_source(source@, host_types@));
                assert(crate::parse::items_until_at(src@, 0, true) is None);
            }
            return Err(e);
        },
    };
    let mut out: Vec<char> = Vec::new();
    append_str(&mut out, "use extism_pdk::*;\n");
    let empty_prefix: Vec<char> = Vec::new();
    match plan_emit_items(&items, &empty_prefix, &jn, &mut out) {
        Ok(_) => {
            let text = crate::text::chars_to_string(&out);
            proof {
                assert(Seq::<char>::empty() + use_line() =~= use_line());
                assert(items_text(items@) == augmented_source(source@, host_types@));
                assert(crate::model::wf_items(items@));
                assert(crate::parse::items_match(
                    items@,
                    (crate::parse::items_until_at(src@, 0, true)->0).0,
                ));
                assert(fault_items(items@) is None);
                assert(text@ == use_line() + plan_txt_items(items@, empty_prefix@, jnv));
                assert(empty_prefix@ =~= Seq::<char>::empty());
            }
            Ok(text)
        },
        Err(e) => {
            proof {
                assert(items_text(items@) == augmented_source(source@, host_types@));
                assert(crate::model::wf_items(items@));
                assert(crate::parse::items_match(
                    items@,
                    (crate::parse::items_until_at(src@, 0, true)->0).0,
                ));
                assert(fault_items(items@) is Some);
                assert(fault_to_error(fault_items(items@)->0, e));
                assert(!(e is ParseError));
            }
            Err(e)
        },
    }
}


/// The public functions the planner discovers in `it`, each with the
/// joined namespace prefix it is exported under.
pub open spec fn discovered_item(it: Item, prefix: Seq<char>) -> Set<(Seq<char>, Item)>
    decreases it,
{
    match it {
        Item::Func { .. } => set![(prefix, it)],
        Item::Namespace { name, body, .. } => discovered_items(body@, extend_prefix(prefix, name@)),
        Item::Other { .. } => Set::empty(),
    }
}

pub open spec fn discovered_items(items: Seq<Item>, prefix: Seq<char>) -> Set<(Seq<char>, Item)>
    decreases items,
{
    if items.len() == 0 {
        Set::empty()
    } else {
        discovered_item(items[0], prefix).union(discovered_items(items.drop_first(), prefix))
    }
}

/// Every public function discovered at any nesting depth keeps its
/// original text, unmodified, in the planned output; and when its
/// parameters can be bound, the output also holds its complete
/// synthesized wrapper, named by the function's full
/// double-underscore-joined namespace path.
pub proof fn lemma_planner_exports_all(
    items: Seq<Item>,
    prefix: Seq<char>,
    jn: Seq<Seq<char>>,
    entry: (Seq<char>, Item),
)
    requires
        discovered_items(items, prefix).contains(entry),
    ensures
        entry.1 matches Item::Func { text, name, sig, ret } ==> {
            &&& seq_contains(plan_txt_items(items, prefix, jn), text@)
            &&& (sig matches SigParse::Good(ps) ==> seq_contains(
                plan_txt_items(items, prefix, jn),
                wrapper_text(entry.0, name@, ps@, ret, jn),
            ))
        },
    decreases items,
{
    assert(items.len() > 0);
    let head = items[0];
    let rest = items.drop_first();
    let out0 = plan_txt_item(head, prefix, jn);
    let outr = plan_txt_items(rest, prefix, jn);
    assert(plan_txt_items(items, prefix, jn) == out0 + outr);
    if discovered_item(head, prefix).contains(entry) {
        match head {
            Item::Func { text, name, sig, ret } => {
                assert(entry == (prefix, head));
                match sig {
                    SigParse::Good(ps) => {
                        let w = wrapper_text(prefix, name@, ps@, ret, jn);
                        assert(out0 == text@ + w);
                        crate::text::lemma_contains_prefix(text@, w);
                        crate::text::lemma_contains_concat(out0, outr, text@);
                        crate::text::lemma_contains_concat(out0, outr, w);
                    },
                    _ => {
                        assert(out0 == text@ + Seq::<char>::empty());
                        crate::text::lemma_contains_prefix(text@, Seq::<char>::empty());
                        crate::text::lemma_contains_concat(out0, outr, text@);
                    },
                }
            },
            Item::Namespace { open, name, body, close } => {
                assert(decreases_to!(items => head));
                assert(decreases_to!(head => head->Namespace_body));
                assert(decreases_to!(head->Namespace_body => body@));
                lemma_planner_exports_all(body@, extend_prefix(prefix, name@), jn, entry);
                let inner = plan_txt_items(body@, extend_prefix(prefix, name@), jn);
                assert(out0 == open@ + inner + close@);
                match entry.1 {
                    Item::Func { text, name: fname, sig, ret } => {
                        crate::text::lemma_contains_concat(open@, inner, text@);
                        crate::text::lemma_contains_concat(open@ + inner, close@, text@);
                        crate::text::lemma_contains_concat(out0, outr, text@);
                        match sig {
                            SigParse::Good(ps) => {
                                let w = wrapper_text(entry.0, fname@, ps@, ret, jn);
                                crate::text::lemma_contains_concat(open@, inner, w);
                                crate::text::lemma_contains_concat(open@ + inner, close@, w);
                                crate::text::lemma_contains_concat(out0, outr, w);
                            },
                            _ => {},
                        }
                    },
                    _ => {},
                }
            },
            Item::Other { .. } => {
                assert(false);
            },
        }
    } else {
        assert(discovered_items(rest, prefix).contains(entry));
        lemma_planner_exports_all(rest, prefix, jn, entry);
        match entry.1 {
            Item::Func { text, name: fname, sig, ret } => {
                crate::text::lemma_contains_concat(out0, outr, text@);
                match sig {
                    SigParse::Good(ps) => {
                        let w = wrapper_text(entry.0, fname@, ps@, ret, jn);
                        crate::text::lemma_contains_concat(out0, outr, w);
                    },
                    _ => {},
                }
            },
            _ => {},
        }
    }
}


/// With no boundary type registered nothing is marshaled: every wrapper
/// parameter is bound unchanged under its original type, the declared
/// return is the bare success envelope around the original type, and the
/// body forwards the call without a JSON envelope; such a wrapper
/// exchanges the raw payload encoding untouched.
pub proof fn lemma_unregistered_types_pass_raw(
    ps: Seq<Param>,
    ret: Option<Vec<char>>,
    name: Seq<char>,
)
    ensures
        forall|i: int|
            0 <= i < ps.len() ==> #[trigger] render_param(ps[i], Seq::empty()) == ps[i].name@
                + ": "@ + ps[i].ty@,
        ret matches Some(t) ==> render_ret(ret, Seq::empty()) == "FnResult<"@ + t@ + ">"@,
        render_body(name, ps, ret, Seq::empty()) == "Ok("@ + name + "("@ + render_args(ps)
            + "))"@,
{
    assert forall|i: int|
        0 <= i < ps.len() implies #[trigger] render_param(ps[i], Seq::empty()) == ps[i].name@
        + ": "@ + ps[i].ty@ by {
        assert(!is_marshaled(ps[i].ty@, Seq::empty()));
    }
    match ret {
        Some(t) => {
            assert(!is_marshaled(t@, Seq::empty()));
        },
        None => {},
    }
}

} // verus!
