//! Dispatch resolution: selects the unique overload whose parameter types
//! match a call site positionally, resolves method calls by uniform call
//! syntax with the receiver prepended (embedding-forwarded receivers
//! included), validates explicit casts, and validates variant membership
//! tests.  Static types govern dispatch throughout; a variant test narrows
//! nothing.

use vstd::prelude::*;
use crate::ty::{NameId, Base, Ty, ty_eq_spec, ty_eq};
use crate::decl::{
    Program, prog_wf, distinct_seq, struct_names, struct_idx, iface_idx, variant_idx, find_struct,
    find_iface, find_variant,
};
use crate::flatten::{flat_of, flatten_fields};
use crate::iface::{embeds_in, embeds_in_exec, satisfies, has_member};
use crate::diag::{Diagnostic, DiagKind, RegionKind};

verus! {

/// Exact positional match of the declared function at `fi` against a list
/// of argument types.
pub open spec fn sig_matches(p: Program, fi: int, at: Seq<Ty>) -> bool {
    let f = p.funcs@[fi];
    f.params@.len() == at.len() && forall|k: int|
        0 <= k < at.len() ==> ty_eq_spec((#[trigger] f.params@[k]).ty, at[k])
}

/// How many of the first `i` candidates match the argument types exactly.
pub open spec fn match_count(p: Program, cands: Seq<usize>, at: Seq<Ty>, i: int) -> nat
    decreases i,
{
    if i <= 0 {
        0
    } else {
        match_count(p, cands, at, i - 1) + (if sig_matches(p, cands[i - 1] as int, at) {
            1nat
        } else {
            0nat
        })
    }
}

/// Whether a value of static type `have` is accepted by a parameter of
/// declared type `want`: exactly that type, or — for a struct receiver —
/// one of its embedded bases (embedding forwards methods by name).
pub open spec fn recv_matches(p: Program, want: Ty, have: Ty) -> bool {
    ty_eq_spec(want, have) || match (want, have) {
        (Ty::Plain(Base::Named(e)), Ty::Plain(Base::Named(s))) => match struct_idx(p, s) {
            Some(si) => match flat_of(p, si) {
                Some(fl) => embeds_in(p, si, fl, e),
                None => false,
            },
            None => false,
        },
        _ => false,
    }
}

/// Exact match of the declared function at `fi` as a method call: the
/// receiver is accepted by the first parameter and the remaining parameters
/// match the argument types exactly.
pub open spec fn method_sig_matches(p: Program, fi: int, recv: Ty, at: Seq<Ty>) -> bool {
    let f = p.funcs@[fi];
    &&& f.params@.len() == at.len() + 1
    &&& recv_matches(p, f.params@[0].ty, recv)
    &&& forall|k: int| 0 <= k < at.len() ==> ty_eq_spec((#[trigger] f.params@[k + 1]).ty, at[k])
}

/// How many of the first `i` candidates match a method call exactly.
pub open spec fn mmatch_count(p: Program, cands: Seq<usize>, recv: Ty, at: Seq<Ty>, i: int) -> nat
    decreases i,
{
    if i <= 0 {
        0
    } else {
        mmatch_count(p, cands, recv, at, i - 1) + (if method_sig_matches(
            p,
            cands[i - 1] as int,
            recv,
            at,
        ) {
            1nat
        } else {
            0nat
        })
    }
}

/// The first candidate matching the argument types exactly, front to
/// back; with exactly one match over the whole set, it is the unique one.
pub open spec fn first_sig_match(p: Program, cands: Seq<usize>, at: Seq<Ty>) -> Option<usize>
    decreases cands.len(),
{
    if cands.len() == 0 {
        None
    } else if sig_matches(p, cands[0] as int, at) {
        Some(cands[0])
    } else {
        first_sig_match(p, cands.skip(1), at)
    }
}

proof fn lemma_first_sig_match_skip(p: Program, cands: Seq<usize>, at: Seq<Ty>, i: int)
    requires
        0 <= i <= cands.len(),
        forall|j: int| 0 <= j < i ==> !sig_matches(p, (#[trigger] cands[j]) as int, at),
    ensures
        first_sig_match(p, cands, at) == first_sig_match(p, cands.skip(i), at),
    decreases i,
{
    if i > 0 {
        lemma_first_sig_match_skip(p, cands.skip(1), at, i - 1);
        assert(cands.skip(1).skip(i - 1) =~= cands.skip(i));
    } else {
        assert(cands.skip(0) =~= cands);
    }
}

/// The first candidate matching a method call exactly, front to back.
pub open spec fn first_mmatch(p: Program, cands: Seq<usize>, recv: Ty, at: Seq<Ty>) -> Option<
    usize,
>
    decreases cands.len(),
{
    if cands.len() == 0 {
        None
    } else if method_sig_matches(p, cands[0] as int, recv, at) {
        Some(cands[0])
    } else {
        first_mmatch(p, cands.skip(1), recv, at)
    }
}

proof fn lemma_first_mmatch_skip(p: Program, cands: Seq<usize>, recv: Ty, at: Seq<Ty>, i: int)
    requires
        0 <= i <= cands.len(),
        forall|j: int|
            0 <= j < i ==> !method_sig_matches(p, (#[trigger] cands[j]) as int, recv, at),
    ensures
        first_mmatch(p, cands, recv, at) == first_mmatch(p, cands.skip(i), recv, at),
    decreases i,
{
    if i > 0 {
        lemma_first_mmatch_skip(p, cands.skip(1), recv, at, i - 1);
        assert(cands.skip(1).skip(i - 1) =~= cands.skip(i));
    } else {
        assert(cands.skip(0) =~= cands);
    }
}

/// The static type of a binding after a variant membership test on it: the
/// test yields only a boolean and performs no narrowing.
pub open spec fn ty_after_variant_test(t: Ty, v: NameId) -> Ty {
    t
}

/// Variant-narrowing law: a membership test `x is V` leaves method dispatch
/// for a later call on `x` untouched — the count of matching overloads, and
/// hence the resolved target, is computed from the unchanged static type.
/// Only an explicit cast (which produces a new binding typed `V`) changes
/// the dispatch type.
pub proof fn lemma_variant_test_preserves_dispatch(
    p: Program,
    cands: Seq<usize>,
    t: Ty,
    v: NameId,
    at: Seq<Ty>,
    i: int,
)
    ensures
        mmatch_count(p, cands, ty_after_variant_test(t, v), at, i) == mmatch_count(
            p,
            cands,
            t,
            at,
            i,
        ),
{
}

/// The second half of the variant-narrowing law: a method whose receiver
/// parameter is a variant type is reachable from no other static type — a
/// variant never stands in any struct's embedding closure, so only the
/// binding an explicit cast produced resolves to the variant's overload.
pub proof fn lemma_variant_overload_needs_cast(
    p: Program,
    fi: int,
    recv: Ty,
    at: Seq<Ty>,
    v: NameId,
)
    requires
        prog_wf(p),
        0 <= fi < p.funcs@.len(),
        p.funcs@[fi].params@.len() >= 1,
        p.funcs@[fi].params@[0].ty == Ty::Plain(Base::Named(v)),
        variant_idx(p, v) is Some,
        !ty_eq_spec(Ty::Plain(Base::Named(v)), recv),
    ensures
        !method_sig_matches(p, fi, recv, at),
{
    let vj = choose|j: int| 0 <= j < p.variants@.len() && p.variants@[j].name == v;
    assert(crate::decl::variant_names(p)[vj] == v);
    if method_sig_matches(p, fi, recv, at) {
        match recv {
            Ty::Plain(Base::Named(s)) => {
                let si = struct_idx(p, s)->Some_0;
                let fl = flat_of(p, si)->Some_0;
                if p.structs@[si].name == v {
                    assert(crate::decl::struct_names(p)[si] == v);
                } else {
                    let k = choose|k: int|
                        0 <= k < fl.len() && (#[trigger] fl[k]).slot && fl[k].ty == Base::Named(v);
                    crate::flatten::lemma_flat_fields_slots(
                        p,
                        p.structs@[si].fields@,
                        p.structs@.len() as nat,
                    );
                    let e = choose|e: NameId| fl[k].ty == Base::Named(e) && struct_idx(p, e)
                        is Some;
                    assert(e == v);
                    let si2 = struct_idx(p, v)->Some_0;
                    assert(crate::decl::struct_names(p)[si2] == v);
                }
            },
            _ => {},
        }
    }
}

/// Embedding-forwarded dispatch law: a free function whose receiver
/// parameter is a struct type embedded by `s` resolves as a method on an
/// `s`-typed receiver by uniform call syntax, whenever its remaining
/// parameters match the argument types — name-forwarding, no subtyping.
pub proof fn lemma_embedding_forwards_dispatch(
    p: Program,
    fi: int,
    si: int,
    j: int,
    e: NameId,
    at: Seq<Ty>,
)
    requires
        distinct_seq(struct_names(p)),
        0 <= si < p.structs@.len(),
        0 <= j < p.structs@[si].fields@.len(),
        p.structs@[si].fields@[j].embedded,
        p.structs@[si].fields@[j].ty == Base::Named(e),
        flat_of(p, si) is Some,
        0 <= fi < p.funcs@.len(),
        p.funcs@[fi].params@.len() == at.len() + 1,
        p.funcs@[fi].params@[0].ty == Ty::Plain(Base::Named(e)),
        forall|k: int|
            0 <= k < at.len() ==> ty_eq_spec((#[trigger] p.funcs@[fi].params@[k + 1]).ty, at[k]),
    ensures
        method_sig_matches(p, fi, Ty::Plain(Base::Named(p.structs@[si].name)), at),
{
    let s = p.structs@[si].name;
    assert(struct_names(p)[si] == s);
    let si2 = choose|i: int| 0 <= i < p.structs@.len() && p.structs@[i].name == s;
    assert(struct_names(p)[si2] == s);
    assert(si2 == si);
    assert(struct_idx(p, s) == Some(si));
    let fl = flat_of(p, si)->Some_0;
    crate::flatten::lemma_embedded_slot_in_flat(
        p,
        p.structs@[si].fields@,
        p.structs@.len() as nat,
        j,
        e,
    );
    assert(embeds_in(p, si, fl, e));
    assert(recv_matches(p, Ty::Plain(Base::Named(e)), Ty::Plain(Base::Named(s))));
}

/// Decides `sig_matches`.
pub fn sig_matches_exec(p: &Program, fi: usize, at: &Vec<Ty>) -> (r: bool)
    requires
        fi < p.funcs@.len(),
    ensures
        r == sig_matches(*p, fi as int, at@),
{
    let f = &p.funcs[fi];
    if f.params.len() != at.len() {
        return false;
    }
    let mut k: usize = 0;
    while k < at.len()
        invariant
            fi < p.funcs@.len(),
            f == &p.funcs@[fi as int],
            k <= at@.len(),
            f.params@.len() == at@.len(),
            forall|a: int| 0 <= a < k ==> ty_eq_spec((#[trigger] f.params@[a]).ty, at@[a]),
        decreases at@.len() - k,
    {
        if !ty_eq(&f.params[k].ty, &at[k]) {
            return false;
        }
        k += 1;
    }
    true
}

/// Decides `recv_matches`.
pub fn recv_matches_exec(p: &Program, want: &Ty, have: &Ty) -> (r: bool)
    requires
        distinct_seq(struct_names(*p)),
    ensures
        r == recv_matches(*p, *want, *have),
{
    if ty_eq(want, have) {
        return true;
    }
    match (want, have) {
        (Ty::Plain(Base::Named(e)), Ty::Plain(Base::Named(s))) => {
            match find_struct(p, *s) {
                Some(si) => {
                    let nstructs = p.structs.len();
                    match flatten_fields(p, &p.structs[si].fields, nstructs as u64) {
                        Some(fl) => embeds_in_exec(p, si, &fl, *e),
                        None => false,
                    }
                },
                None => false,
            }
        },
        _ => false,
    }
}

/// Decides `method_sig_matches`.
pub fn method_sig_matches_exec(p: &Program, fi: usize, recv: &Ty, at: &Vec<Ty>) -> (r: bool)
    requires
        distinct_seq(struct_names(*p)),
        fi < p.funcs@.len(),
    ensures
        r == method_sig_matches(*p, fi as int, *recv, at@),
{
    let f = &p.funcs[fi];
    if f.params.len() == 0 || f.params.len() - 1 != at.len() {
        return false;
    }
    if !recv_matches_exec(p, &f.params[0].ty, recv) {
        return false;
    }
    let mut k: usize = 0;
    while k < at.len()
        invariant
            fi < p.funcs@.len(),
            f == &p.funcs@[fi as int],
            k <= at@.len(),
            f.params@.len() == at@.len() + 1,
            forall|a: int| 0 <= a < k ==> ty_eq_spec((#[trigger] f.params@[a + 1]).ty, at@[a]),
        decreases at@.len() - k,
    {
        if !ty_eq(&f.params[k + 1].ty, &at[k]) {
            return false;
        }
        k += 1;
    }
    true
}

/// Selects from an overload set the unique declaration whose parameter
/// types match the argument types positionally.  No match is a
/// `NoMatchingOverload`, more than one structurally equal match an
/// `AmbiguousOverload`; both name the called identifier.
pub fn resolve_overload(p: &Program, cands: &Vec<usize>, at: &Vec<Ty>, n: NameId) -> (r: Result<
    usize,
    Diagnostic,
>)
    requires
        forall|a: int| 0 <= a < cands@.len() ==> (#[trigger] cands@[a]) < p.funcs@.len(),
    ensures
        match r {
            Ok(fi) => match_count(*p, cands@, at@, cands@.len() as int) == 1 && cands@.contains(fi)
                && fi < p.funcs@.len() && sig_matches(*p, fi as int, at@) && first_sig_match(
                *p,
                cands@,
                at@,
            ) == Some(fi),
            Err(d) => match_count(*p, cands@, at@, cands@.len() as int) == 0 && d == (Diagnostic {
                kind: DiagKind::NoMatchingOverload,
                subject: n,
                context: n,
                region: RegionKind::Straight,
            }) || match_count(*p, cands@, at@, cands@.len() as int) >= 2 && d == (Diagnostic {
                kind: DiagKind::AmbiguousOverload,
                subject: n,
                context: n,
                region: RegionKind::Straight,
            }),
        },
{
    let mut cnt: usize = 0;
    let mut found: usize = 0;
    let mut i: usize = 0;
    while i < cands.len()
        invariant
            forall|a: int| 0 <= a < cands@.len() ==> (#[trigger] cands@[a]) < p.funcs@.len(),
            i <= cands@.len(),
            cnt == match_count(*p, cands@, at@, i as int),
            cnt <= i,
            cnt == 0 ==> forall|j: int|
                0 <= j < i ==> !sig_matches(*p, (#[trigger] cands@[j]) as int, at@),
            cnt >= 1 ==> cands@.contains(found) && found < p.funcs@.len() && sig_matches(
                *p,
                found as int,
                at@,
            ) && first_sig_match(*p, cands@, at@) == Some(found),
        decreases cands@.len() - i,
    {
        if sig_matches_exec(p, cands[i], at) {
            if cnt == 0 {
                found = cands[i];
                proof {
                    lemma_first_sig_match_skip(*p, cands@, at@, i as int);
                    assert(cands@.skip(i as int)[0] == cands@[i as int]);
                }
            }
            cnt = cnt + 1;
        }
        i += 1;
    }
    if cnt == 1 {
        Ok(found)
    } else if cnt == 0 {
        Err(
            Diagnostic {
                kind: DiagKind::NoMatchingOverload,
                subject: n,
                context: n,
                region: RegionKind::Straight,
            },
        )
    } else {
        Err(
            Diagnostic {
                kind: DiagKind::AmbiguousOverload,
                subject: n,
                context: n,
                region: RegionKind::Straight,
            },
        )
    }
}

/// Resolves a method call `x.m(args)` by uniform call syntax: the receiver
/// is prepended as the first argument and matched against the candidates'
/// receiver parameter, embedding-forwarded receivers included.  The match
/// is against the receiver's *static* type.
pub fn resolve_method(p: &Program, cands: &Vec<usize>, recv: &Ty, at: &Vec<Ty>, n: NameId) -> (r:
    Result<usize, Diagnostic>)
    requires
        distinct_seq(struct_names(*p)),
        forall|a: int| 0 <= a < cands@.len() ==> (#[trigger] cands@[a]) < p.funcs@.len(),
    ensures
        match r {
            Ok(fi) => mmatch_count(*p, cands@, *recv, at@, cands@.len() as int) == 1
                && cands@.contains(fi) && fi < p.funcs@.len() && method_sig_matches(
                *p,
                fi as int,
                *recv,
                at@,
            ) && first_mmatch(*p, cands@, *recv, at@) == Some(fi),
            Err(d) => mmatch_count(*p, cands@, *recv, at@, cands@.len() as int) == 0 && d == (
            Diagnostic {
                kind: DiagKind::NoMatchingOverload,
                subject: n,
                context: n,
                region: RegionKind::Straight,
            }) || mmatch_count(*p, cands@, *recv, at@, cands@.len() as int) >= 2 && d == (
            Diagnostic {
                kind: DiagKind::AmbiguousOverload,
                subject: n,
                context: n,
                region: RegionKind::Straight,
            }),
        },
{
    let mut cnt: usize = 0;
    let mut found: usize = 0;
    let mut i: usize = 0;
    while i < cands.len()
        invariant
            distinct_seq(struct_names(*p)),
            forall|a: int| 0 <= a < cands@.len() ==> (#[trigger] cands@[a]) < p.funcs@.len(),
            i <= cands@.len(),
            cnt == mmatch_count(*p, cands@, *recv, at@, i as int),
            cnt <= i,
            cnt == 0 ==> forall|j: int|
                0 <= j < i ==> !method_sig_matches(*p, (#[trigger] cands@[j]) as int, *recv, at@),
            cnt >= 1 ==> cands@.contains(found) && found < p.funcs@.len() && method_sig_matches(
                *p,
                found as int,
                *recv,
                at@,
            ) && first_mmatch(*p, cands@, *recv, at@) == Some(found),
        decreases cands@.len() - i,
    {
        if method_sig_matches_exec(p, cands[i], recv, at) {
            if cnt == 0 {
                found = cands[i];
                proof {
                    lemma_first_mmatch_skip(*p, cands@, *recv, at@, i as int);
                    assert(cands@.skip(i as int)[0] == cands@[i as int]);
                }
            }
            cnt = cnt + 1;
        }
        i += 1;
    }
    if cnt == 1 {
        Ok(found)
    } else if cnt == 0 {
        Err(
            Diagnostic {
                kind: DiagKind::NoMatchingOverload,
                subject: n,
                context: n,
                region: RegionKind::Straight,
            },
        )
    } else {
        Err(
            Diagnostic {
                kind: DiagKind::AmbiguousOverload,
                subject: n,
                context: n,
                region: RegionKind::Straight,
            },
        )
    }
}

/// Resolves a direct call site `f(a1, ..., an)` from inside module `m`:
/// the (bare or qualified) name resolves to a module's overload set, and
/// the unique member whose parameter types match the argument types
/// positionally is selected.  An unresolved name, no match, and more than
/// one match are each reported.
pub fn resolve_call(p: &Program, m: usize, path: &Vec<NameId>, at: &Vec<Ty>) -> (r: Result<
    usize,
    Diagnostic,
>)
    requires
        crate::decl::prog_wf(*p),
        m < p.modules@.len(),
    ensures
        match crate::resolve::resolve_ref(*p, m as int, path@) {
            None => r matches Err(d) && d.kind == DiagKind::UnresolvedName,
            Some(md) => {
                let cands = crate::resolve::ov_set(*p, md, path@.last());
                match r {
                    Ok(fi) => match_count(*p, cands, at@, cands.len() as int) == 1
                        && cands.contains(fi) && fi < p.funcs@.len() && sig_matches(
                        *p,
                        fi as int,
                        at@,
                    ),
                    Err(d) => match_count(*p, cands, at@, cands.len() as int) == 0 && d.kind
                        == DiagKind::NoMatchingOverload || match_count(
                        *p,
                        cands,
                        at@,
                        cands.len() as int,
                    ) >= 2 && d.kind == DiagKind::AmbiguousOverload,
                }
            },
        },
{
    if path.len() == 0 {
        return Err(
            Diagnostic {
                kind: DiagKind::UnresolvedName,
                subject: 0,
                context: 0,
                region: RegionKind::Straight,
            },
        );
    }
    let last = path[path.len() - 1];
    match crate::resolve::resolve_ref_exec(p, m, path) {
        None => Err(
            Diagnostic {
                kind: DiagKind::UnresolvedName,
                subject: last,
                context: last,
                region: RegionKind::Straight,
            },
        ),
        Some(md) => {
            let cands = crate::resolve::ov_set_exec(p, md, last);
            resolve_overload(p, &cands, at, last)
        },
    }
}

/// Whether an explicit cast `x.as(T)` is valid for a value of the given
/// static type: `T` is an interface the type structurally satisfies, or a
/// variant whose base type is exactly the type.
pub open spec fn upcast_ok(p: Program, from: Ty, t: NameId) -> bool {
    ||| match (iface_idx(p, t), from) {
        (Some(ii), Ty::Plain(Base::Named(s))) => match struct_idx(p, s) {
            Some(si) => satisfies(p, si, ii),
            None => false,
        },
        _ => false,
    }
    ||| match (variant_idx(p, t), from) {
        (Some(vi), Ty::Plain(Base::Named(s))) => p.variants@[vi].base == s,
        _ => false,
    }
}

/// Decides structural satisfaction of an interface by a struct.
pub fn satisfies_exec(p: &Program, sid: usize, iid: usize) -> (r: bool)
    requires
        distinct_seq(struct_names(*p)),
        sid < p.structs@.len(),
        iid < p.interfaces@.len(),
    ensures
        r == satisfies(*p, sid as int, iid as int),
{
    let nstructs = p.structs.len();
    let fl = match flatten_fields(p, &p.structs[sid].fields, nstructs as u64) {
        Some(fl) => fl,
        None => {
            return false;
        },
    };
    let mut j: usize = 0;
    while j < p.interfaces[iid].members.len()
        invariant
            distinct_seq(struct_names(*p)),
            sid < p.structs@.len(),
            iid < p.interfaces@.len(),
            j <= p.interfaces@[iid as int].members@.len(),
            flat_of(*p, sid as int) == Some(fl@),
            forall|a: int|
                0 <= a < j ==> crate::iface::member_present(
                    *p,
                    sid as int,
                    fl@,
                    #[trigger] p.interfaces@[iid as int].members@[a],
                ),
        decreases p.interfaces@[iid as int].members@.len() - j,
    {
        if !has_member(p, sid, &fl, &p.interfaces[iid].members[j]) {
            return false;
        }
        j += 1;
    }
    true
}

/// Validates an explicit cast, producing the narrowed static type that all
/// subsequent dispatch on the new binding resolves against.
pub fn check_upcast(p: &Program, from: &Ty, t: NameId) -> (r: Result<Ty, Diagnostic>)
    requires
        prog_wf(*p),
    ensures
        match r {
            Ok(ty) => upcast_ok(*p, *from, t) && ty == Ty::Plain(Base::Named(t)),
            Err(d) => !upcast_ok(*p, *from, t) && d.kind == DiagKind::InvalidUpcast && d.subject
                == t,
        },
{
    match from {
        Ty::Plain(Base::Named(s)) => {
            match find_iface(p, t) {
                Some(ii) => {
                    match find_struct(p, *s) {
                        Some(si) => {
                            if satisfies_exec(p, si, ii) {
                                return Ok(Ty::Plain(Base::Named(t)));
                            }
                        },
                        None => {},
                    }
                },
                None => {},
            }
            match find_variant(p, t) {
                Some(vi) => {
                    if p.variants[vi].base == *s {
                        return Ok(Ty::Plain(Base::Named(t)));
                    }
                },
                None => {},
            }
            Err(
                Diagnostic {
                    kind: DiagKind::InvalidUpcast,
                    subject: t,
                    context: t,
                    region: RegionKind::Straight,
                },
            )
        },
        _ => Err(
            Diagnostic {
                kind: DiagKind::InvalidUpcast,
                subject: t,
                context: t,
                region: RegionKind::Straight,
            },
        ),
    }
}

/// Whether a variant membership test `x is V` is valid: `V` is a variant
/// whose base type is exactly the scrutinee's static type.
pub open spec fn variant_test_ok(p: Program, scrut: Ty, v: NameId) -> bool {
    match (variant_idx(p, v), scrut) {
        (Some(vi), Ty::Plain(Base::Named(s))) => p.variants@[vi].base == s,
        _ => false,
    }
}

/// Validates a variant membership test.  The test is an expression of
/// boolean type; it narrows nothing (see
/// `lemma_variant_test_preserves_dispatch`).
pub fn check_variant_test(p: &Program, scrut: &Ty, v: NameId) -> (r: Option<Diagnostic>)
    requires
        prog_wf(*p),
    ensures
        r is None <==> variant_test_ok(*p, *scrut, v),
        match r {
            Some(d) => d.kind == DiagKind::InvalidVariantTest && d.subject == v,
            None => true,
        },
{
    match scrut {
        Ty::Plain(Base::Named(s)) => {
            match find_variant(p, v) {
                Some(vi) => {
                    if p.variants[vi].base == *s {
                        return None;
                    }
                },
                None => {},
            }
            Some(
                Diagnostic {
                    kind: DiagKind::InvalidVariantTest,
                    subject: v,
                    context: v,
                    region: RegionKind::Straight,
                },
            )
        },
        _ => Some(
            Diagnostic {
                kind: DiagKind::InvalidVariantTest,
                subject: v,
                context: v,
                region: RegionKind::Straight,
            },
        ),
    }
}

} // verus!
