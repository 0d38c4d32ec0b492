//! Structural interface satisfaction: a struct satisfies an interface
//! exactly when every member the interface requires appears, under the same
//! name with an identical type, in the struct's flattened field set or among
//! the methods reachable on it by uniform call syntax (its own and those
//! forwarded through embedding).

use vstd::prelude::*;
use crate::ty::{NameId, Base, Ty, FnTy, fnty_eq};
use crate::decl::{Binding, FlatField, Member, FunctionDecl, Program, distinct_seq, struct_names};
use crate::flatten::{flat_of, flatten_fields, fields_ok};
use crate::diag::{Diagnostic, DiagKind, RegionKind};

verus! {

/// The base type of a `Ty` known to be first-order (error sentinel
/// otherwise).
pub open spec fn plain_of(t: Ty) -> Base {
    match t {
        Ty::Plain(b) => b,
        Ty::Func(_) => Base::Error,
    }
}

pub open spec fn all_plain(bs: Seq<Binding>) -> bool {
    forall|k: int| 0 <= k < bs.len() ==> (#[trigger] bs[k].ty) is Plain
}

/// The signature a declared function presents when its first parameter is
/// consumed as a method receiver: the remaining parameter types and the
/// named return types, all of which must be first-order.
pub open spec fn rest_sig(f: FunctionDecl) -> Option<(Seq<Base>, Seq<Base>)> {
    if f.params@.len() >= 1 && all_plain(f.params@.skip(1)) && all_plain(f.rets@) {
        Some(
            (
                f.params@.skip(1).map_values(|b: Binding| plain_of(b.ty)),
                f.rets@.map_values(|b: Binding| plain_of(b.ty)),
            ),
        )
    } else {
        None
    }
}

/// Whether the struct at `sid` reaches the named struct through its
/// embedding closure (itself included).
pub open spec fn embeds_in(p: Program, sid: int, fl: Seq<FlatField>, e: NameId) -> bool {
    p.structs@[sid].name == e || exists|k: int|
        0 <= k < fl.len() && (#[trigger] fl[k]).slot && fl[k].ty == Base::Named(e)
}

/// Whether the function at index `fi` is a method of the struct at `sid`
/// under the required name and signature: its receiver type is the struct
/// or one of its embedded bases, and the rest of its signature is identical
/// to the required one.
pub open spec fn method_matches(
    p: Program,
    sid: int,
    fl: Seq<FlatField>,
    fi: int,
    name: NameId,
    sig: FnTy,
) -> bool {
    let f = p.funcs@[fi];
    &&& f.name == name
    &&& f.params@.len() >= 1
    &&& match f.params@[0].ty {
        Ty::Plain(Base::Named(t)) => embeds_in(p, sid, fl, t),
        _ => false,
    }
    &&& match rest_sig(f) {
        Some(pr) => pr.0 == sig.params@ && pr.1 == sig.rets@ && sig.curried == 0,
        None => false,
    }
}

/// Whether one required member is present on the struct at `sid`, whose
/// flattened field set is `fl`: a first-order requirement is met by a
/// flattened field of identical type, a function-typed requirement by a
/// reachable method of identical signature.
pub open spec fn member_present(p: Program, sid: int, fl: Seq<FlatField>, m: Member) -> bool {
    match m.ty {
        Ty::Plain(b) => exists|k: int|
            0 <= k < fl.len() && (#[trigger] fl[k]).name == m.name && fl[k].ty == b,
        Ty::Func(sig) => exists|fi: int|
            0 <= fi < p.funcs@.len() && method_matches(p, sid, fl, fi, m.name, sig),
    }
}

/// The computed conformance relation: the struct at `sid` structurally
/// satisfies the interface at `iid`.
pub open spec fn satisfies(p: Program, sid: int, iid: int) -> bool {
    match flat_of(p, sid) {
        Some(fl) => forall|j: int|
            0 <= j < p.interfaces@[iid].members@.len() ==> member_present(
                p,
                sid,
                fl,
                #[trigger] p.interfaces@[iid].members@[j],
            ),
        None => false,
    }
}

/// Structural conformance law: a struct satisfies an interface exactly when
/// every (name, type) pair the interface requires appears in the struct's
/// flattened, embedding-expanded field and method set.
pub proof fn lemma_structural_conformance(p: Program, sid: int, iid: int, fl: Seq<FlatField>)
    requires
        0 <= sid < p.structs@.len(),
        0 <= iid < p.interfaces@.len(),
        flat_of(p, sid) == Some(fl),
    ensures
        satisfies(p, sid, iid) <==> (forall|j: int|
            0 <= j < p.interfaces@[iid].members@.len() ==> member_present(
                p,
                sid,
                fl,
                #[trigger] p.interfaces@[iid].members@[j],
            )),
{
}

/// Computes the method-facing signature of a declared function.
pub fn rest_sig_exec(f: &FunctionDecl) -> (r: Option<FnTy>)
    ensures
        match r {
            Some(ft) => rest_sig(*f) == Some((ft.params@, ft.rets@)) && ft.curried == 0,
            None => rest_sig(*f) is None,
        },
{
    if f.params.len() == 0 {
        return None;
    }
    let mut params: Vec<Base> = Vec::new();
    let mut i: usize = 1;
    while i < f.params.len()
        invariant
            1 <= i <= f.params@.len(),
            params@.len() == i - 1,
            forall|k: int| 0 <= k < i - 1 ==> params@[k] == plain_of(
                (#[trigger] f.params@[k + 1]).ty,
            ) && f.params@[k + 1].ty is Plain,
        decreases f.params@.len() - i,
    {
        match f.params[i].ty {
            Ty::Plain(b) => params.push(b),
            Ty::Func(_) => {
                proof {
                    assert(f.params@.skip(1)[i - 1].ty is Func);
                }
                return None;
            },
        }
        i += 1;
    }
    let mut rets: Vec<Base> = Vec::new();
    let mut j: usize = 0;
    while j < f.rets.len()
        invariant
            j <= f.rets@.len(),
            rets@.len() == j,
            forall|k: int| 0 <= k < j ==> rets@[k] == plain_of((#[trigger] f.rets@[k]).ty)
                && f.rets@[k].ty is Plain,
        decreases f.rets@.len() - j,
    {
        match f.rets[j].ty {
            Ty::Plain(b) => rets.push(b),
            Ty::Func(_) => {
                return None;
            },
        }
        j += 1;
    }
    proof {
        assert forall|k: int| 0 <= k < f.params@.skip(1).len() implies ((#[trigger] f.params@.skip(
            1,
        )[k]).ty) is Plain by {
            assert(f.params@.skip(1)[k] == f.params@[k + 1]);
        }
        assert(all_plain(f.params@.skip(1)));
        assert forall|k: int| 0 <= k < f.rets@.len() implies ((#[trigger] f.rets@[k]).ty)
            is Plain by {
            assert(rets@[k] == plain_of(f.rets@[k].ty));
        }
        assert(all_plain(f.rets@));
        assert(params@ =~= f.params@.skip(1).map_values(|b: Binding| plain_of(b.ty)));
        assert(rets@ =~= f.rets@.map_values(|b: Binding| plain_of(b.ty)));
    }
    Some(FnTy { params, rets, curried: 0 })
}

/// Decides embedding-closure membership from a flattened field set.
pub fn embeds_in_exec(p: &Program, sid: usize, fl: &Vec<FlatField>, e: NameId) -> (r: bool)
    requires
        sid < p.structs@.len(),
    ensures
        r == embeds_in(*p, sid as int, fl@, e),
{
    if p.structs[sid].name == e {
        return true;
    }
    let mut k: usize = 0;
    while k < fl.len()
        invariant
            k <= fl@.len(),
            p.structs@[sid as int].name != e,
            forall|a: int| 0 <= a < k ==> !((#[trigger] fl@[a]).slot && fl@[a].ty == Base::Named(e)),
        decreases fl@.len() - k,
    {
        let is_slot = fl[k].slot;
        if is_slot {
            match fl[k].ty {
                Base::Named(n) => {
                    if n == e {
                        return true;
                    }
                },
                _ => {},
            }
        }
        k += 1;
    }
    false
}

/// Decides whether one required member is present.
pub fn has_member(p: &Program, sid: usize, fl: &Vec<FlatField>, m: &Member) -> (r: bool)
    requires
        sid < p.structs@.len(),
    ensures
        r == member_present(*p, sid as int, fl@, *m),
{
    match &m.ty {
        Ty::Plain(b) => {
            let want: Base = *b;
            let mut k: usize = 0;
            while k < fl.len()
                invariant
                    k <= fl@.len(),
                    want == plain_of(m.ty),
                    m.ty is Plain,
                    forall|a: int|
                        0 <= a < k ==> !((#[trigger] fl@[a]).name == m.name && fl@[a].ty == want),
                decreases fl@.len() - k,
            {
                if fl[k].name == m.name {
                    let same = match (fl[k].ty, want) {
                        (x, y) => x == y,
                    };
                    if same {
                        return true;
                    }
                }
                k += 1;
            }
            false
        },
        Ty::Func(sig) => {
            let mut fi: usize = 0;
            while fi < p.funcs.len()
                invariant
                    fi <= p.funcs@.len(),
                    sid < p.structs@.len(),
                    m.ty matches Ty::Func(s) && s == *sig,
                    forall|a: int|
                        0 <= a < fi ==> !method_matches(
                            *p,
                            sid as int,
                            fl@,
                            a,
                            m.name,
                            (#[trigger] p.funcs@[a], *sig).1,
                        ),
                decreases p.funcs@.len() - fi,
            {
                let f = &p.funcs[fi];
                if f.name == m.name && f.params.len() >= 1 {
                    let recv_ok = match &f.params[0].ty {
                        Ty::Plain(Base::Named(t)) => embeds_in_exec(p, sid, fl, *t),
                        _ => false,
                    };
                    if recv_ok {
                        match rest_sig_exec(f) {
                            Some(s2) => {
                                if fnty_eq(&s2, sig) {
                                    proof {
                                        assert(method_matches(
                                            *p,
                                            sid as int,
                                            fl@,
                                            fi as int,
                                            m.name,
                                            *sig,
                                        ));
                                    }
                                    return true;
                                }
                            },
                            None => {},
                        }
                    }
                }
                fi += 1;
            }
            false
        },
    }
}

/// Verifies one declared conformance, producing one `InterfaceMismatch`
/// diagnostic for every required member the struct lacks.  The result is
/// empty exactly when the struct structurally satisfies the interface.
pub fn check_conformance(p: &Program, sid: usize, iid: usize) -> (r: Vec<Diagnostic>)
    requires
        distinct_seq(struct_names(*p)),
        sid < p.structs@.len(),
        iid < p.interfaces@.len(),
        fields_ok(*p, sid as int),
    ensures
        (r@.len() == 0) <==> satisfies(*p, sid as int, iid as int),
        forall|d: Diagnostic|
            r@.contains(d) ==> d.kind == DiagKind::InterfaceMismatch && d.subject
                == p.structs@[sid as int].name && d.context == p.interfaces@[iid as int].name,
{
    let nstructs = p.structs.len();
    let fl = match flatten_fields(p, &p.structs[sid].fields, nstructs as u64) {
        Some(fl) => fl,
        None => {
            proof {
                assert(false);
            }
            Vec::new()
        },
    };
    let sname = p.structs[sid].name;
    let iname = p.interfaces[iid].name;
    let mut out: Vec<Diagnostic> = Vec::new();
    let mut j: usize = 0;
    while j < p.interfaces[iid].members.len()
        invariant
            j <= p.interfaces@[iid as int].members@.len(),
            sid < p.structs@.len(),
            iid < p.interfaces@.len(),
            flat_of(*p, sid as int) == Some(fl@),
            sname == p.structs@[sid as int].name,
            iname == p.interfaces@[iid as int].name,
            (out@.len() == 0) <==> (forall|a: int|
                0 <= a < j ==> member_present(
                    *p,
                    sid as int,
                    fl@,
                    #[trigger] p.interfaces@[iid as int].members@[a],
                )),
            forall|d: Diagnostic|
                out@.contains(d) ==> d.kind == DiagKind::InterfaceMismatch && d.subject == sname
                    && d.context == iname,
        decreases p.interfaces@[iid as int].members@.len() - j,
    {
        let present = has_member(p, sid, &fl, &p.interfaces[iid].members[j]);
        if !present {
            let ghost out0 = out@;
            let nd = Diagnostic {
                kind: DiagKind::InterfaceMismatch,
                subject: sname,
                context: iname,
                region: RegionKind::Straight,
            };
            out.push(nd);
            proof {
                assert forall|d: Diagnostic| out@.contains(d) implies d.kind
                    == DiagKind::InterfaceMismatch && d.subject == sname && d.context == iname by {
                    let ix = choose|ix: int| 0 <= ix < out@.len() && out@[ix] == d;
                    if ix < out0.len() {
                        assert(out0[ix] == d);
                        assert(out0.contains(d));
                    } else {
                        assert(d == nd);
                    }
                }
            }
        }
        j += 1;
    }
    out
}

} // verus!
