//! Embedding flattening: computes the namespace of a struct after expanding
//! its embedded fields, and detects name collisions eagerly.
//!
//! An embedded field forwards the whole flattened namespace of the embedded
//! struct into the outer struct, and additionally occupies a slot named
//! after the embedded type itself.  Flattening is transitive; a fuel bound
//! of the number of declared structs makes a (malformed) embedding cycle
//! come out as a resolution failure instead of running forever.

use vstd::prelude::*;
use crate::ty::{NameId, Base};
use crate::decl::{Field, FlatField, Program, distinct_seq, struct_names, struct_idx, find_struct};
use crate::diag::{Diagnostic, DiagKind, RegionKind};

verus! {

/// Concatenation over optional flattened namespaces; `None` (a resolution
/// failure somewhere in the chain) is absorbing.
pub open spec fn opt_cat(a: Option<Seq<FlatField>>, b: Option<Seq<FlatField>>) -> Option<
    Seq<FlatField>,
> {
    match (a, b) {
        (Some(x), Some(y)) => Some(x + y),
        _ => None,
    }
}

/// Flattened namespace contributed by one declared field.
pub open spec fn flat_field(p: Program, f: Field, fuel: nat) -> Option<Seq<FlatField>>
    decreases fuel, 0int, 0int,
{
    if !f.embedded {
        Some(seq![FlatField { name: f.name, ty: f.ty, slot: false }])
    } else {
        match f.ty {
            Base::Named(n) => {
                if fuel == 0 {
                    None
                } else {
                    match struct_idx(p, n) {
                        Some(i) => match flat_fields(
                            p,
                            p.structs@[i].fields@,
                            (fuel - 1) as nat,
                        ) {
                            Some(inner) => Some(
                                seq![FlatField { name: n, ty: Base::Named(n), slot: true }] + inner,
                            ),
                            None => None,
                        },
                        None => None,
                    }
                }
            },
            _ => None,
        }
    }
}

/// Flattened namespace of a field list, in declaration order.
pub open spec fn flat_fields(p: Program, flds: Seq<Field>, fuel: nat) -> Option<Seq<FlatField>>
    decreases fuel, flds.len(), 1int,
{
    if flds.len() == 0 {
        Some(Seq::empty())
    } else {
        opt_cat(flat_field(p, flds[0], fuel), flat_fields(p, flds.skip(1), fuel))
    }
}

/// The flattened namespace of the struct at the given index; the canonical
/// fuel is the number of declared structs, which any acyclic embedding
/// chain stays under.
pub open spec fn flat_of(p: Program, sid: int) -> Option<Seq<FlatField>> {
    flat_fields(p, p.structs@[sid].fields@, p.structs@.len() as nat)
}

/// Computes the flattened namespace contributed by one field.
pub fn flatten_field(p: &Program, f: &Field, fuel: u64) -> (r: Option<Vec<FlatField>>)
    requires
        distinct_seq(struct_names(*p)),
    ensures
        match r {
            Some(v) => flat_field(*p, *f, fuel as nat) == Some(v@),
            None => flat_field(*p, *f, fuel as nat) is None,
        },
    decreases fuel, 0int, 0int,
{
    if !f.embedded {
        let mut v: Vec<FlatField> = Vec::new();
        v.push(FlatField { name: f.name, ty: f.ty, slot: false });
        proof {
            assert(v@ =~= seq![FlatField { name: f.name, ty: f.ty, slot: false }]);
        }
        Some(v)
    } else {
        match f.ty {
            Base::Named(n) => {
                if fuel == 0 {
                    return None;
                }
                match find_struct(p, n) {
                    Some(si) => {
                        match flatten_fields(p, &p.structs[si].fields, fuel - 1) {
                            Some(inner) => {
                                let mut v: Vec<FlatField> = Vec::new();
                                v.push(FlatField { name: n, ty: Base::Named(n), slot: true });
                                let mut inner = inner;
                                v.append(&mut inner);
                                proof {
                                    assert(v@ =~= seq![
                                        FlatField { name: n, ty: Base::Named(n), slot: true },
                                    ] + flat_fields(
                                        *p,
                                        p.structs@[si as int].fields@,
                                        (fuel - 1) as nat,
                                    )->Some_0);
                                }
                                Some(v)
                            },
                            None => None,
                        }
                    },
                    None => None,
                }
            },
            _ => None,
        }
    }
}

/// Computes the flattened namespace of a field list.
pub fn flatten_fields(p: &Program, flds: &Vec<Field>, fuel: u64) -> (r: Option<Vec<FlatField>>)
    requires
        distinct_seq(struct_names(*p)),
    ensures
        match r {
            Some(v) => flat_fields(*p, flds@, fuel as nat) == Some(v@),
            None => flat_fields(*p, flds@, fuel as nat) is None,
        },
    decreases fuel, flds@.len(), 1int,
{
    let mut acc: Vec<FlatField> = Vec::new();
    let mut i: usize = 0;
    proof {
        assert(flds@.skip(0) =~= flds@);
    }
    while i < flds.len()
        invariant
            i <= flds@.len(),
            distinct_seq(struct_names(*p)),
            opt_cat(Some(acc@), flat_fields(*p, flds@.skip(i as int), fuel as nat)) == flat_fields(
                *p,
                flds@,
                fuel as nat,
            ),
        decreases flds@.len() - i,
    {
        proof {
            assert(flds@.skip(i as int)[0] == flds@[i as int]);
            assert(flds@.skip(i as int).skip(1) =~= flds@.skip(i as int + 1));
        }
        match flatten_field(p, &flds[i], fuel) {
            None => {
                return None;
            },
            Some(v) => {
                let ghost acc0 = acc@;
                let mut v = v;
                proof {
                    let tail = flat_fields(*p, flds@.skip(i as int + 1), fuel as nat);
                    if tail is Some {
                        assert(acc0 + (v@ + tail->Some_0) =~= (acc0 + v@) + tail->Some_0);
                    }
                }
                acc.append(&mut v);
                i += 1;
            },
        }
    }
    proof {
        assert(flds@.skip(flds@.len() as int) =~= Seq::<Field>::empty());
        assert(acc@ + Seq::<FlatField>::empty() =~= acc@);
    }
    Some(acc)
}

/// Every slot of the namespace one field contributes names a declared
/// struct.
pub proof fn lemma_flat_field_slots(p: Program, f: Field, fuel: nat)
    ensures
        match flat_field(p, f, fuel) {
            Some(fl) => forall|k: int|
                0 <= k < fl.len() && (#[trigger] fl[k]).slot ==> (fl[k].ty matches Base::Named(e)
                    && struct_idx(p, e) is Some),
            None => true,
        },
    decreases fuel, 0int, 0int,
{
    if f.embedded {
        match f.ty {
            Base::Named(n) => {
                if fuel > 0 {
                    match struct_idx(p, n) {
                        Some(i) => {
                            lemma_flat_fields_slots(p, p.structs@[i].fields@, (fuel - 1) as nat);
                            match flat_fields(p, p.structs@[i].fields@, (fuel - 1) as nat) {
                                Some(inner) => {
                                    let head = seq![
                                        FlatField { name: n, ty: Base::Named(n), slot: true },
                                    ];
                                    assert forall|k: int|
                                        0 <= k < (head + inner).len() && (#[trigger] (head
                                            + inner)[k]).slot implies ((head + inner)[k].ty
                                        matches Base::Named(e) && struct_idx(p, e) is Some) by {
                                        if k >= 1 {
                                            assert((head + inner)[k] == inner[k - 1]);
                                        }
                                    }
                                },
                                None => {},
                            }
                        },
                        None => {},
                    }
                }
            },
            _ => {},
        }
    }
}

/// Every slot of a flattened namespace names a declared struct: embedding
/// composes structs only.
pub proof fn lemma_flat_fields_slots(p: Program, flds: Seq<Field>, fuel: nat)
    ensures
        match flat_fields(p, flds, fuel) {
            Some(fl) => forall|k: int|
                0 <= k < fl.len() && (#[trigger] fl[k]).slot ==> (fl[k].ty matches Base::Named(e)
                    && struct_idx(p, e) is Some),
            None => true,
        },
    decreases fuel, flds.len(), 1int,
{
    if flds.len() > 0 {
        lemma_flat_field_slots(p, flds[0], fuel);
        lemma_flat_fields_slots(p, flds.skip(1), fuel);
        match (flat_field(p, flds[0], fuel), flat_fields(p, flds.skip(1), fuel)) {
            (Some(a), Some(b)) => {
                assert forall|k: int|
                    0 <= k < (a + b).len() && (#[trigger] (a + b)[k]).slot implies ((a + b)[k].ty
                    matches Base::Named(e) && struct_idx(p, e) is Some) by {
                    if k >= a.len() {
                        assert((a + b)[k] == b[k - a.len()]);
                    } else {
                        assert((a + b)[k] == a[k]);
                    }
                }
            },
            _ => {},
        }
    }
}

/// An embedded field's slot stands in the flattened namespace: embedding
/// forwards the embedded type into the outer struct's namespace.
pub proof fn lemma_embedded_slot_in_flat(p: Program, flds: Seq<Field>, fuel: nat, j: int, e: NameId)
    requires
        0 <= j < flds.len(),
        flds[j].embedded,
        flds[j].ty == Base::Named(e),
        flat_fields(p, flds, fuel) is Some,
    ensures
        exists|k: int|
            0 <= k < flat_fields(p, flds, fuel)->Some_0.len() && (#[trigger] flat_fields(
                p,
                flds,
                fuel,
            )->Some_0[k]).slot && flat_fields(p, flds, fuel)->Some_0[k].ty == Base::Named(e),
    decreases j,
{
    let fl = flat_fields(p, flds, fuel)->Some_0;
    let h = flat_field(p, flds[0], fuel)->Some_0;
    let t = flat_fields(p, flds.skip(1), fuel)->Some_0;
    assert(flat_field(p, flds[0], fuel) is Some && flat_fields(p, flds.skip(1), fuel) is Some);
    assert(fl == h + t);
    if j == 0 {
        assert(h[0].slot && h[0].ty == Base::Named(e));
        assert(fl[0] == h[0]);
    } else {
        assert(flds.skip(1)[j - 1] == flds[j]);
        lemma_embedded_slot_in_flat(p, flds.skip(1), fuel, j - 1, e);
        let k = choose|k: int|
            0 <= k < t.len() && (#[trigger] t[k]).slot && t[k].ty == Base::Named(e);
        assert(fl[h.len() + k] == t[k]);
    }
}

/// Every flattened member of an embedded struct is forwarded into the
/// outer struct's flattened namespace, unchanged.
pub proof fn lemma_embedded_members_forwarded(
    p: Program,
    flds: Seq<Field>,
    fuel: nat,
    j: int,
    e: NameId,
)
    requires
        fuel >= 1,
        0 <= j < flds.len(),
        flds[j].embedded,
        flds[j].ty == Base::Named(e),
        flat_fields(p, flds, fuel) is Some,
    ensures
        match struct_idx(p, e) {
            Some(ei) => match flat_fields(p, p.structs@[ei].fields@, (fuel - 1) as nat) {
                Some(inner) => forall|k: int|
                    0 <= k < inner.len() ==> flat_fields(p, flds, fuel)->Some_0.contains(
                        #[trigger] inner[k],
                    ),
                None => true,
            },
            None => true,
        },
    decreases j,
{
    let fl = flat_fields(p, flds, fuel)->Some_0;
    let h = flat_field(p, flds[0], fuel)->Some_0;
    let t = flat_fields(p, flds.skip(1), fuel)->Some_0;
    assert(flat_field(p, flds[0], fuel) is Some && flat_fields(p, flds.skip(1), fuel) is Some);
    assert(fl == h + t);
    if j == 0 {
        let ei = struct_idx(p, e)->Some_0;
        assert(struct_idx(p, e) is Some);
        match flat_fields(p, p.structs@[ei].fields@, (fuel - 1) as nat) {
            Some(inner) => {
                assert(h == seq![FlatField { name: e, ty: Base::Named(e), slot: true }] + inner);
                assert forall|k: int| 0 <= k < inner.len() implies fl.contains(
                    #[trigger] inner[k],
                ) by {
                    assert(h[1 + k] == inner[k]);
                    assert(fl[1 + k] == h[1 + k]);
                }
            },
            None => {},
        }
    } else {
        assert(flds.skip(1)[j - 1] == flds[j]);
        lemma_embedded_members_forwarded(p, flds.skip(1), fuel, j - 1, e);
        match struct_idx(p, e) {
            Some(ei) => {
                match flat_fields(p, p.structs@[ei].fields@, (fuel - 1) as nat) {
                    Some(inner) => {
                        assert forall|k: int| 0 <= k < inner.len() implies fl.contains(
                            #[trigger] inner[k],
                        ) by {
                            assert(t.contains(inner[k]));
                            let k2 = choose|k2: int| 0 <= k2 < t.len() && t[k2] == inner[k];
                            assert(fl[h.len() + k2] == t[k2]);
                        }
                    },
                    None => {},
                }
            },
            None => {},
        }
    }
}

/// Names of a flattened namespace, in order.
pub open spec fn flat_names(fl: Seq<FlatField>) -> Seq<NameId> {
    fl.map_values(|x: FlatField| x.name)
}

/// Searches a flattened namespace for a duplicated name.
pub fn find_dup(fl: &Vec<FlatField>) -> (r: Option<NameId>)
    ensures
        match r {
            None => distinct_seq(flat_names(fl@)),
            Some(n) => !distinct_seq(flat_names(fl@)) && (exists|i: int, j: int|
                0 <= i < j < fl@.len() && fl@[i].name == n && fl@[j].name == n),
        },
{
    let mut i: usize = 0;
    while i < fl.len()
        invariant
            i <= fl@.len(),
            forall|a: int, b: int| 0 <= a < b < i ==> fl@[a].name != fl@[b].name,
        decreases fl@.len() - i,
    {
        let mut j: usize = 0;
        while j < i
            invariant
                j <= i < fl@.len(),
                forall|a: int, b: int| 0 <= a < b < i ==> fl@[a].name != fl@[b].name,
                forall|a: int| 0 <= a < j ==> fl@[a].name != fl@[i as int].name,
            decreases i - j,
        {
            if fl[j].name == fl[i].name {
                proof {
                    assert(flat_names(fl@)[j as int] == flat_names(fl@)[i as int]);
                }
                return Some(fl[i].name);
            }
            j += 1;
        }
        i += 1;
    }
    proof {
        assert forall|a: int, b: int| 0 <= a < b < flat_names(fl@).len() implies flat_names(fl@)[a]
            != flat_names(fl@)[b] by {
            assert(fl@[a].name != fl@[b].name);
        }
    }
    None
}

/// A struct's field namespace is valid: its embedding chain resolves and
/// the flattened names are pairwise distinct.
pub open spec fn fields_ok(p: Program, sid: int) -> bool {
    match flat_of(p, sid) {
        Some(fl) => distinct_seq(flat_names(fl)),
        None => false,
    }
}

/// Validates the field namespace of the struct at index `sid`, reporting a
/// collision as `DuplicateFieldName` and an unresolvable embedding chain as
/// `UnresolvedName`.
pub fn check_struct_fields(p: &Program, sid: usize) -> (r: Option<Diagnostic>)
    requires
        distinct_seq(struct_names(*p)),
        sid < p.structs@.len(),
    ensures
        r is None <==> fields_ok(*p, sid as int),
        match r {
            Some(d) => d.subject == p.structs@[sid as int].name && (d.kind
                == DiagKind::DuplicateFieldName || d.kind == DiagKind::UnresolvedName),
            None => true,
        },
{
    let sname = p.structs[sid].name;
    let nstructs = p.structs.len();
    match flatten_fields(p, &p.structs[sid].fields, nstructs as u64) {
        None => Some(
            Diagnostic {
                kind: DiagKind::UnresolvedName,
                subject: sname,
                context: sname,
                region: RegionKind::Straight,
            },
        ),
        Some(fl) => {
            match find_dup(&fl) {
                Some(n) => Some(
                    Diagnostic {
                        kind: DiagKind::DuplicateFieldName,
                        subject: sname,
                        context: n,
                        region: RegionKind::Straight,
                    },
                ),
                None => None,
            }
        },
    }
}

} // verus!
