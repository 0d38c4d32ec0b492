//! Module resolution: bare names resolve in the enclosing module and then in
//! its ancestors outward to the root; qualified paths resolve their first
//! segment the same way among module names and then descend.  Overload sets
//! are partitioned purely by declared name; arity and type disambiguation is
//! the dispatch resolver's job.

use vstd::prelude::*;
use crate::ty::NameId;
use crate::decl::{Program, prog_wf};

verus! {

/// The name of the `k`-th function declared in module `m`.
pub open spec fn fname_at(p: Program, m: int, k: int) -> NameId {
    p.funcs@[p.modules@[m].funcs@[k] as int].name
}

/// Whether module `m` declares any function under the given name.
pub open spec fn has_fn_named(p: Program, m: int, n: NameId) -> bool {
    exists|k: int| 0 <= k < p.modules@[m].funcs@.len() && #[trigger] fname_at(p, m, k) == n
}

/// The module whose overload set a bare name denotes, searching the
/// enclosing module and then its ancestors outward to the root; sibling and
/// child modules are never searched.
pub open spec fn resolve_bare(p: Program, m: int, n: NameId) -> Option<int>
    decreases m,
{
    if has_fn_named(p, m, n) {
        Some(m)
    } else if m <= 0 || p.modules@[m].parent >= m {
        None
    } else {
        resolve_bare(p, p.modules@[m].parent as int, n)
    }
}

/// The child module of `m` with the given name, if any.
pub open spec fn child_of(p: Program, m: int, n: NameId) -> Option<int> {
    if exists|c: int|
        1 <= c < p.modules@.len() && (#[trigger] p.modules@[c]).parent == m && p.modules@[c].name
            == n {
        Some(
            choose|c: int|
                1 <= c < p.modules@.len() && (#[trigger] p.modules@[c]).parent == m
                    && p.modules@[c].name == n,
        )
    } else {
        None
    }
}

/// The module a bare *module* name denotes: the nearest enclosing module
/// (starting at `m` itself) having a child of that name.
pub open spec fn resolve_mod_bare(p: Program, m: int, n: NameId) -> Option<int>
    decreases m,
{
    match child_of(p, m, n) {
        Some(c) => Some(c),
        None => {
            if m <= 0 || p.modules@[m].parent >= m {
                None
            } else {
                resolve_mod_bare(p, p.modules@[m].parent as int, n)
            }
        },
    }
}

/// Descends the remaining segments of a qualified path strictly through
/// child modules, ending at the module that must declare the final name.
pub open spec fn resolve_path_down(p: Program, m: int, path: Seq<NameId>) -> Option<int>
    decreases path.len(),
{
    if path.len() == 0 {
        None
    } else if path.len() == 1 {
        if has_fn_named(p, m, path[0]) {
            Some(m)
        } else {
            None
        }
    } else {
        match child_of(p, m, path[0]) {
            Some(c) => resolve_path_down(p, c, path.skip(1)),
            None => None,
        }
    }
}

/// Resolves a (bare or qualified) name reference from inside module `m` to
/// the module whose overload set it denotes.
pub open spec fn resolve_ref(p: Program, m: int, path: Seq<NameId>) -> Option<int> {
    if path.len() == 0 {
        None
    } else if path.len() == 1 {
        resolve_bare(p, m, path[0])
    } else {
        match resolve_mod_bare(p, m, path[0]) {
            Some(c) => resolve_path_down(p, c, path.skip(1)),
            None => None,
        }
    }
}

/// The overload set of a name in a module: the indices of that module's
/// functions declared under the name, in declaration order.
pub open spec fn ov_filter(p: Program, fidxs: Seq<usize>, n: NameId) -> Seq<usize>
    decreases fidxs.len(),
{
    if fidxs.len() == 0 {
        Seq::empty()
    } else {
        (if p.funcs@[fidxs[0] as int].name == n {
            seq![fidxs[0]]
        } else {
            Seq::empty()
        }) + ov_filter(p, fidxs.skip(1), n)
    }
}

pub open spec fn ov_set(p: Program, m: int, n: NameId) -> Seq<usize> {
    ov_filter(p, p.modules@[m].funcs@, n)
}

/// Decides whether module `m` declares a function under the given name.
pub fn has_fn_named_exec(p: &Program, m: usize, n: NameId) -> (r: bool)
    requires
        prog_wf(*p),
        m < p.modules@.len(),
    ensures
        r == has_fn_named(*p, m as int, n),
{
    let mut k: usize = 0;
    while k < p.modules[m].funcs.len()
        invariant
            prog_wf(*p),
            m < p.modules@.len(),
            k <= p.modules@[m as int].funcs@.len(),
            forall|a: int| 0 <= a < k ==> #[trigger] fname_at(*p, m as int, a) != n,
        decreases p.modules@[m as int].funcs@.len() - k,
    {
        let fi = p.modules[m].funcs[k];
        if p.funcs[fi].name == n {
            proof {
                assert(fname_at(*p, m as int, k as int) == n);
            }
            return true;
        }
        proof {
            assert(fname_at(*p, m as int, k as int) != n);
        }
        k += 1;
    }
    false
}

/// Resolves a bare function name from inside module `m`.
pub fn resolve_bare_exec(p: &Program, m: usize, n: NameId) -> (r: Option<usize>)
    requires
        prog_wf(*p),
        m < p.modules@.len(),
    ensures
        match r {
            Some(u) => resolve_bare(*p, m as int, n) == Some(u as int) && u < p.modules@.len(),
            None => resolve_bare(*p, m as int, n) is None,
        },
{
    let mut cur: usize = m;
    loop
        invariant
            prog_wf(*p),
            cur < p.modules@.len(),
            resolve_bare(*p, m as int, n) == resolve_bare(*p, cur as int, n),
        decreases cur,
    {
        if has_fn_named_exec(p, cur, n) {
            return Some(cur);
        }
        if cur == 0 {
            return None;
        }
        cur = p.modules[cur].parent;
    }
}

/// Finds the child module of `m` with the given name.
pub fn child_of_exec(p: &Program, m: usize, n: NameId) -> (r: Option<usize>)
    requires
        prog_wf(*p),
        m < p.modules@.len(),
    ensures
        match r {
            Some(u) => child_of(*p, m as int, n) == Some(u as int) && 1 <= u < p.modules@.len(),
            None => child_of(*p, m as int, n) is None,
        },
{
    let mut c: usize = 1;
    while c < p.modules.len()
        invariant
            prog_wf(*p),
            1 <= c,
            c <= p.modules@.len() || p.modules@.len() == 0,
            forall|a: int|
                1 <= a < c ==> !((#[trigger] p.modules@[a]).parent == m && p.modules@[a].name == n),
        decreases p.modules@.len() - c,
    {
        if p.modules[c].parent == m && p.modules[c].name == n {
            proof {
                let k = choose|k: int|
                    1 <= k < p.modules@.len() && (#[trigger] p.modules@[k]).parent == m as int
                        && p.modules@[k].name == n;
                assert(k == c as int);
            }
            return Some(c);
        }
        c += 1;
    }
    proof {
        if exists|k: int|
            1 <= k < p.modules@.len() && (#[trigger] p.modules@[k]).parent == m as int
                && p.modules@[k].name == n {
            let k = choose|k: int|
                1 <= k < p.modules@.len() && (#[trigger] p.modules@[k]).parent == m as int
                    && p.modules@[k].name == n;
            assert(!(p.modules@[k].parent == m as int && p.modules@[k].name == n));
        }
    }
    None
}

/// Resolves a bare module name from inside module `m`.
pub fn resolve_mod_bare_exec(p: &Program, m: usize, n: NameId) -> (r: Option<usize>)
    requires
        prog_wf(*p),
        m < p.modules@.len(),
    ensures
        match r {
            Some(u) => resolve_mod_bare(*p, m as int, n) == Some(u as int) && u < p.modules@.len(),
            None => resolve_mod_bare(*p, m as int, n) is None,
        },
{
    let mut cur: usize = m;
    loop
        invariant
            prog_wf(*p),
            cur < p.modules@.len(),
            resolve_mod_bare(*p, m as int, n) == resolve_mod_bare(*p, cur as int, n),
        decreases cur,
    {
        match child_of_exec(p, cur, n) {
            Some(c) => {
                return Some(c);
            },
            None => {},
        }
        if cur == 0 {
            return None;
        }
        cur = p.modules[cur].parent;
    }
}

/// Resolves a bare or qualified name reference from inside module `m` to
/// the module whose overload set it denotes; `None` is an `UnresolvedName`.
pub fn resolve_ref_exec(p: &Program, m: usize, path: &Vec<NameId>) -> (r: Option<usize>)
    requires
        prog_wf(*p),
        m < p.modules@.len(),
    ensures
        match r {
            Some(u) => resolve_ref(*p, m as int, path@) == Some(u as int) && u < p.modules@.len(),
            None => resolve_ref(*p, m as int, path@) is None,
        },
{
    if path.len() == 0 {
        return None;
    }
    if path.len() == 1 {
        return resolve_bare_exec(p, m, path[0]);
    }
    let mut cur: usize = match resolve_mod_bare_exec(p, m, path[0]) {
        Some(c) => c,
        None => {
            return None;
        },
    };
    let mut seg: usize = 1;
    proof {
        assert(resolve_ref(*p, m as int, path@) == resolve_path_down(
            *p,
            cur as int,
            path@.skip(1),
        ));
    }
    while seg < path.len() - 1
        invariant
            prog_wf(*p),
            cur < p.modules@.len(),
            1 <= seg < path@.len(),
            resolve_ref(*p, m as int, path@) == resolve_path_down(
                *p,
                cur as int,
                path@.skip(seg as int),
            ),
        decreases path@.len() - seg,
    {
        proof {
            assert(path@.skip(seg as int).len() >= 2);
            assert(path@.skip(seg as int)[0] == path@[seg as int]);
            assert(path@.skip(seg as int).skip(1) =~= path@.skip(seg as int + 1));
        }
        match child_of_exec(p, cur, path[seg]) {
            Some(c) => {
                cur = c;
            },
            None => {
                return None;
            },
        }
        seg += 1;
    }
    proof {
        assert(path@.skip(seg as int).len() == 1);
        assert(path@.skip(seg as int)[0] == path@[seg as int]);
    }
    if has_fn_named_exec(p, cur, path[seg]) {
        Some(cur)
    } else {
        None
    }
}

/// Collects the overload set of a name in a module.
pub fn ov_set_exec(p: &Program, m: usize, n: NameId) -> (r: Vec<usize>)
    requires
        prog_wf(*p),
        m < p.modules@.len(),
    ensures
        r@ == ov_set(*p, m as int, n),
        forall|a: int| 0 <= a < r@.len() ==> (#[trigger] r@[a]) < p.funcs@.len(),
{
    let fx = &p.modules[m].funcs;
    let mut acc: Vec<usize> = Vec::new();
    let mut i: usize = 0;
    proof {
        assert(fx@.skip(0) =~= fx@);
        assert(Seq::<usize>::empty() + ov_filter(*p, fx@, n) =~= ov_filter(*p, fx@, n));
    }
    while i < fx.len()
        invariant
            prog_wf(*p),
            m < p.modules@.len(),
            fx == &p.modules@[m as int].funcs,
            i <= fx@.len(),
            acc@ + ov_filter(*p, fx@.skip(i as int), n) == ov_set(*p, m as int, n),
            forall|a: int| 0 <= a < acc@.len() ==> (#[trigger] acc@[a]) < p.funcs@.len(),
        decreases fx@.len() - i,
    {
        proof {
            assert(fx@.skip(i as int)[0] == fx@[i as int]);
            assert(fx@.skip(i as int).skip(1) =~= fx@.skip(i as int + 1));
        }
        let fi = fx[i];
        let ghost acc0 = acc@;
        if p.funcs[fi].name == n {
            acc.push(fi);
            proof {
                assert(acc@ =~= acc0 + seq![fi]);
                assert((acc0 + seq![fi]) + ov_filter(*p, fx@.skip(i as int + 1), n) =~= acc0 + (
                seq![fi] + ov_filter(*p, fx@.skip(i as int + 1), n)));
            }
        } else {
            proof {
                assert(Seq::<usize>::empty() + ov_filter(*p, fx@.skip(i as int + 1), n)
                    =~= ov_filter(*p, fx@.skip(i as int + 1), n));
            }
        }
        i += 1;
    }
    proof {
        assert(fx@.skip(fx@.len() as int) =~= Seq::<usize>::empty());
        assert(acc@ + Seq::<usize>::empty() =~= acc@);
    }
    acc
}

} // verus!
