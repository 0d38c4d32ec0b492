//! Declarations of a compilation unit: structs, interfaces, variants,
//! functions, and the module tree, together with the well-formedness the
//! front end guarantees and the name lookups built on it.

use vstd::prelude::*;
use crate::ty::{NameId, Base, Ty, BindClass};
use crate::ast::Stmt;

verus! {

/// A named binding: a parameter, a named return binding, or a local.
pub struct Binding {
    pub name: NameId,
    pub ty: Ty,
    pub class: BindClass,
}

/// A declared struct field.  An embedded field composes another struct into
/// this one: its flattened members are forwarded into this struct's
/// namespace, and the embedded value occupies a slot named after the
/// embedded type itself.
#[derive(Clone, Copy, PartialEq, Eq, Structural, Debug)]
pub struct Field {
    pub name: NameId,
    pub ty: Base,
    pub embedded: bool,
}

/// One entry of a struct's flattened (embedding-expanded) namespace.
/// `slot` marks the entry holding an embedded value itself.
#[derive(Clone, Copy, PartialEq, Eq, Structural, Debug)]
pub struct FlatField {
    pub name: NameId,
    pub ty: Base,
    pub slot: bool,
}

/// A member an interface requires: a field of first-order type, or a method
/// of function type.
pub struct Member {
    pub name: NameId,
    pub ty: Ty,
}

pub struct StructDecl {
    pub name: NameId,
    pub fields: Vec<Field>,
    /// Interfaces this struct declares conformance to; each declaration is
    /// verified structurally.
    pub conforms: Vec<NameId>,
}

pub struct InterfaceDecl {
    pub name: NameId,
    pub members: Vec<Member>,
}

/// A nominal refinement of a base struct type, with a boolean predicate
/// evaluated at run time by `is` tests.
pub struct VariantDecl {
    pub name: NameId,
    pub base: NameId,
    /// The predicate, a function of one parameter (the base value) whose
    /// single return binding is boolean.
    pub predicate: FunctionDecl,
}

pub struct FunctionDecl {
    pub name: NameId,
    pub params: Vec<Binding>,
    pub rets: Vec<Binding>,
    pub body: Stmt,
}

/// One node of the module tree, stored flat.  The root is node 0 and is its
/// own parent; every other node's parent index is smaller than its own, so
/// walking parents terminates.
pub struct ModuleNode {
    pub name: NameId,
    pub parent: usize,
    /// Indices into `Program::funcs` of the functions declared here.
    pub funcs: Vec<usize>,
}

/// A whole compilation unit after parsing.
pub struct Program {
    pub structs: Vec<StructDecl>,
    pub interfaces: Vec<InterfaceDecl>,
    pub variants: Vec<VariantDecl>,
    pub funcs: Vec<FunctionDecl>,
    pub modules: Vec<ModuleNode>,
}

/// No two entries of the sequence share a value.
pub open spec fn distinct_seq(s: Seq<NameId>) -> bool {
    forall|i: int, j: int| 0 <= i < j < s.len() ==> s[i] != s[j]
}

pub open spec fn struct_names(p: Program) -> Seq<NameId> {
    p.structs@.map_values(|s: StructDecl| s.name)
}

pub open spec fn iface_names(p: Program) -> Seq<NameId> {
    p.interfaces@.map_values(|s: InterfaceDecl| s.name)
}

pub open spec fn variant_names(p: Program) -> Seq<NameId> {
    p.variants@.map_values(|s: VariantDecl| s.name)
}

/// Well-formedness the external parser guarantees of the tree it hands
/// over: type names are unique and do not collide across kinds, the module
/// tree is a genuine tree rooted at node 0, its function indices are in
/// range, and sibling modules have distinct names.
pub open spec fn prog_wf(p: Program) -> bool {
    &&& distinct_seq(struct_names(p))
    &&& distinct_seq(iface_names(p))
    &&& distinct_seq(variant_names(p))
    &&& forall|i: int, j: int|
        0 <= i < struct_names(p).len() && 0 <= j < iface_names(p).len() ==> struct_names(p)[i]
            != iface_names(p)[j]
    &&& forall|i: int, j: int|
        0 <= i < struct_names(p).len() && 0 <= j < variant_names(p).len() ==> struct_names(p)[i]
            != variant_names(p)[j]
    &&& forall|i: int, j: int|
        0 <= i < iface_names(p).len() && 0 <= j < variant_names(p).len() ==> iface_names(p)[i]
            != variant_names(p)[j]
    &&& p.modules@.len() >= 1
    &&& p.modules@[0].parent == 0
    &&& forall|m: int| 1 <= m < p.modules@.len() ==> (#[trigger] p.modules@[m].parent) < m
    &&& forall|m: int, k: int|
        0 <= m < p.modules@.len() && 0 <= k < p.modules@[m].funcs@.len() ==> (
        #[trigger] p.modules@[m].funcs@[k]) < p.funcs@.len()
    &&& forall|m: int, n: int|
        1 <= m < n < p.modules@.len() && p.modules@[m].parent == p.modules@[n].parent ==> (
        #[trigger] p.modules@[m].name) != (#[trigger] p.modules@[n].name)
}

/// Index of the struct declared under the given name, if any.
pub open spec fn struct_idx(p: Program, n: NameId) -> Option<int> {
    if exists|i: int| 0 <= i < p.structs@.len() && p.structs@[i].name == n {
        Some(choose|i: int| 0 <= i < p.structs@.len() && p.structs@[i].name == n)
    } else {
        None
    }
}

pub open spec fn iface_idx(p: Program, n: NameId) -> Option<int> {
    if exists|i: int| 0 <= i < p.interfaces@.len() && p.interfaces@[i].name == n {
        Some(choose|i: int| 0 <= i < p.interfaces@.len() && p.interfaces@[i].name == n)
    } else {
        None
    }
}

pub open spec fn variant_idx(p: Program, n: NameId) -> Option<int> {
    if exists|i: int| 0 <= i < p.variants@.len() && p.variants@[i].name == n {
        Some(choose|i: int| 0 <= i < p.variants@.len() && p.variants@[i].name == n)
    } else {
        None
    }
}

/// Finds the struct declared under the given name.
pub fn find_struct(p: &Program, n: NameId) -> (r: Option<usize>)
    requires
        distinct_seq(struct_names(*p)),
    ensures
        match r {
            Some(u) => struct_idx(*p, n) == Some(u as int) && u < p.structs@.len()
                && p.structs@[u as int].name == n,
            None => struct_idx(*p, n) is None,
        },
{
    let mut i: usize = 0;
    while i < p.structs.len()
        invariant
            i <= p.structs@.len(),
            distinct_seq(struct_names(*p)),
            forall|j: int| 0 <= j < i ==> p.structs@[j].name != n,
        decreases p.structs@.len() - i,
    {
        if p.structs[i].name == n {
            proof {
                assert(struct_names(*p)[i as int] == n);
                let k = choose|k: int| 0 <= k < p.structs@.len() && p.structs@[k].name == n;
                assert(struct_names(*p)[k] == n);
                assert(k == i as int);
            }
            return Some(i);
        }
        i += 1;
    }
    proof {
        if exists|k: int| 0 <= k < p.structs@.len() && p.structs@[k].name == n {
            let k = choose|k: int| 0 <= k < p.structs@.len() && p.structs@[k].name == n;
            assert(p.structs@[k].name != n);
        }
    }
    None
}

/// Finds the interface declared under the given name.
pub fn find_iface(p: &Program, n: NameId) -> (r: Option<usize>)
    requires
        distinct_seq(iface_names(*p)),
    ensures
        match r {
            Some(u) => iface_idx(*p, n) == Some(u as int) && u < p.interfaces@.len()
                && p.interfaces@[u as int].name == n,
            None => iface_idx(*p, n) is None,
        },
{
    let mut i: usize = 0;
    while i < p.interfaces.len()
        invariant
            i <= p.interfaces@.len(),
            distinct_seq(iface_names(*p)),
            forall|j: int| 0 <= j < i ==> p.interfaces@[j].name != n,
        decreases p.interfaces@.len() - i,
    {
        if p.interfaces[i].name == n {
            proof {
                assert(iface_names(*p)[i as int] == n);
                let k = choose|k: int| 0 <= k < p.interfaces@.len() && p.interfaces@[k].name == n;
                assert(iface_names(*p)[k] == n);
                assert(k == i as int);
            }
            return Some(i);
        }
        i += 1;
    }
    proof {
        if exists|k: int| 0 <= k < p.interfaces@.len() && p.interfaces@[k].name == n {
            let k = choose|k: int| 0 <= k < p.interfaces@.len() && p.interfaces@[k].name == n;
            assert(p.interfaces@[k].name != n);
        }
    }
    None
}

/// Finds the variant declared under the given name.
pub fn find_variant(p: &Program, n: NameId) -> (r: Option<usize>)
    requires
        distinct_seq(variant_names(*p)),
    ensures
        match r {
            Some(u) => variant_idx(*p, n) == Some(u as int) && u < p.variants@.len()
                && p.variants@[u as int].name == n,
            None => variant_idx(*p, n) is None,
        },
{
    let mut i: usize = 0;
    while i < p.variants.len()
        invariant
            i <= p.variants@.len(),
            distinct_seq(variant_names(*p)),
            forall|j: int| 0 <= j < i ==> p.variants@[j].name != n,
        decreases p.variants@.len() - i,
    {
        if p.variants[i].name == n {
            proof {
                assert(variant_names(*p)[i as int] == n);
                let k = choose|k: int| 0 <= k < p.variants@.len() && p.variants@[k].name == n;
                assert(variant_names(*p)[k] == n);
                assert(k == i as int);
            }
            return Some(i);
        }
        i += 1;
    }
    proof {
        if exists|k: int| 0 <= k < p.variants@.len() && p.variants@[k].name == n {
            let k = choose|k: int| 0 <= k < p.variants@.len() && p.variants@[k].name == n;
            assert(p.variants@[k].name != n);
        }
    }
    None
}

} // verus!
