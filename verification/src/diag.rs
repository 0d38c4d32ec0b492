//! Diagnostics: the fixed taxonomy of compile-time errors, accumulated and
//! never thrown mid-analysis.

use vstd::prelude::*;
use crate::ty::NameId;

verus! {

/// The taxonomy of user-facing diagnostics.
#[derive(Clone, Copy, PartialEq, Eq, Structural, Debug)]
pub enum DiagKind {
    UnresolvedName,
    AmbiguousOverload,
    NoMatchingOverload,
    InterfaceMismatch,
    DuplicateFieldName,
    InvalidVariantBase,
    CurryArityExceeded,
    CurryTypeMismatch,
    InvalidUpcast,
    InvalidVariantTest,
    AliasWriteInUnboundedRegion,
    ReassignmentOfImmutable,
}

/// The kind of control region that made a write site unbounded; carried by
/// `AliasWriteInUnboundedRegion` so a reporter can name the construct.
#[derive(Clone, Copy, PartialEq, Eq, Structural, Debug)]
pub enum RegionKind {
    /// The write is not inside an unbounded region (used on diagnostics to
    /// which no region applies).
    Straight,
    /// The enclosing unbounded region is a loop body.
    Loop,
    /// The enclosing region contains a recursive call site.
    RecursiveCall,
}

/// One accumulated diagnostic: its kind, the offending binding or type name,
/// a secondary name giving context (for instance the interface a struct
/// failed to satisfy), and the region kind for aliasing diagnostics.
#[derive(Clone, Copy, PartialEq, Eq, Structural, Debug)]
pub struct Diagnostic {
    pub kind: DiagKind,
    pub subject: NameId,
    pub context: NameId,
    pub region: RegionKind,
}

} // verus!
