//! Change signatures of outline paths (FNV-style hashes that tell the
//! renderer when cached geometry is stale), and the element counts that
//! size its geometry buffers.

use vstd::prelude::*;
use std::collections::hash_map::DefaultHasher;
use std::hash::{Hash, Hasher};
use crate::editor::{Path, PathKind, PathView};
use crate::outline::{EntityId, PathPoint, PointType, Selection};

verus! {

/// The FNV-1a offset basis the signatures start from.
pub const FNV_OFFSET: u64 = 0xcbf2_9ce4_8422_2325u64;

/// One FNV step: fold `value` into `hash` by exclusive or, then multiply by
/// the FNV prime modulo 2^64.
pub open spec fn fnv_step(hash: u64, value: u64) -> u64 {
    (((hash ^ value) as nat * 0x100_0000_01b3nat) % 0x1_0000_0000_0000_0000nat) as u64
}

/// Fold `value` into a running signature.
pub fn hash_outline_part(hash: u64, value: u64) -> (r: u64)
    ensures
        r == fnv_step(hash, value),
{
    let h = hash ^ value;
    h.wrapping_mul(0x100_0000_01b3u64)
}

/// The signature value of a point type.
pub open spec fn type_signature(t: PointType) -> u64 {
    match t {
        PointType::OffCurve { auto } => if auto { 1 } else { 0 },
        PointType::OnCurve { smooth } => if smooth { 0x101 } else { 0x100 },
    }
}

/// The signature value of a point's type.
pub fn point_type_signature(point_type: PointType) -> (r: u64)
    ensures
        r == type_signature(point_type),
{
    match point_type {
        PointType::OffCurve { auto } => if auto { 1 } else { 0 },
        PointType::OnCurve { smooth } => if smooth { 0x101 } else { 0x100 },
    }
}

/// What the standard library's `DefaultHasher` yields for an entity id.
pub uninterp spec fn entity_hash(id: u64) -> u64;

/// Hash an entity id with a fresh `DefaultHasher`.
///
/// Wraps the hashing of one value with a fresh `DefaultHasher`
/// (`DefaultHasher::new`, `Hash::hash`, `Hasher::finish`); std documents
/// that every `DefaultHasher` made by `new` produces the same result for the
/// same input, which the contract names `entity_hash`. `EntityId` derives
/// `Hash`, so hashing it hashes its one `u64` field. What that value is, the
/// contract leaves unsaid: std does not specify the algorithm.
#[verifier::external_body]
fn hash_entity_id(id: EntityId) -> (r: u64)
    ensures
        r == entity_hash(id.0),
{
    let mut hasher = DefaultHasher::new();
    id.hash(&mut hasher);
    hasher.finish()
}

/// The selection signature of the first `upto` points: the point count
/// folded into the offset basis, then the hash of each selected point's id.
pub open spec fn selection_signature_upto<P>(points: Seq<PathPoint<P>>, sel: Set<EntityId>, upto: nat) -> u64
    decreases upto,
{
    if upto == 0 {
        fnv_step(FNV_OFFSET, points.len() as u64)
    } else {
        let i = (upto - 1) as int;
        let h = selection_signature_upto(points, sel, (upto - 1) as nat);
        if sel.contains(points[i].id) { fnv_step(h, entity_hash(points[i].id.0)) } else { h }
    }
}

/// A signature of which points of a path are selected.
pub fn path_selection_signature<P>(points: &[PathPoint<P>], selection: &Selection) -> (r: u64)
    ensures
        r == selection_signature_upto(points@, selection@, points@.len()),
{
    let mut hash = hash_outline_part(FNV_OFFSET, points.len() as u64);
    let mut i: usize = 0;
    while i < points.len()
        invariant
            i <= points@.len(),
            hash == selection_signature_upto(points@, selection@, i as nat),
        decreases points@.len() - i,
    {
        if selection.contains(&points[i].id) {
            hash = hash_outline_part(hash, hash_entity_id(points[i].id));
        }
        i = i + 1;
    }
    hash
}

/// The signature code of a contour kind.
pub open spec fn kind_code(kind: PathKind) -> u64 {
    match kind {
        PathKind::Cubic => 1,
        PathKind::Quadratic => 2,
        PathKind::Hyper => 3,
    }
}

/// The outline signature of a contour over its first `upto` points: the
/// kind, point count and closedness folded into the offset basis, then for
/// each point the hash of its id, the bit patterns of its two coordinates
/// and its type.
pub open spec fn outline_signature_upto(p: PathView<(u64, u64)>, upto: nat) -> u64
    decreases upto,
{
    if upto == 0 {
        fnv_step(
            fnv_step(fnv_step(FNV_OFFSET, kind_code(p.kind)), p.points.len() as u64),
            if p.closed { 1 } else { 0 },
        )
    } else {
        let q = p.points[upto - 1];
        let h = outline_signature_upto(p, (upto - 1) as nat);
        fnv_step(fnv_step(fnv_step(fnv_step(h, entity_hash(q.id.0)), q.point.0), q.point.1), type_signature(q.typ))
    }
}

/// A signature of a contour's outline, its point positions given as the bit
/// patterns of their coordinates.
pub fn path_outline_signature(path: &Path<(u64, u64)>) -> (r: u64)
    ensures
        r == outline_signature_upto(path@, path@.points.len()),
{
    let kind: u64 = match path.kind {
        PathKind::Cubic => 1,
        PathKind::Quadratic => 2,
        PathKind::Hyper => 3,
    };
    let points = &path.points;
    let mut hash = hash_outline_part(FNV_OFFSET, kind);
    hash = hash_outline_part(hash, points.len() as u64);
    hash = hash_outline_part(hash, if path.closed { 1 } else { 0 });
    let mut i: usize = 0;
    while i < points.len()
        invariant
            points@ == path@.points,
            i <= points@.len(),
            hash == outline_signature_upto(path@, i as nat),
        decreases points@.len() - i,
    {
        let q = points[i];
        hash = hash_outline_part(hash, hash_entity_id(q.id));
        hash = hash_outline_part(hash, q.point.0);
        hash = hash_outline_part(hash, q.point.1);
        hash = hash_outline_part(hash, point_type_signature(q.typ));
        i = i + 1;
    }
    hash
}

/// How many elements of each kind the edit-control geometry holds.
#[derive(Debug, Clone, Copy, PartialEq, Eq, Structural)]
pub struct EditControlsGeometryCapacity {
    pub outline: usize,
    pub handle_lines: usize,
    pub smooth_circles: usize,
    pub corner_squares: usize,
    pub offcurve_circles: usize,
    pub hyper_circles: usize,
    pub selected_circles: usize,
    pub selected_squares: usize,
}

impl EditControlsGeometryCapacity {
    /// All counts zero.
    pub fn new() -> (r: Self)
        ensures
            r.outline == 0 && r.handle_lines == 0 && r.smooth_circles == 0 && r.corner_squares == 0
                && r.offcurve_circles == 0 && r.hyper_circles == 0 && r.selected_circles == 0
                && r.selected_squares == 0,
    {
        EditControlsGeometryCapacity {
            outline: 0,
            handle_lines: 0,
            smooth_circles: 0,
            corner_squares: 0,
            offcurve_circles: 0,
            hyper_circles: 0,
            selected_circles: 0,
            selected_squares: 0,
        }
    }

    /// Add `other`'s counts to these, kind by kind.
    pub fn add(&mut self, other: Self)
        requires
            old(self).outline + other.outline <= usize::MAX,
            old(self).handle_lines + other.handle_lines <= usize::MAX,
            old(self).smooth_circles + other.smooth_circles <= usize::MAX,
            old(self).corner_squares + other.corner_squares <= usize::MAX,
            old(self).offcurve_circles + other.offcurve_circles <= usize::MAX,
            old(self).hyper_circles + other.hyper_circles <= usize::MAX,
            old(self).selected_circles + other.selected_circles <= usize::MAX,
            old(self).selected_squares + other.selected_squares <= usize::MAX,
        ensures
            final(self).outline == old(self).outline + other.outline,
            final(self).handle_lines == old(self).handle_lines + other.handle_lines,
            final(self).smooth_circles == old(self).smooth_circles + other.smooth_circles,
            final(self).corner_squares == old(self).corner_squares + other.corner_squares,
            final(self).offcurve_circles == old(self).offcurve_circles + other.offcurve_circles,
            final(self).hyper_circles == old(self).hyper_circles + other.hyper_circles,
            final(self).selected_circles == old(self).selected_circles + other.selected_circles,
            final(self).selected_squares == old(self).selected_squares + other.selected_squares,
    {
        self.outline = self.outline + other.outline;
        self.handle_lines = self.handle_lines + other.handle_lines;
        self.smooth_circles = self.smooth_circles + other.smooth_circles;
        self.corner_squares = self.corner_squares + other.corner_squares;
        self.offcurve_circles = self.offcurve_circles + other.offcurve_circles;
        self.hyper_circles = self.hyper_circles + other.hyper_circles;
        self.selected_circles = self.selected_circles + other.selected_circles;
        self.selected_squares = self.selected_squares + other.selected_squares;
    }
}

} // verus!
