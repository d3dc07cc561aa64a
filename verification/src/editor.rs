//! The contour-editing state of the editor: the outline's paths, the point
//! selection and the edit revision, with the editing commands that change
//! which points exist, how they are ordered and which are selected.
//!
//! Point positions are carried as an opaque value `P`. Where a command places
//! a new point, the caller hands over the point's (grid-snapped) position and
//! a fresh entity id; component, anchor, viewport and preview state stay with
//! the host.

use vstd::prelude::*;
use crate::outline::{
    deleted_ids, extract_selected_points, law_deleted_handle_takes_its_partner, law_replace_forward_segment, kept_points, move_indices_upto, nat_seq,
    replace_segment_interior, replaced_interior, retain_points_after_deletion, reverse_points,
    next_index, next_index_of, prev_index, previous_index, segment_indices, segment_point_indices,
    selected_indices_upto, selected_move_indices,
    span_points, toggle_point_type_in_points, toggled, EntityId, PathPoint, PointType, Selection,
};

verus! {

/// The kind of curve a contour is drawn with.
#[derive(Debug, Clone, Copy, PartialEq, Eq, Structural)]
pub enum PathKind {
    Cubic,
    Quadratic,
    Hyper,
}

/// A contour: its kind, whether it is closed, and its points in order.
#[derive(Debug, Clone)]
pub struct Path<P> {
    pub kind: PathKind,
    pub closed: bool,
    pub points: Vec<PathPoint<P>>,
}

/// What a contour is: its kind, whether it is closed, and its points.
pub ghost struct PathView<P> {
    pub kind: PathKind,
    pub closed: bool,
    pub points: Seq<PathPoint<P>>,
}

impl<P> View for Path<P> {
    type V = PathView<P>;

    open spec fn view(&self) -> PathView<P> {
        PathView { kind: self.kind, closed: self.closed, points: self.points@ }
    }
}

/// The contours of a path list, each by its view.
pub open spec fn paths_view<P>(paths: Seq<Path<P>>) -> Seq<PathView<P>> {
    paths.map_values(|p: Path<P>| p@)
}

/// The contour-editing state: the outline's contours, the selected points
/// and a counter that every geometric edit advances.
pub struct EditorState<P> {
    pub paths: Vec<Path<P>>,
    pub selection: Selection,
    pub edit_revision: u64,
}

/// What the contour-editing state is.
pub ghost struct EditorView<P> {
    pub paths: Seq<PathView<P>>,
    pub selection: Set<EntityId>,
    pub edit_revision: u64,
}

impl<P> View for EditorState<P> {
    type V = EditorView<P>;

    open spec fn view(&self) -> EditorView<P> {
        EditorView {
            paths: paths_view(self.paths@),
            selection: self.selection@,
            edit_revision: self.edit_revision,
        }
    }
}

impl<P> Default for EditorState<P> {
    fn default() -> (r: Self)
        ensures
            r@.paths == Seq::<PathView<P>>::empty(),
            r@.selection == Set::<EntityId>::empty(),
            r@.edit_revision == 0,
    {
        Self::new()
    }
}

/// The revision after `r`: one more, wrapping to zero past the largest value.
pub open spec fn next_revision(r: u64) -> u64 {
    if r == u64::MAX {
        0
    } else {
        (r + 1) as u64
    }
}

/// A contour with its points in reverse order.
pub open spec fn reversed_path<P>(p: PathView<P>) -> PathView<P> {
    PathView { points: p.points.reverse(), ..p }
}

/// The ids of the points of a contour.
pub open spec fn point_id_set<P>(points: Seq<PathPoint<P>>) -> Set<EntityId> {
    Set::new(|id: EntityId| exists|i: int| 0 <= i < points.len() && points[i].id == id)
}

/// Whether some point of a contour is selected.
pub open spec fn has_selected<P>(points: Seq<PathPoint<P>>, sel: Set<EntityId>) -> bool {
    exists|i: int| 0 <= i < points.len() && sel.contains(#[trigger] points[i].id)
}

/// A selection of every point of a contour.
fn select_all<P>(points: &Vec<PathPoint<P>>) -> (r: Selection)
    ensures
        r@ == point_id_set(points@),
{
    let mut sel = Selection::new();
    let mut i: usize = 0;
    while i < points.len()
        invariant
            i <= points@.len(),
            sel@ == Set::new(|id: EntityId| exists|j: int| 0 <= j < i && points@[j].id == id),
        decreases points@.len() - i,
    {
        let ghost before = sel@;
        sel.insert(points[i].id);
        assert(sel@ =~= Set::new(|id: EntityId| exists|j: int| 0 <= j < i + 1 && points@[j].id == id)) by {
            assert forall|id: EntityId| sel@.contains(id) implies exists|j: int|
                0 <= j < i + 1 && points@[j].id == id by {
                if id == points@[i as int].id {
                    assert(points@[i as int].id == id);
                } else {
                    assert(before.contains(id));
                }
            }
        }
        i = i + 1;
    }
    assert(sel@ =~= point_id_set(points@));
    sel
}

impl<P> EditorState<P> {
    /// An empty outline with nothing selected, at revision zero.
    pub fn new() -> (r: Self)
        ensures
            r@.paths == Seq::<PathView<P>>::empty(),
            r@.selection == Set::<EntityId>::empty(),
            r@.edit_revision == 0,
    {
        let r = EditorState { paths: Vec::new(), selection: Selection::new(), edit_revision: 0 };
        assert(r@.paths =~= Seq::<PathView<P>>::empty());
        r
    }

    /// The number of geometric edits made so far (wrapping).
    pub fn edit_revision(&self) -> (r: u64)
        ensures
            r == self.edit_revision,
    {
        self.edit_revision
    }

    /// Advance the edit revision by one, wrapping past the largest value.
    pub(crate) fn bump_edit_revision(&mut self)
        ensures
            final(self).paths == old(self).paths,
            final(self).selection == old(self).selection,
            final(self).edit_revision == next_revision(old(self).edit_revision),
    {
        self.edit_revision = self.edit_revision.wrapping_add(1);
    }

    /// Append a contour and select all of its points.
    pub fn push_path_and_select(&mut self, path: Path<P>)
        ensures
            final(self)@.paths == old(self)@.paths.push(path@),
            final(self)@.selection == point_id_set(path.points@),
            final(self)@.edit_revision == next_revision(old(self)@.edit_revision),
    {
        let selection = select_all(&path.points);
        self.paths.push(path);
        self.selection = selection;
        self.bump_edit_revision();
        assert(paths_view(self.paths@) =~= paths_view(old(self).paths@).push(path@));
    }

    /// Replace every contour with those a tool produced, clearing the
    /// selection; an empty list changes nothing and returns `false`.
    pub fn replace_paths_from_tool(&mut self, paths: Vec<Path<P>>) -> (r: bool)
        ensures
            r == (paths@.len() > 0),
            !r ==> final(self)@ == old(self)@,
            r ==> final(self)@.paths == paths_view(paths@) && final(self)@.selection == Set::<
                EntityId,
            >::empty() && final(self)@.edit_revision == next_revision(old(self)@.edit_revision),
    {
        if paths.len() == 0 {
            return false;
        }
        self.paths = paths;
        self.selection = Selection::new();
        self.bump_edit_revision();
        true
    }

    /// Remove the contour at `path_index` and clear the selection; an index
    /// past the end changes nothing and returns `false`.
    pub fn remove_tool_path(&mut self, path_index: usize) -> (r: bool)
        ensures
            r == (path_index < old(self)@.paths.len()),
            !r ==> final(self)@ == old(self)@,
            r ==> final(self)@.paths == old(self)@.paths.remove(path_index as int)
                && final(self)@.selection == Set::<EntityId>::empty() && final(self)@.edit_revision
                == next_revision(old(self)@.edit_revision),
    {
        if path_index >= self.paths.len() {
            return false;
        }
        let ghost before = self.paths@;
        self.paths.remove(path_index);
        self.selection = Selection::new();
        self.bump_edit_revision();
        assert(paths_view(self.paths@) =~= paths_view(before).remove(path_index as int));
        true
    }

    /// Swap the contour at `path_index` with the one before it (`delta`
    /// negative) or after it, clearing the selection. Nothing changes and
    /// `false` is returned when there are fewer than two contours or either
    /// index is out of range.
    pub fn move_contour(&mut self, path_index: usize, delta: isize) -> (r: bool)
        ensures
            ({
                let n = old(self)@.paths.len();
                let other = if delta < 0 { path_index - 1 } else { path_index + 1 };
                r == (n >= 2 && path_index < n && 0 <= other < n)
            }),
            !r ==> final(self)@ == old(self)@,
            r ==> ({
                let s = old(self)@.paths;
                let other = if delta < 0 { path_index - 1 } else { path_index + 1 };
                &&& final(self)@.paths == s.update(path_index as int, s[other]).update(other, s[path_index as int])
                &&& final(self)@.selection == Set::<EntityId>::empty()
                &&& final(self)@.edit_revision == next_revision(old(self)@.edit_revision)
            }),
    {
        if self.paths.len() < 2 {
            return false;
        }
        let next = if delta < 0 {
            path_index.checked_sub(1)
        } else {
            path_index.checked_add(1)
        };
        let next = match next {
            Some(n) => n,
            None => return false,
        };
        if path_index >= self.paths.len() || next >= self.paths.len() {
            return false;
        }
        let ghost s = self.paths@;
        let (lo, hi) = if path_index < next { (path_index, next) } else { (next, path_index) };
        let upper = self.paths.remove(hi);
        self.paths.insert(lo, upper);
        self.selection = Selection::new();
        self.bump_edit_revision();
        assert(paths_view(self.paths@) =~= paths_view(s).update(path_index as int, paths_view(s)[next as int]).update(
            next as int,
            paths_view(s)[path_index as int],
        ));
        true
    }

    /// Reverse the point order of every contour; `false` when there are none.
    pub fn reverse_contours(&mut self) -> (r: bool)
        ensures
            r == (old(self)@.paths.len() > 0),
            !r ==> final(self)@ == old(self)@,
            r ==> final(self)@.paths == old(self)@.paths.map_values(|p: PathView<P>| reversed_path(p))
                && final(self)@.selection == old(self)@.selection && final(self)@.edit_revision
                == next_revision(old(self)@.edit_revision),
    {
        if self.paths.len() == 0 {
            return false;
        }
        let ghost orig = self.paths@;
        let mut i: usize = 0;
        while i < self.paths.len()
            invariant
                i <= self.paths@.len() == orig.len(),
                forall|j: int| 0 <= j < i ==> #[trigger] self.paths@[j]@ == (PathView {
                    points: orig[j]@.points.reverse(),
                    ..orig[j]@
                }),
                forall|j: int| i <= j < orig.len() ==> self.paths@[j] == orig[j],
                self.selection == old(self).selection,
                self.edit_revision == old(self).edit_revision,
                orig == old(self).paths@,
            decreases orig.len() - i,
        {
            reverse_points(&mut self.paths[i].points);
            i = i + 1;
        }
        self.bump_edit_revision();
        assert(self@.paths =~= paths_view(orig).map_values(|p: PathView<P>| reversed_path(p)));
        true
    }
}

} // verus!

verus! {

/// The ids of the points of a contour, in order.
pub open spec fn ids_of<P>(points: Seq<PathPoint<P>>) -> Seq<EntityId> {
    points.map_values(|p: PathPoint<P>| p.id)
}

/// The ids of every point of every contour, in outline order.
pub open spec fn outline_ids<P>(paths: Seq<PathView<P>>) -> Seq<EntityId>
    decreases paths.len(),
{
    if paths.len() == 0 {
        seq![]
    } else {
        outline_ids(paths.drop_last()) + ids_of(paths.last().points)
    }
}

/// The first position among the first `upto` ids whose entity is selected.
pub open spec fn first_selected_in(ids: Seq<EntityId>, sel: Set<EntityId>, upto: nat) -> Option<nat>
    decreases upto,
{
    if upto == 0 {
        None
    } else {
        match first_selected_in(ids, sel, (upto - 1) as nat) {
            Some(f) => Some(f),
            None => if sel.contains(ids[upto - 1]) {
                Some((upto - 1) as nat)
            } else {
                None
            },
        }
    }
}

/// The last position among the first `upto` ids whose entity is selected.
pub open spec fn last_selected_in(ids: Seq<EntityId>, sel: Set<EntityId>, upto: nat) -> Option<nat>
    decreases upto,
{
    if upto == 0 {
        None
    } else if sel.contains(ids[upto - 1]) {
        Some((upto - 1) as nat)
    } else {
        last_selected_in(ids, sel, (upto - 1) as nat)
    }
}

/// The position the selection moves to when cycling through `ids`: forward,
/// the one after the last selected (wrapping), or the first when nothing is
/// selected; backwards, the one before the first selected (wrapping), or
/// the last when nothing is selected.
pub open spec fn cycle_target(ids: Seq<EntityId>, sel: Set<EntityId>, backwards: bool) -> nat {
    let n = ids.len();
    if backwards {
        match first_selected_in(ids, sel, n) {
            Some(f) => if f == 0 {
                (n - 1) as nat
            } else {
                (f - 1) as nat
            },
            None => (n - 1) as nat,
        }
    } else {
        match last_selected_in(ids, sel, n) {
            Some(l) => ((l + 1) % n) as nat,
            None => 0,
        }
    }
}

/// Whether the contour at `i` exists and is an open cubic contour.
pub open spec fn is_open_cubic<P>(paths: Seq<PathView<P>>, i: int) -> bool {
    0 <= i < paths.len() && paths[i].kind == PathKind::Cubic && !paths[i].closed
}

/// Whether the contour at `i` exists and is a cubic contour.
pub open spec fn is_cubic_at<P>(paths: Seq<PathView<P>>, i: int) -> bool {
    0 <= i < paths.len() && paths[i].kind == PathKind::Cubic
}

/// A point with its position replaced.
pub open spec fn moved_to<P>(p: PathPoint<P>, q: P) -> PathPoint<P> {
    PathPoint { point: q, ..p }
}

/// The position of the last on-curve point among the first `upto`.
pub open spec fn last_on_curve<P>(points: Seq<PathPoint<P>>, upto: nat) -> Option<P>
    decreases upto,
{
    if upto == 0 {
        None
    } else if points[upto - 1].on_curve() {
        Some(points[upto - 1].point)
    } else {
        last_on_curve(points, (upto - 1) as nat)
    }
}

proof fn lemma_outline_ids_step<P>(paths: Seq<PathView<P>>, p: int)
    requires
        0 <= p < paths.len(),
    ensures
        outline_ids(paths.take(p + 1)) == outline_ids(paths.take(p)) + ids_of(paths[p].points),
{
    assert(paths.take(p + 1).drop_last() =~= paths.take(p));
}

fn push_ids<P>(points: &Vec<PathPoint<P>>, out: &mut Vec<EntityId>)
    ensures
        final(out)@ == old(out)@ + ids_of(points@),
{
    let ghost start = out@;
    let mut k: usize = 0;
    while k < points.len()
        invariant
            k <= points@.len(),
            out@ == start + ids_of(points@.take(k as int)),
        decreases points@.len() - k,
    {
        out.push(points[k].id);
        assert(ids_of(points@.take(k as int + 1)) =~= ids_of(points@.take(k as int)).push(points@[k as int].id));
        k = k + 1;
    }
    assert(points@.take(points@.len() as int) =~= points@);
}

impl<P> EditorState<P> {
    /// The ids of all points, in outline order.
    fn all_point_ids(&self) -> (r: Vec<EntityId>)
        ensures
            r@ == outline_ids(self@.paths),
    {
        let mut ids: Vec<EntityId> = Vec::new();
        let mut p: usize = 0;
        let ghost pv = self@.paths;
        assert(outline_ids(pv.take(0)) =~= Seq::<EntityId>::empty());
        while p < self.paths.len()
            invariant
                pv == self@.paths,
                p <= self.paths@.len(),
                ids@ == outline_ids(pv.take(p as int)),
            decreases self.paths@.len() - p,
        {
            proof {
                lemma_outline_ids_step(pv, p as int);
            }
            push_ids(&self.paths[p].points, &mut ids);
            p = p + 1;
        }
        assert(pv.take(pv.len() as int) =~= pv);
        ids
    }

    /// Select the single point after the last selected one in outline order
    /// (wrapping), or before the first selected one when `backwards`; with
    /// nothing selected, the first (or last) point. Returns `false`, changing
    /// nothing, when the outline has no points.
    pub fn cycle_selected_point(&mut self, backwards: bool) -> (r: bool)
        ensures
            r == (outline_ids(old(self)@.paths).len() > 0),
            !r ==> final(self)@ == old(self)@,
            r ==> ({
                let ids = outline_ids(old(self)@.paths);
                &&& final(self)@.paths == old(self)@.paths
                &&& final(self)@.edit_revision == old(self)@.edit_revision
                &&& final(self)@.selection == Set::<EntityId>::empty().insert(
                    ids[cycle_target(ids, old(self)@.selection, backwards) as int],
                )
            }),
    {
        let ids = self.all_point_ids();
        let n = ids.len();
        if n == 0 {
            return false;
        }
        let mut first: Option<usize> = None;
        let mut last: Option<usize> = None;
        let mut i: usize = 0;
        while i < n
            invariant
                n == ids@.len(),
                i <= n,
                first matches Some(f) ==> first_selected_in(ids@, self@.selection, i as nat) == Some(f as nat),
                first is None ==> first_selected_in(ids@, self@.selection, i as nat) is None,
                last matches Some(l) ==> last_selected_in(ids@, self@.selection, i as nat) == Some(l as nat),
                last is None ==> last_selected_in(ids@, self@.selection, i as nat) is None,
                first matches Some(f) ==> f < i,
                last matches Some(l) ==> l < i,
            decreases n - i,
        {
            if self.selection.contains(&ids[i]) {
                if first.is_none() {
                    first = Some(i);
                }
                last = Some(i);
            }
            i = i + 1;
        }
        let target: usize = if backwards {
            match first {
                Some(f) => if f == 0 {
                    n - 1
                } else {
                    f - 1
                },
                None => n - 1,
            }
        } else {
            match last {
                Some(l) => (l + 1) % n,
                None => 0,
            }
        };
        let target_id = ids[target];
        let mut selection = Selection::new();
        selection.insert(target_id);
        self.selection = selection;
        true
    }

    /// Start an open cubic contour with one corner point, select it, and
    /// return the new contour's index.
    pub fn start_pen_path(&mut self, id: EntityId, point: P) -> (r: usize)
        ensures
            r == old(self)@.paths.len(),
            final(self)@.paths == old(self)@.paths.push(
                PathView {
                    kind: PathKind::Cubic,
                    closed: false,
                    points: seq![PathPoint { id, point, typ: PointType::OnCurve { smooth: false } }],
                },
            ),
            final(self)@.selection == Set::<EntityId>::empty().insert(id),
            final(self)@.edit_revision == next_revision(old(self)@.edit_revision),
    {
        let pt = PathPoint { id, point, typ: PointType::OnCurve { smooth: false } };
        let mut points: Vec<PathPoint<P>> = Vec::new();
        points.push(pt);
        let ghost before = self.paths@;
        self.paths.push(Path { kind: PathKind::Cubic, closed: false, points });
        let mut selection = Selection::new();
        selection.insert(id);
        self.selection = selection;
        self.bump_edit_revision();
        assert(paths_view(self.paths@) =~= paths_view(before).push(self.paths@.last()@));
        assert(self.paths@.last()@.points =~= seq![pt]);
        self.paths.len() - 1
    }

    /// Append a corner point to the open cubic contour at `path_index` and
    /// select it alone; `None`, changing nothing, when there is no such
    /// contour or it is closed.
    pub fn append_pen_point(&mut self, path_index: usize, id: EntityId, point: P) -> (r: Option<EntityId>)
        ensures
            r == (if is_open_cubic(old(self)@.paths, path_index as int) {
                Some(id)
            } else {
                None
            }),
            r is None ==> final(self)@ == old(self)@,
            r is Some ==> ({
                let s = old(self)@.paths;
                let pt = PathPoint { id, point, typ: PointType::OnCurve { smooth: false } };
                &&& final(self)@.paths == s.update(
                    path_index as int,
                    PathView { points: s[path_index as int].points.push(pt), ..s[path_index as int] },
                )
                &&& final(self)@.selection == Set::<EntityId>::empty().insert(id)
                &&& final(self)@.edit_revision == next_revision(old(self)@.edit_revision)
            }),
    {
        if path_index >= self.paths.len() || self.paths[path_index].kind != PathKind::Cubic
            || self.paths[path_index].closed {
            return None;
        }
        let ghost before = self.paths@;
        let pt = PathPoint { id, point, typ: PointType::OnCurve { smooth: false } };
        self.paths[path_index].points.push(pt);
        let mut selection = Selection::new();
        selection.insert(id);
        self.selection = selection;
        self.bump_edit_revision();
        assert(paths_view(self.paths@) =~= paths_view(before).update(
            path_index as int,
            PathView { points: paths_view(before)[path_index as int].points.push(pt), ..paths_view(before)[path_index as int] },
        ));
        Some(id)
    }

    /// Close the open cubic contour at `path_index` when it has at least
    /// three points, selecting all of them; otherwise change nothing and
    /// return `false`.
    pub fn close_pen_path(&mut self, path_index: usize) -> (r: bool)
        ensures
            r == (is_open_cubic(old(self)@.paths, path_index as int)
                && old(self)@.paths[path_index as int].points.len() >= 3),
            !r ==> final(self)@ == old(self)@,
            r ==> ({
                let s = old(self)@.paths;
                &&& final(self)@.paths == s.update(path_index as int, PathView { closed: true, ..s[path_index as int] })
                &&& final(self)@.selection == point_id_set(s[path_index as int].points)
                &&& final(self)@.edit_revision == next_revision(old(self)@.edit_revision)
            }),
    {
        if path_index >= self.paths.len() || self.paths[path_index].kind != PathKind::Cubic
            || self.paths[path_index].closed || self.paths[path_index].points.len() < 3 {
            return false;
        }
        let ghost before = self.paths@;
        self.paths[path_index].closed = true;
        let selection = select_all(&self.paths[path_index].points);
        self.selection = selection;
        self.bump_edit_revision();
        assert(paths_view(self.paths@) =~= paths_view(before).update(
            path_index as int,
            PathView { closed: true, ..paths_view(before)[path_index as int] },
        ));
        true
    }

    /// The number of points of the cubic contour at `path_index`.
    pub fn pen_path_len(&self, path_index: usize) -> (r: Option<usize>)
        ensures
            r == (if is_cubic_at(self@.paths, path_index as int) {
                Some(self@.paths[path_index as int].points.len() as usize)
            } else {
                None
            }),
    {
        if path_index >= self.paths.len() || self.paths[path_index].kind != PathKind::Cubic {
            return None;
        }
        Some(self.paths[path_index].points.len())
    }
}

impl<P: Copy> EditorState<P> {
    /// The position of the first point of the cubic contour at `path_index`.
    pub fn pen_path_start(&self, path_index: usize) -> (r: Option<P>)
        ensures
            r == (if is_cubic_at(self@.paths, path_index as int) && self@.paths[path_index as int].points.len() > 0 {
                Some(self@.paths[path_index as int].points[0].point)
            } else {
                None
            }),
    {
        if path_index >= self.paths.len() || self.paths[path_index].kind != PathKind::Cubic
            || self.paths[path_index].points.len() == 0 {
            return None;
        }
        Some(self.paths[path_index].points[0].point)
    }

    /// The position of the last on-curve point of the cubic contour at
    /// `path_index`.
    pub fn pen_path_last_on_curve(&self, path_index: usize) -> (r: Option<P>)
        ensures
            r == (if is_cubic_at(self@.paths, path_index as int) {
                last_on_curve(
                    self@.paths[path_index as int].points,
                    self@.paths[path_index as int].points.len(),
                )
            } else {
                None
            }),
    {
        if path_index >= self.paths.len() || self.paths[path_index].kind != PathKind::Cubic {
            return None;
        }
        let points = &self.paths[path_index].points;
        assert(points@ == self@.paths[path_index as int].points);
        let mut k: usize = points.len();
        while k > 0
            invariant
                k <= points@.len(),
                last_on_curve(points@, points@.len()) == last_on_curve(points@, k as nat),
                is_cubic_at(self@.paths, path_index as int),
                points@ == self@.paths[path_index as int].points,
            decreases k,
        {
            if points[k - 1].is_on_curve() {
                assert(last_on_curve(points@, k as nat) == Some(points@[k - 1].point));
                return Some(points[k - 1].point);
            }
            k = k - 1;
        }
        None
    }

    /// Continue a pen contour with a smooth point: with an open cubic
    /// contour at `path_index`, append the incoming handle, the smooth
    /// on-curve point and the outgoing handle (ids and positions in that
    /// order); otherwise start a new open cubic contour with the smooth point
    /// and its outgoing handle. The points just placed are selected; returns
    /// the contour's index.
    pub fn append_smooth_pen_point(
        &mut self,
        path_index: Option<usize>,
        ids: (EntityId, EntityId, EntityId),
        positions: (P, P, P),
    ) -> (r: usize)
        ensures
            final(self)@.edit_revision == next_revision(old(self)@.edit_revision),
            ({
                let s = old(self)@.paths;
                let incoming = PathPoint { id: ids.0, point: positions.0, typ: PointType::OffCurve { auto: false } };
                let anchor = PathPoint { id: ids.1, point: positions.1, typ: PointType::OnCurve { smooth: true } };
                let outgoing = PathPoint { id: ids.2, point: positions.2, typ: PointType::OffCurve { auto: false } };
                let i = path_index.unwrap();
                if path_index is Some && is_open_cubic(s, i as int) {
                    &&& r == i
                    &&& final(self)@.paths == s.update(
                        i as int,
                        PathView { points: s[i as int].points + seq![incoming, anchor, outgoing], ..s[i as int] },
                    )
                    &&& final(self)@.selection == Set::<EntityId>::empty().insert(ids.0).insert(ids.1).insert(ids.2)
                } else {
                    &&& r == s.len()
                    &&& final(self)@.paths == s.push(
                        PathView { kind: PathKind::Cubic, closed: false, points: seq![anchor, outgoing] },
                    )
                    &&& final(self)@.selection == Set::<EntityId>::empty().insert(ids.1).insert(ids.2)
                }
            }),
    {
        let incoming = PathPoint { id: ids.0, point: positions.0, typ: PointType::OffCurve { auto: false } };
        let anchor = PathPoint { id: ids.1, point: positions.1, typ: PointType::OnCurve { smooth: true } };
        let outgoing = PathPoint { id: ids.2, point: positions.2, typ: PointType::OffCurve { auto: false } };
        let ghost before = self.paths@;
        let extend = match path_index {
            Some(i) => i < self.paths.len() && self.paths[i].kind == PathKind::Cubic && !self.paths[i].closed,
            None => false,
        };
        let mut selection = Selection::new();
        let index = if extend {
            let i = path_index.unwrap();
            self.paths[i].points.push(incoming);
            self.paths[i].points.push(anchor);
            self.paths[i].points.push(outgoing);
            assert(self.paths@[i as int].points@ =~= before[i as int].points@ + seq![incoming, anchor, outgoing]);
            assert(self.paths@.len() == before.len());
            assert(forall|j: int| 0 <= j < before.len() && j != i ==> self.paths@[j] == before[j]);
            selection.insert(ids.0);
            selection.insert(ids.1);
            selection.insert(ids.2);
            assert(paths_view(self.paths@) =~= paths_view(before).update(
                i as int,
                PathView {
                    points: paths_view(before)[i as int].points + seq![incoming, anchor, outgoing],
                    ..paths_view(before)[i as int]
                },
            ));
            i
        } else {
            let mut points: Vec<PathPoint<P>> = Vec::new();
            points.push(anchor);
            points.push(outgoing);
            self.paths.push(Path { kind: PathKind::Cubic, closed: false, points });
            selection.insert(ids.1);
            selection.insert(ids.2);
            assert(self.paths@.last()@.points =~= seq![anchor, outgoing]);
            assert(paths_view(self.paths@) =~= paths_view(before).push(self.paths@.last()@));
            self.paths.len() - 1
        };
        self.selection = selection;
        self.bump_edit_revision();
        index
    }

    /// Move the handles of the last smooth pen point of the cubic contour at
    /// `path_index` to `positions` (incoming handle, on-curve point, outgoing
    /// handle): the last three points when the third from last is off-curve,
    /// else only the last two get the on-curve and outgoing positions.
    /// Returns `false`, changing nothing, when there is no such contour or it
    /// has fewer than two points.
    pub fn update_last_smooth_pen_handles(&mut self, path_index: usize, positions: (P, P, P)) -> (r: bool)
        ensures
            r == (is_cubic_at(old(self)@.paths, path_index as int)
                && old(self)@.paths[path_index as int].points.len() >= 2),
            !r ==> final(self)@ == old(self)@,
            r ==> ({
                let s = old(self)@.paths;
                let pts = s[path_index as int].points;
                let n = pts.len() as int;
                let new_points = if n >= 3 && !pts[n - 3].on_curve() {
                    pts.update(n - 3, moved_to(pts[n - 3], positions.0)).update(
                        n - 2,
                        moved_to(pts[n - 2], positions.1),
                    ).update(n - 1, moved_to(pts[n - 1], positions.2))
                } else {
                    pts.update(n - 2, moved_to(pts[n - 2], positions.1)).update(
                        n - 1,
                        moved_to(pts[n - 1], positions.2),
                    )
                };
                &&& final(self)@.paths == s.update(path_index as int, PathView { points: new_points, ..s[path_index as int] })
                &&& final(self)@.selection == old(self)@.selection
                &&& final(self)@.edit_revision == next_revision(old(self)@.edit_revision)
            }),
    {
        if path_index >= self.paths.len() || self.paths[path_index].kind != PathKind::Cubic
            || self.paths[path_index].points.len() < 2 {
            return false;
        }
        let ghost before = self.paths@;
        let n = self.paths[path_index].points.len();
        if n >= 3 && self.paths[path_index].points[n - 3].is_off_curve() {
            self.paths[path_index].points[n - 3].point = positions.0;
        }
        self.paths[path_index].points[n - 2].point = positions.1;
        self.paths[path_index].points[n - 1].point = positions.2;
        proof {
            let pts = before[path_index as int]@.points;
            let new_points = if n >= 3 && !pts[n - 3].on_curve() {
                pts.update(n - 3, moved_to(pts[n - 3], positions.0)).update(
                    n - 2,
                    moved_to(pts[n - 2], positions.1),
                ).update(n - 1, moved_to(pts[n - 1], positions.2))
            } else {
                pts.update(n - 2, moved_to(pts[n - 2], positions.1)).update(
                    n - 1,
                    moved_to(pts[n - 1], positions.2),
                )
            };
            assert(self.paths@[path_index as int].points@ =~= new_points);
            assert(paths_view(self.paths@) =~= paths_view(before).update(
                path_index as int,
                PathView { points: new_points, ..paths_view(before)[path_index as int] },
            ));
        }
        self.bump_edit_revision();
        true
    }
}

} // verus!

verus! {

/// A contour after deleting the selected points and, in a cubic contour,
/// the partner handles of deleted off-curve points.
pub open spec fn path_after_deletion<P>(p: PathView<P>, sel: Set<EntityId>) -> PathView<P> {
    PathView { points: kept_points(p.points, deleted_ids(p.points, sel, p.kind == PathKind::Cubic)), ..p }
}

/// The contours left after deleting the selected points: each contour
/// without its deleted points, dropped when fewer than two points remain.
pub open spec fn paths_after_deletion<P>(paths: Seq<PathView<P>>, sel: Set<EntityId>) -> Seq<PathView<P>>
    decreases paths.len(),
{
    if paths.len() == 0 {
        seq![]
    } else {
        let rest = paths_after_deletion(paths.drop_last(), sel);
        let q = path_after_deletion(paths.last(), sel);
        if q.points.len() >= 2 {
            rest.push(q)
        } else {
            rest
        }
    }
}

/// Whether deleting the selection changes a contour: it loses points, or
/// it is left with fewer than two and is dropped.
pub open spec fn deletion_changes_path<P>(p: PathView<P>, sel: Set<EntityId>) -> bool {
    let q = path_after_deletion(p, sel);
    q.points.len() < 2 || q.points.len() != p.points.len()
}

/// Whether some on-curve point of a contour is selected.
pub open spec fn has_selected_on_curve<P>(points: Seq<PathPoint<P>>, sel: Set<EntityId>) -> bool {
    exists|j: int| 0 <= j < points.len() && points[j].on_curve() && sel.contains(#[trigger] points[j].id)
}

/// A contour with the smooth flag of each selected on-curve point flipped.
pub open spec fn toggled_path<P>(p: PathView<P>, sel: Set<EntityId>) -> PathView<P> {
    PathView { points: p.points.map_values(|q: PathPoint<P>| toggled(q, sel)), ..p }
}

/// The indices, in order, of the contours among the first `upto` with a
/// selected point.
pub open spec fn selected_path_indices<P>(paths: Seq<PathView<P>>, sel: Set<EntityId>, upto: nat) -> Seq<nat>
    decreases upto,
{
    if upto == 0 {
        seq![]
    } else {
        let r = selected_path_indices(paths, sel, (upto - 1) as nat);
        if has_selected(paths[upto - 1].points, sel) {
            r.push((upto - 1) as nat)
        } else {
            r
        }
    }
}

/// The point indices of a contour that move with the selection.
pub open spec fn move_indices_of<P>(p: PathView<P>, sel: Set<EntityId>, independent: bool) -> Seq<nat> {
    if independent {
        selected_indices_upto(p.points, sel, p.points.len())
    } else {
        move_indices_upto(p.points, sel, p.closed, p.points.len())
    }
}

/// For each contour among the first `upto` with points that move with the
/// selection, its index and those points' indices.
pub open spec fn move_groups<P>(paths: Seq<PathView<P>>, sel: Set<EntityId>, independent: bool, upto: nat) -> Seq<
    (nat, Seq<nat>),
>
    decreases upto,
{
    if upto == 0 {
        seq![]
    } else {
        let r = move_groups(paths, sel, independent, (upto - 1) as nat);
        let m = move_indices_of(paths[upto - 1], sel, independent);
        if m.len() > 0 {
            r.push(((upto - 1) as nat, m))
        } else {
            r
        }
    }
}

/// Whether every on-curve point of a contour is selected.
pub open spec fn all_on_curve_selected<P>(points: Seq<PathPoint<P>>, sel: Set<EntityId>) -> bool {
    forall|j: int| 0 <= j < points.len() && points[j].on_curve() ==> sel.contains(#[trigger] points[j].id)
}

/// What copying the selection takes from a contour: nothing without a
/// selected on-curve point; the whole contour when all its on-curve points
/// are selected; else the selected span as an open contour.
pub open spec fn copied_path<P>(p: PathView<P>, sel: Set<EntityId>) -> Option<PathView<P>> {
    if !has_selected_on_curve(p.points, sel) {
        None
    } else if all_on_curve_selected(p.points, sel) {
        Some(p)
    } else {
        let span = span_points(p.points, sel, p.closed, p.points.len());
        if span.len() > 0 {
            Some(PathView { kind: p.kind, closed: false, points: span })
        } else {
            None
        }
    }
}

/// What copying the selection takes from the first `upto` contours.
pub open spec fn copied_paths<P>(paths: Seq<PathView<P>>, sel: Set<EntityId>, upto: nat) -> Seq<PathView<P>>
    decreases upto,
{
    if upto == 0 {
        seq![]
    } else {
        let r = copied_paths(paths, sel, (upto - 1) as nat);
        match copied_path(paths[upto - 1], sel) {
            Some(q) => r.push(q),
            None => r,
        }
    }
}

proof fn lemma_kept_all<P>(pts: Seq<PathPoint<P>>, removed: Set<EntityId>)
    ensures
        kept_points(pts, removed).len() <= pts.len(),
        kept_points(pts, removed).len() == pts.len() ==> kept_points(pts, removed) == pts,
    decreases pts.len(),
{
    if pts.len() > 0 {
        lemma_kept_all(pts.drop_last(), removed);
        assert(pts.drop_last().push(pts.last()) =~= pts);
    }
}

proof fn lemma_deletion_unchanged<P>(paths: Seq<PathView<P>>, sel: Set<EntityId>)
    requires
        forall|i: int| 0 <= i < paths.len() ==> !deletion_changes_path(#[trigger] paths[i], sel),
    ensures
        paths_after_deletion(paths, sel) == paths,
    decreases paths.len(),
{
    if paths.len() > 0 {
        let last = paths.last();
        assert(!deletion_changes_path(paths[paths.len() - 1], sel));
        lemma_deletion_unchanged(paths.drop_last(), sel);
        lemma_kept_all(last.points, deleted_ids(last.points, sel, last.kind == PathKind::Cubic));
        assert(path_after_deletion(last, sel) == last);
        assert(paths.drop_last().push(last) =~= paths);
    }
}

fn path_has_selected<P>(points: &Vec<PathPoint<P>>, selection: &Selection) -> (r: bool)
    ensures
        r == has_selected(points@, selection@),
{
    let mut j: usize = 0;
    while j < points.len()
        invariant
            j <= points@.len(),
            forall|k: int| 0 <= k < j ==> !selection@.contains(#[trigger] points@[k].id),
        decreases points@.len() - j,
    {
        if selection.contains(&points[j].id) {
            return true;
        }
        j = j + 1;
    }
    false
}

fn path_has_selected_on_curve<P>(points: &Vec<PathPoint<P>>, selection: &Selection) -> (r: bool)
    ensures
        r == has_selected_on_curve(points@, selection@),
{
    let mut j: usize = 0;
    while j < points.len()
        invariant
            j <= points@.len(),
            forall|k: int| 0 <= k < j && points@[k].on_curve() ==> !selection@.contains(#[trigger] points@[k].id),
        decreases points@.len() - j,
    {
        if points[j].is_on_curve() && selection.contains(&points[j].id) {
            return true;
        }
        j = j + 1;
    }
    false
}

fn path_all_on_curve_selected<P>(points: &Vec<PathPoint<P>>, selection: &Selection) -> (r: bool)
    ensures
        r == all_on_curve_selected(points@, selection@),
{
    let mut j: usize = 0;
    while j < points.len()
        invariant
            j <= points@.len(),
            forall|k: int| 0 <= k < j && points@[k].on_curve() ==> selection@.contains(#[trigger] points@[k].id),
        decreases points@.len() - j,
    {
        if points[j].is_on_curve() && !selection.contains(&points[j].id) {
            return false;
        }
        j = j + 1;
    }
    true
}

fn copy_points<P: Copy>(points: &Vec<PathPoint<P>>) -> (r: Vec<PathPoint<P>>)
    ensures
        r@ == points@,
{
    let mut out: Vec<PathPoint<P>> = Vec::new();
    let mut j: usize = 0;
    while j < points.len()
        invariant
            j <= points@.len(),
            out@ == points@.take(j as int),
        decreases points@.len() - j,
    {
        out.push(points[j]);
        assert(out@ =~= points@.take(j as int + 1));
        j = j + 1;
    }
    assert(points@.take(points@.len() as int) =~= points@);
    out
}

impl<P> EditorState<P> {
    /// Flip the smooth flag of every selected on-curve point; returns
    /// whether any point was flipped. Nothing changes when nothing is
    /// selected.
    pub fn toggle_point_type(&mut self) -> (r: bool)
        ensures
            r == (old(self)@.selection != Set::<EntityId>::empty() && exists|i: int|
                0 <= i < old(self)@.paths.len() && has_selected_on_curve(
                    #[trigger] old(self)@.paths[i].points,
                    old(self)@.selection,
                )),
            !r ==> final(self)@ == old(self)@,
            r ==> final(self)@.paths == old(self)@.paths.map_values(
                |p: PathView<P>| toggled_path(p, old(self)@.selection),
            ) && final(self)@.selection == old(self)@.selection && final(self)@.edit_revision
                == next_revision(old(self)@.edit_revision),
    {
        if self.selection.is_empty() {
            return false;
        }
        let ghost orig = self@.paths;
        let ghost sel = self@.selection;
        let mut changed = false;
        let mut i: usize = 0;
        while i < self.paths.len()
            invariant
                i <= self.paths@.len() == orig.len(),
                sel == self@.selection,
                self.selection == old(self).selection,
                self.edit_revision == old(self).edit_revision,
                forall|j: int| 0 <= j < i ==> #[trigger] self.paths@[j]@ == toggled_path(orig[j], sel),
                forall|j: int| i <= j < orig.len() ==> #[trigger] self.paths@[j]@ == orig[j],
                changed == exists|j: int| 0 <= j < i && has_selected_on_curve(#[trigger] orig[j].points, sel),
            decreases orig.len() - i,
        {
            let ghost before = self.paths@[i as int]@;
            assert(before == orig[i as int]);
            let flipped = toggle_point_type_in_points(&mut self.paths[i].points, &self.selection);
            assert(self.paths@[i as int]@.points =~= before.points.map_values(|q: PathPoint<P>| toggled(q, sel)));
            assert(flipped == has_selected_on_curve(orig[i as int].points, sel));
            changed = changed || flipped;
            i = i + 1;
        }
        if changed {
            self.bump_edit_revision();
            assert(self@.paths =~= orig.map_values(|p: PathView<P>| toggled_path(p, sel)));
        } else {
            assert forall|j: int| 0 <= j < orig.len() implies #[trigger] self@.paths[j] == orig[j] by {
                assert(!has_selected_on_curve(orig[j].points, sel));
                assert(self.paths@[j]@.points =~= orig[j].points);
            }
            assert(self@.paths =~= orig);
        }
        changed
    }

    /// The number of contours with a selected point.
    pub fn selected_contour_count(&self) -> (r: usize)
        ensures
            r == selected_path_indices(self@.paths, self@.selection, self@.paths.len()).len(),
    {
        let mut count: usize = 0;
        let mut i: usize = 0;
        while i < self.paths.len()
            invariant
                i <= self.paths@.len(),
                count == selected_path_indices(self@.paths, self@.selection, i as nat).len(),
                count <= i,
            decreases self.paths@.len() - i,
        {
            assert(self@.paths[i as int].points == self.paths@[i as int].points@);
            if path_has_selected(&self.paths[i].points, &self.selection) {
                count = count + 1;
            }
            i = i + 1;
        }
        count
    }

    /// The indices, in order, of the contours with a selected point.
    pub fn selected_point_path_indices(&self) -> (r: Vec<usize>)
        ensures
            nat_seq(r@) == selected_path_indices(self@.paths, self@.selection, self@.paths.len()),
    {
        let mut out: Vec<usize> = Vec::new();
        let mut i: usize = 0;
        assert(nat_seq(out@) =~= Seq::<nat>::empty());
        while i < self.paths.len()
            invariant
                i <= self.paths@.len(),
                nat_seq(out@) == selected_path_indices(self@.paths, self@.selection, i as nat),
            decreases self.paths@.len() - i,
        {
            assert(self@.paths[i as int].points == self.paths@[i as int].points@);
            if path_has_selected(&self.paths[i].points, &self.selection) {
                let ghost before = out@;
                out.push(i);
                assert(nat_seq(out@) =~= nat_seq(before).push(i as nat));
            }
            i = i + 1;
        }
        out
    }

    /// For each contour with points that move with the selection (the
    /// selected points alone when `independent`, else with the handles of
    /// selected on-curve points), its index and those points' indices.
    pub fn selected_point_path_move_indices(&self, independent: bool) -> (r: Vec<(usize, Vec<usize>)>)
        ensures
            ({
                let g = move_groups(self@.paths, self@.selection, independent, self@.paths.len());
                &&& r@.len() == g.len()
                &&& forall|k: int| 0 <= k < g.len() ==> (#[trigger] r@[k]).0 == g[k].0 && nat_seq(r@[k].1@) == g[k].1
            }),
    {
        let mut out: Vec<(usize, Vec<usize>)> = Vec::new();
        let mut i: usize = 0;
        while i < self.paths.len()
            invariant
                i <= self.paths@.len(),
                out@.len() == move_groups(self@.paths, self@.selection, independent, i as nat).len(),
                forall|k: int|
                    0 <= k < out@.len() ==> (#[trigger] out@[k]).0 == move_groups(
                        self@.paths,
                        self@.selection,
                        independent,
                        i as nat,
                    )[k].0 && nat_seq(out@[k].1@) == move_groups(
                        self@.paths,
                        self@.selection,
                        independent,
                        i as nat,
                    )[k].1,
            decreases self.paths@.len() - i,
        {
            assert(self@.paths[i as int] == self.paths@[i as int]@);
            let moved = selected_move_indices(
                self.paths[i].points.as_slice(),
                &self.selection,
                self.paths[i].closed,
                independent,
            );
            if moved.len() > 0 {
                out.push((i, moved));
            }
            i = i + 1;
        }
        out
    }
}

impl<P: Copy> EditorState<P> {
    /// Delete the selected points from their contours, with the partner
    /// handle of each deleted cubic off-curve handle, and drop contours left
    /// with fewer than two points. When anything changed the selection is
    /// cleared and `true` returned; otherwise nothing changes.
    pub fn delete_selection(&mut self) -> (r: bool)
        ensures
            r == (old(self)@.selection != Set::<EntityId>::empty() && exists|i: int|
                0 <= i < old(self)@.paths.len() && deletion_changes_path(
                    #[trigger] old(self)@.paths[i],
                    old(self)@.selection,
                )),
            !r ==> final(self)@ == old(self)@,
            r ==> final(self)@.paths == paths_after_deletion(old(self)@.paths, old(self)@.selection)
                && final(self)@.selection == Set::<EntityId>::empty() && final(self)@.edit_revision
                == next_revision(old(self)@.edit_revision),
    {
        if self.selection.is_empty() {
            return false;
        }
        let ghost orig = self@.paths;
        let ghost sel = self@.selection;
        let mut source: Vec<Path<P>> = Vec::new();
        std::mem::swap(&mut source, &mut self.paths);
        let mut kept: Vec<Path<P>> = Vec::new();
        let mut changed = false;
        let n = source.len();
        let mut k: usize = 0;
        assert(paths_view(source@) =~= orig.skip(0));
        assert(orig.take(0) =~= Seq::<PathView<P>>::empty());
        assert(paths_view(kept@) =~= Seq::<PathView<P>>::empty());
        while k < n
            invariant
                n == orig.len(),
                k <= n,
                source@.len() == n - k,
                paths_view(source@) == orig.skip(k as int),
                paths_view(kept@) == paths_after_deletion(orig.take(k as int), sel),
                changed == exists|i: int| 0 <= i < k && deletion_changes_path(#[trigger] orig[i], sel),
                sel == self.selection@,
                self.selection == old(self).selection,
                self.edit_revision == old(self).edit_revision,
            decreases n - k,
        {
            let ghost src_before = source@;
            let mut path = source.remove(0);
            assert(path@ == orig[k as int]) by {
                assert(paths_view(src_before)[0] == orig.skip(k as int)[0]);
            }
            assert(paths_view(source@) =~= orig.skip(k as int + 1)) by {
                assert forall|j: int| 0 <= j < source@.len() implies paths_view(source@)[j] == orig.skip(
                    k as int + 1,
                )[j] by {
                    assert(source@[j] == src_before[j + 1]);
                    assert(paths_view(src_before)[j + 1] == orig.skip(k as int)[j + 1]);
                }
            }
            let before = path.points.len();
            let is_cubic = path.kind == PathKind::Cubic;
            let keep = retain_points_after_deletion(&mut path.points, &self.selection, is_cubic);
            assert(path@ == path_after_deletion(orig[k as int], sel));
            changed = changed || !keep || path.points.len() != before;
            assert(orig.take(k as int + 1).drop_last() =~= orig.take(k as int));
            let ghost kept_before = kept@;
            if keep {
                kept.push(path);
                assert(paths_view(kept@) =~= paths_view(kept_before).push(path@));
            }
            k = k + 1;
        }
        assert(orig.take(n as int) =~= orig);
        self.paths = kept;
        if changed {
            self.selection = Selection::new();
            self.bump_edit_revision();
        } else {
            proof {
                lemma_deletion_unchanged(orig, sel);
            }
        }
        changed
    }

    /// The contours the selection copies: whole contours whose on-curve
    /// points are all selected, and the selected span (as an open contour)
    /// of those with only some selected; `None` when there are none.
    pub fn copy_selection(&self) -> (r: Option<Vec<Path<P>>>)
        ensures
            ({
                let c = copied_paths(self@.paths, self@.selection, self@.paths.len());
                &&& c.len() == 0 ==> r is None
                &&& c.len() > 0 ==> r is Some && paths_view(r.unwrap()@) == c
            }),
    {
        let mut copied: Vec<Path<P>> = Vec::new();
        let mut i: usize = 0;
        assert(paths_view(copied@) =~= Seq::<PathView<P>>::empty());
        while i < self.paths.len()
            invariant
                i <= self.paths@.len(),
                paths_view(copied@) == copied_paths(self@.paths, self@.selection, i as nat),
            decreases self.paths@.len() - i,
        {
            let path = &self.paths[i];
            assert(self@.paths[i as int] == path@);
            let ghost before = copied@;
            if path_has_selected_on_curve(&path.points, &self.selection) {
                if path_all_on_curve_selected(&path.points, &self.selection) {
                    let points = copy_points(&path.points);
                    copied.push(Path { kind: path.kind, closed: path.closed, points });
                    assert(paths_view(copied@) =~= paths_view(before).push(path@));
                } else {
                    match extract_selected_points(path.points.as_slice(), &self.selection, path.closed) {
                        Some(points) => {
                            copied.push(Path { kind: path.kind, closed: false, points });
                            assert(paths_view(copied@) =~= paths_view(before).push(copied@.last()@));
                        },
                        None => {},
                    }
                }
            }
            i = i + 1;
        }
        if copied.len() == 0 {
            None
        } else {
            Some(copied)
        }
    }
}

} // verus!

verus! {

proof fn lemma_single_selected(ids: Seq<EntityId>, k: int, upto: nat)
    requires
        ids.no_duplicates(),
        0 <= k < ids.len(),
        upto <= ids.len(),
    ensures
        first_selected_in(ids, Set::<EntityId>::empty().insert(ids[k]), upto) == (if k < upto {
            Some(k as nat)
        } else {
            None
        }),
        last_selected_in(ids, Set::<EntityId>::empty().insert(ids[k]), upto) == (if k < upto {
            Some(k as nat)
        } else {
            None
        }),
    decreases upto,
{
    if upto > 0 {
        lemma_single_selected(ids, k, (upto - 1) as nat);
    }
}

/// Cycling the selection forward from a single point and then backwards
/// selects that point again (in an outline whose point ids are distinct).
pub proof fn law_cycle_forward_then_back(ids: Seq<EntityId>, i: nat)
    requires
        ids.no_duplicates(),
        i < ids.len(),
    ensures
        ({
            let j = cycle_target(ids, Set::<EntityId>::empty().insert(ids[i as int]), false);
            &&& j < ids.len()
            &&& cycle_target(ids, Set::<EntityId>::empty().insert(ids[j as int]), true) == i
        }),
{
    let n = ids.len();
    lemma_single_selected(ids, i as int, n);
    let j = cycle_target(ids, Set::<EntityId>::empty().insert(ids[i as int]), false);
    if i + 1 < n {
        assert((i + 1) % n == i + 1) by (nonlinear_arith)
            requires
                i + 1 < n,
        ;
    } else {
        assert((i + 1) % n == 0) by (nonlinear_arith)
            requires
                i + 1 == n,
        ;
    }
    assert(j < n);
    lemma_single_selected(ids, j as int, n);
}

/// Reversing every contour twice restores each contour.
pub proof fn law_reverse_contours_twice<P>(p: PathView<P>)
    ensures
        reversed_path(reversed_path(p)) == p,
{
    assert(p.points.reverse().reverse() =~= p.points);
}

/// Toggling the point type of the same selection twice restores a contour.
pub proof fn law_toggle_twice<P>(p: PathView<P>, sel: Set<EntityId>)
    ensures
        toggled_path(toggled_path(p, sel), sel) == p,
{
    assert(toggled_path(toggled_path(p, sel), sel).points =~= p.points);
}

/// Moving a contour one place and moving it back restores the order.
pub proof fn law_move_contour_back<P>(s: Seq<PathView<P>>, i: int, j: int)
    requires
        0 <= i < s.len(),
        0 <= j < s.len(),
    ensures
        ({
            let once = s.update(i, s[j]).update(j, s[i]);
            once.update(j, once[i]).update(i, once[j]) == s
        }),
{
    let once = s.update(i, s[j]).update(j, s[i]);
    assert(once.update(j, once[i]).update(i, once[j]) =~= s);
}

proof fn lemma_kept_not_removed<P>(pts: Seq<PathPoint<P>>, removed: Set<EntityId>)
    ensures
        forall|j: int|
            0 <= j < kept_points(pts, removed).len() ==> !removed.contains(
                #[trigger] kept_points(pts, removed)[j].id,
            ),
    decreases pts.len(),
{
    if pts.len() > 0 {
        lemma_kept_not_removed(pts.drop_last(), removed);
    }
}

/// After deleting the selection no selected point is left, and every
/// remaining contour has at least two points.
pub proof fn law_deletion_leaves_no_selected_point<P>(paths: Seq<PathView<P>>, sel: Set<EntityId>)
    ensures
        forall|i: int|
            0 <= i < paths_after_deletion(paths, sel).len() ==> (#[trigger] paths_after_deletion(
                paths,
                sel,
            )[i]).points.len() >= 2 && forall|j: int|
                0 <= j < paths_after_deletion(paths, sel)[i].points.len() ==> !sel.contains(
                    #[trigger] paths_after_deletion(paths, sel)[i].points[j].id,
                ),
    decreases paths.len(),
{
    if paths.len() > 0 {
        law_deletion_leaves_no_selected_point(paths.drop_last(), sel);
        let last = paths.last();
        let removed = deleted_ids(last.points, sel, last.kind == PathKind::Cubic);
        lemma_kept_not_removed(last.points, removed);
        assert(sel.subset_of(removed));
    }
}

} // verus!

verus! {

/// A point of a contour that context commands (set start point, reverse)
/// act on.
#[derive(Debug, Clone, Copy)]
pub struct ContourContextTarget<P> {
    pub path_index: usize,
    pub point_index: usize,
    pub point: P,
    pub can_set_start: bool,
}

/// The first selected on-curve point in outline order, as (contour index,
/// point index).
pub open spec fn first_selected_on_curve<P>(paths: Seq<PathView<P>>, sel: Set<EntityId>) -> Option<(nat, nat)> {
    if exists|i: int, j: int| 0 <= i < paths.len() && 0 <= j < paths[i].points.len() && paths[i].points[j].on_curve()
        && sel.contains(#[trigger] paths[i].points[j].id) {
        let (i, j) = choose|i: int, j: int|
            0 <= i < paths.len() && 0 <= j < paths[i].points.len() && paths[i].points[j].on_curve()
                && sel.contains(#[trigger] paths[i].points[j].id) && forall|i2: int, j2: int|
                0 <= i2 < paths.len() && 0 <= j2 < paths[i2].points.len() && paths[i2].points[j2].on_curve()
                    && sel.contains(#[trigger] paths[i2].points[j2].id) ==> i < i2 || (i == i2 && j <= j2);
        Some((i as nat, j as nat))
    } else {
        None
    }
}

/// A contour rotated so that point `k` comes first.
pub open spec fn rotated_path<P>(p: PathView<P>, k: int) -> PathView<P> {
    PathView { points: p.points.subrange(k, p.points.len() as int) + p.points.subrange(0, k), ..p }
}

impl<P: Copy> EditorState<P> {
    /// The first selected on-curve point in outline order, with whether it
    /// could become its closed contour's start point.
    pub fn first_selected_on_curve_point(&self) -> (r: Option<ContourContextTarget<P>>)
        ensures
            match first_selected_on_curve(self@.paths, self@.selection) {
                None => r is None,
                Some((i, j)) => r is Some && ({
                    let t = r.unwrap();
                    &&& t.path_index == i
                    &&& t.point_index == j
                    &&& t.point == self@.paths[i as int].points[j as int].point
                    &&& t.can_set_start == (j != 0 && self@.paths[i as int].closed)
                }),
            },
    {
        let ghost pv = self@.paths;
        let ghost sel = self@.selection;
        let mut i: usize = 0;
        while i < self.paths.len()
            invariant
                pv == self@.paths,
                sel == self@.selection,
                i <= pv.len(),
                forall|a: int, b: int|
                    0 <= a < i && 0 <= b < pv[a].points.len() && pv[a].points[b].on_curve() ==> !sel.contains(
                        #[trigger] pv[a].points[b].id,
                    ),
            decreases pv.len() - i,
        {
            let path = &self.paths[i];
            assert(pv[i as int] == path@);
            let mut j: usize = 0;
            while j < path.points.len()
                invariant
                    pv == self@.paths,
                    sel == self@.selection,
                    i < pv.len(),
                    pv[i as int] == path@,
                    j <= path.points@.len(),
                    forall|a: int, b: int|
                        0 <= a < i && 0 <= b < pv[a].points.len() && pv[a].points[b].on_curve() ==> !sel.contains(
                            #[trigger] pv[a].points[b].id,
                        ),
                    forall|b: int|
                        0 <= b < j && pv[i as int].points[b].on_curve() ==> !sel.contains(
                            #[trigger] pv[i as int].points[b].id,
                        ),
                decreases path.points@.len() - j,
            {
                if path.points[j].is_on_curve() && self.selection.contains(&path.points[j].id) {
                    proof {
                        let w = (i as int, j as int);
                        assert(pv[w.0].points[w.1].on_curve() && sel.contains(pv[w.0].points[w.1].id));
                        let c = choose|a: int, b: int|
                            0 <= a < pv.len() && 0 <= b < pv[a].points.len() && pv[a].points[b].on_curve()
                                && sel.contains(#[trigger] pv[a].points[b].id) && forall|a2: int, b2: int|
                                0 <= a2 < pv.len() && 0 <= b2 < pv[a2].points.len() && pv[a2].points[b2].on_curve()
                                    && sel.contains(#[trigger] pv[a2].points[b2].id) ==> a < a2 || (a == a2 && b
                                    <= b2);
                        assert forall|a2: int, b2: int|
                            0 <= a2 < pv.len() && 0 <= b2 < pv[a2].points.len() && pv[a2].points[b2].on_curve()
                                && sel.contains(#[trigger] pv[a2].points[b2].id) implies w.0 < a2 || (w.0 == a2
                            && w.1 <= b2) by {}
                        assert(c.0 <= w.0 && (c.0 == w.0 ==> c.1 <= w.1));
                        assert(c == w);
                    }
                    return Some(
                        ContourContextTarget {
                            path_index: i,
                            point_index: j,
                            point: path.points[j].point,
                            can_set_start: j != 0 && path.closed,
                        },
                    );
                }
                j = j + 1;
            }
            i = i + 1;
        }
        None
    }

    /// Make point `point_index` the start of the closed contour at
    /// `path_index` by rotating its points; returns `false`, changing
    /// nothing, when there is no such contour or point, the contour is open,
    /// or the point already starts it.
    pub fn set_start_point(&mut self, path_index: usize, point_index: usize) -> (r: bool)
        ensures
            r == (path_index < old(self)@.paths.len() && old(self)@.paths[path_index as int].closed && 0
                < point_index < old(self)@.paths[path_index as int].points.len()),
            !r ==> final(self)@ == old(self)@,
            r ==> final(self)@.paths == old(self)@.paths.update(
                path_index as int,
                rotated_path(old(self)@.paths[path_index as int], point_index as int),
            ) && final(self)@.selection == old(self)@.selection && final(self)@.edit_revision
                == next_revision(old(self)@.edit_revision),
    {
        if path_index >= self.paths.len() || !self.paths[path_index].closed || point_index == 0
            || point_index >= self.paths[path_index].points.len() {
            return false;
        }
        let ghost before = self.paths@;
        let n = self.paths[path_index].points.len();
        let mut rotated: Vec<PathPoint<P>> = Vec::new();
        let mut j: usize = point_index;
        while j < n
            invariant
                point_index <= j <= n,
                n == self.paths@[path_index as int].points@.len(),
                path_index < self.paths@.len(),
                rotated@ == self.paths@[path_index as int].points@.subrange(point_index as int, j as int),
            decreases n - j,
        {
            rotated.push(self.paths[path_index].points[j]);
            j = j + 1;
        }
        let mut k: usize = 0;
        while k < point_index
            invariant
                k <= point_index < n,
                n == self.paths@[path_index as int].points@.len(),
                path_index < self.paths@.len(),
                rotated@ == self.paths@[path_index as int].points@.subrange(point_index as int, n as int)
                    + self.paths@[path_index as int].points@.subrange(0, k as int),
            decreases point_index - k,
        {
            rotated.push(self.paths[path_index].points[k]);
            k = k + 1;
        }
        self.paths[path_index].points = rotated;
        self.bump_edit_revision();
        assert(paths_view(self.paths@) =~= paths_view(before).update(
            path_index as int,
            rotated_path(paths_view(before)[path_index as int], point_index as int),
        ));
        true
    }

    /// Reverse the points of the contour at `path_index`; `false`, changing
    /// nothing, when there is no such contour.
    pub fn reverse_contour(&mut self, path_index: usize) -> (r: bool)
        ensures
            r == (path_index < old(self)@.paths.len()),
            !r ==> final(self)@ == old(self)@,
            r ==> final(self)@.paths == old(self)@.paths.update(
                path_index as int,
                reversed_path(old(self)@.paths[path_index as int]),
            ) && final(self)@.selection == old(self)@.selection && final(self)@.edit_revision
                == next_revision(old(self)@.edit_revision),
    {
        if path_index >= self.paths.len() {
            return false;
        }
        let ghost before = self.paths@;
        reverse_points(&mut self.paths[path_index].points);
        self.bump_edit_revision();
        assert(paths_view(self.paths@) =~= paths_view(before).update(
            path_index as int,
            reversed_path(paths_view(before)[path_index as int]),
        ));
        true
    }
}

} // verus!

verus! {

/// Contour `k` of a clipboard as pasted: closed, with each point given the
/// next unused fresh id (the clipboard's points take the fresh ids in
/// outline order).
pub open spec fn pasted_path<P>(clip: Seq<PathView<P>>, fresh: Seq<EntityId>, k: int) -> PathView<P> {
    let base = outline_ids(clip.take(k)).len() as int;
    PathView {
        kind: clip[k].kind,
        closed: true,
        points: Seq::new(
            clip[k].points.len(),
            |j: int| PathPoint { id: fresh[base + j], ..clip[k].points[j] },
        ),
    }
}

/// The contours of a clipboard as pasted.
pub open spec fn pasted_paths<P>(clip: Seq<PathView<P>>, fresh: Seq<EntityId>) -> Seq<PathView<P>> {
    Seq::new(clip.len(), |k: int| pasted_path(clip, fresh, k))
}

impl<P: Copy> EditorState<P> {
    /// Append copies of the clipboard's contours, each closed and with its
    /// points given `fresh_ids` in outline order, and select exactly the new
    /// points; an empty clipboard changes nothing and returns `false`.
    pub fn paste_paths(&mut self, clipboard: &[Path<P>], fresh_ids: &[EntityId]) -> (r: bool)
        requires
            fresh_ids@.len() == outline_ids(paths_view(clipboard@)).len(),
            fresh_ids@.no_duplicates(),
            forall|i: int|
                0 <= i < fresh_ids@.len() ==> !outline_ids(old(self)@.paths).contains(#[trigger] fresh_ids@[i]),
        ensures
            r == (clipboard@.len() > 0),
            !r ==> final(self)@ == old(self)@,
            r ==> final(self)@.paths == old(self)@.paths + pasted_paths(paths_view(clipboard@), fresh_ids@)
                && final(self)@.selection == fresh_ids@.to_set() && final(self)@.edit_revision
                == next_revision(old(self)@.edit_revision),
            r ==> outline_ids(final(self)@.paths) == outline_ids(old(self)@.paths) + fresh_ids@,
            outline_ids(old(self)@.paths).no_duplicates() ==> outline_ids(final(self)@.paths).no_duplicates(),
    {
        if clipboard.len() == 0 {
            return false;
        }
        let ghost clip = paths_view(clipboard@);
        let ghost fresh = fresh_ids@;
        let ghost start = self@.paths;
        let mut selection = Selection::new();
        let total = fresh_ids.len();
        let mut used: usize = 0;
        let mut k: usize = 0;
        assert(outline_ids(clip.take(0)) =~= Seq::<EntityId>::empty());
        assert(self@.paths =~= start + pasted_paths(clip.take(0), fresh));
        while k < clipboard.len()
            invariant
                clip == paths_view(clipboard@),
                fresh == fresh_ids@,
                fresh.len() == outline_ids(clip).len(),
                total == fresh.len(),
                k <= clip.len(),
                used == outline_ids(clip.take(k as int)).len(),
                used <= fresh.len(),
                selection@ == Set::new(|id: EntityId| exists|m: int| 0 <= m < used && fresh[m] == id),
                self@.paths.len() == start.len() + k,
                forall|a: int| 0 <= a < start.len() ==> #[trigger] self@.paths[a] == start[a],
                forall|a: int| 0 <= a < k ==> #[trigger] self@.paths[start.len() + a] == pasted_path(clip, fresh, a),
                self.selection == old(self).selection,
                self.edit_revision == old(self).edit_revision,
                start == old(self)@.paths,
            decreases clip.len() - k,
        {
            proof {
                lemma_outline_ids_step(clip, k as int);
                lemma_outline_ids_prefix_len(clip, k as int + 1);
            }
            let source = &clipboard[k];
            assert(clip[k as int] == source@);
            let mut points: Vec<PathPoint<P>> = Vec::new();
            let mut j: usize = 0;
            while j < source.points.len()
                invariant
                    fresh == fresh_ids@,
                    total == fresh.len(),
                    used + source.points@.len() <= fresh.len(),
                    j <= source.points@.len(),
                    points@.len() == j,
                    forall|b: int|
                        0 <= b < j ==> #[trigger] points@[b] == (PathPoint {
                            id: fresh[used + b],
                            ..source.points@[b]
                        }),
                    selection@ == Set::new(|id: EntityId| exists|m: int| 0 <= m < used + j && fresh[m] == id),
                decreases source.points@.len() - j,
            {
                let id = fresh_ids[used + j];
                let ghost before = selection@;
                selection.insert(id);
                assert(selection@ =~= Set::new(
                    |x: EntityId| exists|m: int| 0 <= m < used + j + 1 && fresh[m] == x,
                )) by {
                    assert forall|x: EntityId| selection@.contains(x) implies exists|m: int|
                        0 <= m < used + j + 1 && fresh[m] == x by {
                        if x == id {
                            assert(fresh[used + j] == x);
                        } else {
                            assert(before.contains(x));
                        }
                    }
                }
                let p = source.points[j];
                points.push(PathPoint { id, point: p.point, typ: p.typ });
                j = j + 1;
            }
            let ghost before_paths = self@.paths;
            self.paths.push(Path { kind: source.kind, closed: true, points });
            assert(self@.paths =~= before_paths.push(self.paths@.last()@));
            assert(self.paths@.last()@ == pasted_path(clip, fresh, k as int)) by {
                assert(self.paths@.last()@.points =~= pasted_path(clip, fresh, k as int).points);
            }
            used = used + source.points.len();
            k = k + 1;
        }
        proof {
            assert(clip.take(clip.len() as int) =~= clip);
            assert(fresh.to_set() =~= selection@);
            assert forall|a: int| 0 <= a < self@.paths.len() implies #[trigger] self@.paths[a] == (start
                + pasted_paths(clip, fresh))[a] by {
                if a >= start.len() {
                    assert(self@.paths[start.len() + (a - start.len())] == pasted_path(clip, fresh, a - start.len()));
                }
            }
            assert(self@.paths =~= start + pasted_paths(clip, fresh));
            lemma_outline_ids_concat(start, pasted_paths(clip, fresh));
            law_paste_uses_fresh_ids_in_order(clip, fresh);
            lemma_no_duplicates_concat(outline_ids(start), fresh);
        }
        self.selection = selection;
        self.bump_edit_revision();
        true
    }
}

proof fn lemma_outline_ids_prefix_len<P>(paths: Seq<PathView<P>>, k: int)
    requires
        0 <= k <= paths.len(),
    ensures
        outline_ids(paths.take(k)).len() <= outline_ids(paths).len(),
    decreases paths.len() - k,
{
    if k < paths.len() {
        lemma_outline_ids_step(paths, k);
        lemma_outline_ids_prefix_len(paths, k + 1);
    } else {
        assert(paths.take(k) =~= paths);
    }
}

} // verus!

verus! {

/// The ids of the points of the segment from `start` to `end`.
pub open spec fn segment_ids<P>(points: Seq<PathPoint<P>>, start: nat, end: nat) -> Seq<EntityId> {
    segment_indices(points.len(), start, end).map_values(|i: nat| points[i as int].id)
}

/// The ids of the points of the segment from `start` to `end`, both
/// included, going forward around the contour.
pub fn segment_point_ids<P>(points: &Vec<PathPoint<P>>, start: usize, end: usize) -> (r: Vec<EntityId>)
    ensures
        r@ == segment_ids(points@, start as nat, end as nat),
{
    let indices = segment_point_indices(points.len(), start, end);
    let ghost target = segment_indices(points@.len(), start as nat, end as nat);
    let ghost sids = segment_ids(points@, start as nat, end as nat);
    assert(forall|k: int| 0 <= k < target.len() ==> #[trigger] target[k] < points@.len());
    assert(sids.len() == target.len() && target.len() == indices@.len()) by {
        assert(indices@.map_values(|i: usize| i as nat).len() == indices@.len());
    }
    let mut out: Vec<EntityId> = Vec::new();
    let mut k: usize = 0;
    while k < indices.len()
        invariant
            indices@.map_values(|i: usize| i as nat) == target,
            forall|m: int| 0 <= m < target.len() ==> #[trigger] target[m] < points@.len(),
            k <= indices@.len(),
            out@ == segment_ids(points@, start as nat, end as nat).take(k as int),
            sids == segment_ids(points@, start as nat, end as nat),
            sids.len() == indices@.len(),
            target == segment_indices(points@.len(), start as nat, end as nat),
        decreases indices@.len() - k,
    {
        assert(indices@.map_values(|i: usize| i as nat)[k as int] == indices@[k as int] as nat);
        assert(sids[k as int] == points@[target[k as int] as int].id);
        out.push(points[indices[k]].id);
        assert(out@ =~= segment_ids(points@, start as nat, end as nat).take(k as int + 1));
        k = k + 1;
    }
    assert(segment_ids(points@, start as nat, end as nat).take(k as int) =~= segment_ids(
        points@,
        start as nat,
        end as nat,
    ));
    out
}

/// How a segment is split by an inserted point: a line at one new on-curve
/// point; a cubic curve into two, by two handles, the on-curve split point
/// and two more handles; a quadratic curve by a handle, the split point and
/// a handle. Each new point comes with its fresh id and position.
pub enum SegmentSplit<P> {
    Line(EntityId, P),
    Cubic([(EntityId, P); 5]),
    Quadratic([(EntityId, P); 3]),
}

/// An off-curve handle.
pub open spec fn handle<P>(e: (EntityId, P)) -> PathPoint<P> {
    PathPoint { id: e.0, point: e.1, typ: PointType::OffCurve { auto: false } }
}

/// A corner on-curve point.
pub open spec fn corner<P>(e: (EntityId, P)) -> PathPoint<P> {
    PathPoint { id: e.0, point: e.1, typ: PointType::OnCurve { smooth: false } }
}

/// Where a point inserted into the segment from `start` to `end` goes: at
/// `end` when the segment runs forward, else just after `start`.
pub open spec fn insert_index(start: nat, end: nat) -> nat {
    if end > start {
        end
    } else {
        start + 1
    }
}

/// The points of a contour after splitting the segment from `start` to
/// `end`; `None` when the split does not fit the contour's kind.
pub open spec fn split_points<P>(p: PathView<P>, start: nat, end: nat, split: SegmentSplit<P>) -> Option<
    Seq<PathPoint<P>>,
> {
    match split {
        SegmentSplit::Line(id, point) => Some(p.points.insert(insert_index(start, end) as int, corner((id, point)))),
        SegmentSplit::Cubic(a) => if p.kind == PathKind::Cubic {
            Some(
                replaced_interior(
                    p.points,
                    start,
                    end,
                    seq![handle(a@[0]), handle(a@[1]), corner(a@[2]), handle(a@[3]), handle(a@[4])],
                ),
            )
        } else {
            None
        },
        SegmentSplit::Quadratic(a) => if p.kind == PathKind::Quadratic {
            Some(replaced_interior(p.points, start, end, seq![handle(a@[0]), corner(a@[1]), handle(a@[2])]))
        } else {
            None
        },
    }
}

/// The id of the on-curve point a split inserts.
pub open spec fn split_id<P>(split: SegmentSplit<P>) -> EntityId {
    match split {
        SegmentSplit::Line(id, _) => id,
        SegmentSplit::Cubic(a) => a@[2].0,
        SegmentSplit::Quadratic(a) => a@[1].0,
    }
}

/// Whether the segment from `start` to `end` lies within the contour at
/// `path_index`, when there is one.
pub open spec fn segment_in_range<P>(paths: Seq<PathView<P>>, path_index: int, start: nat, end: nat) -> bool {
    0 <= path_index < paths.len() ==> start < paths[path_index].points.len() && end
        < paths[path_index].points.len() && paths[path_index].points.len() + 5 <= usize::MAX
}

/// The ids of the points of the segment from `start` to `end` of the
/// contour at `path_index`; empty when there is no such contour.
pub open spec fn segment_ids_at<P>(paths: Seq<PathView<P>>, path_index: int, start: nat, end: nat) -> Seq<EntityId> {
    if 0 <= path_index < paths.len() {
        segment_ids(paths[path_index].points, start, end)
    } else {
        Seq::<EntityId>::empty()
    }
}

/// Whether every id in `ids` is selected.
pub open spec fn all_selected(ids: Seq<EntityId>, sel: Set<EntityId>) -> bool {
    forall|k: int| 0 <= k < ids.len() ==> sel.contains(#[trigger] ids[k])
}

impl<P: Copy> EditorState<P> {
    /// Select the points of the segment from `start_index` to `end_index`
    /// of the contour at `path_index`. With `extend`, the segment's points
    /// are deselected when all of them were selected (`Some(false)`), else
    /// added to the selection (`Some(true)`); without it they replace the
    /// selection (`Some(true)`). `None`, changing nothing, when there is no
    /// such contour or the segment has no points.
    pub fn select_segment(&mut self, path_index: usize, start_index: usize, end_index: usize, extend: bool) -> (r:
        Option<bool>)
        ensures
            final(self)@.paths == old(self)@.paths,
            final(self)@.edit_revision == old(self)@.edit_revision,
            segment_ids_at(old(self)@.paths, path_index as int, start_index as nat, end_index as nat).len() == 0
                ==> r is None && final(self)@.selection == old(self)@.selection,
            ({
                let ids = segment_ids_at(old(self)@.paths, path_index as int, start_index as nat, end_index as nat);
                let sel = old(self)@.selection;
                &&& ids.len() > 0 && !extend ==> r == Some(true) && final(self)@.selection == ids.to_set()
                &&& ids.len() > 0 && extend && all_selected(ids, sel) ==> r == Some(false)
                    && final(self)@.selection == sel.difference(ids.to_set())
                &&& ids.len() > 0 && extend && !all_selected(ids, sel) ==> r == Some(true)
                    && final(self)@.selection == sel.union(ids.to_set())
            }),
    {
        if path_index >= self.paths.len() {
            return None;
        }
        let ids = segment_point_ids(&self.paths[path_index].points, start_index, end_index);
        assert(self@.paths[path_index as int].points == self.paths@[path_index as int].points@);
        if ids.len() == 0 {
            return None;
        }
        let ghost sel = self.selection@;
        let ghost idv = ids@;
        if extend {
            let mut all = true;
            let mut k: usize = 0;
            while k < ids.len()
                invariant
                    k <= ids@.len(),
                    all == all_selected(ids@.take(k as int), sel),
                    sel == self.selection@,
                decreases ids@.len() - k,
            {
                if !self.selection.contains(&ids[k]) {
                    all = false;
                }
                assert(all_selected(ids@.take(k as int + 1), sel) == (all_selected(ids@.take(k as int), sel)
                    && sel.contains(ids@[k as int]))) by {
                    assert(ids@.take(k as int + 1)[k as int] == ids@[k as int]);
                    if all_selected(ids@.take(k as int), sel) && sel.contains(ids@[k as int]) {
                        assert forall|m: int| 0 <= m < k + 1 implies sel.contains(
                            #[trigger] ids@.take(k as int + 1)[m],
                        ) by {
                            if m < k {
                                assert(ids@.take(k as int + 1)[m] == ids@.take(k as int)[m]);
                            }
                        }
                    }
                    if all_selected(ids@.take(k as int + 1), sel) {
                        assert forall|m: int| 0 <= m < k implies sel.contains(#[trigger] ids@.take(k as int)[m]) by {
                            assert(ids@.take(k as int + 1)[m] == ids@.take(k as int)[m]);
                        }
                    }
                }
                k = k + 1;
            }
            assert(ids@.take(ids@.len() as int) =~= ids@);
            if all {
                let mut k: usize = 0;
                while k < ids.len()
                    invariant
                        k <= ids@.len(),
                        self.paths == old(self).paths,
                        self.edit_revision == old(self).edit_revision,
                        self.selection@ == sel.difference(ids@.take(k as int).to_set()),
                        idv == ids@,
                        all,
                        all == all_selected(ids@, sel),
                    decreases ids@.len() - k,
                {
                    self.selection.remove(&ids[k]);
                    assert(ids@.take(k as int + 1).to_set() =~= ids@.take(k as int).to_set().insert(ids@[k as int]))
                        by {
                        assert(ids@.take(k as int + 1) =~= ids@.take(k as int).push(ids@[k as int]));
                        ids@.take(k as int).lemma_push_to_set_commute(ids@[k as int]);
                    }
                    assert(self.selection@ =~= sel.difference(ids@.take(k as int + 1).to_set()));
                    k = k + 1;
                }
                assert(ids@.take(ids@.len() as int) =~= ids@);
                return Some(false);
            }
            let mut k: usize = 0;
            while k < ids.len()
                invariant
                    k <= ids@.len(),
                    self.paths == old(self).paths,
                    self.edit_revision == old(self).edit_revision,
                    self.selection@ == sel.union(ids@.take(k as int).to_set()),
                    idv == ids@,
                    !all,
                    all == all_selected(ids@, sel),
                decreases ids@.len() - k,
            {
                self.selection.insert(ids[k]);
                assert(ids@.take(k as int + 1).to_set() =~= ids@.take(k as int).to_set().insert(ids@[k as int])) by {
                    assert(ids@.take(k as int + 1) =~= ids@.take(k as int).push(ids@[k as int]));
                    ids@.take(k as int).lemma_push_to_set_commute(ids@[k as int]);
                }
                assert(self.selection@ =~= sel.union(ids@.take(k as int + 1).to_set()));
                k = k + 1;
            }
            assert(ids@.take(ids@.len() as int) =~= ids@);
            return Some(true);
        }
        let mut selection = Selection::new();
        let mut k: usize = 0;
        while k < ids.len()
            invariant
                k <= ids@.len(),
                selection@ == ids@.take(k as int).to_set(),
            decreases ids@.len() - k,
        {
            selection.insert(ids[k]);
            assert(ids@.take(k as int + 1).to_set() =~= ids@.take(k as int).to_set().insert(ids@[k as int])) by {
                assert(ids@.take(k as int + 1) =~= ids@.take(k as int).push(ids@[k as int]));
                ids@.take(k as int).lemma_push_to_set_commute(ids@[k as int]);
            }
            k = k + 1;
        }
        assert(ids@.take(ids@.len() as int) =~= ids@);
        self.selection = selection;
        Some(true)
    }
}

} // verus!

verus! {

impl<P: Copy> EditorState<P> {
    /// Select every point of the contour at `path_index`; `false`, changing
    /// nothing, when there is no such contour or it has no points.
    pub fn select_contour(&mut self, path_index: usize) -> (r: bool)
        ensures
            r == (path_index < old(self)@.paths.len() && old(self)@.paths[path_index as int].points.len() > 0),
            !r ==> final(self)@ == old(self)@,
            r ==> final(self)@.paths == old(self)@.paths && final(self)@.edit_revision == old(self)@.edit_revision
                && final(self)@.selection == point_id_set(old(self)@.paths[path_index as int].points),
    {
        if path_index >= self.paths.len() || self.paths[path_index].points.len() == 0 {
            return false;
        }
        let selection = select_all(&self.paths[path_index].points);
        self.selection = selection;
        true
    }

    /// Turn the line from `start_index` to `end_index` of the cubic contour
    /// at `path_index` into a curve by inserting two handles (fresh ids and
    /// positions in order) where the segment's interior goes, and select the
    /// two handles; `false`, changing nothing, when there is no such cubic
    /// contour.
    pub fn convert_line_to_curve(
        &mut self,
        path_index: usize,
        start_index: usize,
        end_index: usize,
        ids: (EntityId, EntityId),
        positions: (P, P),
    ) -> (r: bool)
        requires
            segment_in_range(old(self)@.paths, path_index as int, start_index as nat, end_index as nat),
        ensures
            r == is_cubic_at(old(self)@.paths, path_index as int),
            !r ==> final(self)@ == old(self)@,
            r ==> ({
                let s = old(self)@.paths;
                let at = insert_index(start_index as nat, end_index as nat) as int;
                let first = handle((ids.0, positions.0));
                let second = handle((ids.1, positions.1));
                &&& final(self)@.paths == s.update(
                    path_index as int,
                    PathView { points: s[path_index as int].points.insert(at, second).insert(at, first), ..s[path_index as int] },
                )
                &&& final(self)@.selection == Set::<EntityId>::empty().insert(ids.0).insert(ids.1)
                &&& final(self)@.edit_revision == next_revision(old(self)@.edit_revision)
            }),
    {
        if path_index >= self.paths.len() || self.paths[path_index].kind != PathKind::Cubic {
            return false;
        }
        let ghost before = self.paths@;
        let first = PathPoint { id: ids.0, point: positions.0, typ: PointType::OffCurve { auto: false } };
        let second = PathPoint { id: ids.1, point: positions.1, typ: PointType::OffCurve { auto: false } };
        let at = if end_index > start_index {
            end_index
        } else {
            start_index + 1
        };
        self.paths[path_index].points.insert(at, second);
        self.paths[path_index].points.insert(at, first);
        let mut selection = Selection::new();
        selection.insert(ids.0);
        selection.insert(ids.1);
        self.selection = selection;
        self.bump_edit_revision();
        assert(paths_view(self.paths@) =~= paths_view(before).update(
            path_index as int,
            PathView {
                points: paths_view(before)[path_index as int].points.insert(at as int, second).insert(at as int, first),
                ..paths_view(before)[path_index as int]
            },
        ));
        true
    }

    /// Split the segment from `start_index` to `end_index` of the contour at
    /// `path_index` (see [`split_points`]) and select the inserted on-curve
    /// point; `false`, changing nothing, when there is no such contour or the
    /// split does not fit its kind.
    pub fn insert_point_on_segment(
        &mut self,
        path_index: usize,
        start_index: usize,
        end_index: usize,
        split: SegmentSplit<P>,
    ) -> (r: bool)
        requires
            segment_in_range(old(self)@.paths, path_index as int, start_index as nat, end_index as nat),
        ensures
            r == (path_index < old(self)@.paths.len() && split_points(
                old(self)@.paths[path_index as int],
                start_index as nat,
                end_index as nat,
                split,
            ) is Some),
            !r ==> final(self)@ == old(self)@,
            r ==> ({
                let s = old(self)@.paths;
                let pts = split_points(s[path_index as int], start_index as nat, end_index as nat, split).unwrap();
                &&& final(self)@.paths == s.update(path_index as int, PathView { points: pts, ..s[path_index as int] })
                &&& final(self)@.selection == Set::<EntityId>::empty().insert(split_id(split))
                &&& final(self)@.edit_revision == next_revision(old(self)@.edit_revision)
            }),
    {
        if path_index >= self.paths.len() {
            return false;
        }
        let ghost before = self.paths@;
        let ghost target = split_points(before[path_index as int]@, start_index as nat, end_index as nat, split);
        let kind = self.paths[path_index].kind;
        let inserted = match split {
            SegmentSplit::Line(id, point) => {
                let at = if end_index > start_index {
                    end_index
                } else {
                    start_index + 1
                };
                self.paths[path_index].points.insert(
                    at,
                    PathPoint { id, point, typ: PointType::OnCurve { smooth: false } },
                );
                id
            },
            SegmentSplit::Cubic(a) => {
                if kind != PathKind::Cubic {
                    return false;
                }
                let mut new_points: Vec<PathPoint<P>> = Vec::new();
                new_points.push(PathPoint { id: a[0].0, point: a[0].1, typ: PointType::OffCurve { auto: false } });
                new_points.push(PathPoint { id: a[1].0, point: a[1].1, typ: PointType::OffCurve { auto: false } });
                new_points.push(PathPoint { id: a[2].0, point: a[2].1, typ: PointType::OnCurve { smooth: false } });
                new_points.push(PathPoint { id: a[3].0, point: a[3].1, typ: PointType::OffCurve { auto: false } });
                new_points.push(PathPoint { id: a[4].0, point: a[4].1, typ: PointType::OffCurve { auto: false } });
                assert(new_points@ =~= seq![handle(a@[0]), handle(a@[1]), corner(a@[2]), handle(a@[3]), handle(a@[4])]);
                replace_segment_interior(&mut self.paths[path_index].points, start_index, end_index, new_points);
                a[2].0
            },
            SegmentSplit::Quadratic(a) => {
                if kind != PathKind::Quadratic {
                    return false;
                }
                let mut new_points: Vec<PathPoint<P>> = Vec::new();
                new_points.push(PathPoint { id: a[0].0, point: a[0].1, typ: PointType::OffCurve { auto: false } });
                new_points.push(PathPoint { id: a[1].0, point: a[1].1, typ: PointType::OnCurve { smooth: false } });
                new_points.push(PathPoint { id: a[2].0, point: a[2].1, typ: PointType::OffCurve { auto: false } });
                assert(new_points@ =~= seq![handle(a@[0]), corner(a@[1]), handle(a@[2])]);
                replace_segment_interior(&mut self.paths[path_index].points, start_index, end_index, new_points);
                a[1].0
            },
        };
        assert(self.paths@[path_index as int].points@ == target.unwrap());
        let mut selection = Selection::new();
        selection.insert(inserted);
        self.selection = selection;
        self.bump_edit_revision();
        assert(paths_view(self.paths@) =~= paths_view(before).update(
            path_index as int,
            PathView { points: target.unwrap(), ..paths_view(before)[path_index as int] },
        ));
        true
    }
}

} // verus!

verus! {

/// Whether `id` is an off-curve handle next to a selected on-curve point
/// among the first `upto` points of a contour.
pub open spec fn is_adjacent_handle<P>(p: PathView<P>, sel: Set<EntityId>, upto: int, id: EntityId) -> bool {
    exists|j: int, k: int|
        0 <= j < upto && j < p.points.len() && p.points[j].on_curve() && sel.contains(#[trigger] p.points[j].id) && (
        prev_index(j as nat, p.points.len(), p.closed) == Some(k as nat) || next_index_of(
            j as nat,
            p.points.len(),
            p.closed,
        ) == Some(k as nat)) && 0 <= k < p.points.len() && !p.points[k].on_curve() && #[trigger] p.points[k].id
            == id
}

/// The points grid snapping acts on: the selection and, when
/// `include_adjacent_handles`, the off-curve handles next to selected
/// on-curve points.
pub open spec fn snap_targets<P>(paths: Seq<PathView<P>>, sel: Set<EntityId>, include_adjacent_handles: bool) -> Set<
    EntityId,
> {
    if include_adjacent_handles {
        sel.union(
            Set::new(
                |id: EntityId|
                    exists|i: int| 0 <= i < paths.len() && is_adjacent_handle(paths[i], sel, paths[i].points.len() as int, id),
            ),
        )
    } else {
        sel
    }
}

impl<P> EditorState<P> {
    /// The points grid snapping acts on (see [`snap_targets`]).
    pub fn snap_target_ids(&self, include_adjacent_handles: bool) -> (r: Selection)
        ensures
            r@ == snap_targets(self@.paths, self@.selection, include_adjacent_handles),
    {
        let mut ids = self.selection.copy();
        if !include_adjacent_handles {
            return ids;
        }
        let ghost pv = self@.paths;
        let ghost sel = self@.selection;
        let mut i: usize = 0;
        while i < self.paths.len()
            invariant
                pv == self@.paths,
                sel == self@.selection,
                i <= pv.len(),
                ids@ == sel.union(
                    Set::new(
                        |id: EntityId|
                            exists|a: int| 0 <= a < i && is_adjacent_handle(pv[a], sel, pv[a].points.len() as int, id),
                    ),
                ),
            decreases pv.len() - i,
        {
            let points = &self.paths[i].points;
            let closed = self.paths[i].closed;
            let n = points.len();
            assert(pv[i as int].points == points@ && pv[i as int].closed == closed);
            let mut j: usize = 0;
            while j < n
                invariant
                    pv == self@.paths,
                    sel == self@.selection,
                    i < pv.len(),
                    pv[i as int].points == points@,
                    pv[i as int].closed == closed,
                    n == points@.len(),
                    j <= n,
                    ids@ == sel.union(
                        Set::new(
                            |id: EntityId|
                                (exists|a: int| 0 <= a < i && is_adjacent_handle(pv[a], sel, pv[a].points.len() as int, id))
                                    || is_adjacent_handle(pv[i as int], sel, j as int, id),
                        ),
                    ),
                decreases n - j,
            {
                let ghost before = ids@;
                let ghost p = pv[i as int];
                if points[j].is_on_curve() && self.selection.contains(&points[j].id) {
                    let prev = previous_index(j, n, closed);
                    let next = next_index(j, n, closed);
                    match prev {
                        Some(k) => if points[k].is_off_curve() {
                            ids.insert(points[k].id);
                        },
                        None => {},
                    }
                    match next {
                        Some(k) => if points[k].is_off_curve() {
                            ids.insert(points[k].id);
                        },
                        None => {},
                    }
                }
                proof {
                    let target = sel.union(
                        Set::new(
                            |id: EntityId|
                                (exists|a: int| 0 <= a < i && is_adjacent_handle(pv[a], sel, pv[a].points.len() as int, id))
                                    || is_adjacent_handle(p, sel, j + 1, id),
                        ),
                    );
                    assert forall|id: EntityId| ids@.contains(id) <==> target.contains(id) by {
                        if is_adjacent_handle(p, sel, j + 1, id) && !is_adjacent_handle(p, sel, j as int, id) {
                            let (jj, kk) = choose|jj: int, kk: int|
                                0 <= jj < j + 1 && jj < p.points.len() && p.points[jj].on_curve() && sel.contains(
                                    #[trigger] p.points[jj].id,
                                ) && (prev_index(jj as nat, p.points.len(), p.closed) == Some(kk as nat)
                                    || next_index_of(jj as nat, p.points.len(), p.closed) == Some(kk as nat)) && 0 <= kk
                                    < p.points.len() && !p.points[kk].on_curve() && #[trigger] p.points[kk].id == id;
                            assert(jj == j);
                        }
                        if ids@.contains(id) && !before.contains(id) {
                            assert(points@[j as int].on_curve() && sel.contains(points@[j as int].id));
                            match prev_index(j as nat, n as nat, closed) {
                                Some(k) => {
                                    if points@[k as int].id == id && !points@[k as int].on_curve() {
                                        assert(is_adjacent_handle(p, sel, j + 1, id));
                                    }
                                },
                                None => {},
                            }
                            match next_index_of(j as nat, n as nat, closed) {
                                Some(k) => {
                                    if points@[k as int].id == id && !points@[k as int].on_curve() {
                                        assert(is_adjacent_handle(p, sel, j + 1, id));
                                    }
                                },
                                None => {},
                            }
                        }
                        if is_adjacent_handle(p, sel, j as int, id) {
                            let (jj, kk) = choose|jj: int, kk: int|
                                0 <= jj < j && jj < p.points.len() && p.points[jj].on_curve() && sel.contains(
                                    #[trigger] p.points[jj].id,
                                ) && (prev_index(jj as nat, p.points.len(), p.closed) == Some(kk as nat)
                                    || next_index_of(jj as nat, p.points.len(), p.closed) == Some(kk as nat)) && 0 <= kk
                                    < p.points.len() && !p.points[kk].on_curve() && #[trigger] p.points[kk].id == id;
                            assert(is_adjacent_handle(p, sel, j + 1, id));
                        }
                    }
                    assert(ids@ =~= target);
                }
                j = j + 1;
            }
            proof {
                let next_target = sel.union(
                    Set::new(
                        |id: EntityId|
                            exists|a: int| 0 <= a < i + 1 && is_adjacent_handle(pv[a], sel, pv[a].points.len() as int, id),
                    ),
                );
                assert forall|id: EntityId| ids@.contains(id) <==> next_target.contains(id) by {
                    if exists|a: int| 0 <= a < i + 1 && is_adjacent_handle(pv[a], sel, pv[a].points.len() as int, id) {
                        let a = choose|a: int| 0 <= a < i + 1 && is_adjacent_handle(pv[a], sel, pv[a].points.len() as int, id);
                        if a < i {
                        } else {
                            assert(a == i);
                        }
                    }
                }
                assert(ids@ =~= next_target);
            }
            i = i + 1;
        }
        ids
    }
}

} // verus!

verus! {

proof fn lemma_paste_prefix<P>(clip: Seq<PathView<P>>, fresh: Seq<EntityId>, k: int)
    requires
        fresh.len() == outline_ids(clip).len(),
        0 <= k <= clip.len(),
    ensures
        outline_ids(pasted_paths(clip, fresh).take(k)) == fresh.take(outline_ids(clip.take(k)).len() as int),
    decreases k,
{
    let pp = pasted_paths(clip, fresh);
    if k == 0 {
        assert(pp.take(0) =~= Seq::<PathView<P>>::empty());
        assert(clip.take(0) =~= Seq::<PathView<P>>::empty());
        assert(fresh.take(0) =~= Seq::<EntityId>::empty());
    } else {
        let m = k - 1;
        lemma_paste_prefix(clip, fresh, m);
        lemma_outline_ids_step(pp, m);
        lemma_outline_ids_step(clip, m);
        lemma_outline_ids_prefix_len(clip, k);
        let base = outline_ids(clip.take(m)).len() as int;
        let n = clip[m].points.len() as int;
        assert(ids_of(pp[m].points) =~= fresh.subrange(base, base + n));
        assert(fresh.take(base) + fresh.subrange(base, base + n) =~= fresh.take(base + n));
    }
}

/// Pasted points take the fresh ids in order: the ids of the pasted
/// contours, read in outline order, are exactly the fresh ids (one per
/// clipboard point).
pub proof fn law_paste_uses_fresh_ids_in_order<P>(clip: Seq<PathView<P>>, fresh: Seq<EntityId>)
    requires
        fresh.len() == outline_ids(clip).len(),
    ensures
        outline_ids(pasted_paths(clip, fresh)) == fresh,
{
    let pp = pasted_paths(clip, fresh);
    lemma_paste_prefix(clip, fresh, clip.len() as int);
    assert(pp.take(clip.len() as int) =~= pp);
    assert(clip.take(clip.len() as int) =~= clip);
    assert(fresh.take(fresh.len() as int) =~= fresh);
}

} // verus!

verus! {

proof fn lemma_outline_ids_concat<P>(a: Seq<PathView<P>>, b: Seq<PathView<P>>)
    ensures
        outline_ids(a + b) == outline_ids(a) + outline_ids(b),
    decreases b.len(),
{
    if b.len() == 0 {
        assert(a + b =~= a);
        assert(outline_ids(a) + outline_ids(b) =~= outline_ids(a));
    } else {
        lemma_outline_ids_concat(a, b.drop_last());
        assert((a + b).drop_last() =~= a + b.drop_last());
        assert((a + b).last() == b.last());
        assert(outline_ids(a + b) =~= outline_ids(a) + outline_ids(b));
    }
}

proof fn lemma_no_duplicates_concat(a: Seq<EntityId>, b: Seq<EntityId>)
    requires
        forall|i: int| 0 <= i < b.len() ==> !a.contains(#[trigger] b[i]),
        b.no_duplicates(),
    ensures
        a.no_duplicates() ==> (a + b).no_duplicates(),
{
    if a.no_duplicates() {
        let c = a + b;
        assert forall|i: int, j: int| 0 <= i < c.len() && 0 <= j < c.len() && i != j implies c[i] != c[j] by {
            if i < a.len() && j >= a.len() {
                assert(c[j] == b[j - a.len()]);
                assert(a.contains(c[i]));
            } else if j < a.len() && i >= a.len() {
                assert(c[i] == b[i - a.len()]);
                assert(a.contains(c[j]));
            } else if i >= a.len() && j >= a.len() {
                assert(c[i] == b[i - a.len()] && c[j] == b[j - a.len()]);
            }
        }
    }
}

} // verus!

verus! {

/// Deleting the selection from a cubic contour leaves neither a selected
/// off-curve handle nor the other handle of its segment: the next point when
/// it is off-curve, otherwise the previous point when that is off-curve
/// (e.g. `[on, off a, off b, on]` with `b` selected leaves `[on, on]`).
pub proof fn law_deletion_takes_partner_handles<P>(p: PathView<P>, sel: Set<EntityId>, i: int)
    requires
        p.kind == PathKind::Cubic,
        0 <= i < p.points.len(),
        sel.contains(p.points[i].id),
        !p.points[i].on_curve(),
    ensures
        ({
            let pts = p.points;
            let next = (i + 1) % (pts.len() as int);
            let prev = if i == 0 { pts.len() - 1 } else { i - 1 };
            let kept = path_after_deletion(p, sel).points;
            &&& !pts[next].on_curve() ==> forall|j: int| 0 <= j < kept.len() ==> (#[trigger] kept[j]).id != pts[next].id
            &&& pts[next].on_curve() && !pts[prev].on_curve() ==> forall|j: int|
                0 <= j < kept.len() ==> (#[trigger] kept[j]).id != pts[prev].id
        }),
{
    law_deleted_handle_takes_its_partner(p.points, sel, i);
    lemma_kept_not_removed(p.points, deleted_ids(p.points, sel, true));
}

} // verus!

verus! {

/// Splitting a forward cubic segment (start before end) keeps the points up
/// to the start and from the end on, and puts between them, in order, the
/// left half's two handles, the on-curve split point, and the right half's
/// two handles, each with the id and position the split gives it.
pub proof fn law_cubic_split_order<P>(p: PathView<P>, start: nat, end: nat, a: [(EntityId, P); 5])
    requires
        p.kind == PathKind::Cubic,
        start < end < p.points.len(),
    ensures
        split_points(p, start, end, SegmentSplit::Cubic(a)) is Some,
        ({
            let q = split_points(p, start, end, SegmentSplit::Cubic(a)).unwrap();
            let s = start as int;
            let n = p.points.len() as int;
            &&& q.len() == n - (end - start - 1) + 5
            &&& forall|j: int| 0 <= j <= s ==> q[j] == p.points[j]
            &&& forall|m: int| 0 <= m < 5 ==> (#[trigger] q[s + 1 + m]).id == a@[m].0 && q[s + 1 + m].point == a@[m].1
            &&& !q[s + 1].on_curve() && !q[s + 2].on_curve() && q[s + 3].on_curve() && !q[s + 4].on_curve()
                && !q[s + 5].on_curve()
            &&& forall|j: int| end <= j < n ==> q[s + 6 + (j - end)] == #[trigger] p.points[j]
        }),
{
    let new = seq![handle(a@[0]), handle(a@[1]), corner(a@[2]), handle(a@[3]), handle(a@[4])];
    law_replace_forward_segment(p.points, start, end, new);
    let q = split_points(p, start, end, SegmentSplit::Cubic(a)).unwrap();
    let s = start as int;
    assert forall|m: int| 0 <= m < 5 implies (#[trigger] q[s + 1 + m]).id == a@[m].0 && q[s + 1 + m].point
        == a@[m].1 by {
        assert(q[s + 1 + m] == new[m]);
    }
    assert forall|j: int| end <= j < p.points.len() implies q[s + 6 + (j - end)] == #[trigger] p.points[j] by {
        assert(q[s + 6 + (j - end)] == p.points.subrange(end as int, p.points.len() as int)[j - end]);
    }
}

/// Splitting a forward quadratic segment keeps the points up to the start
/// and from the end on, and puts between them, in order, the left handle,
/// the on-curve split point and the right handle.
pub proof fn law_quadratic_split_order<P>(p: PathView<P>, start: nat, end: nat, a: [(EntityId, P); 3])
    requires
        p.kind == PathKind::Quadratic,
        start < end < p.points.len(),
    ensures
        split_points(p, start, end, SegmentSplit::Quadratic(a)) is Some,
        ({
            let q = split_points(p, start, end, SegmentSplit::Quadratic(a)).unwrap();
            let s = start as int;
            let n = p.points.len() as int;
            &&& q.len() == n - (end - start - 1) + 3
            &&& forall|j: int| 0 <= j <= s ==> q[j] == p.points[j]
            &&& forall|m: int| 0 <= m < 3 ==> (#[trigger] q[s + 1 + m]).id == a@[m].0 && q[s + 1 + m].point == a@[m].1
            &&& !q[s + 1].on_curve() && q[s + 2].on_curve() && !q[s + 3].on_curve()
            &&& forall|j: int| end <= j < n ==> q[s + 4 + (j - end)] == #[trigger] p.points[j]
        }),
{
    let new = seq![handle(a@[0]), corner(a@[1]), handle(a@[2])];
    law_replace_forward_segment(p.points, start, end, new);
    let q = split_points(p, start, end, SegmentSplit::Quadratic(a)).unwrap();
    let s = start as int;
    assert forall|m: int| 0 <= m < 3 implies (#[trigger] q[s + 1 + m]).id == a@[m].0 && q[s + 1 + m].point
        == a@[m].1 by {
        assert(q[s + 1 + m] == new[m]);
    }
    assert forall|j: int| end <= j < p.points.len() implies q[s + 4 + (j - end)] == #[trigger] p.points[j] by {
        assert(q[s + 4 + (j - end)] == p.points.subrange(end as int, p.points.len() as int)[j - end]);
    }
}

} // verus!

verus! {

/// Splitting a line inserts one corner point, with the split's id and
/// position, right after the segment's start: at the end index of a forward
/// segment, else just after the start; every other point keeps its order.
pub proof fn law_line_split_inserts_one_corner<P>(p: PathView<P>, start: nat, end: nat, id: EntityId, point: P)
    requires
        start < p.points.len(),
        end < p.points.len(),
    ensures
        split_points(p, start, end, SegmentSplit::Line(id, point)) is Some,
        ({
            let q = split_points(p, start, end, SegmentSplit::Line(id, point)).unwrap();
            let at = if end > start { end as int } else { start as int + 1 };
            &&& q.len() == p.points.len() + 1
            &&& q[at] == (PathPoint { id, point, typ: PointType::OnCurve { smooth: false } })
            &&& forall|j: int| 0 <= j < at ==> q[j] == p.points[j]
            &&& forall|j: int| at <= j < p.points.len() ==> q[j + 1] == #[trigger] p.points[j]
        }),
{
}

} // verus!
