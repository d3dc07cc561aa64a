//! Outline point topology: the points of a contour as an ordered list of
//! identified on- and off-curve points, open or closed, and the index and
//! selection logic that editing operations run on them.
//!
//! Point positions are carried as an opaque value `P`; nothing here reads them.

use vstd::prelude::*;

verus! {

/// Identity of an editable entity (a point, a path, an anchor).
#[derive(Debug, Clone, Copy, PartialEq, Eq, Hash, Structural)]
pub struct EntityId(pub u64);

/// The type of an outline point.
#[derive(Debug, Clone, Copy, PartialEq, Eq, Structural)]
pub enum PointType {
    OnCurve { smooth: bool },
    OffCurve { auto: bool },
}

/// A point of a contour.
#[derive(Debug, Clone, Copy)]
pub struct PathPoint<P> {
    pub id: EntityId,
    pub point: P,
    pub typ: PointType,
}

impl<P> PathPoint<P> {
    /// Whether the point is an on-curve point.
    pub open spec fn on_curve(&self) -> bool {
        self.typ is OnCurve
    }

    /// Whether the point is an on-curve point.
    pub fn is_on_curve(&self) -> (r: bool)
        ensures
            r == self.on_curve(),
    {
        match self.typ {
            PointType::OnCurve { .. } => true,
            PointType::OffCurve { .. } => false,
        }
    }

    /// Whether the point is an off-curve handle.
    pub fn is_off_curve(&self) -> (r: bool)
        ensures
            r == !self.on_curve(),
    {
        !self.is_on_curve()
    }
}

/// A set of selected entities.
#[derive(Debug)]
pub struct Selection {
    ids: Vec<EntityId>,
}

impl View for Selection {
    type V = Set<EntityId>;

    closed spec fn view(&self) -> Set<EntityId> {
        self.ids@.to_set()
    }
}

impl Selection {
    /// The selection's invariant: no entity is listed twice.
    #[verifier::type_invariant]
    closed spec fn no_duplicates(&self) -> bool {
        self.ids@.no_duplicates()
    }

    /// The empty selection.
    pub fn new() -> (r: Self)
        ensures
            r@ == Set::<EntityId>::empty(),
    {
        let r = Selection { ids: Vec::new() };
        assert(r.ids@.to_set() =~= Set::<EntityId>::empty());
        r
    }

    /// Whether `id` is selected.
    pub fn contains(&self, id: &EntityId) -> (r: bool)
        ensures
            r == self@.contains(*id),
    {
        let mut i: usize = 0;
        while i < self.ids.len()
            invariant
                i <= self.ids@.len(),
                forall|j: int| 0 <= j < i ==> self.ids@[j] != *id,
            decreases self.ids@.len() - i,
        {
            if self.ids[i] == *id {
                assert(self.ids@.contains(*id));
                return true;
            }
            i = i + 1;
        }
        assert(!self.ids@.contains(*id));
        false
    }

    /// Select `id`; returns whether it was not selected before.
    pub fn insert(&mut self, id: EntityId) -> (r: bool)
        ensures
            final(self)@ == old(self)@.insert(id),
            r == !old(self)@.contains(id),
    {
        proof {
            use_type_invariant(&*self);
        }
        if self.contains(&id) {
            assert(self@.insert(id) =~= self@);
            return false;
        }
        let ghost before = self.ids@;
        proof {
            let after = before.push(id);
            assert(after.to_set() =~= before.to_set().insert(id)) by {
                assert forall|x: EntityId| after.contains(x) <==> (before.contains(x) || x == id) by {
                    if after.contains(x) {
                        let k = choose|k: int| 0 <= k < after.len() && after[k] == x;
                        if k < before.len() {
                            assert(before[k] == x);
                        }
                    }
                    if before.contains(x) {
                        let k = choose|k: int| 0 <= k < before.len() && before[k] == x;
                        assert(after[k] == x);
                    }
                    if x == id {
                        assert(after[before.len() as int] == x);
                    }
                }
            }
            assert forall|a: int, b: int| 0 <= a < b < after.len() implies after[a] != after[b] by {
                if b == before.len() {
                    assert(before[a] == after[a]);
                    assert(before.contains(after[a]));
                }
            }
        }
        let mut ids: Vec<EntityId> = Vec::new();
        std::mem::swap(&mut ids, &mut self.ids);
        ids.push(id);
        self.ids = ids;
        true
    }

    /// Deselect `id`; returns whether it was selected.
    pub fn remove(&mut self, id: &EntityId) -> (r: bool)
        ensures
            final(self)@ == old(self)@.remove(*id),
            r == old(self)@.contains(*id),
    {
        proof {
            use_type_invariant(&*self);
        }
        let mut i: usize = 0;
        while i < self.ids.len()
            invariant
                i <= self.ids@.len(),
                self.ids@ == old(self).ids@,
                self.ids@.no_duplicates(),
                forall|j: int| 0 <= j < i ==> self.ids@[j] != *id,
            decreases self.ids@.len() - i,
        {
            if self.ids[i] == *id {
                let ghost before = self.ids@;
                proof {
                    let after = before.remove(i as int);
                    assert forall|a: int, b: int| 0 <= a < b < after.len() implies after[a] != after[b] by {
                        let a0 = if a < i { a } else { a + 1 };
                        let b0 = if b < i { b } else { b + 1 };
                        assert(after[a] == before[a0]);
                        assert(after[b] == before[b0]);
                    }
                    assert(after.to_set() =~= before.to_set().remove(*id)) by {
                        assert forall|x: EntityId| after.contains(x) <==> (before.contains(x) && x != *id) by {
                            if after.contains(x) {
                                let k = choose|k: int| 0 <= k < after.len() && after[k] == x;
                                let k0 = if k < i { k } else { k + 1 };
                                assert(before[k0] == x);
                                assert(k0 != i);
                            }
                            if before.contains(x) && x != *id {
                                let k = choose|k: int| 0 <= k < before.len() && before[k] == x;
                                assert(k != i);
                                let k1 = if k < i { k } else { k - 1 };
                                assert(after[k1] == x);
                            }
                        }
                    }
                    assert(before.contains(*id)) by {
                        assert(before[i as int] == *id);
                    }
                }
                let mut ids: Vec<EntityId> = Vec::new();
                std::mem::swap(&mut ids, &mut self.ids);
                ids.remove(i);
                self.ids = ids;
                return true;
            }
            i = i + 1;
        }
        assert(!self.ids@.contains(*id));
        assert(self@.remove(*id) =~= self@);
        false
    }

    /// The number of selected entities.
    pub fn len(&self) -> (r: usize)
        ensures
            r == self@.len(),
    {
        proof {
            use_type_invariant(self);
            self.ids@.unique_seq_to_set();
        }
        self.ids.len()
    }

    /// A selection of the same entities.
    pub fn copy(&self) -> (r: Selection)
        ensures
            r@ == self@,
    {
        proof {
            use_type_invariant(self);
        }
        let mut ids: Vec<EntityId> = Vec::new();
        let mut i: usize = 0;
        while i < self.ids.len()
            invariant
                i <= self.ids@.len(),
                ids@ == self.ids@.take(i as int),
            decreases self.ids@.len() - i,
        {
            ids.push(self.ids[i]);
            assert(ids@ =~= self.ids@.take(i as int + 1));
            i = i + 1;
        }
        assert(self.ids@.take(i as int) =~= self.ids@);
        Selection { ids }
    }

    /// Whether nothing is selected.
    pub fn is_empty(&self) -> (r: bool)
        ensures
            r == (self@ == Set::<EntityId>::empty()),
    {
        if self.ids.len() == 0 {
            assert(self@ =~= Set::<EntityId>::empty());
            true
        } else {
            assert(self@.contains(self.ids@[0]));
            false
        }
    }

    /// Deselect everything.
    pub fn clear(&mut self)
        ensures
            final(self)@ == Set::<EntityId>::empty(),
    {
        self.ids = Vec::new();
        assert(self.ids@.to_set() =~= Set::<EntityId>::empty());
    }
}

/// The index before `index` in a contour of `len` points, wrapping to the
/// last point only when the contour is closed.
pub open spec fn prev_index(index: nat, len: nat, closed: bool) -> Option<nat> {
    if index > 0 {
        Some((index - 1) as nat)
    } else if closed && len > 0 {
        Some((len - 1) as nat)
    } else {
        None
    }
}

/// The index after `index` in a contour of `len` points, wrapping to the
/// first point only when the contour is closed.
pub open spec fn next_index_of(index: nat, len: nat, closed: bool) -> Option<nat> {
    if index + 1 < len {
        Some(index + 1)
    } else if closed && len > 0 {
        Some(0)
    } else {
        None
    }
}

/// An optional index as a natural number.
pub open spec fn opt_usize(o: Option<usize>) -> Option<nat> {
    match o {
        Some(v) => Some(v as nat),
        None => None,
    }
}

/// The index before `index`, wrapping only in a closed contour.
pub fn previous_index(index: usize, len: usize, closed: bool) -> (r: Option<usize>)
    ensures
        opt_usize(r) == prev_index(index as nat, len as nat, closed),
{
    if index > 0 {
        Some(index - 1)
    } else if closed && len > 0 {
        Some(len - 1)
    } else {
        None
    }
}

/// The index after `index`, wrapping only in a closed contour.
pub fn next_index(index: usize, len: usize, closed: bool) -> (r: Option<usize>)
    requires
        index < usize::MAX,
    ensures
        opt_usize(r) == next_index_of(index as nat, len as nat, closed),
{
    if index + 1 < len {
        Some(index + 1)
    } else if closed && len > 0 {
        Some(0)
    } else {
        None
    }
}

/// The number of points strictly between `start` and `end` going forward
/// around a closed contour of `len` points.
pub open spec fn between_count(start: nat, end: nat, len: nat) -> nat {
    if len == 0 {
        0
    } else if end > start {
        (end - start - 1) as nat
    } else {
        (len - start - 1 + end) as nat
    }
}

/// The number of points strictly between `start` and `end` going forward
/// around a contour of `len` points.
pub fn points_between_indices(start: usize, end: usize, len: usize) -> (r: usize)
    requires
        len == 0 || end > start || start < len,
    ensures
        r == between_count(start as nat, end as nat, len as nat),
{
    if len == 0 {
        return 0;
    }
    if end > start {
        end - start - 1
    } else {
        len - start - 1 + end
    }
}

/// The indices from `start` to `end`, both included, going forward around a
/// contour of `len` points; empty when either index is out of range.
pub open spec fn segment_indices(len: nat, start: nat, end: nat) -> Seq<nat> {
    if len == 0 || start >= len || end >= len {
        seq![]
    } else {
        let steps: nat = if end >= start { (end - start) as nat } else { (len - start + end) as nat };
        Seq::new(steps + 1, |i: int| ((start + i) % (len as int)) as nat)
    }
}

/// The indices of the points of the segment from `start` to `end`.
pub fn segment_point_indices(len: usize, start: usize, end: usize) -> (r: Vec<usize>)
    ensures
        r@.map_values(|i: usize| i as nat) == segment_indices(len as nat, start as nat, end as nat),
{
    if len == 0 || start >= len || end >= len {
        let r: Vec<usize> = Vec::new();
        assert(r@.map_values(|i: usize| i as nat) =~= segment_indices(len as nat, start as nat, end as nat));
        return r;
    }
    let ghost steps: nat = if end >= start { (end - start) as nat } else { (len - start + end) as nat };
    let ghost target = segment_indices(len as nat, start as nat, end as nat);
    let mut indices: Vec<usize> = Vec::new();
    indices.push(start);
    let mut idx = start;
    let mut k: usize = 0;
    assert(start % len == start) by (nonlinear_arith)
        requires
            start < len,
    ;
    while idx != end
        invariant
            0 < len,
            start < len,
            end < len,
            idx < len,
            k <= steps,
            steps < len,
            steps == (if end >= start { (end - start) as nat } else { (len - start + end) as nat }),
            idx as int == (start + k) % (len as int),
            idx == end <==> k == steps,
            indices@.len() == k + 1,
            target == segment_indices(len as nat, start as nat, end as nat),
            forall|i: int| 0 <= i <= k ==> indices@[i] as int == (start + i) % (len as int),
        decreases steps - k,
    {
        let ghost old_idx = idx;
        idx = (idx + 1) % len;
        k = k + 1;
        proof {
            lemma_mod_step(start as int, k as int - 1, len as int);
            lemma_step_reaches_end(start as int, end as int, len as int, k as int, steps as int);
        }
        indices.push(idx);
        assert forall|i: int| 0 <= i <= k implies indices@[i] as int == (start + i) % (len as int) by {
            if i < k {
            }
        }
    }
    assert(indices@.map_values(|i: usize| i as nat) =~= target);
    indices
}

proof fn lemma_mod_step(start: int, k: int, len: int)
    requires
        len > 0,
        0 <= start,
        0 <= k,
    ensures
        ((start + k) % len + 1) % len == (start + k + 1) % len,
{
    vstd::arithmetic::div_mod::lemma_add_mod_noop(start + k, 1, len);
    if len > 1 {
        vstd::arithmetic::div_mod::lemma_small_mod(1, len as nat);
    } else {
        vstd::arithmetic::div_mod::lemma_mod_bound(start + k + 1, len);
        vstd::arithmetic::div_mod::lemma_mod_bound((start + k) % len + 1, len);
    }
}

proof fn lemma_step_reaches_end(start: int, end: int, len: int, k: int, steps: int)
    requires
        0 <= start < len,
        0 <= end < len,
        0 < k <= steps,
        steps == (if end >= start { end - start } else { len - start + end }),
    ensures
        ((start + k) % len == end) <==> (k == steps),
{
    if end >= start {
        assert(start + k < len);
        vstd::arithmetic::div_mod::lemma_small_mod((start + k) as nat, len as nat);
    } else {
        if start + k < len {
            vstd::arithmetic::div_mod::lemma_small_mod((start + k) as nat, len as nat);
        } else {
            assert(start + k - len < len);
            vstd::arithmetic::div_mod::lemma_mod_sub_multiples_vanish(start + k, len);
            vstd::arithmetic::div_mod::lemma_small_mod((start + k - len) as nat, len as nat);
        }
    }
}

} // verus!

verus! {

/// `s` with `x` appended unless it already holds `x`.
pub open spec fn push_unique(s: Seq<nat>, x: nat) -> Seq<nat> {
    if s.contains(x) { s } else { s.push(x) }
}

/// `s` with neighbour `n` appended when it exists, is an off-curve point
/// and is not listed yet.
pub open spec fn push_off_curve_neighbor<P>(s: Seq<nat>, points: Seq<PathPoint<P>>, n: Option<nat>) -> Seq<nat> {
    match n {
        Some(j) => if !points[j as int].on_curve() { push_unique(s, j) } else { s },
        None => s,
    }
}

/// The indices to move when the selection among the first `upto` points
/// moves: each selected point, followed, for a selected on-curve point, by
/// its off-curve neighbours (before, then after); each index listed once, at
/// its first occurrence.
pub open spec fn move_indices_upto<P>(points: Seq<PathPoint<P>>, sel: Set<EntityId>, closed: bool, upto: nat) -> Seq<nat>
    decreases upto,
{
    if upto == 0 {
        seq![]
    } else {
        let i = (upto - 1) as nat;
        let s = move_indices_upto(points, sel, closed, i);
        if !sel.contains(points[i as int].id) {
            s
        } else {
            let s1 = push_unique(s, i);
            if !points[i as int].on_curve() {
                s1
            } else {
                push_off_curve_neighbor(
                    push_off_curve_neighbor(s1, points, prev_index(i, points.len(), closed)),
                    points,
                    next_index_of(i, points.len(), closed),
                )
            }
        }
    }
}

/// The indices of the selected points among the first `upto`, in order.
pub open spec fn selected_indices_upto<P>(points: Seq<PathPoint<P>>, sel: Set<EntityId>, upto: nat) -> Seq<nat>
    decreases upto,
{
    if upto == 0 {
        seq![]
    } else {
        let i = (upto - 1) as nat;
        let s = selected_indices_upto(points, sel, i);
        if sel.contains(points[i as int].id) { s.push(i) } else { s }
    }
}

/// Indices as natural numbers.
pub open spec fn nat_seq(v: Seq<usize>) -> Seq<nat> {
    v.map_values(|i: usize| i as nat)
}

proof fn lemma_nat_seq_push(v: Seq<usize>, x: usize)
    ensures
        nat_seq(v.push(x)) == nat_seq(v).push(x as nat),
{
    assert(nat_seq(v.push(x)) =~= nat_seq(v).push(x as nat));
}

/// Append `index` unless `indices` already holds it.
pub fn push_unique_index(indices: &mut Vec<usize>, index: usize)
    ensures
        nat_seq(final(indices)@) == push_unique(nat_seq(old(indices)@), index as nat),
{
    let mut i: usize = 0;
    while i < indices.len()
        invariant
            i <= indices@.len(),
            forall|j: int| 0 <= j < i ==> indices@[j] != index,
        decreases indices@.len() - i,
    {
        if indices[i] == index {
            assert(nat_seq(indices@)[i as int] == index as nat);
            assert(nat_seq(indices@).contains(index as nat));
            return;
        }
        i = i + 1;
    }
    assert(!nat_seq(indices@).contains(index as nat));
    let ghost before = indices@;
    indices.push(index);
    proof {
        lemma_nat_seq_push(before, index);
    }
}

/// Whether no index occurs twice.
pub fn all_distinct(indices: &[usize]) -> (r: bool)
    ensures
        r == indices@.no_duplicates(),
{
    let n = indices.len();
    let mut a: usize = 0;
    while a < n
        invariant
            n == indices@.len(),
            a <= n,
            forall|x: int, y: int| 0 <= x < a && x < y < n ==> indices@[x] != indices@[y],
        decreases n - a,
    {
        let mut b: usize = a + 1;
        while b < n
            invariant
                n == indices@.len(),
                a < n,
                a < b <= n,
                forall|y: int| a < y < b ==> indices@[a as int] != indices@[y],
            decreases n - b,
        {
            if indices[a] == indices[b] {
                return false;
            }
            b = b + 1;
        }
        a = a + 1;
    }
    true
}

fn push_off_neighbor<P>(indices: &mut Vec<usize>, points: &[PathPoint<P>], n: Option<usize>)
    requires
        n matches Some(j) ==> j < points@.len(),
    ensures
        nat_seq(final(indices)@) == push_off_curve_neighbor(nat_seq(old(indices)@), points@, opt_usize(n)),
{
    if let Some(j) = n {
        if points[j].is_off_curve() {
            push_unique_index(indices, j);
        }
    }
}

/// The indices to move with the selection (see [`move_indices_upto`]) and
/// the indices of the selected points; `None` when no point is selected.
pub fn selected_and_adjacent_handle_indices<P>(
    points: &[PathPoint<P>],
    selection: &Selection,
    closed: bool,
) -> (r: Option<(Vec<usize>, Vec<usize>)>)
    ensures
        selected_indices_upto(points@, selection@, points@.len()).len() == 0 ==> r.is_none(),
        selected_indices_upto(points@, selection@, points@.len()).len() > 0 ==> r.is_some()
            && nat_seq(r.unwrap().0@) == move_indices_upto(points@, selection@, closed, points@.len())
            && nat_seq(r.unwrap().1@) == selected_indices_upto(points@, selection@, points@.len()),
{
    let mut move_indices: Vec<usize> = Vec::new();
    let mut selected_indices: Vec<usize> = Vec::new();
    let n = points.len();
    let mut i: usize = 0;
    assert(nat_seq(move_indices@) =~= Seq::<nat>::empty());
    while i < n
        invariant
            n == points@.len(),
            i <= n,
            nat_seq(move_indices@) == move_indices_upto(points@, selection@, closed, i as nat),
            nat_seq(selected_indices@) == selected_indices_upto(points@, selection@, i as nat),
        decreases n - i,
    {
        if selection.contains(&points[i].id) {
            push_unique_index(&mut move_indices, i);
            let ghost before_sel = selected_indices@;
            selected_indices.push(i);
            proof {
                lemma_nat_seq_push(before_sel, i);
            }
            if points[i].is_on_curve() {
                push_off_neighbor(&mut move_indices, points, previous_index(i, n, closed));
                push_off_neighbor(&mut move_indices, points, next_index(i, n, closed));
            }
        }
        i = i + 1;
    }
    if selected_indices.len() == 0 {
        None
    } else {
        Some((move_indices, selected_indices))
    }
}

/// The indices to move with the selection: the selected points alone when
/// `independent`, else with the off-curve handles next to selected on-curve
/// points (see [`move_indices_upto`]).
pub fn selected_move_indices<P>(
    points: &[PathPoint<P>],
    selection: &Selection,
    closed: bool,
    independent: bool,
) -> (r: Vec<usize>)
    ensures
        independent ==> nat_seq(r@) == selected_indices_upto(points@, selection@, points@.len()),
        !independent ==> nat_seq(r@) == move_indices_upto(points@, selection@, closed, points@.len()),
{
    if independent {
        let mut out: Vec<usize> = Vec::new();
        let mut i: usize = 0;
        assert(nat_seq(out@) =~= Seq::<nat>::empty());
        while i < points.len()
            invariant
                i <= points@.len(),
                nat_seq(out@) == selected_indices_upto(points@, selection@, i as nat),
            decreases points@.len() - i,
        {
            if selection.contains(&points[i].id) {
                let ghost before = out@;
                out.push(i);
                proof {
                    lemma_nat_seq_push(before, i);
                }
            }
            i = i + 1;
        }
        return out;
    }
    match selected_and_adjacent_handle_indices(points, selection, closed) {
        Some((move_indices, _)) => move_indices,
        None => {
            let out: Vec<usize> = Vec::new();
            proof {
                lemma_no_selection_moves_nothing(points@, selection@, closed, points@.len());
            }
            assert(nat_seq(out@) =~= Seq::<nat>::empty());
            out
        },
    }
}

proof fn lemma_no_selection_moves_nothing<P>(points: Seq<PathPoint<P>>, sel: Set<EntityId>, closed: bool, upto: nat)
    requires
        selected_indices_upto(points, sel, upto).len() == 0,
    ensures
        move_indices_upto(points, sel, closed, upto) == Seq::<nat>::empty(),
    decreases upto,
{
    if upto > 0 {
        let i = (upto - 1) as nat;
        lemma_no_selection_moves_nothing(points, sel, closed, i);
    }
}

} // verus!

verus! {

/// The off-curve point paired with the off-curve point at `i` in a cubic
/// contour: the next point if it is off-curve, else the previous one if it
/// is (both wrapping around the point list).
pub open spec fn partner_index<P>(points: Seq<PathPoint<P>>, i: nat) -> Option<nat> {
    let len = points.len();
    let next = (((i + 1) as int) % (len as int)) as nat;
    let prev = if i == 0 { (len - 1) as nat } else { (i - 1) as nat };
    if !points[next as int].on_curve() {
        Some(next)
    } else if !points[prev as int].on_curve() {
        Some(prev)
    } else {
        None
    }
}

/// `s` with `x` appended unless it already holds `x`.
pub open spec fn push_unique_id(s: Seq<EntityId>, x: EntityId) -> Seq<EntityId> {
    if s.contains(x) { s } else { s.push(x) }
}

/// The ids of the partners of the selected off-curve points among the
/// first `upto`, each once, in the order first met.
pub open spec fn partner_candidates<P>(points: Seq<PathPoint<P>>, sel: Set<EntityId>, upto: nat) -> Seq<EntityId>
    decreases upto,
{
    if upto == 0 {
        seq![]
    } else {
        let i = (upto - 1) as nat;
        let s = partner_candidates(points, sel, i);
        if sel.contains(points[i as int].id) && !points[i as int].on_curve() {
            match partner_index(points, i) {
                Some(j) => push_unique_id(s, points[j as int].id),
                None => s,
            }
        } else {
            s
        }
    }
}

/// The ids of `s` that are not selected, in order.
pub open spec fn unselected_ids(s: Seq<EntityId>, sel: Set<EntityId>) -> Seq<EntityId>
    decreases s.len(),
{
    if s.len() == 0 {
        seq![]
    } else {
        let r = unselected_ids(s.drop_last(), sel);
        if sel.contains(s.last()) { r } else { r.push(s.last()) }
    }
}

/// The ids of the off-curve handles that go with deleted off-curve handles
/// of a cubic contour: the partners of the selected off-curve points that
/// are not selected themselves.
pub open spec fn partner_ids<P>(points: Seq<PathPoint<P>>, sel: Set<EntityId>) -> Seq<EntityId> {
    unselected_ids(partner_candidates(points, sel, points.len()), sel)
}

fn partner_of<P>(points: &[PathPoint<P>], i: usize) -> (r: Option<usize>)
    requires
        i < points@.len(),
    ensures
        opt_usize(r) == partner_index(points@, i as nat),
        r matches Some(j) ==> j < points@.len(),
{
    let len = points.len();
    let next = (i + 1) % len;
    let prev = if i == 0 { len - 1 } else { i - 1 };
    if points[next].is_off_curve() {
        Some(next)
    } else if points[prev].is_off_curve() {
        Some(prev)
    } else {
        None
    }
}

fn vec_contains_id(ids: &Vec<EntityId>, id: EntityId) -> (r: bool)
    ensures
        r == ids@.contains(id),
{
    let mut i: usize = 0;
    while i < ids.len()
        invariant
            i <= ids@.len(),
            forall|j: int| 0 <= j < i ==> ids@[j] != id,
        decreases ids@.len() - i,
    {
        if ids[i] == id {
            assert(ids@[i as int] == id);
            return true;
        }
        i = i + 1;
    }
    false
}

fn push_unique_entity(ids: &mut Vec<EntityId>, id: EntityId)
    ensures
        final(ids)@ == push_unique_id(old(ids)@, id),
{
    if !vec_contains_id(ids, id) {
        ids.push(id);
    }
}

/// The ids of the partner handles to delete with the selected off-curve
/// points of a cubic contour (see [`partner_ids`]).
pub fn cubic_partner_offcurve_ids<P>(points: &[PathPoint<P>], selection: &Selection) -> (r: Vec<EntityId>)
    ensures
        r@ == partner_ids(points@, selection@),
{
    let mut candidates: Vec<EntityId> = Vec::new();
    let n = points.len();
    let mut i: usize = 0;
    while i < n
        invariant
            n == points@.len(),
            i <= n,
            candidates@ == partner_candidates(points@, selection@, i as nat),
        decreases n - i,
    {
        if selection.contains(&points[i].id) && points[i].is_off_curve() {
            if let Some(j) = partner_of(points, i) {
                push_unique_entity(&mut candidates, points[j].id);
            }
        }
        i = i + 1;
    }
    let mut out: Vec<EntityId> = Vec::new();
    let mut k: usize = 0;
    while k < candidates.len()
        invariant
            k <= candidates@.len(),
            out@ == unselected_ids(candidates@.subrange(0, k as int), selection@),
        decreases candidates@.len() - k,
    {
        assert(candidates@.subrange(0, k as int + 1).drop_last() =~= candidates@.subrange(0, k as int));
        let id = candidates[k];
        if !selection.contains(&id) {
            out.push(id);
        }
        k = k + 1;
    }
    assert(candidates@.subrange(0, k as int) =~= candidates@);
    out
}

} // verus!

verus! {

/// A point with its smooth flag flipped when it is a selected on-curve point.
pub open spec fn toggled<P>(p: PathPoint<P>, sel: Set<EntityId>) -> PathPoint<P> {
    match p.typ {
        PointType::OnCurve { smooth } => if sel.contains(p.id) {
            PathPoint { typ: PointType::OnCurve { smooth: !smooth }, ..p }
        } else {
            p
        },
        PointType::OffCurve { .. } => p,
    }
}

/// Flip the smooth flag of every selected on-curve point; returns whether
/// any point was flipped.
pub fn toggle_point_type_in_points<P>(points: &mut Vec<PathPoint<P>>, selection: &Selection) -> (r: bool)
    ensures
        final(points)@.len() == old(points)@.len(),
        forall|i: int| 0 <= i < old(points)@.len() ==> final(points)@[i] == toggled(
            #[trigger] old(points)@[i],
            selection@,
        ),
        r == exists|i: int| 0 <= i < old(points)@.len() && old(points)@[i].on_curve() && selection@.contains(
            #[trigger] old(points)@[i].id,
        ),
{
    let mut changed = false;
    let mut i: usize = 0;
    while i < points.len()
        invariant
            i <= points@.len() == old(points)@.len(),
            forall|j: int| 0 <= j < i ==> points@[j] == toggled(#[trigger] old(points)@[j], selection@),
            forall|j: int| i <= j < points@.len() ==> points@[j] == old(points)@[j],
            changed == exists|j: int| 0 <= j < i && old(points)@[j].on_curve() && selection@.contains(
                #[trigger] old(points)@[j].id,
            ),
        decreases points@.len() - i,
    {
        let selected = selection.contains(&points[i].id);
        match points[i].typ {
            PointType::OnCurve { smooth } => {
                if selected {
                    points[i].typ = PointType::OnCurve { smooth: !smooth };
                    changed = true;
                }
            },
            PointType::OffCurve { .. } => {},
        }
        assert(points@[i as int] == toggled(old(points)@[i as int], selection@));
        i = i + 1;
    }
    changed
}

/// Whether the neighbour `n` exists and is an off-curve point.
pub open spec fn off_curve_at<P>(points: Seq<PathPoint<P>>, n: Option<nat>) -> bool {
    n matches Some(j) && !points[j as int].on_curve()
}

/// A point with its smoothness set from its neighbours: an on-curve point is
/// smooth exactly when off-curve points lie on both sides of it.
pub open spec fn resmoothed<P>(points: Seq<PathPoint<P>>, i: int, closed: bool) -> PathPoint<P> {
    let p = points[i];
    if p.on_curve() {
        PathPoint {
            typ: PointType::OnCurve {
                smooth: off_curve_at(points, prev_index(i as nat, points.len(), closed))
                    && off_curve_at(points, next_index_of(i as nat, points.len(), closed)),
            },
            ..p
        }
    } else {
        p
    }
}

/// Set each on-curve point smooth exactly when off-curve points lie on both
/// sides of it (wrapping around a closed contour).
pub fn fix_on_curve_smoothness<P>(points: &mut Vec<PathPoint<P>>, closed: bool)
    ensures
        final(points)@.len() == old(points)@.len(),
        forall|i: int| 0 <= i < old(points)@.len() ==> #[trigger] final(points)@[i] == resmoothed(
            old(points)@,
            i,
            closed,
        ),
{
    let len = points.len();
    let ghost orig = points@;
    let mut i: usize = 0;
    while i < len
        invariant
            len == points@.len() == orig.len(),
            orig == old(points)@,
            i <= len,
            forall|j: int| 0 <= j < i ==> #[trigger] points@[j] == resmoothed(orig, j, closed),
            forall|j: int| i <= j < len ==> points@[j] == orig[j],
            forall|j: int| 0 <= j < len ==> (#[trigger] points@[j]).on_curve() == orig[j].on_curve(),
        decreases len - i,
    {
        if points[i].is_on_curve() {
            let prev_off = match previous_index(i, len, closed) {
                Some(j) => points[j].is_off_curve(),
                None => false,
            };
            let next_off = match next_index(i, len, closed) {
                Some(j) => points[j].is_off_curve(),
                None => false,
            };
            points[i].typ = PointType::OnCurve { smooth: prev_off && next_off };
        }
        assert(points@[i as int] == resmoothed(orig, i as int, closed));
        i = i + 1;
    }
}

/// The points whose ids are not in `removed`, in order.
pub open spec fn kept_points<P>(points: Seq<PathPoint<P>>, removed: Set<EntityId>) -> Seq<PathPoint<P>>
    decreases points.len(),
{
    if points.len() == 0 {
        seq![]
    } else {
        let r = kept_points(points.drop_last(), removed);
        if removed.contains(points.last().id) { r } else { r.push(points.last()) }
    }
}

/// The ids a deletion removes from a contour: the selected points, and in a
/// cubic contour also the partners of deleted off-curve handles.
pub open spec fn deleted_ids<P>(points: Seq<PathPoint<P>>, sel: Set<EntityId>, cubic: bool) -> Set<EntityId> {
    if cubic {
        sel.union(partner_ids(points, sel).to_set())
    } else {
        sel
    }
}

/// Delete the selected points of a contour (in a cubic contour, with the
/// partner handles of deleted off-curve points); returns whether the contour
/// keeps at least two points.
pub fn retain_points_after_deletion<P: Copy>(points: &mut Vec<PathPoint<P>>, selection: &Selection, cubic: bool) -> (r: bool)
    ensures
        final(points)@ == kept_points(old(points)@, deleted_ids(old(points)@, selection@, cubic)),
        r == (final(points)@.len() >= 2),
{
    let extra: Vec<EntityId> = if cubic {
        cubic_partner_offcurve_ids(points.as_slice(), selection)
    } else {
        Vec::new()
    };
    let ghost removed = deleted_ids(points@, selection@, cubic);
    let ghost orig = points@;
    let mut kept: Vec<PathPoint<P>> = Vec::new();
    let mut source: Vec<PathPoint<P>> = Vec::new();
    std::mem::swap(&mut source, points);
    let n = source.len();
    let mut i: usize = 0;
    while i < n
        invariant
            n == source@.len(),
            source@ == orig,
            i <= n,
            removed == deleted_ids(orig, selection@, cubic),
            cubic ==> extra@ == partner_ids(orig, selection@),
            !cubic ==> extra@.len() == 0,
            kept@ == kept_points(orig.subrange(0, i as int), removed),
        decreases n - i,
    {
        assert(orig.subrange(0, i as int + 1).drop_last() =~= orig.subrange(0, i as int));
        let id = source[i].id;
        let gone = selection.contains(&id) || vec_contains_id(&extra, id);
        assert(gone == removed.contains(id)) by {
            if cubic {
                assert(extra@.contains(id) == partner_ids(orig, selection@).to_set().contains(id));
            } else {
                assert(!extra@.contains(id));
            }
        }
        if !gone {
            kept.push(source[i]);
        }
        i = i + 1;
    }
    assert(orig.subrange(0, n as int) =~= orig);
    *points = kept;
    points.len() >= 2
}

} // verus!

verus! {

/// Whether point `i` exists, is on-curve and is selected.
pub open spec fn on_selected<P>(points: Seq<PathPoint<P>>, sel: Set<EntityId>, i: nat) -> bool {
    i < points.len() && points[i as int].on_curve() && sel.contains(points[i as int].id)
}

/// Whether point `j` belongs to the selected span: a selected on-curve
/// point, or an off-curve handle next to one (wrapping only in a closed
/// contour).
pub open spec fn in_selected_span<P>(points: Seq<PathPoint<P>>, sel: Set<EntityId>, closed: bool, j: nat) -> bool {
    on_selected(points, sel, j) || (!points[j as int].on_curve() && ((prev_index(j, points.len(), closed) matches Some(i)
        && on_selected(points, sel, i)) || (next_index_of(j, points.len(), closed) matches Some(i)
        && on_selected(points, sel, i))))
}

/// The points of the selected span among the first `upto`, in order.
pub open spec fn span_points<P>(points: Seq<PathPoint<P>>, sel: Set<EntityId>, closed: bool, upto: nat) -> Seq<PathPoint<P>>
    decreases upto,
{
    if upto == 0 {
        seq![]
    } else {
        let j = (upto - 1) as nat;
        let r = span_points(points, sel, closed, j);
        if in_selected_span(points, sel, closed, j) { r.push(points[j as int]) } else { r }
    }
}

fn is_on_selected<P>(points: &[PathPoint<P>], selection: &Selection, i: Option<usize>) -> (r: bool)
    requires
        i matches Some(k) ==> k < points@.len(),
    ensures
        r == (i matches Some(k) && on_selected(points@, selection@, k as nat)),
{
    match i {
        Some(k) => points[k].is_on_curve() && selection.contains(&points[k].id),
        None => false,
    }
}

/// The selected on-curve points with their adjacent off-curve handles, as
/// an open run of points; `None` when there are none.
pub fn extract_selected_points<P: Copy>(points: &[PathPoint<P>], selection: &Selection, closed: bool) -> (r: Option<Vec<PathPoint<P>>>)
    ensures
        span_points(points@, selection@, closed, points@.len()).len() == 0 ==> r.is_none(),
        span_points(points@, selection@, closed, points@.len()).len() > 0 ==> r.is_some()
            && r.unwrap()@ == span_points(points@, selection@, closed, points@.len()),
{
    let len = points.len();
    let mut out: Vec<PathPoint<P>> = Vec::new();
    let mut j: usize = 0;
    while j < len
        invariant
            len == points@.len(),
            j <= len,
            out@ == span_points(points@, selection@, closed, j as nat),
        decreases len - j,
    {
        let keep = is_on_selected(points, selection, Some(j)) || (points[j].is_off_curve() && (
        is_on_selected(points, selection, previous_index(j, len, closed)) || is_on_selected(
            points,
            selection,
            next_index(j, len, closed),
        )));
        if keep {
            out.push(points[j]);
        }
        j = j + 1;
    }
    if out.len() == 0 {
        None
    } else {
        Some(out)
    }
}

/// Each off-curve handle next to a selected on-curve point belongs to the
/// selected span, as does the point itself.
pub proof fn law_span_holds_handles<P>(points: Seq<PathPoint<P>>, sel: Set<EntityId>, closed: bool, i: nat)
    requires
        on_selected(points, sel, i),
    ensures
        in_selected_span(points, sel, closed, i),
        forall|j: nat|
            prev_index(i, points.len(), closed) == Some(j) && !points[j as int].on_curve() ==> #[trigger] in_selected_span(
                points,
                sel,
                closed,
                j,
            ),
        forall|j: nat|
            next_index_of(i, points.len(), closed) == Some(j) && !points[j as int].on_curve() ==> #[trigger] in_selected_span(
                points,
                sel,
                closed,
                j,
            ),
{
}

/// The points left after removing `count` times the point just after
/// `start` (its index taken modulo the current length).
pub open spec fn remove_after_start<P>(points: Seq<PathPoint<P>>, start: nat, count: nat) -> Seq<PathPoint<P>>
    decreases count,
{
    if count == 0 || points.len() == 0 {
        points
    } else {
        remove_after_start(
            points.remove(((start + 1) as int) % (points.len() as int)),
            start,
            (count - 1) as nat,
        )
    }
}

/// The points with `new` inserted one after another from index `at`
/// (clamped to the end).
pub open spec fn insert_run<P>(points: Seq<PathPoint<P>>, at: nat, new: Seq<PathPoint<P>>) -> Seq<PathPoint<P>>
    decreases new.len(),
{
    if new.len() == 0 {
        points
    } else {
        let at2 = if at > points.len() { points.len() } else { at };
        insert_run(points.insert(at2 as int, new[0]), at2 + 1, new.drop_first())
    }
}

/// A segment's interior replaced: the points between `start` and `end`
/// removed one by one from just after `start`, then `new` inserted after
/// `start`.
pub open spec fn replaced_interior<P>(points: Seq<PathPoint<P>>, start: nat, end: nat, new: Seq<PathPoint<P>>) -> Seq<PathPoint<P>> {
    insert_run(
        remove_after_start(points, start, between_count(start, end, points.len())),
        start + 1,
        new,
    )
}

/// Replace the points strictly between `start` and `end` with `new_points`.
pub fn replace_segment_interior<P>(points: &mut Vec<PathPoint<P>>, start: usize, end: usize, new_points: Vec<PathPoint<P>>)
    requires
        start < old(points)@.len(),
        end < old(points)@.len(),
        old(points)@.len() + new_points@.len() <= usize::MAX,
    ensures
        final(points)@ == replaced_interior(old(points)@, start as nat, end as nat, new_points@),
{
    let ghost orig = points@;
    let remove_count = points_between_indices(start, end, points.len());
    let ghost total = remove_count as nat;
    let mut k: usize = 0;
    while k < remove_count
        invariant
            start < orig.len(),
            k <= remove_count,
            remove_count == between_count(start as nat, end as nat, orig.len()),
            remove_count <= orig.len() - 1,
            orig.len() <= usize::MAX,
            total == remove_count as nat,
            points@.len() == orig.len() - k,
            remove_after_start(orig, start as nat, total) == remove_after_start(
                points@,
                start as nat,
                (total - k) as nat,
            ),
        decreases remove_count - k,
    {
        let ghost before = points@;
        let index = (start + 1) % points.len();
        points.remove(index);
        assert(index as int == ((start + 1) as int) % (before.len() as int));
        assert(before.len() > 0);
        assert((total - k) as nat > 0);
        assert(points@ == before.remove(((start + 1) as int) % (before.len() as int)));
        assert(remove_after_start(before, start as nat, (total - k) as nat) == remove_after_start(
            points@,
            start as nat,
            (total - k - 1) as nat,
        ));
        k = k + 1;
    }
    let ghost base = points@;
    let ghost pending = new_points@;
    let mut insert_index = start + 1;
    let mut rest = new_points;
    reverse_points(&mut rest);
    assert(pending.subrange(0, pending.len() as int) =~= pending);
    let mut m: usize = 0;
    let n = rest.len();
    while m < n
        invariant
            n == pending.len(),
            m <= n,
            rest@.len() == n - m,
            forall|t: int| 0 <= t < n - m ==> rest@[t] == pending[n - 1 - t],
            points@.len() == base.len() + m,
            base.len() <= orig.len(),
            orig.len() + n <= usize::MAX,
            insert_index <= start + 1 + m,
            insert_run(base, (start + 1) as nat, pending) == insert_run(
                points@,
                insert_index as nat,
                pending.subrange(m as int, n as int),
            ),
        decreases n - m,
    {
        let p = rest.pop().unwrap();
        assert(p == pending[m as int]);
        if insert_index > points.len() {
            insert_index = points.len();
        }
        let ghost tail = pending.subrange(m as int, n as int);
        assert(tail[0] == p);
        assert(tail.drop_first() =~= pending.subrange(m as int + 1, n as int));
        points.insert(insert_index, p);
        insert_index = insert_index + 1;
        m = m + 1;
    }
    assert(pending.subrange(m as int, n as int) =~= Seq::<PathPoint<P>>::empty());
}

/// The points in reverse order.
pub fn reverse_points<P>(points: &mut Vec<PathPoint<P>>)
    ensures
        final(points)@ == old(points)@.reverse(),
{
    let mut source: Vec<PathPoint<P>> = Vec::new();
    std::mem::swap(&mut source, points);
    let ghost orig = source@;
    let mut out: Vec<PathPoint<P>> = Vec::new();
    while source.len() > 0
        invariant
            source@ == orig.subrange(0, source@.len() as int),
            source@.len() <= orig.len(),
            out@ == orig.subrange(source@.len() as int, orig.len() as int).reverse(),
        decreases source@.len(),
    {
        let p = source.pop().unwrap();
        out.push(p);
        assert(out@ =~= orig.subrange(source@.len() as int, orig.len() as int).reverse());
    }
    assert(orig.subrange(0, orig.len() as int) =~= orig);
    *points = out;
}

} // verus!

verus! {

proof fn lemma_remove_after_start_plain<P>(q: Seq<PathPoint<P>>, start: nat, c: nat)
    requires
        start + 1 + c <= q.len(),
    ensures
        remove_after_start(q, start, c) == q.subrange(0, start as int + 1) + q.subrange(
            (start + 1 + c) as int,
            q.len() as int,
        ),
    decreases c,
{
    if c == 0 {
        assert(q.subrange(0, start as int + 1) + q.subrange(start as int + 1, q.len() as int) =~= q);
    } else {
        let idx = ((start + 1) as int) % (q.len() as int);
        vstd::arithmetic::div_mod::lemma_small_mod((start + 1) as nat, q.len());
        assert(idx == start + 1);
        let q2 = q.remove(idx);
        lemma_remove_after_start_plain(q2, start, (c - 1) as nat);
        assert(q2.subrange(0, start as int + 1) =~= q.subrange(0, start as int + 1));
        assert(q2.subrange((start + 1 + (c - 1)) as int, q2.len() as int) =~= q.subrange(
            (start + 1 + c) as int,
            q.len() as int,
        ));
    }
}

proof fn lemma_insert_run_plain<P>(base: Seq<PathPoint<P>>, at: nat, new: Seq<PathPoint<P>>)
    requires
        at <= base.len(),
    ensures
        insert_run(base, at, new) == base.subrange(0, at as int) + new + base.subrange(
            at as int,
            base.len() as int,
        ),
    decreases new.len(),
{
    if new.len() == 0 {
        assert(base.subrange(0, at as int) + new + base.subrange(at as int, base.len() as int) =~= base);
    } else {
        let b2 = base.insert(at as int, new[0]);
        lemma_insert_run_plain(b2, at + 1, new.drop_first());
        assert(b2.subrange(0, at as int + 1) + new.drop_first() + b2.subrange(
            at as int + 1,
            b2.len() as int,
        ) =~= base.subrange(0, at as int) + new + base.subrange(at as int, base.len() as int));
    }
}

/// Replacing the interior of a segment that runs forward from `start` to a
/// later `end` keeps the points up to `start`, puts the new points after
/// it, and keeps the points from `end` on.
pub proof fn law_replace_forward_segment<P>(
    points: Seq<PathPoint<P>>,
    start: nat,
    end: nat,
    new: Seq<PathPoint<P>>,
)
    requires
        start < end < points.len(),
    ensures
        replaced_interior(points, start, end, new) == points.subrange(0, start as int + 1) + new
            + points.subrange(end as int, points.len() as int),
{
    let c = (end - start - 1) as nat;
    lemma_remove_after_start_plain(points, start, c);
    let base = points.subrange(0, start as int + 1) + points.subrange(end as int, points.len() as int);
    lemma_insert_run_plain(base, start + 1, new);
    assert(base.subrange(0, start as int + 1) =~= points.subrange(0, start as int + 1));
    assert(base.subrange(start as int + 1, base.len() as int) =~= points.subrange(
        end as int,
        points.len() as int,
    ));
}

/// In a closed contour of at least one point, stepping back and then
/// forward (or forward then back) returns to the same index.
pub proof fn law_prev_next_inverse(i: nat, len: nat)
    requires
        i < len,
    ensures
        prev_index(i, len, true) matches Some(j) && next_index_of(j, len, true) == Some(i),
        next_index_of(i, len, true) matches Some(j) && prev_index(j, len, true) == Some(i),
{
}

/// The indices of a segment start at `start`, end at `end`, and step
/// forward by one around the contour.
pub proof fn law_segment_indices_walk(len: nat, start: nat, end: nat)
    requires
        start < len,
        end < len,
    ensures
        segment_indices(len, start, end).len() > 0,
        segment_indices(len, start, end)[0] == start,
        segment_indices(len, start, end).last() == end,
        forall|i: int|
            0 <= i < segment_indices(len, start, end).len() - 1 ==> #[trigger] segment_indices(
                len,
                start,
                end,
            )[i + 1] == ((segment_indices(len, start, end)[i] + 1) as int) % (len as int),
{
    let s = segment_indices(len, start, end);
    vstd::arithmetic::div_mod::lemma_small_mod(start, len);
    let steps: int = if end >= start { end - start } else { len - start + end };
    assert(s.len() == steps + 1);
    if steps > 0 {
        lemma_step_reaches_end(start as int, end as int, len as int, steps, steps);
    }
    assert forall|i: int| 0 <= i < s.len() - 1 implies #[trigger] s[i + 1] == ((s[i] + 1) as int) % (len as int) by {
        lemma_mod_step(start as int, i, len as int);
    }
}

} // verus!

verus! {

proof fn lemma_partner_candidates_contain<P>(points: Seq<PathPoint<P>>, sel: Set<EntityId>, upto: nat, i: nat, j: nat)
    requires
        i < upto <= points.len(),
        sel.contains(points[i as int].id),
        !points[i as int].on_curve(),
        partner_index(points, i) == Some(j),
    ensures
        partner_candidates(points, sel, upto).contains(points[j as int].id),
    decreases upto,
{
    let k = (upto - 1) as nat;
    let s = partner_candidates(points, sel, k);
    if k == i {
        let x = points[j as int].id;
        if !s.contains(x) {
            assert(s.push(x)[s.len() as int] == x);
        }
    } else {
        lemma_partner_candidates_contain(points, sel, k, i, j);
        let x = points[j as int].id;
        let w = choose|m: int| 0 <= m < s.len() && s[m] == x;
        if sel.contains(points[k as int].id) && !points[k as int].on_curve() {
            match partner_index(points, k) {
                Some(jj) => {
                    let y = points[jj as int].id;
                    if !s.contains(y) {
                        assert(s.push(y)[w] == x);
                    }
                },
                None => {},
            }
        }
    }
}

proof fn lemma_unselected_ids_contain(s: Seq<EntityId>, sel: Set<EntityId>, x: EntityId)
    requires
        s.contains(x),
        !sel.contains(x),
    ensures
        unselected_ids(s, sel).contains(x),
    decreases s.len(),
{
    let r = unselected_ids(s.drop_last(), sel);
    if s.last() == x {
        assert(r.push(x)[r.len() as int] == x);
    } else {
        let w = choose|m: int| 0 <= m < s.len() && s[m] == x;
        assert(s.drop_last()[w] == x);
        lemma_unselected_ids_contain(s.drop_last(), sel, x);
        let v = choose|m: int| 0 <= m < r.len() && r[m] == x;
        if !sel.contains(s.last()) {
            assert(r.push(s.last())[v] == x);
        }
    }
}

/// Deleting a selected off-curve handle of a cubic contour also deletes the
/// other handle of its segment: the next point when it is off-curve,
/// otherwise the previous point when that is off-curve (indices wrapping
/// around the contour).
pub proof fn law_deleted_handle_takes_its_partner<P>(points: Seq<PathPoint<P>>, sel: Set<EntityId>, i: int)
    requires
        0 <= i < points.len(),
        sel.contains(points[i].id),
        !points[i].on_curve(),
    ensures
        ({
            let next = (i + 1) % (points.len() as int);
            let prev = if i == 0 { points.len() - 1 } else { i - 1 };
            &&& deleted_ids(points, sel, true).contains(points[i].id)
            &&& !points[next].on_curve() ==> deleted_ids(points, sel, true).contains(points[next].id)
            &&& points[next].on_curve() && !points[prev].on_curve() ==> deleted_ids(points, sel, true).contains(
                points[prev].id,
            )
        }),
{
    let len = points.len() as int;
    let next = (i + 1) % len;
    let prev = if i == 0 { len - 1 } else { i - 1 };
    assert(0 <= next < len) by (nonlinear_arith)
        requires
            0 <= i < len,
            next == (i + 1) % len,
    ;
    match partner_index(points, i as nat) {
        Some(j) => {
            lemma_partner_candidates_contain(points, sel, points.len(), i as nat, j);
            let x = points[j as int].id;
            if !sel.contains(x) {
                lemma_unselected_ids_contain(partner_candidates(points, sel, points.len()), sel, x);
            }
            assert(deleted_ids(points, sel, true).contains(x));
        },
        None => {},
    }
}

} // verus!
