//! Text buffer state for the Text tool: the sorts (glyphs and line breaks)
//! being set, the cursor between them, the active sort being edited and the
//! manual-kerning session.
//!
//! Sorts carry their advance width as an opaque value `W`; nothing here reads
//! it, so the buffer's editing rules hold whatever unit the caller measures in.

use vstd::prelude::*;
use vstd::string::{StrSliceExecFns, StringExecFns};

verus! {

/// Writing direction of the text run.
#[derive(Debug, Clone, Copy, PartialEq, Eq, Structural)]
pub enum TextDirection {
    LeftToRight,
    RightToLeft,
}

impl Default for TextDirection {
    fn default() -> (r: Self)
        ensures
            r == TextDirection::LeftToRight,
    {
        TextDirection::LeftToRight
    }
}

/// What a sort holds: a glyph, or a line break.
#[derive(Debug, Clone, PartialEq)]
pub enum TextSortKind<W> {
    Glyph { name: String, codepoint: Option<char>, advance_width: W },
    LineBreak,
}

/// One sort of the buffer, with the flag that marks the active sort.
#[derive(Debug, Clone, PartialEq)]
pub struct TextSort<W> {
    pub kind: TextSortKind<W>,
    pub active: bool,
}

/// The content of a sort, with the glyph name as its characters.
pub ghost enum SortKindView<W> {
    Glyph { name: Seq<char>, codepoint: Option<char>, advance_width: W },
    LineBreak,
}

/// A sort as a value: its content and its active flag.
pub ghost struct SortView<W> {
    pub kind: SortKindView<W>,
    pub active: bool,
}

impl<W> View for TextSortKind<W> {
    type V = SortKindView<W>;

    open spec fn view(&self) -> SortKindView<W> {
        match self {
            TextSortKind::Glyph { name, codepoint, advance_width } => SortKindView::Glyph {
                name: name@,
                codepoint: *codepoint,
                advance_width: *advance_width,
            },
            TextSortKind::LineBreak => SortKindView::LineBreak,
        }
    }
}

impl<W> View for TextSort<W> {
    type V = SortView<W>;

    open spec fn view(&self) -> SortView<W> {
        SortView { kind: self.kind@, active: self.active }
    }
}

impl<W> TextSort<W> {
    /// An inactive glyph sort.
    pub fn glyph(name: &str, codepoint: Option<char>, advance_width: W) -> (r: Self)
        ensures
            r@ == (SortView {
                kind: SortKindView::Glyph { name: name@, codepoint, advance_width },
                active: false,
            }),
    {
        TextSort {
            kind: TextSortKind::Glyph { name: name.to_owned(), codepoint, advance_width },
            active: false,
        }
    }

    /// An inactive line-break sort.
    pub fn line_break() -> (r: Self)
        ensures
            r@ == (SortView::<W> { kind: SortKindView::LineBreak, active: false }),
    {
        TextSort { kind: TextSortKind::LineBreak, active: false }
    }

    /// The glyph name of a glyph sort; `None` for a line break.
    pub fn glyph_name(&self) -> (r: Option<&str>)
        ensures
            match self.kind@ {
                SortKindView::Glyph { name, .. } => r.is_some() && r.unwrap()@ == name,
                SortKindView::LineBreak => r.is_none(),
            },
    {
        match &self.kind {
            TextSortKind::Glyph { name, .. } => Some(name.as_str()),
            TextSortKind::LineBreak => None,
        }
    }
}

/// The sorts with their active flags set exactly at `active`.
pub open spec fn flagged<W>(kinds: Seq<SortKindView<W>>, active: Option<nat>) -> Seq<SortView<W>> {
    Seq::new(kinds.len(), |i: int| SortView { kind: kinds[i], active: active == Some(i as nat) })
}

/// The index of the active sort after a sort is inserted at `at`.
pub open spec fn shifted_by_insert(active: Option<nat>, at: nat) -> Option<nat> {
    match active {
        Some(a) => if a >= at { Some(a + 1) } else { Some(a) },
        None => None,
    }
}

/// The index of the active sort after the sort at `at` is removed: none when
/// the active sort itself goes.
pub open spec fn shifted_by_delete(active: Option<nat>, at: nat) -> Option<nat> {
    match active {
        Some(a) => if a == at { None } else if a > at { Some((a - 1) as nat) } else { Some(a) },
        None => None,
    }
}

/// The state of a text buffer.
pub ghost struct TextModel<W> {
    pub sorts: Seq<SortView<W>>,
    pub cursor: nat,
    pub active: Option<nat>,
    pub direction: TextDirection,
    /// The sort of the manual-kerning session, if one is open.
    pub kerning: Option<nat>,
}

impl<W> TextModel<W> {
    /// The sorts' contents, without their flags.
    pub open spec fn kinds(self) -> Seq<SortKindView<W>> {
        self.sorts.map_values(|s: SortView<W>| s.kind)
    }

    pub open spec fn is_glyph_at(self, i: nat) -> bool {
        i < self.sorts.len() && self.sorts[i as int].kind is Glyph
    }

    /// The buffer's invariant: the cursor lies between sorts, the active sort
    /// is a glyph, exactly the active sort carries the active flag, and the
    /// kerning session names a sort.
    pub open spec fn wf(self) -> bool {
        &&& self.cursor <= self.sorts.len()
        &&& (self.active matches Some(a) ==> self.is_glyph_at(a))
        &&& forall|i: int| 0 <= i < self.sorts.len() ==> (#[trigger] self.sorts[i]).active == (
            self.active == Some(i as nat))
        &&& (self.kerning matches Some(k) ==> k < self.sorts.len())
    }

    /// A state built from contents, cursor, active sort, direction and session.
    pub open spec fn make(
        kinds: Seq<SortKindView<W>>,
        cursor: nat,
        active: Option<nat>,
        direction: TextDirection,
        kerning: Option<nat>,
    ) -> TextModel<W> {
        TextModel { sorts: flagged(kinds, active), cursor, active, direction, kerning }
    }

    /// The empty buffer.
    pub open spec fn empty() -> TextModel<W> {
        TextModel::make(Seq::empty(), 0, None, TextDirection::LeftToRight, None)
    }

    /// Insert `kind` at the cursor and make it the active sort.
    pub open spec fn insert_active(self, kind: SortKindView<W>) -> TextModel<W> {
        TextModel::make(
            self.kinds().insert(self.cursor as int, kind),
            self.cursor + 1,
            Some(self.cursor),
            self.direction,
            None,
        )
    }

    /// Insert `kind` at the cursor; the active sort stays the same sort.
    pub open spec fn insert_inactive(self, kind: SortKindView<W>) -> TextModel<W> {
        TextModel::make(
            self.kinds().insert(self.cursor as int, kind),
            self.cursor + 1,
            shifted_by_insert(self.active, self.cursor),
            self.direction,
            None,
        )
    }

    /// Remove the sort at `at`, leaving the cursor at `cursor`.
    pub open spec fn remove_at(self, at: nat, cursor: nat) -> TextModel<W> {
        TextModel::make(
            self.kinds().remove(at as int),
            cursor,
            shifted_by_delete(self.active, at),
            self.direction,
            None,
        )
    }

    /// Backspace: remove the sort before the cursor, if any.
    pub open spec fn delete_before(self) -> TextModel<W> {
        if self.cursor == 0 {
            self
        } else {
            self.remove_at((self.cursor - 1) as nat, (self.cursor - 1) as nat)
        }
    }

    /// Delete: remove the sort after the cursor, if any.
    pub open spec fn delete_after(self) -> TextModel<W> {
        if self.cursor >= self.sorts.len() {
            self
        } else {
            self.remove_at(self.cursor, self.cursor)
        }
    }

    pub open spec fn with_cursor(self, cursor: nat) -> TextModel<W> {
        TextModel { cursor, ..self }
    }

    /// The cursor one sort to the left, stopping at the start.
    pub open spec fn left_cursor(self) -> nat {
        if self.cursor == 0 { 0 } else { (self.cursor - 1) as nat }
    }

    /// The cursor one sort to the right, stopping at the end.
    pub open spec fn right_cursor(self) -> nat {
        if self.cursor + 1 <= self.sorts.len() { self.cursor + 1 } else { self.sorts.len() }
    }

    /// Make the glyph sort at `i` the active sort.
    pub open spec fn activate(self, i: nat) -> TextModel<W> {
        TextModel::make(self.kinds(), self.cursor, Some(i), self.direction, self.kerning)
    }
}


/// The index of the first line break at or after `start`, or the length of
/// the buffer when there is none.
pub open spec fn next_break<W>(kinds: Seq<SortKindView<W>>, start: int) -> int
    decreases kinds.len() - start,
{
    if start >= kinds.len() {
        kinds.len() as int
    } else if kinds[start] is LineBreak {
        start
    } else {
        next_break(kinds, start + 1)
    }
}

/// The `[start, end)` sort range of line `line`, counting lines from the one
/// that begins at `start`; a line number past the last line gives the last line.
pub open spec fn line_range_from<W>(kinds: Seq<SortKindView<W>>, start: int, line: nat) -> (int, int)
    decreases kinds.len() - start,
{
    let end = next_break(kinds, start);
    if line == 0 || end >= kinds.len() || start >= kinds.len() || start < 0 {
        (start, end)
    } else {
        proof {
            lemma_next_break(kinds, start);
        }
        line_range_from(kinds, end + 1, (line - 1) as nat)
    }
}

/// `next_break` lies between `start` and the end, has no line break before
/// it, and is a line break when it is not the end.
pub proof fn lemma_next_break<W>(kinds: Seq<SortKindView<W>>, start: int)
    requires
        0 <= start <= kinds.len(),
    ensures
        start <= next_break(kinds, start) <= kinds.len(),
        next_break(kinds, start) < kinds.len() ==> kinds[next_break(kinds, start)] is LineBreak,
        forall|i: int| start <= i < next_break(kinds, start) ==> !(kinds[i] is LineBreak),
    decreases kinds.len() - start,
{
    if start < kinds.len() && !(kinds[start] is LineBreak) {
        lemma_next_break(kinds, start + 1);
    }
}

/// Whether a sort is a glyph with a codepoint.
pub open spec fn has_codepoint<W>(k: SortKindView<W>) -> bool {
    k matches SortKindView::Glyph { codepoint: Some(_), .. }
}

/// The codepoints of the glyph sorts that have one, in order.
pub open spec fn codepoints<W>(kinds: Seq<SortKindView<W>>) -> Seq<char>
    decreases kinds.len(),
{
    if kinds.len() == 0 {
        seq![]
    } else {
        let rest = codepoints(kinds.drop_last());
        match kinds.last() {
            SortKindView::Glyph { codepoint: Some(c), .. } => rest.push(c),
            _ => rest,
        }
    }
}

/// The nearest index below `position` whose mark is set.
pub open spec fn previous_marked(marks: Seq<bool>, position: int) -> Option<nat>
    decreases position,
{
    if position <= 0 {
        None
    } else if position - 1 < marks.len() && marks[position - 1] {
        Some((position - 1) as nat)
    } else {
        previous_marked(marks, position - 1)
    }
}

/// The nearest index at or above `position` whose mark is set.
pub open spec fn next_marked(marks: Seq<bool>, position: int) -> Option<nat>
    decreases marks.len() - position,
{
    if position >= marks.len() || position < 0 {
        None
    } else if marks[position] {
        Some(position as nat)
    } else {
        next_marked(marks, position + 1)
    }
}

/// The sorts to reshape around an edit at `position`: the nearest marked
/// sort before it, the nearest marked sort at or after it, and the marked
/// sort after that one.
pub open spec fn shape_indices_around(marks: Seq<bool>, position: int) -> Seq<nat> {
    let before = match previous_marked(marks, position) {
        Some(i) => seq![i],
        None => seq![],
    };
    match next_marked(marks, position) {
        Some(j) => match next_marked(marks, j as int + 1) {
            Some(k) => before + seq![j, k],
            None => before + seq![j],
        },
        None => before,
    }
}

/// The nearest index below `position` whose mark is set.
pub fn previous_marked_index(marks: &[bool], position: usize) -> (r: Option<usize>)
    ensures
        opt_nat(r) == previous_marked(marks@, position as int),
        r matches Some(i) ==> i < marks@.len() && i < position,
{
    let mut p = position;
    while p > 0
        invariant
            p <= position,
            previous_marked(marks@, position as int) == previous_marked(marks@, p as int),
        decreases p,
    {
        if p - 1 < marks.len() && marks[p - 1] {
            return Some(p - 1);
        }
        p = p - 1;
    }
    None
}

/// The nearest index at or above `position` whose mark is set.
pub fn next_marked_index(marks: &[bool], position: usize) -> (r: Option<usize>)
    ensures
        opt_nat(r) == next_marked(marks@, position as int),
        r matches Some(i) ==> position <= i < marks@.len(),
{
    let mut p = position;
    while p < marks.len()
        invariant
            position <= p,
            next_marked(marks@, position as int) == next_marked(marks@, p as int),
        decreases marks@.len() - p,
    {
        if marks[p] {
            return Some(p);
        }
        p = p + 1;
    }
    None
}

/// The text buffer.
#[derive(Debug, Clone, PartialEq)]
pub struct TextBuffer<W> {
    sorts: Vec<TextSort<W>>,
    cursor: usize,
    active_sort: Option<usize>,
    direction: TextDirection,
    manual_kerning: Option<usize>,
}

/// An optional index as a natural number.
pub open spec fn opt_nat(o: Option<usize>) -> Option<nat> {
    match o {
        Some(v) => Some(v as nat),
        None => None,
    }
}

impl<W> View for TextBuffer<W> {
    type V = TextModel<W>;

    closed spec fn view(&self) -> TextModel<W> {
        TextModel {
            sorts: self.sorts@.map_values(|s: TextSort<W>| s@),
            cursor: self.cursor as nat,
            active: opt_nat(self.active_sort),
            direction: self.direction,
            kerning: opt_nat(self.manual_kerning),
        }
    }
}

impl<W> TextBuffer<W> {
    /// The buffer's invariant (see [`TextModel::wf`]).
    pub open spec fn wf(&self) -> bool {
        self@.wf()
    }

    /// An empty left-to-right buffer.
    pub fn new() -> (r: Self)
        ensures
            r.wf(),
            r@ == TextModel::<W>::empty(),
    {
        let r = TextBuffer {
            sorts: Vec::new(),
            cursor: 0,
            active_sort: None,
            direction: TextDirection::LeftToRight,
            manual_kerning: None,
        };
        assert(r@.sorts =~= flagged(Seq::<SortKindView<W>>::empty(), None));
        r
    }

    /// The number of sorts.
    pub fn len(&self) -> (r: usize)
        ensures
            r == self@.sorts.len(),
    {
        self.sorts.len()
    }

    /// Whether the buffer holds no sorts.
    pub fn is_empty(&self) -> (r: bool)
        ensures
            r == (self@.sorts.len() == 0),
    {
        self.sorts.len() == 0
    }

    /// The cursor position (a sort boundary).
    pub fn cursor(&self) -> (r: usize)
        ensures
            r == self@.cursor,
    {
        self.cursor
    }

    /// The index of the active sort.
    pub fn active_sort(&self) -> (r: Option<usize>)
        ensures
            opt_nat(r) == self@.active,
    {
        self.active_sort
    }

    /// The sort of the open manual-kerning session.
    pub fn manual_kerning_sort(&self) -> (r: Option<usize>)
        ensures
            opt_nat(r) == self@.kerning,
    {
        self.manual_kerning
    }

    /// The writing direction.
    pub fn direction(&self) -> (r: TextDirection)
        ensures
            r == self@.direction,
    {
        self.direction
    }

    /// The sort at `index`, if there is one.
    pub fn sort(&self, index: usize) -> (r: Option<&TextSort<W>>)
        ensures
            index < self@.sorts.len() ==> r.is_some() && r.unwrap()@ == self@.sorts[index as int],
            index >= self@.sorts.len() ==> r.is_none(),
    {
        if index < self.sorts.len() {
            Some(&self.sorts[index])
        } else {
            None
        }
    }


    /// Set the writing direction; the sorts keep their glyphs.
    pub fn set_direction(&mut self, direction: TextDirection)
        requires
            old(self).wf(),
        ensures
            final(self).wf(),
            final(self)@ == (TextModel { direction, ..old(self)@ }),
    {
        self.direction = direction;
    }

    proof fn lemma_view_flagged(&self)
        requires
            self.wf(),
        ensures
            self@.sorts == flagged(self@.kinds(), self@.active),
    {
        assert(self@.sorts =~= flagged(self@.kinds(), self@.active));
    }

    /// Empty the buffer and return to a fresh left-to-right session.
    pub fn clear(&mut self)
        ensures
            final(self).wf(),
            final(self)@ == TextModel::<W>::empty(),
    {
        self.sorts.clear();
        self.cursor = 0;
        self.active_sort = None;
        self.manual_kerning = None;
        self.direction = TextDirection::LeftToRight;
        assert(self@.sorts =~= flagged(Seq::<SortKindView<W>>::empty(), None));
    }

    /// Insert a glyph at the cursor, make it the active sort and move the
    /// cursor past it. Ends any manual-kerning session.
    pub fn insert_glyph(&mut self, name: &str, codepoint: Option<char>, advance_width: W)
        requires
            old(self).wf(),
            old(self)@.sorts.len() < usize::MAX,
        ensures
            final(self).wf(),
            final(self)@ == old(self)@.insert_active(
                SortKindView::Glyph { name: name@, codepoint, advance_width },
            ),
    {
        let ghost m = self@;
        proof { self.lemma_view_flagged(); }
        self.manual_kerning = None;
        if let Some(active) = self.active_sort {
            self.sorts[active].active = false;
        }
        self.active_sort = None;
        let index = self.cursor;
        self.sorts.insert(index, TextSort::glyph(name, codepoint, advance_width));
        self.sorts[index].active = true;
        self.active_sort = Some(index);
        self.cursor = self.cursor + 1;
        proof {
            let g = SortKindView::Glyph { name: name@, codepoint, advance_width };
            let target = m.insert_active(g);
            assert(self@.sorts =~= target.sorts) by {
                assert forall|i: int| 0 <= i < self@.sorts.len() implies self@.sorts[i]
                    == target.sorts[i] by {
                    if i < index {
                        assert(m.sorts[i].kind == m.kinds()[i]);
                    } else if i > index {
                        assert(m.sorts[i - 1].kind == m.kinds()[i - 1]);
                    }
                }
            }
        }
    }


    fn insert_inactive_sort(&mut self, sort: TextSort<W>)
        requires
            old(self).wf(),
            old(self)@.sorts.len() < usize::MAX,
            !sort.active,
        ensures
            final(self).wf(),
            final(self)@ == old(self)@.insert_inactive(sort.kind@),
    {
        let ghost m = self@;
        let ghost k = sort.kind@;
        proof { self.lemma_view_flagged(); }
        self.manual_kerning = None;
        let index = self.cursor;
        self.sorts.insert(index, sort);
        self.cursor = self.cursor + 1;
        if let Some(active) = self.active_sort {
            if active >= index {
                self.active_sort = Some(active + 1);
            }
        }
        proof {
            let target = m.insert_inactive(k);
            assert(self@.sorts =~= target.sorts) by {
                assert forall|i: int| 0 <= i < self@.sorts.len() implies self@.sorts[i]
                    == target.sorts[i] by {
                    if i < index {
                        assert(m.sorts[i].kind == m.kinds()[i]);
                    } else if i > index {
                        assert(m.sorts[i - 1].kind == m.kinds()[i - 1]);
                    }
                }
            }
        }
    }

    /// Insert a glyph at the cursor without changing which sort is active,
    /// and move the cursor past it. Ends any manual-kerning session.
    pub fn insert_inactive_glyph(&mut self, name: &str, codepoint: Option<char>, advance_width: W)
        requires
            old(self).wf(),
            old(self)@.sorts.len() < usize::MAX,
        ensures
            final(self).wf(),
            final(self)@ == old(self)@.insert_inactive(
                SortKindView::Glyph { name: name@, codepoint, advance_width },
            ),
    {
        self.insert_inactive_sort(TextSort::glyph(name, codepoint, advance_width));
    }

    /// Insert a line break at the cursor without changing which sort is
    /// active, and move the cursor past it. Ends any manual-kerning session.
    pub fn insert_line_break(&mut self)
        requires
            old(self).wf(),
            old(self)@.sorts.len() < usize::MAX,
        ensures
            final(self).wf(),
            final(self)@ == old(self)@.insert_inactive(SortKindView::LineBreak),
    {
        self.insert_inactive_sort(TextSort::line_break());
    }

    fn remove_sort(&mut self, at: usize, cursor: usize) -> (r: TextSort<W>)
        requires
            old(self).wf(),
            at < old(self)@.sorts.len(),
            cursor <= old(self)@.sorts.len() - 1,
        ensures
            final(self).wf(),
            final(self)@ == old(self)@.remove_at(at as nat, cursor as nat),
            r@ == old(self)@.sorts[at as int],
    {
        let ghost m = self@;
        proof { self.lemma_view_flagged(); }
        self.manual_kerning = None;
        let deleted = self.sorts.remove(at);
        self.cursor = cursor;
        if let Some(active) = self.active_sort {
            if active == at {
                self.active_sort = None;
            } else if active > at {
                self.active_sort = Some(active - 1);
            }
        }
        proof {
            let target = m.remove_at(at as nat, cursor as nat);
            assert(self@.sorts =~= target.sorts) by {
                assert forall|i: int| 0 <= i < self@.sorts.len() implies self@.sorts[i]
                    == target.sorts[i] by {
                    if i < at {
                        assert(m.sorts[i].kind == m.kinds()[i]);
                    } else {
                        assert(m.sorts[i + 1].kind == m.kinds()[i + 1]);
                    }
                }
            }
        }
        deleted
    }

    /// Backspace: remove and return the sort before the cursor, moving the
    /// cursor back over it. At the start of the buffer nothing changes.
    pub fn delete_before_cursor(&mut self) -> (r: Option<TextSort<W>>)
        requires
            old(self).wf(),
        ensures
            final(self).wf(),
            final(self)@ == old(self)@.delete_before(),
            old(self)@.cursor == 0 ==> r.is_none(),
            old(self)@.cursor > 0 ==> r.is_some() && r.unwrap()@ == old(self)@.sorts[old(self)@.cursor - 1],
    {
        if self.cursor == 0 {
            return None;
        }
        let at = self.cursor - 1;
        Some(self.remove_sort(at, at))
    }

    /// Delete: remove and return the sort after the cursor. At the end of the
    /// buffer nothing changes.
    pub fn delete_after_cursor(&mut self) -> (r: Option<TextSort<W>>)
        requires
            old(self).wf(),
        ensures
            final(self).wf(),
            final(self)@ == old(self)@.delete_after(),
            old(self)@.cursor >= old(self)@.sorts.len() ==> r.is_none(),
            old(self)@.cursor < old(self)@.sorts.len() ==> r.is_some() && r.unwrap()@
                == old(self)@.sorts[old(self)@.cursor as int],
    {
        if self.cursor >= self.sorts.len() {
            return None;
        }
        let at = self.cursor;
        Some(self.remove_sort(at, at))
    }

    /// Move the cursor one sort towards the start.
    pub fn move_cursor_left(&mut self)
        requires
            old(self).wf(),
        ensures
            final(self).wf(),
            final(self)@ == old(self)@.with_cursor(old(self)@.left_cursor()),
    {
        if self.cursor > 0 {
            self.cursor = self.cursor - 1;
        }
    }

    /// Move the cursor one sort towards the end.
    pub fn move_cursor_right(&mut self)
        requires
            old(self).wf(),
        ensures
            final(self).wf(),
            final(self)@ == old(self)@.with_cursor(old(self)@.right_cursor()),
    {
        if self.cursor < self.sorts.len() {
            self.cursor = self.cursor + 1;
        }
    }

    /// Move the cursor one sort to the left on screen: backwards in
    /// left-to-right text, forwards in right-to-left text.
    pub fn move_cursor_visual_left(&mut self)
        requires
            old(self).wf(),
        ensures
            final(self).wf(),
            final(self)@ == old(self)@.with_cursor(
                if old(self)@.direction == TextDirection::LeftToRight {
                    old(self)@.left_cursor()
                } else {
                    old(self)@.right_cursor()
                },
            ),
    {
        match self.direction {
            TextDirection::LeftToRight => self.move_cursor_left(),
            TextDirection::RightToLeft => self.move_cursor_right(),
        }
    }

    /// Move the cursor one sort to the right on screen: forwards in
    /// left-to-right text, backwards in right-to-left text.
    pub fn move_cursor_visual_right(&mut self)
        requires
            old(self).wf(),
        ensures
            final(self).wf(),
            final(self)@ == old(self)@.with_cursor(
                if old(self)@.direction == TextDirection::LeftToRight {
                    old(self)@.right_cursor()
                } else {
                    old(self)@.left_cursor()
                },
            ),
    {
        match self.direction {
            TextDirection::LeftToRight => self.move_cursor_right(),
            TextDirection::RightToLeft => self.move_cursor_left(),
        }
    }

    /// Place the cursor at `cursor`, clamped to the end of the buffer.
    pub fn set_cursor(&mut self, cursor: usize)
        requires
            old(self).wf(),
        ensures
            final(self).wf(),
            final(self)@ == old(self)@.with_cursor(
                if cursor <= old(self)@.sorts.len() { cursor as nat } else { old(self)@.sorts.len() },
            ),
    {
        if cursor <= self.sorts.len() {
            self.cursor = cursor;
        } else {
            self.cursor = self.sorts.len();
        }
    }

    fn set_active(&mut self, index: usize)
        requires
            old(self).wf(),
            old(self)@.is_glyph_at(index as nat),
        ensures
            final(self).wf(),
            final(self)@ == old(self)@.activate(index as nat),
    {
        let ghost m = self@;
        proof { self.lemma_view_flagged(); }
        if let Some(previous) = self.active_sort {
            self.sorts[previous].active = false;
        }
        self.sorts[index].active = true;
        self.active_sort = Some(index);
        proof {
            let target = m.activate(index as nat);
            assert(self@.sorts =~= target.sorts) by {
                assert forall|i: int| 0 <= i < self@.sorts.len() implies self@.sorts[i]
                    == target.sorts[i] by {
                    assert(m.sorts[i].kind == m.kinds()[i]);
                }
            }
        }
    }

    fn is_glyph_sort(&self, index: usize) -> (r: bool)
        ensures
            r == self@.is_glyph_at(index as nat),
    {
        if index < self.sorts.len() {
            match &self.sorts[index].kind {
                TextSortKind::Glyph { .. } => true,
                TextSortKind::LineBreak => false,
            }
        } else {
            false
        }
    }

    /// Make the glyph sort at `index` the active sort. Returns false, and
    /// changes nothing, when there is no glyph sort at `index`.
    pub fn activate_sort(&mut self, index: usize) -> (r: bool)
        requires
            old(self).wf(),
        ensures
            final(self).wf(),
            r == old(self)@.is_glyph_at(index as nat),
            r ==> final(self)@ == old(self)@.activate(index as nat),
            !r ==> final(self)@ == old(self)@,
    {
        if !self.is_glyph_sort(index) {
            return false;
        }
        self.set_active(index);
        true
    }

    /// Replace the glyph of the glyph sort at `index`. Returns false, and
    /// changes nothing, when there is no glyph sort at `index`.
    pub fn update_glyph(&mut self, index: usize, name: &str, codepoint: Option<char>, advance_width: W) -> (r: bool)
        requires
            old(self).wf(),
        ensures
            final(self).wf(),
            r == old(self)@.is_glyph_at(index as nat),
            r ==> final(self)@ == TextModel::make(
                old(self)@.kinds().update(
                    index as int,
                    SortKindView::Glyph { name: name@, codepoint, advance_width },
                ),
                old(self)@.cursor,
                old(self)@.active,
                old(self)@.direction,
                old(self)@.kerning,
            ),
            !r ==> final(self)@ == old(self)@,
    {
        if !self.is_glyph_sort(index) {
            return false;
        }
        let ghost m = self@;
        proof { self.lemma_view_flagged(); }
        let active = self.sorts[index].active;
        let mut sort = TextSort::glyph(name, codepoint, advance_width);
        sort.active = active;
        self.sorts.set(index, sort);
        proof {
            let g = SortKindView::Glyph { name: name@, codepoint, advance_width };
            let target = TextModel::make(m.kinds().update(index as int, g), m.cursor, m.active, m.direction, m.kerning);
            assert(self@.sorts =~= target.sorts) by {
                assert forall|i: int| 0 <= i < self@.sorts.len() implies self@.sorts[i]
                    == target.sorts[i] by {
                    assert(m.sorts[i].kind == m.kinds()[i]);
                }
            }
        }
        true
    }

    /// Open a manual-kerning session on the glyph sort at `sort_index`, which
    /// must follow another sort; the sort becomes active. Returns false, and
    /// changes nothing, otherwise.
    pub fn begin_manual_kerning(&mut self, sort_index: usize) -> (r: bool)
        requires
            old(self).wf(),
        ensures
            final(self).wf(),
            r == (sort_index > 0 && old(self)@.is_glyph_at(sort_index as nat)),
            r ==> final(self)@ == (TextModel {
                kerning: Some(sort_index as nat),
                ..old(self)@.activate(sort_index as nat)
            }),
            !r ==> final(self)@ == old(self)@,
    {
        if sort_index == 0 || !self.is_glyph_sort(sort_index) {
            return false;
        }
        self.manual_kerning = Some(sort_index);
        self.set_active(sort_index);
        true
    }

    /// Close the manual-kerning session; returns whether one was open.
    pub fn end_manual_kerning(&mut self) -> (r: bool)
        requires
            old(self).wf(),
        ensures
            final(self).wf(),
            r == old(self)@.kerning.is_some(),
            final(self)@ == (TextModel { kerning: None, ..old(self)@ }),
    {
        let was_open = self.manual_kerning.is_some();
        self.manual_kerning = None;
        was_open
    }


    /// The index of the first line break at or after `start`, or the length
    /// of the buffer when there is none.
    pub fn next_line_end(&self, start: usize) -> (r: usize)
        requires
            start <= self@.sorts.len(),
        ensures
            r == next_break(self@.kinds(), start as int),
            start <= r <= self@.sorts.len(),
    {
        proof {
            lemma_next_break(self@.kinds(), start as int);
        }
        let ghost kinds = self@.kinds();
        let mut i = start;
        while i < self.sorts.len()
            invariant
                start <= i <= self@.sorts.len(),
                kinds == self@.kinds(),
                next_break(kinds, start as int) == next_break(kinds, i as int),
            decreases self@.sorts.len() - i,
        {
            assert(kinds[i as int] == self@.sorts[i as int].kind);
            match &self.sorts[i].kind {
                TextSortKind::LineBreak => {
                    return i;
                },
                TextSortKind::Glyph { .. } => {},
            }
            i = i + 1;
        }
        i
    }

    /// The `[start, end)` sort range of line `line_number` (the last line
    /// when the buffer has fewer lines).
    pub fn line_range_for_number(&self, line_number: usize) -> (r: (usize, usize))
        ensures
            (r.0 as int, r.1 as int) == line_range_from(self@.kinds(), 0, line_number as nat),
    {
        let ghost kinds = self@.kinds();
        let mut start: usize = 0;
        let mut current: usize = 0;
        loop
            invariant
                start <= self@.sorts.len(),
                current <= line_number,
                kinds == self@.kinds(),
                line_range_from(kinds, 0, line_number as nat) == line_range_from(
                    kinds,
                    start as int,
                    (line_number - current) as nat,
                ),
            decreases self@.sorts.len() - start,
        {
            let end = self.next_line_end(start);
            if current == line_number || end >= self.sorts.len() {
                return (start, end);
            }
            start = end + 1;
            current = current + 1;
        }
    }

    /// The number of glyph sorts with a codepoint before sort `sort_index`.
    pub fn char_index_for_sort_index(&self, sort_index: usize) -> (r: usize)
        requires
            sort_index <= self@.sorts.len(),
        ensures
            r == codepoints(self@.kinds().subrange(0, sort_index as int)).len(),
    {
        let ghost kinds = self@.kinds();
        let mut count: usize = 0;
        let mut i: usize = 0;
        while i < sort_index
            invariant
                i <= sort_index <= self@.sorts.len(),
                kinds == self@.kinds(),
                count == codepoints(kinds.subrange(0, i as int)).len(),
                count <= i,
            decreases sort_index - i,
        {
            assert(kinds.subrange(0, i as int + 1).drop_last() =~= kinds.subrange(0, i as int));
            assert(kinds[i as int] == self@.sorts[i as int].kind);
            match &self.sorts[i].kind {
                TextSortKind::Glyph { codepoint: Some(_), .. } => {
                    count = count + 1;
                },
                _ => {},
            }
            i = i + 1;
        }
        count
    }

    /// The codepoints of the glyph sorts that have one, in order.
    pub fn glyph_chars(&self) -> (r: Vec<char>)
        ensures
            r@ == codepoints(self@.kinds()),
    {
        let ghost kinds = self@.kinds();
        let mut out: Vec<char> = Vec::new();
        let mut i: usize = 0;
        while i < self.sorts.len()
            invariant
                i <= self@.sorts.len(),
                kinds == self@.kinds(),
                out@ == codepoints(kinds.subrange(0, i as int)),
            decreases self@.sorts.len() - i,
        {
            assert(kinds.subrange(0, i as int + 1).drop_last() =~= kinds.subrange(0, i as int));
            assert(kinds[i as int] == self@.sorts[i as int].kind);
            match &self.sorts[i].kind {
                TextSortKind::Glyph { codepoint: Some(c), .. } => {
                    out.push(*c);
                },
                _ => {},
            }
            i = i + 1;
        }
        assert(kinds.subrange(0, i as int) =~= kinds);
        out
    }


    /// The sorts to reshape around an edit at `position` (see
    /// [`shape_indices_around`]), where `joining[i]` tells whether sort `i`
    /// takes part in contextual joining (a non-transparent letter of a
    /// joining script).
    pub fn shape_indices_around(&self, position: usize, joining: &[bool]) -> (r: Vec<usize>)
        requires
            joining@.len() == self@.sorts.len(),
        ensures
            r@.map_values(|i: usize| i as nat) == shape_indices_around(joining@, position as int),
    {
        let mut out: Vec<usize> = Vec::new();
        let _n = joining.len();
        if let Some(i) = previous_marked_index(joining, position) {
            out.push(i);
        }
        let ghost before = out@;
        if let Some(j) = next_marked_index(joining, position) {
            out.push(j);
            if let Some(k) = next_marked_index(joining, j + 1) {
                out.push(k);
            }
        }
        assert(out@.map_values(|i: usize| i as nat) =~= shape_indices_around(joining@, position as int));
        out
    }

    /// All sorts, in order.
    pub fn sorts(&self) -> (r: &[TextSort<W>])
        ensures
            r@.map_values(|s: TextSort<W>| s@) == self@.sorts,
    {
        self.sorts.as_slice()
    }
}

} // verus!

verus! {

/// In a well-formed buffer at most one sort carries the active flag.
pub proof fn law_active_flag_unique<W>(m: TextModel<W>, i: int, j: int)
    requires
        m.wf(),
        0 <= i < m.sorts.len(),
        0 <= j < m.sorts.len(),
        m.sorts[i].active,
        m.sorts[j].active,
    ensures
        i == j,
{
    assert(m.sorts[i].active == (m.active == Some(i as nat)));
    assert(m.sorts[j].active == (m.active == Some(j as nat)));
}

/// Typing a sort without activating it (a glyph or a line break) and then
/// deleting it with backspace gives back the buffer as it was, with the
/// manual-kerning session closed.
pub proof fn law_insert_then_backspace<W>(m: TextModel<W>, kind: SortKindView<W>)
    requires
        m.wf(),
    ensures
        m.insert_inactive(kind).delete_before() == (TextModel { kerning: None, ..m }),
{
    let kinds = m.kinds();
    let after = m.insert_inactive(kind);
    assert(after.kinds() =~= kinds.insert(m.cursor as int, kind));
    assert(after.kinds().remove(m.cursor as int) =~= kinds);
    assert(flagged(kinds, m.active) =~= m.sorts) by {
        assert forall|i: int| 0 <= i < m.sorts.len() implies flagged(kinds, m.active)[i]
            == m.sorts[i] by {
            assert(m.sorts[i].active == (m.active == Some(i as nat)));
        }
    }
}

/// Inserting the active glyph and deleting it with backspace gives back the
/// buffer's sorts and cursor, with no active sort and no kerning session.
pub proof fn law_insert_active_then_backspace<W>(m: TextModel<W>, kind: SortKindView<W>)
    requires
        m.wf(),
    ensures
        m.insert_active(kind).delete_before() == TextModel::make(
            m.kinds(),
            m.cursor,
            None,
            m.direction,
            None,
        ),
{
    let kinds = m.kinds();
    let after = m.insert_active(kind);
    assert(after.kinds() =~= kinds.insert(m.cursor as int, kind));
    assert(after.kinds().remove(m.cursor as int) =~= kinds);
}

/// Every structural edit (insert, line break, backspace or delete that
/// removes a sort) ends the manual-kerning session.
pub proof fn law_structural_edits_end_kerning<W>(m: TextModel<W>, kind: SortKindView<W>)
    ensures
        m.insert_active(kind).kerning is None,
        m.insert_inactive(kind).kerning is None,
        m.cursor > 0 ==> m.delete_before().kerning is None,
        m.cursor < m.sorts.len() ==> m.delete_after().kerning is None,
{
}

/// Moving the cursor left and then right returns it to where it was,
/// unless it started at the beginning of the buffer.
pub proof fn law_left_then_right<W>(m: TextModel<W>)
    requires
        m.wf(),
        m.cursor > 0,
    ensures
        m.with_cursor(m.left_cursor()).right_cursor() == m.cursor,
{
}

} // verus!

verus! {

/// The glyph name a character takes in shaped text: in right-to-left text,
/// an Arabic character whose positional form has a non-empty suffix takes
/// its base name with that suffix when a glyph of that name exists;
/// otherwise it keeps its base name.
pub open spec fn shaped_name(
    base: Seq<char>,
    direction: TextDirection,
    is_arabic: bool,
    suffix: Seq<char>,
    suffixed_exists: bool,
) -> Seq<char> {
    if direction == TextDirection::RightToLeft && is_arabic && suffix.len() > 0 && suffixed_exists {
        base + suffix
    } else {
        base
    }
}

/// The glyph name a character takes in shaped text (see [`shaped_name`]).
/// The caller gives the character's base glyph name, whether it is Arabic,
/// the suffix of its positional form, and whether the font has a glyph named
/// the base name followed by that suffix.
pub fn shaped_glyph_name(
    base_name: &str,
    direction: TextDirection,
    is_arabic: bool,
    suffix: &str,
    suffixed_exists: bool,
) -> (r: String)
    ensures
        r@ == shaped_name(base_name@, direction, is_arabic, suffix@, suffixed_exists),
{
    let mut name = String::from_str(base_name);
    let rtl = match direction {
        TextDirection::RightToLeft => true,
        TextDirection::LeftToRight => false,
    };
    if rtl && is_arabic && suffix.unicode_len() > 0 && suffixed_exists {
        name.append(suffix);
    }
    name
}

} // verus!
