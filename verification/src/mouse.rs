//! Mouse gesture state machine.
//!
//! Tracks button presses, releases and moves and turns them into high-level
//! gestures: button down/up, clicks, and drags that begin, change and end.
//! Each event returns the gesture calls it produces, in order, for the
//! caller to hand to its gesture handler.
//!
//! Pointer positions are carried as an opaque value `P`; whether a move has
//! travelled past the drag threshold is measured by the caller and passed in.

use vstd::prelude::*;

verus! {

#[derive(Debug, Clone, Copy, PartialEq, Eq, Structural)]
pub enum MouseButton {
    Left,
    Right,
    Other,
}

/// Keyboard modifiers held during a mouse event.
#[derive(Debug, Clone, Copy, PartialEq, Eq, Structural)]
pub struct Modifiers {
    pub shift: bool,
    pub ctrl: bool,
    pub alt: bool,
    pub meta: bool,
}

impl Default for Modifiers {
    fn default() -> (r: Self)
        ensures
            !r.shift && !r.ctrl && !r.alt && !r.meta,
    {
        Modifiers { shift: false, ctrl: false, alt: false, meta: false }
    }
}

/// A pointer event: where it happened, which button it concerns, and the
/// modifiers held.
#[derive(Debug, Clone, Copy)]
pub struct MouseEvent<P> {
    pub pos: P,
    pub button: Option<MouseButton>,
    pub mods: Modifiers,
}

impl<P> MouseEvent<P> {
    /// An event with no modifiers held.
    pub fn new(pos: P, button: Option<MouseButton>) -> (r: Self)
        ensures
            r.pos == pos,
            r.button == button,
            !r.mods.shift && !r.mods.ctrl && !r.mods.alt && !r.mods.meta,
    {
        MouseEvent { pos, button, mods: Modifiers::default() }
    }

    /// An event with the given modifiers held.
    pub fn with_modifiers(pos: P, button: Option<MouseButton>, mods: Modifiers) -> (r: Self)
        ensures
            r.pos == pos,
            r.button == button,
            r.mods == mods,
    {
        MouseEvent { pos, button, mods }
    }
}

/// A drag in progress: where the button went down, the previous pointer
/// position and the current one.
#[derive(Debug, Clone, Copy)]
pub struct Drag<P> {
    pub start: P,
    pub prev: P,
    pub current: P,
}

#[derive(Debug, Clone, Copy, PartialEq, Eq, Structural)]
pub enum MouseState {
    Up,
    Down,
    Drag,
}

/// One call on the gesture handler.
#[derive(Debug, Clone, Copy)]
pub enum MouseCall<P> {
    ButtonDown(MouseButton, MouseEvent<P>),
    ButtonUp(MouseButton, MouseEvent<P>),
    Click(MouseButton, MouseEvent<P>),
    DragBegan(MouseButton, MouseEvent<P>, Drag<P>),
    DragChanged(MouseButton, MouseEvent<P>, Drag<P>),
    DragEnded(MouseButton, MouseEvent<P>, Drag<P>),
    Moved(MouseEvent<P>),
    Cancel,
}

/// The state of the gesture machine.
pub ghost struct MouseModel<P> {
    pub state: MouseState,
    pub button: Option<MouseButton>,
    pub down_pos: P,
    pub last_pos: P,
}

/// The calls that a release of `button` after a click produces.
pub open spec fn click_calls<P>(button: Option<MouseButton>, event: MouseEvent<P>) -> Seq<MouseCall<P>> {
    match button {
        Some(b) => seq![MouseCall::ButtonUp(b, event), MouseCall::Click(b, event)],
        None => seq![],
    }
}

/// The calls that a release of `button` ending a drag produces.
pub open spec fn drag_end_calls<P>(button: Option<MouseButton>, event: MouseEvent<P>, drag: Drag<P>) -> Seq<MouseCall<P>> {
    match button {
        Some(b) => seq![MouseCall::DragEnded(b, event, drag), MouseCall::ButtonUp(b, event)],
        None => seq![],
    }
}

impl<P> MouseModel<P> {
    /// Released state, forgetting the button.
    pub open spec fn reset(self) -> MouseModel<P> {
        MouseModel { state: MouseState::Up, button: None, ..self }
    }

    /// Effect of a button press.
    pub open spec fn press(self, event: MouseEvent<P>) -> (MouseModel<P>, Seq<MouseCall<P>>) {
        if self.state == MouseState::Up {
            (
                MouseModel { state: MouseState::Down, button: event.button, down_pos: event.pos, last_pos: event.pos },
                match event.button {
                    Some(b) => seq![MouseCall::ButtonDown(b, event)],
                    None => seq![],
                },
            )
        } else {
            (self, seq![])
        }
    }

    /// Effect of a button release.
    pub open spec fn release(self, event: MouseEvent<P>) -> (MouseModel<P>, Seq<MouseCall<P>>) {
        match self.state {
            MouseState::Down => (self.reset(), click_calls(event.button, event)),
            MouseState::Drag => (
                self.reset(),
                drag_end_calls(
                    self.button,
                    event,
                    Drag { start: self.down_pos, prev: self.last_pos, current: event.pos },
                ),
            ),
            MouseState::Up => (self, seq![]),
        }
    }

    /// Effect of a pointer move; `past_threshold` tells whether the pointer
    /// is now at least the drag threshold away from where the button went down.
    pub open spec fn move_to(self, event: MouseEvent<P>, past_threshold: bool) -> (MouseModel<P>, Seq<MouseCall<P>>) {
        let drag = Drag { start: self.down_pos, prev: self.last_pos, current: event.pos };
        match self.state {
            MouseState::Up => (MouseModel { last_pos: event.pos, ..self }, seq![MouseCall::Moved(event)]),
            MouseState::Down => if past_threshold {
                (
                    MouseModel { state: MouseState::Drag, last_pos: event.pos, ..self },
                    match self.button {
                        Some(b) => seq![MouseCall::DragBegan(b, event, drag)],
                        None => seq![],
                    },
                )
            } else {
                (MouseModel { last_pos: event.pos, ..self }, seq![])
            },
            MouseState::Drag => (
                MouseModel { last_pos: event.pos, ..self },
                match self.button {
                    Some(b) => seq![MouseCall::DragChanged(b, event, drag)],
                    None => seq![],
                },
            ),
        }
    }
}

/// The mouse gesture state machine.
#[derive(Debug, Clone, Copy)]
pub struct Mouse<P> {
    state: MouseState,
    current_button: Option<MouseButton>,
    down_pos: P,
    last_pos: P,
}

impl<P> View for Mouse<P> {
    type V = MouseModel<P>;

    closed spec fn view(&self) -> MouseModel<P> {
        MouseModel {
            state: self.state,
            button: self.current_button,
            down_pos: self.down_pos,
            last_pos: self.last_pos,
        }
    }
}

impl<P: Copy> Mouse<P> {
    /// A released mouse whose remembered positions are `origin`.
    pub fn new(origin: P) -> (r: Self)
        ensures
            r@ == (MouseModel { state: MouseState::Up, button: None, down_pos: origin, last_pos: origin }),
    {
        Mouse { state: MouseState::Up, current_button: None, down_pos: origin, last_pos: origin }
    }

    /// Whether a button is down or a drag is active.
    pub fn is_active(&self) -> (r: bool)
        ensures
            r == (self@.state != MouseState::Up),
    {
        match self.state {
            MouseState::Up => false,
            _ => true,
        }
    }

    /// Where the current gesture's button went down.
    pub fn down_pos(&self) -> (r: P)
        ensures
            r == self@.down_pos,
    {
        self.down_pos
    }

    /// Whether a move of `button` to a point `past_threshold` promotes the
    /// pressed button into a drag.
    pub fn will_start_drag(&self, button: MouseButton, past_threshold: bool) -> (r: bool)
        ensures
            r == (self@.state == MouseState::Down && self@.button == Some(button) && past_threshold),
    {
        self.state == MouseState::Down && self.current_button == Some(button) && past_threshold
    }

    /// Record a move of the pressed `button` that stays below the drag
    /// threshold. Returns false, and changes nothing, when no such button is
    /// pressed or the move passes the threshold.
    pub fn track_pending_drag_move(&mut self, pos: P, button: MouseButton, past_threshold: bool) -> (r: bool)
        ensures
            r == (old(self)@.state == MouseState::Down && old(self)@.button == Some(button) && !past_threshold),
            r ==> final(self)@ == (MouseModel { last_pos: pos, ..old(self)@ }),
            !r ==> final(self)@ == old(self)@,
    {
        if self.state != MouseState::Down || self.current_button != Some(button) {
            return false;
        }
        if past_threshold {
            return false;
        }
        self.last_pos = pos;
        true
    }

    /// A button press; ignored unless the mouse is released.
    pub fn mouse_down(&mut self, event: MouseEvent<P>) -> (r: Vec<MouseCall<P>>)
        ensures
            (final(self)@, r@) == old(self)@.press(event),
    {
        let mut calls = Vec::new();
        if self.state == MouseState::Up {
            self.state = MouseState::Down;
            self.current_button = event.button;
            self.down_pos = event.pos;
            self.last_pos = event.pos;
            if let Some(b) = event.button {
                calls.push(MouseCall::ButtonDown(b, event));
            }
        }
        assert(calls@ =~= old(self)@.press(event).1);
        calls
    }

    fn reset_state(&mut self)
        ensures
            final(self)@ == old(self)@.reset(),
    {
        self.state = MouseState::Up;
        self.current_button = None;
    }

    /// A button release: a click when no drag began, else the end of the drag.
    pub fn mouse_up(&mut self, event: MouseEvent<P>) -> (r: Vec<MouseCall<P>>)
        ensures
            (final(self)@, r@) == old(self)@.release(event),
    {
        let mut calls = Vec::new();
        match self.state {
            MouseState::Down => {
                if let Some(b) = event.button {
                    calls.push(MouseCall::ButtonUp(b, event));
                    calls.push(MouseCall::Click(b, event));
                }
                self.reset_state();
            },
            MouseState::Drag => {
                let drag = Drag { start: self.down_pos, prev: self.last_pos, current: event.pos };
                if let Some(b) = self.current_button {
                    calls.push(MouseCall::DragEnded(b, event, drag));
                    calls.push(MouseCall::ButtonUp(b, event));
                }
                self.reset_state();
            },
            MouseState::Up => {},
        }
        assert(calls@ =~= old(self)@.release(event).1);
        calls
    }

    /// A pointer move; `past_threshold` tells whether the pointer is at least
    /// the drag threshold away from where the button went down.
    pub fn mouse_moved(&mut self, event: MouseEvent<P>, past_threshold: bool) -> (r: Vec<MouseCall<P>>)
        ensures
            (final(self)@, r@) == old(self)@.move_to(event, past_threshold),
    {
        let mut calls = Vec::new();
        let drag = Drag { start: self.down_pos, prev: self.last_pos, current: event.pos };
        match self.state {
            MouseState::Up => {
                self.last_pos = event.pos;
                calls.push(MouseCall::Moved(event));
            },
            MouseState::Down => {
                if past_threshold {
                    self.state = MouseState::Drag;
                    if let Some(b) = self.current_button {
                        calls.push(MouseCall::DragBegan(b, event, drag));
                    }
                }
                self.last_pos = event.pos;
            },
            MouseState::Drag => {
                if let Some(b) = self.current_button {
                    calls.push(MouseCall::DragChanged(b, event, drag));
                }
                self.last_pos = event.pos;
            },
        }
        assert(calls@ =~= old(self)@.move_to(event, past_threshold).1);
        calls
    }

    /// Abandon the current gesture.
    pub fn cancel(&mut self) -> (r: Vec<MouseCall<P>>)
        ensures
            final(self)@ == old(self)@.reset(),
            r@ == seq![MouseCall::<P>::Cancel],
    {
        let mut calls = Vec::new();
        calls.push(MouseCall::Cancel);
        self.reset_state();
        assert(calls@ =~= seq![MouseCall::<P>::Cancel]);
        calls
    }
}

/// After a release or a cancel the mouse is inactive; a release that ends
/// a press or a drag also forgets the button.
pub proof fn law_release_ends_gesture<P>(m: MouseModel<P>, event: MouseEvent<P>)
    ensures
        m.release(event).0.state == MouseState::Up,
        m.state != MouseState::Up ==> m.release(event).0.button is None,
        m.reset().state == MouseState::Up,
        m.reset().button is None,
{
}

/// A press and release of a button with no move past the threshold in
/// between is a click: the press reports the button down, the release
/// reports the button up and then the click.
pub proof fn law_press_release_is_click<P>(
    m: MouseModel<P>,
    down: MouseEvent<P>,
    moves: Seq<MouseEvent<P>>,
    up: MouseEvent<P>,
    b: MouseButton,
)
    requires
        m.state == MouseState::Up,
        down.button == Some(b),
        up.button == Some(b),
    ensures
        m.press(down).1 == seq![MouseCall::ButtonDown(b, down)],
        below_threshold(m.press(down).0, moves).state == MouseState::Down,
        below_threshold(m.press(down).0, moves).button == Some(b),
        release_calls_after(m.press(down).0, moves, up) == seq![
            MouseCall::ButtonUp(b, up),
            MouseCall::Click(b, up),
        ],
    decreases moves.len(),
{
    lemma_below_threshold_stays_down(m.press(down).0, moves);
}

/// The state after a series of moves that all stay below the drag threshold.
pub open spec fn below_threshold<P>(m: MouseModel<P>, moves: Seq<MouseEvent<P>>) -> MouseModel<P>
    decreases moves.len(),
{
    if moves.len() == 0 {
        m
    } else {
        below_threshold(m.move_to(moves[0], false).0, moves.drop_first())
    }
}

/// The calls of a release that follows such a series of moves.
pub open spec fn release_calls_after<P>(m: MouseModel<P>, moves: Seq<MouseEvent<P>>, up: MouseEvent<P>) -> Seq<MouseCall<P>> {
    below_threshold(m, moves).release(up).1
}

proof fn lemma_below_threshold_stays_down<P>(m: MouseModel<P>, moves: Seq<MouseEvent<P>>)
    requires
        m.state == MouseState::Down,
    ensures
        below_threshold(m, moves).state == MouseState::Down,
        below_threshold(m, moves).button == m.button,
    decreases moves.len(),
{
    if moves.len() > 0 {
        lemma_below_threshold_stays_down(m.move_to(moves[0], false).0, moves.drop_first());
    }
}

} // verus!

verus! {

/// The state and calls after a series of pointer moves, each with whether
/// it is past the drag threshold, in order.
pub open spec fn run_moves<P>(m: MouseModel<P>, moves: Seq<(MouseEvent<P>, bool)>) -> (MouseModel<P>, Seq<MouseCall<P>>)
    decreases moves.len(),
{
    if moves.len() == 0 {
        (m, seq![])
    } else {
        let (m1, c1) = run_moves(m, moves.drop_last());
        let (m2, c2) = m1.move_to(moves.last().0, moves.last().1);
        (m2, c1 + c2)
    }
}

/// Where the pointer was before move `i`: the previous move, or `start`.
pub open spec fn position_before<P>(start: P, moves: Seq<(MouseEvent<P>, bool)>, i: int) -> P {
    if i == 0 {
        start
    } else {
        moves[i - 1].0.pos
    }
}

/// The calls of a drag of `b` from `start` whose first move past the
/// threshold is move `f`: the drag begins there, and every later move
/// changes it.
pub open spec fn drag_move_calls<P>(start: P, moves: Seq<(MouseEvent<P>, bool)>, b: MouseButton, f: int) -> Seq<MouseCall<P>> {
    Seq::new(
        (moves.len() - f) as nat,
        |k: int|
            {
                let i = f + k;
                let drag = Drag { start, prev: position_before(start, moves, i), current: moves[i].0.pos };
                if k == 0 {
                    MouseCall::DragBegan(b, moves[i].0, drag)
                } else {
                    MouseCall::DragChanged(b, moves[i].0, drag)
                }
            },
    )
}

proof fn lemma_moves_below<P>(m: MouseModel<P>, moves: Seq<(MouseEvent<P>, bool)>)
    requires
        m.state == MouseState::Down,
        forall|i: int| 0 <= i < moves.len() ==> !(#[trigger] moves[i]).1,
    ensures
        run_moves(m, moves).0 == (MouseModel {
            last_pos: if moves.len() == 0 { m.last_pos } else { moves.last().0.pos },
            ..m
        }),
        run_moves(m, moves).1 == Seq::<MouseCall<P>>::empty(),
    decreases moves.len(),
{
    if moves.len() > 0 {
        let prefix = moves.drop_last();
        assert forall|i: int| 0 <= i < prefix.len() implies !(#[trigger] prefix[i]).1 by {
            assert(prefix[i] == moves[i]);
        }
        lemma_moves_below(m, prefix);
        assert(!moves[moves.len() - 1].1);
    }
}

proof fn lemma_moves_drag<P>(m: MouseModel<P>, moves: Seq<(MouseEvent<P>, bool)>, f: int, b: MouseButton)
    requires
        m.state == MouseState::Down,
        m.button == Some(b),
        m.last_pos == m.down_pos,
        0 <= f < moves.len(),
        moves[f].1,
        forall|i: int| 0 <= i < f ==> !(#[trigger] moves[i]).1,
    ensures
        run_moves(m, moves).0 == (MouseModel {
            state: MouseState::Drag,
            last_pos: moves.last().0.pos,
            ..m
        }),
        run_moves(m, moves).1 == drag_move_calls(m.down_pos, moves, b, f),
    decreases moves.len(),
{
    let n = moves.len() as int;
    let prefix = moves.drop_last();
    if n - 1 == f {
        assert forall|i: int| 0 <= i < prefix.len() implies !(#[trigger] prefix[i]).1 by {
            assert(prefix[i] == moves[i]);
        }
        lemma_moves_below(m, prefix);
        if f > 0 {
            assert(prefix.last() == moves[f - 1]);
        }
        assert(run_moves(m, moves).1 =~= drag_move_calls(m.down_pos, moves, b, f));
    } else {
        assert(prefix[f] == moves[f]);
        assert forall|i: int| 0 <= i < f implies !(#[trigger] prefix[i]).1 by {
            assert(prefix[i] == moves[i]);
        }
        lemma_moves_drag(m, prefix, f, b);
        let before = drag_move_calls(m.down_pos, prefix, b, f);
        assert(prefix.last() == moves[n - 2]);
        assert forall|k: int| 0 <= k < before.len() implies #[trigger] before[k] == drag_move_calls(
            m.down_pos,
            moves,
            b,
            f,
        )[k] by {
            assert(prefix[f + k] == moves[f + k]);
            if f + k > 0 {
                assert(prefix[f + k - 1] == moves[f + k - 1]);
            }
        }
        assert(run_moves(m, moves).1 =~= drag_move_calls(m.down_pos, moves, b, f));
    }
}

/// A press of a button, moves of which one goes past the drag threshold,
/// and a release make a drag: the press reports the button down; the moves
/// report the drag beginning at the first move past the threshold and
/// changing at each later move; the release reports the drag ended (from
/// where the button went down, through the last position, to the release
/// position) and then the button up, with no click, and leaves the machine
/// idle.
pub proof fn law_press_drag_release_is_drag<P>(
    m: MouseModel<P>,
    down: MouseEvent<P>,
    moves: Seq<(MouseEvent<P>, bool)>,
    f: int,
    up: MouseEvent<P>,
    b: MouseButton,
)
    requires
        m.state == MouseState::Up,
        down.button == Some(b),
        0 <= f < moves.len(),
        moves[f].1,
        forall|i: int| 0 <= i < f ==> !(#[trigger] moves[i]).1,
    ensures
        m.press(down).1 == seq![MouseCall::ButtonDown(b, down)],
        run_moves(m.press(down).0, moves).0.state == MouseState::Drag,
        run_moves(m.press(down).0, moves).0.button == Some(b),
        run_moves(m.press(down).0, moves).1 == drag_move_calls(down.pos, moves, b, f),
        run_moves(m.press(down).0, moves).0.release(up).1 == seq![
            MouseCall::DragEnded(b, up, Drag { start: down.pos, prev: moves.last().0.pos, current: up.pos }),
            MouseCall::ButtonUp(b, up),
        ],
        run_moves(m.press(down).0, moves).0.release(up).0.state == MouseState::Up,
{
    lemma_moves_drag(m.press(down).0, moves, f, b);
}

} // verus!
