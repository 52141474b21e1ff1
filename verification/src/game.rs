//! Game state: the cursor, the set of marked cells, the screen, and the
//! transition applied for every input event.
use vstd::prelude::*;

verus! {

/// A position on the 5x5 grid: both components of every coordinate the game
/// produces lie in `[0, 4]`.
#[derive(Clone, Copy, Debug, PartialEq, Eq, Structural)]
pub struct Coordinate {
    pub x: u32,
    pub y: u32,
}

impl Coordinate {
    pub fn default() -> (c: Coordinate)
        ensures
            c == (Coordinate { x: 0, y: 0 }),
    {
        Coordinate { x: 0, y: 0 }
    }
}

/// The player's cursor: a single coordinate, clamped to the grid on every move.
#[derive(Clone, Copy, Debug, PartialEq, Eq, Structural)]
pub struct Cursor {
    pub position: Coordinate,
}

impl Cursor {
    pub fn default() -> (c: Cursor)
        ensures
            c.position == (Coordinate { x: 0, y: 0 }),
    {
        Cursor { position: Coordinate::default() }
    }
}

/// The screen being shown: the playing grid, or the banner after a win.
#[derive(Clone, Copy, Debug, PartialEq, Eq, Structural)]
pub enum CurrentWindow {
    Game,
    YouWon,
}

/// A key press, reduced to the keys the game reacts to.
#[derive(Clone, Copy, Debug, PartialEq, Eq, Structural)]
pub enum Key {
    Quit,
    Up,
    Down,
    Left,
    Right,
    Enter,
    Other,
}

/// One message from the input source: a key press, or a periodic tick.
#[derive(Clone, Copy, Debug, PartialEq, Eq, Structural)]
pub enum Event {
    Input(Key),
    Tick,
}

/// What the event loop should do after an event has been applied.
#[derive(Clone, Copy, Debug, PartialEq, Eq, Structural)]
pub enum Action {
    Quit,
    ChangeScreen(CurrentWindow),
    Tick,
    Nop,
}

/// How many milliseconds one tick budget lasts: the input source emits a tick
/// at least this often when no key arrives.
pub const TICK_RATE_MS: u64 = 200;

/// The unspent part of the tick budget: how long the input source may still
/// wait for a key before it owes a tick. Never negative.
pub fn remaining_budget_ms(tick_ms: u64, elapsed_ms: u64) -> (r: u64)
    ensures
        elapsed_ms < tick_ms ==> r == tick_ms - elapsed_ms,
        elapsed_ms >= tick_ms ==> r == 0,
{
    if elapsed_ms < tick_ms {
        tick_ms - elapsed_ms
    } else {
        0
    }
}

/// Both components of the coordinate lie on the 5x5 grid.
pub open spec fn in_grid(c: Coordinate) -> bool {
    c.x < 5 && c.y < 5
}

/// Every shot in the sequence lies on the grid.
pub open spec fn all_in_grid(shots: Seq<Coordinate>) -> bool {
    forall|i: int| 0 <= i < shots.len() ==> in_grid(#[trigger] shots[i])
}

/// No coordinate occurs twice in the sequence.
pub open spec fn no_dup(shots: Seq<Coordinate>) -> bool {
    forall|i: int, j: int|
        #![trigger shots[i], shots[j]]
        0 <= i < j < shots.len() ==> shots[i] != shots[j]
}

/// The set of marked cells that a sequence of shots represents.
pub open spec fn shot_set(shots: Seq<Coordinate>) -> Set<(int, int)> {
    Set::new(
        |p: (int, int)|
            exists|i: int|
                0 <= i < shots.len() && (#[trigger] shots[i]).x == p.0 && shots[i].y == p.1,
    )
}

/// Membership of `c` in the marked set, flipped.
pub open spec fn spec_toggle(s: Set<(int, int)>, c: (int, int)) -> Set<(int, int)> {
    if s.contains(c) {
        s.remove(c)
    } else {
        s.insert(c)
    }
}

/// All five cells whose first component is `k` are marked.
pub open spec fn x_line_full(s: Set<(int, int)>, k: int) -> bool {
    forall|b: int| 0 <= b < 5 ==> s.contains((k, b))
}

/// All five cells whose second component is `k` are marked.
pub open spec fn y_line_full(s: Set<(int, int)>, k: int) -> bool {
    forall|a: int| 0 <= a < 5 ==> s.contains((a, k))
}

/// Some axis-line of the grid is fully marked: the win condition.
pub open spec fn spec_win(s: Set<(int, int)>) -> bool {
    exists|k: int|
        #![trigger x_line_full(s, k)]
        #![trigger y_line_full(s, k)]
        0 <= k < 5 && (x_line_full(s, k) || y_line_full(s, k))
}

/// Whether the cell `(x, y)` is marked.
fn contains_shot(shots: &Vec<Coordinate>, x: u32, y: u32) -> (b: bool)
    ensures
        b == shot_set(shots@).contains((x as int, y as int)),
{
    let mut i: usize = 0;
    while i < shots.len()
        invariant
            i <= shots@.len(),
            forall|j: int| 0 <= j < i ==> !((#[trigger] shots@[j]).x == x && shots@[j].y == y),
        decreases shots@.len() - i,
    {
        if shots[i].x == x && shots[i].y == y {
            return true;
        }
        i = i + 1;
    }
    false
}

/// The first index holding the given coordinate, if any.
fn find_shot(shots: &Vec<Coordinate>, shot: Coordinate) -> (r: Option<usize>)
    ensures
        match r {
            Some(i) => i < shots@.len() && shots@[i as int] == shot && forall|j: int|
                0 <= j < i ==> shots@[j] != shot,
            None => !shot_set(shots@).contains((shot.x as int, shot.y as int)),
        },
{
    let mut i: usize = 0;
    while i < shots.len()
        invariant
            i <= shots@.len(),
            forall|j: int| 0 <= j < i ==> #[trigger] shots@[j] != shot,
        decreases shots@.len() - i,
    {
        if shots[i].x == shot.x && shots[i].y == shot.y {
            assert(shots@[i as int] == shot);
            return Some(i);
        }
        i = i + 1;
    }
    None
}

/// Appending a shot adds exactly its cell to the marked set.
proof fn lemma_shot_set_push(shots: Seq<Coordinate>, c: Coordinate)
    ensures
        shot_set(shots.push(c)) == shot_set(shots).insert((c.x as int, c.y as int)),
{
    let lhs = shot_set(shots.push(c));
    let rhs = shot_set(shots).insert((c.x as int, c.y as int));
    assert forall|p: (int, int)| lhs.contains(p) implies rhs.contains(p) by {
        let i = choose|i: int|
            0 <= i < shots.push(c).len() && (#[trigger] shots.push(c)[i]).x == p.0
                && shots.push(c)[i].y == p.1;
        if i < shots.len() {
            assert(shots[i] == shots.push(c)[i]);
        }
    };
    assert forall|p: (int, int)| rhs.contains(p) implies lhs.contains(p) by {
        if p == ((c.x as int, c.y as int)) {
            assert(shots.push(c)[shots.len() as int] == c);
        } else {
            let i = choose|i: int|
                0 <= i < shots.len() && (#[trigger] shots[i]).x == p.0 && shots[i].y == p.1;
            assert(shots.push(c)[i] == shots[i]);
        }
    };
    assert(lhs =~= rhs);
}

/// Removing the one occurrence of a shot removes exactly its cell from the
/// marked set, provided no coordinate occurs twice.
proof fn lemma_shot_set_remove(shots: Seq<Coordinate>, i: int)
    requires
        no_dup(shots),
        0 <= i < shots.len(),
    ensures
        shot_set(shots.remove(i)) == shot_set(shots).remove(
            (shots[i].x as int, shots[i].y as int),
        ),
{
    let c = shots[i];
    let lhs = shot_set(shots.remove(i));
    let rhs = shot_set(shots).remove((c.x as int, c.y as int));
    assert forall|p: (int, int)| lhs.contains(p) implies rhs.contains(p) by {
        let j = choose|j: int|
            0 <= j < shots.remove(i).len() && (#[trigger] shots.remove(i)[j]).x == p.0
                && shots.remove(i)[j].y == p.1;
        let j0: int = if j < i {
            j
        } else {
            j + 1
        };
        assert(shots.remove(i)[j] == shots[j0]);
        assert(shots[j0].x == p.0 && shots[j0].y == p.1);
        assert(shots[j0] != shots[i] || j0 == i);
        assert(p != ((c.x as int, c.y as int)));
    };
    assert forall|p: (int, int)| rhs.contains(p) implies lhs.contains(p) by {
        let j = choose|j: int|
            0 <= j < shots.len() && (#[trigger] shots[j]).x == p.0 && shots[j].y == p.1;
        assert(j != i);
        let j0: int = if j < i {
            j
        } else {
            j - 1
        };
        assert(shots.remove(i)[j0] == shots[j]);
    };
    assert(lhs =~= rhs);
}

/// With no coordinate occurring twice, the marked set is finite and exactly
/// as large as the sequence of shots behind it.
proof fn lemma_shot_set_len(shots: Seq<Coordinate>)
    requires
        no_dup(shots),
    ensures
        shot_set(shots).finite(),
        shot_set(shots).len() == shots.len(),
    decreases shots.len(),
{
    broadcast use vstd::set::group_set_axioms;

    if shots.len() == 0 {
        assert(shot_set(shots) =~= Set::<(int, int)>::empty());
    } else {
        let prefix = shots.drop_last();
        let c = shots.last();
        assert forall|i: int, j: int|
            #![trigger prefix[i], prefix[j]]
            0 <= i < j < prefix.len() implies prefix[i] != prefix[j] by {
            assert(prefix[i] == shots[i] && prefix[j] == shots[j]);
        };
        lemma_shot_set_len(prefix);
        assert(shots =~= prefix.push(c));
        lemma_shot_set_push(prefix, c);
        if shot_set(prefix).contains((c.x as int, c.y as int)) {
            let i = choose|i: int|
                0 <= i < prefix.len() && (#[trigger] prefix[i]).x == c.x as int && prefix[i].y
                    == c.y as int;
            assert(shots[i] == prefix[i]);
            assert(shots[shots.len() - 1] == c);
            assert(false);
        }
        vstd::set::axiom_set_insert_len(shot_set(prefix), (c.x as int, c.y as int));
    }
}

/// Whether all five cells with first component `k` are marked.
fn x_line_complete(shots: &Vec<Coordinate>, k: u32) -> (b: bool)
    ensures
        b == x_line_full(shot_set(shots@), k as int),
{
    let mut y: u32 = 0;
    while y < 5
        invariant
            y <= 5,
            forall|b: int| 0 <= b < y ==> shot_set(shots@).contains((k as int, b)),
        decreases 5 - y,
    {
        if !contains_shot(shots, k, y) {
            return false;
        }
        y = y + 1;
    }
    true
}

/// Whether all five cells with second component `k` are marked.
fn y_line_complete(shots: &Vec<Coordinate>, k: u32) -> (b: bool)
    ensures
        b == y_line_full(shot_set(shots@), k as int),
{
    let mut x: u32 = 0;
    while x < 5
        invariant
            x <= 5,
            forall|a: int| 0 <= a < x ==> shot_set(shots@).contains((a, k as int)),
        decreases 5 - x,
    {
        if !contains_shot(shots, x, k) {
            return false;
        }
        x = x + 1;
    }
    true
}

/// Whether some row or column of the grid is fully marked.
fn check_win(shots: &Vec<Coordinate>) -> (b: bool)
    ensures
        b == spec_win(shot_set(shots@)),
{
    let mut k: u32 = 0;
    while k < 5
        invariant
            k <= 5,
            forall|j: int|
                0 <= j < k ==> !x_line_full(shot_set(shots@), j) && !y_line_full(
                    shot_set(shots@),
                    j,
                ),
        decreases 5 - k,
    {
        if x_line_complete(shots, k) || y_line_complete(shots, k) {
            return true;
        }
        k = k + 1;
    }
    false
}

/// Toggle the given cell in the marked set, then report whether some row or
/// column is now fully marked: the win is announced as a screen change.
pub fn mark_shot(all_shots: &mut Vec<Coordinate>, shot: Coordinate) -> (r: Action)
    requires
        in_grid(shot),
        all_in_grid(old(all_shots)@),
        no_dup(old(all_shots)@),
    ensures
        all_in_grid(final(all_shots)@),
        no_dup(final(all_shots)@),
        shot_set(final(all_shots)@) == spec_toggle(
            shot_set(old(all_shots)@),
            (shot.x as int, shot.y as int),
        ),
        r == (if spec_win(shot_set(final(all_shots)@)) {
            Action::ChangeScreen(CurrentWindow::YouWon)
        } else {
            Action::Nop
        }),
{
    match find_shot(all_shots, shot) {
        Some(index) => {
            let ghost before = all_shots@;
            all_shots.remove(index);
            proof {
                lemma_shot_set_remove(before, index as int);
                assert forall|i: int, j: int|
                    0 <= i < j < all_shots@.len() implies #[trigger] all_shots@[i]
                    != #[trigger] all_shots@[j] by {
                    let i0: int = if i < index {
                        i
                    } else {
                        i + 1
                    };
                    let j0: int = if j < index {
                        j
                    } else {
                        j + 1
                    };
                    assert(all_shots@[i] == before[i0] && all_shots@[j] == before[j0]);
                };
                assert forall|i: int| 0 <= i < all_shots@.len() implies in_grid(
                    #[trigger] all_shots@[i],
                ) by {
                    let i0: int = if i < index {
                        i
                    } else {
                        i + 1
                    };
                    assert(all_shots@[i] == before[i0]);
                };
            }
        },
        None => {
            let ghost before = all_shots@;
            all_shots.push(shot);
            proof {
                lemma_shot_set_push(before, shot);
                assert forall|i: int, j: int|
                    0 <= i < j < all_shots@.len() implies #[trigger] all_shots@[i]
                    != #[trigger] all_shots@[j] by {
                    if j == before.len() {
                        assert(all_shots@[i] == before[i]);
                        assert(shot_set(before).contains(
                            (all_shots@[j].x as int, all_shots@[j].y as int),
                        ) == false);
                    }
                };
                assert forall|i: int| 0 <= i < all_shots@.len() implies in_grid(
                    #[trigger] all_shots@[i],
                ) by {
                    if i < before.len() {
                        assert(all_shots@[i] == before[i]);
                    } else {
                        assert(all_shots@[i] == shot);
                    }
                };
            }
        },
    }
    if check_win(all_shots) {
        Action::ChangeScreen(CurrentWindow::YouWon)
    } else {
        Action::Nop
    }
}

/// The cell a toggle at cursor position `c` acts on: the two axes are
/// swapped between cursor movement and mark lookup.
pub open spec fn toggled_cell(c: Coordinate) -> (int, int) {
    (c.y as int, c.x as int)
}

/// Where the cursor stands after one key, clamped to the grid.
pub open spec fn cursor_after(c: Coordinate, key: Key) -> Coordinate {
    match key {
        Key::Down => if c.x < 4 {
            Coordinate { x: (c.x + 1) as u32, y: c.y }
        } else {
            c
        },
        Key::Up => if c.x > 0 {
            Coordinate { x: (c.x - 1) as u32, y: c.y }
        } else {
            c
        },
        Key::Left => if c.y > 0 {
            Coordinate { x: c.x, y: (c.y - 1) as u32 }
        } else {
            c
        },
        Key::Right => if c.y < 4 {
            Coordinate { x: c.x, y: (c.y + 1) as u32 }
        } else {
            c
        },
        _ => c,
    }
}

/// Where the cursor stands after one event.
pub open spec fn event_cursor(c: Coordinate, ev: Event) -> Coordinate {
    match ev {
        Event::Input(key) => cursor_after(c, key),
        Event::Tick => c,
    }
}

/// The marked set after one event: only a toggle changes it.
pub open spec fn event_marks(m: Set<(int, int)>, c: Coordinate, ev: Event) -> Set<(int, int)> {
    match ev {
        Event::Input(key) => if key is Enter {
            spec_toggle(m, toggled_cell(c))
        } else {
            m
        },
        Event::Tick => m,
    }
}

/// The action one event yields: quit, a screen change on a win, a tick, or
/// nothing.
pub open spec fn event_action(m: Set<(int, int)>, c: Coordinate, ev: Event) -> Action {
    match ev {
        Event::Input(key) => match key {
            Key::Quit => Action::Quit,
            Key::Enter => if spec_win(spec_toggle(m, toggled_cell(c))) {
                Action::ChangeScreen(CurrentWindow::YouWon)
            } else {
                Action::Nop
            },
            _ => Action::Nop,
        },
        Event::Tick => Action::Tick,
    }
}

/// Apply one event to the cursor and the marked cells: directional keys move
/// the cursor within the grid, the confirm key toggles the cell under it (with
/// the two axes swapped) and announces a win, the quit key asks the caller to
/// stop, and everything else is a no-op.
pub fn handle_input(event: Event, all_shots: &mut Vec<Coordinate>, cursor: &mut Cursor) -> (r:
    Action)
    requires
        in_grid(old(cursor).position),
        all_in_grid(old(all_shots)@),
        no_dup(old(all_shots)@),
    ensures
        in_grid(final(cursor).position),
        all_in_grid(final(all_shots)@),
        no_dup(final(all_shots)@),
        final(cursor).position == event_cursor(old(cursor).position, event),
        shot_set(final(all_shots)@) == event_marks(
            shot_set(old(all_shots)@),
            old(cursor).position,
            event,
        ),
        r == event_action(shot_set(old(all_shots)@), old(cursor).position, event),
{
    match event {
        Event::Input(key) => match key {
            Key::Quit => Action::Quit,
            Key::Down => {
                if cursor.position.x < 4 {
                    cursor.position.x = cursor.position.x + 1;
                }
                Action::Nop
            },
            Key::Up => {
                if cursor.position.x > 0 {
                    cursor.position.x = cursor.position.x - 1;
                }
                Action::Nop
            },
            Key::Left => {
                if cursor.position.y > 0 {
                    cursor.position.y = cursor.position.y - 1;
                }
                Action::Nop
            },
            Key::Right => {
                if cursor.position.y < 4 {
                    cursor.position.y = cursor.position.y + 1;
                }
                Action::Nop
            },
            Key::Enter => mark_shot(
                all_shots,
                Coordinate { x: cursor.position.y, y: cursor.position.x },
            ),
            Key::Other => Action::Nop,
        },
        Event::Tick => Action::Tick,
    }
}

/// Law: toggling the same cell twice returns the marked set to its prior
/// state exactly.
pub proof fn lemma_toggle_twice(s: Set<(int, int)>, c: (int, int))
    ensures
        spec_toggle(spec_toggle(s, c), c) == s,
{
    if s.contains(c) {
        assert(spec_toggle(spec_toggle(s, c), c) =~= s);
    } else {
        assert(spec_toggle(spec_toggle(s, c), c) =~= s);
    }
}

/// Law: a move off the grid's edge is a no-op, and every other move changes
/// exactly one axis by exactly one.
pub proof fn lemma_cursor_moves(c: Coordinate)
    requires
        in_grid(c),
    ensures
        c.x == 0 ==> cursor_after(c, Key::Up) == c,
        c.y == 0 ==> cursor_after(c, Key::Left) == c,
        c.x == 4 ==> cursor_after(c, Key::Down) == c,
        c.y == 4 ==> cursor_after(c, Key::Right) == c,
        c.x < 4 ==> cursor_after(c, Key::Down) == (Coordinate { x: (c.x + 1) as u32, y: c.y }),
        c.x > 0 ==> cursor_after(c, Key::Up) == (Coordinate { x: (c.x - 1) as u32, y: c.y }),
        c.y > 0 ==> cursor_after(c, Key::Left) == (Coordinate { x: c.x, y: (c.y - 1) as u32 }),
        c.y < 4 ==> cursor_after(c, Key::Right) == (Coordinate { x: c.x, y: (c.y + 1) as u32 }),
{
}

/// The whole mutable state of one session: the cursor, the marked cells and
/// the screen being shown. Every value keeps its cursor on the grid and its
/// marked cells on the grid and free of duplicates.
pub struct GameState {
    cursor: Cursor,
    all_shots: Vec<Coordinate>,
    current_screen: CurrentWindow,
}

impl GameState {
    #[verifier::type_invariant]
    spec fn wf(self) -> bool {
        in_grid(self.cursor.position) && all_in_grid(self.all_shots@) && no_dup(self.all_shots@)
    }

    /// The cursor's position.
    pub closed spec fn cursor_at(self) -> Coordinate {
        self.cursor.position
    }

    /// The set of marked cells.
    pub closed spec fn marks(self) -> Set<(int, int)> {
        shot_set(self.all_shots@)
    }

    /// The screen being shown.
    pub closed spec fn screen(self) -> CurrentWindow {
        self.current_screen
    }

    /// A fresh session: cursor at the origin, nothing marked, playing screen.
    pub fn new() -> (s: GameState)
        ensures
            s.cursor_at() == (Coordinate { x: 0, y: 0 }),
            s.marks() == Set::<(int, int)>::empty(),
            s.screen() == CurrentWindow::Game,
    {
        let s = GameState {
            cursor: Cursor::default(),
            all_shots: Vec::new(),
            current_screen: CurrentWindow::Game,
        };
        proof {
            assert(s.marks() =~= Set::<(int, int)>::empty());
        }
        s
    }

    /// Apply one event to the session. The cursor and the marked cells change
    /// as `handle_input` says; the screen follows the action, so it switches
    /// to the winning banner when a line completes and is never left again.
    pub fn step(&mut self, event: Event) -> (r: Action)
        ensures
            final(self).cursor_at() == event_cursor(old(self).cursor_at(), event),
            final(self).marks() == event_marks(old(self).marks(), old(self).cursor_at(), event),
            r == event_action(old(self).marks(), old(self).cursor_at(), event),
            final(self).screen() == (match r {
                Action::ChangeScreen(w) => w,
                _ => old(self).screen(),
            }),
            old(self).screen() is YouWon ==> final(self).screen() is YouWon,
    {
        proof {
            use_type_invariant(&*self);
        }
        let mut shots: Vec<Coordinate> = Vec::new();
        core::mem::swap(&mut shots, &mut self.all_shots);
        let mut cur = self.cursor;
        let act = handle_input(event, &mut shots, &mut cur);
        self.cursor = cur;
        core::mem::swap(&mut shots, &mut self.all_shots);
        match act {
            Action::ChangeScreen(w) => {
                self.current_screen = w;
            },
            _ => {},
        }
        act
    }

    /// The cursor's position.
    pub fn position(&self) -> (c: Coordinate)
        ensures
            c == self.cursor_at(),
    {
        self.cursor.position
    }

    /// The screen being shown.
    pub fn screen_now(&self) -> (w: CurrentWindow)
        ensures
            w == self.screen(),
    {
        self.current_screen
    }

    /// Whether the cell `(x, y)` is marked.
    pub fn is_marked(&self, x: u32, y: u32) -> (b: bool)
        ensures
            b == self.marks().contains((x as int, y as int)),
    {
        contains_shot(&self.all_shots, x, y)
    }

    /// How many cells are marked.
    pub fn shot_count(&self) -> (n: usize)
        ensures
            self.marks().finite(),
            n == self.marks().len(),
            n == 0 <==> self.marks() == Set::<(int, int)>::empty(),
    {
        proof {
            use_type_invariant(&*self);
            lemma_shot_set_len(self.all_shots@);
            if self.all_shots@.len() == 0 {
                assert(self.marks() =~= Set::<(int, int)>::empty());
            } else {
                let c = self.all_shots@[0];
                assert(self.marks().contains((c.x as int, c.y as int)));
            }
        }
        self.all_shots.len()
    }
}

/// Law: the quit key yields the quit action and leaves cursor and marks
/// untouched, whatever the state.
pub proof fn lemma_quit_inert(m: Set<(int, int)>, c: Coordinate)
    ensures
        event_action(m, c, Event::Input(Key::Quit)) == Action::Quit,
        event_cursor(c, Event::Input(Key::Quit)) == c,
        event_marks(m, c, Event::Input(Key::Quit)) == m,
{
}

} // verus!

