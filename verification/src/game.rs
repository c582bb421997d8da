//! The game session: startup configuration, mutable session state, and
//! the per-event state transitions of the main loop.

use vstd::prelude::*;

use vstd::string::StringExecFns;
use crate::cell::{Cell, Color, spec_color_of_index, COLOR_COUNT};
use crate::board::{
    Board, grid_all_dead, grid_set, grid_randomized, population_rel, lemma_dead_grid_population,
};

verus! {

/// The tick interval grows and shrinks by this many milliseconds.
pub const SPEED_STEP_MS: u64 = 100;

/// The tick interval never exceeds this many milliseconds.
pub const SPEED_MAX_MS: u64 = 10000;

/// A session starts with this tick interval, in milliseconds.
pub const DEFAULT_SPEED_MS: u64 = 100;

/// The fixed per-frame budget, in milliseconds: the loop sleeps up to
/// this long after each frame.
pub const FRAME_BUDGET_MS: u64 = 15;

/// The startup flags: debug overlay, double-width cells, scoreboard
/// overlay. All three stay toggleable at runtime.
#[derive(Copy, Clone, Eq, PartialEq, Structural, Debug)]
pub struct Config {
    pub debug: bool,
    pub wide: bool,
    pub scoreboard: bool,
}

/// Some argument reads exactly as `flag`.
pub open spec fn has_flag(args: Seq<String>, flag: Seq<char>) -> bool {
    exists|i: int| 0 <= i < args.len() && #[trigger] args[i]@ == flag
}

/// Scanning one more argument finds a flag exactly when the arguments so
/// far held it or the new argument reads as it.
proof fn lemma_has_flag_extend(args: Seq<String>, i: int, f: Seq<char>)
    requires
        0 <= i < args.len(),
    ensures
        has_flag(args.take(i + 1), f) == (has_flag(args.take(i), f) || args[i]@ == f),
{
    let pre = args.take(i);
    let cur = args.take(i + 1);
    assert(cur.drop_last() =~= pre);
    assert(cur.last() == args[i]);
    if has_flag(cur, f) {
        let j = choose|j: int| 0 <= j < cur.len() && cur[j]@ == f;
        if j < i {
            assert(pre[j]@ == f);
        } else {
            assert(args[i]@ == f);
        }
    }
    if has_flag(pre, f) {
        let j = choose|j: int| 0 <= j < pre.len() && pre[j]@ == f;
        assert(cur[j]@ == f);
    }
    if args[i]@ == f {
        assert(cur[i]@ == f);
    }
}

impl Config {
    /// Reads the startup flags from the process arguments: `-debug`,
    /// `-wide`, and `-score` each switch one flag on; anything else is
    /// ignored.
    pub fn new(args: &Vec<String>) -> (c: Config)
        ensures
            c.debug == has_flag(args@, "-debug"@),
            c.wide == has_flag(args@, "-wide"@),
            c.scoreboard == has_flag(args@, "-score"@),
    {
        let flag_debug = String::from_str("-debug");
        let flag_wide = String::from_str("-wide");
        let flag_score = String::from_str("-score");
        let mut debug = false;
        let mut wide = false;
        let mut scoreboard = false;
        let mut i: usize = 0;
        while i < args.len()
            invariant
                i <= args@.len(),
                flag_debug@ == "-debug"@,
                flag_wide@ == "-wide"@,
                flag_score@ == "-score"@,
                debug == has_flag(args@.take(i as int), "-debug"@),
                wide == has_flag(args@.take(i as int), "-wide"@),
                scoreboard == has_flag(args@.take(i as int), "-score"@),
            decreases args@.len() - i,
        {
            proof {
                reveal_strlit("-debug");
                reveal_strlit("-wide");
                reveal_strlit("-score");
            }
            let arg = &args[i];
            if arg.eq(&flag_debug) {
                debug = true;
            } else if arg.eq(&flag_wide) {
                wide = true;
            } else if arg.eq(&flag_score) {
                scoreboard = true;
            }
            proof {
                lemma_has_flag_extend(args@, i as int, "-debug"@);
                lemma_has_flag_extend(args@, i as int, "-wide"@);
                lemma_has_flag_extend(args@, i as int, "-score"@);
                // The flags are pairwise distinct: two lengths and one
                // character decide it.
                assert("-debug"@.len() == 6);
                assert("-wide"@.len() == 5);
                assert("-score"@.len() == 6);
                assert("-debug"@[1] != "-score"@[1]);
            }
            i = i + 1;
        }
        proof {
            assert(args@.take(args@.len() as int) =~= args@);
        }
        Config { debug, wide, scoreboard }
    }
}

/// The pointer button an input event reports, reduced to what the rule
/// distinguishes: the primary (paint) button, the secondary (erase)
/// button, or any other.
#[derive(Copy, Clone, Eq, PartialEq, Structural, Debug)]
pub enum PointerButton {
    Primary,
    Secondary,
    Other,
}

/// What a pointer did: pressed or dragged with a button, or anything
/// else (movement, release, scrolling), which the session ignores.
#[derive(Copy, Clone, Eq, PartialEq, Structural, Debug)]
pub enum PointerAction {
    Press(PointerButton),
    Drag(PointerButton),
    Other,
}

/// How a key event arrived; only presses act.
#[derive(Copy, Clone, Eq, PartialEq, Structural, Debug)]
pub enum KeyKind {
    Press,
    Repeat,
    Release,
}

/// A key, reduced to what the session reacts to.
#[derive(Copy, Clone, Eq, PartialEq, Structural, Debug)]
pub enum Key {
    Char(char),
    Esc,
    Backspace,
    Delete,
    Up,
    Down,
    Tab,
    Other,
}

/// One input event of the main loop, as plain values: a pointer event
/// with terminal coordinates, a key event, a terminal resize, or
/// anything else, which the session ignores.
#[derive(Copy, Clone, Eq, PartialEq, Structural, Debug)]
pub enum InputEvent {
    Pointer { action: PointerAction, column: u16, row: u16 },
    Key { code: Key, kind: KeyKind },
    Resize(u16, u16),
    Other,
}

/// What the caller of `handle_event` must do next: keep draining
/// events; keep draining and restart the step timer; abandon the rest
/// of this frame; or leave the loop.
#[derive(Copy, Clone, Eq, PartialEq, Structural, Debug)]
pub enum Action {
    Continue,
    ResetTimer,
    NextFrame,
    Exit,
}

/// The mutable session state: the board plus everything the user can
/// steer at runtime.
pub struct Game {
    pub board: Board,
    /// Milliseconds between simulation steps; zero steps every frame.
    pub speed: u64,
    pub pause: bool,
    /// The color painted by the primary pointer button.
    pub color: Color,
    /// The population listing of the board as of the last refresh; a
    /// cache for the scoreboard, never authoritative.
    pub population: Vec<(Color, u64)>,
    pub config: Config,
}

/// The board column a pointer column addresses: halved under
/// double-width cells, where every cell spans two terminal columns.
pub open spec fn adj_col(wide: bool, column: u16) -> int {
    if wide {
        column as int / 2
    } else {
        column as int
    }
}

/// Everything of the session except the board is unchanged.
pub open spec fn same_session_but_board(pre: Game, post: Game) -> bool {
    &&& post.speed == pre.speed
    &&& post.pause == pre.pause
    &&& post.color == pre.color
    &&& post.population@ == pre.population@
    &&& post.config == pre.config
}

/// The board is unchanged.
pub open spec fn same_board(pre: Game, post: Game) -> bool {
    &&& post.board.width == pre.board.width
    &&& post.board.height == pre.board.height
    &&& post.board@ == pre.board@
}

/// Nothing of the session changed.
pub open spec fn session_unchanged(pre: Game, post: Game) -> bool {
    same_session_but_board(pre, post) && same_board(pre, post)
}

/// The board was replaced by a random fill: same dimensions, every cell
/// an outcome of one draw with a shared divisor between 2 and 6.
pub open spec fn board_randomized(pre: Game, post: Game) -> bool {
    &&& post.board.width == pre.board.width
    &&& post.board.height == pre.board.height
    &&& exists|d: u32|
        2 <= d <= 6 && grid_randomized(
            post.board@,
            post.board.width as int,
            post.board.height as int,
            d,
        )
}

/// The board was resized to `width` by `height` (the width halved first
/// under double-width cells): cells in the overlap of the old and new
/// rectangles keep their values, everything newly exposed is dead.
pub open spec fn board_resized(pre: Game, post: Game, width: u16, height: u16) -> bool {
    let nw = if pre.config.wide {
        width as int / 2
    } else {
        width as int
    };
    let nh = height as int;
    let ow = pre.board.width as int;
    let oh = pre.board.height as int;
    &&& post.board.width as int == nw
    &&& post.board.height as int == nh
    &&& forall|x: int, y: int|
        0 <= x < nw && x < ow && 0 <= y < nh && y < oh ==> #[trigger] post.board@[y][x]
            == pre.board@[y][x]
    &&& forall|x: int, y: int|
        0 <= x < nw && 0 <= y < nh && (x >= ow || y >= oh) ==> #[trigger] post.board@[y][x]
            == Cell::Dead
}

/// The full transition relation of one input event: how the session
/// after the event relates to the session before it, and which action
/// the loop is told to take.
pub open spec fn event_step(pre: Game, post: Game, event: InputEvent, a: Action) -> bool {
    match event {
        InputEvent::Pointer { action, column, row } => {
            match action {
                PointerAction::Press(PointerButton::Primary)
                | PointerAction::Drag(PointerButton::Primary) => {
                    &&& same_session_but_board(pre, post)
                    &&& post.board.width == pre.board.width
                    &&& post.board.height == pre.board.height
                    &&& post.board@ == grid_set(
                        pre.board@,
                        pre.board.width as int,
                        pre.board.height as int,
                        adj_col(pre.config.wide, column),
                        row as int,
                        Cell::Alive(pre.color),
                    )
                    &&& a == Action::Continue
                },
                PointerAction::Press(PointerButton::Secondary)
                | PointerAction::Drag(PointerButton::Secondary) => {
                    &&& same_session_but_board(pre, post)
                    &&& post.board.width == pre.board.width
                    &&& post.board.height == pre.board.height
                    &&& post.board@ == grid_set(
                        pre.board@,
                        pre.board.width as int,
                        pre.board.height as int,
                        adj_col(pre.config.wide, column),
                        row as int,
                        Cell::Dead,
                    )
                    &&& a == Action::Continue
                },
                _ => session_unchanged(pre, post) && a == Action::Continue,
            }
        },
        InputEvent::Key { code, kind } => {
            if kind != KeyKind::Press {
                session_unchanged(pre, post) && a == Action::Continue
            } else {
                match code {
                    Key::Char(c) => {
                        if c == ' ' {
                            &&& same_board(pre, post)
                            &&& post.pause == !pre.pause
                            &&& post.speed == pre.speed
                            &&& post.color == pre.color
                            &&& post.population@ == pre.population@
                            &&& post.config == pre.config
                            &&& a == Action::ResetTimer
                        } else if '1' <= c <= '8' {
                            &&& same_board(pre, post)
                            &&& post.color == spec_color_of_index(c as int - '1' as int)
                            &&& post.speed == pre.speed
                            &&& post.pause == pre.pause
                            &&& post.population@ == pre.population@
                            &&& post.config == pre.config
                            &&& a == Action::Continue
                        } else if c == 'r' {
                            &&& same_session_but_board(pre, post)
                            &&& board_randomized(pre, post)
                            &&& a == Action::Continue
                        } else if c == 'd' {
                            &&& same_board(pre, post)
                            &&& post.config == Config {
                                debug: !pre.config.debug,
                                wide: pre.config.wide,
                                scoreboard: pre.config.scoreboard,
                            }
                            &&& post.speed == pre.speed
                            &&& post.pause == pre.pause
                            &&& post.color == pre.color
                            &&& post.population@ == pre.population@
                            &&& a == Action::Continue
                        } else {
                            session_unchanged(pre, post) && a == Action::Continue
                        }
                    },
                    Key::Esc => session_unchanged(pre, post) && a == Action::Exit,
                    Key::Backspace | Key::Delete => {
                        &&& same_session_but_board(pre, post)
                        &&& post.board.width == pre.board.width
                        &&& post.board.height == pre.board.height
                        &&& grid_all_dead(
                            post.board@,
                            post.board.width as int,
                            post.board.height as int,
                        )
                        &&& a == Action::Continue
                    },
                    Key::Up => {
                        &&& same_board(pre, post)
                        &&& post.speed == if pre.speed < SPEED_MAX_MS {
                            (pre.speed + SPEED_STEP_MS) as u64
                        } else {
                            pre.speed
                        }
                        &&& post.pause == pre.pause
                        &&& post.color == pre.color
                        &&& post.population@ == pre.population@
                        &&& post.config == pre.config
                        &&& a == Action::Continue
                    },
                    Key::Down => {
                        &&& same_board(pre, post)
                        &&& post.speed == if pre.speed >= SPEED_STEP_MS {
                            (pre.speed - SPEED_STEP_MS) as u64
                        } else {
                            pre.speed
                        }
                        &&& post.pause == pre.pause
                        &&& post.color == pre.color
                        &&& post.population@ == pre.population@
                        &&& post.config == pre.config
                        &&& a == Action::Continue
                    },
                    Key::Tab => {
                        &&& same_board(pre, post)
                        &&& post.config == Config {
                            debug: pre.config.debug,
                            wide: pre.config.wide,
                            scoreboard: !pre.config.scoreboard,
                        }
                        &&& post.speed == pre.speed
                        &&& post.pause == pre.pause
                        &&& post.color == pre.color
                        &&& post.population@ == pre.population@
                        &&& a == Action::NextFrame
                    },
                    Key::Other => session_unchanged(pre, post) && a == Action::Continue,
                }
            }
        },
        InputEvent::Resize(width, height) => {
            &&& same_session_but_board(pre, post)
            &&& post.board.wf()
            &&& board_resized(pre, post, width, height)
            &&& a == Action::Continue
        },
        InputEvent::Other => session_unchanged(pre, post) && a == Action::Continue,
    }
}

impl Game {
    /// A fresh session for a terminal of `width` by `height` characters:
    /// an all-dead board (half as wide under double-width cells), the
    /// default tick interval, paused, painting white, with an empty
    /// population listing.
    pub fn new(config: Config, width: u16, height: u16) -> (g: Game)
        ensures
            g.board.wf(),
            g.board.width == (if config.wide {
                width / 2
            } else {
                width
            }),
            g.board.height == height,
            grid_all_dead(g.board@, g.board.width as int, g.board.height as int),
            g.speed == DEFAULT_SPEED_MS,
            g.pause,
            g.color == Color::White,
            g.population@ == Seq::<(Color, u64)>::empty(),
            g.config == config,
    {
        let bw = if config.wide {
            width / 2
        } else {
            width
        };
        let board = Board::new(bw, height);
        let population = board.count_population();
        proof {
            lemma_dead_grid_population(
                board@,
                board.width as int,
                board.height as int,
                COLOR_COUNT as int,
            );
            assert(population@ =~= Seq::<(Color, u64)>::empty());
        }
        Game { board, speed: DEFAULT_SPEED_MS, pause: true, color: Color::White, population, config }
    }

    /// Replaces the board for a terminal now `width` by `height`
    /// characters (the width halved first under double-width cells),
    /// keeping every cell in the overlap of the old and new rectangles
    /// and exposing dead cells elsewhere. The rest of the session is
    /// untouched.
    pub fn resize_board(&mut self, width: u16, height: u16)
        requires
            old(self).board.wf(),
        ensures
            final(self).board.wf(),
            same_session_but_board(*old(self), *final(self)),
            board_resized(*old(self), *final(self), width, height),
    {
        let bw = if self.config.wide {
            width / 2
        } else {
            width
        };
        let mut new_board = Board::new(bw, height);
        let x_max = if bw > self.board.width {
            self.board.width
        } else {
            bw
        };
        let y_max = if height > self.board.height {
            self.board.height
        } else {
            height
        };
        let ghost ow = self.board.width as int;
        let ghost oh = self.board.height as int;
        let mut x: u16 = 0;
        while x < x_max
            invariant
                self.board.wf(),
                new_board.wf(),
                new_board.width == bw,
                new_board.height == height,
                ow == self.board.width as int,
                oh == self.board.height as int,
                x <= x_max,
                x_max as int <= ow,
                x_max as int <= bw as int,
                x_max as int == if bw as int <= ow {
                    bw as int
                } else {
                    ow
                },
                y_max as int <= oh,
                y_max as int <= height as int,
                y_max as int == if height as int <= oh {
                    height as int
                } else {
                    oh
                },
                forall|xx: int, yy: int|
                    0 <= xx < x as int && 0 <= yy < y_max as int ==> #[trigger] new_board@[yy][xx]
                        == self.board@[yy][xx],
                forall|xx: int, yy: int|
                    0 <= xx < bw as int && 0 <= yy < height as int && (xx >= x as int || yy
                        >= y_max as int) ==> #[trigger] new_board@[yy][xx] == Cell::Dead,
            decreases x_max - x,
        {
            let mut y: u16 = 0;
            while y < y_max
                invariant
                    self.board.wf(),
                    new_board.wf(),
                    new_board.width == bw,
                    new_board.height == height,
                    ow == self.board.width as int,
                    oh == self.board.height as int,
                    x < x_max,
                    y <= y_max,
                    x_max as int <= ow,
                    x_max as int <= bw as int,
                    y_max as int <= oh,
                    y_max as int <= height as int,
                    forall|xx: int, yy: int|
                        0 <= xx < x as int && 0 <= yy < y_max as int ==> #[trigger] new_board@[yy][xx]
                            == self.board@[yy][xx],
                    forall|yy: int|
                        0 <= yy < y as int ==> #[trigger] new_board@[yy][x as int]
                            == self.board@[yy][x as int],
                    forall|xx: int, yy: int|
                        0 <= xx < bw as int && 0 <= yy < height as int && (xx > x as int || (xx
                            == x as int && yy >= y as int) || yy >= y_max as int)
                            ==> #[trigger] new_board@[yy][xx] == Cell::Dead,
                decreases y_max - y,
            {
                let c = self.board.get(x, y);
                new_board.set(x, y, c);
                y = y + 1;
            }
            x = x + 1;
        }
        self.board = new_board;
    }

    /// Recomputes the cached population listing from the current board.
    /// Nothing else of the session changes.
    pub fn refresh_population(&mut self)
        requires
            old(self).board.wf(),
        ensures
            final(self).board == old(self).board,
            final(self).speed == old(self).speed,
            final(self).pause == old(self).pause,
            final(self).color == old(self).color,
            final(self).config == old(self).config,
            population_rel(final(self).board@, final(self).population@),
    {
        let pop = self.board.count_population();
        self.population = pop;
    }

    /// Whether the simulation is due for a step: not paused, and at
    /// least the tick interval has elapsed since the last step.
    pub fn should_step(&self, elapsed_ms: u64) -> (r: bool)
        ensures
            r == (!self.pause && elapsed_ms >= self.speed),
    {
        !self.pause && elapsed_ms >= self.speed
    }

    /// How long the loop should sleep after a frame that took
    /// `elapsed_ms`: the remainder of the frame budget, floored at zero.
    pub fn frame_wait(elapsed_ms: u64) -> (r: u64)
        ensures
            r == if elapsed_ms > FRAME_BUDGET_MS {
                0u64
            } else {
                (FRAME_BUDGET_MS - elapsed_ms) as u64
            },
    {
        if elapsed_ms > FRAME_BUDGET_MS {
            0
        } else {
            FRAME_BUDGET_MS - elapsed_ms
        }
    }

    /// Applies one input event to the session and says what the loop
    /// does next: paint or erase under the pointer, steer the session
    /// from the keyboard, resize with the terminal, and ignore the rest.
    pub fn handle_event(&mut self, event: InputEvent) -> (a: Action)
        requires
            old(self).board.wf(),
        ensures
            final(self).board.wf(),
            event_step(*old(self), *final(self), event, a),
    {
        match event {
            InputEvent::Pointer { action, column, row } => {
                let button = match action {
                    PointerAction::Press(b) => Some(b),
                    PointerAction::Drag(b) => Some(b),
                    PointerAction::Other => None,
                };
                match button {
                    Some(PointerButton::Primary) => {
                        let col = if self.config.wide {
                            column / 2
                        } else {
                            column
                        };
                        let cell = Cell::Alive(self.color);
                        self.board.set(col, row, cell);
                    },
                    Some(PointerButton::Secondary) => {
                        let col = if self.config.wide {
                            column / 2
                        } else {
                            column
                        };
                        self.board.set(col, row, Cell::Dead);
                    },
                    _ => {},
                }
                Action::Continue
            },
            InputEvent::Key { code, kind } => {
                if kind != KeyKind::Press {
                    return Action::Continue;
                }
                match code {
                    Key::Char(c) => {
                        if c == ' ' {
                            self.pause = !self.pause;
                            Action::ResetTimer
                        } else if c == '1' {
                            self.color = Color::White;
                            Action::Continue
                        } else if c == '2' {
                            self.color = Color::Red;
                            Action::Continue
                        } else if c == '3' {
                            self.color = Color::Yellow;
                            Action::Continue
                        } else if c == '4' {
                            self.color = Color::Green;
                            Action::Continue
                        } else if c == '5' {
                            self.color = Color::Blue;
                            Action::Continue
                        } else if c == '6' {
                            self.color = Color::Cyan;
                            Action::Continue
                        } else if c == '7' {
                            self.color = Color::Magenta;
                            Action::Continue
                        } else if c == '8' {
                            self.color = Color::DarkGrey;
                            Action::Continue
                        } else if c == 'r' {
                            self.board.randomize();
                            Action::Continue
                        } else if c == 'd' {
                            self.config.debug = !self.config.debug;
                            Action::Continue
                        } else {
                            Action::Continue
                        }
                    },
                    Key::Esc => Action::Exit,
                    Key::Backspace | Key::Delete => {
                        self.board.clear();
                        Action::Continue
                    },
                    Key::Up => {
                        if self.speed < SPEED_MAX_MS {
                            self.speed = self.speed + SPEED_STEP_MS;
                        }
                        Action::Continue
                    },
                    Key::Down => {
                        if self.speed >= SPEED_STEP_MS {
                            self.speed = self.speed - SPEED_STEP_MS;
                        }
                        Action::Continue
                    },
                    Key::Tab => {
                        self.config.scoreboard = !self.config.scoreboard;
                        Action::NextFrame
                    },
                    Key::Other => Action::Continue,
                }
            },
            InputEvent::Resize(width, height) => {
                self.resize_board(width, height);
                Action::Continue
            },
            InputEvent::Other => Action::Continue,
        }
    }
}

} // verus!
