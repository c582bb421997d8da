//! Rendering: the grid, the status bar, and the scoreboard overlay as a
//! sequence of terminal draw operations, for an unverified shell to
//! replay against the real terminal.

use vstd::prelude::*;

use itertools::Itertools;
use vstd::string::StringExecFns;
use crate::cell::{Cell, Color};
use crate::board::{Board, step_rel, lemma_grid_row};
use crate::game::Game;
use crate::text::{
    spec_decimal, spec_pad_right, spec_fraction_text, decimal_string, pad_right, fraction_text,
};

verus! {

/// One terminal draw operation: move the cursor, set a color, reset the
/// colors, or print a run of text.
pub enum DrawOp {
    MoveTo(u16, u16),
    SetFg(Color),
    SetBg(Color),
    Reset,
    Print(String),
}

/// The mathematical shape of a draw operation: coordinates as integers
/// and text as a character sequence.
pub enum DrawCmd {
    MoveTo(int, int),
    SetFg(Color),
    SetBg(Color),
    Reset,
    Print(Seq<char>),
}

impl View for DrawOp {
    type V = DrawCmd;

    open spec fn view(&self) -> DrawCmd {
        match self {
            DrawOp::MoveTo(col, row) => DrawCmd::MoveTo(*col as int, *row as int),
            DrawOp::SetFg(c) => DrawCmd::SetFg(*c),
            DrawOp::SetBg(c) => DrawCmd::SetBg(*c),
            DrawOp::Reset => DrawCmd::Reset,
            DrawOp::Print(s) => DrawCmd::Print(s@),
        }
    }
}

impl DeepView for DrawOp {
    type V = DrawCmd;

    open spec fn deep_view(&self) -> DrawCmd {
        self.view()
    }
}

/// The draw operations for one cell. In the normal mode a live cell is a
/// solid block of its color and a dead cell a dim filler. In the debug
/// mode every cell draws the debug glyph, its foreground showing what
/// the cell becomes next generation (`next`), black when it dies, over
/// the current color as background for live cells.
pub open spec fn spec_cell_ops(c: Cell, next: Cell, wide: bool, debug: bool) -> Seq<DrawCmd> {
    if debug {
        let fg = match next {
            Cell::Alive(nc) => nc,
            Cell::Dead => Color::Black,
        };
        let glyph = if wide {
            "[]"@
        } else {
            "+"@
        };
        match c {
            Cell::Alive(col) => seq![
                DrawCmd::Reset,
                DrawCmd::SetFg(fg),
                DrawCmd::SetBg(col),
                DrawCmd::Print(glyph),
            ],
            Cell::Dead => seq![DrawCmd::Reset, DrawCmd::SetFg(fg), DrawCmd::Print(glyph)],
        }
    } else {
        match c {
            Cell::Alive(col) => seq![
                DrawCmd::Reset,
                DrawCmd::SetFg(col),
                DrawCmd::SetBg(col),
                DrawCmd::Print(
                    if wide {
                        "%%"@
                    } else {
                        "@"@
                    },
                ),
            ],
            Cell::Dead => seq![
                DrawCmd::Reset,
                DrawCmd::SetFg(Color::Black),
                DrawCmd::Print(
                    if wide {
                        "::"@
                    } else {
                        "."@
                    },
                ),
            ],
        }
    }
}

/// The draw operations for the first `n` cells of one row.
pub open spec fn spec_row_ops(
    row: Seq<Cell>,
    next_row: Seq<Cell>,
    wide: bool,
    debug: bool,
    n: int,
) -> Seq<DrawCmd>
    decreases n,
{
    if n <= 0 {
        Seq::empty()
    } else {
        spec_row_ops(row, next_row, wide, debug, n - 1) + spec_cell_ops(
            row[n - 1],
            next_row[n - 1],
            wide,
            debug,
        )
    }
}

/// The draw operations for the first `n` rows of the grid, each row
/// followed by a color reset and a cursor move to the start of the next
/// line.
pub open spec fn spec_grid_ops(
    g: Seq<Seq<Cell>>,
    next: Seq<Seq<Cell>>,
    wide: bool,
    debug: bool,
    w: int,
    n: int,
) -> Seq<DrawCmd>
    decreases n,
{
    if n <= 0 {
        Seq::empty()
    } else {
        spec_grid_ops(g, next, wide, debug, w, n - 1) + spec_row_ops(
            g[n - 1],
            next[n - 1],
            wide,
            debug,
            w,
        ) + seq![DrawCmd::Reset, DrawCmd::MoveTo(0, n)]
    }
}

/// The draw operations for the whole grid: home the cursor, then every
/// row.
pub open spec fn spec_board_ops(
    g: Seq<Seq<Cell>>,
    next: Seq<Seq<Cell>>,
    wide: bool,
    debug: bool,
    w: int,
    h: int,
) -> Seq<DrawCmd> {
    seq![DrawCmd::MoveTo(0, 0)] + spec_grid_ops(g, next, wide, debug, w, h)
}

/// `bops` renders grid `g`: in the normal mode exactly its rows; in the
/// debug mode its rows against some possible next generation, whose
/// three-distinct-color births are the one free choice.
pub open spec fn board_ops_rel(
    g: Seq<Seq<Cell>>,
    w: int,
    h: int,
    wide: bool,
    debug: bool,
    bops: Seq<DrawCmd>,
) -> bool {
    if debug {
        exists|next: Seq<Seq<Cell>>|
            step_rel(g, next, w, h) && bops == spec_board_ops(g, next, wide, true, w, h)
    } else {
        bops == spec_board_ops(g, g, wide, false, w, h)
    }
}

/// Pushes one cell's draw operations.
fn push_cell_ops(ops: &mut Vec<DrawOp>, c: Cell, next: Cell, wide: bool, debug: bool)
    ensures
        final(ops).deep_view() == old(ops).deep_view() + spec_cell_ops(c, next, wide, debug),
{
    if debug {
        let fg = match next {
            Cell::Alive(nc) => nc,
            Cell::Dead => Color::Black,
        };
        ops.push(DrawOp::Reset);
        ops.push(DrawOp::SetFg(fg));
        if let Cell::Alive(col) = c {
            ops.push(DrawOp::SetBg(col));
        }
        ops.push(DrawOp::Print(String::from_str(if wide {
            "[]"
        } else {
            "+"
        })));
    } else {
        match c {
            Cell::Alive(col) => {
                ops.push(DrawOp::Reset);
                ops.push(DrawOp::SetFg(col));
                ops.push(DrawOp::SetBg(col));
                ops.push(DrawOp::Print(String::from_str(if wide {
                    "%%"
                } else {
                    "@"
                })));
            },
            Cell::Dead => {
                ops.push(DrawOp::Reset);
                ops.push(DrawOp::SetFg(Color::Black));
                ops.push(DrawOp::Print(String::from_str(if wide {
                    "::"
                } else {
                    "."
                })));
            },
        }
    }
    proof {
        assert(ops.deep_view() =~= old(ops).deep_view() + spec_cell_ops(c, next, wide, debug));
    }
}

impl Board {
    /// The draw operations for this board's grid. In the debug mode the
    /// next generation is computed afresh to color each cell's preview,
    /// drawing new random choices for three-distinct-color births.
    pub fn render(&self, wide: bool, debug: bool) -> (ops: Vec<DrawOp>)
        requires
            self.wf(),
        ensures
            board_ops_rel(
                self@,
                self.width as int,
                self.height as int,
                wide,
                debug,
                ops.deep_view(),
            ),
    {
        let ghost w = self.width as int;
        let ghost h = self.height as int;
        let next_grid: Option<Vec<Vec<Cell>>> = if debug {
            Some(self.next_grid())
        } else {
            None
        };
        let ghost gnext: Seq<Seq<Cell>> = match &next_grid {
            Some(ng) => ng.deep_view(),
            None => self@,
        };
        let mut ops: Vec<DrawOp> = Vec::new();
        ops.push(DrawOp::MoveTo(0, 0));
        proof {
            assert(ops.deep_view() =~= seq![DrawCmd::MoveTo(0, 0)] + spec_grid_ops(
                self@,
                gnext,
                wide,
                debug,
                w,
                0,
            ));
        }
        let mut y: u16 = 0;
        while y < self.height
            invariant
                self.wf(),
                w == self.width as int,
                h == self.height as int,
                y <= self.height,
                debug ==> step_rel(self@, gnext, w, h),
                !debug ==> gnext == self@,
                (match next_grid {
                    Some(ng) => debug && ng.deep_view() == gnext,
                    None => !debug,
                }),
                ops.deep_view() =~= seq![DrawCmd::MoveTo(0, 0)] + spec_grid_ops(
                    self@,
                    gnext,
                    wide,
                    debug,
                    w,
                    y as int,
                ),
            decreases self.height - y,
        {
            let mut x: u16 = 0;
            while x < self.width
                invariant
                    self.wf(),
                    w == self.width as int,
                    h == self.height as int,
                    y < self.height,
                    x <= self.width,
                    debug ==> step_rel(self@, gnext, w, h),
                    !debug ==> gnext == self@,
                    (match next_grid {
                        Some(ng) => debug && ng.deep_view() == gnext,
                        None => !debug,
                    }),
                    ops.deep_view() =~= seq![DrawCmd::MoveTo(0, 0)] + spec_grid_ops(
                        self@,
                        gnext,
                        wide,
                        debug,
                        w,
                        y as int,
                    ) + spec_row_ops(self@[y as int], gnext[y as int], wide, debug, x as int),
                decreases self.width - x,
            {
                let c = self.get(x, y);
                let nc = match &next_grid {
                    Some(ng) => {
                        proof {
                            lemma_grid_row(*ng, y as int);
                        }
                        ng[y as usize][x as usize]
                    },
                    None => c,
                };
                proof {
                    assert(nc == gnext[y as int][x as int]);
                }
                push_cell_ops(&mut ops, c, nc, wide, debug);
                proof {
                    assert(spec_row_ops(self@[y as int], gnext[y as int], wide, debug, x as int + 1)
                        =~= spec_row_ops(self@[y as int], gnext[y as int], wide, debug, x as int)
                        + spec_cell_ops(
                        self@[y as int][x as int],
                        gnext[y as int][x as int],
                        wide,
                        debug,
                    ));
                    assert(ops.deep_view() =~= seq![DrawCmd::MoveTo(0, 0)] + spec_grid_ops(
                        self@,
                        gnext,
                        wide,
                        debug,
                        w,
                        y as int,
                    ) + spec_row_ops(self@[y as int], gnext[y as int], wide, debug, x as int + 1));
                }
                x = x + 1;
            }
            let ghost before = ops.deep_view();
            ops.push(DrawOp::Reset);
            ops.push(DrawOp::MoveTo(0, y + 1));
            proof {
                assert(ops.deep_view() =~= before + seq![
                    DrawCmd::Reset,
                    DrawCmd::MoveTo(0, y as int + 1),
                ]);
                assert(spec_grid_ops(self@, gnext, wide, debug, w, y as int + 1) =~= spec_grid_ops(
                    self@,
                    gnext,
                    wide,
                    debug,
                    w,
                    y as int,
                ) + spec_row_ops(self@[y as int], gnext[y as int], wide, debug, w) + seq![
                    DrawCmd::Reset,
                    DrawCmd::MoveTo(0, y as int + 1),
                ]);
                assert(ops.deep_view() =~= seq![DrawCmd::MoveTo(0, 0)] + spec_grid_ops(
                    self@,
                    gnext,
                    wide,
                    debug,
                    w,
                    y as int + 1,
                ));
            }
            y = y + 1;
        }
        ops
    }
}

/// The status bar's tick text: `PAUSE` while paused, `ASAP` at interval
/// zero, otherwise the interval in milliseconds, each padded to six
/// characters.
pub open spec fn spec_speed_text(pause: bool, speed: int) -> Seq<char> {
    if pause {
        "PAUSE "@
    } else if speed == 0 {
        "ASAP  "@
    } else {
        spec_pad_right(spec_decimal(speed as nat), 6, ' ')
    }
}

/// The status bar: on the last grid line, a swatch of the active color,
/// then the tick text.
pub open spec fn spec_status_ops(color: Color, pause: bool, speed: int, h: int) -> Seq<DrawCmd> {
    seq![
        DrawCmd::MoveTo(0, h - 1),
        DrawCmd::SetBg(color),
        DrawCmd::SetFg(color),
        DrawCmd::Print("#"@),
        DrawCmd::Reset,
        DrawCmd::Print(" Speed: "@),
        DrawCmd::Print(spec_speed_text(pause, speed)),
    ]
}

/// The label color a scoreboard segment uses over a swatch of `c`:
/// white over the grey swatches, black over everything else.
pub open spec fn spec_score_fg(c: Color) -> Color {
    match c {
        Color::DarkGrey | Color::Grey => Color::White,
        _ => Color::Black,
    }
}

/// The entries carry weakly decreasing counts.
pub open spec fn sorted_desc(s: Seq<(Color, u64)>) -> bool {
    forall|i: int, j: int| 0 <= i < j < s.len() ==> (#[trigger] s[i]).1 >= (#[trigger] s[j]).1
}

/// The scoreboard segments: one per entry while more than ten columns
/// of space remain, each a swatch of the entry's color with its share
/// of the `total` cells, taking nine columns; the rest are dropped.
pub open spec fn spec_scoreboard_ops(entries: Seq<(Color, u64)>, space: int, total: nat) -> Seq<
    DrawCmd,
>
    decreases entries.len(),
{
    if entries.len() == 0 {
        Seq::empty()
    } else if space > 10 {
        seq![
            DrawCmd::Print(" "@),
            DrawCmd::SetBg(entries[0].0),
            DrawCmd::SetFg(spec_score_fg(entries[0].0)),
            DrawCmd::Print(spec_fraction_text(entries[0].1 as nat, total)),
            DrawCmd::Reset,
        ] + spec_scoreboard_ops(entries.drop_first(), space - 9, total)
    } else {
        spec_scoreboard_ops(entries.drop_first(), space, total)
    }
}

/// The columns left for the scoreboard: the grid's character width
/// (twice the cell width under double-width cells) minus the status
/// bar's sixteen, floored at zero.
pub open spec fn spec_initial_space(wide: bool, w: int) -> int {
    let avail = if wide {
        2 * w
    } else {
        w
    };
    if avail >= 16 {
        avail - 16
    } else {
        0
    }
}

/// The number of cells of the session's board.
pub open spec fn spec_total_cells(game: Game) -> int {
    game.board.width as int * game.board.height as int
}

/// The pieces a rendered frame is made of: `bops` renders the grid,
/// `sorted` is the population ordered by descending count (where a
/// scoreboard is drawn at all), and `v` is the grid followed by the
/// status bar and the scoreboard.
pub open spec fn game_ops_parts(
    game: Game,
    bops: Seq<DrawCmd>,
    sorted: Seq<(Color, u64)>,
    v: Seq<DrawCmd>,
) -> bool {
    let scored = game.config.scoreboard && spec_total_cells(game) > 0;
    &&& board_ops_rel(
        game.board@,
        game.board.width as int,
        game.board.height as int,
        game.config.wide,
        game.config.debug,
        bops,
    )
    &&& scored ==> sorted.to_multiset() == game.population@.to_multiset() && sorted_desc(sorted)
    &&& v == bops + spec_status_ops(
        game.color,
        game.pause,
        game.speed as int,
        game.board.height as int,
    ) + (if scored {
        spec_scoreboard_ops(
            sorted,
            spec_initial_space(game.config.wide, game.board.width as int),
            spec_total_cells(game) as nat,
        )
    } else {
        Seq::empty()
    })
}

/// `v` is a rendered frame of the session.
pub open spec fn game_render_rel(game: Game, v: Seq<DrawCmd>) -> bool {
    exists|bops: Seq<DrawCmd>, sorted: Seq<(Color, u64)>| #[trigger] game_ops_parts(
        game,
        bops,
        sorted,
        v,
    )
}

/// Orders population entries so that larger counts come first.
fn compare_counts_desc(a: &(Color, u64), b: &(Color, u64)) -> (o: core::cmp::Ordering)
    ensures
        o == if b.1 < a.1 {
            core::cmp::Ordering::Less
        } else if b.1 == a.1 {
            core::cmp::Ordering::Equal
        } else {
            core::cmp::Ordering::Greater
        },
{
    if b.1 < a.1 {
        core::cmp::Ordering::Less
    } else if b.1 == a.1 {
        core::cmp::Ordering::Equal
    } else {
        core::cmp::Ordering::Greater
    }
}

/// Relies on itertools' sorted_by: it collects the items into a vector
/// and sorts it with the given comparator (the standard library's
/// stable sort), so the result holds exactly the given items, ordered
/// here by descending count.
#[verifier::external_body]
fn sorted_by_count_desc(entries: &Vec<(Color, u64)>) -> (r: Vec<(Color, u64)>)
    ensures
        r@.to_multiset() == entries@.to_multiset(),
        sorted_desc(r@),
{
    entries.iter().cloned().sorted_by(|a, b| compare_counts_desc(a, b)).collect()
}

impl Game {
    /// One rendered frame: the grid, the status bar on its last line,
    /// and, with the scoreboard on, the population shares in descending
    /// order as far as the line has room.
    pub fn render(&self) -> (ops: Vec<DrawOp>)
        requires
            self.board.wf(),
            self.board.height >= 1,
        ensures
            game_render_rel(*self, ops.deep_view()),
    {
        let mut ops = self.board.render(self.config.wide, self.config.debug);
        let ghost bops = ops.deep_view();
        proof {
            reveal_strlit(" ");
        }
        ops.push(DrawOp::MoveTo(0, self.board.height - 1));
        ops.push(DrawOp::SetBg(self.color));
        ops.push(DrawOp::SetFg(self.color));
        ops.push(DrawOp::Print(String::from_str("#")));
        ops.push(DrawOp::Reset);
        ops.push(DrawOp::Print(String::from_str(" Speed: ")));
        let speed_text: String = if self.pause {
            String::from_str("PAUSE ")
        } else if self.speed == 0 {
            String::from_str("ASAP  ")
        } else {
            pad_right(decimal_string(self.speed), 6, " ")
        };
        ops.push(DrawOp::Print(speed_text));
        proof {
            assert(ops.deep_view() =~= bops + spec_status_ops(
                self.color,
                self.pause,
                self.speed as int,
                self.board.height as int,
            ));
        }
        let ghost based = ops.deep_view();
        let ghost scored = self.config.scoreboard && spec_total_cells(*self) > 0;
        let ghost sortedv: Seq<(Color, u64)> = Seq::empty();
        if self.config.scoreboard {
            proof {
                assert((self.board.width as int) * (self.board.height as int)
                    < 0x1_0000_0000) by (nonlinear_arith)
                    requires
                        (self.board.width as int) < 0x1_0000,
                        (self.board.height as int) < 0x1_0000,
                ;
            }
            let total: u64 = (self.board.width as u64) * (self.board.height as u64);
            if total > 0 {
                let sorted = sorted_by_count_desc(&self.population);
                proof {
                    sortedv = sorted@;
                }
                let avail: u32 = if self.config.wide {
                    (self.board.width as u32) * 2
                } else {
                    self.board.width as u32
                };
                let mut space: u32 = if avail >= 16 {
                    avail - 16
                } else {
                    0
                };
                let ghost target = spec_scoreboard_ops(sortedv, space as int, total as nat);
                proof {
                    assert(sortedv.skip(0) =~= sortedv);
                }
                let mut k: usize = 0;
                while k < sorted.len()
                    invariant
                        total >= 1,
                        sorted@ == sortedv,
                        k <= sortedv.len(),
                        based + target =~= ops.deep_view() + spec_scoreboard_ops(
                            sortedv.skip(k as int),
                            space as int,
                            total as nat,
                        ),
                    decreases sorted.len() - k,
                {
                    let ghost rest = sortedv.skip(k as int);
                    proof {
                        assert(rest.drop_first() =~= sortedv.skip(k as int + 1));
                        assert(rest[0] == sortedv[k as int]);
                    }
                    if space > 10 {
                        let entry = sorted[k];
                        ops.push(DrawOp::Print(String::from_str(" ")));
                        ops.push(DrawOp::SetBg(entry.0));
                        let fg = match entry.0 {
                            Color::DarkGrey | Color::Grey => Color::White,
                            _ => Color::Black,
                        };
                        ops.push(DrawOp::SetFg(fg));
                        ops.push(DrawOp::Print(fraction_text(entry.1, total)));
                        ops.push(DrawOp::Reset);
                        proof {
                            assert(based + target =~= ops.deep_view() + spec_scoreboard_ops(
                                sortedv.skip(k as int + 1),
                                space as int - 9,
                                total as nat,
                            ));
                        }
                        space = space - 9;
                    }
                    k = k + 1;
                }
                proof {
                    assert(sortedv.skip(sortedv.len() as int) =~= Seq::<(Color, u64)>::empty());
                    assert(ops.deep_view() =~= based + target);
                }
            }
        }
        proof {
            if scored {
                assert(ops.deep_view() =~= bops + spec_status_ops(
                    self.color,
                    self.pause,
                    self.speed as int,
                    self.board.height as int,
                ) + spec_scoreboard_ops(
                    sortedv,
                    spec_initial_space(self.config.wide, self.board.width as int),
                    spec_total_cells(*self) as nat,
                ));
            } else {
                assert(ops.deep_view() =~= bops + spec_status_ops(
                    self.color,
                    self.pause,
                    self.speed as int,
                    self.board.height as int,
                ) + Seq::<DrawCmd>::empty());
            }
            assert(game_ops_parts(*self, bops, sortedv, ops.deep_view()));
        }
        ops
    }
}

} // verus!
