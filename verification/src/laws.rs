//! Proved properties of the step rule: how survival, death, and the
//! color resolution of births behave for every grid.

use vstd::prelude::*;

use crate::cell::{
    Cell, Color, spec_color_of_index, spec_color_index, lemma_color_index_roundtrip,
    lemma_color_of_index_injective, COLOR_COUNT,
};
use crate::board::{
    grid_wf, grid_all_dead, is_live, is_live_with, b2i, live_neighbors, color_neighbors,
    live_color_indices_upto, live_color_indices, spec_step, step_rel, cell_stepped,
};

verus! {

/// At any one position, being alive is being alive with exactly one of
/// the ten colors.
proof fn lemma_live_splits_by_color(g: Seq<Seq<Cell>>, w: int, h: int, x: int, y: int)
    ensures
        b2i(is_live(g, w, h, x, y)) == b2i(is_live_with(g, w, h, x, y, Color::White)) + b2i(
            is_live_with(g, w, h, x, y, Color::Red),
        ) + b2i(is_live_with(g, w, h, x, y, Color::Yellow)) + b2i(
            is_live_with(g, w, h, x, y, Color::Green),
        ) + b2i(is_live_with(g, w, h, x, y, Color::Blue)) + b2i(
            is_live_with(g, w, h, x, y, Color::Cyan),
        ) + b2i(is_live_with(g, w, h, x, y, Color::Magenta)) + b2i(
            is_live_with(g, w, h, x, y, Color::DarkGrey),
        ) + b2i(is_live_with(g, w, h, x, y, Color::Black)) + b2i(
            is_live_with(g, w, h, x, y, Color::Grey),
        ),
{
}

/// The live neighbors of a position, counted together, are its live
/// neighbors counted color by color, summed over the ten colors.
pub proof fn lemma_live_neighbors_by_color(g: Seq<Seq<Cell>>, w: int, h: int, x: int, y: int)
    ensures
        live_neighbors(g, w, h, x, y) == color_neighbors(g, w, h, x, y, Color::White)
            + color_neighbors(g, w, h, x, y, Color::Red) + color_neighbors(
            g,
            w,
            h,
            x,
            y,
            Color::Yellow,
        ) + color_neighbors(g, w, h, x, y, Color::Green) + color_neighbors(
            g,
            w,
            h,
            x,
            y,
            Color::Blue,
        ) + color_neighbors(g, w, h, x, y, Color::Cyan) + color_neighbors(
            g,
            w,
            h,
            x,
            y,
            Color::Magenta,
        ) + color_neighbors(g, w, h, x, y, Color::DarkGrey) + color_neighbors(
            g,
            w,
            h,
            x,
            y,
            Color::Black,
        ) + color_neighbors(g, w, h, x, y, Color::Grey),
{
    lemma_live_splits_by_color(g, w, h, x - 1, y - 1);
    lemma_live_splits_by_color(g, w, h, x - 1, y);
    lemma_live_splits_by_color(g, w, h, x - 1, y + 1);
    lemma_live_splits_by_color(g, w, h, x, y - 1);
    lemma_live_splits_by_color(g, w, h, x, y + 1);
    lemma_live_splits_by_color(g, w, h, x + 1, y - 1);
    lemma_live_splits_by_color(g, w, h, x + 1, y);
    lemma_live_splits_by_color(g, w, h, x + 1, y + 1);
}

/// What the list of contributing color positions holds: exactly the
/// positions below `n` whose color has at least one live neighbor, in
/// strictly increasing order.
proof fn lemma_color_indices_upto(g: Seq<Seq<Cell>>, w: int, h: int, x: int, y: int, n: int)
    requires
        0 <= n <= COLOR_COUNT as int,
    ensures
        forall|j: int|
            0 <= j < live_color_indices_upto(g, w, h, x, y, n).len() ==> {
                let e = #[trigger] live_color_indices_upto(g, w, h, x, y, n)[j];
                0 <= e < n && color_neighbors(g, w, h, x, y, spec_color_of_index(e)) > 0
            },
        forall|i: int|
            0 <= i < n && color_neighbors(g, w, h, x, y, spec_color_of_index(i)) > 0
                ==> live_color_indices_upto(g, w, h, x, y, n).contains(i),
        forall|j: int, k: int|
            0 <= j < k < live_color_indices_upto(g, w, h, x, y, n).len()
                ==> live_color_indices_upto(g, w, h, x, y, n)[j] < live_color_indices_upto(
                g,
                w,
                h,
                x,
                y,
                n,
            )[k],
    decreases n,
{
    if n > 0 {
        lemma_color_indices_upto(g, w, h, x, y, n - 1);
        let rest = live_color_indices_upto(g, w, h, x, y, n - 1);
        let cur = live_color_indices_upto(g, w, h, x, y, n);
        assert forall|i: int|
            0 <= i < n && color_neighbors(g, w, h, x, y, spec_color_of_index(i)) > 0 implies cur.contains(
            i,
        ) by {
            if i < n - 1 {
                assert(rest.contains(i));
                let j = choose|j: int| 0 <= j < rest.len() && rest[j] == i;
                assert(cur[j] == i);
            } else {
                assert(cur.last() == i);
            }
        }
    }
}

/// The rule is deterministic wherever fewer or more than three distinct
/// colors contribute: the choice value can then not change the outcome.
pub proof fn lemma_step_choice_free(
    g: Seq<Seq<Cell>>,
    w: int,
    h: int,
    x: int,
    y: int,
    p1: nat,
    p2: nat,
)
    requires
        live_color_indices(g, w, h, x, y).len() != 3,
    ensures
        spec_step(g, w, h, x, y, p1) == spec_step(g, w, h, x, y, p2),
{
}

/// An all-dead grid has no live neighbors anywhere.
proof fn lemma_dead_grid_no_neighbors(g: Seq<Seq<Cell>>, w: int, h: int, x: int, y: int)
    requires
        grid_all_dead(g, w, h),
    ensures
        live_neighbors(g, w, h, x, y) == 0,
{
}

/// No spontaneous birth: one generation of an all-dead grid is all dead
/// again, whatever decided the (absent) births.
pub proof fn lemma_dead_grid_steps_dead(g: Seq<Seq<Cell>>, g2: Seq<Seq<Cell>>, w: int, h: int)
    requires
        grid_all_dead(g, w, h),
        step_rel(g, g2, w, h),
    ensures
        grid_all_dead(g2, w, h),
{
    assert forall|x: int, y: int| 0 <= x < w && 0 <= y < h implies #[trigger] g2[y][x]
        == Cell::Dead by {
        assert(cell_stepped(g, w, h, x, y, g2[y][x]));
        let pick = choose|pick: nat| g2[y][x] == spec_step(g, w, h, x, y, pick);
        lemma_dead_grid_no_neighbors(g, w, h, x, y);
        assert(!is_live(g, w, h, x, y));
    }
}

/// Survival never recolors: a live cell with two or three live
/// neighbors, of any colors, steps to a live cell of its own color,
/// whatever decides births.
pub proof fn lemma_survival_keeps_color(
    g: Seq<Seq<Cell>>,
    w: int,
    h: int,
    x: int,
    y: int,
    c: Color,
    pick: nat,
)
    requires
        0 <= x < w,
        0 <= y < h,
        g[y][x] == Cell::Alive(c),
        live_neighbors(g, w, h, x, y) == 2 || live_neighbors(g, w, h, x, y) == 3,
    ensures
        spec_step(g, w, h, x, y, pick) == Cell::Alive(c),
{
}

/// A dead cell whose three live neighbors all have one color is born
/// with that color.
pub proof fn lemma_birth_single_color(
    g: Seq<Seq<Cell>>,
    w: int,
    h: int,
    x: int,
    y: int,
    c: Color,
    pick: nat,
)
    requires
        0 <= x < w,
        0 <= y < h,
        g[y][x] == Cell::Dead,
        live_neighbors(g, w, h, x, y) == 3,
        forall|c2: Color| c2 != c ==> #[trigger] color_neighbors(g, w, h, x, y, c2) == 0,
    ensures
        spec_step(g, w, h, x, y, pick) == Cell::Alive(c),
{
    lemma_live_neighbors_by_color(g, w, h, x, y);
    assert(color_neighbors(g, w, h, x, y, c) == 3);
    lemma_color_indices_upto(g, w, h, x, y, COLOR_COUNT as int);
    lemma_color_index_roundtrip(c);
    let idxs = live_color_indices(g, w, h, x, y);
    let ci = spec_color_index(c);
    assert(idxs.contains(ci));
    let j0 = choose|j: int| 0 <= j < idxs.len() && idxs[j] == ci;
    assert forall|j: int| 0 <= j < idxs.len() implies idxs[j] == ci by {
        let e = idxs[j];
        assert(color_neighbors(g, w, h, x, y, spec_color_of_index(e)) > 0);
        assert(spec_color_of_index(e) == c);
        lemma_color_of_index_injective(e, ci);
    }
    assert(idxs.len() == 1) by {
        if idxs.len() >= 2 {
            assert(idxs[0] < idxs[1]);
        }
    }
    assert(idxs[0] == ci);
}

/// A dead cell whose three live neighbors split two to one across two
/// colors is born with the majority color, deterministically.
pub proof fn lemma_birth_majority_color(
    g: Seq<Seq<Cell>>,
    w: int,
    h: int,
    x: int,
    y: int,
    c1: Color,
    c2: Color,
    pick: nat,
)
    requires
        0 <= x < w,
        0 <= y < h,
        g[y][x] == Cell::Dead,
        c1 != c2,
        color_neighbors(g, w, h, x, y, c1) == 2,
        color_neighbors(g, w, h, x, y, c2) == 1,
        forall|c3: Color|
            c3 != c1 && c3 != c2 ==> #[trigger] color_neighbors(g, w, h, x, y, c3) == 0,
    ensures
        spec_step(g, w, h, x, y, pick) == Cell::Alive(c1),
{
    lemma_live_neighbors_by_color(g, w, h, x, y);
    assert(live_neighbors(g, w, h, x, y) == 3);
    lemma_color_indices_upto(g, w, h, x, y, COLOR_COUNT as int);
    lemma_color_index_roundtrip(c1);
    lemma_color_index_roundtrip(c2);
    let idxs = live_color_indices(g, w, h, x, y);
    let i1 = spec_color_index(c1);
    let i2 = spec_color_index(c2);
    assert(idxs.contains(i1));
    assert(idxs.contains(i2));
    let j1 = choose|j: int| 0 <= j < idxs.len() && idxs[j] == i1;
    let j2 = choose|j: int| 0 <= j < idxs.len() && idxs[j] == i2;
    assert forall|j: int| 0 <= j < idxs.len() implies idxs[j] == i1 || idxs[j] == i2 by {
        let e = idxs[j];
        assert(color_neighbors(g, w, h, x, y, spec_color_of_index(e)) > 0);
        assert(spec_color_of_index(e) == c1 || spec_color_of_index(e) == c2);
        if spec_color_of_index(e) == c1 {
            lemma_color_of_index_injective(e, i1);
        } else {
            lemma_color_of_index_injective(e, i2);
        }
    }
    assert(idxs.len() == 2) by {
        assert(j1 != j2);
        if idxs.len() >= 3 {
            assert(idxs[0] < idxs[1] && idxs[1] < idxs[2]);
        }
    }
    assert(spec_color_of_index(idxs[0]) == c1 || spec_color_of_index(idxs[0]) == c2);
    assert(spec_color_of_index(idxs[1]) == c1 || spec_color_of_index(idxs[1]) == c2);
    assert(idxs[0] != idxs[1]);
}

/// A dead cell whose three live neighbors have three distinct colors is
/// born with one of those three colors, whichever way the choice falls.
pub proof fn lemma_birth_three_colors(
    g: Seq<Seq<Cell>>,
    w: int,
    h: int,
    x: int,
    y: int,
    c1: Color,
    c2: Color,
    c3: Color,
    pick: nat,
)
    requires
        0 <= x < w,
        0 <= y < h,
        g[y][x] == Cell::Dead,
        live_neighbors(g, w, h, x, y) == 3,
        c1 != c2 && c1 != c3 && c2 != c3,
        color_neighbors(g, w, h, x, y, c1) == 1,
        color_neighbors(g, w, h, x, y, c2) == 1,
        color_neighbors(g, w, h, x, y, c3) == 1,
        forall|c4: Color|
            c4 != c1 && c4 != c2 && c4 != c3 ==> #[trigger] color_neighbors(g, w, h, x, y, c4)
                == 0,
    ensures
        spec_step(g, w, h, x, y, pick) == Cell::Alive(c1) || spec_step(g, w, h, x, y, pick)
            == Cell::Alive(c2) || spec_step(g, w, h, x, y, pick) == Cell::Alive(c3),
{
    lemma_color_indices_upto(g, w, h, x, y, COLOR_COUNT as int);
    lemma_color_index_roundtrip(c1);
    lemma_color_index_roundtrip(c2);
    lemma_color_index_roundtrip(c3);
    let idxs = live_color_indices(g, w, h, x, y);
    let i1 = spec_color_index(c1);
    let i2 = spec_color_index(c2);
    let i3 = spec_color_index(c3);
    assert(idxs.contains(i1));
    assert(idxs.contains(i2));
    assert(idxs.contains(i3));
    let j1 = choose|j: int| 0 <= j < idxs.len() && idxs[j] == i1;
    let j2 = choose|j: int| 0 <= j < idxs.len() && idxs[j] == i2;
    let j3 = choose|j: int| 0 <= j < idxs.len() && idxs[j] == i3;
    assert forall|j: int| 0 <= j < idxs.len() implies idxs[j] == i1 || idxs[j] == i2 || idxs[j]
        == i3 by {
        let e = idxs[j];
        assert(color_neighbors(g, w, h, x, y, spec_color_of_index(e)) > 0);
        assert(spec_color_of_index(e) == c1 || spec_color_of_index(e) == c2
            || spec_color_of_index(e) == c3);
        if spec_color_of_index(e) == c1 {
            lemma_color_of_index_injective(e, i1);
        } else if spec_color_of_index(e) == c2 {
            lemma_color_of_index_injective(e, i2);
        } else {
            lemma_color_of_index_injective(e, i3);
        }
    }
    assert(idxs.len() == 3) by {
        assert(j1 != j2 && j1 != j3 && j2 != j3);
        if idxs.len() >= 4 {
            assert(idxs[0] < idxs[1] && idxs[1] < idxs[2] && idxs[2] < idxs[3]);
        }
    }
    let k = (pick % 3) as int;
    assert(idxs[k] == i1 || idxs[k] == i2 || idxs[k] == i3);
}

} // verus!
