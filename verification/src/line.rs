//! Three-in-a-row evaluation of nine cells laid out as a 3×3 board.
//!
//! The same evaluation serves a sub-board, whose cells hold player ids, and
//! the board of sub-board outcomes.

use vstd::prelude::*;

verus! {

/// The outcome of a section in which nothing is decided yet.
pub const UNDECIDED: i64 = 0;

/// The outcome of a section that is complete without three in a row.
pub const DRAW: i64 = -1;

/// The three cell indices of line `k`: the two diagonals first, then the three
/// rows, then the three columns.
pub open spec fn line_at(k: int) -> (int, int, int) {
    if k == 0 {
        (0, 4, 8)
    } else if k == 1 {
        (2, 4, 6)
    } else if k == 2 {
        (0, 1, 2)
    } else if k == 3 {
        (3, 4, 5)
    } else if k == 4 {
        (6, 7, 8)
    } else if k == 5 {
        (0, 3, 6)
    } else if k == 6 {
        (1, 4, 7)
    } else {
        (2, 5, 8)
    }
}

/// Line `k` of `g` holds three equal values other than zero.
pub open spec fn line_complete(g: Seq<i64>, k: int) -> bool {
    let (a, b, c) = line_at(k);
    g[a] != 0 && g[a] == g[b] && g[b] == g[c]
}

/// All three cells of line `k` of `g` hold `p`.
pub open spec fn line_held_by(g: Seq<i64>, k: int, p: i64) -> bool {
    let (a, b, c) = line_at(k);
    g[a] == p && g[b] == p && g[c] == p
}

/// Some line of `g` is complete.
pub open spec fn any_line_complete(g: Seq<i64>) -> bool {
    exists|k: int| 0 <= k < 8 && line_complete(g, k)
}

/// Some cell of `g` is zero.
pub open spec fn has_empty(g: Seq<i64>) -> bool {
    exists|i: int| 0 <= i < 9 && g[i] == 0
}

/// The first complete line of `g` in the order of [`line_at`], or 8 if no line
/// is complete.
pub open spec fn first_complete_line(g: Seq<i64>) -> int {
    if line_complete(g, 0) {
        0
    } else if line_complete(g, 1) {
        1
    } else if line_complete(g, 2) {
        2
    } else if line_complete(g, 3) {
        3
    } else if line_complete(g, 4) {
        4
    } else if line_complete(g, 5) {
        5
    } else if line_complete(g, 6) {
        6
    } else if line_complete(g, 7) {
        7
    } else {
        8
    }
}

/// The outcome of the nine cells `g`: the value on the first complete line if
/// there is one; otherwise [`UNDECIDED`] while some cell is zero and [`DRAW`]
/// once none is.
pub open spec fn line_outcome(g: Seq<i64>) -> i64 {
    let k = first_complete_line(g);
    if k < 8 {
        g[line_at(k).0]
    } else if has_empty(g) {
        UNDECIDED
    } else {
        DRAW
    }
}

/// The indices of line `k`.
fn line_indices(k: usize) -> (l: (usize, usize, usize))
    requires
        k < 8,
    ensures
        (l.0 as int, l.1 as int, l.2 as int) == line_at(k as int),
        l.0 < 9 && l.1 < 9 && l.2 < 9,
{
    if k == 0 {
        (0, 4, 8)
    } else if k == 1 {
        (2, 4, 6)
    } else if k == 2 {
        (0, 1, 2)
    } else if k == 3 {
        (3, 4, 5)
    } else if k == 4 {
        (6, 7, 8)
    } else if k == 5 {
        (0, 3, 6)
    } else if k == 6 {
        (1, 4, 7)
    } else {
        (2, 5, 8)
    }
}

/// Evaluates nine cells: the value on the first complete line, else
/// [`UNDECIDED`] if a cell is still zero, else [`DRAW`].
pub fn get_winner_of(section: &[i64; 9]) -> (w: i64)
    ensures
        w == line_outcome(section@),
        any_line_complete(section@) ==> w != 0 && holds_a_line(section@, w),
        !any_line_complete(section@) ==> w == if has_empty(section@) {
            UNDECIDED
        } else {
            DRAW
        },
{
    let mut k: usize = 0;
    while k < 8
        invariant
            k <= 8,
            forall|j: int| 0 <= j < k ==> !line_complete(section@, j),
        decreases 8 - k,
    {
        let l = line_indices(k);
        let a = section[l.0];
        if a != 0 && a == section[l.1] && a == section[l.2] {
            assert(line_held_by(section@, k as int, a));
            return a;
        }
        k += 1;
    }
    let mut i: usize = 0;
    while i < 9
        invariant
            i <= 9,
            first_complete_line(section@) == 8,
            !any_line_complete(section@),
            forall|j: int| 0 <= j < i ==> section@[j] != 0,
        decreases 9 - i,
    {
        if section[i] == 0 {
            return UNDECIDED;
        }
        i += 1;
    }
    DRAW
}

/// Some line of `g` holds `p` in all three cells.
pub open spec fn holds_a_line(g: Seq<i64>, p: i64) -> bool {
    exists|k: int| 0 <= k < 8 && line_held_by(g, k, p)
}

/// The evaluation agrees with a search of all eight lines on every filling of
/// the nine cells with 0, 1 and 2: the outcome is 0 exactly when a cell is
/// empty and no line is complete, -1 exactly when no cell is empty and no line
/// is complete, and otherwise a player who holds a whole line; a player who
/// alone holds a line is the outcome.
pub proof fn lemma_outcome_matches_line_search(g: Seq<i64>)
    requires
        g.len() == 9,
        forall|i: int| 0 <= i < 9 ==> 0 <= #[trigger] g[i] <= 2,
    ensures
        line_outcome(g) == 0 <==> has_empty(g) && !any_line_complete(g),
        line_outcome(g) == -1 <==> !has_empty(g) && !any_line_complete(g),
        line_outcome(g) == 1 || line_outcome(g) == 2 <==> any_line_complete(g),
        any_line_complete(g) <==> holds_a_line(g, 1) || holds_a_line(g, 2),
        any_line_complete(g) ==> holds_a_line(g, line_outcome(g)),
        holds_a_line(g, 1) && !holds_a_line(g, 2) ==> line_outcome(g) == 1,
        holds_a_line(g, 2) && !holds_a_line(g, 1) ==> line_outcome(g) == 2,
{
    let f = first_complete_line(g);
    if f < 8 {
        assert(line_held_by(g, f, line_outcome(g)));
    }
}

} // verus!
