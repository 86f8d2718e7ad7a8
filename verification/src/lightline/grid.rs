//! Reachability on a rectangular grid: which cells can be reached from a
//! start cell by unit steps through passable cells.
use vstd::prelude::*;
use crate::lightline::state::{cell_index, grid_cells, grid_index, lemma_cell_index, lemma_cell_index_injective};

verus! {

pub open spec fn in_grid(w: int, h: int, x: int, y: int) -> bool {
    0 <= x < w && 0 <= y < h
}

/// Cell `(x, y)` lies on the grid and the mask marks it passable.
pub open spec fn passable(w: int, h: int, pass: Seq<bool>, x: int, y: int) -> bool {
    in_grid(w, h, x, y) && pass[cell_index(w, x, y)]
}

/// `(x, y)` can be reached from `start` in at most `n` unit steps, each step
/// entering a passable cell. The start itself needs no passability.
pub open spec fn reach_within(
    w: int,
    h: int,
    pass: Seq<bool>,
    start: (int, int),
    n: nat,
    x: int,
    y: int,
) -> bool
    decreases n,
{
    if n == 0 {
        x == start.0 && y == start.1
    } else {
        let m = (n - 1) as nat;
        reach_within(w, h, pass, start, m, x, y) || (passable(w, h, pass, x, y) && (reach_within(
            w,
            h,
            pass,
            start,
            m,
            x - 1,
            y,
        ) || reach_within(w, h, pass, start, m, x + 1, y) || reach_within(
            w,
            h,
            pass,
            start,
            m,
            x,
            y - 1,
        ) || reach_within(w, h, pass, start, m, x, y + 1)))
    }
}

/// `(x, y)` can be reached from `start` through passable cells.
pub open spec fn reachable(w: int, h: int, pass: Seq<bool>, start: (int, int), x: int, y: int) -> bool {
    exists|n: nat| reach_within(w, h, pass, start, n, x, y)
}

/// Number of `true` entries.
pub open spec fn count_true(s: Seq<bool>) -> nat
    decreases s.len(),
{
    if s.len() == 0 {
        0
    } else {
        count_true(s.drop_last()) + if s.last() {
            1nat
        } else {
            0nat
        }
    }
}

pub proof fn lemma_count_le(s: Seq<bool>)
    ensures
        count_true(s) <= s.len(),
    decreases s.len(),
{
    if s.len() > 0 {
        lemma_count_le(s.drop_last());
    }
}

pub proof fn lemma_count_set(s: Seq<bool>, i: int)
    requires
        0 <= i < s.len(),
        !s[i],
    ensures
        count_true(s.update(i, true)) == count_true(s) + 1,
    decreases s.len(),
{
    let t = s.update(i, true);
    if i == s.len() - 1 {
        assert(t.drop_last() =~= s.drop_last());
    } else {
        assert(t.drop_last() =~= s.drop_last().update(i, true));
        lemma_count_set(s.drop_last(), i);
    }
}

/// Reaching a cell in `n` steps also reaches it in `n + 1`.
proof fn lemma_reach_mono(w: int, h: int, pass: Seq<bool>, start: (int, int), n: nat, x: int, y: int)
    requires
        reach_within(w, h, pass, start, n, x, y),
    ensures
        reach_within(w, h, pass, start, n + 1, x, y),
{
}

/// One more step from a reachable cell into a passable neighbour.
proof fn lemma_reach_step(
    w: int,
    h: int,
    pass: Seq<bool>,
    start: (int, int),
    x: int,
    y: int,
    nx: int,
    ny: int,
)
    requires
        reachable(w, h, pass, start, x, y),
        passable(w, h, pass, nx, ny),
        (nx == x - 1 && ny == y) || (nx == x + 1 && ny == y) || (nx == x && ny == y - 1) || (nx
            == x && ny == y + 1),
    ensures
        reachable(w, h, pass, start, nx, ny),
{
    let n = choose|n: nat| reach_within(w, h, pass, start, n, x, y);
    assert(reach_within(w, h, pass, start, n + 1, nx, ny));
}

/// Visited mask entry of cell `(x, y)`, false off the grid.
pub open spec fn vis(w: int, h: int, v: Seq<bool>, x: int, y: int) -> bool {
    in_grid(w, h, x, y) && v[cell_index(w, x, y)]
}

/// Every passable neighbour of `(x, y)` is visited.
pub open spec fn closed_at(w: int, h: int, pass: Seq<bool>, v: Seq<bool>, x: int, y: int) -> bool {
    &&& (passable(w, h, pass, x - 1, y) ==> vis(w, h, v, x - 1, y))
    &&& (passable(w, h, pass, x + 1, y) ==> vis(w, h, v, x + 1, y))
    &&& (passable(w, h, pass, x, y - 1) ==> vis(w, h, v, x, y - 1))
    &&& (passable(w, h, pass, x, y + 1) ==> vis(w, h, v, x, y + 1))
}

/// A visited set that holds the start and is closed under passable steps
/// holds every reachable cell.
proof fn lemma_closed_complete(
    w: int,
    h: int,
    pass: Seq<bool>,
    v: Seq<bool>,
    start: (int, int),
    n: nat,
    x: int,
    y: int,
)
    requires
        v.len() == w * h,
        vis(w, h, v, start.0, start.1),
        forall|a: int, b: int| vis(w, h, v, a, b) ==> #[trigger] closed_at(w, h, pass, v, a, b),
        reach_within(w, h, pass, start, n, x, y),
    ensures
        vis(w, h, v, x, y),
    decreases n,
{
    if n > 0 {
        let m = (n - 1) as nat;
        if reach_within(w, h, pass, start, m, x, y) {
            lemma_closed_complete(w, h, pass, v, start, m, x, y);
        } else if reach_within(w, h, pass, start, m, x - 1, y) {
            lemma_closed_complete(w, h, pass, v, start, m, x - 1, y);
            assert(closed_at(w, h, pass, v, x - 1, y));
        } else if reach_within(w, h, pass, start, m, x + 1, y) {
            lemma_closed_complete(w, h, pass, v, start, m, x + 1, y);
            assert(closed_at(w, h, pass, v, x + 1, y));
        } else if reach_within(w, h, pass, start, m, x, y - 1) {
            lemma_closed_complete(w, h, pass, v, start, m, x, y - 1);
            assert(closed_at(w, h, pass, v, x, y - 1));
        } else {
            lemma_closed_complete(w, h, pass, v, start, m, x, y + 1);
            assert(closed_at(w, h, pass, v, x, y + 1));
        }
    }
}

/// Setting one cell of the mask leaves every other cell's entry unchanged.
proof fn lemma_vis_update(w: int, h: int, v: Seq<bool>, nx: int, ny: int)
    requires
        v.len() == w * h,
        in_grid(w, h, nx, ny),
    ensures
        forall|x: int, y: int|
            (x != nx || y != ny) ==> #[trigger] vis(w, h, v.update(cell_index(w, nx, ny), true), x, y)
                == vis(w, h, v, x, y),
        vis(w, h, v.update(cell_index(w, nx, ny), true), nx, ny),
{
    lemma_cell_index(w, h, nx, ny);
    assert forall|x: int, y: int| (x != nx || y != ny) implies #[trigger] vis(
        w,
        h,
        v.update(cell_index(w, nx, ny), true),
        x,
        y,
    ) == vis(w, h, v, x, y) by {
        if in_grid(w, h, x, y) {
            lemma_cell_index(w, h, x, y);
            if cell_index(w, x, y) == cell_index(w, nx, ny) {
                lemma_cell_index_injective(w, x, y, nx, ny);
            }
        }
    }
}

/// The cell next to `(x, y)` in direction `dir`: left, right, up, down.
pub open spec fn neighbor(x: int, y: int, dir: u8) -> (int, int) {
    if dir == 0 {
        (x - 1, y)
    } else if dir == 1 {
        (x + 1, y)
    } else if dir == 2 {
        (x, y - 1)
    } else {
        (x, y + 1)
    }
}

pub open spec fn on_stack(s: Seq<(u16, u16)>, x: int, y: int) -> bool {
    exists|k: int| 0 <= k < s.len() && s[k].0 == x && s[k].1 == y
}

/// The BFS invariant over the mask `v` and work list `s`.
pub open spec fn search_inv(
    w: int,
    h: int,
    pass: Seq<bool>,
    start: (int, int),
    v: Seq<bool>,
    s: Seq<(u16, u16)>,
) -> bool {
    &&& v.len() == w * h
    &&& vis(w, h, v, start.0, start.1)
    &&& forall|a: int, b: int| vis(w, h, v, a, b) ==> reachable(w, h, pass, start, a, b)
    &&& forall|k: int|
        0 <= k < s.len() ==> vis(w, h, v, #[trigger] s[k].0 as int, s[k].1 as int)
    &&& forall|a: int, b: int|
        vis(w, h, v, a, b) ==> on_stack(s, a, b) || #[trigger] closed_at(w, h, pass, v, a, b)
}

/// The search invariant while the cell `ex`, just taken off the work list,
/// has its neighbours visited.
pub open spec fn search_inv_except(
    w: int,
    h: int,
    pass: Seq<bool>,
    start: (int, int),
    v: Seq<bool>,
    s: Seq<(u16, u16)>,
    ex: (int, int),
) -> bool {
    &&& v.len() == w * h
    &&& vis(w, h, v, start.0, start.1)
    &&& forall|a: int, b: int| vis(w, h, v, a, b) ==> reachable(w, h, pass, start, a, b)
    &&& forall|k: int|
        0 <= k < s.len() ==> vis(w, h, v, #[trigger] s[k].0 as int, s[k].1 as int)
    &&& forall|a: int, b: int|
        vis(w, h, v, a, b) ==> on_stack(s, a, b) || (a == ex.0 && b == ex.1)
            || #[trigger] closed_at(w, h, pass, v, a, b)
}

/// Visits `(nx, ny)` if it is a passable, not yet visited cell; keeps the
/// search invariant and the work list's other entries.
fn visit(
    width: u16,
    height: u16,
    pass: &Vec<bool>,
    start: (u16, u16),
    visited: &mut Vec<bool>,
    stack: &mut Vec<(u16, u16)>,
    x: u16,
    y: u16,
    dir: u8,
)
    requires
        dir < 4,
        pass@.len() == width * height,
        search_inv_except(
            width as int,
            height as int,
            pass@,
            (start.0 as int, start.1 as int),
            old(visited)@,
            old(stack)@,
            (x as int, y as int),
        ),
        vis(width as int, height as int, old(visited)@, x as int, y as int),
    ensures
        search_inv_except(
            width as int,
            height as int,
            pass@,
            (start.0 as int, start.1 as int),
            final(visited)@,
            final(stack)@,
            (x as int, y as int),
        ),
        passable(
            width as int,
            height as int,
            pass@,
            neighbor(x as int, y as int, dir).0,
            neighbor(x as int, y as int, dir).1,
        ) ==> vis(
            width as int,
            height as int,
            final(visited)@,
            neighbor(x as int, y as int, dir).0,
            neighbor(x as int, y as int, dir).1,
        ),
        forall|a: int, b: int|
            vis(width as int, height as int, old(visited)@, a, b) ==> #[trigger] vis(
                width as int,
                height as int,
                final(visited)@,
                a,
                b,
            ),
        forall|a: int, b: int|
            #[trigger] closed_at(width as int, height as int, pass@, old(visited)@, a, b)
                ==> closed_at(width as int, height as int, pass@, final(visited)@, a, b),
        final(stack)@.len() >= old(stack)@.len(),
        final(stack)@.subrange(0, old(stack)@.len() as int) == old(stack)@,
        count_true(final(visited)@) == count_true(old(visited)@) + (final(stack)@.len() - old(
            stack,
        )@.len()),
        final(stack)@.len() <= old(stack)@.len() + 1,
{
    let ghost w = width as int;
    let ghost h = height as int;
    let ghost st = (start.0 as int, start.1 as int);
    let ghost nx = neighbor(x as int, y as int, dir).0;
    let ghost ny = neighbor(x as int, y as int, dir).1;
    let (ux, uy): (u16, u16) = if dir == 0 {
        if x == 0 {
            return;
        }
        (x - 1, y)
    } else if dir == 1 {
        if x + 1 >= width {
            return;
        }
        (x + 1, y)
    } else if dir == 2 {
        if y == 0 {
            return;
        }
        (x, y - 1)
    } else {
        if y + 1 >= height {
            return;
        }
        (x, y + 1)
    };
    assert(ux == nx && uy == ny);
    let idx = grid_index(width, height, ux, uy);
    if !pass[idx] || visited[idx] {
        return;
    }
    proof {
        lemma_reach_step(w, h, pass@, st, x as int, y as int, nx, ny);
        lemma_vis_update(w, h, visited@, nx, ny);
        lemma_count_set(visited@, idx as int);
    }
    let ghost v0 = visited@;
    let ghost s0 = stack@;
    visited.set(idx, true);
    stack.push((ux, uy));
    assert(stack@.subrange(0, s0.len() as int) =~= s0);
    assert forall|a: int, b: int| #[trigger]
        closed_at(w, h, pass@, v0, a, b) implies closed_at(w, h, pass@, visited@, a, b) by {
        assert(vis(w, h, visited@, a - 1, b) == (vis(w, h, v0, a - 1, b) || (a - 1 == nx && b
            == ny)));
        assert(vis(w, h, visited@, a + 1, b) == (vis(w, h, v0, a + 1, b) || (a + 1 == nx && b
            == ny)));
        assert(vis(w, h, visited@, a, b - 1) == (vis(w, h, v0, a, b - 1) || (a == nx && b - 1
            == ny)));
        assert(vis(w, h, visited@, a, b + 1) == (vis(w, h, v0, a, b + 1) || (a == nx && b + 1
            == ny)));
    }
    assert forall|a: int, b: int| vis(w, h, visited@, a, b) implies on_stack(stack@, a, b) || (a
        == x && b == y) || #[trigger] closed_at(w, h, pass@, visited@, a, b) by {
        if a == nx && b == ny {
            assert(stack@[s0.len() as int] == (ux, uy));
        } else {
            assert(vis(w, h, v0, a, b));
            if on_stack(s0, a, b) {
                let k = choose|k: int| 0 <= k < s0.len() && s0[k].0 == a && s0[k].1 == b;
                assert(stack@[k] == s0[k]);
            } else if a == x && b == y {
            } else {
                assert(closed_at(w, h, pass@, v0, a, b));
            }
        }
    }
    assert forall|k: int| 0 <= k < stack@.len() implies vis(
        w,
        h,
        visited@,
        #[trigger] stack@[k].0 as int,
        stack@[k].1 as int,
    ) by {
        if k < s0.len() {
            assert(stack@[k] == s0[k]);
            assert(vis(w, h, v0, s0[k].0 as int, s0[k].1 as int));
        }
    }
}

/// The mask of cells reachable from `start` through cells that `pass`
/// marks passable (row-major, `width * height` entries).
pub fn reachable_mask(width: u16, height: u16, pass: &Vec<bool>, start: (u16, u16)) -> (visited:
    Vec<bool>)
    requires
        pass@.len() == width * height,
        start.0 < width,
        start.1 < height,
    ensures
        visited@.len() == width * height,
        forall|x: int, y: int|
            in_grid(width as int, height as int, x, y) ==> (#[trigger] visited@[cell_index(
                width as int,
                x,
                y,
            )] == reachable(
                width as int,
                height as int,
                pass@,
                (start.0 as int, start.1 as int),
                x,
                y,
            )),
{
    let ghost w = width as int;
    let ghost h = height as int;
    let ghost st = (start.0 as int, start.1 as int);
    let n = grid_cells(width, height);
    let mut visited: Vec<bool> = Vec::new();
    let mut i: usize = 0;
    while i < n
        invariant
            n == width * height,
            i <= n,
            visited@.len() == i,
            forall|k: int| 0 <= k < i ==> !visited@[k],
        decreases n - i,
    {
        visited.push(false);
        i = i + 1;
    }
    proof {
        assert(count_true(visited@) == 0) by {
            lemma_count_zero(visited@);
        }
    }
    let sidx = grid_index(width, height, start.0, start.1);
    proof {
        lemma_vis_update(w, h, visited@, st.0, st.1);
        lemma_count_set(visited@, sidx as int);
        assert(reach_within(w, h, pass@, st, 0, st.0, st.1));
    }
    let ghost v_before = visited@;
    visited.set(sidx, true);
    let mut stack: Vec<(u16, u16)> = Vec::new();
    stack.push(start);
    proof {
        assert(visited@ == v_before.update(cell_index(w, st.0, st.1), true));
        assert forall|a: int, b: int| (a != st.0 || b != st.1) implies !vis(w, h, visited@, a, b) by {
            assert(vis(w, h, visited@, a, b) == vis(w, h, v_before, a, b));
            if in_grid(w, h, a, b) {
                lemma_cell_index(w, h, a, b);
                assert(!v_before[cell_index(w, a, b)]);
            }
        }
        assert forall|a: int, b: int| vis(w, h, visited@, a, b) implies reachable(
            w,
            h,
            pass@,
            st,
            a,
            b,
        ) by {
            assert(a == st.0 && b == st.1);
        }
        assert forall|a: int, b: int| vis(w, h, visited@, a, b) implies on_stack(stack@, a, b)
            || #[trigger] closed_at(w, h, pass@, visited@, a, b) by {
            assert(a == st.0 && b == st.1);
            assert(stack@[0] == start);
        }
        lemma_count_le(visited@);
    }
    while stack.len() > 0
        invariant
            w == width as int,
            h == height as int,
            st == (start.0 as int, start.1 as int),
            pass@.len() == width * height,
            search_inv(w, h, pass@, st, visited@, stack@),
            count_true(visited@) <= w * h,
        decreases 5 * (w * h - count_true(visited@)) + stack@.len(),
    {
        let ghost s_all = stack@;
        let (x, y) = stack.pop().unwrap();
        proof {
            assert(stack@ =~= s_all.drop_last());
            assert(s_all[s_all.len() - 1] == (x, y));
            assert(vis(w, h, visited@, x as int, y as int));
            assert forall|a: int, b: int| vis(w, h, visited@, a, b) implies on_stack(stack@, a, b)
                || (a == x && b == y) || #[trigger] closed_at(w, h, pass@, visited@, a, b) by {
                if on_stack(s_all, a, b) {
                    let k = choose|k: int| 0 <= k < s_all.len() && s_all[k].0 == a && s_all[k].1 == b;
                    if k < s_all.len() - 1 {
                        assert(stack@[k] == s_all[k]);
                    }
                }
            }
            assert forall|k: int| 0 <= k < stack@.len() implies vis(
                w,
                h,
                visited@,
                #[trigger] stack@[k].0 as int,
                stack@[k].1 as int,
            ) by {
                assert(stack@[k] == s_all[k]);
            }
        }
        let ghost v0 = visited@;
        let ghost s0 = stack@;
        visit(width, height, pass, start, &mut visited, &mut stack, x, y, 0);
        visit(width, height, pass, start, &mut visited, &mut stack, x, y, 1);
        visit(width, height, pass, start, &mut visited, &mut stack, x, y, 2);
        visit(width, height, pass, start, &mut visited, &mut stack, x, y, 3);
        proof {
            lemma_count_le(visited@);
            assert(closed_at(w, h, pass@, visited@, x as int, y as int));
            assert forall|a: int, b: int| vis(w, h, visited@, a, b) implies on_stack(stack@, a, b)
                || #[trigger] closed_at(w, h, pass@, visited@, a, b) by {
            }
        }
    }
    proof {
        assert forall|a: int, b: int| vis(w, h, visited@, a, b) implies #[trigger] closed_at(
            w,
            h,
            pass@,
            visited@,
            a,
            b,
        ) by {
            if on_stack(stack@, a, b) {
                let k = choose|k: int| 0 <= k < stack@.len() && stack@[k].0 == a && stack@[k].1 == b;
            }
        }
        assert forall|x: int, y: int| in_grid(w, h, x, y) implies (#[trigger] visited@[cell_index(
            w,
            x,
            y,
        )] == reachable(w, h, pass@, st, x, y)) by {
            if reachable(w, h, pass@, st, x, y) {
                let k = choose|k: nat| reach_within(w, h, pass@, st, k, x, y);
                lemma_closed_complete(w, h, pass@, visited@, st, k, x, y);
            }
            if visited@[cell_index(w, x, y)] {
                assert(vis(w, h, visited@, x, y));
            }
        }
    }
    visited
}

proof fn lemma_count_zero(s: Seq<bool>)
    requires
        forall|k: int| 0 <= k < s.len() ==> !s[k],
    ensures
        count_true(s) == 0,
    decreases s.len(),
{
    if s.len() > 0 {
        lemma_count_zero(s.drop_last());
    }
}

} // verus!
