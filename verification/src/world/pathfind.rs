use vstd::prelude::*;
use vstd::set_lib::{lemma_int_range, lemma_len_subset, set_int_range};
use crate::world::grid::{
    cell_index, lemma_grid_size_fits, lemma_index, lemma_index_inverse, neighbor_order,
    position_of_index, Grid,
};
use crate::world::position::{adjacent, Position};
use crate::world::tile::tile_solid;

verus! {

/// A position a walker heading for `goal` may step on: inside the grid, not
/// solid, and free of agents unless it is the goal itself.
pub open spec fn passable(g: Grid, goal: Position, p: Position) -> bool {
    &&& g.in_bounds(p)
    &&& !tile_solid(g.tile_at(p))
    &&& (g.occupant_at(p) is None || p == goal)
}

/// `path` leads from `from` to `goal` one neighbour at a time over passable
/// positions; it does not list `from` and ends with `goal`.
pub open spec fn is_walk(g: Grid, from: Position, path: Seq<Position>, goal: Position) -> bool
    decreases path.len(),
{
    if path.len() == 0 {
        from == goal
    } else {
        &&& adjacent(from, path[0])
        &&& passable(g, goal, path[0])
        &&& is_walk(g, path[0], path.drop_first(), goal)
    }
}

/// `path` is a walk from `from` to `goal` and no walk between them is shorter.
pub open spec fn shortest_walk(g: Grid, from: Position, path: Seq<Position>, goal: Position) -> bool {
    &&& is_walk(g, from, path, goal)
    &&& forall|p: Seq<Position>| #[trigger] is_walk(g, from, p, goal) ==> path.len() <= p.len()
}

/// `path` steps from `from` one neighbour at a time onto positions passable
/// for a walker heading to `goal`; it does not list `from`.
pub open spec fn steps_ok(g: Grid, goal: Position, from: Position, path: Seq<Position>) -> bool
    decreases path.len(),
{
    if path.len() == 0 {
        true
    } else {
        &&& adjacent(from, path[0])
        &&& passable(g, goal, path[0])
        &&& steps_ok(g, goal, path[0], path.drop_first())
    }
}

/// Where `path` from `from` ends.
pub open spec fn walk_end(from: Position, path: Seq<Position>) -> Position {
    if path.len() == 0 {
        from
    } else {
        path.last()
    }
}

/// A walk to `goal` is a run of steps that ends at `goal`.
pub proof fn lemma_walk_steps(g: Grid, from: Position, path: Seq<Position>, goal: Position)
    requires
        is_walk(g, from, path, goal),
    ensures
        steps_ok(g, goal, from, path),
        walk_end(from, path) == goal,
    decreases path.len(),
{
    if path.len() > 0 {
        lemma_walk_steps(g, path[0], path.drop_first(), goal);
        if path.len() > 1 {
            assert(path.drop_first().last() == path.last());
        }
    }
}

/// Dropping the last step of a run of steps leaves a run of steps, from whose
/// end the last step was taken.
proof fn lemma_steps_prefix(g: Grid, goal: Position, from: Position, p: Seq<Position>)
    requires
        steps_ok(g, goal, from, p),
        p.len() > 0,
    ensures
        steps_ok(g, goal, from, p.drop_last()),
        adjacent(walk_end(from, p.drop_last()), p.last()),
        passable(g, goal, p.last()),
    decreases p.len(),
{
    if p.len() > 1 {
        let t = p.drop_first();
        lemma_steps_prefix(g, goal, p[0], t);
        assert(p.drop_last().drop_first() =~= t.drop_last());
        assert(p.drop_last()[0] == p[0]);
        assert(p.last() == t.last());
        if t.drop_last().len() > 0 {
            assert(p.drop_last().last() == t.drop_last().last());
        }
    }
}

/// The end of a run of steps from an in-bounds position is in bounds.
proof fn lemma_end_in_bounds(g: Grid, goal: Position, from: Position, p: Seq<Position>)
    requires
        steps_ok(g, goal, from, p),
        g.in_bounds(from),
    ensures
        g.in_bounds(walk_end(from, p)),
{
    if p.len() > 0 {
        lemma_steps_prefix(g, goal, from, p);
    }
}

/// Every neighbour of a position is listed by `neighbor_order`.
pub proof fn lemma_adjacent_in_neighbor_order(p: Position, q: Position)
    requires
        adjacent(p, q),
    ensures
        neighbor_order(p).contains(q),
{
    let left = if p.x > 0 { seq![Position { x: (p.x - 1) as u16, y: p.y }] } else { Seq::empty() };
    let down = if p.y < 65535 { seq![Position { x: p.x, y: (p.y + 1) as u16 }] } else { Seq::empty() };
    let right = if p.x < 65535 { seq![Position { x: (p.x + 1) as u16, y: p.y }] } else { Seq::empty() };
    let up = if p.y > 0 { seq![Position { x: p.x, y: (p.y - 1) as u16 }] } else { Seq::empty() };
    let s = left + down + right + up;
    assert(s == neighbor_order(p));
    if q.x + 1 == p.x {
        assert(s[0] == q);
    } else if q.y == p.y + 1 {
        assert(s[left.len() as int] == q);
    } else if q.x == p.x + 1 {
        assert(s[(left.len() + down.len()) as int] == q);
    } else {
        assert(s[(left.len() + down.len() + right.len()) as int] == q);
    }
}

/// The positions that `neighbor_order` lists are neighbours.
pub proof fn lemma_neighbor_order_adjacent(p: Position, i: int)
    requires
        0 <= i < neighbor_order(p).len(),
    ensures
        adjacent(p, neighbor_order(p)[i]),
{
    let left = if p.x > 0 { seq![Position { x: (p.x - 1) as u16, y: p.y }] } else { Seq::empty() };
    let down = if p.y < 65535 { seq![Position { x: p.x, y: (p.y + 1) as u16 }] } else { Seq::empty() };
    let right = if p.x < 65535 { seq![Position { x: (p.x + 1) as u16, y: p.y }] } else { Seq::empty() };
    let up = if p.y > 0 { seq![Position { x: p.x, y: (p.y - 1) as u16 }] } else { Seq::empty() };
    let s = left + down + right + up;
    assert(s == neighbor_order(p));
    if i < left.len() {
        assert(s[i] == left[i]);
    } else if i < left.len() + down.len() {
        assert(s[i] == down[i - left.len()]);
    } else if i < left.len() + down.len() + right.len() {
        assert(s[i] == right[i - left.len() - down.len()]);
    } else {
        assert(s[i] == up[i - left.len() - down.len() - right.len()]);
    }
}

/// Every passable neighbour of the position at index `i` has been reached.
pub open spec fn closed_at(g: Grid, goal: Position, seen: Set<int>, i: int) -> bool {
    forall|q: Position|
        #![trigger passable(g, goal, q), adjacent(position_of_index(g.width, i), q)]
        adjacent(position_of_index(g.width, i), q) && passable(g, goal, q) ==> seen.contains(
            cell_index(g.width, q),
        )
}

/// A set of reached indices that contains every passable neighbour of its
/// members holds the end of every walk that starts inside it.
proof fn lemma_walk_stays_inside(g: Grid, goal: Position, seen: Set<int>, from: Position, path: Seq<Position>)
    requires
        g.wf(),
        g.in_bounds(from),
        seen.contains(cell_index(g.width, from)),
        forall|i: int| #[trigger] seen.contains(i) ==> closed_at(g, goal, seen, i),
        is_walk(g, from, path, goal),
    ensures
        g.in_bounds(goal),
        seen.contains(cell_index(g.width, goal)),
    decreases path.len(),
{
    if path.len() > 0 {
        let i = cell_index(g.width, from);
        lemma_index(g.width, g.height, from);
        assert(closed_at(g, goal, seen, i));
        assert(adjacent(position_of_index(g.width, i), path[0]));
        assert(passable(g, goal, path[0]));
        lemma_walk_stays_inside(g, goal, seen, path[0], path.drop_first());
    }
}

/// State of the breadth-first search over grid indices.
struct Search {
    visited: Vec<bool>,
    parent: Vec<usize>,
    queue: Vec<usize>,
    seen: Ghost<Set<int>>,
    dist: Ghost<Seq<int>>,
}

impl Search {
    /// The step into index `i` is justified by its parent.
    spec fn parent_ok(&self, g: Grid, goal: Position, i: int) -> bool {
        let pi = self.parent@[i] as int;
        &&& 0 <= pi < g.width as int * g.height as int
        &&& self.seen@.contains(pi)
        &&& adjacent(position_of_index(g.width, pi), position_of_index(g.width, i))
        &&& passable(g, goal, position_of_index(g.width, i))
        &&& self.dist@[i] == self.dist@[pi] + 1
    }

    /// The parents of the reached indices form a tree rooted at `si` whose
    /// edges are steps between neighbours onto passable positions.
    spec fn tree_ok(&self, g: Grid, goal: Position, si: int) -> bool {
        let n = g.width as int * g.height as int;
        &&& g.wf()
        &&& self.parent@.len() == n
        &&& self.dist@.len() == n
        &&& 0 <= si < n
        &&& self.seen@.contains(si)
        &&& self.dist@[si] == 0
        &&& forall|i: int| #[trigger] self.seen@.contains(i) ==> 0 <= i < n && self.dist@[i] >= 0
        &&& forall|i: int| #[trigger] self.seen@.contains(i) && i != si ==> self.parent_ok(g, goal, i)
    }

    /// The queue lists the reached indices, each once; those before `head`
    /// have had all their neighbours looked at.
    spec fn queue_ok(&self, g: Grid, goal: Position, head: int) -> bool {
        let n = g.width as int * g.height as int;
        &&& self.visited@.len() == n
        &&& 0 <= head <= self.queue@.len()
        &&& self.seen@.finite()
        &&& self.seen@.len() == self.queue@.len()
        &&& forall|i: int| 0 <= i < n ==> (#[trigger] self.visited@[i] <==> self.seen@.contains(i))
        &&& forall|k: int| 0 <= k < self.queue@.len() ==> self.seen@.contains(#[trigger] self.queue@[k] as int)
        &&& forall|i: int| #[trigger] self.seen@.contains(i) ==> exists|k: int| 0 <= k < self.queue@.len() && self.queue@[k] == i
        &&& forall|k: int| 0 <= k < head ==> closed_at(g, goal, self.seen@, #[trigger] self.queue@[k] as int)
    }

    /// The queue lists indices by nondecreasing distance, and those from
    /// `head` on lie at most one step beyond the one at `head`.
    spec fn order_ok(&self, head: int) -> bool {
        &&& forall|k1: int, k2: int|
            #![trigger self.queue@[k1], self.queue@[k2]]
            0 <= k1 <= k2 < self.queue@.len() ==> self.dist@[self.queue@[k1] as int] <= self.dist@[self.queue@[k2] as int]
        &&& forall|k: int|
            head <= k < self.queue@.len() ==> self.dist@[#[trigger] self.queue@[k] as int] <= self.dist@[self.queue@[head] as int]
                + 1
    }

    /// No run of steps from `start` reaches a reached index in fewer steps
    /// than its distance.
    spec fn lower_ok(&self, g: Grid, goal: Position, start: Position) -> bool {
        forall|p: Seq<Position>|
            #[trigger] steps_ok(g, goal, start, p) && self.seen@.contains(cell_index(g.width, walk_end(start, p)))
                ==> self.dist@[cell_index(g.width, walk_end(start, p))] <= p.len()
    }

    /// The search from `start` (at index `si`) is sound and keeps BFS order.
    spec fn bfs_ok(&self, g: Grid, goal: Position, start: Position, si: int, head: int) -> bool {
        &&& self.tree_ok(g, goal, si)
        &&& self.queue_ok(g, goal, head)
        &&& self.order_ok(head)
        &&& self.lower_ok(g, goal, start)
        &&& g.in_bounds(start)
        &&& si == cell_index(g.width, start)
    }

    spec fn inv(&self, g: Grid, goal: Position, start: Position, si: int, head: int) -> bool {
        &&& self.bfs_ok(g, goal, start, si, head)
        &&& !(g.in_bounds(goal) && self.seen@.contains(cell_index(g.width, goal)))
    }

    /// A run of steps from `start` that ends at an index not reached yet is
    /// longer than the distance of the index at `head`.
    proof fn lemma_unseen_far(&self, g: Grid, goal: Position, start: Position, si: int, head: int, p: Seq<Position>)
        requires
            self.bfs_ok(g, goal, start, si, head),
            head < self.queue@.len(),
            steps_ok(g, goal, start, p),
            !self.seen@.contains(cell_index(g.width, walk_end(start, p))),
        ensures
            p.len() >= self.dist@[self.queue@[head] as int] + 1,
        decreases p.len(),
    {
        if p.len() == 0 {
            assert(self.seen@.contains(si));
        } else {
            let q = p.drop_last();
            lemma_steps_prefix(g, goal, start, p);
            let u = walk_end(start, q);
            let ui = cell_index(g.width, u);
            lemma_end_in_bounds(g, goal, start, q);
            if !self.seen@.contains(ui) {
                self.lemma_unseen_far(g, goal, start, si, head, q);
            } else {
                let k = choose|k: int| 0 <= k < self.queue@.len() && self.queue@[k] == ui;
                lemma_index(g.width, g.height, u);
                if k < head {
                    assert(closed_at(g, goal, self.seen@, self.queue@[k] as int));
                    assert(adjacent(position_of_index(g.width, ui), p.last()));
                    assert(passable(g, goal, p.last()));
                    assert(walk_end(start, p) == p.last());
                    assert(false);
                } else {
                    assert(self.dist@[self.queue@[head] as int] <= self.dist@[self.queue@[k] as int]);
                    assert(steps_ok(g, goal, start, q));
                    assert(self.dist@[ui] <= q.len());
                }
            }
        }
    }

    /// Marks index `qi`, a passable neighbour of the reached index `cur`, as
    /// reached from `cur`.
    fn reach(
        &mut self,
        Ghost(g): Ghost<Grid>,
        Ghost(goal): Ghost<Position>,
        Ghost(start): Ghost<Position>,
        Ghost(si): Ghost<int>,
        Ghost(head): Ghost<int>,
        cur: usize,
        qi: usize,
    )
        requires
            old(self).bfs_ok(g, goal, start, si, head),
            head < old(self).queue@.len(),
            old(self).queue@[head] == cur,
            old(self).seen@.contains(cur as int),
            0 <= qi < g.width as int * g.height as int,
            !old(self).seen@.contains(qi as int),
            adjacent(position_of_index(g.width, cur as int), position_of_index(g.width, qi as int)),
            passable(g, goal, position_of_index(g.width, qi as int)),
        ensures
            final(self).bfs_ok(g, goal, start, si, head),
            final(self).seen@ == old(self).seen@.insert(qi as int),
            final(self).queue@ == old(self).queue@.push(qi),
    {
        let ghost old_seen = self.seen@;
        let ghost old_queue = self.queue@;
        let ghost old_parent = self.parent@;
        let ghost old_dist = self.dist@;
        let ghost old_self = *self;
        self.visited.set(qi, true);
        self.parent.set(qi, cur);
        self.queue.push(qi);
        proof {
            self.dist@ = self.dist@.update(qi as int, self.dist@[cur as int] + 1);
            self.seen@ = self.seen@.insert(qi as int);
        }
        proof {
            assert forall|i: int| #[trigger] self.seen@.contains(i) && i != si implies self.parent_ok(g, goal, i) by {
                if i != qi as int {
                    assert(old_seen.contains(i));
                    assert(self.parent@[i] == old_parent[i]);
                    assert(old_seen.contains(old_parent[i] as int));
                }
            }
            assert forall|i: int| #[trigger] self.seen@.contains(i) implies exists|k: int| 0 <= k < self.queue@.len() && self.queue@[k] == i by {
                if i == qi as int {
                    assert(self.queue@[old_queue.len() as int] == qi);
                } else {
                    assert(old_seen.contains(i));
                    let k = choose|k: int| 0 <= k < old_queue.len() && old_queue[k] == i;
                    assert(self.queue@[k] == i);
                }
            }
            assert forall|k: int| 0 <= k < self.queue@.len() implies self.seen@.contains(#[trigger] self.queue@[k] as int) by {
                if k < old_queue.len() {
                    assert(self.queue@[k] == old_queue[k]);
                }
            }
            assert forall|k: int| 0 <= k < head implies closed_at(g, goal, self.seen@, #[trigger] self.queue@[k] as int) by {
                assert(self.queue@[k] == old_queue[k]);
                assert(closed_at(g, goal, old_seen, old_queue[k] as int));
            }
            let n = old_queue.len() as int;
            assert forall|k1: int, k2: int|
                #![trigger self.queue@[k1], self.queue@[k2]]
                0 <= k1 <= k2 < self.queue@.len() implies self.dist@[self.queue@[k1] as int] <= self.dist@[self.queue@[k2] as int] by {
                if k2 < n {
                    assert(old_seen.contains(old_queue[k1] as int));
                    assert(old_seen.contains(old_queue[k2] as int));
                    assert(self.queue@[k1] == old_queue[k1] && self.queue@[k2] == old_queue[k2]);
                    assert(old_dist[old_queue[k1] as int] <= old_dist[old_queue[k2] as int]);
                } else if k1 < n {
                    assert(old_seen.contains(old_queue[k1] as int));
                    assert(self.queue@[k1] == old_queue[k1]);
                    if k1 < head {
                        assert(old_dist[old_queue[k1] as int] <= old_dist[old_queue[head] as int]);
                    } else {
                        assert(old_dist[old_queue[k1] as int] <= old_dist[old_queue[head] as int] + 1);
                    }
                }
            }
            assert forall|k: int| head <= k < self.queue@.len() implies self.dist@[#[trigger] self.queue@[k] as int]
                <= self.dist@[self.queue@[head] as int] + 1 by {
                assert(self.queue@[head] == cur);
                if k < n {
                    assert(self.queue@[k] == old_queue[k]);
                    assert(old_seen.contains(old_queue[k] as int));
                    assert(old_dist[old_queue[k] as int] <= old_dist[old_queue[head] as int] + 1);
                }
            }
            assert forall|p: Seq<Position>|
                #[trigger] steps_ok(g, goal, start, p) && self.seen@.contains(cell_index(g.width, walk_end(start, p)))
                implies self.dist@[cell_index(g.width, walk_end(start, p))] <= p.len() by {
                let e = cell_index(g.width, walk_end(start, p));
                if e == qi as int {
                    old_self.lemma_unseen_far(g, goal, start, si, head, p);
                } else {
                    assert(old_seen.contains(e));
                }
            }
        }
    }

    /// Looks at the neighbours of the queued index `cur`, reaching every
    /// passable one not reached yet. Returns true as soon as the goal is reached.
    fn expand(
        &mut self,
        grid: &Grid,
        goal: Position,
        Ghost(start): Ghost<Position>,
        Ghost(si): Ghost<int>,
        head: usize,
        cur: usize,
    ) -> (found: bool)
        requires
            old(self).inv(*grid, goal, start, si, head as int),
            head < old(self).queue@.len(),
            old(self).queue@[head as int] == cur,
        ensures
            final(self).tree_ok(*grid, goal, si),
            final(self).lower_ok(*grid, goal, start),
            found ==> grid.in_bounds(goal) && final(self).seen@.contains(cell_index(grid.width, goal)),
            !found ==> final(self).inv(*grid, goal, start, si, head as int + 1),
    {
        let ghost g = *grid;
        let w = grid.width as usize;
        proof {
            lemma_grid_size_fits(g.width, g.height);
            lemma_index_inverse(g.width, g.height, cur as int);
        }
        let p = Position { x: (cur % w) as u16, y: (cur / w) as u16 };
        assert(p == position_of_index(g.width, cur as int));
        let ghost queue_before = self.queue@;
        let nbrs = Grid::neighbors_in_order(p);
        let mut j: usize = 0;
        while j < nbrs.len()
            invariant
                self.inv(g, goal, start, si, head as int),
                g == *grid,
                w == g.width as usize,
                head < self.queue@.len(),
                self.queue@.len() >= queue_before.len(),
                forall|k: int| 0 <= k < queue_before.len() ==> self.queue@[k] == #[trigger] queue_before[k],
                head < queue_before.len(),
                queue_before[head as int] == cur,
                g.width as int * g.height as int <= u32::MAX,
                p == position_of_index(g.width, cur as int),
                nbrs@ == neighbor_order(p),
                j <= nbrs@.len(),
                forall|t: int| 0 <= t < j && passable(g, goal, #[trigger] nbrs@[t]) ==> self.seen@.contains(
                    cell_index(g.width, nbrs@[t]),
                ),
            decreases nbrs@.len() - j,
        {
            let q = nbrs[j];
            proof {
                lemma_neighbor_order_adjacent(p, j as int);
            }
            if q.x < grid.width && q.y < grid.height {
                proof {
                    lemma_index(g.width, g.height, q);
                }
                let row: usize = (q.y as usize) * w;
                let qi: usize = row + (q.x as usize);
                let cell = &grid.cells[qi];
                let ok = !cell.tile.is_solid() && (cell.occupant.is_none() || q == goal);
                if ok && !self.visited[qi] {
                    let ghost seen_mid = self.seen@;
                    let ghost queue_mid = self.queue@;
                    proof {
                        assert(self.seen@.contains(queue_before[head as int] as int));
                    }
                    proof {
                        assert(self.queue@[head as int] == cur);
                    }
                    self.reach(Ghost(g), Ghost(goal), Ghost(start), Ghost(si), Ghost(head as int), cur, qi);
                    if q == goal {
                        return true;
                    }
                    proof {
                        if g.in_bounds(goal) && self.seen@.contains(cell_index(g.width, goal)) {
                            if cell_index(g.width, goal) == qi as int {
                                crate::world::grid::lemma_index_injective(g.width, g.height, goal, q);
                            }
                        }
                        assert forall|k: int| 0 <= k < queue_before.len() implies self.queue@[k] == #[trigger] queue_before[k] by {
                            assert(self.queue@[k] == queue_mid[k]);
                        }
                        assert forall|t: int| 0 <= t < j + 1 && passable(g, goal, #[trigger] nbrs@[t]) implies self.seen@.contains(
                            cell_index(g.width, nbrs@[t]),
                        ) by {
                            if t < j {
                                assert(seen_mid.contains(cell_index(g.width, nbrs@[t])));
                            }
                        }
                    }
                }
            }
            j = j + 1;
        }
        proof {
            assert forall|q: Position| adjacent(position_of_index(g.width, cur as int), q) && passable(g, goal, q)
                implies self.seen@.contains(cell_index(g.width, q)) by {
                lemma_adjacent_in_neighbor_order(p, q);
                let t = choose|t: int| 0 <= t < nbrs@.len() && nbrs@[t] == q;
                assert(passable(g, goal, nbrs@[t]));
            }
            assert(closed_at(g, goal, self.seen@, cur as int));
            assert forall|k: int| 0 <= k < head + 1 implies closed_at(g, goal, self.seen@, #[trigger] self.queue@[k] as int) by {
                if k == head as int {
                    assert(self.queue@[k] == cur);
                }
            }
            assert forall|k: int| head + 1 <= k < self.queue@.len() implies self.dist@[#[trigger] self.queue@[k] as int]
                <= self.dist@[self.queue@[head + 1] as int] + 1 by {
                assert(self.dist@[self.queue@[k] as int] <= self.dist@[self.queue@[head as int] as int] + 1);
                assert(self.dist@[self.queue@[head as int] as int] <= self.dist@[self.queue@[head + 1] as int]);
            }
        }
        false
    }

    /// The route to the reached goal, read off the parents.
    fn trace_back(&self, grid: &Grid, goal: Position, start: Position, si: usize) -> (path: Vec<Position>)
        requires
            self.tree_ok(*grid, goal, si as int),
            grid.in_bounds(start),
            si as int == cell_index(grid.width, start),
            grid.in_bounds(goal),
            self.seen@.contains(cell_index(grid.width, goal)),
        ensures
            is_walk(*grid, start, path@, goal),
            path@.len() == self.dist@[cell_index(grid.width, goal)],
    {
        let ghost g = *grid;
        let ghost n = g.width as int * g.height as int;
        let ghost gi = cell_index(g.width, goal);
        let w = grid.width as usize;
        proof {
            lemma_grid_size_fits(g.width, g.height);
            lemma_index(g.width, g.height, goal);
            lemma_index(g.width, g.height, start);
        }
        let mut path: Vec<Position> = Vec::new();
        let mut at: usize = (goal.y as usize) * w + (goal.x as usize);
        while at != si
            invariant
                self.tree_ok(g, goal, si as int),
                g == *grid,
                n == g.width as int * g.height as int,
                w == g.width as usize,
                self.seen@.contains(at as int),
                is_walk(g, position_of_index(g.width, at as int), path@, goal),
                gi == cell_index(g.width, goal),
                path@.len() + self.dist@[at as int] == self.dist@[gi],
            decreases self.dist@[at as int],
        {
            assert(self.parent_ok(g, goal, at as int));
            proof {
                lemma_index_inverse(g.width, g.height, at as int);
            }
            let here = Position { x: (at % w) as u16, y: (at / w) as u16 };
            let ghost old_path = path@;
            path.insert(0, here);
            proof {
                assert(path@.drop_first() =~= old_path);
            }
            at = self.parent[at];
        }
        path
    }
}

/// The route found by breadth-first search from `start` to `goal`: it does not
/// list `start`, ends with `goal`, and steps between neighbours over positions
/// that are inside the grid, not solid and free of agents (the goal itself may
/// be occupied). A route is returned exactly when some such route exists from
/// an in-bounds start; standing on the goal gives the empty route.
pub fn find_path(grid: &Grid, start: Position, goal: Position) -> (r: Option<Vec<Position>>)
    requires
        grid.wf(),
    ensures
        start == goal ==> (r matches Some(path) && path@.len() == 0),
        r matches Some(path) ==> shortest_walk(*grid, start, path@, goal),
        r is None && grid.in_bounds(start) ==> !(exists|path: Seq<Position>| is_walk(*grid, start, path, goal)),
        !grid.in_bounds(start) && start != goal ==> r is None,
{
    if start == goal {
        return Some(Vec::new());
    }
    if !(start.x < grid.width && start.y < grid.height) {
        return None;
    }
    proof {
        lemma_grid_size_fits(grid.width, grid.height);
        lemma_index(grid.width, grid.height, start);
    }
    let w = grid.width as usize;
    let n: usize = (grid.width as usize) * (grid.height as usize);
    let si: usize = (start.y as usize) * w + (start.x as usize);
    let ghost g = *grid;

    let mut visited: Vec<bool> = Vec::new();
    let mut parent: Vec<usize> = Vec::new();
    let mut k: usize = 0;
    while k < n
        invariant
            k <= n,
            visited@.len() == k,
            parent@.len() == k,
            forall|i: int| 0 <= i < k ==> !(#[trigger] visited@[i]),
        decreases n - k,
    {
        visited.push(false);
        parent.push(0);
        k = k + 1;
    }
    visited.set(si, true);
    let mut queue: Vec<usize> = Vec::new();
    queue.push(si);
    let mut s = Search {
        visited,
        parent,
        queue,
        seen: Ghost(Set::empty().insert(si as int)),
        dist: Ghost(Seq::new(n as nat, |i: int| 0int)),
    };
    let mut head: usize = 0;
    proof {
        assert(s.queue@[0] == si);
        if g.in_bounds(goal) && cell_index(g.width, goal) == si as int {
            crate::world::grid::lemma_index_injective(g.width, g.height, goal, start);
        }
        assert forall|i: int| #[trigger] s.seen@.contains(i) implies exists|k: int| 0 <= k < s.queue@.len() && s.queue@[k] == i by {
            assert(s.queue@[0] == i);
        }
    }
    while head < s.queue.len()
        invariant
            s.inv(g, goal, start, si as int, head as int),
            g == *grid,
            n as int == g.width as int * g.height as int,
            g.in_bounds(start),
            si as int == cell_index(g.width, start),
        decreases n - head,
    {
        proof {
            lemma_int_range(0, n as int);
            assert(s.seen@.subset_of(set_int_range(0, n as int)));
            lemma_len_subset(s.seen@, set_int_range(0, n as int));
        }
        let cur = s.queue[head];
        if s.expand(grid, goal, Ghost(start), Ghost(si as int), head, cur) {
            let path = s.trace_back(grid, goal, start, si);
            proof {
                assert forall|p: Seq<Position>| #[trigger] is_walk(g, start, p, goal) implies path@.len() <= p.len() by {
                    lemma_walk_steps(g, start, p, goal);
                }
            }
            return Some(path);
        }
        head = head + 1;
    }
    proof {
        assert forall|i: int| #[trigger] s.seen@.contains(i) implies closed_at(g, goal, s.seen@, i) by {
            let k = choose|k: int| 0 <= k < s.queue@.len() && s.queue@[k] == i;
            assert(closed_at(g, goal, s.seen@, s.queue@[k] as int));
        }
        assert forall|path: Seq<Position>| !is_walk(g, start, path, goal) by {
            if is_walk(g, start, path, goal) {
                lemma_walk_stays_inside(g, goal, s.seen@, start, path);
            }
        }
    }
    None
}

} // verus!
