//! An unbounded square-spiral ("Ulam spiral") coordinate generator.
//!
//! A fresh generator starts at the origin and, on each call to
//! `produce_next`, yields the next lattice coordinate of the canonical
//! outward spiral: ring 0 is the single origin cell, and ring `k` walks the
//! boundary of the square `[-k, k] x [-k, k]` counter-clockwise, starting at
//! `(k, 1 - k)` and ending at the corner `(k, -k)`.

use vstd::prelude::*;

verus! {

/// A coordinate on the integer grid, as produced by the generator.
pub type UlamCoord = (isize, isize);

/// The abstract state of the spiral walk: which ring the cursor is on, and
/// how many perimeter steps have been taken along that ring.
pub ghost struct SpiralState {
    pub ring: nat,
    pub pos: nat,
}

/// Ring 0 holds only the origin; ring `k >= 1` has `8 * k` perimeter cells,
/// so a position on it is below `8 * k`.
pub open spec fn state_wf(s: SpiralState) -> bool {
    if s.ring == 0 {
        s.pos == 0
    } else {
        s.pos < 8 * s.ring
    }
}

/// Whether the cursor sits on the terminal corner `(ring, -ring)` of its
/// ring: immediately for ring 0, and at the last perimeter cell otherwise.
pub open spec fn is_ring_end(s: SpiralState) -> bool {
    s.ring == 0 || s.pos == 8 * s.ring - 1
}

/// The state one production step later: stepping away from a terminal
/// corner opens the next ring, any other step advances along the perimeter.
pub open spec fn next_state(s: SpiralState) -> SpiralState {
    if is_ring_end(s) {
        SpiralState { ring: s.ring + 1, pos: 0 }
    } else {
        SpiralState { ring: s.ring, pos: s.pos + 1 }
    }
}

/// The coordinate of the cell an abstract state points at. Ring `k >= 1`
/// starts at `(k, 1 - k)` and walks four edges: up the right side, left
/// along the top, down the left side, and right along the bottom, ending at
/// the terminal corner `(k, -k)`.
pub open spec fn cursor_of(s: SpiralState) -> (int, int) {
    let k = s.ring as int;
    let p = s.pos as int;
    if k == 0 {
        (0, 0)
    } else if p < 2 * k {
        (k, p - k + 1)
    } else if p < 4 * k {
        (3 * k - 1 - p, k)
    } else if p < 6 * k {
        (-k, 5 * k - 1 - p)
    } else {
        (p - 7 * k + 1, -k)
    }
}

/// The abstract state after `n` production steps from a fresh generator.
pub open spec fn state_at(n: nat) -> SpiralState
    decreases n,
{
    if n == 0 {
        SpiralState { ring: 0, pos: 0 }
    } else {
        next_state(state_at((n - 1) as nat))
    }
}

/// The `n`-th coordinate of the canonical spiral, counting from 0.
pub open spec fn spiral(n: nat) -> (int, int) {
    cursor_of(state_at(n))
}

/// How many coordinates precede ring `k`: the square `(2k - 1)^2` filled by
/// rings 0 through `k - 1`.
pub open spec fn ring_start(k: nat) -> nat {
    if k == 0 {
        0
    } else {
        let d = 2 * (k - 1) as nat + 1;
        d * d
    }
}

/// The position of an abstract state in the overall spiral order.
pub open spec fn index_of(s: SpiralState) -> int {
    ring_start(s.ring) + s.pos as int
}

/// Chebyshev distance from the origin, the metric that defines ring
/// membership.
pub open spec fn chebyshev(c: (int, int)) -> int {
    vstd::math::max(vstd::math::abs(c.0) as int, vstd::math::abs(c.1) as int)
}

/// Rings beyond this index could overflow the fixed-width fields, so a
/// production step demands a ring strictly below it. It is far beyond any
/// reachable use: a generator needs more than `ring_start(k)` steps to reach
/// ring `k`.
pub open spec fn max_ring() -> int {
    isize::MAX as int / 8
}

/// The spiral generator. It owns four scalar fields and advances in O(1)
/// work per produced coordinate.
pub struct Ulam {
    ring_index: usize,
    in_ring_index: usize,
    ring_diameter: usize,
    cursor: UlamCoord,
    step_count: Ghost<nat>,
}

impl View for Ulam {
    type V = SpiralState;

    closed spec fn view(&self) -> SpiralState {
        SpiralState { ring: self.ring_index as nat, pos: self.in_ring_index as nat }
    }
}

impl Ulam {
    /// Well-formedness: the diameter is derived from the ring index, the
    /// abstract state is exactly the one reached after `steps` productions,
    /// and the cursor holds the coordinate that state points at.
    pub closed spec fn wf(self) -> bool {
        &&& self.ring_diameter == 2 * self.ring_index + 1
        &&& state_wf(self@)
        &&& self@ == state_at(self.step_count@)
        &&& self.cursor.0 == cursor_of(self@).0
        &&& self.cursor.1 == cursor_of(self@).1
    }

    /// How many coordinates this generator has produced so far.
    pub closed spec fn steps(self) -> nat {
        self.step_count@
    }

    /// A fresh generator: ring 0, origin cursor, nothing produced yet.
    pub fn new() -> (u: Ulam)
        ensures
            u.wf(),
            u.steps() == 0,
            u@ == state_at(0),
    {
        Ulam {
            ring_index: 0,
            in_ring_index: 0,
            ring_diameter: 1,
            cursor: (0, 0),
            step_count: Ghost(0),
        }
    }

    /// Whether the cursor sits on the terminal corner of its ring, the one
    /// place where producing a coordinate opens the next ring.
    pub fn at_ring_end(&self) -> (r: bool)
        requires
            self.wf(),
            self@.ring <= isize::MAX,
        ensures
            r == is_ring_end(self@),
    {
        self.cursor.0 == self.ring_index as isize && self.cursor.1 == -(self.ring_index as isize)
    }

    /// The perimeter position just past the given edge of the current ring:
    /// edge 0 climbs the right side, edge 1 crosses the top, edge 2 descends
    /// the left side (edge 3 takes the remaining positions).
    pub fn edge_end(&self, edge: usize) -> (r: usize)
        requires
            self.wf(),
            1 <= self@.ring < max_ring(),
            edge < 3,
        ensures
            edge == 0 ==> r == 2 * self@.ring - 1,
            edge == 1 ==> r == 4 * self@.ring - 1,
            edge == 2 ==> r == 6 * self@.ring - 1,
    {
        match edge {
            0 => self.ring_diameter - 2,
            1 => 2 * self.ring_diameter - 3,
            2 => 3 * self.ring_diameter - 4,
            _ => {
                proof {
                    assert(false);
                }
                0
            },
        }
    }

    /// Produce the next spiral coordinate and advance the internal state.
    /// The result is a function of the number of prior calls alone: the
    /// `n`-th call on a fresh generator returns `spiral(n)`, starting with
    /// `(0, 0)`.
    pub fn produce_next(&mut self) -> (r: UlamCoord)
        requires
            old(self).wf(),
            old(self)@.ring < max_ring(),
        ensures
            final(self).wf(),
            final(self).steps() == old(self).steps() + 1,
            final(self)@ == next_state(old(self)@),
            (r.0 as int, r.1 as int) == cursor_of(old(self)@),
            (r.0 as int, r.1 as int) == spiral(old(self).steps()),
    {
        let result = self.cursor;

        if self.at_ring_end() {
            self.cursor = (self.cursor.0 + 1, self.cursor.1);
            self.in_ring_index = 0;
            self.ring_index = self.ring_index + 1;
            self.ring_diameter = 2 * self.ring_index + 1;
        } else {
            if self.in_ring_index < self.edge_end(0) {
                self.cursor = (self.cursor.0, self.cursor.1 + 1);
            } else if self.in_ring_index < self.edge_end(1) {
                self.cursor = (self.cursor.0 - 1, self.cursor.1);
            } else if self.in_ring_index < self.edge_end(2) {
                self.cursor = (self.cursor.0, self.cursor.1 - 1);
            } else {
                self.cursor = (self.cursor.0 + 1, self.cursor.1);
            }
            self.in_ring_index = self.in_ring_index + 1;
        }
        self.step_count = Ghost(self.step_count@ + 1);

        result
    }
}

/// The first ring begins right after the single origin cell.
pub proof fn lemma_ring_start_one()
    ensures
        ring_start(1) == 1,
{
    let d = 2 * (1nat - 1) as nat + 1;
    assert(d == 1);
    assert(ring_start(1) == d * d);
}

/// Every reachable abstract state is well formed.
pub proof fn lemma_state_at_wf(n: nat)
    ensures
        state_wf(state_at(n)),
    decreases n,
{
    if n > 0 {
        lemma_state_at_wf((n - 1) as nat);
    }
}

/// Ring `k >= 1` contributes exactly `8 * k` coordinates: the spiral
/// indices of the next ring start that many places later.
pub proof fn lemma_ring_size(k: nat)
    requires
        1 <= k,
    ensures
        ring_start(k + 1) == ring_start(k) + 8 * k,
{
    let a = 2 * (k - 1) as nat + 1;
    let b = 2 * k + 1;
    assert(b * b == a * a + 8 * k) by (nonlinear_arith)
        requires
            b == a + 2,
            a + 1 == 2 * k;
}

/// The abstract state after `n` steps sits at spiral index `n`: ring
/// starts and perimeter positions account for every produced coordinate
/// exactly once.
pub proof fn lemma_index_of_state_at(n: nat)
    ensures
        state_wf(state_at(n)),
        index_of(state_at(n)) == n,
    decreases n,
{
    if n > 0 {
        lemma_index_of_state_at((n - 1) as nat);
        let s = state_at((n - 1) as nat);
        let t = state_at(n);
        assert(t == next_state(s));
        if is_ring_end(s) {
            if s.ring == 0 {
                lemma_ring_start_one();
                assert(index_of(t) == 1);
            } else {
                lemma_ring_size(s.ring);
                assert(index_of(t) == ring_start(s.ring) + 8 * s.ring);
                assert(index_of(s) == ring_start(s.ring) + 8 * s.ring - 1);
            }
        } else {
            assert(index_of(t) == index_of(s) + 1);
        }
    }
}

/// Ring starts are non-decreasing in the ring index.
pub proof fn lemma_ring_start_monotone(a: nat, b: nat)
    requires
        a <= b,
    ensures
        ring_start(a) <= ring_start(b),
{
    if a >= 1 {
        let da = 2 * (a - 1) as nat + 1;
        let db = 2 * (b - 1) as nat + 1;
        assert(da * da <= db * db) by (nonlinear_arith)
            requires
                0 <= da <= db;
    }
}

/// The Chebyshev distance of a produced coordinate is exactly the index of
/// the ring it was produced on.
pub proof fn lemma_chebyshev_of_cursor(s: SpiralState)
    requires
        state_wf(s),
    ensures
        chebyshev(cursor_of(s)) == s.ring,
{
}

/// The ring index never decreases from one abstract state to the next.
pub proof fn lemma_ring_monotone(m: nat, n: nat)
    requires
        m <= n,
    ensures
        state_at(m).ring <= state_at(n).ring,
    decreases n,
{
    if m < n {
        lemma_ring_monotone(m, (n - 1) as nat);
    }
}

/// The spiral never revisits a cell: coordinates at two different indices
/// differ.
pub proof fn lemma_uniqueness(m: nat, n: nat)
    requires
        m != n,
    ensures
        spiral(m) != spiral(n),
{
    lemma_index_of_state_at(m);
    lemma_index_of_state_at(n);
    let s = state_at(m);
    let t = state_at(n);
    if s.ring != t.ring {
        lemma_chebyshev_of_cursor(s);
        lemma_chebyshev_of_cursor(t);
    }
}

/// For `k >= 1`, the coordinates of ring `k` are exactly those at spiral
/// indices `ring_start(k) <= n < ring_start(k + 1)`, and each of them lies
/// at Chebyshev distance `k` from the origin.
pub proof fn lemma_ring_membership(k: nat, n: nat)
    requires
        1 <= k,
    ensures
        (ring_start(k) <= n < ring_start(k + 1)) <==> state_at(n).ring == k,
        ring_start(k) <= n < ring_start(k + 1) ==> chebyshev(spiral(n)) == k,
{
    lemma_index_of_state_at(n);
    lemma_ring_size(k);
    let s = state_at(n);
    lemma_chebyshev_of_cursor(s);
    if s.ring < k {
        if s.ring == 0 {
            lemma_ring_start_one();
        } else {
            lemma_ring_size(s.ring);
        }
        lemma_ring_start_monotone(s.ring + 1, k);
    }
    if s.ring > k {
        lemma_ring_start_monotone(k + 1, s.ring);
    }
}

/// Coordinates come out in non-decreasing Chebyshev distance: every cell of
/// ring `k` is produced before any cell of ring `k + 1`.
pub proof fn lemma_ring_ordering(m: nat, n: nat)
    requires
        m <= n,
    ensures
        chebyshev(spiral(m)) <= chebyshev(spiral(n)),
{
    lemma_state_at_wf(m);
    lemma_state_at_wf(n);
    lemma_ring_monotone(m, n);
    lemma_chebyshev_of_cursor(state_at(m));
    lemma_chebyshev_of_cursor(state_at(n));
}

} // verus!
