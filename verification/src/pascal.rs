//! Rows of Pascal's triangle, produced one entry at a time.

use vstd::prelude::*;

verus! {

/// The binomial coefficient `n choose k`, by Pascal's rule.
pub open spec fn binom(n: nat, k: nat) -> nat
    decreases n,
{
    if k == 0 {
        1
    } else if n == 0 {
        0
    } else {
        binom((n - 1) as nat, (k - 1) as nat) + binom((n - 1) as nat, k)
    }
}

/// `k * C(n, k) == (n + 1 - k) * C(n, k - 1)`: each entry of a row follows
/// from the previous one.
pub proof fn lemma_binom_step(n: nat, k: nat)
    requires
        k >= 1,
    ensures
        k * binom(n, k) == (n + 1 - k) * binom(n, (k - 1) as nat),
    decreases n,
{
    let ki = k as int;
    let ni = n as int;
    let x = binom(n, k) as int;
    let y = binom(n, (k - 1) as nat) as int;
    if n == 0 {
        assert(x == 0);
        if k == 1 {
            assert(y == 1);
            assert(ki * x == (ni + 1 - ki) * y) by (nonlinear_arith)
                requires
                    x == 0,
                    ki == 1,
                    ni == 0,
            ;
        } else {
            assert(y == 0);
            assert(ki * x == (ni + 1 - ki) * y) by (nonlinear_arith)
                requires
                    x == 0,
                    y == 0,
            ;
        }
    } else {
        let m = (n - 1) as nat;
        if k == 1 {
            lemma_binom_step(m, 1);
            assert(binom(m, 0) == 1);
            assert(binom(n, 0) == 1);
            let bm1 = binom(m, 1) as int;
            assert(1 * bm1 == (m + 1 - 1) * 1);
            assert(bm1 == m) by (nonlinear_arith)
                requires
                    1 * bm1 == (m + 1 - 1) * 1,
            ;
            assert(binom(n, 1) == binom(m, 0) + binom(m, 1));
            assert(x == ni && y == 1);
            assert(ki * x == (ni + 1 - ki) * y) by (nonlinear_arith)
                requires
                    x == ni,
                    y == 1,
                    ki == 1,
            ;
        } else {
            lemma_binom_step(m, (k - 1) as nat);
            lemma_binom_step(m, k);
            let b = binom(m, (k - 1) as nat) as int;
            let c = binom(m, (k - 2) as nat) as int;
            let d = binom(m, k) as int;
            assert(x == b + d);
            assert(y == c + b);
            assert((ki - 1) * b == (ni - ki + 1) * c);
            assert(ki * d == (ni - ki) * b);
            assert(ki * x == (ni + 1 - ki) * y) by (nonlinear_arith)
                requires
                    x == b + d,
                    y == c + b,
                    (ki - 1) * b == (ni - ki + 1) * c,
                    ki * d == (ni - ki) * b,
            ;
        }
    }
}

/// Consecutive entries of row `n`, from `k - 1` to `k`, fit the arithmetic
/// of `PascalRowIter::next` in 32 bits.
pub open spec fn step_fits(n: nat, k: nat) -> bool {
    1 <= k <= n ==> {
        &&& n < u32::MAX
        &&& binom(n, (k - 1) as nat) * (n + 1 - k) <= u32::MAX
    }
}

/// Every step of row `n` fits in 32 bits.
pub open spec fn row_fits(n: nat) -> bool {
    forall|k: nat| #[trigger] step_fits(n, k)
}

/// An upper bound on the entries of row `m`: 252 up to row 10, doubling
/// with every row after it.
pub open spec fn row_bound(m: nat) -> nat
    decreases m,
{
    if m <= 10 {
        252
    } else {
        2 * row_bound((m - 1) as nat)
    }
}

/// An entry does not shrink from one row to the next.
proof fn lemma_binom_grows(m: nat, j: nat)
    ensures
        binom(m, j) <= binom(m + 1, j),
{
    if j > 0 {
        assert(binom(m + 1, j) == binom(m, (j - 1) as nat) + binom(m, j));
    }
}

/// The entry after `C(n, k - 1) == prev` is the `v` with
/// `k * v == (n + 1 - k) * prev`.
proof fn lemma_next_entry(n: nat, k: nat, prev: int, v: int)
    requires
        k >= 1,
        binom(n, (k - 1) as nat) == prev,
        k * v == (n + 1 - k) * prev,
    ensures
        binom(n, k) == v,
{
    lemma_binom_step(n, k);
    let x = binom(n, k) as int;
    let ki = k as int;
    assert(ki * x == ki * v);
    assert(x == v) by (nonlinear_arith)
        requires
            ki * x == ki * v,
            ki >= 1,
    ;
}

/// Row 10 is `1, 10, 45, 120, 210, 252, 210, 120, 45, 10, 1`.
proof fn lemma_row_ten(j: nat)
    ensures
        binom(10, j) <= 252,
{
    lemma_row_ends(10);
    lemma_next_entry(10, 1, 1, 10);
    lemma_next_entry(10, 2, 10, 45);
    lemma_next_entry(10, 3, 45, 120);
    lemma_next_entry(10, 4, 120, 210);
    lemma_next_entry(10, 5, 210, 252);
    lemma_next_entry(10, 6, 252, 210);
    lemma_next_entry(10, 7, 210, 120);
    lemma_next_entry(10, 8, 120, 45);
    lemma_next_entry(10, 9, 45, 10);
    if j <= 10 {
        assert(j == 0 || j == 1 || j == 2 || j == 3 || j == 4 || j == 5 || j == 6 || j == 7 || j == 8 || j == 9 || j == 10);
    }
}

/// The entries of rows up to 10 are at most those of row 10.
proof fn lemma_binom_below_ten(m: nat, j: nat)
    requires
        m <= 10,
    ensures
        binom(m, j) <= binom(10, j),
    decreases 10 - m,
{
    if m < 10 {
        lemma_binom_grows(m, j);
        lemma_binom_below_ten(m + 1, j);
    }
}

/// Every entry of row `m` is at most [`row_bound`]`(m)`.
pub proof fn lemma_binom_le_row_bound(m: nat, j: nat)
    ensures
        binom(m, j) <= row_bound(m),
    decreases m,
{
    if m <= 10 {
        lemma_binom_below_ten(m, j);
        lemma_row_ten(j);
    } else {
        let p = (m - 1) as nat;
        lemma_binom_le_row_bound(p, j);
        if j > 0 {
            lemma_binom_le_row_bound(p, (j - 1) as nat);
        } else {
            lemma_binom_le_row_bound(p, 0);
        }
    }
}

/// Up to row 29 the bound is at most `252 * 2^19`.
proof fn lemma_row_bound_to_29(m: nat)
    requires
        m <= 29,
    ensures
        row_bound(m) <= 132120576,
    decreases 29 - m,
{
    if m < 29 {
        lemma_row_bound_to_29(m + 1);
    } else {
        reveal_with_fuel(row_bound, 20);
        assert(row_bound(29) == 132120576);
    }
}

/// `(n - j) * C(n, j) == n * C(n - 1, j)`.
proof fn lemma_binom_absorb(n: nat, j: nat)
    requires
        n >= 1,
        j < n,
    ensures
        (n - j) * binom(n, j) == n * binom((n - 1) as nat, j),
{
    let p = (n - 1) as nat;
    if j > 0 {
        lemma_binom_step(p, j);
        let b = binom(p, (j - 1) as nat) as int;
        let d = binom(p, j) as int;
        assert(binom(n, j) == b + d);
        let ni = n as int;
        let ji = j as int;
        assert(ji * d == (ni - ji) * b);
        assert((ni - ji) * (b + d) == ni * d) by (nonlinear_arith)
            requires
                ji * d == (ni - ji) * b,
        ;
    }
}

/// Every row up to row 30 can be walked to its end in 32-bit arithmetic,
/// with `next` or with `collect`.
pub proof fn lemma_row_fits(n: nat)
    requires
        n <= 30,
    ensures
        row_fits(n),
{
    assert forall|k: nat| #[trigger] step_fits(n, k) by {
        if 1 <= k <= n {
            let j = (k - 1) as nat;
            let p = (n - 1) as nat;
            lemma_binom_absorb(n, j);
            lemma_binom_le_row_bound(p, j);
            lemma_row_bound_to_29(p);
            let x = binom(p, j) as int;
            let ni = n as int;
            assert(ni * x <= 30 * 132120576) by (nonlinear_arith)
                requires
                    0 <= ni <= 30,
                    0 <= x <= 132120576,
            ;
            assert(binom(n, j) * (n + 1 - k) == (n - j) * binom(n, j)) by (nonlinear_arith)
                requires
                    j == k - 1,
            ;
        }
    }
}

/// An iterator for a particular row of Pascal's Triangle.
pub struct PascalRowIter {
    n: u32,
    k: u32,
    previous: u32,
}

impl PascalRowIter {
    #[verifier::type_invariant]
    spec fn inv(self) -> bool {
        &&& self.k <= self.n + 1
        &&& self.k >= 1 ==> self.previous == binom(self.n as nat, (self.k - 1) as nat)
    }

    /// The row of the triangle this iterator walks.
    pub closed spec fn row(self) -> nat {
        self.n as nat
    }

    /// How many entries of the row have been produced.
    pub closed spec fn position(self) -> nat {
        self.k as nat
    }

    /// An iterator over row `n` (taken modulo 2^32) of Pascal's triangle.
    pub fn new(n: usize) -> (r: Self)
        ensures
            r.row() == (n as u32) as nat,
            r.position() == 0,
    {
        Self { n: n as u32, k: 0, previous: 1 }
    }

    /// The next entry of the row, `C(n, position)`, or `None` once all
    /// `n + 1` entries were produced.
    pub fn next(&mut self) -> (r: Option<u32>)
        requires
            step_fits(old(self).row(), old(self).position()),
        ensures
            final(self).row() == old(self).row(),
            old(self).position() <= old(self).row() ==> {
                &&& r == Some(binom(old(self).row(), old(self).position()) as u32)
                &&& binom(old(self).row(), old(self).position()) <= u32::MAX
                &&& final(self).position() == old(self).position() + 1
            },
            old(self).position() > old(self).row() ==> {
                &&& r is None
                &&& final(self).position() == old(self).position()
            },
            final(self).position() <= final(self).row() + 1,
    {
        proof {
            use_type_invariant(&*self);
        }
        if self.k == 0 {
            *self = PascalRowIter { n: self.n, k: 1, previous: 1 };
            return Some(1);
        }
        if self.k > self.n {
            return None;
        }
        let ghost n = self.n as nat;
        let ghost k = self.k as nat;
        proof {
            lemma_binom_step(n, k);
            let p = self.previous as int;
            let f = (n + 1 - k) as int;
            assert(k * binom(n, k) == p * f);
            assert((p * f) / (k as int) == binom(n, k) as int) by (nonlinear_arith)
                requires
                    k * binom(n, k) == p * f,
                    k >= 1,
            ;
            assert(binom(n, k) <= p * f) by (nonlinear_arith)
                requires
                    k * binom(n, k) == p * f,
                    k >= 1,
            ;
        }
        let new = self.previous * (self.n + 1 - self.k) / self.k;
        *self = PascalRowIter { n: self.n, k: self.k + 1, previous: new };
        Some(new)
    }

    /// Every entry still to come, in order; for a fresh iterator this is the
    /// whole row `[C(n, 0), ..., C(n, n)]`.
    pub fn collect(self) -> (r: Vec<u32>)
        requires
            row_fits(self.row()),
        ensures
            self.position() <= self.row() + 1 ==> r@.len() == self.row() + 1 - self.position(),
            forall|i: int|
                0 <= i < r@.len() ==> r@[i] == binom(self.row(), (self.position() + i) as nat),
    {
        proof {
            use_type_invariant(&self);
        }
        let ghost n = self.row();
        let ghost start = self.position();
        let mut iter = self;
        let mut out: Vec<u32> = Vec::new();
        loop
            invariant
                iter.row() == n,
                row_fits(n),
                start <= n + 1,
                iter.position() == start + out@.len(),
                iter.position() <= n + 1,
                forall|i: int| 0 <= i < out@.len() ==> out@[i] == binom(n, (start + i) as nat),
            ensures
                out@.len() == n + 1 - start,
                forall|i: int| 0 <= i < out@.len() ==> out@[i] == binom(n, (start + i) as nat),
            decreases n + 1 - iter.position(),
        {
            assert(step_fits(n, iter.position()));
            match iter.next() {
                Some(v) => {
                    out.push(v);
                },
                None => {
                    break;
                },
            }
        }
        out
    }
}

/// Row `n` of Pascal's triangle starts and ends with 1, and every entry
/// past its end is 0.
pub proof fn lemma_row_ends(n: nat)
    ensures
        binom(n, 0) == 1,
        binom(n, n) == 1,
        forall|k: nat| k > n ==> #[trigger] binom(n, k) == 0,
    decreases n,
{
    if n > 0 {
        lemma_row_ends((n - 1) as nat);
        assert forall|k: nat| k > n implies #[trigger] binom(n, k) == 0 by {
            assert(binom((n - 1) as nat, (k - 1) as nat) == 0);
            assert(binom((n - 1) as nat, k) == 0);
        }
        assert(binom((n - 1) as nat, n) == 0);
    }
}

} // verus!
