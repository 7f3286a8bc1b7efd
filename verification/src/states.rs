//! The dense state index built from the board's cells, the fixed action
//! enumeration, and the seedable random source behind the exploration
//! policy's draws.

use vstd::prelude::*;
use rand::RngExt;
use crate::board::Position;
use crate::fixed::FIXED_ONE;

verus! {

/// The random source of the library: a seedable generator, so a run's draw
/// order can be reproduced. Relies on rand's `StdRng`.
#[verifier::external_type_specification]
#[verifier::external_body]
pub struct ExStdRng(rand::rngs::StdRng);

/// Relies on rand's `RngExt::random_range` over `0..n`: a draw from that
/// range, which panics only when the range is empty.
#[verifier::external_body]
pub(crate) fn rand_below(rng: &mut rand::rngs::StdRng, n: u64) -> (r: u64)
    requires
        n >= 1,
    ensures
        r < n,
{
    rng.random_range(0..n)
}

/// The dense state index: position `i` of the enumeration the index was
/// built from is state `i`.
pub struct States {
    pub n_possible: usize,
    pub mapping: Vec<Position>,
}

impl States {
    /// The enumerated positions, in state order.
    pub open spec fn spec_positions(self) -> Seq<Position> {
        self.mapping@
    }

    /// Well-formedness: the count matches the enumeration and no position is
    /// enumerated twice, so each has exactly one state.
    pub open spec fn wf(self) -> bool {
        &&& self.n_possible == self.spec_positions().len()
        &&& forall|i: int, j: int|
            0 <= i < j < self.spec_positions().len() ==> self.spec_positions()[i]
                != self.spec_positions()[j]
    }

    /// Builds the index from a duplicate-free enumeration of positions.
    pub fn new(n_possible: usize, positions: &Vec<Position>) -> (s: Self)
        requires
            n_possible == positions@.len(),
            forall|i: int, j: int| 0 <= i < j < positions@.len() ==> positions@[i] != positions@[j],
        ensures
            s.wf(),
            s.n_possible == n_possible,
            s.spec_positions() == positions@,
    {
        States { n_possible, mapping: crate::board::copy_positions(positions) }
    }

    /// The state of `position`, which must be one of the enumerated cells.
    pub fn index(&self, position: Position) -> (s: usize)
        requires
            self.wf(),
            self.spec_positions().contains(position),
        ensures
            s < self.n_possible,
            self.spec_positions()[s as int] == position,
    {
        let mut i: usize = 0;
        while i < self.mapping.len()
            invariant
                self.wf(),
                0 <= i <= self.spec_positions().len(),
                forall|j: int| 0 <= j < i ==> self.spec_positions()[j] != position,
            decreases self.spec_positions().len() - i,
        {
            if self.mapping[i] == position {
                return i;
            }
            i = i + 1;
        }
        proof {
            assert(false);
        }
        vstd::pervasive::unreached()
    }

    /// The position state `s` decodes back to.
    pub fn position_of(&self, s: usize) -> (p: Position)
        requires
            self.wf(),
            s < self.n_possible,
        ensures
            p == self.spec_positions()[s as int],
    {
        self.mapping[s]
    }
}

/// The fixed action enumeration the policy samples from.
pub struct Actions {
    pub n_possible: usize,
    pub values: Vec<usize>,
}

impl Actions {
    /// The enumerated action ids.
    pub open spec fn spec_values(self) -> Seq<usize> {
        self.values@
    }

    pub open spec fn wf(self) -> bool {
        self.n_possible == self.spec_values().len()
    }

    pub fn new(values: Vec<usize>) -> (a: Self)
        ensures
            a.wf(),
            a.spec_values() == values@,
            a.n_possible == values@.len(),
    {
        let n_possible = values.len();
        Actions { n_possible, values }
    }

    /// The exploration coin flip: true with probability `epsilon`. A zero
    /// `epsilon` never explores; a full one always does.
    pub fn choose_randomly(&self, rng: &mut rand::rngs::StdRng, epsilon: i64) -> (b: bool)
        requires
            0 <= epsilon <= FIXED_ONE,
        ensures
            epsilon == 0 ==> !b,
            epsilon == FIXED_ONE ==> b,
    {
        let u = rand_below(rng, FIXED_ONE as u64);
        (u as i64) < epsilon
    }

    /// A uniformly drawn legal action: one draw over the enumeration's legal
    /// entries, which distributes exactly as rejection sampling against the
    /// full enumeration would. At least one enumerated action must be
    /// allowed.
    pub fn random(&self, rng: &mut rand::rngs::StdRng, allowed: &Vec<bool>) -> (a: usize)
        requires
            exists|i: int|
                0 <= i < self.spec_values().len() && self.spec_values()[i] < allowed@.len()
                    && allowed@[#[trigger] self.spec_values()[i] as int],
        ensures
            a < allowed@.len(),
            allowed@[a as int],
    {
        let mut legal: Vec<usize> = Vec::new();
        let mut i: usize = 0;
        while i < self.values.len()
            invariant
                self.values@ == self.spec_values(),
                0 <= i <= self.spec_values().len(),
                forall|k: int|
                    0 <= k < legal@.len() ==> #[trigger] legal@[k] < allowed@.len()
                        && allowed@[legal@[k] as int],
                (exists|j: int|
                    0 <= j < i && self.spec_values()[j] < allowed@.len()
                        && allowed@[#[trigger] self.spec_values()[j] as int]) ==> legal@.len() > 0,
            decreases self.spec_values().len() - i,
        {
            let v = self.values[i];
            if v < allowed.len() && allowed[v] {
                legal.push(v);
            }
            i = i + 1;
        }
        let idx = rand_below(rng, legal.len() as u64);
        legal[idx as usize]
    }
}

} // verus!
