//! The dense state-action value table, its constrained greedy queries, and
//! the exact fixed-point value update shared by Q-learning and SARSA.

use vstd::prelude::*;
use crate::fixed::{
    FIXED_ONE, Q_VALUE_LIMIT, STEP_REWARD_LIMIT, DIV_FIXED_INPUT_LIMIT, clamp_value, div_fixed,
    spec_clamp,
};
use vstd::arithmetic::div_mod::lemma_div_is_ordered;

verus! {

/// The index of the greatest entry of `row` among the first `k` entries
/// whose action is allowed, ties broken by the lowest index; `-1` when no
/// action among the first `k` is allowed.
pub open spec fn spec_argmax_prefix(row: Seq<i64>, allowed: Seq<bool>, k: int) -> int
    decreases k,
{
    if k <= 0 {
        -1
    } else {
        let prev = spec_argmax_prefix(row, allowed, k - 1);
        if !allowed[k - 1] {
            prev
        } else if prev == -1 || row[k - 1] > row[prev] {
            k - 1
        } else {
            prev
        }
    }
}

/// The greedy action of `row` restricted to `allowed`: the lowest index
/// carrying the greatest allowed entry.
pub open spec fn spec_argmax(row: Seq<i64>, allowed: Seq<bool>) -> int {
    spec_argmax_prefix(row, allowed, row.len() as int)
}

/// What [`spec_argmax_prefix`] returns: a sentinel exactly when nothing is
/// allowed, and otherwise the lowest allowed index of maximum value.
pub proof fn lemma_argmax_prefix_props(row: Seq<i64>, allowed: Seq<bool>, k: int)
    requires
        allowed.len() == row.len(),
        0 <= k <= row.len(),
    ensures
        spec_argmax_prefix(row, allowed, k) == -1 <==> (forall|a: int|
            0 <= a < k ==> !allowed[a]),
        spec_argmax_prefix(row, allowed, k) != -1 ==> {
            let m = spec_argmax_prefix(row, allowed, k);
            &&& 0 <= m < k
            &&& allowed[m]
            &&& forall|a: int| 0 <= a < k && allowed[a] ==> row[a] <= row[m]
            &&& forall|a: int| 0 <= a < m && allowed[a] ==> row[a] < row[m]
        },
    decreases k,
{
    if k > 0 {
        lemma_argmax_prefix_props(row, allowed, k - 1);
    }
}

/// Law: the greedy choice over a row, restricted to the allowed actions,
/// never depends on the entries of disallowed actions. Two rows that agree
/// on every allowed action yield the same greedy action, and so the same
/// greedy (bootstrap) value, however large the disallowed entries are.
pub proof fn lemma_bootstrap_ignores_illegal(row1: Seq<i64>, row2: Seq<i64>, allowed: Seq<bool>)
    requires
        allowed.len() == row1.len(),
        row2.len() == row1.len(),
        forall|a: int| 0 <= a < allowed.len() && allowed[a] ==> row1[a] == row2[a],
    ensures
        spec_argmax(row1, allowed) == spec_argmax(row2, allowed),
        spec_argmax(row1, allowed) != -1 ==> row1[spec_argmax(row1, allowed)]
            == row2[spec_argmax(row2, allowed)],
{
    lemma_argmax_prefix_same(row1, row2, allowed, row1.len() as int);
    lemma_argmax_prefix_props(row1, allowed, row1.len() as int);
}

proof fn lemma_argmax_prefix_same(row1: Seq<i64>, row2: Seq<i64>, allowed: Seq<bool>, k: int)
    requires
        allowed.len() == row1.len(),
        row2.len() == row1.len(),
        0 <= k <= row1.len(),
        forall|a: int| 0 <= a < allowed.len() && allowed[a] ==> row1[a] == row2[a],
    ensures
        spec_argmax_prefix(row1, allowed, k) == spec_argmax_prefix(row2, allowed, k),
    decreases k,
{
    if k > 0 {
        lemma_argmax_prefix_same(row1, row2, allowed, k - 1);
        lemma_argmax_prefix_props(row1, allowed, k - 1);
    }
}

/// The value a table entry takes after one learning update with reward `r`,
/// bootstrap estimate `m`, learning rate `alpha` and discount rate `gamma`
/// (all in thousandths): `q + alpha * (r + gamma * m - q)`, every product
/// scaled back down with division rounding toward negative infinity, and the
/// result clamped to the action-value range as the divergence guardrail.
pub open spec fn spec_updated_value(q: int, r: int, m: int, alpha: int, gamma: int) -> int {
    spec_clamp(q + (alpha * (r + (gamma * m) / (FIXED_ONE as int) - q)) / (FIXED_ONE as int))
}

/// The dense action-value table: one row per state, one entry per action,
/// in fixed-point thousandths.
pub struct Q {
    pub n_possible_states: usize,
    pub n_possible_actions: usize,
    pub mapping: Vec<Vec<i64>>,
}

impl Q {
    /// The row of action values of `state`.
    pub open spec fn spec_row(self, state: int) -> Seq<i64> {
        self.mapping@[state]@
    }

    /// The value of (`state`, `action`).
    pub open spec fn spec_value(self, state: int, action: int) -> i64 {
        self.mapping@[state]@[action]
    }

    /// Well-formedness: a dense `n_possible_states` x `n_possible_actions`
    /// table whose entries stay within the action-value range.
    pub open spec fn wf(self) -> bool {
        &&& self.mapping@.len() == self.n_possible_states
        &&& forall|s: int|
            0 <= s < self.n_possible_states ==> (#[trigger] self.mapping@[s])@.len()
                == self.n_possible_actions
        &&& forall|s: int, a: int|
            0 <= s < self.n_possible_states && 0 <= a < self.n_possible_actions
                ==> -Q_VALUE_LIMIT <= #[trigger] self.mapping@[s]@[a] <= Q_VALUE_LIMIT
    }

    /// A zero-initialized table.
    pub fn new(n_possible_states: usize, n_possible_actions: usize) -> (q: Self)
        ensures
            q.wf(),
            q.n_possible_states == n_possible_states,
            q.n_possible_actions == n_possible_actions,
            forall|s: int, a: int|
                0 <= s < n_possible_states && 0 <= a < n_possible_actions
                    ==> #[trigger] q.spec_value(s, a) == 0,
    {
        let mut mapping: Vec<Vec<i64>> = Vec::new();
        let mut s: usize = 0;
        while s < n_possible_states
            invariant
                0 <= s <= n_possible_states,
                mapping@.len() == s,
                forall|ss: int| 0 <= ss < s ==> (#[trigger] mapping@[ss])@.len() == n_possible_actions,
                forall|ss: int, a: int|
                    0 <= ss < s && 0 <= a < n_possible_actions ==> #[trigger] mapping@[ss]@[a] == 0,
            decreases n_possible_states - s,
        {
            let mut row: Vec<i64> = Vec::new();
            let mut a: usize = 0;
            while a < n_possible_actions
                invariant
                    0 <= a <= n_possible_actions,
                    row@.len() == a,
                    forall|k: int| 0 <= k < a ==> #[trigger] row@[k] == 0,
                decreases n_possible_actions - a,
            {
                row.push(0i64);
                a = a + 1;
            }
            mapping.push(row);
            s = s + 1;
        }
        Q { n_possible_states, n_possible_actions, mapping }
    }

    /// Reads the value of (`state`, `action`).
    pub fn get(&self, state: usize, action: usize) -> (v: i64)
        requires
            self.wf(),
            state < self.n_possible_states,
            action < self.n_possible_actions,
        ensures
            v == self.spec_value(state as int, action as int),
            -Q_VALUE_LIMIT <= v <= Q_VALUE_LIMIT,
    {
        self.mapping[state][action]
    }

    /// Writes the value of (`state`, `action`).
    pub fn set(&mut self, state: usize, action: usize, value: i64)
        requires
            old(self).wf(),
            state < old(self).n_possible_states,
            action < old(self).n_possible_actions,
            -Q_VALUE_LIMIT <= value <= Q_VALUE_LIMIT,
        ensures
            final(self).wf(),
            final(self).n_possible_states == old(self).n_possible_states,
            final(self).n_possible_actions == old(self).n_possible_actions,
            final(self).spec_row(state as int) == old(self).spec_row(state as int).update(
                action as int,
                value,
            ),
            forall|s: int|
                0 <= s < old(self).n_possible_states && s != state
                    ==> #[trigger] final(self).spec_row(s) == old(self).spec_row(s),
    {
        self.mapping[state][action] = value;
    }

    /// The row of action values of `state`.
    pub fn row(&self, state: usize) -> (r: &Vec<i64>)
        requires
            self.wf(),
            state < self.n_possible_states,
        ensures
            r@ == self.spec_row(state as int),
    {
        &self.mapping[state]
    }

    /// The greatest value in the row of `state`, over all actions.
    pub fn max(&self, state: usize) -> (m: i64)
        requires
            self.wf(),
            state < self.n_possible_states,
            self.n_possible_actions >= 1,
        ensures
            exists|a: int|
                0 <= a < self.n_possible_actions && m == #[trigger] self.spec_value(
                    state as int,
                    a,
                ),
            forall|a: int|
                0 <= a < self.n_possible_actions ==> #[trigger] self.spec_value(state as int, a)
                    <= m,
    {
        let mut m = self.mapping[state][0];
        proof {
            assert(m == self.spec_value(state as int, 0));
        }
        let mut a: usize = 1;
        while a < self.n_possible_actions
            invariant
                self.wf(),
                state < self.n_possible_states,
                1 <= a <= self.n_possible_actions,
                exists|k: int|
                    0 <= k < a && m == #[trigger] self.spec_value(state as int, k),
                forall|k: int|
                    0 <= k < a ==> #[trigger] self.spec_value(state as int, k) <= m,
            decreases self.n_possible_actions - a,
        {
            let v = self.mapping[state][a];
            proof {
                assert(v == self.spec_value(state as int, a as int));
            }
            if v > m {
                m = v;
            }
            a = a + 1;
        }
        m
    }

    /// The greedy action of `state` among the allowed actions: the one of
    /// greatest value, ties broken by the lowest action id. The allowed set
    /// must not be empty.
    pub fn argmax(&self, state: usize, allowed: &Vec<bool>) -> (action: usize)
        requires
            self.wf(),
            state < self.n_possible_states,
            allowed@.len() == self.n_possible_actions,
            exists|a: int| 0 <= a < allowed@.len() && allowed@[a],
        ensures
            action < self.n_possible_actions,
            allowed@[action as int],
            action as int == spec_argmax(self.spec_row(state as int), allowed@),
            forall|a: int|
                0 <= a < self.n_possible_actions && allowed@[a]
                    ==> #[trigger] self.spec_value(state as int, a) <= self.spec_value(
                    state as int,
                    action as int,
                ),
            forall|a: int|
                0 <= a < action && allowed@[a] ==> #[trigger] self.spec_value(state as int, a)
                    < self.spec_value(state as int, action as int),
    {
        let n = self.n_possible_actions;
        let mut best: usize = 0;
        let mut found: bool = false;
        let mut a: usize = 0;
        while a < n
            invariant
                self.wf(),
                state < self.n_possible_states,
                n == self.n_possible_actions,
                allowed@.len() == n,
                0 <= a <= n,
                !found ==> spec_argmax_prefix(self.spec_row(state as int), allowed@, a as int)
                    == -1,
                found ==> best < a && best as int == spec_argmax_prefix(
                    self.spec_row(state as int),
                    allowed@,
                    a as int,
                ),
            decreases n - a,
        {
            if allowed[a] {
                if !found {
                    best = a;
                    found = true;
                } else if self.mapping[state][a] > self.mapping[state][best] {
                    best = a;
                }
            }
            a = a + 1;
        }
        proof {
            lemma_argmax_prefix_props(self.spec_row(state as int), allowed@, n as int);
        }
        best
    }

    /// The greatest value in the row of `state` among the allowed actions:
    /// the bootstrap estimate Q-learning uses. Disallowed actions never
    /// contribute, however large their entries.
    pub fn max_allowed(&self, state: usize, allowed: &Vec<bool>) -> (m: i64)
        requires
            self.wf(),
            state < self.n_possible_states,
            allowed@.len() == self.n_possible_actions,
            exists|a: int| 0 <= a < allowed@.len() && allowed@[a],
        ensures
            m == self.spec_row(state as int)[spec_argmax(self.spec_row(state as int), allowed@)],
            exists|a: int|
                0 <= a < self.n_possible_actions && allowed@[a] && m == #[trigger] self.spec_value(
                    state as int,
                    a,
                ),
            forall|a: int|
                0 <= a < self.n_possible_actions && allowed@[a]
                    ==> #[trigger] self.spec_value(state as int, a) <= m,
            -Q_VALUE_LIMIT <= m <= Q_VALUE_LIMIT,
    {
        let action = self.argmax(state, allowed);
        self.get(state, action)
    }

    /// Applies one learning update to (`state`, `action`): the new value is
    /// exactly [`spec_updated_value`] of the old one. Everything else in the
    /// table is untouched.
    pub fn update(
        &mut self,
        state: usize,
        action: usize,
        reward: i64,
        bootstrap: i64,
        learning_rate: i64,
        discount_rate: i64,
    )
        requires
            old(self).wf(),
            state < old(self).n_possible_states,
            action < old(self).n_possible_actions,
            -STEP_REWARD_LIMIT <= reward <= STEP_REWARD_LIMIT,
            -Q_VALUE_LIMIT <= bootstrap <= Q_VALUE_LIMIT,
            0 <= learning_rate <= FIXED_ONE,
            0 <= discount_rate <= FIXED_ONE,
        ensures
            final(self).wf(),
            final(self).n_possible_states == old(self).n_possible_states,
            final(self).n_possible_actions == old(self).n_possible_actions,
            final(self).spec_value(state as int, action as int) == spec_updated_value(
                old(self).spec_value(state as int, action as int) as int,
                reward as int,
                bootstrap as int,
                learning_rate as int,
                discount_rate as int,
            ),
            final(self).spec_row(state as int) == old(self).spec_row(state as int).update(
                action as int,
                final(self).spec_value(state as int, action as int),
            ),
            forall|s: int|
                0 <= s < old(self).n_possible_states && s != state
                    ==> #[trigger] final(self).spec_row(s) == old(self).spec_row(s),
    {
        let q0 = self.get(state, action);
        proof {
            assert(-(1000 * Q_VALUE_LIMIT) <= discount_rate * bootstrap <= 1000 * Q_VALUE_LIMIT)
                by (nonlinear_arith)
                requires
                    0 <= discount_rate <= 1000,
                    -Q_VALUE_LIMIT <= bootstrap <= Q_VALUE_LIMIT,
            ;
        }
        let scaled_bootstrap = div_fixed(discount_rate * bootstrap);
        proof {
            lemma_div_is_ordered(
                -(1000 * Q_VALUE_LIMIT) as int,
                (discount_rate * bootstrap) as int,
                1000,
            );
            lemma_div_is_ordered(
                (discount_rate * bootstrap) as int,
                (1000 * Q_VALUE_LIMIT) as int,
                1000,
            );
        }
        let delta = reward + scaled_bootstrap - q0;
        proof {
            assert(-(1000 * (STEP_REWARD_LIMIT + 2 * Q_VALUE_LIMIT)) <= learning_rate * delta
                <= 1000 * (STEP_REWARD_LIMIT + 2 * Q_VALUE_LIMIT)) by (nonlinear_arith)
                requires
                    0 <= learning_rate <= 1000,
                    -(STEP_REWARD_LIMIT + 2 * Q_VALUE_LIMIT) <= delta <= STEP_REWARD_LIMIT + 2
                        * Q_VALUE_LIMIT,
            ;
        }
        let step = div_fixed(learning_rate * delta);
        proof {
            lemma_div_is_ordered(
                -DIV_FIXED_INPUT_LIMIT as int,
                (learning_rate * delta) as int,
                1000,
            );
            lemma_div_is_ordered((learning_rate * delta) as int, DIV_FIXED_INPUT_LIMIT as int, 1000);
        }
        let value = clamp_value(q0 + step);
        self.set(state, action, value);
    }
}

} // verus!
