use vstd::prelude::*;

verus! {

/// What the escape-time loop does next.
#[derive(Clone, Copy, Debug, PartialEq, Eq, Structural)]
pub enum Action {
    /// Perform orbit step `i` (z <- z * z + c) and report whether |z|^2 > 4.
    Step(usize),
    /// The loop is over; the value is the divergence index.
    Stop(usize),
}

/// Divergence index of an orbit, from step `i` on, where `escapes[k]` tells
/// whether the check after step `k + 1` found |z|^2 > 4. Steps run from 1 to
/// `max_iter - 1`; an orbit that does not escape within them gets `max_iter`.
pub open spec fn divergence_from(escapes: Seq<bool>, i: nat, max_iter: nat) -> nat
    decreases max_iter - i,
{
    if i >= max_iter {
        max_iter
    } else if escapes[i - 1] {
        i
    } else {
        divergence_from(escapes, i + 1, max_iter)
    }
}

/// Divergence index of a whole orbit.
pub open spec fn divergence(escapes: Seq<bool>, max_iter: nat) -> nat {
    divergence_from(escapes, 1, max_iter)
}

/// Action that begins the loop for a budget of `max_iter`.
pub open spec fn start_spec(max_iter: nat) -> Action {
    if 1 < max_iter {
        Action::Step(1)
    } else {
        Action::Stop(max_iter as usize)
    }
}

/// Action after step `i` was checked with outcome `escaped`.
pub open spec fn after_spec(i: nat, max_iter: nat, escaped: bool) -> Action {
    if escaped {
        Action::Stop(i as usize)
    } else if i + 1 < max_iter {
        Action::Step((i + 1) as usize)
    } else {
        Action::Stop(max_iter as usize)
    }
}

/// First action of the escape-time loop: a budget of 0 or 1 stops at once
/// with the budget itself, without any check.
pub fn start(max_iter: usize) -> (a: Action)
    ensures
        a == start_spec(max_iter as nat),
{
    if 1 < max_iter {
        Action::Step(1)
    } else {
        Action::Stop(max_iter)
    }
}

/// Next action once step `i` has been performed and checked.
pub fn after_step(i: usize, max_iter: usize, escaped: bool) -> (a: Action)
    requires
        1 <= i < max_iter,
    ensures
        a == after_spec(i as nat, max_iter as nat, escaped),
{
    if escaped {
        Action::Stop(i)
    } else if i + 1 < max_iter {
        Action::Step(i + 1)
    } else {
        Action::Stop(max_iter)
    }
}

/// Running the loop from step `i` with the actions of `after_step` yields
/// `divergence_from`: one step of the loop agrees with one unfolding.
pub proof fn lemma_after_step_agrees(escapes: Seq<bool>, i: nat, max_iter: nat)
    requires
        1 <= i < max_iter,
        max_iter <= usize::MAX,
        escapes.len() + 1 >= max_iter,
    ensures
        match after_spec(i, max_iter, escapes[i - 1]) {
            Action::Stop(r) => r as nat == divergence_from(escapes, i, max_iter),
            Action::Step(j) => j == i + 1 && divergence_from(escapes, j as nat, max_iter)
                == divergence_from(escapes, i, max_iter),
        },
{
    reveal_with_fuel(divergence_from, 2);
}

/// Starting the loop agrees with `divergence`.
pub proof fn lemma_start_agrees(escapes: Seq<bool>, max_iter: nat)
    requires
        max_iter <= usize::MAX,
    ensures
        match start_spec(max_iter) {
            Action::Stop(r) => r as nat == divergence(escapes, max_iter),
            Action::Step(j) => j == 1,
        },
{
}

/// The divergence index lies between `i` and `max_iter`.
pub proof fn lemma_divergence_from_bounds(escapes: Seq<bool>, i: nat, max_iter: nat)
    requires
        1 <= i,
    ensures
        i <= max_iter ==> i <= divergence_from(escapes, i, max_iter) <= max_iter,
        i > max_iter ==> divergence_from(escapes, i, max_iter) == max_iter,
    decreases max_iter - i,
{
    if i < max_iter && !escapes[i - 1] {
        lemma_divergence_from_bounds(escapes, i + 1, max_iter);
    }
}

/// An orbit whose checks never find |z|^2 > 4 gets the full budget, for
/// every budget (the origin and the point i are such orbits).
pub proof fn lemma_never_escaping(escapes: Seq<bool>, max_iter: nat)
    requires
        forall|k: int| 0 <= k < escapes.len() ==> !escapes[k],
        escapes.len() + 1 >= max_iter,
    ensures
        divergence(escapes, max_iter) == max_iter,
{
    lemma_never_escaping_from(escapes, 1, max_iter);
}

proof fn lemma_never_escaping_from(escapes: Seq<bool>, i: nat, max_iter: nat)
    requires
        1 <= i,
        forall|k: int| 0 <= k < escapes.len() ==> !escapes[k],
        escapes.len() + 1 >= max_iter,
    ensures
        divergence_from(escapes, i, max_iter) == max_iter,
    decreases max_iter - i,
{
    if i < max_iter {
        lemma_never_escaping_from(escapes, i + 1, max_iter);
    }
}

/// An orbit that escapes at its first check is reported at index 1, below
/// the budget, whenever the budget allows that check (at least 2).
pub proof fn lemma_first_check_escapes(escapes: Seq<bool>, max_iter: nat)
    requires
        2 <= max_iter,
        escapes.len() >= 1,
        escapes[0],
    ensures
        divergence(escapes, max_iter) == 1,
        divergence(escapes, max_iter) < max_iter,
{
}

/// Runs the escape-time loop over known check outcomes: `escapes[k]` is the
/// outcome of the check after step `k + 1`. Only the steps that the loop
/// asks for are read.
pub fn divergence_index(escapes: &Vec<bool>, max_iter: usize) -> (r: usize)
    requires
        escapes.len() + 1 >= max_iter,
    ensures
        r as nat == divergence(escapes@, max_iter as nat),
        1 <= max_iter ==> 1 <= r <= max_iter,
        max_iter == 0 ==> r == 0,
{
    proof {
        lemma_start_agrees(escapes@, max_iter as nat);
        lemma_divergence_from_bounds(escapes@, 1, max_iter as nat);
    }
    let mut a = start(max_iter);
    loop
        invariant
            escapes.len() + 1 >= max_iter,
            1 <= max_iter ==> 1 <= divergence(escapes@, max_iter as nat) <= max_iter,
            match a {
                Action::Step(j) => 1 <= j < max_iter && divergence_from(escapes@, j as nat, max_iter as nat)
                    == divergence(escapes@, max_iter as nat),
                Action::Stop(r) => r as nat == divergence(escapes@, max_iter as nat),
            },
        decreases
            match a {
                Action::Step(j) => (max_iter - j) as int + 1,
                Action::Stop(_) => 0int,
            },
    {
        match a {
            Action::Stop(r) => {
                return r;
            },
            Action::Step(i) => {
                proof {
                    lemma_after_step_agrees(escapes@, i as nat, max_iter as nat);
                }
                a = after_step(i, max_iter, escapes[i - 1]);
            },
        }
    }
}

} // verus!
