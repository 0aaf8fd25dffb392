//! Time-decayed tracking of buff stacks.
//!
//! A buff stacks either in duration (one stack is active and runs down, the
//! others wait in a queue) or in intensity (every stack runs down on its own
//! and all of them count). A tracker must be brought up to the current time
//! before it is read or a stack is inserted.

use crate::gamedata::{
    get_stack_limit, get_stacking_type, is_stacking_buff, stack_limit_of, stacking_type_of,
    BuffStackingType,
};
use std::collections::HashMap;
use itertools::Itertools;
use vstd::prelude::*;

verus! {

/// `i` is the position of the first greatest element of `s`.
pub open spec fn is_first_max(s: Seq<i64>, i: int) -> bool {
    &&& 0 <= i < s.len()
    &&& forall|j: int| 0 <= j < s.len() ==> s[j] <= s[i]
    &&& forall|j: int| 0 <= j < i ==> s[j] < s[i]
}

/// `i` is the position of the first least element of `s`.
pub open spec fn is_first_min(s: Seq<i64>, i: int) -> bool {
    &&& 0 <= i < s.len()
    &&& forall|j: int| 0 <= j < s.len() ==> s[i] <= s[j]
    &&& forall|j: int| 0 <= j < i ==> s[i] < s[j]
}

/// The position of the first greatest element of a non-empty sequence.
pub open spec fn first_max_index(s: Seq<i64>) -> int
    decreases s.len(),
{
    if s.len() <= 1 {
        0
    } else {
        let i = first_max_index(s.drop_last());
        if s.last() > s[i] {
            s.len() - 1
        } else {
            i
        }
    }
}

/// The position of the first least element of a non-empty sequence.
pub open spec fn first_min_index(s: Seq<i64>) -> int
    decreases s.len(),
{
    if s.len() <= 1 {
        0
    } else {
        let i = first_min_index(s.drop_last());
        if s.last() < s[i] {
            s.len() - 1
        } else {
            i
        }
    }
}

pub proof fn lemma_first_max_index(s: Seq<i64>)
    requires
        s.len() > 0,
    ensures
        is_first_max(s, first_max_index(s)),
    decreases s.len(),
{
    if s.len() > 1 {
        let t = s.drop_last();
        lemma_first_max_index(t);
        let i = first_max_index(t);
        assert(forall|j: int| 0 <= j < t.len() ==> t[j] == s[j]);
    }
}

pub proof fn lemma_first_min_index(s: Seq<i64>)
    requires
        s.len() > 0,
    ensures
        is_first_min(s, first_min_index(s)),
    decreases s.len(),
{
    if s.len() > 1 {
        let t = s.drop_last();
        lemma_first_min_index(t);
        let i = first_min_index(t);
        assert(forall|j: int| 0 <= j < t.len() ==> t[j] == s[j]);
    }
}

/// A sequence has one first least element only.
pub proof fn lemma_first_min_unique(s: Seq<i64>, i: int)
    requires
        is_first_min(s, i),
    ensures
        i == first_min_index(s),
{
    lemma_first_min_index(s);
    let k = first_min_index(s);
    if i < k {
        assert(s[k] < s[i]);
    } else if k < i {
        assert(s[i] < s[k]);
    }
}

/// What is left of `s` once the element at `i` has been taken out and the
/// last element has been moved into its place.
pub open spec fn swap_removed(s: Seq<i64>, i: int) -> Seq<i64> {
    s.update(i, s.last()).drop_last()
}

/// The stacks that outlast `elapsed`, each shortened by it.
pub open spec fn decayed(stacks: Seq<i64>, elapsed: int) -> Seq<i64> {
    stacks.filter(|d: i64| d > elapsed).map_values(|d: i64| (d - elapsed) as i64)
}

/// The active stack and the queue of a duration-stacking buff after
/// `elapsed` time units. Time runs against the active stack. A stack that is
/// used up makes way for the longest stack in the queue, the first of them
/// where several are equally long, and what it did not use runs against that
/// one. With nothing left in the queue the buff ends.
pub open spec fn run_down(active: Option<i64>, queued: Seq<i64>, elapsed: int) -> (
    Option<i64>,
    Seq<i64>,
)
    decreases queued.len(),
    via run_down_shortens_queue
{
    match active {
        None => (None, queued),
        Some(d) => {
            if elapsed <= 0 {
                (active, queued)
            } else if d > elapsed {
                (Some((d - elapsed) as i64), queued)
            } else if queued.len() == 0 {
                (None, queued)
            } else {
                let i = first_max_index(queued);
                run_down(Some(queued[i]), swap_removed(queued, i), elapsed - d)
            }
        },
    }
}

#[via_fn]
proof fn run_down_shortens_queue(active: Option<i64>, queued: Seq<i64>, elapsed: int) {
    if queued.len() > 0 {
        lemma_first_max_index(queued);
    }
}

/// The stacks of an intensity-stacking buff, or the queue of a
/// duration-stacking one, after a stack of `duration` has asked for a place
/// among at most `room` stacks. While there is room it is appended. Without
/// room it takes the place of the shortest stack, the first of them where
/// several are equally short, if it is strictly longer than that one, and is
/// dropped otherwise.
pub open spec fn with_stack(stacks: Seq<i64>, room: int, duration: i64) -> Seq<i64> {
    if stacks.len() < room {
        stacks.push(duration)
    } else if stacks.len() > 0 && duration > stacks[first_min_index(stacks)] {
        swap_removed(stacks, first_min_index(stacks)).push(duration)
    } else {
        stacks
    }
}

/// The mathematical content of a [`SimBuffState`].
pub enum BuffStateView {
    Duration { last_update_time: i64, active: Option<i64>, queued: Seq<i64>, stack_limit: nat },
    Intensity { last_update_time: i64, stacks: Seq<i64>, stack_limit: nat },
}

impl BuffStateView {
    pub open spec fn last_update_time(self) -> i64 {
        match self {
            BuffStateView::Duration { last_update_time, .. } => last_update_time,
            BuffStateView::Intensity { last_update_time, .. } => last_update_time,
        }
    }

    pub open spec fn stack_limit(self) -> nat {
        match self {
            BuffStateView::Duration { stack_limit, .. } => stack_limit,
            BuffStateView::Intensity { stack_limit, .. } => stack_limit,
        }
    }

    pub open spec fn stacking(self) -> BuffStackingType {
        match self {
            BuffStateView::Duration { .. } => BuffStackingType::Duration,
            BuffStateView::Intensity { .. } => BuffStackingType::Intensity,
        }
    }

    /// The limit is at least one and no stack is held beyond it; a queue
    /// exists only behind an active stack.
    pub open spec fn wf(self) -> bool {
        match self {
            BuffStateView::Duration { active, queued, stack_limit, .. } => {
                &&& 1 <= stack_limit <= u32::MAX
                &&& queued.len() + 1 <= stack_limit
                &&& active is None ==> queued.len() == 0
            },
            BuffStateView::Intensity { stacks, stack_limit, .. } => {
                &&& 1 <= stack_limit <= u32::MAX
                &&& stacks.len() <= stack_limit
            },
        }
    }

    /// The number of stacks that count: one for an active stack of a
    /// duration-stacking buff, every stack of an intensity-stacking one.
    pub open spec fn stack_count(self) -> nat {
        match self {
            BuffStateView::Duration { active, .. } => if active is Some {
                1
            } else {
                0
            },
            BuffStateView::Intensity { stacks, .. } => stacks.len(),
        }
    }

    /// The state brought up to `time`.
    pub open spec fn advanced(self, time: i64) -> BuffStateView {
        match self {
            BuffStateView::Duration { last_update_time, active, queued, stack_limit } => {
                let (a, q) = run_down(active, queued, time - last_update_time);
                BuffStateView::Duration {
                    last_update_time: time,
                    active: a,
                    queued: q,
                    stack_limit,
                }
            },
            BuffStateView::Intensity { last_update_time, stacks, stack_limit } => {
                BuffStateView::Intensity {
                    last_update_time: time,
                    stacks: decayed(stacks, time - last_update_time),
                    stack_limit,
                }
            },
        }
    }

    /// The state after a stack of `duration` has been inserted. A
    /// duration-stacking buff without an active stack makes it the active one.
    /// Behind an active stack it asks for a place in the queue, which holds
    /// one stack less than the limit. Where the limit leaves no queue at all,
    /// it replaces the active stack if it is strictly longer.
    pub open spec fn inserted(self, duration: i64) -> BuffStateView {
        match self {
            BuffStateView::Duration { last_update_time, active, queued, stack_limit } => {
                match active {
                    None => BuffStateView::Duration {
                        last_update_time,
                        active: Some(duration),
                        queued,
                        stack_limit,
                    },
                    Some(d) => if stack_limit == 1 {
                        BuffStateView::Duration {
                            last_update_time,
                            active: if duration > d {
                                Some(duration)
                            } else {
                                active
                            },
                            queued,
                            stack_limit,
                        }
                    } else {
                        BuffStateView::Duration {
                            last_update_time,
                            active,
                            queued: with_stack(queued, stack_limit - 1, duration),
                            stack_limit,
                        }
                    },
                }
            },
            BuffStateView::Intensity { last_update_time, stacks, stack_limit } => {
                BuffStateView::Intensity {
                    last_update_time,
                    stacks: with_stack(stacks, stack_limit as int, duration),
                    stack_limit,
                }
            },
        }
    }
}

impl BuffStateView {
    /// The state without any stack.
    pub open spec fn cleared(self) -> BuffStateView {
        match self {
            BuffStateView::Duration { last_update_time, stack_limit, .. } => {
                BuffStateView::Duration {
                    last_update_time,
                    active: None,
                    queued: Seq::empty(),
                    stack_limit,
                }
            },
            BuffStateView::Intensity { last_update_time, stack_limit, .. } => {
                BuffStateView::Intensity { last_update_time, stacks: Seq::empty(), stack_limit }
            },
        }
    }

    /// The state without its shortest stack, the first of them where several
    /// are equally short. A duration-stacking buff gives up a stack of its
    /// queue, and its active stack only where nothing is queued. A buff
    /// without stacks stays as it is.
    pub open spec fn without_shortest(self) -> BuffStateView {
        match self {
            BuffStateView::Duration { last_update_time, active, queued, stack_limit } => {
                if queued.len() > 0 {
                    BuffStateView::Duration {
                        last_update_time,
                        active,
                        queued: swap_removed(queued, first_min_index(queued)),
                        stack_limit,
                    }
                } else {
                    BuffStateView::Duration { last_update_time, active: None, queued, stack_limit }
                }
            },
            BuffStateView::Intensity { last_update_time, stacks, stack_limit } => {
                if stacks.len() > 0 {
                    BuffStateView::Intensity {
                        last_update_time,
                        stacks: swap_removed(stacks, first_min_index(stacks)),
                        stack_limit,
                    }
                } else {
                    self
                }
            },
        }
    }
}

/// Bringing a well-formed state up to a later time leaves it well-formed.
pub proof fn lemma_run_down_wf(active: Option<i64>, queued: Seq<i64>, elapsed: int)
    requires
        active is None ==> queued.len() == 0,
    ensures
        run_down(active, queued, elapsed).1.len() <= queued.len(),
        run_down(active, queued, elapsed).0 is None ==> run_down(
            active,
            queued,
            elapsed,
        ).1.len() == 0,
    decreases queued.len(),
{
    if let Some(d) = active {
        if elapsed > 0 && d <= elapsed && queued.len() > 0 {
            lemma_first_max_index(queued);
            let i = first_max_index(queued);
            lemma_run_down_wf(Some(queued[i]), swap_removed(queued, i), elapsed - d);
        }
    }
}

/// No more stacks outlast a span of time than there were.
pub proof fn lemma_decayed_len(stacks: Seq<i64>, elapsed: int)
    ensures
        decayed(stacks, elapsed).len() <= stacks.len(),
{
    stacks.lemma_filter_len(|d: i64| d > elapsed);
}

/// A stack that asks for a place among at most `room` leaves at most `room`.
pub proof fn lemma_with_stack_len(stacks: Seq<i64>, room: int, duration: i64)
    requires
        stacks.len() <= room,
    ensures
        with_stack(stacks, room, duration).len() <= room,
        with_stack(stacks, room, duration).len() >= stacks.len(),
{
    if stacks.len() > 0 {
        lemma_first_min_index(stacks);
    }
}

/// One step in the life of a buff.
pub enum BuffStep {
    /// The buff is brought up to a time.
    Advance(i64),
    /// A stack of a duration is inserted.
    Insert(i64),
}

/// The state after `steps`, taken one by one in their order.
pub open spec fn after_steps(v: BuffStateView, steps: Seq<BuffStep>) -> BuffStateView
    decreases steps.len(),
{
    if steps.len() == 0 {
        v
    } else {
        match steps.last() {
            BuffStep::Advance(time) => after_steps(v, steps.drop_last()).advanced(time),
            BuffStep::Insert(duration) => after_steps(v, steps.drop_last()).inserted(duration),
        }
    }
}

/// Bringing a well-formed state up to a time leaves it well-formed.
pub proof fn lemma_advanced_wf(v: BuffStateView, time: i64)
    requires
        v.wf(),
    ensures
        v.advanced(time).wf(),
{
    match v {
        BuffStateView::Duration { last_update_time, active, queued, .. } => {
            lemma_run_down_wf(active, queued, time - last_update_time);
        },
        BuffStateView::Intensity { last_update_time, stacks, .. } => {
            lemma_decayed_len(stacks, time - last_update_time);
        },
    }
}

/// Inserting a stack into a well-formed state leaves it well-formed.
pub proof fn lemma_inserted_wf(v: BuffStateView, duration: i64)
    requires
        v.wf(),
    ensures
        v.inserted(duration).wf(),
{
    match v {
        BuffStateView::Duration { queued, stack_limit, .. } => {
            if stack_limit > 1 {
                lemma_with_stack_len(queued, stack_limit - 1, duration);
            }
        },
        BuffStateView::Intensity { stacks, stack_limit, .. } => {
            lemma_with_stack_len(stacks, stack_limit as int, duration);
        },
    }
}

/// Whatever is inserted into a buff and whenever it is brought up to a time,
/// a duration-stacking buff counts no stack or one, and an intensity-stacking
/// buff counts at most as many stacks as its limit.
pub proof fn lemma_stack_count_within_limit(
    stacking: BuffStackingType,
    time: i64,
    stack_limit: u32,
    steps: Seq<BuffStep>,
)
    requires
        stack_limit >= 1,
    ensures
        after_steps(fresh_state(stacking, time, stack_limit), steps).wf(),
        after_steps(fresh_state(stacking, time, stack_limit), steps).stacking() == stacking,
        after_steps(fresh_state(stacking, time, stack_limit), steps).stack_limit() == stack_limit,
        after_steps(fresh_state(stacking, time, stack_limit), steps).stack_count() <= stack_limit,
        stacking == BuffStackingType::Duration ==> after_steps(
            fresh_state(stacking, time, stack_limit),
            steps,
        ).stack_count() <= 1,
    decreases steps.len(),
{
    if steps.len() > 0 {
        lemma_stack_count_within_limit(stacking, time, stack_limit, steps.drop_last());
        let before = after_steps(fresh_state(stacking, time, stack_limit), steps.drop_last());
        match steps.last() {
            BuffStep::Advance(t) => lemma_advanced_wf(before, t),
            BuffStep::Insert(d) => lemma_inserted_wf(before, d),
        }
    }
}

/// `Itertools::position_min_by_key` on the stacks, each keyed by itself: no
/// position for no stacks, else the position of the first shortest stack.
#[verifier::external_body]
fn position_of_shortest(stacks: &Vec<i64>) -> (r: Option<usize>)
    ensures
        match r {
            None => stacks@.len() == 0,
            Some(i) => is_first_min(stacks@, i as int),
        },
{
    stacks.iter().position_min_by_key(|d| **d)
}

/// The position of the first longest stack.
fn position_of_longest(stacks: &Vec<i64>) -> (r: usize)
    requires
        stacks@.len() > 0,
    ensures
        r as int == first_max_index(stacks@),
        r < stacks@.len(),
{
    let mut best: usize = 0;
    let mut k: usize = 1;
    assert(stacks@.take(1).len() == 1);
    while k < stacks.len()
        invariant
            1 <= k <= stacks@.len(),
            best < k,
            best as int == first_max_index(stacks@.take(k as int)),
        decreases stacks@.len() - k,
    {
        assert(stacks@.take(k + 1).drop_last() =~= stacks@.take(k as int));
        if stacks[k] > stacks[best] {
            best = k;
        }
        k += 1;
    }
    assert(stacks@.take(k as int) =~= stacks@);
    best
}

/// Puts a stack among at most `room` stacks.
fn place_stack(stacks: Vec<i64>, room: usize, duration: i64) -> (r: Vec<i64>)
    requires
        stacks@.len() <= room,
    ensures
        r@ == with_stack(stacks@, room as int, duration),
{
    let mut stacks = stacks;
    if stacks.len() < room {
        stacks.push(duration);
    } else {
        match position_of_shortest(&stacks) {
            Some(i) => {
                proof {
                    lemma_first_min_unique(stacks@, i as int);
                }
                if duration > stacks[i] {
                    stacks.swap_remove(i);
                    stacks.push(duration);
                }
            },
            None => {},
        }
    }
    stacks
}

/// The stacks that outlast `elapsed`, each shortened by it.
fn decay_stacks(stacks: &Vec<i64>, elapsed: i128) -> (r: Vec<i64>)
    requires
        elapsed >= 0,
    ensures
        r@ == decayed(stacks@, elapsed as int),
{
    let mut out: Vec<i64> = Vec::new();
    let mut k: usize = 0;
    let ghost keep = |d: i64| d > elapsed as int;
    proof {
        reveal(Seq::filter);
        assert(stacks@.take(0).filter(keep) =~= Seq::<i64>::empty());
    }
    while k < stacks.len()
        invariant
            k <= stacks@.len(),
            elapsed >= 0,
            keep == |d: i64| d > elapsed as int,
            out@ =~= decayed(stacks@.take(k as int), elapsed as int),
        decreases stacks@.len() - k,
    {
        let d = stacks[k];
        proof {
            reveal(Seq::filter);
            assert(stacks@.take(k + 1).drop_last() =~= stacks@.take(k as int));
            assert(stacks@.take(k + 1).last() == d);
        }
        if d as i128 > elapsed {
            let rest: i128 = d as i128 - elapsed;
            out.push(rest as i64);
        }
        k += 1;
    }
    assert(stacks@.take(k as int) =~= stacks@);
    out
}

/// The stacks of one buff and the time up to which they have run down.
#[derive(Debug)]
pub enum SimBuffState {
    Duration {
        last_update_time: i64,
        active: Option<i64>,
        queued_stacks: Vec<i64>,
        stack_limit: usize,
    },
    Intensity { last_update_time: i64, stacks: Vec<i64>, stack_limit: usize },
}

impl View for SimBuffState {
    type V = BuffStateView;

    open spec fn view(&self) -> BuffStateView {
        match *self {
            SimBuffState::Duration { last_update_time, active, queued_stacks, stack_limit } => {
                BuffStateView::Duration {
                    last_update_time,
                    active,
                    queued: queued_stacks@,
                    stack_limit: stack_limit as nat,
                }
            },
            SimBuffState::Intensity { last_update_time, stacks, stack_limit } => {
                BuffStateView::Intensity {
                    last_update_time,
                    stacks: stacks@,
                    stack_limit: stack_limit as nat,
                }
            },
        }
    }
}

/// A buff without stacks, last seen at `time`.
pub open spec fn fresh_state(stacking: BuffStackingType, time: i64, stack_limit: u32) -> BuffStateView {
    match stacking {
        BuffStackingType::Duration => BuffStateView::Duration {
            last_update_time: time,
            active: None,
            queued: Seq::empty(),
            stack_limit: stack_limit as nat,
        },
        BuffStackingType::Intensity => BuffStateView::Intensity {
            last_update_time: time,
            stacks: Seq::empty(),
            stack_limit: stack_limit as nat,
        },
    }
}

impl SimBuffState {
    pub open spec fn wf(&self) -> bool {
        self@.wf()
    }

    /// A buff without stacks, last seen at `time`.
    pub fn new(stacking: BuffStackingType, time: i64, stack_limit: u32) -> (r: Self)
        requires
            stack_limit >= 1,
        ensures
            r@ == fresh_state(stacking, time, stack_limit),
            r.wf(),
    {
        match stacking {
            BuffStackingType::Duration => SimBuffState::Duration {
                last_update_time: time,
                active: None,
                queued_stacks: Vec::new(),
                stack_limit: stack_limit as usize,
            },
            BuffStackingType::Intensity => SimBuffState::Intensity {
                last_update_time: time,
                stacks: Vec::new(),
                stack_limit: stack_limit as usize,
            },
        }
    }

    /// The time up to which the stacks have run down.
    pub fn last_update_time(&self) -> (r: i64)
        ensures
            r == self@.last_update_time(),
    {
        match self {
            SimBuffState::Duration { last_update_time, .. } => *last_update_time,
            SimBuffState::Intensity { last_update_time, .. } => *last_update_time,
        }
    }

    /// Brings the buff up to `time`, which must not lie before the time it
    /// was last brought up to.
    pub fn advance(self, time: i64) -> (r: Self)
        requires
            self.wf(),
            time >= self@.last_update_time(),
        ensures
            r@ == self@.advanced(time),
            r.wf(),
    {
        match self {
            SimBuffState::Duration { last_update_time, active, queued_stacks, stack_limit } => {
                let ghost queued0 = queued_stacks@;
                let mut elapsed: i128 = time as i128 - last_update_time as i128;
                let ghost elapsed0 = elapsed as int;
                let mut active = active;
                let mut queued = queued_stacks;
                proof {
                    lemma_run_down_wf(active, queued0, elapsed0);
                }
                while active.is_some() && elapsed > 0
                    invariant
                        run_down(active, queued@, elapsed as int) == run_down(
                            self@->Duration_active,
                            queued0,
                            elapsed0,
                        ),
                        queued@.len() <= queued0.len() <= u32::MAX,
                        0 <= elapsed <= 0x1_0000_0000_0000_0000 + (queued0.len() - queued@.len())
                            * 0x8000_0000_0000_0000,
                    decreases
                        2 * queued@.len() + if active is Some { 1int } else { 0int } + if elapsed > 0 { 1int } else { 0int },
                {
                    let d = active.unwrap();
                    if d as i128 > elapsed {
                        let rest: i128 = d as i128 - elapsed;
                        active = Some(rest as i64);
                        elapsed = 0;
                    } else if queued.len() == 0 {
                        active = None;
                    } else {
                        let i = position_of_longest(&queued);
                        let next = queued.swap_remove(i);
                        assert((queued0.len() - queued@.len()) * 0x8000_0000_0000_0000
                            == (queued0.len() - queued@.len() - 1) * 0x8000_0000_0000_0000
                            + 0x8000_0000_0000_0000) by (nonlinear_arith);
                        assert((queued0.len() - queued@.len()) * 0x8000_0000_0000_0000
                            <= 0xffff_ffff * 0x8000_0000_0000_0000) by (nonlinear_arith)
                            requires
                                0 <= queued0.len() - queued@.len() <= 0xffff_ffff,
                        ;
                        active = Some(next);
                        elapsed = elapsed - d as i128;
                    }
                }
                SimBuffState::Duration {
                    last_update_time: time,
                    active,
                    queued_stacks: queued,
                    stack_limit,
                }
            },
            SimBuffState::Intensity { last_update_time, stacks, stack_limit } => {
                let elapsed: i128 = time as i128 - last_update_time as i128;
                proof {
                    lemma_decayed_len(stacks@, elapsed as int);
                }
                let stacks = decay_stacks(&stacks, elapsed);
                SimBuffState::Intensity { last_update_time: time, stacks, stack_limit }
            },
        }
    }

    /// Inserts a stack that lasts `duration`.
    pub fn insert(self, duration: i64) -> (r: Self)
        requires
            self.wf(),
        ensures
            r@ == self@.inserted(duration),
            r.wf(),
    {
        match self {
            SimBuffState::Duration { last_update_time, active, queued_stacks, stack_limit } => {
                match active {
                    None => SimBuffState::Duration {
                        last_update_time,
                        active: Some(duration),
                        queued_stacks,
                        stack_limit,
                    },
                    Some(d) => {
                        if stack_limit == 1 {
                            SimBuffState::Duration {
                                last_update_time,
                                active: if duration > d {
                                    Some(duration)
                                } else {
                                    active
                                },
                                queued_stacks,
                                stack_limit,
                            }
                        } else {
                            proof {
                                lemma_with_stack_len(queued_stacks@, stack_limit - 1, duration);
                            }
                            let queued_stacks = place_stack(
                                queued_stacks,
                                stack_limit - 1,
                                duration,
                            );
                            SimBuffState::Duration {
                                last_update_time,
                                active,
                                queued_stacks,
                                stack_limit,
                            }
                        }
                    },
                }
            },
            SimBuffState::Intensity { last_update_time, stacks, stack_limit } => {
                proof {
                    lemma_with_stack_len(stacks@, stack_limit as int, duration);
                }
                let stacks = place_stack(stacks, stack_limit, duration);
                SimBuffState::Intensity { last_update_time, stacks, stack_limit }
            },
        }
    }

    /// The number of stacks that count. A duration-stacking buff never counts
    /// more than one, an intensity-stacking buff never more than its limit.
    pub fn stack_count(&self) -> (r: u32)
        requires
            self.wf(),
        ensures
            r == self@.stack_count(),
            self@.stacking() == BuffStackingType::Duration ==> r <= 1,
            r <= self@.stack_limit(),
    {
        match self {
            SimBuffState::Duration { active, .. } => if active.is_some() {
                1
            } else {
                0
            },
            SimBuffState::Intensity { stacks, .. } => stacks.len() as u32,
        }
    }

    /// What is left of the active stack of a duration-stacking buff.
    pub fn active_duration(&self) -> (r: Option<i64>)
        ensures
            r == match self@ {
                BuffStateView::Duration { active, .. } => active,
                BuffStateView::Intensity { .. } => None,
            },
    {
        match self {
            SimBuffState::Duration { active, .. } => *active,
            SimBuffState::Intensity { .. } => None,
        }
    }

    /// What is left of each stack of an intensity-stacking buff, or of each
    /// stack in the queue of a duration-stacking one.
    pub fn remaining_durations(&self) -> (r: Vec<i64>)
        ensures
            r@ == match self@ {
                BuffStateView::Duration { queued, .. } => queued,
                BuffStateView::Intensity { stacks, .. } => stacks,
            },
    {
        match self {
            SimBuffState::Duration { queued_stacks, .. } => queued_stacks.clone(),
            SimBuffState::Intensity { stacks, .. } => stacks.clone(),
        }
    }
}

/// Takes the first shortest stack out, if there is a stack.
fn drop_shortest(stacks: Vec<i64>) -> (r: Vec<i64>)
    ensures
        r@ == if stacks@.len() > 0 {
            swap_removed(stacks@, first_min_index(stacks@))
        } else {
            stacks@
        },
{
    let mut stacks = stacks;
    match position_of_shortest(&stacks) {
        Some(i) => {
            proof {
                lemma_first_min_unique(stacks@, i as int);
            }
            stacks.swap_remove(i);
        },
        None => {},
    }
    stacks
}

impl SimBuffState {
    /// Drops every stack.
    pub fn clear(self) -> (r: Self)
        requires
            self.wf(),
        ensures
            r@ == self@.cleared(),
            r.wf(),
    {
        match self {
            SimBuffState::Duration { last_update_time, stack_limit, .. } => {
                SimBuffState::Duration {
                    last_update_time,
                    active: None,
                    queued_stacks: Vec::new(),
                    stack_limit,
                }
            },
            SimBuffState::Intensity { last_update_time, stack_limit, .. } => {
                SimBuffState::Intensity { last_update_time, stacks: Vec::new(), stack_limit }
            },
        }
    }

    /// Drops the shortest stack.
    pub fn remove_shortest(self) -> (r: Self)
        requires
            self.wf(),
        ensures
            r@ == self@.without_shortest(),
            r.wf(),
    {
        match self {
            SimBuffState::Duration { last_update_time, active, queued_stacks, stack_limit } => {
                if queued_stacks.len() > 0 {
                    proof {
                        lemma_first_min_index(queued_stacks@);
                    }
                    let queued_stacks = drop_shortest(queued_stacks);
                    SimBuffState::Duration { last_update_time, active, queued_stacks, stack_limit }
                } else {
                    SimBuffState::Duration {
                        last_update_time,
                        active: None,
                        queued_stacks,
                        stack_limit,
                    }
                }
            },
            SimBuffState::Intensity { last_update_time, stacks, stack_limit } => {
                proof {
                    if stacks@.len() > 0 {
                        lemma_first_min_index(stacks@);
                    }
                }
                let stacks = drop_shortest(stacks);
                SimBuffState::Intensity { last_update_time, stacks, stack_limit }
            },
        }
    }
}

/// What a tracker of buff stacks offers, whether it follows a replay or only
/// counts what a log reports.
pub trait BuffUptimes {
    /// Holds of every tracker that its own operations have produced.
    spec fn wf(&self) -> bool;

    /// Whether the tracker can be asked about `skill_id` at `time`.
    spec fn admits(&self, skill_id: u32, time: i64) -> bool;

    /// Whether a stack of `skill_id` can be added at `time`.
    spec fn admits_stack(&self, skill_id: u32, time: i64) -> bool;

    /// Whether one stack of `skill_id` can be removed at `time`.
    spec fn admits_removal(&self, skill_id: u32, time: i64) -> bool;

    /// The number of stacks of `skill_id` that count at `time`.
    spec fn stacks_at(&self, skill_id: u32, time: i64) -> nat;

    fn add_stack(&mut self, skill_id: u32, duration: i64, time: i64)
        requires
            old(self).wf(),
            old(self).admits_stack(skill_id, time),
        ensures
            final(self).wf(),
            final(self).admits(skill_id, time),
    ;

    fn remove_stack(&mut self, skill_id: u32, time: i64)
        requires
            old(self).wf(),
            old(self).admits_removal(skill_id, time),
        ensures
            final(self).wf(),
            final(self).admits(skill_id, time),
    ;

    fn remove_last_stack(&mut self, skill_id: u32, time: i64)
        requires
            old(self).wf(),
            old(self).admits(skill_id, time),
        ensures
            final(self).wf(),
            final(self).admits(skill_id, time),
            final(self).stacks_at(skill_id, time) == 0,
    ;

    fn is_applied(&mut self, skill_id: u32, time: i64) -> (r: bool)
        requires
            old(self).wf(),
            old(self).admits(skill_id, time),
        ensures
            final(self).wf(),
            final(self).admits(skill_id, time),
            r == (old(self).stacks_at(skill_id, time) > 0),
            final(self).stacks_at(skill_id, time) == old(self).stacks_at(skill_id, time),
    ;

    fn get_stack_count(&mut self, skill_id: u32, time: i64) -> (r: u32)
        requires
            old(self).wf(),
            old(self).admits(skill_id, time),
        ensures
            final(self).wf(),
            final(self).admits(skill_id, time),
            r == old(self).stacks_at(skill_id, time),
            final(self).stacks_at(skill_id, time) == old(self).stacks_at(skill_id, time),
    ;
}

/// The state of `skill_id` at `time`: what the tracker holds for it, brought up
/// to `time`, or a buff without stacks where the tracker has not met it.
pub open spec fn state_at(m: Map<u32, BuffStateView>, skill_id: u32, time: i64) -> BuffStateView {
    if m.contains_key(skill_id) {
        m[skill_id].advanced(time)
    } else {
        fresh_state(stacking_type_of(skill_id), time, stack_limit_of(skill_id))
    }
}

/// A tracker can be asked about a buff that has a stacking discipline, at a
/// time that does not lie before the time it last saw that buff.
pub open spec fn admits_at(m: Map<u32, BuffStateView>, skill_id: u32, time: i64) -> bool {
    &&& is_stacking_buff(skill_id)
    &&& m.contains_key(skill_id) ==> time >= m[skill_id].last_update_time()
}

/// Every buff that the tracker has met has a stacking discipline, and its
/// state follows that discipline and its stack limit.
pub open spec fn states_wf(m: Map<u32, BuffStateView>) -> bool {
    forall|k: u32| #[trigger]
        m.contains_key(k) ==> {
            &&& is_stacking_buff(k)
            &&& m[k].wf()
            &&& m[k].stacking() == stacking_type_of(k)
            &&& m[k].stack_limit() == stack_limit_of(k)
        }
}

/// Bringing a state up to the time it is already at changes nothing but the
/// stacks that have no time left.
pub proof fn lemma_advanced_twice(v: BuffStateView, time: i64)
    requires
        v.wf(),
        time >= v.last_update_time(),
    ensures
        v.advanced(time).advanced(time).stack_count() == v.advanced(time).stack_count(),
        v.advanced(time).last_update_time() == time,
{
    match v.advanced(time) {
        BuffStateView::Duration { .. } => {},
        BuffStateView::Intensity { stacks, .. } => {
            let keep_old = |d: i64| d > time - v.last_update_time();
            let s0 = v->Intensity_stacks;
            let f = s0.filter(keep_old);
            let keep = |d: i64| d > 0int;
            assert forall|i: int| 0 <= i < f.len() implies keep_old(#[trigger] f[i]) by {
                s0.lemma_filter_pred(keep_old, i);
            }
            assert forall|i: int| 0 <= i < stacks.len() implies keep(#[trigger] stacks[i]) by {
                assert(keep_old(f[i]));
                assert(stacks[i] == (f[i] - (time - v.last_update_time())) as i64);
            }
            lemma_filter_all(stacks, keep);
            assert(keep == |d: i64| d > time - time);
        },
    }
}

/// A filter keeps a sequence whole where every element passes.
pub proof fn lemma_filter_all(s: Seq<i64>, keep: spec_fn(i64) -> bool)
    requires
        forall|i: int| 0 <= i < s.len() ==> keep(#[trigger] s[i]),
    ensures
        s.filter(keep) == s,
    decreases s.len(),
{
    reveal(Seq::filter);
    if s.len() > 0 {
        lemma_filter_all(s.drop_last(), keep);
        assert(s.drop_last().push(s.last()) =~= s);
    }
}

/// The tracker of a replay: the state of each buff it has met.
pub struct SimBuffUptimes {
    states: HashMap<u32, SimBuffState>,
}

impl View for SimBuffUptimes {
    type V = Map<u32, BuffStateView>;

    closed spec fn view(&self) -> Map<u32, BuffStateView> {
        self.states@.map_values(|s: SimBuffState| s@)
    }
}

impl SimBuffUptimes {
    /// A tracker that has met no buff.
    pub fn new() -> (r: Self)
        ensures
            r@ == Map::<u32, BuffStateView>::empty(),
            states_wf(r@),
    {
        let r = SimBuffUptimes { states: HashMap::new() };
        assert(r@ =~= Map::<u32, BuffStateView>::empty());
        r
    }

    /// Brings `skill_id` up to `time`. A buff that the tracker has not met
    /// starts without stacks.
    pub fn update_state(&mut self, skill_id: u32, time: i64)
        requires
            states_wf(old(self)@),
            admits_at(old(self)@, skill_id, time),
        ensures
            final(self)@ == old(self)@.insert(skill_id, state_at(old(self)@, skill_id, time)),
            states_wf(final(self)@),
    {
        broadcast use vstd::std_specs::hash::group_hash_axioms;

        let state = match self.states.remove(&skill_id) {
            Some(state) => {
                assert(old(self)@[skill_id] == state@);
                state.advance(time)
            },
            None => SimBuffState::new(
                get_stacking_type(skill_id),
                time,
                get_stack_limit(skill_id),
            ),
        };
        self.states.insert(skill_id, state);
        assert(final(self)@ =~= old(self)@.insert(skill_id, state_at(old(self)@, skill_id, time)));
    }

    /// The time up to which `skill_id` has been brought, if the tracker has
    /// met it.
    pub fn last_seen(&self, skill_id: u32) -> (r: Option<i64>)
        ensures
            r == if self@.contains_key(skill_id) {
                Some(self@[skill_id].last_update_time())
            } else {
                None
            },
    {
        broadcast use vstd::std_specs::hash::group_hash_axioms;

        match self.states.get(&skill_id) {
            Some(state) => Some(state.last_update_time()),
            None => None,
        }
    }

    /// The number of stacks of a buff that the tracker has met, as of the
    /// time it was last brought up to.
    pub fn current_stack_count(&self, skill_id: u32) -> (r: u32)
        requires
            states_wf(self@),
            self@.contains_key(skill_id),
        ensures
            r == self@[skill_id].stack_count(),
            stacking_type_of(skill_id) == BuffStackingType::Duration ==> r <= 1,
            r <= stack_limit_of(skill_id),
    {
        broadcast use vstd::std_specs::hash::group_hash_axioms;

        let state = self.states.get(&skill_id);
        assert(state is Some);
        state.unwrap().stack_count()
    }

    /// Inserts a stack of `duration` into a buff that the tracker has met.
    pub fn insert_stack(&mut self, skill_id: u32, duration: i64)
        requires
            states_wf(old(self)@),
            old(self)@.contains_key(skill_id),
        ensures
            final(self)@ == old(self)@.insert(skill_id, old(self)@[skill_id].inserted(duration)),
            states_wf(final(self)@),
    {
        broadcast use vstd::std_specs::hash::group_hash_axioms;

        let state = self.states.remove(&skill_id);
        assert(state is Some);
        let state = state.unwrap();
        assert(old(self)@[skill_id] == state@);
        let state = state.insert(duration);
        self.states.insert(skill_id, state);
        assert(final(self)@ =~= old(self)@.insert(
            skill_id,
            old(self)@[skill_id].inserted(duration),
        ));
    }

    /// Replaces the state of a buff that the tracker has met by `change` of
    /// it.
    fn replace_state(&mut self, skill_id: u32, all: bool)
        requires
            states_wf(old(self)@),
            old(self)@.contains_key(skill_id),
        ensures
            final(self)@ == old(self)@.insert(
                skill_id,
                if all {
                    old(self)@[skill_id].cleared()
                } else {
                    old(self)@[skill_id].without_shortest()
                },
            ),
            states_wf(final(self)@),
    {
        broadcast use vstd::std_specs::hash::group_hash_axioms;

        let state = self.states.remove(&skill_id);
        assert(state is Some);
        let state = state.unwrap();
        assert(old(self)@[skill_id] == state@);
        let state = if all {
            state.clear()
        } else {
            state.remove_shortest()
        };
        self.states.insert(skill_id, state);
        assert(final(self)@ =~= old(self)@.insert(
            skill_id,
            if all {
                old(self)@[skill_id].cleared()
            } else {
                old(self)@[skill_id].without_shortest()
            },
        ));
    }
}

impl BuffUptimes for SimBuffUptimes {
    open spec fn wf(&self) -> bool {
        states_wf(self@)
    }

    open spec fn admits(&self, skill_id: u32, time: i64) -> bool {
        admits_at(self@, skill_id, time)
    }

    open spec fn admits_stack(&self, skill_id: u32, time: i64) -> bool {
        admits_at(self@, skill_id, time)
    }

    open spec fn admits_removal(&self, skill_id: u32, time: i64) -> bool {
        admits_at(self@, skill_id, time)
    }

    open spec fn stacks_at(&self, skill_id: u32, time: i64) -> nat {
        state_at(self@, skill_id, time).stack_count()
    }

    /// Brings the buff up to `time` and inserts a stack of `duration`.
    fn add_stack(&mut self, skill_id: u32, duration: i64, time: i64)
        ensures
            final(self)@ == old(self)@.insert(
                skill_id,
                state_at(old(self)@, skill_id, time).inserted(duration),
            ),
    {
        self.update_state(skill_id, time);
        self.insert_stack(skill_id, duration);
        assert(final(self)@ =~= old(self)@.insert(
            skill_id,
            state_at(old(self)@, skill_id, time).inserted(duration),
        ));
    }

    /// Brings the buff up to `time` and drops its shortest stack.
    fn remove_stack(&mut self, skill_id: u32, time: i64)
        ensures
            final(self)@ == old(self)@.insert(
                skill_id,
                state_at(old(self)@, skill_id, time).without_shortest(),
            ),
    {
        self.update_state(skill_id, time);
        self.replace_state(skill_id, false);
        assert(final(self)@ =~= old(self)@.insert(
            skill_id,
            state_at(old(self)@, skill_id, time).without_shortest(),
        ));
    }

    /// Brings the buff up to `time` and drops all its stacks.
    fn remove_last_stack(&mut self, skill_id: u32, time: i64)
        ensures
            final(self)@ == old(self)@.insert(
                skill_id,
                state_at(old(self)@, skill_id, time).cleared(),
            ),
    {
        self.update_state(skill_id, time);
        self.replace_state(skill_id, true);
        assert(final(self)@ =~= old(self)@.insert(
            skill_id,
            state_at(old(self)@, skill_id, time).cleared(),
        ));
        proof {
            reveal(Seq::filter);
        }
    }

    /// Brings the buff up to `time` and says whether a stack of it counts.
    fn is_applied(&mut self, skill_id: u32, time: i64) -> (r: bool)
        ensures
            final(self)@ == old(self)@.insert(skill_id, state_at(old(self)@, skill_id, time)),
    {
        self.update_state(skill_id, time);
        proof {
            lemma_state_at_settled(old(self)@, skill_id, time);
        }
        self.current_stack_count(skill_id) > 0
    }

    /// Brings the buff up to `time` and counts its stacks: at most one of a
    /// duration-stacking buff, at most the stack limit of any.
    fn get_stack_count(&mut self, skill_id: u32, time: i64) -> (r: u32)
        ensures
            final(self)@ == old(self)@.insert(skill_id, state_at(old(self)@, skill_id, time)),
            stacking_type_of(skill_id) == BuffStackingType::Duration ==> r <= 1,
            r <= stack_limit_of(skill_id),
    {
        self.update_state(skill_id, time);
        proof {
            lemma_state_at_settled(old(self)@, skill_id, time);
        }
        self.current_stack_count(skill_id)
    }
}

/// A buff that has been brought up to `time` counts as many stacks when it is
/// asked about at `time` again.
pub proof fn lemma_state_at_settled(m: Map<u32, BuffStateView>, skill_id: u32, time: i64)
    requires
        states_wf(m),
        admits_at(m, skill_id, time),
    ensures
        state_at(m.insert(skill_id, state_at(m, skill_id, time)), skill_id, time).stack_count()
            == state_at(m, skill_id, time).stack_count(),
{
    if m.contains_key(skill_id) {
        lemma_advanced_twice(m[skill_id], time);
    } else {
        let v = fresh_state(stacking_type_of(skill_id), time, stack_limit_of(skill_id));
        reveal(Seq::filter);
        assert(v.advanced(time).stack_count() == 0);
    }
}

/// The number of stacks that a log has reported of `skill_id`.
pub open spec fn counted(m: Map<u32, u32>, skill_id: u32) -> u32 {
    if m.contains_key(skill_id) {
        m[skill_id]
    } else {
        0
    }
}

/// The tracker of a log: for each buff the number of stacks that the log has
/// reported as applied and not yet as removed. It knows nothing of durations
/// and serves to tell whether a buff was present.
pub struct LogBuffUptimes {
    stack_counts: HashMap<u32, u32>,
}

impl View for LogBuffUptimes {
    type V = Map<u32, u32>;

    closed spec fn view(&self) -> Map<u32, u32> {
        self.stack_counts@
    }
}

impl LogBuffUptimes {
    /// A tracker that has counted nothing.
    pub fn new() -> (r: Self)
        ensures
            r@ == Map::<u32, u32>::empty(),
    {
        LogBuffUptimes { stack_counts: HashMap::new() }
    }

    /// The number of stacks counted of `skill_id`.
    pub fn count(&self, skill_id: u32) -> (r: u32)
        ensures
            r == counted(self@, skill_id),
    {
        broadcast use vstd::std_specs::hash::group_hash_axioms;

        match self.stack_counts.get(&skill_id) {
            Some(n) => *n,
            None => 0,
        }
    }
}

impl BuffUptimes for LogBuffUptimes {
    open spec fn wf(&self) -> bool {
        true
    }

    open spec fn admits(&self, skill_id: u32, time: i64) -> bool {
        true
    }

    open spec fn admits_stack(&self, skill_id: u32, time: i64) -> bool {
        counted(self@, skill_id) < u32::MAX
    }

    open spec fn admits_removal(&self, skill_id: u32, time: i64) -> bool {
        counted(self@, skill_id) > 0
    }

    open spec fn stacks_at(&self, skill_id: u32, time: i64) -> nat {
        counted(self@, skill_id) as nat
    }

    /// Counts one stack more.
    fn add_stack(&mut self, skill_id: u32, duration: i64, time: i64)
        ensures
            final(self)@ == old(self)@.insert(skill_id, (counted(old(self)@, skill_id) + 1) as u32),
    {
        broadcast use vstd::std_specs::hash::group_hash_axioms;

        let n = self.count(skill_id);
        self.stack_counts.insert(skill_id, n + 1);
    }

    /// Counts one stack less.
    fn remove_stack(&mut self, skill_id: u32, time: i64)
        ensures
            final(self)@ == old(self)@.insert(skill_id, (counted(old(self)@, skill_id) - 1) as u32),
    {
        broadcast use vstd::std_specs::hash::group_hash_axioms;

        let n = self.count(skill_id);
        self.stack_counts.insert(skill_id, n - 1);
    }

    /// Counts no stack any more.
    fn remove_last_stack(&mut self, skill_id: u32, time: i64)
        ensures
            final(self)@ == old(self)@.insert(skill_id, 0u32),
    {
        broadcast use vstd::std_specs::hash::group_hash_axioms;

        self.stack_counts.insert(skill_id, 0);
    }

    fn is_applied(&mut self, skill_id: u32, time: i64) -> (r: bool)
        ensures
            final(self)@ == old(self)@,
    {
        self.count(skill_id) > 0
    }

    fn get_stack_count(&mut self, skill_id: u32, time: i64) -> (r: u32)
        ensures
            final(self)@ == old(self)@,
    {
        self.count(skill_id)
    }
}

} // verus!
