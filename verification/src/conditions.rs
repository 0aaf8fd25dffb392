//! The stacks of damaging conditions on the target.

use crate::events::DamagingCondition;
use vstd::prelude::*;

verus! {

/// One stack of a condition: what is left of it, and when that was reckoned.
#[derive(PartialEq, Eq, Structural, Clone, Copy, Debug)]
pub struct ConditionStack {
    pub duration: i64,
    pub last_update: i64,
}

/// The mathematical content of [`TargetConditions`]: the stacks of each
/// condition, in the order in which they were applied.
pub struct ConditionsView {
    pub bleeding: Seq<ConditionStack>,
    pub burning: Seq<ConditionStack>,
    pub confusion: Seq<ConditionStack>,
    pub poisoned: Seq<ConditionStack>,
    pub torment: Seq<ConditionStack>,
}

impl ConditionsView {
    /// No stack of any condition.
    pub open spec fn empty() -> ConditionsView {
        ConditionsView {
            bleeding: Seq::empty(),
            burning: Seq::empty(),
            confusion: Seq::empty(),
            poisoned: Seq::empty(),
            torment: Seq::empty(),
        }
    }

    /// The stacks of `condition`.
    pub open spec fn stacks_of(self, condition: DamagingCondition) -> Seq<ConditionStack> {
        match condition {
            DamagingCondition::Bleeding => self.bleeding,
            DamagingCondition::Burning => self.burning,
            DamagingCondition::Confusion => self.confusion,
            DamagingCondition::Poisoned => self.poisoned,
            DamagingCondition::Torment => self.torment,
        }
    }

    /// The same stacks, but for `condition`, which has `stacks`.
    pub open spec fn with_stacks(
        self,
        condition: DamagingCondition,
        stacks: Seq<ConditionStack>,
    ) -> ConditionsView {
        match condition {
            DamagingCondition::Bleeding => ConditionsView { bleeding: stacks, ..self },
            DamagingCondition::Burning => ConditionsView { burning: stacks, ..self },
            DamagingCondition::Confusion => ConditionsView { confusion: stacks, ..self },
            DamagingCondition::Poisoned => ConditionsView { poisoned: stacks, ..self },
            DamagingCondition::Torment => ConditionsView { torment: stacks, ..self },
        }
    }

    /// The stacks after one more of `condition` has been applied at `time`.
    pub open spec fn applied(
        self,
        condition: DamagingCondition,
        duration: i64,
        time: i64,
    ) -> ConditionsView {
        self.with_stacks(
            condition,
            self.stacks_of(condition).push(ConditionStack { duration, last_update: time }),
        )
    }
}

/// The stacks of each damaging condition on the target.
pub struct TargetConditions {
    bleeding: Vec<ConditionStack>,
    burning: Vec<ConditionStack>,
    confusion: Vec<ConditionStack>,
    poisoned: Vec<ConditionStack>,
    torment: Vec<ConditionStack>,
}

impl View for TargetConditions {
    type V = ConditionsView;

    closed spec fn view(&self) -> ConditionsView {
        ConditionsView {
            bleeding: self.bleeding@,
            burning: self.burning@,
            confusion: self.confusion@,
            poisoned: self.poisoned@,
            torment: self.torment@,
        }
    }
}

impl TargetConditions {
    /// A target without conditions.
    pub fn new() -> (r: Self)
        ensures
            r@ == ConditionsView::empty(),
    {
        TargetConditions {
            bleeding: Vec::new(),
            burning: Vec::new(),
            confusion: Vec::new(),
            poisoned: Vec::new(),
            torment: Vec::new(),
        }
    }

    /// Applies a stack of `condition` that lasts `duration` from `time` on.
    pub fn add_condition(&mut self, condition: DamagingCondition, duration: i64, time: i64)
        ensures
            final(self)@ == old(self)@.applied(condition, duration, time),
    {
        let stack = ConditionStack { duration, last_update: time };
        match condition {
            DamagingCondition::Bleeding => self.bleeding.push(stack),
            DamagingCondition::Burning => self.burning.push(stack),
            DamagingCondition::Confusion => self.confusion.push(stack),
            DamagingCondition::Poisoned => self.poisoned.push(stack),
            DamagingCondition::Torment => self.torment.push(stack),
        }
    }

    /// The stacks of `condition`, in the order in which they were applied.
    pub fn stacks(&self, condition: DamagingCondition) -> (r: &Vec<ConditionStack>)
        ensures
            r@ == self@.stacks_of(condition),
    {
        match condition {
            DamagingCondition::Bleeding => &self.bleeding,
            DamagingCondition::Burning => &self.burning,
            DamagingCondition::Confusion => &self.confusion,
            DamagingCondition::Poisoned => &self.poisoned,
            DamagingCondition::Torment => &self.torment,
        }
    }

    /// Gives `condition` the stacks `stacks` in place of its own.
    pub fn set_stacks(&mut self, condition: DamagingCondition, stacks: Vec<ConditionStack>)
        ensures
            final(self)@ == old(self)@.with_stacks(condition, stacks@),
    {
        match condition {
            DamagingCondition::Bleeding => {
                self.bleeding = stacks;
            },
            DamagingCondition::Burning => {
                self.burning = stacks;
            },
            DamagingCondition::Confusion => {
                self.confusion = stacks;
            },
            DamagingCondition::Poisoned => {
                self.poisoned = stacks;
            },
            DamagingCondition::Torment => {
                self.torment = stacks;
            },
        }
    }
}

} // verus!
