//! The variants of a build and what each of them deals.
//!
//! A variant changes a build along four axes: the stats of the chestplate,
//! the split of eighteen infusions between expertise and condition damage,
//! the runes, and the sigil in each of the four slots. A slot keeps its sigil
//! or takes one of three others; no weapon set takes the same new sigil
//! twice. Where a variant gives up a sigil or the runes whose effects the log
//! shows, the replay leaves those effects out.

use crate::damage::{DamageDistribution, DamageView};
use crate::events::{Sigil, SimulationEvent};
use crate::evtc::EvtcSkill;
use crate::ids::skills;
use crate::sim::{after_events, initial_state, sim, Exclusions, SimError};
use crate::stats::{bonus_of, BuildView, PlayerStats};
use vstd::prelude::*;

verus! {

/// The runes that a variant may wear.
#[derive(PartialEq, Eq, Structural, Clone, Copy, Debug)]
pub enum Runes {
    Nightmare,
    Tormenting,
    Tempest,
    TrapperWithBlackDiamond,
    TrapperWith25CondiDamage,
}

/// What a variant does with a sigil slot.
#[derive(PartialEq, Eq, Structural, Clone, Copy, Debug)]
pub enum SigilChoice {
    Keep,
    Bursting,
    Demons,
    Malice,
}

/// One variant of a build. The slots are those of the first weapon set, then
/// those of the second.
#[derive(PartialEq, Eq, Structural, Clone, Copy, Debug)]
pub struct Variant {
    pub chestplate_sinister: bool,
    pub expertise_infusions: u32,
    pub runes: Runes,
    pub sigil_11: SigilChoice,
    pub sigil_12: SigilChoice,
    pub sigil_21: SigilChoice,
    pub sigil_22: SigilChoice,
}

/// The number of infusions to split.
pub const INFUSIONS: u32 = 18;

/// The stat points of one infusion.
pub const INFUSION_POINTS: u32 = 5;

/// The number of variants, valid or not, that have a rank.
pub const RANKS: u32 = 48_640;

impl Runes {
    /// The place of the runes among the five.
    pub open spec fn index(self) -> int {
        match self {
            Runes::Nightmare => 0,
            Runes::Tormenting => 1,
            Runes::Tempest => 2,
            Runes::TrapperWithBlackDiamond => 3,
            Runes::TrapperWith25CondiDamage => 4,
        }
    }

    /// The runes at place `index`.
    pub open spec fn at(index: int) -> Runes {
        if index == 0 {
            Runes::Nightmare
        } else if index == 1 {
            Runes::Tormenting
        } else if index == 2 {
            Runes::Tempest
        } else if index == 3 {
            Runes::TrapperWithBlackDiamond
        } else {
            Runes::TrapperWith25CondiDamage
        }
    }
}

impl SigilChoice {
    /// The place of the choice among the four.
    pub open spec fn index(self) -> int {
        match self {
            SigilChoice::Keep => 0,
            SigilChoice::Bursting => 1,
            SigilChoice::Demons => 2,
            SigilChoice::Malice => 3,
        }
    }

    /// The choice at place `index`.
    pub open spec fn at(index: int) -> SigilChoice {
        if index == 0 {
            SigilChoice::Keep
        } else if index == 1 {
            SigilChoice::Bursting
        } else if index == 2 {
            SigilChoice::Demons
        } else {
            SigilChoice::Malice
        }
    }

    /// The sigil that the slot holds after the choice, where it held `old`.
    pub open spec fn applied_to(self, old: Sigil) -> Sigil {
        match self {
            SigilChoice::Keep => old,
            SigilChoice::Bursting => Sigil::Bursting,
            SigilChoice::Demons => Sigil::Demons,
            SigilChoice::Malice => Sigil::Malice,
        }
    }

    /// Whether the choice takes `sigil` out of a slot that held `old`.
    pub open spec fn gives_up(self, old: Sigil, sigil: Sigil) -> bool {
        self != SigilChoice::Keep && old == sigil
    }
}

impl Variant {
    /// No more infusions go to expertise than there are, and no weapon set
    /// takes the same new sigil twice.
    pub open spec fn is_valid(self) -> bool {
        &&& self.expertise_infusions <= INFUSIONS
        &&& !(self.sigil_11 != SigilChoice::Keep && self.sigil_11 == self.sigil_12)
        &&& !(self.sigil_21 != SigilChoice::Keep && self.sigil_21 == self.sigil_22)
    }

    /// The place of the variant in the order in which variants are tried: by
    /// chestplate, then by infusions, by runes, and by each slot in turn.
    pub open spec fn rank(self) -> int {
        let chestplate: int = if self.chestplate_sinister {
            1
        } else {
            0
        };
        chestplate * 24320 + self.expertise_infusions * 1280 + self.runes.index() * 256
            + self.sigil_11.index() * 64 + self.sigil_12.index() * 16 + self.sigil_21.index() * 4
            + self.sigil_22.index()
    }

    /// The variant whose place is `rank`.
    pub open spec fn of_rank(rank: int) -> Variant {
        Variant {
            chestplate_sinister: rank / 24320 == 1,
            expertise_infusions: (rank / 1280 % 19) as u32,
            runes: Runes::at(rank / 256 % 5),
            sigil_11: SigilChoice::at(rank / 64 % 4),
            sigil_12: SigilChoice::at(rank / 16 % 4),
            sigil_21: SigilChoice::at(rank / 4 % 4),
            sigil_22: SigilChoice::at(rank % 4),
        }
    }
}

/// A number below [`RANKS`] is made up of its digits.
proof fn lemma_digits_make_rank(n: u32)
    requires
        n < 48640,
    ensures
        n / 24320 * 24320 + n / 1280 % 19 * 1280 + n / 256 % 5 * 256 + n / 64 % 4 * 64 + n / 16 % 4
            * 16 + n / 4 % 4 * 4 + n % 4 == n,
        n / 24320 <= 1,
{
    assert(n / 24320 * 24320 + n / 1280 % 19 * 1280 + n / 256 % 5 * 256 + n / 64 % 4 * 64 + n / 16
        % 4 * 16 + n / 4 % 4 * 4 + n % 4 == n && n / 24320 <= 1) by (bit_vector)
        requires
            n < 48640,
    ;
}

/// The digits of a number that is made up of digits are those digits.
proof fn lemma_rank_has_digits(c: u32, e: u32, r: u32, s1: u32, s2: u32, s3: u32, s4: u32)
    requires
        c <= 1,
        e <= 18,
        r <= 4,
        s1 <= 3,
        s2 <= 3,
        s3 <= 3,
        s4 <= 3,
    ensures
        ({
            let n = c * 24320 + e * 1280 + r * 256 + s1 * 64 + s2 * 16 + s3 * 4 + s4;
            &&& n < 48640
            &&& n / 24320 == c
            &&& n / 1280 % 19 == e
            &&& n / 256 % 5 == r
            &&& n / 64 % 4 == s1
            &&& n / 16 % 4 == s2
            &&& n / 4 % 4 == s3
            &&& n % 4 == s4
        }),
{
    let n: u32 = (c * 24320 + e * 1280 + r * 256 + s1 * 64 + s2 * 16 + s3 * 4 + s4) as u32;
    assert(n < 48640 && n / 24320 == c && n / 1280 % 19 == e && n / 256 % 5 == r && n / 64 % 4
        == s1 && n / 16 % 4 == s2 && n / 4 % 4 == s3 && n % 4 == s4) by (bit_vector)
        requires
            c <= 1,
            e <= 18,
            r <= 4,
            s1 <= 3,
            s2 <= 3,
            s3 <= 3,
            s4 <= 3,
            n == c * 24320 + e * 1280 + r * 256 + s1 * 64 + s2 * 16 + s3 * 4 + s4,
    ;
}

/// Every place below [`RANKS`] is that of the variant found there.
pub proof fn lemma_rank_of_place(rank: int)
    requires
        0 <= rank < RANKS,
    ensures
        Variant::of_rank(rank).rank() == rank,
        Variant::of_rank(rank).expertise_infusions <= INFUSIONS,
{
    lemma_digits_make_rank(rank as u32);
}

/// Every variant with at most eighteen infusions for expertise is found at
/// its place, which is below [`RANKS`].
pub proof fn lemma_place_of_variant(v: Variant)
    requires
        v.expertise_infusions <= INFUSIONS,
    ensures
        0 <= v.rank() < RANKS,
        Variant::of_rank(v.rank()) == v,
{
    let c: u32 = if v.chestplate_sinister {
        1
    } else {
        0
    };
    lemma_rank_has_digits(
        c,
        v.expertise_infusions,
        v.runes.index() as u32,
        v.sigil_11.index() as u32,
        v.sigil_12.index() as u32,
        v.sigil_21.index() as u32,
        v.sigil_22.index() as u32,
    );
}

fn runes_at(index: u32) -> (r: Runes)
    ensures
        r == Runes::at(index as int),
{
    if index == 0 {
        Runes::Nightmare
    } else if index == 1 {
        Runes::Tormenting
    } else if index == 2 {
        Runes::Tempest
    } else if index == 3 {
        Runes::TrapperWithBlackDiamond
    } else {
        Runes::TrapperWith25CondiDamage
    }
}

fn choice_at(index: u32) -> (r: SigilChoice)
    ensures
        r == SigilChoice::at(index as int),
{
    if index == 0 {
        SigilChoice::Keep
    } else if index == 1 {
        SigilChoice::Bursting
    } else if index == 2 {
        SigilChoice::Demons
    } else {
        SigilChoice::Malice
    }
}

impl Variant {
    /// Whether the variant is one to try.
    pub fn check(&self) -> (r: bool)
        ensures
            r == self.is_valid(),
    {
        self.expertise_infusions <= INFUSIONS && !(self.sigil_11 != SigilChoice::Keep
            && self.sigil_11 == self.sigil_12) && !(self.sigil_21 != SigilChoice::Keep
            && self.sigil_21 == self.sigil_22)
    }

    /// The variant whose place is `rank`.
    pub fn at_rank(rank: u32) -> (r: Variant)
        requires
            rank < RANKS,
        ensures
            r == Variant::of_rank(rank as int),
            r.rank() == rank,
    {
        proof {
            lemma_rank_of_place(rank as int);
        }
        Variant {
            chestplate_sinister: rank / 24320 == 1,
            expertise_infusions: rank / 1280 % 19,
            runes: runes_at(rank / 256 % 5),
            sigil_11: choice_at(rank / 64 % 4),
            sigil_12: choice_at(rank / 16 % 4),
            sigil_21: choice_at(rank / 4 % 4),
            sigil_22: choice_at(rank % 4),
        }
    }
}

/// `variants` holds every valid variant once, in the order of their ranks.
pub open spec fn is_every_variant(variants: Seq<Variant>) -> bool {
    &&& forall|i: int| 0 <= i < variants.len() ==> (#[trigger] variants[i]).is_valid()
    &&& forall|i: int, j: int|
        0 <= i < j < variants.len() ==> (#[trigger] variants[i]).rank() < (
        #[trigger] variants[j]).rank()
    &&& forall|v: Variant| #[trigger]
        v.is_valid() ==> exists|i: int| 0 <= i < variants.len() && variants[i] == v
}

/// Every variant to try, in the order in which they are tried.
pub fn all_variants() -> (r: Vec<Variant>)
    ensures
        is_every_variant(r@),
{
    let mut found: Vec<Variant> = Vec::new();
    let mut rank: u32 = 0;
    while rank < RANKS
        invariant
            rank <= RANKS,
            forall|i: int| 0 <= i < found@.len() ==> (#[trigger] found@[i]).is_valid(),
            forall|i: int| 0 <= i < found@.len() ==> (#[trigger] found@[i]).rank() < rank,
            forall|i: int, j: int|
                0 <= i < j < found@.len() ==> (#[trigger] found@[i]).rank() < (
                #[trigger] found@[j]).rank(),
            forall|v: Variant| #[trigger]
                v.is_valid() && v.rank() < rank ==> exists|i: int|
                    0 <= i < found@.len() && found@[i] == v,
        decreases RANKS - rank,
    {
        let variant = Variant::at_rank(rank);
        let ghost before = found@;
        if variant.check() {
            found.push(variant);
        }
        proof {
            assert forall|v: Variant| #[trigger] v.is_valid() && v.rank() < rank + 1 implies exists|
                i: int,
            |
                0 <= i < found@.len() && found@[i] == v by {
                lemma_place_of_variant(v);
                if v.rank() < rank {
                    let i = choose|i: int| 0 <= i < before.len() && before[i] == v;
                    assert(found@[i] == v);
                } else {
                    assert(v == variant);
                    assert(found@[found@.len() - 1] == v);
                }
            }
        }
        rank += 1;
    }
    proof {
        assert forall|v: Variant| #[trigger] v.is_valid() implies exists|i: int|
            0 <= i < found@.len() && found@[i] == v by {
            lemma_place_of_variant(v);
        }
    }
    found
}

/// What a stat comes to under a variant: the stat and what the variant adds
/// to it, if that is a 32-bit number.
pub open spec fn shifted(stat: u32, delta: int) -> Option<u32> {
    if 0 <= stat + delta <= u32::MAX {
        Some((stat + delta) as u32)
    } else {
        None
    }
}

impl Variant {
    /// What the variant adds to power: the chestplate and the runes.
    pub open spec fn power_delta(self) -> int {
        (if self.chestplate_sinister {
            34int
        } else {
            0int
        }) + match self.runes {
            Runes::Tempest => 36int,
            Runes::TrapperWithBlackDiamond => 17int,
            _ => 0int,
        }
    }

    /// What the variant adds to precision.
    pub open spec fn precision_delta(self) -> int {
        (if self.chestplate_sinister {
            34int
        } else {
            0int
        }) + match self.runes {
            Runes::Tempest => 36int,
            Runes::TrapperWithBlackDiamond => 9int,
            _ => 0int,
        }
    }

    /// What the variant adds to ferocity, and to concentration.
    pub open spec fn all_stats_delta(self) -> int {
        match self.runes {
            Runes::Tempest => 36int,
            _ => 0int,
        }
    }

    /// What the variant adds to condition damage: every infusion that goes
    /// to expertise is one less for condition damage.
    pub open spec fn condition_damage_delta(self) -> int {
        (if self.chestplate_sinister {
            20int
        } else {
            0int
        }) - INFUSION_POINTS * self.expertise_infusions + match self.runes {
            Runes::Tempest => -139int,
            Runes::TrapperWithBlackDiamond => 17int,
            Runes::TrapperWith25CondiDamage => 25int,
            _ => 0int,
        }
    }

    /// What the variant adds to expertise.
    pub open spec fn expertise_delta(self) -> int {
        (if self.chestplate_sinister {
            -67int
        } else {
            0int
        }) + INFUSION_POINTS * self.expertise_infusions + match self.runes {
            Runes::Tempest => 36int,
            Runes::TrapperWithBlackDiamond => 9int,
            _ => 0int,
        }
    }

    /// The bonus in percent to the duration of all conditions under the
    /// variant's runes, where `base` is that of the build.
    pub open spec fn duration_bonus(self, base: u32) -> u32 {
        match self.runes {
            Runes::Nightmare => base,
            Runes::Tormenting => 0,
            Runes::Tempest => 25,
            Runes::TrapperWithBlackDiamond => 15,
            Runes::TrapperWith25CondiDamage => 15,
        }
    }

    /// The percent that the variant's runes add to the duration of torment.
    pub open spec fn torment_bonus(self) -> int {
        match self.runes {
            Runes::Tormenting => 50,
            _ => 0,
        }
    }

    /// The build that the variant makes of `base`, which wears runes of the
    /// nightmare and has all its infusions in condition damage; nothing
    /// where a figure leaves the range of 32 bits.
    pub open spec fn build(self, base: BuildView) -> Option<BuildView> {
        let power = shifted(base.power, self.power_delta());
        let precision = shifted(base.precision, self.precision_delta());
        let ferocity = shifted(base.ferocity, self.all_stats_delta());
        let condition_damage = shifted(base.condition_damage, self.condition_damage_delta());
        let expertise = shifted(base.expertise, self.expertise_delta());
        let concentration = shifted(base.concentration, self.all_stats_delta());
        let torment = shifted(
            bonus_of(base.extra_condition_durations, skills::TORMENT),
            self.torment_bonus(),
        );
        if power is None || precision is None || ferocity is None || condition_damage is None
            || expertise is None || concentration is None || torment is None {
            None
        } else {
            Some(
                BuildView {
                    power: power->Some_0,
                    precision: precision->Some_0,
                    ferocity: ferocity->Some_0,
                    condition_damage: condition_damage->Some_0,
                    expertise: expertise->Some_0,
                    concentration: concentration->Some_0,
                    set_1_sigils: seq![
                        self.sigil_11.applied_to(base.set_1_sigils[0]),
                        self.sigil_12.applied_to(base.set_1_sigils[1]),
                    ],
                    set_2_sigils: seq![
                        self.sigil_21.applied_to(base.set_2_sigils[0]),
                        self.sigil_22.applied_to(base.set_2_sigils[1]),
                    ],
                    extra_condition_durations_all: self.duration_bonus(
                        base.extra_condition_durations_all,
                    ),
                    extra_condition_durations: if self.runes == Runes::Tormenting {
                        base.extra_condition_durations.insert(skills::TORMENT, torment->Some_0)
                    } else {
                        base.extra_condition_durations
                    },
                    ..base
                },
            )
        }
    }

    /// Whether the variant takes `sigil` out of a slot of the first weapon
    /// set of `base`.
    pub open spec fn gives_up_in_set_1(self, base: BuildView, sigil: Sigil) -> bool {
        self.sigil_11.gives_up(base.set_1_sigils[0], sigil) || self.sigil_12.gives_up(
            base.set_1_sigils[1],
            sigil,
        )
    }

    /// Whether the variant takes `sigil` out of a slot of the second weapon
    /// set of `base`.
    pub open spec fn gives_up_in_set_2(self, base: BuildView, sigil: Sigil) -> bool {
        self.sigil_21.gives_up(base.set_2_sigils[0], sigil) || self.sigil_22.gives_up(
            base.set_2_sigils[1],
            sigil,
        )
    }

    /// The sources that a replay of the variant leaves out: the sigil of
    /// doom and the rune of geomancy where the variant gives them up in
    /// either weapon set, and the sigil of earth for each weapon set in which
    /// it gives it up.
    pub open spec fn exclusions(self, base: BuildView) -> Exclusions {
        Exclusions {
            doom: self.gives_up_in_set_1(base, Sigil::Doom) || self.gives_up_in_set_2(
                base,
                Sigil::Doom,
            ),
            geomancy: self.gives_up_in_set_1(base, Sigil::Geomancy) || self.gives_up_in_set_2(
                base,
                Sigil::Geomancy,
            ),
            earth_1: self.gives_up_in_set_1(base, Sigil::Earth),
            earth_2: self.gives_up_in_set_2(base, Sigil::Earth),
        }
    }
}

impl SigilChoice {
    /// The sigil that the slot holds after the choice, where it held `old`.
    pub fn apply_to(&self, old: Sigil) -> (r: Sigil)
        ensures
            r == self.applied_to(old),
    {
        match self {
            SigilChoice::Keep => old,
            SigilChoice::Bursting => Sigil::Bursting,
            SigilChoice::Demons => Sigil::Demons,
            SigilChoice::Malice => Sigil::Malice,
        }
    }

    /// Whether the choice takes `sigil` out of a slot that held `old`.
    pub fn takes_out(&self, old: Sigil, sigil: Sigil) -> (r: bool)
        ensures
            r == self.gives_up(old, sigil),
    {
        *self != SigilChoice::Keep && old == sigil
    }
}

/// A stat and what a variant adds to it.
fn shift(stat: u32, delta: i64) -> (r: Option<u32>)
    requires
        -1_000 <= delta <= 1_000,
    ensures
        r == shifted(stat, delta as int),
{
    let sum: i64 = stat as i64 + delta;
    if 0 <= sum && sum <= u32::MAX as i64 {
        Some(sum as u32)
    } else {
        None
    }
}

impl Variant {
    /// The build that the variant makes of `base`, and the sources that a
    /// replay of it leaves out.
    pub fn apply(&self, base: &PlayerStats) -> (r: Option<(PlayerStats, Exclusions)>)
        requires
            self.is_valid(),
        ensures
            match r {
                Some((stats, exclusions)) => self.build(base@) == Some(stats@) && exclusions
                    == self.exclusions(base@),
                None => self.build(base@) is None,
            },
    {
        broadcast use vstd::std_specs::hash::group_hash_axioms;

        let chest = self.chestplate_sinister;
        let infusions: i64 = (INFUSION_POINTS * self.expertise_infusions) as i64;
        let (rune_power, rune_precision, rune_all, rune_condition, rune_expertise): (
            i64,
            i64,
            i64,
            i64,
            i64,
        ) = match self.runes {
            Runes::Tempest => (36, 36, 36, -139, 36),
            Runes::TrapperWithBlackDiamond => (17, 9, 0, 17, 9),
            Runes::TrapperWith25CondiDamage => (0, 0, 0, 25, 0),
            _ => (0, 0, 0, 0, 0),
        };
        let power = shift(base.power, if chest { 34 + rune_power } else { rune_power });
        let precision = shift(
            base.precision,
            if chest { 34 + rune_precision } else { rune_precision },
        );
        let ferocity = shift(base.ferocity, rune_all);
        let condition_damage = shift(
            base.condition_damage,
            if chest { 20 - infusions + rune_condition } else { rune_condition - infusions },
        );
        let expertise = shift(
            base.expertise,
            if chest { infusions + rune_expertise - 67 } else { infusions + rune_expertise },
        );
        let concentration = shift(base.concentration, rune_all);
        let torment_so_far: u32 = match base.extra_condition_durations.get(&skills::TORMENT) {
            Some(bonus) => *bonus,
            None => 0,
        };
        let torment = shift(torment_so_far, if self.runes == Runes::Tormenting { 50 } else { 0 });
        match (power, precision, ferocity, condition_damage, expertise, concentration, torment) {
            (
                Some(power),
                Some(precision),
                Some(ferocity),
                Some(condition_damage),
                Some(expertise),
                Some(concentration),
                Some(torment),
            ) => {
                let mut durations = base.extra_condition_durations.clone();
                if self.runes == Runes::Tormenting {
                    durations.insert(skills::TORMENT, torment);
                }
                let set_1_sigils = [
                    self.sigil_11.apply_to(base.set_1_sigils[0]),
                    self.sigil_12.apply_to(base.set_1_sigils[1]),
                ];
                let set_2_sigils = [
                    self.sigil_21.apply_to(base.set_2_sigils[0]),
                    self.sigil_22.apply_to(base.set_2_sigils[1]),
                ];
                let stats = PlayerStats {
                    power,
                    precision,
                    ferocity,
                    condition_damage,
                    expertise,
                    concentration,
                    set_1_sigils,
                    set_2_sigils,
                    extra_condition_durations_all: match self.runes {
                        Runes::Nightmare => base.extra_condition_durations_all,
                        Runes::Tormenting => 0,
                        Runes::Tempest => 25,
                        Runes::TrapperWithBlackDiamond => 15,
                        Runes::TrapperWith25CondiDamage => 15,
                    },
                    extra_condition_durations: durations,
                    extra_condition_durations_under_buff: base.extra_condition_durations_under_buff.clone(),
                    extra_condition_damages: base.extra_condition_damages.clone(),
                    weapon_set: base.weapon_set,
                    weapon_set_types: [base.weapon_set_types[0], base.weapon_set_types[1]],
                };
                let first = &base.set_1_sigils;
                let second = &base.set_2_sigils;
                let exclusions = Exclusions {
                    doom: self.sigil_11.takes_out(first[0], Sigil::Doom) || self.sigil_12.takes_out(
                        first[1],
                        Sigil::Doom,
                    ) || self.sigil_21.takes_out(second[0], Sigil::Doom)
                        || self.sigil_22.takes_out(second[1], Sigil::Doom),
                    geomancy: self.sigil_11.takes_out(first[0], Sigil::Geomancy)
                        || self.sigil_12.takes_out(first[1], Sigil::Geomancy)
                        || self.sigil_21.takes_out(second[0], Sigil::Geomancy)
                        || self.sigil_22.takes_out(second[1], Sigil::Geomancy),
                    earth_1: self.sigil_11.takes_out(first[0], Sigil::Earth)
                        || self.sigil_12.takes_out(first[1], Sigil::Earth),
                    earth_2: self.sigil_21.takes_out(second[0], Sigil::Earth)
                        || self.sigil_22.takes_out(second[1], Sigil::Earth),
                };
                assert(stats@.set_1_sigils =~= self.build(base@)->Some_0.set_1_sigils);
                assert(stats@.set_2_sigils =~= self.build(base@)->Some_0.set_2_sigils);
                assert(stats@.weapon_set_types =~= base@.weapon_set_types);
                Some((stats, exclusions))
            },
            _ => None,
        }
    }
}

/// Why a sweep stopped.
#[derive(PartialEq, Eq, Structural, Clone, Copy, Debug)]
pub enum SweepError {
    /// A figure of the variant's build leaves the range of 32 bits.
    StatOutOfRange,
    /// The replay of the variant's build failed.
    Replay(SimError),
}

/// What one variant deals.
pub struct Candidate {
    pub variant: Variant,
    pub damage: DamageDistribution,
}

/// What the variant `v` of `base` deals against `events`.
pub open spec fn candidate_outcome(
    base: BuildView,
    v: Variant,
    events: Seq<SimulationEvent>,
    enemy_max_health: u64,
) -> Result<DamageView, SweepError> {
    match v.build(base) {
        None => Err(SweepError::StatOutOfRange),
        Some(build) => match after_events(
            build,
            enemy_max_health,
            v.exclusions(base),
            initial_state(build),
            events,
        ) {
            Ok(s) => Ok(s.damage),
            Err(e) => Err(SweepError::Replay(e)),
        },
    }
}

/// Replays `events` under one variant of `base`.
pub fn try_variant(
    base: &PlayerStats,
    variant: &Variant,
    events: &[SimulationEvent],
    skills: &[EvtcSkill],
    enemy_max_health: u64,
) -> (r: Result<Candidate, SweepError>)
    requires
        variant.is_valid(),
    ensures
        match r {
            Ok(c) => c.variant == *variant && candidate_outcome(
                base@,
                *variant,
                events@,
                enemy_max_health,
            ) == Ok::<_, SweepError>(c.damage@),
            Err(e) => candidate_outcome(base@, *variant, events@, enemy_max_health) == Err::<
                DamageView,
                _,
            >(e),
        },
{
    match variant.apply(base) {
        None => Err(SweepError::StatOutOfRange),
        Some((stats, exclusions)) => match sim(
            stats,
            events,
            skills,
            enemy_max_health,
            exclusions.doom,
            exclusions.geomancy,
            exclusions.earth_1,
            exclusions.earth_2,
        ) {
            Ok(damage) => Ok(Candidate { variant: *variant, damage }),
            Err(e) => Err(SweepError::Replay(e)),
        },
    }
}

/// The variant at which a sweep stopped, and why.
#[derive(PartialEq, Eq, Structural, Clone, Copy, Debug)]
pub struct SweepFailure {
    pub index: usize,
    pub cause: SweepError,
}

/// Replays `events` under each of `variants` of `base`, in their order. The
/// first variant that fails stops the sweep: what the others deal is of use
/// only where all can be compared.
pub fn explore(
    base: &PlayerStats,
    variants: &Vec<Variant>,
    events: &[SimulationEvent],
    skills: &[EvtcSkill],
    enemy_max_health: u64,
) -> (r: Result<Vec<Candidate>, SweepFailure>)
    requires
        forall|i: int| 0 <= i < variants@.len() ==> (#[trigger] variants@[i]).is_valid(),
    ensures
        match r {
            Ok(candidates) => {
                &&& candidates@.len() == variants@.len()
                &&& forall|i: int|
                    0 <= i < candidates@.len() ==> (#[trigger] candidates@[i]).variant
                        == variants@[i] && candidate_outcome(
                        base@,
                        variants@[i],
                        events@,
                        enemy_max_health,
                    ) == Ok::<_, SweepError>(candidates@[i].damage@)
            },
            Err(failure) => {
                &&& failure.index < variants@.len()
                &&& candidate_outcome(
                    base@,
                    variants@[failure.index as int],
                    events@,
                    enemy_max_health,
                ) == Err::<DamageView, _>(failure.cause)
                &&& forall|i: int|
                    0 <= i < failure.index ==> candidate_outcome(
                        base@,
                        #[trigger] variants@[i],
                        events@,
                        enemy_max_health,
                    ) is Ok
            },
        },
{
    let mut candidates: Vec<Candidate> = Vec::new();
    let mut k: usize = 0;
    while k < variants.len()
        invariant
            k <= variants@.len(),
            candidates@.len() == k,
            forall|i: int| 0 <= i < variants@.len() ==> (#[trigger] variants@[i]).is_valid(),
            forall|i: int|
                0 <= i < k ==> (#[trigger] candidates@[i]).variant == variants@[i]
                    && candidate_outcome(base@, variants@[i], events@, enemy_max_health) == Ok::<
                    _,
                    SweepError,
                >(candidates@[i].damage@),
            forall|i: int|
                0 <= i < k ==> candidate_outcome(
                    base@,
                    #[trigger] variants@[i],
                    events@,
                    enemy_max_health,
                ) is Ok,
        decreases variants@.len() - k,
    {
        match try_variant(base, &variants[k], events, skills, enemy_max_health) {
            Ok(candidate) => {
                candidates.push(candidate);
            },
            Err(cause) => {
                return Err(SweepFailure { index: k, cause });
            },
        }
        k += 1;
    }
    Ok(candidates)
}

} // verus!
