//! The decoded form of a combat log: agents, skills and raw combat records.

use vstd::prelude::*;
use vstd::utf8::encode_utf8;

pub mod parsing;

verus! {

/// The value of `is_elite` that marks an agent that is not a player.
pub const NON_PLAYER_ELITE: u32 = 0xff_ff_ff_ff;

/// A decoded log.
pub struct EvtcLog {
    pub version: String,
    pub revision: u8,
    pub boss_species_id: u16,
    pub agents: Vec<EvtcAgent>,
    pub skills: Vec<EvtcSkill>,
    pub combat_items: Vec<EvtcCombatItem>,
}

/// One participant of the fight.
pub struct EvtcAgent {
    pub address: u64,
    pub profession: u32,
    pub is_elite: u32,
    pub toughness: i16,
    pub concentration: i16,
    pub healing: i16,
    pub condition: i16,
    pub hitbox_width: i16,
    pub hitbox_height: i16,
    pub name: String,
}

/// The name of a skill.
pub struct EvtcSkill {
    pub id: i32,
    pub name: String,
}

/// One raw combat record. What it stands for follows from its flags.
#[derive(Clone, Copy, Debug)]
pub struct EvtcCombatItem {
    pub time: i64,
    pub src_agent: u64,
    pub dst_agent: u64,
    pub value: i32,
    pub buff_dmg: i32,
    pub overstack_value: u32,
    pub skill_id: u32,
    pub src_inst_id: u16,
    pub dst_inst_id: u16,
    pub src_master_inst_id: u16,
    pub dst_master_inst_id: u16,
    pub iff: u8,
    pub is_buff: u8,
    pub result: u8,
    pub is_activation: u8,
    pub is_buff_remove: u8,
    pub is_ninety: u8,
    pub is_fifty: u8,
    pub is_moving: u8,
    pub is_state_change: u8,
    pub is_flanking: u8,
    pub is_shields: u8,
    pub is_offcycle: u8,
    pub padding: u32,
}

impl EvtcAgent {
    /// Whether the agent is a player: players alone carry a real elite
    /// specialisation in place of the sentinel.
    pub open spec fn spec_is_player(&self) -> bool {
        self.is_elite != NON_PLAYER_ELITE
    }

    #[verifier::when_used_as_spec(spec_is_player)]
    pub fn is_player(&self) -> (r: bool)
        ensures
            r == self.spec_is_player(),
    {
        self.is_elite != NON_PLAYER_ELITE
    }
}

impl EvtcCombatItem {
    /// A buff application: a buff record that carries a duration and no
    /// damage, and is neither a state change, an activation nor a removal.
    /// The state change that announces a buff present at the start of the log
    /// is not counted.
    pub open spec fn spec_is_buff_apply(&self) -> bool {
        &&& self.is_buff > 0
        &&& self.buff_dmg == 0
        &&& self.is_state_change == 0
        &&& self.is_activation == 0
        &&& self.is_buff_remove == 0
        &&& self.value != 0
    }

    #[verifier::when_used_as_spec(spec_is_buff_apply)]
    pub fn is_buff_apply(&self) -> (r: bool)
        ensures
            r == self.spec_is_buff_apply(),
    {
        self.is_buff > 0 && self.buff_dmg == 0 && self.is_state_change == 0
            && self.is_activation == 0 && self.is_buff_remove == 0 && self.value != 0
    }

    /// A physical hit: a record with none of the state-change, activation,
    /// buff-removal and buff flags set.
    pub open spec fn spec_is_physical_hit(&self) -> bool {
        &&& self.is_state_change == 0
        &&& self.is_activation == 0
        &&& self.is_buff_remove == 0
        &&& self.is_buff == 0
    }

    #[verifier::when_used_as_spec(spec_is_physical_hit)]
    pub fn is_physical_hit(&self) -> (r: bool)
        ensures
            r == self.spec_is_physical_hit(),
    {
        self.is_state_change == 0 && self.is_activation == 0 && self.is_buff_remove == 0
            && self.is_buff == 0
    }

    /// A buff removal: a buff record with a removal code that is neither a
    /// state change nor an activation.
    pub open spec fn spec_is_buff_remove(&self) -> bool {
        &&& self.is_state_change == 0
        &&& self.is_activation == 0
        &&& self.is_buff_remove > 0
        &&& self.is_buff > 0
    }

    #[verifier::when_used_as_spec(spec_is_buff_remove)]
    pub fn is_buff_remove(&self) -> (r: bool)
        ensures
            r == self.spec_is_buff_remove(),
    {
        self.is_state_change == 0 && self.is_activation == 0 && self.is_buff_remove > 0
            && self.is_buff > 0
    }

    /// Damage dealt by a buff: a buff record without a duration that is
    /// neither a state change, an activation nor a removal.
    pub open spec fn spec_is_buff_damage(&self) -> bool {
        &&& self.is_buff > 0
        &&& self.value == 0
        &&& self.is_state_change == 0
        &&& self.is_activation == 0
        &&& self.is_buff_remove == 0
    }

    #[verifier::when_used_as_spec(spec_is_buff_damage)]
    pub fn is_buff_damage(&self) -> (r: bool)
        ensures
            r == self.spec_is_buff_damage(),
    {
        self.is_buff > 0 && self.value == 0 && self.is_state_change == 0 && self.is_activation == 0
            && self.is_buff_remove == 0
    }
}

/// The position of the first zero byte from `k` on, or the length where
/// there is none.
pub open spec fn first_zero(bytes: Seq<u8>, k: int) -> int
    decreases bytes.len() - k,
{
    if 0 <= k < bytes.len() && bytes[k] != 0 {
        first_zero(bytes, k + 1)
    } else {
        k
    }
}

/// The name of the character in the bytes of an agent's name: what stands
/// before the first zero byte. The account and the subgroup follow it.
pub open spec fn character_name(bytes: Seq<u8>) -> Seq<u8> {
    bytes.take(first_zero(bytes, 0))
}

/// Whether `bytes`, the name of an agent, begin with the character name
/// `wanted`.
fn is_named(bytes: &[u8], wanted: &[u8]) -> (r: bool)
    ensures
        r == (character_name(bytes@) == wanted@),
{
    let len = bytes.len();
    let mut k: usize = 0;
    while k < len && bytes[k] != 0
        invariant
            k <= len == bytes@.len(),
            first_zero(bytes@, k as int) == first_zero(bytes@, 0),
        decreases len - k,
    {
        k += 1;
    }
    if k != wanted.len() {
        return false;
    }
    let mut j: usize = 0;
    while j < k
        invariant
            j <= k <= bytes@.len(),
            k == wanted@.len(),
            k == first_zero(bytes@, 0),
            forall|i: int| 0 <= i < j ==> bytes@[i] == wanted@[i],
        decreases k - j,
    {
        if bytes[j] != wanted[j] {
            assert(character_name(bytes@)[j as int] != wanted@[j as int]);
            return false;
        }
        j += 1;
    }
    assert(character_name(bytes@) =~= wanted@);
    true
}

impl EvtcLog {
    /// Whether agent `i` is the player whose character is called `name`.
    pub open spec fn is_player_named(&self, i: int, name: Seq<char>) -> bool {
        self.agents@[i].spec_is_player() && character_name(encode_utf8(self.agents@[i].name@))
            == encode_utf8(name)
    }

    /// Whether agent `i` is the boss: an agent that is no player and of the
    /// species that the log names.
    pub open spec fn is_boss(&self, i: int) -> bool {
        !self.agents@[i].spec_is_player() && self.agents@[i].profession == self.boss_species_id
    }

    /// The first player whose character is called `name`.
    pub fn find_player(&self, name: &str) -> (r: Option<usize>)
        ensures
            match r {
                Some(i) => {
                    &&& i < self.agents@.len()
                    &&& self.is_player_named(i as int, name@)
                    &&& forall|j: int| 0 <= j < i ==> !self.is_player_named(j, name@)
                },
                None => forall|j: int| 0 <= j < self.agents@.len() ==> !self.is_player_named(j, name@),
            },
    {
        let wanted = name.as_bytes();
        let mut k: usize = 0;
        while k < self.agents.len()
            invariant
                k <= self.agents@.len(),
                wanted@ == encode_utf8(name@),
                forall|j: int| 0 <= j < k ==> !self.is_player_named(j, name@),
            decreases self.agents@.len() - k,
        {
            let agent = &self.agents[k];
            if agent.is_player() && is_named(agent.name.as_str().as_bytes(), wanted) {
                return Some(k);
            }
            k += 1;
        }
        None
    }

    /// The first agent that is the boss.
    pub fn find_target(&self) -> (r: Option<usize>)
        ensures
            match r {
                Some(i) => {
                    &&& i < self.agents@.len()
                    &&& self.is_boss(i as int)
                    &&& forall|j: int| 0 <= j < i ==> !self.is_boss(j)
                },
                None => forall|j: int| 0 <= j < self.agents@.len() ==> !self.is_boss(j),
            },
    {
        let mut k: usize = 0;
        while k < self.agents.len()
            invariant
                k <= self.agents@.len(),
                forall|j: int| 0 <= j < k ==> !self.is_boss(j),
            decreases self.agents@.len() - k,
        {
            let agent = &self.agents[k];
            if !agent.is_player() && agent.profession == self.boss_species_id as u32 {
                return Some(k);
            }
            k += 1;
        }
        None
    }
}

} // verus!
