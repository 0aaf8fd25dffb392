//! Decoding of the binary log container.
//!
//! A log is a header of 16 bytes, a counted list of agents of 96 bytes each,
//! a counted list of skills of 68 bytes each, and combat records of 64 bytes
//! each up to the end. Numbers are little-endian. Names are UTF-8, padded
//! with zero bytes.

use crate::evtc::{EvtcAgent, EvtcCombatItem, EvtcLog, EvtcSkill};
use vstd::prelude::*;
use vstd::slice::slice_subrange;
use vstd::utf8::{decode_utf8, valid_utf8};

verus! {

/// Why a log could not be decoded.
#[derive(PartialEq, Eq, Structural, Clone, Copy, Debug)]
pub enum ParseError {
    /// The bytes end before the log does.
    Truncated,
    /// The log is of a revision other than the first.
    UnsupportedRevision,
}

/// The number that `bytes` spell, least significant byte first.
pub open spec fn le_nat(bytes: Seq<u8>) -> nat
    decreases bytes.len(),
{
    if bytes.len() == 0 {
        0
    } else {
        bytes[0] as nat + 256 * le_nat(bytes.skip(1))
    }
}

/// The number that the `width` bytes of `input` from `at` on spell.
pub open spec fn le_at(input: Seq<u8>, at: int, width: int) -> nat {
    le_nat(input.subrange(at, at + width))
}

/// The number that a two's complement reading of `bits` bits gives to `v`.
pub open spec fn signed(v: nat, bits: nat) -> int {
    if v >= vstd::arithmetic::power2::pow2((bits - 1) as nat) {
        v - vstd::arithmetic::power2::pow2(bits)
    } else {
        v as int
    }
}

/// `nom::number::complete::u8`: the first byte, if there is one.
#[verifier::external_body]
fn nom_u8(i: &[u8]) -> (r: Option<u8>)
    ensures
        r == if i@.len() < 1 {
            None
        } else {
            Some(i@[0])
        },
{
    nom::number::complete::u8::<&[u8], nom::error::Error<&[u8]>>(i).ok().map(|found| found.1)
}

/// `nom::number::complete::le_u16`: the number that the first two bytes
/// spell, least significant byte first, if there are two.
#[verifier::external_body]
fn nom_le_u16(i: &[u8]) -> (r: Option<u16>)
    ensures
        i@.len() < 2 ==> r is None,
        i@.len() >= 2 ==> r is Some && r->Some_0 == le_nat(i@.take(2)),
{
    nom::number::complete::le_u16::<&[u8], nom::error::Error<&[u8]>>(i).ok().map(|found| found.1)
}

/// `nom::number::complete::le_u32`: the number that the first four bytes
/// spell, least significant byte first, if there are four.
#[verifier::external_body]
fn nom_le_u32(i: &[u8]) -> (r: Option<u32>)
    ensures
        i@.len() < 4 ==> r is None,
        i@.len() >= 4 ==> r is Some && r->Some_0 == le_nat(i@.take(4)),
{
    nom::number::complete::le_u32::<&[u8], nom::error::Error<&[u8]>>(i).ok().map(|found| found.1)
}

/// `nom::number::complete::le_u64`: the number that the first eight bytes
/// spell, least significant byte first, if there are eight.
#[verifier::external_body]
fn nom_le_u64(i: &[u8]) -> (r: Option<u64>)
    ensures
        i@.len() < 8 ==> r is None,
        i@.len() >= 8 ==> r is Some && r->Some_0 == le_nat(i@.take(8)),
{
    nom::number::complete::le_u64::<&[u8], nom::error::Error<&[u8]>>(i).ok().map(|found| found.1)
}

/// `nom::number::complete::le_i16`: the two's complement reading of the
/// number that the first two bytes spell, if there are two.
#[verifier::external_body]
fn nom_le_i16(i: &[u8]) -> (r: Option<i16>)
    ensures
        i@.len() < 2 ==> r is None,
        i@.len() >= 2 ==> r is Some && r->Some_0 == signed(le_nat(i@.take(2)), 16),
{
    nom::number::complete::le_i16::<&[u8], nom::error::Error<&[u8]>>(i).ok().map(|found| found.1)
}

/// `nom::number::complete::le_i32`: the two's complement reading of the
/// number that the first four bytes spell, if there are four.
#[verifier::external_body]
fn nom_le_i32(i: &[u8]) -> (r: Option<i32>)
    ensures
        i@.len() < 4 ==> r is None,
        i@.len() >= 4 ==> r is Some && r->Some_0 == signed(le_nat(i@.take(4)), 32),
{
    nom::number::complete::le_i32::<&[u8], nom::error::Error<&[u8]>>(i).ok().map(|found| found.1)
}

/// `nom::number::complete::le_i64`: the two's complement reading of the
/// number that the first eight bytes spell, if there are eight.
#[verifier::external_body]
fn nom_le_i64(i: &[u8]) -> (r: Option<i64>)
    ensures
        i@.len() < 8 ==> r is None,
        i@.len() >= 8 ==> r is Some && r->Some_0 == signed(le_nat(i@.take(8)), 64),
{
    nom::number::complete::le_i64::<&[u8], nom::error::Error<&[u8]>>(i).ok().map(|found| found.1)
}

/// `nom::bytes::complete::take`: the first `count` bytes, if there are as
/// many.
#[verifier::external_body]
fn nom_take(i: &[u8], count: usize) -> (r: Option<&[u8]>)
    ensures
        i@.len() < count ==> r is None,
        i@.len() >= count ==> r is Some && r->Some_0@ == i@.take(count as int),
{
    nom::bytes::complete::take::<usize, &[u8], nom::error::Error<&[u8]>>(count)(i).ok().map(
        |found| found.1,
    )
}

/// `String::from_utf8` on a copy of the bytes: the text that they encode,
/// if they are UTF-8.
#[verifier::external_body]
fn text_of(bytes: &[u8]) -> (r: Option<String>)
    ensures
        !valid_utf8(bytes@) ==> r is None,
        valid_utf8(bytes@) ==> r is Some && r->Some_0@ == decode_utf8(bytes@),
{
    String::from_utf8(bytes.to_vec()).ok()
}

fn read_u8(input: &[u8], at: usize) -> (r: u8)
    requires
        at + 1 <= input.len(),
    ensures
        r == input@[at as int],
{
    let rest = slice_subrange(input, at, input.len());
    nom_u8(rest).unwrap()
}

fn read_u16(input: &[u8], at: usize) -> (r: u16)
    requires
        at + 2 <= input.len(),
    ensures
        r == le_at(input@, at as int, 2),
{
    let rest = slice_subrange(input, at, input.len());
    assert(rest@.take(2) =~= input@.subrange(at as int, at + 2));
    nom_le_u16(rest).unwrap()
}

fn read_u32(input: &[u8], at: usize) -> (r: u32)
    requires
        at + 4 <= input.len(),
    ensures
        r == le_at(input@, at as int, 4),
{
    let rest = slice_subrange(input, at, input.len());
    assert(rest@.take(4) =~= input@.subrange(at as int, at + 4));
    nom_le_u32(rest).unwrap()
}

fn read_u64(input: &[u8], at: usize) -> (r: u64)
    requires
        at + 8 <= input.len(),
    ensures
        r == le_at(input@, at as int, 8),
{
    let rest = slice_subrange(input, at, input.len());
    assert(rest@.take(8) =~= input@.subrange(at as int, at + 8));
    nom_le_u64(rest).unwrap()
}

fn read_i16(input: &[u8], at: usize) -> (r: i16)
    requires
        at + 2 <= input.len(),
    ensures
        r == signed(le_at(input@, at as int, 2), 16),
{
    let rest = slice_subrange(input, at, input.len());
    assert(rest@.take(2) =~= input@.subrange(at as int, at + 2));
    nom_le_i16(rest).unwrap()
}

fn read_i32(input: &[u8], at: usize) -> (r: i32)
    requires
        at + 4 <= input.len(),
    ensures
        r == signed(le_at(input@, at as int, 4), 32),
{
    let rest = slice_subrange(input, at, input.len());
    assert(rest@.take(4) =~= input@.subrange(at as int, at + 4));
    nom_le_i32(rest).unwrap()
}

fn read_i64(input: &[u8], at: usize) -> (r: i64)
    requires
        at + 8 <= input.len(),
    ensures
        r == signed(le_at(input@, at as int, 8), 64),
{
    let rest = slice_subrange(input, at, input.len());
    assert(rest@.take(8) =~= input@.subrange(at as int, at + 8));
    nom_le_i64(rest).unwrap()
}

fn read_bytes(input: &[u8], at: usize, count: usize) -> (r: &[u8])
    requires
        at + count <= input.len(),
    ensures
        r@ == input@.subrange(at as int, at + count),
{
    let rest = slice_subrange(input, at, input.len());
    assert(rest@.take(count as int) =~= input@.subrange(at as int, at + count));
    nom_take(rest, count).unwrap()
}

/// The position of the first byte from `k` on that is not zero, or the
/// length where all are zero.
pub open spec fn first_nonzero(bytes: Seq<u8>, k: int) -> int
    decreases bytes.len() - k,
{
    if 0 <= k < bytes.len() && bytes[k] == 0 {
        first_nonzero(bytes, k + 1)
    } else {
        k
    }
}

/// The position behind the last byte before `k` that is not zero, or `lo`
/// where all from `lo` on are zero.
pub open spec fn end_nonzero(bytes: Seq<u8>, lo: int, k: int) -> int
    decreases k - lo,
{
    if lo < k <= bytes.len() && bytes[k - 1] == 0 {
        end_nonzero(bytes, lo, k - 1)
    } else {
        k
    }
}

/// `bytes` without the zero bytes at its start and at its end.
pub open spec fn unpadded(bytes: Seq<u8>) -> Seq<u8> {
    bytes.subrange(
        first_nonzero(bytes, 0),
        end_nonzero(bytes, first_nonzero(bytes, 0), bytes.len() as int),
    )
}

/// The text of a padded field: what its bytes without the padding encode,
/// or `fallback` where that is no UTF-8.
pub open spec fn arc_string(bytes: Seq<u8>, fallback: Seq<char>) -> Seq<char> {
    if valid_utf8(unpadded(bytes)) {
        decode_utf8(unpadded(bytes))
    } else {
        fallback
    }
}

/// The text of a padded field.
fn parse_arc_string(bytes: &[u8], fallback: &str) -> (r: String)
    ensures
        r@ == arc_string(bytes@, fallback@),
{
    let len = bytes.len();
    let mut lo: usize = 0;
    while lo < len && bytes[lo] == 0
        invariant
            lo <= len == bytes@.len(),
            first_nonzero(bytes@, lo as int) == first_nonzero(bytes@, 0),
        decreases len - lo,
    {
        lo += 1;
    }
    let mut hi: usize = len;
    while hi > lo && bytes[hi - 1] == 0
        invariant
            lo <= hi <= len == bytes@.len(),
            end_nonzero(bytes@, lo as int, hi as int) == end_nonzero(
                bytes@,
                lo as int,
                len as int,
            ),
        decreases hi,
    {
        hi -= 1;
    }
    match text_of(slice_subrange(bytes, lo, hi)) {
        Some(text) => text,
        None => fallback.to_owned(),
    }
}

/// The mathematical content of an [`EvtcAgent`].
pub struct AgentView {
    pub address: u64,
    pub profession: u32,
    pub is_elite: u32,
    pub toughness: i16,
    pub concentration: i16,
    pub healing: i16,
    pub condition: i16,
    pub hitbox_width: i16,
    pub hitbox_height: i16,
    pub name: Seq<char>,
}

impl View for EvtcAgent {
    type V = AgentView;

    open spec fn view(&self) -> AgentView {
        AgentView {
            address: self.address,
            profession: self.profession,
            is_elite: self.is_elite,
            toughness: self.toughness,
            concentration: self.concentration,
            healing: self.healing,
            condition: self.condition,
            hitbox_width: self.hitbox_width,
            hitbox_height: self.hitbox_height,
            name: self.name@,
        }
    }
}

/// The mathematical content of an [`EvtcSkill`].
pub struct SkillView {
    pub id: i32,
    pub name: Seq<char>,
}

impl View for EvtcSkill {
    type V = SkillView;

    open spec fn view(&self) -> SkillView {
        SkillView { id: self.id, name: self.name@ }
    }
}

/// The mathematical content of an [`EvtcLog`].
pub struct LogView {
    pub version: Seq<char>,
    pub revision: u8,
    pub boss_species_id: u16,
    pub agents: Seq<AgentView>,
    pub skills: Seq<SkillView>,
    pub combat_items: Seq<EvtcCombatItem>,
}

impl View for EvtcLog {
    type V = LogView;

    open spec fn view(&self) -> LogView {
        LogView {
            version: self.version@,
            revision: self.revision,
            boss_species_id: self.boss_species_id,
            agents: self.agents@.map_values(|a: EvtcAgent| a@),
            skills: self.skills@.map_values(|s: EvtcSkill| s@),
            combat_items: self.combat_items@,
        }
    }
}

/// The bytes of one agent.
pub const AGENT_SIZE: usize = 96;

/// The bytes of one skill.
pub const SKILL_SIZE: usize = 68;

/// The bytes of one combat record.
pub const COMBAT_ITEM_SIZE: usize = 64;

/// The bytes of the header.
pub const HEADER_SIZE: usize = 16;

/// The text that stands for a name that is no UTF-8.
pub open spec fn invalid_name() -> Seq<char> {
    "Invalid UTF-8 in name"@
}

/// The agent that the 96 bytes from `at` on hold.
pub open spec fn agent_at(input: Seq<u8>, at: int) -> AgentView {
    AgentView {
        address: le_at(input, at, 8) as u64,
        profession: le_at(input, at + 8, 4) as u32,
        is_elite: le_at(input, at + 12, 4) as u32,
        toughness: signed(le_at(input, at + 16, 2), 16) as i16,
        concentration: signed(le_at(input, at + 18, 2), 16) as i16,
        healing: signed(le_at(input, at + 20, 2), 16) as i16,
        condition: signed(le_at(input, at + 22, 2), 16) as i16,
        hitbox_width: signed(le_at(input, at + 24, 2), 16) as i16,
        hitbox_height: signed(le_at(input, at + 26, 2), 16) as i16,
        name: arc_string(input.subrange(at + 28, at + 96), invalid_name()),
    }
}

/// The skill that the 68 bytes from `at` on hold.
pub open spec fn skill_at(input: Seq<u8>, at: int) -> SkillView {
    SkillView {
        id: signed(le_at(input, at, 4), 32) as i32,
        name: arc_string(input.subrange(at + 4, at + 68), invalid_name()),
    }
}

/// The combat record that the 64 bytes from `at` on hold.
pub open spec fn combat_item_at(input: Seq<u8>, at: int) -> EvtcCombatItem {
    EvtcCombatItem {
        time: signed(le_at(input, at, 8), 64) as i64,
        src_agent: le_at(input, at + 8, 8) as u64,
        dst_agent: le_at(input, at + 16, 8) as u64,
        value: signed(le_at(input, at + 24, 4), 32) as i32,
        buff_dmg: signed(le_at(input, at + 28, 4), 32) as i32,
        overstack_value: le_at(input, at + 32, 4) as u32,
        skill_id: le_at(input, at + 36, 4) as u32,
        src_inst_id: le_at(input, at + 40, 2) as u16,
        dst_inst_id: le_at(input, at + 42, 2) as u16,
        src_master_inst_id: le_at(input, at + 44, 2) as u16,
        dst_master_inst_id: le_at(input, at + 46, 2) as u16,
        iff: input[at + 48],
        is_buff: input[at + 49],
        result: input[at + 50],
        is_activation: input[at + 51],
        is_buff_remove: input[at + 52],
        is_ninety: input[at + 53],
        is_fifty: input[at + 54],
        is_moving: input[at + 55],
        is_state_change: input[at + 56],
        is_flanking: input[at + 57],
        is_shields: input[at + 58],
        is_offcycle: input[at + 59],
        padding: le_at(input, at + 60, 4) as u32,
    }
}

fn parse_agent(input: &[u8], at: usize) -> (r: EvtcAgent)
    requires
        at + 96 <= input.len(),
    ensures
        r@ == agent_at(input@, at as int),
{
    let address = read_u64(input, at);
    let profession = read_u32(input, at + 8);
    let is_elite = read_u32(input, at + 12);
    let toughness = read_i16(input, at + 16);
    let concentration = read_i16(input, at + 18);
    let healing = read_i16(input, at + 20);
    let condition = read_i16(input, at + 22);
    let hitbox_width = read_i16(input, at + 24);
    let hitbox_height = read_i16(input, at + 26);
    let name_bytes = read_bytes(input, at + 28, 68);
    EvtcAgent {
        address,
        profession,
        is_elite,
        toughness,
        concentration,
        healing,
        condition,
        hitbox_width,
        hitbox_height,
        name: parse_arc_string(name_bytes, "Invalid UTF-8 in name"),
    }
}

fn parse_skill(input: &[u8], at: usize) -> (r: EvtcSkill)
    requires
        at + 68 <= input.len(),
    ensures
        r@ == skill_at(input@, at as int),
{
    let id = read_i32(input, at);
    let name_bytes = read_bytes(input, at + 4, 64);
    EvtcSkill { id, name: parse_arc_string(name_bytes, "Invalid UTF-8 in name") }
}

fn parse_combat_item(input: &[u8], at: usize) -> (r: EvtcCombatItem)
    requires
        at + 64 <= input.len(),
    ensures
        r == combat_item_at(input@, at as int),
{
    EvtcCombatItem {
        time: read_i64(input, at),
        src_agent: read_u64(input, at + 8),
        dst_agent: read_u64(input, at + 16),
        value: read_i32(input, at + 24),
        buff_dmg: read_i32(input, at + 28),
        overstack_value: read_u32(input, at + 32),
        skill_id: read_u32(input, at + 36),
        src_inst_id: read_u16(input, at + 40),
        dst_inst_id: read_u16(input, at + 42),
        src_master_inst_id: read_u16(input, at + 44),
        dst_master_inst_id: read_u16(input, at + 46),
        iff: read_u8(input, at + 48),
        is_buff: read_u8(input, at + 49),
        result: read_u8(input, at + 50),
        is_activation: read_u8(input, at + 51),
        is_buff_remove: read_u8(input, at + 52),
        is_ninety: read_u8(input, at + 53),
        is_fifty: read_u8(input, at + 54),
        is_moving: read_u8(input, at + 55),
        is_state_change: read_u8(input, at + 56),
        is_flanking: read_u8(input, at + 57),
        is_shields: read_u8(input, at + 58),
        is_offcycle: read_u8(input, at + 59),
        padding: read_u32(input, at + 60),
    }
}

/// The text that stands for a version that is no UTF-8.
pub open spec fn invalid_version() -> Seq<char> {
    "???"@
}

/// The log that `input` holds.
///
/// The header is the version in 12 bytes, the revision in one, the species
/// of the boss in two, and a byte that is not used. The count of agents and
/// the agents follow, then the count of skills and the skills. What is left
/// is combat records; bytes behind the last whole record are passed over.
pub open spec fn parsed_log(input: Seq<u8>) -> Result<LogView, ParseError> {
    let agent_count = signed(le_at(input, 16, 4), 32);
    let skills_at = 20 + 96 * agent_count;
    let skill_count = signed(le_at(input, skills_at, 4), 32);
    let items_at = skills_at + 4 + 68 * skill_count;
    if input.len() < 13 {
        Err(ParseError::Truncated)
    } else if input[12] != 1 {
        Err(ParseError::UnsupportedRevision)
    } else if input.len() < 20 || agent_count < 0 || input.len() < skills_at + 4 || skill_count
        < 0 || input.len() < items_at {
        Err(ParseError::Truncated)
    } else {
        Ok(
            LogView {
                version: arc_string(input.subrange(0, 12), invalid_version()),
                revision: 1,
                boss_species_id: le_at(input, 13, 2) as u16,
                agents: Seq::new(agent_count as nat, |k: int| agent_at(input, 20 + 96 * k)),
                skills: Seq::new(
                    skill_count as nat,
                    |k: int| skill_at(input, skills_at + 4 + 68 * k),
                ),
                combat_items: Seq::new(
                    ((input.len() - items_at) / 64) as nat,
                    |k: int| combat_item_at(input, items_at + 64 * k),
                ),
            },
        )
    }
}

/// The position behind `count` records of `size` bytes from `at` on, where
/// `input` holds as many.
fn end_of_records(input: &[u8], at: usize, count: i32, size: u64) -> (r: Option<usize>)
    requires
        at <= input.len(),
        size <= 96,
    ensures
        r == if count < 0 || input.len() < at + size * count {
            None
        } else {
            Some((at + size * count) as usize)
        },
{
    if count < 0 {
        return None;
    }
    assert(size * count <= 96 * 0x7fff_ffff) by (nonlinear_arith)
        requires
            0 <= count <= 0x7fff_ffff,
            0 <= size <= 96,
    ;
    let needed: u64 = size * count as u64;
    if needed > (input.len() - at) as u64 {
        None
    } else {
        Some(at + needed as usize)
    }
}

/// Decodes a log.
pub fn evtc_parser(input: &[u8]) -> (r: Result<EvtcLog, ParseError>)
    ensures
        match r {
            Ok(log) => parsed_log(input@) == Ok::<_, ParseError>(log@),
            Err(e) => parsed_log(input@) == Err::<LogView, _>(e),
        },
{
    let len = input.len();
    if len < 13 {
        return Err(ParseError::Truncated);
    }
    let version = parse_arc_string(read_bytes(input, 0, 12), "???");
    let revision = read_u8(input, 12);
    if revision != 1 {
        return Err(ParseError::UnsupportedRevision);
    }
    if len < 20 {
        return Err(ParseError::Truncated);
    }
    let boss_species_id = read_u16(input, 13);
    let agent_count = read_i32(input, 16);
    let skills_at = match end_of_records(input, 20, agent_count, 96) {
        Some(end) => end,
        None => {
            return Err(ParseError::Truncated);
        },
    };
    if len - skills_at < 4 {
        return Err(ParseError::Truncated);
    }
    let skill_count = read_i32(input, skills_at);
    let items_at = match end_of_records(input, skills_at + 4, skill_count, 68) {
        Some(end) => end,
        None => {
            return Err(ParseError::Truncated);
        },
    };
    let mut agents: Vec<EvtcAgent> = Vec::new();
    let mut k: usize = 0;
    while k < agent_count as usize
        invariant
            0 <= agent_count,
            k <= agent_count,
            20 + 96 * agent_count <= input.len(),
            agents@.map_values(|a: EvtcAgent| a@) =~= Seq::new(
                k as nat,
                |j: int| agent_at(input@, 20 + 96 * j),
            ),
        decreases agent_count - k,
    {
        let agent = parse_agent(input, 20 + 96 * k);
        let ghost before = agents@;
        agents.push(agent);
        assert(agents@.map_values(|a: EvtcAgent| a@) =~= before.map_values(
            |a: EvtcAgent| a@,
        ).push(agent@));
        k += 1;
    }
    let mut skills: Vec<EvtcSkill> = Vec::new();
    let mut k: usize = 0;
    while k < skill_count as usize
        invariant
            0 <= skill_count,
            k <= skill_count,
            skills_at + 4 + 68 * skill_count <= input.len(),
            skills@.map_values(|s: EvtcSkill| s@) =~= Seq::new(
                k as nat,
                |j: int| skill_at(input@, skills_at + 4 + 68 * j),
            ),
        decreases skill_count - k,
    {
        let skill = parse_skill(input, skills_at + 4 + 68 * k);
        let ghost before = skills@;
        skills.push(skill);
        assert(skills@.map_values(|s: EvtcSkill| s@) =~= before.map_values(
            |s: EvtcSkill| s@,
        ).push(skill@));
        k += 1;
    }
    let item_count = (len - items_at) / 64;
    let mut combat_items: Vec<EvtcCombatItem> = Vec::new();
    let mut k: usize = 0;
    while k < item_count
        invariant
            k <= item_count,
            items_at + 64 * item_count <= input.len(),
            combat_items@ =~= Seq::new(k as nat, |j: int| combat_item_at(input@, items_at + 64 * j)),
        decreases item_count - k,
    {
        let item = parse_combat_item(input, items_at + 64 * k);
        combat_items.push(item);
        k += 1;
    }
    Ok(EvtcLog { version, revision, boss_species_id, agents, skills, combat_items })
}

} // verus!
