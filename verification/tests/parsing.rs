use combat_resim::evtc::parsing::{evtc_parser, ParseError};
use combat_resim::evtc::{EvtcAgent, EvtcLog};

fn padded(text: &[u8], len: usize) -> Vec<u8> {
    let mut bytes = text.to_vec();
    bytes.resize(len, 0);
    bytes
}

fn header(revision: u8) -> Vec<u8> {
    let mut bytes = padded(b"EVTC20210408", 12);
    bytes.push(revision);
    bytes.extend_from_slice(&0x3C4Eu16.to_le_bytes());
    bytes.push(0xAA);
    bytes
}

fn agent(address: u64, name: &[u8]) -> Vec<u8> {
    let mut bytes = Vec::new();
    bytes.extend_from_slice(&address.to_le_bytes());
    bytes.extend_from_slice(&0x0102_0304u32.to_le_bytes());
    bytes.extend_from_slice(&0xffff_ffffu32.to_le_bytes());
    bytes.extend_from_slice(&(-2i16).to_le_bytes());
    bytes.extend_from_slice(&3i16.to_le_bytes());
    bytes.extend_from_slice(&(-32768i16).to_le_bytes());
    bytes.extend_from_slice(&32767i16.to_le_bytes());
    bytes.extend_from_slice(&6i16.to_le_bytes());
    bytes.extend_from_slice(&7i16.to_le_bytes());
    bytes.extend_from_slice(&padded(name, 68));
    bytes
}

fn skill(id: i32, name: &[u8]) -> Vec<u8> {
    let mut bytes = Vec::new();
    bytes.extend_from_slice(&id.to_le_bytes());
    bytes.extend_from_slice(&padded(name, 64));
    bytes
}

fn combat_item(time: i64) -> Vec<u8> {
    let mut bytes = Vec::new();
    bytes.extend_from_slice(&time.to_le_bytes());
    bytes.extend_from_slice(&0x1122_3344_5566_7788u64.to_le_bytes());
    bytes.extend_from_slice(&u64::MAX.to_le_bytes());
    bytes.extend_from_slice(&(-5i32).to_le_bytes());
    bytes.extend_from_slice(&i32::MAX.to_le_bytes());
    bytes.extend_from_slice(&0xdead_beefu32.to_le_bytes());
    bytes.extend_from_slice(&19426u32.to_le_bytes());
    bytes.extend_from_slice(&0x0102u16.to_le_bytes());
    bytes.extend_from_slice(&0x0304u16.to_le_bytes());
    bytes.extend_from_slice(&0x0506u16.to_le_bytes());
    bytes.extend_from_slice(&0xfffeu16.to_le_bytes());
    bytes.extend_from_slice(&[10, 11, 12, 13, 14, 15, 16, 17, 18, 19, 20, 255]);
    bytes.extend_from_slice(&0x0a0b_0c0du32.to_le_bytes());
    bytes
}

fn whole_log() -> Vec<u8> {
    let mut bytes = header(1);
    bytes.extend_from_slice(&2i32.to_le_bytes());
    bytes.extend_from_slice(&agent(0xfedc_ba98_7654_3210, b"Name The Unnameable\0:account.1234\0"));
    bytes.extend_from_slice(&agent(2, "Kärt".as_bytes()));
    bytes.extend_from_slice(&1i32.to_le_bytes());
    bytes.extend_from_slice(&skill(-9, b"\0\0Torment"));
    bytes.extend_from_slice(&combat_item(-1));
    bytes.extend_from_slice(&combat_item(i64::MAX));
    bytes
}

#[test]
fn whole_log_is_decoded() {
    let log = evtc_parser(&whole_log()).unwrap();
    assert_eq!(log.version, "EVTC20210408");
    assert_eq!(log.revision, 1);
    assert_eq!(log.boss_species_id, 0x3C4E);

    assert_eq!(log.agents.len(), 2);
    let first = &log.agents[0];
    assert_eq!(first.address, 0xfedc_ba98_7654_3210);
    assert_eq!(first.profession, 0x0102_0304);
    assert_eq!(first.is_elite, 0xffff_ffff);
    assert_eq!(first.toughness, -2);
    assert_eq!(first.concentration, 3);
    assert_eq!(first.healing, -32768);
    assert_eq!(first.condition, 32767);
    assert_eq!(first.hitbox_width, 6);
    assert_eq!(first.hitbox_height, 7);
    assert_eq!(first.name, "Name The Unnameable\0:account.1234");
    assert!(!first.is_player());
    assert_eq!(log.agents[1].address, 2);
    assert_eq!(log.agents[1].name, "Kärt");

    assert_eq!(log.skills.len(), 1);
    assert_eq!(log.skills[0].id, -9);
    assert_eq!(log.skills[0].name, "Torment");

    assert_eq!(log.combat_items.len(), 2);
    let item = &log.combat_items[0];
    assert_eq!(item.time, -1);
    assert_eq!(item.src_agent, 0x1122_3344_5566_7788);
    assert_eq!(item.dst_agent, u64::MAX);
    assert_eq!(item.value, -5);
    assert_eq!(item.buff_dmg, i32::MAX);
    assert_eq!(item.overstack_value, 0xdead_beef);
    assert_eq!(item.skill_id, 19426);
    assert_eq!(item.src_inst_id, 0x0102);
    assert_eq!(item.dst_inst_id, 0x0304);
    assert_eq!(item.src_master_inst_id, 0x0506);
    assert_eq!(item.dst_master_inst_id, 0xfffe);
    assert_eq!(item.iff, 10);
    assert_eq!(item.is_buff, 11);
    assert_eq!(item.result, 12);
    assert_eq!(item.is_activation, 13);
    assert_eq!(item.is_buff_remove, 14);
    assert_eq!(item.is_ninety, 15);
    assert_eq!(item.is_fifty, 16);
    assert_eq!(item.is_moving, 17);
    assert_eq!(item.is_state_change, 18);
    assert_eq!(item.is_flanking, 19);
    assert_eq!(item.is_shields, 20);
    assert_eq!(item.is_offcycle, 255);
    assert_eq!(item.padding, 0x0a0b_0c0d);
    assert_eq!(log.combat_items[1].time, i64::MAX);
}

#[test]
fn bytes_behind_last_record_are_passed_over() {
    let mut bytes = whole_log();
    bytes.extend_from_slice(&combat_item(7)[..63]);
    let log = evtc_parser(&bytes).unwrap();
    assert_eq!(log.combat_items.len(), 2);
    bytes.push(0);
    let log = evtc_parser(&bytes).unwrap();
    assert_eq!(log.combat_items.len(), 3);
    assert_eq!(log.combat_items[2].time, 7);
}

#[test]
fn log_without_records() {
    let mut bytes = header(1);
    bytes.extend_from_slice(&0i32.to_le_bytes());
    bytes.extend_from_slice(&0i32.to_le_bytes());
    let log = evtc_parser(&bytes).unwrap();
    assert_eq!(log.agents.len(), 0);
    assert_eq!(log.skills.len(), 0);
    assert_eq!(log.combat_items.len(), 0);
}

#[test]
fn names_that_are_no_text() {
    let mut bytes = padded(&[0xff, 0xfe, b'a'], 12);
    bytes.push(1);
    bytes.extend_from_slice(&[0, 0, 0]);
    bytes.extend_from_slice(&1i32.to_le_bytes());
    bytes.extend_from_slice(&agent(1, &[b'a', 0xc3]));
    bytes.extend_from_slice(&1i32.to_le_bytes());
    bytes.extend_from_slice(&skill(1, &[0x80]));
    let log = evtc_parser(&bytes).unwrap();
    assert_eq!(log.version, "???");
    assert_eq!(log.agents[0].name, "Invalid UTF-8 in name");
    assert_eq!(log.skills[0].name, "Invalid UTF-8 in name");
}

#[test]
fn empty_names() {
    let mut bytes = padded(b"", 12);
    bytes.push(1);
    bytes.extend_from_slice(&[0, 0, 0]);
    bytes.extend_from_slice(&1i32.to_le_bytes());
    bytes.extend_from_slice(&agent(1, b""));
    bytes.extend_from_slice(&0i32.to_le_bytes());
    let log = evtc_parser(&bytes).unwrap();
    assert_eq!(log.version, "");
    assert_eq!(log.agents[0].name, "");
}

#[test]
fn other_revisions_are_refused() {
    for revision in [0u8, 2, 255] {
        let mut bytes = header(revision);
        bytes.extend_from_slice(&0i32.to_le_bytes());
        bytes.extend_from_slice(&0i32.to_le_bytes());
        assert_eq!(evtc_parser(&bytes).err(), Some(ParseError::UnsupportedRevision));
        // the revision is judged as soon as it is read
        assert_eq!(evtc_parser(&bytes[..13]).err(), Some(ParseError::UnsupportedRevision));
    }
}

#[test]
fn short_logs_are_truncated() {
    let whole = whole_log();
    let records_at = whole.len() - 128;
    for len in 0..records_at {
        assert_eq!(evtc_parser(&whole[..len]).err(), Some(ParseError::Truncated), "length {}", len);
    }
    assert!(evtc_parser(&whole[..records_at]).is_ok());
}

#[test]
fn counts_below_zero_are_truncated() {
    let mut bytes = header(1);
    bytes.extend_from_slice(&(-1i32).to_le_bytes());
    bytes.extend_from_slice(&[0; 400]);
    assert_eq!(evtc_parser(&bytes).err(), Some(ParseError::Truncated));
    let mut bytes = header(1);
    bytes.extend_from_slice(&0i32.to_le_bytes());
    bytes.extend_from_slice(&i32::MIN.to_le_bytes());
    bytes.extend_from_slice(&[0; 400]);
    assert_eq!(evtc_parser(&bytes).err(), Some(ParseError::Truncated));
    let mut bytes = header(1);
    bytes.extend_from_slice(&i32::MAX.to_le_bytes());
    bytes.extend_from_slice(&[0; 400]);
    assert_eq!(evtc_parser(&bytes).err(), Some(ParseError::Truncated));
}

fn named(name: &str, is_elite: u32, profession: u32) -> EvtcAgent {
    EvtcAgent {
        address: 0,
        profession,
        is_elite,
        toughness: 0,
        concentration: 0,
        healing: 0,
        condition: 0,
        hitbox_width: 0,
        hitbox_height: 0,
        name: name.to_string(),
    }
}

fn log_of(agents: Vec<EvtcAgent>) -> EvtcLog {
    EvtcLog {
        version: String::new(),
        revision: 1,
        boss_species_id: 15438,
        agents,
        skills: Vec::new(),
        combat_items: Vec::new(),
    }
}

#[test]
fn player_is_found_by_character_name() {
    let log = log_of(vec![
        named("Name The Unnameable", 0xffff_ffff, 3),
        named("Name The Unnameable Too\0:acc.1", 5, 3),
        named("Name The\0:acc.2", 5, 3),
        named("Name The Unnameable\0:acc.3\01", 5, 3),
        named("Name The Unnameable", 6, 3),
        named("\0Second", 6, 3),
        named("Kärt\0:acc.4", 6, 3),
    ]);
    assert_eq!(log.find_player("Name The Unnameable"), Some(3));
    assert_eq!(log.find_player("Name The"), Some(2));
    assert_eq!(log.find_player("Name"), None);
    assert_eq!(log.find_player(""), Some(5));
    assert_eq!(log.find_player("Kärt"), Some(6));
    assert_eq!(log.find_player("Name The\0:acc.2"), None);
    assert_eq!(log_of(vec![]).find_player(""), None);
}

#[test]
fn target_is_found_by_species() {
    let log = log_of(vec![
        named("a player of that profession", 5, 15438),
        named("another creature", 0xffff_ffff, 15437),
        named("the boss", 0xffff_ffff, 15438),
        named("its twin", 0xffff_ffff, 15438),
    ]);
    assert_eq!(log.find_target(), Some(2));
    let log = log_of(vec![named("a player of that profession", 5, 15438)]);
    assert_eq!(log.find_target(), None);
    // the species is a 16-bit number
    let log = log_of(vec![named("a creature", 0xffff_ffff, 15438 + 65536)]);
    assert_eq!(log.find_target(), None);
}
