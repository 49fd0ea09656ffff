use playable_bosses::player::{
    decode_tag, get_player_number, read_tag, tag_address, tag_bytes_of, Lookup, ObjectKinds,
    Probe, Stage,
};

fn units(text: &str) -> Vec<u16> {
    text.encode_utf16().collect()
}

#[test]
fn tag_address_of_a_player() {
    assert_eq!(tag_address(0x7100_0000_0000, 0), Some(0x7100_0000_0000 + 0x52c_3758 + 0x8e));
    assert_eq!(tag_address(0x7100_0000_0000, 3), Some(0x7100_0000_0000 + 0x52c_3758 + 3 * 0x260 + 0x8e));
    assert_eq!(tag_address(0, 1), Some(0x52c_3758 + 0x260 + 0x8e));
}

#[test]
fn tag_address_that_overflows_is_refused() {
    assert_eq!(tag_address(u64::MAX, 0), None);
    assert_eq!(tag_address(u64::MAX - 0x52c_3758 - 0x8e, 0), Some(u64::MAX));
    assert_eq!(tag_address(u64::MAX - 0x52c_3758 - 0x8e, 1), None);
    assert_eq!(tag_address(0, usize::MAX), None);
}

#[test]
fn tag_bytes_stop_at_the_terminator() {
    let mut u = units("MARX");
    u.push(0);
    u.extend(units("junk"));
    assert_eq!(tag_bytes_of(&u), b"MARX".to_vec());
    assert_eq!(tag_bytes_of(&[]), Vec::<u8>::new());
    assert_eq!(tag_bytes_of(&[0, 0x41]), Vec::<u8>::new());
}

#[test]
fn tag_bytes_keep_the_low_byte() {
    // 0x0141 ('Ł') keeps 0x41; 0x3042 keeps 0x42.
    assert_eq!(tag_bytes_of(&[0x0141, 0x3042, 0x0043]), b"ABC".to_vec());
}

#[test]
fn decode_tag_reads_the_name() {
    let mut u = units("MARX");
    u.push(0);
    assert_eq!(decode_tag(&u), Some("MARX".to_string()));
    assert_eq!(read_tag(&u), "MARX".to_string());
    assert_eq!(decode_tag(&units("Dracula")), Some("Dracula".to_string()));
    assert_eq!(decode_tag(&[]), Some(String::new()));
}

#[test]
fn decode_tag_refuses_bytes_that_are_not_utf8() {
    // Low bytes 0xC3 0x28 are not UTF-8; 0xC3 0xA9 is "é".
    assert_eq!(decode_tag(&[0x00C3, 0x0028]), None);
    assert_eq!(decode_tag(&[0x00FF]), None);
    assert_eq!(decode_tag(&[0x00C3, 0x00A9, 0]), Some("é".to_string()));
}

fn kinds() -> ObjectKinds {
    ObjectKinds { trainer_kind: 55, fighter_category: 0 }
}

fn run_lookup(start_kind: i32, objects: &[(i32, i32, i32, i32, i32)]) -> usize {
    // Each object: (id, category, trainer entry, fighter entry, owner id).
    let mut current = 0usize;
    let mut stage = Stage::Kind;
    let mut value = start_kind;
    for _ in 0..32 {
        let (next, step) = get_player_number(stage, value, &kinds());
        stage = next;
        let obj = objects[current];
        match step {
            Lookup::Read(Probe::Category) => value = obj.1,
            Lookup::Read(Probe::TrainerEntry) => value = obj.2,
            Lookup::Read(Probe::FighterEntry) => value = obj.3,
            Lookup::Read(Probe::LinkOwner) => value = obj.4,
            Lookup::Visit(id) => {
                current = objects.iter().position(|o| o.0 as u32 == id).unwrap();
                value = objects[current].1;
            }
            Lookup::Found(n) => return n,
        }
    }
    panic!("lookup did not end");
}

#[test]
fn player_number_of_a_fighter() {
    assert_eq!(run_lookup(7, &[(10, 0, -1, 3, -1)]), 3);
}

#[test]
fn player_number_of_a_trainer() {
    assert_eq!(run_lookup(55, &[(10, 4, 2, 9, -1)]), 2);
}

#[test]
fn player_number_of_a_weapon_follows_its_owners() {
    // A weapon owned by a weapon owned by the fighter of entry 1.
    let objects = [(10, 2, -1, -1, 20), (20, 2, -1, -1, 30), (30, 0, -1, 1, -1)];
    assert_eq!(run_lookup(99, &objects), 1);
}

#[test]
fn player_number_steps() {
    assert_eq!(get_player_number(Stage::Kind, 55, &kinds()), (Stage::Entry, Lookup::Read(Probe::TrainerEntry)));
    assert_eq!(get_player_number(Stage::Kind, 1, &kinds()), (Stage::Category, Lookup::Read(Probe::Category)));
    assert_eq!(get_player_number(Stage::Category, 0, &kinds()), (Stage::Entry, Lookup::Read(Probe::FighterEntry)));
    assert_eq!(get_player_number(Stage::Category, 3, &kinds()), (Stage::Owner, Lookup::Read(Probe::LinkOwner)));
    assert_eq!(get_player_number(Stage::Owner, 12, &kinds()), (Stage::Category, Lookup::Visit(12)));
    assert_eq!(get_player_number(Stage::Entry, 4, &kinds()), (Stage::Entry, Lookup::Found(4)));
    // A negative entry widens as the game's int does.
    assert_eq!(get_player_number(Stage::Entry, -1, &kinds()).1, Lookup::Found(usize::MAX));
}
