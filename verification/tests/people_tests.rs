use noir::connection::{can_link, Connection};
use noir::clue::Clue;
use noir::displays::{body_lines, wrench_lines};
use noir::note::{ConnectionType, Note, NoteIds};
use noir::palette::{LIMEGREEN, RED, WHITE, YELLOW};
use noir::pools::{hair_color, is_no_trace, same_text, shoe_size, suspect_name, victim_name, weapon};
use noir::suspect::{generate_conversation_options, Suspect};
use noir::victim::{body_notes, Victim};
use rltk::RandomNumberGenerator;

fn victim(weapon: &str, hair: &str, shoes: &str) -> Victim {
    let mut rng = RandomNumberGenerator::seeded(1);
    let mut ids = NoteIds::new();
    Victim::assemble(
        &mut rng,
        &mut ids,
        "Sherlock".to_string(),
        33,
        weapon.to_string(),
        hair.to_string(),
        shoes.to_string(),
    )
}

fn suspect(victim: &Victim, is_killer: bool, hair: &str, shoes: &str) -> Suspect {
    Suspect::assemble(
        victim,
        is_killer,
        "Barry".to_string(),
        50,
        hair.to_string(),
        shoes.to_string(),
    )
}

#[test]
fn pools_hold_their_entries() {
    assert_eq!(victim_name(0), "Hercule");
    assert_eq!(victim_name(1), "Sherlock");
    assert_eq!(victim_name(2), "Johnny");
    assert_eq!(suspect_name(0), "Adam");
    assert_eq!(suspect_name(1), "Barry");
    assert_eq!(suspect_name(2), "Charles");
    assert_eq!(weapon(0), "knife");
    assert_eq!(weapon(1), "gun");
    assert_eq!(weapon(2), "wrench");
    assert_eq!(weapon(3), "poison");
    assert_eq!(hair_color(0), "black");
    assert_eq!(hair_color(1), "blonde");
    assert_eq!(hair_color(2), "red");
    assert_eq!(shoe_size(0), "small");
    assert_eq!(shoe_size(1), "average");
    assert_eq!(shoe_size(2), "large");
}

#[test]
fn texts_are_compared_character_for_character() {
    assert!(same_text("knife", "knife"));
    assert!(!same_text("knife", "Knife"));
    assert!(!same_text("knife", "knif"));
    assert!(same_text("", ""));
    assert!(is_no_trace("none"));
    assert!(!is_no_trace("None"));
    assert!(!is_no_trace(""));
    assert!(!is_no_trace("red"));
}

#[test]
fn assembled_victim_keeps_its_traits() {
    let dead = victim("gun", "blonde", "large");
    assert_eq!(dead.name, "Sherlock");
    assert_eq!(dead.age, 33);
    assert_eq!(dead.weapon_used, "gun");
    assert_eq!(dead.hair_found, "blonde");
    assert_eq!(dead.shoe_print, "large");
    assert_eq!(dead.clue.name, "Victim: Sherlock");
    assert_eq!(dead.clue.color, RED);
    assert!(!dead.clue.is_murder_weapon);
    assert_eq!(dead.clue.display, body_lines());
    assert_eq!(dead.clue.markers.len(), 2);
    let death = &dead.clue.markers[0].2;
    assert_eq!(death.id, 0);
    assert_eq!(death.cxn_type, Some(ConnectionType::MurderWeapon));
    assert_eq!(
        death.note,
        vec![
            ("The".to_string(), WHITE, false),
            ("victim".to_string(), RED, false),
            ("died from a".to_string(), WHITE, false),
            ("gunshot wound".to_string(), RED, true),
        ]
    );
    let prints = &dead.clue.markers[1].2;
    assert_eq!(prints.id, 1);
    assert_eq!(prints.cxn_type, Some(ConnectionType::EvidenceShoeSize));
    assert_eq!(
        prints.note,
        vec![
            ("The killer left".to_string(), WHITE, false),
            ("large footprints".to_string(), RED, true),
            ("next to the".to_string(), WHITE, false),
            ("victim".to_string(), RED, false),
        ]
    );
}

#[test]
fn victim_without_a_print_has_no_footprint_note() {
    let dead = victim("poison", "red", "none");
    assert_eq!(dead.clue.markers.len(), 1);
    assert_eq!(dead.clue.markers[0].2.cxn_type, Some(ConnectionType::MurderWeapon));
}

#[test]
fn victim_of_an_unknown_weapon_has_no_death_note() {
    let dead = victim("candlestick", "red", "small");
    assert_eq!(dead.clue.markers.len(), 1);
    assert_eq!(dead.clue.markers[0].2.id, 0);
    assert_eq!(dead.clue.markers[0].2.cxn_type, Some(ConnectionType::EvidenceShoeSize));
    let bare = victim("candlestick", "red", "none");
    assert!(bare.clue.markers.is_empty());
}

#[test]
fn body_notes_take_ids_in_order() {
    let mut ids = NoteIds::new();
    let first = body_notes(&mut ids, "knife", "small");
    assert_eq!(first.len(), 2);
    assert_eq!((first[0].id, first[1].id), (0, 1));
    let second = body_notes(&mut ids, "knife", "none");
    assert_eq!(second.len(), 1);
    assert_eq!(second[0].id, 2);
    assert_eq!(ids.left(), u32::MAX - 3);
}

#[test]
fn killer_takes_the_traces_from_the_scene() {
    let dead = victim("knife", "red", "large");
    let killer = suspect(&dead, true, "black", "small");
    assert!(killer.is_killer);
    assert_eq!(killer.hair_color, "red");
    assert_eq!(killer.shoe_size, "large");
    assert_eq!(killer.color, RED);
    assert_eq!(killer.name, "Barry");
    assert_eq!(killer.age, 50);
}

#[test]
fn killer_keeps_a_drawn_trait_where_no_trace_was_found() {
    let dead = victim("knife", "none", "large");
    let killer = suspect(&dead, true, "black", "small");
    assert_eq!(killer.hair_color, "black");
    assert_eq!(killer.shoe_size, "large");
    let clean = victim("knife", "none", "none");
    let lucky = suspect(&clean, true, "blonde", "average");
    assert_eq!(lucky.hair_color, "blonde");
    assert_eq!(lucky.shoe_size, "average");
}

#[test]
fn others_keep_their_drawn_traits() {
    let dead = victim("knife", "red", "large");
    let other = suspect(&dead, false, "black", "small");
    assert!(!other.is_killer);
    assert_eq!(other.hair_color, "black");
    assert_eq!(other.shoe_size, "small");
    assert_eq!(other.color, YELLOW);
}

#[test]
fn gen_rand_suspects_puts_the_killer_first() {
    let dead = victim("knife", "red", "large");
    for seed in 0..30u64 {
        let mut rng = RandomNumberGenerator::seeded(seed);
        let suspects = Suspect::gen_rand_suspects(&mut rng, &dead, 6);
        assert_eq!(suspects.len(), 6);
        for (i, suspect) in suspects.iter().enumerate() {
            assert_eq!(suspect.is_killer, i == 0);
        }
        assert_eq!(suspects[0].hair_color, "red");
        assert_eq!(suspects[0].shoe_size, "large");
    }
    let mut rng = RandomNumberGenerator::seeded(1);
    assert!(Suspect::gen_rand_suspects(&mut rng, &dead, 0).is_empty());
}

#[test]
fn default_suspect_is_blank() {
    let blank = Suspect::default();
    assert_eq!(blank.name, "");
    assert_eq!(blank.age, 0);
    assert!(!blank.is_killer);
    assert_eq!(blank.color, (0, 0, 0));
    let copy = blank.clone();
    assert_eq!(copy.name, blank.name);
}

#[test]
fn conversation_has_two_fixed_lines() {
    let dead = victim("knife", "red", "large");
    let killer = suspect(&dead, true, "black", "small");
    let guilty = generate_conversation_options(&killer, false);
    assert_eq!(
        guilty,
        vec![
            ("Hello. What is your name?".to_string(), "My name is Barry".to_string()),
            ("Are you innocent?".to_string(), "I am guilty!".to_string()),
        ]
    );
    let innocent = generate_conversation_options(&killer, true);
    assert_eq!(innocent[1].1, "I am innocent!");
}

fn tagged_note(id: u32, tag: Option<ConnectionType>) -> Note {
    Note { id, note: Vec::new(), cxn_type: tag }
}

fn clue_named(name: &str, notes: Vec<Note>) -> Clue {
    Clue {
        name: name.to_string(),
        color: LIMEGREEN,
        is_murder_weapon: false,
        display: wrench_lines(),
        markers: notes.into_iter().enumerate().map(|(i, n)| (40 + 3 * i as i32, 20, n, false)).collect(),
    }
}

#[test]
fn connections_pair_notes_by_tag() {
    let mut dead = victim("knife", "red", "large");
    dead.clue.markers = vec![
        (36, 16, tagged_note(100, Some(ConnectionType::MurderWeapon)), false),
        (40, 16, tagged_note(101, Some(ConnectionType::EvidenceShoeSize)), false),
        (44, 16, tagged_note(102, None), false),
        (36, 20, tagged_note(103, Some(ConnectionType::EvidenceHair)), false),
    ];
    let clues = vec![
        clue_named(
            "knife",
            vec![
                tagged_note(200, Some(ConnectionType::MurderWeapon)),
                tagged_note(201, Some(ConnectionType::EvidenceHair)),
            ],
        ),
        clue_named("gun", vec![tagged_note(300, None)]),
        clue_named(
            "wrench",
            vec![
                tagged_note(400, Some(ConnectionType::EvidenceHair)),
                tagged_note(401, Some(ConnectionType::MurderWeapon)),
                tagged_note(402, Some(ConnectionType::EvidenceShoeSize)),
            ],
        ),
    ];
    let mut ids = NoteIds::new();
    let cxns = Connection::gen_connections(&mut ids, &dead, &Vec::new(), &clues);
    let got: Vec<((u32, u32), ConnectionType, u32, String)> = cxns
        .iter()
        .map(|c| (c.ids, c.cxn_type, c.note.id, c.note.get_log_msg()))
        .collect();
    assert_eq!(
        got,
        vec![
            (
                (100, 200),
                ConnectionType::MurderWeapon,
                0,
                "Aha! The murder weapon must have been knife ".to_string()
            ),
            (
                (100, 401),
                ConnectionType::MurderWeapon,
                1,
                "Aha! The murder weapon must have been wrench ".to_string()
            ),
            (
                (101, 402),
                ConnectionType::EvidenceShoeSize,
                2,
                "Aha! The footprints must lead to wrench ".to_string()
            ),
            (
                (103, 201),
                ConnectionType::EvidenceHair,
                3,
                "Aha! The hair must have come from knife ".to_string()
            ),
            (
                (103, 400),
                ConnectionType::EvidenceHair,
                4,
                "Aha! The hair must have come from wrench ".to_string()
            ),
        ]
    );
    assert_eq!(ids.left(), u32::MAX - 5);
    for c in cxns.iter() {
        assert_eq!(c.note.cxn_type, None);
        assert_eq!(c.note.note[1].1, RED);
        assert_eq!(c.note.note[0], ("Aha! The".to_string(), WHITE, false));
    }
}

#[test]
fn no_shared_tag_gives_no_connection() {
    let mut dead = victim("knife", "red", "large");
    dead.clue.markers =
        vec![(36, 16, tagged_note(1, Some(ConnectionType::EvidenceShoeSize)), false)];
    let clues = vec![clue_named("knife", vec![tagged_note(2, Some(ConnectionType::MurderWeapon))])];
    let mut ids = NoteIds::new();
    assert!(Connection::gen_connections(&mut ids, &dead, &Vec::new(), &clues).is_empty());
    assert!(Connection::gen_connections(&mut ids, &dead, &Vec::new(), &Vec::new()).is_empty());
    assert_eq!(ids.left(), u32::MAX);
}

#[test]
fn connection_new_keeps_its_parts() {
    let note = tagged_note(9, None);
    let made = Connection::new(3, 4, ConnectionType::EvidenceHair, note.clone());
    assert_eq!(made.ids, (3, 4));
    assert_eq!(made.cxn_type, ConnectionType::EvidenceHair);
    assert_eq!(made.note, note);
    assert_eq!(made.clone(), made);
}

#[test]
fn notes_link_by_tag_alone() {
    let weapon_a = tagged_note(1, Some(ConnectionType::MurderWeapon));
    let weapon_b = tagged_note(2, Some(ConnectionType::MurderWeapon));
    let hair = tagged_note(3, Some(ConnectionType::EvidenceHair));
    let plain = tagged_note(4, None);
    assert!(can_link(&weapon_a, &weapon_b));
    assert!(can_link(&weapon_a, &weapon_a));
    assert!(!can_link(&weapon_a, &hair));
    assert!(!can_link(&hair, &weapon_a));
    assert!(!can_link(&plain, &weapon_a));
    assert!(!can_link(&weapon_a, &plain));
    assert!(!can_link(&plain, &plain));
}

#[test]
fn connections_are_counted_before_they_are_made() {
    let mut dead = victim("knife", "red", "large");
    dead.clue.markers = vec![
        (36, 16, tagged_note(100, Some(ConnectionType::MurderWeapon)), false),
        (40, 16, tagged_note(101, None), false),
        (44, 16, tagged_note(102, Some(ConnectionType::EvidenceHair)), false),
    ];
    let clues = vec![
        clue_named(
            "knife",
            vec![
                tagged_note(200, Some(ConnectionType::MurderWeapon)),
                tagged_note(201, Some(ConnectionType::EvidenceHair)),
            ],
        ),
        clue_named("gun", vec![tagged_note(300, Some(ConnectionType::MurderWeapon))]),
    ];
    assert_eq!(Connection::count_connections(&dead, &clues), Some(3));
    assert_eq!(Connection::count_connections(&dead, &Vec::new()), Some(0));
    let mut ids = NoteIds::new();
    assert!(Connection::ids_suffice_for(&ids, &dead, &clues));
    let cxns = Connection::gen_connections(&mut ids, &dead, &Vec::new(), &clues);
    assert_eq!(cxns.len(), 3);
    let pairs: Vec<(u32, u32)> = cxns.iter().map(|c| c.ids).collect();
    assert_eq!(pairs, vec![(100, 200), (100, 300), (102, 201)]);
    for (p, a) in cxns.iter().enumerate() {
        assert_ne!(a.ids.0, a.ids.1);
        for b in cxns.iter().skip(p + 1) {
            assert_ne!(a.ids, b.ids);
        }
    }
}

#[test]
fn a_generated_story_has_one_connection_to_count() {
    let mut rng = RandomNumberGenerator::seeded(8);
    let mut ids = NoteIds::new();
    let story = noir::story::Story::gen_rand(&mut rng, &mut ids);
    assert_eq!(Connection::count_connections(&story.victim, &story.clues), Some(1));
    assert!(Connection::ids_suffice_for(&ids, &story.victim, &story.clues));
}
