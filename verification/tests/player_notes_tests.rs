use noir::connection::Connection;
use noir::note::{ConnectionType, Note, NoteIds};
use noir::palette::WHITE;
use noir::player_notes::{MatchResult, PlayerNotes};

fn note(ids: &mut NoteIds, text: &str) -> Note {
    Note::new(ids, vec![(text.to_string(), WHITE, false)], None)
}

fn pool(ids: &mut NoteIds, pairs: &[(u32, u32)]) -> Vec<Connection> {
    pairs
        .iter()
        .map(|(from, to)| {
            Connection::new(*from, *to, ConnectionType::MurderWeapon, note(ids, "deduced"))
        })
        .collect()
}

#[test]
fn new_player_knows_nothing() {
    let notes = PlayerNotes::new();
    assert!(notes.notes.is_empty());
    assert!(notes.selected.is_empty());
    assert!(!notes.can_accuse());
}

#[test]
fn discovering_a_note_twice_keeps_one_copy() {
    let mut ids = NoteIds::new();
    let found = note(&mut ids, "blood");
    let mut notes = PlayerNotes::new();
    notes.add_note(found.clone());
    assert_eq!(notes.notes.len(), 1);
    notes.add_note(found.clone());
    assert_eq!(notes.notes.len(), 1);
    assert_eq!(notes.notes[0], found);
}

#[test]
fn discovery_goes_by_id_not_by_text() {
    let mut ids = NoteIds::new();
    let a = note(&mut ids, "same");
    let b = note(&mut ids, "same");
    let mut notes = PlayerNotes::new();
    notes.add_note(a.clone());
    notes.add_note(b.clone());
    assert_eq!(notes.notes.len(), 2);
    let imposter = Note { id: a.id, note: Vec::new(), cxn_type: None };
    notes.add_note(imposter);
    assert_eq!(notes.notes.len(), 2);
    assert_eq!(notes.notes[0], a);
    assert!(notes.has_note(a.id));
    assert!(notes.has_note(b.id));
    assert!(!notes.has_note(99));
}

#[test]
fn select_and_deselect_toggle_membership() {
    let mut notes = PlayerNotes::new();
    notes.select(3);
    notes.select(5);
    notes.select(3);
    assert_eq!(notes.selected, vec![3, 5]);
    notes.deselect(3);
    assert_eq!(notes.selected, vec![5]);
    notes.deselect(42);
    assert_eq!(notes.selected, vec![5]);
    notes.deselect(5);
    assert!(notes.selected.is_empty());
}

#[test]
fn deselect_keeps_the_order_of_the_rest() {
    let mut notes = PlayerNotes::new();
    for id in [4u32, 1, 9, 7] {
        notes.select(id);
    }
    notes.deselect(1);
    assert_eq!(notes.selected, vec![4, 9, 7]);
}

#[test]
fn match_consumes_the_connection() {
    let mut ids = NoteIds::new();
    let a = note(&mut ids, "from the body");
    let b = note(&mut ids, "from the clue");
    let mut connections = pool(&mut ids, &[(a.id, b.id)]);
    let deduced = connections[0].note.clone();
    let mut notes = PlayerNotes::new();
    notes.add_note(a.clone());
    notes.add_note(b.clone());
    notes.select(a.id);
    notes.select(b.id);
    match notes.attempt_match(&mut connections) {
        MatchResult::Matched(got) => assert_eq!(got, deduced),
        MatchResult::NoMatch => panic!("the notes are connected"),
    }
    assert!(connections.is_empty());
    assert_eq!(notes.notes, vec![a.clone(), b.clone(), deduced]);
    assert!(notes.selected.is_empty());

    notes.select(a.id);
    notes.select(b.id);
    assert!(matches!(notes.attempt_match(&mut connections), MatchResult::NoMatch));
    assert!(notes.selected.is_empty());
    assert_eq!(notes.notes.len(), 3);
}

#[test]
fn selection_order_does_not_matter() {
    let mut ids = NoteIds::new();
    let mut connections = pool(&mut ids, &[(10, 20)]);
    let mut notes = PlayerNotes::new();
    notes.select(20);
    notes.select(10);
    assert!(matches!(notes.attempt_match(&mut connections), MatchResult::Matched(_)));
}

#[test]
fn failed_attempt_changes_only_the_selection() {
    let mut ids = NoteIds::new();
    let mut connections = pool(&mut ids, &[(10, 20), (30, 40)]);
    let before = connections.clone();
    let mut notes = PlayerNotes::new();
    notes.select(10);
    notes.select(30);
    let result = notes.attempt_match(&mut connections);
    assert!(matches!(result, MatchResult::NoMatch));
    assert_eq!(result.get_log_msg(), "No connection found.");
    assert_eq!(connections, before);
    assert!(notes.notes.is_empty());
    assert!(notes.selected.is_empty());
    assert!(!notes.can_accuse());
}

#[test]
fn one_selected_note_links_nothing() {
    let mut ids = NoteIds::new();
    let mut connections = pool(&mut ids, &[(10, 10)]);
    let mut notes = PlayerNotes::new();
    notes.select(10);
    assert!(matches!(notes.attempt_match(&mut connections), MatchResult::NoMatch));
    assert_eq!(connections.len(), 1);
    assert!(notes.selected.is_empty());
}

#[test]
fn empty_selection_links_nothing() {
    let mut ids = NoteIds::new();
    let mut connections = pool(&mut ids, &[(1, 2)]);
    let mut notes = PlayerNotes::new();
    assert!(matches!(notes.attempt_match(&mut connections), MatchResult::NoMatch));
    assert_eq!(connections.len(), 1);
}

#[test]
fn first_joining_connection_is_taken() {
    let mut ids = NoteIds::new();
    let mut connections = pool(&mut ids, &[(1, 2), (3, 4), (5, 6), (3, 5)]);
    let second = connections[1].clone();
    let third = connections[2].clone();
    let mut notes = PlayerNotes::new();
    for id in [3u32, 4, 5, 6] {
        notes.select(id);
    }
    match notes.attempt_match(&mut connections) {
        MatchResult::Matched(got) => assert_eq!(got, second.note),
        MatchResult::NoMatch => panic!("two connections join the selection"),
    }
    assert_eq!(connections.len(), 3);
    assert_eq!(connections[0].ids, (1, 2));
    assert_eq!(connections[1], third);
    assert_eq!(connections[2].ids, (3, 5));
    assert!(find_ids(&connections, (3, 4)).is_none());
}

fn find_ids(connections: &[Connection], ids: (u32, u32)) -> Option<usize> {
    connections.iter().position(|c| c.ids == ids)
}

#[test]
fn accuse_unlocks_with_the_first_match_and_stays() {
    let mut ids = NoteIds::new();
    let mut connections = pool(&mut ids, &[(1, 2), (3, 4)]);
    let mut notes = PlayerNotes::new();
    assert!(!notes.can_accuse());
    notes.select(1);
    notes.select(3);
    assert!(matches!(notes.attempt_match(&mut connections), MatchResult::NoMatch));
    assert!(!notes.can_accuse());
    notes.add_note(note(&mut ids, "found"));
    assert!(!notes.can_accuse());
    notes.select(1);
    notes.select(2);
    assert!(matches!(notes.attempt_match(&mut connections), MatchResult::Matched(_)));
    assert!(notes.can_accuse());
    notes.select(1);
    notes.select(2);
    assert!(matches!(notes.attempt_match(&mut connections), MatchResult::NoMatch));
    assert!(notes.can_accuse());
    notes.select(7);
    notes.deselect(7);
    notes.add_note(note(&mut ids, "more"));
    assert!(notes.can_accuse());
}

#[test]
fn matched_result_logs_the_new_note() {
    let mut ids = NoteIds::new();
    let mut connections = pool(&mut ids, &[(1, 2)]);
    let mut notes = PlayerNotes::new();
    notes.select(1);
    notes.select(2);
    let result = notes.attempt_match(&mut connections);
    assert_eq!(result.get_log_msg(), "deduced ");
}

#[test]
fn find_match_names_the_connection_without_taking_it() {
    let mut ids = NoteIds::new();
    let connections = pool(&mut ids, &[(1, 2), (3, 4)]);
    let mut notes = PlayerNotes::new();
    notes.select(4);
    notes.select(3);
    assert_eq!(notes.find_match(&connections), Some(1));
    notes.deselect(4);
    notes.select(9);
    assert_eq!(notes.find_match(&connections), None);
}

#[test]
fn examining_reveals_the_marker_and_records_its_note() {
    let mut ids = NoteIds::new();
    let blood = note(&mut ids, "blood");
    let hair = note(&mut ids, "hair");
    let mut clue = noir::clue::Clue {
        name: "knife".to_string(),
        color: noir::palette::PURPLE,
        is_murder_weapon: true,
        display: noir::displays::knife_lines(),
        markers: vec![(20, 21, blood.clone(), false), (40, 22, hair.clone(), false)],
    };
    let mut notes = PlayerNotes::new();
    assert_eq!(notes.examine(&mut clue, 30, 21), None);
    assert!(notes.notes.is_empty());
    assert!(!clue.markers[0].3 && !clue.markers[1].3);

    assert_eq!(notes.examine(&mut clue, 41, 21), Some(1));
    assert_eq!(notes.notes, vec![hair.clone()]);
    assert!(!clue.markers[0].3 && clue.markers[1].3);

    assert_eq!(notes.examine(&mut clue, 40, 22), Some(1));
    assert_eq!(notes.notes, vec![hair.clone()]);
    assert!(clue.markers[1].3);
    assert_eq!(clue.markers.len(), 2);

    assert_eq!(notes.examine(&mut clue, 19, 20), Some(0));
    assert_eq!(notes.notes, vec![hair, blood]);
    assert!(clue.markers[0].3 && clue.markers[1].3);
    assert!(notes.selected.is_empty());
    assert!(!notes.can_accuse());
}

#[test]
fn clone_of_the_player_notes_holds_the_same() {
    let mut ids = NoteIds::new();
    let mut notes = PlayerNotes::new();
    notes.add_note(note(&mut ids, "a"));
    notes.add_note(note(&mut ids, "b"));
    notes.select(1);
    let copy = notes.clone();
    assert_eq!(copy, notes);
    notes.select(0);
    assert_ne!(copy, notes);
}
