use noir::note::{fragment, ConnectionType, Note, NoteIds};
use noir::palette::{RED, WHITE};

fn text_of(words: &[&str]) -> Vec<(String, (u8, u8, u8), bool)> {
    words.iter().map(|w| (w.to_string(), WHITE, false)).collect()
}

#[test]
fn notes_made_separately_have_distinct_ids() {
    let mut ids = NoteIds::new();
    let a = Note::new(&mut ids, text_of(&["same", "text"]), None);
    let b = Note::new(&mut ids, text_of(&["same", "text"]), None);
    assert_ne!(a.id, b.id);
    assert_eq!(a.note, b.note);
    assert_ne!(a, b);
}

#[test]
fn ids_count_up_from_zero() {
    let mut ids = NoteIds::new();
    assert_eq!(ids.left(), u32::MAX);
    for expected in 0..10u32 {
        let note = Note::new(&mut ids, Vec::new(), Some(ConnectionType::EvidenceHair));
        assert_eq!(note.id, expected);
        assert_eq!(note.cxn_type, Some(ConnectionType::EvidenceHair));
    }
    assert_eq!(ids.left(), u32::MAX - 10);
}

#[test]
fn note_keeps_its_fragments() {
    let mut ids = NoteIds::new();
    let fragments = vec![
        ("The".to_string(), WHITE, false),
        ("stab wound".to_string(), RED, true),
    ];
    let note = Note::new(&mut ids, fragments.clone(), Some(ConnectionType::MurderWeapon));
    assert_eq!(note.note, fragments);
}

#[test]
fn log_message_joins_fragments_with_spaces() {
    let mut ids = NoteIds::new();
    let note = Note::new(&mut ids, text_of(&["The", "victim", "died from a", "stab wound"]), None);
    assert_eq!(note.get_log_msg(), "The victim died from a stab wound ");
}

#[test]
fn log_message_of_an_empty_note_is_empty() {
    let mut ids = NoteIds::new();
    let note = Note::new(&mut ids, Vec::new(), None);
    assert_eq!(note.get_log_msg(), "");
}

#[test]
fn log_message_of_one_fragment_ends_in_a_space() {
    let mut ids = NoteIds::new();
    let note = Note::new(&mut ids, text_of(&["blood"]), None);
    assert_eq!(note.get_log_msg(), "blood ");
}

#[test]
fn clone_of_a_note_is_equal_to_it() {
    let mut ids = NoteIds::new();
    let note = Note::new(
        &mut ids,
        vec![("a".to_string(), RED, true), ("b".to_string(), WHITE, false)],
        Some(ConnectionType::EvidenceShoeSize),
    );
    let copy = note.clone();
    assert_eq!(copy, note);
    assert_eq!(copy.id, note.id);
}

#[test]
fn fragment_holds_what_it_was_given() {
    let made = fragment("blood", RED, true);
    assert_eq!(made, ("blood".to_string(), (255, 0, 0), true));
}
