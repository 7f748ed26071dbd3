use noir::note::Note;
use noir::placement::{
    display_origin, distance, first_free_cell, fits, place_marker, place_markers, PLACEMENT_TRIES,
};
use rltk::RandomNumberGenerator;

fn note(id: u32) -> Note {
    Note { id, note: Vec::new(), cxn_type: None }
}

fn markers(cells: &[(i32, i32)]) -> Vec<(i32, i32, Note, bool)> {
    cells.iter().enumerate().map(|(i, c)| (c.0, c.1, note(i as u32), false)).collect()
}

#[test]
fn distance_is_the_larger_gap() {
    assert_eq!(distance(0, 0, 0, 0), 0);
    assert_eq!(distance(0, 0, 3, 1), 3);
    assert_eq!(distance(0, 0, -1, 4), 4);
    assert_eq!(distance(5, 5, 3, 3), 2);
    assert_eq!(distance(-2, 7, 2, 7), 4);
    assert_eq!(distance(i32::MIN, 0, i32::MAX, 0), 4294967295);
    assert_eq!(distance(0, i32::MAX, 0, i32::MIN), 4294967295);
}

#[test]
fn display_is_centred_in_the_panel() {
    assert_eq!(display_origin(15, 14), (35, 15));
    assert_eq!(display_origin(60, 4), (12, 20));
    assert_eq!(display_origin(7, 7), (39, 19));
    assert_eq!(display_origin(0, 1), (42, 22));
}

#[test]
fn cell_fits_when_more_than_two_away_from_all() {
    let placed = markers(&[(40, 20)]);
    assert!(!fits(&placed, 40, 20));
    assert!(!fits(&placed, 42, 22));
    assert!(!fits(&placed, 38, 18));
    assert!(!fits(&placed, 42, 20));
    assert!(fits(&placed, 43, 20));
    assert!(fits(&placed, 40, 23));
    assert!(fits(&placed, 37, 22));
    assert!(fits(&Vec::new(), 40, 20));
    let two = markers(&[(40, 20), (45, 20)]);
    assert!(!fits(&two, 43, 20));
    assert!(fits(&two, 48, 20));
}

#[test]
fn first_free_cell_scans_row_by_row() {
    assert_eq!(first_free_cell(&Vec::new(), 7, 7), Some((39, 19)));
    let corner = markers(&[(39, 19)]);
    assert_eq!(first_free_cell(&corner, 7, 7), Some((42, 19)));
    // A display of 7 by 3 cells covers the columns 39 to 45 of the rows 21
    // to 23: two markers in its middle row block all of it.
    let middle_row = markers(&[(40, 22), (44, 22)]);
    assert_eq!(first_free_cell(&middle_row, 7, 3), None);
    assert_eq!(first_free_cell(&middle_row, 7, 5), None);
    assert_eq!(first_free_cell(&middle_row, 7, 7), Some((39, 19)));
    assert_eq!(first_free_cell(&middle_row, 9, 3), None);
    assert_eq!(first_free_cell(&middle_row, 11, 3), Some((37, 21)));
}

#[test]
fn first_free_cell_of_an_empty_display_is_none() {
    assert_eq!(first_free_cell(&Vec::new(), 0, 1), None);
    assert_eq!(first_free_cell(&Vec::new(), 5, 0), None);
    assert_eq!(first_free_cell(&Vec::new(), -3, 4), None);
}

#[test]
fn place_marker_finds_the_only_free_cell() {
    let mut rng = RandomNumberGenerator::seeded(9);
    let placed = markers(&[(42, 22)]);
    // A display of 6 by 1 cells covers the columns 39 to 44 of row 22; only
    // column 39 is more than two away from the marker in column 42.
    for _ in 0..20 {
        assert_eq!(place_marker(&mut rng, &placed, 6, 1), Some((39, 22)));
    }
}

#[test]
fn place_marker_gives_none_when_the_display_is_full() {
    let mut rng = RandomNumberGenerator::seeded(9);
    let placed = markers(&[(42, 22)]);
    assert_eq!(place_marker(&mut rng, &placed, 5, 1), None);
    assert_eq!(place_marker(&mut rng, &placed, 0, 1), None);
    assert_eq!(place_marker(&mut rng, &Vec::new(), 4, -1), None);
}

#[test]
fn place_marker_stays_on_the_display_and_varies() {
    let mut rng = RandomNumberGenerator::seeded(21);
    let mut seen: Vec<(i32, i32)> = Vec::new();
    for _ in 0..200 {
        let cell = place_marker(&mut rng, &Vec::new(), 15, 14).unwrap();
        assert!(35 <= cell.0 && cell.0 < 50);
        assert!(15 <= cell.1 && cell.1 < 29);
        if !seen.contains(&cell) {
            seen.push(cell);
        }
    }
    assert!(seen.len() > 20);
}

#[test]
fn place_markers_keeps_notes_in_order_and_apart() {
    for seed in 0..40u64 {
        let mut rng = RandomNumberGenerator::seeded(seed);
        let notes = vec![note(7), note(8), note(9)];
        let placed = place_markers(&mut rng, 13, 9, &notes);
        assert_eq!(placed.len(), 3);
        for (i, marker) in placed.iter().enumerate() {
            assert_eq!(marker.2, notes[i]);
            assert!(!marker.3);
            assert!(36 <= marker.0 && marker.0 < 49);
            assert!(18 <= marker.1 && marker.1 < 27);
            for other in placed.iter().skip(i + 1) {
                assert!(distance(marker.0, marker.1, other.0, other.1) > 2);
            }
        }
    }
}

#[test]
fn place_markers_stops_when_the_display_is_full() {
    let mut rng = RandomNumberGenerator::seeded(5);
    let notes = vec![note(0), note(1), note(2), note(3)];
    let placed = place_markers(&mut rng, 3, 3, &notes);
    assert_eq!(placed.len(), 1);
    assert_eq!(placed[0].2, notes[0]);
    let none = place_markers(&mut rng, 0, 1, &notes);
    assert!(none.is_empty());
}

#[test]
fn placement_tries_are_bounded() {
    assert_eq!(PLACEMENT_TRIES, 1000);
}
