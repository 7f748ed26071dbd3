use noir::constants::{
    EXAM_PANEL_HEIGHT, EXAM_PANEL_WIDTH, LOG_HEIGHT, LOG_WIDTH, MAP_HEIGHT, MAP_WIDTH,
    SCREEN_HEIGHT, SCREEN_WIDTH, SIDEBAR_HEIGHT, SIDEBAR_WIDTH, TALK_PANEL_HEIGHT,
    TALK_PANEL_WIDTH,
};
use noir::grid::{Tile as GridTile, TileGrid};
use noir::keys::{code_of, Key};
use noir::log::{log_message, log_row, say_line, Log, Message, LOG_LINES_SHOWN};
use noir::map::{screen_cell, tile_glyph, Tile, TileMap};
use noir::menu::{
    after_game_over, after_main_menu, after_panel, after_pause_menu, after_view_log,
    examine_step, game_over_step, input_step, log_view_row, main_menu_step, pause_menu_step, talk_step,
    view_log_step, GameOverResult, MainMenuResult, MainMenuSelection, PauseMenuResult,
    PauseMenuSelection, RunState, TalkAction, ViewLogResult, LOG_PAGE_LINES,
};
use noir::movement::{
    check_conversation, check_examination, first_adjacent, is_adjacent, last_adjacent, lineup,
    wander, MovementAI,
};
use noir::options::Options;
use noir::palette::{BLACK, HOTPINK, LIMEGREEN, PURPLE, RED, WHITE, YELLOW};
use noir::time::Time;
use rltk::RandomNumberGenerator;

#[test]
fn screen_is_laid_out_in_three_areas() {
    assert_eq!((SCREEN_WIDTH, SCREEN_HEIGHT), (100, 60));
    assert_eq!((MAP_WIDTH, MAP_HEIGHT), (85, 45));
    assert_eq!((SIDEBAR_WIDTH, SIDEBAR_HEIGHT), (15, 45));
    assert_eq!((LOG_WIDTH, LOG_HEIGHT), (100, 15));
    assert_eq!((TALK_PANEL_WIDTH, TALK_PANEL_HEIGHT), (85, 45));
    assert_eq!((EXAM_PANEL_WIDTH, EXAM_PANEL_HEIGHT), (85, 45));
}

#[test]
fn colours_are_the_named_ones() {
    assert_eq!(WHITE, rltk::WHITE);
    assert_eq!(RED, rltk::RED);
    assert_eq!(YELLOW, rltk::YELLOW);
    assert_eq!(PURPLE, rltk::PURPLE);
    assert_eq!(LIMEGREEN, rltk::LIMEGREEN);
    assert_eq!(BLACK, rltk::BLACK);
    assert_eq!(HOTPINK, rltk::HOTPINK);
}

#[test]
fn options_open_and_close() {
    let mut options = Options::new();
    assert!(!options.has_option('T'));
    options.add_option('T', "Talk");
    assert!(options.has_option('T'));
    assert_eq!(options.options.get(&code_of('T')), Some(&"Talk".to_string()));
    options.add_option('T', "Tell");
    assert_eq!(options.options.len(), 1);
    assert_eq!(options.options.get(&code_of('T')), Some(&"Tell".to_string()));
    options.remove_option('T');
    assert!(!options.has_option('T'));
    options.remove_option('T');
    assert!(options.options.is_empty());
}

#[test]
fn options_are_kept_in_key_order() {
    let options = Options::starting();
    let listed: Vec<(char, String)> = options
        .options
        .iter()
        .map(|(code, label)| (char::from_u32(*code).unwrap(), label.clone()))
        .collect();
    assert_eq!(
        listed,
        vec![
            ('I', "Inventory".to_string()),
            ('L', "View Log".to_string()),
            ('P', "Pause".to_string()),
        ]
    );
    assert_eq!(code_of('P'), 80);
    assert_eq!(options.clone(), options);
}

#[test]
fn new_plan_is_empty() {
    let plan = TileMap::new();
    assert_eq!(plan.get_tile(0, 0), Tile::Empty);
    assert_eq!(plan.get_tile(84, 44), Tile::Empty);
    assert_eq!(plan.get_tile(10, 3), Tile::Empty);
}

#[test]
fn set_tile_changes_one_cell() {
    let mut plan = TileMap::new();
    plan.set_tile(3, 2, Tile::Wall);
    assert_eq!(plan.get_tile(3, 2), Tile::Wall);
    assert_eq!(plan.get_tile(2, 2), Tile::Empty);
    assert_eq!(plan.get_tile(4, 2), Tile::Empty);
    assert_eq!(plan.get_tile(3, 1), Tile::Empty);
    assert_eq!(plan.get_tile(3, 3), Tile::Empty);
    // Rows follow each other: the cell after the end of row 1 is the start
    // of row 2.
    plan.set_tile(85, 1, Tile::Floor);
    assert_eq!(plan.get_tile(0, 2), Tile::Floor);
    let copy = plan.clone();
    assert_eq!(copy.get_tile(3, 2), Tile::Wall);
}

#[test]
fn room_is_walled_in() {
    let plan = TileMap::room();
    for x in 0..42 {
        assert_eq!(plan.get_tile(x, 0), Tile::Wall);
        assert_eq!(plan.get_tile(x, 21), Tile::Wall);
    }
    for y in 0..22 {
        assert_eq!(plan.get_tile(0, y), Tile::Wall);
        assert_eq!(plan.get_tile(41, y), Tile::Wall);
    }
    for y in 1..21 {
        for x in 1..41 {
            assert_eq!(plan.get_tile(x, y), Tile::Floor);
        }
    }
    assert_eq!(plan.get_tile(42, 0), Tile::Empty);
    assert_eq!(plan.get_tile(0, 22), Tile::Empty);
    assert_eq!(plan.get_tile(84, 44), Tile::Empty);
}

#[test]
fn step_is_taken_onto_free_floor_only() {
    let plan = TileMap::room();
    let nobody: Vec<(i32, i32)> = Vec::new();
    assert_eq!(plan.try_step(1, 1, 1, 0, &nobody), (2, 1));
    assert_eq!(plan.try_step(1, 1, 0, 1, &nobody), (1, 2));
    assert_eq!(plan.try_step(1, 1, -1, 0, &nobody), (1, 1));
    assert_eq!(plan.try_step(1, 1, 0, -1, &nobody), (1, 1));
    assert_eq!(plan.try_step(40, 20, 1, 1, &nobody), (40, 20));
    let others = vec![(5, 10), (2, 1)];
    assert_eq!(plan.try_step(1, 1, 1, 0, &others), (1, 1));
    assert_eq!(plan.try_step(1, 1, 1, 1, &others), (2, 2));
    assert_eq!(plan.try_step(1, 1, 0, 0, &others), (1, 1));
}

#[test]
fn tiles_have_their_glyphs() {
    assert_eq!(tile_glyph(Tile::Floor), '.');
    assert_eq!(tile_glyph(Tile::Wall), '#');
    assert_eq!(tile_glyph(Tile::Empty), ' ');
}

#[test]
fn view_is_centred_on_the_player() {
    assert_eq!(screen_cell(1, 1, 1, 1), Some((43, 23)));
    assert_eq!(screen_cell(0, 0, 1, 1), Some((42, 22)));
    assert_eq!(screen_cell(10, 5, 1, 1), Some((52, 27)));
    assert_eq!(screen_cell(42, 1, 1, 1), Some((84, 23)));
    assert_eq!(screen_cell(43, 1, 1, 1), None);
    assert_eq!(screen_cell(0, 0, 43, 1), Some((0, 22)));
    assert_eq!(screen_cell(0, 0, 44, 1), None);
    assert_eq!(screen_cell(1, 22, 1, 1), Some((43, 44)));
    assert_eq!(screen_cell(1, 23, 1, 1), None);
    assert_eq!(screen_cell(i32::MAX, i32::MAX, i32::MIN, i32::MIN), None);
    assert_eq!(screen_cell(i32::MIN, 0, i32::MAX, 0), None);
}

#[test]
fn grid_gives_the_tile_of_a_cell() {
    let mut grid = TileGrid::new();
    let open = GridTile { blocks_movement: false, blocks_light: false };
    let wall = GridTile { blocks_movement: true, blocks_light: true };
    let glass = GridTile { blocks_movement: true, blocks_light: false };
    grid.push_row(vec![wall, open, glass]);
    grid.push_row(vec![open]);
    let got = grid.get_tile_at(2, 0);
    assert!(got.blocks_movement && !got.blocks_light);
    let got = grid.get_tile_at(0, 0);
    assert!(got.blocks_movement && got.blocks_light);
    let got = grid.get_tile_at(0, 1);
    assert!(!got.blocks_movement && !got.blocks_light);
}

#[test]
fn main_menu_moves_and_selects() {
    let play = MainMenuSelection::Play;
    let quit = MainMenuSelection::Quit;
    assert!(main_menu_step(play, None) == MainMenuResult::NoSelection { selection: play });
    assert!(main_menu_step(play, Some(Key::Down)) == MainMenuResult::NoSelection { selection: quit });
    assert!(main_menu_step(play, Some(Key::Up)) == MainMenuResult::NoSelection { selection: quit });
    assert!(main_menu_step(quit, Some(Key::Down)) == MainMenuResult::NoSelection { selection: play });
    assert!(main_menu_step(quit, Some(Key::Up)) == MainMenuResult::NoSelection { selection: play });
    assert!(main_menu_step(quit, Some(Key::Return)) == MainMenuResult::Selection { selection: quit });
    assert!(main_menu_step(play, Some(Key::Return)) == MainMenuResult::Selection { selection: play });
    assert!(main_menu_step(quit, Some(Key::Escape)) == MainMenuResult::NoSelection { selection: quit });
    assert!(main_menu_step(play, Some(Key::Other)) == MainMenuResult::NoSelection { selection: play });
}

#[test]
fn pause_menu_moves_and_selects() {
    let back = PauseMenuSelection::Return;
    let quit = PauseMenuSelection::Quit;
    assert!(pause_menu_step(back, None) == PauseMenuResult::NoSelection { selection: back });
    assert!(pause_menu_step(back, Some(Key::Down)) == PauseMenuResult::NoSelection { selection: quit });
    assert!(pause_menu_step(quit, Some(Key::Up)) == PauseMenuResult::NoSelection { selection: back });
    assert!(pause_menu_step(quit, Some(Key::Return)) == PauseMenuResult::Selection { selection: quit });
    assert!(pause_menu_step(back, Some(Key::P)) == PauseMenuResult::NoSelection { selection: back });
}

#[test]
fn any_key_ends_the_closing_screen() {
    assert!(game_over_step(None) == GameOverResult::NoSelection);
    assert!(game_over_step(Some(Key::Other)) == GameOverResult::ReturnToMain);
    assert!(game_over_step(Some(Key::Escape)) == GameOverResult::ReturnToMain);
}

#[test]
fn log_view_turns_pages() {
    assert_eq!(LOG_PAGE_LINES, 27);
    assert!(view_log_step(0, 27, Some(Key::Up)) == ViewLogResult::Up(0));
    assert!(view_log_step(0, 28, Some(Key::Up)) == ViewLogResult::Up(1));
    assert!(view_log_step(1, 54, Some(Key::Up)) == ViewLogResult::Up(1));
    assert!(view_log_step(1, 55, Some(Key::Up)) == ViewLogResult::Up(2));
    assert!(view_log_step(0, 0, Some(Key::Up)) == ViewLogResult::Up(0));
    assert!(view_log_step(usize::MAX, usize::MAX, Some(Key::Up)) == ViewLogResult::Up(usize::MAX));
    assert!(view_log_step(2, 100, Some(Key::Down)) == ViewLogResult::Down(1));
    assert!(view_log_step(0, 100, Some(Key::Down)) == ViewLogResult::Down(0));
    assert!(view_log_step(3, 100, Some(Key::Escape)) == ViewLogResult::Exit);
    assert!(view_log_step(3, 100, None) == ViewLogResult::Stay(3));
    assert!(view_log_step(3, 100, Some(Key::Return)) == ViewLogResult::Stay(3));
    assert_eq!(log_view_row(0), 55);
    assert_eq!(log_view_row(1), 53);
    assert_eq!(log_view_row(26), 3);
}

#[test]
fn conversation_listens_to_three_keys() {
    assert!(talk_step(Some(Key::Key1)) == TalkAction::Say(0));
    assert!(talk_step(Some(Key::Key2)) == TalkAction::Say(1));
    assert!(talk_step(Some(Key::Escape)) == TalkAction::Leave);
    assert!(talk_step(Some(Key::Return)) == TalkAction::Wait);
    assert!(talk_step(None) == TalkAction::Wait);
}

#[test]
fn screens_follow_each_other() {
    let play = MainMenuSelection::Play;
    let quit = MainMenuSelection::Quit;
    let over = RunState::GameOver { result: GameOverResult::NoSelection };
    assert!(after_main_menu(MainMenuResult::NoSelection { selection: quit })
        == RunState::MainMenu { selection: quit });
    assert!(after_main_menu(MainMenuResult::Selection { selection: play }) == RunState::AwaitingInput);
    assert!(after_main_menu(MainMenuResult::Selection { selection: quit }) == over);
    assert!(after_pause_menu(PauseMenuResult::NoSelection { selection: PauseMenuSelection::Quit })
        == RunState::Paused { selection: PauseMenuSelection::Quit });
    assert!(after_pause_menu(PauseMenuResult::Selection { selection: PauseMenuSelection::Return })
        == RunState::AwaitingInput);
    assert!(after_pause_menu(PauseMenuResult::Selection { selection: PauseMenuSelection::Quit }) == over);
    assert!(after_view_log(ViewLogResult::Stay(2)) == RunState::Log { page: 2 });
    assert!(after_view_log(ViewLogResult::Up(3)) == RunState::Log { page: 3 });
    assert!(after_view_log(ViewLogResult::Down(1)) == RunState::Log { page: 1 });
    assert!(after_view_log(ViewLogResult::Exit) == RunState::AwaitingInput);
    assert!(after_game_over(GameOverResult::NoSelection) == (over, false));
    assert!(after_game_over(GameOverResult::ReturnToMain)
        == (RunState::MainMenu { selection: play }, true));
    assert!(after_panel(RunState::Talking, false) == RunState::Talking);
    assert!(after_panel(RunState::Talking, true) == RunState::AwaitingInput);
    assert!(after_panel(RunState::Examining, false) == RunState::Examining);
}

#[test]
fn map_listens_to_arrows_and_open_actions() {
    let mut options = Options::starting();
    let waiting = RunState::AwaitingInput;
    assert!(input_step(None, &options) == (waiting, None));
    assert!(input_step(Some(Key::Left), &options) == (waiting, Some((-1, 0))));
    assert!(input_step(Some(Key::Right), &options) == (waiting, Some((1, 0))));
    assert!(input_step(Some(Key::Up), &options) == (waiting, Some((0, -1))));
    assert!(input_step(Some(Key::Down), &options) == (waiting, Some((0, 1))));
    assert!(input_step(Some(Key::P), &options)
        == (RunState::Paused { selection: PauseMenuSelection::Return }, None));
    assert!(input_step(Some(Key::L), &options) == (RunState::Log { page: 0 }, None));
    assert!(input_step(Some(Key::T), &options) == (waiting, None));
    assert!(input_step(Some(Key::X), &options) == (waiting, None));
    assert!(input_step(Some(Key::Tab), &options) == (waiting, None));
    options.add_option('T', "Talk");
    options.add_option('X', "Examine");
    options.remove_option('P');
    assert!(input_step(Some(Key::T), &options) == (RunState::Talking, None));
    assert!(input_step(Some(Key::X), &options) == (waiting, None));
    assert!(input_step(Some(Key::P), &options) == (waiting, None));
}

#[test]
fn key_x_starts_an_examination_where_it_is_open() {
    let mut options = Options::starting();
    assert!(examine_step(Some(Key::X), &options) == RunState::AwaitingInput);
    assert!(examine_step(None, &options) == RunState::AwaitingInput);
    options.add_option('X', "Examine");
    assert!(examine_step(Some(Key::X), &options) == RunState::Examining);
    assert!(examine_step(Some(Key::T), &options) == RunState::AwaitingInput);
    assert!(examine_step(Some(Key::Other), &options) == RunState::AwaitingInput);
    assert!(examine_step(None, &options) == RunState::AwaitingInput);
    options.remove_option('X');
    assert!(examine_step(Some(Key::X), &options) == RunState::AwaitingInput);
}

#[test]
fn message_is_one_line() {
    let message = Message::new("Day 1, 08:00", "You", "Hello.", WHITE);
    assert_eq!(message.to_string(), "Day 1, 08:00 | You: Hello.");
    assert_eq!(message.color(), (255, 255, 255));
    assert_eq!(message.clone(), message);
    let empty = Message::new("", "", "", RED);
    assert_eq!(empty.to_string(), " | : ");
}

#[test]
fn log_takes_new_messages_at_the_front() {
    let mut log = Log { log: Vec::new() };
    let mut time = Time::new();
    log_message(&mut log, &time, "Game", "Hello Detective. Welcome to Noir!", WHITE);
    time.advance_minute();
    log_message(&mut log, &time, "Game", "Use arrow keys to move around.", HOTPINK);
    assert_eq!(log.log.len(), 2);
    assert_eq!(log.log[0].to_string(), "Day 1, 08:01 | Game: Use arrow keys to move around.");
    assert_eq!(log.log[0].color(), HOTPINK);
    assert_eq!(log.log[1].to_string(), "Day 1, 08:00 | Game: Hello Detective. Welcome to Noir!");
    assert_eq!(log.log[1].color(), WHITE);
}

#[test]
fn six_newest_messages_show_under_the_map() {
    assert_eq!(LOG_LINES_SHOWN, 6);
    assert_eq!(log_row(0), Some(58));
    assert_eq!(log_row(1), Some(56));
    assert_eq!(log_row(5), Some(48));
    assert_eq!(log_row(6), None);
    assert_eq!(log_row(usize::MAX), None);
}

#[test]
fn cooldown_runs_down_before_a_step() {
    let mut mover = MovementAI { is_idle: false, cooldown: 2, max_cooldown: 3 };
    assert!(!mover.pass_turn());
    assert_eq!(mover.cooldown, 1);
    assert!(!mover.pass_turn());
    assert_eq!(mover.cooldown, 0);
    assert!(mover.pass_turn());
    assert_eq!(mover.cooldown, 3);
    assert!(!mover.pass_turn());
    assert_eq!(mover.cooldown, 2);
    assert_eq!(mover.max_cooldown, 3);
}

#[test]
fn idle_mover_waits() {
    let mut mover = MovementAI { is_idle: true, cooldown: 0, max_cooldown: 3 };
    assert!(!mover.pass_turn());
    assert_eq!(mover.cooldown, 0);
    assert!(mover.is_idle);
    let blank = MovementAI::default();
    assert!(!blank.is_idle);
    assert_eq!((blank.cooldown, blank.max_cooldown), (0, 0));
}

#[test]
fn negative_cooldown_steps_at_once() {
    let mut mover = MovementAI { is_idle: false, cooldown: -4, max_cooldown: 1 };
    assert!(mover.pass_turn());
    assert_eq!(mover.cooldown, 1);
}

#[test]
fn cells_touch_within_one_step() {
    assert!(is_adjacent(5, 5, 5, 5));
    assert!(is_adjacent(5, 5, 6, 6));
    assert!(is_adjacent(5, 5, 4, 6));
    assert!(is_adjacent(5, 5, 5, 4));
    assert!(!is_adjacent(5, 5, 7, 5));
    assert!(!is_adjacent(5, 5, 5, 3));
    assert!(!is_adjacent(i32::MIN, 0, i32::MAX, 0));
}

#[test]
fn first_and_last_neighbour_are_found() {
    let places = vec![(5, 10), (10, 10), (6, 11), (20, 20)];
    assert_eq!(first_adjacent(&places, 5, 11), Some(0));
    assert_eq!(last_adjacent(&places, 5, 11), Some(2));
    assert_eq!(first_adjacent(&places, 10, 9), Some(1));
    assert_eq!(last_adjacent(&places, 10, 9), Some(1));
    assert_eq!(first_adjacent(&places, 15, 15), None);
    assert_eq!(last_adjacent(&places, 15, 15), None);
    assert_eq!(first_adjacent(&Vec::new(), 0, 0), None);
}

#[test]
fn talk_opens_next_to_a_suspect() {
    let places = vec![(5, 10), (10, 10), (15, 10)];
    let mut movers = vec![MovementAI { is_idle: false, cooldown: 1, max_cooldown: 2 }; 3];
    let mut options = Options::starting();
    assert_eq!(check_conversation(&mut options, &mut movers, &places, 9, 11), Some(1));
    assert!(options.has_option('T'));
    assert_eq!(options.options.get(&code_of('T')), Some(&"Talk".to_string()));
    assert!(!movers[0].is_idle && movers[1].is_idle && !movers[2].is_idle);
    assert_eq!(movers[1].cooldown, 1);
    assert_eq!(check_conversation(&mut options, &mut movers, &places, 1, 1), None);
    assert!(!options.has_option('T'));
    assert!(options.has_option('P'));
    assert!(!movers[0].is_idle && !movers[1].is_idle && !movers[2].is_idle);
}

#[test]
fn examine_opens_next_to_a_clue() {
    let places = vec![(5, 14), (6, 14), (15, 14)];
    let mut options = Options::new();
    assert_eq!(check_examination(&mut options, &places, 5, 13), Some(1));
    assert_eq!(options.options.get(&code_of('X')), Some(&"Examine".to_string()));
    assert_eq!(check_examination(&mut options, &places, 4, 13), Some(0));
    assert_eq!(check_examination(&mut options, &places, 9, 9), None);
    assert!(!options.has_option('X'));
}

#[test]
fn things_are_lined_up_five_apart() {
    assert_eq!(lineup(3, 10), vec![(5, 10), (10, 10), (15, 10)]);
    assert_eq!(lineup(1, 14), vec![(5, 14)]);
    assert!(lineup(0, 14).is_empty());
}

#[test]
fn wanderer_stays_on_the_floor() {
    let plan = TileMap::room();
    let mut rng = RandomNumberGenerator::seeded(17);
    let mut at = (1, 1);
    let mut seen: Vec<(i32, i32)> = Vec::new();
    for _ in 0..300 {
        let next = wander(&mut rng, &plan, at.0, at.1);
        assert!(is_adjacent(at.0, at.1, next.0, next.1));
        assert_eq!(plan.get_tile(next.0, next.1), Tile::Floor);
        at = next;
        if !seen.contains(&at) {
            seen.push(at);
        }
    }
    assert!(seen.len() > 5);
}

#[test]
fn start_screen_wraps_around_its_two_entries() {
    let mut menu = noir::web::StartMenu::new();
    assert_eq!(menu.selected, 1);
    assert_eq!(menu.transition(), None);
    menu.handle_events(40);
    assert_eq!(menu.selected, 2);
    menu.handle_events(40);
    assert_eq!(menu.selected, 1);
    menu.handle_events(38);
    assert_eq!(menu.selected, 2);
    menu.handle_events(38);
    assert_eq!(menu.selected, 1);
    menu.handle_events(65);
    assert_eq!(menu.selected, 1);
    assert_eq!(menu.transition, "none");
    menu.handle_events(13);
    assert_eq!(menu.transition, "play");
    assert_eq!(menu.transition(), Some("transition-main".to_string()));
    menu.handle_events(40);
    menu.handle_events(13);
    assert_eq!(menu.transition, "exit");
    assert_eq!(menu.transition(), Some("transition-exit".to_string()));
}

#[test]
fn start_screen_with_an_odd_mark_chooses_nothing() {
    let mut menu = noir::web::StartMenu { transition: "none".to_string(), selected: 7 };
    menu.handle_events(13);
    assert_eq!(menu.transition, "none");
    menu.handle_events(40);
    assert_eq!(menu.selected, 1);
    menu.selected = -4;
    menu.handle_events(38);
    assert_eq!(menu.selected, 2);
}

#[test]
fn arrow_codes_walk_one_cell() {
    assert_eq!(noir::web::walk(3, 3, 37), (2, 3));
    assert_eq!(noir::web::walk(3, 3, 38), (3, 2));
    assert_eq!(noir::web::walk(3, 3, 39), (4, 3));
    assert_eq!(noir::web::walk(3, 3, 40), (3, 4));
    assert_eq!(noir::web::walk(3, 3, 13), (3, 3));
}

#[test]
fn clone_of_a_log_holds_the_same() {
    let mut log = Log { log: Vec::new() };
    log_message(&mut log, &Time::new(), "You", "Hm.", WHITE);
    let copy = log.clone();
    assert_eq!(copy, log);
    assert_eq!(copy.log.len(), 1);
}

#[test]
fn saying_a_line_logs_question_and_answer_and_takes_a_minute() {
    let mut log = Log { log: Vec::new() };
    let mut time = Time::new();
    time.set_time(8, 59);
    log_message(&mut log, &time, "Game", "Hello.", WHITE);
    let speaker = noir::suspect::Suspect {
        name: "Adam".to_string(),
        age: 30,
        color: YELLOW,
        is_killer: false,
        hair_color: "red".to_string(),
        shoe_size: "small".to_string(),
    };
    let lines = noir::suspect::generate_conversation_options(&speaker, true);
    say_line(&mut log, &mut time, &speaker, &lines, 1);
    assert_eq!(log.log.len(), 3);
    assert_eq!(log.log[0].to_string(), "Day 1, 08:59 | Adam: I am innocent!");
    assert_eq!(log.log[0].color(), YELLOW);
    assert_eq!(log.log[1].to_string(), "Day 1, 08:59 | You: Are you innocent?");
    assert_eq!(log.log[1].color(), WHITE);
    assert_eq!(log.log[2].to_string(), "Day 1, 08:59 | Game: Hello.");
    assert_eq!(time.get_time(), "09:00");
    say_line(&mut log, &mut time, &speaker, &lines, 0);
    assert_eq!(log.log[0].to_string(), "Day 1, 09:00 | Adam: My name is Adam");
    assert_eq!(log.log[1].to_string(), "Day 1, 09:00 | You: Hello. What is your name?");
    assert_eq!(time.get_time(), "09:01");
}
