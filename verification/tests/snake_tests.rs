use epd_watch::display::shape::ArrowDir;
use epd_watch::io::Event;
use epd_watch::pages::snake::{GameState, FIELD_LEN};
use epd_watch::pages::Pages;

/// The non-empty cells of the field.
fn cells(state: &GameState) -> Vec<(usize, u8)> {
    (0..FIELD_LEN).filter(|i| state.field[*i] != 0).map(|i| (i, state.field[i])).collect()
}

fn playing() -> GameState {
    let mut state = GameState::new();
    assert!(!Pages::update_game(Event::BtnMid, &mut state));
    assert!(!state.menu_active);
    state
}

#[test]
fn new_game() {
    let state = GameState::new();
    assert_eq!(state.curr_pos, (10, 12));
    assert_eq!(cells(&state), vec![(55, 1), (190, 2), (191, 3)]);
    assert_eq!(state.snake_len, 2);
    assert_eq!(state.curr_dir, ArrowDir::Left);
    assert!(state.menu_active);
    assert_eq!(state.menu_item, 0);
    assert!(!state.game_lost && !state.game_won);
}

#[test]
fn menu_choices() {
    let mut state = GameState::new();
    assert!(!Pages::update_game(Event::BtnDown, &mut state));
    assert_eq!(state.menu_item, 1);
    assert!(!Pages::update_game(Event::BtnUp, &mut state));
    assert_eq!(state.menu_item, 0);
    assert!(!Pages::update_game(Event::BtnUp, &mut state));
    // the second item leaves the game
    assert!(Pages::update_game(Event::BtnMid, &mut state));
    assert!(state.menu_active);
}

#[test]
fn one_step_ahead() {
    let mut state = playing();
    assert!(!Pages::update_game(Event::NoEvent, &mut state));
    assert_eq!(state.curr_pos, (9, 12));
    assert_eq!(cells(&state), vec![(55, 1), (189, 2), (190, 3)]);
}

#[test]
fn middle_button_returns_to_the_menu() {
    let mut state = playing();
    assert!(!Pages::update_game(Event::BtnMid, &mut state));
    assert!(state.menu_active);
    assert_eq!(state.curr_pos, (10, 12));
}

#[test]
fn eating_the_apple_grows_the_snake_and_places_a_new_one() {
    let mut state = playing();
    // heading left, down turns up
    Pages::update_game(Event::BtnDown, &mut state);
    assert_eq!(state.curr_dir, ArrowDir::Up);
    for _ in 0..8 {
        Pages::update_game(Event::NoEvent, &mut state);
    }
    assert_eq!(state.curr_pos, (10, 3));
    assert_eq!(state.snake_len, 3);
    assert_eq!(cells(&state), vec![(55, 2), (70, 3), (85, 4), (178, 1)]);
}

#[test]
fn turning_around() {
    let mut state = playing();
    Pages::update_game(Event::BtnDown, &mut state);
    for _ in 0..8 {
        Pages::update_game(Event::NoEvent, &mut state);
    }
    Pages::update_game(Event::BtnUp, &mut state);
    assert_eq!((state.curr_pos, state.curr_dir), ((9, 3), ArrowDir::Left));
    Pages::update_game(Event::BtnUp, &mut state);
    assert_eq!((state.curr_pos, state.curr_dir), ((9, 4), ArrowDir::Down));
    Pages::update_game(Event::BtnUp, &mut state);
    assert_eq!((state.curr_pos, state.curr_dir), ((10, 4), ArrowDir::Right));
    assert_eq!(cells(&state), vec![(54, 4), (69, 3), (70, 2), (178, 1)]);
    assert!(!state.game_lost);
}

#[test]
fn hitting_the_wall_loses() {
    let mut state = playing();
    for _ in 0..10 {
        Pages::update_game(Event::NoEvent, &mut state);
    }
    assert_eq!(state.curr_pos, (0, 12));
    assert!(!state.game_lost);
    Pages::update_game(Event::NoEvent, &mut state);
    assert!(state.game_lost);
    assert_eq!(state.curr_pos, (0, 12));
    assert_eq!(cells(&state), vec![(55, 1), (180, 2), (181, 3)]);
    // a lost game stays as it is
    Pages::update_game(Event::BtnUp, &mut state);
    assert_eq!(state.curr_dir, ArrowDir::Left);
    assert_eq!(cells(&state), vec![(55, 1), (180, 2), (181, 3)]);
}

#[test]
fn running_into_the_snake_loses() {
    let mut state = playing();
    state.field = [0; FIELD_LEN];
    state.snake_len = 4;
    // head at (5, 5) heading right, the snake's third cell right of it
    state.curr_pos = (5, 5);
    state.curr_dir = ArrowDir::Right;
    state.field[80] = 2;
    state.field[65] = 3;
    state.field[66] = 4;
    state.field[81] = 5;
    Pages::update_game(Event::NoEvent, &mut state);
    assert!(state.game_lost);
    assert_eq!(state.curr_pos, (5, 5));
}

#[test]
fn apple_search_walks_past_taken_cells() {
    let mut state = playing();
    state.field = [0; FIELD_LEN];
    state.snake_len = 2;
    state.curr_pos = (1, 1);
    state.curr_dir = ArrowDir::Right;
    state.field[16] = 2;
    state.field[15] = 3;
    state.field[17] = 1;
    // the search starts at (1 * 1 * (1 + 7) + 1) % 15 = 9, (1 * 1 * (1 + 4) + 3) % 15 = 8:
    // cell 143, taken here, so it walks back to 142
    state.field[143] = 2;
    Pages::update_game(Event::NoEvent, &mut state);
    assert_eq!(state.snake_len, 3);
    assert_eq!(state.curr_pos, (2, 1));
    assert_eq!(state.field[142], 1);
    assert_eq!(state.field[17], 2);
}

#[test]
fn field_positions_on_the_panel() {
    assert_eq!(Pages::get_field_xy(0), (10, 25));
    assert_eq!(Pages::get_field_xy(14), (150, 25));
    assert_eq!(Pages::get_field_xy(15), (10, 35));
    assert_eq!(Pages::get_field_xy(224), (150, 165));
}

#[test]
fn turning_choices() {
    assert_eq!(Pages::get_possible_dirs(&ArrowDir::Up), (ArrowDir::Left, ArrowDir::Right));
    assert_eq!(Pages::get_possible_dirs(&ArrowDir::Right), (ArrowDir::Up, ArrowDir::Down));
    assert_eq!(Pages::get_possible_dirs(&ArrowDir::Down), (ArrowDir::Right, ArrowDir::Left));
    assert_eq!(Pages::get_possible_dirs(&ArrowDir::Left), (ArrowDir::Down, ArrowDir::Up));
}

#[test]
fn next_steps() {
    assert_eq!(Pages::get_next_step(Event::NoEvent, &ArrowDir::Up, (3, 0)), (3, 0, ArrowDir::Up, true));
    assert_eq!(Pages::get_next_step(Event::BtnUp, &ArrowDir::Up, (3, 4)), (2, 4, ArrowDir::Left, false));
    assert_eq!(Pages::get_next_step(Event::BtnDown, &ArrowDir::Up, (14, 4)), (14, 4, ArrowDir::Right, true));
    assert_eq!(Pages::get_next_step(Event::Minute, &ArrowDir::Down, (3, 13)), (3, 14, ArrowDir::Down, false));
    assert_eq!(Pages::get_next_step(Event::NoEvent, &ArrowDir::Down, (3, 14)), (3, 14, ArrowDir::Down, true));
}

#[test]
fn connected_snake_cells() {
    let mut state = GameState::new();
    // the starting snake: head at 190, tail at 191 right of it
    assert!(Pages::is_connected(&state, 190, ArrowDir::Right));
    assert!(Pages::is_connected(&state, 191, ArrowDir::Left));
    assert!(!Pages::is_connected(&state, 190, ArrowDir::Up));
    // the field wraps around at its edges
    state.field[0] = 2;
    state.field[14] = 3;
    state.field[210] = 4;
    assert!(Pages::is_connected(&state, 0, ArrowDir::Left));
    assert!(Pages::is_connected(&state, 14, ArrowDir::Right));
    assert!(!Pages::is_connected(&state, 0, ArrowDir::Up));
    // the apple is never a neighbour
    state.field[1] = 1;
    state.field[16] = 2;
    assert!(!Pages::is_connected(&state, 16, ArrowDir::Up));
}

/// The snake's parts are numbered 2 (the head) to `snake_len + 1`, each once.
fn whole(state: &GameState) -> bool {
    let head = state.curr_pos.1 as usize * 15 + state.curr_pos.0 as usize;
    let mut seen = vec![0u32; 256];
    for v in state.field.iter() {
        if *v >= 2 {
            seen[*v as usize] += 1;
        }
    }
    state.field[head] == 2
        && (2..=state.snake_len as usize + 1).all(|v| seen[v] == 1)
        && seen.iter().enumerate().all(|(v, c)| *c == 0 || (2..=state.snake_len as usize + 1).contains(&v))
}

#[test]
fn the_snake_stays_whole() {
    let mut state = playing();
    assert!(whole(&state));
    let evs = [
        Event::BtnDown, Event::NoEvent, Event::NoEvent, Event::NoEvent, Event::NoEvent,
        Event::NoEvent, Event::NoEvent, Event::NoEvent, Event::NoEvent, Event::BtnUp,
        Event::BtnUp, Event::BtnUp, Event::NoEvent, Event::BtnDown, Event::NoEvent,
    ];
    for ev in evs {
        Pages::update_game(ev, &mut state);
        assert!(whole(&state));
    }
    assert_eq!(state.snake_len, 3);
}
