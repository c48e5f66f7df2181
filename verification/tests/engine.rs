use sokoban::board::{Board, Entity, Offset, Position};
use sokoban::state::State;

fn level(rows: [&str; 10]) -> String {
    rows.concat()
}

fn walled_level(middle_rows: [&str; 8]) -> String {
    let mut s = String::from("##########");
    for row in middle_rows {
        assert_eq!(row.len(), 10);
        s.push_str(row);
    }
    s.push_str("##########");
    s
}

#[test]
fn load_round_trip_renders_level() {
    let s = level([
        "##########",
        "#        #",
        "#        #",
        "#        #",
        "#   @  o #",
        "#        #",
        "#    o   #",
        "#        #",
        "#        #",
        "##########",
    ]);
    let mut st = State::load(&s).expect("a well-formed level loads");
    st.goals = Vec::new();
    let rendered = st.render();
    let mut expected = String::new();
    for y in 0..10 {
        expected.push_str(&s[y * 10..(y + 1) * 10]);
        expected.push('\n');
    }
    assert_eq!(rendered, expected);
}

#[test]
fn wall_blocked_move_is_noop_except_counter() {
    let s = walled_level([
        "#@       #",
        "#        #",
        "#        #",
        "#        #",
        "#        #",
        "#        #",
        "#        #",
        "#        #",
    ]);
    let mut st = State::load(&s).expect("level loads");
    let before = st.render();
    st.move_player(Offset { x: 0, y: -1 });
    assert_eq!(st.player_pos, Position::new(1, 1));
    assert_eq!(st.moves, 1);
    assert_eq!(st.render(), before);
    assert!(st.running);
}

#[test]
fn push_moves_player_and_crate() {
    let s = walled_level([
        "#        #",
        "#        #",
        "#        #",
        "#@o      #",
        "#        #",
        "#        #",
        "#        #",
        "#        #",
    ]);
    let mut st = State::load(&s).expect("level loads");
    st.move_player(Offset { x: 1, y: 0 });
    assert_eq!(st.player_pos, Position::new(2, 4));
    assert_eq!(*st.board.tile_at(Position::new(1, 4)), Entity::Floor);
    assert_eq!(*st.board.tile_at(Position::new(2, 4)), Entity::Player);
    assert_eq!(*st.board.tile_at(Position::new(3, 4)), Entity::Crate);
    // a successful push re-enters movement resolution, so it costs two moves
    assert_eq!(st.moves, 2);
}

#[test]
fn blocked_push_changes_nothing_but_counter() {
    let s = walled_level([
        "#        #",
        "#        #",
        "#        #",
        "#@o#     #",
        "#        #",
        "#        #",
        "#        #",
        "#        #",
    ]);
    let mut st = State::load(&s).expect("level loads");
    st.move_player(Offset { x: 1, y: 0 });
    assert_eq!(st.player_pos, Position::new(1, 4));
    assert_eq!(*st.board.tile_at(Position::new(1, 4)), Entity::Player);
    assert_eq!(*st.board.tile_at(Position::new(2, 4)), Entity::Crate);
    assert_eq!(*st.board.tile_at(Position::new(3, 4)), Entity::Wall);
    assert_eq!(st.moves, 1);
}

#[test]
fn covered_goals_win_on_next_move() {
    let s = walled_level([
        "#@       #",
        "# o      #",
        "#  o     #",
        "#        #",
        "#        #",
        "#        #",
        "#        #",
        "#        #",
    ]);
    let mut st = State::load(&s).expect("level loads");
    st.goals = vec![Position::new(2, 2), Position::new(3, 3)];
    assert!(st.running);
    // even a no-op move against the wall re-evaluates the win condition
    st.move_player(Offset { x: 0, y: -1 });
    assert!(!st.running);
    assert_eq!(st.moves, 1);
}

#[test]
fn uncovered_goal_keeps_game_running() {
    let s = walled_level([
        "#@       #",
        "# o      #",
        "#        #",
        "#        #",
        "#        #",
        "#        #",
        "#        #",
        "#        #",
    ]);
    let mut st = State::load(&s).expect("level loads");
    st.goals = vec![Position::new(2, 1), Position::new(5, 5)];
    st.move_player(Offset { x: 0, y: 1 });
    assert!(st.running);
}

#[test]
fn load_rejects_short_string() {
    assert!(State::load("@").is_none());
    let s = "@".to_string() + &" ".repeat(98);
    assert_eq!(s.len(), 99);
    assert!(State::load(&s).is_none());
}

#[test]
fn load_rejects_long_string() {
    let s = "@".to_string() + &" ".repeat(100);
    assert_eq!(s.len(), 101);
    assert!(State::load(&s).is_none());
}

#[test]
fn load_rejects_unknown_character() {
    let s = "@".to_string() + &" ".repeat(98) + "z";
    assert_eq!(s.len(), 100);
    assert!(State::load(&s).is_none());
}

#[test]
fn load_rejects_missing_player() {
    let s = " ".repeat(100);
    assert!(State::load(&s).is_none());
}

#[test]
fn load_rejects_second_player() {
    let s = "@@".to_string() + &" ".repeat(98);
    assert_eq!(s.len(), 100);
    assert!(State::load(&s).is_none());
}

#[test]
fn step_off_grid_is_a_blocked_move() {
    let s = "@".to_string() + &" ".repeat(99);
    let mut st = State::load(&s).expect("level loads");
    assert_eq!(st.player_pos, Position::new(0, 0));
    let applicable = st.try_move_player(Offset { x: -1, y: 0 });
    assert!(!applicable);
    assert_eq!(st.player_pos, Position::new(0, 0));
    assert_eq!(st.moves, 1);
    let applicable = st.try_move_player(Offset { x: 1, y: 0 });
    assert!(applicable);
    assert_eq!(st.player_pos, Position::new(1, 0));
    assert_eq!(st.moves, 2);
}

#[test]
fn exactly_one_player_cell_after_moves() {
    let s = walled_level([
        "#        #",
        "#        #",
        "#        #",
        "#   @ o  #",
        "#        #",
        "#        #",
        "#        #",
        "#        #",
    ]);
    let mut st = State::load(&s).expect("level loads");
    st.goals = Vec::new();
    st.move_player(Offset { x: 1, y: 0 });
    st.move_player(Offset { x: 0, y: 1 });
    st.move_player(Offset { x: 1, y: 0 });
    let rendered = st.render();
    let players = rendered.chars().filter(|c| *c == '@').count();
    assert_eq!(players, 1);
    let p = st.player_pos;
    let line_start = p.y * 11;
    assert_eq!(rendered.as_bytes()[line_start + p.x], b'@');
}

#[test]
fn board_has_one_entity_per_cell() {
    let s = "@".to_string() + &" ".repeat(99);
    let st = State::load(&s).expect("level loads");
    assert_eq!(st.board.entities.len(), 100);
    for y in 0..10 {
        for x in 0..10 {
            // every cell answers with exactly one entity
            let e = *st.board.tile_at(Position::new(x, y));
            if x == 0 && y == 0 {
                assert_eq!(e, Entity::Player);
            } else {
                assert_eq!(e, Entity::Floor);
            }
        }
    }
}

#[test]
fn goal_cells_render_goal_glyphs() {
    let s = walled_level([
        "#@       #",
        "#        #",
        "#        #",
        "#   o    #",
        "#        #",
        "#        #",
        "#        #",
        "#        #",
    ]);
    let mut st = State::load(&s).expect("level loads");
    st.goals = vec![Position::new(1, 1), Position::new(2, 2), Position::new(4, 4)];
    let rendered = st.render();
    let b = rendered.as_bytes();
    // player on a goal keeps its own glyph
    assert_eq!(b[1 * 11 + 1], b'@');
    // an empty goal cell shows the goal marker
    assert_eq!(b[2 * 11 + 2], b'g');
    // a crate on a goal is shown covered
    assert_eq!(b[4 * 11 + 4], b'O');
    // every row ends with a newline
    for y in 0..10 {
        assert_eq!(b[y * 11 + 10], b'\n');
    }
}

#[test]
fn contains_goal_answers_membership() {
    let s = "@".to_string() + &" ".repeat(99);
    let st = State::load(&s).expect("level loads");
    // a freshly loaded game carries its single default goal cell
    assert!(st.contains_goal(Position::new(1, 1)));
    assert!(!st.contains_goal(Position::new(0, 0)));
}

#[test]
fn to_index_is_row_major() {
    let b = Board::new(7, 5);
    assert_eq!(b.to_index(Position::new(0, 0)), 0);
    assert_eq!(b.to_index(Position::new(3, 2)), 17);
    assert_eq!(b.to_index(Position::new(6, 4)), 34);
    assert_eq!(*b.tile_at(Position::new(3, 2)), Entity::Floor);
}

#[test]
fn position_offset_adds_deltas() {
    let p = Position::new(5, 5).offset(Offset { x: -1, y: 1 });
    assert_eq!(p, Position::new(4, 6));
    let q = Position::new(0, 3).offset(Offset { x: 0, y: -3 });
    assert_eq!(q, Position::new(0, 0));
}

#[test]
fn swap_tile_exchanges_cells() {
    let mut b = Board::new(2, 1);
    b.entities[0] = Entity::Wall;
    b.swap_tile(Position::new(0, 0), Position::new(1, 0));
    assert_eq!(*b.tile_at(Position::new(0, 0)), Entity::Floor);
    assert_eq!(*b.tile_at(Position::new(1, 0)), Entity::Wall);
}

#[test]
fn try_offset_checks_bounds() {
    let b = Board::new(3, 3);
    assert_eq!(b.try_offset(Position::new(0, 0), Offset { x: -1, y: 0 }), None);
    assert_eq!(b.try_offset(Position::new(2, 2), Offset { x: 0, y: 1 }), None);
    assert_eq!(
        b.try_offset(Position::new(1, 1), Offset { x: 1, y: -1 }),
        Some(Position::new(2, 0))
    );
}
