use tetris_engine::board::empty_board;
use tetris_engine::board::BoardContent;
use tetris_engine::game::offset_table;
use tetris_engine::game::offset_table_i;
use tetris_engine::game::offsets;
use tetris_engine::game::rotation_candidates;
use tetris_engine::game::spawn;
use tetris_engine::game::start_position;
use tetris_engine::game::Direction;
use tetris_engine::game::Game;
use tetris_engine::position::Position;
use tetris_engine::randombag::RandomBag;
use tetris_engine::source::ShapeSource;
use tetris_engine::tetromino::all_shapes;
use tetris_engine::tetromino::Orientation;
use tetris_engine::tetromino::Shape;
use tetris_engine::tetromino::Tetromino;

fn drop_left(game: &mut Game) -> usize {
    let mut move_cnt: usize = 0;
    while game.move_left() {
        move_cnt += 1;
    }
    move_cnt
}

fn drop_right(game: &mut Game) -> usize {
    let mut move_cnt: usize = 0;
    while game.move_right() {
        move_cnt += 1;
    }
    move_cnt
}

#[test]
fn test_starting_position() {
    let mut game = Game::new();
    assert_eq!(game.current_tetromino.position, start_position());
    for orientation in [
        Orientation::North,
        Orientation::East,
        Orientation::South,
        Orientation::West,
    ] {
        assert_eq!(game.current_tetromino.orientation, orientation);
        assert!(game.board.can_put(&game.current_tetromino));
        assert!(game.rotate_clockwise());
    }
}

#[test]
fn test_spawn() {
    let mut game = Game::new();
    game.spawn();
    assert!(game.current_tetromino.position == start_position());
    assert!(game.current_tetromino.orientation == Orientation::North);
}

#[test]
fn test_put_currrent_tetronimo() {
    let mut game = Game::new();
    assert!(game.put_current_tetromino());
    assert!(!game.put_current_tetromino());
}

#[test]
fn test_move_down() {
    let mut game = Game::new();
    game.spawn();
    assert!(game.move_down());
    game.put_current_tetromino();
    assert!(!game.move_down());
}

#[test]
fn test_move_left() {
    let mut game = Game::new();
    game.spawn();
    assert_eq!(drop_left(&mut game), 3);
}

#[test]
fn test_move_right() {
    let mut game = Game::new();
    game.spawn();
    assert_eq!(drop_right(&mut game), 3);
}

#[test]
fn test_rotate_clockwise() {
    let mut game = Game::new();
    game.spawn();
    let expected_orientation = game.current_tetromino.get_rotated_clockwise().orientation;
    assert!(game.rotate_clockwise());
    assert_eq!(game.current_tetromino.position, start_position() + [1, 0]);
    assert_eq!(game.current_tetromino.orientation, expected_orientation);
}

#[test]
fn test_wallkick_i() {
    let mut game = Game::new();
    game.spawn();
    game.rotate_clockwise();
    drop_left(&mut game);
    assert_eq!(game.current_tetromino.position, start_position() - [4, 0]);
    game.rotate_counterclockwise();
    assert_eq!(game.current_tetromino.position, start_position() - [3, 0]);
    assert_eq!(game.current_tetromino.orientation, Orientation::North);
}

#[test]
fn test_rotate_counterclockwise() {
    let mut game = Game::new();
    game.spawn();
    let expected_orientation = game
        .current_tetromino
        .get_rotated_counterclockwise()
        .orientation;
    assert!(game.rotate_counterclockwise());
    println!("{:?}", game.current_tetromino.position);
    assert_eq!(game.current_tetromino.position, start_position() + [0, -1]);
    assert_eq!(game.current_tetromino.orientation, expected_orientation);
}

#[test]
fn test_drop() {
    let mut game = Game::new();
    game.spawn();
    game.drop();
    assert_eq!(game.current_tetromino.position, Position::new(4, 0));
}

#[test]
fn test_tick() {
    let mut game = Game::new();
    game.spawn();
    assert!(game.tick());
    assert_eq!(game.current_tetromino.position, start_position() - [0, 1]);
    game.drop();
    assert!(game.tick());
    assert_eq!(game.current_tetromino.position, start_position());
    game.move_down();
    game.put_current_tetromino();
    game.spawn();
    // The piece comes to rest in the row where pieces enter, so the one
    // that enters next has no room: the game is over at once.
    assert!(!game.tick());
    assert!(!game.tick());
}

#[test]
fn test_play_game_fill_one_line() {
    let mut game = Game::new();
    game.spawn();
    drop_left(&mut game);
    game.drop();
    game.tick();
    drop_right(&mut game);
    game.drop();
    game.tick();
    game.rotate_clockwise();
    game.drop();
    game.tick();
    game.rotate_counterclockwise();
    game.drop();
    game.tick();
    assert_eq!(game.lines_removed(), 1);
}

#[test]
fn test_game() {
    let board = empty_board();
    let tetromino = spawn(Shape::I);
    assert_eq!(tetromino.position, Position::new(4, 22));
    assert!(board.can_put(&tetromino));
}

#[test]
fn a_new_game_is_empty_and_starts_with_an_i() {
    let game = Game::new();
    assert_eq!(game.lines_removed(), 0);
    assert_eq!(game.lines_removed, 0);
    assert_eq!(game.current_tetromino, Tetromino::new(Position::new(4, 22), Shape::I));
    for y in 0..24 {
        for x in 0..10 {
            assert_eq!(game.board.get(Position::new(x, y)), BoardContent::Empty);
        }
    }
    assert!(matches!(game.shapes, ShapeSource::Fixed(Shape::I)));
}

#[test]
fn spawn_gives_a_fresh_piece_of_each_shape() {
    assert_eq!(start_position(), Position::new(4, 22));
    for shape in all_shapes() {
        let piece = spawn(shape);
        assert_eq!(piece.position, Position::new(4, 22));
        assert_eq!(piece.shape, shape);
        assert_eq!(piece.orientation, Orientation::North);
        assert!(empty_board().can_put(&piece));
    }
}

#[test]
fn hard_drop_of_an_i_rests_on_the_floor() {
    let mut game = Game::new();
    game.spawn();
    assert_eq!(game.current_tetromino.shape, Shape::I);
    game.drop();
    assert_eq!(game.current_tetromino.position.y, 0);
    assert_eq!(game.current_tetromino.orientation, Orientation::North);
    assert_eq!(
        game.current_tetromino.blocks(),
        [Position::new(3, 0), Position::new(4, 0), Position::new(5, 0), Position::new(6, 0)]
    );
    assert!(!game.move_down());
    game.drop();
    assert_eq!(game.current_tetromino.position, Position::new(4, 0));
}

#[test]
fn hard_drop_rests_on_what_lies_below() {
    let mut game = Game::new();
    game.board.set(Position::new(6, 5), Shape::O);
    game.drop();
    assert_eq!(game.current_tetromino.position, Position::new(4, 6));
    assert!(game.move_left());
    assert!(game.move_left());
    assert!(game.move_left());
    assert!(!game.move_left());
    game.drop();
    assert_eq!(game.current_tetromino.position, Position::new(1, 0));
}

#[test]
fn a_refused_move_changes_nothing() {
    let mut game = Game::new();
    drop_left(&mut game);
    let before = game.current_tetromino;
    assert!(!game.move_left());
    assert_eq!(game.current_tetromino, before);
    game.drop();
    let resting = game.current_tetromino;
    assert!(!game.move_down());
    assert_eq!(game.current_tetromino, resting);
    assert_eq!(game.lines_removed(), 0);
}

#[test]
fn a_refused_turn_changes_nothing() {
    let mut game = Game::new();
    for y in 0..24 {
        for x in 0..10 {
            if !(3..=6).contains(&x) || y != 22 {
                game.board.set(Position::new(x, y), Shape::O);
            }
        }
    }
    let before = game.current_tetromino;
    assert!(game.board.can_put(&before));
    assert!(!game.rotate_clockwise());
    assert_eq!(game.current_tetromino, before);
    assert!(!game.rotate_counterclockwise());
    assert_eq!(game.current_tetromino, before);
}

#[test]
fn a_turn_takes_the_first_candidate_that_fits() {
    let mut game = Game::new();
    game.board.set(Position::new(5, 20), Shape::O);
    let candidates = rotation_candidates(game.current_tetromino, Direction::Clockwise);
    assert!(!game.board.can_put(&candidates[0]));
    assert!(game.board.can_put(&candidates[1]));
    assert_eq!(game.test_candidates(candidates.clone()), Some(candidates[1]));
    assert!(game.rotate_clockwise());
    assert_eq!(game.current_tetromino, candidates[1]);
    assert_eq!(game.current_tetromino.position, Position::new(3, 22));
    assert_eq!(game.current_tetromino.orientation, Orientation::East);
}

#[test]
fn candidates_are_tried_in_their_order() {
    let mut game = Game::new();
    let piece = game.current_tetromino;
    let outside = piece.get_moved(Position::new(0, 0));
    let first = piece.get_moved(Position::new(1, 0));
    let second = piece.get_moved(Position::new(2, 0));
    assert_eq!(game.test_candidates(vec![]), None);
    assert_eq!(game.test_candidates(vec![outside]), None);
    assert_eq!(game.test_candidates(vec![outside, first, second]), Some(first));
    assert_eq!(game.test_candidates(vec![second, first]), Some(second));
    assert!(!game.update_tetromino(vec![outside, outside]));
    assert_eq!(game.current_tetromino, piece);
    assert!(game.update_tetromino(vec![outside, second, first]));
    assert_eq!(game.current_tetromino, second);
}

#[test]
fn kicks_of_the_i_shape() {
    assert_eq!(
        offset_table_i(Orientation::North),
        vec![[0, 0], [-1, 0], [2, 0], [-1, 0], [2, 0]]
    );
    assert_eq!(
        offset_table_i(Orientation::East),
        vec![[-1, 0], [0, 0], [0, 0], [0, 1], [0, -2]]
    );
    assert_eq!(
        offset_table_i(Orientation::South),
        vec![[-1, 1], [1, 1], [-2, 1], [1, 0], [-2, 0]]
    );
    assert_eq!(
        offset_table_i(Orientation::West),
        vec![[0, 1], [0, 1], [0, 1], [0, -1], [0, 2]]
    );
    assert_eq!(offset_table(Shape::I, Orientation::South), offset_table_i(Orientation::South));
    assert_eq!(
        offsets(Shape::I, Orientation::North, Orientation::East),
        vec![[1, 0], [-1, 0], [2, 0], [-1, -1], [2, 2]]
    );
    assert_eq!(
        offsets(Shape::I, Orientation::East, Orientation::North),
        vec![[-1, 0], [1, 0], [-2, 0], [1, 1], [-2, -2]]
    );
    assert_eq!(
        offsets(Shape::I, Orientation::North, Orientation::North),
        vec![[0, 0], [0, 0], [0, 0], [0, 0], [0, 0]]
    );
}

#[test]
fn the_other_shapes_turn_in_place() {
    for shape in all_shapes() {
        if shape == Shape::I {
            continue;
        }
        for orientation in [
            Orientation::North,
            Orientation::East,
            Orientation::South,
            Orientation::West,
        ] {
            assert_eq!(offset_table(shape, orientation), vec![[0, 0]]);
        }
        assert_eq!(offsets(shape, Orientation::North, Orientation::East), vec![[0, 0]]);
        let piece = spawn(shape);
        assert_eq!(
            rotation_candidates(piece, Direction::Clockwise),
            vec![piece.get_rotated_clockwise()]
        );
        assert_eq!(
            rotation_candidates(piece, Direction::CounterClockwise),
            vec![piece.get_rotated_counterclockwise()]
        );
    }
}

#[test]
fn kicks_cancel_over_four_turns() {
    let turns = [
        (Orientation::North, Orientation::East),
        (Orientation::East, Orientation::South),
        (Orientation::South, Orientation::West),
        (Orientation::West, Orientation::North),
    ];
    for shape in all_shapes() {
        let places = offset_table(shape, Orientation::North).len();
        let mut sums = vec![[0, 0]; places];
        for (from, to) in turns {
            let there = offsets(shape, from, to);
            let back = offsets(shape, to, from);
            assert_eq!(there.len(), places);
            for i in 0..places {
                sums[i][0] += there[i][0];
                sums[i][1] += there[i][1];
                assert_eq!(back[i], [-there[i][0], -there[i][1]]);
            }
        }
        assert_eq!(sums, vec![[0, 0]; places]);
    }
}

#[test]
fn four_turns_bring_the_piece_back() {
    let mut game = Game::new();
    game.move_down();
    game.move_down();
    let before = game.current_tetromino;
    for _ in 0..4 {
        assert!(game.rotate_clockwise());
    }
    assert_eq!(game.current_tetromino, before);
    for _ in 0..4 {
        assert!(game.rotate_counterclockwise());
    }
    assert_eq!(game.current_tetromino, before);
    assert!(game.rotate_clockwise());
    assert!(game.rotate_counterclockwise());
    assert_eq!(game.current_tetromino, before);
}

#[test]
fn the_counterclockwise_turn_goes_the_other_way() {
    let piece = spawn(Shape::I).get_moved_down();
    let clockwise = rotation_candidates(piece, Direction::Clockwise);
    let counter = rotation_candidates(piece, Direction::CounterClockwise);
    assert_eq!(clockwise.len(), 5);
    assert_eq!(counter.len(), 5);
    for candidate in &clockwise {
        assert_eq!(candidate.orientation, Orientation::East);
    }
    for candidate in &counter {
        assert_eq!(candidate.orientation, Orientation::West);
    }
    assert_eq!(
        counter.iter().map(|t| t.position).collect::<Vec<Position>>(),
        vec![
            Position::new(4, 20),
            Position::new(3, 20),
            Position::new(6, 20),
            Position::new(3, 22),
            Position::new(6, 19),
        ]
    );
    assert_eq!(
        clockwise.iter().map(|t| t.position).collect::<Vec<Position>>(),
        vec![
            Position::new(5, 21),
            Position::new(3, 21),
            Position::new(6, 21),
            Position::new(3, 20),
            Position::new(6, 23),
        ]
    );
}

#[test]
fn a_tick_locks_the_resting_piece_and_counts_the_full_rows() {
    let mut game = Game::new();
    for x in 0..10 {
        if !(3..=6).contains(&x) {
            game.board.set(Position::new(x, 0), Shape::O);
            game.board.set(Position::new(x, 1), Shape::O);
        }
    }
    game.board.set(Position::new(0, 2), Shape::T);
    game.drop();
    assert_eq!(game.current_tetromino.position, Position::new(4, 0));
    assert!(game.tick());
    assert_eq!(game.lines_removed(), 1);
    assert_eq!(game.current_tetromino, spawn(Shape::I));
    assert_eq!(game.board.get(Position::new(0, 0)), BoardContent::Tetromino(Shape::O));
    assert_eq!(game.board.get(Position::new(4, 0)), BoardContent::Empty);
    assert_eq!(game.board.get(Position::new(0, 1)), BoardContent::Tetromino(Shape::T));
    assert_eq!(game.board.get(Position::new(0, 2)), BoardContent::Empty);
    game.drop();
    assert!(game.tick());
    assert_eq!(game.lines_removed(), 2);
    assert_eq!(game.board.get(Position::new(0, 0)), BoardContent::Tetromino(Shape::T));
    assert_eq!(game.board.get(Position::new(1, 0)), BoardContent::Empty);
}

#[test]
fn the_game_is_over_when_the_next_piece_has_no_room() {
    let mut game = Game::new();
    let mut ticks = 0;
    while game.tick() {
        ticks += 1;
        assert!(ticks < 1000);
        assert!(game.board.can_put(&game.current_tetromino));
    }
    assert!(!game.board.can_put(&game.current_tetromino));
    assert_eq!(game.current_tetromino, spawn(Shape::I));
    assert_eq!(game.lines_removed(), 0);
    assert_eq!(game.board.get(Position::new(4, 22)), BoardContent::Tetromino(Shape::I));
}

#[test]
fn a_game_with_a_bag_draws_its_pieces_from_it() {
    let bag = RandomBag::new();
    let expected = bag.contents();
    let mut game = Game::with_bag(bag);
    assert_eq!(game.lines_removed(), 0);
    assert_eq!(game.current_tetromino, spawn(expected[0]));
    for shape in &expected[1..7] {
        game.spawn();
        assert_eq!(game.current_tetromino, spawn(*shape));
    }
    let mut seen: Vec<Shape> = Vec::new();
    for _ in 0..7 {
        game.spawn();
        assert!(!seen.contains(&game.current_tetromino.shape));
        seen.push(game.current_tetromino.shape);
    }
    assert_eq!(&seen[..], &expected[7..14]);
}

#[test]
fn a_game_with_a_bag_plays_until_it_is_over() {
    let mut game = Game::with_bag(RandomBag::new());
    let mut ticks = 0;
    loop {
        game.drop();
        ticks += 1;
        assert!(ticks < 1000);
        if !game.tick() {
            break;
        }
        assert!(game.board.can_put(&game.current_tetromino));
    }
    assert!(!game.board.can_put(&game.current_tetromino));
    assert_eq!(game.current_tetromino.position, start_position());
}
