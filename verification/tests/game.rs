use network_power_4::game::board::ApplyError;
use network_power_4::game::play;
use network_power_4::network::{AIType, Roles};
use network_power_4::utils::string_to_ord;
use network_power_4::{Board, End, Game, GamePlayError, Play, Player};

#[test]
fn default_game_starts_with_first() {
    let game = Game::default();
    assert_eq!(game.next_to_play(), Player::FIRST);
    assert_eq!(game.board(), Board::default());
    assert!(game.history().is_empty());
    assert_eq!(game.end(), None);
}

#[test]
fn play_alternates_and_records() {
    let mut game = Game::default();
    assert_eq!(game.play(4), Ok(None));
    assert_eq!(game.next_to_play(), Player::SECOND);
    assert_eq!(game.play(4), Ok(None));
    assert_eq!(game.next_to_play(), Player::FIRST);
    let history = game.history();
    assert_eq!(history.len(), 2);
    assert_eq!(history[0].column(), 4);
    assert_eq!(history[0].player(), Player::FIRST);
    assert_eq!(history[1].column(), 4);
    assert_eq!(history[1].player(), Player::SECOND);
    assert_eq!(game.board().get(0, 4), Some(Player::FIRST));
    assert_eq!(game.board().get(1, 4), Some(Player::SECOND));
}

#[test]
fn play_refuses_a_column_off_the_board() {
    let mut game = Game::default();
    game.play(1).unwrap();
    let before = game.clone();
    assert_eq!(game.play(9), Err(GamePlayError::OutOfBound));
    assert_eq!(game.play(usize::MAX), Err(GamePlayError::OutOfBound));
    assert_eq!(game, before);
}

#[test]
fn play_refuses_a_full_column() {
    let mut game = Game::default();
    for _ in 0..6 {
        assert_eq!(game.play(7), Ok(None));
    }
    let before = game.clone();
    assert_eq!(game.play(7), Err(GamePlayError::FullCollumn));
    assert_eq!(game, before);
    assert_eq!(game.next_to_play(), Player::FIRST);
    assert_eq!(game.history().len(), 6);
}

#[test]
fn play_reports_the_win() {
    let mut game = Game::default();
    for c in [0, 0, 1, 1, 2, 2] {
        assert_eq!(game.play(c), Ok(None));
    }
    let end = Some(End::Win {
        player: Player::FIRST,
    });
    assert_eq!(game.play(3), Ok(end));
    assert_eq!(game.end(), end);
}

#[test]
fn game_from_history() {
    let plays = vec![
        Play::try_from((3usize, Player::FIRST)).unwrap(),
        Play::try_from((3usize, Player::SECOND)).unwrap(),
        Play::try_from((2usize, Player::FIRST)).unwrap(),
    ];
    let game = Game::from(plays.clone());
    assert_eq!(game.history(), plays);
    assert_eq!(game.next_to_play(), Player::SECOND);
    assert_eq!(game.board().get(0, 3), Some(Player::FIRST));
    assert_eq!(game.board().get(1, 3), Some(Player::SECOND));
    assert_eq!(game.board().get(0, 2), Some(Player::FIRST));

    let mut played = Game::default();
    for c in [3, 3, 2] {
        played.play(c).unwrap();
    }
    assert_eq!(game, played);
    assert_eq!(Game::from(Vec::new()), Game::default());
}

#[test]
fn game_render_is_the_board_s() {
    let mut game = Game::default();
    game.play(0).unwrap();
    assert_eq!(game.render(), game.board().render());
    let text = String::from_utf8(game.render()).unwrap();
    assert!(text.contains("|o| | | | | | | | |"));
}

#[test]
fn roles_and_players_are_told_apart() {
    assert_ne!(Roles::Client, Roles::Host);
    assert_ne!(AIType::Short, AIType::ShortT);
    assert_eq!(AIType::Random, AIType::Random);
}

#[test]
fn string_to_ord_reads_the_first_character() {
    assert_eq!(string_to_ord("a"), Some(97));
    assert_eq!(string_to_ord("c3"), Some(99));
    assert_eq!(string_to_ord(""), None);
    assert_eq!(string_to_ord("é"), Some(233));
}

#[test]
fn errors_of_the_parts_become_errors_of_the_game() {
    assert_eq!(
        GamePlayError::from(play::Error::OutOfBound),
        GamePlayError::OutOfBound
    );
    assert_eq!(
        GamePlayError::from(ApplyError::ColumnFull),
        GamePlayError::FullCollumn
    );
}

#[test]
fn cloned_game_goes_its_own_way() {
    let mut game = Game::default();
    game.play(2).unwrap();
    let copy = game.clone();
    game.play(3).unwrap();
    assert_eq!(copy.history().len(), 1);
    assert_eq!(copy.next_to_play(), Player::SECOND);
    assert_eq!(game.history().len(), 2);
    assert_ne!(game, copy);
}
