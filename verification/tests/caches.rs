use network_power_4::caches::{
    KnowledgeCache, KnowledgeCacheMultiThread, KnowledgeCacheSingleThread,
};
use network_power_4::{Board, End, Play, Player};

fn board_after(columns: &[usize]) -> Board {
    let mut board = Board::default();
    let mut player = Player::FIRST;
    for c in columns {
        let p = Play::try_from((*c, player)).unwrap();
        board = board.apply(p).unwrap().0;
        player = player.other();
    }
    board
}

fn exercise<C: KnowledgeCache>(cache: &mut C) {
    let a = board_after(&[0]);
    let b = board_after(&[1]);
    let won = End::Win {
        player: Player::FIRST,
    };
    assert!(cache.is_empty());
    assert_eq!(cache.len(), 0);
    assert_eq!(cache.lookup(a, Player::SECOND), None);

    cache.remember(a, Player::SECOND, 3, won);
    assert_eq!(cache.len(), 1);
    assert!(!cache.is_empty());
    assert_eq!(cache.lookup(a, Player::SECOND), Some((3, won)));
    assert_eq!(cache.lookup(a, Player::FIRST), None);
    assert_eq!(cache.lookup(b, Player::SECOND), None);

    cache.remember(b, Player::SECOND, 5, End::Stall);
    assert_eq!(cache.len(), 2);
    assert_eq!(cache.lookup(b, Player::SECOND), Some((5, End::Stall)));
    assert_eq!(cache.lookup(a, Player::SECOND), Some((3, won)));

    // The last writer wins.
    cache.remember(a, Player::SECOND, 7, End::Stall);
    assert_eq!(cache.len(), 2);
    assert_eq!(cache.lookup(a, Player::SECOND), Some((7, End::Stall)));

    // The same again changes nothing.
    cache.remember(a, Player::SECOND, 7, End::Stall);
    assert_eq!(cache.len(), 2);
    assert_eq!(cache.lookup(a, Player::SECOND), Some((7, End::Stall)));

    cache.clean();
    assert_eq!(cache.len(), 0);
    assert!(cache.is_empty());
    assert_eq!(cache.lookup(a, Player::SECOND), None);
}

#[test]
fn single_thread_cache() {
    let mut cache = KnowledgeCacheSingleThread::default();
    exercise(&mut cache);
}

#[test]
fn multi_thread_cache() {
    let mut cache = KnowledgeCacheMultiThread::default();
    exercise(&mut cache);
}

#[test]
fn single_thread_clone_is_a_cache_of_its_own() {
    let mut cache = KnowledgeCacheSingleThread::default();
    let a = board_after(&[0]);
    cache.remember(a, Player::SECOND, 1, End::Stall);
    let mut copy = cache.clone();
    assert_eq!(copy.lookup(a, Player::SECOND), Some((1, End::Stall)));
    copy.clean();
    assert_eq!(cache.len(), 1);
    assert_eq!(copy.len(), 0);
}

#[test]
fn multi_thread_clones_share_their_entries() {
    let mut cache = KnowledgeCacheMultiThread::default();
    let mut other = cache.clone();
    let a = board_after(&[0]);
    let b = board_after(&[0, 1]);
    cache.remember(a, Player::SECOND, 2, End::Stall);
    assert_eq!(other.lookup(a, Player::SECOND), Some((2, End::Stall)));
    other.remember(b, Player::FIRST, 4, End::Stall);
    assert_eq!(cache.lookup(b, Player::FIRST), Some((4, End::Stall)));
    assert_eq!(cache.len(), 2);
    other.clean();
    assert!(cache.is_empty());
}

#[test]
fn multi_thread_cache_with_readers_between_writes() {
    let cache = KnowledgeCacheMultiThread::default();
    let mut boards = Vec::new();
    let mut board = Board::default();
    let mut player = Player::FIRST;
    for i in 0..40usize {
        let p = Play::try_from((i % 9, player)).unwrap();
        board = board.apply(p).unwrap().0;
        player = player.other();
        boards.push(board);
    }
    let readers = [cache.clone(), cache.clone(), cache.clone()];
    let mut writer = cache.clone();
    for (i, b) in boards.iter().enumerate() {
        for reader in &readers {
            assert_eq!(reader.lookup(*b, Player::FIRST), None);
            assert_eq!(reader.len(), i);
        }
        writer.remember(*b, Player::FIRST, i % 9, End::Stall);
        for reader in &readers {
            // What was written is seen at once, and nothing older is lost.
            for (j, seen) in boards.iter().enumerate().take(i + 1) {
                assert_eq!(
                    reader.lookup(*seen, Player::FIRST),
                    Some((j % 9, End::Stall))
                );
            }
        }
    }
    assert_eq!(cache.len(), boards.len());
}
