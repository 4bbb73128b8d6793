use shut_the_box::Game;

#[test]
fn test_new_game() {
    let game = Game::new();
    assert_eq!(game.get_tiles(), vec![1; 9]);
    assert_eq!(game.get_score(), 45); // 1+2+3+4+5+6+7+8+9
    assert!(!game.is_game_over());
    assert_eq!(game.get_current_sum(), 0);
}

#[test]
fn test_default() {
    let game = Game::default();
    assert_eq!(game.get_tiles(), vec![1; 9]);
    assert_eq!(game.get_score(), 45);
}

#[test]
fn test_flip_tile() {
    let mut game = Game::new();

    // Valid tile flip
    assert!(game.flip_tile(5));
    let tiles = game.get_tiles();
    assert_eq!(tiles[4], 0); // tile 5 should be down

    // Invalid flips
    assert!(!game.flip_tile(0)); // out of range
    assert!(!game.flip_tile(10)); // out of range
    assert!(!game.flip_tile(5)); // already down
}

#[test]
fn test_valid_moves() {
    let mut game = Game::new();
    game.set_dice_values(3, 4); // sum = 7

    // Valid single tile
    assert!(game.is_valid_move(vec![7]));

    // Valid combination
    assert!(game.is_valid_move(vec![3, 4]));
    assert!(game.is_valid_move(vec![1, 2, 4]));

    // Invalid moves
    assert!(!game.is_valid_move(vec![8])); // wrong sum
    assert!(!game.is_valid_move(vec![1, 2])); // wrong sum
    assert!(!game.is_valid_move(vec![0])); // invalid tile
    assert!(!game.is_valid_move(vec![10])); // invalid tile
}

#[test]
fn test_make_move() {
    let mut game = Game::new();
    game.set_dice_values(2, 3); // sum = 5

    // Valid move
    assert!(game.make_move(vec![5]));
    assert_eq!(game.get_tiles()[4], 0); // tile 5 down
    assert_eq!(game.get_current_sum(), 0); // sum reset

    // Invalid move after tile is down
    game.set_dice_values(2, 3); // sum = 5 again
    assert!(!game.make_move(vec![5])); // tile already down
}

#[test]
fn test_win_condition() {
    let mut game = Game::new();

    // Flip all tiles except the last one
    for i in 1..=8 {
        game.flip_tile(i);
    }
    assert!(!game.is_game_over());

    // Flip last tile - should trigger win
    game.set_dice_values(4, 5); // sum = 9
    assert!(game.make_move(vec![9]));
    assert!(game.is_game_over());
    assert_eq!(game.get_score(), 0);
}

#[test]
fn test_dice_logic() {
    let mut game = Game::new();

    // With all tiles up (including 7, 8, 9), should use two dice
    let dice = game.roll_dice();
    assert!(dice[1] > 0); // second die should be used

    // Flip tiles 7, 8, 9 - tiles 1-6 remain, should use one die
    game.flip_tile(7);
    game.flip_tile(8);
    game.flip_tile(9);

    let dice = game.roll_dice();
    assert_eq!(dice[1], 0); // second die should be 0
    assert!(dice[0] >= 1 && dice[0] <= 6);

    // Test edge case: flip some low tiles but keep one high tile
    let mut game2 = Game::new();
    for i in 1..=6 {
        game2.flip_tile(i);
    }
    // Only tiles 7, 8, 9 remain - should use two dice
    let dice = game2.roll_dice();
    assert!(dice[1] > 0); // second die should be used
}

#[test]
fn test_game_over_detection() {
    let mut game = Game::new();

    // Set up a scenario where no moves are possible
    // Flip tiles to leave only 9 up, then roll a low sum
    for i in 1..=8 {
        game.flip_tile(i);
    }

    game.set_dice_values(1, 1); // sum = 2, but only tile 9 is up
    assert!(game.is_game_over()); // Should detect no valid moves
}

#[test]
fn test_reset() {
    let mut game = Game::new();

    // Make some changes
    game.set_dice_values(3, 4);
    game.make_move(vec![7]);

    // Reset and verify
    game.reset();
    assert_eq!(game.get_tiles(), vec![1; 9]);
    assert_eq!(game.get_score(), 45);
    assert!(!game.is_game_over());
    assert_eq!(game.get_current_sum(), 0);
}

#[test]
fn test_score_calculation() {
    let mut game = Game::new();

    // Initial score
    assert_eq!(game.get_score(), 45);

    // Flip some tiles
    game.flip_tile(1);
    game.flip_tile(9);
    assert_eq!(game.get_score(), 35); // 45 - 1 - 9 = 35

    // Flip more
    game.flip_tile(5);
    assert_eq!(game.get_score(), 30); // 35 - 5 = 30
}

#[test]
fn test_complex_combinations() {
    let mut game = Game::new();
    game.set_dice_values(6, 6); // sum = 12

    // Test various valid combinations that sum to 12
    assert!(game.is_valid_move(vec![1, 2, 9])); // 1+2+9=12
    assert!(game.is_valid_move(vec![3, 4, 5])); // 3+4+5=12
    assert!(game.is_valid_move(vec![1, 2, 3, 6])); // 1+2+3+6=12

    // Invalid combinations
    assert!(!game.is_valid_move(vec![1, 2, 8])); // 1+2+8=11
    assert!(!game.is_valid_move(vec![7, 6])); // 7+6=13
}

#[test]
fn test_no_active_roll_rejects_moves() {
    let mut game = Game::new();
    // No roll yet: every move fails closed, even a well-formed one.
    assert!(!game.is_valid_move(vec![5]));
    assert!(!game.make_move(vec![5]));
    assert_eq!(game.get_tiles(), vec![1; 9]);

    // The empty move never matches a positive sum.
    game.set_dice_values(3, 4);
    assert!(!game.is_valid_move(vec![]));
}

#[test]
fn test_duplicate_tiles_in_move() {
    let mut game = Game::new();
    game.set_dice_values(1, 1); // sum = 2

    // Duplicates are not rejected as such: [1, 1] lists a raised tile
    // twice and sums to the roll, so it is accepted and lowers tile 1.
    assert!(game.is_valid_move(vec![1, 1]));
    assert!(game.make_move(vec![1, 1]));
    let tiles = game.get_tiles();
    assert_eq!(tiles[0], 0); // tile 1 down
    assert_eq!(tiles[1], 1); // tile 2 untouched
    assert_eq!(game.get_score(), 44);
}

#[test]
fn test_frozen_after_game_over() {
    let mut game = Game::new();
    for i in 1..=8 {
        game.flip_tile(i);
    }
    game.set_dice_values(1, 1); // only tile 9 up: 2 is unreachable
    assert!(game.is_game_over());

    // Rolling after the end is a no-op echoing the last pair.
    let dice = game.roll_dice();
    assert_eq!(dice, vec![1, 1]);
    assert_eq!(game.get_current_sum(), 2);

    // Moves stay rejected, and the terminal flag never reverts.
    assert!(!game.make_move(vec![9]));

    // Injecting dice after the end is frozen too: the last roll stands.
    game.set_dice_values(4, 5); // 9 would be playable, but the game is over
    assert!(game.is_game_over());
    assert_eq!(game.get_current_sum(), 2);
    assert_eq!(game.roll_dice(), vec![1, 1]);
    assert_eq!(game.get_score(), 9);
}

#[test]
fn test_one_die_roll_always_playable() {
    let mut game = Game::new();
    game.flip_tile(7);
    game.flip_tile(8);
    game.flip_tile(9);
    // With tiles 1-6 raised, a single die in [1,6] always has a match.
    let dice = game.roll_dice();
    assert_eq!(dice[1], 0);
    assert!(!game.is_game_over());
    assert!(game.is_valid_move(vec![dice[0] as usize]));
}

#[test]
fn test_zero_sum_injection_is_playable() {
    let mut game = Game::new();
    // A sum of zero means "no active roll" and never ends the game.
    game.set_dice_values(0, 0);
    assert!(!game.is_game_over());
    assert_eq!(game.get_current_sum(), 0);
}

#[test]
fn test_reset_after_loss() {
    let mut game = Game::new();
    for i in 1..=8 {
        game.flip_tile(i);
    }
    game.set_dice_values(1, 1);
    assert!(game.is_game_over());

    game.reset();
    assert_eq!(game.get_tiles(), vec![1; 9]);
    assert_eq!(game.get_score(), 45);
    assert!(!game.is_game_over());
    assert_eq!(game.get_current_sum(), 0);
}
