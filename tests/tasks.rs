use embassy_sync::blocking_mutex::raw::NoopRawMutex;
use embassy_sync::pubsub::PubSubChannel;
use rand::rngs::SmallRng;
use rand::SeedableRng;
use two_four_eighteen::animation::{AnimationCoordinator, DisplayMode, DisplayModeController, Slide};
use two_four_eighteen::number_of_dice::NumberOfDice;
use two_four_eighteen::round::{play_round, GameResult};
use two_four_eighteen::seed_source::{SeedSource, ONE_SECOND_IN_MUS};
use two_four_eighteen::two_four_eighteen::Game;

#[test]
fn a_long_break_seeds_the_game() {
    let mut source = SeedSource::new();
    assert_eq!(source.on_edge(false, 1_000), None);
    assert_eq!(source.on_edge(true, 2_500_000), Some(2_499_000));
    assert_eq!(source.seed, Some(2_499_000));
    // every later break of the beam advances the game with the same value
    assert_eq!(source.on_edge(false, 3_000_000), Some(2_499_000));
    assert_eq!(source.on_edge(true, 3_000_010), None);
    assert_eq!(source.on_edge(false, 3_000_020), Some(2_499_000));
}

#[test]
fn a_short_break_starts_nothing() {
    let mut source = SeedSource::new();
    assert_eq!(source.on_edge(false, 0), None);
    assert_eq!(source.on_edge(true, ONE_SECOND_IN_MUS), None);
    assert_eq!(source.seed, None);
    assert_eq!(source.on_edge(false, 5_000_000), None);
    assert_eq!(source.beam_broken_at, Some(5_000_000));
    assert_eq!(source.on_edge(true, 6_000_001), Some(1_000_001));
}

#[test]
fn a_restored_beam_without_a_break_is_ignored() {
    let mut source = SeedSource::new();
    assert_eq!(source.on_edge(true, 9_000_000), None);
    assert_eq!(source.seed, None);
    assert_eq!(source.beam_broken_at, None);
}

#[test]
fn rounds_play_until_the_game_ends_then_reset() {
    for seed in 0..50u64 {
        let mut game = Game::new(SmallRng::seed_from_u64(seed));
        let mut playing = 0;
        loop {
            let ended_with_dice = game.dice_left == NumberOfDice::Zero;
            let fish = game.has_fish();
            let won = ended_with_dice && game.has_won();
            let score = if ended_with_dice { game.score() } else { 0 };
            let result = play_round(&mut game);
            if !ended_with_dice {
                assert!(result == GameResult::Playing);
                playing += 1;
                continue;
            }
            let expected = if fish {
                GameResult::Fish
            } else if won {
                GameResult::Won
            } else {
                GameResult::GameOver(score)
            };
            assert!(result == expected);
            assert!(result.is_final_state());
            assert!(game.dice_left == NumberOfDice::Five);
            assert_eq!(game.picked.len(), 0);
            break;
        }
        assert!(playing <= 5);
    }
}

#[test]
fn animation_alternates_message_and_dice_after_a_game() {
    let mut animation = AnimationCoordinator::new();
    assert_eq!(animation.on_tick(), None);
    assert_eq!(animation.on_result(GameResult::GameOver(7)), DisplayMode::Blink);
    assert_eq!(animation.on_tick(), Some(Slide::Message));
    assert_eq!(animation.on_tick(), Some(Slide::PickedDice));
    assert_eq!(animation.on_tick(), Some(Slide::Message));
    assert_eq!(animation.on_result(GameResult::Playing), DisplayMode::Solid);
    assert_eq!(animation.on_tick(), None);
    assert!(animation.show_message);
    assert_eq!(animation.on_result(GameResult::Fish), DisplayMode::Blink);
    assert_eq!(animation.on_tick(), Some(Slide::Message));
    assert_eq!(animation.on_result(GameResult::Won), DisplayMode::Blink);
    assert_eq!(animation.on_tick(), Some(Slide::Message));
}

#[test]
fn display_blinks_only_in_blink_mode() {
    let mut display = DisplayModeController::new();
    assert_eq!(display.on_tick(), None);
    assert!(display.on_mode(DisplayMode::Blink));
    assert_eq!(display.on_tick(), Some(false));
    assert_eq!(display.on_tick(), Some(true));
    assert!(!display.on_mode(DisplayMode::Solid));
    assert_eq!(display.on_tick(), None);
    assert!(!display.inverted);
}

#[test]
fn mode_broadcast_reaches_every_subscriber_in_order() {
    let channel = PubSubChannel::<NoopRawMutex, DisplayMode, 4, 2, 1>::new();
    let mut animation_side = channel.subscriber().unwrap();
    let mut display_side = channel.subscriber().unwrap();
    let publisher = channel.publisher().unwrap();
    let mut animation = AnimationCoordinator::new();
    let published = [
        animation.on_result(GameResult::Fish),
        animation.on_result(GameResult::Playing),
        animation.on_result(GameResult::Won),
    ];
    for mode in published {
        publisher.publish_immediate(mode);
    }
    let mut controller = DisplayModeController::new();
    for expected in published {
        assert_eq!(animation_side.try_next_message_pure(), Some(expected));
        let mode = display_side.try_next_message_pure().unwrap();
        assert_eq!(mode, expected);
        controller.on_mode(mode);
    }
    assert_eq!(animation_side.try_next_message_pure(), None);
    assert_eq!(display_side.try_next_message_pure(), None);
    assert!(controller.mode == DisplayMode::Blink && controller.inverted);
}
