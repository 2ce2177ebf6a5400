use raingame::enums::{GameState, WordColor};
use raingame::game::Game;
use raingame::vocab::VocabGenerator;

fn vocab(words: &[&str]) -> VocabGenerator {
    VocabGenerator::new(words.iter().map(|w| w.to_string()).collect()).unwrap()
}

fn game_with(words: &[&str]) -> Game {
    Game::new(24, 80, vocab(words), 0)
}

fn type_line(game: &mut Game, line: &str) {
    for c in line.chars() {
        game.push_input_string(c);
    }
}

#[test]
fn fresh_game_has_five_lives_and_nothing_else() {
    let game = game_with(&["cat"]);
    assert_eq!(game.get_life(), 5);
    assert_eq!(game.get_score(), 0);
    assert_eq!(game.get_input_string(), "");
    assert_eq!(game.get_attack_string(), "");
    assert_eq!(game.get_game_state(), GameState::StartGame);
    assert_eq!(game.word_count(), 0);
    assert!(game.within_limits());
}

#[test]
fn empty_vocabulary_is_refused() {
    assert!(VocabGenerator::new(Vec::new()).is_none());
    assert!(VocabGenerator::new(vec![String::new()]).is_some());
}

#[test]
fn vocabulary_keeps_its_words_in_order() {
    let v = vocab(&["cat", "horse", "ox"]);
    assert_eq!(v.len(), 3);
    assert_eq!(v.word_at(0), "cat");
    assert_eq!(v.word_at(1), "horse");
    assert_eq!(v.word_at(2), "ox");
}

#[test]
fn generate_returns_words_of_the_list_only() {
    let v = vocab(&["cat", "horse", "ox"]);
    let mut seen = [false; 3];
    for _ in 0..300 {
        let w = v.generate();
        let at = ["cat", "horse", "ox"].iter().position(|x| *x == w);
        assert!(at.is_some());
        seen[at.unwrap()] = true;
    }
    assert!(seen.iter().all(|s| *s));
}

#[test]
fn generate_from_a_single_word_returns_it() {
    let v = vocab(&["cat"]);
    for _ in 0..50 {
        assert_eq!(v.generate(), "cat");
    }
}

#[test]
fn cat_falls_a_tenth_of_a_row_and_scores_three() {
    let mut game = game_with(&["cat", "dog"]);
    game.place_word("cat".to_string(), WordColor::White, 0);
    assert_eq!(game.word_count(), 1);
    assert_eq!(game.word(0).get_y(), 0);
    assert_eq!(game.word(0).get_x(), 0);
    let state = game.advance();
    assert_eq!(state, GameState::InProgress);
    assert_eq!(game.word(0).get_y(), 100);
    assert_eq!(game.word(0).row(), 0);
    type_line(&mut game, "cat");
    assert_eq!(game.get_input_string(), "cat");
    let state = game.commit_input("dog".to_string());
    assert_eq!(state, GameState::CompleteWord);
    assert_eq!(game.get_score(), 3);
    assert_eq!(game.word_count(), 0);
    assert_eq!(game.get_input_string(), "");
    assert_eq!(game.get_attack_string(), "");
}

#[test]
fn five_lost_words_lose_the_game() {
    let mut game = Game::new(3, 80, vocab(&["cat"]), 0);
    for _ in 0..9 {
        assert_eq!(game.advance(), GameState::InProgress);
    }
    let mut lives = 5;
    // One row is the deadline: a word is lost on the tick that brings it
    // to 1000. The speed changes with the score, so each word is timed.
    for round in 0..5 {
        game.place_word("cat".to_string(), WordColor::White, if round % 2 == 0 { 0 } else { 10 });
        assert_eq!(game.word_count(), 1);
        let mut ticks = 0;
        while game.word_count() == 1 {
            let state = game.advance();
            ticks += 1;
            assert!(ticks < 100);
            if game.word_count() == 1 {
                assert_eq!(state, GameState::InProgress);
                assert_eq!(game.get_life(), lives);
            }
        }
        lives -= 1;
        assert_eq!(game.get_life(), lives);
        assert_eq!(game.get_score(), -3 * (round + 1));
    }
    assert_eq!(game.get_life(), 0);
    assert_eq!(game.get_game_state(), GameState::Lose);
    assert_eq!(game.get_score(), -15);
}

#[test]
fn lost_word_costs_its_length_and_one_life() {
    let mut game = Game::new(3, 80, vocab(&["cat"]), 0);
    game.place_word("elephant".to_string(), WordColor::White, 0);
    for i in 1..10 {
        assert_eq!(game.advance(), GameState::InProgress);
        assert_eq!(game.word(0).get_y(), 100 * i);
        assert_eq!(game.get_life(), 5);
        assert_eq!(game.get_score(), 0);
    }
    assert_eq!(game.advance(), GameState::InProgress);
    assert_eq!(game.word_count(), 0);
    assert_eq!(game.get_life(), 4);
    assert_eq!(game.get_score(), -8);
}

#[test]
fn speed_follows_the_score() {
    let mut game = game_with(&["cat"]);
    game.place_word("cat".to_string(), WordColor::White, 0);
    type_line(&mut game, "cat");
    game.commit_input("x".to_string());
    assert_eq!(game.get_score(), 3);
    game.place_word("horse".to_string(), WordColor::White, 0);
    // The speed is the one of the last tick until the next tick ends.
    game.advance();
    assert_eq!(game.word(0).get_y(), 100);
    game.advance();
    assert_eq!(game.word(0).get_y(), 203);
    game.advance();
    assert_eq!(game.word(0).get_y(), 306);
}

#[test]
fn life_stops_at_zero_when_many_words_are_lost_at_once() {
    let mut game = Game::new(3, 200, vocab(&["cat"]), 0);
    for i in 0..7 {
        game.place_word("ab".to_string(), WordColor::White, if i % 2 == 0 { 0 } else { 50 });
    }
    assert_eq!(game.word_count(), 7);
    for _ in 0..9 {
        assert_eq!(game.advance(), GameState::InProgress);
    }
    assert_eq!(game.advance(), GameState::Lose);
    assert_eq!(game.get_life(), 0);
    assert_eq!(game.get_score(), -14);
    assert_eq!(game.word_count(), 0);
}

#[test]
fn lost_game_does_not_tick() {
    let mut game = Game::new(3, 200, vocab(&["cat"]), 0);
    for i in 0..5 {
        game.place_word("ab".to_string(), WordColor::White, if i % 2 == 0 { 0 } else { 50 });
    }
    for _ in 0..10 {
        game.advance();
    }
    assert_eq!(game.get_life(), 0);
    game.place_word("late".to_string(), WordColor::White, 0);
    let score = game.get_score();
    for t in 0..5 {
        assert_eq!(game.update(10_000 * (t + 1)), GameState::Lose);
        assert_eq!(game.word_count(), 1);
        assert_eq!(game.word(0).get_y(), 0);
        assert_eq!(game.get_score(), score);
        assert_eq!(game.get_life(), 0);
        assert_eq!(game.get_attack_string(), "");
    }
    game.set_game_state(GameState::Win);
    assert_eq!(game.get_game_state(), GameState::Lose);
}

#[test]
fn life_never_rises_over_a_run_of_ticks() {
    let mut game = Game::new(4, 60, vocab(&["cat", "horse", "ox", "giraffe"]), 0);
    let mut last = game.get_life();
    let mut now = 0;
    let mut lost_total = 0;
    while game.get_life() > 0 {
        now += 100;
        assert!(now < 10_000_000);
        let before = game.word_count();
        let due = game.spawn_due(now);
        let state = game.update(now);
        let after = game.word_count();
        let life = game.get_life();
        assert!(life <= last);
        assert!(life >= 0);
        // Words only leave by crossing the deadline here: nothing is typed.
        let spawned = if due { 1 } else { 0 };
        assert!(after <= before + spawned);
        if after + (last - life) as usize == before + spawned {
            lost_total += last - life;
        } else {
            // A word that could not be placed was not spawned.
            assert_eq!(after + (last - life) as usize, before);
            lost_total += last - life;
        }
        assert_eq!(state == GameState::Lose, life == 0);
        last = life;
    }
    assert_eq!(lost_total, 5);
    assert_eq!(game.get_game_state(), GameState::Lose);
}

#[test]
fn timer_spawns_after_two_seconds() {
    let mut game = Game::new(24, 80, vocab(&["cat"]), 1000);
    assert!(!game.spawn_due(0));
    assert!(!game.spawn_due(1000));
    assert!(!game.spawn_due(2999));
    assert!(game.spawn_due(3000));
    assert!(game.spawn_due(3001));
    game.update(2999);
    assert_eq!(game.word_count(), 0);
    game.update(3000);
    assert_eq!(game.word_count(), 1);
    assert_eq!(game.word(0).get_text(), "cat");
    assert_eq!(game.word(0).get_color(), WordColor::White);
    assert_eq!(game.word(0).get_y(), 100);
    assert!(!game.spawn_due(4999));
    assert!(game.spawn_due(5000));
    game.update(4000);
    assert_eq!(game.word_count(), 1);
    game.update(5000);
    assert_eq!(game.word_count(), 2);
}

#[test]
fn first_tick_draws_the_attack_word() {
    let mut game = game_with(&["cat"]);
    assert_eq!(game.update(100), GameState::InProgress);
    assert_eq!(game.get_attack_string(), "cat");
    assert_eq!(game.get_game_state(), GameState::InProgress);
}

#[test]
fn attack_word_scores_and_is_replaced() {
    let mut game = game_with(&["cat"]);
    game.update(100);
    type_line(&mut game, "cat");
    let state = game.commit_input("horse".to_string());
    assert_eq!(state, GameState::CompleteAttackWord);
    assert_eq!(game.get_score(), 3);
    assert_eq!(game.get_attack_string(), "horse");
    assert_eq!(game.get_input_string(), "");
}

#[test]
fn line_that_names_both_scores_both() {
    let mut game = game_with(&["cat"]);
    game.update(100);
    game.place_word("cat".to_string(), WordColor::White, 0);
    type_line(&mut game, "cat");
    let state = game.enter_input_string();
    assert_eq!(state, GameState::CompleteAttackWord);
    assert_eq!(game.get_score(), 6);
    assert_eq!(game.word_count(), 0);
    assert_eq!(game.get_attack_string(), "cat");
}

#[test]
fn line_that_names_nothing_is_only_cleared() {
    let mut game = game_with(&["cat"]);
    game.update(100);
    game.place_word("horse".to_string(), WordColor::White, 0);
    type_line(&mut game, "hors");
    let state = game.commit_input("ox".to_string());
    assert_eq!(state, GameState::InProgress);
    assert_eq!(game.get_score(), 0);
    assert_eq!(game.word_count(), 1);
    assert_eq!(game.get_attack_string(), "cat");
    assert_eq!(game.get_input_string(), "");
}

#[test]
fn line_is_compared_without_surrounding_space() {
    let mut game = game_with(&["cat"]);
    game.update(100);
    game.place_word("horse".to_string(), WordColor::White, 0);
    type_line(&mut game, "  horse \t");
    assert_eq!(game.commit_input("ox".to_string()), GameState::CompleteWord);
    assert_eq!(game.get_score(), 5);
    type_line(&mut game, " cat ");
    assert_eq!(game.commit_input("ox".to_string()), GameState::CompleteAttackWord);
    assert_eq!(game.get_score(), 8);
    assert_eq!(game.get_attack_string(), "ox");
}

#[test]
fn newest_of_equal_words_is_taken() {
    let mut game = game_with(&["cat"]);
    game.update(100);
    game.place_word("ox".to_string(), WordColor::White, 0);
    game.advance();
    game.place_word("ox".to_string(), WordColor::Red, 20);
    assert_eq!(game.word(0).get_y(), 100);
    assert_eq!(game.word(1).get_y(), 0);
    type_line(&mut game, "ox");
    assert_eq!(game.commit_input("a".to_string()), GameState::CompleteWord);
    assert_eq!(game.word_count(), 1);
    assert_eq!(game.word(0).get_y(), 100);
    assert_eq!(game.word(0).get_color(), WordColor::White);
    assert_eq!(game.get_score(), 2);
}

#[test]
fn empty_line_names_the_empty_attack_word() {
    let mut game = game_with(&["cat"]);
    assert_eq!(game.commit_input("dog".to_string()), GameState::CompleteAttackWord);
    assert_eq!(game.get_score(), 0);
    assert_eq!(game.get_attack_string(), "dog");
}

#[test]
fn backspace_deletes_one_character() {
    let mut game = game_with(&["cat"]);
    game.pop_input_string();
    assert_eq!(game.get_input_string(), "");
    type_line(&mut game, "caé");
    game.pop_input_string();
    assert_eq!(game.get_input_string(), "ca");
    game.pop_input_string();
    game.pop_input_string();
    game.pop_input_string();
    assert_eq!(game.get_input_string(), "");
}

#[test]
fn state_tag_can_be_set_while_lives_are_left() {
    let mut game = game_with(&["cat"]);
    game.set_game_state(GameState::Win);
    assert_eq!(game.get_game_state(), GameState::Win);
}

#[test]
fn place_word_ignores_a_column_number_out_of_range() {
    let mut game = Game::new(24, 10, vocab(&["cat"]), 0);
    assert_eq!(game.room_for(3), 7);
    game.place_word("cat".to_string(), WordColor::White, 7);
    assert_eq!(game.word_count(), 0);
    game.place_word("cat".to_string(), WordColor::White, 6);
    assert_eq!(game.word_count(), 1);
    assert_eq!(game.word(0).get_x(), 6);
    assert_eq!(game.room_for(10), 0);
    game.place_word("0123456789".to_string(), WordColor::White, 0);
    assert_eq!(game.word_count(), 1);
}

#[test]
fn word_too_long_for_the_field_is_not_spawned() {
    let mut game = Game::new(24, 5, vocab(&["elephant"]), 0);
    for _ in 0..20 {
        game.spawn_word(WordColor::Red);
    }
    assert_eq!(game.word_count(), 0);
    game.update(5000);
    assert_eq!(game.word_count(), 0);
    assert!(!game.spawn_due(6999));
    assert!(game.spawn_due(7000));
}

#[test]
fn spawned_words_keep_clear_of_the_one_before() {
    let words = ["a", "cat", "horse", "giraffe", "rhinoceros"];
    let mut game = Game::new(24, 40, vocab(&words), 0);
    let mut prev: Option<(i64, i64)> = None;
    let mut spawned = 0;
    for round in 0..2000 {
        let before = game.word_count();
        game.spawn_word(if round % 2 == 0 { WordColor::White } else { WordColor::Red });
        if game.word_count() == before {
            continue;
        }
        assert_eq!(game.word_count(), before + 1);
        spawned += 1;
        let w = game.word(before);
        let x = w.get_x() as i64;
        let len = w.len() as i64;
        assert_eq!(w.get_y(), 0);
        assert!(0 <= x && x < 40 - len);
        assert!(words.contains(&w.get_text().as_str()));
        if let Some((px, plen)) = prev {
            assert!(x + len < px || px + plen < x);
        }
        prev = Some((x, len));
    }
    assert!(spawned > 1000);
}

#[test]
fn limits_are_checked() {
    let wide = Game::new(24, 0x2000_0001, vocab(&["cat"]), 0);
    assert!(!wide.within_limits());
    let ok = Game::new(24, 0x2000_0000, vocab(&["cat"]), 0);
    assert!(ok.within_limits());
    let mut game = game_with(&["cat"]);
    game.place_word("cat".to_string(), WordColor::White, 0);
    assert!(game.within_limits());
}

#[test]
fn attack_spawns_one_red_word_and_leaves_the_timer_alone() {
    let mut game = Game::new(24, 80, vocab(&["cat"]), 1000);
    game.spawn_attack_word();
    assert_eq!(game.word_count(), 1);
    assert_eq!(game.word(0).get_color(), WordColor::Red);
    assert_eq!(game.word(0).get_text(), "cat");
    assert_eq!(game.word(0).get_y(), 0);
    assert!(!game.spawn_due(2999));
    assert!(game.spawn_due(3000));
    game.spawn_attack_word();
    assert_eq!(game.word_count(), 2);
}

#[test]
fn glyphs_say_where_each_word_is_drawn() {
    let mut game = Game::new(24, 80, vocab(&["cat"]), 0);
    assert!(game.draw_words().is_empty());
    game.place_word("horse".to_string(), WordColor::Red, 7);
    for _ in 0..12 {
        game.advance();
    }
    game.place_word("ox".to_string(), WordColor::White, 20);
    let glyphs = game.draw_words();
    assert_eq!(glyphs.len(), 2);
    assert_eq!(glyphs[0].row, 1);
    assert_eq!(glyphs[0].column, 7);
    assert_eq!(glyphs[0].text, "horse");
    assert_eq!(glyphs[0].color, WordColor::Red);
    assert_eq!(glyphs[1].row, 0);
    assert_eq!(glyphs[1].column, game.word(1).get_x());
    assert_eq!(glyphs[1].text, "ox");
    assert_eq!(glyphs[1].color, WordColor::White);
}

#[test]
fn words_move_without_settling() {
    let mut game = Game::new(3, 80, vocab(&["cat"]), 0);
    game.place_word("cat".to_string(), WordColor::White, 0);
    for i in 1..=12 {
        game.move_words();
        assert_eq!(game.word_count(), 1);
        assert_eq!(game.word(0).get_y(), 100 * i);
    }
    assert_eq!(game.get_life(), 5);
    assert_eq!(game.get_score(), 0);
    assert_eq!(game.get_game_state(), GameState::StartGame);
}

#[test]
fn commit_that_names_only_a_word_leaves_the_attack_word() {
    let mut game = game_with(&["cat"]);
    game.update(100);
    game.place_word("horse".to_string(), WordColor::White, 0);
    game.place_word("ox".to_string(), WordColor::White, 30);
    type_line(&mut game, "horse");
    let state = game.enter_input_string();
    assert_eq!(state, GameState::CompleteWord);
    assert_eq!(game.get_score(), 5);
    assert_eq!(game.word_count(), 1);
    assert_eq!(game.word(0).get_text(), "ox");
    assert_eq!(game.get_life(), 5);
    assert_eq!(game.get_attack_string(), "cat");
}

#[test]
fn commit_that_names_only_the_attack_word_draws_the_next() {
    let words = ["cat", "horse", "ox"];
    let mut game = game_with(&words);
    game.update(100);
    game.place_word("giraffe".to_string(), WordColor::White, 0);
    let attack = game.get_attack_string();
    assert!(words.contains(&attack.as_str()));
    type_line(&mut game, &attack);
    let state = game.enter_input_string();
    assert_eq!(state, GameState::CompleteAttackWord);
    assert_eq!(game.get_score(), attack.chars().count() as i32);
    assert!(words.contains(&game.get_attack_string().as_str()));
    assert_eq!(game.word_count(), 1);
    assert_eq!(game.get_life(), 5);
}

#[test]
fn fifth_lost_word_is_the_first_to_return_lose() {
    let mut game = Game::new(3, 80, vocab(&["cat"]), 0);
    let mut now = 0;
    let mut lost = 0;
    let mut words = 0;
    while lost < 5 {
        now += 100;
        assert!(now < 1_000_000);
        let due = game.spawn_due(now);
        let before = game.get_life();
        let state = game.update(now);
        if due {
            words += 1;
        }
        lost += before - game.get_life();
        assert_eq!(game.get_life(), 5 - lost);
        assert_eq!(game.word_count(), (words - lost) as usize);
        if lost < 5 {
            assert_eq!(state, GameState::InProgress);
            assert_eq!(game.get_game_state(), GameState::InProgress);
        } else {
            assert_eq!(state, GameState::Lose);
        }
    }
    assert_eq!(game.get_life(), 0);
    assert_eq!(game.get_game_state(), GameState::Lose);
    assert_eq!(game.get_score(), -15);
}
