//! The game engine: the active words, the input line, score and life.

use crate::enums::{GameState, WordColor};
use crate::model::{
    fall_all, kept, lemma_commit_scores, lemma_newest_match, lemma_sums_bounded, lemma_sums_grow,
    lemma_tick_accounts, lost_count, lost_len, newest_match, total_len, GameView, Pick,
    BASE_SPEED, HEIGHT_LIMIT, INITIAL_LIFE, SCORE_LIMIT, SPAWN_INTERVAL_MS,
};
use crate::placement::{count_free, nth_free, Span};
use crate::random::random_below;
use crate::text::{char_len, trimmed_equals};
use crate::vocab::VocabGenerator;
use crate::word::{Word, WordView, ROW_UNITS};
use std::collections::VecDeque;
use vstd::prelude::*;

verus! {

/// One player's game.
pub struct Game {
    score: i32,
    words: VecDeque<Word>,
    last_spawn_ms: u64,
    speed: i64,
    height: i32,
    width: i32,
    vocab_generator: VocabGenerator,
    input_string: String,
    life: i32,
    game_state: GameState,
    attack_string: String,
    latest_spawned: Option<Span>,
}

/// One word as it is to be drawn: its text, from `column` on in `row`.
pub struct Glyph {
    pub row: i32,
    pub column: i32,
    pub text: String,
    pub color: WordColor,
}

/// The screen row of a word: its row, or the nearest row that a screen
/// coordinate can name.
pub open spec fn screen_row(word: WordView) -> int {
    if word.row() < i32::MIN {
        i32::MIN as int
    } else if word.row() > i32::MAX {
        i32::MAX as int
    } else {
        word.row()
    }
}

/// Whether `glyph` draws `word`.
pub open spec fn draws(glyph: Glyph, word: WordView) -> bool {
    &&& glyph.row == screen_row(word)
    &&& glyph.column == word.x
    &&& glyph.text@ == word.text
    &&& glyph.color == word.color
}

/// The words of a queue as plain values, oldest first.
pub open spec fn views(words: Seq<Word>) -> Seq<WordView> {
    Seq::new(words.len(), |i: int| words[i]@)
}

impl View for Game {
    type V = GameView;

    closed spec fn view(&self) -> GameView {
        GameView {
            score: self.score as int,
            life: self.life as int,
            input: self.input_string@,
            attack: self.attack_string@,
            words: views(self.words@),
            last_spawn: self.last_spawn_ms as int,
            speed: self.speed as int,
            height: self.height as int,
            width: self.width as int,
            state: self.game_state,
            latest: self.latest_spawned,
            vocab: self.vocab_generator.words(),
        }
    }
}

impl Game {
    /// A fresh game on a field of `height` rows and `width` columns, at the
    /// time `now_ms`: five lives, no score, no words, nothing typed.
    pub fn new(height: i32, width: i32, vocab_generator: VocabGenerator, now_ms: u64) -> (game:
        Game)
        requires
            vocab_generator.wf(),
        ensures
            game@ == GameView::initial(
                height as int,
                width as int,
                vocab_generator.words(),
                now_ms as int,
            ),
            game@.valid(),
            width <= SCORE_LIMIT ==> game@.within_limits(),
    {
        let game = Game {
            score: 0,
            words: VecDeque::new(),
            last_spawn_ms: now_ms,
            speed: BASE_SPEED,
            height,
            width,
            vocab_generator,
            input_string: String::new(),
            life: INITIAL_LIFE,
            game_state: GameState::StartGame,
            attack_string: String::new(),
            latest_spawned: None,
        };
        assert(game@.words =~= Seq::empty());
        assert(crate::model::total_len(game@.words) == 0);
        game
    }

    /// The score.
    pub fn get_score(&self) -> (score: i32)
        ensures
            score == self@.score,
    {
        self.score
    }

    /// The lives left.
    pub fn get_life(&self) -> (life: i32)
        ensures
            life == self@.life,
    {
        self.life
    }

    /// What has been typed since the last commit.
    pub fn get_input_string(&self) -> (input: String)
        ensures
            input@ == self@.input,
    {
        self.input_string.clone()
    }

    /// The attack word; empty until the first tick draws one.
    pub fn get_attack_string(&self) -> (attack: String)
        ensures
            attack@ == self@.attack,
    {
        self.attack_string.clone()
    }

    /// The state tag.
    pub fn get_game_state(&self) -> (state: GameState)
        ensures
            state == self@.state,
    {
        self.game_state
    }

    /// Sets the state tag. A game without lives stays lost.
    pub fn set_game_state(&mut self, game_state: GameState)
        requires
            old(self)@.valid(),
        ensures
            final(self)@ == old(self)@.tagged(game_state),
            final(self)@.valid(),
    {
        if self.life != 0 {
            self.game_state = game_state;
        }
    }

    /// Appends one character to the input line.
    pub fn push_input_string(&mut self, c: char)
        ensures
            final(self)@ == old(self)@.typed(c),
    {
        self.input_string.push(c);
    }

    /// Deletes the last character of the input line, if there is one.
    pub fn pop_input_string(&mut self)
        ensures
            final(self)@ == old(self)@.erased(),
    {
        let _ = self.input_string.pop();
    }

    /// The number of active words.
    pub fn word_count(&self) -> (n: usize)
        ensures
            n == self@.words.len(),
    {
        self.words.len()
    }

    /// The active word at position `index`, oldest first.
    pub fn word(&self, index: usize) -> (word: &Word)
        requires
            index < self@.words.len(),
        ensures
            word@ == self@.words[index as int],
    {
        &self.words[index]
    }

    /// What is to be drawn for the active words: one glyph per word, oldest
    /// first.
    pub fn draw_words(&self) -> (glyphs: Vec<Glyph>)
        ensures
            glyphs@.len() == self@.words.len(),
            forall|i: int| 0 <= i < glyphs@.len() ==> draws(#[trigger] glyphs@[i], self@.words[i]),
    {
        let mut glyphs: Vec<Glyph> = Vec::new();
        let n = self.words.len();
        let mut i: usize = 0;
        while i < n
            invariant
                i <= n == self.words@.len(),
                glyphs@.len() == i,
                forall|j: int| 0 <= j < i ==> draws(#[trigger] glyphs@[j], self.words@[j]@),
            decreases n - i,
        {
            let word = &self.words[i];
            let row = word.row();
            let row: i32 = if row < i32::MIN as i64 {
                i32::MIN
            } else if row > i32::MAX as i64 {
                i32::MAX
            } else {
                row as i32
            };
            glyphs.push(
                Glyph {
                    row,
                    column: word.get_x(),
                    text: word.get_text().clone(),
                    color: word.get_color(),
                },
            );
            i = i + 1;
        }
        glyphs
    }

    /// How many columns are free for a word of `len` characters.
    pub fn room_for(&self, len: usize) -> (n: usize)
        requires
            self@.valid(),
        ensures
            n == self@.room_for(len as int),
    {
        count_free(self.width, len, self.latest_spawned)
    }

    /// Puts a word with this text at the top of the field, in the free
    /// column number `k`. Where `k` is not below the number of free
    /// columns, nothing changes.
    pub fn place_word(&mut self, text: String, color: WordColor, k: usize)
        requires
            old(self)@.valid(),
        ensures
            final(self)@ == old(self)@.placed(text@, color, k as int),
            final(self)@.valid(),
    {
        let len = char_len(&text);
        let n = count_free(self.width, len, self.latest_spawned);
        if k < n {
            let x = nth_free(self.width, len, self.latest_spawned, k);
            let ghost before = self.words@;
            self.words.push_back(Word::new(x, 0, text, color));
            self.latest_spawned = Some(Span { column: x, len: len as u32 });
            assert(views(self.words@) =~= views(before).push(self.words@[before.len() as int]@));
        }
    }

    /// Spawns one word drawn from the vocabulary, in a free column drawn at
    /// random. Where the word drawn has no free column, nothing changes.
    pub fn spawn_word(&mut self, color: WordColor)
        requires
            old(self)@.valid(),
        ensures
            old(self)@.spawns(color, final(self)@),
            final(self)@.valid(),
    {
        let text = self.vocab_generator.generate();
        let ghost i = choose|i: int|
            0 <= i < self.vocab_generator.words().len() && text@
                == #[trigger] self.vocab_generator.words()[i];
        let n = count_free(self.width, char_len(&text), self.latest_spawned);
        if n > 0 {
            let k = random_below(n);
            self.place_word(text, color, k);
            assert(self@ == old(self)@.placed(old(self)@.vocab[i], color, k as int));
        } else {
            assert(self@ == old(self)@.placed(old(self)@.vocab[i], color, 0));
        }
    }
    /// Spawns the one extra word that an attack by the opponent brings: a
    /// red word, at once, whatever the timer says.
    pub fn spawn_attack_word(&mut self)
        requires
            old(self)@.valid(),
        ensures
            old(self)@.spawns(WordColor::Red, final(self)@),
            final(self)@.valid(),
            final(self)@.last_spawn == old(self)@.last_spawn,
    {
        self.spawn_word(WordColor::Red);
    }

    /// Lets every word fall by the current speed.
    pub fn move_words(&mut self)
        requires
            old(self)@.can_move(),
        ensures
            final(self)@ == old(self)@.moved(),
    {
        let speed = self.speed;
        let mut rest: VecDeque<Word> = VecDeque::new();
        std::mem::swap(&mut rest, &mut self.words);
        let ghost all = rest@;
        assert(views(all) == old(self)@.words);
        let mut done: VecDeque<Word> = VecDeque::new();
        while rest.len() > 0
            invariant
                done@.len() + rest@.len() == all.len(),
                rest@ == all.subrange(done@.len() as int, all.len() as int),
                forall|j: int| 0 <= j < done@.len() ==> done@[j]@ == all[j]@.fallen(speed as int),
                forall|j: int|
                    0 <= j < all.len() ==> i64::MIN <= (#[trigger] views(all)[j]).y + speed
                        <= i64::MAX,
            decreases rest@.len(),
        {
            let ghost i = done@.len() as int;
            let mut word = rest.pop_front().unwrap();
            assert(word == all[i]);
            assert(views(all)[i] == word@);
            let y = word.get_y();
            word.set_y(y + speed);
            done.push_back(word);
            assert(rest@ =~= all.subrange(i + 1, all.len() as int));
        }
        self.words = done;
        assert(views(self.words@) =~= fall_all(views(all), speed as int));
    }

    /// Takes out the words at or below the deadline and settles score,
    /// life, speed and state.
    fn settle(&mut self) -> (state: GameState)
        requires
            old(self)@.valid(),
            old(self)@.can_settle(),
        ensures
            final(self)@ == old(self)@.settled(),
            final(self)@.valid(),
            state == final(self)@.state,
    {
        let deadline: i64 = (self.height as i64 - 2) * ROW_UNITS;
        let mut rest: VecDeque<Word> = VecDeque::new();
        std::mem::swap(&mut rest, &mut self.words);
        let ghost all = views(rest@);
        let ghost queue = rest@;
        let mut done: VecDeque<Word> = VecDeque::new();
        let mut score: i32 = self.score;
        let mut life: i32 = self.life;
        let ghost score0 = self.score as int;
        let ghost life0 = self.life as int;
        let total: usize = rest.len();
        let mut seen: usize = 0;
        assert(all.subrange(0, 0) =~= Seq::empty());
        while rest.len() > 0
            invariant
                all == views(queue),
                queue.len() == total,
                seen + rest@.len() == queue.len(),
                rest@ == queue.subrange(seen as int, queue.len() as int),
                views(done@) == kept(all.subrange(0, seen as int), deadline as int),
                score == score0 - lost_len(all.subrange(0, seen as int), deadline as int),
                life == (if life0 > lost_count(all.subrange(0, seen as int), deadline as int) {
                    life0 - lost_count(all.subrange(0, seen as int), deadline as int)
                } else {
                    0
                }),
                0 <= life0,
                i32::MIN <= score0 - lost_len(all, deadline as int),
            decreases rest@.len(),
        {
            let ghost i = seen as int;
            let word = rest.pop_front().unwrap();
            proof {
                assert(word == queue[i]);
                assert(all[i] == word@);
                assert(all.subrange(0, i + 1).drop_last() =~= all.subrange(0, i));
                assert(all.subrange(0, i + 1).last() == all[i]);
                lemma_sums_grow(all, deadline as int, i + 1);
                lemma_sums_bounded(all.subrange(0, i), deadline as int);
                assert(rest@ =~= queue.subrange(i + 1, queue.len() as int));
            }
            if word.get_y() >= deadline {
                let len = word.len();
                score = (score as i64 - len as i64) as i32;
                if life > 0 {
                    life = life - 1;
                }
                assert(views(done@) == kept(all.subrange(0, i + 1), deadline as int));
            } else {
                let ghost before = done@;
                done.push_back(word);
                assert(views(done@) =~= views(before).push(word@));
            }
            seen = seen + 1;
        }
        assert(all.subrange(0, seen as int) =~= all);
        self.words = done;
        self.score = score;
        self.life = life;
        self.speed = BASE_SPEED + score as i64;
        self.game_state = if life == 0 {
            GameState::Lose
        } else {
            GameState::InProgress
        };
        self.game_state
    }

    /// One step of falling: every word falls by the current speed; the
    /// words that reach the deadline are taken out, each at the cost of a
    /// life and of its length in points; the speed follows the score.
    pub fn advance(&mut self) -> (state: GameState)
        requires
            old(self)@.valid(),
            old(self)@.can_advance(),
        ensures
            final(self)@ == old(self)@.advanced(),
            final(self)@.valid(),
            state == final(self)@.state,
    {
        self.move_words();
        self.settle()
    }

    /// Whether the timer spawns a word at the time `now_ms`: two seconds
    /// or more after it last did.
    pub fn spawn_due(&self, now_ms: u64) -> (due: bool)
        ensures
            due == self@.spawn_due(now_ms as int),
    {
        now_ms >= self.last_spawn_ms && now_ms - self.last_spawn_ms >= SPAWN_INTERVAL_MS
    }

    /// Whether the game is within the limits inside which every tick and
    /// every commit stays in the range of the machine's integers.
    pub fn within_limits(&self) -> (ok: bool)
        ensures
            ok == self@.within_limits(),
    {
        if self.score < -SCORE_LIMIT || self.score > SCORE_LIMIT || self.width > SCORE_LIMIT {
            return false;
        }
        if char_len(&self.attack_string) > SCORE_LIMIT as usize {
            return false;
        }
        let n = self.words.len();
        let ghost all = views(self.words@);
        let mut total: usize = 0;
        let mut i: usize = 0;
        assert(all.subrange(0, 0) =~= Seq::empty());
        while i < n
            invariant
                i <= n == self.words@.len(),
                all == views(self.words@),
                total == total_len(all.subrange(0, i as int)),
                total <= SCORE_LIMIT,
                forall|j: int|
                    0 <= j < i ==> -(HEIGHT_LIMIT as int) <= (#[trigger] all[j]).y
                        <= HEIGHT_LIMIT as int,
            decreases n - i,
        {
            let word = &self.words[i];
            proof {
                assert(all[i as int] == word@);
                assert(all.subrange(0, i + 1).drop_last() =~= all.subrange(0, i as int));
                assert(all.subrange(0, i + 1).last() == all[i as int]);
                lemma_sums_grow(all, 0, i + 1);
            }
            let y = word.get_y();
            if y < -HEIGHT_LIMIT || y > HEIGHT_LIMIT {
                return false;
            }
            let len = word.len();
            if len > SCORE_LIMIT as usize || total + len > SCORE_LIMIT as usize {
                return false;
            }
            total = total + len;
            i = i + 1;
        }
        assert(all.subrange(0, n as int) =~= all);
        true
    }

    /// One tick at the time `now_ms`. Two seconds or more after the last
    /// timed spawn a white word is spawned; an attack word is drawn if
    /// there is none; then the words fall one step. A game without lives
    /// stays as it is. Returns `Lose` once no life is left, `InProgress`
    /// otherwise.
    pub fn update(&mut self, now_ms: u64) -> (state: GameState)
        requires
            old(self)@.valid(),
            old(self)@.can_update(now_ms as int),
        ensures
            old(self)@.ticks(now_ms as int, final(self)@),
            final(self)@.valid(),
            state == final(self)@.state,
            state == GameState::Lose <==> final(self)@.life == 0,
            state == GameState::Lose || state == GameState::InProgress,
            0 <= final(self)@.life <= old(self)@.life,
            final(self)@.score <= old(self)@.score,
            old(self)@.life == 0 ==> final(self)@ == old(self)@,
            old(self)@.life > 0 ==> final(self)@.speed == BASE_SPEED + final(self)@.score,
    {
        if self.life == 0 {
            self.game_state = GameState::Lose;
            assert(self@ == old(self)@.ticked(now_ms as int, Pick { word: 0, column: 0, attack: 0 }));
            assert(old(self)@.allows(Pick { word: 0, column: 0, attack: 0 })) by {
                if old(self)@.room_for(old(self)@.vocab[0].len() as int) > 0 {
                }
            }
            return GameState::Lose;
        }
        let ghost mut word: int = 0;
        let ghost mut column: int = 0;
        let ghost mut attack: int = 0;
        if self.spawn_due(now_ms) {
            self.spawn_word(WordColor::White);
            proof {
                let (i, k) = choose|i: int, k: int|
                    {
                        &&& 0 <= i < old(self)@.vocab.len()
                        &&& old(self)@.room_for(old(self)@.vocab[i].len() as int) > 0 ==> 0 <= k
                            < old(self)@.room_for(old(self)@.vocab[i].len() as int)
                        &&& self@ == #[trigger] old(self)@.placed(
                            old(self)@.vocab[i],
                            WordColor::White,
                            k,
                        )
                    };
                word = i;
                column = k;
            }
            self.last_spawn_ms = now_ms;
        } else {
            proof {
                if old(self)@.room_for(old(self)@.vocab[0].len() as int) > 0 {
                }
            }
        }
        if char_len(&self.attack_string) == 0 {
            self.attack_string = self.vocab_generator.generate();
            proof {
                attack = choose|i: int|
                    0 <= i < self.vocab_generator.words().len() && self.attack_string@
                        == #[trigger] self.vocab_generator.words()[i];
            }
        }
        let ghost pick = Pick { word: word, column: column, attack: attack };
        proof {
            assert(old(self)@.allows(pick));
            assert(old(self)@.can_tick(now_ms as int, pick));
            assert(self@ == old(self)@.timed_spawn(now_ms as int, pick).armed(pick));
        }
        let state = self.advance();
        proof {
            assert(self@ == old(self)@.ticked(now_ms as int, pick));
            lemma_tick_accounts(old(self)@, now_ms as int, pick);
        }
        state
    }

    /// Commits the input line; `next` becomes the attack word if the line
    /// names the current one. The line is compared without the white space
    /// around it. The newest active word with that text is taken out and
    /// scores its length; the attack word scores its length and is
    /// replaced. The line is cleared in every case.
    pub fn commit_input(&mut self, next: String) -> (state: GameState)
        requires
            old(self)@.valid(),
            old(self)@.can_commit(),
        ensures
            final(self)@ == old(self)@.committed(next@),
            final(self)@.valid(),
            state == final(self)@.state,
    {
        let ghost all = views(self.words@);
        let ghost entry = self@.entry();
        proof {
            lemma_newest_match(all, entry);
        }
        let mut i: usize = self.words.len();
        let mut found: bool = false;
        assert(all.subrange(0, i as int) =~= all);
        while i > 0 && !found
            invariant
                i <= self.words@.len(),
                all == views(self.words@),
                entry == crate::text::trimmed(self.input_string@),
                !found ==> newest_match(all, entry) == newest_match(all.subrange(0, i as int), entry),
                found ==> i < self.words@.len() && newest_match(all, entry) == i,
            decreases i + (if found { 0int } else { 1int }),
        {
            proof {
                assert(all.subrange(0, i as int).drop_last() =~= all.subrange(0, i - 1));
                assert(all.subrange(0, i as int).last() == all[i - 1]);
                assert(all[i - 1] == self.words@[i - 1]@);
            }
            i = i - 1;
            if trimmed_equals(&self.input_string, self.words[i].get_text()) {
                found = true;
            }
        }
        assert(!found ==> newest_match(all, entry) == -1) by {
            if !found {
                assert(all.subrange(0, 0) =~= Seq::empty());
            }
        }
        let mut gained: i64 = 0;
        if found {
            let word = self.words.remove(i).unwrap();
            gained = word.len() as i64;
            assert(views(self.words@) =~= all.remove(i as int));
            if self.life != 0 {
                self.game_state = GameState::CompleteWord;
            }
        }
        if trimmed_equals(&self.input_string, &self.attack_string) {
            gained = gained + char_len(&self.attack_string) as i64;
            self.attack_string = next;
            if self.life != 0 {
                self.game_state = GameState::CompleteAttackWord;
            }
        }
        self.score = (self.score as i64 + gained) as i32;
        self.input_string = String::new();
        self.game_state
    }

    /// Commits the input line, drawing the next attack word from the
    /// vocabulary.
    pub fn enter_input_string(&mut self) -> (state: GameState)
        requires
            old(self)@.valid(),
            old(self)@.can_commit(),
        ensures
            old(self)@.commits(final(self)@),
            final(self)@.valid(),
            state == final(self)@.state,
            final(self)@.input.len() == 0,
            final(self)@.life == old(self)@.life,
            final(self)@.score == old(self)@.score + old(self)@.gain(),
            old(self)@.hit() >= 0 ==> final(self)@.words == old(self)@.words.remove(
                old(self)@.hit(),
            ) && final(self)@.words.len() == old(self)@.words.len() - 1,
            old(self)@.hit() < 0 ==> final(self)@.words == old(self)@.words,
            !old(self)@.attack_hit() ==> final(self)@.attack == old(self)@.attack,
            old(self)@.attack_hit() ==> exists|i: int|
                0 <= i < old(self)@.vocab.len() && final(self)@.attack
                    == #[trigger] old(self)@.vocab[i],
            old(self)@.life > 0 && old(self)@.attack_hit() ==> state
                == GameState::CompleteAttackWord,
            old(self)@.life > 0 && !old(self)@.attack_hit() && old(self)@.hit() >= 0 ==> state
                == GameState::CompleteWord,
            !old(self)@.attack_hit() && old(self)@.hit() < 0 ==> state == old(self)@.state,
    {
        let next = self.vocab_generator.generate();
        proof {
            lemma_commit_scores(self@, next@);
        }
        self.commit_input(next)
    }
}

} // verus!
