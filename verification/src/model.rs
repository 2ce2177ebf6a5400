//! The engine as mathematics: what a game is, as plain values, and what
//! each of its operations makes of it. The executable engine is proved
//! against these definitions.

use crate::enums::{GameState, WordColor};
use crate::placement::{column_of, free_columns, span_on_field, Span};
use crate::text::trimmed;
use crate::word::{WordView, ROW_UNITS};
use vstd::prelude::*;

verus! {

/// Lives at the start of a game.
pub const INITIAL_LIFE: i32 = 5;

/// Milliseconds that must pass between two timed spawns.
pub const SPAWN_INTERVAL_MS: u64 = 2000;

/// The falling speed at score zero, in thousandths of a row per tick. Each
/// point of score adds one thousandth.
pub const BASE_SPEED: i64 = 100;

/// The score, the width of the field, the total length of the active words
/// and the length of the attack word stay within this bound wherever the
/// engine draws at random.
pub const SCORE_LIMIT: i32 = 0x2000_0000;

/// The heights of the active words stay within this bound wherever the
/// engine draws at random.
pub const HEIGHT_LIMIT: i64 = 0x4000_0000_0000_0000;

/// A game as plain values.
pub struct GameView {
    pub score: int,
    pub life: int,
    pub input: Seq<char>,
    pub attack: Seq<char>,
    /// The active words, oldest first.
    pub words: Seq<WordView>,
    /// When the timer last spawned a word, in milliseconds.
    pub last_spawn: int,
    /// Thousandths of a row that every word falls per tick.
    pub speed: int,
    pub height: int,
    pub width: int,
    pub state: GameState,
    /// The cells of the word that was spawned last, if any was.
    pub latest: Option<Span>,
    pub vocab: Seq<Seq<char>>,
}

/// The random choices that one tick may consume: which word the timer
/// spawns, which free column it gets, and which word becomes the attack
/// word if there is none.
pub struct Pick {
    pub word: int,
    pub column: int,
    pub attack: int,
}

/// Every word of `words` after falling by `speed`.
pub open spec fn fall_all(words: Seq<WordView>, speed: int) -> Seq<WordView> {
    Seq::new(words.len(), |i: int| words[i].fallen(speed))
}

/// The words of `words` that are still above the deadline, in order.
pub open spec fn kept(words: Seq<WordView>, deadline: int) -> Seq<WordView>
    decreases words.len(),
{
    if words.len() == 0 {
        Seq::empty()
    } else if words.last().y >= deadline {
        kept(words.drop_last(), deadline)
    } else {
        kept(words.drop_last(), deadline).push(words.last())
    }
}

/// How many words of `words` have reached the deadline.
pub open spec fn lost_count(words: Seq<WordView>, deadline: int) -> int
    decreases words.len(),
{
    if words.len() == 0 {
        0
    } else if words.last().y >= deadline {
        lost_count(words.drop_last(), deadline) + 1
    } else {
        lost_count(words.drop_last(), deadline)
    }
}

/// The total length of the words of `words` that have reached the deadline.
pub open spec fn lost_len(words: Seq<WordView>, deadline: int) -> int
    decreases words.len(),
{
    if words.len() == 0 {
        0
    } else if words.last().y >= deadline {
        lost_len(words.drop_last(), deadline) + words.last().text.len()
    } else {
        lost_len(words.drop_last(), deadline)
    }
}

/// The total length of the words of `words`.
pub open spec fn total_len(words: Seq<WordView>) -> int
    decreases words.len(),
{
    if words.len() == 0 {
        0
    } else {
        total_len(words.drop_last()) + words.last().text.len()
    }
}

/// The position of the newest word of `words` whose text is `text`, or -1
/// if there is none.
pub open spec fn newest_match(words: Seq<WordView>, text: Seq<char>) -> int
    decreases words.len(),
{
    if words.len() == 0 {
        -1
    } else if words.last().text == text {
        words.len() - 1
    } else {
        newest_match(words.drop_last(), text)
    }
}

impl GameView {
    /// What holds of every game as a matter of its rules: life is never
    /// negative, a game without lives is lost, the field's sides are
    /// machine integers, the vocabulary is not empty, and the word spawned
    /// last lies on the field.
    pub open spec fn sound(self) -> bool {
        &&& 0 <= self.life
        &&& self.life == 0 ==> self.state == GameState::Lose
        &&& i32::MIN <= self.height <= i32::MAX
        &&& i32::MIN <= self.width <= i32::MAX
        &&& self.vocab.len() > 0
        &&& span_on_field(self.width, self.latest)
    }

    /// What holds of every game that the engine holds: it is sound, its
    /// score is a machine integer and its speed is one that some score
    /// gives.
    pub open spec fn valid(self) -> bool {
        &&& self.sound()
        &&& i32::MIN <= self.score <= i32::MAX
        &&& i32::MIN + BASE_SPEED <= self.speed <= i32::MAX + BASE_SPEED
    }

    /// A fresh game.
    pub open spec fn initial(height: int, width: int, vocab: Seq<Seq<char>>, now: int) -> GameView {
        GameView {
            score: 0,
            life: INITIAL_LIFE as int,
            input: Seq::empty(),
            attack: Seq::empty(),
            words: Seq::empty(),
            last_spawn: now,
            speed: BASE_SPEED as int,
            height: height,
            width: width,
            state: GameState::StartGame,
            latest: None,
            vocab: vocab,
        }
    }

    /// The height at which a word is lost: two rows above the bottom.
    pub open spec fn deadline(self) -> int {
        (self.height - 2) * (ROW_UNITS as int)
    }

    /// Whether the timer spawns a word at time `now`.
    pub open spec fn spawn_due(self, now: int) -> bool {
        now - self.last_spawn >= SPAWN_INTERVAL_MS as int
    }

    /// How many columns are free for a word of `len` characters.
    pub open spec fn room_for(self, len: int) -> int {
        free_columns(self.width, len, self.latest)
    }

    /// The game after a word with this text is put at the top, in the free
    /// column number `k`. Where there is no such column, nothing changes.
    pub open spec fn placed(self, text: Seq<char>, color: WordColor, k: int) -> GameView {
        if 0 <= k < self.room_for(text.len() as int) {
            let x = column_of(self.width, text.len() as int, self.latest, k);
            GameView {
                words: self.words.push(WordView { x: x, y: 0, text: text, color: color }),
                latest: Some(Span { column: x as i32, len: text.len() as u32 }),
                ..self
            }
        } else {
            self
        }
    }

    /// The game after every word has fallen by the current speed.
    pub open spec fn moved(self) -> GameView {
        GameView { words: fall_all(self.words, self.speed), ..self }
    }

    /// The game after the words at or below the deadline are taken out:
    /// each costs one life, but life stops at zero, and each takes its
    /// length off the score. The speed follows the new score.
    pub open spec fn settled(self) -> GameView {
        let lost = lost_count(self.words, self.deadline());
        let score = self.score - lost_len(self.words, self.deadline());
        let life = if self.life > lost {
            self.life - lost
        } else {
            0
        };
        GameView {
            words: kept(self.words, self.deadline()),
            score: score,
            life: life,
            speed: BASE_SPEED + score,
            state: if life == 0 {
                GameState::Lose
            } else {
                GameState::InProgress
            },
            ..self
        }
    }

    /// One step of falling: move, then settle.
    pub open spec fn advanced(self) -> GameView {
        self.moved().settled()
    }

    /// Whether the draws of `pick` are ones that a tick at `now` can make.
    pub open spec fn allows(self, pick: Pick) -> bool {
        &&& 0 <= pick.word < self.vocab.len()
        &&& 0 <= pick.attack < self.vocab.len()
        &&& self.room_for(self.vocab[pick.word].len() as int) > 0 ==> 0 <= pick.column
            < self.room_for(self.vocab[pick.word].len() as int)
    }

    /// The game after the timer's part of a tick at `now`.
    pub open spec fn timed_spawn(self, now: int, pick: Pick) -> GameView {
        if self.spawn_due(now) {
            GameView {
                last_spawn: now,
                ..self.placed(self.vocab[pick.word], WordColor::White, pick.column)
            }
        } else {
            self
        }
    }

    /// The game with an attack word, drawn if there was none.
    pub open spec fn armed(self, pick: Pick) -> GameView {
        if self.attack.len() == 0 {
            GameView { attack: self.vocab[pick.attack], ..self }
        } else {
            self
        }
    }

    /// The game after one tick at `now` with the draws of `pick`. A game
    /// without lives stays as it is.
    pub open spec fn ticked(self, now: int, pick: Pick) -> GameView {
        if self.life == 0 {
            GameView { state: GameState::Lose, ..self }
        } else {
            self.timed_spawn(now, pick).armed(pick).advanced()
        }
    }

    /// The game with `c` appended to the input line.
    pub open spec fn typed(self, c: char) -> GameView {
        GameView { input: self.input.push(c), ..self }
    }

    /// The game with the last character of the input line deleted, if
    /// there is one.
    pub open spec fn erased(self) -> GameView {
        GameView {
            input: if self.input.len() > 0 {
                self.input.drop_last()
            } else {
                self.input
            },
            ..self
        }
    }

    /// What was typed, without the white space around it.
    pub open spec fn entry(self) -> Seq<char> {
        trimmed(self.input)
    }

    /// The position of the newest active word that the entry names, or -1.
    pub open spec fn hit(self) -> int {
        newest_match(self.words, self.entry())
    }

    /// Whether the entry names the attack word.
    pub open spec fn attack_hit(self) -> bool {
        self.entry() == self.attack
    }

    /// The points that committing the entry earns: the length of the word
    /// it names, and the length of the attack word if it names that.
    pub open spec fn gain(self) -> int {
        (if self.hit() >= 0 {
            self.entry().len() as int
        } else {
            0
        }) + (if self.attack_hit() {
            self.attack.len() as int
        } else {
            0
        })
    }

    /// The game after the input line is committed; `next` replaces the
    /// attack word if the entry names it. Where the entry names both an
    /// active word and the attack word, both score and the attack word
    /// decides the state.
    pub open spec fn committed(self, next: Seq<char>) -> GameView {
        GameView {
            score: self.score + self.gain(),
            words: if self.hit() >= 0 {
                self.words.remove(self.hit())
            } else {
                self.words
            },
            attack: if self.attack_hit() {
                next
            } else {
                self.attack
            },
            input: Seq::empty(),
            state: if self.life == 0 {
                GameState::Lose
            } else if self.attack_hit() {
                GameState::CompleteAttackWord
            } else if self.hit() >= 0 {
                GameState::CompleteWord
            } else {
                self.state
            },
            ..self
        }
    }

    /// The game with its state set to `state`. A game without lives stays
    /// lost.
    pub open spec fn tagged(self, state: GameState) -> GameView {
        GameView {
            state: if self.life == 0 {
                GameState::Lose
            } else {
                state
            },
            ..self
        }
    }

    /// Whether `after` is this game with one word spawned in `color`:
    /// some word of the vocabulary, in some free column if it has one.
    pub open spec fn spawns(self, color: WordColor, after: GameView) -> bool {
        exists|i: int, k: int|
            {
                &&& 0 <= i < self.vocab.len()
                &&& self.room_for(self.vocab[i].len() as int) > 0 ==> 0 <= k < self.room_for(
                    self.vocab[i].len() as int,
                )
                &&& after == #[trigger] self.placed(self.vocab[i], color, k)
            }
    }

    /// Whether `after` is this game one tick later, at `now`, for some
    /// draws that the tick can make.
    pub open spec fn ticks(self, now: int, after: GameView) -> bool {
        exists|pick: Pick| self.allows(pick) && after == #[trigger] self.ticked(now, pick)
    }

    /// Whether `after` is this game with the input line committed, for
    /// some word of the vocabulary as the next attack word.
    pub open spec fn commits(self, after: GameView) -> bool {
        exists|i: int| 0 <= i < self.vocab.len() && after == #[trigger] self.committed(self.vocab[i])
    }

    /// Whether every word can fall by the current speed without leaving
    /// the range of its height.
    pub open spec fn can_move(self) -> bool {
        forall|i: int|
            0 <= i < self.words.len() ==> i64::MIN <= (#[trigger] self.words[i]).y + self.speed
                <= i64::MAX
    }

    /// Whether the score after settling stays in its range.
    pub open spec fn can_settle(self) -> bool {
        i32::MIN <= self.score - lost_len(self.words, self.deadline())
    }

    /// Whether one step of falling stays in range.
    pub open spec fn can_advance(self) -> bool {
        self.can_move() && self.moved().can_settle()
    }

    /// Whether a tick at `now` with the draws of `pick` stays in the range
    /// of the machine's integers.
    pub open spec fn can_tick(self, now: int, pick: Pick) -> bool {
        self.life > 0 ==> self.timed_spawn(now, pick).armed(pick).can_advance()
    }

    /// Whether the score after committing the entry stays in its range.
    pub open spec fn can_commit(self) -> bool {
        self.score + self.gain() <= i32::MAX
    }

    /// Whether a tick at `now` stays in range whatever it draws.
    pub open spec fn can_update(self, now: int) -> bool {
        forall|pick: Pick| self.allows(pick) ==> #[trigger] self.can_tick(now, pick)
    }

    /// Whether the game is far enough from the ends of the machine's
    /// integers that a tick or a commit stays in range whatever is drawn.
    pub open spec fn within_limits(self) -> bool {
        &&& -(SCORE_LIMIT as int) <= self.score <= SCORE_LIMIT as int
        &&& self.width <= SCORE_LIMIT as int
        &&& total_len(self.words) <= SCORE_LIMIT as int
        &&& self.attack.len() <= SCORE_LIMIT as int
        &&& forall|i: int|
            0 <= i < self.words.len() ==> -(HEIGHT_LIMIT as int) <= (#[trigger] self.words[i]).y
                <= HEIGHT_LIMIT as int
    }
}

/// The lengths that these sums add up are never negative, and what is lost
/// is part of the whole.
pub proof fn lemma_sums_bounded(words: Seq<WordView>, deadline: int)
    ensures
        0 <= lost_count(words, deadline) <= words.len(),
        0 <= lost_len(words, deadline) <= total_len(words),
        kept(words, deadline).len() + lost_count(words, deadline) == words.len(),
    decreases words.len(),
{
    if words.len() > 0 {
        lemma_sums_bounded(words.drop_last(), deadline);
    }
}

/// A longer stretch of the same words loses at least as much, and is at
/// least as long.
pub proof fn lemma_sums_grow(words: Seq<WordView>, deadline: int, i: int)
    requires
        0 <= i <= words.len(),
    ensures
        lost_len(words.subrange(0, i), deadline) <= lost_len(words, deadline),
        lost_count(words.subrange(0, i), deadline) <= lost_count(words, deadline),
        total_len(words.subrange(0, i)) <= total_len(words),
    decreases words.len(),
{
    if i == words.len() {
        assert(words.subrange(0, i) =~= words);
    } else {
        assert(words.drop_last().subrange(0, i) =~= words.subrange(0, i));
        lemma_sums_grow(words.drop_last(), deadline, i);
    }
}

/// Falling changes no word's length.
pub proof fn lemma_fall_keeps_len(words: Seq<WordView>, speed: int)
    ensures
        total_len(fall_all(words, speed)) == total_len(words),
    decreases words.len(),
{
    if words.len() > 0 {
        assert(fall_all(words, speed).drop_last() =~= fall_all(words.drop_last(), speed));
        lemma_fall_keeps_len(words.drop_last(), speed);
    }
}

/// A word put at the end adds its length.
pub proof fn lemma_total_len_push(words: Seq<WordView>, w: WordView)
    ensures
        total_len(words.push(w)) == total_len(words) + w.text.len(),
{
    assert(words.push(w).drop_last() =~= words);
}

/// Where a word is found, it is the newest with that text, and it is no
/// longer than all the words together.
pub proof fn lemma_newest_match(words: Seq<WordView>, text: Seq<char>)
    ensures
        -1 <= newest_match(words, text) < words.len(),
        newest_match(words, text) >= 0 ==> words[newest_match(words, text)].text == text
            && text.len() <= total_len(words),
        forall|j: int|
            newest_match(words, text) < j < words.len() ==> (#[trigger] words[j]).text != text,
    decreases words.len(),
{
    if words.len() > 0 {
        lemma_newest_match(words.drop_last(), text);
        lemma_sums_bounded(words.drop_last(), 0);
        assert(forall|j: int|
            0 <= j < words.len() - 1 ==> words.drop_last()[j] == words[j]);
    }
}

/// One tick of a run: the time at which it happens and what it draws.
pub struct Tick {
    pub now: int,
    pub pick: Pick,
}

/// The game after the ticks of `run`, one after the other, with no input
/// in between.
pub open spec fn after_ticks(v: GameView, run: Seq<Tick>) -> GameView
    decreases run.len(),
{
    if run.len() == 0 {
        v
    } else {
        after_ticks(v, run.drop_last()).ticked(run.last().now, run.last().pick)
    }
}

/// The words as they stand in a tick after the fall, before those at or
/// below the deadline are taken out.
pub open spec fn falling(v: GameView, now: int, pick: Pick) -> GameView {
    v.timed_spawn(now, pick).armed(pick).moved()
}

/// How many words reach the deadline in one tick. A game without lives
/// does not tick, so it loses none.
pub open spec fn lost_in_tick(v: GameView, now: int, pick: Pick) -> int {
    if v.life == 0 {
        0
    } else {
        lost_count(falling(v, now, pick).words, falling(v, now, pick).deadline())
    }
}

/// The total length of the words that reach the deadline in one tick.
pub open spec fn lost_len_in_tick(v: GameView, now: int, pick: Pick) -> int {
    if v.life == 0 {
        0
    } else {
        lost_len(falling(v, now, pick).words, falling(v, now, pick).deadline())
    }
}

/// How many words reach the deadline over the ticks of `run`.
pub open spec fn lost_in_run(v: GameView, run: Seq<Tick>) -> int
    decreases run.len(),
{
    if run.len() == 0 {
        0
    } else {
        lost_in_run(v, run.drop_last()) + lost_in_tick(
            after_ticks(v, run.drop_last()),
            run.last().now,
            run.last().pick,
        )
    }
}

/// The total length of the words that reach the deadline over the ticks
/// of `run`.
pub open spec fn lost_len_in_run(v: GameView, run: Seq<Tick>) -> int
    decreases run.len(),
{
    if run.len() == 0 {
        0
    } else {
        lost_len_in_run(v, run.drop_last()) + lost_len_in_tick(
            after_ticks(v, run.drop_last()),
            run.last().now,
            run.last().pick,
        )
    }
}

/// Whether every tick of `run` draws what a tick can draw in the game as
/// it stands then.
pub open spec fn run_allowed(v: GameView, run: Seq<Tick>) -> bool {
    forall|i: int|
        0 <= i < run.len() ==> after_ticks(v, run.subrange(0, i)).allows((#[trigger] run[i]).pick)
}

/// One tick, with no input. Life falls by exactly one for each word that
/// reaches the deadline, but not below zero, and never rises. The score
/// falls by the lengths of exactly those words, which are taken out;
/// every other word stays, in order. The speed follows the new score. The
/// game is lost exactly when no life is left, and in progress otherwise.
/// A game without lives stays as it is.
pub proof fn lemma_tick_accounts(v: GameView, now: int, pick: Pick)
    requires
        v.sound(),
        v.allows(pick),
    ensures
        v.ticked(now, pick).sound(),
        0 <= v.ticked(now, pick).life <= v.life,
        0 <= lost_in_tick(v, now, pick),
        0 <= lost_len_in_tick(v, now, pick),
        v.ticked(now, pick).life == (if v.life > lost_in_tick(v, now, pick) {
            v.life - lost_in_tick(v, now, pick)
        } else {
            0
        }),
        lost_in_tick(v, now, pick) == 0 ==> v.ticked(now, pick).life == v.life,
        v.ticked(now, pick).score == v.score - lost_len_in_tick(v, now, pick),
        v.ticked(now, pick).state == GameState::Lose <==> v.ticked(now, pick).life == 0,
        v.ticked(now, pick).life > 0 ==> v.ticked(now, pick).state == GameState::InProgress,
        v.life > 0 ==> {
            &&& v.ticked(now, pick).words == kept(
                falling(v, now, pick).words,
                falling(v, now, pick).deadline(),
            )
            &&& v.ticked(now, pick).words.len() + lost_in_tick(v, now, pick) == falling(
                v,
                now,
                pick,
            ).words.len()
            &&& v.ticked(now, pick).speed == BASE_SPEED + v.ticked(now, pick).score
        },
        v.life == 0 ==> v.ticked(now, pick) == v,
{
    if v.life > 0 {
        if v.spawn_due(now) && 0 <= pick.column < v.room_for(v.vocab[pick.word].len() as int) {
            crate::placement::lemma_columns_cover(
                v.width,
                v.vocab[pick.word].len() as int,
                v.latest,
                pick.column,
                0,
                0,
            );
        }
        let f = falling(v, now, pick);
        lemma_sums_bounded(f.words, f.deadline());
    }
}

/// Any run of ticks with no input. Life never rises; it falls by exactly
/// one for each word that reaches the deadline, down to zero and no
/// further. The score falls by the lengths of those words. After the
/// tick that takes the last life the game is lost and stays as it is;
/// until then every tick leaves it in progress.
pub proof fn lemma_run_accounts(v: GameView, run: Seq<Tick>)
    requires
        v.sound(),
        run_allowed(v, run),
    ensures
        after_ticks(v, run).sound(),
        0 <= after_ticks(v, run).life <= v.life,
        0 <= lost_in_run(v, run),
        after_ticks(v, run).life == (if v.life > lost_in_run(v, run) {
            v.life - lost_in_run(v, run)
        } else {
            0
        }),
        after_ticks(v, run).score == v.score - lost_len_in_run(v, run),
        after_ticks(v, run).score <= v.score,
        run.len() > 0 ==> (after_ticks(v, run).state == GameState::Lose <==> lost_in_run(v, run)
            >= v.life),
        run.len() > 0 && lost_in_run(v, run) < v.life ==> after_ticks(v, run).state
            == GameState::InProgress,
        v.life == 0 ==> after_ticks(v, run) == v,
    decreases run.len(),
{
    if run.len() > 0 {
        let head = run.drop_last();
        assert forall|i: int| 0 <= i < head.len() implies after_ticks(v, head.subrange(0, i)).allows(
            (#[trigger] head[i]).pick,
        ) by {
            assert(head.subrange(0, i) =~= run.subrange(0, i));
            assert(head[i] == run[i]);
        }
        lemma_run_accounts(v, head);
        assert(run.subrange(0, run.len() - 1) =~= head);
        assert(after_ticks(v, head).allows(run[run.len() - 1].pick));
        lemma_tick_accounts(after_ticks(v, head), run.last().now, run.last().pick);
    }
}

/// Committing the input line. A line that names an active word takes out
/// the newest word with that text and scores its length. A line that
/// names the attack word scores that word's length and replaces it by
/// `next`. A line that names both does both, and the attack word decides
/// the state. A line that names neither changes nothing but the line,
/// which is cleared in every case. Life is never touched.
pub proof fn lemma_commit_scores(v: GameView, next: Seq<char>)
    requires
        v.sound(),
    ensures
        v.committed(next).sound(),
        v.committed(next).input.len() == 0,
        v.committed(next).life == v.life,
        -1 <= v.hit() < v.words.len(),
        v.hit() >= 0 ==> v.words[v.hit()].text == v.entry(),
        v.hit() >= 0 && !v.attack_hit() ==> {
            &&& v.committed(next).score == v.score + v.words[v.hit()].text.len()
            &&& v.committed(next).words == v.words.remove(v.hit())
            &&& v.committed(next).words.len() == v.words.len() - 1
            &&& v.committed(next).attack == v.attack
            &&& v.life > 0 ==> v.committed(next).state == GameState::CompleteWord
        },
        v.attack_hit() && v.hit() < 0 ==> {
            &&& v.committed(next).score == v.score + v.attack.len()
            &&& v.committed(next).words == v.words
            &&& v.committed(next).attack == next
            &&& v.life > 0 ==> v.committed(next).state == GameState::CompleteAttackWord
        },
        v.attack_hit() && v.hit() >= 0 ==> {
            &&& v.committed(next).score == v.score + v.words[v.hit()].text.len() + v.attack.len()
            &&& v.committed(next).words == v.words.remove(v.hit())
            &&& v.committed(next).attack == next
            &&& v.life > 0 ==> v.committed(next).state == GameState::CompleteAttackWord
        },
        v.hit() < 0 && !v.attack_hit() ==> v.committed(next) == (GameView {
            input: Seq::empty(),
            ..v
        }),
        v.life == 0 ==> v.committed(next).state == GameState::Lose,
{
    lemma_newest_match(v.words, v.entry());
}

/// A word that is spawned keeps clear of the word spawned before it: the
/// two share no cell and are not neighbours. It lies on the field, starts
/// at the top, and is the newest of the active words.
pub proof fn lemma_spawn_keeps_clear(v: GameView, text: Seq<char>, color: WordColor, k: int)
    requires
        v.sound(),
        0 <= k < v.room_for(text.len() as int),
    ensures
        v.placed(text, color, k).sound(),
        v.placed(text, color, k).words.len() == v.words.len() + 1,
        v.placed(text, color, k).words.last().text == text,
        v.placed(text, color, k).words.last().y == 0,
        0 <= v.placed(text, color, k).words.last().x < v.width - text.len(),
        v.placed(text, color, k).latest == Some(
            Span {
                column: v.placed(text, color, k).words.last().x as i32,
                len: text.len() as u32,
            },
        ),
        v.latest matches Some(p) ==> {
            let x = v.placed(text, color, k).words.last().x;
            &&& x + text.len() < p.column || p.column + p.len < x
            &&& forall|c: int|
                !(#[trigger] crate::placement::covers(p.column as int, p.len as int, c)
                    && crate::placement::covers(x, text.len() as int, c))
        },
{
    crate::placement::lemma_columns_cover(v.width, text.len() as int, v.latest, k, 0, 0);
    if let Some(p) = v.latest {
        let x = column_of(v.width, text.len() as int, v.latest, k);
        crate::placement::lemma_spans_apart(v.width, text.len() as int, p, x);
    }
}

/// A game within its limits can tick and can commit, whatever is drawn.
pub proof fn lemma_limits_suffice(v: GameView, now: int, pick: Pick)
    requires
        v.valid(),
        v.within_limits(),
        v.allows(pick),
    ensures
        v.can_tick(now, pick),
        v.can_commit(),
{
    lemma_newest_match(v.words, v.entry());
    lemma_sums_bounded(v.words, 0);
    if v.life > 0 {
        if v.spawn_due(now) && 0 <= pick.column < v.room_for(v.vocab[pick.word].len() as int) {
            let text = v.vocab[pick.word];
            let x = column_of(v.width, text.len() as int, v.latest, pick.column);
            crate::placement::lemma_columns_cover(
                v.width,
                text.len() as int,
                v.latest,
                pick.column,
                0,
                0,
            );
            lemma_total_len_push(
                v.words,
                WordView { x: x, y: 0, text: text, color: WordColor::White },
            );
        }
        let a = v.timed_spawn(now, pick).armed(pick);
        assert(total_len(a.words) <= 2 * SCORE_LIMIT);
        lemma_fall_keeps_len(a.words, a.speed);
        lemma_sums_bounded(a.moved().words, a.moved().deadline());
        assert(a.can_move());
    }
}

} // verus!
