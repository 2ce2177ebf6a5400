//! The client's side of a match: waiting for the start, and the engine's
//! frame, in which it hears from the manager, takes a key, ticks, and says
//! what is to be sent. The program around it polls, draws and sleeps.

use crate::enums::{GameState, Message, WordColor};
use crate::game::Game;
use crate::model::GameView;
use crate::relay::{link_step, through, LinkAction, LinkEvent, LinkPhase};
use vstd::prelude::*;

verus! {

/// What the client sees while it waits for its match to start.
#[derive(Clone, Copy, Debug, PartialEq, Eq, Structural)]
pub enum StartupEvent {
    /// One byte arrived from the server.
    Byte(u8),
    /// The connection failed or ended.
    Disconnected,
}

/// What the client does about it.
#[derive(Clone, Copy, Debug, PartialEq, Eq, Structural)]
pub enum Startup {
    /// Keep reading.
    Wait,
    /// The match starts.
    Begin,
    /// Give up: there will be no match.
    Abort,
}

/// What the manager's channel held when the engine looked.
#[derive(Clone, Copy, Debug, PartialEq, Eq, Structural)]
pub enum Inbound {
    Empty,
    Message(Message),
    /// The manager is gone: the channel is closed and empty. The engine
    /// takes this as the opponent's end of game.
    Disconnected,
}

/// What the player did since the last frame.
#[derive(Clone, Copy, Debug, PartialEq, Eq, Structural)]
pub enum Key {
    Idle,
    Backspace,
    Enter,
    Char(char),
}

/// What a frame leaves for the program to do.
#[derive(Clone, Copy, Debug, PartialEq, Eq, Structural)]
pub struct Frame {
    /// Send `Attacked` to the manager: the attack word was completed.
    pub attacked: bool,
    /// Send `GameOver` to the manager, after `Attacked` if both are set:
    /// the last life is gone.
    pub game_over: bool,
    /// The loop ends with this frame.
    pub finished: bool,
    /// The game has left the limits inside which it can go on; the frame
    /// stopped before the step that needed them.
    pub out_of_range: bool,
}

/// What the waiting client does with `event`: the start of the game
/// begins the match, a lost connection or a byte that is no message ends
/// the wait, anything else is passed over.
pub open spec fn startup(event: StartupEvent) -> Startup {
    match event {
        StartupEvent::Byte(byte) => match Message::decode(byte) {
            Ok(Message::GameStart) => Startup::Begin,
            Ok(_) => Startup::Wait,
            Err(_) => Startup::Abort,
        },
        StartupEvent::Disconnected => Startup::Abort,
    }
}

/// The key that a typed character stands for: backspace, delete and `=`
/// erase, a line feed commits, every other character is itself.
pub open spec fn key_of(c: char) -> Key {
    if c == '\u{8}' || c == '\u{7f}' || c == '=' {
        Key::Backspace
    } else if c == '\n' {
        Key::Enter
    } else {
        Key::Char(c)
    }
}

/// Whether what the engine heard ends the match for it.
pub open spec fn ends_match(inbound: Inbound) -> bool {
    inbound == Inbound::Message(Message::GameOver) || inbound == Inbound::Disconnected
}

/// Whether `after` is the game `v` once the engine has heard `inbound`:
/// the opponent's end of game makes this player the winner, and so does a
/// manager that is gone; an attack spawns one red word; nothing else
/// changes the game.
pub open spec fn hears(v: GameView, inbound: Inbound, after: GameView) -> bool {
    match inbound {
        Inbound::Message(Message::GameOver) => after == v.tagged(GameState::Win),
        Inbound::Disconnected => after == v.tagged(GameState::Win),
        Inbound::Message(Message::Attacked) => v.spawns(WordColor::Red, after),
        _ => after == v,
    }
}

/// Whether `after` is the game `v` once `key` is taken.
pub open spec fn takes(v: GameView, key: Key, after: GameView) -> bool {
    match key {
        Key::Idle => after == v,
        Key::Backspace => after == v.erased(),
        Key::Char(c) => after == v.typed(c),
        Key::Enter => v.commits(after),
    }
}

/// Whether taking `key` left the attack word completed.
pub open spec fn attack_done(key: Key, after: GameView) -> bool {
    key == Key::Enter && after.state == GameState::CompleteAttackWord
}

/// Whether `after` and `out` are what one frame at `now` makes of the game
/// `v`. The frame hears from the manager first; if that ends the match it
/// stops there. Then it takes the key, then it ticks. Before a commit and
/// before the tick it checks the game's limits, and stops if they are
/// passed.
pub open spec fn frames(
    v: GameView,
    inbound: Inbound,
    key: Key,
    now: int,
    after: GameView,
    out: Frame,
) -> bool {
    exists|a: GameView, b: GameView|
        #![trigger hears(v, inbound, a), takes(a, key, b)]
        {
            &&& hears(v, inbound, a)
            &&& if ends_match(inbound) {
                after == a && out == (Frame {
                    attacked: false,
                    game_over: false,
                    finished: true,
                    out_of_range: false,
                })
            } else if key == Key::Enter && !a.within_limits() {
                after == a && out == (Frame {
                    attacked: false,
                    game_over: false,
                    finished: true,
                    out_of_range: true,
                })
            } else {
                &&& takes(a, key, b)
                &&& if !b.within_limits() {
                    after == b && out == (Frame {
                        attacked: attack_done(key, b),
                        game_over: false,
                        finished: true,
                        out_of_range: true,
                    })
                } else {
                    b.ticks(now, after) && out == (Frame {
                        attacked: attack_done(key, b),
                        game_over: after.life == 0,
                        finished: after.life == 0,
                        out_of_range: false,
                    })
                }
            }
        }
}

/// The message shown when the loop has ended in `state`.
pub open spec fn verdict(state: GameState) -> Seq<char> {
    match state {
        GameState::Lose => "YOU LOSE!\n"@,
        GameState::Win => "YOU WIN!\n"@,
        _ => "ERROR\n"@,
    }
}

/// Decides what the waiting client does with one event.
pub fn startup_step(event: StartupEvent) -> (r: Startup)
    ensures
        r == startup(event),
{
    match event {
        StartupEvent::Byte(byte) => match Message::from_byte(byte) {
            Ok(Message::GameStart) => Startup::Begin,
            Ok(_) => Startup::Wait,
            Err(_) => Startup::Abort,
        },
        StartupEvent::Disconnected => Startup::Abort,
    }
}

impl Key {
    /// The key that a typed character stands for.
    pub fn from_char(c: char) -> (key: Key)
        ensures
            key == key_of(c),
    {
        if c == '\u{8}' || c == '\u{7f}' || c == '=' {
            Key::Backspace
        } else if c == '\n' {
            Key::Enter
        } else {
            Key::Char(c)
        }
    }
}

/// Lets the engine hear what the manager's channel held. Returns whether
/// that ends the match.
pub fn hear(game: &mut Game, inbound: Inbound) -> (stop: bool)
    requires
        old(game)@.valid(),
    ensures
        hears(old(game)@, inbound, final(game)@),
        stop == ends_match(inbound),
        final(game)@.valid(),
{
    match inbound {
        Inbound::Message(Message::GameOver) => {
            game.set_game_state(GameState::Win);
            true
        },
        Inbound::Message(Message::Attacked) => {
            game.spawn_attack_word();
            false
        },
        Inbound::Disconnected => {
            game.set_game_state(GameState::Win);
            true
        },
        _ => false,
    }
}

/// One frame of the engine's loop at the time `now_ms`.
pub fn frame(game: &mut Game, inbound: Inbound, key: Key, now_ms: u64) -> (out: Frame)
    requires
        old(game)@.valid(),
    ensures
        frames(old(game)@, inbound, key, now_ms as int, final(game)@, out),
        final(game)@.valid(),
{
    let stop = hear(game, inbound);
    let ghost a = game@;
    if stop {
        let out = Frame { attacked: false, game_over: false, finished: true, out_of_range: false };
        assert(frames(old(game)@, inbound, key, now_ms as int, game@, out)) by {
            let taken = takes(a, key, a);
            assert(hears(old(game)@, inbound, a));
        }
        return out;
    }
    let mut attacked = false;
    match key {
        Key::Idle => {},
        Key::Backspace => {
            game.pop_input_string();
        },
        Key::Char(c) => {
            game.push_input_string(c);
        },
        Key::Enter => {
            if !game.within_limits() {
                let out = Frame {
                    attacked: false,
                    game_over: false,
                    finished: true,
                    out_of_range: true,
                };
                assert(frames(old(game)@, inbound, key, now_ms as int, game@, out)) by {
                    let taken = takes(a, key, a);
                    assert(hears(old(game)@, inbound, a));
                }
                return out;
            }
            proof {
                crate::model::lemma_limits_suffice(
                    game@,
                    0,
                    crate::model::Pick { word: 0, column: 0, attack: 0 },
                );
            }
            let state = game.enter_input_string();
            attacked = state == GameState::CompleteAttackWord;
        },
    }
    let ghost b = game@;
    assert(takes(a, key, b));
    if !game.within_limits() {
        let out = Frame { attacked, game_over: false, finished: true, out_of_range: true };
        assert(frames(old(game)@, inbound, key, now_ms as int, game@, out)) by {
            assert(hears(old(game)@, inbound, a) && takes(a, key, b));
        }
        return out;
    }
    assert forall|pick: crate::model::Pick| game@.allows(pick) implies #[trigger] game@.can_tick(
        now_ms as int,
        pick,
    ) by {
        crate::model::lemma_limits_suffice(game@, now_ms as int, pick);
    }
    let state = game.update(now_ms);
    let lost = state == GameState::Lose;
    let out = Frame { attacked, game_over: lost, finished: lost, out_of_range: false };
    assert(frames(old(game)@, inbound, key, now_ms as int, game@, out)) by {
        assert(hears(old(game)@, inbound, a) && takes(a, key, b));
    }
    out
}

/// The message shown when the loop has ended in `state`.
pub fn result_text(state: GameState) -> (text: &'static str)
    ensures
        text@ == verdict(state),
{
    match state {
        GameState::Lose => "YOU LOSE!\n",
        GameState::Win => "YOU WIN!\n",
        _ => "ERROR\n",
    }
}

/// A completed attack word reaches the opponent as exactly one red word.
/// A frame asks for `Attacked`, once, only when its commit completed the
/// attack word. Handed to
/// the player's manager, that message passes four running links, one
/// after the other: manager, handler, the opponent's handler and manager.
/// Each hands on exactly one event and keeps running, and what comes out
/// is the same message. The opponent's engine, hearing it, spawns one
/// red word and plays on.
pub proof fn lemma_attack_round_trip(
    v: GameView,
    inbound: Inbound,
    now: int,
    after: GameView,
    out: Frame,
    w: GameView,
    heard: GameView,
)
    requires
        frames(v, inbound, Key::Enter, now, after, out),
        out.attacked,
        hears(w, Inbound::Message(Message::Attacked), heard),
    ensures
        exists|a: GameView, b: GameView|
            #![trigger hears(v, inbound, a), a.commits(b)]
            hears(v, inbound, a) && a.commits(b) && b.state == GameState::CompleteAttackWord,
        through(4, LinkEvent::ChannelMessage(Message::Attacked)) == Some(
            LinkEvent::ChannelMessage(Message::Attacked),
        ),
        link_step(LinkPhase::Running, LinkEvent::ChannelMessage(Message::Attacked)) == (
        crate::relay::LinkStep { action: LinkAction::Write(3), phase: LinkPhase::Running }),
        link_step(LinkPhase::Running, LinkEvent::SocketByte(3)) == (crate::relay::LinkStep {
            action: LinkAction::Forward(Message::Attacked),
            phase: LinkPhase::Running,
        }),
        w.spawns(WordColor::Red, heard),
        !ends_match(Inbound::Message(Message::Attacked)),
{
    reveal_with_fuel(through, 5);
    let (a, b) = choose|a: GameView, b: GameView|
        #![trigger hears(v, inbound, a), takes(a, Key::Enter, b)]
        {
            &&& hears(v, inbound, a)
            &&& !ends_match(inbound)
            &&& a.within_limits()
            &&& takes(a, Key::Enter, b)
            &&& out.attacked == attack_done(Key::Enter, b)
        };
    assert(hears(v, inbound, a) && a.commits(b) && b.state == GameState::CompleteAttackWord);
}

/// A manager that is gone ends the match exactly as the opponent's end of
/// game does: the loop ends, and the player is the winner unless the last
/// life is gone, so that the verdict is always won or lost.
pub proof fn lemma_closed_channel_is_game_over(w: GameView, heard: GameView)
    requires
        w.sound(),
    ensures
        hears(w, Inbound::Disconnected, heard) <==> hears(
            w,
            Inbound::Message(Message::GameOver),
            heard,
        ),
        ends_match(Inbound::Disconnected),
        hears(w, Inbound::Disconnected, heard) ==> heard.sound() && (heard.state == GameState::Win
            || heard.state == GameState::Lose) && (verdict(heard.state) == "YOU WIN!\n"@
            || verdict(heard.state) == "YOU LOSE!\n"@),
{
}

/// The end of one player's game ends the match for both. The frame that
/// takes the last life asks for `GameOver` and finishes. That message
/// passes the same four links; each hands it on once and then stops
/// running. Every link that has stopped running discards what its channel
/// still holds, shuts its socket down when the channel reports its end,
/// and is closed. The opponent's engine, hearing the message, finishes as
/// the winner if it still has a life.
pub proof fn lemma_game_over_round_trip(
    v: GameView,
    inbound: Inbound,
    key: Key,
    now: int,
    after: GameView,
    out: Frame,
    w: GameView,
    heard: GameView,
    left: Message,
)
    requires
        frames(v, inbound, key, now, after, out),
        !out.out_of_range,
        !ends_match(inbound),
        w.sound(),
        hears(w, Inbound::Message(Message::GameOver), heard),
    ensures
        after.life == 0 <==> out.game_over,
        out.game_over ==> out.finished,
        through(4, LinkEvent::ChannelMessage(Message::GameOver)) == Some(
            LinkEvent::ChannelMessage(Message::GameOver),
        ),
        link_step(LinkPhase::Running, LinkEvent::ChannelMessage(Message::GameOver)) == (
        crate::relay::LinkStep { action: LinkAction::Write(2), phase: LinkPhase::Draining }),
        link_step(LinkPhase::Running, LinkEvent::SocketByte(2)) == (crate::relay::LinkStep {
            action: LinkAction::Forward(Message::GameOver),
            phase: LinkPhase::Draining,
        }),
        link_step(LinkPhase::Draining, LinkEvent::ChannelMessage(left)) == (crate::relay::LinkStep {
            action: LinkAction::Nothing,
            phase: LinkPhase::Draining,
        }),
        link_step(LinkPhase::Draining, LinkEvent::ChannelClosed) == (crate::relay::LinkStep {
            action: LinkAction::Shutdown,
            phase: LinkPhase::Closed,
        }),
        ends_match(Inbound::Message(Message::GameOver)),
        w.life > 0 ==> heard.state == GameState::Win,
        heard == (GameView { state: heard.state, ..w }),
{
    reveal_with_fuel(through, 5);
}

} // verus!
