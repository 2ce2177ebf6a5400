//! How the server pairs players: two seats per match, filled in the order
//! of arrival.

use crate::enums::Message;
use vstd::prelude::*;

verus! {

/// The players of one match.
pub const MAX_CLIENTS: usize = 2;

/// The seats of the match that is being set up or played.
pub struct Lobby {
    seated: usize,
}

/// One message for the player at one seat.
#[derive(Clone, Copy, Debug, PartialEq, Eq, Structural)]
pub struct Delivery {
    pub seat: usize,
    pub message: Message,
}

/// Which channel a handler sends on and which it receives from. Channels
/// are numbered like the seats.
#[derive(Clone, Copy, Debug, PartialEq, Eq, Structural)]
pub struct Wiring {
    pub sends_on: usize,
    pub receives_from: usize,
}

/// What is sent when a connection arrives while `seated` seats are taken,
/// in this order. The first player is told to wait. The second is told to
/// wait and then both are told that the game starts. A connection that
/// finds both seats taken gets nothing: it is not part of this match.
pub open spec fn greeting(seated: nat) -> Seq<Delivery> {
    if seated == 0 {
        seq![Delivery { seat: 0, message: Message::Waiting }]
    } else if seated == 1 {
        seq![
            Delivery { seat: 1, message: Message::Waiting },
            Delivery { seat: 0, message: Message::GameStart },
            Delivery { seat: 1, message: Message::GameStart },
        ]
    } else {
        Seq::empty()
    }
}

/// The seats taken after a connection arrives while `seated` are taken.
pub open spec fn seated_after(seated: nat) -> nat {
    if seated < MAX_CLIENTS {
        seated + 1
    } else {
        seated
    }
}

/// The seats taken after `arrivals` connections arrive one after the other.
pub open spec fn seated_after_all(seated: nat, arrivals: nat) -> nat
    decreases arrivals,
{
    if arrivals == 0 {
        seated
    } else {
        seated_after(seated_after_all(seated, (arrivals - 1) as nat))
    }
}

/// The wiring of the handler at `seat`: it sends on its own channel and
/// receives from the other player's.
pub open spec fn wiring_of(seat: int) -> Wiring {
    Wiring { sends_on: seat as usize, receives_from: (1 - seat) as usize }
}

impl Lobby {
    /// How many seats are taken.
    pub closed spec fn seated(&self) -> nat {
        self.seated as nat
    }

    /// No more than two seats are ever taken.
    pub open spec fn wf(&self) -> bool {
        self.seated() <= MAX_CLIENTS
    }

    /// An empty lobby.
    pub fn new() -> (lobby: Lobby)
        ensures
            lobby.seated() == 0,
            lobby.wf(),
    {
        Lobby { seated: 0 }
    }

    /// How many seats are taken.
    pub fn count(&self) -> (n: usize)
        ensures
            n == self.seated(),
    {
        self.seated
    }

    /// Whether both players are present.
    pub fn is_full(&self) -> (full: bool)
        ensures
            full == (self.seated() >= MAX_CLIENTS),
    {
        self.seated >= MAX_CLIENTS
    }

    /// A connection arrives. Returns what is to be sent, in order; nothing
    /// if the match already has its two players, and then the lobby is as
    /// it was.
    pub fn on_connect(&mut self) -> (out: Vec<Delivery>)
        requires
            old(self).wf(),
        ensures
            out@ == greeting(old(self).seated()),
            final(self).seated() == seated_after(old(self).seated()),
            final(self).wf(),
    {
        let mut out: Vec<Delivery> = Vec::new();
        if self.seated == 0 {
            out.push(Delivery { seat: 0, message: Message::Waiting });
            self.seated = 1;
        } else if self.seated == 1 {
            out.push(Delivery { seat: 1, message: Message::Waiting });
            out.push(Delivery { seat: 0, message: Message::GameStart });
            out.push(Delivery { seat: 1, message: Message::GameStart });
            self.seated = 2;
        }
        assert(out@ =~= greeting(old(self).seated()));
        out
    }

    /// The match is over: the next cycle starts with both seats free.
    pub fn finish(&mut self)
        ensures
            final(self).seated() == 0,
            final(self).wf(),
    {
        self.seated = 0;
    }

    /// The channels of the handler at `seat`.
    pub fn wiring(seat: usize) -> (w: Wiring)
        requires
            seat < MAX_CLIENTS,
        ensures
            w == wiring_of(seat as int),
    {
        Wiring { sends_on: seat, receives_from: 1 - seat }
    }
}

/// A match cycle takes exactly two connections. However many arrive, the
/// seats taken never exceed two; the first two get a seat each, and every
/// later one gets nothing until the match is over.
pub proof fn lemma_two_per_match(arrivals: nat)
    ensures
        seated_after_all(0, arrivals) == (if arrivals < MAX_CLIENTS {
            arrivals
        } else {
            MAX_CLIENTS as nat
        }),
        arrivals >= MAX_CLIENTS ==> greeting(seated_after_all(0, arrivals)) == Seq::<Delivery>::empty(),
        arrivals < MAX_CLIENTS ==> greeting(seated_after_all(0, arrivals)).len() > 0 && greeting(
            seated_after_all(0, arrivals),
        )[0] == (Delivery { seat: arrivals as usize, message: Message::Waiting }),
    decreases arrivals,
{
    if arrivals > 0 {
        lemma_two_per_match((arrivals - 1) as nat);
    }
}

/// The two handlers are wired crosswise: each sends on the channel that
/// the other receives from, and none receives what it sent.
pub proof fn lemma_cross_wired(seat: int)
    requires
        0 <= seat < MAX_CLIENTS,
    ensures
        wiring_of(seat).sends_on == wiring_of(1 - seat).receives_from,
        wiring_of(seat).receives_from == wiring_of(1 - seat).sends_on,
        wiring_of(seat).sends_on != wiring_of(seat).receives_from,
{
}

} // verus!
