//! One end of a relayed connection: a socket on one side, a channel on the
//! other. The client's manager and the server's handler are both such a
//! link. The link decides; the program around it reads, writes and waits,
//! and reports each event as it happens.

use crate::enums::Message;
use vstd::prelude::*;

verus! {

/// How many messages the channels between a client's engine and its
/// manager hold.
pub const CLIENT_CHANNEL_CAPACITY: usize = 10;

/// How many messages the channels between the server's two handlers hold.
pub const SERVER_CHANNEL_CAPACITY: usize = 8;

/// Where a link is in its life.
#[derive(Clone, Copy, Debug, PartialEq, Eq, Structural)]
pub enum LinkPhase {
    /// Serving both sides.
    Running,
    /// The match is over for this link. Its incoming channel has been
    /// closed for further sends, and what it still holds is discarded.
    Draining,
    /// The channel is drained and the socket is shut down.
    Closed,
}

/// What happened on one of the two sides.
#[derive(Clone, Copy, Debug, PartialEq, Eq, Structural)]
pub enum LinkEvent {
    /// One byte arrived from the socket.
    SocketByte(u8),
    /// The socket failed or reached its end, on a read or on a write.
    SocketFailed,
    /// One message arrived from the incoming channel.
    ChannelMessage(Message),
    /// The incoming channel is closed and holds nothing more.
    ChannelClosed,
    /// A send on the outgoing channel failed: nobody listens there.
    SendFailed,
}

/// What the link asks for in answer to an event.
#[derive(Clone, Copy, Debug, PartialEq, Eq, Structural)]
pub enum LinkAction {
    Nothing,
    /// Send this message on the outgoing channel.
    Forward(Message),
    /// Write this byte to the socket.
    Write(u8),
    /// Shut the socket down.
    Shutdown,
}

/// The answer to one event: what to do, and the phase after it.
#[derive(Clone, Copy, Debug, PartialEq, Eq, Structural)]
pub struct LinkStep {
    pub action: LinkAction,
    pub phase: LinkPhase,
}

/// The sides on which a link waits for its next event.
#[derive(Clone, Copy, Debug, PartialEq, Eq, Structural)]
pub enum Waits {
    /// Socket and incoming channel; whichever is ready first is served,
    /// the other stays pending.
    Both,
    /// The incoming channel only.
    Channel,
    /// Neither: the link is done.
    Neither,
}

/// What a link in phase `phase` waits on.
pub open spec fn waits_on(phase: LinkPhase) -> Waits {
    match phase {
        LinkPhase::Running => Waits::Both,
        LinkPhase::Draining => Waits::Channel,
        LinkPhase::Closed => Waits::Neither,
    }
}

/// Whether a link that was in phase `before` closes its incoming channel
/// for further sends once the action of `step` is done: it does so when
/// it stops running, and only then.
pub open spec fn closes_channel(before: LinkPhase, step: LinkStep) -> bool {
    before == LinkPhase::Running && step.phase == LinkPhase::Draining
}

/// Whether a message travels through the relay. Only these two do.
pub open spec fn relayed(m: Message) -> bool {
    m == Message::Attacked || m == Message::GameOver
}

/// The phase after a relayed message has passed: the end of the game ends
/// the link too.
pub open spec fn phase_after(m: Message) -> LinkPhase {
    if m == Message::GameOver {
        LinkPhase::Draining
    } else {
        LinkPhase::Running
    }
}

/// What a running link does with a byte from its socket.
pub open spec fn on_socket_byte(byte: u8) -> LinkStep {
    match Message::decode(byte) {
        Ok(m) => if relayed(m) {
            LinkStep { action: LinkAction::Forward(m), phase: phase_after(m) }
        } else {
            LinkStep { action: LinkAction::Nothing, phase: LinkPhase::Running }
        },
        Err(_) => LinkStep { action: LinkAction::Nothing, phase: LinkPhase::Draining },
    }
}

/// What a running link does with a message from its channel.
pub open spec fn on_channel_message(m: Message) -> LinkStep {
    if relayed(m) {
        LinkStep { action: LinkAction::Write(m.code()), phase: phase_after(m) }
    } else {
        LinkStep { action: LinkAction::Nothing, phase: LinkPhase::Running }
    }
}

/// What a link in phase `phase` does with `event`.
///
/// Running: a relayed message passes to the other side, the end of the
/// game also ends the link; other messages are ignored; a byte that is no
/// message, a failed socket, a failed send and a closed channel end the
/// link without passing anything on.
/// Draining: messages still in the channel are discarded; when it is
/// closed and empty, the socket is shut down.
/// Closed: nothing happens any more.
pub open spec fn link_step(phase: LinkPhase, event: LinkEvent) -> LinkStep {
    match phase {
        LinkPhase::Running => match event {
            LinkEvent::SocketByte(byte) => on_socket_byte(byte),
            LinkEvent::ChannelMessage(m) => on_channel_message(m),
            LinkEvent::SocketFailed => LinkStep {
                action: LinkAction::Nothing,
                phase: LinkPhase::Draining,
            },
            LinkEvent::ChannelClosed => LinkStep {
                action: LinkAction::Nothing,
                phase: LinkPhase::Draining,
            },
            LinkEvent::SendFailed => LinkStep {
                action: LinkAction::Nothing,
                phase: LinkPhase::Draining,
            },
        },
        LinkPhase::Draining => match event {
            LinkEvent::ChannelClosed => LinkStep {
                action: LinkAction::Shutdown,
                phase: LinkPhase::Closed,
            },
            _ => LinkStep { action: LinkAction::Nothing, phase: LinkPhase::Draining },
        },
        LinkPhase::Closed => LinkStep { action: LinkAction::Nothing, phase: LinkPhase::Closed },
    }
}

/// The event that an action of one link raises at the link or engine that
/// it reaches: a written byte arrives as a byte, a forwarded message as a
/// message. The other actions reach nobody.
pub open spec fn arrives_as(action: LinkAction) -> Option<LinkEvent> {
    match action {
        LinkAction::Write(byte) => Some(LinkEvent::SocketByte(byte)),
        LinkAction::Forward(m) => Some(LinkEvent::ChannelMessage(m)),
        _ => None,
    }
}

/// What comes out at the far end when a running link is handed `event`
/// and each of the `hops` running links behind it is handed what the one
/// before it passed on: the event that reaches the far end, if any does.
pub open spec fn through(hops: nat, event: LinkEvent) -> Option<LinkEvent>
    decreases hops,
{
    if hops == 0 {
        Some(event)
    } else {
        match arrives_as(link_step(LinkPhase::Running, event).action) {
            Some(next) => through((hops - 1) as nat, next),
            None => None,
        }
    }
}

/// The phase of a link after the events of `events`, one after the
/// other, and what reached the far side in the meantime, in order.
pub open spec fn carried(phase: LinkPhase, events: Seq<LinkEvent>) -> (LinkPhase, Seq<LinkEvent>)
    decreases events.len(),
{
    if events.len() == 0 {
        (phase, Seq::empty())
    } else {
        let (before, out) = carried(phase, events.drop_last());
        let step = link_step(before, events.last());
        (
            step.phase,
            match arrives_as(step.action) {
                Some(e) => out.push(e),
                None => out,
            },
        )
    }
}

/// Decides what a link does with one event.
pub fn relay_step(phase: LinkPhase, event: LinkEvent) -> (step: LinkStep)
    ensures
        step == link_step(phase, event),
{
    match phase {
        LinkPhase::Running => match event {
            LinkEvent::SocketByte(byte) => match Message::from_byte(byte) {
                Ok(Message::Attacked) => LinkStep {
                    action: LinkAction::Forward(Message::Attacked),
                    phase: LinkPhase::Running,
                },
                Ok(Message::GameOver) => LinkStep {
                    action: LinkAction::Forward(Message::GameOver),
                    phase: LinkPhase::Draining,
                },
                Ok(_) => LinkStep { action: LinkAction::Nothing, phase: LinkPhase::Running },
                Err(_) => LinkStep { action: LinkAction::Nothing, phase: LinkPhase::Draining },
            },
            LinkEvent::ChannelMessage(m) => match m {
                Message::Attacked => LinkStep {
                    action: LinkAction::Write(m.to_byte()),
                    phase: LinkPhase::Running,
                },
                Message::GameOver => LinkStep {
                    action: LinkAction::Write(m.to_byte()),
                    phase: LinkPhase::Draining,
                },
                _ => LinkStep { action: LinkAction::Nothing, phase: LinkPhase::Running },
            },
            LinkEvent::SocketFailed => LinkStep {
                action: LinkAction::Nothing,
                phase: LinkPhase::Draining,
            },
            LinkEvent::ChannelClosed => LinkStep {
                action: LinkAction::Nothing,
                phase: LinkPhase::Draining,
            },
            LinkEvent::SendFailed => LinkStep {
                action: LinkAction::Nothing,
                phase: LinkPhase::Draining,
            },
        },
        LinkPhase::Draining => match event {
            LinkEvent::ChannelClosed => LinkStep {
                action: LinkAction::Shutdown,
                phase: LinkPhase::Closed,
            },
            _ => LinkStep { action: LinkAction::Nothing, phase: LinkPhase::Draining },
        },
        LinkPhase::Closed => LinkStep { action: LinkAction::Nothing, phase: LinkPhase::Closed },
    }
}

/// Says what a link in phase `phase` waits on.
pub fn waits(phase: LinkPhase) -> (w: Waits)
    ensures
        w == waits_on(phase),
{
    match phase {
        LinkPhase::Running => Waits::Both,
        LinkPhase::Draining => Waits::Channel,
        LinkPhase::Closed => Waits::Neither,
    }
}

/// Says whether the incoming channel is to be closed for further sends
/// after this step.
pub fn closes_incoming(before: LinkPhase, step: LinkStep) -> (r: bool)
    ensures
        r == closes_channel(before, step),
{
    before == LinkPhase::Running && step.phase == LinkPhase::Draining
}

/// A link never goes back: it runs, then drains, then is closed. It leaves
/// `Running` exactly on the end of the game, a byte that is no message, a
/// failed socket, a failed send or a closed channel, and it shuts the
/// socket down exactly
/// when the drained channel reports its end, and only then is it closed.
pub proof fn lemma_link_lifecycle(phase: LinkPhase, event: LinkEvent)
    ensures
        phase == LinkPhase::Closed ==> link_step(phase, event).phase == LinkPhase::Closed,
        phase == LinkPhase::Draining ==> link_step(phase, event).phase != LinkPhase::Running,
        phase == LinkPhase::Running ==> link_step(phase, event).phase != LinkPhase::Closed,
        phase == LinkPhase::Running ==> (link_step(phase, event).phase == LinkPhase::Draining <==> {
            ||| event == LinkEvent::SocketFailed
            ||| event == LinkEvent::ChannelClosed
            ||| event == LinkEvent::SendFailed
            ||| event == LinkEvent::ChannelMessage(Message::GameOver)
            ||| event == LinkEvent::SocketByte(Message::GameOver.code())
            ||| (event matches LinkEvent::SocketByte(b) && b > 3)
        }),
        link_step(phase, event).action == LinkAction::Shutdown <==> phase == LinkPhase::Draining
            && event == LinkEvent::ChannelClosed,
        link_step(phase, event).phase == LinkPhase::Closed && phase != LinkPhase::Closed
            ==> link_step(phase, event).action == LinkAction::Shutdown,
        phase != LinkPhase::Running ==> arrives_as(link_step(phase, event).action) is None,
        closes_channel(phase, link_step(phase, event)) ==> waits_on(link_step(phase, event).phase)
            == Waits::Channel,
        link_step(phase, event).action == LinkAction::Shutdown ==> waits_on(
            link_step(phase, event).phase,
        ) == Waits::Neither,
{
}

/// A running link passes each relayed message on exactly once and
/// unchanged, from either side to the other, and passes nothing else.
pub proof fn lemma_link_passes(m: Message, byte: u8)
    ensures
        relayed(m) ==> link_step(LinkPhase::Running, LinkEvent::ChannelMessage(m)).action
            == LinkAction::Write(m.code()),
        relayed(m) ==> link_step(LinkPhase::Running, LinkEvent::SocketByte(m.code())).action
            == LinkAction::Forward(m),
        !relayed(m) ==> link_step(LinkPhase::Running, LinkEvent::ChannelMessage(m)).action
            == LinkAction::Nothing,
        !(byte == 2 || byte == 3) ==> link_step(LinkPhase::Running, LinkEvent::SocketByte(byte)).action
            == LinkAction::Nothing,
{
}

/// However many attacks are handed to a running link, on either side, as
/// many come out on the other, none lost and none twice, and the link
/// runs on.
pub proof fn lemma_attacks_carried(n: nat)
    ensures
        carried(
            LinkPhase::Running,
            Seq::new(n, |i: int| LinkEvent::ChannelMessage(Message::Attacked)),
        ) == (LinkPhase::Running, Seq::new(n, |i: int| LinkEvent::SocketByte(3))),
        carried(LinkPhase::Running, Seq::new(n, |i: int| LinkEvent::SocketByte(3))) == (
            LinkPhase::Running,
            Seq::new(n, |i: int| LinkEvent::ChannelMessage(Message::Attacked)),
        ),
    decreases n,
{
    let from_channel = Seq::new(n, |i: int| LinkEvent::ChannelMessage(Message::Attacked));
    let from_socket = Seq::new(n, |i: int| LinkEvent::SocketByte(3));
    if n > 0 {
        let m = (n - 1) as nat;
        lemma_attacks_carried(m);
        assert(from_channel.drop_last() =~= Seq::new(
            m,
            |i: int| LinkEvent::ChannelMessage(Message::Attacked),
        ));
        assert(from_socket.drop_last() =~= Seq::new(m, |i: int| LinkEvent::SocketByte(3)));
        assert(Seq::new(m, |i: int| LinkEvent::SocketByte(3)).push(LinkEvent::SocketByte(3))
            =~= from_socket);
        assert(Seq::new(m, |i: int| LinkEvent::ChannelMessage(Message::Attacked)).push(
            LinkEvent::ChannelMessage(Message::Attacked),
        ) =~= from_channel);
    } else {
        assert(carried(LinkPhase::Running, from_channel).1 =~= from_socket);
        assert(carried(LinkPhase::Running, from_socket).1 =~= from_channel);
    }
}

/// A link that has stopped running passes nothing on, whatever happens,
/// and never runs again.
pub proof fn lemma_stopped_link_is_silent(phase: LinkPhase, events: Seq<LinkEvent>)
    requires
        phase != LinkPhase::Running,
    ensures
        carried(phase, events).0 != LinkPhase::Running,
        carried(phase, events).1 == Seq::<LinkEvent>::empty(),
    decreases events.len(),
{
    if events.len() > 0 {
        lemma_stopped_link_is_silent(phase, events.drop_last());
    }
}

} // verus!
