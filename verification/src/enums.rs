//! The tags shared by the engine and the wire protocol.

use vstd::prelude::*;

verus! {

/// The colour a word is drawn in. Words spawned by the engine's own timer
/// are `White`; words sent by the opponent are `Red`.
#[derive(Clone, Copy, Debug, PartialEq, Eq, Structural)]
pub enum WordColor {
    White,
    Black,
    Yellow,
    Red,
    Green,
}

/// The engine's state tag.
#[derive(Clone, Copy, Debug, PartialEq, Eq, Structural)]
pub enum GameState {
    StartGame,
    CompleteWord,
    CompleteAttackWord,
    Lose,
    InProgress,
    Win,
}

/// A control message. On the wire each is a single byte, the same in both
/// directions.
#[derive(Clone, Copy, Debug, PartialEq, Eq, Structural)]
pub enum Message {
    Waiting,
    GameStart,
    GameOver,
    Attacked,
}

/// Why a byte could not be read as a control message.
#[derive(Clone, Copy, Debug, PartialEq, Eq, Structural)]
pub enum ProtocolError {
    /// The byte is none of the four message codes.
    UnknownByte(u8),
}

impl WordColor {
    /// The colour-pair number of this colour.
    pub open spec fn spec_index(self) -> i16 {
        match self {
            WordColor::White => 0,
            WordColor::Black => 1,
            WordColor::Yellow => 2,
            WordColor::Red => 3,
            WordColor::Green => 4,
        }
    }

    /// The colour-pair number of this colour.
    pub fn index(self) -> (r: i16)
        ensures
            r == self.spec_index(),
    {
        match self {
            WordColor::White => 0,
            WordColor::Black => 1,
            WordColor::Yellow => 2,
            WordColor::Red => 3,
            WordColor::Green => 4,
        }
    }
}

impl Message {
    /// The wire code of a message.
    pub open spec fn code(self) -> u8 {
        match self {
            Message::Waiting => 0,
            Message::GameStart => 1,
            Message::GameOver => 2,
            Message::Attacked => 3,
        }
    }

    /// What a byte read from the wire stands for.
    pub open spec fn decode(byte: u8) -> Result<Message, ProtocolError> {
        if byte == 0 {
            Ok(Message::Waiting)
        } else if byte == 1 {
            Ok(Message::GameStart)
        } else if byte == 2 {
            Ok(Message::GameOver)
        } else if byte == 3 {
            Ok(Message::Attacked)
        } else {
            Err(ProtocolError::UnknownByte(byte))
        }
    }

    /// The byte that carries this message.
    pub fn to_byte(self) -> (byte: u8)
        ensures
            byte == self.code(),
    {
        match self {
            Message::Waiting => 0,
            Message::GameStart => 1,
            Message::GameOver => 2,
            Message::Attacked => 3,
        }
    }

    /// Reads one byte from the wire. Any byte other than the four codes is
    /// reported as an error and never aborts the caller.
    pub fn from_byte(byte: u8) -> (r: Result<Message, ProtocolError>)
        ensures
            r == Message::decode(byte),
    {
        match byte {
            0 => Ok(Message::Waiting),
            1 => Ok(Message::GameStart),
            2 => Ok(Message::GameOver),
            3 => Ok(Message::Attacked),
            _ => Err(ProtocolError::UnknownByte(byte)),
        }
    }

    /// Every message survives the trip over the wire, and the four codes are
    /// the only bytes that decode.
    pub proof fn lemma_codec_round_trip(m: Message, byte: u8)
        ensures
            Message::decode(m.code()) == Ok::<Message, ProtocolError>(m),
            Message::decode(byte) is Ok <==> byte <= 3,
            Message::decode(byte) is Ok ==> Message::decode(byte)->Ok_0.code() == byte,
    {
    }
}

} // verus!
