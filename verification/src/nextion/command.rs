//! Tag bytes of the protocol and their recognition.

use vstd::prelude::*;

verus! {

/// A value with a one-byte wire code.
pub trait IntoU8: Sized {
    /// The wire code of `self`.
    spec fn code(self) -> u8;

    /// Gives the wire code.
    fn into_u8(self) -> (byte: u8)
        ensures
            byte == self.code(),
    ;
}

/// The bytes that carry a meaning of their own on the wire.
#[derive(Clone, Copy, Debug, PartialEq, Eq, Structural)]
pub enum NextionCmd {
    /// `0xFF`, three of which close every frame.
    CmdEnd,
    /// `0x01`, the previous command succeeded.
    CmdFinishOk,
    /// `0x88`, the device started.
    CmdEventLaunched,
    /// `0x89`, the device begins a firmware upgrade.
    CmdEventUpgraded,
    /// `0x65`, a component was touched.
    CmdEventTouchHead,
    /// `0x67`, touch coordinates.
    CmdEventPositionHead,
    /// `0x68`, touch coordinates while asleep.
    CmdEventSleepPositionHead,
    /// `0x66`, the current page id.
    CmdCurrentPageIdHead,
    /// `0x70`, a string payload follows.
    CmdStringHead,
    /// `0x71`, a numeric payload follows.
    CmdNumberHead,
    /// `0x00`, invalid instruction.
    CmdInvalidCmd,
    /// `0x02`, invalid component id.
    CmdInvalidComponentId,
    /// `0x03`, invalid page id.
    CmdInvalidPageId,
    /// `0x04`, invalid picture id.
    CmdInvalidPictureId,
    /// `0x05`, invalid font id.
    CmdInvalidFontId,
    /// `0x11`, invalid baud rate.
    CmdInvalidBaud,
    /// `0x1A`, invalid variable name or attribute.
    CmdInvalidVariable,
    /// `0x1B`, invalid variable operation.
    CmdInvalidOperation,
}

/// What a tag announces.
#[derive(Clone, Copy, Debug, PartialEq, Eq, Structural)]
pub enum TagClass {
    /// A terminator byte.
    Terminator,
    /// The previous command was accepted.
    Acknowledge,
    /// An unsolicited event or status notification.
    Event,
    /// The head of a string or numeric payload.
    Payload,
    /// The device rejected the previous command.
    Rejection,
}

impl IntoU8 for NextionCmd {
    open spec fn code(self) -> u8 {
        match self {
            NextionCmd::CmdEnd => 0xFF,
            NextionCmd::CmdFinishOk => 0x01,
            NextionCmd::CmdEventLaunched => 0x88,
            NextionCmd::CmdEventUpgraded => 0x89,
            NextionCmd::CmdEventTouchHead => 0x65,
            NextionCmd::CmdEventPositionHead => 0x67,
            NextionCmd::CmdEventSleepPositionHead => 0x68,
            NextionCmd::CmdCurrentPageIdHead => 0x66,
            NextionCmd::CmdStringHead => 0x70,
            NextionCmd::CmdNumberHead => 0x71,
            NextionCmd::CmdInvalidCmd => 0x00,
            NextionCmd::CmdInvalidComponentId => 0x02,
            NextionCmd::CmdInvalidPageId => 0x03,
            NextionCmd::CmdInvalidPictureId => 0x04,
            NextionCmd::CmdInvalidFontId => 0x05,
            NextionCmd::CmdInvalidBaud => 0x11,
            NextionCmd::CmdInvalidVariable => 0x1A,
            NextionCmd::CmdInvalidOperation => 0x1B,
        }
    }

    fn into_u8(self) -> (byte: u8) {
        match self {
            NextionCmd::CmdEnd => 0xFF,
            NextionCmd::CmdFinishOk => 0x01,
            NextionCmd::CmdEventLaunched => 0x88,
            NextionCmd::CmdEventUpgraded => 0x89,
            NextionCmd::CmdEventTouchHead => 0x65,
            NextionCmd::CmdEventPositionHead => 0x67,
            NextionCmd::CmdEventSleepPositionHead => 0x68,
            NextionCmd::CmdCurrentPageIdHead => 0x66,
            NextionCmd::CmdStringHead => 0x70,
            NextionCmd::CmdNumberHead => 0x71,
            NextionCmd::CmdInvalidCmd => 0x00,
            NextionCmd::CmdInvalidComponentId => 0x02,
            NextionCmd::CmdInvalidPageId => 0x03,
            NextionCmd::CmdInvalidPictureId => 0x04,
            NextionCmd::CmdInvalidFontId => 0x05,
            NextionCmd::CmdInvalidBaud => 0x11,
            NextionCmd::CmdInvalidVariable => 0x1A,
            NextionCmd::CmdInvalidOperation => 0x1B,
        }
    }
}

impl NextionCmd {
    /// The tag that `byte` stands for, if it is one the protocol names.
    pub open spec fn spec_from_u8(byte: u8) -> Option<NextionCmd> {
        if byte == 0xFF {
            Some(NextionCmd::CmdEnd)
        } else if byte == 0x01 {
            Some(NextionCmd::CmdFinishOk)
        } else if byte == 0x88 {
            Some(NextionCmd::CmdEventLaunched)
        } else if byte == 0x89 {
            Some(NextionCmd::CmdEventUpgraded)
        } else if byte == 0x65 {
            Some(NextionCmd::CmdEventTouchHead)
        } else if byte == 0x67 {
            Some(NextionCmd::CmdEventPositionHead)
        } else if byte == 0x68 {
            Some(NextionCmd::CmdEventSleepPositionHead)
        } else if byte == 0x66 {
            Some(NextionCmd::CmdCurrentPageIdHead)
        } else if byte == 0x70 {
            Some(NextionCmd::CmdStringHead)
        } else if byte == 0x71 {
            Some(NextionCmd::CmdNumberHead)
        } else if byte == 0x00 {
            Some(NextionCmd::CmdInvalidCmd)
        } else if byte == 0x02 {
            Some(NextionCmd::CmdInvalidComponentId)
        } else if byte == 0x03 {
            Some(NextionCmd::CmdInvalidPageId)
        } else if byte == 0x04 {
            Some(NextionCmd::CmdInvalidPictureId)
        } else if byte == 0x05 {
            Some(NextionCmd::CmdInvalidFontId)
        } else if byte == 0x11 {
            Some(NextionCmd::CmdInvalidBaud)
        } else if byte == 0x1A {
            Some(NextionCmd::CmdInvalidVariable)
        } else if byte == 0x1B {
            Some(NextionCmd::CmdInvalidOperation)
        } else {
            None
        }
    }

    /// Recognizes a tag byte. Bytes the protocol gives no meaning yield `None`.
    pub fn from_u8(byte: u8) -> (tag: Option<NextionCmd>)
        ensures
            tag == Self::spec_from_u8(byte),
    {
        match byte {
            0xFF => Some(NextionCmd::CmdEnd),
            0x01 => Some(NextionCmd::CmdFinishOk),
            0x88 => Some(NextionCmd::CmdEventLaunched),
            0x89 => Some(NextionCmd::CmdEventUpgraded),
            0x65 => Some(NextionCmd::CmdEventTouchHead),
            0x67 => Some(NextionCmd::CmdEventPositionHead),
            0x68 => Some(NextionCmd::CmdEventSleepPositionHead),
            0x66 => Some(NextionCmd::CmdCurrentPageIdHead),
            0x70 => Some(NextionCmd::CmdStringHead),
            0x71 => Some(NextionCmd::CmdNumberHead),
            0x00 => Some(NextionCmd::CmdInvalidCmd),
            0x02 => Some(NextionCmd::CmdInvalidComponentId),
            0x03 => Some(NextionCmd::CmdInvalidPageId),
            0x04 => Some(NextionCmd::CmdInvalidPictureId),
            0x05 => Some(NextionCmd::CmdInvalidFontId),
            0x11 => Some(NextionCmd::CmdInvalidBaud),
            0x1A => Some(NextionCmd::CmdInvalidVariable),
            0x1B => Some(NextionCmd::CmdInvalidOperation),
            _ => None,
        }
    }

    /// What `self` announces.
    pub open spec fn spec_class(self) -> TagClass {
        match self {
            NextionCmd::CmdEnd => TagClass::Terminator,
            NextionCmd::CmdFinishOk => TagClass::Acknowledge,
            NextionCmd::CmdEventLaunched
            | NextionCmd::CmdEventUpgraded
            | NextionCmd::CmdEventTouchHead
            | NextionCmd::CmdEventPositionHead
            | NextionCmd::CmdEventSleepPositionHead
            | NextionCmd::CmdCurrentPageIdHead => TagClass::Event,
            NextionCmd::CmdStringHead | NextionCmd::CmdNumberHead => TagClass::Payload,
            NextionCmd::CmdInvalidCmd
            | NextionCmd::CmdInvalidComponentId
            | NextionCmd::CmdInvalidPageId
            | NextionCmd::CmdInvalidPictureId
            | NextionCmd::CmdInvalidFontId
            | NextionCmd::CmdInvalidBaud
            | NextionCmd::CmdInvalidVariable
            | NextionCmd::CmdInvalidOperation => TagClass::Rejection,
        }
    }

    /// Classifies the tag, so that a dispatch loop can route a frame by its
    /// leading byte.
    pub fn class(self) -> (c: TagClass)
        ensures
            c == self.spec_class(),
    {
        match self {
            NextionCmd::CmdEnd => TagClass::Terminator,
            NextionCmd::CmdFinishOk => TagClass::Acknowledge,
            NextionCmd::CmdEventLaunched
            | NextionCmd::CmdEventUpgraded
            | NextionCmd::CmdEventTouchHead
            | NextionCmd::CmdEventPositionHead
            | NextionCmd::CmdEventSleepPositionHead
            | NextionCmd::CmdCurrentPageIdHead => TagClass::Event,
            NextionCmd::CmdStringHead | NextionCmd::CmdNumberHead => TagClass::Payload,
            NextionCmd::CmdInvalidCmd
            | NextionCmd::CmdInvalidComponentId
            | NextionCmd::CmdInvalidPageId
            | NextionCmd::CmdInvalidPictureId
            | NextionCmd::CmdInvalidFontId
            | NextionCmd::CmdInvalidBaud
            | NextionCmd::CmdInvalidVariable
            | NextionCmd::CmdInvalidOperation => TagClass::Rejection,
        }
    }
}

/// A recognized tag gives back the byte it was recognized from, and every
/// tag is recognized from its own code.
pub proof fn lemma_tag_code_round_trip(byte: u8, tag: NextionCmd)
    ensures
        NextionCmd::spec_from_u8(byte) == Some(tag) ==> tag.code() == byte,
        NextionCmd::spec_from_u8(tag.code()) == Some(tag),
{
}

} // verus!
