//! The display behind a transport: runs exchanges on it and keeps the record
//! of every operation it made.

use super::buffer::{terminator, Frame};
use super::codec::{lemma_scan_within, length_of, number_outcome, text_outcome};
use super::error::ComError;
use super::exchange::{lemma_exchange_ends, Action, Event, Exchange, Expect, Phase, Reply};
use super::number::IntWidth;
use super::record::{
    delivered, lemma_number_reception, lemma_reply_kind, lemma_sending, lemma_text_reception,
    performed, reads_to_the_end, sent, sent_raw,
};
use super::transport::{Operation, Recorded, Transport};
use vstd::prelude::*;

verus! {

/// The display behind the transport `USART`.
pub struct Nextion<USART> {
    usart: Recorded<USART>,
}

impl<USART: Transport> Nextion<USART> {
    /// Every operation made on the transport so far, in order.
    pub closed spec fn log(&self) -> Seq<Operation> {
        self.usart.log()
    }

    /// The transport.
    pub closed spec fn peripheral(&self) -> USART {
        self.usart.transport()
    }

    /// Takes over the transport `peripheral`. Nothing is done with it yet.
    pub fn new(peripheral: USART) -> (device: Self)
        ensures
            device.peripheral() == peripheral,
            device.log() == Seq::<Operation>::empty(),
    {
        Nextion { usart: Recorded::new(peripheral) }
    }

    /// Gives access to the transport. What the caller does with it is not on
    /// the record.
    pub fn get_peripheral(&mut self) -> (usart: &mut USART)
        ensures
            *usart == old(self).peripheral(),
            final(self).peripheral() == *final(usart),
            final(self).log() == old(self).log(),
    {
        self.usart.transport_mut()
    }

    /// Runs `exchange` to its end: makes each operation the exchange asks
    /// for, `frame` being the frame to write, and hands the exchange what
    /// came of it. Returns the result of the exchange.
    fn drive(&mut self, frame: &[u8], exchange: &mut Exchange, out: &mut [u8]) -> (result:
        Result<Reply, ComError>)
        ensures
            performed(
                old(self).log(),
                final(self).log(),
                *old(exchange),
                frame@,
                old(out)@,
                final(out)@,
                result,
            ),
            *final(exchange) == (Exchange {
                expect: old(exchange).expect,
                phase: Phase::Finished(result),
            }),
            final(out)@.len() == old(out)@.len(),
    {
        let ghost start = *exchange;
        let ghost start_log = self.usart.log();
        let ghost start_out = out@;
        proof {
            assert(self.usart.log().skip(start_log.len() as int) =~= Seq::<Operation>::empty());
        }
        loop
            invariant
                start == *old(exchange),
                start_log == old(self).log(),
                start_out == old(out)@,
                start_log.is_prefix_of(self.usart.log()),
                start.driven(frame@, self.usart.log().skip(start_log.len() as int), start_out) == Some(
                    (*exchange, out@),
                ),
                out@.len() == start_out.len(),
                exchange.expect == start.expect,
            decreases exchange.remaining(out@.len()),
        {
            let ghost before = self.usart.log();
            let event = match exchange.action() {
                Action::Write => if self.usart.write(frame) {
                    Event::Done
                } else {
                    Event::Fault
                },
                Action::Flush => if self.usart.flush() {
                    Event::Done
                } else {
                    Event::Fault
                },
                Action::Read => match self.usart.read() {
                    Some(byte) => Event::Byte(byte),
                    None => Event::Fault,
                },
                Action::Finish(result) => {
                    return result;
                },
            };
            proof {
                let ops = self.usart.log().skip(start_log.len() as int);
                assert(ops.drop_last() =~= before.skip(start_log.len() as int));
                assert(ops.last() == self.usart.log().last());
                assert(out@.len() == out.len());
                lemma_exchange_ends(*exchange, event, out@.len());
            }
            exchange.advance(event, out);
        }
    }

    /// Sends the command `cmd`, whatever its length: writes `cmd`, writes the
    /// terminator, and flushes. The first fault of the transport ends it with
    /// `TransportWriteFailed`; nothing else makes it fail.
    pub fn send_cmd(&mut self, cmd: &[u8]) -> (done: Result<(), ComError>)
        ensures
            sent_raw(old(self).log(), final(self).log(), cmd@, done),
    {
        if !self.usart.write(cmd) {
            return Err(ComError::TransportWriteFailed);
        }
        let end: [u8; 3] = [0xFF, 0xFF, 0xFF];
        assert(end@ =~= terminator());
        if !self.usart.write(end.as_slice()) {
            return Err(ComError::TransportWriteFailed);
        }
        if !self.usart.flush() {
            return Err(ComError::TransportWriteFailed);
        }
        Ok(())
    }

    /// Sends `frame`: writes it once and flushes. A fault of the transport
    /// fails with `TransportWriteFailed`.
    pub fn send(&mut self, frame: &Frame) -> (done: Result<(), ComError>)
        ensures
            sent(old(self).log(), final(self).log(), frame@, done),
    {
        let mut exchange = Exchange::begin(Expect::Nothing);
        let mut unused: [u8; 0] = [];
        let ghost held = unused@;
        let result = self.drive(frame.as_bytes(), &mut exchange, &mut unused);
        proof {
            lemma_sending(old(self).log(), self.log(), frame@, held, unused@, result);
        }
        match result {
            Ok(_) => Ok(()),
            Err(e) => Err(e),
        }
    }

    /// Sends `frame` and reads the answer that `expect` names: makes exactly
    /// the operations that such an exchange asks for, and returns its
    /// result. The content of a string answer lands at the front of `out`.
    pub fn ask(&mut self, frame: &Frame, expect: Expect, out: &mut [u8]) -> (reply: Result<
        Reply,
        ComError,
    >)
        ensures
            performed(
                old(self).log(),
                final(self).log(),
                Exchange { expect, phase: Phase::Write },
                frame@,
                old(out)@,
                final(out)@,
                reply,
            ),
            final(out)@.len() == old(out)@.len(),
    {
        let mut exchange = Exchange::begin(expect);
        self.drive(frame.as_bytes(), &mut exchange, out)
    }

    /// Reads a string frame into `buff` and gives the length of its content.
    /// Only reads are made, and exactly those that an exchange awaiting a
    /// string asks for; the first that fails ends them. The result is the
    /// outcome of reading a string frame from the bytes delivered.
    pub fn get_str(&mut self, buff: &mut [u8]) -> (length: Result<usize, ComError>)
        ensures
            performed(
                old(self).log(),
                final(self).log(),
                Exchange { expect: Expect::Text, phase: Phase::Tag },
                seq![],
                old(buff)@,
                final(buff)@,
                match length {
                    Ok(n) => Ok(Reply::Text(n)),
                    Err(e) => Err(e),
                },
            ),
            final(buff)@.len() == old(buff)@.len(),
            reads_to_the_end(final(self).log().skip(old(self).log().len() as int)),
            length_of(length) == text_outcome(
                delivered(final(self).log().skip(old(self).log().len() as int)),
                old(buff)@.len(),
            ),
            length matches Ok(n) ==> n <= old(buff)@.len() && final(buff)@ == delivered(
                final(self).log().skip(old(self).log().len() as int),
            ).subrange(1, 1 + n) + old(buff)@.skip(n as int),
    {
        let mut exchange = Exchange::receive(Expect::Text);
        let none: [u8; 0] = [];
        assert(none@ =~= seq![]);
        let result = self.drive(none.as_slice(), &mut exchange, buff);
        proof {
            lemma_reply_kind(
                old(self).log(),
                self.log(),
                Expect::Text,
                none@,
                old(buff)@,
                buff@,
                result,
            );
            assert(old(buff)@.len() == old(buff).len());
            lemma_text_reception(old(self).log(), self.log(), none@, old(buff)@, buff@, result);
            let got = delivered(self.log().skip(old(self).log().len() as int));
            if got.len() > 0 {
                lemma_scan_within(got.skip(1), 0, 0, old(buff)@.len());
            }
        }
        match result {
            Ok(Reply::Text(n)) => Ok(n),
            Ok(_) => Err(ComError::MalformedFrame),
            Err(e) => Err(e),
        }
    }

    /// Reads a numeric frame and gives its value at `width`. Only reads are
    /// made, and exactly those that an exchange awaiting a number asks for;
    /// the first that fails ends them. The result is the outcome of reading
    /// a numeric frame from the bytes delivered.
    pub fn get_number(&mut self, width: IntWidth) -> (value: Result<i64, ComError>)
        ensures
            performed(
                old(self).log(),
                final(self).log(),
                Exchange { expect: Expect::Number(width), phase: Phase::Tag },
                seq![],
                seq![],
                seq![],
                match value {
                    Ok(v) => Ok(Reply::Number(v)),
                    Err(e) => Err(e),
                },
            ),
            reads_to_the_end(final(self).log().skip(old(self).log().len() as int)),
            1 <= final(self).log().len() - old(self).log().len() <= 8,
            value == number_outcome(
                delivered(final(self).log().skip(old(self).log().len() as int)),
                width,
            ),
    {
        let mut exchange = Exchange::receive(Expect::Number(width));
        let none: [u8; 0] = [];
        let mut unused: [u8; 0] = [];
        assert(none@ =~= seq![]);
        assert(unused@ =~= seq![]);
        let result = self.drive(none.as_slice(), &mut exchange, &mut unused);
        proof {
            assert(unused@ =~= seq![]);
            lemma_reply_kind(
                old(self).log(),
                self.log(),
                Expect::Number(width),
                none@,
                seq![],
                unused@,
                result,
            );
            lemma_number_reception(
                old(self).log(),
                self.log(),
                width,
                none@,
                seq![],
                unused@,
                result,
            );
        }
        match result {
            Ok(Reply::Number(v)) => Ok(v),
            Ok(_) => Err(ComError::MalformedFrame),
            Err(e) => Err(e),
        }
    }
}

} // verus!
