//! What the record of the operations made on a transport tells: which
//! records an exchange can leave, and what follows from them.

use super::buffer::terminator;
use super::codec::{
    lemma_text_step, number_outcome, number_phase, text_outcome, text_progress, text_reply,
};
use super::error::ComError;
use super::exchange::{Exchange, Expect, Phase, Reply};
use super::number::IntWidth;
use super::transport::Operation;
use vstd::prelude::*;

verus! {

/// Whether the record grew from `before` to `after` by exactly the operations
/// of one exchange, which began at `start` with the frame `frame` and the
/// output buffer holding `out_before`, and ended with `result` and the buffer
/// holding `out_after`.
pub open spec fn performed(
    before: Seq<Operation>,
    after: Seq<Operation>,
    start: Exchange,
    frame: Seq<u8>,
    out_before: Seq<u8>,
    out_after: Seq<u8>,
    result: Result<Reply, ComError>,
) -> bool {
    &&& before.is_prefix_of(after)
    &&& start.driven(frame, after.skip(before.len() as int), out_before) == Some(
        (Exchange { expect: start.expect, phase: Phase::Finished(result) }, out_after),
    )
}

/// Whether the record grew from `before` to `after` by sending `frame`: the
/// frame was written once, then the transport was flushed, and the first
/// fault ended it.
pub open spec fn sent(
    before: Seq<Operation>,
    after: Seq<Operation>,
    frame: Seq<u8>,
    result: Result<(), ComError>,
) -> bool {
    ||| after == before.push(Operation::Write { bytes: frame, done: false }) && result == Err::<
        (),
        ComError,
    >(ComError::TransportWriteFailed)
    ||| after == before.push(Operation::Write { bytes: frame, done: true }).push(
        Operation::Flush { done: false },
    ) && result == Err::<(), ComError>(ComError::TransportWriteFailed)
    ||| after == before.push(Operation::Write { bytes: frame, done: true }).push(
        Operation::Flush { done: true },
    ) && result == Ok::<(), ComError>(())
}

/// Whether the record grew from `before` to `after` by sending the command
/// `command`: the command was written, then the terminator, then the
/// transport was flushed, and the first fault ended it. With no fault the
/// transport was handed the command followed by three `0xFF` bytes, and
/// `result` is `Ok`.
pub open spec fn sent_raw(
    before: Seq<Operation>,
    after: Seq<Operation>,
    command: Seq<u8>,
    result: Result<(), ComError>,
) -> bool {
    let failed = Err::<(), ComError>(ComError::TransportWriteFailed);
    let written = before.push(Operation::Write { bytes: command, done: true });
    let closed = written.push(Operation::Write { bytes: terminator(), done: true });
    ||| after == before.push(Operation::Write { bytes: command, done: false }) && result == failed
    ||| after == written.push(Operation::Write { bytes: terminator(), done: false }) && result
        == failed
    ||| after == closed.push(Operation::Flush { done: false }) && result == failed
    ||| after == closed.push(Operation::Flush { done: true }) && result == Ok::<(), ComError>(())
}

/// All the bytes that the writes among `ops` handed to the transport, in
/// order.
pub open spec fn handed(ops: Seq<Operation>) -> Seq<u8>
    decreases ops.len(),
{
    if ops.len() == 0 {
        Seq::<u8>::empty()
    } else {
        match ops.last() {
            Operation::Write { bytes, done } => handed(ops.drop_last()) + bytes,
            _ => handed(ops.drop_last()),
        }
    }
}

/// A command sent without a fault reached the transport whole: what the
/// writes handed over is the command followed by three `0xFF` bytes, and the
/// one flush came after the last write.
pub proof fn lemma_raw_command_is_handed_whole(
    before: Seq<Operation>,
    after: Seq<Operation>,
    command: Seq<u8>,
)
    requires
        sent_raw(before, after, command, Ok(())),
    ensures
        before.is_prefix_of(after),
        after.len() == before.len() + 3,
        handed(after.skip(before.len() as int)) == command + terminator(),
        after.last() == (Operation::Flush { done: true }),
{
    let first = Operation::Write { bytes: command, done: true };
    let second = Operation::Write { bytes: terminator(), done: true };
    let third = Operation::Flush { done: true };
    let ops = after.skip(before.len() as int);
    let one = seq![first];
    let two = seq![first, second];
    assert(ops =~= seq![first, second, third]);
    assert(ops.drop_last() =~= two);
    assert(two.drop_last() =~= one);
    assert(one.drop_last() =~= Seq::<Operation>::empty());
    assert(handed(one.drop_last()) =~= Seq::<u8>::empty());
    assert(handed(one) =~= command);
    assert(handed(two) =~= command + terminator());
}

/// Whether every operation of `ops` is a read, and every one but the last
/// delivered a byte.
pub open spec fn reads_to_the_end(ops: Seq<Operation>) -> bool {
    forall|i: int|
        0 <= i < ops.len() ==> (#[trigger] ops[i]) is Read && (i < ops.len() - 1
            ==> ops[i]->byte is Some)
}

/// The bytes that the reads `ops` delivered, in order, where only the last of
/// them may have failed.
pub open spec fn delivered(ops: Seq<Operation>) -> Seq<u8> {
    let count = if ops.len() > 0 && ops.last() == (Operation::Read { byte: None }) {
        ops.len() - 1
    } else {
        ops.len() as int
    };
    Seq::new(
        count as nat,
        |i: int|
            match ops[i] {
                Operation::Read { byte: Some(b) } => b,
                _ => 0,
            },
    )
}

/// Whether `phase` is one that an exchange awaiting `expect` can stand in.
pub open spec fn phase_suits(expect: Expect, phase: Phase) -> bool {
    match phase {
        Phase::Write | Phase::Flush => true,
        Phase::Tag => !(expect is Nothing),
        Phase::Number { count, b0, b1, b2, b3, closed } => expect is Number,
        Phase::Text { stored, run } => expect is Text,
        Phase::Finished(Ok(reply)) => match expect {
            Expect::Nothing => reply == Reply::Sent,
            Expect::Number(_) => reply is Number,
            Expect::Text => reply is Text,
        },
        Phase::Finished(Err(_)) => true,
    }
}

/// An exchange that has come to `ops` stood unfinished before each of them.
pub proof fn lemma_driven_prefix(
    start: Exchange,
    frame: Seq<u8>,
    ops: Seq<Operation>,
    out: Seq<u8>,
    k: int,
)
    requires
        start.driven(frame, ops, out) is Some,
        0 <= k < ops.len(),
    ensures
        start.driven(frame, ops.take(k), out) matches Some((exchange, held)) && !(
        exchange.phase is Finished) && ops[k].answers(exchange.spec_action(), frame),
    decreases ops.len() - k,
{
    if k == ops.len() - 1 {
        assert(ops.take(k) =~= ops.drop_last());
    } else {
        lemma_driven_prefix(start, frame, ops.drop_last(), out, k);
        assert(ops.drop_last().take(k) =~= ops.take(k));
    }
}

/// Operations made one after the other take an exchange where the first of
/// them, and then the rest of them, take it.
pub proof fn lemma_driven_split(
    start: Exchange,
    frame: Seq<u8>,
    ops: Seq<Operation>,
    out: Seq<u8>,
    k: int,
)
    requires
        0 <= k <= ops.len(),
    ensures
        start.driven(frame, ops, out) == match start.driven(frame, ops.take(k), out) {
            Some((middle, held)) => middle.driven(frame, ops.skip(k), held),
            None => None,
        },
    decreases ops.len() - k,
{
    if k == ops.len() {
        assert(ops.take(k) =~= ops);
        assert(ops.skip(k) =~= Seq::<Operation>::empty());
    } else {
        lemma_driven_split(start, frame, ops.drop_last(), out, k);
        assert(ops.drop_last().take(k) =~= ops.take(k));
        assert(ops.drop_last().skip(k) =~= ops.skip(k).drop_last());
        assert(ops.skip(k).last() == ops.last());
    }
}

/// Sending takes one write and one flush, and the first fault ends it: an
/// exchange that awaits no answer leaves the record as `sent` says, and the
/// output buffer as it was.
pub proof fn lemma_sending(
    before: Seq<Operation>,
    after: Seq<Operation>,
    frame: Seq<u8>,
    out_before: Seq<u8>,
    out_after: Seq<u8>,
    result: Result<Reply, ComError>,
)
    requires
        performed(
            before,
            after,
            Exchange { expect: Expect::Nothing, phase: Phase::Write },
            frame,
            out_before,
            out_after,
            result,
        ),
    ensures
        sent(
            before,
            after,
            frame,
            match result {
                Ok(_) => Ok(()),
                Err(e) => Err(e),
            },
        ),
        result is Ok ==> result == Ok::<Reply, ComError>(Reply::Sent),
        out_after == out_before,
{
    let start = Exchange { expect: Expect::Nothing, phase: Phase::Write };
    let ops = after.skip(before.len() as int);
    assert(after =~= before + ops);
    assert(start.driven(frame, ops.take(0), out_before) == Some((start, out_before)));
    if ops.len() >= 1 {
        lemma_driven_prefix(start, frame, ops, out_before, 0);
        let first = ops[0];
        assert(ops.take(1).drop_last() =~= ops.take(0));
        assert(ops.take(1).last() == first);
        if ops.len() >= 2 {
            lemma_driven_prefix(start, frame, ops, out_before, 1);
            let second = ops[1];
            assert(ops.take(2).drop_last() =~= ops.take(1));
            assert(ops.take(2).last() == second);
            if ops.len() >= 3 {
                lemma_driven_prefix(start, frame, ops, out_before, 2);
            } else {
                assert(ops.take(2) =~= ops);
                assert(ops =~= seq![first, second]);
                assert(before + ops =~= before.push(first).push(second));
            }
        } else {
            assert(ops.take(1) =~= ops);
            assert(ops =~= seq![first]);
            assert(before + ops =~= before.push(first));
        }
    } else {
        assert(ops.take(0) =~= ops);
    }
}

/// A query takes one write and one flush before it reads, and the first
/// fault ends it: the record grows by a failed write, or by a write and a
/// failed flush, or by a write, a flush and the operations of an exchange
/// that only receives.
pub proof fn lemma_asking(
    before: Seq<Operation>,
    after: Seq<Operation>,
    expect: Expect,
    frame: Seq<u8>,
    out_before: Seq<u8>,
    out_after: Seq<u8>,
    result: Result<Reply, ComError>,
)
    requires
        performed(
            before,
            after,
            Exchange { expect, phase: Phase::Write },
            frame,
            out_before,
            out_after,
            result,
        ),
        !(expect is Nothing),
    ensures
        ({
            ||| after == before.push(Operation::Write { bytes: frame, done: false }) && result
                == Err::<Reply, ComError>(ComError::TransportWriteFailed) && out_after
                == out_before
            ||| after == before.push(Operation::Write { bytes: frame, done: true }).push(
                Operation::Flush { done: false },
            ) && result == Err::<Reply, ComError>(ComError::TransportWriteFailed) && out_after
                == out_before
            ||| performed(
                before.push(Operation::Write { bytes: frame, done: true }).push(
                    Operation::Flush { done: true },
                ),
                after,
                Exchange { expect, phase: Phase::Tag },
                frame,
                out_before,
                out_after,
                result,
            )
        }),
{
    let start = Exchange { expect, phase: Phase::Write };
    let ops = after.skip(before.len() as int);
    assert(after =~= before + ops);
    assert(start.driven(frame, ops.take(0), out_before) == Some((start, out_before)));
    if ops.len() == 0 {
        assert(ops.take(0) =~= ops);
    } else {
        lemma_driven_prefix(start, frame, ops, out_before, 0);
        let first = ops[0];
        assert(ops.take(1).drop_last() =~= ops.take(0));
        assert(ops.take(1).last() == first);
        if ops.len() == 1 {
            assert(ops.take(1) =~= ops);
            assert(before + ops =~= before.push(first));
        } else {
            lemma_driven_prefix(start, frame, ops, out_before, 1);
            let second = ops[1];
            assert(ops.take(2).drop_last() =~= ops.take(1));
            assert(ops.take(2).last() == second);
            if ops.len() == 2 {
                assert(ops.take(2) =~= ops);
                assert(before + ops =~= before.push(first).push(second));
            } else {
                lemma_driven_prefix(start, frame, ops, out_before, 2);
                lemma_driven_split(start, frame, ops, out_before, 2);
                let sent = before.push(first).push(second);
                assert(sent.is_prefix_of(after));
                assert(after.skip(sent.len() as int) =~= ops.skip(2));
            }
        }
    }
}

/// An exchange that began in a phase suiting what it awaits stays in such
/// phases.
pub proof fn lemma_phase_suits(start: Exchange, frame: Seq<u8>, ops: Seq<Operation>, out: Seq<u8>)
    requires
        phase_suits(start.expect, start.phase),
    ensures
        start.driven(frame, ops, out) matches Some((exchange, held)) ==> exchange.expect
            == start.expect && phase_suits(exchange.expect, exchange.phase),
    decreases ops.len(),
{
    if ops.len() > 0 {
        lemma_phase_suits(start, frame, ops.drop_last(), out);
    }
}

/// The reply of an exchange is of the kind it awaited: a number for a
/// number, a text for a text.
pub proof fn lemma_reply_kind(
    before: Seq<Operation>,
    after: Seq<Operation>,
    expect: Expect,
    frame: Seq<u8>,
    out_before: Seq<u8>,
    out_after: Seq<u8>,
    result: Result<Reply, ComError>,
)
    requires
        performed(
            before,
            after,
            Exchange { expect, phase: Exchange::after_flush(expect) },
            frame,
            out_before,
            out_after,
            result,
        ) || performed(
            before,
            after,
            Exchange { expect, phase: Phase::Write },
            frame,
            out_before,
            out_after,
            result,
        ),
    ensures
        result matches Ok(reply) ==> match expect {
            Expect::Nothing => reply == Reply::Sent,
            Expect::Number(_) => reply is Number,
            Expect::Text => reply is Text,
        },
{
    let start = if performed(
        before,
        after,
        Exchange { expect, phase: Exchange::after_flush(expect) },
        frame,
        out_before,
        out_after,
        result,
    ) {
        Exchange { expect, phase: Exchange::after_flush(expect) }
    } else {
        Exchange { expect, phase: Phase::Write }
    };
    let ops = after.skip(before.len() as int);
    if ops.len() > 0 {
        lemma_driven_prefix(start, frame, ops, out_before, ops.len() - 1);
        assert(ops.take(ops.len() - 1) =~= ops.drop_last());
        lemma_phase_suits(start, frame, ops.drop_last(), out_before);
    }
}

/// Before the last operation of an exchange that awaits a number, every read
/// delivered, and the exchange stood where the bytes read so far put it.
proof fn lemma_number_progress(
    width: IntWidth,
    frame: Seq<u8>,
    ops: Seq<Operation>,
    out: Seq<u8>,
    k: int,
)
    requires
        (Exchange { expect: Expect::Number(width), phase: Phase::Tag }).driven(frame, ops, out)
            is Some,
        0 <= k < ops.len(),
    ensures
        k <= 7,
        forall|i: int| 0 <= i < k ==> (#[trigger] ops[i]) is Read && ops[i]->byte is Some,
        ops[k] is Read,
        (Exchange { expect: Expect::Number(width), phase: Phase::Tag }).driven(
            frame,
            ops.take(k),
            out,
        ) == Some(
            (
                Exchange {
                    expect: Expect::Number(width),
                    phase: number_phase(delivered(ops), k, width),
                },
                out,
            ),
        ),
        !(number_phase(delivered(ops), k, width) is Finished),
    decreases k,
{
    let start = Exchange { expect: Expect::Number(width), phase: Phase::Tag };
    lemma_driven_prefix(start, frame, ops, out, k);
    if k == 0 {
        assert(ops.take(0) =~= Seq::<Operation>::empty());
    } else {
        lemma_number_progress(width, frame, ops, out, k - 1);
        assert(ops.take(k).drop_last() =~= ops.take(k - 1));
        assert(ops.take(k).last() == ops[k - 1]);
    }
}

/// What an exchange that awaits a number does and yields, in closed form.
/// It makes reads only, eight at most, and stops at the first that fails.
/// Its result is the outcome of reading a numeric frame from the bytes
/// delivered, and the output buffer is left as it was.
pub proof fn lemma_number_reception(
    before: Seq<Operation>,
    after: Seq<Operation>,
    width: IntWidth,
    frame: Seq<u8>,
    out_before: Seq<u8>,
    out_after: Seq<u8>,
    result: Result<Reply, ComError>,
)
    requires
        performed(
            before,
            after,
            Exchange { expect: Expect::Number(width), phase: Phase::Tag },
            frame,
            out_before,
            out_after,
            result,
        ),
    ensures
        reads_to_the_end(after.skip(before.len() as int)),
        1 <= after.len() - before.len() <= 8,
        result == match number_outcome(delivered(after.skip(before.len() as int)), width) {
            Ok(value) => Ok::<Reply, ComError>(Reply::Number(value)),
            Err(e) => Err(e),
        },
        out_after == out_before,
{
    let start = Exchange { expect: Expect::Number(width), phase: Phase::Tag };
    let ops = after.skip(before.len() as int);
    if ops.len() == 0 {
        assert(ops =~= Seq::<Operation>::empty());
    } else {
        let last = ops.len() - 1;
        lemma_number_progress(width, frame, ops, out_before, last);
        assert(ops.drop_last() =~= ops.take(last));
    }
}

/// Before the last operation of an exchange that awaits a string, every read
/// delivered, and the exchange stood where the bytes read so far put it.
proof fn lemma_text_progress(frame: Seq<u8>, ops: Seq<Operation>, out: Seq<u8>, k: int)
    requires
        (Exchange { expect: Expect::Text, phase: Phase::Tag }).driven(frame, ops, out) is Some,
        0 <= k < ops.len(),
        out.len() <= usize::MAX,
    ensures
        forall|i: int| 0 <= i < k ==> (#[trigger] ops[i]) is Read && ops[i]->byte is Some,
        ops[k] is Read,
        (Exchange { expect: Expect::Text, phase: Phase::Tag }).driven(frame, ops.take(k), out)
            matches Some((exchange, held)) && exchange.expect == Expect::Text && text_progress(
            delivered(ops),
            k,
            out,
            exchange.phase,
            held,
        ),
    decreases k,
{
    let start = Exchange { expect: Expect::Text, phase: Phase::Tag };
    lemma_driven_prefix(start, frame, ops, out, k);
    if k == 0 {
        assert(ops.take(0) =~= Seq::<Operation>::empty());
    } else {
        lemma_text_progress(frame, ops, out, k - 1);
        assert(ops.take(k).drop_last() =~= ops.take(k - 1));
        assert(ops.take(k).last() == ops[k - 1]);
        let (before, held) = start.driven(frame, ops.take(k - 1), out)->0;
        lemma_text_step(delivered(ops), k - 1, out, before.phase, held);
    }
}

/// What an exchange that awaits a string does and yields, in closed form. It
/// makes reads only, and stops at the first that fails. Its result is the
/// outcome of reading a string frame from the bytes delivered into the
/// output buffer; on success the content stands at the front of the buffer,
/// and the rest of the buffer is as it was.
pub proof fn lemma_text_reception(
    before: Seq<Operation>,
    after: Seq<Operation>,
    frame: Seq<u8>,
    out_before: Seq<u8>,
    out_after: Seq<u8>,
    result: Result<Reply, ComError>,
)
    requires
        performed(
            before,
            after,
            Exchange { expect: Expect::Text, phase: Phase::Tag },
            frame,
            out_before,
            out_after,
            result,
        ),
        out_before.len() <= usize::MAX,
    ensures
        reads_to_the_end(after.skip(before.len() as int)),
        after.len() > before.len(),
        result == text_reply(
            text_outcome(delivered(after.skip(before.len() as int)), out_before.len()),
        ),
        result matches Ok(Reply::Text(n)) ==> n <= out_before.len() && n < delivered(
            after.skip(before.len() as int),
        ).len() && out_after == delivered(after.skip(before.len() as int)).subrange(1, 1 + n)
            + out_before.skip(n as int),
{
    let start = Exchange { expect: Expect::Text, phase: Phase::Tag };
    let ops = after.skip(before.len() as int);
    let got = delivered(ops);
    if ops.len() == 0 {
        assert(ops =~= Seq::<Operation>::empty());
    } else {
        let last = ops.len() - 1;
        lemma_text_progress(frame, ops, out_before, last);
        assert(ops.drop_last() =~= ops.take(last));
        let (exchange, held) = start.driven(frame, ops.take(last), out_before)->0;
        match ops[last] {
            Operation::Read { byte: Some(byte) } => {
                lemma_text_step(got, last, out_before, exchange.phase, held);
            },
            _ => {
                if last > 0 {
                    assert(got.skip(1).skip(last - 1) =~= Seq::<u8>::empty());
                }
            },
        }
    }
}

} // verus!
