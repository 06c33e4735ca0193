//! What holds of every parse.

use crate::driver::{advance_model, filled_model, Pending, Step};
use crate::error::Error;
use crate::fill::{lemma_fill_size_bounds, DEFAULT_CHUNK};
use crate::outcome::ParseOutcome;
use crate::run::{run, steps_left, Finish, ParserModel, SourceModel};
use crate::window::{
    lemma_append_extends_window, lemma_consume_monotonic, lemma_make_room_keeps_window,
    rest_after, WindowModel,
};
use vstd::prelude::*;

verus! {

/// The bytes that a parse has before it: the unconsumed ones of the window
/// and, behind them, those that the source has not given yet.
pub open spec fn stream(w: WindowModel, source: SourceModel) -> Seq<u8> {
    w.window() + source.bytes
}

/// What the parser says of the first `k` bytes of `stream`.
pub open spec fn outcome_at<O, E>(parser: ParserModel<O, E>, stream: Seq<u8>, k: int) -> ParseOutcome<
    O,
    E,
> {
    parser(stream.subrange(0, k))
}

/// What a parse ends with once the parser has given `verdict`: its value,
/// its error, or, where it asks for more to the last, the end of the source.
pub open spec fn result_of<O, E>(verdict: ParseOutcome<O, E>) -> Result<O, Error<E>> {
    match verdict {
        ParseOutcome::Done(_, value) => Ok(value),
        ParseOutcome::Recoverable(e) => Err(Error::Error(e)),
        ParseOutcome::Fatal(e) => Err(Error::Failure(e)),
        ParseOutcome::NeedMore(_) => Err(Error::Eof),
    }
}

/// How many bytes the parser used with `verdict`: none unless it gave a
/// value.
pub open spec fn taken_by<O, E>(verdict: ParseOutcome<O, E>) -> nat {
    match verdict {
        ParseOutcome::Done(used, _) => used as nat,
        _ => 0,
    }
}

/// The parser's answer to the whole of the stream.
pub open spec fn verdict_on<O, E>(parser: ParserModel<O, E>, all: Seq<u8>) -> ParseOutcome<O, E> {
    parser(all)
}

/// The parser is of one mind about `all`: shown any run of its first bytes,
/// from the first `from` on, it asks for more or answers what it answers to
/// the whole, from bytes that it was shown. It may answer to a short run and
/// ask for more of a longer one.
pub open spec fn consistent<O, E>(parser: ParserModel<O, E>, all: Seq<u8>, from: nat) -> bool {
    forall|k: int|
        from <= k <= all.len() ==> {
            ||| (#[trigger] outcome_at(parser, all, k)) is NeedMore
            ||| (outcome_at(parser, all, k) == verdict_on(parser, all) && taken_by(
                verdict_on(parser, all),
            ) <= k)
        }
}

/// Two parses end alike: with the same result and with the same unconsumed
/// bytes in the window, whatever the capacity and wherever the bytes lie.
pub open spec fn same_outcome<O, E>(a: Finish<O, E>, b: Finish<O, E>) -> bool {
    &&& a.result == b.result
    &&& a.window.window() == b.window.window()
    &&& a.source == b.source
    &&& a.fills == b.fills
}

/// A fill that `advance` asks for is for at least the default chunk and for
/// at least what the parser misses; the unconsumed bytes are the same before
/// and after, and there is room behind them.
pub proof fn lemma_fill_fits<O, E>(w: WindowModel, pending: Pending, outcome: ParseOutcome<O, E>)
    requires
        w.wf(),
        advance_model(w, pending, outcome).1 is Fill,
    ensures
        advance_model(w, pending, outcome).1->Fill_0 >= DEFAULT_CHUNK,
        outcome matches ParseOutcome::NeedMore(Some(n)) ==> advance_model(
            w,
            pending,
            outcome,
        ).1->Fill_0 >= n,
        advance_model(w, pending, outcome).0.wf(),
        advance_model(w, pending, outcome).0.window() == w.window(),
        advance_model(w, pending, outcome).0.room() > 0,
        outcome is NeedMore,
        pending is Ready,
{
    lemma_make_room_keeps_window(w);
    lemma_fill_size_bounds(outcome->NeedMore_0);
}

/// Every parse ends, and after no more fills than the source has bytes,
/// plus one; it leaves a well-formed window.
pub proof fn lemma_run_is_bounded<O, E>(
    parser: ParserModel<O, E>,
    w: WindowModel,
    pending: Pending,
    source: SourceModel,
)
    requires
        w.wf(),
    ensures
        run(parser, w, pending, source).fills <= steps_left(pending, source),
        run(parser, w, pending, source).window.wf(),
    decreases steps_left(pending, source),
{
    let (w1, step) = advance_model(w, pending, parser(w.window()));
    lemma_make_room_keeps_window(w);
    if let ParseOutcome::Done(n, _) = parser(w.window()) {
        lemma_consume_monotonic(w, n as nat);
    }
    match step {
        Step::Finished(_) => {},
        Step::Fill(request) => {
            lemma_fill_fits(w, pending, parser(w.window()));
            let delivery = source.read(request as nat);
            let (w2, pending2) = filled_model(w1, delivery);
            if let Ok(data) = delivery {
                lemma_append_extends_window(w1, data);
            }
            lemma_run_is_bounded(parser, w2, pending2, source.after_read(request as nat));
        },
    }
}

/// A parser that asks for more whatever it is shown, over a source that has
/// ended, gets the error `Eof` after one fill, with the window's bytes as
/// they were.
pub proof fn lemma_eof_is_terminal<O, E>(
    parser: ParserModel<O, E>,
    w: WindowModel,
    source: SourceModel,
)
    requires
        w.wf(),
        forall|shown: Seq<u8>| (#[trigger] parser(shown)) is NeedMore,
        source.bytes.len() == 0,
        source.reads.len() > 0 ==> source.reads[0] is Ok,
    ensures
        run(parser, w, Pending::Ready, source).result == Err::<O, Error<E>>(Error::Eof),
        run(parser, w, Pending::Ready, source).fills == 1,
        run(parser, w, Pending::Ready, source).window.window() == w.window(),
{
    lemma_fill_fits(w, Pending::Ready, parser(w.window()));
    let (w1, step) = advance_model(w, Pending::Ready, parser(w.window()));
    let request = step->Fill_0;
    let delivery = source.read(request as nat);
    assert(delivery == Ok::<Seq<u8>, std::io::Error>(Seq::empty())) by {
        assert(source.bytes.subrange(0, 0) =~= Seq::<u8>::empty());
    }
    let (w2, pending2) = filled_model(w1, delivery);
    lemma_append_extends_window(w1, Seq::empty());
    assert(w2.window() =~= w.window());
    assert(pending2 is Eof);
    let inner = run(parser, w2, pending2, source.after_read(request as nat));
    assert(inner.result == Err::<O, Error<E>>(Error::Eof) && inner.fills == 0 && inner.window
        == w2);
}

/// The capacity is a reservation, and where the bytes lie in the storage is
/// no one's concern: two windows that hold the same unconsumed bytes,
/// however small one of them is and however often it has to shift or grow,
/// go through the same parse over the same source, whatever the parser does.
/// They end with the same result after the same fills, with the same bytes
/// left in the window and in the source.
pub proof fn lemma_compaction_transparency<O, E>(
    parser: ParserModel<O, E>,
    small: WindowModel,
    large: WindowModel,
    pending: Pending,
    source: SourceModel,
)
    requires
        small.wf(),
        large.wf(),
        small.window() == large.window(),
    ensures
        same_outcome(
            run(parser, small, pending, source),
            run(parser, large, pending, source),
        ),
    decreases steps_left(pending, source),
{
    let shown = parser(small.window());
    let (small1, step) = advance_model(small, pending, shown);
    let (large1, step_large) = advance_model(large, pending, shown);
    assert(step == step_large);
    lemma_make_room_keeps_window(small);
    lemma_make_room_keeps_window(large);
    if let ParseOutcome::Done(n, _) = shown {
        lemma_consume_monotonic(small, n as nat);
        lemma_consume_monotonic(large, n as nat);
    }
    match step {
        Step::Finished(_) => {},
        Step::Fill(request) => {
            lemma_fill_fits(small, pending, shown);
            let delivery = source.read(request as nat);
            let (small2, pending2) = filled_model(small1, delivery);
            let (large2, pending_large) = filled_model(large1, delivery);
            if let Ok(data) = delivery {
                lemma_append_extends_window(small1, data);
                lemma_append_extends_window(large1, data);
            }
            lemma_compaction_transparency(
                parser,
                small2,
                large2,
                pending2,
                source.after_read(request as nat),
            );
        },
    }
}

/// Where the parser is of one mind about the stream, the parse comes to the
/// parser's answer to the whole stream, and the bytes that the parser used
/// are what the parse takes from the stream: over any schedule of reads
/// that bring at least one byte each, whatever the capacity of the window,
/// wherever in its storage the bytes lie, and however the stream is divided
/// between window and source.
pub proof fn lemma_consistent_parse<O, E>(
    parser: ParserModel<O, E>,
    w: WindowModel,
    source: SourceModel,
)
    requires
        w.wf(),
        source.steady(),
        consistent(parser, stream(w, source), w.len()),
    ensures
        run(parser, w, Pending::Ready, source).result == result_of(
            verdict_on(parser, stream(w, source)),
        ),
        stream(
            run(parser, w, Pending::Ready, source).window,
            run(parser, w, Pending::Ready, source).source,
        ) == stream(w, source).skip(taken_by(verdict_on(parser, stream(w, source))) as int),
    decreases source.bytes.len(),
{
    let all = stream(w, source);
    let verdict = verdict_on(parser, all);
    let shown = parser(w.window());
    assert(all.subrange(0, w.len() as int) =~= w.window());
    assert(shown == outcome_at(parser, all, w.len() as int));
    assert(all.skip(0) =~= all);
    let (w1, step) = advance_model(w, Pending::Ready, shown);
    if let ParseOutcome::NeedMore(hint) = shown {
        lemma_fill_fits(w, Pending::Ready, shown);
        let request = step->Fill_0;
        let got = source.brings(request as nat);
        let data = source.bytes.subrange(0, got as int);
        assert(source.read(request as nat) == Ok::<Seq<u8>, std::io::Error>(data));
        let (w2, pending2) = filled_model(w1, source.read(request as nat));
        lemma_append_extends_window(w1, data);
        let rest = source.after_read(request as nat);
        assert(stream(w2, rest) =~= all);
        if source.bytes.len() == 0 {
            assert(all =~= w.window());
            assert(verdict == shown);
            assert(w2.window() =~= w.window());
            assert(pending2 is Eof);
            let inner = run(parser, w2, pending2, rest);
            assert(inner.result == Err::<O, Error<E>>(Error::Eof) && inner.window == w2
                && inner.source == rest);
        } else {
            assert(1 <= got);
            assert(rest.steady()) by {
                if source.reads.len() > 0 {
                    assert forall|i: int| 0 <= i < rest.reads.len() implies ((
                    #[trigger] rest.reads[i]) matches Ok(n) && n > 0) by {
                        assert(rest.reads[i] == source.reads[i + 1]);
                    }
                }
            }
            lemma_consistent_parse(parser, w2, rest);
        }
    } else {
        if let ParseOutcome::Done(used, _) = shown {
            lemma_consume_monotonic(w, used as nat);
            assert(stream(w.consume(used as nat), source) =~= all.skip(used as int));
        }
    }
}

/// However the source cuts up a stream about which the parser is of one
/// mind, the parse gives what it gives when the source hands the bytes over
/// as fast as they are asked for: the same value or the same error, with
/// the same bytes taken from the stream. And the capacity of the window has
/// no say in it.
pub proof fn lemma_fragmentation_invariance<O, E>(
    parser: ParserModel<O, E>,
    w: WindowModel,
    other: WindowModel,
    source: SourceModel,
)
    requires
        w.wf(),
        other.wf(),
        other.window() == w.window(),
        source.steady(),
        consistent(parser, stream(w, source), w.len()),
    ensures
        run(parser, w, Pending::Ready, source).result == run(
            parser,
            other,
            Pending::Ready,
            SourceModel::whole(source.bytes),
        ).result,
        stream(
            run(parser, w, Pending::Ready, source).window,
            run(parser, w, Pending::Ready, source).source,
        ) == stream(
            run(parser, other, Pending::Ready, SourceModel::whole(source.bytes)).window,
            run(parser, other, Pending::Ready, SourceModel::whole(source.bytes)).source,
        ),
        run(parser, w, Pending::Ready, source).result == result_of(
            verdict_on(parser, stream(w, source)),
        ),
{
    let whole = SourceModel::whole(source.bytes);
    assert(stream(other, whole) == stream(w, source));
    lemma_consistent_parse(parser, w, source);
    lemma_consistent_parse(parser, other, whole);
}

/// A parse that the parser ends with an error of its own leaves in the
/// window the bytes that the parser was shown last, all of them.
pub proof fn lemma_rejection_keeps_window<O, E>(
    parser: ParserModel<O, E>,
    w: WindowModel,
    pending: Pending,
    source: SourceModel,
)
    requires
        w.wf(),
        run(parser, w, pending, source).result is Err,
    ensures
        !(parser(run(parser, w, pending, source).window.window()) is Done),
        run(parser, w, pending, source).result matches Err(Error::Error(e)) ==> parser(
            run(parser, w, pending, source).window.window(),
        ) == ParseOutcome::<O, E>::Recoverable(e),
        run(parser, w, pending, source).result matches Err(Error::Failure(e)) ==> parser(
            run(parser, w, pending, source).window.window(),
        ) == ParseOutcome::<O, E>::Fatal(e),
    decreases steps_left(pending, source),
{
    let (w1, step) = advance_model(w, pending, parser(w.window()));
    match step {
        Step::Finished(_) => {},
        Step::Fill(request) => {
            lemma_fill_fits(w, pending, parser(w.window()));
            let delivery = source.read(request as nat);
            let (w2, pending2) = filled_model(w1, delivery);
            if let Ok(data) = delivery {
                lemma_append_extends_window(w1, data);
            }
            lemma_rejection_keeps_window(parser, w2, pending2, source.after_read(request as nat));
        },
    }
}

/// A parser that gives a value at once ends the parse without a fill: the
/// value is the result, and the window has lost the bytes that the parser
/// used and no others.
pub proof fn lemma_done_consumes<O, E>(
    parser: ParserModel<O, E>,
    w: WindowModel,
    pending: Pending,
    source: SourceModel,
    used: usize,
    value: O,
)
    requires
        w.wf(),
        parser(w.window()) == ParseOutcome::<O, E>::Done(used, value),
    ensures
        run(parser, w, pending, source).result == Ok::<O, Error<E>>(value),
        run(parser, w, pending, source).fills == 0,
        run(parser, w, pending, source).source == source,
        run(parser, w, pending, source).window == w.consume(used as nat),
        used <= w.len() ==> run(parser, w, pending, source).window.start == w.start + used,
        run(parser, w, pending, source).window.window() == rest_after(w.window(), used as nat),
{
    lemma_consume_monotonic(w, used as nat);
}

/// No parse loses, repeats or reorders a byte: the stream that the reader
/// has before it after the parse is the one it had before the parse
/// without the first `taken` bytes, and `taken` is zero unless the parse
/// gave a value.
pub proof fn lemma_stream_is_kept<O, E>(
    parser: ParserModel<O, E>,
    w: WindowModel,
    pending: Pending,
    source: SourceModel,
) -> (taken: nat)
    requires
        w.wf(),
    ensures
        taken <= stream(w, source).len(),
        stream(run(parser, w, pending, source).window, run(parser, w, pending, source).source)
            == stream(w, source).skip(taken as int),
        run(parser, w, pending, source).result is Err ==> taken == 0,
    decreases steps_left(pending, source),
{
    let outcome = parser(w.window());
    let (w1, step) = advance_model(w, pending, outcome);
    let before = stream(w, source);
    match step {
        Step::Finished(result) => {
            if let ParseOutcome::Done(used, _) = outcome {
                lemma_consume_monotonic(w, used as nat);
                let taken = if used <= w.len() {
                    used as nat
                } else {
                    w.len()
                };
                assert(w1.window() + source.bytes =~= before.skip(taken as int));
                taken
            } else {
                assert(before.skip(0) =~= before);
                0
            }
        },
        Step::Fill(request) => {
            lemma_fill_fits(w, pending, outcome);
            let delivery = source.read(request as nat);
            let (w2, pending2) = filled_model(w1, delivery);
            let rest = source.after_read(request as nat);
            if let Ok(data) = delivery {
                lemma_append_extends_window(w1, data);
            }
            assert(w2.window() + rest.bytes =~= before);
            lemma_stream_is_kept(parser, w2, pending2, rest)
        },
    }
}

} // verus!
