//! The general guarantees of the consumer, stated and proved against the
//! machine of `crate::machine`. The executable `consume` is tied to that
//! machine by its own contract, so these laws carry over to every call.

use vstd::prelude::*;
use crate::events::{EvV, classify, field_of, root_name};
use crate::machine::{
    ErrV, Phase, RunState, initial_state, lemma_done_absorbing, lemma_run_concat, run, step,
};
use crate::record::WaypointV;

verus! {

/// A machine state that has concluded successfully.
pub open spec fn is_success(st: RunState) -> bool {
    st.phase matches Phase::Done { result: Ok(_) }
}

/// The one way to succeed: a step concludes successfully exactly when it was
/// already concluded successfully, or the event is the root's close tag at
/// depth one.
pub proof fn lemma_step_success(st: RunState, e: EvV)
    ensures
        is_success(step(st, e)) <==> (is_success(st) || (st.phase == (Phase::Scanning {
            depth: 1,
        }) && e == EvV::End(root_name()))),
{
}

/// Once the machine concludes, later prefixes conclude the same way.
pub proof fn lemma_conclusion_is_final(delta: Seq<EvV>, st: RunState, i: int, j: int)
    requires
        0 <= i <= j <= delta.len(),
        run(delta.take(i), st).phase is Done,
    ensures
        run(delta.take(j), st) == run(delta.take(i), st),
{
    assert(delta.take(j) =~= delta.take(i) + delta.subrange(i, j));
    lemma_run_concat(delta.take(i), delta.subrange(i, j), st);
    lemma_done_absorbing(delta.subrange(i, j), run(delta.take(i), st));
}

/// Drain completeness: when a consumption of the events `delta` succeeds and
/// had not concluded one event earlier, the very last consumed event is the
/// subtree's matching close tag, seen at depth one, and no strict prefix of
/// the consumed events had concluded — every event of the subtree was
/// consumed exactly once and nothing beyond it was read.
pub proof fn drain_completeness(delta: Seq<EvV>, rec0: WaypointV)
    requires
        delta.len() > 0,
        is_success(run(delta, initial_state(rec0))),
        !(run(delta.drop_last(), initial_state(rec0)).phase is Done),
    ensures
        delta.last() == EvV::End(root_name()),
        run(delta.drop_last(), initial_state(rec0)).phase == (Phase::Scanning { depth: 1 }),
        forall|i: int|
            0 <= i < delta.len() ==> !(run(
                #[trigger] delta.take(i),
                initial_state(rec0),
            ).phase is Done),
{
    let init = initial_state(rec0);
    assert(run(delta, init) == step(run(delta.drop_last(), init), delta.last()));
    lemma_step_success(run(delta.drop_last(), init), delta.last());
    assert forall|i: int|
        0 <= i < delta.len() implies !(run(#[trigger] delta.take(i), init).phase is Done) by {
        if run(delta.take(i), init).phase is Done {
            lemma_conclusion_is_final(delta, init, i, delta.len() - 1);
            assert(delta.take(delta.len() - 1) =~= delta.drop_last());
        }
    }
}

/// The given event, `n` times over.
pub open spec fn repeated(e: EvV, n: nat) -> Seq<EvV> {
    Seq::new(n, |i| e)
}

/// A subtree of `n` same-named elements nested directly in one another and
/// otherwise empty: `n` opening tags, then the `n` matching close tags.
pub open spec fn nested_subtree(n: nat) -> Seq<EvV> {
    repeated(EvV::Start(root_name()), n) + repeated(EvV::End(root_name()), n)
}

/// Opening the root's tag `k` more times raises the depth by `k`.
proof fn lemma_nested_opens(k: nat, d: int, rec0: WaypointV)
    requires
        1 <= d,
        d + k <= usize::MAX,
    ensures
        run(repeated(EvV::Start(root_name()), k), RunState { phase: Phase::Scanning { depth: d }, record: rec0 })
            == (RunState { phase: Phase::Scanning { depth: d + k }, record: rec0 }),
    decreases k,
{
    let st = RunState { phase: Phase::Scanning { depth: d }, record: rec0 };
    if k > 0 {
        lemma_nested_opens((k - 1) as nat, d, rec0);
        assert(repeated(EvV::Start(root_name()), k).drop_last() =~= repeated(
            EvV::Start(root_name()),
            (k - 1) as nat,
        ));
        assert(repeated(EvV::Start(root_name()), k).last() == EvV::Start(root_name()));
    } else {
        assert(repeated(EvV::Start(root_name()), 0) =~= Seq::<EvV>::empty());
    }
}

/// Closing the root's tag `k` times, all above depth one, lowers the depth by
/// `k`.
proof fn lemma_nested_closes(k: nat, d: int, rec0: WaypointV)
    requires
        k < d,
    ensures
        run(repeated(EvV::End(root_name()), k), RunState { phase: Phase::Scanning { depth: d }, record: rec0 })
            == (RunState { phase: Phase::Scanning { depth: d - k }, record: rec0 }),
    decreases k,
{
    if k > 0 {
        lemma_nested_closes((k - 1) as nat, d, rec0);
        assert(repeated(EvV::End(root_name()), k).drop_last() =~= repeated(
            EvV::End(root_name()),
            (k - 1) as nat,
        ));
        assert(repeated(EvV::End(root_name()), k).last() == EvV::End(root_name()));
    } else {
        assert(repeated(EvV::End(root_name()), 0) =~= Seq::<EvV>::empty());
    }
}

/// Depth correctness under self-nesting: a subtree of `n` nested same-named
/// and otherwise empty elements is consumed as one single successful call —
/// the machine concludes successfully on its very last close tag, not one
/// event earlier, and leaves the record untouched. (`n` counts the outermost
/// element too; the depth counter holds values up to `usize::MAX`, which is
/// the one machine limit on nesting.)
pub proof fn depth_correctness_self_nesting(n: nat, rec0: WaypointV)
    requires
        1 <= n <= usize::MAX,
    ensures
        run(nested_subtree(n), initial_state(rec0)) == (RunState {
            phase: Phase::Done { result: Ok(()) },
            record: rec0,
        }),
        !(run(nested_subtree(n).drop_last(), initial_state(rec0)).phase is Done),
{
    let init = initial_state(rec0);
    let opens = repeated(EvV::Start(root_name()), n);
    let one_open = repeated(EvV::Start(root_name()), 1nat);
    // The first opening tag moves the machine from `Opening` to depth one.
    assert(one_open.drop_last() =~= Seq::<EvV>::empty());
    assert(one_open.last() == EvV::Start(root_name()));
    assert(one_open.len() == 1);
    assert(run(Seq::<EvV>::empty(), init) == init);
    assert(run(one_open.drop_last(), init) == init);
    assert(run(one_open, init) == step(init, EvV::Start(root_name())));
    assert(run(one_open, init) == (RunState { phase: Phase::Scanning { depth: 1 }, record: rec0 }));
    // The remaining opening tags raise the depth to `n`.
    assert(opens =~= one_open + repeated(EvV::Start(root_name()), (n - 1) as nat));
    lemma_run_concat(one_open, repeated(EvV::Start(root_name()), (n - 1) as nat), init);
    lemma_nested_opens((n - 1) as nat, 1, rec0);
    assert(run(opens, init) == (RunState { phase: Phase::Scanning { depth: n as int }, record: rec0 }));
    // All close tags but the last lower the depth back to one.
    let inner_closes = repeated(EvV::End(root_name()), (n - 1) as nat);
    lemma_run_concat(opens, inner_closes, init);
    lemma_nested_closes((n - 1) as nat, n as int, rec0);
    assert(run(opens + inner_closes, init) == (RunState {
        phase: Phase::Scanning { depth: 1 },
        record: rec0,
    }));
    // The last close tag, at depth one, concludes successfully.
    assert(nested_subtree(n) =~= (opens + inner_closes).push(EvV::End(root_name())));
    assert(nested_subtree(n).drop_last() =~= opens + inner_closes);
    assert(nested_subtree(n).last() == EvV::End(root_name()));
}

/// Unterminated input fails closed: when the stream ends while the machine
/// has not concluded, the consumption concludes with an error, never with
/// success; if the subtree was already open, the error is
/// `UnterminatedSubtree`.
pub proof fn unterminated_input_fails_closed(delta: Seq<EvV>, rec0: WaypointV)
    requires
        delta.len() > 0,
        delta.last() == EvV::EndOfStream,
        !(run(delta.drop_last(), initial_state(rec0)).phase is Done),
    ensures
        run(delta, initial_state(rec0)).phase is Done,
        !is_success(run(delta, initial_state(rec0))),
        (run(delta.drop_last(), initial_state(rec0)).phase is Scanning || run(
            delta.drop_last(),
            initial_state(rec0),
        ).phase is InField) ==> run(delta, initial_state(rec0)).phase == (Phase::Done {
            result: Err(ErrV::UnterminatedSubtree),
        }),
{
    let init = initial_state(rec0);
    assert(run(delta, init) == step(run(delta.drop_last(), init), delta.last()));
}

/// Mismatched tags fail closed: a tokenizer failure — as a crossed open/close
/// pair provokes — concludes the consumption with an error carrying the
/// tokenizer's message, never with success.
pub proof fn read_failure_fails_closed(delta: Seq<EvV>, rec0: WaypointV, message: Seq<char>)
    requires
        delta.len() > 0,
        delta.last() == EvV::ReadError(message),
        !(run(delta.drop_last(), initial_state(rec0)).phase is Done),
    ensures
        run(delta, initial_state(rec0)).phase is Done,
        !is_success(run(delta, initial_state(rec0))),
        run(delta.drop_last(), initial_state(rec0)).phase is Scanning ==> run(
            delta,
            initial_state(rec0),
        ).phase == (Phase::Done { result: Err(ErrV::EventReadFailure(message)) }),
        run(delta.drop_last(), initial_state(rec0)).phase is InField ==> run(
            delta,
            initial_state(rec0),
        ).phase == (Phase::Done { result: Err(ErrV::MalformedXmlStructure(message)) }),
{
    let init = initial_state(rec0);
    assert(run(delta, init) == step(run(delta.drop_last(), init), delta.last()));
}

/// An event the dispatch loop consumes and discards without any effect:
/// unknown tags opening or closing, text, and non-structural events.
pub open spec fn inert_in_scanning(e: EvV) -> bool {
    match e {
        EvV::Start(name) => classify(name) is Unknown,
        EvV::End(name) => name != root_name(),
        EvV::Text(_) => true,
        EvV::Other => true,
        EvV::EndOfStream => false,
        EvV::ReadError(_) => false,
    }
}

/// Inert events leave a scanning state exactly as it stands.
proof fn lemma_inert_run(mid: Seq<EvV>, st: RunState)
    requires
        st.phase is Scanning,
        forall|i: int| 0 <= i < mid.len() ==> inert_in_scanning(#[trigger] mid[i]),
    ensures
        run(mid, st) == st,
    decreases mid.len(),
{
    if mid.len() > 0 {
        lemma_inert_run(mid.drop_last(), st);
    }
}

/// Unknown-content tolerance: splicing arbitrary unknown tags, text and
/// non-structural events into any point where the dispatch loop is scanning
/// changes nothing — neither the outcome nor the extracted fields.
/// (Attributes never reach the machine at all: the event source drops them.)
pub proof fn unknown_content_tolerated(a: Seq<EvV>, mid: Seq<EvV>, b: Seq<EvV>, rec0: WaypointV)
    requires
        run(a, initial_state(rec0)).phase is Scanning,
        forall|i: int| 0 <= i < mid.len() ==> inert_in_scanning(#[trigger] mid[i]),
    ensures
        run(a + mid + b, initial_state(rec0)) == run(a + b, initial_state(rec0)),
{
    let init = initial_state(rec0);
    lemma_run_concat(a, mid, init);
    lemma_inert_run(mid, run(a, init));
    lemma_run_concat(a + mid, b, init);
    lemma_run_concat(a, b, init);
    assert(run(a + mid, init) == run(a, init));
}

/// Field absence: a consumption that never meets the start tag of a
/// recognized field leaves every field of the record exactly as it was.
pub proof fn absent_fields_stay_unset(delta: Seq<EvV>, rec0: WaypointV)
    requires
        forall|i: int|
            0 <= i < delta.len() ==> !(#[trigger] delta[i] matches EvV::Start(name)
                && field_of(name) is Some),
    ensures
        run(delta, initial_state(rec0)).record == rec0,
        !(run(delta, initial_state(rec0)).phase is InField),
    decreases delta.len(),
{
    if delta.len() > 0 {
        assert(forall|i: int|
            0 <= i < delta.drop_last().len() ==> #[trigger] delta.drop_last()[i] == delta[i]);
        absent_fields_stay_unset(delta.drop_last(), rec0);
    }
}

} // verus!
