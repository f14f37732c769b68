//! The mathematical model of subtree consumption: a state machine over the
//! sequence of consumed events. The executable consumer's contract states
//! that running this machine over exactly the events it consumed yields its
//! result and its mutation of the record.

use vstd::prelude::*;
use crate::events::{EvV, FieldKind, TagClass, classify, field_name, root_name};
use crate::number::valid_number;
use crate::record::{WaypointV, set_field_spec};

verus! {

/// The error cases of a consumption, as mathematical values.
pub enum ErrV {
    /// The stream did not begin with the subtree's opening tag.
    MissingOpeningTag,
    /// The event source failed while the dispatch loop was reading.
    EventReadFailure(Seq<char>),
    /// Structural malformation: the tokenizer's failure surfaced while a
    /// recognized field was being read, a tokenizer failure before the
    /// opening tag, or an element where a field's text content belongs.
    MalformedXmlStructure(Seq<char>),
    /// The stream ended while the tracked depth was still positive.
    UnterminatedSubtree,
    /// A recognized field's text did not satisfy the numeric grammar.
    FieldParseError(FieldKind),
    /// Machine limit: more same-named opens than the depth counter can hold.
    DepthLimitExceeded,
}

/// Where the machine stands between events.
pub enum Phase {
    /// Before the subtree's opening tag has been seen.
    Opening,
    /// Inside the subtree; `depth` counts the currently open elements that
    /// carry the root name, the outermost one included.
    Scanning { depth: int },
    /// Inside a recognized field's element; `acc` is the text read so far.
    InField { depth: int, field: FieldKind, acc: Seq<char> },
    /// The consumption has concluded.
    Done { result: Result<(), ErrV> },
}

/// A machine state: the phase, and the record as mutated so far.
pub struct RunState {
    pub phase: Phase,
    pub record: WaypointV,
}

/// The message this library itself reports when an element opens where a
/// field's text content belongs.
pub open spec fn element_in_field_message() -> Seq<char> {
    "unexpected element inside a scalar field"@
}

/// The message this library itself reports when a field's element is closed
/// by some other name.
pub open spec fn mismatched_field_close_message() -> Seq<char> {
    "unexpected closing tag inside a scalar field"@
}

/// One step of the machine: how a single consumed event moves the state.
pub open spec fn step(st: RunState, e: EvV) -> RunState {
    match st.phase {
        Phase::Opening => match e {
            EvV::Start(name) => {
                if name == root_name() {
                    RunState { phase: Phase::Scanning { depth: 1 }, ..st }
                } else {
                    done(st, Err(ErrV::MissingOpeningTag))
                }
            },
            EvV::Other => st,
            EvV::ReadError(m) => done(st, Err(ErrV::MalformedXmlStructure(m))),
            _ => done(st, Err(ErrV::MissingOpeningTag)),
        },
        Phase::Scanning { depth } => match e {
            EvV::Start(name) => match classify(name) {
                TagClass::Root => {
                    if depth < usize::MAX as int {
                        RunState { phase: Phase::Scanning { depth: depth + 1 }, ..st }
                    } else {
                        done(st, Err(ErrV::DepthLimitExceeded))
                    }
                },
                TagClass::Field(f) => (RunState {
                    phase: Phase::InField { depth, field: f, acc: Seq::empty() },
                    ..st
                }),
                TagClass::Unknown => st,
            },
            EvV::End(name) => {
                if name == root_name() {
                    if depth == 1 {
                        done(st, Ok(()))
                    } else {
                        RunState { phase: Phase::Scanning { depth: depth - 1 }, ..st }
                    }
                } else {
                    st
                }
            },
            EvV::Text(_) => st,
            EvV::Other => st,
            EvV::EndOfStream => done(st, Err(ErrV::UnterminatedSubtree)),
            EvV::ReadError(m) => done(st, Err(ErrV::EventReadFailure(m))),
        },
        Phase::InField { depth, field, acc } => match e {
            EvV::Text(t) => (RunState {
                phase: Phase::InField { depth, field, acc: acc + t },
                ..st
            }),
            EvV::End(name) => {
                if name == field_name(field) {
                    if valid_number(acc) {
                        RunState {
                            phase: Phase::Scanning { depth },
                            record: set_field_spec(st.record, field, acc),
                        }
                    } else {
                        done(st, Err(ErrV::FieldParseError(field)))
                    }
                } else {
                    done(st, Err(ErrV::MalformedXmlStructure(mismatched_field_close_message())))
                }
            },
            EvV::Start(_) => done(st, Err(ErrV::MalformedXmlStructure(element_in_field_message()))),
            EvV::Other => st,
            EvV::EndOfStream => done(st, Err(ErrV::UnterminatedSubtree)),
            EvV::ReadError(m) => done(st, Err(ErrV::MalformedXmlStructure(m))),
        },
        Phase::Done { .. } => st,
    }
}

/// Concluding keeps the record as it stands: fields stored before a failure
/// remain stored.
pub open spec fn done(st: RunState, result: Result<(), ErrV>) -> RunState {
    RunState { phase: Phase::Done { result }, ..st }
}

/// The machine run over a whole sequence of consumed events, oldest first.
pub open spec fn run(es: Seq<EvV>, st: RunState) -> RunState
    decreases es.len(),
{
    if es.len() == 0 {
        st
    } else {
        step(run(es.drop_last(), st), es.last())
    }
}

/// The state in which a consumption of a fresh subtree starts.
pub open spec fn initial_state(record: WaypointV) -> RunState {
    RunState { phase: Phase::Opening, record }
}

/// Running one more event is one more step.
pub proof fn lemma_run_push(es: Seq<EvV>, st: RunState, e: EvV)
    ensures
        run(es.push(e), st) == step(run(es, st), e),
{
    assert(es.push(e).drop_last() =~= es);
    assert(es.push(e).last() == e);
}

/// A run splits at any seam: the second part starts where the first ended.
pub proof fn lemma_run_concat(a: Seq<EvV>, b: Seq<EvV>, st: RunState)
    ensures
        run(a + b, st) == run(b, run(a, st)),
    decreases b.len(),
{
    if b.len() == 0 {
        assert(a + b =~= a);
    } else {
        lemma_run_concat(a, b.drop_last(), st);
        assert((a + b).drop_last() =~= a + b.drop_last());
        assert((a + b).last() == b.last());
    }
}

/// A concluded run stays concluded, whatever else the source would offer.
pub proof fn lemma_done_absorbing(es: Seq<EvV>, st: RunState)
    requires
        st.phase is Done,
    ensures
        run(es, st) == st,
    decreases es.len(),
{
    if es.len() > 0 {
        lemma_done_absorbing(es.drop_last(), st);
    }
}

} // verus!
