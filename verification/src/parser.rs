//! The subtree consumer: verifies the opening tag, then classifies one
//! lookahead event at a time — adjusting the depth counter on the root name,
//! delegating recognized fields to the scalar consumer, and discarding
//! everything else — until the matching close tag brings the depth to zero.

use vstd::prelude::*;
use vstd::string::StringExecFns;
use crate::events::{Event, EvV, FieldKind, TagClass, classify_tag, field_tag};
use crate::machine::{ErrV, Phase, RunState, initial_state, lemma_run_concat, lemma_run_push, run};
use crate::reader::Context;
use crate::record::Waypoint;

verus! {

/// The error cases of a consumption. `EventReadFailure` and
/// `MalformedXmlStructure` carry the tokenizer's message.
#[derive(Debug)]
pub enum ParseError {
    MissingOpeningTag,
    EventReadFailure(String),
    MalformedXmlStructure(String),
    UnterminatedSubtree,
    FieldParseError(FieldKind),
    DepthLimitExceeded,
}

/// The mathematical value of an error.
pub open spec fn err_view(e: ParseError) -> ErrV {
    match e {
        ParseError::MissingOpeningTag => ErrV::MissingOpeningTag,
        ParseError::EventReadFailure(m) => ErrV::EventReadFailure(m@),
        ParseError::MalformedXmlStructure(m) => ErrV::MalformedXmlStructure(m@),
        ParseError::UnterminatedSubtree => ErrV::UnterminatedSubtree,
        ParseError::FieldParseError(f) => ErrV::FieldParseError(f),
        ParseError::DepthLimitExceeded => ErrV::DepthLimitExceeded,
    }
}

/// The mathematical value of a consumption's result.
pub open spec fn result_view(r: Result<(), ParseError>) -> Result<(), ErrV> {
    match r {
        Ok(_) => Ok(()),
        Err(e) => Err(err_view(e)),
    }
}

/// What one call of `consume` guarantees: the call consumed at least one
/// event and only appended to the source's log; the machine, run over exactly
/// the consumed events, concludes with the call's result and the record's new
/// value; and the machine had not concluded one event earlier — so on success
/// the source stands exactly one event past the subtree's matching close tag,
/// every event of the subtree consumed once and nothing beyond it.
pub open spec fn consumption_post(
    pre: Seq<EvV>,
    post: Seq<EvV>,
    rec0: crate::record::WaypointV,
    rec1: crate::record::WaypointV,
    r: Result<(), ErrV>,
) -> bool {
    let delta = post.skip(pre.len() as int);
    &&& pre.len() < post.len()
    &&& post.take(pre.len() as int) == pre
    &&& run(delta, initial_state(rec0)) == (RunState {
        phase: Phase::Done { result: r },
        record: rec1,
    })
    &&& !(run(delta.drop_last(), initial_state(rec0)).phase is Done)
}

/// Appending one consumed event to the log keeps the prefix and pushes the
/// event onto the consumed delta.
proof fn lemma_log_push(pre: Seq<EvV>, prev: Seq<EvV>, e: EvV)
    requires
        pre.len() <= prev.len(),
        prev.take(pre.len() as int) == pre,
    ensures
        prev.push(e).take(pre.len() as int) == pre,
        prev.push(e).skip(pre.len() as int) == prev.skip(pre.len() as int).push(e),
        prev.push(e).skip(pre.len() as int).drop_last() == prev.skip(pre.len() as int),
{
    assert(prev.push(e).take(pre.len() as int) =~= pre);
    assert(prev.push(e).skip(pre.len() as int) =~= prev.skip(pre.len() as int).push(e));
    assert(prev.push(e).skip(pre.len() as int).drop_last() =~= prev.skip(pre.len() as int));
}

/// A log that grew in two stages splits into the two consumed deltas.
proof fn lemma_log_split(pre: Seq<EvV>, mid: Seq<EvV>, post: Seq<EvV>)
    requires
        pre.len() <= mid.len() < post.len(),
        mid.take(pre.len() as int) == pre,
        post.take(mid.len() as int) == mid,
    ensures
        post.take(pre.len() as int) == pre,
        post.skip(pre.len() as int) == mid.skip(pre.len() as int) + post.skip(mid.len() as int),
        post.skip(pre.len() as int).drop_last() == mid.skip(pre.len() as int) + post.skip(
            mid.len() as int,
        ).drop_last(),
{
    assert(post.take(pre.len() as int) =~= pre);
    assert(post.skip(pre.len() as int) =~= mid.skip(pre.len() as int) + post.skip(
        mid.len() as int,
    ));
    assert(post.skip(pre.len() as int).drop_last() =~= mid.skip(pre.len() as int) + post.skip(
        mid.len() as int,
    ).drop_last());
}

/// Consumes the whole `extensions` subtree the source stands on: verifies the
/// opening tag, extracts every recognized field into `waypoint`, silently
/// drains unknown content, and returns once the matching close tag is
/// consumed. On an error the events up to and including the offending one
/// have been consumed, and fields stored before the failure remain stored.
#[verifier::loop_isolation(false)]
pub fn consume(context: &mut Context, waypoint: &mut Waypoint) -> (r: Result<(), ParseError>)
    ensures
        consumption_post(
            old(context).consumed_events(),
            final(context).consumed_events(),
            old(waypoint)@,
            final(waypoint)@,
            result_view(r),
        ),
{
    let ghost pre = context.consumed_events();
    let ghost rec0 = waypoint@;
    let ghost init = initial_state(rec0);
    let opened = consume_opening(context, Ghost(rec0));
    if let Err(pe) = opened {
        return Err(pe);
    }
    // The dispatch loop: depth counts open elements with the root name.
    let mut depth: usize = 1;
    loop
        invariant
            pre.len() < context.consumed_events().len(),
            context.consumed_events().take(pre.len() as int) == pre,
            1 <= depth,
            run(context.consumed_events().skip(pre.len() as int), init) == (RunState {
                phase: Phase::Scanning { depth: depth as int },
                record: waypoint@,
            }),
            init == initial_state(rec0),
            rec0 == old(waypoint)@,
        decreases context.fuel(),
    {
        let ghost prev = context.consumed_events();
        let e = context.next_event();
        proof {
            lemma_log_push(pre, prev, e@);
            lemma_run_push(prev.skip(pre.len() as int), init, e@);
        }
        match e {
            Event::StartTag { name } => {
                match classify_tag(&name) {
                    TagClass::Root => {
                        if depth == usize::MAX {
                            return Err(ParseError::DepthLimitExceeded);
                        }
                        depth = depth + 1;
                    },
                    TagClass::Field(field) => {
                        let ghost mid = context.consumed_events();
                        let res = consume_field(context, waypoint, field, Ghost(depth as int));
                        proof {
                            lemma_log_split(pre, mid, context.consumed_events());
                            lemma_run_concat(
                                mid.skip(pre.len() as int),
                                context.consumed_events().skip(mid.len() as int),
                                init,
                            );
                            lemma_run_concat(
                                mid.skip(pre.len() as int),
                                context.consumed_events().skip(mid.len() as int).drop_last(),
                                init,
                            );
                        }
                        if let Err(pe) = res {
                            return Err(pe);
                        }
                    },
                    TagClass::Unknown => {},
                }
            },
            Event::EndTag { name } => {
                match classify_tag(&name) {
                    TagClass::Root => {
                        if depth == 1 {
                            return Ok(());
                        }
                        depth = depth - 1;
                    },
                    _ => {},
                }
            },
            Event::Text { .. } => {},
            Event::Other => {},
            Event::EndOfStream => {
                return Err(ParseError::UnterminatedSubtree);
            },
            Event::ReadError { message } => {
                return Err(ParseError::EventReadFailure(message));
            },
        }
    }
}

/// Locates and consumes the subtree's opening tag, skipping non-structural
/// events before it; the record is untouched, so it enters the contract only
/// as the ghost value carried by the machine state.
#[verifier::loop_isolation(false)]
fn consume_opening(context: &mut Context, Ghost(rec0): Ghost<crate::record::WaypointV>) -> (r:
    Result<(), ParseError>)
    ensures
        ({
            let pre = old(context).consumed_events();
            let post = final(context).consumed_events();
            let delta = post.skip(pre.len() as int);
            &&& pre.len() < post.len()
            &&& post.take(pre.len() as int) == pre
            &&& run(delta, initial_state(rec0)) == (RunState {
                phase: match r {
                    Ok(_) => Phase::Scanning { depth: 1 },
                    Err(e) => Phase::Done { result: Err(err_view(e)) },
                },
                record: rec0,
            })
            &&& !(run(delta.drop_last(), initial_state(rec0)).phase is Done)
            &&& final(context).fuel() <= old(context).fuel()
        }),
{
    let ghost pre = context.consumed_events();
    let ghost init = initial_state(rec0);
    loop
        invariant
            pre.len() <= context.consumed_events().len(),
            context.consumed_events().take(pre.len() as int) == pre,
            run(context.consumed_events().skip(pre.len() as int), init) == (RunState {
                phase: Phase::Opening,
                record: rec0,
            }),
            context.fuel() <= old(context).fuel(),
        decreases context.fuel(),
    {
        let ghost prev = context.consumed_events();
        let e = context.next_event();
        proof {
            lemma_log_push(pre, prev, e@);
            lemma_run_push(prev.skip(pre.len() as int), init, e@);
        }
        match e {
            Event::StartTag { name } => {
                match classify_tag(&name) {
                    TagClass::Root => { return Ok(()); },
                    _ => { return Err(ParseError::MissingOpeningTag); },
                }
            },
            Event::Other => {},
            Event::ReadError { message } => {
                return Err(ParseError::MalformedXmlStructure(message));
            },
            _ => { return Err(ParseError::MissingOpeningTag); },
        }
    }
}

/// The scalar consumer: reads the text content of one recognized field whose
/// start tag has just been consumed, up to the field's own close tag, checks
/// it against the numeric grammar, and stores it. `depth` is the surrounding
/// subtree depth, unchanged by the field.
#[verifier::loop_isolation(false)]
fn consume_field(
    context: &mut Context,
    waypoint: &mut Waypoint,
    field: FieldKind,
    Ghost(depth): Ghost<int>,
) -> (r: Result<(), ParseError>)
    ensures
        ({
            let pre = old(context).consumed_events();
            let post = final(context).consumed_events();
            let delta = post.skip(pre.len() as int);
            let st0 = RunState {
                phase: Phase::InField { depth, field, acc: Seq::empty() },
                record: old(waypoint)@,
            };
            &&& pre.len() < post.len()
            &&& post.take(pre.len() as int) == pre
            &&& run(delta, st0) == (RunState {
                phase: match r {
                    Ok(_) => Phase::Scanning { depth },
                    Err(e) => Phase::Done { result: Err(err_view(e)) },
                },
                record: final(waypoint)@,
            })
            &&& !(run(delta.drop_last(), st0).phase is Done)
            &&& final(context).fuel() <= old(context).fuel()
        }),
{
    let ghost pre = context.consumed_events();
    let ghost rec0 = waypoint@;
    let ghost st0 = RunState {
        phase: Phase::InField { depth, field, acc: Seq::empty() },
        record: rec0,
    };
    let tag = field_tag(field);
    let mut acc = String::new();
    loop
        invariant
            pre.len() <= context.consumed_events().len(),
            context.consumed_events().take(pre.len() as int) == pre,
            run(context.consumed_events().skip(pre.len() as int), st0) == (RunState {
                phase: Phase::InField { depth, field, acc: acc@ },
                record: rec0,
            }),
            waypoint@ == rec0,
            rec0 == old(waypoint)@,
            tag@ == crate::events::field_name(field),
            st0 == (RunState {
                phase: Phase::InField { depth, field, acc: Seq::<char>::empty() },
                record: rec0,
            }),
            context.fuel() <= old(context).fuel(),
        decreases context.fuel(),
    {
        let ghost prev = context.consumed_events();
        let e = context.next_event();
        proof {
            lemma_log_push(pre, prev, e@);
            lemma_run_push(prev.skip(pre.len() as int), st0, e@);
        }
        match e {
            Event::Text { content } => {
                acc.append(content.as_str());
            },
            Event::EndTag { name } => {
                if name.eq(&tag) {
                    if crate::number::is_valid_number(acc.as_str()) {
                        waypoint.set_field(field, acc);
                        return Ok(());
                    } else {
                        return Err(ParseError::FieldParseError(field));
                    }
                } else {
                    return Err(
                        ParseError::MalformedXmlStructure(
                            "unexpected closing tag inside a scalar field".to_owned(),
                        ),
                    );
                }
            },
            Event::StartTag { .. } => {
                return Err(
                    ParseError::MalformedXmlStructure(
                        "unexpected element inside a scalar field".to_owned(),
                    ),
                );
            },
            Event::Other => {},
            Event::EndOfStream => {
                return Err(ParseError::UnterminatedSubtree);
            },
            Event::ReadError { message } => {
                return Err(ParseError::MalformedXmlStructure(message));
            },
        }
    }
}

} // verus!
