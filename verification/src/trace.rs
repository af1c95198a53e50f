//! Handler traces and their well-formedness.
//!
//! To observe dispatch order, handlers are instrumented to emit `Enter(id)`
//! on entry and `Exit(id)` immediately before completing. Under depth-first
//! delivery a terminating run produces a balanced trace: every `Enter(x)` is
//! matched by a later `Exit(x)`, with no unmatched symbol for `x` between
//! them — the trace is a balanced parenthesis language over handler ids.

use vstd::prelude::*;

verus! {

/// One event of a handler trace.
#[derive(Debug, Clone, PartialEq, Eq)]
pub enum TraceEvent {
    /// A handler with the given id was entered.
    Enter(String),
    /// The handler with the given id completed.
    Exit(String),
}

/// Replay `trace` against a stack of still-open handler ids: `Enter` opens
/// an id, `Exit` closes the innermost open id. `Some` holds the ids still
/// open afterwards; `None` marks an `Exit` that did not name the innermost
/// open handler.
pub open spec fn replay_trace(trace: Seq<TraceEvent>, stack: Seq<Seq<char>>) -> Option<
    Seq<Seq<char>>,
>
    decreases trace.len(),
{
    if trace.len() == 0 {
        Some(stack)
    } else {
        match trace[0] {
            TraceEvent::Enter(id) => replay_trace(trace.drop_first(), stack.push(id@)),
            TraceEvent::Exit(id) => {
                if stack.len() > 0 && stack.last() == id@ {
                    replay_trace(trace.drop_first(), stack.drop_last())
                } else {
                    None
                }
            },
        }
    }
}

/// A trace is well-formed when, replayed from an empty stack, every `Exit`
/// closes the innermost open handler and no handler stays open at the end.
pub open spec fn trace_well_formed(trace: Seq<TraceEvent>) -> bool {
    replay_trace(trace, Seq::empty()) == Some(Seq::<Seq<char>>::empty())
}

/// Decide whether a recorded trace is well-formed.
pub fn is_well_formed(trace: &Vec<TraceEvent>) -> (r: bool)
    ensures
        r == trace_well_formed(trace@),
{
    let len: usize = trace.len();
    let mut stack: Vec<String> = Vec::new();
    let mut i: usize = 0;
    proof {
        assert(trace@.skip(0) =~= trace@);
        assert(stack@.map_values(|s: String| s@) =~= Seq::<Seq<char>>::empty());
    }
    while i < len
        invariant
            len == trace@.len(),
            0 <= i <= len,
            replay_trace(trace@, Seq::empty()) == replay_trace(
                trace@.skip(i as int),
                stack@.map_values(|s: String| s@),
            ),
        decreases len - i,
    {
        let ghost pre_stack = stack@.map_values(|s: String| s@);
        proof {
            assert(trace@.skip(i as int).len() > 0);
            assert(trace@.skip(i as int)[0] == trace@[i as int]);
            assert(trace@.skip(i as int).drop_first() =~= trace@.skip(i as int + 1));
        }
        match &trace[i] {
            TraceEvent::Enter(id) => {
                let opened = id.clone();
                stack.push(opened);
                proof {
                    assert(stack@.map_values(|s: String| s@) =~= pre_stack.push(
                        trace@[i as int]->Enter_0@,
                    ));
                }
            },
            TraceEvent::Exit(id) => {
                match stack.pop() {
                    Some(top) => {
                        proof {
                            assert(pre_stack.len() > 0);
                            assert(pre_stack.last() == top@);
                            assert(stack@.map_values(|s: String| s@) =~= pre_stack.drop_last());
                        }
                        if !(top == *id) {
                            proof {
                                assert(replay_trace(trace@.skip(i as int), pre_stack) is None);
                            }
                            return false;
                        }
                    },
                    None => {
                        proof {
                            assert(pre_stack.len() == 0);
                            assert(replay_trace(trace@.skip(i as int), pre_stack) is None);
                        }
                        return false;
                    },
                }
            },
        }
        i = i + 1;
    }
    proof {
        assert(trace@.skip(len as int) =~= Seq::<TraceEvent>::empty());
    }
    let drained = stack.is_empty();
    proof {
        if drained {
            assert(stack@.map_values(|s: String| s@) =~= Seq::<Seq<char>>::empty());
        } else {
            assert(stack@.map_values(|s: String| s@).len() > 0);
        }
    }
    drained
}

} // verus!
