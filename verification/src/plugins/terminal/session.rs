//! Driving the engine from raw bytes: each byte runs through the
//! interpreter, and every dispatched action mutates the screen state. The
//! read loop that blocks on the pseudo-terminal lives outside this crate and
//! hands whole reads to [`process_bytes`], re-using one parser across reads
//! so sequences split across read boundaries carry over.

use vstd::prelude::*;

use crate::plugins::terminal::parser::{
    opt_to_seq, spec_advance, spec_run, Action, ActionV, Parser, ParserV,
};
use crate::plugins::terminal::state::{
    spec_csi, spec_esc, spec_execute, spec_print, TermView, TerminalState,
};

verus! {

/// One structured action applied to the terminal state. The intermediates
/// of a plain escape sequence play no part in its meaning here.
pub open spec fn spec_apply(t: TermView, a: ActionV) -> TermView {
    match a {
        ActionV::Print(c) => spec_print(t, c),
        ActionV::Execute(b) => spec_execute(t, b),
        ActionV::Csi { params, intermediates, final_byte } => spec_csi(
            t,
            params,
            intermediates,
            final_byte,
        ),
        ActionV::Esc { intermediates, byte } => spec_esc(t, byte),
    }
}

/// A whole sequence of actions applied in order.
pub open spec fn spec_apply_all(t: TermView, acts: Seq<ActionV>) -> TermView
    decreases acts.len(),
{
    if acts.len() == 0 {
        t
    } else {
        spec_apply_all(spec_apply(t, acts[0]), acts.skip(1))
    }
}

/// Feeding a whole byte sequence through parser and engine: the terminal
/// state and parser value reached.
pub open spec fn spec_process(t: TermView, p: ParserV, bytes: Seq<u8>) -> (TermView, ParserV)
    decreases bytes.len(),
{
    if bytes.len() == 0 {
        (t, p)
    } else {
        let step = spec_advance(p, bytes[0]);
        let t2 = match step.1 {
            Some(a) => spec_apply(t, a),
            None => t,
        };
        spec_process(t2, step.0, bytes.skip(1))
    }
}

/// Feeding a byte sequence split into two reads reaches exactly the state
/// and parser that feeding it whole reaches: the engine does not care how
/// the stream is cut, so a control sequence arriving across two reads has
/// exactly the effect it has arriving in one.
pub proof fn lemma_process_append(t: TermView, p: ParserV, b1: Seq<u8>, b2: Seq<u8>)
    ensures
        spec_process(t, p, b1 + b2) == spec_process(
            spec_process(t, p, b1).0,
            spec_process(t, p, b1).1,
            b2,
        ),
    decreases b1.len(),
{
    if b1.len() == 0 {
        assert(b1 + b2 =~= b2);
    } else {
        let step = spec_advance(p, b1[0]);
        let t2 = match step.1 {
            Some(a) => spec_apply(t, a),
            None => t,
        };
        assert((b1 + b2)[0] == b1[0]);
        assert((b1 + b2).skip(1) =~= b1.skip(1) + b2);
        lemma_process_append(t2, step.0, b1.skip(1), b2);
    }
}

/// Feeding bytes is the same as parsing them first and then applying the
/// dispatched actions in order: the engine's behavior on a byte stream is
/// exactly the fold of the interpreter's actions.
pub proof fn lemma_process_as_actions(t: TermView, p: ParserV, bytes: Seq<u8>)
    ensures
        spec_process(t, p, bytes).0 == spec_apply_all(t, spec_run(p, bytes).1),
        spec_process(t, p, bytes).1 == spec_run(p, bytes).0,
    decreases bytes.len(),
{
    if bytes.len() > 0 {
        let step = spec_advance(p, bytes[0]);
        let t2 = match step.1 {
            Some(a) => spec_apply(t, a),
            None => t,
        };
        lemma_process_as_actions(t2, step.0, bytes.skip(1));
        let acts = spec_run(p, bytes).1;
        let rest_acts = spec_run(step.0, bytes.skip(1)).1;
        assert(acts == opt_to_seq(step.1) + rest_acts);
        match step.1 {
            Some(a) => {
                assert(acts[0] == a);
                assert(acts.skip(1) =~= rest_acts);
            },
            None => {
                assert(acts =~= rest_acts);
            },
        }
    }
}

impl TerminalState {
    /// Apply one structured action from the interpreter.
    pub fn apply_action(&mut self, action: &Action)
        requires
            old(self)@.wf(),
        ensures
            final(self)@ == spec_apply(old(self)@, action@),
            final(self)@.wf(),
    {
        match action {
            Action::Print(c) => self.print(*c),
            Action::Execute(b) => self.execute(*b),
            Action::CsiDispatch { params, intermediates, final_byte } => self.csi_dispatch(
                params,
                intermediates,
                *final_byte,
            ),
            Action::EscDispatch { intermediates: _, byte } => self.esc_dispatch(*byte),
        }
    }
}

/// Feed one read's bytes through the interpreter into the engine, in order.
/// The caller holds one lock over the whole call, so a consumer never sees a
/// state in the middle of an action, and keeps the parser across calls, so a
/// sequence split across reads still dispatches exactly once.
pub fn process_bytes(state: &mut TerminalState, parser: &mut Parser, bytes: &[u8])
    requires
        old(state)@.wf(),
        old(parser)@.wf(),
    ensures
        final(state)@ == spec_process(old(state)@, old(parser)@, bytes@).0,
        final(parser)@ == spec_process(old(state)@, old(parser)@, bytes@).1,
        final(state)@.wf(),
        final(parser)@.wf(),
{
    let n = bytes.len();
    let mut i: usize = 0;
    proof {
        assert(bytes@.skip(0) =~= bytes@);
    }
    while i < n
        invariant
            i <= n,
            n == bytes@.len(),
            state@.wf(),
            parser@.wf(),
            spec_process(old(state)@, old(parser)@, bytes@) == spec_process(
                state@,
                parser@,
                bytes@.skip(i as int),
            ),
        decreases n - i,
    {
        proof {
            assert(bytes@.skip(i as int)[0] == bytes@[i as int]);
            assert(bytes@.skip(i as int).skip(1) =~= bytes@.skip(i + 1));
        }
        let b = bytes[i];
        let act = parser.advance(b);
        match act {
            Some(a) => {
                state.apply_action(&a);
            },
            None => {},
        }
        i += 1;
    }
    proof {
        assert(bytes@.skip(n as int) =~= Seq::<u8>::empty());
    }
}

} // verus!
