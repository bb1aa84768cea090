//! The escape-sequence interpreter: a byte-level state machine that
//! classifies an incoming byte stream into discrete actions (print a
//! character, execute a control code, dispatch a completed CSI or ESC
//! sequence). Malformed or unsupported sequences are consumed silently up to
//! their recognized terminator; every state has a transition for every byte
//! value, so the parser never fails and never gets stuck. Multi-byte UTF-8
//! sequences are reassembled into a single code point before being classified
//! as printable, also when their bytes arrive through separate calls.

use vstd::prelude::*;

verus! {

/// A Unicode scalar value: what `char` can hold.
pub open spec fn is_scalar_value(v: u32) -> bool {
    v < 0xD800 || (0xDFFF < v && v <= 0x10FFFF)
}

/// The character with the given code, for codes that are scalar values.
pub open spec fn char_of(v: u32) -> char
    recommends
        is_scalar_value(v),
{
    choose|c: char| (#[trigger] (c as u32)) == v
}

/// Relies on `char::from_u32` of std: it returns the character with the given
/// code for every Unicode scalar value, and `None` exactly on surrogate codes
/// and codes above the Unicode maximum.
pub assume_specification[ char::from_u32 ](v: u32) -> (r: Option<char>)
    ensures
        r is Some <==> is_scalar_value(v),
        r matches Some(c) ==> c as u32 == v,
;

/// The most parameters a control sequence keeps; further ones are dropped.
pub const MAX_PARAMS: usize = 32;

/// The most intermediate bytes a sequence keeps; further ones are dropped.
pub const MAX_INTERMEDIATES: usize = 2;

/// The interpreter's state machine position.
#[derive(Clone, Copy, Debug, PartialEq, Eq, Structural)]
pub enum PState {
    /// Plain text: bytes print or execute directly.
    Ground,
    /// An ESC byte was seen and the next byte selects the sequence kind.
    Escape,
    /// Collecting intermediate bytes of an ESC sequence.
    EscapeIntermediate,
    /// Right after `ESC [`, before any parameter byte.
    CsiEntry,
    /// Collecting numeric parameters of a CSI sequence.
    CsiParam,
    /// Collecting intermediate bytes of a CSI sequence.
    CsiIntermediate,
    /// A malformed CSI sequence, consumed without effect up to its final byte.
    CsiIgnore,
    /// An operating-system-command string, consumed without effect.
    OscString,
    /// A device-control or similar string, consumed without effect.
    StringSwallow,
    /// Collecting the continuation bytes of a multi-byte UTF-8 character.
    Utf8,
}

/// One structured event the interpreter hands to the terminal engine.
pub enum Action {
    /// Write this character at the cursor.
    Print(char),
    /// A single-byte control code such as carriage return or line feed.
    Execute(u8),
    /// A completed control sequence `ESC [ params intermediates final`.
    CsiDispatch { params: Vec<u16>, intermediates: Vec<u8>, final_byte: u8 },
    /// A completed plain escape sequence `ESC intermediates byte`.
    EscDispatch { intermediates: Vec<u8>, byte: u8 },
}

/// The mathematical value of an [`Action`].
pub ghost enum ActionV {
    Print(char),
    Execute(u8),
    Csi { params: Seq<u16>, intermediates: Seq<u8>, final_byte: u8 },
    Esc { intermediates: Seq<u8>, byte: u8 },
}

impl View for Action {
    type V = ActionV;

    open spec fn view(&self) -> ActionV {
        match self {
            Action::Print(c) => ActionV::Print(*c),
            Action::Execute(b) => ActionV::Execute(*b),
            Action::CsiDispatch { params, intermediates, final_byte } => ActionV::Csi {
                params: params@,
                intermediates: intermediates@,
                final_byte: *final_byte,
            },
            Action::EscDispatch { intermediates, byte } => ActionV::Esc {
                intermediates: intermediates@,
                byte: *byte,
            },
        }
    }
}

/// The mathematical value of an optional action.
pub open spec fn opt_action_view(r: Option<Action>) -> Option<ActionV> {
    match r {
        Some(a) => Some(a@),
        None => None,
    }
}

/// The mathematical value of a [`Parser`].
pub ghost struct ParserV {
    pub state: PState,
    pub params: Seq<u16>,
    pub param: u16,
    pub intermediates: Seq<u8>,
    pub utf8_cp: u32,
    pub utf8_rem: u8,
}

impl ParserV {
    /// The bounds every reachable parser value satisfies.
    pub open spec fn wf(self) -> bool {
        &&& self.params.len() <= MAX_PARAMS
        &&& self.intermediates.len() <= MAX_INTERMEDIATES
        &&& self.utf8_rem <= 3
        &&& (self.utf8_rem == 3 ==> self.utf8_cp < 0x10)
        &&& (self.utf8_rem == 2 ==> self.utf8_cp < 0x400)
        &&& (self.utf8_rem == 1 ==> self.utf8_cp < 0x10000)
        &&& (self.state is Utf8 <==> self.utf8_rem > 0)
    }
}

/// The interpreter. It holds the position of the state machine and the
/// parameters and intermediates of the sequence being collected; it is
/// ephemeral state, reset whenever a sequence completes or is abandoned.
pub struct Parser {
    state: PState,
    params: Vec<u16>,
    param: u16,
    intermediates: Vec<u8>,
    utf8_cp: u32,
    utf8_rem: u8,
}

impl View for Parser {
    type V = ParserV;

    closed spec fn view(&self) -> ParserV {
        ParserV {
            state: self.state,
            params: self.params@,
            param: self.param,
            intermediates: self.intermediates@,
            utf8_cp: self.utf8_cp,
            utf8_rem: self.utf8_rem,
        }
    }
}

/// The state a fresh parser starts in.
pub open spec fn initial_parser() -> ParserV {
    ParserV {
        state: PState::Ground,
        params: Seq::empty(),
        param: 0,
        intermediates: Seq::empty(),
        utf8_cp: 0,
        utf8_rem: 0,
    }
}

/// A C0 control byte that executes without leaving the current sequence
/// state: every byte below 0x20 except ESC (0x1B) and the two cancel bytes
/// CAN (0x18) and SUB (0x1A).
pub open spec fn is_plain_control(b: u8) -> bool {
    b < 0x20 && b != 0x1B && b != 0x18 && b != 0x1A
}

/// The parser after abandoning whatever it was collecting for a fresh escape
/// sequence.
pub open spec fn to_escape(p: ParserV) -> ParserV {
    ParserV {
        state: PState::Escape,
        params: Seq::empty(),
        param: 0,
        intermediates: Seq::empty(),
        ..p
    }
}

/// The parameter list of a dispatching sequence: the parameter still being
/// collected joins the list, as an implicit zero when no digit was seen.
pub open spec fn finished_params(p: ParserV) -> Seq<u16> {
    if p.params.len() < MAX_PARAMS {
        p.params.push(p.param)
    } else {
        p.params
    }
}

/// A collected parameter ends: it joins the list and collection restarts.
pub open spec fn push_param(p: ParserV) -> ParserV {
    ParserV { params: finished_params(p), param: 0, ..p }
}

/// A digit extends the parameter being collected, saturating at the largest
/// parameter value.
pub open spec fn param_next(v: u16, d: u8) -> u16 {
    if v * 10 + (d - 0x30) > 0xFFFF {
        0xFFFF
    } else {
        (v * 10 + (d - 0x30)) as u16
    }
}

/// An intermediate byte joins the sequence, dropped beyond the cap.
pub open spec fn collect(p: ParserV, b: u8) -> ParserV {
    if p.intermediates.len() < MAX_INTERMEDIATES {
        ParserV { intermediates: p.intermediates.push(b), ..p }
    } else {
        p
    }
}

/// One step of the state machine from the ground state.
pub open spec fn spec_ground(p: ParserV, b: u8) -> (ParserV, Option<ActionV>) {
    if b == 0x1B {
        (to_escape(p), None)
    } else if b < 0x20 {
        (p, Some(ActionV::Execute(b)))
    } else if b <= 0x7E {
        (p, Some(ActionV::Print(b as char)))
    } else if 0xC2 <= b && b <= 0xDF {
        (ParserV { state: PState::Utf8, utf8_cp: (b & 0x1F) as u32, utf8_rem: 1, ..p }, None)
    } else if 0xE0 <= b && b <= 0xEF {
        (ParserV { state: PState::Utf8, utf8_cp: (b & 0x0F) as u32, utf8_rem: 2, ..p }, None)
    } else if 0xF0 <= b && b <= 0xF4 {
        (ParserV { state: PState::Utf8, utf8_cp: (b & 0x07) as u32, utf8_rem: 3, ..p }, None)
    } else {
        // DEL, stray continuation bytes and invalid leads are dropped.
        (p, None)
    }
}

/// One step of the state machine right after an ESC byte.
pub open spec fn spec_escape(p: ParserV, b: u8) -> (ParserV, Option<ActionV>) {
    if b == 0x18 || b == 0x1A {
        (ParserV { state: PState::Ground, ..p }, Some(ActionV::Execute(b)))
    } else if b == 0x1B {
        (to_escape(p), None)
    } else if is_plain_control(b) {
        (p, Some(ActionV::Execute(b)))
    } else if 0x20 <= b && b <= 0x2F {
        (ParserV { state: PState::EscapeIntermediate, ..collect(p, b) }, None)
    } else if b == 0x50 || b == 0x58 || b == 0x5E || b == 0x5F {
        // DCS, SOS, PM and APC strings are consumed without effect.
        (ParserV { state: PState::StringSwallow, ..p }, None)
    } else if b == 0x5B {
        (ParserV { state: PState::CsiEntry, ..p }, None)
    } else if b == 0x5D {
        (ParserV { state: PState::OscString, ..p }, None)
    } else if 0x30 <= b && b <= 0x7E {
        (
            ParserV { state: PState::Ground, ..p },
            Some(ActionV::Esc { intermediates: p.intermediates, byte: b }),
        )
    } else {
        (p, None)
    }
}

/// One step of the state machine while collecting ESC intermediates.
pub open spec fn spec_escape_intermediate(p: ParserV, b: u8) -> (ParserV, Option<ActionV>) {
    if b == 0x18 || b == 0x1A {
        (ParserV { state: PState::Ground, ..p }, Some(ActionV::Execute(b)))
    } else if b == 0x1B {
        (to_escape(p), None)
    } else if is_plain_control(b) {
        (p, Some(ActionV::Execute(b)))
    } else if 0x20 <= b && b <= 0x2F {
        (collect(p, b), None)
    } else if 0x30 <= b && b <= 0x7E {
        (
            ParserV { state: PState::Ground, ..p },
            Some(ActionV::Esc { intermediates: p.intermediates, byte: b }),
        )
    } else {
        (p, None)
    }
}

/// A CSI sequence completes: its final byte dispatches it.
pub open spec fn csi_dispatch_step(p: ParserV, b: u8) -> (ParserV, Option<ActionV>) {
    (
        ParserV { state: PState::Ground, ..push_param(p) },
        Some(
            ActionV::Csi {
                params: finished_params(p),
                intermediates: p.intermediates,
                final_byte: b,
            },
        ),
    )
}

/// One step of the state machine right after `ESC [`.
pub open spec fn spec_csi_entry(p: ParserV, b: u8) -> (ParserV, Option<ActionV>) {
    if b == 0x18 || b == 0x1A {
        (ParserV { state: PState::Ground, ..p }, Some(ActionV::Execute(b)))
    } else if b == 0x1B {
        (to_escape(p), None)
    } else if is_plain_control(b) {
        (p, Some(ActionV::Execute(b)))
    } else if 0x20 <= b && b <= 0x2F {
        (ParserV { state: PState::CsiIntermediate, ..collect(p, b) }, None)
    } else if 0x30 <= b && b <= 0x39 {
        (ParserV { state: PState::CsiParam, param: param_next(p.param, b), ..p }, None)
    } else if b == 0x3A {
        // Subparameters after a colon are dropped; only the first value of
        // each parameter group counts.
        (ParserV { state: PState::CsiIgnore, ..p }, None)
    } else if b == 0x3B {
        (ParserV { state: PState::CsiParam, ..push_param(p) }, None)
    } else if 0x3C <= b && b <= 0x3F {
        (ParserV { state: PState::CsiParam, ..collect(p, b) }, None)
    } else if 0x40 <= b && b <= 0x7E {
        csi_dispatch_step(p, b)
    } else {
        (p, None)
    }
}

/// One step of the state machine while collecting CSI parameters.
pub open spec fn spec_csi_param(p: ParserV, b: u8) -> (ParserV, Option<ActionV>) {
    if b == 0x18 || b == 0x1A {
        (ParserV { state: PState::Ground, ..p }, Some(ActionV::Execute(b)))
    } else if b == 0x1B {
        (to_escape(p), None)
    } else if is_plain_control(b) {
        (p, Some(ActionV::Execute(b)))
    } else if 0x20 <= b && b <= 0x2F {
        (ParserV { state: PState::CsiIntermediate, ..collect(p, b) }, None)
    } else if 0x30 <= b && b <= 0x39 {
        (ParserV { param: param_next(p.param, b), ..p }, None)
    } else if b == 0x3A || (0x3C <= b && b <= 0x3F) {
        (ParserV { state: PState::CsiIgnore, ..p }, None)
    } else if b == 0x3B {
        (push_param(p), None)
    } else if 0x40 <= b && b <= 0x7E {
        csi_dispatch_step(p, b)
    } else {
        (p, None)
    }
}

/// One step of the state machine while collecting CSI intermediates.
pub open spec fn spec_csi_intermediate(p: ParserV, b: u8) -> (ParserV, Option<ActionV>) {
    if b == 0x18 || b == 0x1A {
        (ParserV { state: PState::Ground, ..p }, Some(ActionV::Execute(b)))
    } else if b == 0x1B {
        (to_escape(p), None)
    } else if is_plain_control(b) {
        (p, Some(ActionV::Execute(b)))
    } else if 0x20 <= b && b <= 0x2F {
        (collect(p, b), None)
    } else if 0x30 <= b && b <= 0x3F {
        (ParserV { state: PState::CsiIgnore, ..p }, None)
    } else if 0x40 <= b && b <= 0x7E {
        csi_dispatch_step(p, b)
    } else {
        (p, None)
    }
}

/// One step of the state machine while discarding a malformed CSI sequence.
pub open spec fn spec_csi_ignore(p: ParserV, b: u8) -> (ParserV, Option<ActionV>) {
    if b == 0x18 || b == 0x1A {
        (ParserV { state: PState::Ground, ..p }, Some(ActionV::Execute(b)))
    } else if b == 0x1B {
        (to_escape(p), None)
    } else if is_plain_control(b) {
        (p, Some(ActionV::Execute(b)))
    } else if 0x40 <= b && b <= 0x7E {
        (ParserV { state: PState::Ground, ..p }, None)
    } else {
        (p, None)
    }
}

/// One step of the state machine inside an OSC string. The string's content
/// produces no action; BEL or the cancel bytes end it, and ESC hands the
/// terminating `ESC \` on as a plain escape sequence.
pub open spec fn spec_osc_string(p: ParserV, b: u8) -> (ParserV, Option<ActionV>) {
    if b == 0x07 {
        (ParserV { state: PState::Ground, ..p }, None)
    } else if b == 0x18 || b == 0x1A {
        (ParserV { state: PState::Ground, ..p }, Some(ActionV::Execute(b)))
    } else if b == 0x1B {
        (to_escape(p), None)
    } else {
        (p, None)
    }
}

/// One step of the state machine inside a DCS, SOS, PM or APC string, all of
/// which are consumed without effect up to their terminator.
pub open spec fn spec_string_swallow(p: ParserV, b: u8) -> (ParserV, Option<ActionV>) {
    if b == 0x18 || b == 0x1A {
        (ParserV { state: PState::Ground, ..p }, Some(ActionV::Execute(b)))
    } else if b == 0x1B {
        (to_escape(p), None)
    } else {
        (p, None)
    }
}

/// One step of the state machine while collecting UTF-8 continuation bytes.
/// A completed character prints if its code is a Unicode scalar value; a
/// non-continuation byte abandons the partial character and is processed
/// again from the ground state.
pub open spec fn spec_utf8(p: ParserV, b: u8) -> (ParserV, Option<ActionV>) {
    if 0x80 <= b && b < 0xC0 {
        let cp = (p.utf8_cp * 64 + (b & 0x3F)) as u32;
        if p.utf8_rem == 1 {
            let done = ParserV { state: PState::Ground, utf8_cp: 0, utf8_rem: 0, ..p };
            if is_scalar_value(cp) {
                (done, Some(ActionV::Print(char_of(cp))))
            } else {
                (done, None)
            }
        } else {
            (ParserV { utf8_cp: cp, utf8_rem: (p.utf8_rem - 1) as u8, ..p }, None)
        }
    } else {
        spec_ground(ParserV { state: PState::Ground, utf8_cp: 0, utf8_rem: 0, ..p }, b)
    }
}

/// One step of the whole interpreter: what [`Parser::advance`] does for one
/// byte, as a function from parser value and byte to the next parser value
/// and the action dispatched, if any.
pub open spec fn spec_advance(p: ParserV, b: u8) -> (ParserV, Option<ActionV>) {
    match p.state {
        PState::Ground => spec_ground(p, b),
        PState::Escape => spec_escape(p, b),
        PState::EscapeIntermediate => spec_escape_intermediate(p, b),
        PState::CsiEntry => spec_csi_entry(p, b),
        PState::CsiParam => spec_csi_param(p, b),
        PState::CsiIntermediate => spec_csi_intermediate(p, b),
        PState::CsiIgnore => spec_csi_ignore(p, b),
        PState::OscString => spec_osc_string(p, b),
        PState::StringSwallow => spec_string_swallow(p, b),
        PState::Utf8 => spec_utf8(p, b),
    }
}

/// An optional action as a sequence of zero or one actions.
pub open spec fn opt_to_seq(a: Option<ActionV>) -> Seq<ActionV> {
    match a {
        Some(x) => seq![x],
        None => Seq::empty(),
    }
}

/// Feeding a whole byte sequence: the parser value reached and the actions
/// dispatched along the way, in order.
pub open spec fn spec_run(p: ParserV, bytes: Seq<u8>) -> (ParserV, Seq<ActionV>)
    decreases bytes.len(),
{
    if bytes.len() == 0 {
        (p, Seq::empty())
    } else {
        let first = spec_advance(p, bytes[0]);
        let rest = spec_run(first.0, bytes.skip(1));
        (rest.0, opt_to_seq(first.1) + rest.1)
    }
}

/// One step keeps the parser's bounds.
pub proof fn lemma_advance_wf(p: ParserV, b: u8)
    requires
        p.wf(),
    ensures
        spec_advance(p, b).0.wf(),
{
    assert(b & 0x3F < 0x40) by (bit_vector);
    assert(b & 0x1F < 0x20) by (bit_vector);
    assert(b & 0x0F < 0x10) by (bit_vector);
    assert(b & 0x07 < 0x08) by (bit_vector);
}

/// Feeding a whole byte sequence keeps the parser's bounds.
pub proof fn lemma_run_wf(p: ParserV, bytes: Seq<u8>)
    requires
        p.wf(),
    ensures
        spec_run(p, bytes).0.wf(),
    decreases bytes.len(),
{
    if bytes.len() > 0 {
        lemma_advance_wf(p, bytes[0]);
        lemma_run_wf(spec_advance(p, bytes[0]).0, bytes.skip(1));
    }
}

/// The interpreter does not care how the byte stream is cut into reads: a
/// sequence split across two feeds reaches the same parser value and
/// dispatches exactly the same actions, in the same order, as the sequence
/// fed whole. In particular a control sequence whose bytes arrive through
/// separate reads still dispatches exactly one action.
pub proof fn lemma_run_append(p: ParserV, b1: Seq<u8>, b2: Seq<u8>)
    ensures
        spec_run(p, b1 + b2).0 == spec_run(spec_run(p, b1).0, b2).0,
        spec_run(p, b1 + b2).1 == spec_run(p, b1).1 + spec_run(spec_run(p, b1).0, b2).1,
    decreases b1.len(),
{
    if b1.len() == 0 {
        assert(b1 + b2 =~= b2);
        assert(spec_run(p, b1).1 + spec_run(spec_run(p, b1).0, b2).1 =~= spec_run(p, b2).1);
    } else {
        let first = spec_advance(p, b1[0]);
        assert((b1 + b2)[0] == b1[0]);
        assert((b1 + b2).skip(1) =~= b1.skip(1) + b2);
        lemma_run_append(first.0, b1.skip(1), b2);
        assert(opt_to_seq(first.1) + (spec_run(first.0, b1.skip(1)).1 + spec_run(
            spec_run(first.0, b1.skip(1)).0,
            b2,
        ).1) =~= (opt_to_seq(first.1) + spec_run(first.0, b1.skip(1)).1) + spec_run(
            spec_run(first.0, b1.skip(1)).0,
            b2,
        ).1);
    }
}

impl Parser {
    pub fn new() -> (r: Parser)
        ensures
            r@ == initial_parser(),
            r@.wf(),
    {
        Parser {
            state: PState::Ground,
            params: Vec::new(),
            param: 0,
            intermediates: Vec::new(),
            utf8_cp: 0,
            utf8_rem: 0,
        }
    }

    /// Abandon everything collected so far for a fresh escape sequence.
    fn enter_escape(&mut self)
        ensures
            final(self)@ == to_escape(old(self)@),
    {
        self.state = PState::Escape;
        self.params.clear();
        self.param = 0;
        self.intermediates.clear();
        proof {
            assert(final(self)@ =~= to_escape(old(self)@));
        }
    }

    /// The parameter still being collected joins the list.
    fn push_param(&mut self)
        requires
            old(self)@.params.len() <= MAX_PARAMS,
        ensures
            final(self)@ == push_param(old(self)@),
    {
        if self.params.len() < MAX_PARAMS {
            let v = self.param;
            self.params.push(v);
        }
        self.param = 0;
        proof {
            assert(final(self)@ =~= push_param(old(self)@));
        }
    }

    /// An intermediate byte joins the sequence.
    fn collect(&mut self, b: u8)
        requires
            old(self)@.intermediates.len() <= MAX_INTERMEDIATES,
        ensures
            final(self)@ == collect(old(self)@, b),
    {
        if self.intermediates.len() < MAX_INTERMEDIATES {
            self.intermediates.push(b);
        }
        proof {
            assert(final(self)@ =~= collect(old(self)@, b));
        }
    }

    /// A digit extends the parameter being collected.
    fn param_digit(&mut self, b: u8)
        requires
            0x30 <= b <= 0x39,
        ensures
            final(self)@ == (ParserV { param: param_next(old(self)@.param, b), ..old(self)@ }),
    {
        let wide: u32 = (self.param as u32) * 10 + ((b - 0x30) as u32);
        self.param = if wide > 0xFFFF {
            0xFFFF
        } else {
            wide as u16
        };
        proof {
            assert(final(self)@ =~= (ParserV {
                param: param_next(old(self)@.param, b),
                ..old(self)@
            }));
        }
    }

    /// The parameter list of the dispatching sequence, as owned values.
    fn take_params(&mut self) -> (r: Vec<u16>)
        requires
            old(self)@.params.len() <= MAX_PARAMS,
        ensures
            r@ == finished_params(old(self)@),
            final(self)@ == (ParserV { params: finished_params(old(self)@), param: 0, ..old(self)@ }),
    {
        if self.params.len() < MAX_PARAMS {
            let v = self.param;
            self.params.push(v);
        }
        self.param = 0;
        let mut r: Vec<u16> = Vec::new();
        let n = self.params.len();
        let mut i: usize = 0;
        while i < n
            invariant
                i <= n,
                n == self.params.len(),
                self.state == old(self).state,
                self.intermediates@ == old(self)@.intermediates,
                self.utf8_cp == old(self)@.utf8_cp,
                self.utf8_rem == old(self)@.utf8_rem,
                self.params@ == finished_params(old(self)@),
                self.param == 0,
                r@ == self.params@.subrange(0, i as int),
            decreases n - i,
        {
            let v = self.params[i];
            r.push(v);
            i += 1;
        }
        proof {
            assert(r@ =~= finished_params(old(self)@));
        }
        r
    }

    /// The intermediates of the dispatching sequence, as owned values.
    fn copy_intermediates(&self) -> (r: Vec<u8>)
        ensures
            r@ == self@.intermediates,
    {
        let mut r: Vec<u8> = Vec::new();
        let n = self.intermediates.len();
        let mut i: usize = 0;
        while i < n
            invariant
                i <= n,
                n == self.intermediates.len(),
                r@ == self.intermediates@.subrange(0, i as int),
            decreases n - i,
        {
            let v = self.intermediates[i];
            r.push(v);
            i += 1;
        }
        proof {
            assert(r@ =~= self@.intermediates);
        }
        r
    }

    /// Feed one byte to the interpreter; the byte either extends the sequence
    /// being collected or completes one, and then exactly the action that the
    /// transition function [`spec_advance`] gives is returned.
    pub fn advance(&mut self, byte: u8) -> (r: Option<Action>)
        requires
            old(self)@.wf(),
        ensures
            final(self)@.wf(),
            final(self)@ == spec_advance(old(self)@, byte).0,
            opt_action_view(r) == spec_advance(old(self)@, byte).1,
    {
        if let PState::Utf8 = self.state {
            if 0x80 <= byte && byte < 0xC0 {
                proof {
                    assert(byte & 0x3F < 0x40) by (bit_vector);
                }
                let cp: u32 = self.utf8_cp * 64 + ((byte & 0x3F) as u32);
                if self.utf8_rem == 1 {
                    self.state = PState::Ground;
                    self.utf8_cp = 0;
                    self.utf8_rem = 0;
                    return match char::from_u32(cp) {
                        Some(c) => {
                            proof {
                                lemma_char_of_code(c, cp);
                            }
                            Some(Action::Print(c))
                        },
                        None => None,
                    };
                } else {
                    self.utf8_cp = cp;
                    self.utf8_rem = self.utf8_rem - 1;
                    return None;
                }
            } else {
                self.state = PState::Ground;
                self.utf8_cp = 0;
                self.utf8_rem = 0;
                // The abandoned byte is processed again from the ground state.
            }
        }
        self.step(byte)
    }

    /// One step of the state machine outside UTF-8 collection.
    fn step(&mut self, byte: u8) -> (r: Option<Action>)
        requires
            old(self)@.wf(),
            !(old(self)@.state is Utf8),
        ensures
            final(self)@.wf(),
            final(self)@ == spec_advance(old(self)@, byte).0,
            opt_action_view(r) == spec_advance(old(self)@, byte).1,
    {
        // The cancel bytes and ESC act the same in every non-ground state.
        match self.state {
            PState::Ground => {
                if byte == 0x1B {
                    self.enter_escape();
                    None
                } else if byte < 0x20 {
                    Some(Action::Execute(byte))
                } else if byte <= 0x7E {
                    Some(Action::Print(byte as char))
                } else if 0xC2 <= byte && byte <= 0xDF {
                    proof {
                        assert(byte & 0x1F < 0x20) by (bit_vector);
                    }
                    self.state = PState::Utf8;
                    self.utf8_cp = (byte & 0x1F) as u32;
                    self.utf8_rem = 1;
                    None
                } else if 0xE0 <= byte && byte <= 0xEF {
                    proof {
                        assert(byte & 0x0F < 0x10) by (bit_vector);
                    }
                    self.state = PState::Utf8;
                    self.utf8_cp = (byte & 0x0F) as u32;
                    self.utf8_rem = 2;
                    None
                } else if 0xF0 <= byte && byte <= 0xF4 {
                    proof {
                        assert(byte & 0x07 < 0x08) by (bit_vector);
                    }
                    self.state = PState::Utf8;
                    self.utf8_cp = (byte & 0x07) as u32;
                    self.utf8_rem = 3;
                    None
                } else {
                    None
                }
            },
            PState::Escape => {
                if byte == 0x18 || byte == 0x1A {
                    self.state = PState::Ground;
                    Some(Action::Execute(byte))
                } else if byte == 0x1B {
                    self.enter_escape();
                    None
                } else if byte < 0x20 {
                    Some(Action::Execute(byte))
                } else if 0x20 <= byte && byte <= 0x2F {
                    self.collect(byte);
                    self.state = PState::EscapeIntermediate;
                    None
                } else if byte == 0x50 || byte == 0x58 || byte == 0x5E || byte == 0x5F {
                    self.state = PState::StringSwallow;
                    None
                } else if byte == 0x5B {
                    self.state = PState::CsiEntry;
                    None
                } else if byte == 0x5D {
                    self.state = PState::OscString;
                    None
                } else if byte <= 0x7E {
                    self.state = PState::Ground;
                    let intermediates = self.copy_intermediates();
                    Some(Action::EscDispatch { intermediates, byte })
                } else {
                    None
                }
            },
            PState::EscapeIntermediate => {
                if byte == 0x18 || byte == 0x1A {
                    self.state = PState::Ground;
                    Some(Action::Execute(byte))
                } else if byte == 0x1B {
                    self.enter_escape();
                    None
                } else if byte < 0x20 {
                    Some(Action::Execute(byte))
                } else if byte <= 0x2F {
                    self.collect(byte);
                    None
                } else if byte <= 0x7E {
                    self.state = PState::Ground;
                    let intermediates = self.copy_intermediates();
                    Some(Action::EscDispatch { intermediates, byte })
                } else {
                    None
                }
            },
            PState::CsiEntry => {
                if byte == 0x18 || byte == 0x1A {
                    self.state = PState::Ground;
                    Some(Action::Execute(byte))
                } else if byte == 0x1B {
                    self.enter_escape();
                    None
                } else if byte < 0x20 {
                    Some(Action::Execute(byte))
                } else if byte <= 0x2F {
                    self.collect(byte);
                    self.state = PState::CsiIntermediate;
                    None
                } else if 0x30 <= byte && byte <= 0x39 {
                    self.param_digit(byte);
                    self.state = PState::CsiParam;
                    None
                } else if byte == 0x3A {
                    self.state = PState::CsiIgnore;
                    None
                } else if byte == 0x3B {
                    self.push_param();
                    self.state = PState::CsiParam;
                    None
                } else if byte <= 0x3F {
                    self.collect(byte);
                    self.state = PState::CsiParam;
                    None
                } else if byte <= 0x7E {
                    self.csi_finish(byte)
                } else {
                    None
                }
            },
            PState::CsiParam => {
                if byte == 0x18 || byte == 0x1A {
                    self.state = PState::Ground;
                    Some(Action::Execute(byte))
                } else if byte == 0x1B {
                    self.enter_escape();
                    None
                } else if byte < 0x20 {
                    Some(Action::Execute(byte))
                } else if byte <= 0x2F {
                    self.collect(byte);
                    self.state = PState::CsiIntermediate;
                    None
                } else if 0x30 <= byte && byte <= 0x39 {
                    self.param_digit(byte);
                    None
                } else if byte == 0x3A || (0x3C <= byte && byte <= 0x3F) {
                    self.state = PState::CsiIgnore;
                    None
                } else if byte == 0x3B {
                    self.push_param();
                    None
                } else if 0x40 <= byte && byte <= 0x7E {
                    self.csi_finish(byte)
                } else {
                    None
                }
            },
            PState::CsiIntermediate => {
                if byte == 0x18 || byte == 0x1A {
                    self.state = PState::Ground;
                    Some(Action::Execute(byte))
                } else if byte == 0x1B {
                    self.enter_escape();
                    None
                } else if byte < 0x20 {
                    Some(Action::Execute(byte))
                } else if byte <= 0x2F {
                    self.collect(byte);
                    None
                } else if byte <= 0x3F {
                    self.state = PState::CsiIgnore;
                    None
                } else if byte <= 0x7E {
                    self.csi_finish(byte)
                } else {
                    None
                }
            },
            PState::CsiIgnore => {
                if byte == 0x18 || byte == 0x1A {
                    self.state = PState::Ground;
                    Some(Action::Execute(byte))
                } else if byte == 0x1B {
                    self.enter_escape();
                    None
                } else if byte < 0x20 {
                    Some(Action::Execute(byte))
                } else if 0x40 <= byte && byte <= 0x7E {
                    self.state = PState::Ground;
                    None
                } else {
                    None
                }
            },
            PState::OscString => {
                if byte == 0x07 {
                    self.state = PState::Ground;
                    None
                } else if byte == 0x18 || byte == 0x1A {
                    self.state = PState::Ground;
                    Some(Action::Execute(byte))
                } else if byte == 0x1B {
                    self.enter_escape();
                    None
                } else {
                    None
                }
            },
            PState::StringSwallow => {
                if byte == 0x18 || byte == 0x1A {
                    self.state = PState::Ground;
                    Some(Action::Execute(byte))
                } else if byte == 0x1B {
                    self.enter_escape();
                    None
                } else {
                    None
                }
            },
            PState::Utf8 => {
                // Unreachable: `advance` leaves UTF-8 collection first.
                assert(false);
                None
            },
        }
    }

    /// A CSI final byte arrived: dispatch the collected sequence.
    fn csi_finish(&mut self, byte: u8) -> (r: Option<Action>)
        requires
            old(self)@.wf(),
            old(self)@.state is CsiEntry || old(self)@.state is CsiParam || old(self)@.state
                is CsiIntermediate,
        ensures
            final(self)@.wf(),
            final(self)@ == csi_dispatch_step(old(self)@, byte).0,
            opt_action_view(r) == csi_dispatch_step(old(self)@, byte).1,
    {
        let intermediates = self.copy_intermediates();
        let params = self.take_params();
        self.state = PState::Ground;
        Some(Action::CsiDispatch { params, intermediates, final_byte: byte })
    }
}

/// A character is the one [`char_of`] names for its own code.
proof fn lemma_char_of_code(c: char, cp: u32)
    requires
        (c as u32) == cp,
    ensures
        char_of(cp) == c,
{
    assert(exists|x: char| (#[trigger] (x as u32)) == cp);
    assert((char_of(cp) as u32) == cp);
}

} // verus!
