use vstd::prelude::*;
use crate::token::Token;
use crate::memory::{Memory, TapeError, TAPE_LEN, wrap_incr, wrap_decr};
use crate::brackets::{
    balanced, closing_of, depth_at, lemma_open_has_match, lemma_scan_forward, opening_of,
    scan_backward, scan_forward,
};

verus! {

/// The abstract state of an engine: its program, its tape, its cursor and
/// its program counter.
pub struct State {
    pub tokens: Seq<Token>,
    pub cells: Seq<u8>,
    pub cursor: int,
    pub pc: int,
}

impl State {
    /// The tape has its full length, the cursor is on it, and the program
    /// counter is not negative.
    pub open spec fn wf(self) -> bool {
        &&& self.cells.len() == TAPE_LEN
        &&& 0 <= self.cursor < TAPE_LEN
        &&& 0 <= self.pc
    }

    /// The program counter has run past the last instruction.
    pub open spec fn halted(self) -> bool {
        self.pc >= self.tokens.len()
    }

    /// The value of the current cell.
    pub open spec fn current(self) -> u8 {
        self.cells[self.cursor]
    }

    /// The instruction at the program counter.
    pub open spec fn instruction(self) -> Token {
        self.tokens[self.pc]
    }
}

/// The state a program starts in: zero cells, cursor and counter at 0.
pub open spec fn initial(tokens: Seq<Token>) -> State {
    State { tokens, cells: Seq::new(TAPE_LEN as nat, |i: int| 0u8), cursor: 0, pc: 0 }
}

/// The state after executing the instruction at the program counter of a
/// running state, where `input` is the byte an input instruction reads, or
/// the tape error that aborts the run.
pub open spec fn step_spec(s: State, input: u8) -> Result<State, TapeError> {
    let c = s.current();
    let pc1 = s.pc + 1;
    match s.instruction() {
        Token::NEXT => if s.cursor + 1 < TAPE_LEN {
            Ok(State { cursor: s.cursor + 1, pc: pc1, ..s })
        } else {
            Err(TapeError::Overflow)
        },
        Token::PREV => if s.cursor > 0 {
            Ok(State { cursor: s.cursor - 1, pc: pc1, ..s })
        } else {
            Err(TapeError::Underflow)
        },
        Token::INCR => Ok(State { cells: s.cells.update(s.cursor, wrap_incr(c)), pc: pc1, ..s }),
        Token::DECR => Ok(State { cells: s.cells.update(s.cursor, wrap_decr(c)), pc: pc1, ..s }),
        Token::READ => Ok(State { cells: s.cells.update(s.cursor, input), pc: pc1, ..s }),
        Token::WRITE => Ok(State { pc: pc1, ..s }),
        Token::JUMP => Ok(State { pc: jump_target(s) + 1, ..s }),
        Token::BACK => Ok(State { pc: back_target(s) + 1, ..s }),
    }
}

/// Where a `[` at the program counter sets the counter, before the advance
/// that follows every instruction: its matching `]` when the current cell is
/// zero, or the last instruction when there is none, so that the advance runs
/// the counter off the end; the `[` itself when the cell is not zero.
pub open spec fn jump_target(s: State) -> int {
    if s.current() == 0 {
        match closing_of(s.tokens, s.pc) {
            Some(j) => j,
            None => s.tokens.len() - 1,
        }
    } else {
        s.pc
    }
}

/// Where a `]` at the program counter sets the counter, before the advance
/// that follows every instruction: its matching `[` when the current cell is
/// not zero and there is one; else the `]` itself.
pub open spec fn back_target(s: State) -> int {
    if s.current() != 0 {
        match opening_of(s.tokens, s.pc) {
            Some(i) => i,
            None => s.pc,
        }
    } else {
        s.pc
    }
}

/// How a bounded run over in-memory input ended.
#[derive(Debug, Clone, Copy, PartialEq, Eq, Structural)]
pub enum Outcome {
    /// The program counter ran past the last instruction.
    Halted,
    /// A cursor move left the tape.
    Fault(TapeError),
    /// An input instruction found no byte left to read.
    InputExhausted,
    /// The step budget ran out before the program halted.
    StepLimit,
}

/// Running from state `s` with bytes `input` for at most `fuel` steps: the
/// final state, the bytes written, how the run ended, and how many input
/// bytes were read.
pub open spec fn run_spec(s: State, input: Seq<u8>, fuel: nat) -> (State, Seq<u8>, Outcome, nat)
    decreases fuel,
{
    if s.halted() {
        (s, seq![], Outcome::Halted, 0)
    } else if fuel == 0 {
        (s, seq![], Outcome::StepLimit, 0)
    } else if s.instruction() == Token::READ && input.len() == 0 {
        (s, seq![], Outcome::InputExhausted, 0)
    } else {
        let reads = s.instruction() == Token::READ;
        match step_spec(s, if reads { input[0] } else { 0 }) {
            Err(e) => (s, seq![], Outcome::Fault(e), 0),
            Ok(n) => {
                let rest = run_spec(n, if reads { input.drop_first() } else { input }, (fuel - 1) as nat);
                let out: Seq<u8> = if s.instruction() == Token::WRITE { seq![s.current()] } else { seq![] };
                (rest.0, out + rest.1, rest.2, if reads { rest.3 + 1 } else { rest.3 })
            },
        }
    }
}

/// What one call of `step` did.
#[derive(Debug, Clone, Copy, PartialEq, Eq, Structural)]
pub enum Effect {
    /// Nothing left to execute; the state is unchanged.
    Halted,
    /// An instruction without input or output ran.
    Ran,
    /// An output instruction ran; the byte must go to the sink.
    Wrote(u8),
    /// An input instruction ran up to its byte: the counter is past it, and
    /// the byte from the source goes to `read`.
    NeedsByte,
}

/// What a bounded run over in-memory input produced.
pub struct Run {
    /// The bytes that output instructions wrote, in order.
    pub output: Vec<u8>,
    /// How the run ended.
    pub outcome: Outcome,
    /// How many bytes of the input were read.
    pub consumed: usize,
}

/// Executes a program against a tape.
pub struct Processor {
    memory: Memory,
    pointer: usize,
    tokens: Vec<Token>,
}

impl View for Processor {
    type V = State;

    closed spec fn view(&self) -> State {
        State {
            tokens: self.tokens@,
            cells: self.memory.cells(),
            cursor: self.memory.cursor(),
            pc: self.pointer as int,
        }
    }
}

impl Processor {
    /// The engine state is well formed.
    pub open spec fn wf(&self) -> bool {
        self@.wf()
    }

    /// An engine for `tokens` on a zero tape, cursor and counter at 0.
    pub fn new(tokens: Vec<Token>) -> (p: Processor)
        ensures
            p.wf(),
            p@ == initial(tokens@),
    {
        Processor { memory: Memory::new(), pointer: 0, tokens }
    }

    /// The program counter: the index of the next instruction to execute.
    pub fn counter(&self) -> (pc: usize)
        ensures
            pc == self@.pc,
    {
        self.pointer
    }

    /// Whether the program counter has run past the last instruction.
    pub fn is_halted(&self) -> (h: bool)
        ensures
            h == self@.halted(),
    {
        self.pointer >= self.tokens.len()
    }

    /// Moves the cursor right; refused on the last cell.
    pub fn next(&mut self) -> (r: Result<(), TapeError>)
        requires
            old(self).wf(),
        ensures
            final(self).wf(),
            r is Ok <==> old(self)@.cursor + 1 < TAPE_LEN,
            r is Err ==> r == Err::<(), TapeError>(TapeError::Overflow) && final(self)@ == old(self)@,
            r is Ok ==> final(self)@ == (State { cursor: old(self)@.cursor + 1, ..old(self)@ }),
    {
        self.memory.next()
    }

    /// Moves the cursor left; refused on the first cell.
    pub fn prev(&mut self) -> (r: Result<(), TapeError>)
        requires
            old(self).wf(),
        ensures
            final(self).wf(),
            r is Ok <==> old(self)@.cursor > 0,
            r is Err ==> r == Err::<(), TapeError>(TapeError::Underflow) && final(self)@ == old(self)@,
            r is Ok ==> final(self)@ == (State { cursor: old(self)@.cursor - 1, ..old(self)@ }),
    {
        self.memory.prev()
    }

    /// Adds one to the current cell, wrapping 255 to 0.
    pub fn incr(&mut self)
        requires
            old(self).wf(),
        ensures
            final(self).wf(),
            final(self)@ == (State {
                cells: old(self)@.cells.update(old(self)@.cursor, wrap_incr(old(self)@.current())),
                ..old(self)@
            }),
    {
        self.memory.incr()
    }

    /// Subtracts one from the current cell, wrapping 0 to 255.
    pub fn decr(&mut self)
        requires
            old(self).wf(),
        ensures
            final(self).wf(),
            final(self)@ == (State {
                cells: old(self)@.cells.update(old(self)@.cursor, wrap_decr(old(self)@.current())),
                ..old(self)@
            }),
    {
        self.memory.decr()
    }

    /// Stores `byte`, taken from the source for an input instruction, in the
    /// current cell.
    pub fn read(&mut self, byte: u8)
        requires
            old(self).wf(),
        ensures
            final(self).wf(),
            final(self)@ == (State {
                cells: old(self)@.cells.update(old(self)@.cursor, byte),
                ..old(self)@
            }),
    {
        self.memory.set(byte);
    }

    /// The byte that an output instruction sends: the current cell.
    pub fn write(&self) -> (b: u8)
        requires
            self.wf(),
        ensures
            b == self@.current(),
    {
        self.memory.curr()
    }

    /// Executes the `[` at the program counter: moves the counter to its
    /// matching `]` when the current cell is zero (to the last instruction
    /// when there is none), else leaves it. The advance past the instruction
    /// is left to `step`.
    pub fn jump(&mut self)
        requires
            old(self).wf(),
            !old(self)@.halted(),
            old(self)@.instruction() == Token::JUMP,
        ensures
            final(self).wf(),
            final(self)@ == (State { pc: jump_target(old(self)@), ..old(self)@ }),
            !final(self)@.halted(),
    {
        assert(self@.pc == self.pointer as int && self@.tokens == self.tokens@);
        assert(self.pointer < self.tokens.len());
        if !self.memory.is_zero() {
            return;
        }
        let ghost s0 = self@;
        let ghost t = self.tokens@;
        let ghost pc = self.pointer as int;
        let len = self.tokens.len();
        let mut index: usize = self.pointer + 1;
        let mut depth: usize = 0;
        while index < len
            invariant
                self.wf(),
                self@ == s0,
                s0 == old(self)@,
                s0.current() == 0,
                t == self.tokens@,
                len == t.len(),
                pc == self.pointer,
                pc < index <= len,
                depth <= index,
                closing_of(t, pc) == scan_forward(t, index as int, depth as int),
            decreases len - index,
        {
            match self.tokens[index] {
                Token::JUMP => {
                    depth = depth + 1;
                },
                Token::BACK => {
                    if depth == 0 {
                        assert(closing_of(t, pc) == Some(index as int));
                        self.pointer = index;
                        assert(self@ == (State { pc: index as int, ..s0 }));
                        return;
                    }
                    depth = depth - 1;
                },
                _ => {},
            }
            index = index + 1;
        }
        self.pointer = len - 1;
    }

    /// Executes the `]` at the program counter: moves the counter to its
    /// matching `[` when the current cell is not zero and there is one, else
    /// leaves it. The advance past the instruction is left to `step`.
    pub fn back(&mut self)
        requires
            old(self).wf(),
            !old(self)@.halted(),
            old(self)@.instruction() == Token::BACK,
        ensures
            final(self).wf(),
            final(self)@ == (State { pc: back_target(old(self)@), ..old(self)@ }),
            !final(self)@.halted(),
    {
        assert(self@.pc == self.pointer as int && self@.tokens == self.tokens@);
        assert(self.pointer < self.tokens.len());
        if self.memory.is_zero() {
            return;
        }
        let ghost s0 = self@;
        let ghost t = self.tokens@;
        let ghost pc = self.pointer as int;
        let mut index: usize = self.pointer;
        let mut depth: usize = 0;
        while index > 0
            invariant
                self.wf(),
                self@ == s0,
                s0 == old(self)@,
                s0.current() != 0,
                t == self.tokens@,
                pc == self.pointer,
                pc < t.len(),
                index <= pc,
                depth <= pc - index,
                opening_of(t, pc) == scan_backward(t, index as int, depth as int),
            decreases index,
        {
            match self.tokens[index - 1] {
                Token::BACK => {
                    depth = depth + 1;
                },
                Token::JUMP => {
                    if depth == 0 {
                        assert(opening_of(t, pc) == Some(index - 1));
                        self.pointer = index - 1;
                        assert(self@ == (State { pc: index - 1, ..s0 }));
                        return;
                    }
                    depth = depth - 1;
                },
                _ => {},
            }
            index = index - 1;
        }
    }

    /// Executes the instruction at the program counter and advances the
    /// counter past it. For an input instruction it only advances: the byte,
    /// once at hand, goes to `read`. A tape error leaves the state unchanged.
    pub fn step(&mut self) -> (r: Result<Effect, TapeError>)
        requires
            old(self).wf(),
        ensures
            final(self).wf(),
            old(self)@.halted() ==> r == Ok::<Effect, TapeError>(Effect::Halted)
                && final(self)@ == old(self)@,
            !old(self)@.halted() && old(self)@.instruction() == Token::READ ==> r == Ok::<
                Effect,
                TapeError,
            >(Effect::NeedsByte) && final(self)@ == (State { pc: old(self)@.pc + 1, ..old(self)@ }),
            !old(self)@.halted() && old(self)@.instruction() != Token::READ ==> match step_spec(
                old(self)@,
                0,
            ) {
                Ok(n) => final(self)@ == n && r == Ok::<Effect, TapeError>(
                    if old(self)@.instruction() == Token::WRITE {
                        Effect::Wrote(old(self)@.current())
                    } else {
                        Effect::Ran
                    },
                ),
                Err(e) => final(self)@ == old(self)@ && r == Err::<Effect, TapeError>(e),
            },
    {
        if self.pointer >= self.tokens.len() {
            return Ok(Effect::Halted);
        }
        assert(self@.pc == self.pointer as int && self@.tokens == self.tokens@);
        let effect = match self.tokens[self.pointer] {
            Token::NEXT => match self.next() {
                Ok(()) => Effect::Ran,
                Err(e) => return Err(e),
            },
            Token::PREV => match self.prev() {
                Ok(()) => Effect::Ran,
                Err(e) => return Err(e),
            },
            Token::INCR => {
                self.incr();
                Effect::Ran
            },
            Token::DECR => {
                self.decr();
                Effect::Ran
            },
            Token::READ => Effect::NeedsByte,
            Token::WRITE => Effect::Wrote(self.write()),
            Token::JUMP => {
                self.jump();
                Effect::Ran
            },
            Token::BACK => {
                self.back();
                Effect::Ran
            },
        };
        self.pointer = self.pointer + 1;
        Ok(effect)
    }

    /// Runs the program for at most `max_steps` instructions, reading input
    /// instructions' bytes from `input` in order and collecting the bytes
    /// that output instructions write.
    pub fn process(&mut self, input: &[u8], max_steps: u64) -> (run: Run)
        requires
            old(self).wf(),
        ensures
            final(self).wf(),
            ({
                let r = run_spec(old(self)@, input@, max_steps as nat);
                &&& final(self)@ == r.0
                &&& run.output@ == r.1
                &&& run.outcome == r.2
                &&& run.consumed == r.3
            }),
    {
        let mut output: Vec<u8> = Vec::new();
        let mut pos: usize = 0;
        let mut fuel: u64 = max_steps;
        assert(input@.subrange(0, input@.len() as int) =~= input@);
        assert(output@ + run_spec(old(self)@, input@, max_steps as nat).1 =~= run_spec(
            old(self)@,
            input@,
            max_steps as nat,
        ).1);
        loop
            invariant
                self.wf(),
                pos <= input.len(),
                ({
                    let r = run_spec(
                        self@,
                        input@.subrange(pos as int, input@.len() as int),
                        fuel as nat,
                    );
                    run_spec(old(self)@, input@, max_steps as nat) == (
                        r.0,
                        output@ + r.1,
                        r.2,
                        (pos + r.3) as nat,
                    )
                }),
            decreases fuel,
        {
            let ghost rest = input@.subrange(pos as int, input@.len() as int);
            if self.is_halted() {
                assert(output@ + seq![] =~= output@);
                return Run { output, outcome: Outcome::Halted, consumed: pos };
            }
            if fuel == 0 {
                assert(output@ + seq![] =~= output@);
                return Run { output, outcome: Outcome::StepLimit, consumed: pos };
            }
            assert(self@.pc == self.pointer as int && self@.tokens == self.tokens@);
            if self.tokens[self.pointer] == Token::READ && pos >= input.len() {
                assert(output@ + seq![] =~= output@);
                return Run { output, outcome: Outcome::InputExhausted, consumed: pos };
            }
            let ghost s = self@;
            let ghost out0 = output@;
            match self.step() {
                Ok(Effect::NeedsByte) => {
                    self.read(input[pos]);
                    pos = pos + 1;
                    assert(rest.drop_first() =~= input@.subrange(pos as int, input@.len() as int));
                    let ghost r = run_spec(self@, rest.drop_first(), (fuel - 1) as nat);
                    assert(out0 + (seq![] + r.1) =~= output@ + r.1);
                },
                Ok(Effect::Wrote(b)) => {
                    output.push(b);
                    let ghost r = run_spec(self@, rest, (fuel - 1) as nat);
                    assert(out0 + (seq![b] + r.1) =~= output@ + r.1);
                },
                Ok(_) => {
                    let ghost r = run_spec(self@, rest, (fuel - 1) as nat);
                    assert(out0 + (seq![] + r.1) =~= output@ + r.1);
                },
                Err(e) => {
                    assert(output@ + seq![] =~= output@);
                    return Run { output, outcome: Outcome::Fault(e), consumed: pos };
                },
            }
            fuel = fuel - 1;
        }
    }
}


/// In a balanced program, a `[` whose cell is zero sends execution to just
/// past its matching `]`, skipping the whole loop body and changing nothing
/// else.
pub proof fn lemma_zero_loop_skipped(s: State, input: u8)
    requires
        s.wf(),
        balanced(s.tokens),
        !s.halted(),
        s.instruction() == Token::JUMP,
        s.current() == 0,
    ensures
        closing_of(s.tokens, s.pc) is Some,
        s.tokens[closing_of(s.tokens, s.pc)->0] == Token::BACK,
        opening_of(s.tokens, closing_of(s.tokens, s.pc)->0) == Some(s.pc),
        step_spec(s, input) == Ok::<State, TapeError>(
            State { pc: closing_of(s.tokens, s.pc)->0 + 1, ..s },
        ),
{
    lemma_open_has_match(s.tokens, s.pc);
}

/// A `[` whose cell is zero and that no later `]` closes ends the run
/// normally: the program counter moves past the end and nothing is written.
pub proof fn lemma_unmatched_open_halts(s: State, input: Seq<u8>, fuel: nat)
    requires
        s.wf(),
        !s.halted(),
        s.instruction() == Token::JUMP,
        s.current() == 0,
        forall|m: int|
            s.pc + 1 < m <= s.tokens.len() ==> #[trigger] depth_at(s.tokens, m) >= depth_at(
                s.tokens,
                s.pc + 1,
            ),
        fuel >= 1,
    ensures
        closing_of(s.tokens, s.pc) is None,
        run_spec(s, input, fuel) == (
            State { pc: s.tokens.len() as int, ..s },
            Seq::<u8>::empty(),
            Outcome::Halted,
            0nat,
        ),
{
    lemma_scan_forward(s.tokens, s.pc + 1, 0, depth_at(s.tokens, s.pc + 1));
    let n = State { pc: s.tokens.len() as int, ..s };
    assert(step_spec(s, 0) == Ok::<State, TapeError>(n));
    assert(run_spec(n, input, (fuel - 1) as nat) == (n, Seq::<u8>::empty(), Outcome::Halted, 0nat));
    assert(Seq::<u8>::empty() + Seq::<u8>::empty() =~= Seq::<u8>::empty());
}

/// Moving left from the first cell aborts the run with an underflow: the
/// cursor neither wraps nor stays silently, and nothing is written.
pub proof fn lemma_retreat_at_left_edge_faults(s: State, input: Seq<u8>, fuel: nat)
    requires
        s.wf(),
        !s.halted(),
        s.instruction() == Token::PREV,
        s.cursor == 0,
        fuel >= 1,
    ensures
        step_spec(s, 0) == Err::<State, TapeError>(TapeError::Underflow),
        run_spec(s, input, fuel) == (
            s,
            Seq::<u8>::empty(),
            Outcome::Fault(TapeError::Underflow),
            0nat,
        ),
{
}

} // verus!
