use vstd::prelude::*;

verus! {

/// Number of cells on the tape.
pub const TAPE_LEN: usize = 1000;

/// Why a cursor move was refused.
#[derive(Debug, Clone, Copy, PartialEq, Eq, Structural)]
pub enum TapeError {
    /// The cursor would move past the last cell.
    Overflow,
    /// The cursor would move before the first cell.
    Underflow,
}

/// A cell value plus one, modulo 256.
pub open spec fn wrap_incr(v: u8) -> u8 {
    ((v as int + 1) % 256) as u8
}

/// A cell value minus one, modulo 256.
pub open spec fn wrap_decr(v: u8) -> u8 {
    ((v as int + 255) % 256) as u8
}

/// A fixed tape of byte cells and a cursor into it.
pub struct Memory {
    pointer: usize,
    data: Vec<u8>,
}

impl Memory {
    /// The cells, first to last.
    pub closed spec fn cells(&self) -> Seq<u8> {
        self.data@
    }

    /// The index of the current cell.
    pub closed spec fn cursor(&self) -> int {
        self.pointer as int
    }

    /// The tape has its full length and the cursor is on one of its cells.
    pub open spec fn wf(&self) -> bool {
        &&& self.cells().len() == TAPE_LEN
        &&& 0 <= self.cursor() < TAPE_LEN
    }

    /// The value of the current cell.
    pub open spec fn current(&self) -> u8 {
        self.cells()[self.cursor()]
    }

    /// A tape of zero cells with the cursor on the first.
    pub fn new() -> (m: Memory)
        ensures
            m.wf(),
            m.cursor() == 0,
            m.cells() == Seq::new(TAPE_LEN as nat, |i: int| 0u8),
    {
        let m = Memory { pointer: 0, data: vec![0u8; TAPE_LEN] };
        assert(m.cells() =~= Seq::new(TAPE_LEN as nat, |i: int| 0u8));
        m
    }

    /// Moves the cursor one cell right; refused on the last cell.
    pub fn next(&mut self) -> (r: Result<(), TapeError>)
        requires
            old(self).wf(),
        ensures
            final(self).wf(),
            final(self).cells() == old(self).cells(),
            old(self).cursor() + 1 < TAPE_LEN ==> r == Ok::<(), TapeError>(())
                && final(self).cursor() == old(self).cursor() + 1,
            old(self).cursor() + 1 >= TAPE_LEN ==> r == Err::<(), TapeError>(TapeError::Overflow)
                && final(self).cursor() == old(self).cursor(),
    {
        if self.pointer + 1 >= TAPE_LEN {
            Err(TapeError::Overflow)
        } else {
            self.pointer = self.pointer + 1;
            Ok(())
        }
    }

    /// Moves the cursor one cell left; refused on the first cell.
    pub fn prev(&mut self) -> (r: Result<(), TapeError>)
        requires
            old(self).wf(),
        ensures
            final(self).wf(),
            final(self).cells() == old(self).cells(),
            old(self).cursor() > 0 ==> r == Ok::<(), TapeError>(())
                && final(self).cursor() == old(self).cursor() - 1,
            old(self).cursor() == 0 ==> r == Err::<(), TapeError>(TapeError::Underflow)
                && final(self).cursor() == 0,
    {
        if self.pointer == 0 {
            Err(TapeError::Underflow)
        } else {
            self.pointer = self.pointer - 1;
            Ok(())
        }
    }

    /// The value of the current cell.
    pub fn curr(&self) -> (v: u8)
        requires
            self.wf(),
        ensures
            v == self.current(),
    {
        self.data[self.pointer]
    }

    /// Whether the current cell holds zero.
    pub fn is_zero(&self) -> (z: bool)
        requires
            self.wf(),
        ensures
            z == (self.current() == 0),
    {
        self.data[self.pointer] == 0
    }

    /// Stores `value` in the current cell.
    pub fn set(&mut self, value: u8)
        requires
            old(self).wf(),
        ensures
            final(self).wf(),
            final(self).cursor() == old(self).cursor(),
            final(self).cells() == old(self).cells().update(old(self).cursor(), value),
    {
        self.data.set(self.pointer, value);
    }

    /// Adds one to the current cell; 255 becomes 0.
    pub fn incr(&mut self)
        requires
            old(self).wf(),
        ensures
            final(self).wf(),
            final(self).cursor() == old(self).cursor(),
            final(self).cells() == old(self).cells().update(
                old(self).cursor(),
                wrap_incr(old(self).current()),
            ),
    {
        let v = self.data[self.pointer];
        self.data.set(self.pointer, v.wrapping_add(1));
    }

    /// Subtracts one from the current cell; 0 becomes 255.
    pub fn decr(&mut self)
        requires
            old(self).wf(),
        ensures
            final(self).wf(),
            final(self).cursor() == old(self).cursor(),
            final(self).cells() == old(self).cells().update(
                old(self).cursor(),
                wrap_decr(old(self).current()),
            ),
    {
        let v = self.data[self.pointer];
        self.data.set(self.pointer, v.wrapping_sub(1));
    }
}

/// Cell arithmetic wraps: one increment takes 255 to 0, one decrement takes
/// 0 to 255, and each undoes the other on every value.
pub proof fn lemma_cell_wraps(v: u8)
    ensures
        wrap_incr(255) == 0,
        wrap_decr(0) == 255,
        wrap_decr(wrap_incr(v)) == v,
        wrap_incr(wrap_decr(v)) == v,
{
}

} // verus!
