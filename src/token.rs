use vstd::prelude::*;

verus! {

/// One instruction of the language.
#[derive(Debug, Clone, Copy, PartialEq, Eq, Structural)]
pub enum Token {
    /// `>`: move the cursor one cell to the right.
    NEXT,
    /// `<`: move the cursor one cell to the left.
    PREV,
    /// `+`: add one to the current cell, wrapping at 256.
    INCR,
    /// `-`: subtract one from the current cell, wrapping at 256.
    DECR,
    /// `,`: store one byte from the source in the current cell.
    READ,
    /// `.`: send the current cell to the sink.
    WRITE,
    /// `[`: skip past the matching `]` when the current cell is zero.
    JUMP,
    /// `]`: go back to the matching `[` when the current cell is not zero.
    BACK,
}

/// The instruction that a character of source text stands for, if any.
pub open spec fn token_of(c: char) -> Option<Token> {
    if c == '>' {
        Some(Token::NEXT)
    } else if c == '<' {
        Some(Token::PREV)
    } else if c == '+' {
        Some(Token::INCR)
    } else if c == '-' {
        Some(Token::DECR)
    } else if c == '.' {
        Some(Token::WRITE)
    } else if c == ',' {
        Some(Token::READ)
    } else if c == '[' {
        Some(Token::JUMP)
    } else if c == ']' {
        Some(Token::BACK)
    } else {
        None
    }
}

/// Whether a character is one of the eight instruction symbols.
pub open spec fn is_symbol(c: char) -> bool {
    token_of(c) is Some
}

} // verus!
