use vstd::prelude::*;
use vstd::std_specs::iter::IteratorSpec;
use crate::token::{Token, token_of, is_symbol};

verus! {

/// The instructions of a source text: each symbol character in order, every
/// other character dropped.
pub open spec fn tokens_of(s: Seq<char>) -> Seq<Token> {
    s.filter_map(|c: char| token_of(c))
}

/// Turns source text into instructions.
pub struct Tokenizer {}

impl Tokenizer {
    /// The instruction for one character, or `None` for a comment character.
    pub fn token_for(c: char) -> (r: Option<Token>)
        ensures
            r == token_of(c),
    {
        match c {
            '>' => Some(Token::NEXT),
            '<' => Some(Token::PREV),
            '+' => Some(Token::INCR),
            '-' => Some(Token::DECR),
            '.' => Some(Token::WRITE),
            ',' => Some(Token::READ),
            '[' => Some(Token::JUMP),
            ']' => Some(Token::BACK),
            _ => None,
        }
    }

    /// The instructions of `input`, in order; characters that are not
    /// instruction symbols produce nothing.
    pub fn tokenize(input: &String) -> (tokens: Vec<Token>)
        ensures
            tokens@ == tokens_of(input@),
    {
        let mut tokens: Vec<Token> = Vec::new();
        for c in it: input.as_str().chars()
            invariant
                it.seq() == input@,
                tokens@ == tokens_of(input@.take(it.index() as int)),
        {
            proof {
                assert(input@.take(it.index() + 1).drop_last() =~= input@.take(it.index() as int));
            }
            if let Some(t) = Tokenizer::token_for(c) {
                tokens.push(t);
            }
        }
        proof {
            assert(input@.take(input@.len() as int) =~= input@);
        }
        tokens
    }
}


/// Every symbol character gives one instruction and every other character
/// none: the number of instructions is the number of symbol characters, and
/// the instructions of a text followed by one more character are those of
/// the text followed by that character's instruction, if it has one.
pub proof fn lemma_tokens_count(s: Seq<char>, c: char)
    ensures
        tokens_of(s).len() == s.filter(|x: char| is_symbol(x)).len(),
        tokens_of(s.push(c)) == tokens_of(s) + match token_of(c) {
            Some(t) => seq![t],
            None => Seq::<Token>::empty(),
        },
    decreases s.len(),
{
    reveal(Seq::filter);
    assert(s.push(c).drop_last() =~= s);
    if s.len() > 0 {
        lemma_tokens_count(s.drop_last(), c);
    }
    match token_of(c) {
        Some(t) => {},
        None => {
            assert(tokens_of(s) + Seq::<Token>::empty() =~= tokens_of(s));
        },
    }
}

/// Tokenizing keeps order across concatenation: the instructions of `s + u`
/// are those of `s` followed by those of `u`.
pub proof fn lemma_tokens_concat(s: Seq<char>, u: Seq<char>)
    ensures
        tokens_of(s + u) == tokens_of(s) + tokens_of(u),
    decreases u.len(),
{
    if u.len() == 0 {
        assert(s + u =~= s);
        assert(tokens_of(s) + tokens_of(u) =~= tokens_of(s));
    } else {
        let w = u.drop_last();
        let c = u.last();
        assert(s + u =~= (s + w).push(c));
        assert(u =~= w.push(c));
        lemma_tokens_concat(s, w);
        lemma_tokens_count(s + w, c);
        lemma_tokens_count(w, c);
        let e = match token_of(c) {
            Some(t) => seq![t],
            None => Seq::<Token>::empty(),
        };
        assert(tokens_of(s) + tokens_of(w) + e =~= tokens_of(s) + (tokens_of(w) + e));
    }
}

} // verus!
