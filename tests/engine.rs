use bf_engine::memory::{Memory, TapeError};
use bf_engine::processor::{Effect, Outcome, Processor};
use bf_engine::token::Token;
use bf_engine::tokenizer::Tokenizer;

const HELLO: &str = ">+++++++++[<++++++++>-]<.>+++++++[<++++>-]<+.+++++++..+++.[-]>++++++++[<++++>-]<.>+++++++++++[<+++++>-]<.>++++++++[<+++>-]<.+++.------.--------.[-]>++++++++[<++++>-]<+.[-]++++++++++.";

fn run(code: &str, input: &[u8], max_steps: u64) -> (Vec<u8>, Outcome) {
    let tokens = Tokenizer::tokenize(&code.to_string());
    let mut processor = Processor::new(tokens);
    let r = processor.process(input, max_steps);
    (r.output, r.outcome)
}

#[test]
fn processor_test() {
    let code = HELLO;
    let tokens = Tokenizer::tokenize(&code.to_string());
    let reader = "".as_bytes();
    let mut processor = Processor::new(tokens);
    let r = processor.process(reader, 1_000_000);
    assert_eq!(r.outcome, Outcome::Halted);
    assert_eq!(String::from_utf8(r.output).unwrap(), "Hello World!\n");
}

#[test]
fn tokenizer_test() {
    let input = "><+-.,[]".to_string();
    let tokens = Tokenizer::tokenize(&input);
    assert_eq!(tokens.len(), 8);
    println!("{:?}", tokens)
}

#[test]
fn tokenize_keeps_order() {
    let tokens = Tokenizer::tokenize(&"><+-.,[]".to_string());
    assert_eq!(
        tokens,
        vec![
            Token::NEXT,
            Token::PREV,
            Token::INCR,
            Token::DECR,
            Token::WRITE,
            Token::READ,
            Token::JUMP,
            Token::BACK,
        ]
    );
}

#[test]
fn tokenize_drops_other_characters() {
    assert_eq!(Tokenizer::tokenize(&"a b c".to_string()).len(), 0);
    assert_eq!(Tokenizer::tokenize(&String::new()).len(), 0);
    let tokens = Tokenizer::tokenize(&"x+ é\n[-]; ok.".to_string());
    assert_eq!(
        tokens,
        vec![Token::INCR, Token::JUMP, Token::DECR, Token::BACK, Token::WRITE]
    );
}

#[test]
fn token_for_each_symbol() {
    assert_eq!(Tokenizer::token_for('>'), Some(Token::NEXT));
    assert_eq!(Tokenizer::token_for(']'), Some(Token::BACK));
    assert_eq!(Tokenizer::token_for('z'), None);
}

#[test]
fn cell_increment_wraps() {
    let mut m = Memory::new();
    m.set(255);
    m.incr();
    assert_eq!(m.curr(), 0);
    assert!(m.is_zero());
}

#[test]
fn cell_decrement_wraps() {
    let mut m = Memory::new();
    m.decr();
    assert_eq!(m.curr(), 255);
    m.incr();
    assert_eq!(m.curr(), 0);
}

#[test]
fn memory_bounds() {
    let mut m = Memory::new();
    assert_eq!(m.prev(), Err(TapeError::Underflow));
    for _ in 0..999 {
        assert_eq!(m.next(), Ok(()));
    }
    assert_eq!(m.next(), Err(TapeError::Overflow));
    assert_eq!(m.prev(), Ok(()));
}

#[test]
fn wrapping_through_the_engine() {
    assert_eq!(run("-.+.", b"", 100), (vec![255, 0], Outcome::Halted));
}

#[test]
fn zero_loop_is_skipped() {
    assert_eq!(run("[+[+].]+.", b"", 100), (vec![1], Outcome::Halted));
}

#[test]
fn loop_runs_until_zero() {
    assert_eq!(run("+++[.-]", b"", 100), (vec![3, 2, 1], Outcome::Halted));
}

#[test]
fn unmatched_open_halts() {
    assert_eq!(run("[+.", b"", 100), (vec![], Outcome::Halted));
    let tokens = Tokenizer::tokenize(&"+.[[]".to_string());
    let mut p = Processor::new(tokens);
    assert_eq!(p.step(), Ok(Effect::Ran));
    assert_eq!(p.step(), Ok(Effect::Wrote(1)));
    assert_eq!(p.step(), Ok(Effect::Ran));
    assert_eq!(p.step(), Ok(Effect::Ran));
    assert_eq!(p.step(), Ok(Effect::Ran));
    assert!(!p.is_halted());
    assert_eq!(run("+[-[]", b"", 100), (vec![], Outcome::Halted));
}

#[test]
fn unmatched_close_falls_through() {
    assert_eq!(run("+].", b"", 100), (vec![1], Outcome::Halted));
}

#[test]
fn echo_until_input_runs_out() {
    assert_eq!(
        run("+[>,.<]", &[65, 66, 0], 1000),
        (vec![65, 66, 0], Outcome::InputExhausted)
    );
}

#[test]
fn retreat_from_first_cell_fails() {
    assert_eq!(run("<+.", b"", 100), (vec![], Outcome::Fault(TapeError::Underflow)));
    assert_eq!(run(".<", b"", 100), (vec![0], Outcome::Fault(TapeError::Underflow)));
}

#[test]
fn advance_past_last_cell_fails() {
    let code = ">".repeat(999);
    assert_eq!(run(&code, b"", 10_000), (vec![], Outcome::Halted));
    let code = ">".repeat(1000);
    assert_eq!(run(&code, b"", 10_000), (vec![], Outcome::Fault(TapeError::Overflow)));
}

#[test]
fn step_limit_stops_endless_loop() {
    assert_eq!(run("+[]", b"", 50), (vec![], Outcome::StepLimit));
}

#[test]
fn empty_program_halts() {
    assert_eq!(run("", b"", 0), (vec![], Outcome::Halted));
}

#[test]
fn stepping_with_input() {
    let tokens = Tokenizer::tokenize(&",+.".to_string());
    let mut p = Processor::new(tokens);
    assert_eq!(p.step(), Ok(Effect::NeedsByte));
    assert_eq!(p.counter(), 1);
    p.read(7);
    assert_eq!(p.counter(), 1);
    assert_eq!(p.write(), 7);
    assert_eq!(p.step(), Ok(Effect::Ran));
    assert_eq!(p.write(), 8);
    assert_eq!(p.step(), Ok(Effect::Wrote(8)));
    assert!(p.is_halted());
    assert_eq!(p.step(), Ok(Effect::Halted));
}

#[test]
fn read_stores_without_moving() {
    let mut p = Processor::new(Vec::new());
    p.read(65);
    assert_eq!(p.write(), 65);
    assert_eq!(p.counter(), 0);
}

#[test]
fn jump_sets_counter_to_matching_close() {
    let mut p = Processor::new(Tokenizer::tokenize(&"[[-]+]+.".to_string()));
    p.jump();
    assert_eq!(p.counter(), 5);
    assert_eq!(p.step(), Ok(Effect::Ran));
    assert_eq!(p.counter(), 6);
}

#[test]
fn jump_unmatched_goes_to_last_instruction() {
    let mut p = Processor::new(Tokenizer::tokenize(&"[+.".to_string()));
    p.jump();
    assert_eq!(p.counter(), 2);
    let mut p = Processor::new(Tokenizer::tokenize(&"[+.".to_string()));
    assert_eq!(p.step(), Ok(Effect::Ran));
    assert_eq!(p.counter(), 3);
    assert!(p.is_halted());
}

#[test]
fn jump_on_nonzero_cell_stays() {
    let mut p = Processor::new(Tokenizer::tokenize(&"+[-]".to_string()));
    assert_eq!(p.step(), Ok(Effect::Ran));
    p.jump();
    assert_eq!(p.counter(), 1);
}

#[test]
fn back_sets_counter_to_matching_open() {
    let mut p = Processor::new(Tokenizer::tokenize(&"+[[]+]".to_string()));
    for _ in 0..3 {
        assert_eq!(p.step(), Ok(Effect::Ran));
    }
    assert_eq!(p.counter(), 3);
    p.back();
    assert_eq!(p.counter(), 2);
    assert_eq!(p.step(), Ok(Effect::Ran));
    assert_eq!(p.counter(), 3);
}

#[test]
fn back_on_zero_cell_or_unmatched_stays() {
    let mut p = Processor::new(Tokenizer::tokenize(&"]".to_string()));
    p.back();
    assert_eq!(p.counter(), 0);
    let mut p = Processor::new(Tokenizer::tokenize(&"+]".to_string()));
    assert_eq!(p.step(), Ok(Effect::Ran));
    p.back();
    assert_eq!(p.counter(), 1);
}

#[test]
fn process_counts_consumed_input() {
    let mut p = Processor::new(Tokenizer::tokenize(&",.,.".to_string()));
    let r = p.process(&[1, 2, 3], 100);
    assert_eq!((r.output, r.outcome, r.consumed), (vec![1, 2], Outcome::Halted, 2));
    let mut p = Processor::new(Tokenizer::tokenize(&"+[>,.<]".to_string()));
    let r = p.process(&[65, 66, 0], 1000);
    assert_eq!(r.consumed, 3);
    assert_eq!(r.outcome, Outcome::InputExhausted);
}

#[test]
fn process_resumes_where_it_stopped() {
    let tokens = Tokenizer::tokenize(&"+.+.+.".to_string());
    let mut p = Processor::new(tokens);
    let first = p.process(b"", 2);
    assert_eq!((first.output, first.outcome), (vec![1], Outcome::StepLimit));
    let rest = p.process(b"", 100);
    assert_eq!((rest.output, rest.outcome), (vec![2, 3], Outcome::Halted));
}
