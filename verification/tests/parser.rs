use avmir::parser::simple;
use avmir::parser::simple_v2;
use avmir::parser::simple_v2::InternalSimpleParserError as Flaw;
use avmir::parser::{Parser, Tag, Tags};
use avmir::vm::program::{Instruction, InstructionParam, Opcode, Program};

fn float(word: &str) -> Option<u64> {
    word.parse::<f64>().ok().map(f64::to_bits)
}

fn num(x: i64) -> Option<InstructionParam> {
    Some(InstructionParam::Int(x))
}

fn flt(x: f64) -> Option<InstructionParam> {
    Some(InstructionParam::Float(x.to_bits()))
}

fn flat(source: &str) -> (Program, Result<(), simple::SimpleParserError>) {
    let mut program = Program::with_name("flat");
    let done = simple::Simple::parse(&mut program, source, float);
    (program, done)
}

fn tagged(source: &str) -> (Program, Result<(), simple_v2::SimpleParserError>) {
    let mut program = Program::with_name("tagged");
    let done = simple_v2::Simple::parse(&mut program, source, float);
    (program, done)
}

#[test]
fn flat_dialect_reads_one_instruction_a_line() {
    let (program, done) = flat("Push 3\nPush 4\nAdd\nDebug\n");
    assert_eq!(done, Ok(()));
    assert_eq!(
        program.instructions,
        vec![
            Instruction(Opcode::Push, num(3), None),
            Instruction(Opcode::Push, num(4), None),
            Instruction(Opcode::Add, None, None),
            Instruction(Opcode::Debug, None, None),
        ]
    );
    assert_eq!(program.name, "flat");
    assert_eq!(program.required_memory, 1024);
}

#[test]
fn flat_dialect_operands() {
    let (program, done) = flat("  Sub 25 _\r\n\tPush _ -7  \nPush 0.5 +3\nPush 1e3 inf\n   \n; Push 1\nWriteInt32 100 -1");
    assert_eq!(done, Ok(()));
    assert_eq!(
        program.instructions,
        vec![
            Instruction(Opcode::Sub, num(25), None),
            Instruction(Opcode::Push, None, num(-7)),
            Instruction(Opcode::Push, flt(0.5), num(3)),
            Instruction(Opcode::Push, flt(1000.0), flt(f64::INFINITY)),
            Instruction(Opcode::WriteInt32, num(100), num(-1)),
        ]
    );
}

#[test]
fn flat_dialect_static_data() {
    let (program, done) = flat("#Hello\nNoop\n  #wörld  \n#\n");
    assert_eq!(done, Ok(()));
    assert_eq!(program.static_data, "Hellowörld".as_bytes().to_vec());
    assert_eq!(program.static_data_meta, vec![(0, 5), (5, 6), (11, 0)]);
    assert_eq!(program.instructions.len(), 1);
}

#[test]
fn flat_dialect_numbers_the_lines_of_flaws_from_one() {
    let (program, done) = flat("Push 1\n\nFrobnicate 2\nPush 3");
    assert_eq!(done, Err(simple::SimpleParserError(3, simple::InternalSimpleParserError::OpcodeNotFound)));
    assert_eq!(program.instructions, vec![Instruction(Opcode::Push, num(1), None)]);
    let (_, done) = flat("Push x");
    assert_eq!(done, Err(simple::SimpleParserError(1, simple::InternalSimpleParserError::OperandInvalidSyntax)));
    let (_, done) = flat("#d\n Add 1 2 3 ");
    assert_eq!(
        done,
        Err(simple::SimpleParserError(2, simple::InternalSimpleParserError::BadLineSyntax("Add 1 2 3".to_string())))
    );
    let (_, done) = flat("Push $name");
    assert_eq!(done, Err(simple::SimpleParserError(1, simple::InternalSimpleParserError::OperandInvalidSyntax)));
    let (_, done) = flat("push 1");
    assert_eq!(done, Err(simple::SimpleParserError(1, simple::InternalSimpleParserError::OpcodeNotFound)));
    let (_, done) = flat("Push\t1");
    assert_eq!(done, Err(simple::SimpleParserError(1, simple::InternalSimpleParserError::OpcodeNotFound)));
    let (_, done) = flat("Frobnicate x y z");
    assert_eq!(
        done,
        Err(simple::SimpleParserError(1, simple::InternalSimpleParserError::BadLineSyntax("Frobnicate x y z".to_string())))
    );
    let (_, done) = flat("Frobnicate x");
    assert_eq!(done, Err(simple::SimpleParserError(1, simple::InternalSimpleParserError::OpcodeNotFound)));
}

#[test]
fn parsing_adds_to_what_the_program_holds() {
    let mut program = Program::with_name("twice");
    assert_eq!(simple::Simple::parse(&mut program, "#ab\nNoop", float), Ok(()));
    assert_eq!(simple::Simple::parse(&mut program, "#cd\nExit", float), Ok(()));
    assert_eq!(program.static_data, b"abcd".to_vec());
    assert_eq!(program.static_data_meta, vec![(0, 2), (2, 2)]);
    assert_eq!(program.instructions, vec![Instruction::new(Opcode::Noop), Instruction::new(Opcode::Exit)]);
}

#[test]
fn tagged_dialect_resolves_names() {
    let (program, done) = tagged("; a greeting\nmsg #Hello\nmore #, world\nstart: Push $msg\nPush @msg\nPush ^msg\nPush $more\nPush ^more\nJump $start 0\nJump $end 1\nNoop\nend: Exit\n");
    assert_eq!(done, Ok(()));
    assert_eq!(program.static_data, b"Hello, world".to_vec());
    assert_eq!(program.static_data_meta, vec![(0, 5), (5, 7)]);
    assert_eq!(
        program.instructions,
        vec![
            Instruction(Opcode::Push, num(0), None),
            Instruction(Opcode::Push, num(5), None),
            Instruction(Opcode::Push, num(5), None),
            Instruction(Opcode::Push, num(5), None),
            Instruction(Opcode::Push, num(12), None),
            Instruction(Opcode::Jump, num(0), num(0)),
            Instruction(Opcode::Jump, num(8), num(1)),
            Instruction(Opcode::Noop, None, None),
            Instruction(Opcode::Exit, None, None),
        ]
    );
}

#[test]
fn tagged_dialect_names_by_line_number() {
    let (program, done) = tagged("#zero\n\n:Push $0\n  #three  \nPush @3 $2\nPush 1.5 _");
    assert_eq!(done, Ok(()));
    assert_eq!(program.static_data, b"zerothree  ".to_vec());
    assert_eq!(
        program.instructions,
        vec![
            Instruction(Opcode::Push, num(0), None),
            Instruction(Opcode::Push, num(7), num(0)),
            Instruction(Opcode::Push, flt(1.5), None),
        ]
    );
}

#[test]
fn tagged_dialect_numbers_the_lines_of_flaws_from_zero() {
    let (program, done) = tagged("Push 1\n\nPush $nowhere\nPush 3");
    assert_eq!(done, Err(simple_v2::SimpleParserError(2, Flaw::BadTagNotFound("nowhere".to_string()))));
    assert_eq!(program.instructions, vec![Instruction(Opcode::Push, num(1), None)]);
    let (_, done) = tagged("here: Noop\nPush @here");
    assert_eq!(done, Err(simple_v2::SimpleParserError(1, Flaw::InstructionBadTag("here".to_string()))));
    let (_, done) = tagged("here: Noop\nPush ^here");
    assert_eq!(done, Err(simple_v2::SimpleParserError(1, Flaw::InstructionBadTag("here".to_string()))));
    let (_, done) = tagged("Push @");
    assert_eq!(done, Err(simple_v2::SimpleParserError(0, Flaw::BadTagNotFound(String::new()))));
    let (_, done) = tagged("Noop\nFrobnicate");
    assert_eq!(done, Err(simple_v2::SimpleParserError(1, Flaw::OpcodeNotFound)));
    let (_, done) = tagged("Push x1");
    assert_eq!(done, Err(simple_v2::SimpleParserError(0, Flaw::OperandInvalidSyntax)));
    let (_, done) = tagged("  t:  Add 1 2 3");
    assert_eq!(done, Err(simple_v2::SimpleParserError(0, Flaw::BadLineSyntax("  Add 1 2 3".to_string()))));
}

#[test]
fn tagged_dialect_takes_static_data_before_any_code() {
    let (program, done) = tagged("Push $late\nPush 1 \nlate #x");
    assert_eq!(done, Ok(()));
    assert_eq!(program.instructions, vec![Instruction(Opcode::Push, num(0), None), Instruction(Opcode::Push, num(1), None)]);
    let (program, done) = tagged("Push $gone\nlate #x");
    assert!(done.is_err());
    assert_eq!(program.static_data, b"x".to_vec());
    assert_eq!(program.static_data_meta, vec![(0, 1)]);
}

#[test]
fn tagged_dialect_counts_a_line_that_only_names() {
    let (program, done) = tagged("a:\nPush $a\nb: Push $b");
    assert_eq!(done, Ok(()));
    assert_eq!(program.instructions, vec![Instruction(Opcode::Push, num(0), None), Instruction(Opcode::Push, num(2), None)]);
}

#[test]
fn tagged_dialect_a_later_name_replaces_an_earlier() {
    let (program, done) = tagged("x #ab\nx #cde\nPush $x @x");
    assert_eq!(done, Ok(()));
    assert_eq!(program.instructions, vec![Instruction(Opcode::Push, num(2), num(3))]);
    let (_, done) = tagged("x #ab\nx #cde\nPush $x @x\nx: Push $x");
    assert_eq!(done, Err(simple_v2::SimpleParserError(2, Flaw::InstructionBadTag("x".to_string()))));
    let (program, done) = tagged("k: Noop # not a comment");
    assert_eq!(done, Ok(()));
    assert!(program.instructions.is_empty());
    assert_eq!(program.static_data, b" not a comment".to_vec());
}

#[test]
fn names_are_looked_up_last_first() {
    let mut tags = Tags::new();
    let name: Vec<char> = "n".chars().collect();
    assert_eq!(tags.get(&name), None);
    tags.insert(name.clone(), Tag::Instruction { line: 4 });
    tags.insert("m".chars().collect(), Tag::Memory { address: 1, size: 2 });
    assert_eq!(tags.get(&name), Some(Tag::Instruction { line: 4 }));
    tags.insert(name.clone(), Tag::Memory { address: 8, size: 9 });
    assert_eq!(tags.get(&name), Some(Tag::Memory { address: 8, size: 9 }));
}

#[test]
fn the_float_reader_decides_what_is_a_float() {
    let mut program = Program::new();
    let only_half = |word: &str| if word == "half" { Some(0.5f64.to_bits()) } else { None };
    assert_eq!(simple::Simple::parse(&mut program, "Push half 1", only_half), Ok(()));
    assert_eq!(program.instructions, vec![Instruction(Opcode::Push, flt(0.5), num(1))]);
    assert!(simple::Simple::parse(&mut program, "Push 0.5", only_half).is_err());
}
