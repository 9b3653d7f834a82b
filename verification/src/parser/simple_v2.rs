//! The tagged dialect: the flat dialect with names for memory blobs and
//! for instructions.
//!
//! A line holds a comment, a chunk of static data or an instruction.
//! `name #text` puts `text` into the static data and calls the blob
//! `name`; `name: code` calls the instruction `name`. Where no name is
//! given, the number of the line, counted from zero, is the name. An
//! operand `$name` is the address of a blob or the index of an
//! instruction, `@name` the size of a blob and `^name` the address just
//! past it.

use vstd::prelude::*;
use vstd::slice::slice_subrange;
use vstd::slice::slice_to_vec;
use vstd::utf8::encode_utf8;
use super::parse_instruction;
use super::parse_operand;
use super::reads_instruction;
use super::reads_operand;
use super::Flaw;
use super::FlawView;
use super::Parser;
use super::Tag;
use super::Tags;
use crate::text::chars_of;
use crate::text::count_lead;
use crate::text::count_trail;
use crate::text::decimal;
use crate::text::digits;
use crate::text::find;
use crate::text::first_of;
use crate::text::lemma_first_of;
use crate::text::line_ranges;
use crate::text::lines;
use crate::text::piece;
use crate::text::trim;
use crate::text::trim_start;
use crate::vm::program::Instruction;
use crate::vm::program::InstructionParam;
use crate::vm::program::Program;

verus! {

/// The reader of the tagged dialect.
pub struct Simple;

/// What is wrong with a line of code.
#[derive(Debug, Clone, PartialEq, Eq)]
pub enum InternalSimpleParserError {
    /// A word is no operand.
    OperandInvalidSyntax,
    /// A referred name is not defined; the name.
    BadTagNotFound(String),
    /// The size or end of an instruction was asked for; the name.
    InstructionBadTag(String),
    /// The line has no word or more than three; the line.
    BadLineSyntax(String),
    /// The first word names no operation.
    OpcodeNotFound,
}

/// A flaw and the number of its line, counted from zero.
#[derive(Debug, Clone, PartialEq, Eq)]
pub struct SimpleParserError(pub usize, pub InternalSimpleParserError);

impl View for InternalSimpleParserError {
    type V = FlawView;

    open spec fn view(&self) -> FlawView {
        match self {
            InternalSimpleParserError::OperandInvalidSyntax => FlawView::OperandInvalidSyntax,
            InternalSimpleParserError::BadTagNotFound(name) => FlawView::BadTagNotFound(name@),
            InternalSimpleParserError::InstructionBadTag(name) => FlawView::InstructionBadTag(
                name@,
            ),
            InternalSimpleParserError::BadLineSyntax(line) => FlawView::BadLineSyntax(line@),
            InternalSimpleParserError::OpcodeNotFound => FlawView::OpcodeNotFound,
        }
    }
}

/// What the first pass over a text has gathered.
pub struct Scan {
    /// The definitions, in their order.
    pub tags: Seq<(Seq<char>, Tag)>,
    /// The static data.
    pub data: Seq<u8>,
    /// Offset and length of each blob.
    pub meta: Seq<(usize, usize)>,
    /// How many lines were counted as instructions.
    pub counter: nat,
    /// The lines of code: the number of the line and the text to read.
    pub code: Seq<(usize, Seq<char>)>,
}

/// Whether a line counts: it is neither empty nor a comment.
pub open spec fn kept(raw: Seq<char>) -> bool {
    trim(raw).len() > 0 && trim(raw)[0] != ';'
}

/// The name that the text before a mark gives, or the number of the line
/// where it gives none.
pub open spec fn name_or_number(text: Seq<char>, index: usize) -> Seq<char> {
    if trim(text).len() > 0 {
        trim(text)
    } else {
        digits(index as nat)
    }
}

/// What line `index`, with the text `raw`, adds to `state`.
///
/// A line with a `#` is data: all after the first `#` goes to the static
/// data and the text before it names the blob. Any other line counts as an
/// instruction; a `:` in it ends the name of the instruction, and what
/// follows the first `:` is the code. A line whose code is empty counts
/// all the same.
pub open spec fn scan_line(state: Scan, index: usize, raw: Seq<char>) -> Scan {
    let line = trim_start(raw);
    let hash = first_of(line, '#');
    let colon = first_of(line, ':');
    if !kept(raw) {
        state
    } else if hash < line.len() {
        let bytes = encode_utf8(line.subrange(hash + 1, line.len() as int));
        let blob = (state.data.len() as usize, bytes.len() as usize);
        Scan {
            tags: state.tags.push(
                (
                    name_or_number(line.subrange(0, hash), index),
                    Tag::Memory { address: blob.0, size: blob.1 },
                ),
            ),
            data: state.data + bytes,
            meta: state.meta.push(blob),
            ..state
        }
    } else if colon < line.len() {
        let code = line.subrange(colon + 1, line.len() as int);
        Scan {
            tags: state.tags.push(
                (
                    name_or_number(line.subrange(0, colon), index),
                    Tag::Instruction { line: state.counter as usize },
                ),
            ),
            counter: state.counter + 1,
            code: if trim(code).len() > 0 {
                state.code.push((index, code))
            } else {
                state.code
            },
            ..state
        }
    } else {
        Scan { counter: state.counter + 1, code: state.code.push((index, line)), ..state }
    }
}

/// What the lines `found` add to `state`, one after the other.
pub open spec fn scan(found: Seq<Seq<char>>, state: Scan) -> Scan
    decreases found.len(),
{
    if found.len() == 0 {
        state
    } else {
        scan_line(scan(found.drop_last(), state), (found.len() - 1) as usize, found.last())
    }
}

/// Where the first pass starts on a program: with its static data and
/// blobs, and with nothing defined or counted.
pub open spec fn scan_start(program: Program) -> Scan {
    Scan {
        tags: Seq::empty(),
        data: program.static_data@,
        meta: program.static_data_meta@,
        counter: 0,
        code: Seq::empty(),
    }
}

/// Whether `after` holds the instructions of `before` and then a reading
/// of each of the first `count` lines of `code`.
pub open spec fn assembled<F: Fn(&str) -> Option<u64>>(
    before: Seq<Instruction>,
    tags: Seq<(Seq<char>, Tag)>,
    code: Seq<(usize, Seq<char>)>,
    count: int,
    float: F,
    after: Seq<Instruction>,
) -> bool {
    &&& 0 <= count <= code.len()
    &&& after.len() == before.len() + count
    &&& after.subrange(0, before.len() as int) == before
    &&& forall|i: int|
        0 <= i < count ==> reads_instruction(
            float,
            tags,
            true,
            (#[trigger] code[i]).1,
            Ok(after[before.len() + i]),
        )
}

/// The flaw of the tagged dialect that `flaw` is.
fn tagged_flaw(flaw: Flaw) -> (error: InternalSimpleParserError)
    ensures
        error@ == flaw@,
{
    match flaw {
        Flaw::OperandInvalidSyntax => InternalSimpleParserError::OperandInvalidSyntax,
        Flaw::BadTagNotFound(name) => InternalSimpleParserError::BadTagNotFound(name),
        Flaw::InstructionBadTag(name) => InternalSimpleParserError::InstructionBadTag(name),
        Flaw::BadLineSyntax(line) => InternalSimpleParserError::BadLineSyntax(line),
        Flaw::OpcodeNotFound => InternalSimpleParserError::OpcodeNotFound,
    }
}

/// The name that the characters of `chars` from `from` to `to` give, or
/// the number of the line, see [`name_or_number`].
fn name_of(chars: &[char], from: usize, to: usize, index: usize) -> (name: Vec<char>)
    requires
        from <= to <= chars@.len(),
    ensures
        name@ == name_or_number(chars@.subrange(from as int, to as int), index),
{
    let text = slice_subrange(chars, from, to);
    let lead = count_lead(text);
    let rest = slice_subrange(text, lead, text.len());
    let trail = count_trail(rest);
    let name = slice_subrange(rest, 0, rest.len() - trail);
    if name.len() > 0 {
        slice_to_vec(name)
    } else {
        decimal(index)
    }
}

/// The text of the lines of code, given where each starts and ends.
pub open spec fn code_view(chars: Seq<char>, code: Seq<(usize, usize, usize)>) -> Seq<
    (usize, Seq<char>),
> {
    Seq::new(code.len(), |i: int| (code[i].0, chars.subrange(code[i].1 as int, code[i].2 as int)))
}

/// A reading in progress: the program that is added to and the names
/// defined so far.
pub struct ParserV2 {
    pub program: Program,
    pub tags: Tags,
}

impl ParserV2 {
    /// The first pass: gathers the names and the static data of `source`,
    /// whose characters are `chars`, and returns its lines of code: for
    /// each the number of the line and where the text to read starts and
    /// ends.
    pub fn consume_tags_and_memory(&mut self, source: &str, chars: &[char]) -> (code: Vec<
        (usize, usize, usize),
    >)
        requires
            chars@ == source@,
            old(self).tags@ == Seq::<(Seq<char>, Tag)>::empty(),
        ensures
            ({
                let scanned = scan(lines(source@), scan_start(old(self).program));
                &&& final(self).tags@ == scanned.tags
                &&& final(self).program.static_data@ == scanned.data
                &&& final(self).program.static_data_meta@ == scanned.meta
                &&& code_view(chars@, code@) == scanned.code
            }),
            final(self).program.name == old(self).program.name,
            final(self).program.required_memory == old(self).program.required_memory,
            final(self).program.instructions == old(self).program.instructions,
            forall|k: int|
                0 <= k < code@.len() ==> (#[trigger] code@[k]).1 <= code@[k].2 <= chars@.len(),
    {
        let ranges = line_ranges(chars);
        let ghost found = lines(source@);
        let ghost start = scan_start(self.program);
        let mut code: Vec<(usize, usize, usize)> = Vec::new();
        let mut counter: usize = 0;
        let mut i: usize = 0;
        proof {
            assert(found.take(0) =~= Seq::<Seq<char>>::empty());
            assert(code_view(chars@, code@) =~= Seq::<(usize, Seq<char>)>::empty());
        }
        while i < ranges.len()
            invariant
                i <= ranges@.len() == found.len(),
                chars@ == source@,
                found == lines(source@),
                start == scan_start(old(self).program),
                counter <= i,
                forall|k: int|
                    0 <= k < ranges@.len() ==> {
                        &&& (#[trigger] ranges@[k]).0 <= ranges@[k].1 <= chars@.len()
                        &&& chars@.subrange(ranges@[k].0 as int, ranges@[k].1 as int) == found[k]
                    },
                forall|k: int|
                    0 <= k < code@.len() ==> (#[trigger] code@[k]).1 <= code@[k].2 <= chars@.len(),
                scan(found.take(i as int), start) == (Scan {
                    tags: self.tags@,
                    data: self.program.static_data@,
                    meta: self.program.static_data_meta@,
                    counter: counter as nat,
                    code: code_view(chars@, code@),
                }),
                self.program.name == old(self).program.name,
                self.program.required_memory == old(self).program.required_memory,
                self.program.instructions == old(self).program.instructions,
            decreases ranges@.len() - i,
        {
            let (first, end) = ranges[i];
            let raw = slice_subrange(chars, first, end);
            let lead = count_lead(raw);
            let line = slice_subrange(raw, lead, raw.len());
            let trail = count_trail(line);
            let from = first + lead;
            proof {
                assert(found.take(i + 1).drop_last() =~= found.take(i as int));
                assert(found.take(i + 1).last() == found[i as int]);
                assert(line@ =~= chars@.subrange(from as int, end as int));
                assert(line@ == trim_start(found[i as int]));
                lemma_first_of(line@, '#');
                lemma_first_of(line@, ':');
            }
            if line.len() - trail == 0 || line[0] == ';' {
                assert(!kept(found[i as int]));
            } else {
                assert(kept(found[i as int]));
                let hash = find(line, '#');
                if hash < line.len() {
                    let name = name_of(chars, from, from + hash, i);
                    let payload = piece(source, from + hash + 1, end);
                    let bytes = payload.as_str().as_bytes();
                    let begin = self.program.static_data.len();
                    let ghost held = self.program.static_data@;
                    self.program.static_data.extend_from_slice(bytes);
                    self.program.static_data_meta.push((begin, bytes.len()));
                    self.tags.insert(name, Tag::Memory { address: begin, size: bytes.len() });
                    proof {
                        assert(chars@.subrange(from as int, from + hash) =~= line@.subrange(
                            0,
                            hash as int,
                        ));
                        assert(payload@ =~= line@.subrange(hash + 1, line@.len() as int));
                        assert(self.program.static_data@ =~= held + bytes@);
                    }
                } else {
                    let colon = find(line, ':');
                    if colon < line.len() {
                        let name = name_of(chars, from, from + colon, i);
                        self.tags.insert(name, Tag::Instruction { line: counter });
                        let rest = slice_subrange(line, colon + 1, line.len());
                        let inner_lead = count_lead(rest);
                        let inner = slice_subrange(rest, inner_lead, rest.len());
                        let inner_trail = count_trail(inner);
                        proof {
                            assert(chars@.subrange(from as int, from + colon) =~= line@.subrange(
                                0,
                                colon as int,
                            ));
                            assert(rest@ =~= chars@.subrange(from + colon + 1, end as int));
                        }
                        if inner.len() - inner_trail > 0 {
                            let ghost before = code@;
                            code.push((i, from + colon + 1, end));
                            proof {
                                assert(code_view(chars@, code@) =~= code_view(chars@, before).push(
                                    (i, rest@),
                                ));
                            }
                        }
                    } else {
                        let ghost before = code@;
                        code.push((i, from, end));
                        proof {
                            assert(code_view(chars@, code@) =~= code_view(chars@, before).push(
                                (i, line@),
                            ));
                        }
                    }
                    counter += 1;
                }
            }
            i += 1;
        }
        proof {
            assert(found.take(i as int) =~= found);
        }
        code
    }

    /// Reads the word of `source` from character `from` to character `to`
    /// as an operand; a reference stands for what the names defined so
    /// far make of it.
    pub fn parse_operand<F: Fn(&str) -> Option<u64>>(
        &mut self,
        source: &str,
        chars: &[char],
        from: usize,
        to: usize,
        float: &F,
    ) -> (out: Result<Option<InstructionParam>, InternalSimpleParserError>)
        requires
            chars@ == source@,
            from <= to <= chars@.len(),
            forall|word: &str| float.requires((word,)),
        ensures
            *final(self) == *old(self),
            reads_operand(
                *float,
                old(self).tags@,
                true,
                chars@.subrange(from as int, to as int),
                match out {
                    Ok(slot) => Ok(slot),
                    Err(flaw) => Err(flaw@),
                },
            ),
    {
        match parse_operand(source, chars, from, to, &self.tags, true, float) {
            Ok(slot) => Ok(slot),
            Err(flaw) => Err(tagged_flaw(flaw)),
        }
    }

    /// Reads the line of `source` from character `from` to character `to`
    /// as an instruction and appends it to the program.
    pub fn consume_instruction<F: Fn(&str) -> Option<u64>>(
        &mut self,
        source: &str,
        chars: &[char],
        from: usize,
        to: usize,
        float: &F,
    ) -> (out: Result<(), InternalSimpleParserError>)
        requires
            chars@ == source@,
            from <= to <= chars@.len(),
            forall|word: &str| float.requires((word,)),
        ensures
            final(self).tags == old(self).tags,
            final(self).program.name == old(self).program.name,
            final(self).program.required_memory == old(self).program.required_memory,
            final(self).program.static_data == old(self).program.static_data,
            final(self).program.static_data_meta == old(self).program.static_data_meta,
            match out {
                Ok(_) => final(self).program.instructions@.len() == old(
                    self,
                ).program.instructions@.len() + 1 && final(self).program.instructions@.drop_last()
                    == old(self).program.instructions@ && reads_instruction(
                    *float,
                    old(self).tags@,
                    true,
                    chars@.subrange(from as int, to as int),
                    Ok(final(self).program.instructions@.last()),
                ),
                Err(flaw) => final(self).program.instructions == old(self).program.instructions
                    && reads_instruction(
                    *float,
                    old(self).tags@,
                    true,
                    chars@.subrange(from as int, to as int),
                    Err(flaw@),
                ),
            },
    {
        match parse_instruction(source, chars, from, to, &self.tags, true, float) {
            Ok(instruction) => {
                self.program.instructions.push(instruction);
                assert(self.program.instructions@.drop_last() =~= old(self).program.instructions@);
                Ok(())
            },
            Err(flaw) => Err(tagged_flaw(flaw)),
        }
    }

    /// The second pass: reads the lines of code, given as by
    /// [`ParserV2::consume_tags_and_memory`], and appends the instructions
    /// to the program, up to the first line that has a flaw.
    pub fn consume_instructions<F: Fn(&str) -> Option<u64>>(
        &mut self,
        source: &str,
        chars: &[char],
        code: &Vec<(usize, usize, usize)>,
        float: &F,
    ) -> (done: Result<(), SimpleParserError>)
        requires
            chars@ == source@,
            forall|k: int|
                0 <= k < code@.len() ==> (#[trigger] code@[k]).1 <= code@[k].2 <= chars@.len(),
            forall|word: &str| float.requires((word,)),
        ensures
            final(self).tags == old(self).tags,
            final(self).program.name == old(self).program.name,
            final(self).program.required_memory == old(self).program.required_memory,
            final(self).program.static_data == old(self).program.static_data,
            final(self).program.static_data_meta == old(self).program.static_data_meta,
            ({
                let lines = code_view(chars@, code@);
                let parsed = final(self).program.instructions@.len() - old(
                    self,
                ).program.instructions@.len();
                &&& assembled(
                    old(self).program.instructions@,
                    old(self).tags@,
                    lines,
                    parsed,
                    *float,
                    final(self).program.instructions@,
                )
                &&& match done {
                    Ok(_) => parsed == lines.len(),
                    Err(SimpleParserError(number, flaw)) => parsed < lines.len() && number
                        == lines[parsed].0 && reads_instruction(
                        *float,
                        old(self).tags@,
                        true,
                        lines[parsed].1,
                        Err(flaw@),
                    ),
                }
            }),
    {
        let ghost before = self.program.instructions@;
        let ghost lines = code_view(chars@, code@);
        let mut i: usize = 0;
        proof {
            assert(before.subrange(0, before.len() as int) =~= before);
        }
        while i < code.len()
            invariant
                i <= code@.len(),
                chars@ == source@,
                before == old(self).program.instructions@,
                lines == code_view(chars@, code@),
                forall|word: &str| float.requires((word,)),
                forall|k: int|
                    0 <= k < code@.len() ==> (#[trigger] code@[k]).1 <= code@[k].2 <= chars@.len(),
                self.tags == old(self).tags,
                self.program.name == old(self).program.name,
                self.program.required_memory == old(self).program.required_memory,
                self.program.static_data == old(self).program.static_data,
                self.program.static_data_meta == old(self).program.static_data_meta,
                assembled(before, self.tags@, lines, i as int, *float, self.program.instructions@),
            decreases code@.len() - i,
        {
            let (number, from, to) = code[i];
            let ghost listed = self.program.instructions@;
            match self.consume_instruction(source, chars, from, to, float) {
                Ok(_) => {
                    proof {
                        assert(self.program.instructions@.subrange(0, before.len() as int)
                            =~= listed.subrange(0, before.len() as int));
                        assert forall|k: int| 0 <= k < i + 1 implies reads_instruction(
                            *float,
                            self.tags@,
                            true,
                            (#[trigger] lines[k]).1,
                            Ok(self.program.instructions@[before.len() + k]),
                        ) by {
                            if k < i {
                                assert(self.program.instructions@[before.len() + k]
                                    == self.program.instructions@.drop_last()[before.len() + k]);
                            }
                        }
                    }
                },
                Err(flaw) => {
                    return Err(SimpleParserError(number, flaw));
                },
            }
            i += 1;
        }
        Ok(())
    }
}

impl Parser for Simple {
    type Err = SimpleParserError;

    /// Reads `source` in two passes and adds what it holds to `target`.
    /// The first pass, see [`scan`], takes in all names and all static
    /// data; the second reads the lines of code, up to the first that has
    /// a flaw.
    fn parse<F: Fn(&str) -> Option<u64>>(target: &mut Program, source: &str, float: F) -> (done:
        Result<(), SimpleParserError>)
        ensures
            final(target).name == old(target).name,
            final(target).required_memory == old(target).required_memory,
            ({
                let scanned = scan(lines(source@), scan_start(*old(target)));
                let parsed = final(target).instructions@.len() - old(target).instructions@.len();
                &&& final(target).static_data@ == scanned.data
                &&& final(target).static_data_meta@ == scanned.meta
                &&& assembled(
                    old(target).instructions@,
                    scanned.tags,
                    scanned.code,
                    parsed,
                    float,
                    final(target).instructions@,
                )
                &&& match done {
                    Ok(_) => parsed == scanned.code.len(),
                    Err(SimpleParserError(number, flaw)) => parsed < scanned.code.len() && number
                        == scanned.code[parsed].0 && reads_instruction(
                        float,
                        scanned.tags,
                        true,
                        scanned.code[parsed].1,
                        Err(flaw@),
                    ),
                }
            }),
    {
        let chars = chars_of(source);
        let mut parser = ParserV2 { program: Program::new(), tags: Tags::new() };
        core::mem::swap(target, &mut parser.program);
        let code = parser.consume_tags_and_memory(source, chars.as_slice());
        let done = parser.consume_instructions(source, chars.as_slice(), &code, &float);
        core::mem::swap(target, &mut parser.program);
        done
    }
}

} // verus!
