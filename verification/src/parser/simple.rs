//! The flat dialect: one instruction a line, an operation name and up to
//! two operands. A line that starts with `;` is a comment; one that starts
//! with `#` holds static data.

use vstd::prelude::*;
use vstd::slice::slice_subrange;
use vstd::utf8::encode_utf8;
use super::parse_instruction;
use super::reads_instruction;
use super::Flaw;
use super::FlawView;
use super::Parser;
use super::Tag;
use super::Tags;
use crate::text::chars_of;
use crate::text::count_lead;
use crate::text::count_trail;
use crate::text::line_ranges;
use crate::text::lines;
use crate::text::piece;
use crate::text::trim;
use crate::vm::program::Program;

verus! {

/// The reader of the flat dialect.
pub struct Simple;

/// What is wrong with a line of code.
#[derive(Debug, Clone, PartialEq, Eq)]
pub enum InternalSimpleParserError {
    /// A word is no operand.
    OperandInvalidSyntax,
    /// The line has no word or more than three; the line.
    BadLineSyntax(String),
    /// The first word names no operation.
    OpcodeNotFound,
}

/// A flaw and the number of its line, counted from one.
#[derive(Debug, Clone, PartialEq, Eq)]
pub struct SimpleParserError(pub usize, pub InternalSimpleParserError);

impl View for InternalSimpleParserError {
    type V = FlawView;

    open spec fn view(&self) -> FlawView {
        match self {
            InternalSimpleParserError::OperandInvalidSyntax => FlawView::OperandInvalidSyntax,
            InternalSimpleParserError::BadLineSyntax(line) => FlawView::BadLineSyntax(line@),
            InternalSimpleParserError::OpcodeNotFound => FlawView::OpcodeNotFound,
        }
    }
}

/// What a line of text is.
pub enum LineKind {
    /// Nothing: an empty line or a comment.
    Skip,
    /// Static data: the text after the `#`.
    Data(Seq<char>),
    /// An instruction: the line without the white space around it.
    Code(Seq<char>),
}

/// What the line `raw` is, going by the first character after the white
/// space at its start.
pub open spec fn classify(raw: Seq<char>) -> LineKind {
    let line = trim(raw);
    if line.len() == 0 || line[0] == ';' {
        LineKind::Skip
    } else if line[0] == '#' {
        LineKind::Data(line.drop_first())
    } else {
        LineKind::Code(line)
    }
}

/// The static data that `found` hold: the UTF-8 bytes of each data line,
/// one after the other.
pub open spec fn data_of(found: Seq<Seq<char>>) -> Seq<u8>
    decreases found.len(),
{
    if found.len() == 0 {
        Seq::empty()
    } else {
        data_of(found.drop_last()) + (match classify(found.last()) {
            LineKind::Data(payload) => encode_utf8(payload),
            _ => Seq::empty(),
        })
    }
}

/// Offset and length of the blob of each data line among `found`, when
/// `base` bytes of static data were there before.
pub open spec fn meta_of(found: Seq<Seq<char>>, base: nat) -> Seq<(usize, usize)>
    decreases found.len(),
{
    if found.len() == 0 {
        Seq::empty()
    } else {
        let before = meta_of(found.drop_last(), base);
        match classify(found.last()) {
            LineKind::Data(payload) => before.push(
                (
                    (base + data_of(found.drop_last()).len()) as usize,
                    encode_utf8(payload).len() as usize,
                ),
            ),
            _ => before,
        }
    }
}

/// The lines of code among `found`, in their order.
pub open spec fn code_of(found: Seq<Seq<char>>) -> Seq<Seq<char>>
    decreases found.len(),
{
    if found.len() == 0 {
        Seq::empty()
    } else {
        match classify(found.last()) {
            LineKind::Code(line) => code_of(found.drop_last()).push(line),
            _ => code_of(found.drop_last()),
        }
    }
}

/// Whether `after` is `before` with the first `count` of the lines `found`
/// added to it: their data appended to the static data, a blob recorded
/// for each data line, and a reading of each line of code appended to the
/// instructions.
pub open spec fn assembled<F: Fn(&str) -> Option<u64>>(
    before: Program,
    found: Seq<Seq<char>>,
    count: int,
    float: F,
    after: Program,
) -> bool {
    let done = found.take(count);
    let code = code_of(done);
    let base = before.instructions@.len();
    &&& after.name == before.name
    &&& after.required_memory == before.required_memory
    &&& after.static_data@ == before.static_data@ + data_of(done)
    &&& after.static_data_meta@ == before.static_data_meta@ + meta_of(
        done,
        before.static_data@.len(),
    )
    &&& after.instructions@.len() == base + code.len()
    &&& after.instructions@.subrange(0, base as int) == before.instructions@
    &&& forall|i: int|
        0 <= i < code.len() ==> reads_instruction(
            float,
            Seq::empty(),
            false,
            #[trigger] code[i],
            Ok(after.instructions@[base + i]),
        )
}

/// The flaw of the flat dialect that `flaw` is. References are not read
/// in this dialect, so a flaw about one never comes up.
fn plain_flaw(flaw: Flaw) -> (error: InternalSimpleParserError)
    ensures
        !(flaw is BadTagNotFound) && !(flaw is InstructionBadTag) ==> error@ == flaw@,
{
    match flaw {
        Flaw::BadLineSyntax(line) => InternalSimpleParserError::BadLineSyntax(line),
        Flaw::OpcodeNotFound => InternalSimpleParserError::OpcodeNotFound,
        _ => InternalSimpleParserError::OperandInvalidSyntax,
    }
}

/// Without references no reading ends in a flaw about a name.
proof fn lemma_plain_flaws<F: Fn(&str) -> Option<u64>>(
    float: F,
    tags: Seq<(Seq<char>, Tag)>,
    line: Seq<char>,
    flaw: FlawView,
)
    requires
        reads_instruction(float, tags, false, line, Err(flaw)),
    ensures
        !(flaw is BadTagNotFound),
        !(flaw is InstructionBadTag),
{
}

impl Parser for Simple {
    type Err = SimpleParserError;

    /// Reads `source` line by line and adds what it holds to `target`, up
    /// to the first line of code that has a flaw.
    fn parse<F: Fn(&str) -> Option<u64>>(target: &mut Program, source: &str, float: F) -> (done:
        Result<(), SimpleParserError>)
        ensures
            match done {
                Ok(_) => assembled(
                    *old(target),
                    lines(source@),
                    lines(source@).len() as int,
                    float,
                    *final(target),
                ),
                Err(SimpleParserError(number, flaw)) => {
                    &&& 1 <= number <= lines(source@).len()
                    &&& assembled(*old(target), lines(source@), number - 1, float, *final(target))
                    &&& classify(lines(source@)[number - 1]) matches LineKind::Code(line)
                        && reads_instruction(float, Seq::empty(), false, line, Err(flaw@))
                },
            },
    {
        let chars = chars_of(source);
        let ranges = line_ranges(chars.as_slice());
        let tags = Tags::new();
        let ghost found = lines(source@);
        let ghost before = *target;
        let mut i: usize = 0;
        proof {
            assert(found.take(0) =~= Seq::<Seq<char>>::empty());
            assert(target.static_data@ + data_of(found.take(0)) =~= target.static_data@);
            assert(target.static_data_meta@ + meta_of(found.take(0), target.static_data@.len())
                =~= target.static_data_meta@);
            assert(target.instructions@.subrange(0, target.instructions@.len() as int)
                =~= target.instructions@);
        }
        while i < ranges.len()
            invariant
                i <= ranges@.len() == found.len(),
                before == *old(target),
                chars@ == source@,
                found == lines(source@),
                tags@ == Seq::<(Seq<char>, Tag)>::empty(),
                forall|word: &str| float.requires((word,)),
                forall|k: int|
                    0 <= k < ranges@.len() ==> {
                        &&& (#[trigger] ranges@[k]).0 <= ranges@[k].1 <= chars@.len()
                        &&& chars@.subrange(ranges@[k].0 as int, ranges@[k].1 as int) == found[k]
                    },
                assembled(before, found, i as int, float, *target),
            decreases ranges@.len() - i,
        {
            let (start, end) = ranges[i];
            let raw = slice_subrange(chars.as_slice(), start, end);
            let lead = count_lead(raw);
            let rest = slice_subrange(raw, lead, raw.len());
            let trail = count_trail(rest);
            let from = start + lead;
            let to = end - trail;
            let ghost done = found.take(i as int);
            let ghost next = found.take(i + 1);
            let ghost line = trim(found[i as int]);
            let ghost base = before.instructions@.len();
            proof {
                assert(next.drop_last() =~= done);
                assert(next.last() == found[i as int]);
                assert(chars@.subrange(from as int, to as int) =~= line);
            }
            if from == to || chars[from] == ';' {
                proof {
                    assert(target.static_data@ + Seq::<u8>::empty() =~= target.static_data@);
                    assert(before.static_data@ + data_of(next) =~= target.static_data@);
                }
            } else if chars[from] == '#' {
                let payload = piece(source, from + 1, to);
                let bytes = payload.as_str().as_bytes();
                let begin = target.static_data.len();
                let ghost held = target.static_data@;
                let ghost listed = target.static_data_meta@;
                target.static_data.extend_from_slice(bytes);
                target.static_data_meta.push((begin, bytes.len()));
                proof {
                    assert(payload@ =~= line.drop_first());
                    assert(target.static_data@ =~= held + bytes@);
                    assert(before.static_data@ + data_of(next) =~= target.static_data@);
                    assert(before.static_data_meta@ + meta_of(next, before.static_data@.len())
                        =~= target.static_data_meta@);
                }
            } else {
                let ghost listed = target.instructions@;
                match parse_instruction(source, chars.as_slice(), from, to, &tags, false, &float) {
                    Ok(instruction) => {
                        target.instructions.push(instruction);
                        proof {
                            let code = code_of(next);
                            assert(code =~= code_of(done).push(line));
                            assert(target.static_data@ + Seq::<u8>::empty()
                                =~= target.static_data@);
                            assert(before.static_data@ + data_of(next) =~= target.static_data@);
                            assert(target.instructions@.subrange(0, base as int)
                                =~= listed.subrange(0, base as int));
                            assert forall|k: int| 0 <= k < code.len() implies reads_instruction(
                                float,
                                Seq::empty(),
                                false,
                                #[trigger] code[k],
                                Ok(target.instructions@[base + k]),
                            ) by {
                                if k < code_of(done).len() {
                                    assert(code[k] == code_of(done)[k]);
                                    assert(target.instructions@[base + k] == listed[base + k]);
                                }
                            }
                        }
                    },
                    Err(flaw) => {
                        proof {
                            lemma_plain_flaws(float, tags@, line, flaw@);
                        }
                        return Err(SimpleParserError(i + 1, plain_flaw(flaw)));
                    },
                }
            }
            i += 1;
        }
        proof {
            assert(found.take(i as int) =~= found);
        }
        Ok(())
    }
}

} // verus!
