//! Assembly text: what the two dialects share. A line of code is an
//! operation name and up to two operands, separated by blanks.
//!
//! Floating-point literals are read by the caller's `float`, which takes a
//! word and returns the bit pattern of the number it spells, if it spells
//! one.

pub mod simple;
pub mod simple_v2;

pub use self::simple as v1;
pub use self::simple_v2 as v2;

use vstd::prelude::*;
use vstd::slice::slice_subrange;
use crate::text::i64_of;
use crate::text::parse_i64;
use crate::text::piece;
use crate::text::same;
use crate::text::word_ranges;
use crate::text::words;
use crate::vm::program::Instruction;
use crate::vm::program::InstructionParam;
use crate::vm::program::Opcode;
use crate::vm::program::Program;

verus! {

/// A reader of assembly text.
pub trait Parser {
    type Err;

    /// Adds what `source` holds to `target`. `float` reads the
    /// floating-point literals.
    fn parse<F: Fn(&str) -> Option<u64>>(target: &mut Program, source: &str, float: F) -> (done:
        Result<(), Self::Err>)
        requires
            forall|word: &str| float.requires((word,)),
    ;
}

/// What a name in assembly text stands for.
#[derive(Clone, Copy, Debug, PartialEq, Eq, Structural)]
pub enum Tag {
    /// A blob of static data: where it starts and how many bytes it holds.
    Memory { address: usize, size: usize },
    /// An instruction: its index.
    Instruction { line: usize },
}

/// What is wrong with a line of code.
#[derive(Debug)]
pub enum Flaw {
    /// A word is no operand.
    OperandInvalidSyntax,
    /// A referred name is not defined; the name.
    BadTagNotFound(String),
    /// The size or end of an instruction was asked for; the name.
    InstructionBadTag(String),
    /// The line has no word or more than three; the line.
    BadLineSyntax(String),
    /// The first word names no operation.
    OpcodeNotFound,
}

/// A [`Flaw`] with its text as characters.
pub enum FlawView {
    OperandInvalidSyntax,
    BadTagNotFound(Seq<char>),
    InstructionBadTag(Seq<char>),
    BadLineSyntax(Seq<char>),
    OpcodeNotFound,
}

impl View for Flaw {
    type V = FlawView;

    open spec fn view(&self) -> FlawView {
        match self {
            Flaw::OperandInvalidSyntax => FlawView::OperandInvalidSyntax,
            Flaw::BadTagNotFound(name) => FlawView::BadTagNotFound(name@),
            Flaw::InstructionBadTag(name) => FlawView::InstructionBadTag(name@),
            Flaw::BadLineSyntax(line) => FlawView::BadLineSyntax(line@),
            Flaw::OpcodeNotFound => FlawView::OpcodeNotFound,
        }
    }
}

/// A result with the flaw, if it is one, as characters.
pub open spec fn seen<T>(out: Result<T, Flaw>) -> Result<T, FlawView> {
    match out {
        Ok(value) => Ok(value),
        Err(flaw) => Err(flaw@),
    }
}

/// What `name` stands for after the definitions `tags`, of which a later
/// one replaces an earlier one of the same name.
pub open spec fn lookup(tags: Seq<(Seq<char>, Tag)>, name: Seq<char>) -> Option<Tag>
    decreases tags.len(),
{
    if tags.len() == 0 {
        None
    } else if tags.last().0 == name {
        Some(tags.last().1)
    } else {
        lookup(tags.drop_last(), name)
    }
}

/// The names defined so far in a text.
pub struct Tags {
    entries: Vec<(Vec<char>, Tag)>,
}

impl View for Tags {
    type V = Seq<(Seq<char>, Tag)>;

    /// The definitions in the order in which they were made.
    closed spec fn view(&self) -> Seq<(Seq<char>, Tag)> {
        Seq::new(self.entries@.len(), |i: int| (self.entries@[i].0@, self.entries@[i].1))
    }
}

impl Tags {
    /// No definitions.
    pub fn new() -> (tags: Tags)
        ensures
            tags@ == Seq::<(Seq<char>, Tag)>::empty(),
    {
        let tags = Tags { entries: Vec::new() };
        assert(tags@ =~= Seq::<(Seq<char>, Tag)>::empty());
        tags
    }

    /// Defines `name` as `tag`.
    pub fn insert(&mut self, name: Vec<char>, tag: Tag)
        ensures
            final(self)@ == old(self)@.push((name@, tag)),
    {
        self.entries.push((name, tag));
        assert(self@ =~= old(self)@.push((name@, tag)));
    }

    /// What `name` stands for, see [`lookup`].
    pub fn get(&self, name: &[char]) -> (found: Option<Tag>)
        ensures
            found == lookup(self@, name@),
    {
        let mut i: usize = self.entries.len();
        assert(self@.subrange(0, i as int) =~= self@);
        while i > 0
            invariant
                i <= self.entries@.len(),
                lookup(self@, name@) == lookup(self@.subrange(0, i as int), name@),
            decreases i,
        {
            i -= 1;
            assert(self@.subrange(0, i + 1).drop_last() =~= self@.subrange(0, i as int));
            if same(self.entries[i].0.as_slice(), name) {
                return Some(self.entries[i].1);
            }
        }
        None
    }
}

/// Whether a word refers to a name: it starts with `$`, `@` or `^`.
pub open spec fn refers(word: Seq<char>) -> bool {
    word.len() > 0 && (word[0] == '$' || word[0] == '@' || word[0] == '^')
}

/// What a reference stands for: `$` gives the address of a blob or the
/// index of an instruction, `@` the size of a blob, `^` the address just
/// past a blob.
pub open spec fn referred(tags: Seq<(Seq<char>, Tag)>, word: Seq<char>) -> Result<
    Option<InstructionParam>,
    FlawView,
> {
    let name = word.drop_first();
    match lookup(tags, name) {
        None => Err(FlawView::BadTagNotFound(name)),
        Some(Tag::Memory { address, size }) => if word[0] == '$' {
            Ok(Some(InstructionParam::Int(address as i64)))
        } else if word[0] == '@' {
            Ok(Some(InstructionParam::Int(size as i64)))
        } else {
            Ok(Some(InstructionParam::Int((address + size) as i64)))
        },
        Some(Tag::Instruction { line }) => if word[0] == '$' {
            Ok(Some(InstructionParam::Int(line as i64)))
        } else {
            Err(FlawView::InstructionBadTag(name))
        },
    }
}

/// Whether `out` is a reading of `word` as an operand. With `sigils` a
/// reference stands for what it refers to. Otherwise `_` is the empty
/// slot and a decimal integer is itself; of any other word `float`
/// decides, and the word is no operand if `float` returns nothing.
pub open spec fn reads_operand<F: Fn(&str) -> Option<u64>>(
    float: F,
    tags: Seq<(Seq<char>, Tag)>,
    sigils: bool,
    word: Seq<char>,
    out: Result<Option<InstructionParam>, FlawView>,
) -> bool {
    if sigils && refers(word) {
        out == referred(tags, word)
    } else if word == seq!['_'] {
        out == Ok::<Option<InstructionParam>, FlawView>(None)
    } else {
        match i64_of(word) {
            Some(value) => out == Ok::<Option<InstructionParam>, FlawView>(
                Some(InstructionParam::Int(value)),
            ),
            None => exists|text: &str, bits: Option<u64>|
                text@ == word && #[trigger] float.ensures((text,), bits) && out == (match bits {
                    Some(pattern) => Ok(Some(InstructionParam::Float(pattern))),
                    None => Err(FlawView::OperandInvalidSyntax),
                }),
        }
    }
}

/// Whether `out` is a reading of `line` as an instruction: the first word
/// names the operation, the second and third are its operands. The name is
/// looked at first, then the operands in their order; the first flaw ends
/// the reading.
pub open spec fn reads_instruction<F: Fn(&str) -> Option<u64>>(
    float: F,
    tags: Seq<(Seq<char>, Tag)>,
    sigils: bool,
    line: Seq<char>,
    out: Result<Instruction, FlawView>,
) -> bool {
    let found = words(line);
    if found.len() == 0 || found.len() > 3 {
        out == Err::<Instruction, FlawView>(FlawView::BadLineSyntax(line))
    } else {
        match Opcode::named(found[0]) {
            None => out == Err::<Instruction, FlawView>(FlawView::OpcodeNotFound),
            Some(opcode) => if found.len() == 1 {
                out == Ok::<Instruction, FlawView>(Instruction(opcode, None, None))
            } else {
                exists|first: Result<Option<InstructionParam>, FlawView>|
                    #[trigger] reads_operand(float, tags, sigils, found[1], first) && (match first {
                        Err(flaw) => out == Err::<Instruction, FlawView>(flaw),
                        Ok(a) => if found.len() == 2 {
                            out == Ok::<Instruction, FlawView>(Instruction(opcode, a, None))
                        } else {
                            exists|second: Result<Option<InstructionParam>, FlawView>|
                                #[trigger] reads_operand(float, tags, sigils, found[2], second)
                                    && (match second {
                                    Err(flaw) => out == Err::<Instruction, FlawView>(flaw),
                                    Ok(b) => out == Ok::<Instruction, FlawView>(
                                        Instruction(opcode, a, b),
                                    ),
                                })
                        },
                    })
            },
        }
    }
}

/// Reads the word of `source` from character `from` to character `to` as
/// an operand, see [`reads_operand`].
pub fn parse_operand<F: Fn(&str) -> Option<u64>>(
    source: &str,
    chars: &[char],
    from: usize,
    to: usize,
    tags: &Tags,
    sigils: bool,
    float: &F,
) -> (out: Result<Option<InstructionParam>, Flaw>)
    requires
        chars@ == source@,
        from <= to <= chars@.len(),
        forall|word: &str| float.requires((word,)),
    ensures
        reads_operand(*float, tags@, sigils, chars@.subrange(from as int, to as int), seen(out)),
{
    let word = slice_subrange(chars, from, to);
    if sigils && word.len() > 0 && (word[0] == '$' || word[0] == '@' || word[0] == '^') {
        let name = slice_subrange(word, 1, word.len());
        assert(name@ =~= word@.drop_first());
        assert(name@ =~= source@.subrange(from + 1, to as int));
        match tags.get(name) {
            None => Err(Flaw::BadTagNotFound(piece(source, from + 1, to))),
            Some(Tag::Memory { address, size }) => {
                if word[0] == '$' {
                    Ok(Some(InstructionParam::Int(#[verifier::truncate] (address as i64))))
                } else if word[0] == '@' {
                    Ok(Some(InstructionParam::Int(#[verifier::truncate] (size as i64))))
                } else {
                    let end = #[verifier::truncate] ((address as u128 + size as u128) as i64);
                    assert(end == (address + size) as i64);
                    Ok(Some(InstructionParam::Int(end)))
                }
            },
            Some(Tag::Instruction { line }) => {
                if word[0] == '$' {
                    Ok(Some(InstructionParam::Int(#[verifier::truncate] (line as i64))))
                } else {
                    Err(Flaw::InstructionBadTag(piece(source, from + 1, to)))
                }
            },
        }
    } else if word.len() == 1 && word[0] == '_' {
        assert(word@ =~= seq!['_']);
        Ok(None)
    } else {
        match parse_i64(word) {
            Some(value) => Ok(Some(InstructionParam::Int(value))),
            None => {
                let text = piece(source, from, to);
                let bits = float(text.as_str());
                match bits {
                    Some(pattern) => Ok(Some(InstructionParam::Float(pattern))),
                    None => Err(Flaw::OperandInvalidSyntax),
                }
            },
        }
    }
}

/// Reads the line of `source` from character `from` to character `to` as
/// an instruction, see [`reads_instruction`].
pub fn parse_instruction<F: Fn(&str) -> Option<u64>>(
    source: &str,
    chars: &[char],
    from: usize,
    to: usize,
    tags: &Tags,
    sigils: bool,
    float: &F,
) -> (out: Result<Instruction, Flaw>)
    requires
        chars@ == source@,
        from <= to <= chars@.len(),
        forall|word: &str| float.requires((word,)),
    ensures
        reads_instruction(*float, tags@, sigils, chars@.subrange(from as int, to as int), seen(out)),
{
    let line = slice_subrange(chars, from, to);
    let found = word_ranges(line);
    if found.len() == 0 || found.len() > 3 {
        return Err(Flaw::BadLineSyntax(piece(source, from, to)));
    }
    let name = piece(source, from + found[0].0, from + found[0].1);
    assert(name@ =~= words(line@)[0]);
    let opcode = match Opcode::from_name(name.as_str()) {
        Some(opcode) => opcode,
        None => {
            return Err(Flaw::OpcodeNotFound);
        },
    };
    if found.len() == 1 {
        return Ok(Instruction(opcode, None, None));
    }
    let first = parse_operand(
        source,
        chars,
        from + found[1].0,
        from + found[1].1,
        tags,
        sigils,
        float,
    );
    assert(chars@.subrange(from + found[1].0, from + found[1].1) =~= words(line@)[1]);
    let a = match first {
        Ok(a) => a,
        Err(flaw) => {
            return Err(flaw);
        },
    };
    if found.len() == 2 {
        return Ok(Instruction(opcode, a, None));
    }
    let second = parse_operand(
        source,
        chars,
        from + found[2].0,
        from + found[2].1,
        tags,
        sigils,
        float,
    );
    assert(chars@.subrange(from + found[2].0, from + found[2].1) =~= words(line@)[2]);
    match second {
        Ok(b) => Ok(Instruction(opcode, a, b)),
        Err(flaw) => Err(flaw),
    }
}

} // verus!
