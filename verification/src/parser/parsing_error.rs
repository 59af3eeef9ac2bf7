//! The one error type of the crate: what went wrong, where, and what bytes
//! followed.

use vstd::prelude::*;
use crate::parser::byte_parser::ByteParser;
use crate::parser::byte_source::ByteSource;
use crate::parser::byte_source::window;
use crate::parser::number::decimal_digits;
use crate::parser::number::push_decimal;
use vstd::string::*;

verus! {

/// How many bytes of context an error captures.
pub const DEFAULT_CONTEXT_LENGTH: usize = 50;

/// What went wrong.
#[derive(PartialEq, Debug, Clone)]
pub enum ParsingErrorType {
    /// The input could not be read.
    IoError(String),
    /// The input ended inside a construct.
    UnexpectedEOF,
    /// The file does not open with the format header.
    MissingNexusHeader,
    /// A block header holds no readable name.
    InvalidBlockName,
    /// The taxon block is malformed.
    InvalidTaxaBlock(String),
    /// The tree block is malformed.
    InvalidTreesBlock(String),
    /// The translation table is malformed or disagrees with the taxon list.
    InvalidTranslateCommand,
    /// A comment is opened and never closed.
    UnclosedComment,
    /// A tree is malformed.
    InvalidNewickString(String),
    /// The input breaks the block structure.
    InvalidFormatting,
    /// A tip label names no taxon.
    UnresolvedLabel(String),
    /// A tree builder was used before it was prepared.
    BuilderNotInitialized,
    /// A finished tree breaks the arena's rules.
    InvalidTreeStructure,
}

/// The mathematical content of a `ParsingErrorType`.
pub ghost enum ErrorKind {
    IoError(Seq<char>),
    UnexpectedEOF,
    MissingNexusHeader,
    InvalidBlockName,
    InvalidTaxaBlock(Seq<char>),
    InvalidTreesBlock(Seq<char>),
    InvalidTranslateCommand,
    UnclosedComment,
    InvalidNewickString(Seq<char>),
    InvalidFormatting,
    UnresolvedLabel(Seq<char>),
    BuilderNotInitialized,
    InvalidTreeStructure,
}

impl View for ParsingErrorType {
    type V = ErrorKind;

    open spec fn view(&self) -> ErrorKind {
        match self {
            ParsingErrorType::IoError(m) => ErrorKind::IoError(m@),
            ParsingErrorType::UnexpectedEOF => ErrorKind::UnexpectedEOF,
            ParsingErrorType::MissingNexusHeader => ErrorKind::MissingNexusHeader,
            ParsingErrorType::InvalidBlockName => ErrorKind::InvalidBlockName,
            ParsingErrorType::InvalidTaxaBlock(m) => ErrorKind::InvalidTaxaBlock(m@),
            ParsingErrorType::InvalidTreesBlock(m) => ErrorKind::InvalidTreesBlock(m@),
            ParsingErrorType::InvalidTranslateCommand => ErrorKind::InvalidTranslateCommand,
            ParsingErrorType::UnclosedComment => ErrorKind::UnclosedComment,
            ParsingErrorType::InvalidNewickString(m) => ErrorKind::InvalidNewickString(m@),
            ParsingErrorType::InvalidFormatting => ErrorKind::InvalidFormatting,
            ParsingErrorType::UnresolvedLabel(m) => ErrorKind::UnresolvedLabel(m@),
            ParsingErrorType::BuilderNotInitialized => ErrorKind::BuilderNotInitialized,
            ParsingErrorType::InvalidTreeStructure => ErrorKind::InvalidTreeStructure,
        }
    }
}

/// The mathematical content of a `ParsingError`.
pub ghost struct ErrorModel {
    pub kind: ErrorKind,
    pub position: usize,
    pub context: Seq<char>,
}

/// The text that lossy UTF-8 decoding makes of `bytes`.
pub uninterp spec fn lossy_text(bytes: Seq<u8>) -> Seq<char>;

/// Whether every byte of `bytes` is an ASCII code.
pub open spec fn all_ascii(bytes: Seq<u8>) -> bool {
    forall|i: int| 0 <= i < bytes.len() ==> #[trigger] bytes[i] < 128
}

/// Decodes `bytes` with `String::from_utf8_lossy`, which keeps valid UTF-8 as
/// it is and puts the replacement character for every invalid sequence. The
/// contract names the result and states it in full for ASCII input, where
/// every byte is the character of the same code.
#[verifier::external_body]
pub(crate) fn lossy_string(bytes: &Vec<u8>) -> (r: String)
    ensures
        r@ == lossy_text(bytes@),
        all_ascii(bytes@) ==> r@ == Seq::new(bytes@.len(), |i: int| bytes@[i] as char),
{
    String::from_utf8_lossy(bytes.as_slice()).into_owned()
}

/// The error of kind `kind` raised at offset `pos` of `bytes`.
pub open spec fn error_at(kind: ErrorKind, bytes: Seq<u8>, pos: usize) -> ErrorModel {
    ErrorModel {
        kind,
        position: pos,
        context: lossy_text(window(bytes, pos as int, DEFAULT_CONTEXT_LENGTH as int)),
    }
}

/// A failure with its kind, the byte offset at which it was raised and the
/// bytes that followed that offset.
#[derive(Debug)]
pub struct ParsingError {
    kind: ParsingErrorType,
    position: usize,
    context: String,
}

impl View for ParsingError {
    type V = ErrorModel;

    closed spec fn view(&self) -> ErrorModel {
        ErrorModel { kind: self.kind@, position: self.position, context: self.context@ }
    }
}

impl ParsingError {
    /// An error of kind `kind` at the parser's position, with the bytes that
    /// follow it as context.
    pub fn from_parser<S: ByteSource>(kind: ParsingErrorType, parser: &mut ByteParser<S>) -> (r:
        Self)
        ensures
            final(parser).spec_bytes() == old(parser).spec_bytes(),
            final(parser).spec_position() == old(parser).spec_position(),
            r@ == error_at(kind@, old(parser).spec_bytes(), old(parser).spec_position()),
    {
        let position: usize = parser.position();
        let context = parser.get_context_as_string(DEFAULT_CONTEXT_LENGTH);
        ParsingError { kind, position, context }
    }

    /// The input ended inside a construct.
    pub fn unexpected_eof<S: ByteSource>(parser: &mut ByteParser<S>) -> (r: Self)
        ensures
            final(parser).spec_bytes() == old(parser).spec_bytes(),
            final(parser).spec_position() == old(parser).spec_position(),
            r@ == error_at(
                ErrorKind::UnexpectedEOF,
                old(parser).spec_bytes(),
                old(parser).spec_position(),
            ),
    {
        Self::from_parser(ParsingErrorType::UnexpectedEOF, parser)
    }

    /// The file does not open with the format header.
    pub fn missing_nexus_header<S: ByteSource>(parser: &mut ByteParser<S>) -> (r: Self)
        ensures
            final(parser).spec_bytes() == old(parser).spec_bytes(),
            final(parser).spec_position() == old(parser).spec_position(),
            r@ == error_at(
                ErrorKind::MissingNexusHeader,
                old(parser).spec_bytes(),
                old(parser).spec_position(),
            ),
    {
        Self::from_parser(ParsingErrorType::MissingNexusHeader, parser)
    }

    /// A block header holds no readable name.
    pub fn invalid_block_name<S: ByteSource>(parser: &mut ByteParser<S>) -> (r: Self)
        ensures
            final(parser).spec_bytes() == old(parser).spec_bytes(),
            final(parser).spec_position() == old(parser).spec_position(),
            r@ == error_at(
                ErrorKind::InvalidBlockName,
                old(parser).spec_bytes(),
                old(parser).spec_position(),
            ),
    {
        Self::from_parser(ParsingErrorType::InvalidBlockName, parser)
    }

    /// The taxon block is malformed, as `msg` says.
    pub fn invalid_taxa_block<S: ByteSource>(parser: &mut ByteParser<S>, msg: String) -> (r: Self)
        ensures
            final(parser).spec_bytes() == old(parser).spec_bytes(),
            final(parser).spec_position() == old(parser).spec_position(),
            r@ == error_at(
                ErrorKind::InvalidTaxaBlock(msg@),
                old(parser).spec_bytes(),
                old(parser).spec_position(),
            ),
    {
        Self::from_parser(ParsingErrorType::InvalidTaxaBlock(msg), parser)
    }

    /// The tree block is malformed, as `msg` says.
    pub fn invalid_trees_block<S: ByteSource>(parser: &mut ByteParser<S>, msg: String) -> (r: Self)
        ensures
            final(parser).spec_bytes() == old(parser).spec_bytes(),
            final(parser).spec_position() == old(parser).spec_position(),
            r@ == error_at(
                ErrorKind::InvalidTreesBlock(msg@),
                old(parser).spec_bytes(),
                old(parser).spec_position(),
            ),
    {
        Self::from_parser(ParsingErrorType::InvalidTreesBlock(msg), parser)
    }

    /// The translation table is malformed or disagrees with the taxon list.
    pub fn invalid_translate_command<S: ByteSource>(parser: &mut ByteParser<S>) -> (r: Self)
        ensures
            final(parser).spec_bytes() == old(parser).spec_bytes(),
            final(parser).spec_position() == old(parser).spec_position(),
            r@ == error_at(
                ErrorKind::InvalidTranslateCommand,
                old(parser).spec_bytes(),
                old(parser).spec_position(),
            ),
    {
        Self::from_parser(ParsingErrorType::InvalidTranslateCommand, parser)
    }

    /// A comment is opened and never closed.
    pub fn unclosed_comment<S: ByteSource>(parser: &mut ByteParser<S>) -> (r: Self)
        ensures
            final(parser).spec_bytes() == old(parser).spec_bytes(),
            final(parser).spec_position() == old(parser).spec_position(),
            r@ == error_at(
                ErrorKind::UnclosedComment,
                old(parser).spec_bytes(),
                old(parser).spec_position(),
            ),
    {
        Self::from_parser(ParsingErrorType::UnclosedComment, parser)
    }

    /// A tree is malformed, as `msg` says.
    pub fn invalid_newick_string<S: ByteSource>(parser: &mut ByteParser<S>, msg: String) -> (r:
        Self)
        ensures
            final(parser).spec_bytes() == old(parser).spec_bytes(),
            final(parser).spec_position() == old(parser).spec_position(),
            r@ == error_at(
                ErrorKind::InvalidNewickString(msg@),
                old(parser).spec_bytes(),
                old(parser).spec_position(),
            ),
    {
        Self::from_parser(ParsingErrorType::InvalidNewickString(msg), parser)
    }

    /// The input breaks the block structure.
    pub fn invalid_formatting<S: ByteSource>(parser: &mut ByteParser<S>) -> (r: Self)
        ensures
            final(parser).spec_bytes() == old(parser).spec_bytes(),
            final(parser).spec_position() == old(parser).spec_position(),
            r@ == error_at(
                ErrorKind::InvalidFormatting,
                old(parser).spec_bytes(),
                old(parser).spec_position(),
            ),
    {
        Self::from_parser(ParsingErrorType::InvalidFormatting, parser)
    }

    /// A tip label names no taxon, as `msg` says.
    pub fn unresolved_label<S: ByteSource>(parser: &mut ByteParser<S>, msg: String) -> (r: Self)
        ensures
            final(parser).spec_bytes() == old(parser).spec_bytes(),
            final(parser).spec_position() == old(parser).spec_position(),
            r@ == error_at(
                ErrorKind::UnresolvedLabel(msg@),
                old(parser).spec_bytes(),
                old(parser).spec_position(),
            ),
    {
        Self::from_parser(ParsingErrorType::UnresolvedLabel(msg), parser)
    }

    /// An error of kind `kind` that belongs to no place in any input.
    pub fn without_context(kind: ParsingErrorType) -> (r: Self)
        ensures
            r@ == (ErrorModel { kind: kind@, position: 0, context: Seq::empty() }),
    {
        ParsingError { kind, position: 0, context: String::new() }
    }

    /// What went wrong.
    pub fn kind(&self) -> (r: &ParsingErrorType)
        ensures
            r@ == self@.kind,
    {
        &self.kind
    }

    /// The byte offset at which the error was raised.
    pub fn position(&self) -> (r: usize)
        ensures
            r == self@.position,
    {
        self.position
    }

    /// The bytes that followed the error's offset, decoded as text.
    pub fn context(&self) -> (r: &String)
        ensures
            r@ == self@.context,
    {
        &self.context
    }

    /// The error in words: what went wrong, the position, and the context
    /// where there is one.
    pub fn message(&self) -> (r: String)
        ensures
            r@ == error_text(self@),
    {
        let mut text = match &self.kind {
            ParsingErrorType::MissingNexusHeader => String::from_str(
                "File does not start with #NEXUS header",
            ),
            ParsingErrorType::InvalidTaxaBlock(msg) => {
                let mut t = String::from_str("Invalid TAXA block format - ");
                t.append(msg.as_str());
                t
            },
            ParsingErrorType::InvalidTreesBlock(msg) => {
                let mut t = String::from_str("Invalid TREES block format - ");
                t.append(msg.as_str());
                t
            },
            ParsingErrorType::InvalidTranslateCommand => String::from_str(
                "Invalid TRANSLATE command - likely inconsistent with TAXA block",
            ),
            ParsingErrorType::UnclosedComment => String::from_str("Unclosed comment"),
            ParsingErrorType::InvalidBlockName => String::from_str("Invalid block name"),
            ParsingErrorType::InvalidNewickString(msg) => {
                let mut t = String::from_str("Invalid newick string: ");
                t.append(msg.as_str());
                t
            },
            ParsingErrorType::UnexpectedEOF => String::from_str("Unexpected end of file"),
            ParsingErrorType::InvalidFormatting => String::from_str("Invalid formatting"),
            ParsingErrorType::UnresolvedLabel(msg) => {
                let mut t = String::from_str("Could not resolve label - ");
                t.append(msg.as_str());
                t
            },
            ParsingErrorType::BuilderNotInitialized => String::from_str("Builder not initialized"),
            ParsingErrorType::InvalidTreeStructure => String::from_str("Invalid tree structure"),
            ParsingErrorType::IoError(msg) => {
                let mut t = String::from_str("IO error - ");
                t.append(msg.as_str());
                t
            },
        };
        assert(text@ == kind_text(self@.kind));
        text.append(" at position ");
        push_decimal(&mut text, self.position);
        let ghost head = text@;
        assert(head =~= kind_text(self@.kind) + " at position "@ + decimal_digits(
            self@.position as nat,
        ));
        if !self.context.as_str().is_empty() {
            let length: usize = self.context.as_str().as_bytes().len();
            assert(length == vstd::utf8::encode_utf8(self@.context).len());
            text.append("\n  Context (next ");
            push_decimal(&mut text, length);
            text.append(" bytes): ");
            text.append(self.context.as_str());
            assert(text@ =~= head + "\n  Context (next "@ + decimal_digits(length as nat)
                + " bytes): "@ + self@.context);
        }
        text
    }
}

/// What went wrong, in words.
pub open spec fn kind_text(kind: ErrorKind) -> Seq<char> {
    match kind {
        ErrorKind::MissingNexusHeader => "File does not start with #NEXUS header"@,
        ErrorKind::InvalidTaxaBlock(msg) => "Invalid TAXA block format - "@ + msg,
        ErrorKind::InvalidTreesBlock(msg) => "Invalid TREES block format - "@ + msg,
        ErrorKind::InvalidTranslateCommand =>
            "Invalid TRANSLATE command - likely inconsistent with TAXA block"@,
        ErrorKind::UnclosedComment => "Unclosed comment"@,
        ErrorKind::InvalidBlockName => "Invalid block name"@,
        ErrorKind::InvalidNewickString(msg) => "Invalid newick string: "@ + msg,
        ErrorKind::UnexpectedEOF => "Unexpected end of file"@,
        ErrorKind::InvalidFormatting => "Invalid formatting"@,
        ErrorKind::UnresolvedLabel(msg) => "Could not resolve label - "@ + msg,
        ErrorKind::BuilderNotInitialized => "Builder not initialized"@,
        ErrorKind::InvalidTreeStructure => "Invalid tree structure"@,
        ErrorKind::IoError(msg) => "IO error - "@ + msg,
    }
}

/// An error in words: what went wrong, the position, and the context with
/// its length in bytes where there is one.
pub open spec fn error_text(e: ErrorModel) -> Seq<char> {
    let head = kind_text(e.kind) + " at position "@ + decimal_digits(e.position as nat);
    if e.context.len() == 0 {
        head
    } else {
        head + "\n  Context (next "@ + decimal_digits(vstd::utf8::encode_utf8(e.context).len())
            + " bytes): "@ + e.context
    }
}

} // verus!
