//! Reading the blocks of a NEXUS file: the header, the taxon block and the
//! head of the tree block.

use vstd::prelude::*;
use crate::model::label_storage::LabelStorage;
use vstd::string::*;
use crate::model::translation::Translation;
use crate::model::tree_builder::TreeBuilder;
use crate::nexus::defs::NexusBlock;
use crate::nexus::defs::block_begin;
use crate::nexus::defs::block_end;
use crate::nexus::defs::dimensions;
use crate::nexus::defs::end_word;
use crate::nexus::defs::nexus_delimiters;
use crate::nexus::defs::nexus_header;
use crate::nexus::defs::nexus_label_delimiters;
use crate::nexus::defs::ntax;
use crate::nexus::defs::taxlabels;
use crate::nexus::defs::translate;
use crate::nexus::defs::tree;
use crate::nexus::grammar::Detected;
use crate::nexus::grammar::Dimension;
use crate::nexus::grammar::Seek;
use crate::nexus::grammar::Taxa;
use crate::nexus::grammar::Translated;
use crate::nexus::grammar::semicolon;
use crate::nexus::grammar::spec_block_end;
use crate::nexus::grammar::spec_detect;
use crate::nexus::grammar::spec_header;
use crate::nexus::grammar::spec_label_list;
use crate::nexus::grammar::spec_ntax;
use crate::nexus::grammar::spec_pairs;
use crate::nexus::grammar::spec_seek_block;
use crate::nexus::grammar::spec_taxa_block;
use crate::nexus::grammar::spec_taxlabels;
use crate::nexus::grammar::spec_translate;
use crate::parser::byte_parser::ByteParser;
use crate::parser::byte_parser::ConsumeMode;
use crate::parser::byte_source::ByteSource;
use crate::parser::number::parse_unsigned;
use crate::parser::number::push_decimal;
use crate::parser::parsing_error::ParsingError;
use crate::parser::scan::Stop;
use crate::parser::scan::lemma_blank_end;
use crate::parser::scan::lemma_find_sequence;
use crate::parser::scan::lemma_first_where;
use crate::parser::scan::lemma_label_at;

verus! {

/// Reads the file header, `#NEXUS` in any case, after blanks.
pub fn parse_nexus_header<B: ByteSource>(parser: &mut ByteParser<B>) -> (r: Result<
    (),
    ParsingError,
>)
    ensures
        final(parser).spec_bytes() == old(parser).spec_bytes(),
        match spec_header(old(parser).spec_bytes(), old(parser).spec_position() as int) {
            Seek::At(end) => r is Ok && final(parser).spec_position() == end,
            Seek::Failed(e) => r matches Err(x) && x@ == e,
        },
{
    proof {
        parser.lemma_bytes_fit();
    }
    match parser.skip_comment_and_whitespace() {
        Ok(()) => {},
        Err(e) => {
            return Err(e);
        },
    }
    let word = nexus_header();
    if !parser.consume_if_sequence(word.as_slice()) {
        return Err(ParsingError::missing_nexus_header(parser));
    }
    Ok(())
}

/// Moves behind the next `End;`, in any case. Fails at the end of the input
/// when there is none.
pub fn skip_to_block_end<B: ByteSource>(parser: &mut ByteParser<B>) -> (r: Result<
    (),
    ParsingError,
>)
    ensures
        final(parser).spec_bytes() == old(parser).spec_bytes(),
        match spec_block_end(old(parser).spec_bytes(), old(parser).spec_position() as int) {
            Seek::At(end) => r is Ok && final(parser).spec_position() == end
                && old(parser).spec_position() < end <= old(parser).spec_bytes().len(),
            Seek::Failed(e) => r matches Err(x) && x@ == e,
        },
{
    proof {
        parser.lemma_bytes_fit();
        lemma_find_sequence(parser.spec_bytes(), parser.spec_position() as int, end_word());
    }
    let word = block_end();
    if !parser.consume_until_sequence(word.as_slice(), ConsumeMode::Inclusive) {
        return Err(ParsingError::unexpected_eof(parser));
    }
    Ok(())
}

/// Reads a block header, `Begin <name>;`, and tells the kind of the block.
pub fn detect_next_block<B: ByteSource>(parser: &mut ByteParser<B>) -> (r: Result<
    NexusBlock,
    ParsingError,
>)
    ensures
        final(parser).spec_bytes() == old(parser).spec_bytes(),
        match spec_detect(old(parser).spec_bytes(), old(parser).spec_position() as int) {
            Detected::Block(kind, body) => r matches Ok(block) && block@ == kind && final(parser).spec_position() == body && old(parser).spec_position() < body,
            Detected::Failed(e) => r matches Err(x) && x@ == e,
        },
{
    let ghost bytes = parser.spec_bytes();
    proof {
        parser.lemma_bytes_fit();
        lemma_blank_end(bytes, parser.spec_position() as int);
    }
    match parser.skip_comment_and_whitespace() {
        Ok(()) => {},
        Err(e) => {
            return Err(e);
        },
    }
    let word = block_begin();
    if !parser.consume_if_sequence(word.as_slice()) {
        return Err(ParsingError::invalid_formatting(parser));
    }
    proof {
        lemma_blank_end(bytes, parser.spec_position() as int);
    }
    match parser.skip_comment_and_whitespace() {
        Ok(()) => {},
        Err(e) => {
            return Err(e);
        },
    }
    let stop: [u8; 1] = [59];
    assert(stop@ =~= semicolon());
    let name = match parser.parse_unquoted_label(stop.as_slice()) {
        Ok(n) => n,
        Err(e) => {
            return Err(e);
        },
    };
    parser.next();
    Ok(NexusBlock::from_name(name.as_str()))
}

/// Skips blocks until one of the kind of `target` is met, whose header is
/// read. Fails at the end of the input when there is none.
pub fn skip_until_block<B: ByteSource>(parser: &mut ByteParser<B>, target: NexusBlock) -> (r:
    Result<(), ParsingError>)
    ensures
        final(parser).spec_bytes() == old(parser).spec_bytes(),
        match spec_seek_block(
            old(parser).spec_bytes(),
            old(parser).spec_position() as int,
            target@,
        ) {
            Seek::At(end) => r is Ok && final(parser).spec_position() == end,
            Seek::Failed(e) => r matches Err(x) && x@ == e,
        },
{
    let ghost bytes = parser.spec_bytes();
    let ghost start = parser.spec_position() as int;
    loop
        invariant
            bytes == old(parser).spec_bytes(),
            start == old(parser).spec_position(),
            parser.spec_bytes() == bytes,
            spec_seek_block(bytes, parser.spec_position() as int, target@) == spec_seek_block(
                bytes,
                start,
                target@,
            ),
        decreases bytes.len() - parser.spec_position(),
    {
        if parser.is_eof() {
            return Err(ParsingError::unexpected_eof(parser));
        }
        let block = match detect_next_block(parser) {
            Ok(b) => b,
            Err(e) => {
                return Err(e);
            },
        };
        if block.same_as(&target) {
            return Ok(());
        }
        match skip_to_block_end(parser) {
            Ok(()) => {},
            Err(e) => {
                return Err(e);
            },
        }
    }
}

/// The error for a malformed taxon block at the parser's position.
fn taxa_error_here<B: ByteSource>(parser: &mut ByteParser<B>, message: &str) -> (r: ParsingError)
    ensures
        final(parser).spec_bytes() == old(parser).spec_bytes(),
        final(parser).spec_position() == old(parser).spec_position(),
        r@ == crate::nexus::grammar::taxa_error(
            message@,
            old(parser).spec_bytes(),
            old(parser).spec_position() as int,
        ),
{
    ParsingError::invalid_taxa_block(parser, String::from_str(message))
}

/// The error for a malformed tree block at the parser's position.
pub fn trees_error_here<B: ByteSource>(parser: &mut ByteParser<B>, message: &str) -> (r:
    ParsingError)
    ensures
        final(parser).spec_bytes() == old(parser).spec_bytes(),
        final(parser).spec_position() == old(parser).spec_position(),
        r@ == crate::nexus::grammar::trees_error(
            message@,
            old(parser).spec_bytes(),
            old(parser).spec_position() as int,
        ),
{
    ParsingError::invalid_trees_block(parser, String::from_str(message))
}

/// Reads the command `Dimensions ntax=<n>;` and returns `n`.
pub fn parse_taxa_block_ntax<B: ByteSource>(parser: &mut ByteParser<B>) -> (r: Result<
    usize,
    ParsingError,
>)
    ensures
        final(parser).spec_bytes() == old(parser).spec_bytes(),
        match spec_ntax(old(parser).spec_bytes(), old(parser).spec_position() as int) {
            Dimension::Value(n, end) => r == Ok::<usize, ParsingError>(n) && final(parser).spec_position() == end,
            Dimension::Failed(e) => r matches Err(x) && x@ == e,
        },
{
    proof {
        parser.lemma_bytes_fit();
    }
    match parser.skip_comment_and_whitespace() {
        Ok(()) => {},
        Err(e) => {
            return Err(e);
        },
    }
    let word = dimensions();
    if !parser.consume_if_sequence(word.as_slice()) {
        return Err(taxa_error_here(parser, "Expected 'DIMENSIONS' in TAXA block."));
    }
    parser.skip_whitespace();
    let word = ntax();
    if !parser.consume_if_sequence(word.as_slice()) {
        return Err(taxa_error_here(parser, "Expected 'NTAX' in TAXA block."));
    }
    parser.skip_whitespace();
    if !parser.consume_if(61) {
        return Err(taxa_error_here(parser, "Expected '=' in TAXA block."));
    }
    parser.skip_whitespace();
    let stop: [u8; 1] = [59];
    assert(stop@ =~= semicolon());
    let text = match parser.parse_unquoted_label(stop.as_slice()) {
        Ok(t) => t,
        Err(e) => {
            return Err(e);
        },
    };
    let value: usize = match parse_unsigned(text.as_str()) {
        Some(n) => n,
        None => {
            let mut message = String::from_str("Cannot parse `ntax` value: ");
            message.append(text.as_str());
            return Err(ParsingError::invalid_taxa_block(parser, message));
        },
    };
    parser.next();
    Ok(value)
}

/// Reads the command `Taxlabels <label>* ;` into a fresh store. Each label
/// that is not empty is stored; there must be `num_taxa` of them.
pub fn parse_taxa_block_labels<B: ByteSource, T: TreeBuilder>(
    parser: &mut ByteParser<B>,
    num_taxa: usize,
) -> (r: Result<T::Storage, ParsingError>)
    ensures
        final(parser).spec_bytes() == old(parser).spec_bytes(),
        match spec_taxlabels(old(parser).spec_bytes(), old(parser).spec_position() as int, num_taxa) {
            Taxa::Done(labels, end) => r matches Ok(storage) && storage.spec_labels() == labels
                && final(parser).spec_position() == end,
            Taxa::Failed(e) => r matches Err(x) && x@ == e,
        },
{
    let ghost bytes = parser.spec_bytes();
    proof {
        parser.lemma_bytes_fit();
    }
    match parser.skip_comment_and_whitespace() {
        Ok(()) => {},
        Err(e) => {
            return Err(e);
        },
    }
    let word = taxlabels();
    if !parser.consume_if_sequence(word.as_slice()) {
        return Err(taxa_error_here(parser, "Expected 'TAXLABELS' in TAXA block."));
    }
    let mut storage = T::create_storage(num_taxa);
    let mut count: usize = 0;
    let ghost whole = spec_label_list(
        bytes,
        parser.spec_position() as int,
        Seq::empty(),
        0,
        num_taxa,
    );
    let delimiters = nexus_label_delimiters();
    loop
        invariant
            bytes == old(parser).spec_bytes(),
            parser.spec_bytes() == bytes,
            bytes.len() <= usize::MAX,
            delimiters@ == nexus_delimiters(),
            whole == spec_taxlabels(bytes, old(parser).spec_position() as int, num_taxa),
            count <= parser.spec_position(),
            spec_label_list(
                bytes,
                parser.spec_position() as int,
                storage.spec_labels(),
                count as nat,
                num_taxa,
            ) == whole,
        decreases bytes.len() - parser.spec_position(),
    {
        proof {
            lemma_blank_end(bytes, parser.spec_position() as int);
        }
        match parser.skip_comment_and_whitespace() {
            Ok(()) => {},
            Err(e) => {
                return Err(e);
            },
        }
        let found = parser.peek();
        let closes: bool = match found {
            Some(b) => b == 59,
            None => false,
        };
        if closes {
            parser.next();
            if count != num_taxa {
                let mut message = String::from_str("Number of parsed labels (");
                push_decimal(&mut message, count);
                message.append(") did not match ntax value (");
                push_decimal(&mut message, num_taxa);
                message.append(").");
                return Err(ParsingError::invalid_taxa_block(parser, message));
            }
            return Ok(storage);
        }
        let before: usize = parser.position();
        proof {
            lemma_label_at(bytes, before as int, delimiters@);
        }
        let label = match parser.parse_label(delimiters.as_slice()) {
            Ok(l) => l,
            Err(e) => {
                return Err(e);
            },
        };
        if parser.position() <= before {
            if parser.is_eof() {
                return Err(ParsingError::unexpected_eof(parser));
            }
            return Err(taxa_error_here(parser, "Unexpected character in TAXLABELS."));
        }
        if !label.as_str().is_empty() {
            storage.store_and_ref(label.as_str());
            count = count + 1;
        }
    }
}

/// Reads the taxon block: the number of taxa, their labels, and the rest of
/// the block up to its end.
pub fn parse_taxa_block<B: ByteSource, T: TreeBuilder>(parser: &mut ByteParser<B>) -> (r: Result<
    (usize, T::Storage),
    ParsingError,
>)
    ensures
        final(parser).spec_bytes() == old(parser).spec_bytes(),
        match spec_taxa_block(old(parser).spec_bytes(), old(parser).spec_position() as int) {
            (Dimension::Value(n, _), Taxa::Done(labels, end)) => r matches Ok(found) && found.0 == n
                && found.1.spec_labels() == labels && final(parser).spec_position() == end,
            (_, Taxa::Failed(e)) => r matches Err(x) && x@ == e,
            (Dimension::Failed(e), _) => r matches Err(x) && x@ == e,
        },
{
    let num_taxa: usize = match parse_taxa_block_ntax(parser) {
        Ok(n) => n,
        Err(e) => {
            return Err(e);
        },
    };
    let storage = match parse_taxa_block_labels::<B, T>(parser, num_taxa) {
        Ok(s) => s,
        Err(e) => {
            return Err(e);
        },
    };
    match skip_to_block_end(parser) {
        Ok(()) => {},
        Err(e) => {
            return Err(e);
        },
    }
    Ok((num_taxa, storage))
}

/// Reads the translation table at the head of the tree block, if there is
/// one: `Translate <key> <label>(, <key> <label>)* ;`. Without one the next
/// command must be a tree. The table must have `num_leaves` entries.
pub fn parse_tree_block_translate<B: ByteSource>(parser: &mut ByteParser<B>, num_leaves: usize) -> (r:
    Result<Option<Translation>, ParsingError>)
    ensures
        final(parser).spec_bytes() == old(parser).spec_bytes(),
        match spec_translate(
            old(parser).spec_bytes(),
            old(parser).spec_position() as int,
            num_leaves,
        ) {
            Translated::Absent(end) => r matches Ok(None) && final(parser).spec_position() == end,
            Translated::Table(entries, end) => r matches Ok(Some(table)) && table.spec_entries()
                == entries && table.wf() && final(parser).spec_position() == end,
            Translated::Failed(e) => r matches Err(x) && x@ == e,
        },
{
    let ghost bytes = parser.spec_bytes();
    proof {
        parser.lemma_bytes_fit();
    }
    match parser.skip_comment_and_whitespace() {
        Ok(()) => {},
        Err(e) => {
            return Err(e);
        },
    }
    let word = translate();
    if !parser.consume_if_sequence(word.as_slice()) {
        let next = tree();
        if parser.peek_is_sequence(next.as_slice()) {
            return Ok(None);
        }
        return Err(taxa_error_here(parser, "Expected 'TRANSLATE' or first 'TREE' in TREES block."));
    }
    let mut table = Translation::new();
    let delimiters = nexus_label_delimiters();
    let ghost whole = spec_pairs(bytes, parser.spec_position() as int, Seq::empty(), num_leaves);
    loop
        invariant
            bytes == old(parser).spec_bytes(),
            parser.spec_bytes() == bytes,
            bytes.len() <= usize::MAX,
            delimiters@ == nexus_delimiters(),
            table.wf(),
            whole == spec_translate(bytes, old(parser).spec_position() as int, num_leaves),
            spec_pairs(bytes, parser.spec_position() as int, table.spec_entries(), num_leaves)
                == whole,
        decreases bytes.len() - parser.spec_position(),
    {
        let ghost here = parser.spec_position() as int;
        proof {
            lemma_blank_end(bytes, here);
        }
        match parser.skip_comment_and_whitespace() {
            Ok(()) => {},
            Err(e) => {
                return Err(e);
            },
        }
        proof {
            lemma_label_at(bytes, parser.spec_position() as int, delimiters@);
        }
        let key = match parser.parse_label(delimiters.as_slice()) {
            Ok(k) => k,
            Err(e) => {
                return Err(e);
            },
        };
        if !parser.consume_if(32) {
            return Err(trees_error_here(parser, "Expected ' ' in between key and label."));
        }
        proof {
            lemma_label_at(bytes, parser.spec_position() as int, delimiters@);
        }
        let label = match parser.parse_label(delimiters.as_slice()) {
            Ok(l) => l,
            Err(e) => {
                return Err(e);
            },
        };
        proof {
            lemma_first_where(bytes, parser.spec_position() as int, Stop::NotWhitespace);
        }
        parser.skip_whitespace();
        table.insert(key, label);
        if parser.consume_if(44) {
            continue ;
        }
        if parser.consume_if(59) {
            if table.len() != num_leaves {
                return Err(ParsingError::invalid_translate_command(parser));
            }
            return Ok(Some(table));
        }
        match parser.peek() {
            Some(b) => {
                let mut message = String::from_str("Unexpected char '");
                message.push(b as char);
                message.append("' in TRANSLATE.");
                proof {
                    assert(message@ =~= crate::nexus::grammar::stray_message(b));
                }
                return Err(ParsingError::invalid_trees_block(parser, message));
            },
            None => {
                return Err(ParsingError::unexpected_eof(parser));
            },
        }
    }
}

} // verus!
