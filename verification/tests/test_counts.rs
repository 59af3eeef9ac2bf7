use nexwick::model::compact_tree_builder::CompactTreeBuilder;
use nexwick::model::label_storage::LabelStorage;
use nexwick::newick::parser::NewickParser;
use nexwick::newick::writer::calculate_index_digit_capacity;
use nexwick::newick::writer::can_write;
use nexwick::newick::writer::to_newick;
use nexwick::newick::writer::NewickStyle;
use nexwick::nexus::blocks::parse_taxa_block_ntax;
use nexwick::nexus::blocks::parse_tree_block_translate;
use nexwick::nexus::blocks::skip_until_block;
use nexwick::nexus::burnin::configure_tree_counts;
use nexwick::nexus::burnin::use_buffered;
use nexwick::nexus::burnin::Burnin;
use nexwick::nexus::burnin::ReadStrategy;
use nexwick::nexus::defs::NexusBlock;
use nexwick::nexus::parser::count_trees;
use nexwick::nexus::parser::skip_tree;
use nexwick::nexus::parser::NexusParser;
use nexwick::parser::byte_parser::ByteParser;
use nexwick::parser::byte_parser::ConsumeMode;
use nexwick::parser::parsing_error::ParsingError;
use nexwick::parser::parsing_error::ParsingErrorType;

#[test]
fn burnin_counts_follow_the_formula() {
    // first tree skipped, then a count
    let c = configure_tree_counts(true, Burnin::Count(4), 11);
    assert_eq!((c.num_total_trees, c.num_trees, c.start_tree_pos), (11, 6, 5));
    let c = configure_tree_counts(true, Burnin::Count(20), 11);
    assert_eq!((c.num_total_trees, c.num_trees, c.start_tree_pos), (11, 0, 21));
    let c = configure_tree_counts(true, Burnin::Count(3), 0);
    assert_eq!((c.num_total_trees, c.num_trees, c.start_tree_pos), (0, 0, 3));
    // a share of what is left behind the first tree, rounded down
    let quarter = Burnin::Percentage { numerator: 1, denominator: 4 };
    let c = configure_tree_counts(true, quarter, 11);
    assert_eq!((c.num_trees, c.start_tree_pos), (8, 3));
    let c = configure_tree_counts(false, quarter, 11);
    assert_eq!((c.num_trees, c.start_tree_pos), (9, 2));
    assert_eq!(Burnin::Percentage { numerator: 3, denominator: 10 }.get_count(10), 3);
    assert_eq!(Burnin::Percentage { numerator: 1, denominator: 0 }.get_count(10), 0);
    assert_eq!(Burnin::Count(7).get_count(3), 7);
    let c = configure_tree_counts(true, Burnin::Count(usize::MAX), 5);
    assert_eq!((c.num_trees, c.start_tree_pos), (0, usize::MAX));
}

#[test]
fn significance_starts_at_a_hundred_trees_or_a_twentieth() {
    assert!(!Burnin::Count(99).significant());
    assert!(Burnin::Count(100).significant());
    assert!(Burnin::Percentage { numerator: 5, denominator: 100 }.significant());
    assert!(!Burnin::Percentage { numerator: 49, denominator: 1000 }.significant());
    assert!(!Burnin::Percentage { numerator: 1, denominator: 0 }.significant());
    assert!(use_buffered(ReadStrategy::Buffered, 0));
    assert!(!use_buffered(ReadStrategy::InMemory, u64::MAX));
    assert!(!use_buffered(ReadStrategy::Automatic, 104857599));
    assert!(use_buffered(ReadStrategy::Automatic, 104857600));
}

#[test]
fn one_pass_and_two_pass_keep_the_same_trees() {
    let mut text = String::from("#NEXUS\nBegin taxa;\nDimensions ntax=2;\nTaxlabels A B;\nEnd;\nBegin trees;\n");
    for i in 0..150 {
        text.push_str(&format!("tree t{} = (A:{},B:1);\n", i, i));
    }
    text.push_str("End;\n");
    // 100 trees dropped: counted first; 99 trees dropped: read in one pass
    let many = NexusParser::new(ByteParser::from_str(&text), CompactTreeBuilder::new(), true, Burnin::Count(100), false, false).unwrap();
    assert_eq!(many.num_trees(), 50);
    let (trees, _) = many.into_results().unwrap();
    assert_eq!(trees.len(), 50);
    assert_eq!(trees[0].name().unwrap(), "t100");
    let few = NexusParser::new(ByteParser::from_str(&text), CompactTreeBuilder::new(), true, Burnin::Count(99), false, false).unwrap();
    assert_eq!(few.num_trees(), 51);
    let (trees, _) = few.into_results().unwrap();
    assert_eq!(trees.len(), 51);
    assert_eq!(trees[0].name().unwrap(), "t99");
    let all = NexusParser::new(ByteParser::from_str(&text), CompactTreeBuilder::new(), true, Burnin::Count(200), true, false).unwrap();
    assert_eq!(all.num_trees(), 0);
    assert_eq!(all.into_results().unwrap().0.len(), 0);
}

#[test]
fn blocks_are_found_and_skipped() {
    let mut parser = ByteParser::from_str(" [c] begin Data; x End; BEGIN taxa; dimensions NTAX = 12;");
    skip_until_block(&mut parser, NexusBlock::Taxa).unwrap();
    assert_eq!(parser.position(), 35);
    assert_eq!(parse_taxa_block_ntax(&mut parser).unwrap(), 12);
    assert!(parser.is_eof());
    let mut parser = ByteParser::from_str("Begin data; stuff");
    let error: ParsingError = skip_until_block(&mut parser, NexusBlock::Trees).err().unwrap();
    assert_eq!(error.kind(), &ParsingErrorType::UnexpectedEOF);
    let mut parser = ByteParser::from_str("Dimensions ntax=x3;");
    assert_eq!(
        parse_taxa_block_ntax(&mut parser).err().unwrap().kind(),
        &ParsingErrorType::InvalidTaxaBlock("Cannot parse `ntax` value: x3".to_string())
    );
}

#[test]
fn translate_command_is_read_or_refused() {
    let mut parser = ByteParser::from_str(" Translate 1 A,\n 2 'B b' ;tree");
    let table = parse_tree_block_translate(&mut parser, 2).unwrap().unwrap();
    assert_eq!(table.len(), 2);
    assert_eq!(table.get("2").unwrap(), "B b");
    assert_eq!(parser.peek(), Some(b't'));
    let mut parser = ByteParser::from_str("tree t = (A,B);");
    assert!(parse_tree_block_translate(&mut parser, 2).unwrap().is_none());
    assert_eq!(parser.position(), 0);
    let mut parser = ByteParser::from_str("Translate 1 A;");
    assert_eq!(
        parse_tree_block_translate(&mut parser, 2).err().unwrap().kind(),
        &ParsingErrorType::InvalidTranslateCommand
    );
    let mut parser = ByteParser::from_str("Translate 1 A x");
    assert_eq!(
        parse_tree_block_translate(&mut parser, 1).err().unwrap().kind(),
        &ParsingErrorType::InvalidTreesBlock("Unexpected char 'x' in TRANSLATE.".to_string())
    );
    let mut parser = ByteParser::from_str("Translate 1 A");
    assert_eq!(
        parse_tree_block_translate(&mut parser, 1).err().unwrap().kind(),
        &ParsingErrorType::UnexpectedEOF
    );
    let mut parser = ByteParser::from_str("Other");
    assert!(matches!(
        parse_tree_block_translate(&mut parser, 1).err().unwrap().kind(),
        ParsingErrorType::InvalidTaxaBlock(_)
    ));
}

#[test]
fn trees_are_counted_without_moving() {
    let mut parser = ByteParser::from_str(" tree a = [&R] (A,B); TREE b=(A,B);\nEnd;");
    assert_eq!(count_trees(&mut parser).unwrap(), 2);
    assert_eq!(parser.position(), 0);
    assert!(skip_tree(&mut parser).unwrap());
    assert_eq!(parser.position(), 21);
    assert!(skip_tree(&mut parser).unwrap());
    assert!(!skip_tree(&mut parser).unwrap());
    assert!(parser.peek_is_word("end;"));
}

#[test]
fn errors_report_position_and_context() {
    let mut parser = ByteParser::from_str("(A,B:1.0 x);");
    let error = NewickParser::new_compact_defaults().parse_str(&mut parser).err().unwrap();
    assert_eq!(error.position(), 9);
    assert_eq!(error.context(), "x);");
    assert_eq!(
        error.message(),
        "Invalid newick string: Expected ')' after children but found 'x' at position 9\n  Context (next 3 bytes): x);"
    );
    let mut parser = ByteParser::from_str("(A,B) [open");
    let error = NewickParser::new_compact_defaults().parse_str(&mut parser).err().unwrap();
    assert_eq!(error.kind(), &ParsingErrorType::UnclosedComment);
    assert_eq!(error.position(), 11);
    assert_eq!(error.message(), "Unclosed comment at position 11");
    let plain = ParsingError::without_context(ParsingErrorType::IoError("gone".to_string()));
    assert_eq!(plain.message(), "IO error - gone at position 0");
    let mut parser = ByteParser::from_bytes(&[0xff, b'a']);
    assert_eq!(parser.get_context_as_string(2), "\u{fffd}a");
    let unknown = ParsingError::invalid_block_name(&mut parser);
    assert_eq!(unknown.kind(), &ParsingErrorType::InvalidBlockName);
}

#[test]
fn trees_are_written_as_they_were_read() {
    let mut parser = ByteParser::from_str("(('a b':1.0,B:2.5e-3):3,C)");
    assert!(NewickParser::new_compact_defaults().parse_str(&mut parser).is_err());
    let mut parser = ByteParser::from_str(" (('a b':1.0,B:2.5e-3):3,'C;'):7 ;");
    let mut newick = NewickParser::new_compact_defaults();
    let tree = newick.parse_str(&mut parser).unwrap();
    let map = newick.into_label_storage();
    assert!(can_write(NewickStyle::Label, &tree, &map));
    assert_eq!(to_newick(NewickStyle::Label, &tree, &map), "((a_b:1.0,B:2.5e-3):3,'C;');");
    assert_eq!(to_newick(NewickStyle::ZeroIndexed, &tree, &map), "((0:1.0,1:2.5e-3):3,2);");
    assert_eq!(tree.to_newick(&NewickStyle::OneIndexed, None), "((1:1.0,2:2.5e-3):3,3);");
    assert_eq!(tree.to_newick(&NewickStyle::Label, None), "");
    let short = nexwick::model::leaf_label_map::LeafLabelMap::new(0);
    assert!(!can_write(NewickStyle::Label, &tree, &short));
    assert_eq!(map.num_labels(), 3);
}

#[test]
fn iterator_hands_out_trees_until_the_input_ends() {
    let parser = ByteParser::from_str("(A,B); (A,(B,C)); ");
    let mut trees = NewickParser::new_compact_defaults().into_iter(parser);
    assert_eq!(trees.next_tree().unwrap().unwrap().num_vertices(), 3);
    assert_eq!(trees.next_tree().unwrap().unwrap().num_vertices(), 5);
    assert!(trees.next_tree().is_none());
    assert_eq!(trees.into_parser().into_label_storage().num_labels(), 3);
    let parser = ByteParser::from_str("(A,B); (A;");
    let mut trees = NewickParser::new_compact_defaults().into_iter(parser);
    assert!(trees.next_tree().unwrap().is_ok());
    assert!(trees.next_tree().unwrap().is_err());
    assert!(trees.next_tree().is_none());
}

#[test]
fn searches_for_sequences_rest_where_they_say() {
    let mut parser = ByteParser::from_str("abc END; xyz");
    assert!(parser.consume_until_sequence(b"end;", ConsumeMode::Exclusive));
    assert_eq!(parser.position(), 4);
    assert!(parser.consume_if_sequence(b"End;"));
    assert!(!parser.consume_until_word("end;", ConsumeMode::Inclusive));
    assert_eq!(parser.position(), 9);
    assert!(!parser.peek_is_sequence(b"xyzz"));
    assert!(parser.consume_if(b' ') || parser.consume_if(b'Y') || parser.consume_if(b'X'));
    assert_eq!(parser.slice_from(9), b"x");
    parser.set_position(100);
    assert!(parser.is_eof());
    assert_eq!(parser.next(), None);
    assert_eq!(parser.get_context(3), b"");
}

#[test]
fn index_digits_are_counted_by_decades() {
    assert_eq!(calculate_index_digit_capacity(0, true), 0);
    assert_eq!(calculate_index_digit_capacity(1, true), 1);
    assert_eq!(calculate_index_digit_capacity(10, true), 10);
    assert_eq!(calculate_index_digit_capacity(11, true), 12);
    assert_eq!(calculate_index_digit_capacity(14, false), 19);
    assert_eq!(calculate_index_digit_capacity(102, false), 198);
    let expected: usize = (1..=12345usize).map(|i| i.to_string().len()).sum();
    assert_eq!(calculate_index_digit_capacity(12345, false), expected);
}
