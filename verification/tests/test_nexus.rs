use nexwick::model::compact_tree_builder::CompactTreeBuilder;
use nexwick::newick::writer::NewickStyle;
use nexwick::nexus::burnin::Burnin;
use nexwick::nexus::defs::NexusBlock;
use nexwick::nexus::parser::NexusParser;
use nexwick::nexus::parser::NexusParserBuilder;
use nexwick::parser::byte_parser::ByteParser;
use nexwick::parser::in_memory_byte_source::InMemoryByteSource;
use nexwick::parser::parsing_error::ParsingErrorType;

fn file_with(trees: usize, translate: bool) -> String {
    let mut text = String::from("#NEXUS\n\nBegin taxa;\n\tDimensions ntax=3;\n\tTaxlabels\n\t\tA B 'C c';\nEnd;\n[comment]\nBegin unknown;\n stuff;\nEnd;\nBegin trees;\n");
    if translate {
        text.push_str("\tTranslate\n\t\t1 A,\n\t\t2 B,\n\t\t3 'C c'\n;\n");
    }
    for i in 0..trees {
        if translate {
            text.push_str(&format!("tree t{} = [&R] ((1:1.0,2:{}.5):1,3:2);\n", i, i));
        } else {
            text.push_str(&format!("tree t{} = [&R] ((A:1.0,B:{}.5):1,'C c':2);\n", i, i));
        }
    }
    text.push_str("End;\n");
    text
}

fn open(text: &str, eager: bool, burnin: Burnin, skip_first: bool) -> NexusParser<InMemoryByteSource, CompactTreeBuilder> {
    NexusParser::new(ByteParser::from_str(text), CompactTreeBuilder::new(), eager, burnin, skip_first, false).unwrap()
}

#[test]
fn test_single_tree() {
    let text = file_with(1, false);
    let parser = open(&text, true, Burnin::Count(0), false);
    let (trees, leaf_map) = parser.into_results().unwrap();
    assert_eq!(trees.len(), 1);
    assert_eq!(leaf_map.num_labels(), 3);
    let tree = &trees[0];
    assert_eq!(tree.num_leaves(), 3);
    assert!(tree.is_valid());
    assert_eq!(tree.name().unwrap(), "t0");
}

#[test]
fn test_multiple_trees_with_translate() {
    let text = file_with(11, true);
    let parser = open(&text, true, Burnin::Count(0), false);
    let (trees, leaf_map) = parser.into_results().unwrap();
    assert_eq!(trees.len(), 11);
    assert_eq!(leaf_map.num_labels(), 3);
    for tree in &trees {
        assert_eq!(tree.num_leaves(), 3);
        assert!(tree.is_valid());
    }
}

#[test]
fn test_skip_first() {
    let text = file_with(11, true);
    let mut parser = open(&text, true, Burnin::Count(0), true);
    assert_eq!(parser.num_trees(), 10);
    assert_eq!(parser.num_total_trees(), 11);
    let mut count = 0;
    while let Some(tree) = parser.next_tree_ref() {
        assert_eq!(tree.num_leaves(), 3);
        assert!(tree.is_valid());
        count += 1;
    }
    assert_eq!(count, 10);
    parser.reset();
    let mut count = 0;
    while let Some(tree) = parser.next_tree_ref() {
        assert!(tree.is_valid());
        count += 1;
    }
    assert_eq!(count, 10);
}

#[test]
fn test_burnin_count() {
    let text = file_with(11, true);
    let parser = open(&text, true, Burnin::Count(5), false);
    assert_eq!(parser.num_trees(), 6);
    assert_eq!(parser.num_total_trees(), 11);
    let (trees, _) = parser.into_results().unwrap();
    assert_eq!(trees.len(), 6);
    assert_eq!(trees[0].name().unwrap(), "t5");
}

#[test]
fn test_burnin_percentage() {
    let text = file_with(11, true);
    // 25% of 11 trees = 2.75 -> floor to 2
    let parser = open(&text, true, Burnin::Percentage { numerator: 25, denominator: 100 }, false);
    assert_eq!(parser.num_trees(), 9);
    assert_eq!(parser.num_total_trees(), 11);
    let (trees, _) = parser.into_results().unwrap();
    assert_eq!(trees.len(), 9);
    assert_eq!(trees[0].name().unwrap(), "t2");
}

#[test]
fn test_skip_first_and_burnin() {
    let text = file_with(11, true);
    let parser = open(&text, true, Burnin::Count(2), true);
    assert_eq!(parser.num_trees(), 8);
    assert_eq!(parser.num_total_trees(), 11);
}

#[test]
fn test_lazy_mode() {
    let text = file_with(11, true);
    let mut parser = open(&text, false, Burnin::Count(0), false);
    assert_eq!(parser.num_trees(), 11);
    let mut count = 0;
    while let Some(tree) = parser.next_tree().unwrap() {
        assert_eq!(tree.num_leaves(), 3);
        assert!(tree.is_valid());
        count += 1;
    }
    assert_eq!(count, 11);
}

#[test]
fn test_lazy_mode_with_burnin() {
    let text = file_with(11, true);
    let mut parser = open(&text, false, Burnin::Count(3), false);
    assert_eq!(parser.num_trees(), 8);
    let mut count = 0;
    while let Some(tree) = parser.next_tree().unwrap() {
        assert!(tree.is_valid());
        count += 1;
    }
    assert_eq!(count, 8);
}

#[test]
fn test_lazy_mode_reset_with_burnin() {
    let text = file_with(11, true);
    let mut parser = open(&text, false, Burnin::Count(2), true);
    assert_eq!(parser.num_trees(), 8);
    let first_tree = parser.next_tree().unwrap().unwrap();
    parser.next_tree().unwrap();
    parser.next_tree().unwrap();
    parser.reset();
    let first_tree_again = parser.next_tree().unwrap().unwrap();
    // Should get the same first tree again
    assert_eq!(
        first_tree.to_newick(&NewickStyle::ZeroIndexed, None),
        first_tree_again.to_newick(&NewickStyle::ZeroIndexed, None)
    );
    assert_eq!(first_tree.name(), first_tree_again.name());
    assert_eq!(first_tree.name().unwrap(), "t3");
}

#[test]
fn lazy_and_eager_hand_out_the_same_trees() {
    let text = file_with(7, true);
    let eager = open(&text, true, Burnin::Count(2), true);
    let lazy = open(&text, false, Burnin::Count(2), true);
    let (a, _) = eager.into_results().unwrap();
    let (b, _) = lazy.into_results().unwrap();
    assert_eq!(a.len(), 4);
    assert_eq!(a.len(), b.len());
    for i in 0..a.len() {
        assert_eq!(a[i].name(), b[i].name());
        assert_eq!(a[i].num_vertices(), b[i].num_vertices());
        assert_eq!(
            a[i].to_newick(&NewickStyle::OneIndexed, None),
            b[i].to_newick(&NewickStyle::OneIndexed, None)
        );
        for v in 0..a[i].num_vertices() {
            assert_eq!(a[i].vertex(v).children(), b[i].vertex(v).children());
            assert_eq!(a[i].vertex(v).label(), b[i].vertex(v).label());
        }
    }
}

#[test]
fn translate_table_of_numbers_matches_plain_labels() {
    let with = open(&file_with(3, true), true, Burnin::Count(0), false);
    let without = open(&file_with(3, false), true, Burnin::Count(0), false);
    let (a, _) = with.into_results().unwrap();
    let (b, _) = without.into_results().unwrap();
    assert_eq!(a.len(), b.len());
    for i in 0..a.len() {
        for v in 0..a[i].num_vertices() {
            assert_eq!(a[i].vertex(v).label(), b[i].vertex(v).label());
            assert_eq!(a[i].vertex(v).children(), b[i].vertex(v).children());
        }
    }
}

#[test]
fn too_few_taxlabels_is_a_taxa_error() {
    let text = "#NEXUS\nBegin taxa;\nDimensions ntax=3;\nTaxlabels A B;\nEnd;\nBegin trees;\ntree t = (A,B);\nEnd;\n";
    let result = NexusParser::new(ByteParser::from_str(text), CompactTreeBuilder::new(), true, Burnin::Count(0), false, false);
    let error = result.err().unwrap();
    assert_eq!(
        error.kind(),
        &ParsingErrorType::InvalidTaxaBlock("Number of parsed labels (2) did not match ntax value (3).".to_string())
    );
}

#[test]
fn missing_header_is_reported() {
    let result = NexusParser::new(ByteParser::from_str("Begin taxa;"), CompactTreeBuilder::new(), true, Burnin::Count(0), false, false);
    assert_eq!(result.err().unwrap().kind(), &ParsingErrorType::MissingNexusHeader);
}

#[test]
fn block_names_ignore_case() {
    assert_eq!(NexusBlock::from_name("TaXa"), NexusBlock::Taxa);
    assert_eq!(NexusBlock::from_name("TREES"), NexusBlock::Trees);
    assert_eq!(NexusBlock::from_name("Mine"), NexusBlock::UnknownBlock("Mine".to_string()));
}

#[test]
fn builder_decides_how_to_read() {
    let builder = NexusParserBuilder::for_file("x.trees");
    assert!(!builder.reads_buffered(10));
    assert!(builder.reads_buffered(104857600));
    let builder = builder.with_buffered_source();
    assert!(builder.reads_buffered(10));
    let builder = builder.with_in_memory_source().lazy().with_skip_first();
    assert!(!builder.reads_buffered(1 << 40));
    let text = file_with(4, false);
    let mut parser = builder.build(InMemoryByteSource::from_vec(text.into_bytes())).unwrap();
    assert_eq!(parser.num_trees(), 3);
    assert_eq!(parser.num_leaves(), 3);
    assert_eq!(parser.next_tree().unwrap().unwrap().name().unwrap(), "t1");
}

#[test]
fn test_comments_and_unknown_blocks() {
    let text = "[first] #NEXUS [header done]\n\nBegin sets; [inside] charset a = 1-3; End;\n[between]\nBegin [odd] taxa;\n [c] Dimensions ntax=3;\n Taxlabels [one] A [two] B\n C [three];\nEnd;\nBegin trees;\n [no table]\n tree one = [&R] ((A[x]:1,B:1)[y]:1,C:2);\n [t] tree two = ((A:1,C:1):1,B:2) [last] ;\n tree three = [&U] (A,(B,C));\nEnd;\n";
    let parser = open(text, true, Burnin::Count(0), false);
    let (trees, leaf_map) = parser.into_results().unwrap();
    assert_eq!(trees.len(), 3);
    assert_eq!(leaf_map.num_labels(), 3);

    for tree in &trees {
        assert_eq!(tree.num_leaves(), 3);
        assert!(tree.is_valid());
    }
}

#[test]
fn test_lazy_mode_reset() {
    let text = file_with(3, false);
    let mut parser = open(&text, false, Burnin::Count(0), false);

    // Parse first tree
    let tree1 = parser.next_tree().unwrap().unwrap();
    assert_eq!(tree1.num_leaves(), 3);

    // Reset and parse again
    parser.reset();
    let tree1_again = parser.next_tree().unwrap().unwrap();
    assert_eq!(tree1_again.num_leaves(), 3);

    // Trees should be equivalent (same structure)
    assert_eq!(
        tree1.to_newick(&NewickStyle::ZeroIndexed, None),
        tree1_again.to_newick(&NewickStyle::ZeroIndexed, None)
    );
    assert_eq!(tree1.to_newick(&NewickStyle::ZeroIndexed, None), "((0:1.0,1:0.5):1,2:2);");
}
