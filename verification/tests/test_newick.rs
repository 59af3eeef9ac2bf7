use nexwick::model::label_storage::LabelStorage;
use nexwick::model::tree::ValidLabel;
use nexwick::newick::parser::NewickParser;
use nexwick::parser::byte_parser::ByteParser;
use nexwick::parser::parsing_error::ParsingErrorType;

fn value(text: &str) -> f64 {
    text.parse::<f64>().unwrap()
}

// --- TESTS NEWICK STRING PARSING ---
#[test]
fn test_basic_compact_tree() {
    let newick = "((A:1.0,B:2.0):3.0,C:4.0):0.5;";
    let mut parser = ByteParser::from_str(newick);
    let mut newick_parser = NewickParser::new_compact_defaults().with_num_leaves(3);
    let tree = newick_parser.parse_str(&mut parser).unwrap();
    let leaf_map = newick_parser.into_label_storage();

    // Test counts
    assert_eq!(tree.num_leaves(), 3);
    assert_eq!(tree.num_internal(), 1);
    assert_eq!(tree.num_vertices(), 5);
    assert_eq!(leaf_map.num_labels(), 3);

    // Test basic label parsing
    assert!(leaf_map.contains_label("A"));
    assert!(leaf_map.contains_label("B"));
    assert!(leaf_map.contains_label("C"));

    // Test relationships
    // - Root has children (internal, C)
    let root = tree.root();
    let root_index = root.index();
    let (root_left, root_right) = root.children().unwrap();

    // - Internal node has children (A, B)
    let internal = tree.vertex(root_left);
    assert!(internal.is_internal());
    let (internal_left, internal_right) = internal.children().unwrap();

    // - Three leaves
    let leaf_a = tree.vertex(internal_left);
    let leaf_b = tree.vertex(internal_right);
    let leaf_c = tree.vertex(root_right);
    assert!(leaf_a.is_leaf());
    assert!(leaf_b.is_leaf());
    assert!(leaf_c.is_leaf());

    // - Parent relationships
    assert_eq!(internal.parent_index(), Some(root_index));
    assert_eq!(leaf_a.parent_index(), Some(root_left));
    assert_eq!(leaf_b.parent_index(), Some(root_left));
    assert_eq!(leaf_c.parent_index(), Some(root_index));
}

#[test]
fn test_basic_simple_tree() {
    let newick = "((A:1.0,B:2.0):3.0,C:4.0):0.5;";
    let mut parser = ByteParser::from_str(newick);
    let mut newick_parser = NewickParser::new_simple_defaults().with_num_leaves(3);
    let tree = newick_parser.parse_str(&mut parser).unwrap();

    assert_eq!(tree.num_leaves(), 3);

    // Labels are stored directly in leaves
    let root = tree.root();
    let (left, right) = root.children().unwrap();
    let internal = tree.vertex(left);
    let (a_idx, b_idx) = internal.children().unwrap();

    assert_eq!(tree.vertex(a_idx).label().unwrap(), "A");
    assert_eq!(tree.vertex(b_idx).label().unwrap(), "B");
    assert_eq!(tree.vertex(right).label().unwrap(), "C");
}

#[test]
fn test_newick_test_basic_tree_without_root_branch() {
    let newick = "((A:1.0,B:2.0):3.0,C:4.0);";
    let mut parser = ByteParser::from_str(newick);
    let tree = NewickParser::new_compact_defaults()
        .with_num_leaves(3)
        .parse_str(&mut parser)
        .unwrap();

    // Test counts
    assert_eq!(tree.num_leaves(), 3);
    assert_eq!(tree.num_internal(), 1);
    assert_eq!(tree.num_vertices(), 5);
}

#[test]
fn test_newick_test_tree_with_quoted_labels() {
    let newick = "(('Taxon one':1.5,'Second''s taxon':2.5):3.0,'3rd Taxon':4.0):0.0;";
    let mut parser = ByteParser::from_str(newick);
    let mut newick_parser = NewickParser::new_compact_defaults().with_num_leaves(3);
    let tree = newick_parser.parse_str(&mut parser).unwrap();
    let leaf_map = newick_parser.into_label_storage();

    assert_eq!(tree.num_leaves(), 3);
    assert!(leaf_map.contains_label("Taxon one"));
    assert!(leaf_map.contains_label("Second's taxon"));
    assert!(leaf_map.contains_label("3rd Taxon"));
}

#[test]
fn test_newick_test_tree_with_scientific_notation() {
    let newick = "((A:1e-5,B:2.5E+3):1.0e2,C:3.14E-10):0.0;";
    let mut parser = ByteParser::from_str(newick);
    let mut newick_parser = NewickParser::new_compact_defaults().with_num_leaves(3);
    let tree = newick_parser.parse_str(&mut parser).unwrap();
    let leaf_map = newick_parser.into_label_storage();

    assert_eq!(tree.num_leaves(), 3);
    assert_eq!(tree.num_internal(), 1);
    assert_eq!(tree.num_vertices(), 5);
    assert_eq!(leaf_map.num_labels(), 3);
    assert_eq!(value(&tree.vertex(1).branch_length().unwrap().text()), 2.5E+3);
}

#[test]
fn test_newick_test_optional_branch_length() {
    let newick = "((A:1.0,B),C:4.0);";
    let mut parser = ByteParser::from_str(newick);
    let tree = NewickParser::new_compact_defaults()
        .with_num_leaves(3)
        .parse_str(&mut parser);
    assert!(tree.is_ok());
    let tree = tree.unwrap();
    assert!(tree.vertex(1).branch_length().is_none());
    assert_eq!(value(&tree.vertex(0).branch_length().unwrap().text()), 1.0);
}

#[test]
fn test_newick_with_comment_1() {
    let newick_with_comment = "[A tree of] (([Shags!]A[Great Commentoran]:0.33,B[Pied Commentoran]:0.33):1.87,C:[King Commentoran]2.2):0.0;";
    let mut parser = ByteParser::from_str(newick_with_comment);
    let tree = NewickParser::new_compact_defaults()
        .with_num_leaves(3)
        .parse_str(&mut parser);

    assert!(tree.is_ok());
}

#[test]
fn test_newick_with_comment_2() {
    let newick_with_comment = "[A tree of] ([Shags!] C:[King Commentoran] 2.2, (A[Great Commentoran]:0.33, B[Pied Commentoran]:0.33):1.87):0.0[The end.];";
    let mut parser = ByteParser::from_str(newick_with_comment);
    let tree = NewickParser::new_compact_defaults()
        .with_num_leaves(3)
        .parse_str(&mut parser);

    assert!(tree.is_ok());
}

// --- TESTS DEALING WITH CORRUPT NEWICK STRINGS ---

#[test]
fn test_newick_test_missing_semicolon() {
    let newick = "((A:1.0,B:2.0):3.0,C:4.0):0.5";
    let mut parser = ByteParser::from_str(newick);
    let tree = NewickParser::new_compact_defaults()
        .with_num_leaves(3)
        .parse_str(&mut parser);
    assert!(tree.is_err());
    let error = tree.err().unwrap();
    assert!(matches!(error.kind(), ParsingErrorType::InvalidNewickString(_)));
    assert_eq!(error.position(), 29);
}

#[test]
fn test_newick_test_missing_comma() {
    let newick = "((A:1.0 B:2.0):3.0,C:4.0):0.5;";
    let mut parser = ByteParser::from_str(newick);
    let tree = NewickParser::new_compact_defaults()
        .with_num_leaves(3)
        .parse_str(&mut parser);
    assert!(tree.is_err());
}

#[test]
fn test_newick_test_unmatched_parentheses() {
    let newick = "((A:1.0,B:2.0:3.0,C:4.0):0.5;";
    let mut parser = ByteParser::from_str(newick);
    let tree = NewickParser::new_compact_defaults()
        .with_num_leaves(3)
        .parse_str(&mut parser);
    assert!(tree.is_err());
}

#[test]
fn test_newick_test_invalid_branch_length() {
    let newick = "((A:1.0,B:abc):3.0,C:4.0):0.5;";
    let mut parser = ByteParser::from_str(newick);
    let tree = NewickParser::new_compact_defaults()
        .with_num_leaves(3)
        .parse_str(&mut parser);
    assert!(tree.is_err());
}

#[test]
fn test_basic_tree() {
    let newick = "((A:1.0,B:2.0):3.0,C:4.0):0.5;";
    let mut parser = ByteParser::from_str(newick);
    let mut newick_parser = NewickParser::new_compact_defaults().with_num_leaves(3);
    let tree = newick_parser.parse_str(&mut parser).unwrap();
    assert_eq!(tree.num_leaves(), 3);
    assert_eq!(tree.num_internal(), 1);
    assert_eq!(tree.num_vertices(), 5);
    assert!(tree.is_valid());
    let root = tree.root();
    assert!(root.is_root());
    let (left, _) = root.children().unwrap();
    let (a, _) = tree.vertex(left).children().unwrap();
    assert_eq!(value(&tree.vertex(a).branch_length().unwrap().text()), 1.0);
    assert_eq!(tree.vertex(a).parent_index(), Some(left));
    assert_eq!(value(&root.branch_length().unwrap().text()), 0.5);
}

#[test]
fn test_newick_with_comment() {
    let newick_with_comment = "((A[Great Commentoran]:0.33,B[Pied Commentoran]:0.33):1.87,C:[King Commentoran]2.2):0.0";
    let mut parser = ByteParser::from_str(newick_with_comment);
    let tree = NewickParser::new_compact_defaults()
        .with_num_leaves(3)
        .parse_str(&mut parser);
    // the comments are skipped; the tree lacks its semicolon
    assert!(matches!(
        tree.err().unwrap().kind(),
        ParsingErrorType::InvalidNewickString(_)
    ));
    let closed = format!("{};", newick_with_comment);
    let mut parser = ByteParser::from_str(&closed);
    let tree = NewickParser::new_compact_defaults()
        .with_num_leaves(3)
        .parse_str(&mut parser);
    assert!(tree.is_ok());
}

#[test]
fn parse_all_reads_every_tree_and_shares_labels() {
    let parser = ByteParser::from_str("(A,B); [two] ((A:1,C:2):1,B:3);\n");
    let mut newick_parser = NewickParser::new_compact_defaults();
    let trees = newick_parser.parse_all(parser).unwrap();
    assert_eq!(trees.len(), 2);
    assert_eq!(trees[0].num_vertices(), 3);
    assert_eq!(trees[1].num_vertices(), 5);
    let map = newick_parser.into_label_storage();
    assert_eq!(map.num_labels(), 3);
    assert_eq!(map.get_index("C"), Some(2));
    assert!(trees[0].is_valid());
    assert!(!trees[1].is_valid() || 2usize.is_valid_for_tree(3));
}

#[test]
fn negative_branch_length_is_an_error() {
    let mut parser = ByteParser::from_str("(A:-1.0,B:2.0);");
    let tree = NewickParser::new_compact_defaults().parse_str(&mut parser);
    let error = tree.err().unwrap();
    assert_eq!(
        error.kind(),
        &ParsingErrorType::InvalidNewickString("Invalid branch length: -1.0".to_string())
    );
}

#[test]
fn simple_tree_with_empty_label_is_not_valid() {
    let mut parser = ByteParser::from_str("(,B);");
    let tree = NewickParser::new_simple_defaults().parse_str(&mut parser).unwrap();
    assert_eq!(tree.num_vertices(), 3);
    assert!(!tree.is_valid());
    let mut storage = nexwick::model::simple_tree_builder::SimpleLabelStorage::new();
    assert_eq!(storage.store_and_ref("x"), "x");
    assert_eq!(storage.store_and_ref("x"), "x");
    assert_eq!(storage.num_labels(), 1);
}

#[test]
fn zero_leaves_cannot_be_parsed_for() {
    let mut parser = ByteParser::from_str("(A,B);");
    let tree = NewickParser::new_compact_defaults().with_num_leaves(0).parse_str(&mut parser);
    assert!(matches!(tree.err().unwrap().kind(), ParsingErrorType::InvalidNewickString(_)));
}

// --- TESTS ANNOTATION PARSING ---

use nexwick::model::annotation::AnnotationValue;

fn float_of(value: Option<&AnnotationValue>) -> f64 {
    match value {
        Some(AnnotationValue::Float(text)) => text.parse::<f64>().unwrap(),
        _ => panic!("no float"),
    }
}

#[test]
fn test_annotations_on_leaves() {
    let newick = "((A[&rate=0.5]:1.0,B[&rate=0.8]:2.0):3.0,C[&rate=1.2]:4.0);";
    let mut parser = ByteParser::from_str(newick);
    let mut newick_parser = NewickParser::new_compact_defaults()
        .with_num_leaves(3)
        .with_annotations();
    let tree = newick_parser.parse_str(&mut parser).unwrap();

    let annots = tree.annotations().expect("Expected annotations");

    // Build order: A=0, B=1, internal(A,B)=2, C=3, root=4
    let rate_a = annots.get("rate", 0);
    let rate_b = annots.get("rate", 1);
    let rate_c = annots.get("rate", 3);

    assert!((float_of(rate_a) - 0.5).abs() < 1e-10);
    assert!((float_of(rate_b) - 0.8).abs() < 1e-10);
    assert!((float_of(rate_c) - 1.2).abs() < 1e-10);
}

#[test]
fn test_annotations_on_internal_and_root() {
    let newick = "((A:1.0,B:2.0)[&height=3.0]:3.0,C:4.0)[&height=5.0];";
    let mut parser = ByteParser::from_str(newick);
    let mut newick_parser = NewickParser::new_compact_defaults()
        .with_num_leaves(3)
        .with_annotations();
    let tree = newick_parser.parse_str(&mut parser).unwrap();

    let annots = tree.annotations().expect("Expected annotations");

    // Build order: A=0, B=1, internal(A,B)=2, C=3, root=4
    let root = tree.root();
    let (internal_idx, _) = root.children().unwrap();

    let height_internal = annots.get("height", internal_idx);
    let height_root = annots.get("height", root.index());

    assert!((float_of(height_internal) - 3.0).abs() < 1e-10);
    assert!((float_of(height_root) - 5.0).abs() < 1e-10);
}

#[test]
fn test_annotations_multiple_keys() {
    let newick =
        "((A[&rate=0.5,pop=100]:1.0,B[&rate=0.8,pop=200]:2.0):3.0,C[&rate=1.2,pop=300]:4.0);";
    let mut parser = ByteParser::from_str(newick);
    let mut newick_parser = NewickParser::new_compact_defaults()
        .with_num_leaves(3)
        .with_annotations();
    let tree = newick_parser.parse_str(&mut parser).unwrap();

    let annots = tree.annotations().expect("Expected annotations");

    assert!((float_of(annots.get("rate", 0)) - 0.5).abs() < 1e-10);
    assert!(matches!(
        annots.get("pop", 0),
        Some(AnnotationValue::Int(100))
    ));
    assert!(matches!(
        annots.get("pop", 1),
        Some(AnnotationValue::Int(200))
    ));
    assert!(matches!(
        annots.get("pop", 3),
        Some(AnnotationValue::Int(300))
    ));
    let column = annots.get_all_for_key("pop").unwrap();
    assert_eq!(column.len(), 5);
    assert!(column[2].is_none());
    assert!(annots.get_all_for_key("none").is_none());
}

#[test]
fn test_annotations_string_value() {
    let newick = "((A[&clade=mammals]:1.0,B[&clade=mammals]:2.0):3.0,C[&clade=birds]:4.0);";
    let mut parser = ByteParser::from_str(newick);
    let mut newick_parser = NewickParser::new_compact_defaults()
        .with_num_leaves(3)
        .with_annotations();
    let tree = newick_parser.parse_str(&mut parser).unwrap();

    let annots = tree.annotations().expect("Expected annotations");

    assert!(
        matches!(annots.get("clade", 0), Some(AnnotationValue::String(ref s)) if s == "mammals")
    );
    assert!(matches!(annots.get("clade", 3), Some(AnnotationValue::String(ref s)) if s == "birds"));
}

#[test]
fn test_no_annotations_when_disabled() {
    let newick = "((A[&rate=0.5]:1.0,B[&rate=0.8]:2.0):3.0,C[&rate=1.2]:4.0);";
    let mut parser = ByteParser::from_str(newick);
    let mut newick_parser = NewickParser::new_compact_defaults().with_num_leaves(3);
    // annotations NOT enabled: [&...] treated as comments
    let tree = newick_parser.parse_str(&mut parser).unwrap();

    assert!(tree.annotations().is_none());
}

#[test]
fn test_no_annotations_returns_none() {
    let newick = "((A:1.0,B:2.0):3.0,C:4.0);";
    let mut parser = ByteParser::from_str(newick);
    let mut newick_parser = NewickParser::new_compact_defaults()
        .with_num_leaves(3)
        .with_annotations();
    let tree = newick_parser.parse_str(&mut parser).unwrap();

    // Annotations enabled but tree has none
    assert!(tree.annotations().is_none());
}

#[test]
fn annotation_values_are_classified_in_order() {
    let newick = "(A[&a=-12,b=1e3,c=inf,d=9223372036854775808,e=x1]:1,B);";
    let mut parser = ByteParser::from_str(newick);
    let mut newick_parser = NewickParser::new_compact_defaults().with_annotations();
    let tree = newick_parser.parse_str(&mut parser).unwrap();
    let annots = tree.annotations().unwrap();
    assert!(matches!(annots.get("a", 0), Some(AnnotationValue::Int(-12))));
    assert!(matches!(annots.get("b", 0), Some(AnnotationValue::Float(ref s)) if s == "1e3"));
    assert!(matches!(annots.get("c", 0), Some(AnnotationValue::Float(ref s)) if s == "inf"));
    assert!(matches!(annots.get("d", 0), Some(AnnotationValue::Float(_))));
    assert!(matches!(annots.get("e", 0), Some(AnnotationValue::String(ref s)) if s == "x1"));
    assert!(annots.get("a", 1).is_none());
}

#[test]
fn empty_annotation_key_is_an_error() {
    let mut parser = ByteParser::from_str("(A[&=1],B);");
    let result = NewickParser::new_compact_defaults().with_annotations().parse_str(&mut parser);
    assert_eq!(
        result.err().unwrap().kind(),
        &ParsingErrorType::InvalidNewickString("Empty annotation key".to_string())
    );
}
