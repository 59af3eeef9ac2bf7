use nexwick::model::branch_length::BranchLength;
use nexwick::model::tree::LabelIndex;
use nexwick::model::vertex::Vertex;

fn bl(value: f64) -> Option<BranchLength> {
    Some(BranchLength::new(&value.to_string()))
}

// ============= Branch Length Tests =============
#[test]
fn test_branch_lengths() {
    let test_length = 1.234;
    let vertex: Vertex<LabelIndex> = Vertex::new_internal(5, (1, 2), bl(test_length));
    assert_eq!(
        vertex.branch_length().unwrap().text().parse::<f64>().unwrap(),
        test_length
    );
    assert!(vertex.has_branch_length());
    assert!(BranchLength::parse(&(-1.0f64).to_string()).is_none());
}

// ============= Vertex Variant Consistency Tests =============
#[test]
fn test_is_x() {
    let leaf = Vertex::new_leaf(0, bl(0.5), 10);
    assert!(leaf.is_leaf());

    let vertex: Vertex<LabelIndex> = Vertex::new_internal(0, (1, 2), bl(0.5));
    assert!(vertex.is_internal());

    let root: Vertex<LabelIndex> = Vertex::new_root(2, (42, 42), None);
    assert!(root.is_root());
    assert!(!root.is_leaf() && !root.is_internal());
    assert_eq!(root.index(), 2);
}

#[test]
fn test_nonleaf_vertex_has_no_label() {
    let internal: Vertex<LabelIndex> = Vertex::new_internal(0, (1, 2), bl(0.5));
    assert_eq!(internal.label(), None);

    let root: Vertex<LabelIndex> = Vertex::new_root(0, (12, 34), bl(0.6));
    assert_eq!(root.label(), None);
}

#[test]
fn test_parent_unset() {
    let vertex: Vertex<LabelIndex> = Vertex::new_internal(0, (1, 2), bl(0.5));
    assert_eq!(vertex.parent_index(), None);
    assert!(!vertex.has_parent());

    let leaf: Vertex<LabelIndex> = Vertex::new_leaf(0, bl(0.5), 0);
    assert_eq!(leaf.parent_index(), None);
    assert!(!leaf.has_parent());

    let root: Vertex<LabelIndex> = Vertex::new_root(2, (42, 42), None);
    assert_eq!(root.parent_index(), None);

    let mut leaf: Vertex<LabelIndex> = Vertex::new_leaf(0, None, 7);
    leaf.set_parent(3);
    assert!(leaf.has_parent());
    assert_eq!(leaf.parent_index(), Some(3));
}

#[test]
fn test_leaf_has_no_children() {
    let vertex: Vertex<LabelIndex> = Vertex::new_leaf(0, bl(0.5), 42);
    assert_eq!(vertex.children(), None);
    let internal: Vertex<LabelIndex> = Vertex::new_internal(2, (0, 1), None);
    assert_eq!(internal.children(), Some((0, 1)));
}
