use nexwick::model::branch_length::BranchLength;
use nexwick::model::leaf_label_map::LeafLabelMap;
use nexwick::model::tree::CompactTree;
use nexwick::model::tree::GenTree;
use nexwick::model::tree::SimpleTree;
use nexwick::newick::writer::NewickStyle;

fn length(text: &str) -> Option<BranchLength> {
    Some(BranchLength::new(text))
}

fn bl(value: f64) -> Option<BranchLength> {
    Some(BranchLength::new(&value.to_string()))
}

fn small_tree() -> (CompactTree, LeafLabelMap) {
    // ((A:0.2,B:0.2):0.2,C:0.4);
    let mut tree = GenTree::new(3);
    let mut labels = LeafLabelMap::new(3);
    let a = tree.add_leaf(length("0.2"), labels.get_or_insert("A"));
    let b = tree.add_leaf(length("0.2"), labels.get_or_insert("B"));
    let c = tree.add_leaf(length("0.4"), labels.get_or_insert("C"));
    let internal = tree.add_internal_vertex((a, b), length("0.2"));
    tree.add_root_without_branch((internal, c));
    (tree, labels)
}

#[test]
fn test_building_tree() {
    let mut tree: CompactTree = GenTree::new(3);
    let index_l1 = tree.add_leaf(bl(1.0), 0);
    let index_l2 = tree.add_leaf(bl(1.0), 1);
    let index_l3 = tree.add_leaf(bl(0.5), 2);
    let index_i1 = tree.add_internal_vertex((index_l1, index_l2), bl(1.5));
    let index_root = tree.add_root_without_branch((index_l3, index_i1));

    // Counts
    assert_eq!(tree.num_leaves(), 3);
    assert_eq!(tree.num_internal(), 1);
    assert_eq!(tree.num_vertices(), 5);

    // Root
    assert_eq!(tree.root().index(), index_root);
    let root = tree.root();
    assert_eq!(root.index(), index_root);
    assert!(root.is_root());

    // Leaf
    let l2 = tree.vertex(index_l2);
    assert!(l2.is_leaf());
    assert_eq!(l2.index(), index_l2);
    assert_eq!(*l2.label().unwrap(), 1);

    // Internal
    let inti = tree.vertex(index_i1);
    assert!(inti.is_internal());
    assert_eq!(inti.index(), index_i1);
    assert_eq!(inti.branch_length().unwrap().text().parse::<f64>().unwrap(), 1.5);
}

#[test]
fn building_a_tree_step_by_step() {
    let (tree, labels) = small_tree();
    assert!(tree.is_valid());
    assert_eq!(tree.num_leaves(), 3);
    assert_eq!(tree.num_internal(), 1);
    assert_eq!(tree.num_vertices(), 5);
    assert_eq!(tree.num_leaves_init(), 3);
    assert!(tree.is_root_set());
    assert_eq!(tree.root_index(), 4);
    assert!(tree.root().is_root());
    assert_eq!(tree.vertex(3).children(), Some((0, 1)));
    assert_eq!(tree.vertex(0).parent_index(), Some(3));
    assert_eq!(labels.num_labels(), 3);
    assert!(tree.vertices_have_branch_lengths());
    assert!(tree.name().is_none());
    let tree = tree.with_name("small".to_string());
    assert_eq!(tree.name().unwrap(), "small");
}

#[test]
fn test_post_order_iter_visits_children_before_parents() {
    // Build tree: ((A:1.0,B:1.0):0.5,C:1.5):0.0;
    let mut tree: CompactTree = GenTree::new(3);
    let a = tree.add_leaf(bl(1.0), 0);
    let b = tree.add_leaf(bl(1.0), 1);
    let c = tree.add_leaf(bl(1.5), 2);
    let internal = tree.add_internal_vertex((a, b), bl(0.5));
    let root = tree.add_root_without_branch((internal, c));

    let visited = tree.post_order_iter();

    // In post-order: leaves first, then internal, then root
    assert_eq!(visited.len(), 5);

    // Leaves should come before internal node
    let a_pos = visited.iter().position(|&idx| idx == a).unwrap();
    let b_pos = visited.iter().position(|&idx| idx == b).unwrap();
    let c_pos = visited.iter().position(|&idx| idx == c).unwrap();
    let internal_pos = visited.iter().position(|&idx| idx == internal).unwrap();
    let root_pos = visited.iter().position(|&idx| idx == root).unwrap();

    assert!(a_pos < internal_pos);
    assert!(b_pos < internal_pos);
    assert!(internal_pos < root_pos);
    assert!(c_pos < root_pos);

    // Root should be last
    assert_eq!(visited[4], root);
    assert_eq!(visited, vec![0, 1, 3, 2, 4]);
    let mut seen = vec![false; tree.num_vertices()];
    for index in visited {
        if let Some((left, right)) = tree.vertex(index).children() {
            assert!(seen[left]);
            assert!(seen[right]);
        }
        seen[index] = true;
    }
    assert!(seen.iter().all(|&s| s));
}

#[test]
fn test_pre_order_iter_visits_parents_before_children() {
    // Build tree: ((A:1.0,B:1.0):0.5,C:1.5):0.0;
    let mut tree: CompactTree = GenTree::new(3);
    let a = tree.add_leaf(bl(1.0), 0);
    let b = tree.add_leaf(bl(1.0), 1);
    let c = tree.add_leaf(bl(1.5), 2);
    let internal = tree.add_internal_vertex((a, b), bl(0.5));
    let root = tree.add_root_without_branch((internal, c));

    let visited = tree.pre_order_iter();

    // In pre-order: root first, then children
    assert_eq!(visited.len(), 5);

    let a_pos = visited.iter().position(|&idx| idx == a).unwrap();
    let b_pos = visited.iter().position(|&idx| idx == b).unwrap();
    let c_pos = visited.iter().position(|&idx| idx == c).unwrap();
    let internal_pos = visited.iter().position(|&idx| idx == internal).unwrap();
    let root_pos = visited.iter().position(|&idx| idx == root).unwrap();

    // Root should be first
    assert_eq!(visited[0], root);

    // Parent before children
    assert!(root_pos < internal_pos);
    assert!(root_pos < c_pos);
    assert!(internal_pos < a_pos);
    assert!(internal_pos < b_pos);
    assert_eq!(visited, vec![4, 3, 0, 1, 2]);
    let mut seen = vec![false; tree.num_vertices()];
    for index in visited {
        if let Some(parent) = tree.vertex(index).parent_index() {
            assert!(seen[parent]);
        }
        seen[index] = true;
    }
    assert!(seen.iter().all(|&s| s));
}

#[test]
fn test_iter_on_empty_tree() {
    let tree: CompactTree = GenTree::new(2);

    let post_count = tree.post_order_iter().len();
    let pre_count = tree.pre_order_iter().len();

    assert_eq!(post_count, 0);
    assert_eq!(pre_count, 0);
    assert!(!tree.is_valid());
}

// ============= To Newick Tests =============

#[test]
fn test_to_newick_with_labels() {
    let mut tree: CompactTree = GenTree::new(3);
    let mut labels = LeafLabelMap::new(3);

    let a = tree.add_leaf(bl(1.0), labels.get_or_insert("A"));
    let b = tree.add_leaf(bl(1.0), labels.get_or_insert("B"));
    let c = tree.add_leaf(bl(2.0), labels.get_or_insert("C"));
    let internal = tree.add_internal_vertex((a, b), bl(0.5));
    tree.add_root_without_branch((internal, c));

    let newick = tree.to_newick(&NewickStyle::Label, Some(&labels));
    assert_eq!(newick, "((A:1,B:1):0.5,C:2);");
}

#[test]
fn test_to_newick_zero_indexed() {
    let mut tree: CompactTree = GenTree::new(2);
    let a = tree.add_leaf(bl(1.0), 0);
    let b = tree.add_leaf(bl(2.0), 1);
    tree.add_root_without_branch((a, b));

    let newick = tree.to_newick(&NewickStyle::ZeroIndexed, None);
    assert_eq!(newick, "(0:1,1:2);");
}

#[test]
fn test_to_newick_one_indexed() {
    let mut tree: CompactTree = GenTree::new(2);
    let a = tree.add_leaf(bl(1.5), 0);
    let b = tree.add_leaf(bl(2.5), 1);
    tree.add_root_without_branch((a, b));

    let newick = tree.to_newick(&NewickStyle::OneIndexed, None);
    assert_eq!(newick, "(1:1.5,2:2.5);");
}

#[test]
fn arena_with_a_doubled_child_passes_validation_with_an_even_size() {
    let mut tree: SimpleTree = GenTree::new(1);
    let a = tree.add_leaf(None, "A".to_string());
    tree.add_root((a, a), None);
    assert!(tree.is_valid());
    assert_eq!(tree.num_vertices(), 2);
}

#[test]
fn validation_rejects_unanswered_links_and_unfit_labels() {
    let mut tree: CompactTree = GenTree::new(2);
    let a = tree.add_leaf(None, 0);
    let b = tree.add_leaf(None, 1);
    assert!(!tree.is_valid());
    tree.add_root((a, b), None);
    assert!(tree.is_valid());
    let mut tree: CompactTree = GenTree::new(2);
    let a = tree.add_leaf(None, 0);
    let b = tree.add_leaf(None, 2);
    tree.add_root((a, b), None);
    assert!(!tree.is_valid());
    let mut tree: CompactTree = GenTree::new(2);
    let a = tree.add_leaf(None, 0);
    let b = tree.add_leaf(None, 1);
    let c = tree.add_leaf(None, 1);
    tree.add_internal_vertex((a, b), None);
    tree.add_root((a, c), None);
    assert!(!tree.is_valid());
}

