use fluxfox::file_parsers::compression::lzhuf::node_pool::{Error, Side, Tree};

fn small_tree() -> Tree {
    // Root 0 for symbol 1, with children 1 (left) and 2 (right), and 3 left of 1.
    let mut t = Tree::create(8, 2);
    t.spawn_root(1, 0).unwrap();
    t.set_cursor(0).unwrap();
    t.spawn(1, Side::Left).unwrap();
    t.spawn(2, Side::Right).unwrap();
    t.down(Side::Left).unwrap();
    t.spawn(3, Side::Left).unwrap();
    t
}

#[test]
fn tree_navigation() {
    let mut t = small_tree();
    assert_eq!(t.get_cursor(), Some(1));
    assert_eq!(t.get_down().unwrap(), [Some(3), None]);
    assert_eq!(t.get_parent_and_side().unwrap(), (0, Side::Left));
    // Only a root carries a symbol.
    assert!(matches!(t.get_symbol(), Err(Error::BrokenConnectionOrNotRoot)));
    assert_eq!(t.up().unwrap(), 0);
    assert!(t.is_root().unwrap());
    assert_eq!(t.get_symbol().unwrap(), 1);
    assert!(!t.is_leaf().unwrap());
    assert_eq!(t.terminus(Side::Left).unwrap(), 3);
    assert!(t.is_leaf().unwrap());
    assert!(!t.is_root().unwrap());
}

#[test]
fn tree_spawn_errors() {
    let mut t = small_tree();
    assert!(matches!(t.spawn(9, Side::Right), Err(Error::OutOfRange)));
    t.set_cursor(0).unwrap();
    assert!(matches!(t.spawn(4, Side::Left), Err(Error::NodeExists)));
    assert!(matches!(t.spawn_root(1, 2), Err(Error::NodeExists)));
    assert!(matches!(t.spawn_root(5, 4), Err(Error::OutOfRange)));
    let mut empty = Tree::create(4, 1);
    assert!(matches!(empty.spawn(1, Side::Left), Err(Error::NoCursor)));
}

#[test]
fn tree_drop_frees_branch() {
    let mut t = small_tree();
    t.set_cursor(0).unwrap();
    assert!(!t.is_free(1).unwrap());
    assert!(!t.is_free(3).unwrap());
    t.drop_branch(Side::Left).unwrap();
    assert!(t.is_free(1).unwrap());
    assert!(t.is_free(3).unwrap());
    assert!(!t.is_free(2).unwrap());
    assert_eq!(t.get_down().unwrap(), [None, Some(2)]);
    // A freed node can be reused.
    t.spawn(1, Side::Left).unwrap();
    assert_eq!(t.get_down().unwrap(), [Some(1), Some(2)]);
}
