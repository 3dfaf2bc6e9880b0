use copykitty::{NodeId, VisitedSet};

#[test]
fn a_directory_is_entered_only_once() {
    let mut visited = VisitedSet::new();
    let first = NodeId { device: 1, inode: 10 };
    let second = NodeId { device: 1, inode: 11 };
    let other_device = NodeId { device: 2, inode: 10 };

    assert!(visited.insert(first));
    assert!(!visited.insert(first));
    assert!(visited.insert(second));
    assert!(visited.insert(other_device));
    assert!(!visited.insert(first));
    assert_eq!(visited.len(), 3);
}
