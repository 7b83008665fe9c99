use kepce_api::comment_tree::comment_forest;

#[test]
fn replies_hang_under_parents_and_orphans_are_roots() {
    let ids = vec![10, 11, 12, 13, 14];
    let parents = vec![None, Some(10), Some(99), Some(11), Some(10)];
    let f = comment_forest(&ids, &parents, None, None);
    assert_eq!(f.roots, vec![0, 2]);
    assert_eq!(f.children, vec![vec![1, 4], vec![3], vec![], vec![], vec![]]);
}

#[test]
fn roots_are_paged() {
    let ids: Vec<u128> = (1..=6).collect();
    let parents = vec![None; 6];
    assert_eq!(comment_forest(&ids, &parents, Some(2), Some(1)).roots, vec![1, 2]);
    assert_eq!(comment_forest(&ids, &parents, Some(10), Some(4)).roots, vec![4, 5]);
    assert_eq!(comment_forest(&ids, &parents, None, Some(6)).roots, Vec::<usize>::new());
    assert_eq!(comment_forest(&ids, &parents, Some(0), None).roots, Vec::<usize>::new());
    assert_eq!(comment_forest(&ids, &parents, Some(9999), None).roots.len(), 6);
}
