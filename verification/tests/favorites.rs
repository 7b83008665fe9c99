use kepce_api::favorites::{dashboard_dish_ids, named_dishes, Favorites};

#[test]
fn favourites_and_pins_move_together() {
    let mut f = Favorites { favorites: vec![1], pinned: vec![1, 5] };
    assert!(f.toggle_favorite(5));
    assert_eq!(f.favorites, vec![1, 5]);
    assert_eq!(f.pinned, vec![1, 5]);
    assert!(f.toggle_favorite(7));
    assert_eq!(f.pinned, vec![1, 5, 7]);
    assert!(!f.toggle_favorite(1));
    assert_eq!(f.favorites, vec![5, 7]);
    assert_eq!(f.pinned, vec![5, 7]);
    assert!(!f.toggle_pinned(7));
    assert_eq!(f.pinned, vec![5]);
    assert!(f.toggle_pinned(9));
    assert_eq!(f.pinned, vec![5, 9]);
    assert_eq!(f.favorites, vec![5, 7]);
}

#[test]
fn dashboard_lists() {
    assert_eq!(dashboard_dish_ids(&vec![3, 1], &vec![1, 4, 4, 2]), vec![3, 1, 4, 2]);
    let names = vec![(1, "Pilav".to_string()), (4, "Çorba".to_string()), (1, "Bulgur Pilavı".to_string())];
    assert_eq!(
        named_dishes(&vec![4, 2, 1], &names),
        vec![(4, "Çorba".to_string()), (1, "Bulgur Pilavı".to_string())]
    );
}
