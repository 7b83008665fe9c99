use kepce_api::catalogue::{dish_constraints, dish_search_pattern, relink_menus, split_dish_name, MenuDishLink};

#[test]
fn dish_names_split() {
    assert_eq!(split_dish_name("Pilav / Ayran", "/").unwrap(), vec!["Pilav".to_string(), "Ayran".to_string()]);
    assert_eq!(split_dish_name(" Çorba -- Ekmek -- ", "--").unwrap(), vec!["Çorba".to_string(), "Ekmek".to_string()]);
    assert_eq!(split_dish_name("Pilav", "/").unwrap_err(), "Yemek ismi belirtilen delimiter ile bölünemedi.");
    assert!(split_dish_name("Pilav / ", "/").is_err());
    assert_eq!(split_dish_name("ab", "").unwrap(), vec!["a".to_string(), "b".to_string()]);
}

#[test]
fn menus_are_relinked() {
    let links = vec![
        MenuDishLink { menu_id: 1, dish_alias_id: 5, order_index: 2, is_alternative: false, package_name: "NORMAL".into(), amount: Some("1 kase".into()), calories: Some(90) },
        MenuDishLink { menu_id: 2, dish_alias_id: 5, order_index: 0, is_alternative: true, package_name: "NORMAL".into(), amount: None, calories: None },
    ];
    let out = relink_menus(&links, &vec![10, 11]);
    let summary: Vec<(i32, i32, i32)> = out.iter().map(|l| (l.menu_id, l.dish_alias_id, l.order_index)).collect();
    assert_eq!(summary, vec![(1, 10, 2), (1, 11, 2), (2, 10, 0), (2, 11, 0)]);
    assert_eq!(out[1].amount.as_deref(), Some("1 kase"));
}

#[test]
fn catalogue_listing() {
    assert_eq!(dish_constraints(true, true, false), vec!["Vegan".to_string(), "Vejetaryen".to_string()]);
    assert_eq!(dish_constraints(false, false, true), vec!["Glutensiz".to_string()]);
    assert_eq!(dish_search_pattern(Some("  mercimek ")).as_deref(), Some("%mercimek%"));
    assert_eq!(dish_search_pattern(Some("   ")), None);
    assert_eq!(dish_search_pattern(None), None);
}
