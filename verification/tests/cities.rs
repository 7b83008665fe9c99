use kepce_api::cities::{active_cities, turkish_alphabet_index, turkish_cmp, CityRecord};
use std::cmp::Ordering;

fn city(id: i32, name: &str) -> CityRecord {
    CityRecord { id, name: name.to_string(), slug: name.to_lowercase() }
}

#[test]
fn alphabet_positions() {
    assert_eq!(turkish_alphabet_index('A'), 1);
    assert_eq!(turkish_alphabet_index('ç'), 4);
    assert_eq!(turkish_alphabet_index('ı'), 11);
    assert_eq!(turkish_alphabet_index('İ'), 12);
    assert_eq!(turkish_alphabet_index('i'), 12);
    assert_eq!(turkish_alphabet_index('Z'), 29);
    assert_eq!(turkish_alphabet_index('q'), 0);
    assert_eq!(turkish_alphabet_index(' '), 0);
}

#[test]
fn turkish_comparison() {
    assert_eq!(turkish_cmp("Çorum", "Denizli"), Ordering::Less);
    assert_eq!(turkish_cmp("Ceyhan", "Çorum"), Ordering::Less);
    assert_eq!(turkish_cmp("Iğdır", "İzmir"), Ordering::Less);
    assert_eq!(turkish_cmp("izmir", "İZMİR"), Ordering::Equal);
    assert_eq!(turkish_cmp("Van", "Vanköy"), Ordering::Less);
    assert_eq!(turkish_cmp("Şanlıurfa", "Sakarya"), Ordering::Greater);
    assert_eq!(turkish_cmp("Ağrı", "Adana"), Ordering::Greater);
}

#[test]
fn active_cities_in_turkish_order_with_celiac_marks() {
    let cities = vec![
        city(1, "Zonguldak"),
        city(2, "Şanlıurfa"),
        city(3, "İzmir"),
        city(4, "Ağrı"),
        city(5, "Çanakkale"),
        city(6, "Iğdır"),
        city(7, "Adana"),
        city(8, "Bursa"),
    ];
    let listed = active_cities(cities, &vec![3, 7]);
    let names: Vec<&str> = listed.iter().map(|c| c.name.as_str()).collect();
    assert_eq!(
        names,
        vec!["Adana", "Ağrı", "Bursa", "Çanakkale", "Iğdır", "İzmir", "Şanlıurfa", "Zonguldak"]
    );
    let celiac: Vec<bool> = listed.iter().map(|c| c.has_celiac).collect();
    assert_eq!(celiac, vec![true, false, false, false, false, true, false, false]);
    assert_eq!(listed[5].id, 3);
    assert_eq!(listed[5].slug, "İzmir".to_lowercase());
}

#[test]
fn equal_names_keep_their_order() {
    let listed = active_cities(vec![city(2, "Van"), city(1, "VAN")], &vec![]);
    assert_eq!(listed[0].id, 2);
    assert_eq!(listed[1].id, 1);
}

#[test]
fn no_cities_no_list() {
    assert!(active_cities(vec![], &vec![1]).is_empty());
}
