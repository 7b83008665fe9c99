use kepce_api::digest::{cache_plan, clean_etag, global_fingerprint, hash_token, sha256_hex};

#[test]
fn known_digests() {
    assert_eq!(sha256_hex(b"abc"), "ba7816bf8f01cfea414140de5dae2223b00361a396177a9cb410ff61f20015ad");
    assert_eq!(sha256_hex(b""), "e3b0c44298fc1c149afbf4c8996fb92427ae41e4649b934ca495991b7852b855");
    assert_eq!(hash_token("tok"), "1a7674eb4ee78df7e1ac439a93c3fa8e3c945784d4dec9fd8e3011738b2f1d62");
}

#[test]
fn fingerprint_sorts_heads() {
    assert_eq!(global_fingerprint(&vec![]), "GENESIS_STATE");
    let expected = "6783a31eabf68ccc0660f935c0826282bdd2241f3a80a9f2d10d59aea9ebb5d8";
    assert_eq!(global_fingerprint(&vec!["b".to_string(), "a".to_string()]), expected);
    assert_eq!(global_fingerprint(&vec!["a".to_string(), "b".to_string()]), expected);
}

#[test]
fn etag_headers_are_cleaned() {
    assert_eq!(clean_etag(" W/\"abc-gzip\" ").into_iter().collect::<String>(), "abc");
    assert_eq!(clean_etag("W/W/\"\"x\"\"").into_iter().collect::<String>(), "x");
    assert_eq!(clean_etag("abc-gzip-gzip").into_iter().collect::<String>(), "abc");
    assert_eq!(clean_etag("\"").into_iter().collect::<String>(), "");
}

#[test]
fn conditional_answers() {
    let body = b"{\"ok\":true}";
    let hex = "4062edaf750fb8074e7e83e0c9028c94e32468a8b6f1614774328ef045150f93";
    let plain = cache_plan(None, body, 300);
    assert!(!plain.not_modified);
    assert_eq!(plain.etag, format!("\"{}\"", hex));
    assert_eq!(plain.cache_control, "public, max-age=300, s-maxage=3600, stale-while-revalidate=86400");
    let header = format!("W/\"{}-gzip\"", hex);
    assert!(cache_plan(Some(&header), body, 300).not_modified);
    assert!(cache_plan(Some(" * "), body, 60).not_modified);
    assert!(!cache_plan(Some("\"other\""), body, 60).not_modified);
}
