use kepce_api::og_image::{failure_text, render_og_card, render_og_profile, RenderFailure};

#[test]
fn test_render_og_card_png_magic_bytes() {
    let png = render_og_card(
        Some("İstanbul"),
        "3 Eylül 2026 · Akşam Yemeği",
        Some("4 Çeşit Yemek · 1100-1500 kkal"),
        Some("Öğün"),
    )
    .expect("Render failed");

    assert!(png.starts_with(b"\x89PNG\r\n\x1a\n"), "Output must be valid PNG");
    assert!(png.len() > 10000, "PNG should have substantial size");
}

#[test]
fn test_render_og_profile_png() {
    let png = render_og_profile("@modparator", "1.420 Karma · Ağustos 2026", None, "Kullanıcı Profili")
        .expect("Profile render failed");

    assert!(png.starts_with(b"\x89PNG\r\n\x1a\n"), "Output must be valid PNG");
}

#[test]
fn render_failures_say_what_failed() {
    assert_eq!(failure_text(RenderFailure::Canvas), "Pixmap oluşturulamadı");
    assert_eq!(failure_text(RenderFailure::Svg("ParsingFailed".to_string())), "SVG parse hatası: ParsingFailed");
    assert_eq!(failure_text(RenderFailure::Png("x".to_string())), "PNG encode hatası: x");
}

#[test]
fn escaped_text_reads_back() {
    let text = "Kuru & Pilav <\"en iyi\"> 'tabldot' &amp;";
    let escaped = kepce_api::og_image::escape_xml(text);
    assert_eq!(escaped, "Kuru &amp; Pilav &lt;&quot;en iyi&quot;&gt; &apos;tabldot&apos; &amp;amp;");
    let decoded = escaped
        .replace("&lt;", "<")
        .replace("&gt;", ">")
        .replace("&quot;", "\"")
        .replace("&apos;", "'")
        .replace("&amp;", "&");
    assert_eq!(decoded, text);
    assert_eq!(kepce_api::og_image::escape_xml("plain text"), "plain text");
}

#[test]
fn cards_are_1200_by_630() {
    let png = render_og_card(Some("Başlık"), "Alt satır", Some("ikinci"), Some("Rozet")).unwrap();
    assert_eq!(&png[12..16], b"IHDR");
    assert_eq!(&png[16..20], &1200u32.to_be_bytes());
    assert_eq!(&png[20..24], &630u32.to_be_bytes());
    let png = render_og_profile("@ayse", "12 Karma · 2026", None, "Kullanıcı Profili").unwrap();
    assert_eq!(&png[16..24], &[0, 0, 4, 176, 0, 0, 2, 118]);
}
