//! What the Open Graph cards of the site say: a menu, a city's day, a discussion, a user
//! profile and the fixed pages, each as the lines and badge a card is drawn with.

use vstd::prelude::*;
use vstd::string::StringExecFns;
use crate::calendar::CalendarDate;
use crate::assistant::{turkish_month_name, month_name, str_is};
use crate::dto::menu::MealType;
use crate::text::{decimal_i128, decimal_u128, extend_chars, extend_str, spec_decimal, spec_int_decimal, string_from_chars, char_vec};

verus! {

/// The lines of a card: title, first and second line, badge, and how long it may be
/// cached.
pub struct CardText {
    pub title: Option<String>,
    pub sub1: String,
    pub sub2: Option<String>,
    pub badge: Option<String>,
    pub cache_control: String,
}

/// A day as the cards write it: `5 Mart 2024`.
pub open spec fn spec_turkish_date(d: CalendarDate) -> Seq<char> {
    spec_decimal(d.day as nat) + " "@ + turkish_month_name(d.month as int) + " "@ + spec_int_decimal(d.year as int)
}

/// Writes a day as the cards do.
pub fn format_turkish_date(d: CalendarDate) -> (r: String)
    requires
        1 <= d.month <= 12,
    ensures
        r@ == spec_turkish_date(d),
{
    let mut v: Vec<char> = Vec::new();
    let day = decimal_u128(d.day as u128);
    extend_chars(&mut v, day.as_slice());
    extend_str(&mut v, " ");
    extend_str(&mut v, month_name(d.month));
    extend_str(&mut v, " ");
    let y = decimal_i128(d.year as i128);
    extend_chars(&mut v, y.as_slice());
    string_from_chars(v.as_slice())
}

/// How long the cards of menus and cities may be cached.
pub open spec fn day_cache() -> Seq<char> {
    "public, max-age=86400, s-maxage=604800"@
}

/// How long the cards of discussions and users may be cached.
pub open spec fn hour_cache() -> Seq<char> {
    "public, max-age=3600, s-maxage=86400"@
}

/// The second line of a menu card: its number of dishes and calorie range.
pub open spec fn spec_menu_sub2(dish_count: nat, min: Option<i32>, max: Option<i32>) -> Seq<char> {
    let head = spec_decimal(dish_count) + " Çeşit Yemek"@;
    match (min, max) {
        (Some(a), Some(b)) => head + " · "@ + spec_int_decimal(a as int) + "-"@ + spec_int_decimal(b as int) + " kkal"@,
        (Some(a), None) => head + " · "@ + spec_int_decimal(a as int) + " kkal"@,
        (None, Some(b)) => head + " · "@ + spec_int_decimal(b as int) + " kkal"@,
        (None, None) => head,
    }
}

/// The card of one menu: the city (or `Menü`), the day and meal, the dishes and
/// calories, badge `Öğün`.
pub fn menu_card(city: Option<String>, date: CalendarDate, meal: MealType, dish_count: u64, min: Option<i32>, max: Option<i32>) -> (r: CardText)
    requires
        1 <= date.month <= 12,
    ensures
        r.title matches Some(t) && t@ == (match city { Some(c) => c@, None => "Menü"@ }),
        r.sub1@ == spec_turkish_date(date) + " · "@ + meal.spec_turkish_name(),
        r.sub2 matches Some(s) && s@ == spec_menu_sub2(dish_count as nat, min, max),
        r.badge matches Some(b) && b@ == "Öğün"@,
        r.cache_control@ == day_cache(),
{
    let title = match city {
        Some(c) => c,
        None => String::from_str("Menü"),
    };
    let d = format_turkish_date(date);
    let mut s1: Vec<char> = char_vec(d.as_str());
    extend_str(&mut s1, " · ");
    extend_str(&mut s1, meal.turkish_name());
    let mut s2: Vec<char> = Vec::new();
    let n = decimal_u128(dish_count as u128);
    extend_chars(&mut s2, n.as_slice());
    extend_str(&mut s2, " Çeşit Yemek");
    match (min, max) {
        (Some(a), Some(b)) => {
            extend_str(&mut s2, " · ");
            let av = decimal_i128(a as i128);
            extend_chars(&mut s2, av.as_slice());
            extend_str(&mut s2, "-");
            let bv = decimal_i128(b as i128);
            extend_chars(&mut s2, bv.as_slice());
            extend_str(&mut s2, " kkal");
        },
        (Some(a), None) => {
            extend_str(&mut s2, " · ");
            let av = decimal_i128(a as i128);
            extend_chars(&mut s2, av.as_slice());
            extend_str(&mut s2, " kkal");
        },
        (None, Some(b)) => {
            extend_str(&mut s2, " · ");
            let bv = decimal_i128(b as i128);
            extend_chars(&mut s2, bv.as_slice());
            extend_str(&mut s2, " kkal");
        },
        (None, None) => {},
    }
    CardText {
        title: Some(title),
        sub1: string_from_chars(s1.as_slice()),
        sub2: Some(string_from_chars(s2.as_slice())),
        badge: Some(String::from_str("Öğün")),
        cache_control: String::from_str("public, max-age=86400, s-maxage=604800"),
    }
}

/// One menu of a city's day: its number of dishes and calorie range.
pub struct DayMenu {
    pub dish_count: u64,
    pub min: Option<i32>,
    pub max: Option<i32>,
}

/// The dishes of a city's day, and the sums of the calorie ranges of the menus that have
/// both bounds (with whether any has).
pub open spec fn day_totals(ms: Seq<DayMenu>) -> (int, int, int, bool)
    decreases ms.len(),
{
    if ms.len() == 0 {
        (0, 0, 0, false)
    } else {
        let (n, lo, hi, any) = day_totals(ms.drop_last());
        let m = ms.last();
        match (m.min, m.max) {
            (Some(a), Some(b)) => (n + m.dish_count, lo + a, hi + b, true),
            _ => (n + m.dish_count, lo, hi, any),
        }
    }
}

/// The totals of every prefix of the day fit the counters (a count in `u64`, calories
/// in `i32`).
pub open spec fn totals_fit(ms: Seq<DayMenu>) -> bool {
    forall|k: int| 0 <= k <= ms.len() ==> {
        let t = #[trigger] day_totals(ms.take(k));
        &&& t.0 <= u64::MAX
        &&& i32::MIN <= t.1 <= i32::MAX
        &&& i32::MIN <= t.2 <= i32::MAX
    }
}

/// The second line of a city's card.
pub open spec fn spec_city_sub2(ms: Seq<DayMenu>) -> Seq<char> {
    let (n, lo, hi, any) = day_totals(ms);
    if n > 0 && any {
        spec_decimal(n as nat) + " Çeşit Yemek · "@ + spec_int_decimal(lo) + "-"@ + spec_int_decimal(hi) + " kkal"@
    } else if n > 0 {
        spec_decimal(n as nat) + " Çeşit Yemek"@
    } else {
        "Günlük Yemekhane Listesi"@
    }
}

/// The card of a city's day: the city, the day, the dishes and calories of all its
/// menus, badge `Günlük Menü`.
pub fn city_card(city: String, today: CalendarDate, menus: &Vec<DayMenu>) -> (r: CardText)
    requires
        1 <= today.month <= 12,
        totals_fit(menus@),
    ensures
        r.title == Some(city),
        r.sub1@ == spec_turkish_date(today),
        r.sub2 matches Some(s) && s@ == spec_city_sub2(menus@),
        r.badge matches Some(b) && b@ == "Günlük Menü"@,
        r.cache_control@ == day_cache(),
{
    let mut n: u64 = 0;
    let mut lo: i32 = 0;
    let mut hi: i32 = 0;
    let mut any = false;
    let mut i: usize = 0;
    assert(menus@.take(0) =~= Seq::<DayMenu>::empty());
    while i < menus.len()
        invariant
            i <= menus@.len(),
            totals_fit(menus@),
            (n as int, lo as int, hi as int, any) == day_totals(menus@.take(i as int)),
        decreases menus@.len() - i,
    {
        proof {
            assert(menus@.take(i + 1).drop_last() =~= menus@.take(i as int));
            assert(menus@.take(i + 1).last() == menus@[i as int]);
            let t = day_totals(menus@.take(i + 1));
            assert(t.0 <= u64::MAX);
        }
        let m = &menus[i];
        n = n + m.dish_count;
        match (m.min, m.max) {
            (Some(a), Some(b)) => {
                lo = lo + a;
                hi = hi + b;
                any = true;
            },
            _ => {},
        }
        i = i + 1;
    }
    assert(menus@.take(menus@.len() as int) =~= menus@);
    let mut s2: Vec<char> = Vec::new();
    if n > 0 && any {
        let nv = decimal_u128(n as u128);
        extend_chars(&mut s2, nv.as_slice());
        extend_str(&mut s2, " Çeşit Yemek · ");
        let lv = decimal_i128(lo as i128);
        extend_chars(&mut s2, lv.as_slice());
        extend_str(&mut s2, "-");
        let hv = decimal_i128(hi as i128);
        extend_chars(&mut s2, hv.as_slice());
        extend_str(&mut s2, " kkal");
    } else if n > 0 {
        let nv = decimal_u128(n as u128);
        extend_chars(&mut s2, nv.as_slice());
        extend_str(&mut s2, " Çeşit Yemek");
    } else {
        extend_str(&mut s2, "Günlük Yemekhane Listesi");
    }
    CardText {
        title: Some(city),
        sub1: format_turkish_date(today),
        sub2: Some(string_from_chars(s2.as_slice())),
        badge: Some(String::from_str("Günlük Menü")),
        cache_control: String::from_str("public, max-age=86400, s-maxage=604800"),
    }
}

/// The card of a discussion: the city and day of its menu (`Kepçe · Tartışma` when the
/// menu is gone), who started it (`anonim` for a removed account), and how many comments
/// (the opening one and its replies) and votes it has, badge `Tartışma`.
pub fn thread_card(author: Option<String>, menu: Option<(Option<String>, CalendarDate)>, reply_count: u64, vote_count: u64) -> (r: CardText)
    requires
        reply_count < u64::MAX,
        menu matches Some((_, d)) ==> 1 <= d.month <= 12,
    ensures
        r.title matches Some(t) && t@ == (match menu {
            Some((c, d)) => (match c { Some(n) => n@, None => "Menü"@ }) + " · "@ + spec_turkish_date(d),
            None => "Kepçe · Tartışma"@,
        }),
        r.sub1@ == "@"@ + (match author { Some(a) => a@, None => "anonim"@ }) + " tarafından başlatıldı"@,
        r.sub2 matches Some(s) && s@ == spec_decimal((reply_count + 1) as nat) + " Yorum · "@ + spec_decimal(vote_count as nat) + " Oy"@,
        r.badge matches Some(b) && b@ == "Tartışma"@,
        r.cache_control@ == hour_cache(),
{
    let mut title: Vec<char> = Vec::new();
    match menu {
        Some((c, d)) => {
            match c {
                Some(n) => extend_str(&mut title, n.as_str()),
                None => extend_str(&mut title, "Menü"),
            }
            extend_str(&mut title, " · ");
            let ds = format_turkish_date(d);
            extend_str(&mut title, ds.as_str());
        },
        None => {
            extend_str(&mut title, "Kepçe");
            extend_str(&mut title, " · ");
            extend_str(&mut title, "Tartışma");
            proof {
                reveal_strlit("Kepçe");
                reveal_strlit(" · ");
                reveal_strlit("Tartışma");
                reveal_strlit("Kepçe · Tartışma");
            }
        },
    }
    let mut s1: Vec<char> = Vec::new();
    extend_str(&mut s1, "@");
    match author {
        Some(a) => extend_str(&mut s1, a.as_str()),
        None => extend_str(&mut s1, "anonim"),
    }
    extend_str(&mut s1, " tarafından başlatıldı");
    let mut s2: Vec<char> = Vec::new();
    let rc = decimal_u128((reply_count + 1) as u128);
    extend_chars(&mut s2, rc.as_slice());
    extend_str(&mut s2, " Yorum · ");
    let vc = decimal_u128(vote_count as u128);
    extend_chars(&mut s2, vc.as_slice());
    extend_str(&mut s2, " Oy");
    CardText {
        title: Some(string_from_chars(title.as_slice())),
        sub1: string_from_chars(s1.as_slice()),
        sub2: Some(string_from_chars(s2.as_slice())),
        badge: Some(String::from_str("Tartışma")),
        cache_control: String::from_str("public, max-age=3600, s-maxage=86400"),
    }
}

/// `s` without every leading `c` (`str::trim_start_matches` with a character).
pub open spec fn strip_leading_char(s: Seq<char>, c: char) -> Seq<char>
    decreases s.len(),
{
    if s.len() > 0 && s[0] == c { strip_leading_char(s.drop_first(), c) } else { s }
}

/// Removes every leading `c`.
pub fn trim_leading_char(s: &str, c: char) -> (r: String)
    ensures
        r@ == strip_leading_char(s@, c),
{
    let v = char_vec(s);
    let mut i: usize = 0;
    assert(v@.skip(0) =~= v@);
    while i < v.len() && v[i] == c
        invariant
            i <= v@.len(),
            strip_leading_char(s@, c) == strip_leading_char(v@.skip(i as int), c),
            v@ == s@,
        decreases v@.len() - i,
    {
        assert(v@.skip(i as int).drop_first() =~= v@.skip(i + 1));
        i = i + 1;
    }
    let rest = crate::text::slice_chars(v.as_slice(), i, v.len());
    proof {
        let t = v@.skip(i as int);
        if t.len() > 0 {
            assert(t[0] == v@[i as int]);
        }
        assert(rest@ =~= t);
    }
    string_from_chars(rest.as_slice())
}

/// The user a profile card is asked for: the path's name without leading `@`.
pub fn card_username(path_name: &str) -> (r: String)
    ensures
        r@ == strip_leading_char(path_name@, '@'),
{
    trim_leading_char(path_name, '@')
}

/// The files an avatar path may be read from, in order: under `static/`, under
/// `webapp/static/`, and as it is (each without leading `/`).
pub fn avatar_candidates(avatar_path: &str) -> (r: (String, String, String))
    ensures
        r.0@ == "static/"@ + strip_leading_char(avatar_path@, '/'),
        r.1@ == "webapp/static/"@ + strip_leading_char(avatar_path@, '/'),
        r.2@ == strip_leading_char(avatar_path@, '/'),
{
    let clean = trim_leading_char(avatar_path, '/');
    let mut a: Vec<char> = Vec::new();
    extend_str(&mut a, "static/");
    extend_str(&mut a, clean.as_str());
    let mut b: Vec<char> = Vec::new();
    extend_str(&mut b, "webapp/static/");
    extend_str(&mut b, clean.as_str());
    (string_from_chars(a.as_slice()), string_from_chars(b.as_slice()), clean)
}

/// The title line of a user's card: `@name`.
pub open spec fn user_title(username: Seq<char>) -> Seq<char> {
    "@"@ + username
}

/// The second line of a user's card: the karma and the month joined (`2026` when
/// unknown).
pub open spec fn user_sub(karma: i32, joined: Option<CalendarDate>) -> Seq<char> {
    spec_int_decimal(karma as int) + " Karma · "@ + (match joined {
        Some(d) => turkish_month_name(d.month as int) + " "@ + spec_int_decimal(d.year as int),
        None => "2026"@,
    })
}

/// The card of a user's profile: `@name`, the karma and the month joined (`2026` when
/// unknown), badge `Kullanıcı Profili`.
pub fn user_card_lines(username: &str, karma: i32, joined: Option<CalendarDate>) -> (r: (String, String))
    requires
        joined matches Some(d) ==> 1 <= d.month <= 12,
    ensures
        r.0@ == user_title(username@),
        r.1@ == user_sub(karma, joined),
{
    let mut t: Vec<char> = Vec::new();
    extend_str(&mut t, "@");
    extend_str(&mut t, username);
    let mut s: Vec<char> = Vec::new();
    let kv = decimal_i128(karma as i128);
    extend_chars(&mut s, kv.as_slice());
    extend_str(&mut s, " Karma · ");
    match joined {
        Some(d) => {
            extend_str(&mut s, month_name(d.month));
            extend_str(&mut s, " ");
            let yv = decimal_i128(d.year as i128);
            extend_chars(&mut s, yv.as_slice());
        },
        None => extend_str(&mut s, "2026"),
    }
    (string_from_chars(t.as_slice()), string_from_chars(s.as_slice()))
}

/// The digit of a six-bit value in the standard base64 alphabet (RFC 4648):
/// `A`-`Z`, `a`-`z`, `0`-`9`, `+`, `/`.
pub open spec fn base64_digit(v: int) -> char {
    if v < 26 {
        (65 + v) as char
    } else if v < 52 {
        (97 + v - 26) as char
    } else if v < 62 {
        (48 + v - 52) as char
    } else if v == 62 {
        '+'
    } else {
        '/'
    }
}

/// The standard padded base64 encoding (RFC 4648) of some bytes: each group of three
/// bytes becomes four digits; a last group of one or two bytes becomes two or three
/// digits and `=` padding to four.
pub open spec fn base64_of(bytes: Seq<u8>) -> Seq<char>
    decreases bytes.len(),
{
    if bytes.len() == 0 {
        Seq::empty()
    } else if bytes.len() == 1 {
        let b0 = bytes[0] as int;
        seq![base64_digit(b0 / 4), base64_digit((b0 % 4) * 16), '=', '=']
    } else if bytes.len() == 2 {
        let b0 = bytes[0] as int;
        let b1 = bytes[1] as int;
        seq![base64_digit(b0 / 4), base64_digit((b0 % 4) * 16 + b1 / 16), base64_digit((b1 % 16) * 4), '=']
    } else {
        let b0 = bytes[0] as int;
        let b1 = bytes[1] as int;
        let b2 = bytes[2] as int;
        seq![
            base64_digit(b0 / 4),
            base64_digit((b0 % 4) * 16 + b1 / 16),
            base64_digit((b1 % 16) * 4 + b2 / 64),
            base64_digit(b2 % 64),
        ] + base64_of(bytes.skip(3))
    }
}

/// `base64::engine::general_purpose::STANDARD.encode`: the padded encoding, four
/// characters for each started group of three bytes (the length its `encoded_len`
/// computes), in the standard alphabet (`STANDARD` is `alphabet::STANDARD` with
/// padding). It panics when that length does not fit in `usize`, which `requires` rules
/// out.
#[verifier::external_body]
fn base64_standard(bytes: &[u8]) -> (r: String)
    requires
        (bytes@.len() + 2) / 3 * 4 <= usize::MAX,
    ensures
        r@ == base64_of(bytes@),
        r@.len() == (bytes@.len() + 2) / 3 * 4,
{
    base64::Engine::encode(&base64::engine::general_purpose::STANDARD, bytes)
}

/// The avatar bytes as the card embeds them, in base64.
pub open spec fn avatar_text(avatar: Option<Seq<u8>>) -> Option<Seq<char>> {
    match avatar {
        Some(b) => Some(base64_of(b)),
        None => None,
    }
}

/// The SVG of a user's profile card: `@name`, karma and month joined, the avatar (when
/// its file could be read) embedded in base64, badge `Kullanıcı Profili`.
pub fn user_card_svg(username: &str, karma: i32, joined: Option<CalendarDate>, avatar: Option<&[u8]>) -> (r: String)
    requires
        joined matches Some(d) ==> 1 <= d.month <= 12,
        avatar matches Some(b) ==> (b@.len() + 2) / 3 * 4 <= usize::MAX,
    ensures
        r@ == crate::og_image::spec_og_profile_svg(
            user_title(username@),
            user_sub(karma, joined),
            avatar_text(match avatar {
                Some(b) => Some(b@),
                None => None,
            }),
            "Kullanıcı Profili"@,
        ),
{
    let (title, sub) = user_card_lines(username, karma, joined);
    let encoded = match avatar {
        Some(b) => Some(base64_standard(b)),
        None => None,
    };
    let view = match &encoded {
        Some(e) => Some(e.as_str()),
        None => None,
    };
    crate::og_image::og_profile_svg(title.as_str(), sub.as_str(), view, "Kullanıcı Profili")
}

/// The card of a fixed page by its slug: title, line, badge and caching; the status page
/// says whether the database answered. Unknown pages have no card.
pub open spec fn spec_page_card(slug: Seq<char>, healthy: bool) -> Option<(Seq<char>, Seq<char>, Seq<char>, Seq<char>)> {
    let day = day_cache();
    if slug == "hakkinda"@ {
        Some(("Hakkında"@, "Proje hakkında genel bilgiler"@, "Bilgi"@, day))
    } else if slug == "sss"@ {
        Some(("Sıkça Sorulan Sorular"@, "Site Hakkında Merak Edilenler"@, "Yardım"@, day))
    } else if slug == "menu-gonder"@ {
        Some(("Menü Gönder"@, "Yurdundaki Menüyü Sisteme Yükle"@, "Katkı"@, day))
    } else if slug == "iletisim"@ {
        Some(("İletişim ve Künye"@, "Öneri, Hata Bildirimi ve Yasal"@, "Yasal"@, day))
    } else if slug == "rss"@ {
        Some(("RSS"@, "Dedelere Otomasyon Desteği"@, "Veri Akışı"@, day))
    } else if slug == "kullanim-kosullari"@ {
        Some(("Kullanım Koşulları"@, "Topluluk Kuralları ve Hizmet Şartları"@, "Yasal"@, day))
    } else if slug == "gizlilik-politikasi"@ {
        Some(("Gizlilik Politikası"@, "KVKK Aydınlatma Metni ve İlgili Haklar"@, "Yasal"@, day))
    } else if slug == "istatistikler"@ {
        Some(("İstatistikler"@, "En Beğenilenler, Nefret Tablosu ve Jargon"@, "Topluluk Verileri"@, day))
    } else if slug == "arsiv"@ {
        Some(("Menü Arşivi"@, "Geçmiş Yemekhane Menüleri"@, "Geçmiş Kayıtlar"@, day))
    } else if slug == "gelistirici"@ {
        Some(("Geliştirici Portalı"@, "Proje Yönetimi ve API Anahtarları"@, "Geliştirici"@, day))
    } else if slug == "durum"@ {
        Some((
            "Sistem Durumu"@,
            if healthy { "Tüm Sistemler Çalışıyor"@ } else { "Kısmi Yavaşlama Mevcut"@ },
            "Servis"@,
            "public, max-age=60"@,
        ))
    } else {
        None
    }
}

/// Whether a page slug is the status page (whose card asks the database).
pub fn is_status_page(slug: &str) -> (r: bool)
    ensures
        r == (slug@ == "durum"@),
{
    str_is(slug, "durum")
}

fn card4(t: &str, s: &str, b: &str, c: &str) -> (r: (String, String, String, String))
    ensures
        (r.0@, r.1@, r.2@, r.3@) == (t@, s@, b@, c@),
{
    (String::from_str(t), String::from_str(s), String::from_str(b), String::from_str(c))
}

/// The card of a fixed page (`None` for an unknown page).
pub fn page_card(slug: &str, healthy: bool) -> (r: Option<(String, String, String, String)>)
    ensures
        match r {
            Some(c) => spec_page_card(slug@, healthy) == Some((c.0@, c.1@, c.2@, c.3@)),
            None => spec_page_card(slug@, healthy) is None,
        },
{
    let day = "public, max-age=86400, s-maxage=604800";
    if str_is(slug, "hakkinda") {
        Some(card4("Hakkında", "Proje hakkında genel bilgiler", "Bilgi", day))
    } else if str_is(slug, "sss") {
        Some(card4("Sıkça Sorulan Sorular", "Site Hakkında Merak Edilenler", "Yardım", day))
    } else if str_is(slug, "menu-gonder") {
        Some(card4("Menü Gönder", "Yurdundaki Menüyü Sisteme Yükle", "Katkı", day))
    } else if str_is(slug, "iletisim") {
        Some(card4("İletişim ve Künye", "Öneri, Hata Bildirimi ve Yasal", "Yasal", day))
    } else if str_is(slug, "rss") {
        Some(card4("RSS", "Dedelere Otomasyon Desteği", "Veri Akışı", day))
    } else if str_is(slug, "kullanim-kosullari") {
        Some(card4("Kullanım Koşulları", "Topluluk Kuralları ve Hizmet Şartları", "Yasal", day))
    } else if str_is(slug, "gizlilik-politikasi") {
        Some(card4("Gizlilik Politikası", "KVKK Aydınlatma Metni ve İlgili Haklar", "Yasal", day))
    } else if str_is(slug, "istatistikler") {
        Some(card4("İstatistikler", "En Beğenilenler, Nefret Tablosu ve Jargon", "Topluluk Verileri", day))
    } else if str_is(slug, "arsiv") {
        Some(card4("Menü Arşivi", "Geçmiş Yemekhane Menüleri", "Geçmiş Kayıtlar", day))
    } else if str_is(slug, "gelistirici") {
        Some(card4("Geliştirici Portalı", "Proje Yönetimi ve API Anahtarları", "Geliştirici", day))
    } else if str_is(slug, "durum") {
        let sub = if healthy { "Tüm Sistemler Çalışıyor" } else { "Kısmi Yavaşlama Mevcut" };
        Some(card4("Sistem Durumu", sub, "Servis", "public, max-age=60"))
    } else {
        None
    }
}

} // verus!
