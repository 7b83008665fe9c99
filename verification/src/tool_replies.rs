//! The texts the menu assistant hands the model: the city and menu part of its live
//! context, and the replies to its tool calls (a day's menu, the platform's statistics,
//! a web search).

use vstd::prelude::*;
use crate::assistant::{format_weekday, turkish_weekday, menu_line, spec_menu_line, string_views};
use crate::calendar::{CalendarDate, weekday_index, format_date, date_text};
use crate::dto::menu::MealType;
use crate::text::{
    extend_str, extend_chars, string_from_chars, decimal_u128, spec_decimal, decimal_i128, spec_int_decimal,
    char_vec, trim, spec_trim,
};
use crate::dto::comment::CommentResponseDto;
use crate::dto::statistics::TrendingTagDto;

verus! {

/// One meal of a day's menu as the assistant lists it: the meal, the names of its
/// dishes in order, and its calorie range where one is known.
pub struct MealListing {
    pub meal: MealType,
    pub dish_names: Vec<String>,
    pub calorie_range: Option<String>,
}

/// The characters of an optional string.
pub open spec fn opt_chars(o: Option<String>) -> Option<Seq<char>> {
    match o {
        Some(s) => Some(s@),
        None => None,
    }
}

/// One line per meal, in order (see `spec_menu_line`).
pub open spec fn spec_menu_lines(ms: Seq<MealListing>) -> Seq<char>
    decreases ms.len(),
{
    if ms.len() == 0 {
        Seq::empty()
    } else {
        spec_menu_lines(ms.drop_last()) + spec_menu_line(
            ms.last().meal,
            string_views(ms.last().dish_names@),
            opt_chars(ms.last().calorie_range),
        )
    }
}

/// Appends the lines of the meals `ms`, one per meal.
pub fn push_menu_lines(out: &mut Vec<char>, ms: &Vec<MealListing>)
    ensures
        final(out)@ == old(out)@ + spec_menu_lines(ms@),
{
    let ghost start = out@;
    let mut i: usize = 0;
    assert(ms@.take(0) =~= Seq::<MealListing>::empty());
    assert(start + Seq::<char>::empty() =~= start);
    while i < ms.len()
        invariant
            i <= ms@.len(),
            out@ == start + spec_menu_lines(ms@.take(i as int)),
        decreases ms@.len() - i,
    {
        let m = &ms[i];
        let line = menu_line(m.meal, &m.dish_names, &m.calorie_range);
        extend_str(out, line.as_str());
        proof {
            assert(ms@.take(i + 1).drop_last() =~= ms@.take(i as int));
            assert(ms@.take(i + 1).last() == ms@[i as int]);
        }
        i = i + 1;
        proof {
            assert(out@ =~= start + spec_menu_lines(ms@.take(i as int)));
        }
    }
    assert(ms@.take(ms@.len() as int) =~= ms@);
}

/// The lines of a day's meals.
pub fn menu_lines(ms: &Vec<MealListing>) -> (r: String)
    ensures
        r@ == spec_menu_lines(ms@),
{
    let mut out: Vec<char> = Vec::new();
    push_menu_lines(&mut out, ms);
    assert(Seq::<char>::empty() + spec_menu_lines(ms@) =~= spec_menu_lines(ms@));
    string_from_chars(out.as_slice())
}

/// The live context's part on a known city: its name and slug.
pub open spec fn spec_city_section(name: Seq<char>, slug: Seq<char>) -> Seq<char> {
    "\n[secili_sehir]\nad: "@ + name + "\nslug: "@ + slug + "\n"@
}

/// Renders the part of the live context on a known city.
pub fn city_section(name: &str, slug: &str) -> (r: String)
    ensures
        r@ == spec_city_section(name@, slug@),
{
    let mut out: Vec<char> = Vec::new();
    extend_str(&mut out, "\n[secili_sehir]\nad: ");
    extend_str(&mut out, name);
    extend_str(&mut out, "\nslug: ");
    extend_str(&mut out, slug);
    extend_str(&mut out, "\n");
    string_from_chars(out.as_slice())
}

/// The live context's part on a city slug that names no known city.
pub open spec fn spec_unknown_city_section(slug: Seq<char>) -> Seq<char> {
    "\n[secili_sehir]\nslug: "@ + slug + "\n"@
}

/// Renders the part of the live context on an unknown city slug.
pub fn unknown_city_section(slug: &str) -> (r: String)
    ensures
        r@ == spec_unknown_city_section(slug@),
{
    let mut out: Vec<char> = Vec::new();
    extend_str(&mut out, "\n[secili_sehir]\nslug: ");
    extend_str(&mut out, slug);
    extend_str(&mut out, "\n");
    string_from_chars(out.as_slice())
}

/// The live context's part on today's menu: its meals, or a note that none was entered.
pub open spec fn spec_today_menu_section(ms: Seq<MealListing>) -> Seq<char> {
    if ms.len() > 0 {
        "\n[bugunku_menu]\n"@ + spec_menu_lines(ms)
    } else {
        "\n[bugunku_menu]\ndurum: Bugün için henüz menü girilmemiştir.\n"@
    }
}

/// Renders the part of the live context on today's menu.
pub fn today_menu_section(ms: &Vec<MealListing>) -> (r: String)
    ensures
        r@ == spec_today_menu_section(ms@),
{
    let mut out: Vec<char> = Vec::new();
    if ms.len() > 0 {
        extend_str(&mut out, "\n[bugunku_menu]\n");
        push_menu_lines(&mut out, ms);
    } else {
        extend_str(&mut out, "\n[bugunku_menu]\ndurum: Bugün için henüz menü girilmemiştir.\n");
    }
    string_from_chars(out.as_slice())
}

/// A date with its weekday in brackets: `2024-05-06 (Pazartesi)`.
pub open spec fn dated(d: CalendarDate) -> Seq<char> {
    date_text(d) + " ("@ + turkish_weekday(weekday_index(d)) + ")"@
}

fn push_dated(out: &mut Vec<char>, d: CalendarDate)
    requires
        d.wf(),
    ensures
        final(out)@ == old(out)@ + dated(d),
{
    let ds = format_date(d);
    extend_str(out, ds.as_str());
    extend_str(out, " (");
    extend_str(out, format_weekday(d));
    extend_str(out, ")");
}

/// The live context's part on the latest approved menu, given when today has none: its
/// date and weekday, then its meals.
pub open spec fn spec_latest_menu_section(d: CalendarDate, ms: Seq<MealListing>) -> Seq<char> {
    "\n[sistemdeki_en_son_girilmis_menu: "@ + dated(d) + "]\n"@ + spec_menu_lines(ms)
}

/// Renders the part of the live context on the latest approved menu.
pub fn latest_menu_section(d: CalendarDate, ms: &Vec<MealListing>) -> (r: String)
    requires
        d.wf(),
    ensures
        r@ == spec_latest_menu_section(d, ms@),
{
    let mut out: Vec<char> = Vec::new();
    extend_str(&mut out, "\n[sistemdeki_en_son_girilmis_menu: ");
    push_dated(&mut out, d);
    extend_str(&mut out, "]\n");
    push_menu_lines(&mut out, ms);
    string_from_chars(out.as_slice())
}

/// The reply to the model's menu lookup for the date `d`: without a known city, a note
/// that the city is unknown; otherwise the date and weekday, then the day's meals, or a
/// note that none are recorded, or (`menus` is `None`) that the lookup failed.
pub open spec fn spec_menu_lookup_text(city_known: bool, d: CalendarDate, menus: Option<Seq<MealListing>>) -> Seq<char> {
    if !city_known {
        "Şehir bilgisi bulunamadı."@
    } else {
        match menus {
            None => "Tarih: "@ + dated(d) + ". Menü sorgusu sırasında veritabanı hatası oluştu."@,
            Some(ms) => if ms.len() > 0 {
                "Tarih: "@ + dated(d) + "\n"@ + spec_menu_lines(ms)
            } else {
                "Tarih: "@ + dated(d) + ". Bu tarih için veritabanında kayıtlı bir menü bulunamadı."@
            },
        }
    }
}

/// Renders the reply to a menu lookup.
pub fn menu_lookup_text(city_known: bool, d: CalendarDate, menus: Option<&Vec<MealListing>>) -> (r: String)
    requires
        d.wf(),
    ensures
        r@ == spec_menu_lookup_text(
            city_known,
            d,
            match menus {
                Some(ms) => Some(ms@),
                None => None,
            },
        ),
{
    let mut out: Vec<char> = Vec::new();
    if !city_known {
        extend_str(&mut out, "Şehir bilgisi bulunamadı.");
    } else {
        extend_str(&mut out, "Tarih: ");
        push_dated(&mut out, d);
        match menus {
            None => extend_str(&mut out, ". Menü sorgusu sırasında veritabanı hatası oluştu."),
            Some(ms) => if ms.len() > 0 {
                extend_str(&mut out, "\n");
                push_menu_lines(&mut out, ms);
            } else {
                extend_str(&mut out, ". Bu tarih için veritabanında kayıtlı bir menü bulunamadı.");
            },
        }
    }
    string_from_chars(out.as_slice())
}

/// A dish of the leaderboard as the assistant reports it. `rating_percent` is the
/// share of likes as a whole percent, already rendered, where the dish has ratings.
pub struct RankedDish {
    pub name: String,
    pub score: i32,
    pub total_votes: i32,
    pub rating_percent: Option<String>,
}

/// The `n`-th line (from 1) of a leaderboard: the dish, its votes, and its share of
/// likes, or its net score when it has no ratings.
pub open spec fn spec_ranked_line(n: nat, d: RankedDish) -> Seq<char> {
    let pct = match d.rating_percent {
        Some(p) => "%"@ + p@ + " beğeni"@,
        None => spec_int_decimal(d.score as int) + " net puan"@,
    };
    spec_decimal(n) + ". "@ + d.name@ + " (Toplam "@ + spec_int_decimal(d.total_votes as int) + " oy, "@ + pct
        + ")\n"@
}

pub open spec fn spec_ranked_lines(ds: Seq<RankedDish>) -> Seq<char>
    decreases ds.len(),
{
    if ds.len() == 0 {
        Seq::empty()
    } else {
        spec_ranked_lines(ds.drop_last()) + spec_ranked_line(ds.len(), ds.last())
    }
}

/// The reply to a leaderboard question, of the best dishes (`best`) or of the worst:
/// a heading and one line per dish; a note when no dish has votes; `None` is a failed
/// query.
pub open spec fn spec_leaderboard_text(best: bool, ds: Option<Seq<RankedDish>>) -> Seq<char> {
    match ds {
        None => "Yemek istatistiği sorgulanırken hata oluştu."@,
        Some(ds) => if ds.len() == 0 {
            if best {
                "Henüz oylanmış yemek istatistiği bulunmuyor."@
            } else {
                "Henüz oylanmış olumsuz yemek kaydı bulunmuyor."@
            }
        } else {
            (if best {
                "En çok sevilen / en yüksek puanlı yemekler:\n"@
            } else {
                "En az beğenilen / en çok eleştirilen yemekler:\n"@
            }) + spec_ranked_lines(ds)
        },
    }
}

/// Renders the reply to a leaderboard question.
pub fn leaderboard_text(best: bool, ds: Option<&Vec<RankedDish>>) -> (r: String)
    ensures
        r@ == spec_leaderboard_text(
            best,
            match ds {
                Some(v) => Some(v@),
                None => None,
            },
        ),
{
    let mut out: Vec<char> = Vec::new();
    match ds {
        None => extend_str(&mut out, "Yemek istatistiği sorgulanırken hata oluştu."),
        Some(v) => if v.len() == 0 {
            if best {
                extend_str(&mut out, "Henüz oylanmış yemek istatistiği bulunmuyor.");
            } else {
                extend_str(&mut out, "Henüz oylanmış olumsuz yemek kaydı bulunmuyor.");
            }
        } else {
            if best {
                extend_str(&mut out, "En çok sevilen / en yüksek puanlı yemekler:\n");
            } else {
                extend_str(&mut out, "En az beğenilen / en çok eleştirilen yemekler:\n");
            }
            let ghost start = out@;
            let mut i: usize = 0;
            assert(v@.take(0) =~= Seq::<RankedDish>::empty());
            assert(start + Seq::<char>::empty() =~= start);
            while i < v.len()
                invariant
                    i <= v@.len(),
                    out@ == start + spec_ranked_lines(v@.take(i as int)),
                decreases v@.len() - i,
            {
                let d = &v[i];
                let ghost before = out@;
                let n = decimal_u128((i as u128) + 1);
                extend_chars(&mut out, n.as_slice());
                extend_str(&mut out, ". ");
                extend_str(&mut out, d.name.as_str());
                extend_str(&mut out, " (Toplam ");
                let t = decimal_i128(d.total_votes as i128);
                extend_chars(&mut out, t.as_slice());
                extend_str(&mut out, " oy, ");
                match &d.rating_percent {
                    Some(p) => {
                        extend_str(&mut out, "%");
                        extend_str(&mut out, p.as_str());
                        extend_str(&mut out, " beğeni");
                    },
                    None => {
                        let sc = decimal_i128(d.score as i128);
                        extend_chars(&mut out, sc.as_slice());
                        extend_str(&mut out, " net puan");
                    },
                }
                extend_str(&mut out, ")\n");
                proof {
                    assert(v@.take(i + 1).drop_last() =~= v@.take(i as int));
                    assert(v@.take(i + 1).last() == v@[i as int]);
                    assert(out@ =~= before + spec_ranked_line((i + 1) as nat, v@[i as int]));
                }
                i = i + 1;
                proof {
                    assert(out@ =~= start + spec_ranked_lines(v@.take(i as int)));
                }
            }
            assert(v@.take(v@.len() as int) =~= v@);
        },
    }
    string_from_chars(out.as_slice())
}

/// The `n`-th line (from 1) of the top comments: the text ("..." for none), its author,
/// the dish it is about in brackets where there is one, and its likes.
pub open spec fn spec_comment_line(n: nat, c: CommentResponseDto) -> Seq<char> {
    let text = match c.comment {
        Some(t) => t@,
        None => "..."@,
    };
    let dish = match c.dish_name {
        Some(d) => " ("@ + d@ + ")"@,
        None => Seq::empty(),
    };
    spec_decimal(n) + ". \""@ + text + "\" - "@ + c.user.nickname@ + dish + " (+"@ + spec_int_decimal(
        c.reaction_summary.up as int,
    ) + " beğeni)\n"@
}

pub open spec fn spec_comment_lines(cs: Seq<CommentResponseDto>) -> Seq<char>
    decreases cs.len(),
{
    if cs.len() == 0 {
        Seq::empty()
    } else {
        spec_comment_lines(cs.drop_last()) + spec_comment_line(cs.len(), cs.last())
    }
}

/// The reply to a question on the most liked comments: a heading and one line per
/// comment; a note when there are none; `None` is a failed query.
pub open spec fn spec_top_comments_text(cs: Option<Seq<CommentResponseDto>>) -> Seq<char> {
    match cs {
        None => "Yorum istatistikleri sorgulanırken hata oluştu."@,
        Some(cs) => if cs.len() == 0 {
            "Henüz öne çıkan bir yorum bulunmuyor."@
        } else {
            "Öğrenciler tarafından en çok beğenilen / öne çıkan yorumlar:\n"@ + spec_comment_lines(cs)
        },
    }
}

fn push_comment_line(out: &mut Vec<char>, i: usize, c: &CommentResponseDto)
    ensures
        final(out)@ == old(out)@ + spec_comment_line((i + 1) as nat, *c),
{
    let ghost before = old(out)@;
    let n = decimal_u128((i as u128) + 1);
    extend_chars(out, n.as_slice());
    extend_str(out, ". \"");
    match &c.comment {
        Some(t) => extend_str(out, t.as_str()),
        None => extend_str(out, "..."),
    }
    extend_str(out, "\" - ");
    extend_str(out, c.user.nickname.as_str());
    match &c.dish_name {
        Some(d) => {
            extend_str(out, " (");
            extend_str(out, d.as_str());
            extend_str(out, ")");
        },
        None => {},
    }
    extend_str(out, " (+");
    let up = decimal_i128(c.reaction_summary.up as i128);
    extend_chars(out, up.as_slice());
    extend_str(out, " beğeni)\n");
    assert(out@ =~= before + spec_comment_line((i + 1) as nat, *c));
}

/// Renders the reply on the most liked comments.
pub fn top_comments_text(cs: Option<&Vec<CommentResponseDto>>) -> (r: String)
    ensures
        r@ == spec_top_comments_text(
            match cs {
                Some(v) => Some(v@),
                None => None,
            },
        ),
{
    let mut out: Vec<char> = Vec::new();
    match cs {
        None => extend_str(&mut out, "Yorum istatistikleri sorgulanırken hata oluştu."),
        Some(v) => if v.len() == 0 {
            extend_str(&mut out, "Henüz öne çıkan bir yorum bulunmuyor.");
        } else {
            extend_str(&mut out, "Öğrenciler tarafından en çok beğenilen / öne çıkan yorumlar:\n");
            let ghost start = out@;
            let mut i: usize = 0;
            assert(v@.take(0) =~= Seq::<CommentResponseDto>::empty());
            assert(start + Seq::<char>::empty() =~= start);
            while i < v.len()
                invariant
                    i <= v@.len(),
                    out@ == start + spec_comment_lines(v@.take(i as int)),
                decreases v@.len() - i,
            {
                let ghost before = out@;
                push_comment_line(&mut out, i, &v[i]);
                proof {
                    assert(v@.take(i + 1).drop_last() =~= v@.take(i as int));
                    assert(v@.take(i + 1).last() == v@[i as int]);
                    assert(out@ =~= before + spec_comment_line((i + 1) as nat, v@[i as int]));
                }
                i = i + 1;
                proof {
                    assert(out@ =~= start + spec_comment_lines(v@.take(i as int)));
                }
            }
            assert(v@.take(v@.len() as int) =~= v@);
        },
    }
    string_from_chars(out.as_slice())
}

/// The `n`-th line (from 1) of the trending tags: the tag and how often it was used.
pub open spec fn spec_tag_line(n: nat, t: TrendingTagDto) -> Seq<char> {
    spec_decimal(n) + ". #"@ + t.name@ + " ("@ + spec_int_decimal(t.count as int) + " kez)\n"@
}

pub open spec fn spec_tag_lines(ts: Seq<TrendingTagDto>) -> Seq<char>
    decreases ts.len(),
{
    if ts.len() == 0 {
        Seq::empty()
    } else {
        spec_tag_lines(ts.drop_last()) + spec_tag_line(ts.len(), ts.last())
    }
}

/// The reply to a question on trending tags: a heading and one line per tag; a note
/// when there are none; `None` is a failed query.
pub open spec fn spec_trending_tags_text(ts: Option<Seq<TrendingTagDto>>) -> Seq<char> {
    match ts {
        None => "Etiket istatistikleri sorgulanırken hata oluştu."@,
        Some(ts) => if ts.len() == 0 {
            "Henüz trend etiket verisi yok."@
        } else {
            "Son dönemde en çok kullanılan trend yemek etiketleri:\n"@ + spec_tag_lines(ts)
        },
    }
}

/// Renders the reply on trending tags.
pub fn trending_tags_text(ts: Option<&Vec<TrendingTagDto>>) -> (r: String)
    ensures
        r@ == spec_trending_tags_text(
            match ts {
                Some(v) => Some(v@),
                None => None,
            },
        ),
{
    let mut out: Vec<char> = Vec::new();
    match ts {
        None => extend_str(&mut out, "Etiket istatistikleri sorgulanırken hata oluştu."),
        Some(v) => if v.len() == 0 {
            extend_str(&mut out, "Henüz trend etiket verisi yok.");
        } else {
            extend_str(&mut out, "Son dönemde en çok kullanılan trend yemek etiketleri:\n");
            let ghost start = out@;
            let mut i: usize = 0;
            assert(v@.take(0) =~= Seq::<TrendingTagDto>::empty());
            assert(start + Seq::<char>::empty() =~= start);
            while i < v.len()
                invariant
                    i <= v@.len(),
                    out@ == start + spec_tag_lines(v@.take(i as int)),
                decreases v@.len() - i,
            {
                let t = &v[i];
                let ghost before = out@;
                let n = decimal_u128((i as u128) + 1);
                extend_chars(&mut out, n.as_slice());
                extend_str(&mut out, ". #");
                extend_str(&mut out, t.name.as_str());
                extend_str(&mut out, " (");
                let c = decimal_i128(t.count as i128);
                extend_chars(&mut out, c.as_slice());
                extend_str(&mut out, " kez)\n");
                proof {
                    assert(v@.take(i + 1).drop_last() =~= v@.take(i as int));
                    assert(v@.take(i + 1).last() == v@[i as int]);
                    assert(out@ =~= before + spec_tag_line((i + 1) as nat, v@[i as int]));
                }
                i = i + 1;
                proof {
                    assert(out@ =~= start + spec_tag_lines(v@.take(i as int)));
                }
            }
            assert(v@.take(v@.len() as int) =~= v@);
        },
    }
    string_from_chars(out.as_slice())
}

/// The reply with the platform's totals: menus, comments and members.
pub open spec fn spec_general_counts_text(menus: u64, comments: u64, users: u64) -> Seq<char> {
    "Kepçe Platform Genel İstatistikleri:\n- Toplam Menü Kaydı: "@ + spec_decimal(menus as nat)
        + "\n- Toplam Öğrenci Yorumu: "@ + spec_decimal(comments as nat) + "\n- Kayıtlı Topluluk Üyesi: "@
        + spec_decimal(users as nat)
}

/// Renders the reply with the platform's totals.
pub fn general_counts_text(menus: u64, comments: u64, users: u64) -> (r: String)
    ensures
        r@ == spec_general_counts_text(menus, comments, users),
{
    let mut out: Vec<char> = Vec::new();
    extend_str(&mut out, "Kepçe Platform Genel İstatistikleri:\n- Toplam Menü Kaydı: ");
    let a = decimal_u128(menus as u128);
    extend_chars(&mut out, a.as_slice());
    extend_str(&mut out, "\n- Toplam Öğrenci Yorumu: ");
    let b = decimal_u128(comments as u128);
    extend_chars(&mut out, b.as_slice());
    extend_str(&mut out, "\n- Kayıtlı Topluluk Üyesi: ");
    let c = decimal_u128(users as u128);
    extend_chars(&mut out, c.as_slice());
    string_from_chars(out.as_slice())
}

/// The query of a web search as the model asked for it: trimmed, it must not be empty,
/// and the search service must be configured. `Err` is the reply given instead.
pub open spec fn spec_web_query(raw: Seq<char>, configured: bool) -> Result<Seq<char>, Seq<char>> {
    if spec_trim(raw).len() == 0 {
        Err("Arama sorgusu belirtilmedi."@)
    } else if !configured {
        Err("Web arama servisi şu anda yapılandırılmamış."@)
    } else {
        Ok(spec_trim(raw))
    }
}

/// Checks the query of a web search (see `spec_web_query`).
pub fn web_query(raw: &str, configured: bool) -> (r: Result<String, String>)
    ensures
        match (r, spec_web_query(raw@, configured)) {
            (Ok(q), Ok(s)) => q@ == s,
            (Err(e), Err(s)) => e@ == s,
            _ => false,
        },
{
    let t = trim(raw);
    if t.len() == 0 {
        Err(string_from_chars(char_vec("Arama sorgusu belirtilmedi.").as_slice()))
    } else if !configured {
        Err(string_from_chars(char_vec("Web arama servisi şu anda yapılandırılmamış.").as_slice()))
    } else {
        Ok(string_from_chars(t.as_slice()))
    }
}

/// One result of the search service.
pub struct SearchHit {
    pub title: Option<String>,
    pub url: Option<String>,
    pub content: Option<String>,
}

/// What came back from the search service: no answer (or a failure status), an answer
/// whose results could not be read, or the results.
pub enum SearchOutcome {
    Unreachable,
    Unreadable,
    Results(Vec<SearchHit>),
}

/// The characters of an optional string, trimmed, `dflt` for none.
pub open spec fn trimmed_or(o: Option<String>, dflt: Seq<char>) -> Seq<char> {
    match o {
        Some(s) => spec_trim(s@),
        None => spec_trim(dflt),
    }
}

/// The `n`-th entry (from 1) of the search results: the title ("Başlıksız" for none),
/// the address and the summary, each trimmed.
pub open spec fn spec_hit_entry(n: nat, h: SearchHit) -> Seq<char> {
    "["@ + spec_decimal(n) + "] \""@ + trimmed_or(h.title, "Başlıksız"@) + "\" - "@ + trimmed_or(h.url, ""@) + "\nÖzet: "@
        + trimmed_or(h.content, ""@) + "\n\n"@
}

pub open spec fn spec_hit_entries(hs: Seq<SearchHit>) -> Seq<char>
    decreases hs.len(),
{
    if hs.len() == 0 {
        Seq::empty()
    } else {
        spec_hit_entries(hs.drop_last()) + spec_hit_entry(hs.len(), hs.last())
    }
}

/// The most results a reply lists.
pub const MAX_SEARCH_RESULTS: usize = 5;

/// The reply to a web search: the first five results, a note when there are none, or
/// what went wrong.
pub open spec fn spec_web_search_text(o: SearchOutcome) -> Seq<char> {
    match o {
        SearchOutcome::Unreachable => "Arama servisine şu anda ulaşılamıyor."@,
        SearchOutcome::Unreadable => "Arama sonuçları ayrıştırılamadı."@,
        SearchOutcome::Results(hs) => if hs.len() == 0 {
            "Arama sonucunda ilgili bilgi bulunamadı."@
        } else {
            "Web Arama Sonuçları:\n"@ + spec_hit_entries(
                if hs@.len() > MAX_SEARCH_RESULTS { hs@.take(MAX_SEARCH_RESULTS as int) } else { hs@ },
            )
        },
    }
}

fn push_trimmed_or(out: &mut Vec<char>, o: &Option<String>, dflt: &str)
    ensures
        final(out)@ == old(out)@ + trimmed_or(*o, dflt@),
{
    let t = match o {
        Some(s) => trim(s.as_str()),
        None => trim(dflt),
    };
    extend_chars(out, t.as_slice());
}

/// Renders the reply to a web search.
pub fn web_search_text(o: &SearchOutcome) -> (r: String)
    ensures
        r@ == spec_web_search_text(*o),
{
    let mut out: Vec<char> = Vec::new();
    match o {
        SearchOutcome::Unreachable => extend_str(&mut out, "Arama servisine şu anda ulaşılamıyor."),
        SearchOutcome::Unreadable => extend_str(&mut out, "Arama sonuçları ayrıştırılamadı."),
        SearchOutcome::Results(hs) => if hs.len() == 0 {
            extend_str(&mut out, "Arama sonucunda ilgili bilgi bulunamadı.");
        } else {
            extend_str(&mut out, "Web Arama Sonuçları:\n");
            let ghost start = out@;
            let ghost kept = if hs@.len() > MAX_SEARCH_RESULTS { hs@.take(MAX_SEARCH_RESULTS as int) } else { hs@ };
            let n = if hs.len() > MAX_SEARCH_RESULTS { MAX_SEARCH_RESULTS } else { hs.len() };
            let mut i: usize = 0;
            assert(kept.take(0) =~= Seq::<SearchHit>::empty());
            assert(start + Seq::<char>::empty() =~= start);
            while i < n
                invariant
                    n == kept.len(),
                    n <= hs@.len(),
                    forall|j: int| 0 <= j < n ==> kept[j] == hs@[j],
                    i <= n,
                    out@ == start + spec_hit_entries(kept.take(i as int)),
                decreases n - i,
            {
                let h = &hs[i];
                let ghost before = out@;
                extend_str(&mut out, "[");
                let k = decimal_u128((i as u128) + 1);
                extend_chars(&mut out, k.as_slice());
                extend_str(&mut out, "] \"");
                push_trimmed_or(&mut out, &h.title, "Başlıksız");
                extend_str(&mut out, "\" - ");
                push_trimmed_or(&mut out, &h.url, "");
                extend_str(&mut out, "\nÖzet: ");
                push_trimmed_or(&mut out, &h.content, "");
                extend_str(&mut out, "\n\n");
                proof {
                    assert(kept.take(i + 1).drop_last() =~= kept.take(i as int));
                    assert(kept.take(i + 1).last() == kept[i as int]);
                    assert(out@ =~= before + spec_hit_entry((i + 1) as nat, kept[i as int]));
                }
                i = i + 1;
                proof {
                    assert(out@ =~= start + spec_hit_entries(kept.take(i as int)));
                }
            }
            assert(kept.take(n as int) =~= kept);
        },
    }
    string_from_chars(out.as_slice())
}

} // verus!
