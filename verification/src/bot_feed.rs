//! The monthly exchange with the AI commentator: the month a batch covers, the plain-text
//! menu it is given, the dates its comments name, and the JSON the comments are stored as.

use vstd::prelude::*;
use crate::calendar::{CalendarDate, parse_date, parsed_date, date_of_parse, date_from_ymd, date_of, format_date, date_text};
use crate::dto::menu::MealType;
use crate::service_errors::ModerationError;
use crate::assistant::{str_is, spec_parse_u32, parse_u32};
use crate::requests::{spec_parse_i32, parse_i32};
use crate::oauth::{split_on, split_chars};
use crate::text::{char_vec, trim, spec_trim, words, spec_words, extend_str, extend_chars, string_from_chars};

verus! {

/// The days of month `YYYY-MM`: its first day and the first day of the next month.
pub open spec fn spec_month_range(month: Seq<char>) -> Option<(CalendarDate, CalendarDate)> {
    let parts = split_on(month, '-');
    if parts.len() != 2 {
        None
    } else {
        match (spec_parse_i32(parts[0]), spec_parse_u32(parts[1])) {
            (Some(y), Some(m)) => match date_of(y as int, m as int, 1) {
                Some(start) => {
                    let (ny, nm) = if m == 12 { (y + 1, 1int) } else { (y as int, m + 1) };
                    match date_of(ny, nm, 1) {
                        Some(end) => Some((start, end)),
                        None => None,
                    }
                },
                None => None,
            },
            _ => None,
        }
    }
}

/// Reads the month of a batch; an unreadable month is refused with its text.
pub fn parse_month_range(month: &str) -> (r: Result<(CalendarDate, CalendarDate), ModerationError>)
    ensures
        match r {
            Ok(p) => spec_month_range(month@) == Some(p),
            Err(e) => spec_month_range(month@) is None && (e matches ModerationError::InvalidMonth(m) && m@ == month@),
        },
{
    let mv = char_vec(month);
    let parts = split_chars(mv.as_slice(), '-');
    if parts.len() != 2 {
        return Err(ModerationError::InvalidMonth(string_from_chars(mv.as_slice())));
    }
    proof {
        assert(parts@.map_values(|w: Vec<char>| w@)[0] == parts@[0]@);
        assert(parts@.map_values(|w: Vec<char>| w@)[1] == parts@[1]@);
    }
    let y = match parse_i32(parts[0].as_slice()) {
        Some(y) => y,
        None => return Err(ModerationError::InvalidMonth(string_from_chars(mv.as_slice()))),
    };
    let m = match parse_u32(parts[1].as_slice()) {
        Some(m) => m,
        None => return Err(ModerationError::InvalidMonth(string_from_chars(mv.as_slice()))),
    };
    let start = match date_from_ymd(y, m, 1) {
        Some(d) => d,
        None => return Err(ModerationError::InvalidMonth(string_from_chars(mv.as_slice()))),
    };
    let (ny, nm) = if m == 12 { (y + 1, 1) } else { (y, m + 1) };
    match date_from_ymd(ny, nm, 1) {
        Some(end) => Ok((start, end)),
        None => Err(ModerationError::InvalidMonth(string_from_chars(mv.as_slice()))),
    }
}

/// ASCII lowercase of a character (other characters are kept).
pub open spec fn ascii_lower(c: char) -> char {
    if 'A' <= c && c <= 'Z' { ((c as int) + 32) as char } else { c }
}

/// `str::eq_ignore_ascii_case`.
pub open spec fn eq_ignore_ascii_case(a: Seq<char>, b: Seq<char>) -> bool {
    a.len() == b.len() && forall|i: int| 0 <= i < a.len() ==> ascii_lower(#[trigger] a[i]) == ascii_lower(b[i])
}

fn lower_ascii(c: char) -> (r: char)
    ensures
        r == ascii_lower(c),
{
    if 'A' <= c && c <= 'Z' {
        ((c as u8) + 32) as char
    } else {
        c
    }
}

fn ascii_case_eq(a: &[char], b: &str) -> (r: bool)
    ensures
        r == eq_ignore_ascii_case(a@, b@),
{
    let bv = char_vec(b);
    if a.len() != bv.len() {
        return false;
    }
    let mut i: usize = 0;
    while i < a.len()
        invariant
            i <= a@.len() == bv@.len(),
            bv@ == b@,
            forall|j: int| 0 <= j < i ==> ascii_lower(#[trigger] a@[j]) == ascii_lower(bv@[j]),
        decreases a@.len() - i,
    {
        if lower_ascii(a[i]) != lower_ascii(bv[i]) {
            return false;
        }
        i = i + 1;
    }
    true
}

/// Turkish month names, January first.
pub open spec fn turkish_months() -> Seq<Seq<char>> {
    seq!["Ocak"@, "Şubat"@, "Mart"@, "Nisan"@, "Mayıs"@, "Haziran"@, "Temmuz"@, "Ağustos"@, "Eylül"@, "Ekim"@, "Kasım"@, "Aralık"@]
}

/// Index of the first month name equal to `w` up to ASCII case, or -1.
pub open spec fn month_index(w: Seq<char>) -> int {
    let ms = turkish_months();
    if eq_ignore_ascii_case(ms[0], w) { 0 }
    else if eq_ignore_ascii_case(ms[1], w) { 1 }
    else if eq_ignore_ascii_case(ms[2], w) { 2 }
    else if eq_ignore_ascii_case(ms[3], w) { 3 }
    else if eq_ignore_ascii_case(ms[4], w) { 4 }
    else if eq_ignore_ascii_case(ms[5], w) { 5 }
    else if eq_ignore_ascii_case(ms[6], w) { 6 }
    else if eq_ignore_ascii_case(ms[7], w) { 7 }
    else if eq_ignore_ascii_case(ms[8], w) { 8 }
    else if eq_ignore_ascii_case(ms[9], w) { 9 }
    else if eq_ignore_ascii_case(ms[10], w) { 10 }
    else if eq_ignore_ascii_case(ms[11], w) { 11 }
    else { -1 }
}

fn month_index_of(w: &[char]) -> (r: i32)
    ensures
        r == month_index(w@),
{
    let names: [&str; 12] = ["Ocak", "Şubat", "Mart", "Nisan", "Mayıs", "Haziran", "Temmuz", "Ağustos", "Eylül", "Ekim", "Kasım", "Aralık"];
    proof {
        assert(names@.map_values(|s: &str| s@) =~= turkish_months());
    }
    let mut i: usize = 0;
    while i < 12
        invariant
            i <= 12,
            names@.map_values(|s: &str| s@) == turkish_months(),
            forall|j: int| 0 <= j < i ==> !eq_ignore_ascii_case(#[trigger] turkish_months()[j], w@),
        decreases 12 - i,
    {
        assert(names@.map_values(|s: &str| s@)[i as int] == names@[i as int]@);
        if ascii_case_eq(w, names[i]) {
            proof {
                let e = eq_ignore_ascii_case(turkish_months()[i as int], w@);
                assert(eq_ignore_ascii_case(names@[i as int]@, w@) ==> e);
                assert forall|a: Seq<char>, b: Seq<char>| eq_ignore_ascii_case(a, b) implies eq_ignore_ascii_case(b, a) by {
                    assert forall|k: int| 0 <= k < b.len() implies ascii_lower(#[trigger] b[k]) == ascii_lower(a[k]) by {
                        assert(ascii_lower(a[k]) == ascii_lower(b[k]));
                    }
                }
            }
            return i as i32;
        }
        proof {
            assert forall|a: Seq<char>, b: Seq<char>| eq_ignore_ascii_case(a, b) implies eq_ignore_ascii_case(b, a) by {
                assert forall|k: int| 0 <= k < b.len() implies ascii_lower(#[trigger] b[k]) == ascii_lower(a[k]) by {
                    assert(ascii_lower(a[k]) == ascii_lower(b[k]));
                }
            }
        }
        i = i + 1;
    }
    -1
}

/// The day a comment of the commentator names: an ISO date, or a Turkish date of three
/// words (day, month name in any ASCII case, year).
pub open spec fn spec_bot_date(s: Seq<char>) -> Option<CalendarDate> {
    let t = spec_trim(s);
    match date_of_parse(parsed_date(t, "%Y-%m-%d"@)) {
        Some(d) => Some(d),
        None => {
            let ws = spec_words(t);
            if ws.len() == 3 {
                match (spec_parse_u32(ws[0]), spec_parse_i32(ws[2])) {
                    (Some(day), Some(year)) => {
                        let mi = month_index(ws[1]);
                        if mi < 0 { None } else { date_of(year as int, mi + 1, day as int) }
                    },
                    _ => None,
                }
            } else {
                None
            }
        },
    }
}

/// Reads the day a comment names.
pub fn parse_bot_date(s: &str) -> (r: Option<CalendarDate>)
    ensures
        r == spec_bot_date(s@),
{
    let tv = trim(s);
    let t = string_from_chars(tv.as_slice());
    match parse_date(t.as_str(), "%Y-%m-%d") {
        Some(d) => return Some(d),
        None => {},
    }
    let ws = words(tv.as_slice());
    if ws.len() != 3 {
        return None;
    }
    proof {
        assert(ws@.map_values(|w: Vec<char>| w@)[0] == ws@[0]@);
        assert(ws@.map_values(|w: Vec<char>| w@)[1] == ws@[1]@);
        assert(ws@.map_values(|w: Vec<char>| w@)[2] == ws@[2]@);
    }
    let day = match parse_u32(ws[0].as_slice()) {
        Some(d) => d,
        None => return None,
    };
    let mi = month_index_of(ws[1].as_slice());
    let year = match parse_i32(ws[2].as_slice()) {
        Some(y) => y,
        None => return None,
    };
    if mi < 0 {
        return None;
    }
    date_from_ymd(year, (mi + 1) as u32, day)
}

/// One approved menu of the month for the commentator: its day, meal, and dishes with
/// whether each is an alternative.
pub struct FeedMenu {
    pub date: CalendarDate,
    pub meal: MealType,
    pub dishes: Vec<(String, bool)>,
}

/// The lines of a menu's dishes: `- name`, with ` (alternatif)` for alternatives.
pub open spec fn dish_lines(ds: Seq<(String, bool)>) -> Seq<char>
    decreases ds.len(),
{
    if ds.len() == 0 {
        Seq::empty()
    } else {
        dish_lines(ds.drop_last()) + "- "@ + ds.last().0@ + (if ds.last().1 { " (alternatif)"@ } else { Seq::empty() }) + "\n"@
    }
}

/// The text of a month's menus: a `=== day ===` heading whenever the day changes, a
/// `--- meal ---` heading per menu, then its dishes.
pub open spec fn spec_feed_text(ms: Seq<FeedMenu>) -> Seq<char>
    decreases ms.len(),
{
    if ms.len() == 0 {
        Seq::empty()
    } else {
        let m = ms.last();
        let new_day = ms.len() == 1 || ms[ms.len() - 2].date != m.date;
        spec_feed_text(ms.drop_last()) + (if new_day { "\n=== "@ + date_text(m.date) + " ===\n"@ } else { Seq::empty() })
            + "--- "@ + m.meal.spec_turkish_name() + " ---\n"@ + dish_lines(m.dishes@)
    }
}

/// Writes the month's menus as plain text for the commentator.
pub fn feed_text(ms: &Vec<FeedMenu>) -> (r: String)
    requires
        forall|i: int| 0 <= i < ms@.len() ==> (#[trigger] ms@[i]).date.wf(),
    ensures
        r@ == spec_feed_text(ms@),
{
    let mut out: Vec<char> = Vec::new();
    let mut i: usize = 0;
    assert(ms@.take(0) =~= Seq::<FeedMenu>::empty());
    while i < ms.len()
        invariant
            i <= ms@.len(),
            forall|k: int| 0 <= k < ms@.len() ==> (#[trigger] ms@[k]).date.wf(),
            out@ == spec_feed_text(ms@.take(i as int)),
        decreases ms@.len() - i,
    {
        let m = &ms[i];
        proof {
            let t = ms@.take(i + 1);
            assert(t.drop_last() =~= ms@.take(i as int));
            assert(t.last() == ms@[i as int]);
            if i > 0 {
                assert(t[t.len() - 2] == ms@[i - 1]);
            }
        }
        if i == 0 || ms[i - 1].date != m.date {
            extend_str(&mut out, "\n=== ");
            let d = format_date(m.date);
            extend_str(&mut out, d.as_str());
            extend_str(&mut out, " ===\n");
        }
        extend_str(&mut out, "--- ");
        extend_str(&mut out, m.meal.turkish_name());
        extend_str(&mut out, " ---\n");
        let mut j: usize = 0;
        let ghost base = out@;
        assert(m.dishes@.take(0) =~= Seq::<(String, bool)>::empty());
        while j < m.dishes.len()
            invariant
                j <= m.dishes@.len(),
                out@ == base + dish_lines(m.dishes@.take(j as int)),
            decreases m.dishes@.len() - j,
        {
            proof {
                assert(m.dishes@.take(j + 1).drop_last() =~= m.dishes@.take(j as int));
                assert(m.dishes@.take(j + 1).last() == m.dishes@[j as int]);
            }
            extend_str(&mut out, "- ");
            extend_str(&mut out, m.dishes[j].0.as_str());
            if m.dishes[j].1 {
                extend_str(&mut out, " (alternatif)");
            }
            extend_str(&mut out, "\n");
            proof {
                assert(out@ =~= base + dish_lines(m.dishes@.take(j + 1)));
            }
            j = j + 1;
        }
        assert(m.dishes@.take(m.dishes@.len() as int) =~= m.dishes@);
        i = i + 1;
    }
    assert(ms@.take(ms@.len() as int) =~= ms@);
    string_from_chars(out.as_slice())
}

/// How `serde_json` writes one character inside a JSON string.
pub open spec fn json_escape_char(c: char) -> Seq<char> {
    if c == '"' {
        seq!['\\', '"']
    } else if c == '\\' {
        seq!['\\', '\\']
    } else if c == '\u{8}' {
        seq!['\\', 'b']
    } else if c == '\t' {
        seq!['\\', 't']
    } else if c == '\n' {
        seq!['\\', 'n']
    } else if c == '\u{c}' {
        seq!['\\', 'f']
    } else if c == '\r' {
        seq!['\\', 'r']
    } else if (c as int) < 0x20 {
        seq!['\\', 'u', '0', '0', crate::oauth::hex_digit((c as int) / 16), crate::oauth::hex_digit((c as int) % 16)]
    } else {
        seq![c]
    }
}

/// A text as the contents of a JSON string.
pub open spec fn json_escape(s: Seq<char>) -> Seq<char>
    decreases s.len(),
{
    if s.len() == 0 {
        Seq::empty()
    } else {
        json_escape(s.drop_last()) + json_escape_char(s.last())
    }
}

/// The member under which a menu's comment is stored.
pub const COMMENTARY_KEY: &'static str = "yorum";

/// The key needs no escaping: the stored object opens with `{"yorum":"`.
proof fn lemma_commentary_key()
    ensures
        "{\""@ + json_escape(COMMENTARY_KEY@) + "\":\""@ == "{\"yorum\":\""@,
{
    reveal_strlit("yorum");
    reveal_strlit("{\"");
    reveal_strlit("\":\"");
    reveal_strlit("{\"yorum\":\"");
    let k = COMMENTARY_KEY@;
    assert(k =~= seq!['y', 'o', 'r', 'u', 'm']);
    reveal_with_fuel(json_escape, 6);
    assert(k.drop_last() =~= seq!['y', 'o', 'r', 'u']);
    assert(k.drop_last().drop_last() =~= seq!['y', 'o', 'r']);
    assert(k.drop_last().drop_last().drop_last() =~= seq!['y', 'o']);
    assert(k.drop_last().drop_last().drop_last().drop_last() =~= seq!['y']);
    assert(k.drop_last().drop_last().drop_last().drop_last().drop_last() =~= Seq::<char>::empty());
    assert(json_escape(k) =~= k);
    assert("{\""@ + k + "\":\""@ =~= "{\"yorum\":\""@);
}

/// `serde_json` serialization (`Value::to_string`) of an object with the single member
/// `key: text`: both strings written as `serde_json` escapes strings.
#[verifier::external_body]
fn object_json(key: &str, text: &str) -> (r: String)
    ensures
        r@ == "{\""@ + json_escape(key@) + "\":\""@ + json_escape(text@) + "\"}"@,
{
    let mut m = serde_json::Map::new();
    m.insert(key.to_string(), serde_json::Value::String(text.to_string()));
    serde_json::Value::Object(m).to_string()
}

/// The days of the comments and their stored JSON, in order; the first comment whose
/// day cannot be read refuses the whole batch with its text.
pub open spec fn spec_injection_plan(entries: Seq<(String, String)>) -> Result<Seq<(CalendarDate, Seq<char>)>, Seq<char>>
    decreases entries.len(),
{
    if entries.len() == 0 {
        Ok(Seq::empty())
    } else {
        match spec_injection_plan(entries.drop_last()) {
            Err(e) => Err(e),
            Ok(prev) => match spec_bot_date(entries.last().0@) {
                None => Err(entries.last().0@),
                Some(d) => Ok(prev.push((d, "{\"yorum\":\""@ + json_escape(entries.last().1@) + "\"}"@))),
            },
        }
    }
}

/// Reads a batch of comments (day, comment) into the days and stored JSON to write.
pub fn injection_plan(entries: &Vec<(String, String)>) -> (r: Result<Vec<(CalendarDate, String)>, ModerationError>)
    ensures
        match r {
            Ok(v) => spec_injection_plan(entries@) == Ok::<Seq<(CalendarDate, Seq<char>)>, Seq<char>>(v@.map_values(|p: (CalendarDate, String)| (p.0, p.1@))),
            Err(e) => e matches ModerationError::DateParseError(m) && spec_injection_plan(entries@) == Err::<Seq<(CalendarDate, Seq<char>)>, Seq<char>>(m@),
        },
{
    let mut out: Vec<(CalendarDate, String)> = Vec::new();
    let mut i: usize = 0;
    assert(entries@.take(0) =~= Seq::<(String, String)>::empty());
    assert(out@.map_values(|p: (CalendarDate, String)| (p.0, p.1@)) =~= Seq::<(CalendarDate, Seq<char>)>::empty());
    while i < entries.len()
        invariant
            i <= entries@.len(),
            spec_injection_plan(entries@.take(i as int)) == Ok::<Seq<(CalendarDate, Seq<char>)>, Seq<char>>(out@.map_values(|p: (CalendarDate, String)| (p.0, p.1@))),
        decreases entries@.len() - i,
    {
        proof {
            assert(entries@.take(i + 1).drop_last() =~= entries@.take(i as int));
            assert(entries@.take(i + 1).last() == entries@[i as int]);
        }
        match parse_bot_date(entries[i].0.as_str()) {
            None => {
                proof {
                    lemma_plan_err(entries@, i as int);
                }
                return Err(ModerationError::DateParseError(entries[i].0.clone()));
            },
            Some(d) => {
                let j = object_json(COMMENTARY_KEY, entries[i].1.as_str());
                proof {
                    lemma_commentary_key();
                }
                let ghost before = out@.map_values(|p: (CalendarDate, String)| (p.0, p.1@));
                let ghost jv = j@;
                out.push((d, j));
                assert(out@.map_values(|p: (CalendarDate, String)| (p.0, p.1@)) =~= before.push((d, jv)));
            },
        }
        i = i + 1;
    }
    assert(entries@.take(entries@.len() as int) =~= entries@);
    Ok(out)
}

proof fn lemma_plan_err(entries: Seq<(String, String)>, i: int)
    requires
        0 <= i < entries.len(),
        spec_injection_plan(entries.take(i + 1)) is Err,
    ensures
        spec_injection_plan(entries) == spec_injection_plan(entries.take(i + 1)),
    decreases entries.len() - i,
{
    if i + 1 < entries.len() {
        assert(entries.take(i + 2).drop_last() =~= entries.take(i + 1));
        lemma_plan_err(entries, i + 1);
    } else {
        assert(entries.take(i + 1) =~= entries);
    }
}

} // verus!
