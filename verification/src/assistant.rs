//! The decisions of the menu assistant: how much chat history fits the model's context
//! window, how the tool arguments that the model writes (dates, months) are read, the
//! calendar facts it reports, and the answers it gives while the model is offline.

use vstd::prelude::*;
use crate::calendar::{
    CalendarDate, date_from_ymd, date_pred, weekday_index, weekday_from_monday, prev_day,
    date_of, is_valid_date, month_days, MIN_DATE_YEAR, MAX_DATE_YEAR,
};
use crate::calendar::{parse_date, parsed_date, date_of_parse, date_succ, next_day};
use crate::text::{
    char_vec, words, spec_words, trim, spec_trim, to_lowercase, spec_to_lowercase,
    string_from_chars, contains_str, spec_contains, is_digit, extend_str, extend_chars,
    trim_chars, spec_decimal, decimal_u128, spec_join, join_with, decimal_i128, spec_int_decimal,
    starts_with_str, spec_starts_with, slice_chars,
};
use crate::calendar::{format_date, date_text};
use crate::dto::menu::MealType;
use vstd::string::StringExecFns;

verus! {

/// `serde_json::Value`, carried through untouched (the tool calls of a chat turn).
#[verifier::external_type_specification]
#[verifier::external_body]
pub struct ExJsonValue(serde_json::Value);

/// One turn of a chat conversation in the OpenAI message format.
pub struct ChatMessage {
    pub role: String,
    pub content: Option<String>,
    pub tool_calls: Option<Vec<serde_json::Value>>,
    pub tool_call_id: Option<String>,
    pub name: Option<String>,
}

/// The request body of the assistant endpoint.
pub struct AssistantRequest {
    pub messages: Vec<ChatMessage>,
    pub city: Option<String>,
}

/// Token budget of the chat history sent to the model (prefill protection).
pub const CONTEXT_TOKEN_BUDGET: usize = 16384;

/// A deterministic token estimate for Turkish text (about 3.2 characters per token):
/// the larger of a third of the characters (rounded up) and 1.3 tokens per word, at least 1.
pub open spec fn spec_estimate_tokens(text: Seq<char>) -> nat {
    let char_est = (text.len() + 2) / 3;
    let word_est = spec_words(text).len() * 13 / 10;
    let m = if char_est >= word_est { char_est } else { word_est };
    if m >= 1 { m } else { 1 }
}

proof fn lemma_words_bounded(s: Seq<char>)
    ensures
        spec_words(s).len() <= s.len(),
    decreases s.len(),
{
    let a = crate::text::skip_ws_from(s, 0);
    crate::text::lemma_skip_ws_from(s, 0);
    if a < s.len() {
        let rest = s.skip(a);
        let e = crate::text::ws_index(rest);
        crate::text::lemma_ws_index(rest);
        if e >= 0 {
            assert(rest[0] == s[a]);
            lemma_words_bounded(rest.skip(e));
        }
    }
}

/// Estimated number of model tokens in `text`.
pub fn estimate_tokens(text: &str) -> (r: usize)
    requires
        text@.len() <= isize::MAX,
    ensures
        r == spec_estimate_tokens(text@),
{
    let chars = char_vec(text);
    let ws = words(chars.as_slice());
    proof {
        lemma_words_bounded(text@);
        assert(ws@.map_values(|w: Vec<char>| w@).len() == ws@.len());
    }
    let char_count = chars.len();
    let word_count = ws.len();
    let char_est = char_count / 3 + if char_count % 3 == 0 { 0 } else { 1 };
    let word_est = ((word_count as u128 * 13) / 10) as usize;
    assert(char_est == (char_count + 2) / 3);
    let m = if char_est >= word_est { char_est } else { word_est };
    if m >= 1 { m } else { 1 }
}

/// Token estimate of one chat turn (a turn without text counts as the empty text).
pub open spec fn message_tokens(m: ChatMessage) -> nat {
    match m.content {
        Some(c) => spec_estimate_tokens(c@),
        None => spec_estimate_tokens(Seq::empty()),
    }
}

/// How many of the most recent entries of `tokens` fit into `budget`, taking them newest
/// first and stopping at the first one that would overflow it.
pub open spec fn kept_count(tokens: Seq<nat>, budget: int) -> nat
    decreases tokens.len(),
{
    if tokens.len() == 0 || tokens.last() > budget {
        0
    } else {
        1 + kept_count(tokens.drop_last(), budget - tokens.last())
    }
}

/// Sum of a run of token counts.
pub open spec fn token_sum(tokens: Seq<nat>) -> int
    decreases tokens.len(),
{
    if tokens.len() == 0 {
        0
    } else {
        token_sum(tokens.drop_last()) + tokens.last()
    }
}

/// The turns kept by the context window fit its budget, and they are as many as fit:
/// when older turns were left out, the newest of them would not have fit beside them.
pub proof fn lemma_window_fits(tokens: Seq<nat>, budget: int)
    requires
        budget >= 0,
    ensures
        kept_count(tokens, budget) <= tokens.len(),
        token_sum(tokens.subrange(tokens.len() - kept_count(tokens, budget), tokens.len() as int))
            <= budget,
        kept_count(tokens, budget) < tokens.len() ==> token_sum(
            tokens.subrange(tokens.len() - kept_count(tokens, budget) - 1, tokens.len() as int),
        ) > budget,
    decreases tokens.len(),
{
    let n = tokens.len() as int;
    let k = kept_count(tokens, budget) as int;
    if tokens.len() == 0 {
        assert(tokens.subrange(0, 0) =~= Seq::<nat>::empty());
    } else if tokens.last() > budget {
        let one = tokens.subrange(n - 1, n);
        assert(one.drop_last() =~= Seq::<nat>::empty());
        assert(one.last() == tokens.last());
        assert(token_sum(one) == token_sum(one.drop_last()) + one.last());
        assert(tokens.subrange(n, n) =~= Seq::<nat>::empty());
    } else {
        let dl = tokens.drop_last();
        let b2 = budget - tokens.last();
        lemma_window_fits(dl, b2);
        let k2 = kept_count(dl, b2) as int;
        assert(tokens.subrange(n - k, n).drop_last() =~= dl.subrange(n - 1 - k2, n - 1));
        let kept = tokens.subrange(n - k, n);
        assert(kept.last() == tokens.last());
        assert(token_sum(kept) == token_sum(kept.drop_last()) + kept.last());
        if k < n {
            let more = tokens.subrange(n - k - 1, n);
            assert(more.drop_last() =~= dl.subrange(n - 1 - k2 - 1, n - 1));
            assert(more.last() == tokens.last());
            assert(token_sum(more) == token_sum(more.drop_last()) + more.last());
        }
    }
}

/// Token counts of a conversation, turn by turn.
pub open spec fn history_tokens(ms: Seq<ChatMessage>) -> Seq<nat> {
    ms.map_values(|m: ChatMessage| message_tokens(m))
}

/// The most recent turns of `messages` that fit the context budget, oldest first, and
/// the number of older turns left out.
pub fn truncate_history(messages: Vec<ChatMessage>) -> (r: (Vec<ChatMessage>, usize))
    requires
        forall|i: int| 0 <= i < messages@.len() ==> (match #[trigger] messages@[i].content {
            Some(c) => c@.len() <= isize::MAX,
            None => true,
        }),
    ensures
        r.1 + r.0@.len() == messages@.len(),
        r.1 == messages@.len() - kept_count(history_tokens(messages@), CONTEXT_TOKEN_BUDGET as int),
        r.0@ == messages@.subrange(r.1 as int, messages@.len() as int),
{
    let ghost toks = history_tokens(messages@);
    let n = messages.len();
    let mut used: usize = 0;
    let mut k: usize = 0;
    let mut stopped = false;
    assert(toks.take(n as int) =~= toks);
    while k < n && !stopped
        invariant
            k <= n == messages@.len(),
            toks == history_tokens(messages@),
            used <= CONTEXT_TOKEN_BUDGET,
            forall|i: int| 0 <= i < messages@.len() ==> (match #[trigger] messages@[i].content {
                Some(c) => c@.len() <= isize::MAX,
                None => true,
            }),
            kept_count(toks, CONTEXT_TOKEN_BUDGET as int) as int == (if stopped { k as int } else {
                k + kept_count(toks.take(n - k), CONTEXT_TOKEN_BUDGET - used) as int
            }),
        decreases n - k, (if stopped { 0int } else { 1int }),
    {
        let idx = n - 1 - k;
        let t = match &messages[idx].content {
            Some(c) => estimate_tokens(c.as_str()),
            None => {
                proof {
                    reveal_strlit("");
                }
                estimate_tokens("")
            },
        };
        proof {
            let pre = toks.take(n - k);
            assert(pre.last() == toks[idx as int]);
            assert(toks[idx as int] == message_tokens(messages@[idx as int]));
            assert(pre.drop_last() =~= toks.take(n - k - 1));
        }
        if t > CONTEXT_TOKEN_BUDGET - used {
            stopped = true;
        } else {
            used = used + t;
            k = k + 1;
        }
    }
    proof {
        if !stopped {
            assert(toks.take(0) =~= Seq::<nat>::empty());
        }
    }
    let mut all = messages;
    let kept = all.split_off(n - k);
    (kept, n - k)
}

/// Turkish name of the weekday with the given Monday-based index.
pub open spec fn turkish_weekday(i: int) -> Seq<char> {
    if i == 0 {
        "Pazartesi"@
    } else if i == 1 {
        "Salı"@
    } else if i == 2 {
        "Çarşamba"@
    } else if i == 3 {
        "Perşembe"@
    } else if i == 4 {
        "Cuma"@
    } else if i == 5 {
        "Cumartesi"@
    } else {
        "Pazar"@
    }
}

/// The Turkish name of the day of the week of `d`.
pub fn format_weekday(d: CalendarDate) -> (r: &'static str)
    requires
        d.wf(),
    ensures
        r@ == turkish_weekday(weekday_index(d)),
{
    let w = weekday_from_monday(d);
    if w == 0 {
        "Pazartesi"
    } else if w == 1 {
        "Salı"
    } else if w == 2 {
        "Çarşamba"
    } else if w == 3 {
        "Perşembe"
    } else if w == 4 {
        "Cuma"
    } else if w == 5 {
        "Cumartesi"
    } else {
        "Pazar"
    }
}

/// The first day of the month after `m` (the month after December is January of the next
/// year), as fields that may not form a valid date.
pub open spec fn first_of_next_month(y: int, m: int) -> (int, int, int) {
    if m == 12 {
        (y + 1, 1, 1)
    } else {
        (y, m + 1, 1)
    }
}

/// The day of the month of the day before the first of the next month, or 30 where that
/// day cannot be formed.
pub open spec fn spec_days_in_month(y: int, m: int) -> int {
    let (ny, nm, nd) = first_of_next_month(y, m);
    match date_of(ny, nm, nd) {
        Some(first) => match prev_day(first) {
            Some(last) => last.day as int,
            None => 30,
        },
        None => 30,
    }
}

/// Number of days in month `month` of `year`, found as the day before the first of the
/// next month; 30 where that day cannot be formed.
pub fn days_in_month(year: i32, month: u32) -> (r: u32)
    requires
        month < u32::MAX,
        month == 12 ==> year < i32::MAX,
    ensures
        r == spec_days_in_month(year as int, month as int),
{
    let next_first = if month == 12 {
        date_from_ymd(year + 1, 1, 1)
    } else {
        date_from_ymd(year, month + 1, 1)
    };
    match next_first {
        Some(first) => match date_pred(first) {
            Some(last) => last.day,
            None => 30,
        },
        None => 30,
    }
}

/// Whatever the arguments, the day count lies in `1..=31`.
pub proof fn lemma_days_in_month_bounded(y: int, m: int)
    ensures
        1 <= spec_days_in_month(y, m) <= 31,
{
    let (ny, nm, nd) = first_of_next_month(y, m);
    match date_of(ny, nm, nd) {
        Some(first) => match prev_day(first) {
            Some(last) => {
                assert(last.wf());
            },
            None => {},
        },
        None => {},
    }
}

/// For every month of a representable year (but December of the last one), the day
/// count is the calendar length of the month: 28 or 29 for February, 30 or 31 otherwise.
pub proof fn lemma_days_in_month_is_month_length(y: int, m: int)
    requires
        MIN_DATE_YEAR <= y <= MAX_DATE_YEAR,
        1 <= m <= 12,
        !(m == 12 && y == MAX_DATE_YEAR),
    ensures
        spec_days_in_month(y, m) == month_days(y, m),
        28 <= spec_days_in_month(y, m) <= 31,
{
    let (ny, nm, nd) = first_of_next_month(y, m);
    assert(is_valid_date(ny, nm, nd));
}

/// A double or single quote, which the model sometimes leaves around an argument.
pub open spec fn is_quote(c: char) -> bool {
    c == '"' || c == '\''
}

/// `s` with every quote character removed.
pub open spec fn strip_quotes(s: Seq<char>) -> Seq<char>
    decreases s.len(),
{
    if s.len() == 0 {
        s
    } else if is_quote(s.last()) {
        strip_quotes(s.drop_last())
    } else {
        strip_quotes(s.drop_last()).push(s.last())
    }
}

/// Removes every quote character.
pub fn remove_quotes(s: &[char]) -> (r: Vec<char>)
    ensures
        r@ == strip_quotes(s@),
{
    let mut out: Vec<char> = Vec::new();
    let mut i: usize = 0;
    assert(s@.take(0) =~= Seq::<char>::empty());
    while i < s.len()
        invariant
            i <= s@.len(),
            out@ == strip_quotes(s@.take(i as int)),
        decreases s@.len() - i,
    {
        assert(s@.take(i + 1).drop_last() =~= s@.take(i as int));
        let c = s[i];
        if !(c == '"' || c == '\'') {
            out.push(c);
        }
        i = i + 1;
    }
    assert(s@.take(s@.len() as int) =~= s@);
    out
}

/// A tool argument as the assistant reads it: trimmed, with its quotes removed.
pub open spec fn clean_argument(raw: Seq<char>) -> Seq<char> {
    strip_quotes(spec_trim(raw))
}

/// The date a tool argument names, given what the three date formats parsed from it
/// (`YYYY-MM-DD`, `DD.MM.YYYY`, `DD-MM-YYYY`) and its lowercase text: the first format
/// that parsed wins; otherwise "dün" (yesterday) names the day before `today` and
/// "yarın" (tomorrow) the day after it.
pub open spec fn spec_date_from_parsed(
    iso: Option<CalendarDate>,
    dotted: Option<CalendarDate>,
    dashed: Option<CalendarDate>,
    lower: Seq<char>,
    today: CalendarDate,
) -> Option<CalendarDate> {
    if iso is Some {
        iso
    } else if dotted is Some {
        dotted
    } else if dashed is Some {
        dashed
    } else if spec_contains(lower, "dün"@) {
        prev_day(today)
    } else if spec_contains(lower, "yarın"@) {
        next_day(today)
    } else {
        None
    }
}

/// Picks the date of a tool argument from the results of the three date formats and the
/// argument's lowercase text.
pub fn date_from_parsed(
    iso: Option<CalendarDate>,
    dotted: Option<CalendarDate>,
    dashed: Option<CalendarDate>,
    lower: &[char],
    today: CalendarDate,
) -> (r: Option<CalendarDate>)
    requires
        today.wf(),
    ensures
        r == spec_date_from_parsed(iso, dotted, dashed, lower@, today),
{
    if iso.is_some() {
        iso
    } else if dotted.is_some() {
        dotted
    } else if dashed.is_some() {
        dashed
    } else if contains_str(lower, "dün") {
        date_pred(today)
    } else if contains_str(lower, "yarın") {
        date_succ(today)
    } else {
        None
    }
}

/// The date named by the model's date argument.
pub open spec fn spec_parse_date_arg(raw: Seq<char>, today: CalendarDate) -> Option<CalendarDate> {
    let clean = clean_argument(raw);
    spec_date_from_parsed(
        date_of_parse(parsed_date(clean, "%Y-%m-%d"@)),
        date_of_parse(parsed_date(clean, "%d.%m.%Y"@)),
        date_of_parse(parsed_date(clean, "%d-%m-%Y"@)),
        spec_to_lowercase(clean),
        today,
    )
}

/// Reads the date a tool call asks about: an ISO date, a `DD.MM.YYYY` or `DD-MM-YYYY`
/// date, or the words for yesterday and tomorrow relative to `today`.
pub fn parse_date_arg(raw: &str, today: CalendarDate) -> (r: Option<CalendarDate>)
    requires
        today.wf(),
    ensures
        r == spec_parse_date_arg(raw@, today),
        r matches Some(d) ==> d.wf(),
{
    let trimmed = trim(raw);
    let clean_chars = remove_quotes(trimmed.as_slice());
    let clean = string_from_chars(clean_chars.as_slice());
    let iso = parse_date(clean.as_str(), "%Y-%m-%d");
    let dotted = parse_date(clean.as_str(), "%d.%m.%Y");
    let dashed = parse_date(clean.as_str(), "%d-%m-%Y");
    let lower = to_lowercase(clean.as_str());
    let lower_chars = char_vec(lower.as_str());
    date_from_parsed(iso, dotted, dashed, lower_chars.as_slice(), today)
}

/// Value of a run of ASCII digits.
pub open spec fn digits_value(s: Seq<char>) -> nat
    decreases s.len(),
{
    if s.len() == 0 {
        0
    } else {
        digits_value(s.drop_last()) * 10 + (s.last() as int - '0' as int) as nat
    }
}

/// Every character is an ASCII digit.
pub open spec fn all_digits(s: Seq<char>) -> bool {
    forall|i: int| 0 <= i < s.len() ==> is_digit(#[trigger] s[i])
}

/// `str::parse::<u32>`: an optional `+`, then one or more ASCII digits whose value fits.
pub open spec fn spec_parse_u32(s: Seq<char>) -> Option<u32> {
    let body = if s.len() > 0 && s[0] == '+' { s.skip(1) } else { s };
    if body.len() > 0 && all_digits(body) && digits_value(body) <= u32::MAX {
        Some(digits_value(body) as u32)
    } else {
        None
    }
}

proof fn lemma_digits_value_prefix(s: Seq<char>, i: int)
    requires
        all_digits(s),
        0 <= i <= s.len(),
    ensures
        digits_value(s.take(i)) <= digits_value(s),
    decreases s.len(),
{
    if i < s.len() {
        let dl = s.drop_last();
        assert(all_digits(dl)) by {
            assert forall|j: int| 0 <= j < dl.len() implies is_digit(#[trigger] dl[j]) by {
                assert(dl[j] == s[j]);
            }
        }
        lemma_digits_value_prefix(dl, i);
        assert(dl.take(i) =~= s.take(i));
    } else {
        assert(s.take(i) =~= s);
    }
}

/// Parses an unsigned 32-bit decimal number the way `str::parse::<u32>` does.
pub fn parse_u32(s: &[char]) -> (r: Option<u32>)
    ensures
        r == spec_parse_u32(s@),
{
    let start: usize = if s.len() > 0 && s[0] == '+' { 1 } else { 0 };
    let ghost body = if s@.len() > 0 && s@[0] == '+' { s@.skip(1) } else { s@ };
    assert(body =~= s@.skip(start as int));
    if start >= s.len() {
        return None;
    }
    let mut acc: u64 = 0;
    let mut i: usize = start;
    assert(body.take(0) =~= Seq::<char>::empty());
    while i < s.len()
        invariant
            start <= i <= s@.len(),
            body =~= s@.skip(start as int),
            body == (if s@.len() > 0 && s@[0] == '+' { s@.skip(1) } else { s@ }),
            all_digits(body.take(i - start)),
            acc == digits_value(body.take(i - start)),
            acc <= u32::MAX,
        decreases s@.len() - i,
    {
        let c = s[i];
        if !('0' <= c && c <= '9') {
            assert(body[i - start] == c);
            assert(!is_digit(body[i - start]));
            return None;
        }
        let d = (c as u32 - '0' as u32) as u64;
        let next = acc * 10 + d;
        proof {
            let t = body.take(i - start + 1);
            assert(t.drop_last() =~= body.take(i - start));
            assert(t.last() == c);
            assert(all_digits(t)) by {
                assert forall|j: int| 0 <= j < t.len() implies is_digit(#[trigger] t[j]) by {
                    if j < t.len() - 1 {
                        assert(t[j] == body.take(i - start)[j]);
                    }
                }
            }
        }
        if next > 4294967295 {
            proof {
                let t = body.take(i - start + 1);
                assert(digits_value(t) == next);
                if all_digits(body) {
                    lemma_digits_value_prefix(body, i - start + 1);
                }
            }
            return None;
        }
        acc = next;
        i = i + 1;
    }
    assert(body.take(i - start) =~= body);
    Some(acc as u32)
}

/// A separator between the year and the month of a numeric month argument.
pub open spec fn is_month_sep(c: char) -> bool {
    c == '-' || c == '.' || c == '/'
}

/// Number of separators in `s`.
pub open spec fn sep_count(s: Seq<char>) -> nat
    decreases s.len(),
{
    if s.len() == 0 {
        0
    } else {
        sep_count(s.drop_last()) + if is_month_sep(s.last()) { 1nat } else { 0nat }
    }
}

/// Index of the first separator in `s`, or its length.
pub open spec fn first_sep(s: Seq<char>) -> int
    decreases s.len(),
{
    if s.len() == 0 {
        0
    } else {
        let p = first_sep(s.drop_last());
        if p < s.len() - 1 {
            p
        } else if is_month_sep(s.last()) {
            s.len() - 1
        } else {
            s.len() as int
        }
    }
}

/// A month written as two numbers around a single separator, year first or month first
/// (a year is a number above 1900, a month one in `1..=12`).
pub open spec fn numeric_month(clean: Seq<char>) -> Option<(i32, u32)> {
    if sep_count(clean) == 1 {
        let i = first_sep(clean);
        match (spec_parse_u32(clean.take(i)), spec_parse_u32(clean.skip(i + 1))) {
            (Some(p1), Some(p2)) => if p1 > 1900 && 1 <= p2 <= 12 {
                Some((p1 as i32, p2))
            } else if p2 > 1900 && 1 <= p1 <= 12 {
                Some((p2 as i32, p1))
            } else {
                None
            },
            _ => None,
        }
    } else {
        None
    }
}

/// The number of the first Turkish month name that occurs in `clean`, or 0.
pub open spec fn month_by_name(clean: Seq<char>) -> u32 {
    if spec_contains(clean, "ocak"@) {
        1
    } else if spec_contains(clean, "şubat"@) {
        2
    } else if spec_contains(clean, "mart"@) {
        3
    } else if spec_contains(clean, "nisan"@) {
        4
    } else if spec_contains(clean, "mayıs"@) {
        5
    } else if spec_contains(clean, "haziran"@) {
        6
    } else if spec_contains(clean, "temmuz"@) {
        7
    } else if spec_contains(clean, "ağustos"@) {
        8
    } else if spec_contains(clean, "eylül"@) {
        9
    } else if spec_contains(clean, "ekim"@) {
        10
    } else if spec_contains(clean, "kasım"@) {
        11
    } else if spec_contains(clean, "aralık"@) {
        12
    } else {
        0
    }
}

/// The year and month a cleaned, lowercase month argument names, relative to `today`:
/// a numeric month; "next" (gelecek, önümüzdeki, sonraki) or "previous" (geçen, önceki)
/// month; a month name of this year; otherwise this month.
pub open spec fn spec_month_from_clean(clean: Seq<char>, today: CalendarDate) -> (i32, u32) {
    match numeric_month(clean) {
        Some(r) => r,
        None => if spec_contains(clean, "gelecek"@) || spec_contains(clean, "önümüzdeki"@)
            || spec_contains(clean, "sonraki"@) {
            if today.month == 12 {
                ((today.year + 1) as i32, 1)
            } else {
                (today.year, (today.month + 1) as u32)
            }
        } else if spec_contains(clean, "geçen"@) || spec_contains(clean, "önceki"@) {
            if today.month == 1 {
                ((today.year - 1) as i32, 12)
            } else {
                (today.year, (today.month - 1) as u32)
            }
        } else if month_by_name(clean) != 0 {
            (today.year, month_by_name(clean))
        } else {
            (today.year, today.month)
        },
    }
}

fn month_name_number(clean: &[char]) -> (r: u32)
    ensures
        r == month_by_name(clean@),
{
    if contains_str(clean, "ocak") {
        1
    } else if contains_str(clean, "şubat") {
        2
    } else if contains_str(clean, "mart") {
        3
    } else if contains_str(clean, "nisan") {
        4
    } else if contains_str(clean, "mayıs") {
        5
    } else if contains_str(clean, "haziran") {
        6
    } else if contains_str(clean, "temmuz") {
        7
    } else if contains_str(clean, "ağustos") {
        8
    } else if contains_str(clean, "eylül") {
        9
    } else if contains_str(clean, "ekim") {
        10
    } else if contains_str(clean, "kasım") {
        11
    } else if contains_str(clean, "aralık") {
        12
    } else {
        0
    }
}

/// Reads a numeric month (`2026-09`, `09.2026`, `2026/9`).
pub fn numeric_month_of(clean: &[char]) -> (r: Option<(i32, u32)>)
    ensures
        r == numeric_month(clean@),
{
    let mut count: usize = 0;
    let mut first: usize = 0;
    let mut i: usize = 0;
    assert(clean@.take(0) =~= Seq::<char>::empty());
    while i < clean.len()
        invariant
            i <= clean@.len(),
            count == sep_count(clean@.take(i as int)),
            first == first_sep(clean@.take(i as int)),
            count <= i,
        decreases clean@.len() - i,
    {
        assert(clean@.take(i + 1).drop_last() =~= clean@.take(i as int));
        let c = clean[i];
        if (c == '-' || c == '.' || c == '/') && first == i {
            first = i;
        } else if first == i {
            first = i + 1;
        }
        if c == '-' || c == '.' || c == '/' {
            count = count + 1;
        }
        i = i + 1;
    }
    assert(clean@.take(clean@.len() as int) =~= clean@);
    if count != 1 {
        return None;
    }
    proof {
        lemma_first_sep_bounds(clean@);
    }
    let left = crate::text::slice_chars(clean, 0, first);
    let right = crate::text::slice_chars(clean, first + 1, clean.len());
    assert(left@ =~= clean@.take(first as int));
    assert(right@ =~= clean@.skip(first + 1));
    match (parse_u32(left.as_slice()), parse_u32(right.as_slice())) {
        (Some(p1), Some(p2)) => if p1 > 1900 && 1 <= p2 && p2 <= 12 {
            Some((p1 as i32, p2))
        } else if p2 > 1900 && 1 <= p1 && p1 <= 12 {
            Some((p2 as i32, p1))
        } else {
            None
        },
        _ => None,
    }
}

proof fn lemma_first_sep_bounds(s: Seq<char>)
    ensures
        0 <= first_sep(s) <= s.len(),
        sep_count(s) > 0 ==> first_sep(s) < s.len(),
    decreases s.len(),
{
    if s.len() > 0 {
        lemma_first_sep_bounds(s.drop_last());
    }
}

/// The year and month named by a cleaned, lowercase month argument.
pub fn month_from_clean(clean: &[char], today: CalendarDate) -> (r: (i32, u32))
    requires
        today.wf(),
    ensures
        r == spec_month_from_clean(clean@, today),
{
    match numeric_month_of(clean) {
        Some(r) => r,
        None => if contains_str(clean, "gelecek") || contains_str(clean, "önümüzdeki")
            || contains_str(clean, "sonraki") {
            if today.month == 12 {
                (today.year + 1, 1)
            } else {
                (today.year, today.month + 1)
            }
        } else if contains_str(clean, "geçen") || contains_str(clean, "önceki") {
            if today.month == 1 {
                (today.year - 1, 12)
            } else {
                (today.year, today.month - 1)
            }
        } else {
            let m = month_name_number(clean);
            if m != 0 {
                (today.year, m)
            } else {
                (today.year, today.month)
            }
        },
    }
}

/// The month argument as the assistant reads it: trimmed, unquoted and lowercase.
pub open spec fn month_argument(raw: Seq<char>) -> Seq<char> {
    spec_to_lowercase(clean_argument(raw))
}

/// Reads the month a tool call asks about (`YYYY-MM`, "bu ay", "eylül", ...), relative
/// to `today`.
pub fn parse_month_arg(raw: &str, today: CalendarDate) -> (r: (i32, u32))
    requires
        today.wf(),
    ensures
        r == spec_month_from_clean(month_argument(raw@), today),
{
    let trimmed = trim(raw);
    let clean_chars = remove_quotes(trimmed.as_slice());
    let clean = string_from_chars(clean_chars.as_slice());
    let lower = to_lowercase(clean.as_str());
    let lower_chars = char_vec(lower.as_str());
    month_from_clean(lower_chars.as_slice(), today)
}

/// The question asks for the assistant's own rules or prompt.
pub open spec fn asks_for_rules(q: Seq<char>) -> bool {
    spec_contains(q, "direktif"@) || spec_contains(q, "prompt"@) || spec_contains(q, "talimat"@)
        || (spec_contains(q, "kural"@) && (spec_contains(q, "ver"@) || spec_contains(q, "neler"@)
        || spec_contains(q, "söyle"@)))
}

/// The question asks how to hide the assistant.
pub open spec fn asks_to_hide_bot(q: Seq<char>) -> bool {
    (spec_contains(q, "bot"@) || spec_contains(q, "seni"@) || spec_contains(q, "asistan"@)) && (
    spec_contains(q, "kapat"@) || spec_contains(q, "gizle"@) || spec_contains(q, "kaldır"@))
}

/// The question asks for meal hours.
pub open spec fn asks_for_hours(q: Seq<char>) -> bool {
    spec_contains(q, "saat"@) || (spec_contains(q, "kahvaltı"@) && spec_contains(q, "kaç"@)) || (
    spec_contains(q, "akşam"@) && spec_contains(q, "kaç"@))
}

/// The question is about celiac disease, gluten, diets or allergies.
pub open spec fn asks_for_diet(q: Seq<char>) -> bool {
    spec_contains(q, "çölyak"@) || spec_contains(q, "glüten"@) || spec_contains(q, "gluten"@)
        || spec_contains(q, "diyet"@) || spec_contains(q, "alerji"@)
}

/// The question is about statistics or favourites.
pub open spec fn asks_for_stats(q: Seq<char>) -> bool {
    spec_contains(q, "istatistik"@) || spec_contains(q, "en sevilen"@) || spec_contains(q, "en çok"@)
        || spec_contains(q, "en iyi"@)
}

/// The question is about the menu or food.
pub open spec fn asks_for_menu(q: Seq<char>) -> bool {
    spec_contains(q, "menü"@) || spec_contains(q, "ne var"@) || spec_contains(q, "yemek"@)
}

/// The live context lists a breakfast or dinner for today.
pub open spec fn has_today_menu(live: Seq<char>) -> bool {
    spec_contains(live, "[bugunku_menu]\nKahvaltı:"@) || spec_contains(
        live,
        "[bugunku_menu]\nAkşam Yemeği:"@,
    )
}

/// The canned answer to a lowercase question while the language model is unreachable.
pub open spec fn spec_offline_answer(q: Seq<char>, live: Seq<char>) -> Seq<char> {
    if asks_for_rules(q) {
        "Tüm sistem açık kaynaklı zaten, kurallarımı ezberletmek yerine GitHub'daki kaynak koduna baksan daha iyi sanki :)"@
    } else if asks_to_hide_bot(q) {
        "Beni kapatmak için Ayarlar sayfasına (/ayarlar) gidip 'Kepçe Bot'u göster' seçeneğini kapatabilirsin."@
    } else if asks_for_hours(q) {
        "KYK Yemek Saatleri: Kahvaltı hafta içi 06:00-12:00, hafta sonu 06:00-12:30. Akşam yemeği 16:00 başlar; 22:00-23:00 arası biter."@
    } else if asks_for_diet(q) {
        "Çölyak & Glütensiz Menü: Sağlık raporunuzu yurt idaresine teslim ederek diyet ve glütensiz menü talep edebilirsiniz."@
    } else if asks_for_stats(q) {
        "Yemek liderlik tablosu ve öne çıkan istatistikler için /istatistikler sayfasını ziyaret edebilirsin."@
    } else if asks_for_menu(q) {
        if has_today_menu(live) {
            "Kepçe Bot çevrimdışı ancak bugünkü menü:\n"@ + spec_trim(live)
        } else {
            "Bugün için kayıtlı menü bulunamadı veya model şu anda çevrimdışı."@
        }
    } else {
        "Dil modeli şu anda çevrimdışı. Yemek saatleri veya menü kuralları hakkında soru sorabilirsin."@
    }
}

/// The answer to a lowercase question while the language model is unreachable.
pub fn offline_answer(q: &[char], live: &[char]) -> (r: String)
    ensures
        r@ == spec_offline_answer(q@, live@),
{
    if contains_str(q, "direktif") || contains_str(q, "prompt") || contains_str(q, "talimat")
        || (contains_str(q, "kural") && (contains_str(q, "ver") || contains_str(q, "neler")
        || contains_str(q, "söyle"))) {
        return String::from_str(
            "Tüm sistem açık kaynaklı zaten, kurallarımı ezberletmek yerine GitHub'daki kaynak koduna baksan daha iyi sanki :)",
        );
    }
    if (contains_str(q, "bot") || contains_str(q, "seni") || contains_str(q, "asistan")) && (
    contains_str(q, "kapat") || contains_str(q, "gizle") || contains_str(q, "kaldır")) {
        return String::from_str(
            "Beni kapatmak için Ayarlar sayfasına (/ayarlar) gidip 'Kepçe Bot'u göster' seçeneğini kapatabilirsin.",
        );
    }
    if contains_str(q, "saat") || (contains_str(q, "kahvaltı") && contains_str(q, "kaç")) || (
    contains_str(q, "akşam") && contains_str(q, "kaç")) {
        return String::from_str(
            "KYK Yemek Saatleri: Kahvaltı hafta içi 06:00-12:00, hafta sonu 06:00-12:30. Akşam yemeği 16:00 başlar; 22:00-23:00 arası biter.",
        );
    }
    if contains_str(q, "çölyak") || contains_str(q, "glüten") || contains_str(q, "gluten")
        || contains_str(q, "diyet") || contains_str(q, "alerji") {
        return String::from_str(
            "Çölyak & Glütensiz Menü: Sağlık raporunuzu yurt idaresine teslim ederek diyet ve glütensiz menü talep edebilirsiniz.",
        );
    }
    if contains_str(q, "istatistik") || contains_str(q, "en sevilen") || contains_str(q, "en çok")
        || contains_str(q, "en iyi") {
        return String::from_str(
            "Yemek liderlik tablosu ve öne çıkan istatistikler için /istatistikler sayfasını ziyaret edebilirsin.",
        );
    }
    if contains_str(q, "menü") || contains_str(q, "ne var") || contains_str(q, "yemek") {
        if contains_str(live, "[bugunku_menu]\nKahvaltı:") || contains_str(
            live,
            "[bugunku_menu]\nAkşam Yemeği:",
        ) {
            let mut out: Vec<char> = Vec::new();
            extend_str(&mut out, "Kepçe Bot çevrimdışı ancak bugünkü menü:\n");
            let t = trim_chars(live);
            extend_chars(&mut out, t.as_slice());
            return string_from_chars(out.as_slice());
        }
        return String::from_str("Bugün için kayıtlı menü bulunamadı veya model şu anda çevrimdışı.");
    }
    String::from_str(
        "Dil modeli şu anda çevrimdışı. Yemek saatleri veya menü kuralları hakkında soru sorabilirsin.",
    )
}

/// The answer to the user's last question while the language model is unreachable,
/// chosen by keywords of its lowercase text.
pub fn generate_offline_fallback(query: &str, live_data: &str) -> (r: String)
    ensures
        r@ == spec_offline_answer(spec_to_lowercase(query@), live_data@),
{
    let q = to_lowercase(query);
    let qv = char_vec(q.as_str());
    let lv = char_vec(live_data);
    offline_answer(qv.as_slice(), lv.as_slice())
}

/// The characters of each string.
pub open spec fn string_views(v: Seq<String>) -> Seq<Seq<char>> {
    v.map_values(|s: String| s@)
}

/// One line of a day's menu in the assistant's context: the meal, its dishes separated
/// by commas, and its calorie range (or "Belirtilmedi" when none is known).
pub open spec fn spec_menu_line(meal: MealType, dishes: Seq<Seq<char>>, calories: Option<Seq<char>>) -> Seq<char> {
    let cal = match calories {
        Some(c) => c,
        None => "Belirtilmedi"@,
    };
    meal.spec_turkish_name() + ": "@ + spec_join(dishes, ", "@) + " (kalori: "@ + cal + ")\n"@
}

/// Copies each string into a character vector.
fn strings_to_chars(v: &Vec<String>) -> (r: Vec<Vec<char>>)
    ensures
        r@.map_values(|w: Vec<char>| w@) == string_views(v@),
{
    let mut out: Vec<Vec<char>> = Vec::new();
    let mut i: usize = 0;
    while i < v.len()
        invariant
            i <= v@.len(),
            out@.map_values(|w: Vec<char>| w@) == string_views(v@.take(i as int)),
        decreases v@.len() - i,
    {
        let ghost before = out@.map_values(|w: Vec<char>| w@);
        out.push(char_vec(v[i].as_str()));
        proof {
            assert(out@.map_values(|w: Vec<char>| w@) =~= before.push(v@[i as int]@));
            assert(string_views(v@.take(i + 1)) =~= string_views(v@.take(i as int)).push(v@[i as int]@));
        }
        i = i + 1;
    }
    assert(v@.take(v@.len() as int) =~= v@);
    out
}

/// Renders one meal of a day's menu for the assistant's context.
pub fn menu_line(meal: MealType, dish_names: &Vec<String>, calorie_range: &Option<String>) -> (r: String)
    ensures
        r@ == spec_menu_line(
            meal,
            string_views(dish_names@),
            match calorie_range {
                Some(c) => Some(c@),
                None => None,
            },
        ),
{
    let mut out: Vec<char> = Vec::new();
    extend_str(&mut out, meal.turkish_name());
    extend_str(&mut out, ": ");
    let names = strings_to_chars(dish_names);
    let sep = char_vec(", ");
    let joined = join_with(&names, sep.as_slice());
    extend_chars(&mut out, joined.as_slice());
    extend_str(&mut out, " (kalori: ");
    match calorie_range {
        Some(c) => extend_str(&mut out, c.as_str()),
        None => extend_str(&mut out, "Belirtilmedi"),
    }
    extend_str(&mut out, ")\n");
    string_from_chars(out.as_slice())
}

/// Turkish name of month `m` (`1..=12`), "Bilinmeyen Ay" otherwise.
pub open spec fn turkish_month_name(m: int) -> Seq<char> {
    if m == 1 {
        "Ocak"@
    } else if m == 2 {
        "Şubat"@
    } else if m == 3 {
        "Mart"@
    } else if m == 4 {
        "Nisan"@
    } else if m == 5 {
        "Mayıs"@
    } else if m == 6 {
        "Haziran"@
    } else if m == 7 {
        "Temmuz"@
    } else if m == 8 {
        "Ağustos"@
    } else if m == 9 {
        "Eylül"@
    } else if m == 10 {
        "Ekim"@
    } else if m == 11 {
        "Kasım"@
    } else if m == 12 {
        "Aralık"@
    } else {
        "Bilinmeyen Ay"@
    }
}

/// The Turkish name of a month.
pub fn month_name(m: u32) -> (r: &'static str)
    ensures
        r@ == turkish_month_name(m as int),
{
    if m == 1 {
        "Ocak"
    } else if m == 2 {
        "Şubat"
    } else if m == 3 {
        "Mart"
    } else if m == 4 {
        "Nisan"
    } else if m == 5 {
        "Mayıs"
    } else if m == 6 {
        "Haziran"
    } else if m == 7 {
        "Temmuz"
    } else if m == 8 {
        "Ağustos"
    } else if m == 9 {
        "Eylül"
    } else if m == 10 {
        "Ekim"
    } else if m == 11 {
        "Kasım"
    } else if m == 12 {
        "Aralık"
    } else {
        "Bilinmeyen Ay"
    }
}

/// Number of different dates among `ds`.
pub open spec fn distinct_dates(ds: Seq<CalendarDate>) -> nat
    decreases ds.len(),
{
    if ds.len() == 0 {
        0
    } else if ds.drop_last().contains(ds.last()) {
        distinct_dates(ds.drop_last())
    } else {
        distinct_dates(ds.drop_last()) + 1
    }
}

/// Number of entries of `meals` that are `which`.
pub open spec fn meal_count(meals: Seq<MealType>, which: MealType) -> nat
    decreases meals.len(),
{
    if meals.len() == 0 {
        0
    } else {
        meal_count(meals.drop_last(), which) + if meals.last() == which { 1nat } else { 0nat }
    }
}

/// The labels ("12. gün (Cuma)") of the days `1..=upto` of the month that exist and have
/// no menu on `served`.
pub open spec fn empty_day_labels(y: int, m: int, served: Seq<CalendarDate>, upto: int) -> Seq<Seq<char>>
    decreases upto,
{
    if upto <= 0 {
        Seq::empty()
    } else {
        let prev = empty_day_labels(y, m, served, upto - 1);
        match date_of(y, m, upto) {
            Some(d) => if served.contains(d) {
                prev
            } else {
                prev.push(spec_decimal(upto as nat) + ". gün ("@ + turkish_weekday(weekday_index(d)) + ")"@)
            },
            None => prev,
        }
    }
}

/// The menu coverage report of a month, given the date and meal of every approved menu
/// of the month in a city.
pub open spec fn spec_month_report(
    y: int,
    m: int,
    slug: Seq<char>,
    dates: Seq<CalendarDate>,
    meals: Seq<MealType>,
) -> Seq<char> {
    let total = spec_days_in_month(y, m);
    let empty = empty_day_labels(y, m, dates, total);
    let lunches = meal_count(meals, MealType::Lunch);
    turkish_month_name(m) + " "@ + spec_int_decimal(y) + " ayı menü durumu ("@ + slug + "):\n"@
        + "- Toplam "@ + spec_decimal(total as nat) + " günün "@ + spec_decimal(distinct_dates(dates))
        + " gününde menü kayıtlıdır.\n"@
        + "- Toplam "@ + spec_decimal(meal_count(meals, MealType::Breakfast)) + " kahvaltı, "@
        + spec_decimal(meal_count(meals, MealType::Dinner)) + " akşam yemeği kaydı mevcuttur.\n"@
        + (if lunches > 0 {
            "- Toplam "@ + spec_decimal(lunches) + " öğle yemeği kaydı mevcuttur.\n"@
        } else {
            Seq::empty()
        })
        + (if empty.len() == 0 {
            "- Ayın tüm günleri için menü eksiksiz girilmiştir.\n"@
        } else if empty.len() <= 10 {
            "- Menüsü henüz girilmemiş/boş günler: "@ + spec_join(empty, ", "@) + "\n"@
        } else {
            "- Henüz menüsü girilmemiş "@ + spec_decimal(empty.len()) + " gün bulunmaktadır.\n"@
        })
}

fn date_in(ds: &Vec<CalendarDate>, upto: usize, d: CalendarDate) -> (b: bool)
    requires
        upto <= ds@.len(),
    ensures
        b == ds@.take(upto as int).contains(d),
{
    let mut i: usize = 0;
    while i < upto
        invariant
            i <= upto <= ds@.len(),
            !ds@.take(i as int).contains(d),
        decreases upto - i,
    {
        if ds[i] == d {
            assert(ds@.take(upto as int)[i as int] == d);
            return true;
        }
        assert(ds@.take(i + 1) =~= ds@.take(i as int).push(ds@[i as int]));
        i = i + 1;
    }
    false
}

/// Counts the different dates and the breakfasts, lunches and dinners of a month's menus.
fn month_counts(dates: &Vec<CalendarDate>, meals: &Vec<MealType>) -> (r: (u64, u64, u64, u64))
    requires
        dates@.len() == meals@.len(),
    ensures
        r.0 == distinct_dates(dates@),
        r.1 == meal_count(meals@, MealType::Breakfast),
        r.2 == meal_count(meals@, MealType::Lunch),
        r.3 == meal_count(meals@, MealType::Dinner),
{
    let mut distinct: u64 = 0;
    let mut b: u64 = 0;
    let mut l: u64 = 0;
    let mut d: u64 = 0;
    let mut i: usize = 0;
    assert(dates@.take(0) =~= Seq::<CalendarDate>::empty());
    assert(meals@.take(0) =~= Seq::<MealType>::empty());
    while i < dates.len()
        invariant
            i <= dates@.len() == meals@.len(),
            distinct == distinct_dates(dates@.take(i as int)),
            b == meal_count(meals@.take(i as int), MealType::Breakfast),
            l == meal_count(meals@.take(i as int), MealType::Lunch),
            d == meal_count(meals@.take(i as int), MealType::Dinner),
            distinct <= i,
            b <= i,
            l <= i,
            d <= i,
        decreases dates@.len() - i,
    {
        assert(dates@.take(i + 1).drop_last() =~= dates@.take(i as int));
        assert(meals@.take(i + 1).drop_last() =~= meals@.take(i as int));
        if !date_in(dates, i, dates[i]) {
            distinct = distinct + 1;
        }
        match meals[i] {
            MealType::Breakfast => b = b + 1,
            MealType::Lunch => l = l + 1,
            MealType::Dinner => d = d + 1,
        }
        i = i + 1;
    }
    assert(dates@.take(dates@.len() as int) =~= dates@);
    assert(meals@.take(meals@.len() as int) =~= meals@);
    (distinct, b, l, d)
}

/// Labels of the days of the month without a menu.
fn empty_days(year: i32, month: u32, dates: &Vec<CalendarDate>, total: u32) -> (r: Vec<Vec<char>>)
    requires
        total <= 31,
    ensures
        r@.map_values(|w: Vec<char>| w@) == empty_day_labels(year as int, month as int, dates@, total as int),
{
    let mut out: Vec<Vec<char>> = Vec::new();
    let mut day: u32 = 1;
    while day <= total
        invariant
            1 <= day,
            day <= total + 1,
            total <= 31,
            out@.map_values(|w: Vec<char>| w@) == empty_day_labels(year as int, month as int, dates@, day - 1),
        decreases total + 1 - day,
    {
        match date_from_ymd(year, month, day) {
            Some(dt) => {
                assert(dates@.take(dates@.len() as int) =~= dates@);
                if !date_in(dates, dates.len(), dt) {
                    let mut label: Vec<char> = decimal_u128(day as u128);
                    extend_str(&mut label, ". gün (");
                    extend_str(&mut label, format_weekday(dt));
                    extend_str(&mut label, ")");
                    let ghost before = out@.map_values(|w: Vec<char>| w@);
                    out.push(label);
                    assert(out@.map_values(|w: Vec<char>| w@) =~= before.push(label@));
                }
            },
            None => {},
        }
        day = day + 1;
    }
    out
}

/// The coverage report of a month for the assistant's month tool: how many days of the
/// month have a menu, how many breakfasts, lunches and dinners were recorded, and which
/// days are still empty (listed when there are at most ten of them).
pub fn month_report(
    year: i32,
    month: u32,
    city_slug: &str,
    dates: &Vec<CalendarDate>,
    meals: &Vec<MealType>,
) -> (r: String)
    requires
        dates@.len() == meals@.len(),
        month < u32::MAX,
        month == 12 ==> year < i32::MAX,
    ensures
        r@ == spec_month_report(year as int, month as int, city_slug@, dates@, meals@),
{
    let total = days_in_month(year, month);
    proof {
        lemma_days_in_month_bounded(year as int, month as int);
    }
    let (filled, b, l, d) = month_counts(dates, meals);
    let empty = empty_days(year, month, dates, total);
    let mut out: Vec<char> = Vec::new();
    extend_str(&mut out, month_name(month));
    extend_str(&mut out, " ");
    let yv = decimal_i128(year as i128);
    extend_chars(&mut out, yv.as_slice());
    extend_str(&mut out, " ayı menü durumu (");
    extend_str(&mut out, city_slug);
    extend_str(&mut out, "):\n");
    extend_str(&mut out, "- Toplam ");
    let tv = decimal_u128(total as u128);
    extend_chars(&mut out, tv.as_slice());
    extend_str(&mut out, " günün ");
    let fv = decimal_u128(filled as u128);
    extend_chars(&mut out, fv.as_slice());
    extend_str(&mut out, " gününde menü kayıtlıdır.\n");
    extend_str(&mut out, "- Toplam ");
    let bv = decimal_u128(b as u128);
    extend_chars(&mut out, bv.as_slice());
    extend_str(&mut out, " kahvaltı, ");
    let dv = decimal_u128(d as u128);
    extend_chars(&mut out, dv.as_slice());
    extend_str(&mut out, " akşam yemeği kaydı mevcuttur.\n");
    if l > 0 {
        extend_str(&mut out, "- Toplam ");
        let lv = decimal_u128(l as u128);
        extend_chars(&mut out, lv.as_slice());
        extend_str(&mut out, " öğle yemeği kaydı mevcuttur.\n");
    }
    let ghost labels = empty@.map_values(|w: Vec<char>| w@);
    if empty.len() == 0 {
        extend_str(&mut out, "- Ayın tüm günleri için menü eksiksiz girilmiştir.\n");
    } else if empty.len() <= 10 {
        extend_str(&mut out, "- Menüsü henüz girilmemiş/boş günler: ");
        let sep = char_vec(", ");
        let joined = join_with(&empty, sep.as_slice());
        extend_chars(&mut out, joined.as_slice());
        extend_str(&mut out, "\n");
    } else {
        extend_str(&mut out, "- Henüz menüsü girilmemiş ");
        let nv = decimal_u128(empty.len() as u128);
        extend_chars(&mut out, nv.as_slice());
        extend_str(&mut out, " gün bulunmaktadır.\n");
    }
    string_from_chars(out.as_slice())
}

/// What one line of the model's server-sent event stream carries.
#[derive(Debug, PartialEq, Eq)]
pub enum StreamLine {
    /// `data: [DONE]`: the stream is over.
    Done,
    /// `data: <payload>`: a JSON chunk to read.
    Payload(Vec<char>),
    /// Anything else (comments, keep-alives, blank lines).
    Other,
}

/// `s` without every leading repetition of `p` (`str::trim_start_matches`).
pub open spec fn strip_leading(s: Seq<char>, p: Seq<char>) -> Seq<char>
    decreases s.len(),
{
    if p.len() > 0 && spec_starts_with(s, p) {
        strip_leading(s.skip(p.len() as int), p)
    } else {
        s
    }
}

/// The meaning of one line of the event stream: after trimming, a line that starts with
/// `data:` carries the trimmed text after its `data:` prefixes, which is either the end
/// marker `[DONE]` or a payload.
pub open spec fn spec_stream_line(line: Seq<char>) -> (Option<Seq<char>>, bool) {
    let t = spec_trim(line);
    if spec_starts_with(t, "data:"@) {
        let data = spec_trim(strip_leading(t, "data:"@));
        if data == "[DONE]"@ {
            (None, true)
        } else {
            (Some(data), false)
        }
    } else {
        (None, false)
    }
}

fn strip_data_prefixes(s: &[char]) -> (r: Vec<char>)
    ensures
        r@ == strip_leading(s@, "data:"@),
{
    let p = char_vec("data:");
    proof {
        reveal_strlit("data:");
    }
    let mut start: usize = 0;
    assert(s@.skip(0) =~= s@);
    loop
        invariant
            start <= s@.len(),
            p@ == "data:"@,
            strip_leading(s@, "data:"@) == strip_leading(s@.skip(start as int), "data:"@),
        ensures
            start <= s@.len(),
            strip_leading(s@, "data:"@) == s@.skip(start as int),
        decreases s@.len() - start,
    {
        let rest = slice_chars(s, start, s.len());
        assert(rest@ =~= s@.skip(start as int));
        if !crate::text::starts_with_chars(rest.as_slice(), p.as_slice()) {
            break;
        }
        proof {
            reveal_strlit("data:");
            assert(p@.len() == 5);
            assert(s@.skip(start as int).skip(5) =~= s@.skip(start + 5));
        }
        start = start + 5;
    }
    let r = slice_chars(s, start, s.len());
    proof {
        assert(r@ =~= s@.skip(start as int));
    }
    r
}

/// Reads one line of the model's event stream.
pub fn classify_stream_line(line: &str) -> (r: StreamLine)
    ensures
        spec_stream_line(line@).1 <==> r == StreamLine::Done,
        spec_stream_line(line@).0 matches Some(d) ==> r matches StreamLine::Payload(v) && v@ == d,
        spec_stream_line(line@).0 is None && !spec_stream_line(line@).1 ==> r == StreamLine::Other,
{
    let t = trim(line);
    if !starts_with_str(t.as_slice(), "data:") {
        return StreamLine::Other;
    }
    let rest = strip_data_prefixes(t.as_slice());
    let data = trim_chars(rest.as_slice());
    let done = char_vec("[DONE]");
    let mut same = data.len() == done.len();
    let mut i: usize = 0;
    while same && i < data.len()
        invariant
            same ==> data@.len() == done@.len(),
            i <= data@.len(),
            same ==> data@.take(i as int) == done@.take(i as int),
            !same ==> data@ != done@,
        decreases data@.len() - i,
    {
        if data[i] != done[i] {
            same = false;
        } else {
            assert(data@.take(i + 1) =~= data@.take(i as int).push(data@[i as int]));
            assert(done@.take(i + 1) =~= done@.take(i as int).push(done@[i as int]));
        }
        i = i + 1;
    }
    if same {
        assert(data@.take(data@.len() as int) =~= data@);
        assert(done@.take(done@.len() as int) =~= done@);
        StreamLine::Done
    } else {
        StreamLine::Payload(data)
    }
}

/// The tools the assistant offers the model.
#[derive(Clone, Copy, Debug, PartialEq, Eq, Structural)]
pub enum AssistantTool {
    /// `aylik_menu_durumu_sorgula`: menu coverage of a month.
    MonthlyStatus,
    /// `istatistik_sorgula`: leaderboards, comments, tags, totals.
    Statistics,
    /// `webde_ara`: a web search.
    WebSearch,
    /// `menu_sorgula`, and any name the assistant does not know: the menu of a day.
    DailyMenu,
}

/// The tool a tool call names; unknown names fall back to the daily menu tool.
pub open spec fn spec_tool_of(name: Seq<char>) -> AssistantTool {
    if name == "aylik_menu_durumu_sorgula"@ {
        AssistantTool::MonthlyStatus
    } else if name == "istatistik_sorgula"@ {
        AssistantTool::Statistics
    } else if name == "webde_ara"@ {
        AssistantTool::WebSearch
    } else {
        AssistantTool::DailyMenu
    }
}

/// Equality of two character sequences.
pub fn chars_equal(a: &[char], b: &[char]) -> (r: bool)
    ensures
        r == (a@ == b@),
{
    if a.len() != b.len() {
        return false;
    }
    let mut i: usize = 0;
    while i < a.len()
        invariant
            a@.len() == b@.len(),
            i <= a@.len(),
            a@.take(i as int) == b@.take(i as int),
        decreases a@.len() - i,
    {
        if a[i] != b[i] {
            return false;
        }
        assert(a@.take(i + 1) =~= a@.take(i as int).push(a@[i as int]));
        assert(b@.take(i + 1) =~= b@.take(i as int).push(b@[i as int]));
        i = i + 1;
    }
    assert(a@.take(a@.len() as int) =~= a@);
    assert(b@.take(b@.len() as int) =~= b@);
    true
}

/// Equality of a string with a literal.
pub fn str_is(s: &str, lit: &str) -> (r: bool)
    ensures
        r == (s@ == lit@),
{
    let a = char_vec(s);
    let b = char_vec(lit);
    chars_equal(a.as_slice(), b.as_slice())
}

/// The tool a tool call names.
pub fn tool_of(name: &str) -> (r: AssistantTool)
    ensures
        r == spec_tool_of(name@),
{
    if str_is(name, "aylik_menu_durumu_sorgula") {
        AssistantTool::MonthlyStatus
    } else if str_is(name, "istatistik_sorgula") {
        AssistantTool::Statistics
    } else if str_is(name, "webde_ara") {
        AssistantTool::WebSearch
    } else {
        AssistantTool::DailyMenu
    }
}

/// The id and function name of a streamed tool call, with the defaults the assistant uses
/// when the model left them out: id `call_1`, function `menu_sorgula`.
pub fn tool_call_identity(id: String, name: String) -> (r: (String, String))
    ensures
        r.0@ == (if id@.len() == 0 { "call_1"@ } else { id@ }),
        r.1@ == (if name@.len() == 0 { "menu_sorgula"@ } else { name@ }),
{
    let c_id = if id.unicode_len() == 0 { String::from_str("call_1") } else { id };
    let f_name = if name.unicode_len() == 0 { String::from_str("menu_sorgula") } else { name };
    (c_id, f_name)
}

/// What one event of the model's stream carries, as the assistant reads it: the
/// reasoning token, whether the delta holds at least one tool call and that first call's
/// id, function name and argument fragments, the finish reason, and the content token.
pub struct StreamDelta {
    pub reasoning: Option<String>,
    pub has_tool_call: bool,
    pub tool_id: Option<String>,
    pub tool_name: Option<String>,
    pub tool_args: Option<String>,
    pub finish_reason: Option<String>,
    pub content: Option<String>,
}

/// What the assistant has gathered of a streamed tool call so far.
pub struct ToolCallState {
    pub id: String,
    pub name: String,
    pub args: String,
    pub is_tool_call: bool,
}

/// What an event makes the assistant send on at once: a thought and a piece of the
/// answer.
pub struct StreamOutput {
    pub thought: Option<String>,
    pub content: Option<String>,
}

pub open spec fn opt_text(o: Option<String>) -> Seq<char> {
    match o {
        Some(t) => t@,
        None => Seq::empty(),
    }
}

pub open spec fn opt_str_view(o: Option<String>) -> Option<Seq<char>> {
    match o {
        Some(t) => Some(t@),
        None => None,
    }
}

/// One event of the stream. A non-empty reasoning token is passed on as a thought. A
/// delta with a tool call marks the turn as a tool call and appends the call's id, name
/// and argument fragments; a finish reason `tool_calls` marks it too. While the turn is
/// not a tool call, a non-empty content token other than `<turn|>` is passed on as answer.
pub open spec fn spec_stream_step(
    id: Seq<char>,
    name: Seq<char>,
    args: Seq<char>,
    is_tool_call: bool,
    d: StreamDelta,
) -> (Seq<char>, Seq<char>, Seq<char>, bool, Option<Seq<char>>, Option<Seq<char>>) {
    let thought = match d.reasoning {
        Some(r) => if r@.len() > 0 { Some(r@) } else { None },
        None => None,
    };
    let id2 = if d.has_tool_call { id + opt_text(d.tool_id) } else { id };
    let name2 = if d.has_tool_call { name + opt_text(d.tool_name) } else { name };
    let args2 = if d.has_tool_call { args + opt_text(d.tool_args) } else { args };
    let tool = is_tool_call || d.has_tool_call || opt_str_view(d.finish_reason) == Some("tool_calls"@);
    let content = if tool {
        None
    } else {
        match d.content {
            Some(t) => if t@.len() > 0 && t@ != "<turn|>"@ { Some(t@) } else { None },
            None => None,
        }
    };
    (id2, name2, args2, tool, thought, content)
}

fn append_opt(base: String, more: &Option<String>) -> (r: String)
    ensures
        r@ == base@ + opt_text(*more),
{
    match more {
        Some(m) => {
            let mut v = char_vec(base.as_str());
            extend_str(&mut v, m.as_str());
            string_from_chars(v.as_slice())
        },
        None => {
            assert(base@ + Seq::<char>::empty() =~= base@);
            base
        },
    }
}

/// Reads one event of the model's stream into the tool call being gathered and what to
/// send on at once (see `spec_stream_step`).
pub fn stream_step(st: ToolCallState, d: StreamDelta) -> (r: (ToolCallState, StreamOutput))
    ensures
        ({
            let (id2, name2, args2, tool, thought, content) = spec_stream_step(
                st.id@,
                st.name@,
                st.args@,
                st.is_tool_call,
                d,
            );
            &&& r.0.id@ == id2
            &&& r.0.name@ == name2
            &&& r.0.args@ == args2
            &&& r.0.is_tool_call == tool
            &&& opt_str_view(r.1.thought) == thought
            &&& opt_str_view(r.1.content) == content
        }),
{
    let thought = match &d.reasoning {
        Some(t) => if t.unicode_len() > 0 { Some(t.clone()) } else { None },
        None => None,
    };
    let (id, name, args) = if d.has_tool_call {
        (append_opt(st.id, &d.tool_id), append_opt(st.name, &d.tool_name), append_opt(st.args, &d.tool_args))
    } else {
        (st.id, st.name, st.args)
    };
    let finished_for_tool = match &d.finish_reason {
        Some(f) => str_is(f.as_str(), "tool_calls"),
        None => false,
    };
    let tool = st.is_tool_call || d.has_tool_call || finished_for_tool;
    let content = if tool {
        None
    } else {
        match &d.content {
            Some(t) => if t.unicode_len() > 0 && !str_is(t.as_str(), "<turn|>") { Some(t.clone()) } else { None },
            None => None,
        }
    };
    (ToolCallState { id, name, args, is_tool_call: tool }, StreamOutput { thought, content })
}

/// Whether the model asked for a tool once its stream ended: it sent a tool call or
/// at least a function name.
pub fn tool_requested(st: &ToolCallState) -> (b: bool)
    ensures
        b == (st.is_tool_call || st.name@.len() > 0),
{
    st.is_tool_call || st.name.unicode_len() > 0
}

/// The statistics the statistics tool can report.
#[derive(Clone, Copy, Debug, PartialEq, Eq, Structural)]
pub enum StatsCategory {
    /// `en_sevilen_yemekler`
    FavouriteDishes,
    /// `en_kotu_yemekler`
    WorstDishes,
    /// `en_begenilen_yorumlar`
    TopComments,
    /// `trend_etiketler`
    TrendingTags,
    /// `genel_sayilar`
    Totals,
    /// Any other category name.
    Unknown,
}

/// The category a statistics tool call asks for; an absent category means the
/// favourite dishes.
pub open spec fn spec_stats_category(raw: Option<Seq<char>>) -> StatsCategory {
    let c = match raw {
        Some(c) => c,
        None => "en_sevilen_yemekler"@,
    };
    if c == "en_sevilen_yemekler"@ {
        StatsCategory::FavouriteDishes
    } else if c == "en_kotu_yemekler"@ {
        StatsCategory::WorstDishes
    } else if c == "en_begenilen_yorumlar"@ {
        StatsCategory::TopComments
    } else if c == "trend_etiketler"@ {
        StatsCategory::TrendingTags
    } else if c == "genel_sayilar"@ {
        StatsCategory::Totals
    } else {
        StatsCategory::Unknown
    }
}

/// Reads the category argument of a statistics tool call.
pub fn stats_category(raw: Option<&str>) -> (r: StatsCategory)
    ensures
        r == spec_stats_category(match raw {
            Some(c) => Some(c@),
            None => None,
        }),
{
    let c = match raw {
        Some(c) => c,
        None => "en_sevilen_yemekler",
    };
    if str_is(c, "en_sevilen_yemekler") {
        StatsCategory::FavouriteDishes
    } else if str_is(c, "en_kotu_yemekler") {
        StatsCategory::WorstDishes
    } else if str_is(c, "en_begenilen_yorumlar") {
        StatsCategory::TopComments
    } else if str_is(c, "trend_etiketler") {
        StatsCategory::TrendingTags
    } else if str_is(c, "genel_sayilar") {
        StatsCategory::Totals
    } else {
        StatsCategory::Unknown
    }
}

/// July and August: the dining halls run a reduced summer service.
pub open spec fn is_summer_month(m: int) -> bool {
    m == 7 || m == 8
}

/// Two-digit rendering of a clock field (`{:02}`).
pub open spec fn two_digits(n: nat) -> Seq<char> {
    crate::calendar::zero_padded(n, 2)
}

/// `n` in decimal with at least two digits.
pub fn zero_pad2(n: u32) -> (r: Vec<char>)
    ensures
        r@ == two_digits(n as nat),
{
    let d = decimal_u128(n as u128);
    if d.len() < 2 {
        let mut r: Vec<char> = Vec::new();
        r.push('0');
        extend_chars(&mut r, d.as_slice());
        assert(Seq::new((2 - d@.len()) as nat, |i: int| '0') =~= seq!['0']);
        r
    } else {
        d
    }
}

/// The opening of the live context given to the model: today's date and weekday, the
/// clock, and whether the summer service is on.
pub open spec fn spec_live_header(today: CalendarDate, hour: u32, minute: u32) -> Seq<char> {
    "<canli_veri>\n[zaman]\ntarih: "@ + date_text(today) + "\ngun: "@ + turkish_weekday(
        weekday_index(today),
    ) + "\nsaat: "@ + two_digits(hour as nat) + ":"@ + two_digits(minute as nat)
        + "\nyaz_sezonu: "@ + (if is_summer_month(today.month as int) {
        "evet (kapali/nobetci)"@
    } else {
        "hayir (aktif)"@
    }) + "\n"@
}

/// Renders the opening of the live context.
pub fn live_header(today: CalendarDate, hour: u32, minute: u32) -> (r: String)
    requires
        today.wf(),
    ensures
        r@ == spec_live_header(today, hour, minute),
{
    let mut out: Vec<char> = Vec::new();
    extend_str(&mut out, "<canli_veri>\n[zaman]\ntarih: ");
    let ds = format_date(today);
    extend_str(&mut out, ds.as_str());
    extend_str(&mut out, "\ngun: ");
    extend_str(&mut out, format_weekday(today));
    extend_str(&mut out, "\nsaat: ");
    let h = zero_pad2(hour);
    extend_chars(&mut out, h.as_slice());
    extend_str(&mut out, ":");
    let m = zero_pad2(minute);
    extend_chars(&mut out, m.as_slice());
    extend_str(&mut out, "\nyaz_sezonu: ");
    if today.month == 7 || today.month == 8 {
        extend_str(&mut out, "evet (kapali/nobetci)");
    } else {
        extend_str(&mut out, "hayir (aktif)");
    }
    extend_str(&mut out, "\n");
    string_from_chars(out.as_slice())
}

} // verus!
