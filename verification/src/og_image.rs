//! Open Graph share images: the SVG of a page card or a profile card, rendered to PNG.
//! Every piece of user text is XML-escaped before it enters the SVG.

use vstd::prelude::*;
use std::sync::Arc;
use resvg::usvg::fontdb::Database;
use crate::og_templates::{BADGE_0,BADGE_1,BADGE_2,BADGE_3,BADGE_4,CARD_TWO_SUB_0,CARD_TWO_SUB_1,CARD_TWO_SUB_2,CARD_TWO_SUB_3,CARD_WRAPPED_0,CARD_WRAPPED_1,CARD_WRAPPED_2,CARD_WRAPPED_3,CARD_TITLED_0,CARD_TITLED_1,CARD_TITLED_2,CARD_PLAIN_0,CARD_PLAIN_1,CARD_PAGE_0,CARD_PAGE_1,CARD_PAGE_2,PROFILE_AVATAR_0,PROFILE_AVATAR_1,PROFILE_AVATAR_2,PROFILE_AVATAR_3,PROFILE_PLAIN_0,PROFILE_PLAIN_1,PROFILE_PLAIN_2,PROFILE_PAGE_0,PROFILE_PAGE_1,PROFILE_PAGE_2,PROFILE_PAGE_3,PROFILE_PAGE_4,PROFILE_PAGE_5};
use crate::text::{
    char_vec, decimal_i128, extend_chars, extend_str, join_with_space, spec_int_decimal, spec_join,
    spec_starts_with, spec_words, string_from_chars, words,
};

verus! {

/// The escape of one character: the five XML special characters become entities.
pub open spec fn escape_char(c: char) -> Seq<char> {
    if c == '&' {
        seq!['&', 'a', 'm', 'p', ';']
    } else if c == '<' {
        seq!['&', 'l', 't', ';']
    } else if c == '>' {
        seq!['&', 'g', 't', ';']
    } else if c == '"' {
        seq!['&', 'q', 'u', 'o', 't', ';']
    } else if c == '\'' {
        seq!['&', 'a', 'p', 'o', 's', ';']
    } else {
        seq![c]
    }
}

/// The XML escape of a text: each character replaced by its escape.
pub open spec fn spec_escape_xml(s: Seq<char>) -> Seq<char>
    decreases s.len(),
{
    if s.len() == 0 {
        Seq::empty()
    } else {
        spec_escape_xml(s.drop_last()) + escape_char(s.last())
    }
}

fn push_escaped(out: &mut Vec<char>, c: char)
    ensures
        final(out)@ == old(out)@ + escape_char(c),
{
    let ghost o = out@;
    if c == '&' {
        out.push('&');
        out.push('a');
        out.push('m');
        out.push('p');
        out.push(';');
    } else if c == '<' {
        out.push('&');
        out.push('l');
        out.push('t');
        out.push(';');
    } else if c == '>' {
        out.push('&');
        out.push('g');
        out.push('t');
        out.push(';');
    } else if c == '"' {
        out.push('&');
        out.push('q');
        out.push('u');
        out.push('o');
        out.push('t');
        out.push(';');
    } else if c == '\'' {
        out.push('&');
        out.push('a');
        out.push('p');
        out.push('o');
        out.push('s');
        out.push(';');
    } else {
        out.push(c);
    }
    assert(out@ =~= o + escape_char(c));
}

/// The XML escape of a character sequence.
pub fn escape_chars(s: &[char]) -> (r: Vec<char>)
    ensures
        r@ == spec_escape_xml(s@),
{
    let mut r: Vec<char> = Vec::new();
    let mut i: usize = 0;
    assert(s@.take(0) =~= Seq::<char>::empty());
    while i < s.len()
        invariant
            i <= s@.len(),
            r@ == spec_escape_xml(s@.take(i as int)),
        decreases s@.len() - i,
    {
        push_escaped(&mut r, s[i]);
        proof {
            let t = s@.take(i + 1);
            assert(t.drop_last() =~= s@.take(i as int));
            assert(t.last() == s@[i as int]);
        }
        i = i + 1;
    }
    assert(s@.take(s@.len() as int) =~= s@);
    r
}

/// The XML escape of a string: `&`, `<`, `>`, `"` and `'` become entities.
pub fn escape_xml(s: &str) -> (r: String)
    ensures
        r@ == spec_escape_xml(s@),
{
    let v = char_vec(s);
    let e = escape_chars(v.as_slice());
    string_from_chars(e.as_slice())
}

/// An escaped text holds no `<`, `>`, `"` or `'`: it cannot open or close markup or
/// leave an attribute value.
pub proof fn lemma_escape_has_no_markup(s: Seq<char>)
    ensures
        forall|i: int| 0 <= i < spec_escape_xml(s).len() ==> {
            let c = #[trigger] spec_escape_xml(s)[i];
            c != '<' && c != '>' && c != '"' && c != '\''
        },
    decreases s.len(),
{
    if s.len() > 0 {
        lemma_escape_has_no_markup(s.drop_last());
        let a = spec_escape_xml(s.drop_last());
        let b = escape_char(s.last());
        assert forall|i: int| 0 <= i < (a + b).len() implies {
            let c = #[trigger] (a + b)[i];
            c != '<' && c != '>' && c != '"' && c != '\''
        } by {
            if i >= a.len() {
                assert((a + b)[i] == b[i - a.len()]);
            } else {
                assert((a + b)[i] == a[i]);
            }
        }
    }
}

/// One of the five entities starts at position `i` of `t`.
pub open spec fn entity_at(t: Seq<char>, i: int) -> bool {
    let r = t.skip(i);
    ||| spec_starts_with(r, seq!['&', 'a', 'm', 'p', ';'])
    ||| spec_starts_with(r, seq!['&', 'l', 't', ';'])
    ||| spec_starts_with(r, seq!['&', 'g', 't', ';'])
    ||| spec_starts_with(r, seq!['&', 'q', 'u', 'o', 't', ';'])
    ||| spec_starts_with(r, seq!['&', 'a', 'p', 'o', 's', ';'])
}

proof fn lemma_starts_with_extend(a: Seq<char>, b: Seq<char>, p: Seq<char>)
    requires
        spec_starts_with(a, p),
    ensures
        spec_starts_with(a + b, p),
{
    assert((a + b).take(p.len() as int) =~= a.take(p.len() as int));
}

/// Every `&` of an escaped text starts one of the five entities: the text holds no bare
/// ampersand.
pub proof fn lemma_escape_ampersands(s: Seq<char>)
    ensures
        forall|i: int| 0 <= i < spec_escape_xml(s).len() && #[trigger] spec_escape_xml(s)[i] == '&' ==> entity_at(
            spec_escape_xml(s),
            i,
        ),
    decreases s.len(),
{
    if s.len() > 0 {
        let d = s.drop_last();
        lemma_escape_ampersands(d);
        let a = spec_escape_xml(d);
        let b = escape_char(s.last());
        let t = spec_escape_xml(s);
        assert(t == a + b);
        assert forall|i: int| 0 <= i < t.len() && #[trigger] t[i] == '&' implies entity_at(t, i) by {
            if i < a.len() {
                assert(t[i] == a[i]);
                assert(entity_at(a, i));
                assert(t.skip(i) =~= a.skip(i) + b);
                let r = a.skip(i);
                if spec_starts_with(r, seq!['&', 'a', 'm', 'p', ';']) {
                    lemma_starts_with_extend(r, b, seq!['&', 'a', 'm', 'p', ';']);
                } else if spec_starts_with(r, seq!['&', 'l', 't', ';']) {
                    lemma_starts_with_extend(r, b, seq!['&', 'l', 't', ';']);
                } else if spec_starts_with(r, seq!['&', 'g', 't', ';']) {
                    lemma_starts_with_extend(r, b, seq!['&', 'g', 't', ';']);
                } else if spec_starts_with(r, seq!['&', 'q', 'u', 'o', 't', ';']) {
                    lemma_starts_with_extend(r, b, seq!['&', 'q', 'u', 'o', 't', ';']);
                } else {
                    lemma_starts_with_extend(r, b, seq!['&', 'a', 'p', 'o', 's', ';']);
                }
            } else {
                assert(t[i] == b[i - a.len()]);
                assert(t.skip(i) =~= b.skip(i - a.len()));
                assert(i == a.len());
                assert(b.skip(0) =~= b);
                assert(b.take(b.len() as int) =~= b);
            }
        }
    }
}

/// Reads the five XML entities back: `&amp;`, `&lt;`, `&gt;`, `&quot;` and `&apos;`
/// become the characters they stand for, scanning from the left; every other
/// character stays.
pub open spec fn decode_xml(t: Seq<char>) -> Seq<char>
    decreases t.len(),
{
    if t.len() == 0 {
        Seq::empty()
    } else if spec_starts_with(t, seq!['&', 'a', 'm', 'p', ';']) {
        seq!['&'] + decode_xml(t.skip(5))
    } else if spec_starts_with(t, seq!['&', 'l', 't', ';']) {
        seq!['<'] + decode_xml(t.skip(4))
    } else if spec_starts_with(t, seq!['&', 'g', 't', ';']) {
        seq!['>'] + decode_xml(t.skip(4))
    } else if spec_starts_with(t, seq!['&', 'q', 'u', 'o', 't', ';']) {
        seq!['"'] + decode_xml(t.skip(6))
    } else if spec_starts_with(t, seq!['&', 'a', 'p', 'o', 's', ';']) {
        seq!['\''] + decode_xml(t.skip(6))
    } else {
        seq![t[0]] + decode_xml(t.skip(1))
    }
}

/// Escaping a concatenation escapes each part.
proof fn lemma_escape_concat(a: Seq<char>, b: Seq<char>)
    ensures
        spec_escape_xml(a + b) == spec_escape_xml(a) + spec_escape_xml(b),
    decreases b.len(),
{
    if b.len() == 0 {
        assert(a + b =~= a);
        assert(spec_escape_xml(a) + spec_escape_xml(b) =~= spec_escape_xml(a));
    } else {
        lemma_escape_concat(a, b.drop_last());
        assert((a + b).drop_last() =~= a + b.drop_last());
        assert((a + b).last() == b.last());
        assert(spec_escape_xml(a) + spec_escape_xml(b) =~= spec_escape_xml(a) + spec_escape_xml(b.drop_last())
            + escape_char(b.last()));
    }
}

/// Decoding an escaped character followed by anything gives the character back first.
proof fn lemma_decode_escaped_char(c: char, rest: Seq<char>)
    ensures
        decode_xml(escape_char(c) + rest) == seq![c] + decode_xml(rest),
{
    let e = escape_char(c);
    let t = e + rest;
    assert(t.skip(e.len() as int) =~= rest);
    assert(t.take(e.len() as int) =~= e);
    assert(t[0] == e[0]);
    if e.len() > 1 {
        assert(t[1] == e[1]);
    }
    if e.len() > 2 {
        assert(t[2] == e[2]);
    }
    if c != '&' && c != '<' && c != '>' && c != '"' && c != '\'' {
        assert(t[0] == c);
        assert(!spec_starts_with(t, seq!['&', 'a', 'm', 'p', ';'])) by {
            if spec_starts_with(t, seq!['&', 'a', 'm', 'p', ';']) {
                assert(t.take(5)[0] == t[0]);
            }
        }
        assert(!spec_starts_with(t, seq!['&', 'l', 't', ';'])) by {
            if spec_starts_with(t, seq!['&', 'l', 't', ';']) {
                assert(t.take(4)[0] == t[0]);
            }
        }
        assert(!spec_starts_with(t, seq!['&', 'g', 't', ';'])) by {
            if spec_starts_with(t, seq!['&', 'g', 't', ';']) {
                assert(t.take(4)[0] == t[0]);
            }
        }
        assert(!spec_starts_with(t, seq!['&', 'q', 'u', 'o', 't', ';'])) by {
            if spec_starts_with(t, seq!['&', 'q', 'u', 'o', 't', ';']) {
                assert(t.take(6)[0] == t[0]);
            }
        }
        assert(!spec_starts_with(t, seq!['&', 'a', 'p', 'o', 's', ';'])) by {
            if spec_starts_with(t, seq!['&', 'a', 'p', 'o', 's', ';']) {
                assert(t.take(6)[0] == t[0]);
            }
        }
    } else if c == '&' {
        assert(spec_starts_with(t, seq!['&', 'a', 'm', 'p', ';']));
    } else if c == '<' {
        assert(!spec_starts_with(t, seq!['&', 'a', 'm', 'p', ';'])) by {
            if spec_starts_with(t, seq!['&', 'a', 'm', 'p', ';']) {
                assert(t.take(5)[1] == t[1]);
            }
        }
        assert(spec_starts_with(t, seq!['&', 'l', 't', ';']));
    } else if c == '>' {
        assert(!spec_starts_with(t, seq!['&', 'a', 'm', 'p', ';'])) by {
            if spec_starts_with(t, seq!['&', 'a', 'm', 'p', ';']) {
                assert(t.take(5)[1] == t[1]);
            }
        }
        assert(!spec_starts_with(t, seq!['&', 'l', 't', ';'])) by {
            if spec_starts_with(t, seq!['&', 'l', 't', ';']) {
                assert(t.take(4)[1] == t[1]);
            }
        }
        assert(spec_starts_with(t, seq!['&', 'g', 't', ';']));
    } else if c == '"' {
        assert(!spec_starts_with(t, seq!['&', 'a', 'm', 'p', ';'])) by {
            if spec_starts_with(t, seq!['&', 'a', 'm', 'p', ';']) {
                assert(t.take(5)[1] == t[1]);
            }
        }
        assert(!spec_starts_with(t, seq!['&', 'l', 't', ';'])) by {
            if spec_starts_with(t, seq!['&', 'l', 't', ';']) {
                assert(t.take(4)[1] == t[1]);
            }
        }
        assert(!spec_starts_with(t, seq!['&', 'g', 't', ';'])) by {
            if spec_starts_with(t, seq!['&', 'g', 't', ';']) {
                assert(t.take(4)[1] == t[1]);
            }
        }
        assert(spec_starts_with(t, seq!['&', 'q', 'u', 'o', 't', ';']));
    } else {
        assert(!spec_starts_with(t, seq!['&', 'a', 'm', 'p', ';'])) by {
            if spec_starts_with(t, seq!['&', 'a', 'm', 'p', ';']) {
                assert(t.take(5)[2] == t[2]);
            }
        }
        assert(!spec_starts_with(t, seq!['&', 'l', 't', ';'])) by {
            if spec_starts_with(t, seq!['&', 'l', 't', ';']) {
                assert(t.take(4)[1] == t[1]);
            }
        }
        assert(!spec_starts_with(t, seq!['&', 'g', 't', ';'])) by {
            if spec_starts_with(t, seq!['&', 'g', 't', ';']) {
                assert(t.take(4)[1] == t[1]);
            }
        }
        assert(!spec_starts_with(t, seq!['&', 'q', 'u', 'o', 't', ';'])) by {
            if spec_starts_with(t, seq!['&', 'q', 'u', 'o', 't', ';']) {
                assert(t.take(6)[1] == t[1]);
            }
        }
        assert(spec_starts_with(t, seq!['&', 'a', 'p', 'o', 's', ';']));
    }
}

/// Reading the entities of an escaped text back gives the text.
pub proof fn lemma_escape_round_trip(s: Seq<char>)
    ensures
        decode_xml(spec_escape_xml(s)) == s,
    decreases s.len(),
{
    if s.len() > 0 {
        let c = s[0];
        let rest = s.skip(1);
        assert(s =~= seq![c] + rest);
        lemma_escape_concat(seq![c], rest);
        assert(spec_escape_xml(seq![c]) =~= escape_char(c)) by {
            let one = seq![c];
            assert(one.drop_last() =~= Seq::<char>::empty());
            assert(one.last() == c);
            assert(spec_escape_xml(one) == spec_escape_xml(one.drop_last()) + escape_char(one.last()));
            assert(spec_escape_xml(Seq::<char>::empty()) == Seq::<char>::empty());
        }
        lemma_decode_escaped_char(c, spec_escape_xml(rest));
        lemma_escape_round_trip(rest);
    }
}

/// A text is its own escape exactly when it holds none of the five special characters.
pub proof fn lemma_escape_unchanged_iff_plain(s: Seq<char>)
    ensures
        (spec_escape_xml(s) == s) <==> forall|i: int| 0 <= i < s.len() ==> {
            let c = #[trigger] s[i];
            c != '&' && c != '<' && c != '>' && c != '"' && c != '\''
        },
{
    if forall|i: int| 0 <= i < s.len() ==> {
        let c = #[trigger] s[i];
        c != '&' && c != '<' && c != '>' && c != '"' && c != '\''
    } {
        lemma_escape_plain(s);
    } else {
        lemma_escape_grows(s);
    }
}

/// A text with a special character escapes to something longer.
proof fn lemma_escape_grows(s: Seq<char>)
    ensures
        spec_escape_xml(s).len() >= s.len(),
        (exists|i: int| 0 <= i < s.len() && {
            let c = #[trigger] s[i];
            c == '&' || c == '<' || c == '>' || c == '"' || c == '\''
        }) ==> spec_escape_xml(s).len() > s.len(),
    decreases s.len(),
{
    if s.len() > 0 {
        let d = s.drop_last();
        lemma_escape_grows(d);
        if exists|i: int| 0 <= i < s.len() && {
            let c = #[trigger] s[i];
            c == '&' || c == '<' || c == '>' || c == '"' || c == '\''
        } {
            let i = choose|i: int| 0 <= i < s.len() && {
                let c = #[trigger] s[i];
                c == '&' || c == '<' || c == '>' || c == '"' || c == '\''
            };
            if i < s.len() - 1 {
                assert(d[i] == s[i]);
            }
        }
    }
}

/// Escaping a text that has no special character leaves it as it is.
pub proof fn lemma_escape_plain(s: Seq<char>)
    requires
        forall|i: int| 0 <= i < s.len() ==> {
            let c = #[trigger] s[i];
            c != '&' && c != '<' && c != '>' && c != '"' && c != '\''
        },
    ensures
        spec_escape_xml(s) == s,
    decreases s.len(),
{
    if s.len() > 0 {
        assert(s.drop_last().len() == s.len() - 1);
        assert forall|i: int| 0 <= i < s.drop_last().len() implies {
            let c = #[trigger] s.drop_last()[i];
            c != '&' && c != '<' && c != '>' && c != '"' && c != '\''
        } by {
            assert(s.drop_last()[i] == s[i]);
        }
        lemma_escape_plain(s.drop_last());
        assert(s.last() == s[s.len() - 1]);
        assert(s.drop_last() + seq![s.last()] =~= s);
    }
}

/// Width of a badge holding `n` characters: 17 px per character plus 64 px of padding,
/// and at least 120 px.
pub open spec fn badge_width(n: nat) -> int {
    let w = 17 * n + 64;
    if w < 120 { 120 } else { w as int }
}

/// Half of a positive width, as the renderer prints it: the whole part, then `.5`
/// when the width is odd.
pub open spec fn spec_half(w: int) -> Seq<char> {
    if w % 2 == 1 {
        spec_int_decimal(w / 2) + ".5"@
    } else {
        spec_int_decimal(w / 2)
    }
}

fn badge_width_of(n: usize) -> (w: i128)
    ensures
        w == badge_width(n as nat),
        w >= 120,
        w <= 17 * usize::MAX + 64,
{
    let w = 17 * (n as i128) + 64;
    if w < 120 { 120 } else { w }
}

fn push_half(out: &mut Vec<char>, w: i128)
    requires
        w >= 0,
    ensures
        final(out)@ == old(out)@ + spec_half(w as int),
{
    let d = decimal_i128(w / 2);
    extend_chars(out, d.as_slice());
    if w % 2 == 1 {
        extend_str(out, ".5");
    }
}

/// The badge group of a page card: nothing when there is no badge, or when its escaped
/// text is empty or the word `null`.
pub open spec fn spec_card_badge(badge: Option<Seq<char>>) -> Seq<char> {
    match badge {
        None => Seq::empty(),
        Some(b) => {
            let t = spec_escape_xml(b);
            if t != "null"@ && t.len() > 0 {
                let w = badge_width(t.len());
                BADGE_0@ + spec_int_decimal(1050 - w) + BADGE_1@ + spec_int_decimal(w) + BADGE_2@
                    + spec_half(w) + BADGE_3@ + t + BADGE_4@
            } else {
                Seq::empty()
            }
        },
    }
}

/// The text block of a page card. With two subtitles: title (possibly empty) and both
/// subtitles on three lines. With a title only: title and subtitle, the subtitle
/// broken in two halves by words when it is longer than 40 characters and has more than
/// three words. Without a title: the subtitle alone.
pub open spec fn spec_card_content(
    title: Option<Seq<char>>,
    sub1: Seq<char>,
    sub2: Option<Seq<char>>,
) -> Seq<char> {
    match sub2 {
        Some(s2) => {
            let t = match title {
                Some(t) => spec_escape_xml(t),
                None => Seq::empty(),
            };
            CARD_TWO_SUB_0@ + t + CARD_TWO_SUB_1@ + spec_escape_xml(sub1) + CARD_TWO_SUB_2@
                + spec_escape_xml(s2) + CARD_TWO_SUB_3@
        },
        None => match title {
            Some(t) => {
                let ws = spec_words(sub1);
                if sub1.len() > 40 && ws.len() > 3 {
                    let mid = ws.len() / 2;
                    CARD_WRAPPED_0@ + spec_escape_xml(t) + CARD_WRAPPED_1@ + spec_escape_xml(
                        spec_join(ws.subrange(0, mid as int), seq![' ']),
                    ) + CARD_WRAPPED_2@ + spec_escape_xml(
                        spec_join(ws.subrange(mid as int, ws.len() as int), seq![' ']),
                    ) + CARD_WRAPPED_3@
                } else {
                    CARD_TITLED_0@ + spec_escape_xml(t) + CARD_TITLED_1@ + spec_escape_xml(sub1)
                        + CARD_TITLED_2@
                }
            },
            None => CARD_PLAIN_0@ + spec_escape_xml(sub1) + CARD_PLAIN_1@,
        },
    }
}

/// The whole SVG of a page card.
pub open spec fn spec_og_card_svg(
    title: Option<Seq<char>>,
    sub1: Seq<char>,
    sub2: Option<Seq<char>>,
    badge: Option<Seq<char>>,
) -> Seq<char> {
    CARD_PAGE_0@ + spec_card_badge(badge) + CARD_PAGE_1@ + spec_card_content(title, sub1, sub2)
        + CARD_PAGE_2@
}

/// The view of an optional string slice.
pub open spec fn opt_view(s: Option<&str>) -> Option<Seq<char>> {
    match s {
        Some(x) => Some(x@),
        None => None,
    }
}

fn push_card_badge(out: &mut Vec<char>, badge: Option<&str>)
    ensures
        final(out)@ == old(out)@ + spec_card_badge(opt_view(badge)),
{
    let ghost o = out@;
    if let Some(b) = badge {
        let t = escape_chars(char_vec(b).as_slice());
        let null = char_vec("null");
        if !crate::rate_limiter::same_chars(&t, &null) && t.len() > 0 {
            let w = badge_width_of(t.len());
            extend_str(out, BADGE_0);
            extend_chars(out, decimal_i128(1050 - w).as_slice());
            extend_str(out, BADGE_1);
            extend_chars(out, decimal_i128(w).as_slice());
            extend_str(out, BADGE_2);
            push_half(out, w);
            extend_str(out, BADGE_3);
            extend_chars(out, t.as_slice());
            extend_str(out, BADGE_4);
            let ghost w_int = badge_width(t@.len());
            assert(out@ =~= o + (BADGE_0@ + spec_int_decimal(1050 - w_int) + BADGE_1@ + spec_int_decimal(
                w_int,
            ) + BADGE_2@ + spec_half(w_int) + BADGE_3@ + t@ + BADGE_4@));
        } else {
            assert(out@ =~= o + Seq::<char>::empty());
        }
    } else {
        assert(out@ =~= o + Seq::<char>::empty());
    }
}

/// An escaped text is at most six times as long as the text.
pub proof fn lemma_escape_len(s: Seq<char>)
    ensures
        spec_escape_xml(s).len() <= 6 * s.len(),
    decreases s.len(),
{
    if s.len() > 0 {
        lemma_escape_len(s.drop_last());
    }
}

fn push_escaped_str(out: &mut Vec<char>, s: &[char])
    ensures
        final(out)@ == old(out)@ + spec_escape_xml(s@),
{
    let e = escape_chars(s);
    extend_chars(out, e.as_slice());
}

fn push_card_content(out: &mut Vec<char>, title: Option<&str>, sub1: &str, sub2: Option<&str>)
    ensures
        final(out)@ == old(out)@ + spec_card_content(opt_view(title), sub1@, opt_view(sub2)),
{
    let ghost o = out@;
    let s1 = char_vec(sub1);
    match sub2 {
        Some(s2) => {
            let t = match title {
                Some(t) => escape_chars(char_vec(t).as_slice()),
                None => Vec::new(),
            };
            extend_str(out, CARD_TWO_SUB_0);
            extend_chars(out, t.as_slice());
            extend_str(out, CARD_TWO_SUB_1);
            push_escaped_str(out, s1.as_slice());
            extend_str(out, CARD_TWO_SUB_2);
            push_escaped_str(out, char_vec(s2).as_slice());
            extend_str(out, CARD_TWO_SUB_3);
            proof {
                let tv = match opt_view(title) {
                    Some(x) => spec_escape_xml(x),
                    None => Seq::empty(),
                };
                assert(t@ =~= tv);
                assert(out@ =~= o + (CARD_TWO_SUB_0@ + tv + CARD_TWO_SUB_1@ + spec_escape_xml(sub1@)
                    + CARD_TWO_SUB_2@ + spec_escape_xml(s2@) + CARD_TWO_SUB_3@));
            }
        },
        None => match title {
            Some(t) => {
                let ws = words(s1.as_slice());
                let ghost wsv = ws@.map_values(|w: Vec<char>| w@);
                assert(wsv.len() == ws@.len());
                if s1.len() > 40 && ws.len() > 3 {
                    let mid = ws.len() / 2;
                    let line1 = join_with_space(&ws, 0, mid);
                    let line2 = join_with_space(&ws, mid, ws.len());
                    extend_str(out, CARD_WRAPPED_0);
                    push_escaped_str(out, char_vec(t).as_slice());
                    extend_str(out, CARD_WRAPPED_1);
                    push_escaped_str(out, line1.as_slice());
                    extend_str(out, CARD_WRAPPED_2);
                    push_escaped_str(out, line2.as_slice());
                    extend_str(out, CARD_WRAPPED_3);
                    proof {
                        let m = (wsv.len() / 2) as int;
                        assert(out@ =~= o + (CARD_WRAPPED_0@ + spec_escape_xml(t@) + CARD_WRAPPED_1@
                            + spec_escape_xml(spec_join(wsv.subrange(0, m), seq![' ']))
                            + CARD_WRAPPED_2@ + spec_escape_xml(
                            spec_join(wsv.subrange(m, wsv.len() as int), seq![' ']),
                        ) + CARD_WRAPPED_3@));
                    }
                } else {
                    extend_str(out, CARD_TITLED_0);
                    push_escaped_str(out, char_vec(t).as_slice());
                    extend_str(out, CARD_TITLED_1);
                    push_escaped_str(out, s1.as_slice());
                    extend_str(out, CARD_TITLED_2);
                    assert(out@ =~= o + (CARD_TITLED_0@ + spec_escape_xml(t@) + CARD_TITLED_1@
                        + spec_escape_xml(sub1@) + CARD_TITLED_2@));
                }
            },
            None => {
                extend_str(out, CARD_PLAIN_0);
                push_escaped_str(out, s1.as_slice());
                extend_str(out, CARD_PLAIN_1);
                assert(out@ =~= o + (CARD_PLAIN_0@ + spec_escape_xml(sub1@) + CARD_PLAIN_1@));
            },
        },
    }
}

/// The SVG of a page card: the logo, an optional badge, a title and one or two
/// subtitles, all user text escaped.
pub fn og_card_svg(title: Option<&str>, sub1: &str, sub2: Option<&str>, badge: Option<&str>) -> (r: String)
    ensures
        r@ == spec_og_card_svg(opt_view(title), sub1@, opt_view(sub2), opt_view(badge)),
{
    let mut out: Vec<char> = Vec::new();
    extend_str(&mut out, CARD_PAGE_0);
    push_card_badge(&mut out, badge);
    extend_str(&mut out, CARD_PAGE_1);
    push_card_content(&mut out, title, sub1, sub2);
    extend_str(&mut out, CARD_PAGE_2);
    assert(out@ =~= spec_og_card_svg(opt_view(title), sub1@, opt_view(sub2), opt_view(badge)));
    string_from_chars(out.as_slice())
}

/// The body of a profile card: with an avatar (base64 JPEG data, inserted as given),
/// the picture beside the name and karma line; without, the name and karma line alone.
pub open spec fn spec_profile_body(user: Seq<char>, karma: Seq<char>, avatar: Option<Seq<char>>) -> Seq<char> {
    match avatar {
        Some(b64) => PROFILE_AVATAR_0@ + b64 + PROFILE_AVATAR_1@ + spec_escape_xml(user) + PROFILE_AVATAR_2@
            + spec_escape_xml(karma) + PROFILE_AVATAR_3@,
        None => PROFILE_PLAIN_0@ + spec_escape_xml(user) + PROFILE_PLAIN_1@ + spec_escape_xml(karma)
            + PROFILE_PLAIN_2@,
    }
}

/// The whole SVG of a profile card.
pub open spec fn spec_og_profile_svg(
    user: Seq<char>,
    karma: Seq<char>,
    avatar: Option<Seq<char>>,
    badge: Seq<char>,
) -> Seq<char> {
    let t = spec_escape_xml(badge);
    let w = badge_width(t.len());
    PROFILE_PAGE_0@ + spec_int_decimal(1050 - w) + PROFILE_PAGE_1@ + spec_int_decimal(w) + PROFILE_PAGE_2@
        + spec_half(w) + PROFILE_PAGE_3@ + t + PROFILE_PAGE_4@ + spec_profile_body(user, karma, avatar)
        + PROFILE_PAGE_5@
}

/// The SVG of a profile card: the logo, a badge, the user's name and karma line, and
/// optionally the avatar picture.
pub fn og_profile_svg(username: &str, karma_text: &str, avatar_base64: Option<&str>, badge: &str) -> (r: String)
    ensures
        r@ == spec_og_profile_svg(username@, karma_text@, opt_view(avatar_base64), badge@),
{
    let t = escape_chars(char_vec(badge).as_slice());
    let w = badge_width_of(t.len());
    let user = escape_chars(char_vec(username).as_slice());
    let karma = escape_chars(char_vec(karma_text).as_slice());
    let mut body: Vec<char> = Vec::new();
    match avatar_base64 {
        Some(b64) => {
            extend_str(&mut body, PROFILE_AVATAR_0);
            extend_str(&mut body, b64);
            extend_str(&mut body, PROFILE_AVATAR_1);
            extend_chars(&mut body, user.as_slice());
            extend_str(&mut body, PROFILE_AVATAR_2);
            extend_chars(&mut body, karma.as_slice());
            extend_str(&mut body, PROFILE_AVATAR_3);
        },
        None => {
            extend_str(&mut body, PROFILE_PLAIN_0);
            extend_chars(&mut body, user.as_slice());
            extend_str(&mut body, PROFILE_PLAIN_1);
            extend_chars(&mut body, karma.as_slice());
            extend_str(&mut body, PROFILE_PLAIN_2);
        },
    }
    assert(body@ =~= spec_profile_body(username@, karma_text@, opt_view(avatar_base64)));
    let mut out: Vec<char> = Vec::new();
    extend_str(&mut out, PROFILE_PAGE_0);
    extend_chars(&mut out, decimal_i128(1050 - w).as_slice());
    extend_str(&mut out, PROFILE_PAGE_1);
    extend_chars(&mut out, decimal_i128(w).as_slice());
    extend_str(&mut out, PROFILE_PAGE_2);
    push_half(&mut out, w);
    extend_str(&mut out, PROFILE_PAGE_3);
    extend_chars(&mut out, t.as_slice());
    extend_str(&mut out, PROFILE_PAGE_4);
    extend_chars(&mut out, body.as_slice());
    extend_str(&mut out, PROFILE_PAGE_5);
    assert(out@ =~= spec_og_profile_svg(username@, karma_text@, opt_view(avatar_base64), badge@));
    string_from_chars(out.as_slice())
}

#[verifier::external_type_specification]
#[verifier::external_body]
pub struct ExFontDatabase(Database);

/// The eight bytes that open every PNG file.
pub open spec fn png_signature() -> Seq<u8> {
    seq![137u8, 80u8, 78u8, 71u8, 13u8, 10u8, 26u8, 10u8]
}

/// A number as four bytes, most significant first.
pub open spec fn be_u32(v: u32) -> Seq<u8> {
    seq![(v / 0x1000000) as u8, (v / 0x10000 % 0x100) as u8, (v / 0x100 % 0x100) as u8, (v % 0x100) as u8]
}

/// The first 24 bytes of a PNG image of the given size: the signature, then the header
/// chunk (`IHDR`, 13 bytes long) opening with the width and the height.
pub open spec fn png_header(width: u32, height: u32) -> Seq<u8> {
    png_signature() + seq![0u8, 0u8, 0u8, 13u8, 73u8, 72u8, 68u8, 82u8] + be_u32(width) + be_u32(height)
}

/// Width and height of every card, in pixels.
pub const CARD_WIDTH: u32 = 1200;
pub const CARD_HEIGHT: u32 = 630;

/// The sans-serif family the cards are drawn with.
pub const CARD_FONT_FAMILY: &'static str = "Public Sans";

/// A font database holding the system's fonts (`fontdb::Database::load_system_fonts`),
/// with `family` as its sans-serif family (`set_sans_serif_family`). Nothing is claimed
/// of which fonts the machine has.
#[verifier::external_body]
fn font_database(family: &str) -> Arc<Database> {
    let mut db = Database::new();
    db.load_system_fonts();
    db.set_sans_serif_family(family);
    Arc::new(db)
}

/// Whether an SVG text renders onto a canvas of the given size: usvg parses it
/// (`usvg::Tree::from_str`, whose errors depend on the text alone; missing fonts only
/// leave glyphs out) and tiny-skia makes the canvas (`Pixmap::new`, which refuses a zero
/// or oversized one). Encoding into memory does not fail.
pub uninterp spec fn svg_renders(svg: Seq<char>, width: u32, height: u32) -> bool;

/// Why a rendering failed: the SVG did not parse (with usvg's error, as its `Debug` text
/// writes it), the canvas could not be made, or the PNG encoder refused (with its error).
pub enum RenderFailure {
    Svg(String),
    Canvas,
    Png(String),
}

/// Renders an SVG onto a `width` x `height` canvas and encodes it as PNG
/// (`usvg::Tree::from_str`, `tiny_skia::Pixmap::new`, `resvg::render`,
/// `Pixmap::encode_png`). Claimed: whether it succeeds is named by `svg_renders`, and a
/// success is a PNG of the canvas's size: it starts with the PNG signature and the
/// header chunk holding the width and height, which the `png` encoder writes first into
/// the fresh buffer it returns (`Encoder::write_header`, `Info::encode`). The pixels
/// depend on the fonts the machine has, so nothing is claimed of them.
#[verifier::external_body]
fn rasterize_svg(svg: &str, fonts: Arc<Database>, width: u32, height: u32) -> (r: Result<Vec<u8>, RenderFailure>)
    ensures
        r is Ok <==> svg_renders(svg@, width, height),
        r matches Ok(png) ==> png@.len() >= 24 && png@.take(24) == png_header(width, height),
{
    let opt = resvg::usvg::Options { fontdb: fonts, ..Default::default() };
    let tree = match resvg::usvg::Tree::from_str(svg, &opt) {
        Ok(t) => t,
        Err(e) => return Err(RenderFailure::Svg(format!("{:?}", e))),
    };
    let mut pixmap = match resvg::tiny_skia::Pixmap::new(width, height) {
        Some(p) => p,
        None => return Err(RenderFailure::Canvas),
    };
    resvg::render(&tree, resvg::tiny_skia::Transform::default(), &mut pixmap.as_mut());
    pixmap.encode_png().map_err(|e| RenderFailure::Png(format!("{:?}", e)))
}

/// The message of a failed rendering.
pub open spec fn spec_failure_text(f: RenderFailure) -> Seq<char> {
    match f {
        RenderFailure::Svg(d) => "SVG parse hatası: "@ + d@,
        RenderFailure::Canvas => "Pixmap oluşturulamadı"@,
        RenderFailure::Png(d) => "PNG encode hatası: "@ + d@,
    }
}

/// A message opens with what failed: the SVG, the canvas or the PNG encoding.
pub open spec fn is_failure_text(m: Seq<char>) -> bool {
    ||| spec_starts_with(m, "SVG parse hatası: "@)
    ||| m == "Pixmap oluşturulamadı"@
    ||| spec_starts_with(m, "PNG encode hatası: "@)
}

/// Writes the message of a failed rendering.
pub fn failure_text(f: RenderFailure) -> (r: String)
    ensures
        r@ == spec_failure_text(f),
        is_failure_text(r@),
{
    proof {
        reveal_strlit("SVG parse hatası: ");
        reveal_strlit("PNG encode hatası: ");
    }
    let mut out: Vec<char> = Vec::new();
    match f {
        RenderFailure::Svg(d) => {
            extend_str(&mut out, "SVG parse hatası: ");
            extend_str(&mut out, d.as_str());
            proof {
                assert(out@.take("SVG parse hatası: "@.len() as int) =~= "SVG parse hatası: "@);
            }
        },
        RenderFailure::Canvas => {
            extend_str(&mut out, "Pixmap oluşturulamadı");
        },
        RenderFailure::Png(d) => {
            extend_str(&mut out, "PNG encode hatası: ");
            extend_str(&mut out, d.as_str());
            proof {
                assert(out@.take("PNG encode hatası: "@.len() as int) =~= "PNG encode hatası: "@);
            }
        },
    }
    string_from_chars(out.as_slice())
}

/// Renders an SVG as a card: on the card's canvas, with the card's font family.
fn render_card_svg(svg: &str) -> (r: Result<Vec<u8>, String>)
    ensures
        r is Ok <==> svg_renders(svg@, CARD_WIDTH, CARD_HEIGHT),
        r matches Ok(png) ==> png@.len() >= 24 && png@.take(24) == png_header(CARD_WIDTH, CARD_HEIGHT),
        r matches Ok(png) ==> png@.take(8) == png_signature(),
        r matches Err(m) ==> is_failure_text(m@),
{
    match rasterize_svg(svg, font_database(CARD_FONT_FAMILY), CARD_WIDTH, CARD_HEIGHT) {
        Ok(png) => {
            proof {
                assert(png@.take(24).take(8) =~= png@.take(8));
                assert(png_header(CARD_WIDTH, CARD_HEIGHT).take(8) =~= png_signature());
            }
            Ok(png)
        },
        Err(f) => Err(failure_text(f)),
    }
}

/// A page card as PNG: the SVG of `og_card_svg`, rendered on a 1200x630 canvas.
pub fn render_og_card(title: Option<&str>, sub1: &str, sub2: Option<&str>, badge: Option<&str>) -> (r: Result<
    Vec<u8>,
    String,
>)
    ensures
        r is Ok <==> svg_renders(
            spec_og_card_svg(opt_view(title), sub1@, opt_view(sub2), opt_view(badge)),
            CARD_WIDTH,
            CARD_HEIGHT,
        ),
        r matches Ok(png) ==> png@.len() >= 24 && png@.take(24) == png_header(CARD_WIDTH, CARD_HEIGHT),
        r matches Ok(png) ==> png@.take(8) == png_signature(),
        r matches Err(m) ==> is_failure_text(m@),
{
    let svg = og_card_svg(title, sub1, sub2, badge);
    render_card_svg(svg.as_str())
}

/// A profile card as PNG: the SVG of `og_profile_svg`, rendered on a 1200x630 canvas.
pub fn render_og_profile(username: &str, karma_text: &str, avatar_base64: Option<&str>, badge: &str) -> (r: Result<
    Vec<u8>,
    String,
>)
    ensures
        r is Ok <==> svg_renders(
            spec_og_profile_svg(username@, karma_text@, opt_view(avatar_base64), badge@),
            CARD_WIDTH,
            CARD_HEIGHT,
        ),
        r matches Ok(png) ==> png@.len() >= 24 && png@.take(24) == png_header(CARD_WIDTH, CARD_HEIGHT),
        r matches Ok(png) ==> png@.take(8) == png_signature(),
        r matches Err(m) ==> is_failure_text(m@),
{
    let svg = og_profile_svg(username, karma_text, avatar_base64, badge);
    render_card_svg(svg.as_str())
}

} // verus!
