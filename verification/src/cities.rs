//! The cities of the public list, in Turkish alphabetical order, each marked with
//! whether gluten-free (celiac) meals were ever served there.

use vstd::prelude::*;
use std::cmp::Ordering;
use crate::ordering::{adjacent_sorted_by, chars_le, insert_position, lemma_insert_by, lex_le, sort_by};
use crate::requests::CityResponseDto;
use crate::text::{char_vec, spec_to_lowercase, string_from_chars, to_lowercase};

verus! {

/// Position of a letter in the Turkish alphabet, upper and lower case alike
/// (A = 1, Ç = 4, Ğ = 9, I/ı = 11, İ/i = 12, Ö = 19, Ş = 23, Ü = 26, Z = 29);
/// 0 for any other character.
pub open spec fn spec_alphabet_index(c: char) -> nat {
    match c {
        'A' | 'a' => 1,
        'B' | 'b' => 2,
        'C' | 'c' => 3,
        'Ç' | 'ç' => 4,
        'D' | 'd' => 5,
        'E' | 'e' => 6,
        'F' | 'f' => 7,
        'G' | 'g' => 8,
        'Ğ' | 'ğ' => 9,
        'H' | 'h' => 10,
        'I' | 'ı' => 11,
        'İ' | 'i' => 12,
        'J' | 'j' => 13,
        'K' | 'k' => 14,
        'L' | 'l' => 15,
        'M' | 'm' => 16,
        'N' | 'n' => 17,
        'O' | 'o' => 18,
        'Ö' | 'ö' => 19,
        'P' | 'p' => 20,
        'R' | 'r' => 21,
        'S' | 's' => 22,
        'Ş' | 'ş' => 23,
        'T' | 't' => 24,
        'U' | 'u' => 25,
        'Ü' | 'ü' => 26,
        'V' | 'v' => 27,
        'Y' | 'y' => 28,
        'Z' | 'z' => 29,
        _ => 0,
    }
}

/// The Turkish alphabet position of `c` (0 outside the alphabet).
pub fn turkish_alphabet_index(c: char) -> (r: usize)
    ensures
        r == spec_alphabet_index(c),
{
    match c {
        'A' | 'a' => 1,
        'B' | 'b' => 2,
        'C' | 'c' => 3,
        'Ç' | 'ç' => 4,
        'D' | 'd' => 5,
        'E' | 'e' => 6,
        'F' | 'f' => 7,
        'G' | 'g' => 8,
        'Ğ' | 'ğ' => 9,
        'H' | 'h' => 10,
        'I' | 'ı' => 11,
        'İ' | 'i' => 12,
        'J' | 'j' => 13,
        'K' | 'k' => 14,
        'L' | 'l' => 15,
        'M' | 'm' => 16,
        'N' | 'n' => 17,
        'O' | 'o' => 18,
        'Ö' | 'ö' => 19,
        'P' | 'p' => 20,
        'R' | 'r' => 21,
        'S' | 's' => 22,
        'Ş' | 'ş' => 23,
        'T' | 't' => 24,
        'U' | 'u' => 25,
        'Ü' | 'ü' => 26,
        'V' | 'v' => 27,
        'Y' | 'y' => 28,
        'Z' | 'z' => 29,
        _ => 0,
    }
}

/// Two characters compared by their lowercase forms as strings: -1, 0 or 1.
pub open spec fn lower_sign(c1: char, c2: char) -> int {
    let l1 = spec_to_lowercase(seq![c1]);
    let l2 = spec_to_lowercase(seq![c2]);
    if l1 == l2 {
        0
    } else if lex_le(l1, l2) {
        -1
    } else {
        1
    }
}

/// One step of the Turkish comparison on the characters `c1` and `c2`, where `rest`
/// is how the remainders compare: two letters of the alphabet compare by position,
/// whatever their case; where one character lies outside the alphabet the two compare
/// by their lowercase forms, which decides; two characters outside it that lower to
/// different forms decide by those forms; otherwise the remainders decide.
pub open spec fn char_step(c1: char, c2: char, rest: int) -> int {
    let i1 = spec_alphabet_index(c1);
    let i2 = spec_alphabet_index(c2);
    if i1 != i2 {
        if i1 == 0 || i2 == 0 {
            lower_sign(c1, c2)
        } else if i1 < i2 {
            -1
        } else {
            1
        }
    } else if i1 == 0 && lower_sign(c1, c2) != 0 {
        lower_sign(c1, c2)
    } else {
        rest
    }
}

/// Turkish alphabetical comparison of two names, as -1, 0 or 1: character by character
/// (see `char_step`); a name that runs out first comes first.
pub open spec fn turkish_sign(a: Seq<char>, b: Seq<char>) -> int
    decreases a.len(),
{
    if a.len() == 0 {
        if b.len() == 0 { 0 } else { -1 }
    } else if b.len() == 0 {
        1
    } else {
        char_step(a[0], b[0], turkish_sign(a.drop_first(), b.drop_first()))
    }
}

/// How the names compare from position `i` on.
pub open spec fn sign_from(a: Seq<char>, b: Seq<char>, i: usize) -> int {
    turkish_sign(a.skip(i as int), b.skip(i as int))
}

proof fn lemma_sign_from(a: Seq<char>, b: Seq<char>, i: usize)
    requires
        i <= a.len(),
        i <= b.len(),
        a.len() <= usize::MAX,
    ensures
        i == 0 ==> sign_from(a, b, i) == turkish_sign(a, b),
        i == a.len() && i == b.len() ==> sign_from(a, b, i) == 0,
        i == a.len() && i < b.len() ==> sign_from(a, b, i) == -1,
        i < a.len() && i == b.len() ==> sign_from(a, b, i) == 1,
        i < a.len() && i < b.len() ==> sign_from(a, b, i) == char_step(
            a[i as int],
            b[i as int],
            sign_from(a, b, (i + 1) as usize),
        ),
{
    assert(a.skip(0) =~= a);
    assert(b.skip(0) =~= b);
    if i < a.len() && i < b.len() {
        assert(a.skip(i as int)[0] == a[i as int]);
        assert(b.skip(i as int)[0] == b[i as int]);
        assert(a.skip(i as int).drop_first() =~= a.skip(i + 1));
        assert(b.skip(i as int).drop_first() =~= b.skip(i + 1));
    }
}

/// Every name compares equal to itself.
pub proof fn lemma_turkish_reflexive(a: Seq<char>)
    ensures
        turkish_sign(a, a) == 0,
    decreases a.len(),
{
    if a.len() > 0 {
        lemma_turkish_reflexive(a.drop_first());
    }
}

/// Swapping two names reverses their comparison.
pub proof fn lemma_turkish_antisymmetric(a: Seq<char>, b: Seq<char>)
    ensures
        turkish_sign(a, b) == -turkish_sign(b, a),
    decreases a.len(),
{
    if a.len() > 0 && b.len() > 0 {
        let l1 = spec_to_lowercase(seq![a[0]]);
        let l2 = spec_to_lowercase(seq![b[0]]);
        crate::ordering::lemma_lex_le_total(l1, l2);
        lemma_turkish_antisymmetric(a.drop_first(), b.drop_first());
    }
}

/// The lowercase form of one character, as `char::to_lowercase` spells it.
fn lower_of(c: char) -> (r: Vec<char>)
    ensures
        r@ == spec_to_lowercase(seq![c]),
{
    let one = vec![c];
    let s = string_from_chars(one.as_slice());
    proof {
        assert(one@ =~= seq![c]);
    }
    let l = to_lowercase(s.as_str());
    char_vec(l.as_str())
}

/// Compares two characters by their lowercase forms.
fn lower_order(c1: char, c2: char) -> (r: Ordering)
    ensures
        (r matches Ordering::Less) <==> lower_sign(c1, c2) < 0,
        (r matches Ordering::Equal) <==> lower_sign(c1, c2) == 0,
        (r matches Ordering::Greater) <==> lower_sign(c1, c2) > 0,
{
    let l1 = lower_of(c1);
    let l2 = lower_of(c2);
    if crate::assistant::chars_equal(l1.as_slice(), l2.as_slice()) {
        Ordering::Equal
    } else if chars_le(l1.as_slice(), l2.as_slice()) {
        Ordering::Less
    } else {
        Ordering::Greater
    }
}

/// Compares two names in Turkish alphabetical order (see `turkish_sign`).
pub fn turkish_cmp(a: &str, b: &str) -> (r: Ordering)
    ensures
        (r matches Ordering::Less) <==> turkish_sign(a@, b@) < 0,
        (r matches Ordering::Equal) <==> turkish_sign(a@, b@) == 0,
        (r matches Ordering::Greater) <==> turkish_sign(a@, b@) > 0,
{
    let av = char_vec(a);
    let bv = char_vec(b);
    let mut i: usize = 0;
    let alen = av.len();
    proof {
        lemma_sign_from(av@, bv@, 0);
    }
    loop
        invariant
            i <= av@.len(),
            i <= bv@.len(),
            av@.len() == alen,
            av@ == a@,
            bv@ == b@,
            turkish_sign(a@, b@) == sign_from(av@, bv@, i),
        decreases av@.len() - i,
    {
        proof {
            lemma_sign_from(av@, bv@, i);
        }
        if i == av.len() {
            if i == bv.len() {
                return Ordering::Equal;
            }
            return Ordering::Less;
        }
        if i == bv.len() {
            return Ordering::Greater;
        }
        let c1 = av[i];
        let c2 = bv[i];
        let i1 = turkish_alphabet_index(c1);
        let i2 = turkish_alphabet_index(c2);
        if i1 != i2 {
            if i1 == 0 || i2 == 0 {
                return lower_order(c1, c2);
            }
            if i1 < i2 {
                return Ordering::Less;
            }
            return Ordering::Greater;
        }
        if i1 == 0 {
            let o = lower_order(c1, c2);
            match o {
                Ordering::Equal => {},
                _ => {
                    return o;
                },
            }
        }
        i = i + 1;
    }
}

/// A city with at least one menu: its id, name and slug.
pub struct CityRecord {
    pub id: i32,
    pub name: String,
    pub slug: String,
}

/// The plain value of a city record.
pub open spec fn city_key(c: CityRecord) -> (i32, Seq<char>, Seq<char>) {
    (c.id, c.name@, c.slug@)
}

pub open spec fn city_keys(s: Seq<CityRecord>) -> Seq<(i32, Seq<char>, Seq<char>)> {
    s.map_values(|c: CityRecord| city_key(c))
}

/// Cities ordered by name, the Turkish way.
pub open spec fn by_turkish_name() -> spec_fn((i32, Seq<char>, Seq<char>), (i32, Seq<char>, Seq<char>)) -> bool {
    |a: (i32, Seq<char>, Seq<char>), b: (i32, Seq<char>, Seq<char>)| turkish_sign(a.1, b.1) <= 0
}

/// The plain value of a listed city.
pub open spec fn listed_key(d: CityResponseDto) -> (i32, Seq<char>, Seq<char>) {
    (d.id, d.name@, d.slug@)
}

pub open spec fn listed_keys(s: Seq<CityResponseDto>) -> Seq<(i32, Seq<char>, Seq<char>)> {
    s.map_values(|d: CityResponseDto| listed_key(d))
}

/// Of any two names, at least one compares no later than the other.
proof fn lemma_by_turkish_name_total()
    ensures
        forall|a: (i32, Seq<char>, Seq<char>), b: (i32, Seq<char>, Seq<char>)|
            #[trigger] by_turkish_name()(a, b) || by_turkish_name()(b, a),
{
    assert forall|a: (i32, Seq<char>, Seq<char>), b: (i32, Seq<char>, Seq<char>)|
        #[trigger] by_turkish_name()(a, b) || by_turkish_name()(b, a) by {
        lemma_turkish_antisymmetric(a.1, b.1);
    }
}

fn city_le(a: &CityRecord, b: &CityRecord) -> (r: bool)
    ensures
        r == by_turkish_name()(city_key(*a), city_key(*b)),
{
    match turkish_cmp(a.name.as_str(), b.name.as_str()) {
        Ordering::Greater => false,
        _ => true,
    }
}

/// Stable insertion sort of cities by name, the Turkish way.
fn sort_cities(v: Vec<CityRecord>) -> (r: Vec<CityRecord>)
    ensures
        city_keys(r@) == sort_by(city_keys(v@), by_turkish_name()),
{
    let ghost orig = city_keys(v@);
    let mut src = v;
    let mut out: Vec<CityRecord> = Vec::new();
    let ghost mut k: int = 0;
    assert(orig.take(0) =~= Seq::<(i32, Seq<char>, Seq<char>)>::empty());
    while src.len() > 0
        invariant
            0 <= k <= orig.len(),
            city_keys(src@) == orig.skip(k),
            city_keys(out@) == sort_by(orig.take(k), by_turkish_name()),
        decreases src@.len(),
    {
        let ghost before = src@;
        proof {
            assert(city_keys(before).len() == before.len());
            assert(orig.skip(k)[0] == orig[k]);
            assert(city_keys(before)[0] == orig[k]);
        }
        let x = src.remove(0);
        proof {
            assert(x == before[0]);
            assert forall|i: int| 0 <= i < src@.len() implies #[trigger] city_keys(src@)[i] == orig.skip(k + 1)[i] by {
                assert(src@[i] == before[i + 1]);
                assert(city_keys(before)[i + 1] == orig.skip(k)[i + 1]);
            }
            assert(city_keys(src@) =~= orig.skip(k + 1));
        }
        let ghost sv = city_keys(out@);
        let ghost xv = city_key(x);
        let mut p = out.len();
        assert(sv.len() == out@.len());
        assert(sv.take(p as int) =~= sv);
        while p > 0 && !city_le(&out[p - 1], &x)
            invariant
                p <= out@.len(),
                sv == city_keys(out@),
                xv == city_key(x),
                insert_position(sv, xv, by_turkish_name()) == insert_position(sv.take(p as int), xv, by_turkish_name()),
            decreases p,
        {
            assert(sv.take(p as int).drop_last() =~= sv.take(p - 1));
            assert(sv.take(p as int).last() == sv[p - 1]);
            p = p - 1;
        }
        proof {
            assert(sv.take(sv.len() as int) =~= sv);
            if p > 0 {
                assert(sv.take(p as int).last() == sv[p - 1]);
            }
            lemma_insert_by(sv, xv, by_turkish_name());
            assert(insert_position(sv, xv, by_turkish_name()) == p);
            assert(orig.take(k + 1).drop_last() =~= orig.take(k));
            assert(orig.take(k + 1).last() == xv);
        }
        out.insert(p, x);
        proof {
            assert(city_keys(out@) =~= sv.take(p as int).push(xv) + sv.skip(p as int));
            k = k + 1;
        }
    }
    assert(orig.take(k) =~= orig);
    out
}

/// The public city list: the cities that have menus, in Turkish alphabetical order of
/// name (a stable sort), each marked with whether it is among the cities that ever
/// served a gluten-free meal.
pub fn active_cities(cities: Vec<CityRecord>, celiac_city_ids: &Vec<i32>) -> (r: Vec<CityResponseDto>)
    ensures
        listed_keys(r@) == sort_by(city_keys(cities@), by_turkish_name()),
        listed_keys(r@).to_multiset() == city_keys(cities@).to_multiset(),
        adjacent_sorted_by(listed_keys(r@), by_turkish_name()),
        forall|i: int| 0 <= i < r@.len() ==> (#[trigger] r@[i]).has_celiac == celiac_city_ids@.contains(r@[i].id),
{
    proof {
        crate::ordering::lemma_sort_by_permutes(city_keys(cities@), by_turkish_name());
        lemma_by_turkish_name_total();
        crate::ordering::lemma_sort_by_adjacent(city_keys(cities@), by_turkish_name());
    }
    let sorted = sort_cities(cities);
    let mut out: Vec<CityResponseDto> = Vec::new();
    let mut i: usize = 0;
    while i < sorted.len()
        invariant
            i <= sorted@.len(),
            out@.len() == i,
            forall|j: int| 0 <= j < i ==> #[trigger] listed_key(out@[j]) == city_key(sorted@[j]),
            forall|j: int| 0 <= j < i ==> (#[trigger] out@[j]).has_celiac == celiac_city_ids@.contains(out@[j].id),
        decreases sorted@.len() - i,
    {
        let c = &sorted[i];
        let has_celiac = contains_id(celiac_city_ids, c.id);
        out.push(CityResponseDto { id: c.id, name: c.name.clone(), slug: c.slug.clone(), has_celiac });
        i = i + 1;
    }
    assert(listed_keys(out@) =~= city_keys(sorted@));
    out
}

/// Whether `id` occurs in `ids`.
fn contains_id(ids: &Vec<i32>, id: i32) -> (r: bool)
    ensures
        r == ids@.contains(id),
{
    let mut i: usize = 0;
    while i < ids.len()
        invariant
            i <= ids@.len(),
            forall|j: int| 0 <= j < i ==> ids@[j] != id,
        decreases ids@.len() - i,
    {
        if ids[i] == id {
            assert(ids@[i as int] == id);
            return true;
        }
        i = i + 1;
    }
    false
}

} // verus!
