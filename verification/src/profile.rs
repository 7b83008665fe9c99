//! The parts of a user profile that are computed from the user's record: the level and
//! its progress bar from the karma score, and how badges are grouped and drawn.

use vstd::prelude::*;
use crate::dto::user::LevelProgressDto;
use crate::validation::opt_string_view;
use crate::text::{char_vec, to_lowercase, spec_to_lowercase, contains_str, spec_contains};
use vstd::string::StringExecFns;

verus! {

/// Karma levels: level `l` spans the scores from `10 (l-1)²` up to (not including)
/// `10 l²`; a negative score counts as zero.
pub open spec fn is_level_of(karma: int, level: int) -> bool {
    let k = if karma < 0 { 0 } else { karma };
    level >= 1 && 10 * (level - 1) * (level - 1) <= k < 10 * level * level
}

/// The largest karma score whose level bounds fit in an `i32`.
pub const MAX_LEVEL_KARMA: i32 = 2147397159;

/// Title of a level.
pub open spec fn spec_level_title(level: int) -> Seq<char> {
    if level == 1 {
        "Çırak"@
    } else if level == 2 {
        "Kalfalık Yolunda"@
    } else if level == 3 {
        "Kalfa"@
    } else if level == 4 {
        "Usta Adayı"@
    } else if level == 5 {
        "Usta"@
    } else if level == 6 {
        "Şef"@
    } else if level == 7 {
        "Gurme"@
    } else if level == 8 {
        "Kepçe Ustası"@
    } else if level == 9 {
        "Yemekhane Gurusu"@
    } else {
        "Efsane Şef"@
    }
}

/// The title of a level.
pub fn level_title(level: i32) -> (r: &'static str)
    ensures
        r@ == spec_level_title(level as int),
{
    if level == 1 {
        "Çırak"
    } else if level == 2 {
        "Kalfalık Yolunda"
    } else if level == 3 {
        "Kalfa"
    } else if level == 4 {
        "Usta Adayı"
    } else if level == 5 {
        "Usta"
    } else if level == 6 {
        "Şef"
    } else if level == 7 {
        "Gurme"
    } else if level == 8 {
        "Kepçe Ustası"
    } else if level == 9 {
        "Yemekhane Gurusu"
    } else {
        "Efsane Şef"
    }
}

/// Progress through a level in whole percent, rounded half away from zero:
/// `round(100 · current / target)`.
pub open spec fn rounded_percent(current: int, target: int) -> int {
    (200 * current + target) / (2 * target)
}

/// The level of a karma score, its title, and the progress toward the next level: the
/// karma earned within the level, the karma the level spans, and the percentage.
pub fn level_progress(karma_score: i32) -> (r: LevelProgressDto)
    requires
        karma_score <= MAX_LEVEL_KARMA,
    ensures
        is_level_of(karma_score as int, r.level as int),
        r.title@ == spec_level_title(r.level as int),
        r.karma_in_level == (if karma_score < 0 { 0 } else { karma_score as int }) - 10 * (r.level - 1) * (r.level - 1),
        r.karma_for_next == 10 * r.level * r.level - 10 * (r.level - 1) * (r.level - 1),
        r.progress_percent == rounded_percent(r.karma_in_level as int, r.karma_for_next as int),
        0 <= r.progress_percent <= 100,
{
    let karma: i64 = if karma_score < 0 { 0 } else { karma_score as i64 };
    let mut n: i64 = 0;
    loop
        invariant
            0 <= n <= 14654,
            0 <= karma <= MAX_LEVEL_KARMA,
            10 * n * n <= karma,
        ensures
            0 <= n <= 14654,
            10 * n * n <= karma < 10 * (n + 1) * (n + 1),
        decreases karma - 10 * n * n,
    {
        let m: i64 = n + 1;
        proof {
            assert(m * m <= 14655 * 14655) by (nonlinear_arith)
                requires
                    1 <= m <= 14655,
            ;
            assert(m * m >= 0) by (nonlinear_arith);
        }
        let sq: i64 = m * m;
        if 10 * sq > karma {
            assert(10 * (n + 1) * (n + 1) == 10 * sq) by (nonlinear_arith)
                requires
                    sq == m * m,
                    m == n + 1,
            ;
            break;
        }
        proof {
            assert(10 * (n + 1) * (n + 1) > 10 * n * n) by (nonlinear_arith)
                requires
                    n >= 0,
            ;
            assert(10 * m * m == 10 * sq) by (nonlinear_arith)
                requires
                    sq == m * m,
            ;
            if m > 14654 {
                assert(10 * sq >= 10 * 14655 * 14655) by (nonlinear_arith)
                    requires
                        m >= 14655,
                        sq == m * m,
                ;
            }
        }
        n = m;
    }
    let level: i64 = n + 1;
    proof {
        assert(n * n <= 14654 * 14654) by (nonlinear_arith)
            requires
                0 <= n <= 14654,
        ;
        assert(level * level <= 14655 * 14655) by (nonlinear_arith)
            requires
                1 <= level <= 14655,
        ;
        assert(n * n >= 0) by (nonlinear_arith);
    }
    let start: i64 = 10 * (n * n);
    let end: i64 = 10 * (level * level);
    proof {
        assert(end - start == 10 * (2 * n + 1)) by (nonlinear_arith)
            requires
                end == 10 * ((n + 1) * (n + 1)),
                start == 10 * (n * n),
        ;
        assert(start == 10 * n * n) by (nonlinear_arith)
            requires
                start == 10 * (n * n),
        ;
        assert(end == 10 * level * level) by (nonlinear_arith)
            requires
                end == 10 * (level * level),
        ;
        assert(10 * 14654 * 14654 < 2147483647);
        assert(end <= 10 * 14655 * 14655);
    }
    let current: i64 = karma - start;
    let target: i64 = end - start;
    let percent: i64 = (200 * current + target) / (2 * target);
    proof {
        assert(0 <= current < target);
        assert((200 * current + target) / (2 * target) <= 100) by (nonlinear_arith)
            requires
                0 <= current < target,
        ;
        assert((200 * current + target) / (2 * target) >= 0) by (nonlinear_arith)
            requires
                0 <= current,
                0 < target,
        ;
    }
    LevelProgressDto {
        level: level as i32,
        title: String::from_str(level_title(level as i32)),
        progress_percent: percent as i32,
        karma_in_level: current as i32,
        karma_for_next: target as i32,
    }
}

/// The badge group a badge's lowercase name puts it in.
pub open spec fn spec_badge_category(lower: Seq<char>) -> Seq<char> {
    if spec_contains(lower, "sadakat"@) || spec_contains(lower, "level"@) || spec_contains(lower, "seviye"@) {
        "sadakat"@
    } else if spec_contains(lower, "sosyal"@) || spec_contains(lower, "yorum"@) || spec_contains(lower, "beğeni"@) {
        "sosyal"@
    } else if spec_contains(lower, "denetim"@) || spec_contains(lower, "rapor"@) || spec_contains(lower, "şikayet"@) {
        "denetim"@
    } else if spec_contains(lower, "veri"@) || spec_contains(lower, "ekleme"@) || spec_contains(lower, "yemekhane"@) {
        "veri"@
    } else {
        "sadakat"@
    }
}

/// The icon a badge's lowercase name gives it.
pub open spec fn spec_badge_icon(lower: Seq<char>) -> Seq<char> {
    if spec_contains(lower, "sadakat"@) || spec_contains(lower, "seviye"@) {
        "heart"@
    } else if spec_contains(lower, "sosyal"@) || spec_contains(lower, "yorum"@) {
        "messageSquare"@
    } else if spec_contains(lower, "denetim"@) || spec_contains(lower, "rapor"@) {
        "shield"@
    } else if spec_contains(lower, "veri"@) || spec_contains(lower, "ekleme"@) {
        "database"@
    } else {
        "starFilled"@
    }
}

/// The group and icon of a badge, by keywords of its lowercase name.
pub fn badge_style(name: &str) -> (r: (&'static str, &'static str))
    ensures
        r.0@ == spec_badge_category(spec_to_lowercase(name@)),
        r.1@ == spec_badge_icon(spec_to_lowercase(name@)),
{
    let lower = to_lowercase(name);
    let l = char_vec(lower.as_str());
    let s = l.as_slice();
    let category = if contains_str(s, "sadakat") || contains_str(s, "level") || contains_str(s, "seviye") {
        "sadakat"
    } else if contains_str(s, "sosyal") || contains_str(s, "yorum") || contains_str(s, "beğeni") {
        "sosyal"
    } else if contains_str(s, "denetim") || contains_str(s, "rapor") || contains_str(s, "şikayet") {
        "denetim"
    } else if contains_str(s, "veri") || contains_str(s, "ekleme") || contains_str(s, "yemekhane") {
        "veri"
    } else {
        "sadakat"
    };
    let icon = if contains_str(s, "sadakat") || contains_str(s, "seviye") {
        "heart"
    } else if contains_str(s, "sosyal") || contains_str(s, "yorum") {
        "messageSquare"
    } else if contains_str(s, "denetim") || contains_str(s, "rapor") {
        "shield"
    } else if contains_str(s, "veri") || contains_str(s, "ekleme") {
        "database"
    } else {
        "starFilled"
    };
    (category, icon)
}

/// A higher karma score never lowers the level.
pub proof fn lemma_level_monotone(k1: int, k2: int, l1: int, l2: int)
    requires
        k1 <= k2,
        is_level_of(k1, l1),
        is_level_of(k2, l2),
    ensures
        l1 <= l2,
{
    if l1 > l2 {
        let a = if k1 < 0 { 0 } else { k1 };
        let b = if k2 < 0 { 0 } else { k2 };
        assert(10 * l2 * l2 <= 10 * (l1 - 1) * (l1 - 1)) by (nonlinear_arith)
            requires
                l1 - 1 >= l2,
                l2 >= 1,
        ;
    }
}

/// A badge of the catalogue.
pub struct BadgeRecord {
    pub id: i32,
    pub name: String,
    pub icon_url: Option<String>,
    pub description: Option<String>,
}

/// A badge a user earned, with when it was awarded (as the stored time writes it).
pub struct EarnedBadge {
    pub badge_id: i32,
    pub awarded_at: Option<String>,
}

/// A badge as a profile shows it.
pub struct UserBadgeDto {
    pub name: String,
    pub icon: Option<String>,
    pub icon_url: Option<String>,
    pub description: Option<String>,
    pub category: String,
    pub awarded_at: Option<String>,
    pub unlocked: bool,
    pub karma_reward: i32,
    pub count: i32,
    pub is_repeatable: bool,
}

/// The first earned badge of the catalogue badge `id`, if the user has one.
pub open spec fn first_earned(earned: Seq<EarnedBadge>, id: i32) -> Option<EarnedBadge>
    decreases earned.len(),
{
    if earned.len() == 0 {
        None
    } else if earned[0].badge_id == id {
        Some(earned[0])
    } else {
        first_earned(earned.drop_first(), id)
    }
}

/// How a catalogue badge is shown to a user who earned `earned`: unlocked exactly when
/// one of them is this badge (the first such gives the award time), grouped and drawn by
/// its name, worth 10 karma, not repeatable.
pub open spec fn badge_shown(b: BadgeRecord, earned: Seq<EarnedBadge>, d: UserBadgeDto) -> bool {
    let e = first_earned(earned, b.id);
    &&& d.name@ == b.name@
    &&& opt_string_view(&d.icon) == Some(spec_badge_icon(spec_to_lowercase(b.name@)))
    &&& opt_string_view(&d.icon_url) == opt_string_view(&b.icon_url)
    &&& opt_string_view(&d.description) == opt_string_view(&b.description)
    &&& d.category@ == spec_badge_category(spec_to_lowercase(b.name@))
    &&& d.unlocked == e is Some
    &&& opt_string_view(&d.awarded_at) == (match e {
        Some(x) => opt_string_view(&x.awarded_at),
        None => None,
    })
    &&& d.karma_reward == 10
    &&& d.count == (if e is Some { 1i32 } else { 0i32 })
    &&& !d.is_repeatable
}

/// How many of the first `n` shown badges are unlocked.
pub open spec fn unlocked_count(ds: Seq<UserBadgeDto>, n: int) -> int
    decreases n,
{
    if n <= 0 {
        0
    } else {
        unlocked_count(ds, n - 1) + if ds[n - 1].unlocked { 1int } else { 0int }
    }
}

fn find_earned(earned: &Vec<EarnedBadge>, id: i32) -> (r: Option<Option<String>>)
    ensures
        match r {
            Some(a) => first_earned(earned@, id) matches Some(x) && opt_string_view(&a) == opt_string_view(&x.awarded_at),
            None => first_earned(earned@, id) is None,
        },
{
    let mut i: usize = 0;
    assert(earned@.skip(0) =~= earned@);
    while i < earned.len()
        invariant
            i <= earned@.len(),
            first_earned(earned@, id) == first_earned(earned@.skip(i as int), id),
        decreases earned@.len() - i,
    {
        assert(earned@.skip(i as int)[0] == earned@[i as int]);
        if earned[i].badge_id == id {
            return Some(earned[i].awarded_at.clone());
        }
        assert(earned@.skip(i as int).drop_first() =~= earned@.skip(i + 1));
        i = i + 1;
    }
    None
}

/// The badges of a profile: every badge of the catalogue in its order, shown as
/// `badge_shown` says, and how many of them the user unlocked.
pub fn profile_badges(catalogue: Vec<BadgeRecord>, earned: &Vec<EarnedBadge>) -> (r: (Vec<UserBadgeDto>, i32))
    requires
        catalogue@.len() <= i32::MAX,
    ensures
        r.0@.len() == catalogue@.len(),
        forall|i: int| 0 <= i < catalogue@.len() ==> badge_shown(catalogue@[i], earned@, #[trigger] r.0@[i]),
        r.1 == unlocked_count(r.0@, r.0@.len() as int),
{
    let mut out: Vec<UserBadgeDto> = Vec::new();
    let mut count: i32 = 0;
    let mut i: usize = 0;
    while i < catalogue.len()
        invariant
            i <= catalogue@.len() <= i32::MAX,
            out@.len() == i,
            forall|j: int| 0 <= j < i ==> badge_shown(catalogue@[j], earned@, #[trigger] out@[j]),
            count == unlocked_count(out@, i as int),
            0 <= count <= i,
        decreases catalogue@.len() - i,
    {
        let b = &catalogue[i];
        let (category, icon) = badge_style(b.name.as_str());
        let found = find_earned(earned, b.id);
        let unlocked = found.is_some();
        let awarded_at = match found {
            Some(a) => a,
            None => None,
        };
        let d = UserBadgeDto {
            name: b.name.clone(),
            icon: Some(String::from_str(icon)),
            icon_url: b.icon_url.clone(),
            description: b.description.clone(),
            category: String::from_str(category),
            awarded_at,
            unlocked,
            karma_reward: 10,
            count: if unlocked { 1 } else { 0 },
            is_repeatable: false,
        };
        let ghost before = out@;
        out.push(d);
        proof {
            assert forall|j: int| 0 <= j < i + 1 implies badge_shown(catalogue@[j], earned@, #[trigger] out@[j]) by {
                if j < i {
                    assert(out@[j] == before[j]);
                }
            }
            assert forall|j: int| 0 <= j < i implies #[trigger] out@[j] == before[j] by {}
            lemma_unlocked_prefix(before, out@, i as int);
        }
        if unlocked {
            count = count + 1;
        }
        i = i + 1;
    }
    (out, count)
}

proof fn lemma_unlocked_prefix(a: Seq<UserBadgeDto>, b: Seq<UserBadgeDto>, n: int)
    requires
        0 <= n <= a.len(),
        n <= b.len(),
        forall|j: int| 0 <= j < n ==> #[trigger] b[j] == a[j],
    ensures
        unlocked_count(a, n) == unlocked_count(b, n),
    decreases n,
{
    if n > 0 {
        lemma_unlocked_prefix(a, b, n - 1);
    }
}

/// The account a profile is shown for.
pub struct ProfileAccount {
    pub id: u128,
    pub username: String,
    pub role: crate::dto::user::UserRole,
    pub karma_score: i32,
    pub is_verified: bool,
    pub email: String,
    pub created_at: Option<String>,
    pub avatar_url: Option<String>,
    pub bio: Option<String>,
    pub default_city_slug: Option<String>,
    pub google_id: Option<String>,
    pub opt_out_statistics: bool,
}

/// A user's profile. The role, the e-mail address, the Google id and whether the user
/// is an administrator are shown only on the user's own profile.
pub struct UserProfileDto {
    pub id: u128,
    pub username: String,
    pub role: Option<crate::dto::user::UserRole>,
    pub karma_score: i32,
    pub is_verified: bool,
    pub email: Option<String>,
    pub joined_at: String,
    pub created_at: String,
    pub avatar_url: Option<String>,
    pub bio: Option<String>,
    pub default_city_slug: Option<String>,
    pub level: i32,
    pub level_progress: LevelProgressDto,
    pub google_id: Option<String>,
    pub is_admin: Option<bool>,
    pub badge_count: i32,
    pub total_badges: i32,
    pub badges: Vec<UserBadgeDto>,
    pub opt_out_statistics: bool,
}

/// Builds a profile: the account's public fields, its private ones (role, e-mail,
/// Google id, administrator flag) only when `include_private` (the user's own profile),
/// the level from the karma, the badges from the catalogue and the earned ones. The
/// join time is the account's creation time, or `now` when it has none.
pub fn user_profile(
    account: ProfileAccount,
    include_private: bool,
    catalogue: Vec<BadgeRecord>,
    earned: &Vec<EarnedBadge>,
    now: String,
) -> (r: UserProfileDto)
    requires
        account.karma_score <= MAX_LEVEL_KARMA,
        catalogue@.len() <= i32::MAX,
    ensures
        r.id == account.id,
        r.username@ == account.username@,
        r.karma_score == account.karma_score,
        r.is_verified == account.is_verified,
        r.role == (if include_private { Some(account.role) } else { None }),
        opt_string_view(&r.email) == (if include_private { Some(account.email@) } else { None }),
        opt_string_view(&r.google_id) == (if include_private { opt_string_view(&account.google_id) } else { None }),
        r.is_admin == (if include_private { Some(account.role == crate::dto::user::UserRole::Admin) } else { None }),
        r.joined_at@ == (match account.created_at {
            Some(t) => t@,
            None => now@,
        }),
        r.created_at@ == r.joined_at@,
        opt_string_view(&r.avatar_url) == opt_string_view(&account.avatar_url),
        opt_string_view(&r.bio) == opt_string_view(&account.bio),
        opt_string_view(&r.default_city_slug) == opt_string_view(&account.default_city_slug),
        r.opt_out_statistics == account.opt_out_statistics,
        is_level_of(account.karma_score as int, r.level as int),
        r.level_progress.level == r.level,
        r.level_progress.title@ == spec_level_title(r.level as int),
        r.level_progress.karma_in_level == (if account.karma_score < 0 { 0 } else { account.karma_score as int })
            - 10 * (r.level - 1) * (r.level - 1),
        r.level_progress.karma_for_next == 10 * r.level * r.level - 10 * (r.level - 1) * (r.level - 1),
        r.level_progress.progress_percent == rounded_percent(
            r.level_progress.karma_in_level as int,
            r.level_progress.karma_for_next as int,
        ),
        r.total_badges == catalogue@.len(),
        r.badges@.len() == catalogue@.len(),
        forall|i: int| 0 <= i < catalogue@.len() ==> badge_shown(catalogue@[i], earned@, #[trigger] r.badges@[i]),
        r.badge_count == unlocked_count(r.badges@, r.badges@.len() as int),
{
    let total = catalogue.len() as i32;
    let (badges, badge_count) = profile_badges(catalogue, earned);
    let progress = level_progress(account.karma_score);
    let is_admin = match account.role {
        crate::dto::user::UserRole::Admin => true,
        _ => false,
    };
    let joined = match &account.created_at {
        Some(t) => t.clone(),
        None => now,
    };
    UserProfileDto {
        id: account.id,
        username: account.username,
        role: if include_private { Some(account.role) } else { None },
        karma_score: account.karma_score,
        is_verified: account.is_verified,
        email: if include_private { Some(account.email) } else { None },
        joined_at: joined.clone(),
        created_at: joined,
        avatar_url: account.avatar_url,
        bio: account.bio,
        default_city_slug: account.default_city_slug,
        level: progress.level,
        level_progress: progress,
        google_id: if include_private { account.google_id } else { None },
        is_admin: if include_private { Some(is_admin) } else { None },
        badge_count,
        total_badges: total,
        badges,
        opt_out_statistics: account.opt_out_statistics,
    }
}

} // verus!
