//! Package versions: parsing release numbers, ordering them, and reading the
//! installed version out of Debian and Arch package databases.
use vstd::prelude::*;
use crate::text::{self, chars_eq, chars_of, copy_range, find_first_from, parse_u64_chars, split_chars, strip_prefix_chars};

verus! {

/// The Elsewhere release this build installs when no local package
/// directory overrides it.
pub const ELSEWHERE_VERSION: &'static str = "0.5.1";

// ---------------------------------------------------------------------------
// Release numbers
// ---------------------------------------------------------------------------

/// `s` split around the last occurrence of `c` (`str::rsplit_once`).
pub open spec fn rsplit_once(s: Seq<char>, c: char) -> Option<(Seq<char>, Seq<char>)> {
    match text::find_last(s, seq![c]) {
        Some(i) => Some((s.take(i), s.skip(i + 1))),
        None => None,
    }
}

/// The dot-separated numbers of `s`, if every part is a `u64`.
pub open spec fn numbers(s: Seq<char>) -> Option<Seq<u64>> {
    let parts = text::split(s, seq!['.']);
    if forall|i: int| 0 <= i < parts.len() ==> (#[trigger] text::parse_u64(parts[i])) is Some {
        Some(parts.map_values(|p: Seq<char>| text::parse_u64(p)->0))
    } else {
        None
    }
}

/// A release version `[epoch:][v]a.b.c[.d…][-revision]`: an optional numeric
/// epoch (0 when absent), an optional `v`, at least three dot-separated
/// numbers, and a dot-separated numeric revision after the last `-`
/// (revision 1 when there is no `-`).
#[verifier::opaque]
pub open spec fn release_version_spec(value: Seq<char>) -> Option<(u64, Seq<u64>, Seq<u64>)> {
    let (epoch, rest) = match text::split_once(value, ':') {
        Some((e, r)) => (text::parse_u64(e), r),
        None => (Some(0u64), value),
    };
    let rest = match text::strip_prefix(rest, seq!['v']) {
        Some(r) => r,
        None => rest,
    };
    let (version, revision) = match rsplit_once(rest, '-') {
        Some((a, b)) => (a, b),
        None => (rest, seq!['1']),
    };
    match (epoch, numbers(version), numbers(revision)) {
        (Some(e), Some(v), Some(r)) => if v.len() >= 3 {
            Some((e, v, r))
        } else {
            None
        },
        _ => None,
    }
}

/// Lexicographic comparison of number sequences: -1, 0 or 1, a proper
/// prefix ordering first (the order of `Vec<u64>`).
pub open spec fn seq_order(a: Seq<u64>, b: Seq<u64>) -> int
    decreases a.len(),
{
    if a.len() == 0 {
        if b.len() == 0 { 0 } else { -1 }
    } else if b.len() == 0 {
        1
    } else if a[0] < b[0] {
        -1
    } else if a[0] > b[0] {
        1
    } else {
        seq_order(a.drop_first(), b.drop_first())
    }
}

/// Comparison of parsed release versions: epoch, then numbers, then
/// revision (the order of the tuple `(u64, Vec<u64>, Vec<u64>)`).
pub open spec fn version_order(a: (u64, Seq<u64>, Seq<u64>), b: (u64, Seq<u64>, Seq<u64>)) -> int {
    if a.0 < b.0 {
        -1
    } else if a.0 > b.0 {
        1
    } else if seq_order(a.1, b.1) != 0 {
        seq_order(a.1, b.1)
    } else {
        seq_order(a.2, b.2)
    }
}

/// The order of number sequences is antisymmetric, and it calls two
/// sequences equal only when they are the same sequence.
pub proof fn seq_order_antisymmetric(a: Seq<u64>, b: Seq<u64>)
    ensures
        seq_order(a, b) == -seq_order(b, a),
        seq_order(a, b) == 0 <==> a == b,
        -1 <= seq_order(a, b) <= 1,
    decreases a.len(),
{
    if a.len() > 0 && b.len() > 0 && a[0] == b[0] {
        seq_order_antisymmetric(a.drop_first(), b.drop_first());
        if a.drop_first() == b.drop_first() {
            assert(a =~= seq![a[0]] + a.drop_first());
            assert(b =~= seq![b[0]] + b.drop_first());
        }
    }
    if a.len() == 0 && b.len() == 0 {
        assert(a =~= b);
    }
}

/// The order of number sequences is transitive.
pub proof fn seq_order_transitive(a: Seq<u64>, b: Seq<u64>, c: Seq<u64>)
    requires
        seq_order(a, b) < 0,
        seq_order(b, c) < 0,
    ensures
        seq_order(a, c) < 0,
    decreases a.len(),
{
    if a.len() > 0 && b.len() > 0 && c.len() > 0 && a[0] == b[0] && b[0] == c[0] {
        seq_order_transitive(a.drop_first(), b.drop_first(), c.drop_first());
    }
}

/// Release versions are totally ordered: the comparison is antisymmetric,
/// transitive, and calls two versions equal only when they are the same.
pub proof fn version_order_is_total(
    a: (u64, Seq<u64>, Seq<u64>),
    b: (u64, Seq<u64>, Seq<u64>),
    c: (u64, Seq<u64>, Seq<u64>),
)
    ensures
        version_order(a, b) == -version_order(b, a),
        version_order(a, b) == 0 <==> a == b,
        version_order(a, b) < 0 && version_order(b, c) < 0 ==> version_order(a, c) < 0,
{
    seq_order_antisymmetric(a.1, b.1);
    seq_order_antisymmetric(a.2, b.2);
    seq_order_antisymmetric(b.1, c.1);
    seq_order_antisymmetric(b.2, c.2);
    seq_order_antisymmetric(a.1, c.1);
    seq_order_antisymmetric(a.2, c.2);
    if version_order(a, b) < 0 && version_order(b, c) < 0 {
        if a.0 == b.0 && b.0 == c.0 {
            if seq_order(a.1, b.1) < 0 && seq_order(b.1, c.1) < 0 {
                seq_order_transitive(a.1, b.1, c.1);
            } else if seq_order(a.2, b.2) < 0 && seq_order(b.2, c.2) < 0 {
                seq_order_transitive(a.2, b.2, c.2);
            }
        }
    }
}

/// A number that parses holds no `-`.
proof fn lemma_parse_no_dash(p: Seq<char>)
    requires
        text::parse_u64(p) is Some,
    ensures
        forall|k: int| 0 <= k < p.len() ==> p[k] != '-',
{
    let d = if p.len() > 0 && p[0] == '+' { p.skip(1) } else { p };
    assert forall|k: int| 0 <= k < p.len() implies p[k] != '-' by {
        if p.len() > 0 && p[0] == '+' {
            if k > 0 {
                assert(d[k - 1] == p[k]);
                assert(text::is_digit(d[k - 1]));
            }
        } else {
            assert(text::is_digit(d[k]));
        }
    }
}

/// Dot-separated numbers that parse hold no `-`.
proof fn lemma_numbers_no_dash(s: Seq<char>)
    requires
        forall|i: int|
            0 <= i < text::split(s, seq!['.']).len() ==> (#[trigger] text::parse_u64(
                text::split(s, seq!['.'])[i],
            )) is Some,
    ensures
        forall|k: int| 0 <= k < s.len() ==> s[k] != '-',
    decreases s.len(),
{
    let dot = seq!['.'];
    let parts = text::split(s, dot);
    match text::find_first(s, dot) {
        Some(i) => {
            text::lemma_find_first_some(s, dot);
            let head = s.take(i);
            let tail = s.skip(i + 1);
            assert(parts == seq![head] + text::split(tail, dot));
            assert(text::parse_u64(parts[0]) is Some);
            lemma_parse_no_dash(head);
            assert forall|j: int| 0 <= j < text::split(tail, dot).len() implies (
            #[trigger] text::parse_u64(text::split(tail, dot)[j])) is Some by {
                assert(parts[j + 1] == text::split(tail, dot)[j]);
                assert(text::parse_u64(parts[j + 1]) is Some);
            }
            lemma_numbers_no_dash(tail);
            assert forall|k: int| 0 <= k < s.len() implies s[k] != '-' by {
                if k < i {
                    assert(head[k] == s[k]);
                } else if k == i {
                    assert(s.subrange(i, i + 1)[0] == s[k]);
                } else {
                    assert(tail[k - i - 1] == s[k]);
                }
            }
        },
        None => {
            assert(parts == seq![s]);
            assert(text::parse_u64(parts[0]) is Some);
            lemma_parse_no_dash(s);
        },
    }
}

/// `rest` followed by the package revision `-1` splits at that last `-`.
proof fn lemma_rsplit_revision(rest: Seq<char>)
    ensures
        rsplit_once(rest + seq!['-', '1'], '-') == Some((rest, seq!['1'])),
{
    let t = rest + seq!['-', '1'];
    let n = rest.len() as int;
    let pat = seq!['-'];
    assert(t.subrange(n, n + 1) =~= pat);
    assert forall|j: int| n < j <= t.len() implies !text::occurs_at(t, pat, j) by {
        if text::occurs_at(t, pat, j) {
            assert(t.subrange(j, j + 1)[0] == t[j]);
        }
    }
    text::lemma_last_at_unique(t, pat, n);
    assert(t.take(n) =~= rest);
    assert(t.skip(n + 1) =~= seq!['1']);
}

/// Where a version and the same version with the revision `-1` both parse,
/// they parse to the same release.
proof fn lemma_revision_one(y: Seq<char>)
    requires
        release_version_spec(y) is Some,
        release_version_spec(y + seq!['-', '1']) is Some,
    ensures
        release_version_spec(y + seq!['-', '1']) == release_version_spec(y),
{
    reveal(release_version_spec);
    let suffix = seq!['-', '1'];
    let t = y + suffix;
    let colon = seq![':'];
    // The epoch splits off at the same colon.
    let (ey, ry) = match text::split_once(y, ':') {
        Some((e, r)) => (text::parse_u64(e), r),
        None => (Some(0u64), y),
    };
    let (et, rt) = match text::split_once(t, ':') {
        Some((e, r)) => (text::parse_u64(e), r),
        None => (Some(0u64), t),
    };
    match text::find_first(y, colon) {
        Some(i) => {
            text::lemma_find_first_some(y, colon);
            assert(t.subrange(i, i + 1) =~= y.subrange(i, i + 1));
            assert forall|j: int| 0 <= j < i implies !text::occurs_at(t, colon, j) by {
                assert(!text::occurs_at(y, colon, j));
                assert(t.subrange(j, j + 1) =~= y.subrange(j, j + 1));
            }
            assert(text::first_at(t, colon, i));
            text::lemma_first_at_unique(t, colon, i);
            assert(t.take(i) =~= y.take(i));
            assert(t.skip(i + 1) =~= y.skip(i + 1) + suffix);
        },
        None => {
            assert forall|j: int| 0 <= j implies !text::occurs_at(t, colon, j) by {
                if text::occurs_at(t, colon, j) {
                    assert(t.subrange(j, j + 1)[0] == t[j]);
                    if j < y.len() {
                        assert(y.subrange(j, j + 1) =~= t.subrange(j, j + 1));
                        text::lemma_first_exists(y, colon, j);
                    }
                }
            }
            text::lemma_find_first_none(t, colon);
        },
    }
    assert(et == ey);
    assert(rt =~= ry + suffix);
    // The optional `v` comes off both or neither.
    let vy = match text::strip_prefix(ry, seq!['v']) {
        Some(r) => r,
        None => ry,
    };
    let vt = match text::strip_prefix(rt, seq!['v']) {
        Some(r) => r,
        None => rt,
    };
    if ry.len() > 0 {
        assert(rt.take(1) =~= ry.take(1));
        assert(rt.skip(1) =~= ry.skip(1) + suffix);
    } else {
        assert(rt.take(1) =~= seq!['-']);
        assert(seq!['-'][0] != seq!['v'][0]);
    }
    assert(vt =~= vy + suffix);
    // The revision of `t` is the `1` it ends with, and the rest is `vy`.
    lemma_rsplit_revision(vy);
    let nt = numbers(vy);
    assert(nt is Some);
    lemma_numbers_no_dash(vy);
    match rsplit_once(vy, '-') {
        Some(_) => {
            let k = text::find_last(vy, seq!['-'])->0;
            assert(text::last_at(vy, seq!['-'], k));
            assert(vy.subrange(k, k + 1)[0] == vy[k]);
            assert(false);
        },
        None => {},
    }
}

/// Comparing the other way round gives the opposite answer: where both
/// versions parse, the installed version is older than the expected one
/// exactly when the expected one, taken as installed, is newer, and the two
/// are current against each other in both directions or in neither.
pub proof fn version_status_reverses(x: Seq<char>, y: Seq<char>)
    requires
        release_version_spec(x) is Some,
        release_version_spec(y) is Some,
    ensures
        version_status_spec(Some(x), y) == VersionStatus::Older <==> version_status_spec(Some(y), x)
            == VersionStatus::Newer,
        version_status_spec(Some(x), y) == VersionStatus::Newer <==> version_status_spec(Some(y), x)
            == VersionStatus::Older,
        version_status_spec(Some(x), y) == VersionStatus::Current <==> version_status_spec(
            Some(y),
            x,
        ) == VersionStatus::Current,
{
    let px = release_version_spec(x)->0;
    let py = release_version_spec(y)->0;
    version_order_is_total(px, py, py);
    let suffix = seq!['-', '1'];
    if x == y + suffix {
        lemma_revision_one(y);
    }
    if y == x + suffix {
        lemma_revision_one(x);
    }
}

/// Number sequences are ordered by their first difference, the smaller
/// number first, and a sequence comes before its own extensions.
pub proof fn seq_order_by_first_difference(p: Seq<u64>, x: u64, y: u64, s: Seq<u64>, t: Seq<u64>)
    ensures
        x < y ==> seq_order(p + seq![x] + s, p + seq![y] + t) == -1,
        t.len() > 0 ==> seq_order(p, p + t) == -1,
    decreases p.len(),
{
    if p.len() > 0 {
        seq_order_by_first_difference(p.drop_first(), x, y, s, t);
        assert((p + seq![x] + s).drop_first() =~= p.drop_first() + seq![x] + s);
        assert((p + seq![y] + t).drop_first() =~= p.drop_first() + seq![y] + t);
        assert((p + t).drop_first() =~= p.drop_first() + t);
    } else {
        assert((p + seq![x] + s)[0] == x);
        assert((p + seq![y] + t)[0] == y);
        assert(p + t =~= t);
    }
}

/// A release with a larger epoch is newer; with the same epoch, larger
/// version numbers make it newer; with the same numbers, a larger revision.
pub proof fn later_releases_are_newer(a: (u64, Seq<u64>, Seq<u64>), b: (u64, Seq<u64>, Seq<u64>))
    ensures
        a.0 < b.0 ==> version_order(a, b) == -1,
        a.0 == b.0 && seq_order(a.1, b.1) == -1 ==> version_order(a, b) == -1,
        a.0 == b.0 && a.1 == b.1 ==> version_order(a, b) == seq_order(a.2, b.2),
{
    seq_order_antisymmetric(a.1, b.1);
}

/// An installed version that parses to an earlier release than the
/// expected one is older, to a later one newer, and to the same one
/// current.
pub proof fn installed_versions_are_ordered(x: Seq<char>, y: Seq<char>)
    requires
        release_version_spec(x) is Some,
        release_version_spec(y) is Some,
    ensures
        version_order(release_version_spec(x)->0, release_version_spec(y)->0) < 0 ==> version_status_spec(Some(x), y)
            == VersionStatus::Older,
        version_order(release_version_spec(x)->0, release_version_spec(y)->0) > 0 ==> version_status_spec(Some(x), y)
            == VersionStatus::Newer,
        version_order(release_version_spec(x)->0, release_version_spec(y)->0) == 0 ==> version_status_spec(Some(x), y)
            == VersionStatus::Current,
        version_status_spec(None, y) == VersionStatus::Unknown,
        version_status_spec(Some(y), y) == VersionStatus::Current,
{
    let px = release_version_spec(x)->0;
    let py = release_version_spec(y)->0;
    version_order_is_total(px, py, py);
    if x == y + seq!['-', '1'] {
        lemma_revision_one(y);
    }
}

/// A version written as three decimal numbers joined by dots.
pub open spec fn dotted(a: u64, b: u64, c: u64) -> Seq<char> {
    text::decimal(a as nat) + seq!['.'] + text::decimal(b as nat) + seq!['.'] + text::decimal(c as nat)
}

/// The dotted numbers read back as those numbers, and hold only digits and
/// dots.
proof fn lemma_dotted_numbers(a: u64, b: u64, c: u64)
    ensures
        numbers(dotted(a, b, c)) == Some(seq![a, b, c]),
        forall|i: int| 0 <= i < dotted(a, b, c).len() ==> text::is_digit(#[trigger] dotted(a, b, c)[i]) || dotted(
            a,
            b,
            c,
        )[i] == '.',
        text::is_digit(dotted(a, b, c)[0]),
{
    let da = text::decimal(a as nat);
    let db = text::decimal(b as nat);
    let dc = text::decimal(c as nat);
    text::lemma_decimal_digits(a as nat);
    text::lemma_decimal_digits(b as nat);
    text::lemma_decimal_digits(c as nat);
    text::decimal_reads_back(a);
    text::decimal_reads_back(b);
    text::decimal_reads_back(c);
    assert forall|i: int| 0 <= i < dc.len() implies dc[i] != '.' by {
        assert(text::is_digit(dc[i]));
    }
    assert forall|i: int| 0 <= i < db.len() implies db[i] != '.' by {
        assert(text::is_digit(db[i]));
    }
    assert forall|i: int| 0 <= i < da.len() implies da[i] != '.' by {
        assert(text::is_digit(da[i]));
    }
    text::lemma_split_char(dc, Seq::empty(), '.');
    text::lemma_split_char(db, dc, '.');
    text::lemma_split_char(da, db + seq!['.'] + dc, '.');
    let v = dotted(a, b, c);
    assert(v =~= da + seq!['.'] + (db + seq!['.'] + dc));
    let parts = text::split(v, seq!['.']);
    assert(parts =~= seq![da, db, dc]);
    assert(parts.map_values(|p: Seq<char>| text::parse_u64(p)->0) =~= seq![a, b, c]);
    assert forall|i: int| 0 <= i < v.len() implies text::is_digit(#[trigger] v[i]) || v[i] == '.' by {
        if i < da.len() {
            assert(v[i] == da[i]);
        } else if i > da.len() && i < da.len() + 1 + db.len() {
            assert(v[i] == db[i - da.len() - 1]);
        } else if i > da.len() + db.len() + 1 {
            assert(v[i] == dc[i - da.len() - db.len() - 2]);
        }
    }
    assert(v[0] == da[0]);
}

/// A text without `c` has no last occurrence of it.
proof fn lemma_no_last(s: Seq<char>, c: char)
    requires
        forall|i: int| 0 <= i < s.len() ==> s[i] != c,
    ensures
        text::find_last(s, seq![c]) is None,
{
    if exists|i: int| text::last_at(s, seq![c], i) {
        let i = choose|i: int| text::last_at(s, seq![c], i);
        assert(s.subrange(i, i + 1)[0] == s[i]);
    }
}

/// A text without `c` does not split at it.
proof fn lemma_no_first(s: Seq<char>, c: char)
    requires
        forall|i: int| 0 <= i < s.len() ==> s[i] != c,
    ensures
        text::find_first(s, seq![c]) is None,
{
    assert forall|j: int| 0 <= j implies !text::occurs_at(s, seq![c], j) by {
        if text::occurs_at(s, seq![c], j) {
            assert(s.subrange(j, j + 1)[0] == s[j]);
        }
    }
    text::lemma_find_first_none(s, seq![c]);
}

/// A release written as three numbers, with or without a leading `v`, is
/// that release at epoch 0 with the package revision 1.
pub proof fn plain_releases_parse(a: u64, b: u64, c: u64)
    ensures
        release_version_spec(dotted(a, b, c)) == Some((0u64, seq![a, b, c], seq![1u64])),
        release_version_spec(seq!['v'] + dotted(a, b, c)) == Some((0u64, seq![a, b, c], seq![1u64])),
{
    reveal(release_version_spec);
    lemma_dotted_numbers(a, b, c);
    let v = dotted(a, b, c);
    let w = seq!['v'] + v;
    assert forall|i: int| 0 <= i < v.len() implies v[i] != ':' && v[i] != '-' && v[i] != 'v' by {
        assert(text::is_digit(v[i]) || v[i] == '.');
    }
    assert forall|i: int| 0 <= i < w.len() implies w[i] != ':' && w[i] != '-' by {
        if i > 0 {
            assert(w[i] == v[i - 1]);
        }
    }
    lemma_no_first(v, ':');
    lemma_no_first(w, ':');
    lemma_no_last(v, '-');
    assert(text::strip_prefix(v, seq!['v']) is None) by {
        if v.take(1) == seq!['v'] {
            assert(v.take(1)[0] == v[0]);
        }
    }
    assert(w.take(1) =~= seq!['v']);
    assert(w.skip(1) =~= v);
    // The default revision `1`.
    let one = seq!['1'];
    lemma_no_first(one, '.');
    assert(text::split(one, seq!['.']) == seq![one]);
    assert(one.drop_last() =~= Seq::<char>::empty());
    assert(one.last() == '1');
    assert(text::digits_value(Seq::<char>::empty()) == 0);
    assert(text::digit_value('1') == 1);
    assert(text::digits_value(one) == 1);
    assert(text::parse_u64(one) == Some(1u64));
    assert(seq![one].map_values(|p: Seq<char>| text::parse_u64(p)->0) =~= seq![1u64]);
    assert(numbers(one) == Some(seq![1u64]));
}

/// A release with an epoch before a colon and a package revision after a
/// dash is read with that epoch and revision.
pub proof fn releases_with_epoch_and_revision_parse(e: u64, a: u64, b: u64, c: u64, r: u64)
    ensures
        release_version_spec(text::decimal(e as nat) + seq![':'] + dotted(a, b, c) + seq!['-'] + text::decimal(
            r as nat,
        )) == Some((e, seq![a, b, c], seq![r])),
{
    reveal(release_version_spec);
    lemma_dotted_numbers(a, b, c);
    let v = dotted(a, b, c);
    let de = text::decimal(e as nat);
    let dr = text::decimal(r as nat);
    text::lemma_decimal_digits(e as nat);
    text::lemma_decimal_digits(r as nat);
    text::decimal_reads_back(e);
    text::decimal_reads_back(r);
    let rest = v + seq!['-'] + dr;
    let s = de + seq![':'] + rest;
    assert(s =~= de + seq![':'] + v + seq!['-'] + dr);
    // The epoch is split off at the colon.
    assert forall|i: int| 0 <= i < de.len() implies de[i] != ':' by {
        assert(text::is_digit(de[i]));
    }
    let colon = seq![':'];
    let n = de.len() as int;
    assert(s.subrange(n, n + 1) =~= colon);
    assert forall|j: int| 0 <= j < n implies !text::occurs_at(s, colon, j) by {
        if text::occurs_at(s, colon, j) {
            assert(s.subrange(j, j + 1)[0] == s[j]);
        }
    }
    text::lemma_first_at_unique(s, colon, n);
    assert(s.take(n) =~= de);
    assert(s.skip(n + 1) =~= rest);
    // No `v` follows it.
    assert(rest[0] == v[0]);
    assert(text::strip_prefix(rest, seq!['v']) is None) by {
        if rest.take(1) == seq!['v'] {
            assert(rest.take(1)[0] == rest[0]);
        }
    }
    // The revision is split off at the last dash.
    let dash = seq!['-'];
    let m = v.len() as int;
    assert(rest.subrange(m, m + 1) =~= dash);
    assert forall|j: int| m < j <= rest.len() implies !text::occurs_at(rest, dash, j) by {
        if text::occurs_at(rest, dash, j) {
            assert(rest.subrange(j, j + 1)[0] == rest[j]);
            assert(rest[j] == dr[j - m - 1]);
            assert(text::is_digit(dr[j - m - 1]));
        }
    }
    text::lemma_last_at_unique(rest, dash, m);
    assert(rest.take(m) =~= v);
    assert(rest.skip(m + 1) =~= dr);
    // The revision is one number.
    assert forall|i: int| 0 <= i < dr.len() implies dr[i] != '.' by {
        assert(text::is_digit(dr[i]));
    }
    text::lemma_split_char(dr, Seq::empty(), '.');
    assert(seq![dr].map_values(|p: Seq<char>| text::parse_u64(p)->0) =~= seq![r]);
}

/// How an installed version stands against the expected one.
#[derive(PartialEq, Eq, Structural, Debug, Clone, Copy)]
pub enum VersionStatus {
    Older,
    Current,
    Newer,
    Unknown,
}

/// The text the interface shows for a status.
pub open spec fn status_text(s: VersionStatus) -> Seq<char> {
    match s {
        VersionStatus::Older => "older"@,
        VersionStatus::Current => "current"@,
        VersionStatus::Newer => "newer"@,
        VersionStatus::Unknown => "unknown"@,
    }
}

/// Different statuses have different texts.
pub proof fn status_text_injective(a: VersionStatus, b: VersionStatus)
    ensures
        status_text(a) == status_text(b) ==> a == b,
{
    reveal_strlit("older");
    reveal_strlit("current");
    reveal_strlit("newer");
    reveal_strlit("unknown");
    if status_text(a) == status_text(b) && a != b {
        assert(status_text(a).len() == status_text(b).len());
        assert(status_text(a)[0] == status_text(b)[0]);
    }
}

/// An installed version is current when it is the expected version, with or
/// without the package revision `-1`; otherwise both are parsed as release
/// versions and ordered, and the status is unknown when either does not parse.
pub open spec fn version_status_spec(installed: Option<Seq<char>>, expected: Seq<char>) -> VersionStatus {
    if installed is Some && (installed->0 == expected || installed->0 == expected + seq!['-', '1']) {
        VersionStatus::Current
    } else {
        match installed {
            None => VersionStatus::Unknown,
            Some(v) => match (release_version_spec(v), release_version_spec(expected)) {
                (Some(a), Some(b)) => {
                    let c = version_order(a, b);
                    if c < 0 {
                        VersionStatus::Older
                    } else if c == 0 {
                        VersionStatus::Current
                    } else {
                        VersionStatus::Newer
                    }
                },
                _ => VersionStatus::Unknown,
            },
        }
    }
}

/// `s` split around the last `c`.
fn rsplit_once_chars(s: &[char], c: char) -> (r: Option<(Vec<char>, Vec<char>)>)
    ensures
        match rsplit_once(s@, c) {
            Some((a, b)) => r matches Some((x, y)) && x@ == a && y@ == b,
            None => r is None,
        },
{
    let ghost pat = seq![c];
    let mut i = s.len();
    while i > 0
        invariant
            i <= s.len(),
            pat == seq![c],
            forall|j: int| i <= j <= s.len() ==> !text::occurs_at(s@, pat, j),
        decreases i,
    {
        if s[i - 1] == c {
            proof {
                assert(s@.subrange(i - 1, i as int) =~= pat);
                text::lemma_last_at_unique(s@, pat, i - 1);
            }
            return Some((copy_range(s, 0, i - 1), copy_range(s, i, s.len())));
        }
        assert(!text::occurs_at(s@, pat, i - 1)) by {
            if text::occurs_at(s@, pat, i - 1) {
                assert(s@.subrange(i - 1, i as int)[0] == s@[i - 1]);
            }
        }
        i -= 1;
    }
    assert forall|j: int| text::last_at(s@, pat, j) implies false by {
        assert(!text::occurs_at(s@, pat, j));
    }
    None
}

/// The dot-separated numbers of `s`.
fn numbers_of(s: &[char]) -> (r: Option<Vec<u64>>)
    ensures
        match numbers(s@) {
            Some(v) => r is Some && r->0@ == v,
            None => r is None,
        },
{
    let dot = ['.'];
    assert(dot@ =~= seq!['.']);
    let parts = split_chars(s, dot.as_slice());
    let ghost ps = text::split(s@, seq!['.']);
    let mut out: Vec<u64> = Vec::new();
    let mut i: usize = 0;
    while i < parts.len()
        invariant
            text::views(parts@) == ps,
            ps == text::split(s@, seq!['.']),
            i <= parts.len(),
            forall|j: int| 0 <= j < i ==> (#[trigger] text::parse_u64(ps[j])) is Some,
            out@ == ps.take(i as int).map_values(|p: Seq<char>| text::parse_u64(p)->0),
        decreases parts.len() - i,
    {
        assert(ps[i as int] == parts@[i as int]@);
        match parse_u64_chars(parts[i].as_slice()) {
            Some(n) => {
                out.push(n);
                assert(ps.take(i + 1).map_values(|p: Seq<char>| text::parse_u64(p)->0) =~= ps.take(
                    i as int,
                ).map_values(|p: Seq<char>| text::parse_u64(p)->0).push(n));
            },
            None => {
                assert(text::parse_u64(ps[i as int]) is None);
                return None;
            },
        }
        i += 1;
    }
    assert(ps.take(i as int) =~= ps);
    Some(out)
}

/// Parses a release version: `[epoch:][v]a.b.c[.d…][-revision]`.
pub fn release_version(value: &str) -> (r: Option<(u64, Vec<u64>, Vec<u64>)>)
    ensures
        match release_version_spec(value@) {
            Some((e, v, rv)) => r matches Some((x, y, z)) && x == e && y@ == v && z@ == rv,
            None => r is None,
        },
{
    reveal(release_version_spec);
    let all = chars_of(value);
    let (epoch, rest) = match text::split_once_chars(all.as_slice(), ':') {
        Some((e, r)) => (parse_u64_chars(e.as_slice()), r),
        None => (Some(0u64), all),
    };
    let epoch = match epoch {
        Some(e) => e,
        None => return None,
    };
    let v = ['v'];
    assert(v@ =~= seq!['v']);
    let rest = match strip_prefix_chars(rest.as_slice(), v.as_slice()) {
        Some(r) => r,
        None => rest,
    };
    let (version, revision) = match rsplit_once_chars(rest.as_slice(), '-') {
        Some((a, b)) => (a, b),
        None => {
            let one = vec!['1'];
            assert(one@ =~= seq!['1']);
            (rest, one)
        },
    };
    let version = match numbers_of(version.as_slice()) {
        Some(n) => n,
        None => return None,
    };
    if version.len() < 3 {
        return None;
    }
    let revision = match numbers_of(revision.as_slice()) {
        Some(n) => n,
        None => return None,
    };
    Some((epoch, version, revision))
}

/// Lexicographic comparison of number sequences.
fn compare_numbers(a: &[u64], b: &[u64]) -> (r: i8)
    ensures
        r as int == seq_order(a@, b@),
{
    let mut i: usize = 0;
    assert(a@.skip(0) =~= a@);
    assert(b@.skip(0) =~= b@);
    while i < a.len() && i < b.len()
        invariant
            i <= a.len(),
            i <= b.len(),
            a@.take(i as int) == b@.take(i as int),
            seq_order(a@, b@) == seq_order(a@.skip(i as int), b@.skip(i as int)),
        decreases a.len() - i,
    {
        let ghost sa = a@.skip(i as int);
        let ghost sb = b@.skip(i as int);
        if a[i] < b[i] {
            return -1;
        }
        if a[i] > b[i] {
            return 1;
        }
        assert(sa.drop_first() =~= a@.skip(i + 1));
        assert(sb.drop_first() =~= b@.skip(i + 1));
        assert(a@.take(i + 1) =~= a@.take(i as int).push(a@[i as int]));
        assert(b@.take(i + 1) =~= b@.take(i as int).push(b@[i as int]));
        i += 1;
    }
    if i == a.len() {
        if i == b.len() { 0 } else { -1 }
    } else {
        1
    }
}

/// Compares parsed release versions.
fn compare_release(a: &(u64, Vec<u64>, Vec<u64>), b: &(u64, Vec<u64>, Vec<u64>)) -> (r: i8)
    ensures
        r as int == version_order((a.0, a.1@, a.2@), (b.0, b.1@, b.2@)),
{
    if a.0 < b.0 {
        -1
    } else if a.0 > b.0 {
        1
    } else {
        let c = compare_numbers(a.1.as_slice(), b.1.as_slice());
        if c != 0 {
            c
        } else {
            compare_numbers(a.2.as_slice(), b.2.as_slice())
        }
    }
}

/// How the installed version stands against the expected one: `"current"`,
/// `"older"`, `"newer"` or `"unknown"`.
pub fn compare_versions(installed: Option<&str>, expected: &str) -> (r: &'static str)
    ensures
        r@ == status_text(
            version_status_spec(
                match installed {
                    Some(v) => Some(v@),
                    None => None,
                },
                expected@,
            ),
        ),
{
    let want = chars_of(expected);
    if let Some(v) = installed {
        let have = chars_of(v);
        let mut with_revision = want.clone();
        with_revision.push('-');
        with_revision.push('1');
        assert(with_revision@ =~= want@ + seq!['-', '1']);
        if chars_eq(have.as_slice(), want.as_slice()) || chars_eq(
            have.as_slice(),
            with_revision.as_slice(),
        ) {
            return "current";
        }
        match (release_version(v), release_version(expected)) {
            (Some(a), Some(b)) => {
                let c = compare_release(&a, &b);
                if c < 0 {
                    "older"
                } else if c == 0 {
                    "current"
                } else {
                    "newer"
                }
            },
            _ => "unknown",
        }
    } else {
        "unknown"
    }
}

/// How the installed version stands against the release to install: the
/// local package directory's version when one is configured, else the
/// built-in release.
pub fn version_status(installed: Option<&str>, local: Option<&str>) -> (r: &'static str)
    ensures
        r@ == status_text(
            version_status_spec(
                match installed {
                    Some(v) => Some(v@),
                    None => None,
                },
                match local {
                    Some(v) => v@,
                    None => ELSEWHERE_VERSION@,
                },
            ),
        ),
{
    compare_versions(installed, elsewhere_version(local))
}

/// The release to install: the local package directory's version when one
/// is configured, else the built-in release.
pub fn elsewhere_version<'a>(local: Option<&'a str>) -> (r: &'a str)
    ensures
        r@ == match local {
            Some(v) => v@,
            None => ELSEWHERE_VERSION@,
        },
{
    match local {
        Some(v) => v,
        None => ELSEWHERE_VERSION,
    }
}

} // verus!
