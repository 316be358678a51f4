//! Character-level helpers on which the rest of the library builds.
//!
//! Text is handled as sequences of `char`: every delimiter the library looks
//! for is ASCII, so splitting on characters agrees with splitting on bytes.
use vstd::prelude::*;

verus! {

// ---------------------------------------------------------------------------
// Specifications
// ---------------------------------------------------------------------------

/// `pat` occurs in `s` starting at index `i`.
pub open spec fn occurs_at(s: Seq<char>, pat: Seq<char>, i: int) -> bool {
    0 <= i && i + pat.len() <= s.len() && s.subrange(i, i + pat.len()) == pat
}

/// `i` is the leftmost occurrence of `pat` in `s`.
pub open spec fn first_at(s: Seq<char>, pat: Seq<char>, i: int) -> bool {
    &&& occurs_at(s, pat, i)
    &&& forall|j: int| 0 <= j < i ==> !occurs_at(s, pat, j)
}

/// `i` is the rightmost occurrence of `pat` in `s`.
pub open spec fn last_at(s: Seq<char>, pat: Seq<char>, i: int) -> bool {
    &&& occurs_at(s, pat, i)
    &&& forall|j: int| i < j <= s.len() ==> !occurs_at(s, pat, j)
}

/// The leftmost occurrence of `pat` in `s`, if any.
pub open spec fn find_first(s: Seq<char>, pat: Seq<char>) -> Option<int> {
    if exists|i: int| first_at(s, pat, i) {
        Some(choose|i: int| first_at(s, pat, i))
    } else {
        None
    }
}

/// The rightmost occurrence of `pat` in `s`, if any.
pub open spec fn find_last(s: Seq<char>, pat: Seq<char>) -> Option<int> {
    if exists|i: int| last_at(s, pat, i) {
        Some(choose|i: int| last_at(s, pat, i))
    } else {
        None
    }
}

pub proof fn lemma_first_at_unique(s: Seq<char>, pat: Seq<char>, i: int)
    requires
        first_at(s, pat, i),
    ensures
        find_first(s, pat) == Some(i),
{
    let k = choose|k: int| first_at(s, pat, k);
    assert(first_at(s, pat, k));
    if k < i {
        assert(!occurs_at(s, pat, k));
    } else if i < k {
        assert(!occurs_at(s, pat, i));
    }
}

pub proof fn lemma_last_at_unique(s: Seq<char>, pat: Seq<char>, i: int)
    requires
        last_at(s, pat, i),
    ensures
        find_last(s, pat) == Some(i),
{
    let k = choose|k: int| last_at(s, pat, k);
    assert(last_at(s, pat, k));
    if k < i {
        assert(!occurs_at(s, pat, i));
    } else if i < k {
        assert(!occurs_at(s, pat, k));
    }
}

pub proof fn lemma_find_first_some(s: Seq<char>, pat: Seq<char>)
    requires
        find_first(s, pat) is Some,
    ensures
        first_at(s, pat, find_first(s, pat)->0),
{
}

/// No occurrence at all means `find_first` is `None`.
pub proof fn lemma_find_first_none(s: Seq<char>, pat: Seq<char>)
    requires
        forall|j: int| 0 <= j ==> !occurs_at(s, pat, j),
    ensures
        find_first(s, pat) is None,
{
}

/// An occurrence of `pat` means there is a first one.
pub proof fn lemma_first_exists(s: Seq<char>, pat: Seq<char>, j: int)
    requires
        occurs_at(s, pat, j),
    ensures
        find_first(s, pat) is Some,
    decreases j,
{
    if exists|k: int| 0 <= k < j && occurs_at(s, pat, k) {
        let k = choose|k: int| 0 <= k < j && occurs_at(s, pat, k);
        lemma_first_exists(s, pat, k);
    } else {
        assert(first_at(s, pat, j));
    }
}

/// `s` split around the first occurrence of `c` (`str::split_once`).
pub open spec fn split_once(s: Seq<char>, c: char) -> Option<(Seq<char>, Seq<char>)> {
    match find_first(s, seq![c]) {
        Some(i) => Some((s.take(i), s.skip(i + 1))),
        None => None,
    }
}

/// `s` with the prefix `p` removed, if `s` starts with `p`.
pub open spec fn strip_prefix(s: Seq<char>, p: Seq<char>) -> Option<Seq<char>> {
    if p.len() <= s.len() && s.take(p.len() as int) == p {
        Some(s.skip(p.len() as int))
    } else {
        None
    }
}

/// The pieces of `s` between non-overlapping leftmost occurrences of `pat`
/// (`str::split` with a string pattern).
pub open spec fn split(s: Seq<char>, pat: Seq<char>) -> Seq<Seq<char>>
    decreases s.len(),
{
    if pat.len() == 0 {
        seq![s]
    } else {
        match find_first(s, pat) {
            Some(i) => {
                proof {
                    lemma_find_first_some(s, pat);
                }
                seq![s.take(i)] + split(s.skip(i + pat.len()), pat)
            },
            None => seq![s],
        }
    }
}

/// The pieces of `s` each ending just after an occurrence of `c`; a last
/// piece without `c` is kept when nonempty (`str::split_inclusive`).
pub open spec fn split_inclusive(s: Seq<char>, c: char) -> Seq<Seq<char>>
    decreases s.len(),
{
    if s.len() == 0 {
        seq![]
    } else {
        match find_first(s, seq![c]) {
            Some(i) => {
                proof {
                    lemma_find_first_some(s, seq![c]);
                }
                seq![s.take(i + 1)] + split_inclusive(s.skip(i + 1), c)
            },
            None => seq![s],
        }
    }
}

/// A line without its terminator: a final `'\n'`, then a `'\r'` before it.
pub open spec fn line_body(piece: Seq<char>) -> Seq<char> {
    if piece.len() > 0 && piece.last() == '\n' {
        let p = piece.drop_last();
        if p.len() > 0 && p.last() == '\r' {
            p.drop_last()
        } else {
            p
        }
    } else {
        piece
    }
}

/// The lines of `s` (`str::lines`).
pub open spec fn lines(s: Seq<char>) -> Seq<Seq<char>> {
    split_inclusive(s, '\n').map_values(|piece: Seq<char>| line_body(piece))
}

/// `char::is_ascii_digit`.
pub open spec fn is_digit(c: char) -> bool {
    '0' <= c <= '9'
}

/// `char::is_ascii_alphanumeric`.
pub open spec fn is_alnum(c: char) -> bool {
    ||| '0' <= c <= '9'
    ||| 'a' <= c <= 'z'
    ||| 'A' <= c <= 'Z'
}

/// `char::is_whitespace`: the characters with the Unicode `White_Space`
/// property.
pub open spec fn is_space(c: char) -> bool {
    ||| '\t' <= c <= '\r'
    ||| c == ' '
    ||| c == '\u{85}'
    ||| c == '\u{a0}'
    ||| c == '\u{1680}'
    ||| '\u{2000}' <= c <= '\u{200a}'
    ||| c == '\u{2028}'
    ||| c == '\u{2029}'
    ||| c == '\u{202f}'
    ||| c == '\u{205f}'
    ||| c == '\u{3000}'
}

/// Trimming `s` leaves nothing: every character is whitespace.
pub open spec fn blank(s: Seq<char>) -> bool {
    forall|i: int| 0 <= i < s.len() ==> is_space(s[i])
}

/// Every character of `s` is an ASCII digit.
pub open spec fn all_digits(s: Seq<char>) -> bool {
    forall|i: int| 0 <= i < s.len() ==> is_digit(s[i])
}

/// The value of the decimal digit `c`.
pub open spec fn digit_value(c: char) -> int {
    c as int - '0' as int
}

/// The number that the decimal digits `s` spell.
pub open spec fn digits_value(s: Seq<char>) -> nat
    decreases s.len(),
{
    if s.len() == 0 {
        0
    } else {
        (digits_value(s.drop_last()) * 10 + digit_value(s.last())) as nat
    }
}

/// `str::parse::<u64>`: an optional `+`, then at least one ASCII digit, and
/// a value that fits in 64 bits.
pub open spec fn parse_u64(s: Seq<char>) -> Option<u64> {
    let d = if s.len() > 0 && s[0] == '+' { s.skip(1) } else { s };
    if d.len() > 0 && all_digits(d) && digits_value(d) <= u64::MAX {
        Some(digits_value(d) as u64)
    } else {
        None
    }
}

/// The ASCII digit for `d`, for `0 <= d < 10`.
pub open spec fn digit_char(d: int) -> char {
    (d + 48) as char
}

/// The decimal representation of `n`, without leading zeros.
pub open spec fn decimal(n: nat) -> Seq<char>
    decreases n,
{
    if n < 10 {
        seq![digit_char(n as int)]
    } else {
        decimal(n / 10).push(digit_char(n as int % 10))
    }
}

// ---------------------------------------------------------------------------
// Executable helpers
// ---------------------------------------------------------------------------

/// The characters of `s`, in order.
pub fn chars_of(s: &str) -> (out: Vec<char>)
    ensures
        out@ == s@,
{
    let mut out: Vec<char> = Vec::new();
    for c in it: s.chars()
        invariant
            out@ == it.seq().take(it.index()),
    {
        out.push(c);
    }
    out
}

/// Appends one character to a string (`String::push`).
#[verifier::external_body]
fn push_char(s: &mut String, c: char)
    ensures
        final(s)@ == old(s)@.push(c),
{
    s.push(c);
}

/// A string holding exactly the characters of `chars`.
pub fn string_from(chars: &[char]) -> (out: String)
    ensures
        out@ == chars@,
{
    let mut out = String::new();
    let mut i: usize = 0;
    while i < chars.len()
        invariant
            i <= chars.len(),
            out@ == chars@.take(i as int),
        decreases chars.len() - i,
    {
        push_char(&mut out, chars[i]);
        assert(chars@.take(i + 1) == chars@.take(i as int).push(chars@[i as int]));
        i += 1;
    }
    assert(chars@.take(chars.len() as int) == chars@);
    out
}

/// Whether `pat` occurs in `s` at index `i`.
pub fn matches_at(s: &[char], pat: &[char], i: usize) -> (r: bool)
    ensures
        r == occurs_at(s@, pat@, i as int),
{
    if i > s.len() || pat.len() > s.len() - i {
        return false;
    }
    let mut k: usize = 0;
    while k < pat.len()
        invariant
            i + pat.len() <= s.len(),
            k <= pat.len(),
            forall|m: int| 0 <= m < k ==> s@[i + m] == pat@[m],
        decreases pat.len() - k,
    {
        if s[i + k] != pat[k] {
            assert(s@.subrange(i as int, i + pat.len())[k as int] != pat@[k as int]);
            return false;
        }
        k += 1;
    }
    assert(s@.subrange(i as int, i + pat.len()) =~= pat@);
    true
}

/// The leftmost occurrence of `pat` in `s` at or after `from`.
pub fn find_from(s: &[char], pat: &[char], from: usize) -> (r: Option<usize>)
    requires
        from <= s.len(),
    ensures
        match r {
            Some(i) => from <= i && occurs_at(s@, pat@, i as int) && forall|j: int|
                from <= j < i ==> !occurs_at(s@, pat@, j),
            None => forall|j: int| from <= j ==> !occurs_at(s@, pat@, j),
        },
{
    let mut i = from;
    while i < s.len()
        invariant
            from <= i <= s.len(),
            forall|j: int| from <= j < i ==> !occurs_at(s@, pat@, j),
        decreases s.len() - i,
    {
        if matches_at(s, pat, i) {
            return Some(i);
        }
        i += 1;
    }
    if matches_at(s, pat, i) {
        return Some(i);
    }
    None
}

/// Every character of `s` other than the separator `sep` lies in one of
/// the pieces that `split` cuts `s` into.
pub proof fn lemma_split_covers(s: Seq<char>, sep: char, k: int)
    requires
        0 <= k < s.len(),
        s[k] != sep,
    ensures
        exists|i: int, j: int|
            0 <= i < split(s, seq![sep]).len() && 0 <= j < split(s, seq![sep])[i].len()
                && #[trigger] split(s, seq![sep])[i][j] == s[k],
    decreases s.len(),
{
    let pat = seq![sep];
    let parts = split(s, pat);
    match find_first(s, pat) {
        Some(i) => {
            lemma_find_first_some(s, pat);
            let head = s.take(i);
            let tail = s.skip(i + 1);
            assert(parts == seq![head] + split(tail, pat));
            if k < i {
                assert(parts[0][k] == s[k]);
            } else if k == i {
                assert(s.subrange(i, i + 1)[0] == s[k]);
            } else {
                assert(tail[k - i - 1] == s[k]);
                lemma_split_covers(tail, sep, k - i - 1);
                let (a, b) = choose|a: int, b: int|
                    0 <= a < split(tail, pat).len() && 0 <= b < split(tail, pat)[a].len()
                        && #[trigger] split(tail, pat)[a][b] == tail[k - i - 1];
                assert(parts[a + 1] == split(tail, pat)[a]);
                assert(parts[a + 1][b] == s[k]);
            }
        },
        None => {
            assert(parts == seq![s]);
            assert(parts[0][k] == s[k]);
        },
    }
}

/// Splitting at a character: a text without it is one piece, and a text
/// whose first occurrence follows `head` is `head` and the pieces of the
/// rest.
pub proof fn lemma_split_char(head: Seq<char>, rest: Seq<char>, c: char)
    requires
        forall|i: int| 0 <= i < head.len() ==> head[i] != c,
    ensures
        split(head, seq![c]) == seq![head],
        split(head + seq![c] + rest, seq![c]) == seq![head] + split(rest, seq![c]),
{
    let pat = seq![c];
    let s = head + pat + rest;
    let n = head.len() as int;
    assert forall|j: int| 0 <= j implies !occurs_at(head, pat, j) by {
        if occurs_at(head, pat, j) {
            assert(head.subrange(j, j + 1)[0] == head[j]);
        }
    }
    lemma_find_first_none(head, pat);
    assert(s.subrange(n, n + 1) =~= pat);
    assert forall|j: int| 0 <= j < n implies !occurs_at(s, pat, j) by {
        if occurs_at(s, pat, j) {
            assert(s.subrange(j, j + 1)[0] == s[j]);
        }
    }
    lemma_first_at_unique(s, pat, n);
    assert(s.take(n) =~= head);
    assert(s.skip(n + 1) =~= rest);
}

/// Relates an occurrence search on a suffix to the whole sequence.
pub proof fn lemma_occurs_skip(s: Seq<char>, pat: Seq<char>, from: int, j: int)
    requires
        0 <= from <= s.len(),
        0 <= j,
    ensures
        occurs_at(s.skip(from), pat, j) == occurs_at(s, pat, from + j),
{
    if occurs_at(s, pat, from + j) {
        assert(s.skip(from).subrange(j, j + pat.len()) =~= s.subrange(from + j, from + j + pat.len()));
    }
    if occurs_at(s.skip(from), pat, j) {
        assert(s.skip(from).subrange(j, j + pat.len()) =~= s.subrange(from + j, from + j + pat.len()));
    }
}

/// The leftmost occurrence of `pat` in `s@.skip(from)`, as an index into `s`.
pub fn find_first_from(s: &[char], pat: &[char], from: usize) -> (r: Option<usize>)
    requires
        from <= s.len(),
    ensures
        match find_first(s@.skip(from as int), pat@) {
            Some(i) => r == Some((from + i) as usize),
            None => r is None,
        },
{
    let r = find_from(s, pat, from);
    let ghost t = s@.skip(from as int);
    match r {
        Some(i) => {
            proof {
                lemma_occurs_skip(s@, pat@, from as int, i - from);
                assert forall|j: int| 0 <= j < i - from implies !occurs_at(t, pat@, j) by {
                    lemma_occurs_skip(s@, pat@, from as int, j);
                }
                lemma_first_at_unique(t, pat@, i - from);
            }
        },
        None => {
            proof {
                assert forall|j: int| 0 <= j implies !occurs_at(t, pat@, j) by {
                    lemma_occurs_skip(s@, pat@, from as int, j);
                }
            }
        },
    }
    r
}


/// The character sequences held by a vector of character vectors.
pub open spec fn views(v: Seq<Vec<char>>) -> Seq<Seq<char>> {
    v.map_values(|x: Vec<char>| x@)
}

/// The characters of `s` from index `a` up to `b`.
pub fn copy_range(s: &[char], a: usize, b: usize) -> (out: Vec<char>)
    requires
        a <= b <= s.len(),
    ensures
        out@ == s@.subrange(a as int, b as int),
{
    let mut out: Vec<char> = Vec::new();
    let mut i = a;
    while i < b
        invariant
            a <= i <= b <= s.len(),
            out@ == s@.subrange(a as int, i as int),
        decreases b - i,
    {
        out.push(s[i]);
        assert(s@.subrange(a as int, i + 1) == s@.subrange(a as int, i as int).push(s@[i as int]));
        i += 1;
    }
    out
}

/// `str::split` with a string pattern.
pub fn split_chars(s: &[char], pat: &[char]) -> (out: Vec<Vec<char>>)
    ensures
        views(out@) == split(s@, pat@),
{
    let mut out: Vec<Vec<char>> = Vec::new();
    if pat.len() == 0 {
        out.push(copy_range(s, 0, s.len()));
        assert(s@.subrange(0, s@.len() as int) == s@);
        assert(views(out@) =~= seq![s@]);
        return out;
    }
    let mut start: usize = 0;
    assert(s@.skip(0) == s@);
    loop
        invariant
            pat.len() > 0,
            start <= s.len(),
            views(out@) + split(s@.skip(start as int), pat@) == split(s@, pat@),
        decreases s.len() - start,
    {
        let ghost t = s@.skip(start as int);
        let ghost before = views(out@);
        match find_first_from(s, pat, start) {
            Some(i) => {
                proof {
                    lemma_find_first_some(t, pat@);
                    assert(t.take(i - start) =~= s@.subrange(start as int, i as int));
                    assert(t.skip(i - start + pat.len()) =~= s@.skip(i + pat.len()));
                }
                let piece = copy_range(s, start, i);
                out.push(piece);
                proof {
                    assert(views(out@) =~= before.push(piece@));
                    assert(before + split(t, pat@) =~= views(out@) + split(s@.skip(i + pat.len()), pat@));
                }
                start = i + pat.len();
            },
            None => {
                let piece = copy_range(s, start, s.len());
                out.push(piece);
                proof {
                    assert(piece@ =~= t);
                    assert(views(out@) =~= before.push(piece@));
                    assert(before + split(t, pat@) =~= views(out@));
                }
                return out;
            },
        }
    }
}

/// `str::split_inclusive` with a character pattern.
pub fn split_inclusive_chars(s: &[char], c: char) -> (out: Vec<Vec<char>>)
    ensures
        views(out@) == split_inclusive(s@, c),
{
    let mut out: Vec<Vec<char>> = Vec::new();
    let pat = [c];
    assert(pat@ =~= seq![c]);
    let mut start: usize = 0;
    assert(s@.skip(0) == s@);
    loop
        invariant
            pat@ == seq![c],
            start <= s.len(),
            views(out@) + split_inclusive(s@.skip(start as int), c) == split_inclusive(s@, c),
        decreases s.len() - start,
    {
        let ghost t = s@.skip(start as int);
        let ghost before = views(out@);
        if start == s.len() {
            assert(t.len() == 0);
            assert(views(out@) + split_inclusive(t, c) =~= views(out@));
            return out;
        }
        match find_first_from(s, pat.as_slice(), start) {
            Some(i) => {
                proof {
                    lemma_find_first_some(t, pat@);
                    assert(t.take(i - start + 1) =~= s@.subrange(start as int, i + 1));
                    assert(t.skip(i - start + 1) =~= s@.skip(i + 1));
                }
                let piece = copy_range(s, start, i + 1);
                out.push(piece);
                proof {
                    assert(views(out@) =~= before.push(piece@));
                    assert(before + split_inclusive(t, c) =~= views(out@) + split_inclusive(s@.skip(i + 1), c));
                }
                start = i + 1;
            },
            None => {
                let piece = copy_range(s, start, s.len());
                out.push(piece);
                proof {
                    assert(piece@ =~= t);
                    assert(views(out@) =~= before.push(piece@));
                    assert(before + split_inclusive(t, c) =~= views(out@));
                }
                return out;
            },
        }
    }
}


/// Whether two character sequences are equal.
pub fn chars_eq(a: &[char], b: &[char]) -> (r: bool)
    ensures
        r == (a@ == b@),
{
    if a.len() != b.len() {
        return false;
    }
    let mut i: usize = 0;
    while i < a.len()
        invariant
            a.len() == b.len(),
            i <= a.len(),
            forall|k: int| 0 <= k < i ==> a@[k] == b@[k],
        decreases a.len() - i,
    {
        if a[i] != b[i] {
            return false;
        }
        i += 1;
    }
    assert(a@ =~= b@);
    true
}

/// `s` without the prefix `p`, if `s` starts with it.
pub fn strip_prefix_chars(s: &[char], p: &[char]) -> (r: Option<Vec<char>>)
    ensures
        match strip_prefix(s@, p@) {
            Some(rest) => r is Some && r->0@ == rest,
            None => r is None,
        },
{
    if p.len() > s.len() {
        return None;
    }
    if matches_at(s, p, 0) {
        assert(s@.subrange(0, p@.len() as int) =~= s@.take(p@.len() as int));
        Some(copy_range(s, p.len(), s.len()))
    } else {
        assert(s@.subrange(0, p@.len() as int) =~= s@.take(p@.len() as int));
        None
    }
}

/// `char::is_whitespace`.
pub fn is_space_char(c: char) -> (r: bool)
    ensures
        r == is_space(c),
{
    ('\t' <= c && c <= '\r') || c == ' ' || c == '\u{85}' || c == '\u{a0}' || c == '\u{1680}'
        || ('\u{2000}' <= c && c <= '\u{200a}') || c == '\u{2028}' || c == '\u{2029}'
        || c == '\u{202f}' || c == '\u{205f}' || c == '\u{3000}'
}

/// Whether `s` is empty once trimmed.
pub fn is_blank(s: &[char]) -> (r: bool)
    ensures
        r == blank(s@),
{
    let mut i: usize = 0;
    while i < s.len()
        invariant
            i <= s.len(),
            forall|k: int| 0 <= k < i ==> is_space(s@[k]),
        decreases s.len() - i,
    {
        if !is_space_char(s[i]) {
            return false;
        }
        i += 1;
    }
    true
}

/// The value of a nonempty run of digits never falls below that of its
/// prefixes.
pub proof fn lemma_digits_value_prefix(s: Seq<char>, k: int)
    requires
        0 <= k <= s.len(),
        all_digits(s),
    ensures
        digits_value(s.take(k)) <= digits_value(s),
    decreases s.len() - k,
{
    if k < s.len() {
        lemma_digits_value_prefix(s, k + 1);
        let p = s.take(k + 1);
        assert(p.drop_last() =~= s.take(k));
        assert(is_digit(s[k]));
    } else {
        assert(s.take(k) =~= s);
    }
}

/// The decimal representation of a number is made of digits and spells
/// the number.
pub proof fn lemma_decimal_digits(n: nat)
    ensures
        decimal(n).len() > 0,
        all_digits(decimal(n)),
        digits_value(decimal(n)) == n,
    decreases n,
{
    let c = digit_char(n as int % 10);
    assert(c as int == n as int % 10 + 48);
    if n < 10 {
        assert(decimal(n).drop_last() =~= Seq::<char>::empty());
        assert(decimal(n).last() == c);
        assert(digits_value(decimal(n)) == digits_value(Seq::<char>::empty()) * 10 + digit_value(c));
    } else {
        vstd::arithmetic::div_mod::lemma_fundamental_div_mod(n as int, 10);
        assert(decimal(n).last() == c);
        lemma_decimal_digits(n / 10);
        let d = decimal(n);
        assert(d.drop_last() =~= decimal(n / 10));
        assert forall|i: int| 0 <= i < d.len() implies is_digit(d[i]) by {
            if i < d.len() - 1 {
                assert(d[i] == decimal(n / 10)[i]);
            }
        }
    }
}

/// A number written in decimal reads back as itself.
pub proof fn decimal_reads_back(n: u64)
    ensures
        parse_u64(decimal(n as nat)) == Some(n),
{
    lemma_decimal_digits(n as nat);
    assert(is_digit(decimal(n as nat)[0]));
}

/// `str::parse::<u64>`.
pub fn parse_u64_chars(s: &[char]) -> (r: Option<u64>)
    ensures
        r == parse_u64(s@),
{
    let start: usize = if s.len() > 0 && s[0] == '+' { 1 } else { 0 };
    let ghost d = if s@.len() > 0 && s@[0] == '+' { s@.skip(1) } else { s@ };
    assert(d =~= s@.skip(start as int));
    assert(parse_u64(s@) == (if d.len() > 0 && all_digits(d) && digits_value(d) <= u64::MAX {
        Some(digits_value(d) as u64)
    } else {
        None::<u64>
    }));
    if start == s.len() {
        return None;
    }
    let mut acc: u64 = 0;
    let mut i = start;
    while i < s.len()
        invariant
            start <= i <= s.len(),
            d == s@.skip(start as int),
            parse_u64(s@) == (if d.len() > 0 && all_digits(d) && digits_value(d) <= u64::MAX {
                Some(digits_value(d) as u64)
            } else {
                None::<u64>
            }),
            acc as nat == digits_value(d.take(i - start)),
            all_digits(d.take(i - start)),
        decreases s.len() - i,
    {
        let c = s[i];
        let ghost p = d.take(i - start + 1);
        assert(p.drop_last() =~= d.take(i - start));
        if !('0' <= c && c <= '9') {
            assert(!is_digit(d[i - start]));
            assert(!all_digits(d));
            assert(parse_u64(s@) is None);
            return None;
        }
        let v = (c as u32 - '0' as u32) as u64;
        assert(all_digits(p));
        if acc > (u64::MAX - v) / 10 {
            proof {
                assert(digits_value(p) == acc * 10 + v);
                assert(digits_value(p) > u64::MAX) by (nonlinear_arith)
                    requires
                        acc > (u64::MAX - v) / 10,
                        digits_value(p) == acc * 10 + v,
                        v <= 9,
                ;
                if all_digits(d) {
                    lemma_digits_value_prefix(d, i - start + 1);
                    assert(digits_value(d) > u64::MAX);
                }
                assert(parse_u64(s@) is None);
            }
            return None;
        }
        assert(acc * 10 + v <= u64::MAX) by (nonlinear_arith)
            requires
                acc <= (u64::MAX - v) / 10,
                v <= 9,
        ;
        acc = acc * 10 + v;
        i += 1;
    }
    assert(d.take(i - start) =~= d);
    Some(acc)
}

/// Appends the decimal representation of `n` to `out`.
pub fn push_decimal(out: &mut Vec<char>, n: u64)
    ensures
        final(out)@ == old(out)@ + decimal(n as nat),
    decreases n,
{
    if n >= 10 {
        push_decimal(out, n / 10);
    }
    let d = (n % 10) as u8;
    out.push((d + 48u8) as char);
    proof {
        if n >= 10 {
            assert(old(out)@ + decimal(n as nat) =~= old(out)@ + decimal((n / 10) as nat) + seq![digit_char((n % 10) as int)]);
        } else {
            assert(old(out)@ + decimal(n as nat) =~= old(out)@.push(digit_char(n as int)));
        }
    }
}


/// A line without its terminator.
pub fn line_body_chars(piece: &[char]) -> (out: Vec<char>)
    ensures
        out@ == line_body(piece@),
{
    let n = piece.len();
    if n > 0 && piece[n - 1] == '\n' {
        if n > 1 && piece[n - 2] == '\r' {
            copy_range(piece, 0, n - 2)
        } else {
            copy_range(piece, 0, n - 1)
        }
    } else {
        copy_range(piece, 0, n)
    }
}

/// `str::lines`.
pub fn lines_chars(s: &[char]) -> (out: Vec<Vec<char>>)
    ensures
        views(out@) == lines(s@),
{
    let pieces = split_inclusive_chars(s, '\n');
    let ghost ps = split_inclusive(s@, '\n');
    let mut out: Vec<Vec<char>> = Vec::new();
    let mut i: usize = 0;
    while i < pieces.len()
        invariant
            views(pieces@) == ps,
            i <= pieces.len(),
            views(out@) == ps.take(i as int).map_values(|p: Seq<char>| line_body(p)),
        decreases pieces.len() - i,
    {
        let line = line_body_chars(pieces[i].as_slice());
        assert(ps[i as int] == pieces@[i as int]@);
        let ghost before = views(out@);
        out.push(line);
        assert(views(out@) =~= before.push(line_body(ps[i as int])));
        assert(ps.take(i + 1).map_values(|p: Seq<char>| line_body(p)) =~= ps.take(i as int).map_values(|p: Seq<char>| line_body(p)).push(line_body(ps[i as int])));
        i += 1;
    }
    assert(ps.take(i as int) =~= ps);
    out
}


/// Appends the characters of `s` to `out`.
pub fn push_str(out: &mut Vec<char>, s: &str)
    ensures
        final(out)@ == old(out)@ + s@,
{
    let ghost start = out@;
    for c in it: s.chars()
        invariant
            out@ == start + it.seq().take(it.index()),
    {
        out.push(c);
    }
    assert(out@ =~= start + s@);
}

/// Appends `s` to `out`.
pub fn push_chars(out: &mut Vec<char>, s: &[char])
    ensures
        final(out)@ == old(out)@ + s@,
{
    let ghost start = out@;
    let mut i: usize = 0;
    while i < s.len()
        invariant
            i <= s.len(),
            out@ == start + s@.take(i as int),
        decreases s.len() - i,
    {
        out.push(s[i]);
        assert(s@.take(i + 1) =~= s@.take(i as int).push(s@[i as int]));
        i += 1;
    }
    assert(s@.take(i as int) =~= s@);
}

/// `s` split around the first `c`.
pub fn split_once_chars(s: &[char], c: char) -> (r: Option<(Vec<char>, Vec<char>)>)
    ensures
        match split_once(s@, c) {
            Some((a, b)) => r matches Some((x, y)) && x@ == a && y@ == b,
            None => r is None,
        },
{
    let pat = [c];
    assert(pat@ =~= seq![c]);
    assert(s@.skip(0) =~= s@);
    match find_first_from(s, pat.as_slice(), 0) {
        Some(i) => {
            proof {
                lemma_find_first_some(s@, pat@);
            }
            Some((copy_range(s, 0, i), copy_range(s, i + 1, s.len())))
        },
        None => None,
    }
}

} // verus!
