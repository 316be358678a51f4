//! Hiding access tokens in text shown to users.
use vstd::prelude::*;
use crate::text::{self, chars_of, copy_range, find_first_from, push_chars, split_inclusive_chars, string_from};

verus! {

/// The newline that ends `line`, if it ends with one.
pub open spec fn line_end(line: Seq<char>) -> Seq<char> {
    if line.len() > 0 && line.last() == '\n' {
        seq!['\n']
    } else {
        seq![]
    }
}

/// One line with everything after its first `#token=` replaced by
/// `[REDACTED]`, its line break kept.
pub open spec fn redact_line(line: Seq<char>) -> Seq<char> {
    match text::find_first(line, "#token="@) {
        Some(i) => line.take(i) + "#token=[REDACTED]"@ + line_end(line),
        None => line,
    }
}

/// The text with every line redacted.
pub open spec fn redact_spec(s: Seq<char>) -> Seq<char> {
    text::split_inclusive(s, '\n').map_values(|line: Seq<char>| redact_line(line)).flatten()
}

/// Hides the token of every `#token=` link in `text`: on each line, what
/// follows the first `#token=` becomes `[REDACTED]`.
pub fn redact(text: &str) -> (r: String)
    ensures
        r@ == redact_spec(text@),
{
    let all = chars_of(text);
    let lines = split_inclusive_chars(all.as_slice(), '\n');
    let ghost ls = text::split_inclusive(text@, '\n');
    let token = chars_of("#token=");
    let mut out: Vec<char> = Vec::new();
    let mut i: usize = 0;
    while i < lines.len()
        invariant
            i <= lines.len(),
            text::views(lines@) == ls,
            token@ == "#token="@,
            out@ == ls.take(i as int).map_values(|line: Seq<char>| redact_line(line)).flatten(),
        decreases lines.len() - i,
    {
        let line = lines[i].as_slice();
        assert(ls[i as int] == line@);
        let ghost before = out@;
        assert(line@.skip(0) =~= line@);
        match find_first_from(line, token.as_slice(), 0) {
            Some(k) => {
                proof {
                    text::lemma_find_first_some(line@, token@);
                }
                let head = copy_range(line, 0, k);
                push_chars(&mut out, head.as_slice());
                let marker = chars_of("#token=[REDACTED]");
                push_chars(&mut out, marker.as_slice());
                if line.len() > 0 && line[line.len() - 1] == '\n' {
                    out.push('\n');
                    assert(out@ =~= before + redact_line(line@));
                } else {
                    assert(out@ =~= before + redact_line(line@));
                }
            },
            None => {
                push_chars(&mut out, line);
            },
        }
        proof {
            let f = |line: Seq<char>| redact_line(line);
            assert(ls.take(i + 1).map_values(f) =~= ls.take(i as int).map_values(f).push(f(ls[i as int])));
            ls.take(i as int).map_values(f).lemma_flatten_push(f(ls[i as int]));
        }
        i += 1;
    }
    assert(ls.take(i as int) =~= ls);
    string_from(out.as_slice())
}

/// Redacting a line a second time changes nothing.
pub proof fn redact_line_idempotent(line: Seq<char>)
    ensures
        redact_line(redact_line(line)) == redact_line(line),
{
    let tok = "#token="@;
    match text::find_first(line, tok) {
        Some(i) => {
            text::lemma_find_first_some(line, tok);
            let marker = "#token=[REDACTED]"@;
            let r = line.take(i) + marker + line_end(line);
            assert(marker.take(7) == tok) by {
                reveal_strlit("#token=[REDACTED]");
                reveal_strlit("#token=");
                assert(marker.take(7) =~= tok);
            }
            assert(tok.len() == 7) by {
                reveal_strlit("#token=");
            }
            assert(marker.len() == 17) by {
                reveal_strlit("#token=[REDACTED]");
            }
            // r agrees with `line` on its first i + 7 characters.
            assert(r.take(i + 7) =~= line.take(i + 7)) by {
                assert(line.subrange(i, i + 7) == tok);
                assert forall|j: int| 0 <= j < i + 7 implies r[j] == line[j] by {
                    if j >= i {
                        assert(r[j] == marker[j - i]);
                        assert(marker[j - i] == tok[j - i]);
                        assert(line.subrange(i, i + 7)[j - i] == line[j]);
                    }
                }
            }
            assert(text::occurs_at(r, tok, i)) by {
                assert(r.subrange(i, i + 7) =~= marker.take(7));
            }
            assert forall|j: int| 0 <= j < i implies !text::occurs_at(r, tok, j) by {
                if text::occurs_at(r, tok, j) {
                    assert(r.subrange(j, j + 7) =~= line.subrange(j, j + 7)) by {
                        assert forall|m: int| 0 <= m < 7 implies #[trigger] r.subrange(j, j + 7)[m] == line.subrange(j, j + 7)[m] by {
                            assert(r.take(i + 7)[j + m] == line.take(i + 7)[j + m]);
                        }
                    }
                    assert(text::occurs_at(line, tok, j));
                }
            }
            text::lemma_first_at_unique(r, tok, i);
            assert(line_end(r) == line_end(line)) by {
                if line.len() > 0 && line.last() == '\n' {
                    assert(r.last() == '\n');
                } else {
                    reveal_strlit("#token=[REDACTED]");
                    assert(r =~= line.take(i) + marker);
                    assert(r.last() == marker.last());
                }
            }
            assert(r.take(i) =~= line.take(i));
        },
        None => {},
    }
}

/// `line` is a line as `split_inclusive` cuts it: nonempty, with a line
/// break at most at its end.
pub open spec fn one_line(line: Seq<char>) -> bool {
    &&& line.len() > 0
    &&& forall|j: int| 0 <= j < line.len() - 1 ==> line[j] != '\n'
}

/// `ls` are lines as `split_inclusive` cuts a text: each one a line, and
/// each but the last ending with its line break.
pub open spec fn cut_lines(ls: Seq<Seq<char>>) -> bool {
    forall|k: int| 0 <= k < ls.len() ==> one_line(#[trigger] ls[k]) && (k < ls.len() - 1 ==> ls[k].last() == '\n')
}

/// `split_inclusive` cuts a text into lines.
proof fn lemma_split_cuts_lines(s: Seq<char>)
    ensures
        cut_lines(text::split_inclusive(s, '\n')),
    decreases s.len(),
{
    let nl = seq!['\n'];
    let ls = text::split_inclusive(s, '\n');
    if s.len() > 0 {
        match text::find_first(s, nl) {
            Some(i) => {
                text::lemma_find_first_some(s, nl);
                let head = s.take(i + 1);
                let tail = s.skip(i + 1);
                lemma_split_cuts_lines(tail);
                assert(ls == seq![head] + text::split_inclusive(tail, '\n'));
                assert(s.subrange(i, i + 1)[0] == s[i]);
                assert forall|j: int| 0 <= j < head.len() - 1 implies head[j] != '\n' by {
                    if head[j] == '\n' {
                        assert(s.subrange(j, j + 1) =~= nl);
                        assert(text::occurs_at(s, nl, j));
                    }
                }
                assert forall|k: int| 0 <= k < ls.len() implies one_line(#[trigger] ls[k]) && (k < ls.len() - 1
                    ==> ls[k].last() == '\n') by {
                    if k > 0 {
                        assert(ls[k] == text::split_inclusive(tail, '\n')[k - 1]);
                    }
                }
            },
            None => {
                assert(ls == seq![s]);
                assert forall|j: int| 0 <= j < s.len() - 1 implies s[j] != '\n' by {
                    if s[j] == '\n' {
                        assert(s.subrange(j, j + 1) =~= nl);
                        text::lemma_first_exists(s, nl, j);
                    }
                }
            },
        }
    }
}

/// Lines joined back together are cut into the same lines.
proof fn lemma_cut_lines_rejoin(ls: Seq<Seq<char>>)
    requires
        cut_lines(ls),
    ensures
        text::split_inclusive(ls.flatten(), '\n') == ls,
    decreases ls.len(),
{
    let nl = seq!['\n'];
    if ls.len() == 0 {
        assert(ls.flatten() =~= Seq::<char>::empty());
        assert(text::split_inclusive(ls.flatten(), '\n') =~= ls);
    } else {
        let first = ls[0];
        let rest = ls.drop_first();
        let s = ls.flatten();
        assert(s == first + rest.flatten());
        assert(one_line(first));
        assert forall|k: int| 0 <= k < rest.len() implies one_line(#[trigger] rest[k]) && (k < rest.len() - 1
            ==> rest[k].last() == '\n') by {
            assert(rest[k] == ls[k + 1]);
        }
        let n = first.len() as int;
        assert forall|j: int| 0 <= j < n - 1 implies !text::occurs_at(s, nl, j) by {
            if text::occurs_at(s, nl, j) {
                assert(s.subrange(j, j + 1)[0] == s[j]);
                assert(s[j] == first[j]);
            }
        }
        if ls.len() > 1 {
            lemma_cut_lines_rejoin(rest);
            assert(first.last() == '\n');
            assert(s.subrange(n - 1, n) =~= nl);
            assert(text::first_at(s, nl, n - 1));
            text::lemma_first_at_unique(s, nl, n - 1);
            assert(s.take(n) =~= first);
            assert(s.skip(n) =~= rest.flatten());
            assert(text::split_inclusive(s, '\n') =~= seq![first] + rest);
            assert(seq![first] + rest =~= ls);
        } else {
            assert(rest =~= Seq::<Seq<char>>::empty());
            assert(rest.flatten() =~= Seq::<char>::empty());
            assert(s =~= first);
            if first.last() == '\n' {
                assert(s.subrange(n - 1, n) =~= nl);
                assert(text::first_at(s, nl, n - 1));
                text::lemma_first_at_unique(s, nl, n - 1);
                assert(s.take(n) =~= first);
                assert(s.skip(n) =~= Seq::<char>::empty());
                assert(text::split_inclusive(s.skip(n), '\n') =~= Seq::<Seq<char>>::empty());
                assert(text::split_inclusive(s, '\n') =~= ls);
            } else {
                assert forall|j: int| 0 <= j implies !text::occurs_at(s, nl, j) by {
                    if text::occurs_at(s, nl, j) {
                        assert(s.subrange(j, j + 1)[0] == s[j]);
                    }
                }
                text::lemma_find_first_none(s, nl);
                assert(text::split_inclusive(s, '\n') =~= ls);
            }
        }
    }
}

/// Redacting a line keeps it a line, ending with a line break exactly when
/// it did.
proof fn lemma_redact_keeps_line(line: Seq<char>)
    requires
        one_line(line),
    ensures
        one_line(redact_line(line)),
        (redact_line(line).last() == '\n') == (line.last() == '\n'),
{
    let tok = "#token="@;
    let marker = "#token=[REDACTED]"@;
    reveal_strlit("#token=");
    reveal_strlit("#token=[REDACTED]");
    match text::find_first(line, tok) {
        Some(i) => {
            text::lemma_find_first_some(line, tok);
            let r = line.take(i) + marker + line_end(line);
            assert forall|j: int| 0 <= j < r.len() - 1 implies r[j] != '\n' by {
                if j < i {
                    assert(r[j] == line[j]);
                } else if j < i + 17 {
                    assert(r[j] == marker[j - i]);
                }
            }
            if line.last() == '\n' {
                assert(r.last() == '\n');
            } else {
                assert(r =~= line.take(i) + marker);
                assert(r.last() == marker.last());
            }
        },
        None => {},
    }
}

/// Redacting a text a second time changes nothing.
pub proof fn redact_idempotent(s: Seq<char>)
    ensures
        redact_spec(redact_spec(s)) == redact_spec(s),
{
    let f = |line: Seq<char>| redact_line(line);
    let ls = text::split_inclusive(s, '\n');
    let ms = ls.map_values(f);
    lemma_split_cuts_lines(s);
    assert forall|k: int| 0 <= k < ms.len() implies one_line(#[trigger] ms[k]) && (k < ms.len() - 1
        ==> ms[k].last() == '\n') by {
        assert(one_line(ls[k]));
        lemma_redact_keeps_line(ls[k]);
    }
    lemma_cut_lines_rejoin(ms);
    assert(text::split_inclusive(redact_spec(s), '\n') == ms);
    assert forall|k: int| 0 <= k < ms.len() implies #[trigger] f(ms[k]) == ms[k] by {
        redact_line_idempotent(ls[k]);
    }
    assert(ms.map_values(f) =~= ms);
}


/// The pieces of a text without a line break: the text itself, when it is
/// not empty.
proof fn lemma_one_piece(x: Seq<char>)
    requires
        forall|j: int| 0 <= j < x.len() ==> x[j] != '\n',
    ensures
        text::split_inclusive(x, '\n') == if x.len() == 0 { Seq::<Seq<char>>::empty() } else { seq![x] },
{
    if x.len() > 0 {
        assert forall|j: int| 0 <= j implies !text::occurs_at(x, seq!['\n'], j) by {
            if text::occurs_at(x, seq!['\n'], j) {
                assert(x.subrange(j, j + 1)[0] == x[j]);
            }
        }
        text::lemma_find_first_none(x, seq!['\n']);
    }
}

/// The first piece of a text is its first line with its line break.
proof fn lemma_first_piece(x: Seq<char>, rest: Seq<char>)
    requires
        forall|j: int| 0 <= j < x.len() ==> x[j] != '\n',
    ensures
        text::split_inclusive(x + seq!['\n'] + rest, '\n') == seq![x + seq!['\n']] + text::split_inclusive(rest, '\n'),
{
    let s = x + seq!['\n'] + rest;
    let nl = seq!['\n'];
    assert(s.subrange(x.len() as int, x.len() as int + 1) =~= nl);
    assert forall|j: int| 0 <= j < x.len() implies !text::occurs_at(s, nl, j) by {
        if text::occurs_at(s, nl, j) {
            assert(s.subrange(j, j + 1)[0] == s[j]);
        }
    }
    text::lemma_first_at_unique(s, nl, x.len() as int);
    assert(s.take(x.len() as int + 1) =~= x + nl);
    assert(s.skip(x.len() as int + 1) =~= rest);
}

/// Redaction works line by line: a text's first line is redacted on its
/// own, and the rest of the text after it.
pub proof fn redaction_is_line_by_line(x: Seq<char>, rest: Seq<char>)
    requires
        forall|j: int| 0 <= j < x.len() ==> x[j] != '\n',
    ensures
        redact_spec(x + seq!['\n'] + rest) == redact_spec(x + seq!['\n']) + redact_spec(rest),
{
    let f = |line: Seq<char>| redact_line(line);
    let first = x + seq!['\n'];
    lemma_first_piece(x, rest);
    lemma_first_piece(x, Seq::empty());
    assert(x + seq!['\n'] + Seq::<char>::empty() =~= first);
    let tail = text::split_inclusive(rest, '\n');
    let all = (seq![first] + tail).map_values(f);
    assert(all.first() == f(first));
    assert(all.drop_first() =~= tail.map_values(f));
    let one = (seq![first] + Seq::<Seq<char>>::empty()).map_values(f);
    assert(one.drop_first() =~= Seq::<Seq<char>>::empty());
    assert(one.first() == f(first));
    assert(Seq::<Seq<char>>::empty().flatten() == Seq::<char>::empty());
    assert(one.flatten() =~= f(first));
}

/// A line that holds no `#`, with or without its line break, is shown as
/// it is.
pub proof fn lines_without_tokens_are_kept(x: Seq<char>)
    requires
        forall|j: int| 0 <= j < x.len() ==> x[j] != '\n' && x[j] != '#',
    ensures
        redact_spec(x) == x,
        redact_spec(x + seq!['\n']) == x + seq!['\n'],
{
    reveal_strlit("#token=");
    let tok = "#token="@;
    let f = |line: Seq<char>| redact_line(line);
    lemma_one_piece(x);
    lemma_first_piece(x, Seq::empty());
    let line = x + seq!['\n'];
    assert(x + seq!['\n'] + Seq::<char>::empty() =~= line);
    assert forall|j: int| 0 <= j implies !text::occurs_at(x, tok, j) by {
        if text::occurs_at(x, tok, j) {
            assert(x.subrange(j, j + 7)[0] == x[j]);
        }
    }
    assert forall|j: int| 0 <= j implies !text::occurs_at(line, tok, j) by {
        if text::occurs_at(line, tok, j) {
            assert(line.subrange(j, j + 7)[0] == line[j]);
        }
    }
    text::lemma_find_first_none(x, tok);
    text::lemma_find_first_none(line, tok);
    if x.len() > 0 {
        let a = seq![x].map_values(f);
        assert(a.drop_first() =~= Seq::<Seq<char>>::empty());
        assert(Seq::<Seq<char>>::empty().flatten() == Seq::<char>::empty());
        assert(a.flatten() =~= x);
    } else {
        assert(Seq::<Seq<char>>::empty().map_values(f) =~= Seq::<Seq<char>>::empty());
    }
    let b = (seq![line] + Seq::<Seq<char>>::empty()).map_values(f);
    assert(b.drop_first() =~= Seq::<Seq<char>>::empty());
    assert(Seq::<Seq<char>>::empty().flatten() == Seq::<char>::empty());
    assert(b.flatten() =~= line);
}

/// On a line whose first `#` starts a `#token=` link, everything after
/// `#token=` is replaced by `[REDACTED]`, and the line break is kept.
pub proof fn tokens_are_hidden(a: Seq<char>, b: Seq<char>)
    requires
        forall|j: int| 0 <= j < a.len() ==> a[j] != '\n' && a[j] != '#',
        forall|j: int| 0 <= j < b.len() ==> b[j] != '\n',
    ensures
        redact_spec(a + "#token="@ + b) == a + "#token=[REDACTED]"@,
        redact_spec(a + "#token="@ + b + seq!['\n']) == a + "#token=[REDACTED]"@ + seq!['\n'],
{
    reveal_strlit("#token=");
    reveal_strlit("#token=[REDACTED]");
    let tok = "#token="@;
    let f = |line: Seq<char>| redact_line(line);
    let x = a + tok + b;
    assert forall|j: int| 0 <= j < x.len() implies x[j] != '\n' by {
        if j >= a.len() && j < a.len() + 7 {
            assert(x[j] == tok[j - a.len()]);
        }
    }
    lemma_one_piece(x);
    lemma_first_piece(x, Seq::empty());
    let line = x + seq!['\n'];
    assert(x + seq!['\n'] + Seq::<char>::empty() =~= line);
    assert(x.subrange(a.len() as int, a.len() as int + 7) =~= tok);
    assert(line.subrange(a.len() as int, a.len() as int + 7) =~= tok);
    assert forall|j: int| 0 <= j < a.len() implies !text::occurs_at(x, tok, j) by {
        if text::occurs_at(x, tok, j) {
            assert(x.subrange(j, j + 7)[0] == x[j]);
        }
    }
    assert forall|j: int| 0 <= j < a.len() implies !text::occurs_at(line, tok, j) by {
        if text::occurs_at(line, tok, j) {
            assert(line.subrange(j, j + 7)[0] == line[j]);
        }
    }
    text::lemma_first_at_unique(x, tok, a.len() as int);
    text::lemma_first_at_unique(line, tok, a.len() as int);
    assert(x.take(a.len() as int) =~= a);
    assert(line.take(a.len() as int) =~= a);
    assert(line_end(x) =~= Seq::<char>::empty()) by {
        if b.len() == 0 {
            assert(x.last() == tok[6]);
        } else {
            assert(x.last() == b.last());
        }
    }
    assert(redact_line(x) =~= a + "#token=[REDACTED]"@);
    assert(redact_line(line) =~= a + "#token=[REDACTED]"@ + seq!['\n']);
    let c = seq![x].map_values(f);
    assert(c.drop_first() =~= Seq::<Seq<char>>::empty());
    assert(Seq::<Seq<char>>::empty().flatten() == Seq::<char>::empty());
    assert(c.flatten() =~= redact_line(x));
    let d = (seq![line] + Seq::<Seq<char>>::empty()).map_values(f);
    assert(d.drop_first() =~= Seq::<Seq<char>>::empty());
    assert(d.flatten() =~= redact_line(line));
}

} // verus!
