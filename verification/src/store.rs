//! Decisions of the session database: which port a new session gets and
//! how stored rows become session values.
use vstd::prelude::*;
use crate::config::LaunchSettings;
use crate::containers::launch_view;
use crate::text::{chars_eq, chars_of};
use crate::validation::ScreenSize;

verus! {

/// The first port handed to sessions.
pub const FIRST_PORT: u16 = 19500;

/// The port after the last one handed to sessions.
pub const END_PORT: u16 = 20000;

/// The port for a new session: the lowest port from 19500 up to 19999 that
/// no session uses, if any is free.
pub open spec fn free_port_spec(used: Seq<u16>) -> Option<u16> {
    if exists|p: u16| FIRST_PORT <= p < END_PORT && !used.contains(p) {
        Some(choose|p: u16| FIRST_PORT <= p < END_PORT && !used.contains(p) && forall|q: u16|
            FIRST_PORT <= q < p ==> used.contains(q))
    } else {
        None
    }
}

/// Whether `used` holds `p`.
fn contains_port(used: &[u16], p: u16) -> (r: bool)
    ensures
        r == used@.contains(p),
{
    let mut i: usize = 0;
    while i < used.len()
        invariant
            i <= used.len(),
            forall|k: int| 0 <= k < i ==> used@[k] != p,
        decreases used.len() - i,
    {
        if used[i] == p {
            assert(used@[i as int] == p);
            return true;
        }
        i += 1;
    }
    false
}

/// The port for a new session, given the ports of all sessions.
pub fn free_port(used: &[u16]) -> (r: Option<u16>)
    ensures
        r == free_port_spec(used@),
        r matches Some(p) ==> FIRST_PORT <= p < END_PORT && !used@.contains(p),
{
    let mut p: u16 = FIRST_PORT;
    while p < END_PORT
        invariant
            FIRST_PORT <= p <= END_PORT,
            forall|q: u16| FIRST_PORT <= q < p ==> used@.contains(q),
        decreases END_PORT - p,
    {
        if !contains_port(used, p) {
            proof {
                let c = choose|x: u16| FIRST_PORT <= x < END_PORT && !used@.contains(x) && forall|q: u16|
                    FIRST_PORT <= q < x ==> used@.contains(q);
                assert(FIRST_PORT <= p < END_PORT && !used@.contains(p) && forall|q: u16|
                    FIRST_PORT <= q < p ==> used@.contains(q));
                if c < p {
                    assert(used@.contains(c));
                } else if c > p {
                    assert(used@.contains(p));
                }
            }
            return Some(p);
        }
        p += 1;
    }
    None
}

/// A new session never receives a port that another session uses, and
/// ports stay within 19500–19999.
pub proof fn allocated_port_is_unused(used: Seq<u16>)
    ensures
        free_port_spec(used) matches Some(p) ==> FIRST_PORT <= p < END_PORT && !used.contains(p),
{
    if exists|p: u16| FIRST_PORT <= p < END_PORT && !used.contains(p) {
        let w = choose|p: u16| FIRST_PORT <= p < END_PORT && !used.contains(p);
        lemma_least_free(used, w);
    }
}

/// A new session gets the lowest port from 19500 up to 19999 that no
/// session uses, and none only when every one of them is used.
pub proof fn lowest_free_port_is_given(used: Seq<u16>)
    ensures
        free_port_spec(used) matches Some(p) ==> 19500 <= p < 20000 && !used.contains(p) && forall|q: u16|
            19500 <= q < p ==> used.contains(q),
        free_port_spec(used) is None <==> forall|q: u16| 19500 <= q < 20000 ==> used.contains(q),
{
    if exists|p: u16| FIRST_PORT <= p < END_PORT && !used.contains(p) {
        let w = choose|p: u16| FIRST_PORT <= p < END_PORT && !used.contains(p);
        lemma_least_free(used, w);
    }
}

/// A free port below `w` or `w` itself is the least free port.
proof fn lemma_least_free(used: Seq<u16>, w: u16)
    requires
        FIRST_PORT <= w < END_PORT,
        !used.contains(w),
    ensures
        exists|p: u16| FIRST_PORT <= p < END_PORT && !used.contains(p) && forall|q: u16|
            FIRST_PORT <= q < p ==> used.contains(q),
    decreases w - FIRST_PORT,
{
    if forall|q: u16| FIRST_PORT <= q < w ==> used.contains(q) {
    } else {
        let q = choose|q: u16| FIRST_PORT <= q < w && !used.contains(q);
        lemma_least_free(used, q);
    }
}

/// What a stored row of launch settings describes.
#[derive(PartialEq, Eq, Structural, Debug, Clone, Copy)]
pub enum SettingsKind {
    /// The settings the user chose.
    Desired,
    /// The settings the running desktop was started with.
    Applied,
    /// The settings of the launch under way.
    Launching,
}

/// Why stored rows could not be read.
#[derive(PartialEq, Eq, Structural, Debug, Clone, Copy)]
pub enum StoreError {
    UnknownSettingsKind,
    MissingDesiredSettings,
    NegativeNumber,
    /// A number is too large for the database.
    NumberTooLarge,
}

impl StoreError {
    /// The text shown for the error.
    pub open spec fn message_spec(self) -> Seq<char> {
        match self {
            StoreError::UnknownSettingsKind => "Unknown settings kind"@,
            StoreError::MissingDesiredSettings => "Session has no desired settings"@,
            StoreError::NegativeNumber => "Stored number is negative"@,
            StoreError::NumberTooLarge => "out of range integral type conversion attempted"@,
        }
    }

    /// The text shown for the error.
    pub fn message(&self) -> (r: &'static str)
        ensures
            r@ == self.message_spec(),
    {
        match self {
            StoreError::UnknownSettingsKind => "Unknown settings kind",
            StoreError::MissingDesiredSettings => "Session has no desired settings",
            StoreError::NegativeNumber => "Stored number is negative",
            StoreError::NumberTooLarge => "out of range integral type conversion attempted",
        }
    }
}

/// The text that stores each kind of settings.
pub open spec fn kind_text(kind: SettingsKind) -> Seq<char> {
    match kind {
        SettingsKind::Desired => "desired"@,
        SettingsKind::Applied => "applied"@,
        SettingsKind::Launching => "launching"@,
    }
}

/// The kind that a stored text names.
pub open spec fn kind_of(kind: Seq<char>) -> Result<SettingsKind, StoreError> {
    if kind == "desired"@ {
        Ok(SettingsKind::Desired)
    } else if kind == "applied"@ {
        Ok(SettingsKind::Applied)
    } else if kind == "launching"@ {
        Ok(SettingsKind::Launching)
    } else {
        Err(StoreError::UnknownSettingsKind)
    }
}

/// The kind of a stored row of launch settings.
pub fn settings_kind(kind: &str) -> (r: Result<SettingsKind, StoreError>)
    ensures
        r == kind_of(kind@),
{
    let k = chars_of(kind);
    let desired = chars_of("desired");
    let applied = chars_of("applied");
    let launching = chars_of("launching");
    if chars_eq(k.as_slice(), desired.as_slice()) {
        Ok(SettingsKind::Desired)
    } else if chars_eq(k.as_slice(), applied.as_slice()) {
        Ok(SettingsKind::Applied)
    } else if chars_eq(k.as_slice(), launching.as_slice()) {
        Ok(SettingsKind::Launching)
    } else {
        Err(StoreError::UnknownSettingsKind)
    }
}

/// The text that stores a kind of settings.
pub fn kind_name(kind: SettingsKind) -> (r: &'static str)
    ensures
        r@ == kind_text(kind),
{
    match kind {
        SettingsKind::Desired => "desired",
        SettingsKind::Applied => "applied",
        SettingsKind::Launching => "launching",
    }
}

/// Reading back the text that stores a kind gives the same kind.
pub proof fn kind_names_read_back(kind: SettingsKind)
    ensures
        kind_of(kind_text(kind)) == Ok::<SettingsKind, StoreError>(kind),
{
    reveal_strlit("desired");
    reveal_strlit("applied");
    reveal_strlit("launching");
    assert("desired"@[0] != "applied"@[0]);
    assert("desired"@[0] != "launching"@[0]);
    assert("applied"@[0] != "launching"@[0]);
}

/// A stored time or duration: a number that must not be negative.
pub fn unsigned(value: i64) -> (r: Result<u64, StoreError>)
    ensures
        r == if value >= 0 { Ok(value as u64) } else { Err(StoreError::NegativeNumber) },
{
    if value >= 0 { Ok(value as u64) } else { Err(StoreError::NegativeNumber) }
}

/// A number as the database stores it: a signed 64-bit integer.
pub fn signed(value: u64) -> (r: Result<i64, StoreError>)
    ensures
        r == if value <= i64::MAX { Ok(value as i64) } else { Err::<i64, StoreError>(StoreError::NumberTooLarge) },
{
    if value <= 9_223_372_036_854_775_807u64 { Ok(value as i64) } else { Err(StoreError::NumberTooLarge) }
}

/// Every number that can be stored reads back as itself.
pub proof fn stored_numbers_read_back(value: u64)
    requires
        value <= i64::MAX,
    ensures
        (value as i64) >= 0,
        ((value as i64) as u64) == value,
{
}

/// Launch settings as plain values: software encoding, screen size, kiosk
/// mode and startup command.
pub type LaunchTuple = (bool, Option<ScreenSize>, bool, Seq<char>);

/// Stored rows of launch settings as plain values.
pub open spec fn row_views(rows: Seq<(String, LaunchSettings)>) -> Seq<(Seq<char>, LaunchTuple)> {
    rows.map_values(|r: (String, LaunchSettings)| (r.0@, launch_view(&r.1)))
}

/// The settings of the last row of `kind`, if any.
pub open spec fn last_of_kind(rows: Seq<(Seq<char>, LaunchTuple)>, kind: SettingsKind) -> Option<LaunchTuple>
    decreases rows.len(),
{
    if rows.len() == 0 {
        None
    } else if rows.last().0 == kind_text(kind) {
        Some(rows.last().1)
    } else {
        last_of_kind(rows.drop_last(), kind)
    }
}

/// A session's launch settings from its stored rows: an unknown kind is an
/// error, the desired settings must be present, and a later row of a kind
/// overrides an earlier one.
pub open spec fn assemble_spec(rows: Seq<(Seq<char>, LaunchTuple)>) -> Result<(LaunchTuple, Option<LaunchTuple>, Option<LaunchTuple>), StoreError> {
    if exists|i: int| 0 <= i < rows.len() && (#[trigger] kind_of(rows[i].0)) is Err {
        Err(StoreError::UnknownSettingsKind)
    } else {
        match last_of_kind(rows, SettingsKind::Desired) {
            None => Err(StoreError::MissingDesiredSettings),
            Some(d) => Ok((d, last_of_kind(rows, SettingsKind::Applied), last_of_kind(rows, SettingsKind::Launching))),
        }
    }
}

/// Reading stored rows: a row of a kind other than `desired`, `applied` or
/// `launching` makes the rows unreadable; the last `desired` row gives the
/// desired settings, and a later row of a kind replaces an earlier one.
pub proof fn stored_rows_are_read_in_order(rows: Seq<(Seq<char>, LaunchTuple)>, x: LaunchTuple)
    ensures
        (exists|i: int| 0 <= i < rows.len() && rows[i].0 != "desired"@ && rows[i].0 != "applied"@ && rows[i].0
            != "launching"@) ==> assemble_spec(rows) == Err::<
            (LaunchTuple, Option<LaunchTuple>, Option<LaunchTuple>),
            StoreError,
        >(StoreError::UnknownSettingsKind),
        (forall|i: int| 0 <= i < rows.len() ==> rows[i].0 == "desired"@ || rows[i].0 == "applied"@ || rows[i].0
            == "launching"@) ==> (assemble_spec(rows.push(("desired"@, x))) matches Ok((d, _, _)) && d == x),
        (forall|i: int| 0 <= i < rows.len() ==> rows[i].0 == "applied"@ || rows[i].0 == "launching"@) ==> assemble_spec(
            rows,
        ) == Err::<(LaunchTuple, Option<LaunchTuple>, Option<LaunchTuple>), StoreError>(
            StoreError::MissingDesiredSettings,
        ),
        (forall|i: int| 0 <= i < rows.len() ==> rows[i].0 == "desired"@ || rows[i].0 == "applied"@ || rows[i].0
            == "launching"@) && assemble_spec(rows) is Ok ==> (assemble_spec(rows.push(("applied"@, x))) matches Ok(
            (_, a, _),
        ) && a == Some(x)),
{
    reveal_strlit("desired");
    reveal_strlit("applied");
    reveal_strlit("launching");
    assert("desired"@[0] != "applied"@[0]);
    assert("desired"@[0] != "launching"@[0]);
    assert("applied"@[0] != "launching"@[0]);
    if exists|i: int| 0 <= i < rows.len() && rows[i].0 != "desired"@ && rows[i].0 != "applied"@ && rows[i].0
        != "launching"@ {
        let i = choose|i: int| 0 <= i < rows.len() && rows[i].0 != "desired"@ && rows[i].0 != "applied"@ && rows[i].0
            != "launching"@;
        assert(kind_of(rows[i].0) is Err);
    }
    if forall|i: int| 0 <= i < rows.len() ==> rows[i].0 == "desired"@ || rows[i].0 == "applied"@ || rows[i].0
        == "launching"@ {
        let r1 = rows.push(("desired"@, x));
        let r2 = rows.push(("applied"@, x));
        assert(r1.drop_last() =~= rows);
        assert(r2.drop_last() =~= rows);
        assert forall|i: int| 0 <= i < r1.len() implies (#[trigger] kind_of(r1[i].0)) is Ok by {
            if i < rows.len() {
                assert(r1[i] == rows[i]);
            }
        }
        assert forall|i: int| 0 <= i < r2.len() implies (#[trigger] kind_of(r2[i].0)) is Ok by {
            if i < rows.len() {
                assert(r2[i] == rows[i]);
            }
        }
        assert(last_of_kind(r1, SettingsKind::Desired) == Some(x));
        assert(last_of_kind(r2, SettingsKind::Applied) == Some(x));
        assert(last_of_kind(r2, SettingsKind::Desired) == last_of_kind(rows, SettingsKind::Desired));
    }
    if forall|i: int| 0 <= i < rows.len() ==> rows[i].0 == "applied"@ || rows[i].0 == "launching"@ {
        lemma_no_desired(rows);
    }
}

/// Rows without a `desired` row give no desired settings.
proof fn lemma_no_desired(rows: Seq<(Seq<char>, LaunchTuple)>)
    requires
        forall|i: int| 0 <= i < rows.len() ==> rows[i].0 == "applied"@ || rows[i].0 == "launching"@,
    ensures
        last_of_kind(rows, SettingsKind::Desired) is None,
        forall|i: int| 0 <= i < rows.len() ==> (#[trigger] kind_of(rows[i].0)) is Ok,
    decreases rows.len(),
{
    reveal_strlit("desired");
    reveal_strlit("applied");
    reveal_strlit("launching");
    assert("desired"@[0] != "applied"@[0]);
    assert("desired"@[0] != "launching"@[0]);
    if rows.len() > 0 {
        assert forall|i: int| 0 <= i < rows.drop_last().len() implies rows.drop_last()[i].0 == "applied"@
            || rows.drop_last()[i].0 == "launching"@ by {
            assert(rows.drop_last()[i] == rows[i]);
        }
        lemma_no_desired(rows.drop_last());
        assert(rows.last() == rows[rows.len() - 1]);
    }
}

/// Optional launch settings as plain values.
pub open spec fn optional_view(s: Option<LaunchSettings>) -> Option<LaunchTuple> {
    match s {
        Some(x) => Some(launch_view(&x)),
        None => None,
    }
}

/// A screen size is stored as a width and a height; it is present when
/// both are.
pub fn screen_size_of(width: Option<u32>, height: Option<u32>) -> (r: Option<ScreenSize>)
    ensures
        r == match (width, height) {
            (Some(w), Some(h)) => Some(ScreenSize { width: w, height: h }),
            _ => None,
        },
{
    match (width, height) {
        (Some(w), Some(h)) => Some(ScreenSize { width: w, height: h }),
        _ => None,
    }
}

/// A session's desired, applied and launching settings from its stored
/// rows.
pub fn assemble_settings(rows: &[(String, LaunchSettings)]) -> (r: Result<(LaunchSettings, Option<LaunchSettings>, Option<LaunchSettings>), StoreError>)
    ensures
        match assemble_spec(row_views(rows@)) {
            Ok((d, a, l)) => r matches Ok((x, y, z)) && launch_view(&x) == d && optional_view(y) == a
                && optional_view(z) == l,
            Err(e) => r matches Err(x) && x == e,
        },
{
    let ghost views = row_views(rows@);
    let mut desired: Option<LaunchSettings> = None;
    let mut applied: Option<LaunchSettings> = None;
    let mut launching: Option<LaunchSettings> = None;
    let mut i: usize = 0;
    while i < rows.len()
        invariant
            i <= rows.len(),
            views == row_views(rows@),
            forall|j: int| 0 <= j < i ==> (#[trigger] kind_of(views[j].0)) is Ok,
            optional_view(desired) == last_of_kind(views.take(i as int), SettingsKind::Desired),
            optional_view(applied) == last_of_kind(views.take(i as int), SettingsKind::Applied),
            optional_view(launching) == last_of_kind(views.take(i as int), SettingsKind::Launching),
        decreases rows.len() - i,
    {
        let (kind, settings) = (&rows[i].0, &rows[i].1);
        assert(views[i as int] == (kind@, launch_view(settings)));
        assert(views.take(i + 1).drop_last() =~= views.take(i as int));
        assert(views.take(i + 1).last() == views[i as int]);
        proof {
            kind_names_read_back(SettingsKind::Desired);
            kind_names_read_back(SettingsKind::Applied);
            kind_names_read_back(SettingsKind::Launching);
        }
        match settings_kind(kind.as_str()) {
            Ok(SettingsKind::Desired) => {
                desired = Some(settings.duplicate());
            },
            Ok(SettingsKind::Applied) => {
                applied = Some(settings.duplicate());
            },
            Ok(SettingsKind::Launching) => {
                launching = Some(settings.duplicate());
            },
            Err(e) => {
                assert(kind_of(views[i as int].0) is Err);
                return Err(e);
            },
        }
        i += 1;
    }
    assert(views.take(i as int) =~= views);
    match desired {
        Some(d) => Ok((d, applied, launching)),
        None => Err(StoreError::MissingDesiredSettings),
    }
}

/// The stored rows of a session's launch settings: the desired settings,
/// then the applied and launching settings where there are any.
pub fn settings_rows(
    desired: LaunchSettings,
    applied: Option<LaunchSettings>,
    launching: Option<LaunchSettings>,
) -> (r: Vec<(String, LaunchSettings)>)
    ensures
        row_views(r@) == seq![(kind_text(SettingsKind::Desired), launch_view(&desired))] + match applied {
            Some(a) => seq![(kind_text(SettingsKind::Applied), launch_view(&a))],
            None => Seq::empty(),
        } + match launching {
            Some(l) => seq![(kind_text(SettingsKind::Launching), launch_view(&l))],
            None => Seq::empty(),
        },
{
    let mut out: Vec<(String, LaunchSettings)> = Vec::new();
    let ghost d = launch_view(&desired);
    out.push((kind_name(SettingsKind::Desired).to_string(), desired));
    let ghost first = row_views(out@);
    assert(first =~= seq![(kind_text(SettingsKind::Desired), d)]);
    match applied {
        Some(a) => {
            let ghost av = launch_view(&a);
            out.push((kind_name(SettingsKind::Applied).to_string(), a));
            assert(row_views(out@) =~= first + seq![(kind_text(SettingsKind::Applied), av)]);
        },
        None => {
            assert(row_views(out@) =~= first + Seq::<(Seq<char>, LaunchTuple)>::empty());
        },
    }
    let ghost second = row_views(out@);
    match launching {
        Some(l) => {
            let ghost lv = launch_view(&l);
            out.push((kind_name(SettingsKind::Launching).to_string(), l));
            assert(row_views(out@) =~= second + seq![(kind_text(SettingsKind::Launching), lv)]);
        },
        None => {
            assert(row_views(out@) =~= second + Seq::<(Seq<char>, LaunchTuple)>::empty());
        },
    }
    out
}

/// Launch settings read back as they were written: the stored rows of a
/// session's desired, applied and launching settings assemble into the
/// same settings.
pub proof fn stored_settings_read_back(d: LaunchTuple, a: Option<LaunchTuple>, l: Option<LaunchTuple>)
    ensures
        assemble_spec(
            seq![(kind_text(SettingsKind::Desired), d)] + match a {
                Some(x) => seq![(kind_text(SettingsKind::Applied), x)],
                None => Seq::empty(),
            } + match l {
                Some(x) => seq![(kind_text(SettingsKind::Launching), x)],
                None => Seq::empty(),
            },
        ) == Ok::<(LaunchTuple, Option<LaunchTuple>, Option<LaunchTuple>), StoreError>((d, a, l)),
{
    reveal_strlit("desired");
    reveal_strlit("applied");
    reveal_strlit("launching");
    kind_names_read_back(SettingsKind::Desired);
    kind_names_read_back(SettingsKind::Applied);
    kind_names_read_back(SettingsKind::Launching);
    assert("desired"@[0] != "applied"@[0]);
    assert("desired"@[0] != "launching"@[0]);
    assert("applied"@[0] != "launching"@[0]);
    let dr = seq![(kind_text(SettingsKind::Desired), d)];
    let ar: Seq<(Seq<char>, LaunchTuple)> = match a {
        Some(x) => seq![(kind_text(SettingsKind::Applied), x)],
        None => Seq::empty(),
    };
    let lr: Seq<(Seq<char>, LaunchTuple)> = match l {
        Some(x) => seq![(kind_text(SettingsKind::Launching), x)],
        None => Seq::empty(),
    };
    let rows = dr + ar + lr;
    assert forall|i: int| 0 <= i < rows.len() implies (#[trigger] kind_of(rows[i].0)) is Ok by {
        if i == 0 {
            assert(rows[i] == dr[0]);
        } else if i < 1 + ar.len() {
            assert(rows[i] == ar[i - 1]);
        } else {
            assert(rows[i] == lr[i - 1 - ar.len()]);
        }
    }
    let kd = kind_text(SettingsKind::Desired);
    let ka = kind_text(SettingsKind::Applied);
    let kl = kind_text(SettingsKind::Launching);
    assert(kd != ka && kd != kl && ka != kl);
    let none = Seq::<(Seq<char>, LaunchTuple)>::empty();
    assert(dr.drop_last() =~= none);
    assert(last_of_kind(none, SettingsKind::Applied) is None);
    assert(last_of_kind(none, SettingsKind::Launching) is None);
    assert(dr.last() == (kd, d));
    assert(last_of_kind(dr, SettingsKind::Desired) == Some(d));
    assert(last_of_kind(dr, SettingsKind::Applied) is None);
    assert(last_of_kind(dr, SettingsKind::Launching) is None);
    // Peel the rows from the end.
    let dar = dr + ar;
    if ar.len() == 1 {
        assert(dar.drop_last() =~= dr);
        assert(dar.last() == ar[0]);
    } else {
        assert(dar =~= dr);
    }
    assert(last_of_kind(dar, SettingsKind::Desired) == Some(d));
    assert(last_of_kind(dar, SettingsKind::Applied) == a);
    assert(last_of_kind(dar, SettingsKind::Launching) is None);
    if lr.len() == 1 {
        assert(rows.drop_last() =~= dar);
        assert(rows.last() == lr[0]);
    } else {
        assert(rows =~= dar);
    }
    assert(last_of_kind(rows, SettingsKind::Desired) == Some(d));
    assert(last_of_kind(rows, SettingsKind::Applied) == a);
    assert(last_of_kind(rows, SettingsKind::Launching) == l);
}

} // verus!
