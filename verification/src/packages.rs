//! The installed Elsewhere package as the distribution's package database
//! records it.
use vstd::prelude::*;
use crate::text::{self, chars_eq, chars_of, is_blank, lines_chars, split_chars, strip_prefix_chars, string_from};

verus! {

/// Why a package database could not be read.
#[derive(PartialEq, Eq, Structural, Debug, Clone, Copy)]
pub enum MetadataError {
    /// An entry has no `Package:` field.
    InvalidMetadata,
    /// The Elsewhere entry has no `Status:` field.
    MissingStatus,
    /// The Elsewhere entry has no version field.
    MissingVersion,
    /// A pacman `desc` file has no `%NAME%` entry.
    MissingName,
    /// Two pacman entries claim the `elsewhere` package.
    Ambiguous,
    /// The package database says the installation is incomplete.
    Incomplete,
    /// No installed version is recorded.
    Unavailable,
    /// dpkg's journal holds updates it has not finished.
    JournalPending,
}

impl MetadataError {
    /// The text shown for the error.
    pub open spec fn message_spec(self) -> Seq<char> {
        match self {
            MetadataError::InvalidMetadata => "Invalid package metadata"@,
            MetadataError::MissingStatus => "Missing package status"@,
            MetadataError::MissingVersion => "Missing package version"@,
            MetadataError::MissingName => "Missing package name"@,
            MetadataError::Ambiguous => "Ambiguous Elsewhere package metadata"@,
            MetadataError::Incomplete => "Elsewhere package installation is incomplete"@,
            MetadataError::Unavailable => "Elsewhere package metadata is unavailable"@,
            MetadataError::JournalPending => "Debian package journal is pending. Manual package-manager recovery is required before Innkeeper can determine the version or repair it."@,
        }
    }

    /// The text shown for the error.
    pub fn message(&self) -> (r: &'static str)
        ensures
            r@ == self.message_spec(),
    {
        match self {
            MetadataError::InvalidMetadata => "Invalid package metadata",
            MetadataError::MissingStatus => "Missing package status",
            MetadataError::MissingVersion => "Missing package version",
            MetadataError::MissingName => "Missing package name",
            MetadataError::Ambiguous => "Ambiguous Elsewhere package metadata",
            MetadataError::Incomplete => "Elsewhere package installation is incomplete",
            MetadataError::Unavailable => "Elsewhere package metadata is unavailable",
            MetadataError::JournalPending => "Debian package journal is pending. Manual package-manager recovery is required before Innkeeper can determine the version or repair it.",
        }
    }
}

/// What the package database says of the installed Elsewhere package.
pub struct PackageMetadata {
    pub version: Option<String>,
    pub complete: bool,
}

impl Default for PackageMetadata {
    fn default() -> (r: Self)
        ensures
            r.version is None,
            !r.complete,
    {
        PackageMetadata { version: None, complete: false }
    }
}

impl PackageMetadata {
    /// A repair is offered when the installation is not complete.
    pub fn repair_available(&self) -> (r: bool)
        ensures
            r == !self.complete,
    {
        !self.complete
    }
}

/// The rest of the first item that starts with `p`, with `p` removed.
pub open spec fn first_stripped(items: Seq<Seq<char>>, p: Seq<char>) -> Option<Seq<char>>
    decreases items.len(),
{
    if items.len() == 0 {
        None
    } else {
        match text::strip_prefix(items[0], p) {
            Some(rest) => Some(rest),
            None => first_stripped(items.drop_first(), p),
        }
    }
}

/// The value of the first line of `entry` that starts with `name`.
pub open spec fn field(entry: Seq<char>, name: Seq<char>) -> Option<Seq<char>> {
    first_stripped(text::lines(entry), name)
}

/// The version and completeness of the `elsewhere` entry among `entries`,
/// blank entries skipped; every other entry must name its package.
pub open spec fn debian_scan(entries: Seq<Seq<char>>) -> Result<(Option<Seq<char>>, bool), MetadataError>
    decreases entries.len(),
{
    if entries.len() == 0 {
        Ok((None, false))
    } else if text::blank(entries[0]) {
        debian_scan(entries.drop_first())
    } else {
        match field(entries[0], "Package: "@) {
            None => Err(MetadataError::InvalidMetadata),
            Some(name) => if name == "elsewhere"@ {
                match field(entries[0], "Status: "@) {
                    None => Err(MetadataError::MissingStatus),
                    Some(status) => match field(entries[0], "Version: "@) {
                        None => Err(MetadataError::MissingVersion),
                        Some(v) => Ok((Some(v), status == "install ok installed"@)),
                    },
                }
            } else {
                debian_scan(entries.drop_first())
            },
        }
    }
}

/// The dpkg status file read as blank-line separated entries.
pub open spec fn debian_metadata_spec(status: Seq<char>) -> Result<(Option<Seq<char>>, bool), MetadataError> {
    debian_scan(text::split(status, "\n\n"@))
}

/// The version in a pacman `desc` file, when its package is `elsewhere`.
pub open spec fn arch_version_spec(desc: Seq<char>) -> Option<Seq<char>> {
    let entries = text::split(desc, "\n\n"@);
    match first_stripped(entries, "%NAME%\n"@) {
        Some(name) => if name == "elsewhere"@ {
            first_stripped(entries, "%VERSION%\n"@)
        } else {
            None
        },
        None => None,
    }
}

/// The rest of the first item that starts with `p`.
fn first_stripped_of(items: &Vec<Vec<char>>, p: &[char]) -> (r: Option<Vec<char>>)
    ensures
        match first_stripped(text::views(items@), p@) {
            Some(rest) => r matches Some(x) && x@ == rest,
            None => r is None,
        },
{
    let ghost all = text::views(items@);
    let mut i: usize = 0;
    assert(all.skip(0) =~= all);
    while i < items.len()
        invariant
            i <= items.len(),
            all == text::views(items@),
            first_stripped(all, p@) == first_stripped(all.skip(i as int), p@),
        decreases items.len() - i,
    {
        assert(all.skip(i as int)[0] == items@[i as int]@);
        assert(all.skip(i as int).drop_first() =~= all.skip(i + 1));
        match strip_prefix_chars(items[i].as_slice(), p) {
            Some(rest) => {
                return Some(rest);
            },
            None => {},
        }
        i += 1;
    }
    None
}

/// The value of the field `name` in `entry`.
fn field_of(entry: &[char], name: &str) -> (r: Option<Vec<char>>)
    ensures
        match field(entry@, name@) {
            Some(v) => r matches Some(x) && x@ == v,
            None => r is None,
        },
{
    let ls = lines_chars(entry);
    let n = chars_of(name);
    first_stripped_of(&ls, n.as_slice())
}

/// Reads the `elsewhere` entry of a dpkg status file: its version, and
/// whether its status is `install ok installed`.
pub fn debian_metadata(status: &str) -> (r: Result<PackageMetadata, MetadataError>)
    ensures
        match debian_metadata_spec(status@) {
            Ok((v, c)) => r matches Ok(m) && m.complete == c && match v {
                Some(v) => m.version matches Some(s) && s@ == v,
                None => m.version is None,
            },
            Err(e) => r == Err::<PackageMetadata, MetadataError>(e),
        },
{
    let all = chars_of(status);
    let sep = chars_of("\n\n");
    let entries = split_chars(all.as_slice(), sep.as_slice());
    let ghost es = text::split(status@, "\n\n"@);
    let elsewhere = chars_of("elsewhere");
    let installed = chars_of("install ok installed");
    let mut i: usize = 0;
    assert(es.skip(0) =~= es);
    while i < entries.len()
        invariant
            i <= entries.len(),
            es == text::views(entries@),
            elsewhere@ == "elsewhere"@,
            installed@ == "install ok installed"@,
            debian_metadata_spec(status@) == debian_scan(es.skip(i as int)),
        decreases entries.len() - i,
    {
        let entry = entries[i].as_slice();
        let ghost rest = es.skip(i as int);
        assert(rest[0] == entry@);
        assert(rest.drop_first() =~= es.skip(i + 1));
        if !is_blank(entry) {
            let name = match field_of(entry, "Package: ") {
                Some(n) => n,
                None => return Err(MetadataError::InvalidMetadata),
            };
            if chars_eq(name.as_slice(), elsewhere.as_slice()) {
                let state = match field_of(entry, "Status: ") {
                    Some(s) => s,
                    None => return Err(MetadataError::MissingStatus),
                };
                let version = match field_of(entry, "Version: ") {
                    Some(v) => v,
                    None => return Err(MetadataError::MissingVersion),
                };
                let complete = chars_eq(state.as_slice(), installed.as_slice());
                return Ok(PackageMetadata { version: Some(string_from(version.as_slice())), complete });
            }
        }
        i += 1;
    }
    Ok(PackageMetadata::default())
}

/// The version in a pacman `desc` file, when it describes the `elsewhere`
/// package.
pub fn arch_version(desc: &str) -> (r: Option<String>)
    ensures
        match arch_version_spec(desc@) {
            Some(v) => r matches Some(s) && s@ == v,
            None => r is None,
        },
{
    let all = chars_of(desc);
    let sep = chars_of("\n\n");
    let entries = split_chars(all.as_slice(), sep.as_slice());
    let name_key = chars_of("%NAME%\n");
    let name = match first_stripped_of(&entries, name_key.as_slice()) {
        Some(n) => n,
        None => return None,
    };
    let elsewhere = chars_of("elsewhere");
    if !chars_eq(name.as_slice(), elsewhere.as_slice()) {
        return None;
    }
    let version_key = chars_of("%VERSION%\n");
    match first_stripped_of(&entries, version_key.as_slice()) {
        Some(v) => Some(string_from(v.as_slice())),
        None => None,
    }
}


/// One pacman `desc` file read into what is known so far: the `elsewhere`
/// package may be described only once, and its entry needs a version.
pub open spec fn arch_entry_spec(known: Option<Seq<char>>, complete: bool, desc: Seq<char>) -> Result<(Option<Seq<char>>, bool), MetadataError> {
    match first_stripped(text::split(desc, "\n\n"@), "%NAME%\n"@) {
        None => Err(MetadataError::MissingName),
        Some(name) => if name == "elsewhere"@ {
            if known is Some {
                Err(MetadataError::Ambiguous)
            } else {
                match arch_version_spec(desc) {
                    Some(v) => Ok((Some(v), true)),
                    None => Err(MetadataError::MissingVersion),
                }
            }
        } else {
            Ok((known, complete))
        },
    }
}

/// Reads one pacman `desc` file of a package whose directory starts with
/// `elsewhere-` into the metadata gathered so far.
pub fn arch_entry(metadata: PackageMetadata, desc: &str) -> (r: Result<PackageMetadata, MetadataError>)
    ensures
        match arch_entry_spec(match metadata.version { Some(v) => Some(v@), None => None }, metadata.complete, desc@) {
            Ok((v, c)) => r matches Ok(m) && m.complete == c && match v {
                Some(x) => m.version matches Some(s) && s@ == x,
                None => m.version is None,
            },
            Err(e) => r matches Err(x) && x == e,
        },
{
    let all = chars_of(desc);
    let sep = chars_of("\n\n");
    let entries = split_chars(all.as_slice(), sep.as_slice());
    let key = chars_of("%NAME%\n");
    let name = match first_stripped_of(&entries, key.as_slice()) {
        Some(n) => n,
        None => return Err(MetadataError::MissingName),
    };
    let elsewhere = chars_of("elsewhere");
    if !chars_eq(name.as_slice(), elsewhere.as_slice()) {
        return Ok(metadata);
    }
    if metadata.version.is_some() {
        return Err(MetadataError::Ambiguous);
    }
    match arch_version(desc) {
        Some(v) => Ok(PackageMetadata { version: Some(v), complete: true }),
        None => Err(MetadataError::MissingVersion),
    }
}

/// The installed version, when the installation is complete and recorded.
pub fn installed_version_of(metadata: PackageMetadata) -> (r: Result<String, MetadataError>)
    ensures
        !metadata.complete ==> (r matches Err(e) && e == MetadataError::Incomplete),
        metadata.complete && metadata.version is None ==> (r matches Err(e) && e == MetadataError::Unavailable),
        metadata.complete && metadata.version is Some ==> (r matches Ok(v) && v@ == metadata.version->0@),
{
    if !metadata.complete {
        return Err(MetadataError::Incomplete);
    }
    match metadata.version {
        Some(v) => Ok(v),
        None => Err(MetadataError::Unavailable),
    }
}

/// Reads a Debian package database: a pending dpkg journal is refused,
/// otherwise the status file is read.
pub fn debian_package_metadata(status: &str, journal_pending: bool) -> (r: Result<PackageMetadata, MetadataError>)
    ensures
        journal_pending ==> (r matches Err(e) && e == MetadataError::JournalPending),
        !journal_pending ==> match debian_metadata_spec(status@) {
            Ok((v, c)) => r matches Ok(m) && m.complete == c && match v {
                Some(v) => m.version matches Some(s) && s@ == v,
                None => m.version is None,
            },
            Err(e) => r matches Err(x) && x == e,
        },
{
    if journal_pending {
        return Err(MetadataError::JournalPending);
    }
    debian_metadata(status)
}

/// What the `desc` files of the packages named `elsewhere-…` say, read in
/// order into what is known so far.
pub open spec fn arch_metadata_spec(descs: Seq<Seq<char>>) -> Result<(Option<Seq<char>>, bool), MetadataError>
    decreases descs.len(),
{
    if descs.len() == 0 {
        Ok((None, false))
    } else {
        match arch_metadata_spec(descs.drop_last()) {
            Err(e) => Err(e),
            Ok((known, complete)) => arch_entry_spec(known, complete, descs.last()),
        }
    }
}

/// Reads the `desc` files of the packages named `elsewhere-…` of a pacman
/// database.
pub fn arch_package_metadata(descs: &[String]) -> (r: Result<PackageMetadata, MetadataError>)
    ensures
        match arch_metadata_spec(descs@.map_values(|d: String| d@)) {
            Ok((v, c)) => r matches Ok(m) && m.complete == c && match v {
                Some(x) => m.version matches Some(s) && s@ == x,
                None => m.version is None,
            },
            Err(e) => r matches Err(x) && x == e,
        },
{
    let ghost views = descs@.map_values(|d: String| d@);
    let mut metadata = PackageMetadata::default();
    let mut i: usize = 0;
    while i < descs.len()
        invariant
            i <= descs.len(),
            views == descs@.map_values(|d: String| d@),
            arch_metadata_spec(views.take(i as int)) matches Ok((v, c)) && metadata.complete == c && match v {
                Some(x) => metadata.version matches Some(s) && s@ == x,
                None => metadata.version is None,
            },
        decreases descs.len() - i,
    {
        assert(views.take(i + 1).drop_last() =~= views.take(i as int));
        assert(views.take(i + 1).last() == descs@[i as int]@);
        match arch_entry(metadata, descs[i].as_str()) {
            Ok(m) => metadata = m,
            Err(e) => {
                proof {
                    lemma_arch_error_stays(views, i as int + 1);
                }
                return Err(e);
            },
        }
        i += 1;
    }
    assert(views.take(i as int) =~= views);
    Ok(metadata)
}

/// Once reading the `desc` files fails, reading more of them keeps that
/// error.
proof fn lemma_arch_error_stays(descs: Seq<Seq<char>>, k: int)
    requires
        0 <= k <= descs.len(),
        arch_metadata_spec(descs.take(k)) is Err,
    ensures
        arch_metadata_spec(descs) == arch_metadata_spec(descs.take(k)),
    decreases descs.len() - k,
{
    if k < descs.len() {
        assert(descs.take(k + 1).drop_last() =~= descs.take(k));
        lemma_arch_error_stays(descs, k + 1);
    } else {
        assert(descs.take(k) =~= descs);
    }
}

/// An Arch installation counts as complete exactly when the `elsewhere`
/// package's version was found.
pub proof fn arch_complete_iff_version(descs: Seq<Seq<char>>)
    ensures
        arch_metadata_spec(descs) matches Ok((v, c)) ==> c == v is Some,
    decreases descs.len(),
{
    if descs.len() > 0 {
        arch_complete_iff_version(descs.drop_last());
    }
}


/// The dpkg entries before the `elsewhere` entry: each blank, or naming
/// another package.
pub open spec fn other_entries(entries: Seq<Seq<char>>) -> bool {
    forall|i: int| 0 <= i < entries.len() ==> text::blank(#[trigger] entries[i]) || (field(entries[i], "Package: "@)
        matches Some(n) && n != "elsewhere"@)
}

/// Reading dpkg entries: entries of other packages and blank entries are
/// passed over; the first entry of the `elsewhere` package gives its
/// version, and the installation is complete exactly when its status is
/// `install ok installed`; without such an entry nothing is installed; an
/// entry that is not blank and names no package makes the file unreadable.
pub proof fn debian_entry_decides(pre: Seq<Seq<char>>, e: Seq<char>, post: Seq<Seq<char>>)
    requires
        other_entries(pre),
    ensures
        debian_scan(pre) == Ok::<(Option<Seq<char>>, bool), MetadataError>((None, false)),
        (!text::blank(e) && field(e, "Package: "@) == Some("elsewhere"@) && field(e, "Status: "@) is Some && field(
            e,
            "Version: "@,
        ) is Some) ==> debian_scan(pre + seq![e] + post) == Ok::<(Option<Seq<char>>, bool), MetadataError>(
            (Some(field(e, "Version: "@)->0), field(e, "Status: "@)->0 == "install ok installed"@),
        ),
        (!text::blank(e) && field(e, "Package: "@) is None) ==> debian_scan(pre + seq![e] + post) == Err::<
            (Option<Seq<char>>, bool),
            MetadataError,
        >(MetadataError::InvalidMetadata),
    decreases pre.len(),
{
    if pre.len() > 0 {
        let rest = pre.drop_first();
        assert forall|i: int| 0 <= i < rest.len() implies text::blank(#[trigger] rest[i]) || (field(
            rest[i],
            "Package: "@,
        ) matches Some(n) && n != "elsewhere"@) by {
            assert(rest[i] == pre[i + 1]);
        }
        debian_entry_decides(rest, e, post);
        assert(pre[0] == pre[0]);
        assert((pre + seq![e] + post).drop_first() =~= rest + seq![e] + post);
        assert((pre + seq![e] + post)[0] == pre[0]);
    } else {
        assert(pre + seq![e] + post =~= seq![e] + post);
        assert((seq![e] + post).drop_first() =~= post);
    }
}


/// The package a pacman `desc` file names.
pub open spec fn desc_name(desc: Seq<char>) -> Option<Seq<char>> {
    first_stripped(text::split(desc, "\n\n"@), "%NAME%\n"@)
}

/// Reading pacman `desc` files: one of another package changes nothing;
/// one that names no package is refused; the `elsewhere` package gives its
/// version and a complete installation, and a second description of it
/// makes the database ambiguous.
pub proof fn arch_descriptions_are_read_in_order(descs: Seq<Seq<char>>, d: Seq<char>)
    ensures
        (desc_name(d) matches Some(n) && n != "elsewhere"@) ==> arch_metadata_spec(descs.push(d))
            == arch_metadata_spec(descs),
        desc_name(d) is None ==> (arch_metadata_spec(descs) is Ok ==> arch_metadata_spec(descs.push(d)) == Err::<
            (Option<Seq<char>>, bool),
            MetadataError,
        >(MetadataError::MissingName)),
        desc_name(d) == Some("elsewhere"@) ==> (arch_metadata_spec(descs) matches Ok((Some(_), _))
            ==> arch_metadata_spec(descs.push(d)) == Err::<(Option<Seq<char>>, bool), MetadataError>(
            MetadataError::Ambiguous,
        )),
        desc_name(d) == Some("elsewhere"@) ==> (arch_metadata_spec(descs) matches Ok((None, _)) ==> arch_metadata_spec(
            descs.push(d),
        ) == match arch_version_spec(d) {
            Some(v) => Ok::<(Option<Seq<char>>, bool), MetadataError>((Some(v), true)),
            None => Err(MetadataError::MissingVersion),
        }),
{
    assert(descs.push(d).drop_last() =~= descs);
}

} // verus!
