//! Elsewhere release packages: which package and base image a distribution
//! uses, where a release is downloaded from, and the checks on a local
//! package directory.
use vstd::prelude::*;
use sha2::Digest;
use crate::text::{self, chars_eq, chars_of, copy_range, push_chars, push_decimal, push_str, string_from};

verus! {

/// Why preparing a session or reading a local package directory failed.
#[derive(PartialEq, Eq, Structural, Debug, Clone, Copy)]
pub enum ReleaseError {
    /// The session's distribution is not Arch, Debian or Ubuntu.
    UnsupportedDistribution,
    /// The Docker host is not an x86-64 machine.
    UnsupportedArchitecture,
    /// A local package version without three numeric parts.
    InvalidVersion,
    /// A local package directory not named `build-[A-Za-z0-9_-]*`.
    InvalidDirectory,
}

impl ReleaseError {
    /// The text shown for the error.
    pub open spec fn message_spec(self) -> Seq<char> {
        match self {
            ReleaseError::UnsupportedDistribution => "Unsupported session distribution"@,
            ReleaseError::UnsupportedArchitecture => "Release packages currently support only x86_64 Docker hosts"@,
            ReleaseError::InvalidVersion => "Invalid local Elsewhere package version"@,
            ReleaseError::InvalidDirectory => "Invalid local Elsewhere package directory"@,
        }
    }

    /// The text shown for the error.
    pub fn message(&self) -> (r: &'static str)
        ensures
            r@ == self.message_spec(),
    {
        match self {
            ReleaseError::UnsupportedDistribution => "Unsupported session distribution",
            ReleaseError::UnsupportedArchitecture => "Release packages currently support only x86_64 Docker hosts",
            ReleaseError::InvalidVersion => "Invalid local Elsewhere package version",
            ReleaseError::InvalidDirectory => "Invalid local Elsewhere package directory",
        }
    }
}

/// The package file of release `version` for Arch Linux.
pub open spec fn arch_asset(version: Seq<char>) -> Seq<char> {
    "elsewhere-"@ + version + "-1-x86_64.pkg.tar.zst"@
}

/// The package file of release `version` for Debian 13.
pub open spec fn debian_asset(version: Seq<char>) -> Seq<char> {
    "elsewhere_"@ + version + "-1_debian-13_amd64.deb"@
}

/// The package file of release `version` for Ubuntu 26.04.
pub open spec fn ubuntu_asset(version: Seq<char>) -> Seq<char> {
    "elsewhere_"@ + version + "-1_ubuntu-26.04_amd64.deb"@
}

/// The base image and package file of a distribution.
pub open spec fn distribution_assets_spec(distribution: Seq<char>, version: Seq<char>) -> Result<(Seq<char>, Seq<char>), ReleaseError> {
    if distribution == "arch"@ {
        Ok(("archlinux:base"@, arch_asset(version)))
    } else if distribution == "debian"@ {
        Ok(("debian:13-slim"@, debian_asset(version)))
    } else if distribution == "ubuntu"@ {
        Ok(("ubuntu:26.04"@, ubuntu_asset(version)))
    } else {
        Err(ReleaseError::UnsupportedDistribution)
    }
}

/// The package file of `version` for the distribution named `tail`.
fn asset_name(head: &str, version: &str, tail: &str) -> (r: String)
    ensures
        r@ == head@ + version@ + tail@,
{
    let mut out: Vec<char> = Vec::new();
    push_str(&mut out, head);
    push_str(&mut out, version);
    push_str(&mut out, tail);
    string_from(out.as_slice())
}

/// The base image and release package file of a session's distribution.
pub fn distribution_assets(distribution: &str, version: &str) -> (r: Result<(&'static str, String), ReleaseError>)
    ensures
        match distribution_assets_spec(distribution@, version@) {
            Ok((image, asset)) => r matches Ok((i, a)) && i@ == image && a@ == asset,
            Err(e) => r == Err::<(&'static str, String), ReleaseError>(e),
        },
{
    let d = chars_of(distribution);
    let arch = chars_of("arch");
    let debian = chars_of("debian");
    let ubuntu = chars_of("ubuntu");
    if chars_eq(d.as_slice(), arch.as_slice()) {
        Ok(("archlinux:base", asset_name("elsewhere-", version, "-1-x86_64.pkg.tar.zst")))
    } else if chars_eq(d.as_slice(), debian.as_slice()) {
        Ok(("debian:13-slim", asset_name("elsewhere_", version, "-1_debian-13_amd64.deb")))
    } else if chars_eq(d.as_slice(), ubuntu.as_slice()) {
        Ok(("ubuntu:26.04", asset_name("elsewhere_", version, "-1_ubuntu-26.04_amd64.deb")))
    } else {
        Err(ReleaseError::UnsupportedDistribution)
    }
}

/// The three package files of a release, Arch, Debian and Ubuntu.
pub fn release_assets(version: &str) -> (r: Vec<String>)
    ensures
        r@.len() == 3,
        r@[0]@ == arch_asset(version@),
        r@[1]@ == debian_asset(version@),
        r@[2]@ == ubuntu_asset(version@),
{
    let mut out: Vec<String> = Vec::new();
    out.push(asset_name("elsewhere-", version, "-1-x86_64.pkg.tar.zst"));
    out.push(asset_name("elsewhere_", version, "-1_debian-13_amd64.deb"));
    out.push(asset_name("elsewhere_", version, "-1_ubuntu-26.04_amd64.deb"));
    out
}

/// Where a release package is downloaded from.
pub fn release_url(version: &str, asset: &str) -> (r: String)
    ensures
        r@ == "https://github.com/ryanpetris/elsewhere/releases/download/v"@ + version@ + "/"@ + asset@,
{
    let mut out: Vec<char> = Vec::new();
    push_str(&mut out, "https://github.com/ryanpetris/elsewhere/releases/download/v");
    push_str(&mut out, version);
    push_str(&mut out, "/");
    push_str(&mut out, asset);
    string_from(out.as_slice())
}

/// The file name suffix of the package copied into a container.
pub fn package_suffix(distribution: &str) -> (r: &'static str)
    ensures
        r@ == if distribution@ == "arch"@ { "pkg.tar.zst"@ } else { "deb"@ },
{
    let d = chars_of(distribution);
    let arch = chars_of("arch");
    if chars_eq(d.as_slice(), arch.as_slice()) { "pkg.tar.zst" } else { "deb" }
}

/// The instruction for the session's installer: upgrade or create at an
/// attempt with a release, or only launch.
pub open spec fn operation_text_spec(upgrading: bool, new_container: bool, attempt_ms: u64, version: Seq<char>) -> Seq<char> {
    if upgrading {
        "upgrade "@ + text::decimal(attempt_ms as nat) + " "@ + version + "-1\n"@
    } else if new_container {
        "create "@ + text::decimal(attempt_ms as nat) + " "@ + version + "-1\n"@
    } else {
        "launch\n"@
    }
}

/// The instruction for the session's installer.
pub fn operation_text(upgrading: bool, new_container: bool, attempt_ms: u64, version: &str) -> (r: String)
    ensures
        r@ == operation_text_spec(upgrading, new_container, attempt_ms, version@),
{
    let mut out: Vec<char> = Vec::new();
    if upgrading || new_container {
        push_str(&mut out, if upgrading { "upgrade " } else { "create " });
        push_decimal(&mut out, attempt_ms);
        push_str(&mut out, " ");
        push_str(&mut out, version);
        push_str(&mut out, "-1\n");
    } else {
        push_str(&mut out, "launch\n");
    }
    string_from(out.as_slice())
}

/// `s` without leading whitespace.
pub open spec fn trim_start(s: Seq<char>) -> Seq<char>
    decreases s.len(),
{
    if s.len() > 0 && text::is_space(s[0]) {
        trim_start(s.drop_first())
    } else {
        s
    }
}

/// `s` without trailing whitespace.
pub open spec fn trim_end(s: Seq<char>) -> Seq<char>
    decreases s.len(),
{
    if s.len() > 0 && text::is_space(s.last()) {
        trim_end(s.drop_last())
    } else {
        s
    }
}

/// `s` without leading and trailing whitespace (`str::trim`).
pub open spec fn trim(s: Seq<char>) -> Seq<char> {
    trim_end(trim_start(s))
}

/// The Docker host's architecture, as `docker info` prints it, is x86-64.
pub open spec fn supported_architecture_spec(architecture: Seq<char>) -> bool {
    trim(architecture) == "x86_64"@ || trim(architecture) == "amd64"@
}

/// Leading whitespace comes off up to the first other character.
proof fn lemma_trim_start_spaces(w: Seq<char>, s: Seq<char>)
    requires
        text::blank(w),
        s.len() > 0,
        !text::is_space(s[0]),
    ensures
        trim_start(w + s) == s,
    decreases w.len(),
{
    if w.len() > 0 {
        assert((w + s).drop_first() =~= w.drop_first() + s);
        lemma_trim_start_spaces(w.drop_first(), s);
    } else {
        assert(w + s =~= s);
    }
}

/// Trailing whitespace comes off back to the last other character.
proof fn lemma_trim_end_spaces(s: Seq<char>, w: Seq<char>)
    requires
        text::blank(w),
        s.len() > 0,
        !text::is_space(s.last()),
    ensures
        trim_end(s + w) == s,
    decreases w.len(),
{
    if w.len() > 0 {
        assert((s + w).drop_last() =~= s + w.drop_last());
        lemma_trim_end_spaces(s, w.drop_last());
    } else {
        assert(s + w =~= s);
    }
}

/// The host is supported when Docker reports `x86_64` or `amd64`,
/// whatever whitespace surrounds it, and not when it reports `aarch64`.
pub proof fn x86_hosts_are_supported(before: Seq<char>, after: Seq<char>)
    requires
        text::blank(before),
        text::blank(after),
    ensures
        supported_architecture_spec(before + "x86_64"@ + after),
        supported_architecture_spec(before + "amd64"@ + after),
        !supported_architecture_spec(before + "aarch64"@ + after),
{
    reveal_strlit("x86_64");
    reveal_strlit("amd64");
    reveal_strlit("aarch64");
    let a = "x86_64"@;
    let b = "amd64"@;
    let c = "aarch64"@;
    lemma_trim_start_spaces(before, a + after);
    assert(before + a + after =~= before + (a + after));
    lemma_trim_end_spaces(a, after);
    lemma_trim_start_spaces(before, b + after);
    assert(before + b + after =~= before + (b + after));
    lemma_trim_end_spaces(b, after);
    lemma_trim_start_spaces(before, c + after);
    assert(before + c + after =~= before + (c + after));
    lemma_trim_end_spaces(c, after);
    assert(c.len() != a.len());
    assert(c.len() != b.len());
}

/// `s` without leading and trailing whitespace.
pub fn trim_chars(s: &[char]) -> (r: Vec<char>)
    ensures
        r@ == trim(s@),
{
    let mut a: usize = 0;
    assert(s@.skip(0) =~= s@);
    while a < s.len() && text::is_space_char(s[a])
        invariant
            a <= s.len(),
            trim_start(s@) == trim_start(s@.skip(a as int)),
        decreases s.len() - a,
    {
        assert(s@.skip(a as int).drop_first() =~= s@.skip(a + 1));
        a += 1;
    }
    let ghost front = s@.skip(a as int);
    assert(trim_start(front) == front);
    let mut b: usize = s.len();
    assert(s@.subrange(a as int, b as int) =~= front);
    while b > a && text::is_space_char(s[b - 1])
        invariant
            a <= b <= s.len(),
            trim_end(front) == trim_end(s@.subrange(a as int, b as int)),
        decreases b,
    {
        assert(s@.subrange(a as int, b as int).drop_last() =~= s@.subrange(a as int, b - 1));
        b -= 1;
    }
    copy_range(s, a, b)
}

/// Whether the Docker host's architecture is x86-64.
pub fn supported_architecture(architecture: &str) -> (r: bool)
    ensures
        r == supported_architecture_spec(architecture@),
{
    let all = chars_of(architecture);
    let t = trim_chars(all.as_slice());
    let x86 = chars_of("x86_64");
    let amd = chars_of("amd64");
    chars_eq(t.as_slice(), x86.as_slice()) || chars_eq(t.as_slice(), amd.as_slice())
}


// ---------------------------------------------------------------------------
// Prepared session images
// ---------------------------------------------------------------------------

/// The SHA-256 digest of `data`, as the `sha2` crate computes it.
pub uninterp spec fn sha256(data: Seq<u8>) -> Seq<u8>;

/// `sha2::Sha256::digest`: the 32-byte SHA-256 digest of `data`.
#[verifier::external_body]
fn sha256_digest(data: &[u8]) -> (r: Vec<u8>)
    ensures
        r@ == sha256(data@),
        r@.len() == 32,
{
    sha2::Sha256::digest(data).to_vec()
}

/// The lowercase hexadecimal digit for `d`, for `0 <= d < 16`.
pub open spec fn hex_digit(d: int) -> char {
    if d < 10 { (d + 48) as char } else { (d + 87) as char }
}

/// `bytes` in lowercase hexadecimal, two digits per byte.
pub open spec fn hex(bytes: Seq<u8>) -> Seq<char>
    decreases bytes.len(),
{
    if bytes.len() == 0 {
        Seq::empty()
    } else {
        hex(bytes.drop_last()) + seq![hex_digit(bytes.last() as int / 16), hex_digit(bytes.last() as int % 16)]
    }
}

/// The hex digit character for `d < 16`.
fn hex_char(d: u8) -> (c: char)
    requires
        d < 16,
    ensures
        c == hex_digit(d as int),
{
    if d < 10 { (d + 48) as char } else { (d + 87) as char }
}

/// Appends `bytes` in lowercase hexadecimal to `out`.
fn push_hex(out: &mut Vec<char>, bytes: &[u8])
    ensures
        final(out)@ == old(out)@ + hex(bytes@),
{
    let ghost start = out@;
    let mut i: usize = 0;
    while i < bytes.len()
        invariant
            i <= bytes.len(),
            out@ == start + hex(bytes@.take(i as int)),
        decreases bytes.len() - i,
    {
        let b = bytes[i];
        out.push(hex_char(b / 16));
        out.push(hex_char(b % 16));
        assert(bytes@.take(i + 1).drop_last() =~= bytes@.take(i as int));
        assert(out@ =~= start + hex(bytes@.take(i + 1)));
        i += 1;
    }
    assert(bytes@.take(i as int) =~= bytes@);
}

/// The image prepared for NVIDIA sessions of a distribution: named after the
/// digest of its base image name, its Dockerfile and its setup script.
pub open spec fn prepared_image_spec(distribution: Seq<char>, base_image: Seq<char>, dockerfile: Seq<u8>, setup: Seq<u8>) -> Seq<char> {
    "innkeeper-session-"@ + distribution + ":"@ + hex(sha256(vstd::utf8::encode_utf8(base_image) + dockerfile + setup))
}

/// The image prepared for NVIDIA sessions of a distribution.
pub fn prepared_image(distribution: &str, base_image: &str, dockerfile: &[u8], setup: &[u8]) -> (r: String)
    ensures
        r@ == prepared_image_spec(distribution@, base_image@, dockerfile@, setup@),
{
    let mut data: Vec<u8> = Vec::new();
    let b = base_image.as_bytes();
    let mut i: usize = 0;
    while i < b.len()
        invariant
            i <= b.len(),
            data@ == b@.take(i as int),
        decreases b.len() - i,
    {
        data.push(b[i]);
        assert(b@.take(i + 1) =~= b@.take(i as int).push(b@[i as int]));
        i += 1;
    }
    assert(b@.take(i as int) =~= b@);
    let ghost with_base = data@;
    let mut j: usize = 0;
    while j < dockerfile.len()
        invariant
            j <= dockerfile.len(),
            data@ == with_base + dockerfile@.take(j as int),
        decreases dockerfile.len() - j,
    {
        data.push(dockerfile[j]);
        assert(dockerfile@.take(j + 1) =~= dockerfile@.take(j as int).push(dockerfile@[j as int]));
        j += 1;
    }
    assert(dockerfile@.take(j as int) =~= dockerfile@);
    let ghost with_dockerfile = data@;
    let mut k: usize = 0;
    while k < setup.len()
        invariant
            k <= setup.len(),
            data@ == with_dockerfile + setup@.take(k as int),
        decreases setup.len() - k,
    {
        data.push(setup[k]);
        assert(setup@.take(k + 1) =~= setup@.take(k as int).push(setup@[k as int]));
        k += 1;
    }
    assert(setup@.take(k as int) =~= setup@);
    let digest = sha256_digest(data.as_slice());
    let mut out: Vec<char> = Vec::new();
    push_str(&mut out, "innkeeper-session-");
    push_str(&mut out, distribution);
    push_str(&mut out, ":");
    push_hex(&mut out, digest.as_slice());
    string_from(out.as_slice())
}

// ---------------------------------------------------------------------------
// Local package directories
// ---------------------------------------------------------------------------

/// `s` without the suffix `p`, if `s` ends with `p`.
pub open spec fn strip_suffix(s: Seq<char>, p: Seq<char>) -> Option<Seq<char>> {
    if p.len() <= s.len() && s.skip(s.len() - p.len()) == p {
        Some(s.take(s.len() - p.len()))
    } else {
        None
    }
}

/// A local release version without its `.dirty` suffix.
pub open spec fn version_base(version: Seq<char>) -> Seq<char> {
    match strip_suffix(version, ".dirty"@) {
        Some(b) => b,
        None => version,
    }
}

/// A nonempty run of digits.
pub open spec fn version_part(p: Seq<char>) -> bool {
    p.len() > 0 && text::all_digits(p)
}

/// A local release version: at least three nonempty runs of digits joined
/// by dots, optionally followed by `.dirty`.
pub open spec fn valid_local_version(version: Seq<char>) -> bool {
    &&& text::split(version_base(version), "."@).len() >= 3
    &&& forall|i: int| 0 <= i < text::split(version_base(version), "."@).len()
        ==> #[trigger] version_part(text::split(version_base(version), "."@)[i])
}

/// A character allowed in a local build directory's name.
pub open spec fn directory_char(c: char) -> bool {
    text::is_alnum(c) || c == '-' || c == '_'
}

/// A local build directory is named `build-` followed by letters, digits,
/// `-` and `_`.
pub open spec fn valid_local_directory(directory: Seq<char>) -> bool {
    &&& text::strip_prefix(directory, "build-"@) is Some
    &&& forall|i: int| 0 <= i < directory.len() ==> directory_char(directory[i])
}

/// A local package manifest that passes its checks names no path outside
/// its directory: the version holds no `/`, and the directory name holds
/// neither `/` nor `.`, so package paths built from them stay inside the
/// manifest's own `build-` directory.
pub proof fn local_paths_stay_inside(version: Seq<char>, directory: Seq<char>)
    requires
        valid_local_version(version),
        valid_local_directory(directory),
    ensures
        forall|k: int| 0 <= k < version.len() ==> version[k] != '/',
        forall|k: int| 0 <= k < directory.len() ==> directory[k] != '/' && directory[k] != '.',
{
    reveal_strlit(".");
    reveal_strlit(".dirty");
    let base = version_base(version);
    let parts = text::split(base, "."@);
    assert("."@ =~= seq!['.']);
    assert forall|k: int| 0 <= k < base.len() implies base[k] != '/' by {
        if base[k] != '.' {
            text::lemma_split_covers(base, '.', k);
            let (a, b) = choose|a: int, b: int|
                0 <= a < text::split(base, seq!['.']).len() && 0 <= b < text::split(base, seq!['.'])[a].len()
                    && #[trigger] text::split(base, seq!['.'])[a][b] == base[k];
            assert(version_part(parts[a]));
            assert(text::is_digit(parts[a][b]));
        }
    }
    assert forall|k: int| 0 <= k < version.len() implies version[k] != '/' by {
        match strip_suffix(version, ".dirty"@) {
            Some(b) => {
                if k < b.len() {
                    assert(b[k] == version[k]);
                } else {
                    assert(version.skip(version.len() - 6)[k - b.len()] == version[k]);
                }
            },
            None => {},
        }
    }
    assert forall|k: int| 0 <= k < directory.len() implies directory[k] != '/' && directory[k] != '.' by {
        assert(directory_char(directory[k]));
    }
}

/// A run of ASCII digits.
pub open spec fn digit_run(p: Seq<char>) -> bool {
    p.len() > 0 && forall|i: int| 0 <= i < p.len() ==> '0' <= #[trigger] p[i] <= '9'
}

/// A local release version of three runs of digits joined by dots is
/// accepted, with or without `.dirty` after it; one of only two runs is
/// refused.
pub proof fn local_versions_accepted(x: Seq<char>, y: Seq<char>, z: Seq<char>)
    requires
        digit_run(x),
        digit_run(y),
        digit_run(z),
    ensures
        valid_local_version(x + "."@ + y + "."@ + z),
        valid_local_version(x + "."@ + y + "."@ + z + ".dirty"@),
        !valid_local_version(x + "."@ + y),
{
    reveal_strlit(".");
    reveal_strlit(".dirty");
    let dot = "."@;
    assert(dot =~= seq!['.']);
    let v = x + dot + y + dot + z;
    let w = v + ".dirty"@;
    let u = x + dot + y;
    text::lemma_split_char(z, Seq::empty(), '.');
    text::lemma_split_char(y, z, '.');
    assert(y + dot + z =~= y + seq!['.'] + z);
    text::lemma_split_char(x, y + dot + z, '.');
    assert(v =~= x + seq!['.'] + (y + dot + z));
    text::lemma_split_char(x, y, '.');
    assert(u =~= x + seq!['.'] + y);
    // Neither `v` nor `u` ends with `.dirty`: they end with a digit.
    assert(v.last() == z.last());
    assert(u.last() == y.last());
    if 6 <= v.len() {
        assert(v.skip(v.len() - 6).last() == v.last());
        assert(".dirty"@.last() == 'y');
    }
    if 6 <= u.len() {
        assert(u.skip(u.len() - 6).last() == u.last());
    }
    assert(version_base(v) == v);
    assert(version_base(u) == u);
    assert(w.skip(w.len() - 6) =~= ".dirty"@);
    assert(w.take(w.len() - 6) =~= v);
    assert(version_base(w) == v);
    let ps = text::split(v, dot);
    assert(ps =~= seq![x, y, z]);
    assert(text::split(u, dot) =~= seq![x, y]);
    assert forall|i: int| 0 <= i < ps.len() implies #[trigger] version_part(ps[i]) by {
        assert(ps[i] == x || ps[i] == y || ps[i] == z);
    }
}

/// A run of digits, nonempty./// A run of digits, nonempty.
fn digits_only(s: &[char]) -> (r: bool)
    ensures
        r == (s@.len() > 0 && text::all_digits(s@)),
{
    if s.len() == 0 {
        return false;
    }
    let mut i: usize = 0;
    while i < s.len()
        invariant
            i <= s.len(),
            forall|k: int| 0 <= k < i ==> text::is_digit(s@[k]),
        decreases s.len() - i,
    {
        if !('0' <= s[i] && s[i] <= '9') {
            return false;
        }
        i += 1;
    }
    true
}

/// Checks the version and directory named by a local package manifest.
pub fn check_local_manifest(version: &str, directory: &str) -> (r: Result<(), ReleaseError>)
    ensures
        r == if !valid_local_version(version@) {
            Err(ReleaseError::InvalidVersion)
        } else if !valid_local_directory(directory@) {
            Err(ReleaseError::InvalidDirectory)
        } else {
            Ok(())
        },
{
    let v = chars_of(version);
    let dirty = chars_of(".dirty");
    let base = if dirty.len() <= v.len() && text::matches_at(v.as_slice(), dirty.as_slice(), v.len() - dirty.len()) {
        assert(v@.subrange(v@.len() - dirty@.len(), v@.len() as int) =~= v@.skip(v@.len() - dirty@.len()));
        copy_range(v.as_slice(), 0, v.len() - dirty.len())
    } else {
        proof {
            if dirty@.len() <= v@.len() {
                assert(v@.subrange(v@.len() - dirty@.len(), v@.len() as int) =~= v@.skip(v@.len() - dirty@.len()));
            }
        }
        v.clone()
    };
    let dot = chars_of(".");
    let parts = text::split_chars(base.as_slice(), dot.as_slice());
    let ghost ps = text::split(base@, "."@);
    assert(base@ == version_base(version@));
    if parts.len() < 3 {
        return Err(ReleaseError::InvalidVersion);
    }
    let mut i: usize = 0;
    while i < parts.len()
        invariant
            i <= parts.len(),
            text::views(parts@) == ps,
            ps == text::split(version_base(version@), "."@),
            forall|k: int| 0 <= k < i ==> #[trigger] version_part(ps[k]),
        decreases parts.len() - i,
    {
        assert(ps[i as int] == parts@[i as int]@);
        if !digits_only(parts[i].as_slice()) {
            assert(!version_part(ps[i as int]));
            return Err(ReleaseError::InvalidVersion);
        }
        i += 1;
    }
    let d = chars_of(directory);
    let prefix = chars_of("build-");
    if text::strip_prefix_chars(d.as_slice(), prefix.as_slice()).is_none() {
        return Err(ReleaseError::InvalidDirectory);
    }
    let mut k: usize = 0;
    while k < d.len()
        invariant
            k <= d.len(),
            d@ == directory@,
            valid_local_version(version@),
            forall|m: int| 0 <= m < k ==> directory_char(d@[m]),
        decreases d.len() - k,
    {
        let c = d[k];
        if !(('0' <= c && c <= '9') || ('a' <= c && c <= 'z') || ('A' <= c && c <= 'Z') || c == '-' || c
            == '_') {
            return Err(ReleaseError::InvalidDirectory);
        }
        k += 1;
    }
    Ok(())
}

} // verus!
