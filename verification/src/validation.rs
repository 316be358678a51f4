//! Checks on what users submit: session names, screen sizes, startup
//! commands, package names and extra Docker options.
use vstd::prelude::*;
use vstd::string::StringSliceAdditionalSpecFns;
use crate::text::{self, chars_eq, chars_of, is_blank, split_once_chars};

verus! {

/// Why submitted session settings were refused.
#[derive(PartialEq, Eq, Structural, Debug, Clone, Copy)]
pub enum InputError {
    /// The name is blank or longer than 80 characters.
    Name,
    /// A screen dimension is odd or outside 2–8192.
    ScreenSize,
    /// The startup command is over 4096 bytes or holds a NUL.
    Command,
    /// Over 100 packages, or a package name that is not allowed.
    Packages,
    /// Over 64 Docker options or over 4096 bytes of them.
    DockerLimits,
    /// A Docker option that is not one `--flag=value` entry.
    DockerFormat,
    /// A Docker option other than `--security-opt`, `--cap-add`, `--cap-drop`.
    DockerFlag,
    /// A Docker option value that is blank or holds NUL or a line break.
    DockerValue,
    /// An unknown distribution, or a name or packages that are not allowed.
    Create,
}

impl InputError {
    /// The text shown for the error.
    pub open spec fn message_spec(self) -> Seq<char> {
        match self {
            InputError::Name => "Choose a name of 1–80 characters."@,
            InputError::ScreenSize => "Screen dimensions must be even numbers between 2 and 8192."@,
            InputError::Command => "Startup command must be at most 4096 bytes and contain no NUL characters."@,
            InputError::Packages => "Choose up to 100 valid package names. Shell syntax and options are not allowed."@,
            InputError::DockerLimits => "Docker options allow at most 64 arguments and 4096 bytes in total."@,
            InputError::DockerFormat => "Use one complete --flag=value Docker option per entry."@,
            InputError::DockerFlag => "Supported Docker options are --security-opt, --cap-add, and --cap-drop."@,
            InputError::DockerValue => "Docker option values must be nonempty and contain no NUL characters or line breaks."@,
            InputError::Create => "Choose Arch, Debian or Ubuntu, a name of 1–80 characters, and up to 100 valid package names. Shell syntax and options are not allowed."@,
        }
    }

    /// The text shown for the error.
    pub fn message(&self) -> (r: &'static str)
        ensures
            r@ == self.message_spec(),
    {
        match self {
            InputError::Name => "Choose a name of 1–80 characters.",
            InputError::ScreenSize => "Screen dimensions must be even numbers between 2 and 8192.",
            InputError::Command => "Startup command must be at most 4096 bytes and contain no NUL characters.",
            InputError::Packages => "Choose up to 100 valid package names. Shell syntax and options are not allowed.",
            InputError::DockerLimits => "Docker options allow at most 64 arguments and 4096 bytes in total.",
            InputError::DockerFormat => "Use one complete --flag=value Docker option per entry.",
            InputError::DockerFlag => "Supported Docker options are --security-opt, --cap-add, and --cap-drop.",
            InputError::DockerValue => "Docker option values must be nonempty and contain no NUL characters or line breaks.",
            InputError::Create => "Choose Arch, Debian or Ubuntu, a name of 1–80 characters, and up to 100 valid package names. Shell syntax and options are not allowed.",
        }
    }
}

// ---------------------------------------------------------------------------
// Screen sizes
// ---------------------------------------------------------------------------

/// A desktop resolution in pixels.
#[derive(Clone, Copy, Debug, PartialEq, Eq, Structural)]
pub struct ScreenSize {
    pub width: u32,
    pub height: u32,
}

/// A screen dimension is an even number from 2 to 8192.
pub open spec fn valid_dimension(n: u32) -> bool {
    2 <= n <= 8192 && n % 2 == 0
}

impl ScreenSize {
    /// Both dimensions are even numbers from 2 to 8192.
    pub fn valid(self) -> (r: bool)
        ensures
            r == (valid_dimension(self.width) && valid_dimension(self.height)),
    {
        2 <= self.width && self.width <= 8192 && self.width % 2 == 0 && 2 <= self.height
            && self.height <= 8192 && self.height % 2 == 0
    }
}

// ---------------------------------------------------------------------------
// Names, commands and settings
// ---------------------------------------------------------------------------

/// A session name is not blank and has at most 80 characters.
pub open spec fn valid_name(name: Seq<char>) -> bool {
    !text::blank(name) && name.len() <= 80
}

/// The settings check: name, then screen size, then startup command (at
/// most 4096 bytes, no NUL).
pub open spec fn settings_check(name: Seq<char>, screen_size: Option<ScreenSize>, command: Seq<char>) -> Result<(), InputError> {
    if !valid_name(name) {
        Err(InputError::Name)
    } else if screen_size matches Some(s) && !(valid_dimension(s.width) && valid_dimension(s.height)) {
        Err(InputError::ScreenSize)
    } else if vstd::utf8::encode_utf8(command).len() > 4096 || command.contains('\0') {
        Err(InputError::Command)
    } else {
        Ok(())
    }
}

/// Settings pass their check exactly when the name has 1 to 80 characters
/// and is not all whitespace, a screen size (if given) has even dimensions
/// from 2 to 8192, and the startup command has at most 4096 bytes and no
/// NUL; a bad name is reported first.
pub proof fn settings_accepted_exactly(name: Seq<char>, screen_size: Option<ScreenSize>, command: Seq<char>)
    ensures
        settings_check(name, screen_size, command) is Ok <==> {
            &&& name.len() <= 80
            &&& exists|i: int| 0 <= i < name.len() && !text::is_space(#[trigger] name[i])
            &&& (screen_size matches Some(s) ==> 2 <= s.width <= 8192 && s.width % 2 == 0 && 2 <= s.height <= 8192
                && s.height % 2 == 0)
            &&& vstd::utf8::encode_utf8(command).len() <= 4096
            &&& forall|i: int| 0 <= i < command.len() ==> command[i] != '\0'
        },
        (name.len() > 80 || forall|i: int| 0 <= i < name.len() ==> text::is_space(#[trigger] name[i]))
            ==> settings_check(name, screen_size, command) == Err::<(), InputError>(InputError::Name),
{
}

/// Whether `s` holds the character `c`.
fn contains_char(s: &[char], c: char) -> (r: bool)
    ensures
        r == s@.contains(c),
{
    let mut i: usize = 0;
    while i < s.len()
        invariant
            i <= s.len(),
            forall|k: int| 0 <= k < i ==> s@[k] != c,
        decreases s.len() - i,
    {
        if s[i] == c {
            assert(s@[i as int] == c);
            return true;
        }
        i += 1;
    }
    false
}

/// Checks a session's name, screen size and startup command.
pub fn validate_settings(name: &str, screen_size: Option<ScreenSize>, command: &str) -> (r: Result<(), InputError>)
    ensures
        r == settings_check(name@, screen_size, command@),
{
    let n = chars_of(name);
    if is_blank(n.as_slice()) || n.len() > 80 {
        return Err(InputError::Name);
    }
    if let Some(size) = screen_size {
        if !size.valid() {
            return Err(InputError::ScreenSize);
        }
    }
    let c = chars_of(command);
    let bytes = command.as_bytes();
    assert(bytes@ == vstd::utf8::encode_utf8(command@));
    if bytes.len() > 4096 || contains_char(c.as_slice(), '\0') {
        return Err(InputError::Command);
    }
    Ok(())
}

// ---------------------------------------------------------------------------
// Package names
// ---------------------------------------------------------------------------

/// `b` is an ASCII letter or digit.
pub open spec fn alnum_byte(b: u8) -> bool {
    (48 <= b <= 57) || (65 <= b <= 90) || (97 <= b <= 122)
}

/// `b` may appear in a package name: a letter, a digit or one of `@._+:-`.
pub open spec fn package_byte(b: u8) -> bool {
    alnum_byte(b) || b == 64 || b == 46 || b == 95 || b == 43 || b == 58 || b == 45
}

/// A package name, as UTF-8 bytes: nonempty, at most 128 bytes, starting
/// with a letter or digit, not ending in `-`, and made only of letters,
/// digits and `@._+:-` (so no option, path or shell syntax).
pub open spec fn valid_package_spec(p: Seq<u8>) -> bool {
    &&& p.len() > 0
    &&& p.last() != 45
    &&& p.len() <= 128
    &&& alnum_byte(p[0])
    &&& forall|i: int| 0 <= i < p.len() ==> package_byte(p[i])
}

/// The bytes that carry meaning to a shell or a path: whitespace, quotes,
/// `;&|$<>()`, backquote, backslash, `/`, `=`, glob characters, `#`, `~`,
/// `!`, braces and brackets.
pub open spec fn shell_byte(b: u8) -> bool {
    b == 32 || b == 9 || b == 10 || b == 13 || b == 34 || b == 39 || b == 59 || b == 38 || b == 124
        || b == 36 || b == 60 || b == 62 || b == 40 || b == 41 || b == 96 || b == 92 || b == 47
        || b == 61 || b == 42 || b == 63 || b == 91 || b == 93 || b == 123 || b == 125 || b == 35
        || b == 126 || b == 33
}

/// An allowed package name is never read as an option (it does not start
/// with `-`) and holds no shell or path syntax.
pub proof fn valid_package_is_inert(p: Seq<u8>)
    requires
        valid_package_spec(p),
    ensures
        p[0] != 45,
        forall|i: int| 0 <= i < p.len() ==> !shell_byte(#[trigger] p[i]),
{
    assert forall|i: int| 0 <= i < p.len() implies !shell_byte(#[trigger] p[i]) by {
        assert(package_byte(p[i]));
    }
}

/// The allowed package names are exactly the nonempty names of at most 128
/// bytes that start with an ASCII letter or digit, do not end in `-`, and
/// hold only ASCII letters, digits and the characters `@`, `.`, `_`, `+`,
/// `:` and `-`.
pub proof fn package_names_allowed(p: Seq<u8>)
    ensures
        valid_package_spec(p) <==> {
            &&& 0 < p.len() <= 128
            &&& (48 <= p[0] <= 57 || 65 <= p[0] <= 90 || 97 <= p[0] <= 122)
            &&& p[p.len() - 1] != 45
            &&& forall|i: int|
                0 <= i < p.len() ==> {
                    let b = #[trigger] p[i];
                    ||| 48 <= b <= 57
                    ||| 65 <= b <= 90
                    ||| 97 <= b <= 122
                    ||| b == 64
                    ||| b == 46
                    ||| b == 95
                    ||| b == 43
                    ||| b == 58
                    ||| b == 45
                }
        },
{
}

/// Whether a package name is allowed.
pub fn valid_package(p: &str) -> (r: bool)
    ensures
        r == valid_package_spec(p.spec_bytes()),
{
    let b = p.as_bytes();
    if b.len() == 0 || b[b.len() - 1] == 45 || b.len() > 128 {
        return false;
    }
    let first = b[0];
    if !((48 <= first && first <= 57) || (65 <= first && first <= 90) || (97 <= first && first <= 122)) {
        return false;
    }
    let mut i: usize = 0;
    while i < b.len()
        invariant
            i <= b.len(),
            b@ == p.spec_bytes(),
            forall|k: int| 0 <= k < i ==> package_byte(b@[k]),
        decreases b.len() - i,
    {
        let c = b[i];
        let ok = (48 <= c && c <= 57) || (65 <= c && c <= 90) || (97 <= c && c <= 122) || c == 64
            || c == 46 || c == 95 || c == 43 || c == 58 || c == 45;
        if !ok {
            return false;
        }
        i += 1;
    }
    true
}

/// The views of a list of strings.
pub open spec fn string_views(s: Seq<String>) -> Seq<Seq<char>> {
    s.map_values(|x: String| x@)
}

/// Up to 100 packages, each with an allowed name.
pub open spec fn packages_ok(packages: Seq<String>) -> bool {
    packages.len() <= 100 && forall|i: int| 0 <= i < packages.len() ==> valid_package_spec(
        vstd::utf8::encode_utf8((#[trigger] packages[i])@),
    )
}

/// Whether every name in `packages` is allowed.
fn all_valid_packages(packages: &[String]) -> (r: bool)
    ensures
        r == forall|i: int| 0 <= i < packages@.len() ==> valid_package_spec(
            vstd::utf8::encode_utf8((#[trigger] packages@[i])@),
        ),
{
    let mut i: usize = 0;
    while i < packages.len()
        invariant
            i <= packages.len(),
            forall|k: int| 0 <= k < i ==> valid_package_spec(vstd::utf8::encode_utf8((#[trigger] packages@[k])@)),
        decreases packages.len() - i,
    {
        if !valid_package(packages[i].as_str()) {
            return false;
        }
        i += 1;
    }
    true
}

/// Checks a session's package list: at most 100 allowed names.
pub fn validate_packages(packages: &[String]) -> (r: Result<(), InputError>)
    ensures
        r is Ok <==> packages_ok(packages@),
        r is Err ==> r == Err::<(), InputError>(InputError::Packages),
{
    if packages.len() > 100 || !all_valid_packages(packages) {
        return Err(InputError::Packages);
    }
    Ok(())
}

/// A new session names Arch, Debian or Ubuntu, has a valid name and at most
/// 100 allowed packages.
pub open spec fn create_ok(distribution: Seq<char>, name: Seq<char>, packages: Seq<String>) -> bool {
    &&& (distribution == "arch"@ || distribution == "debian"@ || distribution == "ubuntu"@)
    &&& valid_name(name)
    &&& packages_ok(packages)
}

/// Checks the distribution, name and packages of a new session.
pub fn validate_create(distribution: &str, name: &str, packages: &[String]) -> (r: Result<(), InputError>)
    ensures
        r is Ok <==> create_ok(distribution@, name@, packages@),
        r is Err ==> r == Err::<(), InputError>(InputError::Create),
{
    let d = chars_of(distribution);
    let arch = chars_of("arch");
    let debian = chars_of("debian");
    let ubuntu = chars_of("ubuntu");
    let known = chars_eq(d.as_slice(), arch.as_slice()) || chars_eq(d.as_slice(), debian.as_slice())
        || chars_eq(d.as_slice(), ubuntu.as_slice());
    let n = chars_of(name);
    if !known || is_blank(n.as_slice()) || n.len() > 80 || packages.len() > 100 || !all_valid_packages(packages) {
        return Err(InputError::Create);
    }
    Ok(())
}


// ---------------------------------------------------------------------------
// Docker options
// ---------------------------------------------------------------------------

/// The number of UTF-8 bytes of `s`.
pub open spec fn byte_len(s: String) -> int {
    vstd::utf8::encode_utf8(s@).len() as int
}

/// The number of UTF-8 bytes of all strings in `s`.
pub open spec fn total_bytes(s: Seq<String>) -> int
    decreases s.len(),
{
    if s.len() == 0 {
        0
    } else {
        total_bytes(s.drop_last()) + byte_len(s.last())
    }
}

/// One Docker option: a complete `--flag=value` entry whose flag is
/// `--security-opt`, `--cap-add` or `--cap-drop`, whose value is not blank,
/// and which holds no NUL, carriage return or line feed.
pub open spec fn docker_arg_check(arg: Seq<char>) -> Result<(), InputError> {
    match text::split_once(arg, '=') {
        None => Err(InputError::DockerFormat),
        Some((flag, value)) => if !(flag == "--security-opt"@ || flag == "--cap-add"@ || flag
            == "--cap-drop"@) {
            Err(InputError::DockerFlag)
        } else if text::blank(value) || arg.contains('\0') || arg.contains('\r') || arg.contains(
            '\n',
        ) {
            Err(InputError::DockerValue)
        } else {
            Ok(())
        },
    }
}

/// The first Docker option that fails its check, in order.
pub open spec fn docker_scan(args: Seq<Seq<char>>) -> Result<(), InputError>
    decreases args.len(),
{
    if args.len() == 0 {
        Ok(())
    } else {
        match docker_arg_check(args[0]) {
            Err(e) => Err(e),
            Ok(()) => docker_scan(args.drop_first()),
        }
    }
}

/// At most 64 Docker options of at most 4096 bytes in all, each of which
/// passes its check.
pub open spec fn docker_args_check(args: Seq<String>) -> Result<(), InputError> {
    if args.len() > 64 || total_bytes(args) > 4096 {
        Err(InputError::DockerLimits)
    } else {
        docker_scan(string_views(args))
    }
}

/// The flag of an accepted Docker option is one of the supported ones.
pub open spec fn supported_option(arg: Seq<char>) -> bool {
    text::split_once(arg, '=') matches Some((flag, value)) && (flag == "--security-opt"@ || flag
        == "--cap-add"@ || flag == "--cap-drop"@) && !text::blank(value)
}

/// Options that pass the scan are each supported.
proof fn lemma_scan_supported(args: Seq<Seq<char>>)
    requires
        docker_scan(args) is Ok,
    ensures
        forall|i: int| 0 <= i < args.len() ==> #[trigger] supported_option(args[i]),
    decreases args.len(),
{
    if args.len() > 0 {
        lemma_scan_supported(args.drop_first());
        assert forall|i: int| 0 <= i < args.len() implies #[trigger] supported_option(args[i]) by {
            if i > 0 {
                assert(args[i] == args.drop_first()[i - 1]);
            }
        }
    }
}

/// Accepted Docker options only ever set a security option, add a
/// capability or drop one, each with a value that is not blank; at most 64
/// of them are accepted, of at most 4096 bytes in all.
pub proof fn accepted_docker_args_are_supported(args: Seq<String>)
    requires
        docker_args_check(args) is Ok,
    ensures
        args.len() <= 64,
        total_bytes(args) <= 4096,
        forall|i: int| 0 <= i < args.len() ==> #[trigger] supported_option(args[i]@),
{
    lemma_scan_supported(string_views(args));
    assert forall|i: int| 0 <= i < args.len() implies #[trigger] supported_option(args[i]@) by {
        assert(string_views(args)[i] == args[i]@);
    }
}

/// The scan accepts exactly the lists whose options each pass their check.
proof fn lemma_scan_all(args: Seq<Seq<char>>)
    ensures
        docker_scan(args) is Ok <==> forall|i: int| 0 <= i < args.len() ==> (#[trigger] docker_arg_check(args[i])) is Ok,
    decreases args.len(),
{
    if args.len() > 0 {
        lemma_scan_all(args.drop_first());
        if docker_scan(args) is Ok {
            assert forall|i: int| 0 <= i < args.len() implies (#[trigger] docker_arg_check(args[i])) is Ok by {
                if i > 0 {
                    assert(args[i] == args.drop_first()[i - 1]);
                }
            }
        }
        if forall|i: int| 0 <= i < args.len() ==> (#[trigger] docker_arg_check(args[i])) is Ok {
            assert(docker_arg_check(args[0]) is Ok);
            assert forall|i: int| 0 <= i < args.drop_first().len() implies (#[trigger] docker_arg_check(
                args.drop_first()[i],
            )) is Ok by {
                assert(args.drop_first()[i] == args[i + 1]);
            }
        }
    }
}

/// A list of Docker options is accepted exactly when it has at most 64
/// options of at most 4096 bytes in all, and each option is accepted on its
/// own.
pub proof fn docker_options_accepted_exactly(args: Seq<String>)
    ensures
        docker_args_check(args) is Ok <==> (args.len() <= 64 && total_bytes(args) <= 4096 && forall|i: int|
            0 <= i < args.len() ==> (#[trigger] docker_arg_check(args[i]@)) is Ok),
        args.len() > 64 ==> docker_args_check(args) == Err::<(), InputError>(InputError::DockerLimits),
{
    lemma_scan_all(string_views(args));
    if args.len() <= 64 && total_bytes(args) <= 4096 {
        assert forall|i: int| 0 <= i < args.len() implies (#[trigger] docker_arg_check(args[i]@)) is Ok
            == docker_arg_check(string_views(args)[i]) is Ok by {
            assert(string_views(args)[i] == args[i]@);
        }
        if forall|i: int| 0 <= i < args.len() ==> (#[trigger] docker_arg_check(args[i]@)) is Ok {
            assert forall|i: int| 0 <= i < string_views(args).len() implies (#[trigger] docker_arg_check(
                string_views(args)[i],
            )) is Ok by {
                assert(string_views(args)[i] == args[i]@);
            }
        }
    }
}

/// An option that sets a security option, adds a capability or drops one,
/// with a value that is not blank and holds no NUL, carriage return or line
/// feed, is accepted; any other flag is refused as such.
pub proof fn supported_docker_options_are_accepted(flag: Seq<char>, value: Seq<char>)
    requires
        forall|i: int| 0 <= i < flag.len() ==> flag[i] != '=',
    ensures
        (flag == "--security-opt"@ || flag == "--cap-add"@ || flag == "--cap-drop"@) && !text::blank(value)
            && !value.contains('\0') && !value.contains('\r') && !value.contains('\n') ==> docker_arg_check(
            flag + seq!['='] + value,
        ) == Ok::<(), InputError>(()),
        !(flag == "--security-opt"@ || flag == "--cap-add"@ || flag == "--cap-drop"@) ==> docker_arg_check(
            flag + seq!['='] + value,
        ) == Err::<(), InputError>(InputError::DockerFlag),
{
    let arg = flag + seq!['='] + value;
    let eq = seq!['='];
    let n = flag.len() as int;
    assert(arg.subrange(n, n + 1) =~= eq);
    assert forall|j: int| 0 <= j < n implies !text::occurs_at(arg, eq, j) by {
        if text::occurs_at(arg, eq, j) {
            assert(arg.subrange(j, j + 1)[0] == arg[j]);
        }
    }
    text::lemma_first_at_unique(arg, eq, n);
    assert(arg.take(n) =~= flag);
    assert(arg.skip(n + 1) =~= value);
    reveal_strlit("--security-opt");
    reveal_strlit("--cap-add");
    reveal_strlit("--cap-drop");
    if (flag == "--security-opt"@ || flag == "--cap-add"@ || flag == "--cap-drop"@) && !value.contains('\0')
        && !value.contains('\r') && !value.contains('\n') {
        assert forall|c: char| c == '\0' || c == '\r' || c == '\n' implies !arg.contains(c) by {
            if arg.contains(c) {
                let k = choose|k: int| 0 <= k < arg.len() && arg[k] == c;
                if k < n {
                    assert(arg[k] == flag[k]);
                } else if k > n {
                    assert(arg[k] == value[k - n - 1]);
                }
            }
        }
    }
}

/// Checks one Docker option.
fn check_docker_arg(arg: &str) -> (r: Result<(), InputError>)
    ensures
        r == docker_arg_check(arg@),
{
    let all = chars_of(arg);
    let (flag, value) = match split_once_chars(all.as_slice(), '=') {
        Some(parts) => parts,
        None => return Err(InputError::DockerFormat),
    };
    let security = chars_of("--security-opt");
    let add = chars_of("--cap-add");
    let drop = chars_of("--cap-drop");
    if !(chars_eq(flag.as_slice(), security.as_slice()) || chars_eq(flag.as_slice(), add.as_slice())
        || chars_eq(flag.as_slice(), drop.as_slice())) {
        return Err(InputError::DockerFlag);
    }
    if is_blank(value.as_slice()) || contains_char(all.as_slice(), '\0') || contains_char(
        all.as_slice(),
        '\r',
    ) || contains_char(all.as_slice(), '\n') {
        return Err(InputError::DockerValue);
    }
    Ok(())
}

/// Checks the extra Docker options of a session.
pub fn validate_docker_args(args: &[String]) -> (r: Result<(), InputError>)
    ensures
        r == docker_args_check(args@),
{
    if args.len() > 64 {
        return Err(InputError::DockerLimits);
    }
    let mut total: usize = 0;
    let mut i: usize = 0;
    while i < args.len()
        invariant
            i <= args.len() <= 64,
            total == total_bytes(args@.take(i as int)),
            total <= 4096,
        decreases args.len() - i,
    {
        let n = args[i].as_str().as_bytes().len();
        assert(args@.take(i + 1).drop_last() =~= args@.take(i as int));
        if n > 4096 - total {
            proof {
                lemma_total_bytes_prefix(args@, i + 1);
                assert(args@.take(args@.len() as int) =~= args@);
            }
            return Err(InputError::DockerLimits);
        }
        total = total + n;
        i += 1;
    }
    assert(args@.take(i as int) =~= args@);
    let ghost views = string_views(args@);
    let mut k: usize = 0;
    assert(views.skip(0) =~= views);
    while k < args.len()
        invariant
            k <= args.len(),
            views == string_views(args@),
            docker_args_check(args@) == docker_scan(views.skip(k as int)),
        decreases args.len() - k,
    {
        assert(views.skip(k as int)[0] == args@[k as int]@);
        assert(views.skip(k as int).drop_first() =~= views.skip(k + 1));
        let r = check_docker_arg(args[k].as_str());
        if r.is_err() {
            return r;
        }
        k += 1;
    }
    Ok(())
}

/// The bytes of a prefix never exceed the bytes of the whole.
proof fn lemma_total_bytes_prefix(s: Seq<String>, k: int)
    requires
        0 <= k <= s.len(),
    ensures
        total_bytes(s.take(k)) <= total_bytes(s),
    decreases s.len() - k,
{
    if k < s.len() {
        lemma_total_bytes_prefix(s, k + 1);
        assert(s.take(k + 1).drop_last() =~= s.take(k));
    } else {
        assert(s.take(k) =~= s);
    }
}

} // verus!
