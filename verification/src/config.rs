//! Names of Docker objects and the shell fragments copied into sessions.
use vstd::prelude::*;
use crate::gpu::Gpu;
use crate::text::{self, push_chars, push_decimal, push_str, string_from};
use crate::validation::ScreenSize;

verus! {

/// The Docker label that marks objects of this installation.
pub const LABEL: &'static str = "io.innkeeper.installation";

/// The container of session `id`.
pub fn container(id: &str) -> (r: String)
    ensures
        r@ == "innkeeper-"@ + id@,
{
    let mut out: Vec<char> = Vec::new();
    push_str(&mut out, "innkeeper-");
    push_str(&mut out, id);
    string_from(out.as_slice())
}

/// The data volume of session `id`.
pub fn volume(id: &str) -> (r: String)
    ensures
        r@ == "innkeeper-"@ + id@ + "-data"@,
{
    let mut out: Vec<char> = Vec::new();
    push_str(&mut out, "innkeeper-");
    push_str(&mut out, id);
    push_str(&mut out, "-data");
    string_from(out.as_slice())
}

/// The image tag of snapshot `snapshot` of session `id`.
pub fn tag(id: &str, snapshot: &str) -> (r: String)
    ensures
        r@ == "innkeeper-snapshot-"@ + id@ + ":"@ + snapshot@,
{
    let mut out: Vec<char> = Vec::new();
    push_str(&mut out, "innkeeper-snapshot-");
    push_str(&mut out, id);
    push_str(&mut out, ":");
    push_str(&mut out, snapshot);
    string_from(out.as_slice())
}

/// The shell settings that tell a session which GPU to use.
pub open spec fn gpu_config_spec(gpu: Option<crate::gpu::GpuView>) -> Seq<char> {
    match gpu {
        Some(g) => "export INNKEEPER_RENDER_NODE='"@ + g.node + "'\nexport INNKEEPER_GPU_ID='"@ + g.id
            + "'\nexport INNKEEPER_GPU_DRIVER='"@ + g.driver + "'\nexport INNKEEPER_GPU_DEVICE='"@
            + text::decimal(g.major as nat) + ":"@ + text::decimal(g.minor as nat) + "'\n"@,
        None => "export INNKEEPER_RENDER_NODE=none\nexport INNKEEPER_GPU_ID=''\nexport INNKEEPER_GPU_DRIVER=''\nexport INNKEEPER_GPU_DEVICE=''\n"@,
    }
}

/// The shell settings that tell a session which GPU to use.
pub fn gpu_config(gpu: Option<&Gpu>) -> (r: String)
    ensures
        r@ == gpu_config_spec(match gpu { Some(g) => Some(g@), None => None }),
{
    match gpu {
        Some(g) => {
            let mut out: Vec<char> = Vec::new();
            push_str(&mut out, "export INNKEEPER_RENDER_NODE='");
            push_str(&mut out, g.node.as_str());
            push_str(&mut out, "'\nexport INNKEEPER_GPU_ID='");
            push_str(&mut out, g.id.as_str());
            push_str(&mut out, "'\nexport INNKEEPER_GPU_DRIVER='");
            push_str(&mut out, g.driver.as_str());
            push_str(&mut out, "'\nexport INNKEEPER_GPU_DEVICE='");
            push_decimal(&mut out, g.major as u64);
            push_str(&mut out, ":");
            push_decimal(&mut out, g.minor as u64);
            push_str(&mut out, "'\n");
            string_from(out.as_slice())
        },
        None => {
            let mut out: Vec<char> = Vec::new();
            push_str(
                &mut out,
                "export INNKEEPER_RENDER_NODE=none\nexport INNKEEPER_GPU_ID=''\nexport INNKEEPER_GPU_DRIVER=''\nexport INNKEEPER_GPU_DEVICE=''\n",
            );
            string_from(out.as_slice())
        },
    }
}

/// How the desktop of a session starts.
pub struct LaunchSettings {
    pub software_encoding: bool,
    pub screen_size: Option<ScreenSize>,
    pub kiosk: bool,
    pub startup_command: String,
}

impl LaunchSettings {
    /// A copy of these settings.
    pub fn duplicate(&self) -> (r: LaunchSettings)
        ensures
            r.software_encoding == self.software_encoding,
            r.screen_size == self.screen_size,
            r.kiosk == self.kiosk,
            r.startup_command@ == self.startup_command@,
    {
        LaunchSettings {
            software_encoding: self.software_encoding,
            screen_size: self.screen_size,
            kiosk: self.kiosk,
            startup_command: self.startup_command.clone(),
        }
    }
}

/// The characters that stand for one character of a command inside single
/// quotes: a quote closes the quoting, adds a double-quoted quote, and
/// reopens it.
pub open spec fn quote_char(c: char) -> Seq<char> {
    if c == '\'' {
        seq!['\'', '"', '\'', '"', '\'']
    } else {
        seq![c]
    }
}

/// The command as it stands between single quotes in a shell file.
pub open spec fn quote_body(command: Seq<char>) -> Seq<char> {
    command.map_values(|c: char| quote_char(c)).flatten()
}

/// `1` for true, `0` for false.
pub open spec fn flag_text(b: bool) -> Seq<char> {
    if b { "1"@ } else { "0"@ }
}

/// The screen size as `WIDTHxHEIGHT`, or nothing.
pub open spec fn size_text(size: Option<ScreenSize>) -> Seq<char> {
    match size {
        Some(s) => text::decimal(s.width as nat) + "x"@ + text::decimal(s.height as nat),
        None => Seq::empty(),
    }
}

/// The shell settings for a session's desktop.
pub open spec fn launch_config_spec(s: &LaunchSettings) -> Seq<char> {
    "export INNKEEPER_SCREEN_SIZE='"@ + size_text(s.screen_size) + "'\nexport INNKEEPER_KIOSK='"@
        + flag_text(s.kiosk) + "'\nexport INNKEEPER_SOFTWARE_ENCODING='"@ + flag_text(
        s.software_encoding,
    ) + "'\nexport INNKEEPER_STARTUP_COMMAND='"@ + quote_body(s.startup_command@) + "'\n"@
}

/// Appends a boolean as `1` or `0`.
fn push_flag(out: &mut Vec<char>, b: bool)
    ensures
        final(out)@ == old(out)@ + flag_text(b),
{
    if b {
        push_str(out, "1");
    } else {
        push_str(out, "0");
    }
}

/// Appends the command as it stands between single quotes.
fn push_quoted(out: &mut Vec<char>, command: &str)
    ensures
        final(out)@ == old(out)@ + quote_body(command@),
{
    let cs = text::chars_of(command);
    let ghost start = out@;
    let ghost f = |c: char| quote_char(c);
    let mut i: usize = 0;
    while i < cs.len()
        invariant
            i <= cs.len(),
            cs@ == command@,
            f == (|c: char| quote_char(c)),
            out@ == start + cs@.take(i as int).map_values(f).flatten(),
        decreases cs.len() - i,
    {
        let c = cs[i];
        let ghost before = out@;
        if c == '\'' {
            push_str(out, "'\"'\"'");
            assert(out@ =~= before + quote_char(c)) by {
                reveal_strlit("'\"'\"'");
            }
        } else {
            out.push(c);
            assert(out@ =~= before + quote_char(c));
        }
        proof {
            assert(cs@.take(i + 1).map_values(f) =~= cs@.take(i as int).map_values(f).push(f(c)));
            cs@.take(i as int).map_values(f).lemma_flatten_push(f(c));
        }
        i += 1;
    }
    assert(cs@.take(i as int) =~= cs@);
}

/// The shell settings for a session's desktop.
pub fn launch_config(settings: &LaunchSettings) -> (r: String)
    ensures
        r@ == launch_config_spec(settings),
{
    let mut out: Vec<char> = Vec::new();
    push_str(&mut out, "export INNKEEPER_SCREEN_SIZE='");
    match settings.screen_size {
        Some(s) => {
            push_decimal(&mut out, s.width as u64);
            push_str(&mut out, "x");
            push_decimal(&mut out, s.height as u64);
        },
        None => {},
    }
    push_str(&mut out, "'\nexport INNKEEPER_KIOSK='");
    push_flag(&mut out, settings.kiosk);
    push_str(&mut out, "'\nexport INNKEEPER_SOFTWARE_ENCODING='");
    push_flag(&mut out, settings.software_encoding);
    push_str(&mut out, "'\nexport INNKEEPER_STARTUP_COMMAND='");
    push_quoted(&mut out, settings.startup_command.as_str());
    push_str(&mut out, "'\n");
    proof {
        assert(out@ =~= launch_config_spec(settings));
    }
    string_from(out.as_slice())
}


/// The settings file of a session's desktop: its launch settings, then the
/// address prefix of its proxy, its WebRTC port and its WebRTC address.
pub open spec fn launch_file_spec(s: &LaunchSettings, id: Seq<char>, port: u16, rtc_addr: Seq<char>) -> Seq<char> {
    launch_config_spec(s) + "export INNKEEPER_URL_PREFIX='/e/"@ + id + "'\nexport INNKEEPER_RTC_PORT="@
        + text::decimal(port as nat) + "\nexport INNKEEPER_RTC_ADDR='"@ + rtc_addr + "'\n"@
}

/// The settings file of a session's desktop.
pub fn launch_file(settings: &LaunchSettings, id: &str, port: u16, rtc_addr: &str) -> (r: String)
    ensures
        r@ == launch_file_spec(settings, id@, port, rtc_addr@),
{
    let mut out: Vec<char> = text::chars_of(launch_config(settings).as_str());
    push_str(&mut out, "export INNKEEPER_URL_PREFIX='/e/");
    push_str(&mut out, id);
    push_str(&mut out, "'\nexport INNKEEPER_RTC_PORT=");
    push_decimal(&mut out, port as u64);
    push_str(&mut out, "\nexport INNKEEPER_RTC_ADDR='");
    push_str(&mut out, rtc_addr);
    push_str(&mut out, "'\n");
    string_from(out.as_slice())
}

/// The packages a session asks for, one per line.
pub fn package_list(packages: &[String]) -> (r: String)
    ensures
        r@ == crate::api::join(crate::validation::string_views(packages@), "\n"@),
{
    let ghost ps = crate::validation::string_views(packages@);
    let mut out: Vec<char> = Vec::new();
    let mut i: usize = 0;
    while i < packages.len()
        invariant
            i <= packages.len(),
            ps == crate::validation::string_views(packages@),
            out@ == crate::api::join(ps.take(i as int), "\n"@),
        decreases packages.len() - i,
    {
        assert(ps[i as int] == packages@[i as int]@);
        assert(ps.take(i + 1).drop_last() =~= ps.take(i as int));
        if i > 0 {
            push_str(&mut out, "\n");
        } else {
            assert(ps.take(0) =~= Seq::<Seq<char>>::empty());
        }
        push_str(&mut out, packages[i].as_str());
        assert(out@ =~= crate::api::join(ps.take(i + 1), "\n"@));
        i += 1;
    }
    assert(ps.take(i as int) =~= ps);
    string_from(out.as_slice())
}

/// Where a POSIX shell stands while reading a word.
pub enum QuoteMode {
    Bare,
    Single,
    Double,
}

/// The text a shell reads from `s` when `s` is made only of single-quoted
/// and double-quoted parts (double-quoted parts without `\`, `$` or `` ` ``);
/// `None` for anything else, such as an unterminated quote.
pub open spec fn shell_quoted(s: Seq<char>, mode: QuoteMode) -> Option<Seq<char>>
    decreases s.len(),
{
    if s.len() == 0 {
        match mode {
            QuoteMode::Bare => Some(Seq::empty()),
            _ => None,
        }
    } else {
        let c = s[0];
        let rest = s.drop_first();
        match mode {
            QuoteMode::Bare => if c == '\'' {
                shell_quoted(rest, QuoteMode::Single)
            } else if c == '"' {
                shell_quoted(rest, QuoteMode::Double)
            } else {
                None
            },
            QuoteMode::Single => if c == '\'' {
                shell_quoted(rest, QuoteMode::Bare)
            } else {
                match shell_quoted(rest, QuoteMode::Single) {
                    Some(t) => Some(seq![c] + t),
                    None => None,
                }
            },
            QuoteMode::Double => if c == '"' {
                shell_quoted(rest, QuoteMode::Bare)
            } else if c == '\\' || c == '$' || c == '`' {
                None
            } else {
                match shell_quoted(rest, QuoteMode::Double) {
                    Some(t) => Some(seq![c] + t),
                    None => None,
                }
            },
        }
    }
}

/// Reading the quoted body followed by the closing quote, inside single
/// quotes, gives back the command.
proof fn lemma_quote_body_reads_back(command: Seq<char>)
    ensures
        shell_quoted(quote_body(command) + seq!['\''], QuoteMode::Single) == Some(command),
    decreases command.len(),
{
    let f = |c: char| quote_char(c);
    if command.len() == 0 {
        assert(quote_body(command) =~= Seq::<char>::empty());
        assert(quote_body(command) + seq!['\''] =~= seq!['\'']);
        assert(seq!['\''].drop_first() =~= Seq::<char>::empty());
        assert(command =~= Seq::<char>::empty());
        assert(shell_quoted(seq!['\''], QuoteMode::Single) == shell_quoted(Seq::<char>::empty(), QuoteMode::Bare));
    } else {
        let c = command[0];
        let rest = command.drop_first();
        lemma_quote_body_reads_back(rest);
        assert(command.map_values(f).drop_first() =~= rest.map_values(f));
        assert(quote_body(command) == quote_char(c) + quote_body(rest));
        let tail = quote_body(rest) + seq!['\''];
        let whole = quote_body(command) + seq!['\''];
        assert(whole =~= quote_char(c) + tail);
        if c == '\'' {
            let w1 = whole.drop_first();
            let w2 = w1.drop_first();
            let w3 = w2.drop_first();
            let w4 = w3.drop_first();
            assert(w4 =~= seq!['\''] + tail);
            assert(w4.drop_first() =~= tail);
            assert(w1 =~= seq!['"', '\'', '"', '\''] + tail);
            assert(w2 =~= seq!['\'', '"', '\''] + tail);
            assert(w3 =~= seq!['"', '\''] + tail);
            assert(shell_quoted(w4, QuoteMode::Bare) == shell_quoted(tail, QuoteMode::Single));
            assert(shell_quoted(w3, QuoteMode::Double) == shell_quoted(w4, QuoteMode::Bare));
            assert(shell_quoted(w3, QuoteMode::Double) == Some(rest));
            assert(shell_quoted(w2, QuoteMode::Double) == Some(seq!['\''] + rest));
            assert(shell_quoted(w1, QuoteMode::Bare) == shell_quoted(w2, QuoteMode::Double));
            assert(shell_quoted(whole, QuoteMode::Single) == shell_quoted(w1, QuoteMode::Bare));
            assert(seq!['\''] + rest =~= command);
        } else {
            assert(whole.drop_first() =~= tail);
            assert(seq![c] + rest =~= command);
        }
    }
}

/// The shell reads the startup command back exactly from the quoted text
/// that `launch_config` writes: no command can end the quoting early.
pub proof fn startup_command_round_trips(command: Seq<char>)
    ensures
        shell_quoted(seq!['\''] + quote_body(command) + seq!['\''], QuoteMode::Bare) == Some(command),
{
    lemma_quote_body_reads_back(command);
    let whole = seq!['\''] + quote_body(command) + seq!['\''];
    assert(whole.drop_first() =~= quote_body(command) + seq!['\'']);
}

} // verus!
