//! What the web interface answers: error codes, static assets and the
//! limits on previews and logs.
use vstd::prelude::*;
use crate::text::{self, chars_eq, chars_of, copy_range, find_first_from, push_chars, split_chars, string_from};

verus! {

/// A refused request: the HTTP status code and the message for the user.
pub struct Error(pub u16, pub String);

/// The error code the interface receives for a status and message.
pub open spec fn error_code_spec(status: u16, message: Seq<char>) -> Seq<char> {
    if status == 400 {
        "invalid_input"@
    } else if status == 401 {
        "invalid_credentials"@
    } else if status == 403 {
        "forbidden"@
    } else if status == 404 {
        "not_found"@
    } else if status == 409 && message == "setup_complete"@ {
        "setup_complete"@
    } else if status == 409 {
        "conflict"@
    } else if status == 429 {
        "rate_limited"@
    } else if status == 503 {
        "unavailable"@
    } else {
        "internal_error"@
    }
}

impl Error {
    /// A failure whose details stay on the server.
    pub fn internal() -> (r: Error)
        ensures
            r.0 == 500,
            r.1@ == "Internal operation failed"@,
    {
        Error(500, "Internal operation failed".to_string())
    }

    /// The error code the interface receives.
    pub fn code(&self) -> (r: &'static str)
        ensures
            r@ == error_code_spec(self.0, self.1@),
    {
        let m = chars_of(self.1.as_str());
        let setup = chars_of("setup_complete");
        if self.0 == 400 {
            "invalid_input"
        } else if self.0 == 401 {
            "invalid_credentials"
        } else if self.0 == 403 {
            "forbidden"
        } else if self.0 == 404 {
            "not_found"
        } else if self.0 == 409 && chars_eq(m.as_slice(), setup.as_slice()) {
            "setup_complete"
        } else if self.0 == 409 {
            "conflict"
        } else if self.0 == 429 {
            "rate_limited"
        } else if self.0 == 503 {
            "unavailable"
        } else {
            "internal_error"
        }
    }

    /// The `Retry-After` header of the answer: a minute for rate limits.
    pub fn retry_after(&self) -> (r: Option<&'static str>)
        ensures
            r is Some <==> self.0 == 429,
            r matches Some(v) ==> v@ == "60"@,
    {
        if self.0 == 429 { Some("60") } else { None }
    }
}

/// A JSON request or response body.
pub struct Json<T>(pub T);

/// What a path outside the API serves.
#[derive(PartialEq, Eq, Structural, Debug, Clone, Copy)]
pub enum Asset {
    Script,
    Stylesheet,
    /// The interface's document, which routes every in-app address.
    Document,
    NotFound,
}

impl Asset {
    /// The content type an asset is served with; nothing is served for a
    /// path that is not found.
    pub fn content_type(self) -> (r: Option<&'static str>)
        ensures
            match self {
                Asset::Script => r matches Some(t) && t@ == "text/javascript"@,
                Asset::Stylesheet => r matches Some(t) && t@ == "text/css"@,
                Asset::Document => r matches Some(t) && t@ == "text/html; charset=utf-8"@,
                Asset::NotFound => r is None,
            },
    {
        match self {
            Asset::Script => Some("text/javascript"),
            Asset::Stylesheet => Some("text/css"),
            Asset::Document => Some("text/html; charset=utf-8"),
            Asset::NotFound => None,
        }
    }
}

/// The asset for a path: the script, the stylesheet, the document for any
/// address whose first segment is not `api` or `e`, and nothing otherwise.
pub open spec fn asset_spec(path: Seq<char>) -> Asset {
    let parts = text::split(path, "/"@);
    if path == "/app.js"@ {
        Asset::Script
    } else if path == "/app.css"@ {
        Asset::Stylesheet
    } else if !(parts.len() > 1 && (parts[1] == "api"@ || parts[1] == "e"@)) {
        Asset::Document
    } else {
        Asset::NotFound
    }
}

/// `head` followed by `/` and `rest`, where `head` holds no `/`, is split
/// at that `/` first.
proof fn lemma_split_at_first_slash(head: Seq<char>, rest: Seq<char>)
    requires
        forall|i: int| 0 <= i < head.len() ==> head[i] != '/',
    ensures
        text::split(head + seq!['/'] + rest, "/"@) == seq![head] + text::split(rest, "/"@),
{
    reveal_strlit("/");
    let pat = "/"@;
    assert(pat =~= seq!['/']);
    let s = head + seq!['/'] + rest;
    let n = head.len() as int;
    assert(s.subrange(n, n + 1) =~= pat);
    assert forall|j: int| 0 <= j < n implies !text::occurs_at(s, pat, j) by {
        if text::occurs_at(s, pat, j) {
            assert(s.subrange(j, j + 1)[0] == s[j]);
        }
    }
    text::lemma_first_at_unique(s, pat, n);
    assert(s.take(n) =~= head);
    assert(s.skip(n + 1) =~= rest);
}

/// The interface's own API and session addresses are never answered with
/// the document: a path that starts with `/api/` or `/e/` finds no asset.
pub proof fn api_paths_are_not_pages(rest: Seq<char>)
    ensures
        asset_spec("/api/"@ + rest) == Asset::NotFound,
        asset_spec("/e/"@ + rest) == Asset::NotFound,
{
    reveal_strlit("/api/");
    reveal_strlit("/e/");
    reveal_strlit("/app.js");
    reveal_strlit("/app.css");
    reveal_strlit("api");
    reveal_strlit("e");
    let empty = Seq::<char>::empty();
    let api_tail = "api"@ + seq!['/'] + rest;
    assert("/api/"@ + rest =~= empty + seq!['/'] + api_tail);
    lemma_split_at_first_slash(empty, api_tail);
    lemma_split_at_first_slash("api"@, rest);
    let e_tail = "e"@ + seq!['/'] + rest;
    assert("/e/"@ + rest =~= empty + seq!['/'] + e_tail);
    lemma_split_at_first_slash(empty, e_tail);
    lemma_split_at_first_slash("e"@, rest);
    assert(("/api/"@ + rest)[3] != "/app.js"@[3]);
    assert(("/api/"@ + rest)[3] != "/app.css"@[3]);
    assert(("/e/"@ + rest)[1] != "/app.js"@[1]);
    assert(("/e/"@ + rest)[1] != "/app.css"@[1]);
}

/// Any other address of one segment is the interface's document, so that
/// the page can route it itself.
pub proof fn other_paths_are_the_document(x: Seq<char>)
    requires
        forall|i: int| 0 <= i < x.len() ==> x[i] != '/',
        x != "api"@,
        x != "e"@,
        x != "app.js"@,
        x != "app.css"@,
    ensures
        asset_spec(seq!['/'] + x) == Asset::Document,
{
    reveal_strlit("/");
    reveal_strlit("/app.js");
    reveal_strlit("/app.css");
    let pat = "/"@;
    assert(pat =~= seq!['/']);
    let empty = Seq::<char>::empty();
    assert(seq!['/'] + x =~= empty + seq!['/'] + x);
    lemma_split_at_first_slash(empty, x);
    assert forall|j: int| 0 <= j implies !text::occurs_at(x, pat, j) by {
        if text::occurs_at(x, pat, j) {
            assert(x.subrange(j, j + 1)[0] == x[j]);
        }
    }
    text::lemma_find_first_none(x, pat);
    assert(text::split(x, pat) == seq![x]);
    if seq!['/'] + x == "/app.js"@ {
        assert(x =~= (seq!['/'] + x).skip(1));
        assert("/app.js"@.skip(1) =~= "app.js"@) by {
            reveal_strlit("app.js");
        }
    }
    if seq!['/'] + x == "/app.css"@ {
        assert(x =~= (seq!['/'] + x).skip(1));
        assert("/app.css"@.skip(1) =~= "app.css"@) by {
            reveal_strlit("app.css");
        }
    }
}

/// The asset for a path.
pub fn asset_for(path: &str) -> (r: Asset)
    ensures
        r == asset_spec(path@),
{
    let p = chars_of(path);
    let js = chars_of("/app.js");
    let css = chars_of("/app.css");
    if chars_eq(p.as_slice(), js.as_slice()) {
        return Asset::Script;
    }
    if chars_eq(p.as_slice(), css.as_slice()) {
        return Asset::Stylesheet;
    }
    let slash = chars_of("/");
    let parts = split_chars(p.as_slice(), slash.as_slice());
    assert(text::views(parts@) == text::split(path@, "/"@));
    if parts.len() > 1 {
        let api = chars_of("api");
        let e = chars_of("e");
        assert(text::views(parts@)[1] == parts@[1]@);
        if chars_eq(parts[1].as_slice(), api.as_slice()) || chars_eq(parts[1].as_slice(), e.as_slice()) {
            return Asset::NotFound;
        }
    }
    Asset::Document
}

/// A preview may be 1 to 1600 pixels wide.
pub fn preview_width_ok(width: u32) -> (r: bool)
    ensures
        r == (1 <= width <= 1600),
{
    1 <= width && width <= 1600
}

/// Where the last 128 KiB of a build log of `len` bytes start.
pub fn log_tail_start(len: u64) -> (r: u64)
    ensures
        r == if len >= 131072 { len - 131072 } else { 0 },
{
    len.saturating_sub(128 * 1024)
}

/// Why a preview was refused.
#[derive(PartialEq, Eq, Structural, Debug, Clone, Copy)]
pub enum PreviewError {
    /// The width is outside 1–1600 pixels.
    Width,
    /// The session is not running.
    NotRunning,
    /// Two previews are already being taken.
    QueueFull,
    /// The session's last preview was less than two seconds ago.
    TooSoon,
}

impl PreviewError {
    /// The HTTP status of the refusal.
    pub open spec fn status_spec(self) -> u16 {
        match self {
            PreviewError::Width => 400,
            PreviewError::NotRunning => 503,
            PreviewError::QueueFull => 429,
            PreviewError::TooSoon => 429,
        }
    }

    /// The text shown for the refusal.
    pub open spec fn message_spec(self) -> Seq<char> {
        match self {
            PreviewError::Width => "Preview width must be 1–1600"@,
            PreviewError::NotRunning => "Session is not running"@,
            PreviewError::QueueFull => "Preview queue is full"@,
            PreviewError::TooSoon => "Preview refresh is limited to once every two seconds"@,
        }
    }

    /// The refusal as an API error.
    pub fn error(self) -> (r: Error)
        ensures
            r.0 == self.status_spec(),
            r.1@ == self.message_spec(),
    {
        match self {
            PreviewError::Width => Error(400, "Preview width must be 1–1600".to_string()),
            PreviewError::NotRunning => Error(503, "Session is not running".to_string()),
            PreviewError::QueueFull => Error(429, "Preview queue is full".to_string()),
            PreviewError::TooSoon => Error(429, "Preview refresh is limited to once every two seconds".to_string()),
        }
    }
}

/// Whether a preview may be taken, in the order the checks are made: the
/// width, the session running, a free place in the queue of previews, and
/// two seconds since the session's last preview. On success the caller
/// records `now_ms` as the session's last preview.
pub open spec fn preview_spec(width: u32, running: bool, queue_full: bool, now_ms: u64, last_ms: Option<u64>) -> Result<(), PreviewError> {
    if !(1 <= width <= 1600) {
        Err(PreviewError::Width)
    } else if !running {
        Err(PreviewError::NotRunning)
    } else if queue_full {
        Err(PreviewError::QueueFull)
    } else if last_ms matches Some(t) && (if now_ms >= t { now_ms - t } else { 0 }) < 2000 {
        Err(PreviewError::TooSoon)
    } else {
        Ok(())
    }
}

/// Decides whether a preview may be taken.
pub fn preview_decision(width: u32, running: bool, queue_full: bool, now_ms: u64, last_ms: Option<u64>) -> (r: Result<(), PreviewError>)
    ensures
        r == preview_spec(width, running, queue_full, now_ms, last_ms),
{
    if !preview_width_ok(width) {
        return Err(PreviewError::Width);
    }
    if !running {
        return Err(PreviewError::NotRunning);
    }
    if queue_full {
        return Err(PreviewError::QueueFull);
    }
    match last_ms {
        Some(t) => if now_ms.saturating_sub(t) < 2000 {
            return Err(PreviewError::TooSoon);
        },
        None => {},
    }
    Ok(())
}

/// A preview taken within two seconds of the last one is always refused,
/// whatever else holds.
pub proof fn previews_are_rate_limited(width: u32, running: bool, queue_full: bool, now_ms: u64, last_ms: u64)
    requires
        last_ms <= now_ms < last_ms + 2000,
    ensures
        preview_spec(width, running, queue_full, now_ms, Some(last_ms)) is Err,
{
}

/// A preview is taken exactly when it is 1 to 1600 pixels wide, the
/// session runs, the queue has room, and the session's last preview (if
/// any) was at least two seconds before now.
pub proof fn previews_allowed_exactly(width: u32, running: bool, queue_full: bool, now_ms: u64, last_ms: Option<u64>)
    ensures
        preview_spec(width, running, queue_full, now_ms, last_ms) is Ok <==> (1 <= width <= 1600 && running
            && !queue_full && (last_ms matches Some(t) ==> now_ms >= t + 2000)),
        (width == 0 || width > 1600) ==> preview_spec(width, running, queue_full, now_ms, last_ms) == Err::<
            (),
            PreviewError,
        >(PreviewError::Width),
{
}

/// The label that a Docker object carries names this installation.
pub fn owned_by(label: Option<&str>, installation_id: &str) -> (r: bool)
    ensures
        r == (label matches Some(l) && l@ == installation_id@),
{
    match label {
        Some(l) => {
            let a = chars_of(l);
            let b = chars_of(installation_id);
            chars_eq(a.as_slice(), b.as_slice())
        },
        None => false,
    }
}

/// `parts` joined with `sep` between each two.
pub open spec fn join(parts: Seq<Seq<char>>, sep: Seq<char>) -> Seq<char>
    decreases parts.len(),
{
    if parts.len() == 0 {
        Seq::empty()
    } else if parts.len() == 1 {
        parts[0]
    } else {
        join(parts.drop_last(), sep) + sep + parts.last()
    }
}

/// `s` with every occurrence of `from` replaced by `to` (`str::replace`);
/// an empty `from` occurs before every character and at the end.
pub open spec fn replace_spec(s: Seq<char>, from: Seq<char>, to: Seq<char>) -> Seq<char> {
    if from.len() == 0 {
        to + s.map_values(|c: char| seq![c] + to).flatten()
    } else {
        join(text::split(s, from), to)
    }
}

/// Replaces every occurrence of `from` in `text` by `to`.
pub fn replace_all(text: &str, from: &str, to: &str) -> (r: String)
    ensures
        r@ == replace_spec(text@, from@, to@),
{
    let all = chars_of(text);
    let pat = chars_of(from);
    let rep = chars_of(to);
    if pat.len() == 0 {
        let mut out: Vec<char> = Vec::new();
        push_chars(&mut out, rep.as_slice());
        let ghost f = |c: char| seq![c] + to@;
        let mut i: usize = 0;
        while i < all.len()
            invariant
                i <= all.len(),
                all@ == text@,
                rep@ == to@,
                f == (|c: char| seq![c] + to@),
                out@ == to@ + all@.take(i as int).map_values(f).flatten(),
            decreases all.len() - i,
        {
            let ghost before = out@;
            out.push(all[i]);
            push_chars(&mut out, rep.as_slice());
            proof {
                assert(all@.take(i + 1).map_values(f) =~= all@.take(i as int).map_values(f).push(f(all@[i as int])));
                all@.take(i as int).map_values(f).lemma_flatten_push(f(all@[i as int]));
                assert(out@ =~= to@ + all@.take(i + 1).map_values(f).flatten());
            }
            i += 1;
        }
        assert(all@.take(i as int) =~= all@);
        return string_from(out.as_slice());
    }
    let parts = split_chars(all.as_slice(), pat.as_slice());
    let ghost ps = text::split(text@, from@);
    let mut out: Vec<char> = Vec::new();
    let mut i: usize = 0;
    while i < parts.len()
        invariant
            i <= parts.len(),
            text::views(parts@) == ps,
            rep@ == to@,
            out@ == join(ps.take(i as int), to@),
        decreases parts.len() - i,
    {
        assert(ps[i as int] == parts@[i as int]@);
        assert(ps.take(i + 1).drop_last() =~= ps.take(i as int));
        if i > 0 {
            push_chars(&mut out, rep.as_slice());
        } else {
            assert(ps.take(0) =~= Seq::<Seq<char>>::empty());
        }
        push_chars(&mut out, parts[i].as_slice());
        assert(out@ =~= join(ps.take(i + 1), to@));
        i += 1;
    }
    assert(ps.take(i as int) =~= ps);
    string_from(out.as_slice())
}

} // verus!
