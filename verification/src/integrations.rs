//! Read-only outside sources: URL rules, usage reports, and Git status text.
use vstd::prelude::*;
use crate::ieee::{double_le, is_finite, double_lt, finite, le, lt};
use crate::field::{byte_len, bytes_of};
use crate::text::{chars_of, owned, push_char, same_text};

verus! {

/// What a URL consists of: scheme, host, user name and password.
pub type UrlParts = (String, Option<String>, String, Option<String>);

pub open spec fn text_of(s: Option<String>) -> Option<Seq<char>> {
    match s {
        Some(s) => Some(s@),
        None => None,
    }
}

pub open spec fn parts_view(p: Option<UrlParts>) -> Option<(Seq<char>, Option<Seq<char>>, Seq<char>, Option<Seq<char>>)> {
    match p {
        Some((scheme, host, user, password)) => Some((scheme@, text_of(host), user@, text_of(password))),
        None => None,
    }
}

/// The parts of the URL that `url::Url::parse` reads from a text, or none when it rejects it.
pub uninterp spec fn parsed_url(text: Seq<char>) -> Option<(Seq<char>, Option<Seq<char>>, Seq<char>, Option<Seq<char>>)>;

/// Parses a URL with `reqwest::Url::parse` (the `url` crate) and reads its scheme, host,
/// user name and password.
#[verifier::external_body]
fn url_parts(text: &str) -> (r: Option<UrlParts>)
    ensures
        parts_view(r) == parsed_url(text@),
{
    match reqwest::Url::parse(text) {
        Ok(url) => Some((
            url.scheme().to_string(),
            url.host_str().map(|h| h.to_string()),
            url.username().to_string(),
            url.password().map(|p| p.to_string()),
        )),
        Err(_) => None,
    }
}

/// Why a URL is refused.
#[derive(Debug, Clone, Copy, PartialEq, Eq, Structural)]
pub enum UrlError {
    /// "Enter a complete http:// or https:// URL"
    Unparsable,
    /// "Only HTTP(S) URLs are supported"
    NotHttp,
    /// "Use an environment variable for credentials"
    Credentials,
}

/// The refusal for the parts of a parsed URL (none when it could not be parsed), if any.
pub open spec fn parts_error(parts: Option<(Seq<char>, Option<Seq<char>>, Seq<char>, Option<Seq<char>>)>) -> Option<UrlError> {
    match parts {
        None => Some(UrlError::Unparsable),
        Some((scheme, host, user, password)) => {
            if !(scheme == "http"@ || scheme == "https"@) || host is None {
                Some(UrlError::NotHttp)
            } else if user.len() != 0 || password is Some {
                Some(UrlError::Credentials)
            } else {
                None
            }
        },
    }
}

/// The refusal for a URL text, if any.
pub open spec fn url_error(text: Seq<char>) -> Option<UrlError> {
    parts_error(parsed_url(text))
}

/// Accepts the parts of a parsed URL only for HTTP(S) with a host and no embedded
/// credentials.
pub fn check_url_parts(parts: &Option<UrlParts>) -> (r: Result<(), UrlError>)
    ensures
        match parts_error(parts_view(*parts)) {
            None => r is Ok,
            Some(e) => r == Err::<(), UrlError>(e),
        },
{
    proof {
        reveal_strlit("http");
        reveal_strlit("https");
    }
    match parts {
        None => Err(UrlError::Unparsable),
        Some((scheme, host, user, password)) => {
            let web = same_text(scheme.as_str(), "http") || same_text(scheme.as_str(), "https");
            if !web || host.is_none() {
                Err(UrlError::NotHttp)
            } else if user.unicode_len() != 0 || password.is_some() {
                Err(UrlError::Credentials)
            } else {
                Ok(())
            }
        },
    }
}

/// Accepts only complete HTTP(S) URLs with a host and no embedded credentials.
pub fn http_url(value: &str) -> (r: Result<(), UrlError>)
    ensures
        match url_error(value@) {
            None => r is Ok,
            Some(e) => r == Err::<(), UrlError>(e),
        },
{
    check_url_parts(&url_parts(value))
}

/// A usage or quota report; `used` and `limit` are the bits of doubles.
#[derive(Debug)]
pub struct UsageReport {
    pub used: u64,
    pub limit: u64,
    pub unit: String,
    pub reset_at: String,
}

/// `used` is a finite nonnegative double and `limit` a finite positive one.
pub open spec fn usage_valid(report: UsageReport) -> bool {
    &&& is_finite(report.used)
    &&& double_le(0, report.used)
    &&& is_finite(report.limit)
    &&& double_lt(0, report.limit)
}

/// Usage requires a nonnegative `used` and a positive `limit`.
pub fn validate_usage(report: &UsageReport) -> (r: Result<(), ()>)
    ensures
        r is Ok <==> usage_valid(*report),
{
    if finite(report.used) && le(0, report.used) && finite(report.limit) && lt(0, report.limit) {
        Ok(())
    } else {
        Err(())
    }
}


// ---------------------------------------------------------------------------------------
// Git status

/// A repository's branch and its numbers of changed, staged and untracked files.
#[derive(Debug)]
pub struct GitStatus {
    pub branch: String,
    pub changed: usize,
    pub staged: usize,
    pub untracked: usize,
}

pub type GitView = (Seq<char>, nat, nat, nat);

/// The first line break at or after `i`, or the end of the text.
pub open spec fn line_end(t: Seq<char>, i: int) -> int
    decreases t.len() - i,
{
    if i >= t.len() || t[i] == '\n' { i } else { line_end(t, i + 1) }
}

/// The line that starts at `start`: up to the next line break, without a carriage return
/// just before that break.
pub open spec fn line_at(t: Seq<char>, start: int) -> Seq<char> {
    let j = line_end(t, start);
    if j < t.len() && j > start && t[j - 1] == '\r' { t.subrange(start, j - 1) } else { t.subrange(start, j) }
}

/// One line of `git status --porcelain=v1 --branch` counted in: `## ` names the branch,
/// `??` an untracked file, and any other line of two bytes or more a changed file, staged
/// unless its first column is blank.
pub open spec fn count_line(acc: GitView, line: Seq<char>) -> GitView {
    if line.len() >= 3 && line.subrange(0, 3) == "## "@ {
        (line.subrange(3, line.len() as int), acc.1, acc.2, acc.3)
    } else if line.len() >= 2 && line.subrange(0, 2) == "??"@ {
        (acc.0, acc.1, acc.2, acc.3 + 1)
    } else if bytes_of(line).len() >= 2 {
        (acc.0, acc.1 + 1, if line[0] != ' ' { acc.2 + 1 } else { acc.2 }, acc.3)
    } else {
        acc
    }
}

/// The lines of `t` from `start` on, counted into `acc`.
pub open spec fn count_from(t: Seq<char>, start: int, acc: GitView) -> GitView
    decreases t.len() + 1 - start,
{
    if start < 0 || start >= t.len() {
        acc
    } else {
        proof { lemma_line_end_bounds(t, start); }
        count_from(t, line_end(t, start) + 1, count_line(acc, line_at(t, start)))
    }
}

pub open spec fn git_summary(t: Seq<char>) -> GitView {
    count_from(t, 0, ("Unknown branch"@, 0, 0, 0))
}

pub proof fn lemma_line_end_bounds(t: Seq<char>, i: int)
    requires
        0 <= i <= t.len(),
    ensures
        i <= line_end(t, i) <= t.len(),
        line_end(t, i) < t.len() ==> t[line_end(t, i)] == '\n',
        forall|k: int| i <= k < line_end(t, i) ==> t[k] != '\n',
    decreases t.len() - i,
{
    if i < t.len() && t[i] != '\n' {
        lemma_line_end_bounds(t, i + 1);
    }
}

/// Whether `chars` holds `pattern` from `at`.
fn has_prefix_at(chars: &Vec<char>, at: usize, end: usize, pattern: &str) -> (r: bool)
    requires
        at <= end <= chars@.len(),
    ensures
        r == (end - at >= pattern@.len() && chars@.subrange(at as int, at + pattern@.len()) == pattern@),
{
    let p = chars_of(pattern);
    if end - at < p.len() {
        return false;
    }
    let mut k: usize = 0;
    while k < p.len()
        invariant
            p@ == pattern@,
            at + p@.len() <= end <= chars@.len(),
            k <= p.len(),
            forall|m: int| 0 <= m < k ==> chars@[at + m] == p@[m],
        decreases p.len() - k,
    {
        if chars[at + k] != p[k] {
            assert(chars@.subrange(at as int, at + pattern@.len())[k as int] != pattern@[k as int]);
            return false;
        }
        k += 1;
    }
    assert(chars@.subrange(at as int, at + pattern@.len()) =~= pattern@);
    true
}

/// The text of `chars` from `from` to `to`.
fn text_between(chars: &Vec<char>, from: usize, to: usize) -> (r: String)
    requires
        from <= to <= chars@.len(),
    ensures
        r@ == chars@.subrange(from as int, to as int),
{
    let mut r = String::new();
    let mut k: usize = from;
    while k < to
        invariant
            from <= k <= to <= chars@.len(),
            r@ == chars@.subrange(from as int, k as int),
        decreases to - k,
    {
        push_char(&mut r, chars[k]);
        k += 1;
        assert(r@ =~= chars@.subrange(from as int, k as int));
    }
    r
}

/// Counts `git status --porcelain=v1 --branch` output line by line. Lines end at `\n`,
/// a `\r` before it dropped; the branch stays "Unknown branch" without a `## ` line.
pub fn parse_git_status(text: &str) -> (r: GitStatus)
    ensures
        (r.branch@, r.changed as nat, r.staged as nat, r.untracked as nat) == git_summary(text@),
{
    let chars = chars_of(text);
    let ghost t = text@;
    let n = chars.len();
    let mut status = GitStatus { branch: owned("Unknown branch"), changed: 0, staged: 0, untracked: 0 };
    let mut start: usize = 0;
    while start < n
        invariant
            chars@ == t,
            n == t.len(),
            start <= n,
            status.staged <= status.changed <= start,
            status.untracked <= start,
            git_summary(t) == count_from(t, start as int,
                (status.branch@, status.changed as nat, status.staged as nat, status.untracked as nat)),
        decreases n - start,
    {
        proof {
            reveal_strlit("## ");
            reveal_strlit("??");
            lemma_line_end_bounds(t, start as int);
        }
        let mut end: usize = start;
        while end < n && chars[end] != '\n'
            invariant
                chars@ == t,
                n == t.len(),
                start <= end <= n,
                line_end(t, start as int) == line_end(t, end as int),
            decreases n - end,
        {
            end += 1;
        }
        assert(line_end(t, end as int) == end);
        let ghost acc = (status.branch@, status.changed as nat, status.staged as nat, status.untracked as nat);
        assert(count_from(t, start as int, acc) == count_from(t, end + 1, count_line(acc, line_at(t, start as int))));
        let last = if end < n && end > start && chars[end - 1] == '\r' { end - 1 } else { end };
        let line = text_between(&chars, start, last);
        assert(line@ == line_at(t, start as int));
        if has_prefix_at(&chars, start, last, "## ") {
            assert(line@.subrange(0, 3) =~= chars@.subrange(start as int, start + 3));
            assert(line@.subrange(3, line@.len() as int) =~= chars@.subrange(start + 3, last as int));
            status.branch = text_between(&chars, start + 3, last);
        } else if has_prefix_at(&chars, start, last, "??") {
            assert(line@.subrange(0, 2) =~= chars@.subrange(start as int, start + 2));
            status.untracked = status.untracked + 1;
        } else {
            proof {
                if line@.len() >= 3 {
                    assert(line@.subrange(0, 3) =~= chars@.subrange(start as int, start + 3));
                }
                if line@.len() >= 2 {
                    assert(line@.subrange(0, 2) =~= chars@.subrange(start as int, start + 2));
                }
            }
            if byte_len(line.as_str()) >= 2 {
                status.changed = status.changed + 1;
                if chars[start] != ' ' {
                    status.staged = status.staged + 1;
                }
            }
        }
        assert((status.branch@, status.changed as nat, status.staged as nat, status.untracked as nat)
            == count_line(acc, line_at(t, start as int)));
        start = if end < n { end + 1 } else { n };
    }
    status
}

// ---------------------------------------------------------------------------------------
// Weather

/// The `current` block of an Open-Meteo forecast; the three measurements are the bits of
/// doubles.
#[derive(Debug, Clone, Copy, PartialEq, Eq, Structural)]
pub struct WeatherCurrent {
    pub temperature_2m: u64,
    pub apparent_temperature: u64,
    pub relative_humidity_2m: u64,
    pub weather_code: u16,
}

/// A weather reading, measurements as bits of doubles, with its unit symbol.
#[derive(Debug)]
pub struct Weather {
    pub temperature: u64,
    pub feels_like: u64,
    pub humidity: u64,
    pub code: u16,
    pub unit: String,
}

/// The unit symbol for a temperature unit setting.
pub open spec fn unit_symbol(unit: Seq<char>) -> Seq<char> {
    if unit == "fahrenheit"@ { "°F"@ } else { "°C"@ }
}

/// A forecast's current values, accepted only when all three measurements are finite.
pub fn parse_weather(current: &WeatherCurrent, unit: &str) -> (r: Result<Weather, ()>)
    ensures
        r is Ok <==> (is_finite(current.temperature_2m) && is_finite(current.apparent_temperature)
            && is_finite(current.relative_humidity_2m)),
        r matches Ok(w) ==> {
            &&& w.temperature == current.temperature_2m
            &&& w.feels_like == current.apparent_temperature
            &&& w.humidity == current.relative_humidity_2m
            &&& w.code == current.weather_code
            &&& w.unit@ == unit_symbol(unit@)
        },
{
    if !(finite(current.temperature_2m) && finite(current.apparent_temperature) && finite(current.relative_humidity_2m)) {
        return Err(());
    }
    let symbol = if same_text(unit, "fahrenheit") { "°F" } else { "°C" };
    Ok(Weather {
        temperature: current.temperature_2m,
        feels_like: current.apparent_temperature,
        humidity: current.relative_humidity_2m,
        code: current.weather_code,
        unit: owned(symbol),
    })
}

} // verus!
