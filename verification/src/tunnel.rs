//! Cloudflare tunnel helpers: where the `cloudflared` binary lives and is
//! downloaded from, and how the public URL is read from its output.

use vstd::prelude::*;
use std::path::PathBuf;
use crate::error::AppError;
use crate::paths::{data_local_dir, path_join, joined_path};
use crate::text::{chars_of, find_text, first_occurrence, contains_text, has_text, owned, join3, text_eq,
    string_of_range, to_lowercase, unicode_lowercase, unicode_whitespace, char_is_whitespace, word_len,
    lemma_first_occurrence};
use crate::url_parts::{parse_url, url_parse};

verus! {

/// Characters trimmed from the end of a URL found in a line of output.
pub open spec fn trailing_punct(c: char) -> bool {
    c == '.' || c == ',' || c == ')' || c == ']' || c == '"' || c == '\'' || c == '>' || c == '<'
        || c == '{' || c == '}' || c == ';' || c == ':' || c == '|'
}

fn is_trailing_punct(c: char) -> (r: bool)
    ensures
        r == trailing_punct(c),
{
    c == '.' || c == ',' || c == ')' || c == ']' || c == '"' || c == '\'' || c == '>' || c == '<'
        || c == '{' || c == '}' || c == ';' || c == ':' || c == '|'
}

/// `s` without its trailing punctuation.
pub open spec fn trim_trailing_punct(s: Seq<char>) -> Seq<char>
    decreases s.len(),
{
    if s.len() > 0 && trailing_punct(s.last()) {
        trim_trailing_punct(s.drop_last())
    } else {
        s
    }
}

/// The text `https://` that starts a tunnel URL.
pub open spec fn https_marker() -> Seq<char> {
    "https://"@
}

/// The domain of quick tunnels.
pub open spec fn tunnel_domain() -> Seq<char> {
    "trycloudflare.com"@
}

/// The URL candidate of a line: from the first `https://` up to the next
/// whitespace, without trailing punctuation.
pub open spec fn url_candidate(line: Seq<char>) -> Option<Seq<char>> {
    match first_occurrence(line, https_marker()) {
        None => None,
        Some(start) => {
            let rest = line.subrange(start, line.len() as int);
            Some(trim_trailing_punct(rest.subrange(0, word_len(rest) as int)))
        },
    }
}

/// The tunnel URL in a line: the candidate, when its lowercase form names
/// the quick-tunnel domain and it parses as a URL.
pub open spec fn tunnel_url_of(line: Seq<char>) -> Option<Seq<char>> {
    match domain_candidate(line) {
        Some(u) => if url_parse(u) is Ok { Some(u) } else { None },
        None => None,
    }
}

/// The URL candidate of a line, when its lowercase form names the
/// quick-tunnel domain.
pub open spec fn domain_candidate(line: Seq<char>) -> Option<Seq<char>> {
    match url_candidate(line) {
        Some(u) => if contains_text(unicode_lowercase(u), tunnel_domain()) { Some(u) } else { None },
        None => None,
    }
}

/// Extracts the quick-tunnel URL from a line of `cloudflared` output: the
/// candidate, when it parses as a URL.
pub fn extract_url(line: &str) -> (r: Option<String>)
    ensures
        match (r, tunnel_url_of(line@)) {
            (Some(a), Some(b)) => a@ == b,
            (None, None) => true,
            _ => false,
        },
{
    match tunnel_url_candidate(line) {
        Some(candidate) => match parse_url(candidate.as_str()) {
            Ok(_) => Some(candidate),
            Err(_) => None,
        },
        None => None,
    }
}

/// The text in a line of `cloudflared` output that may be the tunnel URL:
/// from the first `https://` to the next whitespace, without trailing
/// punctuation, when its lowercase form names the quick-tunnel domain.
pub fn tunnel_url_candidate(line: &str) -> (r: Option<String>)
    ensures
        match (r, domain_candidate(line@)) {
            (Some(a), Some(b)) => a@ == b,
            (None, None) => true,
            _ => false,
        },
{
    let cs = chars_of(line);
    let marker_text = "https://";
    let marker = chars_of(marker_text);
    proof {
        lemma_first_occurrence(cs@, marker@);
    }
    let start = match find_text(&cs, &marker) {
        Some(s) => s,
        None => return None,
    };
    let n = cs.len();
    let ghost rest = cs@.subrange(start as int, n as int);
    let mut end: usize = start;
    while end < n && !char_is_whitespace(cs[end])
        invariant
            n == cs@.len(),
            start <= end <= n,
            rest == cs@.subrange(start as int, n as int),
            forall|t: int| start <= t < end ==> !unicode_whitespace(cs@[t]),
        decreases n - end,
    {
        end = end + 1;
    }
    proof {
        assert forall|t: int| 0 <= t < end - start implies !unicode_whitespace(rest[t]) by {
            assert(rest[t] == cs@[start + t]);
        }
        if end < n {
            assert(rest[end - start] == cs@[end as int]);
        }
        lemma_word_len_of(rest, end - start);
        assert(rest.subrange(0, end - start) =~= cs@.subrange(start as int, end as int));
    }
    let mut stop: usize = end;
    while stop > start && is_trailing_punct(cs[stop - 1])
        invariant
            start <= stop <= end,
            end <= n,
            n == cs@.len(),
            trim_trailing_punct(cs@.subrange(start as int, end as int)) == trim_trailing_punct(cs@.subrange(start as int, stop as int)),
        decreases stop - start,
    {
        assert(cs@.subrange(start as int, stop as int).drop_last() =~= cs@.subrange(start as int, stop - 1));
        stop = stop - 1;
    }
    let candidate = string_of_range(&cs, start, stop);
    proof {
        let c = cs@.subrange(start as int, stop as int);
        if c.len() > 0 {
            assert(!trailing_punct(c.last()));
        }
        assert(trim_trailing_punct(c) == c);
    }
    let lower = to_lowercase(candidate.as_str());
    let domain = "trycloudflare.com";
    if !has_text(lower.as_str(), domain) {
        return None;
    }
    Some(candidate)
}

proof fn lemma_word_len_of(s: Seq<char>, k: int)
    requires
        0 <= k <= s.len(),
        forall|j: int| 0 <= j < k ==> !unicode_whitespace(s[j]),
        k == s.len() || unicode_whitespace(s[k]),
    ensures
        word_len(s) == k,
    decreases k,
{
    if k > 0 {
        lemma_word_len_of(s.drop_first(), k - 1);
    }
}

/// The tunnel URL announced by a line of output, if the line mentions
/// the quick-tunnel domain (in any case) and holds a URL.
pub open spec fn announced_url(line: Seq<char>) -> Option<Seq<char>> {
    if contains_text(unicode_lowercase(line), tunnel_domain()) {
        tunnel_url_of(line)
    } else {
        None
    }
}

/// Reads the public URL from a line of `cloudflared` output.
pub fn tunnel_url_in_line(line: &str) -> (r: Option<String>)
    ensures
        match (r, announced_url(line@)) {
            (Some(a), Some(b)) => a@ == b,
            (None, None) => true,
            _ => false,
        },
{
    let lower = to_lowercase(line);
    if has_text(lower.as_str(), "trycloudflare.com") {
        extract_url(line)
    } else {
        None
    }
}

/// Where `cloudflared` is downloaded from for a platform, and whether the
/// download is a gzipped tar archive.
pub open spec fn download_for(os: Seq<char>, arch: Seq<char>) -> Option<(Seq<char>, bool)> {
    if os == "macos"@ && arch == "aarch64"@ {
        Some(("https://github.com/cloudflare/cloudflared/releases/latest/download/cloudflared-darwin-arm64.tgz"@, true))
    } else if os == "macos"@ && arch == "x86_64"@ {
        Some(("https://github.com/cloudflare/cloudflared/releases/latest/download/cloudflared-darwin-amd64.tgz"@, true))
    } else if os == "linux"@ && arch == "x86_64"@ {
        Some(("https://github.com/cloudflare/cloudflared/releases/latest/download/cloudflared-linux-amd64"@, false))
    } else if os == "linux"@ && arch == "aarch64"@ {
        Some(("https://github.com/cloudflare/cloudflared/releases/latest/download/cloudflared-linux-arm64"@, false))
    } else {
        None
    }
}

/// The download of `cloudflared` for a platform; unsupported platforms are
/// refused.
pub fn download_url_for(os: &str, arch: &str) -> (r: Result<(&'static str, bool), AppError>)
    ensures
        match (r, download_for(os@, arch@)) {
            (Ok((u, t)), Some((v, w))) => u@ == v && t == w,
            (Err(AppError::Tunnel(m)), None) => m@ == "Unsupported platform: "@ + os@ + "-"@ + arch@,
            _ => false,
        },
{
    let mac = text_eq(os, "macos");
    let linux = text_eq(os, "linux");
    let arm = text_eq(arch, "aarch64");
    let x86 = text_eq(arch, "x86_64");
    if mac && arm {
        Ok(("https://github.com/cloudflare/cloudflared/releases/latest/download/cloudflared-darwin-arm64.tgz", true))
    } else if mac && x86 {
        Ok(("https://github.com/cloudflare/cloudflared/releases/latest/download/cloudflared-darwin-amd64.tgz", true))
    } else if linux && x86 {
        Ok(("https://github.com/cloudflare/cloudflared/releases/latest/download/cloudflared-linux-amd64", false))
    } else if linux && arm {
        Ok(("https://github.com/cloudflare/cloudflared/releases/latest/download/cloudflared-linux-arm64", false))
    } else {
        let m = join3("Unsupported platform: ", os, "-");
        Err(AppError::Tunnel(crate::text::join2(m.as_str(), arch)))
    }
}

/// The directory holding `cloudflared` under data directory `d`.
pub open spec fn bin_dir_of(d: PathBuf) -> PathBuf {
    joined_path(d, "mcp-tunnel"@)
}

/// The path of `cloudflared` under data directory `d`.
pub open spec fn bin_path_of(d: PathBuf) -> PathBuf {
    joined_path(bin_dir_of(d), "cloudflared"@)
}

/// The error when there is no data directory.
pub open spec fn no_data_dir(e: AppError) -> bool {
    e matches AppError::Config(m) && m@ == "Could not determine data directory"@
}

/// The directory holding `cloudflared`: `mcp-tunnel` under the given data
/// directory; an error when there is none.
pub fn bin_dir_in(data_dir: Option<PathBuf>) -> (r: Result<PathBuf, AppError>)
    ensures
        match data_dir {
            Some(d) => r == Ok::<PathBuf, AppError>(bin_dir_of(d)),
            None => r matches Err(e) && no_data_dir(e),
        },
{
    match data_dir {
        Some(d) => {
            let p = path_join(&d, "mcp-tunnel");
            proof {
                reveal_strlit("mcp-tunnel");
            }
            Ok(p)
        },
        None => Err(AppError::Config(owned("Could not determine data directory"))),
    }
}

/// The directory holding `cloudflared`: `mcp-tunnel` under the local data
/// directory, or the error when the platform gives none (which of the two
/// the environment decides).
pub fn bin_dir() -> (r: Result<PathBuf, AppError>)
    ensures
        match r {
            Ok(p) => exists|d: PathBuf| p == #[trigger] bin_dir_of(d),
            Err(e) => no_data_dir(e),
        },
{
    let d = data_local_dir();
    let ghost gd = d;
    let r = bin_dir_in(d);
    proof {
        if let Some(dd) = gd {
            assert(r == Ok::<PathBuf, AppError>(bin_dir_of(dd)));
        }
    }
    r
}

/// The path of the `cloudflared` binary under the given data directory:
/// `mcp-tunnel/cloudflared` in it; an error when there is none.
pub fn bin_path_in(data_dir: Option<PathBuf>) -> (r: Result<PathBuf, AppError>)
    ensures
        match data_dir {
            Some(d) => r == Ok::<PathBuf, AppError>(bin_path_of(d)),
            None => r matches Err(e) && no_data_dir(e),
        },
{
    let dir = bin_dir_in(data_dir)?;
    let p = path_join(&dir, "cloudflared");
    proof {
        reveal_strlit("cloudflared");
    }
    Ok(p)
}

/// The path of the `cloudflared` binary: `mcp-tunnel/cloudflared` under
/// the local data directory, or the error when the platform gives none.
pub fn bin_path() -> (r: Result<PathBuf, AppError>)
    ensures
        match r {
            Ok(p) => exists|d: PathBuf| p == #[trigger] bin_path_of(d),
            Err(e) => no_data_dir(e),
        },
{
    let d = data_local_dir();
    let ghost gd = d;
    let r = bin_path_in(d);
    proof {
        if let Some(dd) = gd {
            assert(r == Ok::<PathBuf, AppError>(bin_path_of(dd)));
        }
    }
    r
}

/// The release's name for an operating system.
pub open spec fn release_os(os: Seq<char>) -> Option<Seq<char>> {
    if os == "macos"@ { Some("darwin"@) } else if os == "linux"@ { Some("linux"@) } else { None }
}

/// The release's name for an architecture.
pub open spec fn release_arch(arch: Seq<char>) -> Option<Seq<char>> {
    if arch == "aarch64"@ { Some("arm64"@) } else if arch == "x86_64"@ { Some("amd64"@) } else { None }
}

/// The download of `cloudflared` is the release asset for the requested
/// platform itself: `cloudflared-<os>-<arch>` under the latest release,
/// with `.tgz` (an archive) exactly on macOS; every other platform is
/// refused. So different platforms never get the same asset.
pub proof fn lemma_download_matches_platform(os: Seq<char>, arch: Seq<char>)
    ensures
        download_for(os, arch) is Some <==> (release_os(os) is Some && release_arch(arch) is Some),
        download_for(os, arch) matches Some((u, tgz)) ==> {
            &&& tgz == (os == "macos"@)
            &&& u == "https://github.com/cloudflare/cloudflared/releases/latest/download/cloudflared-"@
                + release_os(os).unwrap() + "-"@ + release_arch(arch).unwrap()
                + (if tgz { ".tgz"@ } else { Seq::empty() })
        },
{
    reveal_strlit("https://github.com/cloudflare/cloudflared/releases/latest/download/cloudflared-darwin-arm64.tgz");
    reveal_strlit("https://github.com/cloudflare/cloudflared/releases/latest/download/cloudflared-darwin-amd64.tgz");
    reveal_strlit("https://github.com/cloudflare/cloudflared/releases/latest/download/cloudflared-linux-amd64");
    reveal_strlit("https://github.com/cloudflare/cloudflared/releases/latest/download/cloudflared-linux-arm64");
    reveal_strlit("https://github.com/cloudflare/cloudflared/releases/latest/download/cloudflared-");
    reveal_strlit("darwin");
    reveal_strlit("linux");
    reveal_strlit("arm64");
    reveal_strlit("amd64");
    reveal_strlit("-");
    reveal_strlit(".tgz");
    reveal_strlit("macos");
    reveal_strlit("aarch64");
    reveal_strlit("x86_64");
    let base = "https://github.com/cloudflare/cloudflared/releases/latest/download/cloudflared-"@;
    assert("https://github.com/cloudflare/cloudflared/releases/latest/download/cloudflared-darwin-arm64.tgz"@
        =~= base + "darwin"@ + "-"@ + "arm64"@ + ".tgz"@);
    assert("https://github.com/cloudflare/cloudflared/releases/latest/download/cloudflared-darwin-amd64.tgz"@
        =~= base + "darwin"@ + "-"@ + "amd64"@ + ".tgz"@);
    assert("https://github.com/cloudflare/cloudflared/releases/latest/download/cloudflared-linux-amd64"@
        =~= base + "linux"@ + "-"@ + "amd64"@ + Seq::<char>::empty());
    assert("https://github.com/cloudflare/cloudflared/releases/latest/download/cloudflared-linux-arm64"@
        =~= base + "linux"@ + "-"@ + "arm64"@ + Seq::<char>::empty());
    assert("macos"@ != "linux"@) by {
        assert("macos"@[0] != "linux"@[0]);
    }
    assert("aarch64"@ != "x86_64"@) by {
        assert("aarch64"@.len() != "x86_64"@.len());
    }
}

} // verus!
