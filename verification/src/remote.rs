//! Remote provenance: parsing a remote's URL — the SCP-like SSH form or
//! any absolute URL — into a normalized https form, a provider, and the
//! owner and repository components.

use vstd::prelude::*;
use vstd::string::StrSliceExecFns;
use vstd::string::StringExecFns;
use crate::strutil::{
    contains_seq, contains_sub, ends_with_str, find_char, first_idx, is_prefix_of, is_suffix_of,
    starts_with_str,
};
use crate::types::{GitProvider, RemoteInfo};

verus! {

/// The mathematical shape of a parsed remote.
#[verifier::ext_equal]
pub ghost struct RemoteModel {
    pub url: Seq<char>,
    pub provider: GitProvider,
    pub owner: Seq<char>,
    pub repo: Seq<char>,
}

impl RemoteInfo {
    /// The record's mathematical shape.
    pub open spec fn model(self) -> RemoteModel {
        RemoteModel { url: self.url@, provider: self.provider, owner: self.owner@, repo: self.repo@ }
    }
}

/// Provider detection: substring matching against the host.
pub open spec fn provider_of(host: Seq<char>) -> GitProvider {
    if contains_seq(host, "github"@) {
        GitProvider::Github
    } else if contains_seq(host, "gitlab"@) {
        GitProvider::Gitlab
    } else if contains_seq(host, "bitbucket"@) {
        GitProvider::Bitbucket
    } else {
        GitProvider::Unknown
    }
}

/// `s` without its leading run of `c`.
pub open spec fn strip_leading(s: Seq<char>, c: char) -> Seq<char>
    decreases s.len(),
{
    if s.len() > 0 && s[0] == c {
        strip_leading(s.subrange(1, s.len() as int), c)
    } else {
        s
    }
}

/// `s` without one trailing copy of `suf`, when it ends with one.
pub open spec fn strip_one_suffix(s: Seq<char>, suf: Seq<char>) -> Seq<char> {
    if is_suffix_of(suf, s) {
        s.subrange(0, s.len() - suf.len())
    } else {
        s
    }
}

/// Owner, repository and normalized URL from a host and an
/// already-stripped path.  The path must hold at least two `/`-separated
/// components; the first two become owner and repository, and the whole
/// path is preserved in the URL.
pub open spec fn owner_repo_url(host: Seq<char>, path: Seq<char>) -> Option<RemoteModel> {
    let si = first_idx(path, '/');
    if si == path.len() {
        None
    } else {
        let after = path.subrange(si + 1, path.len() as int);
        Some(
            RemoteModel {
                url: "https://"@ + host + "/"@ + path,
                provider: provider_of(host),
                owner: path.subrange(0, si),
                repo: after.subrange(0, first_idx(after, '/')),
            },
        )
    }
}

/// The URL form: the parsed host, and the path stripped of leading
/// slashes and one `.git` suffix.
pub open spec fn remote_from_parts(host: Seq<char>, raw_path: Seq<char>) -> Option<RemoteModel> {
    owner_repo_url(host, strip_one_suffix(strip_leading(raw_path, '/'), ".git"@))
}

/// The SCP-like SSH form `git@HOST:PATH`: exactly one colon after the
/// marker, then one `.git` suffix stripped from the path.
pub open spec fn parse_scp(u: Seq<char>) -> Option<RemoteModel> {
    let rest = u.subrange("git@"@.len() as int, u.len() as int);
    let ci = first_idx(rest, ':');
    if ci == rest.len() {
        None
    } else {
        let host = rest.subrange(0, ci);
        let tail = rest.subrange(ci + 1, rest.len() as int);
        if first_idx(tail, ':') != tail.len() {
            None
        } else {
            owner_repo_url(host, strip_one_suffix(tail, ".git"@))
        }
    }
}

/// What `url::Url::parse` extracts from the text: the host and the raw
/// path of an absolute URL, or nothing when the text is not one or has
/// no host.
pub uninterp spec fn url_host_path_of(u: Seq<char>) -> Option<(Seq<char>, Seq<char>)>;

/// What a remote URL parses to: the SSH form when the `git@` marker
/// leads, else whatever the URL parser finds.
pub open spec fn remote_of(u: Seq<char>) -> Option<RemoteModel> {
    if is_prefix_of("git@"@, u) {
        parse_scp(u)
    } else {
        match url_host_path_of(u) {
            Some((h, p)) => remote_from_parts(h, p),
            None => None,
        }
    }
}

/// Relies on url::Url::parse: the host and path of an absolute URL are a
/// function of the text alone; no result when the text does not parse as
/// an absolute URL with a host.
#[verifier::external_body]
fn url_host_path(u: &str) -> (r: Option<(String, String)>)
    ensures
        r is Some <==> url_host_path_of(u@) is Some,
        r matches Some(p) ==> url_host_path_of(u@) == Some((p.0@, p.1@)),
{
    match url::Url::parse(u) {
        Ok(parsed) => match parsed.host_str() {
            Some(h) => Some((h.to_string(), parsed.path().to_string())),
            None => None,
        },
        Err(_) => None,
    }
}

/// Which hosting service a host name belongs to.
pub fn detect_provider(host: &str) -> (r: GitProvider)
    ensures
        r == provider_of(host@),
{
    if contains_sub(host, "github") {
        GitProvider::Github
    } else if contains_sub(host, "gitlab") {
        GitProvider::Gitlab
    } else if contains_sub(host, "bitbucket") {
        GitProvider::Bitbucket
    } else {
        GitProvider::Unknown
    }
}

/// `strip_leading` is the suffix past the leading run.
proof fn lemma_strip_leading_at(s: Seq<char>, c: char, j: int)
    requires
        0 <= j <= s.len(),
        forall|k: int| 0 <= k < j ==> s[k] == c,
        j < s.len() ==> s[j] != c,
    ensures
        strip_leading(s, c) == s.subrange(j, s.len() as int),
    decreases j,
{
    if j == 0 {
        assert(s.subrange(0, s.len() as int) =~= s);
    } else {
        let rest = s.subrange(1, s.len() as int);
        lemma_strip_leading_at(rest, c, j - 1);
        assert(rest.subrange(j - 1, rest.len() as int) =~= s.subrange(j, s.len() as int));
    }
}

/// `s` without its leading slashes.
fn strip_leading_slashes<'a>(s: &'a str) -> (r: &'a str)
    ensures
        r@ == strip_leading(s@, '/'),
{
    let n = s.unicode_len();
    let mut i: usize = 0;
    while i < n && s.get_char(i) == '/'
        invariant
            n == s@.len(),
            i <= n,
            forall|k: int| 0 <= k < i ==> s@[k] == '/',
        decreases n - i,
    {
        i = i + 1;
    }
    let r = s.substring_char(i, n);
    proof {
        lemma_strip_leading_at(s@, '/', i as int);
    }
    r
}

/// `s` without one trailing `.git`, when it ends with one.
fn strip_git_suffix<'a>(s: &'a str) -> (r: &'a str)
    ensures
        r@ == strip_one_suffix(s@, ".git"@),
{
    let n = s.unicode_len();
    if ends_with_str(s, ".git") {
        proof {
            reveal_strlit(".git");
        }
        s.substring_char(0, n - 4)
    } else {
        s
    }
}

/// Owner, repository and normalized URL from a host and a stripped path.
///
/// The first two `/`-separated components of the path become owner and
/// repository; with fewer than two components there is no result.  The
/// normalized URL is `https://HOST/PATH` with the whole path.
pub fn remote_info_from_parts(host: &str, path: &str) -> (r: Option<RemoteInfo>)
    ensures
        match r {
            Some(ri) => owner_repo_url(host@, path@) == Some(ri.model()),
            None => owner_repo_url(host@, path@) is None,
        },
{
    let n = path.unicode_len();
    match find_char(path, '/') {
        None => None,
        Some(si) => {
            let owner = path.substring_char(0, si).to_owned();
            let after = path.substring_char(si + 1, n);
            let m = after.unicode_len();
            let si2 = match find_char(after, '/') {
                Some(k) => k,
                None => m,
            };
            let repo = after.substring_char(0, si2).to_owned();
            let url = String::from_str("https://").concat(host).concat("/").concat(path);
            let ri = RemoteInfo { url, provider: detect_provider(host), owner, repo };
            proof {
                assert(ri.url@ =~= "https://"@ + host@ + "/"@ + path@);
                assert(Some(ri.model()) =~~= owner_repo_url(host@, path@));
            }
            Some(ri)
        },
    }
}

/// Parse the SSH form `git@HOST:OWNER/REPO[.git]`.
fn parse_scp_url(u: &str) -> (r: Option<RemoteInfo>)
    requires
        is_prefix_of("git@"@, u@),
    ensures
        match r {
            Some(ri) => parse_scp(u@) == Some(ri.model()),
            None => parse_scp(u@) is None,
        },
{
    let n = u.unicode_len();
    proof {
        reveal_strlit("git@");
    }
    let rest = u.substring_char(4, n);
    match find_char(rest, ':') {
        None => None,
        Some(ci) => {
            let m = rest.unicode_len();
            let host = rest.substring_char(0, ci);
            let tail = rest.substring_char(ci + 1, m);
            match find_char(tail, ':') {
                Some(_) => None,
                None => {
                    let path = strip_git_suffix(tail);
                    remote_info_from_parts(host, path)
                },
            }
        },
    }
}

/// Parse a remote URL into its provenance record: the SSH form when the
/// `git@` marker leads, else any absolute URL with a host; anything else
/// yields nothing.
pub fn parse_remote_url(url: &str) -> (r: Option<RemoteInfo>)
    ensures
        match r {
            Some(ri) => remote_of(url@) == Some(ri.model()),
            None => remote_of(url@) is None,
        },
{
    if starts_with_str(url, "git@") {
        parse_scp_url(url)
    } else {
        match url_host_path(url) {
            None => None,
            Some(hp) => {
                let stripped = strip_git_suffix(strip_leading_slashes(hp.1.as_str()));
                remote_info_from_parts(hp.0.as_str(), stripped)
            },
        }
    }
}

} // verus!
