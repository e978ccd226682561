//! Repositories named on the command line: `owner/repo` or a GitHub URL.

use vstd::prelude::*;
use vstd::string::StringExecFns;

use crate::locale::has_prefix;
use crate::text::{
    chars_equal_at, chars_of, split_chars, split_on, string_from_chars, strip_all_prefix,
    strip_all_suffix, strip_prefix_bounds, strip_suffix_bounds, trim, trim_bounds,
};

verus! {

/// A GitHub repository.
#[derive(Clone, Debug, PartialEq, Eq)]
pub struct GithubRepo {
    pub owner: String,
    pub repo: String,
}

impl GithubRepo {
    pub fn new(owner: String, repo: String) -> (r: GithubRepo)
        ensures
            r.owner == owner,
            r.repo == repo,
    {
        GithubRepo { owner, repo }
    }
}

/// Why a repository spec could not be read; it holds the trimmed spec.
#[derive(Clone, Debug, PartialEq, Eq)]
pub enum RepoSpecError {
    InvalidFormat { spec: String },
}

impl RepoSpecError {
    /// The message shown for the error.
    pub fn message(&self) -> (r: String)
        ensures
            self matches RepoSpecError::InvalidFormat { spec } && r@ == "Invalid repo format: '"@
                + spec@ + "'. Expected 'owner/repo' or 'https://github.com/owner/repo'"@,
    {
        match self {
            RepoSpecError::InvalidFormat { spec } => {
                let mut m = String::from_str("Invalid repo format: '");
                m.append(spec.as_str());
                m.append("'. Expected 'owner/repo' or 'https://github.com/owner/repo'");
                m
            },
        }
    }
}

/// Owner and name from a list of `/`-separated parts, when the first two are present
/// and non-empty; with `exactly_two`, only when there are no more parts.
pub open spec fn owner_and_name(parts: Seq<Seq<char>>, exactly_two: bool) -> Option<(Seq<char>, Seq<char>)> {
    if (if exactly_two { parts.len() == 2 } else { parts.len() >= 2 }) && parts[0].len() > 0
        && parts[1].len() > 0 {
        Some((parts[0], parts[1]))
    } else {
        None
    }
}

/// The path of a GitHub URL: the scheme and host removed (every leading copy), then
/// every trailing `.git`, then every trailing `/`.
pub open spec fn url_path(t: Seq<char>) -> Seq<char> {
    strip_all_suffix(
        strip_all_suffix(
            strip_all_prefix(strip_all_prefix(t, "https://github.com/"@), "http://github.com/"@),
            ".git"@,
        ),
        "/"@,
    )
}

/// The repository a spec names: the trimmed spec read as a GitHub URL when it starts
/// with one, else as `owner/repo`.
pub open spec fn repo_of_spec(s: Seq<char>) -> Option<(Seq<char>, Seq<char>)> {
    let t = trim(s);
    let from_url = if has_prefix(t, "https://github.com/"@) || has_prefix(t, "http://github.com/"@) {
        owner_and_name(split_on(url_path(t), '/'), false)
    } else {
        None
    };
    if from_url is Some {
        from_url
    } else {
        owner_and_name(split_on(t, '/'), true)
    }
}

fn starts_with_at(v: &Vec<char>, lo: usize, hi: usize, p: &Vec<char>) -> (r: bool)
    requires
        lo <= hi <= v@.len(),
    ensures
        r == has_prefix(v@.subrange(lo as int, hi as int), p@),
{
    if p.len() > hi - lo {
        return false;
    }
    let r = chars_equal_at(v, p, lo, lo + p.len());
    assert(v@.subrange(lo as int, hi as int).take(p@.len() as int) =~= v@.subrange(
        lo as int,
        lo + p@.len(),
    ));
    r
}

/// Owner and name from split parts (see [`owner_and_name`]).
fn pick_owner_and_name(parts: &Vec<Vec<char>>, exactly_two: bool, ghost_parts: Ghost<Seq<Seq<char>>>) -> (r:
    Option<GithubRepo>)
    requires
        parts@.len() == ghost_parts@.len(),
        forall|k: int| 0 <= k < parts@.len() ==> (#[trigger] parts@[k])@ == ghost_parts@[k],
    ensures
        match owner_and_name(ghost_parts@, exactly_two) {
            Some((o, n)) => r matches Some(g) && g.owner@ == o && g.repo@ == n,
            None => r is None,
        },
{
    let count_ok = if exactly_two {
        parts.len() == 2
    } else {
        parts.len() >= 2
    };
    if count_ok && parts[0].len() > 0 && parts[1].len() > 0 {
        let owner = string_from_chars(&parts[0], 0, parts[0].len());
        let repo = string_from_chars(&parts[1], 0, parts[1].len());
        assert(parts@[0]@.subrange(0, parts@[0]@.len() as int) =~= parts@[0]@);
        assert(parts@[1]@.subrange(0, parts@[1]@.len() as int) =~= parts@[1]@);
        Some(GithubRepo::new(owner, repo))
    } else {
        None
    }
}

/// Reads a repository spec: `owner/repo`, or `https://github.com/owner/repo` (also
/// `http://`, with an optional `.git` and trailing `/`).
pub fn parse_repo_spec(spec: &str) -> (r: Result<GithubRepo, RepoSpecError>)
    ensures
        match repo_of_spec(spec@) {
            Some((o, n)) => r matches Ok(g) && g.owner@ == o && g.repo@ == n,
            None => r matches Err(RepoSpecError::InvalidFormat { spec: s }) && s@ == trim(spec@),
        },
{
    let v = chars_of(spec);
    let (lo, hi) = trim_bounds(&v);
    let ghost t = v@.subrange(lo as int, hi as int);
    let https = chars_of("https://github.com/");
    let http = chars_of("http://github.com/");
    if starts_with_at(&v, lo, hi, &https) || starts_with_at(&v, lo, hi, &http) {
        let a = strip_prefix_bounds(&v, lo, hi, &https);
        let a2 = strip_prefix_bounds(&v, a, hi, &http);
        let git = chars_of(".git");
        let b = strip_suffix_bounds(&v, a2, hi, &git);
        let slash = chars_of("/");
        let b2 = strip_suffix_bounds(&v, a2, b, &slash);
        let path = string_from_chars(&v, a2, b2);
        let path_chars = chars_of(path.as_str());
        assert(path_chars@ == url_path(t));
        let parts = split_chars(&path_chars, '/');
        if let Some(repo) = pick_owner_and_name(&parts, false, Ghost(split_on(url_path(t), '/'))) {
            return Ok(repo);
        }
    }
    let trimmed = string_from_chars(&v, lo, hi);
    let tv = chars_of(trimmed.as_str());
    let parts = split_chars(&tv, '/');
    match pick_owner_and_name(&parts, true, Ghost(split_on(t, '/'))) {
        Some(repo) => Ok(repo),
        None => Err(RepoSpecError::InvalidFormat { spec: trimmed }),
    }
}

} // verus!
