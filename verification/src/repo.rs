//! The repository the tool runs in: the text that git prints, and the owner and name of
//! the GitHub repository behind a remote URL.
use vstd::prelude::*;

use crate::text::{
    ends_with, occurs_at, lemma_find_from_first, lemma_find_from_absent, lemma_find_from_some,
    lemma_absent_char, chars_of, contains_text, find, find_exec, first_piece, second_piece, starts_with,
    string_from_range, string_from_utf8, strip_suffixes, trim_whitespace, trim_ws,
};

verus! {

/// Why the repository could not be determined.
#[derive(Clone, Copy, Debug, PartialEq, Eq, Structural)]
pub enum RepoError {
    /// A git command printed bytes that are not UTF-8.
    InvalidUtf8,
    /// No remote URL was found.
    NoRemote,
    /// The remote URL does not name `github.com`.
    NotGitHub,
    /// An SSH remote URL lacks `github.com:`.
    InvalidSshUrl,
    /// An HTTPS remote URL lacks `github.com/`.
    InvalidHttpsUrl,
    /// The path after the host does not hold both an owner and a repository.
    MissingOwnerOrRepo,
}

/// The remotes tried, in order, for the repository URL.
pub open spec fn remote_names_spec() -> Seq<Seq<char>> {
    seq!["origin"@, "upstream"@]
}

/// The remotes tried, in order, for the repository URL.
pub fn remote_names() -> (names: Vec<&'static str>)
    ensures
        names@.map_values(|n: &'static str| n@) == remote_names_spec(),
{
    let names = vec!["origin", "upstream"];
    assert(names@.map_values(|n: &'static str| n@) =~= remote_names_spec());
    names
}

/// The text that a successful git command printed: its output decoded as UTF-8 and
/// trimmed of white space; `InvalidUtf8` when the output is not UTF-8.
pub fn command_output_text(stdout: Vec<u8>) -> (r: Result<String, RepoError>)
    ensures
        r is Err <==> !vstd::utf8::valid_utf8(stdout@),
        r matches Err(e) ==> e == RepoError::InvalidUtf8,
        r matches Ok(s) ==> s@ == trim_ws(vstd::utf8::decode_utf8(stdout@)),
{
    match string_from_utf8(stdout) {
        Some(s) => Ok(trim_whitespace(s.as_str())),
        None => Err(RepoError::InvalidUtf8),
    }
}

/// Whether a remote URL names GitHub, which ends the search through the remotes.
pub open spec fn names_github(url: Seq<char>) -> bool {
    contains_text(url, "github.com"@)
}

/// One step of the search through the remotes: the URL found so far and the text that
/// `git remote get-url` printed for the next remote (`None` when the command failed)
/// give the URL found now, and whether the search stops.
pub fn next_remote_url(current: String, fetched: Option<String>) -> (r: (String, bool))
    ensures
        match fetched {
            Some(u) => r.0@ == u@ && r.1 == names_github(u@),
            None => r.0@ == current@ && !r.1,
        },
{
    match fetched {
        Some(u) => {
            let v = chars_of(u.as_str());
            let pat = chars_of("github.com");
            let hit = find_exec(&v, &pat).is_some();
            (u, hit)
        },
        None => (current, false),
    }
}

/// The owner and repository named by the path `t` after the host: the pieces before the
/// first `/` and between the first and the second `/`.
pub open spec fn owner_and_repo(t: Seq<char>) -> Result<(Seq<char>, Seq<char>), RepoError> {
    match second_piece(t, "/"@) {
        Some(repo) => Ok((first_piece(t, "/"@), repo)),
        None => Err(RepoError::MissingOwnerOrRepo),
    }
}

/// The owner and repository of a GitHub remote URL. An SSH URL (starting with `git@`)
/// is cut after `github.com:`, any other after `github.com/`; the piece up to the next
/// occurrence of that separator, without its trailing `.git` suffixes, is split at `/`.
pub open spec fn parse_remote_url(url: Seq<char>) -> Result<(Seq<char>, Seq<char>), RepoError> {
    if url.len() == 0 {
        Err(RepoError::NoRemote)
    } else if !names_github(url) {
        Err(RepoError::NotGitHub)
    } else if starts_with(url, "git@"@) {
        match second_piece(url, "github.com:"@) {
            Some(p) => owner_and_repo(strip_suffixes(p, ".git"@)),
            None => Err(RepoError::InvalidSshUrl),
        }
    } else {
        match second_piece(url, "github.com/"@) {
            Some(p) => owner_and_repo(strip_suffixes(p, ".git"@)),
            None => Err(RepoError::InvalidHttpsUrl),
        }
    }
}

/// Whether `s` begins with `p`.
fn starts_with_exec(s: &Vec<char>, p: &Vec<char>) -> (r: bool)
    ensures
        r == starts_with(s@, p@),
{
    if p.len() > s.len() {
        return false;
    }
    let mut k: usize = 0;
    while k < p.len()
        invariant
            p.len() <= s.len(),
            k <= p.len(),
            forall|m: int| 0 <= m < k ==> s@[m] == p@[m],
        decreases p.len() - k,
    {
        if s[k] != p[k] {
            assert(s@.take(p.len() as int)[k as int] != p@[k as int]);
            return false;
        }
        k = k + 1;
    }
    assert(s@.take(p.len() as int) =~= p@);
    true
}

/// The second piece of `v[from..to]` split at `pat`, as bounds into `v`.
fn second_piece_bounds(v: &Vec<char>, pat: &Vec<char>) -> (r: Option<(usize, usize)>)
    ensures
        r is None ==> second_piece(v@, pat@) is None,
        r matches Some((a, b)) ==> a <= b <= v.len() && second_piece(v@, pat@) == Some(
            v@.subrange(a as int, b as int),
        ),
{
    match find_exec(v, pat) {
        None => None,
        Some(i) => {
            proof {
                crate::text::lemma_find_bounds(v@, pat@);
                assert(find(v@, pat@) == Some(i as int));
            }
            assert(i + pat.len() <= v.len());
            let start = i + pat.len();
            let rest = string_from_range(v, start, v.len());
            let rest_chars = chars_of(rest.as_str());
            match find_exec(&rest_chars, pat) {
                None => {
                    assert(v@.skip(start as int) =~= v@.subrange(start as int, v.len() as int));
                    Some((start, v.len()))
                },
                Some(j) => {
                    proof {
                        crate::text::lemma_find_bounds(rest_chars@, pat@);
                        assert(find(rest_chars@, pat@) == Some(j as int));
                    }
                    assert(v@.skip(start as int).take(j as int) =~= v@.subrange(
                        start as int,
                        start + j,
                    ));
                    Some((start, start + j))
                },
            }
        },
    }
}

/// `v[..end]` without its trailing repetitions of `suf`, as the new end.
fn strip_suffixes_end(v: &Vec<char>, end: usize, suf: &Vec<char>) -> (r: usize)
    requires
        end <= v.len(),
        suf.len() > 0,
    ensures
        r <= end,
        strip_suffixes(v@.take(end as int), suf@) == v@.take(r as int),
{
    let mut e = end;
    loop
        invariant
            e <= end <= v.len(),
            suf.len() > 0,
            strip_suffixes(v@.take(end as int), suf@) == strip_suffixes(v@.take(e as int), suf@),
        decreases e,
    {
        if suf.len() > e {
            return e;
        }
        let start = e - suf.len();
        let hit = crate::text::occurs_at_exec(v, suf, start);
        let ghost t = v@.take(e as int);
        proof {
            assert(t.skip(t.len() - suf.len()) =~= v@.subrange(start as int, e as int));
            assert(t.take(t.len() - suf.len()) =~= v@.take(start as int));
        }
        if !hit {
            return e;
        }
        e = start;
    }
}

/// Builds the owner and repository from the path `v[a..b]` after the host.
fn owner_and_repo_exec(v: &Vec<char>, a: usize, b: usize) -> (r: Result<(String, String), RepoError>)
    requires
        a <= b <= v.len(),
    ensures
        match owner_and_repo(v@.subrange(a as int, b as int)) {
            Ok((o, n)) => r matches Ok((ro, rn)) && ro@ == o && rn@ == n,
            Err(e) => r == Err::<(String, String), RepoError>(e),
        },
{
    let path = string_from_range(v, a, b);
    let t = chars_of(path.as_str());
    let slash = chars_of("/");
    match second_piece_bounds(&t, &slash) {
        None => Err(RepoError::MissingOwnerOrRepo),
        Some((x, y)) => {
            let owner_end = match find_exec(&t, &slash) {
                Some(i) => i,
                None => t.len(),
            };
            proof {
                crate::text::lemma_find_bounds(t@, slash@);
                if owner_end == t.len() {
                    assert(t@.subrange(0, t.len() as int) =~= t@);
                } else {
                    assert(t@.take(owner_end as int) =~= t@.subrange(0, owner_end as int));
                }
            }
            let owner = string_from_range(&t, 0, owner_end);
            let repo = string_from_range(&t, x, y);
            Ok((owner, repo))
        },
    }
}

/// The owner and repository of the GitHub repository behind a remote URL (see
/// `parse_remote_url` for the rule and its errors).
pub fn parse_github_remote(url: &str) -> (r: Result<(String, String), RepoError>)
    ensures
        match parse_remote_url(url@) {
            Ok((o, n)) => r matches Ok((ro, rn)) && ro@ == o && rn@ == n,
            Err(e) => r == Err::<(String, String), RepoError>(e),
        },
{
    let v = chars_of(url);
    if v.len() == 0 {
        return Err(RepoError::NoRemote);
    }
    let host = chars_of("github.com");
    if find_exec(&v, &host).is_none() {
        return Err(RepoError::NotGitHub);
    }
    let ssh_prefix = chars_of("git@");
    let ssh = starts_with_exec(&v, &ssh_prefix);
    let sep = if ssh {
        chars_of("github.com:")
    } else {
        chars_of("github.com/")
    };
    match second_piece_bounds(&v, &sep) {
        None => {
            if ssh {
                Err(RepoError::InvalidSshUrl)
            } else {
                Err(RepoError::InvalidHttpsUrl)
            }
        },
        Some((a, b)) => {
            let suffix = chars_of(".git");
            proof {
                reveal_strlit(".git");
            }
            let piece = string_from_range(&v, a, b);
            let pv = chars_of(piece.as_str());
            let e = strip_suffixes_end(&pv, pv.len(), &suffix);
            assert(pv@.take(pv.len() as int) =~= pv@);
            assert(pv@.take(e as int) =~= pv@.subrange(0, e as int));
            owner_and_repo_exec(&pv, 0, e)
        },
    }
}

// ---------------------------------------------------------------------------
// Laws of remote URLs
// ---------------------------------------------------------------------------

/// An owner as GitHub allows it, for the purpose of the laws below: no `/`, `.` or `:`.
pub open spec fn plain_owner(owner: Seq<char>) -> bool {
    forall|k: int| 0 <= k < owner.len() ==> owner[k] != '/' && owner[k] != '.' && owner[k] != ':'
}

/// A repository name without `/` or `:` that does not end in `.git`.
pub open spec fn plain_repo_name(name: Seq<char>) -> bool {
    &&& forall|k: int| 0 <= k < name.len() ==> name[k] != '/' && name[k] != ':'
    &&& !ends_with(name, ".git"@)
}

proof fn lemma_owner_and_repo_of_path(owner: Seq<char>, name: Seq<char>)
    requires
        plain_owner(owner),
        plain_repo_name(name),
    ensures
        owner_and_repo(owner + "/"@ + name) == Ok::<(Seq<char>, Seq<char>), RepoError>((owner, name)),
{
    reveal_strlit("/");
    let t = owner + "/"@ + name;
    let slash = "/"@;
    assert(occurs_at(t, slash, owner.len() as int)) by {
        assert(t.subrange(owner.len() as int, owner.len() + 1int) =~= slash);
    }
    assert forall|j: int| 0 <= j < owner.len() implies !#[trigger] occurs_at(t, slash, j) by {
        assert(t[j] == owner[j]);
        if occurs_at(t, slash, j) {
            assert(t.subrange(j, j + 1)[0] == slash[0]);
        }
    }
    lemma_find_from_first(t, slash, 0, owner.len() as int);
    let rest = t.skip(owner.len() + 1int);
    assert(rest =~= name);
    lemma_absent_char(name, slash, 0);
    lemma_find_from_absent(name, slash, 0);
    assert(t.take(owner.len() as int) =~= owner);
}

proof fn lemma_strip_git_suffix(owner: Seq<char>, name: Seq<char>)
    requires
        plain_owner(owner),
        plain_repo_name(name),
    ensures
        strip_suffixes(owner + "/"@ + name + ".git"@, ".git"@) == owner + "/"@ + name,
        strip_suffixes(owner + "/"@ + name, ".git"@) == owner + "/"@ + name,
{
    reveal_strlit("/");
    reveal_strlit(".git");
    let git = ".git"@;
    let t = owner + "/"@ + name;
    assert(!ends_with(t, git)) by {
        if ends_with(t, git) {
            if name.len() >= 4 {
                assert(name.skip(name.len() - 4) =~= t.skip(t.len() - 4));
            } else {
                let k = (owner.len() + 1) - (t.len() - 4);
                assert(0 <= k - 1 < 4);
                assert(t.skip(t.len() - 4)[k - 1] == '/');
            }
        }
    }
    assert(strip_suffixes(t, git) == t);
    let u = t + git;
    assert(u.skip(u.len() - git.len()) =~= git);
    assert(u.take(u.len() - git.len()) =~= t);
    assert(strip_suffixes(u, git) == strip_suffixes(u.take(u.len() - git.len()), git));
}

/// Formatting an owner and a repository name into a GitHub remote URL (SSH, HTTPS with
/// `.git`, or HTTPS without it) and parsing the URL gives them back, for owners without
/// `/`, `.` or `:` and names without `/` or `:` that do not end in `.git`.
pub proof fn lemma_parse_formatted_remote(owner: Seq<char>, name: Seq<char>)
    requires
        plain_owner(owner),
        plain_repo_name(name),
    ensures
        parse_remote_url("git@github.com:"@ + owner + "/"@ + name + ".git"@) == Ok::<
            (Seq<char>, Seq<char>),
            RepoError,
        >((owner, name)),
        parse_remote_url("https://github.com/"@ + owner + "/"@ + name + ".git"@) == Ok::<
            (Seq<char>, Seq<char>),
            RepoError,
        >((owner, name)),
        parse_remote_url("https://github.com/"@ + owner + "/"@ + name) == Ok::<
            (Seq<char>, Seq<char>),
            RepoError,
        >((owner, name)),
{
    lemma_owner_and_repo_of_path(owner, name);
    lemma_strip_git_suffix(owner, name);
    lemma_ssh_piece(owner, name);
    reveal_strlit(".git");
    assert forall|k: int| 0 <= k < (name + ".git"@).len() implies (name + ".git"@)[k] != '/' by {
        if k < name.len() {
            assert((name + ".git"@)[k] == name[k]);
        }
    }
    lemma_https_piece(owner, name + ".git"@);
    lemma_https_piece(owner, name);
    assert(("https://github.com/"@ + owner + "/"@ + name + ".git"@) =~= ("https://github.com/"@
        + owner + "/"@ + (name + ".git"@)));
    assert(owner + "/"@ + (name + ".git"@) =~= owner + "/"@ + name + ".git"@);
}

proof fn lemma_ssh_piece(owner: Seq<char>, name: Seq<char>)
    requires
        plain_owner(owner),
        plain_repo_name(name),
    ensures
        ({
            let url = "git@github.com:"@ + owner + "/"@ + name + ".git"@;
            &&& url.len() > 0
            &&& names_github(url)
            &&& starts_with(url, "git@"@)
            &&& second_piece(url, "github.com:"@) == Some(owner + "/"@ + name + ".git"@)
        }),
{
    reveal_strlit("git@github.com:");
    reveal_strlit("github.com:");
    reveal_strlit("github.com");
    reveal_strlit("git@");
    reveal_strlit("/");
    reveal_strlit(".git");
    let url = "git@github.com:"@ + owner + "/"@ + name + ".git"@;
    let host = "github.com"@;
    let sep = "github.com:"@;
    assert(occurs_at(url, host, 4)) by {
        assert(url.subrange(4, 14) =~= host);
    }
    lemma_find_from_some(url, host, 0, 4);
    assert(url.take(4) =~= "git@"@);
    assert(occurs_at(url, sep, 4)) by {
        assert(url.subrange(4, 15) =~= sep);
    }
    assert forall|j: int| 0 <= j < 4 implies !#[trigger] occurs_at(url, sep, j) by {
        if occurs_at(url, sep, j) {
            let w = url.subrange(j, j + 11);
            if j == 0 {
                assert(w[3] == url[3]);
            } else {
                assert(w[0] == url[j]);
            }
        }
    }
    lemma_find_from_first(url, sep, 0, 4);
    let rest = url.skip(15);
    assert(rest =~= owner + "/"@ + name + ".git"@);
    assert forall|k: int| 0 <= k < rest.len() implies rest[k] != sep[10] by {
        if k < owner.len() {
            assert(rest[k] == owner[k]);
        } else if k > owner.len() && k < owner.len() + 1 + name.len() {
            assert(rest[k] == name[k - owner.len() - 1]);
        }
    }
    lemma_absent_char(rest, sep, 10);
    lemma_find_from_absent(rest, sep, 0);
}

proof fn lemma_https_piece(owner: Seq<char>, name: Seq<char>)
    requires
        plain_owner(owner),
        forall|k: int| 0 <= k < name.len() ==> name[k] != '/',
    ensures
        ({
            let url = "https://github.com/"@ + owner + "/"@ + name;
            &&& url.len() > 0
            &&& names_github(url)
            &&& !starts_with(url, "git@"@)
            &&& second_piece(url, "github.com/"@) == Some(owner + "/"@ + name)
        }),
{
    reveal_strlit("https://github.com/");
    reveal_strlit("github.com/");
    reveal_strlit("github.com");
    reveal_strlit("git@");
    reveal_strlit("/");
    let url = "https://github.com/"@ + owner + "/"@ + name;
    let host = "github.com"@;
    let sep = "github.com/"@;
    assert(occurs_at(url, host, 8)) by {
        assert(url.subrange(8, 18) =~= host);
    }
    lemma_find_from_some(url, host, 0, 8);
    assert(!starts_with(url, "git@"@)) by {
        assert(url.take(4)[0] == 'h');
    }
    assert(occurs_at(url, sep, 8)) by {
        assert(url.subrange(8, 19) =~= sep);
    }
    assert forall|j: int| 0 <= j < 8 implies !#[trigger] occurs_at(url, sep, j) by {
        if occurs_at(url, sep, j) {
            assert(url.subrange(j, j + 11)[0] == url[j]);
        }
    }
    lemma_find_from_first(url, sep, 0, 8);
    let rest = url.skip(19);
    assert(rest =~= owner + "/"@ + name);
    assert forall|j: int| !#[trigger] occurs_at(rest, sep, j) by {
        if occurs_at(rest, sep, j) {
            let w = rest.subrange(j, j + 11);
            assert(w[10] == rest[j + 10]);
            assert(w[6] == rest[j + 6]);
            if j + 10 < owner.len() {
                assert(rest[j + 10] == owner[j + 10]);
            } else if j + 10 > owner.len() {
                assert(rest[j + 10] == name[j + 10 - owner.len() - 1]);
            } else {
                assert(rest[j + 6] == owner[j + 6]);
            }
        }
    }
    lemma_find_from_absent(rest, sep, 0);
}

} // verus!
