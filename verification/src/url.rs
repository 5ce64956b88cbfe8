//! Parser for git forge URLs.

use vstd::prelude::*;
use vstd::string::StrSliceExecFns;
use crate::text::{
    chars_of, find, opt_chars, owned, find_char, find_in_window, occurs_in_window, starts_with, strip_prefix,
    is_white_space, lemma_find_from_first, lemma_find_from_found, lemma_find_none, lemma_trim_idempotent, occurs_at,
    trim_end, trim_start, trim, trim_end_char, trim_end_char_window, trim_window, two_parts,
};

verus! {

broadcast use vstd::string::group_string_axioms;

/// A parsed git forge URL.
///
/// Holds the project identifier and optional tag taken from URLs like
/// `https://github.com/owner/repo` or
/// `https://github.com/owner/repo/releases/tag/v1.0`.
#[derive(Debug, Clone, PartialEq, Eq)]
pub enum PlatformUrl {
    /// A GitHub repository URL.
    GitHub {
        /// The project in `owner/repo` format.
        project: String,
        /// An optional tag name.
        tag: Option<String>,
    },
    /// A GitLab repository URL.
    GitLab {
        /// The project in `owner/repo` format.
        project: String,
        /// An optional tag name.
        tag: Option<String>,
    },
    /// A Codeberg repository URL.
    Codeberg {
        /// The project in `owner/repo` format.
        project: String,
        /// An optional tag name.
        tag: Option<String>,
    },
    /// A Gitea repository URL.
    Gitea {
        /// The Gitea instance hostname.
        instance: String,
        /// The project in `owner/repo` format.
        project: String,
        /// An optional tag name.
        tag: Option<String>,
    },
}

/// The mathematical value of a [`PlatformUrl`]: its forge and its strings
/// as character sequences.
pub enum UrlView {
    GitHub { project: Seq<char>, tag: Option<Seq<char>> },
    GitLab { project: Seq<char>, tag: Option<Seq<char>> },
    Codeberg { project: Seq<char>, tag: Option<Seq<char>> },
    Gitea { instance: Seq<char>, project: Seq<char>, tag: Option<Seq<char>> },
}

/// The first of two options that is `Some`.
pub open spec fn or_else<T>(a: Option<T>, b: Option<T>) -> Option<T> {
    if a is Some {
        a
    } else {
        b
    }
}

impl View for PlatformUrl {
    type V = UrlView;

    open spec fn view(&self) -> UrlView {
        match self {
            PlatformUrl::GitHub { project, tag } => UrlView::GitHub {
                project: project@,
                tag: opt_chars(*tag),
            },
            PlatformUrl::GitLab { project, tag } => UrlView::GitLab {
                project: project@,
                tag: opt_chars(*tag),
            },
            PlatformUrl::Codeberg { project, tag } => UrlView::Codeberg {
                project: project@,
                tag: opt_chars(*tag),
            },
            PlatformUrl::Gitea { instance, project, tag } => UrlView::Gitea {
                instance: instance@,
                project: project@,
                tag: opt_chars(*tag),
            },
        }
    }
}

/// The value of an optional parse result.
pub open spec fn opt_url_view(r: Option<PlatformUrl>) -> Option<UrlView> {
    match r {
        Some(u) => Some(u@),
        None => None,
    }
}

/// The separators that may stand between a project and a tag, tried in
/// this order.
pub open spec fn tag_marker(k: int) -> Seq<char> {
    if k == 0 {
        "/releases/tag/"@
    } else if k == 1 {
        "/releases/"@
    } else if k == 2 {
        "/tags/"@
    } else {
        "/tag/"@
    }
}

/// Project and tag of `path`, trying the tag markers from the `k`-th on.
///
/// The first marker found with a non-empty text after it decides: what
/// precedes it must be a valid project. With none, the whole path must be a
/// valid project and there is no tag.
pub open spec fn project_and_tag_from(path: Seq<char>, k: int) -> Option<
    (Seq<char>, Option<Seq<char>>),
>
    decreases 4 - k,
{
    if k >= 4 {
        if two_parts(path, '/') {
            Some((path, None))
        } else {
            None
        }
    } else {
        match find(path, tag_marker(k)) {
            Some(idx) => if idx + tag_marker(k).len() < path.len() {
                let project = path.subrange(0, idx);
                if two_parts(project, '/') {
                    Some(
                        (
                            project,
                            Some(path.subrange(idx + tag_marker(k).len(), path.len() as int)),
                        ),
                    )
                } else {
                    None
                }
            } else {
                project_and_tag_from(path, k + 1)
            },
            None => project_and_tag_from(path, k + 1),
        }
    }
}

/// Project (`owner/repo`) and optional tag of the path part of a URL,
/// trailing slashes ignored.
pub open spec fn project_and_tag(path: Seq<char>) -> Option<(Seq<char>, Option<Seq<char>>)> {
    project_and_tag_from(trim_end_char(path, '/'), 0)
}

/// The parse of a GitHub URL from the path after the host.
pub open spec fn github_url(rest: Seq<char>) -> Option<UrlView> {
    match project_and_tag(rest) {
        Some((p, t)) => Some(UrlView::GitHub { project: p, tag: t }),
        None => None,
    }
}

/// The parse of a GitLab URL from the path after the host.
pub open spec fn gitlab_url(rest: Seq<char>) -> Option<UrlView> {
    match project_and_tag(rest) {
        Some((p, t)) => Some(UrlView::GitLab { project: p, tag: t }),
        None => None,
    }
}

/// The parse of a Codeberg URL from the path after the host.
pub open spec fn codeberg_url(rest: Seq<char>) -> Option<UrlView> {
    match project_and_tag(rest) {
        Some((p, t)) => Some(UrlView::Codeberg { project: p, tag: t }),
        None => None,
    }
}

/// The parse of a URL of a self-hosted Gitea instance, without its scheme:
/// the host runs up to the first slash, the rest gives project and tag.
pub open spec fn gitea_url(w: Seq<char>) -> Option<UrlView> {
    match find_char(w, '/') {
        Some(i) => match project_and_tag(w.subrange(i + 1, w.len() as int)) {
            Some((p, t)) => Some(UrlView::Gitea { instance: w.subrange(0, i), project: p, tag: t }),
            None => None,
        },
        None => None,
    }
}

/// What `PlatformUrl::parse` gives for `input`.
pub open spec fn parse_url(input: Seq<char>) -> Option<UrlView> {
    let s = trim(input);
    let github = or_else(
        strip_prefix(s, "https://github.com/"@),
        strip_prefix(s, "http://github.com/"@),
    );
    let gitlab = or_else(
        strip_prefix(s, "https://gitlab.com/"@),
        strip_prefix(s, "http://gitlab.com/"@),
    );
    let codeberg = or_else(
        strip_prefix(s, "https://codeberg.org/"@),
        strip_prefix(s, "http://codeberg.org/"@),
    );
    if s.len() == 0 {
        None
    } else if github is Some {
        github_url(github->0)
    } else if gitlab is Some {
        gitlab_url(gitlab->0)
    } else if codeberg is Some {
        codeberg_url(codeberg->0)
    } else if starts_with(s, "http://"@) || starts_with(s, "https://"@) {
        match or_else(strip_prefix(s, "https://"@), strip_prefix(s, "http://"@)) {
            Some(w) => gitea_url(w),
            None => None,
        }
    } else {
        None
    }
}

/// The value of an optional (project, tag) pair.
pub open spec fn pt_view(r: Option<(String, Option<String>)>) -> Option<
    (Seq<char>, Option<Seq<char>>),
> {
    match r {
        Some((p, t)) => Some((p@, opt_chars(t))),
        None => None,
    }
}

/// The new start of the window `v[lo..hi]` once `p` is stripped from its
/// front, if it begins with `p`.
fn strip_prefix_window(v: &Vec<char>, lo: usize, hi: usize, p: &Vec<char>) -> (r: Option<usize>)
    requires
        lo <= hi <= v@.len(),
    ensures
        match strip_prefix(v@.subrange(lo as int, hi as int), p@) {
            Some(rest) => r == Some((lo + p@.len()) as usize) && lo + p@.len() <= hi && rest
                == v@.subrange(lo + p@.len(), hi as int),
            None => r is None,
        },
{
    if occurs_in_window(v, lo, hi, p, lo) {
        assert(v@.subrange(lo as int, hi as int).subrange(p@.len() as int, hi - lo) =~= v@.subrange(
            lo + p@.len(),
            hi as int,
        ));
        Some(lo + p.len())
    } else {
        None
    }
}

/// Whether the window `v[lo..hi]` splits at `c` into exactly two non-empty
/// parts.
fn two_parts_window(v: &Vec<char>, lo: usize, hi: usize, c: char) -> (b: bool)
    requires
        lo <= hi <= v@.len(),
    ensures
        b == two_parts(v@.subrange(lo as int, hi as int), c),
{
    let ghost s = v@.subrange(lo as int, hi as int);
    let mut first: Option<usize> = None;
    let mut i = lo;
    while i < hi
        invariant
            lo <= i <= hi <= v@.len(),
            s == v@.subrange(lo as int, hi as int),
            match first {
                None => forall|j: int| lo <= j < i ==> v@[j] != c,
                Some(f) => lo <= f < i && v@[f as int] == c && forall|j: int|
                    lo <= j < i && j != f ==> v@[j] != c,
            },
        decreases hi - i,
    {
        if v[i] == c {
            match first {
                None => {
                    first = Some(i);
                },
                Some(f) => {
                    assert forall|k: int| 0 < k < s.len() - 1 && s[k] == c implies exists|j: int|
                        0 <= j < s.len() && j != k && s[j] == c by {
                        if k == f - lo {
                            assert(s[i - lo] == c);
                        } else {
                            assert(s[f - lo] == c);
                        }
                    }
                    return false;
                },
            }
        }
        i = i + 1;
    }
    match first {
        None => {
            assert forall|k: int| 0 <= k < s.len() implies s[k] != c by {
                assert(s[k] == v@[lo + k]);
            }
            false
        },
        Some(f) => {
            if f > lo && f + 1 < hi {
                let ghost k = f - lo;
                assert(s[k] == c);
                assert forall|j: int| 0 <= j < s.len() && j != k implies s[j] != c by {
                    assert(s[j] == v@[lo + j]);
                }
                true
            } else {
                assert forall|k: int| 0 < k < s.len() - 1 implies !(s[k] == c && (forall|j: int|
                    0 <= j < s.len() && j != k ==> s[j] != c)) by {
                    assert(s[k] == v@[lo + k]);
                }
                false
            }
        },
    }
}

/// The characters of the `k`-th tag marker.
fn tag_marker_chars(k: usize) -> (r: Vec<char>)
    requires
        k < 4,
    ensures
        r@ == tag_marker(k as int),
{
    if k == 0 {
        chars_of("/releases/tag/")
    } else if k == 1 {
        chars_of("/releases/")
    } else if k == 2 {
        chars_of("/tags/")
    } else {
        chars_of("/tag/")
    }
}

/// The characters `v[lo..hi]` of `input` as an owned string.
fn substring(input: &str, v: &Vec<char>, lo: usize, hi: usize) -> (r: String)
    requires
        v@ == input@,
        lo <= hi <= v@.len(),
    ensures
        r@ == v@.subrange(lo as int, hi as int),
{
    owned(input.substring_char(lo, hi))
}

/// The project, if the window `v[lo..hi]` is one (`owner/repo`).
fn validate_project(input: &str, v: &Vec<char>, lo: usize, hi: usize) -> (r: Option<String>)
    requires
        v@ == input@,
        lo <= hi <= v@.len(),
    ensures
        match r {
            Some(p) => two_parts(v@.subrange(lo as int, hi as int), '/') && p@ == v@.subrange(
                lo as int,
                hi as int,
            ),
            None => !two_parts(v@.subrange(lo as int, hi as int), '/'),
        },
{
    if two_parts_window(v, lo, hi, '/') {
        Some(substring(input, v, lo, hi))
    } else {
        None
    }
}

/// Project and optional tag of the path `v[lo..hi]` of `input`.
fn parse_project_and_tag(input: &str, v: &Vec<char>, lo: usize, hi: usize) -> (r: Option<
    (String, Option<String>),
>)
    requires
        v@ == input@,
        lo <= hi <= v@.len(),
    ensures
        pt_view(r) == project_and_tag(v@.subrange(lo as int, hi as int)),
{
    let end = trim_end_char_window(v, lo, hi, '/');
    let ghost path = v@.subrange(lo as int, end as int);
    let mut k: usize = 0;
    while k < 4
        invariant
            0 <= k <= 4,
            lo <= end <= hi <= v@.len(),
            v@ == input@,
            path == v@.subrange(lo as int, end as int),
            project_and_tag(v@.subrange(lo as int, hi as int)) == project_and_tag_from(
                path,
                k as int,
            ),
        decreases 4 - k,
    {
        let marker = tag_marker_chars(k);
        match find_in_window(v, lo, end, &marker) {
            Some(idx) => {
                assert(find(path, tag_marker(k as int)) == Some((idx - lo) as int));
                if idx - lo + marker.len() < end - lo {
                    assert(path.len() == end - lo);
                    assert(path.subrange(0, idx - lo) =~= v@.subrange(lo as int, idx as int));
                    assert(path.subrange(idx - lo + marker@.len(), path.len() as int)
                        =~= v@.subrange(idx + marker@.len(), end as int));
                    match validate_project(input, v, lo, idx) {
                        Some(project) => {
                            let tag = substring(input, v, idx + marker.len(), end);
                            return Some((project, Some(tag)));
                        },
                        None => {
                            return None;
                        },
                    }
                }
            },
            None => {},
        }
        k = k + 1;
    }
    match validate_project(input, v, lo, end) {
        Some(project) => Some((project, None)),
        None => None,
    }
}

impl PlatformUrl {
    /// Parses a URL string into a `PlatformUrl`.
    ///
    /// Returns `None` if the input is empty or doesn't match any known forge.
    pub fn parse(input: &str) -> (r: Option<Self>)
        ensures
            opt_url_view(r) == parse_url(input@),
    {
        let v = chars_of(input);
        let (lo, hi) = trim_window(&v, 0, v.len());
        assert(v@.subrange(0, v@.len() as int) =~= v@);
        let ghost s = v@.subrange(lo as int, hi as int);
        if lo == hi {
            return None;
        }
        let rest = match strip_prefix_window(&v, lo, hi, &chars_of("https://github.com/")) {
            Some(r) => Some(r),
            None => strip_prefix_window(&v, lo, hi, &chars_of("http://github.com/")),
        };
        if let Some(start) = rest {
            return Self::parse_github(input, &v, start, hi);
        }
        let rest = match strip_prefix_window(&v, lo, hi, &chars_of("https://gitlab.com/")) {
            Some(r) => Some(r),
            None => strip_prefix_window(&v, lo, hi, &chars_of("http://gitlab.com/")),
        };
        if let Some(start) = rest {
            return Self::parse_gitlab(input, &v, start, hi);
        }
        let rest = match strip_prefix_window(&v, lo, hi, &chars_of("https://codeberg.org/")) {
            Some(r) => Some(r),
            None => strip_prefix_window(&v, lo, hi, &chars_of("http://codeberg.org/")),
        };
        if let Some(start) = rest {
            return Self::parse_codeberg(input, &v, start, hi);
        }
        let http = strip_prefix_window(&v, lo, hi, &chars_of("http://"));
        let https = strip_prefix_window(&v, lo, hi, &chars_of("https://"));
        if http.is_some() || https.is_some() {
            return Self::parse_gitea(input, &v, lo, hi);
        }
        None
    }

    fn parse_github(input: &str, v: &Vec<char>, lo: usize, hi: usize) -> (r: Option<Self>)
        requires
            v@ == input@,
            lo <= hi <= v@.len(),
        ensures
            opt_url_view(r) == github_url(v@.subrange(lo as int, hi as int)),
    {
        let (project, tag) = match parse_project_and_tag(input, v, lo, hi) {
            Some(pt) => pt,
            None => return None,
        };
        Some(Self::GitHub { project, tag })
    }

    fn parse_gitlab(input: &str, v: &Vec<char>, lo: usize, hi: usize) -> (r: Option<Self>)
        requires
            v@ == input@,
            lo <= hi <= v@.len(),
        ensures
            opt_url_view(r) == gitlab_url(v@.subrange(lo as int, hi as int)),
    {
        let (project, tag) = match parse_project_and_tag(input, v, lo, hi) {
            Some(pt) => pt,
            None => return None,
        };
        Some(Self::GitLab { project, tag })
    }

    fn parse_codeberg(input: &str, v: &Vec<char>, lo: usize, hi: usize) -> (r: Option<Self>)
        requires
            v@ == input@,
            lo <= hi <= v@.len(),
        ensures
            opt_url_view(r) == codeberg_url(v@.subrange(lo as int, hi as int)),
    {
        let (project, tag) = match parse_project_and_tag(input, v, lo, hi) {
            Some(pt) => pt,
            None => return None,
        };
        Some(Self::Codeberg { project, tag })
    }

    /// Parses `v[lo..hi]` as the URL of a self-hosted Gitea instance: the
    /// scheme is stripped, the host runs up to the next slash.
    fn parse_gitea(input: &str, v: &Vec<char>, lo: usize, hi: usize) -> (r: Option<Self>)
        requires
            v@ == input@,
            lo <= hi <= v@.len(),
        ensures
            opt_url_view(r) == match or_else(
                strip_prefix(v@.subrange(lo as int, hi as int), "https://"@),
                strip_prefix(v@.subrange(lo as int, hi as int), "http://"@),
            ) {
                Some(w) => gitea_url(w),
                None => None,
            },
    {
        let without_scheme = match strip_prefix_window(v, lo, hi, &chars_of("https://")) {
            Some(r) => Some(r),
            None => strip_prefix_window(v, lo, hi, &chars_of("http://")),
        };
        let start = match without_scheme {
            Some(start) => start,
            None => return None,
        };
        let ghost w = v@.subrange(start as int, hi as int);
        let slash_chars = vec!['/'];
        assert(slash_chars@ =~= seq!['/']);
        let slash = match find_in_window(v, start, hi, &slash_chars) {
            Some(i) => i,
            None => return None,
        };
        assert(w.subrange(slash - start + 1, w.len() as int) =~= v@.subrange(slash + 1, hi as int));
        assert(w.subrange(0, slash - start) =~= v@.subrange(start as int, slash as int));
        let (project, tag) = match parse_project_and_tag(input, v, slash + 1, hi) {
            Some(pt) => pt,
            None => return None,
        };
        let instance = substring(input, v, start, slash);
        Some(Self::Gitea { instance, project, tag })
    }
}

/// The project of a parsed URL.
pub open spec fn url_project(u: UrlView) -> Seq<char> {
    match u {
        UrlView::GitHub { project, .. } => project,
        UrlView::GitLab { project, .. } => project,
        UrlView::Codeberg { project, .. } => project,
        UrlView::Gitea { project, .. } => project,
    }
}

/// The tag of a parsed URL.
pub open spec fn url_tag(u: UrlView) -> Option<Seq<char>> {
    match u {
        UrlView::GitHub { tag, .. } => tag,
        UrlView::GitLab { tag, .. } => tag,
        UrlView::Codeberg { tag, .. } => tag,
        UrlView::Gitea { tag, .. } => tag,
    }
}

/// A project and tag found from the `k`-th marker on are well formed: the
/// project is `owner/repo`, a tag is not empty.
proof fn lemma_project_and_tag_from_well_formed(path: Seq<char>, k: int)
    ensures
        project_and_tag_from(path, k) matches Some((p, t)) ==> two_parts(p, '/') && (t matches Some(
            x,
        ) ==> x.len() > 0),
    decreases 4 - k,
{
    if k < 4 {
        lemma_find_from_found(path, tag_marker(k), 0);
        lemma_project_and_tag_from_well_formed(path, k + 1);
    }
}

/// Whatever `PlatformUrl::parse` accepts has an `owner/repo` project (one
/// slash, both sides non-empty) and, if it has a tag, a non-empty one.
pub proof fn lemma_parse_result_well_formed(input: Seq<char>)
    ensures
        parse_url(input) matches Some(u) ==> two_parts(url_project(u), '/') && (url_tag(
            u,
        ) matches Some(t) ==> t.len() > 0),
{
    let s = trim(input);
    let github = or_else(
        strip_prefix(s, "https://github.com/"@),
        strip_prefix(s, "http://github.com/"@),
    );
    let gitlab = or_else(
        strip_prefix(s, "https://gitlab.com/"@),
        strip_prefix(s, "http://gitlab.com/"@),
    );
    let codeberg = or_else(
        strip_prefix(s, "https://codeberg.org/"@),
        strip_prefix(s, "http://codeberg.org/"@),
    );
    if github is Some {
        lemma_project_and_tag_from_well_formed(trim_end_char(github->0, '/'), 0);
    }
    if gitlab is Some {
        lemma_project_and_tag_from_well_formed(trim_end_char(gitlab->0, '/'), 0);
    }
    if codeberg is Some {
        lemma_project_and_tag_from_well_formed(trim_end_char(codeberg->0, '/'), 0);
    }
    match or_else(strip_prefix(s, "https://"@), strip_prefix(s, "http://"@)) {
        Some(w) => {
            if let Some(i) = find_char(w, '/') {
                lemma_project_and_tag_from_well_formed(
                    trim_end_char(w.subrange(i + 1, w.len() as int), '/'),
                    0,
                );
            }
        },
        None => {},
    }
}

/// White space around a URL does not change what it parses to.
pub proof fn lemma_parse_ignores_surrounding_white_space(input: Seq<char>)
    ensures
        parse_url(input) == parse_url(trim(input)),
{
    lemma_trim_idempotent(input);
}

/// Each tag marker is at least two characters long and begins and ends
/// with a slash.
proof fn lemma_tag_marker_slashes(k: int)
    ensures
        tag_marker(k).len() >= 2,
        tag_marker(k)[0] == '/',
        tag_marker(k).last() == '/',
{
    reveal_strlit("/releases/tag/");
    reveal_strlit("/releases/");
    reveal_strlit("/tags/");
    reveal_strlit("/tag/");
}

/// A path with a single slash holds no tag marker.
proof fn lemma_no_tag_marker(s: Seq<char>, slash: int, k: int)
    requires
        forall|j: int| 0 <= j < s.len() && s[j] == '/' ==> j == slash,
    ensures
        find(s, tag_marker(k)) is None,
{
    let m = tag_marker(k);
    lemma_tag_marker_slashes(k);
    assert forall|i: int| !#[trigger] occurs_at(s, m, i) by {
        if occurs_at(s, m, i) {
            assert(s.subrange(i, i + m.len())[0] == s[i]);
            assert(s.subrange(i, i + m.len())[m.len() - 1] == s[i + m.len() - 1]);
        }
    }
    lemma_find_none(s, m);
}

/// `owner/repo` is a project and holds no other slash.
proof fn lemma_owner_repo(owner: Seq<char>, repo: Seq<char>)
    requires
        owner.len() > 0,
        repo.len() > 0,
        !owner.contains('/'),
        !repo.contains('/'),
    ensures
        two_parts(owner + seq!['/'] + repo, '/'),
        forall|j: int|
            0 <= j < (owner + seq!['/'] + repo).len() && (owner + seq!['/'] + repo)[j] == '/' ==> j
                == owner.len(),
        (owner + seq!['/'] + repo).last() == repo.last(),
{
    let p = owner + seq!['/'] + repo;
    let s1 = owner.len() as int;
    assert forall|j: int| 0 <= j < p.len() && p[j] == '/' implies j == s1 by {
        if j < s1 {
            assert(p[j] == owner[j]);
            assert(owner.contains(owner[j]));
        } else if j > s1 {
            assert(p[j] == repo[j - s1 - 1]);
            assert(repo.contains(repo[j - s1 - 1]));
        }
    }
    assert(p[s1] == '/');
    assert(p.last() == repo[repo.len() - 1]);
}

/// A text that differs from `p` at index `i` does not begin with `p`.
proof fn lemma_differs_at(s: Seq<char>, p: Seq<char>, i: int)
    requires
        0 <= i < s.len(),
        i < p.len(),
        s[i] != p[i],
    ensures
        !starts_with(s, p),
{
    if starts_with(s, p) {
        assert(s.subrange(0, p.len() as int)[i] == s[i]);
    }
}

/// The path `owner/repo` gives back that project and no tag.
proof fn lemma_owner_repo_path(owner: Seq<char>, repo: Seq<char>)
    requires
        owner.len() > 0,
        repo.len() > 0,
        !owner.contains('/'),
        !repo.contains('/'),
    ensures
        project_and_tag(owner + seq!['/'] + repo) == Some(
            (owner + seq!['/'] + repo, None::<Seq<char>>),
        ),
{
    let rest = owner + seq!['/'] + repo;
    lemma_owner_repo(owner, repo);
    assert(rest.last() != '/') by {
        assert(rest[rest.len() - 1] == rest.last());
    }
    assert(trim_end_char(rest, '/') == rest);
    lemma_no_tag_marker(rest, owner.len() as int, 0);
    lemma_no_tag_marker(rest, owner.len() as int, 1);
    lemma_no_tag_marker(rest, owner.len() as int, 2);
    lemma_no_tag_marker(rest, owner.len() as int, 3);
    assert(project_and_tag_from(rest, 4) == Some((rest, None::<Seq<char>>)));
    assert(project_and_tag_from(rest, 3) == Some((rest, None::<Seq<char>>)));
    assert(project_and_tag_from(rest, 2) == Some((rest, None::<Seq<char>>)));
    assert(project_and_tag_from(rest, 1) == Some((rest, None::<Seq<char>>)));
}

/// A URL made of `prefix` (a scheme and host ending in a slash) and
/// `owner/repo` is left as it is by trimming, and stripping `prefix` from
/// it leaves `owner/repo`.
proof fn lemma_strip_host(prefix: Seq<char>, owner: Seq<char>, repo: Seq<char>)
    requires
        prefix.len() > 0,
        prefix[0] == 'h',
        owner.len() > 0,
        repo.len() > 0,
        !is_white_space(repo.last()),
    ensures
        trim(prefix + owner + seq!['/'] + repo) == prefix + owner + seq!['/'] + repo,
        strip_prefix(prefix + owner + seq!['/'] + repo, prefix) == Some(owner + seq!['/'] + repo),
{
    let rest = owner + seq!['/'] + repo;
    let input = prefix + rest;
    assert(input =~= prefix + owner + seq!['/'] + repo);
    assert(input[0] == 'h');
    assert(trim_start(input) == input);
    assert(input.last() == rest.last());
    assert(rest.last() == repo.last()) by {
        assert(rest[rest.len() - 1] == repo[repo.len() - 1]);
    }
    assert(trim_end(input) == input);
    assert(input.subrange(0, prefix.len() as int) =~= prefix);
    assert(input.subrange(prefix.len() as int, input.len() as int) =~= rest);
}

/// A GitHub repository URL gives back its `owner/repo` project and no tag.
pub proof fn lemma_github_url_round_trip(owner: Seq<char>, repo: Seq<char>)
    requires
        owner.len() > 0,
        repo.len() > 0,
        !owner.contains('/'),
        !repo.contains('/'),
        !is_white_space(repo.last()),
    ensures
        parse_url("https://github.com/"@ + owner + seq!['/'] + repo) == Some(
            UrlView::GitHub { project: owner + seq!['/'] + repo, tag: None },
        ),
{
    reveal_strlit("https://github.com/");
    lemma_strip_host("https://github.com/"@, owner, repo);
    lemma_owner_repo_path(owner, repo);
}

/// A GitLab repository URL gives back its `owner/repo` project and no tag.
pub proof fn lemma_gitlab_url_round_trip(owner: Seq<char>, repo: Seq<char>)
    requires
        owner.len() > 0,
        repo.len() > 0,
        !owner.contains('/'),
        !repo.contains('/'),
        !is_white_space(repo.last()),
    ensures
        parse_url("https://gitlab.com/"@ + owner + seq!['/'] + repo) == Some(
            UrlView::GitLab { project: owner + seq!['/'] + repo, tag: None },
        ),
{
    reveal_strlit("https://gitlab.com/");
    reveal_strlit("https://github.com/");
    reveal_strlit("http://github.com/");
    let input = "https://gitlab.com/"@ + owner + seq!['/'] + repo;
    lemma_strip_host("https://gitlab.com/"@, owner, repo);
    lemma_owner_repo_path(owner, repo);
    lemma_differs_at(input, "https://github.com/"@, 11);
    lemma_differs_at(input, "http://github.com/"@, 4);
}

/// A Codeberg repository URL gives back its `owner/repo` project and no
/// tag.
pub proof fn lemma_codeberg_url_round_trip(owner: Seq<char>, repo: Seq<char>)
    requires
        owner.len() > 0,
        repo.len() > 0,
        !owner.contains('/'),
        !repo.contains('/'),
        !is_white_space(repo.last()),
    ensures
        parse_url("https://codeberg.org/"@ + owner + seq!['/'] + repo) == Some(
            UrlView::Codeberg { project: owner + seq!['/'] + repo, tag: None },
        ),
{
    reveal_strlit("https://codeberg.org/");
    reveal_strlit("https://github.com/");
    reveal_strlit("http://github.com/");
    reveal_strlit("https://gitlab.com/");
    reveal_strlit("http://gitlab.com/");
    let input = "https://codeberg.org/"@ + owner + seq!['/'] + repo;
    lemma_strip_host("https://codeberg.org/"@, owner, repo);
    lemma_owner_repo_path(owner, repo);
    lemma_differs_at(input, "https://github.com/"@, 8);
    lemma_differs_at(input, "http://github.com/"@, 4);
    lemma_differs_at(input, "https://gitlab.com/"@, 8);
    lemma_differs_at(input, "http://gitlab.com/"@, 4);
}

/// A GitHub release URL gives back its `owner/repo` project and its tag.
#[verifier::spinoff_prover]
#[verifier::rlimit(40)]
pub proof fn lemma_github_release_url_round_trip(owner: Seq<char>, repo: Seq<char>, tag: Seq<char>)
    requires
        owner.len() > 0,
        repo.len() > 0,
        tag.len() > 0,
        !owner.contains('/'),
        !repo.contains('/'),
        tag.last() != '/',
        !is_white_space(tag.last()),
    ensures
        parse_url("https://github.com/"@ + owner + seq!['/'] + repo + "/releases/tag/"@ + tag)
            == Some(UrlView::GitHub { project: owner + seq!['/'] + repo, tag: Some(tag) }),
{
    reveal_strlit("https://github.com/");
    reveal_strlit("/releases/tag/");
    let pre = "https://github.com/"@;
    let m = "/releases/tag/"@;
    let project = owner + seq!['/'] + repo;
    let rest = project + m + tag;
    let input = pre + rest;
    lemma_owner_repo(owner, repo);
    let s1 = owner.len() as int;
    let s2 = project.len() as int;
    assert(input[0] == 'h');
    assert(trim_start(input) == input);
    assert(input.last() == tag.last());
    assert(trim_end(input) == input);
    assert(trim(input) == input);
    assert(input.subrange(0, pre.len() as int) =~= pre);
    assert(input.subrange(pre.len() as int, input.len() as int) =~= rest);
    assert(strip_prefix(input, pre) == Some(rest));
    assert(rest.last() == tag.last());
    assert(trim_end_char(rest, '/') == rest);
    assert(rest.subrange(s2, s2 + m.len()) =~= m);
    assert(occurs_at(rest, m, s2));
    assert forall|k: int| 0 <= k < s2 implies !#[trigger] occurs_at(rest, m, k) by {
        if occurs_at(rest, m, k) {
            assert(rest.subrange(k, k + 14)[0] == rest[k]);
            assert(rest[k] == project[k]);
            assert(k == s1);
            assert(rest.subrange(k, k + 14)[9] == rest[k + 9]);
            if k + 9 < s2 {
                assert(rest[k + 9] == project[k + 9]);
            } else if k + 9 == s2 {
                assert(rest.subrange(k, k + 14)[13] == rest[k + 13]);
                assert(rest[k + 13] == m[4]);
            } else {
                assert(rest[k + 9] == m[k + 9 - s2]);
            }
        }
    }
    lemma_find_from_first(rest, m, s2, 0);
    assert(rest.subrange(0, s2) =~= project);
    assert(rest.subrange(s2 + m.len(), rest.len() as int) =~= tag);
    assert(project_and_tag_from(rest, 0) == Some((project, Some(tag))));
    assert(input =~= "https://github.com/"@ + owner + seq!['/'] + repo + "/releases/tag/"@ + tag);
}

/// A URL on host `host` does not begin with the same URL prefix on another
/// host `known`, when neither holds a slash.
proof fn lemma_other_host(scheme: Seq<char>, host: Seq<char>, rest: Seq<char>, known: Seq<char>)
    requires
        !host.contains('/'),
        !known.contains('/'),
        host != known,
    ensures
        !starts_with(scheme + host + seq!['/'] + rest, scheme + known + seq!['/']),
{
    let a = scheme + host + seq!['/'] + rest;
    let b = scheme + known + seq!['/'];
    let n = scheme.len() as int;
    if starts_with(a, b) {
        let sub = a.subrange(0, b.len() as int);
        if host.len() == known.len() {
            assert forall|i: int| 0 <= i < host.len() implies host[i] == known[i] by {
                assert(sub[n + i] == a[n + i]);
                assert(b[n + i] == known[i]);
            }
            assert(host =~= known);
        } else if host.len() < known.len() {
            let i = host.len() as int;
            assert(sub[n + i] == a[n + i]);
            assert(a[n + i] == '/');
            assert(b[n + i] == known[i]);
            assert(known.contains(known[i]));
        } else {
            let i = known.len() as int;
            assert(sub[n + i] == a[n + i]);
            assert(a[n + i] == host[i]);
            assert(host.contains(host[i]));
            assert(b[n + i] == '/');
        }
    }
}

/// The URL of a repository on a self-hosted Gitea instance gives back the
/// instance's host and the `owner/repo` project, with no tag.
#[verifier::spinoff_prover]
#[verifier::rlimit(40)]
pub proof fn lemma_gitea_url_round_trip(host: Seq<char>, owner: Seq<char>, repo: Seq<char>)
    requires
        host.len() > 0,
        owner.len() > 0,
        repo.len() > 0,
        !host.contains('/'),
        !owner.contains('/'),
        !repo.contains('/'),
        !is_white_space(repo.last()),
        host != "github.com"@,
        host != "gitlab.com"@,
        host != "codeberg.org"@,
    ensures
        parse_url("https://"@ + host + seq!['/'] + owner + seq!['/'] + repo) == Some(
            UrlView::Gitea { instance: host, project: owner + seq!['/'] + repo, tag: None },
        ),
{
    reveal_strlit("https://");
    reveal_strlit("http://");
    reveal_strlit("https://github.com/");
    reveal_strlit("http://github.com/");
    reveal_strlit("https://gitlab.com/");
    reveal_strlit("http://gitlab.com/");
    reveal_strlit("https://codeberg.org/");
    reveal_strlit("http://codeberg.org/");
    reveal_strlit("github.com");
    reveal_strlit("gitlab.com");
    reveal_strlit("codeberg.org");
    let scheme = "https://"@;
    let project = owner + seq!['/'] + repo;
    let w = host + seq!['/'] + project;
    let input = scheme + host + seq!['/'] + owner + seq!['/'] + repo;
    assert(input =~= scheme + w);
    assert(input =~= scheme + host + seq!['/'] + project);
    lemma_strip_host(scheme, host + seq!['/'] + owner, repo);
    assert(scheme + (host + seq!['/'] + owner) + seq!['/'] + repo =~= input);
    assert(input.subrange(0, 8) =~= scheme);
    assert(input.subrange(8, input.len() as int) =~= w);
    assert(strip_prefix(input, scheme) == Some(w));
    assert(starts_with(input, scheme));
    assert("github.com"@.contains('/') == false) by {
        assert forall|i: int| 0 <= i < "github.com"@.len() implies "github.com"@[i] != '/' by {}
    }
    assert("gitlab.com"@.contains('/') == false) by {
        assert forall|i: int| 0 <= i < "gitlab.com"@.len() implies "gitlab.com"@[i] != '/' by {}
    }
    assert("codeberg.org"@.contains('/') == false) by {
        assert forall|i: int| 0 <= i < "codeberg.org"@.len() implies "codeberg.org"@[i] != '/' by {}
    }
    lemma_other_host(scheme, host, project, "github.com"@);
    lemma_other_host(scheme, host, project, "gitlab.com"@);
    lemma_other_host(scheme, host, project, "codeberg.org"@);
    assert("https://github.com/"@ =~= scheme + "github.com"@ + seq!['/']);
    assert("https://gitlab.com/"@ =~= scheme + "gitlab.com"@ + seq!['/']);
    assert("https://codeberg.org/"@ =~= scheme + "codeberg.org"@ + seq!['/']);
    lemma_differs_at(input, "http://github.com/"@, 4);
    lemma_differs_at(input, "http://gitlab.com/"@, 4);
    lemma_differs_at(input, "http://codeberg.org/"@, 4);
    // the host runs up to the first slash
    let slash = seq!['/'];
    let h = host.len() as int;
    assert(w.subrange(h, h + 1) =~= slash);
    assert forall|k: int| 0 <= k < h implies !#[trigger] occurs_at(w, slash, k) by {
        assert(w.subrange(k, k + 1)[0] == w[k]);
        assert(w[k] == host[k]);
        assert(host.contains(host[k]));
    }
    lemma_find_from_first(w, slash, h, 0);
    assert(w.subrange(h + 1, w.len() as int) =~= project);
    assert(w.subrange(0, h) =~= host);
    lemma_owner_repo_path(owner, repo);
}

/// A plain-HTTP GitHub repository URL gives back its `owner/repo` project
/// and no tag, as the HTTPS one does.
pub proof fn lemma_github_http_url_round_trip(owner: Seq<char>, repo: Seq<char>)
    requires
        owner.len() > 0,
        repo.len() > 0,
        !owner.contains('/'),
        !repo.contains('/'),
        !is_white_space(repo.last()),
    ensures
        parse_url("http://github.com/"@ + owner + seq!['/'] + repo) == Some(
            UrlView::GitHub { project: owner + seq!['/'] + repo, tag: None },
        ),
{
    reveal_strlit("http://github.com/");
    reveal_strlit("https://github.com/");
    let input = "http://github.com/"@ + owner + seq!['/'] + repo;
    lemma_strip_host("http://github.com/"@, owner, repo);
    lemma_owner_repo_path(owner, repo);
    lemma_differs_at(input, "https://github.com/"@, 4);
}

/// A plain-HTTP GitLab repository URL gives back its `owner/repo` project
/// and no tag, as the HTTPS one does.
pub proof fn lemma_gitlab_http_url_round_trip(owner: Seq<char>, repo: Seq<char>)
    requires
        owner.len() > 0,
        repo.len() > 0,
        !owner.contains('/'),
        !repo.contains('/'),
        !is_white_space(repo.last()),
    ensures
        parse_url("http://gitlab.com/"@ + owner + seq!['/'] + repo) == Some(
            UrlView::GitLab { project: owner + seq!['/'] + repo, tag: None },
        ),
{
    reveal_strlit("http://gitlab.com/");
    reveal_strlit("https://gitlab.com/");
    reveal_strlit("https://github.com/");
    reveal_strlit("http://github.com/");
    let input = "http://gitlab.com/"@ + owner + seq!['/'] + repo;
    lemma_strip_host("http://gitlab.com/"@, owner, repo);
    lemma_owner_repo_path(owner, repo);
    lemma_differs_at(input, "https://github.com/"@, 4);
    lemma_differs_at(input, "http://github.com/"@, 10);
    lemma_differs_at(input, "https://gitlab.com/"@, 4);
}

/// A plain-HTTP Codeberg repository URL gives back its `owner/repo`
/// project and no tag, as the HTTPS one does.
pub proof fn lemma_codeberg_http_url_round_trip(owner: Seq<char>, repo: Seq<char>)
    requires
        owner.len() > 0,
        repo.len() > 0,
        !owner.contains('/'),
        !repo.contains('/'),
        !is_white_space(repo.last()),
    ensures
        parse_url("http://codeberg.org/"@ + owner + seq!['/'] + repo) == Some(
            UrlView::Codeberg { project: owner + seq!['/'] + repo, tag: None },
        ),
{
    reveal_strlit("http://codeberg.org/");
    reveal_strlit("https://codeberg.org/");
    reveal_strlit("https://github.com/");
    reveal_strlit("http://github.com/");
    reveal_strlit("https://gitlab.com/");
    reveal_strlit("http://gitlab.com/");
    let input = "http://codeberg.org/"@ + owner + seq!['/'] + repo;
    lemma_strip_host("http://codeberg.org/"@, owner, repo);
    lemma_owner_repo_path(owner, repo);
    lemma_differs_at(input, "https://github.com/"@, 4);
    lemma_differs_at(input, "http://github.com/"@, 7);
    lemma_differs_at(input, "https://gitlab.com/"@, 4);
    lemma_differs_at(input, "http://gitlab.com/"@, 7);
    lemma_differs_at(input, "https://codeberg.org/"@, 4);
}

/// The plain-HTTP URL of a repository on a self-hosted Gitea instance
/// gives back the instance's host and the `owner/repo` project, with no
/// tag.
#[verifier::spinoff_prover]
#[verifier::rlimit(40)]
pub proof fn lemma_gitea_http_url_round_trip(host: Seq<char>, owner: Seq<char>, repo: Seq<char>)
    requires
        host.len() > 0,
        owner.len() > 0,
        repo.len() > 0,
        !host.contains('/'),
        !owner.contains('/'),
        !repo.contains('/'),
        !is_white_space(repo.last()),
        host != "github.com"@,
        host != "gitlab.com"@,
        host != "codeberg.org"@,
    ensures
        parse_url("http://"@ + host + seq!['/'] + owner + seq!['/'] + repo) == Some(
            UrlView::Gitea { instance: host, project: owner + seq!['/'] + repo, tag: None },
        ),
{
    reveal_strlit("https://");
    reveal_strlit("http://");
    reveal_strlit("https://github.com/");
    reveal_strlit("http://github.com/");
    reveal_strlit("https://gitlab.com/");
    reveal_strlit("http://gitlab.com/");
    reveal_strlit("https://codeberg.org/");
    reveal_strlit("http://codeberg.org/");
    reveal_strlit("github.com");
    reveal_strlit("gitlab.com");
    reveal_strlit("codeberg.org");
    let scheme = "http://"@;
    let project = owner + seq!['/'] + repo;
    let w = host + seq!['/'] + project;
    let input = scheme + host + seq!['/'] + owner + seq!['/'] + repo;
    assert(input =~= scheme + w);
    assert(input =~= scheme + host + seq!['/'] + project);
    lemma_strip_host(scheme, host + seq!['/'] + owner, repo);
    assert(scheme + (host + seq!['/'] + owner) + seq!['/'] + repo =~= input);
    assert(input.subrange(0, 7) =~= scheme);
    assert(input.subrange(7, input.len() as int) =~= w);
    assert(strip_prefix(input, scheme) == Some(w));
    lemma_differs_at(input, "https://"@, 4);
    assert(starts_with(input, scheme));
    assert("github.com"@.contains('/') == false) by {
        assert forall|i: int| 0 <= i < "github.com"@.len() implies "github.com"@[i] != '/' by {}
    }
    assert("gitlab.com"@.contains('/') == false) by {
        assert forall|i: int| 0 <= i < "gitlab.com"@.len() implies "gitlab.com"@[i] != '/' by {}
    }
    assert("codeberg.org"@.contains('/') == false) by {
        assert forall|i: int| 0 <= i < "codeberg.org"@.len() implies "codeberg.org"@[i] != '/' by {}
    }
    lemma_other_host(scheme, host, project, "github.com"@);
    lemma_other_host(scheme, host, project, "gitlab.com"@);
    lemma_other_host(scheme, host, project, "codeberg.org"@);
    assert("http://github.com/"@ =~= scheme + "github.com"@ + seq!['/']);
    assert("http://gitlab.com/"@ =~= scheme + "gitlab.com"@ + seq!['/']);
    assert("http://codeberg.org/"@ =~= scheme + "codeberg.org"@ + seq!['/']);
    lemma_differs_at(input, "https://github.com/"@, 4);
    lemma_differs_at(input, "https://gitlab.com/"@, 4);
    lemma_differs_at(input, "https://codeberg.org/"@, 4);
    // the host runs up to the first slash
    let slash = seq!['/'];
    let h = host.len() as int;
    assert(w.subrange(h, h + 1) =~= slash);
    assert forall|k: int| 0 <= k < h implies !#[trigger] occurs_at(w, slash, k) by {
        assert(w.subrange(k, k + 1)[0] == w[k]);
        assert(w[k] == host[k]);
        assert(host.contains(host[k]));
    }
    lemma_find_from_first(w, slash, h, 0);
    assert(w.subrange(h + 1, w.len() as int) =~= project);
    assert(w.subrange(0, h) =~= host);
    lemma_owner_repo_path(owner, repo);
}

/// Trailing slashes after a GitHub repository URL do not change what it
/// parses to.
pub proof fn lemma_github_url_trailing_slash(owner: Seq<char>, repo: Seq<char>)
    requires
        owner.len() > 0,
        repo.len() > 0,
        !owner.contains('/'),
        !repo.contains('/'),
        !is_white_space(repo.last()),
    ensures
        parse_url("https://github.com/"@ + owner + seq!['/'] + repo + seq!['/']) == Some(
            UrlView::GitHub { project: owner + seq!['/'] + repo, tag: None },
        ),
{
    reveal_strlit("https://github.com/");
    let pre = "https://github.com/"@;
    let rest = owner + seq!['/'] + repo;
    let input = pre + owner + seq!['/'] + repo + seq!['/'];
    lemma_owner_repo_path(owner, repo);
    lemma_owner_repo(owner, repo);
    assert(input[0] == 'h');
    assert(trim_start(input) == input);
    assert(input.last() == '/');
    assert(trim_end(input) == input);
    assert(trim(input) == input);
    assert(input.subrange(0, pre.len() as int) =~= pre);
    assert(input.subrange(pre.len() as int, input.len() as int) =~= rest + seq!['/']);
    assert(strip_prefix(input, pre) == Some(rest + seq!['/']));
    assert((rest + seq!['/']).drop_last() =~= rest);
    assert(rest.last() != '/') by {
        assert(rest[rest.len() - 1] == rest.last());
    }
    assert(trim_end_char(rest, '/') == rest);
    assert(trim_end_char(rest + seq!['/'], '/') == rest);
}

} // verus!
