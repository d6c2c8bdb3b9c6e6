//! Forge detection: which REST dialect serves a project URL, and the
//! project's canonical identity.
use vstd::prelude::*;
use crate::text::{chars_of, contains, contains_vec, eq_ic, eq_ic_vec, ends_with, ends_with_vec, seq_eq, string_of, sub_vec, trim, trim_vec};
use crate::urls::{parse_url, url_parts_of};

verus! {

/// The three release-API dialects.
#[derive(Debug, Clone, Copy, PartialEq, Eq, Structural)]
pub enum ForgeKind {
    GitHub,
    GitLab,
    /// Gitea and compatible forges, Codeberg among them.
    Gitea,
}

pub open spec fn forge_name(k: ForgeKind) -> Seq<char> {
    match k {
        ForgeKind::GitHub => "github"@,
        ForgeKind::GitLab => "gitlab"@,
        ForgeKind::Gitea => "gitea"@,
    }
}

impl ForgeKind {
    pub fn as_str(&self) -> (r: &'static str)
        ensures
            r@ == forge_name(*self),
    {
        match self {
            ForgeKind::GitHub => "github",
            ForgeKind::GitLab => "gitlab",
            ForgeKind::Gitea => "gitea",
        }
    }
}

/// A project URL resolved to its forge and identity.
#[derive(Debug, Clone)]
pub struct DetectedRepo {
    pub kind: ForgeKind,
    /// "github", "gitlab" or "gitea".
    pub forge_str: &'static str,
    pub host: String,
    /// Owner; on a GitLab-style forge the namespace path (group/subgroup).
    pub owner: String,
    pub name: String,
    /// `scheme://host/<project_path>`.
    pub canonical_url: String,
    /// `owner/name`; on a GitLab-style forge the full project path.
    pub project_path: String,
}

/// The release-API client of the GitHub-style forge.
#[derive(Debug, Clone, Copy)]
pub struct GitHub;

/// Why a URL names no project.
#[derive(Debug, Clone, Copy, PartialEq, Eq, Structural)]
pub enum DetectError {
    InvalidUrl,
    MissingHost,
    EmptyPath,
    /// Fewer than two path segments after normalisation.
    ExpectedOwnerAndName,
}

/// The pieces of a path between slashes, empty ones included.
pub open spec fn pieces(p: Seq<char>) -> Seq<Seq<char>>
    decreases p.len(),
{
    if p.len() == 0 {
        seq![seq![]]
    } else if p.last() == '/' {
        pieces(p.drop_last()).push(seq![])
    } else {
        let ps = pieces(p.drop_last());
        ps.update(ps.len() - 1, ps.last().push(p.last()))
    }
}

/// The non-empty elements of `s`, in order.
pub open spec fn non_empty(s: Seq<Seq<char>>) -> Seq<Seq<char>>
    decreases s.len(),
{
    if s.len() == 0 {
        seq![]
    } else if s.last().len() > 0 {
        non_empty(s.drop_last()).push(s.last())
    } else {
        non_empty(s.drop_last())
    }
}

pub open spec fn path_segments(p: Seq<char>) -> Seq<Seq<char>> {
    non_empty(pieces(p))
}

pub open spec fn drop_latest(s: Seq<Seq<char>>) -> Seq<Seq<char>>
    decreases s.len(),
{
    if s.len() > 0 && eq_ic(s.last(), "latest"@) {
        drop_latest(s.drop_last())
    } else {
        s
    }
}

/// Drops a trailing `-/<word>` pair.
pub open spec fn drop_dash_pair(s: Seq<Seq<char>>, word: Seq<char>) -> Seq<Seq<char>> {
    if s.len() >= 2 && s[s.len() - 2] == "-"@ && eq_ic(s.last(), word) {
        s.subrange(0, s.len() - 2)
    } else {
        s
    }
}

pub open spec fn drop_tags(s: Seq<Seq<char>>) -> Seq<Seq<char>> {
    if s.len() > 0 && eq_ic(s.last(), "tags"@) {
        s.drop_last()
    } else {
        s
    }
}

/// Path segments without the releases, latest and tags suffixes that users
/// paste along with a project URL.
pub open spec fn normalized_segments(segs: Seq<Seq<char>>) -> Seq<Seq<char>> {
    let s1 = if segs.len() >= 3 && eq_ic(segs[2], "releases"@) {
        segs.subrange(0, 2)
    } else {
        segs
    };
    if s1.len() >= 3 {
        drop_tags(drop_dash_pair(drop_dash_pair(drop_latest(s1), "releases"@), "tags"@))
    } else {
        s1
    }
}

pub open spec fn kind_for(host: Seq<char>, path: Seq<char>) -> ForgeKind {
    if eq_ic(host, "github.com"@) {
        ForgeKind::GitHub
    } else if eq_ic(host, "gitlab.com"@) {
        ForgeKind::GitLab
    } else if eq_ic(host, "codeberg.org"@) {
        ForgeKind::Gitea
    } else if contains(path, "/-/"@) {
        ForgeKind::GitLab
    } else {
        ForgeKind::Gitea
    }
}

pub open spec fn strip_git(n: Seq<char>) -> Seq<char> {
    if ends_with(n, ".git"@) {
        n.subrange(0, n.len() - 4)
    } else {
        n
    }
}

/// Segments joined with `/`.
pub open spec fn join_slash(s: Seq<Seq<char>>) -> Seq<char>
    decreases s.len(),
{
    if s.len() == 0 {
        seq![]
    } else if s.len() == 1 {
        s[0]
    } else {
        join_slash(s.drop_last()) + seq!['/'] + s.last()
    }
}

/// The identity of a detected project, as sequences.
pub struct RepoIdentity {
    pub kind: ForgeKind,
    pub host: Seq<char>,
    pub owner: Seq<char>,
    pub name: Seq<char>,
    pub canonical_url: Seq<char>,
    pub project_path: Seq<char>,
}

pub open spec fn identity_of(kind: ForgeKind, scheme: Seq<char>, host: Seq<char>, segs: Seq<Seq<char>>) -> RepoIdentity {
    let (owner, name, project_path) = if kind == ForgeKind::GitLab {
        let ps = segs.update(segs.len() - 1, strip_git(segs.last()));
        (join_slash(ps.drop_last()), ps.last(), join_slash(ps))
    } else {
        (segs[0], strip_git(segs[1]), segs[0] + seq!['/'] + strip_git(segs[1]))
    };
    RepoIdentity {
        kind,
        host,
        owner,
        name,
        canonical_url: scheme + "://"@ + host + seq!['/'] + project_path,
        project_path,
    }
}

/// What `detect_repo` makes of a URL.
pub open spec fn detect_spec(input: Seq<char>) -> Result<RepoIdentity, DetectError> {
    match url_parts_of(trim(input)) {
        None => Err(DetectError::InvalidUrl),
        Some((scheme, host, path)) => match host {
            None => Err(DetectError::MissingHost),
            Some(h) => if path_segments(path).len() == 0 {
                Err(DetectError::EmptyPath)
            } else if normalized_segments(path_segments(path)).len() < 2 {
                Err(DetectError::ExpectedOwnerAndName)
            } else {
                Ok(identity_of(kind_for(h, path), scheme, h, normalized_segments(path_segments(path))))
            },
        },
    }
}

pub open spec fn detected_view(d: DetectedRepo) -> RepoIdentity {
    RepoIdentity {
        kind: d.kind,
        host: d.host@,
        owner: d.owner@,
        name: d.name@,
        canonical_url: d.canonical_url@,
        project_path: d.project_path@,
    }
}

fn split_pieces(p: &Vec<char>) -> (r: Vec<Vec<char>>)
    ensures
        r@.map_values(|x: Vec<char>| x@) == pieces(p@),
{
    let mut out: Vec<Vec<char>> = Vec::new();
    out.push(Vec::new());
    let mut i: usize = 0;
    assert(p@.subrange(0, 0) =~= seq![]);
    assert(out@.map_values(|x: Vec<char>| x@) =~= pieces(p@.subrange(0, 0)));
    while i < p.len()
        invariant
            i <= p.len(),
            out@.map_values(|x: Vec<char>| x@) == pieces(p@.subrange(0, i as int)),
            out@.len() > 0,
        decreases p.len() - i,
    {
        let ghost q = p@.subrange(0, i + 1);
        assert(q.drop_last() =~= p@.subrange(0, i as int));
        if p[i] == '/' {
            out.push(Vec::new());
            assert(out@.map_values(|x: Vec<char>| x@) =~= pieces(q));
        } else {
            let last = out.len() - 1;
            let mut cur = out.pop().unwrap();
            cur.push(p[i]);
            out.push(cur);
            assert(out@.map_values(|x: Vec<char>| x@) =~= pieces(q));
        }
        i = i + 1;
    }
    assert(p@.subrange(0, p.len() as int) =~= p@);
    out
}

fn keep_non_empty(s: Vec<Vec<char>>) -> (r: Vec<Vec<char>>)
    ensures
        r@.map_values(|x: Vec<char>| x@) == non_empty(s@.map_values(|x: Vec<char>| x@)),
{
    let ghost sv = s@.map_values(|x: Vec<char>| x@);
    let mut out: Vec<Vec<char>> = Vec::new();
    let mut i: usize = 0;
    assert(sv.subrange(0, 0) =~= seq![]);
    assert(out@.map_values(|x: Vec<char>| x@) =~= non_empty(sv.subrange(0, 0)));
    while i < s.len()
        invariant
            i <= s.len(),
            sv == s@.map_values(|x: Vec<char>| x@),
            out@.map_values(|x: Vec<char>| x@) == non_empty(sv.subrange(0, i as int)),
        decreases s.len() - i,
    {
        assert(sv.subrange(0, i + 1).drop_last() =~= sv.subrange(0, i as int));
        if s[i].len() > 0 {
            let c = sub_vec(&s[i], 0, s[i].len());
            assert(c@ =~= sv[i as int]);
            out.push(c);
            assert(out@.map_values(|x: Vec<char>| x@) =~= non_empty(sv.subrange(0, i + 1)));
        }
        i = i + 1;
    }
    assert(sv.subrange(0, s.len() as int) =~= sv);
    out
}

/// The non-empty `/`-separated segments of a path.
pub fn path_segments_of(p: &str) -> (r: Vec<Vec<char>>)
    ensures
        r@.map_values(|x: Vec<char>| x@) == path_segments(p@),
{
    keep_non_empty(split_pieces(&chars_of(p)))
}

fn last_is(s: &Vec<Vec<char>>, word: &str) -> (r: bool)
    ensures
        r == (s@.len() > 0 && eq_ic(s@.last()@, word@)),
{
    if s.len() == 0 {
        return false;
    }
    eq_ic_vec(&s[s.len() - 1], &chars_of(word))
}

fn dash_pair(s: &Vec<Vec<char>>, word: &str) -> (r: bool)
    ensures
        r == (s@.len() >= 2 && s@[s@.len() - 2]@ == "-"@ && eq_ic(s@.last()@, word@)),
{
    if s.len() < 2 {
        return false;
    }
    seq_eq(&s[s.len() - 2], &chars_of("-")) && eq_ic_vec(&s[s.len() - 1], &chars_of(word))
}

fn normalize_segments(segs: Vec<Vec<char>>) -> (r: Vec<Vec<char>>)
    ensures
        r@.map_values(|x: Vec<char>| x@) == normalized_segments(segs@.map_values(|x: Vec<char>| x@)),
{
    let ghost sv = segs@.map_values(|x: Vec<char>| x@);
    let mut s = segs;
    if s.len() >= 3 && eq_ic_vec(&s[2], &chars_of("releases")) {
        s.truncate(2);
        assert(s@.map_values(|x: Vec<char>| x@) =~= sv.subrange(0, 2));
        return s;
    }
    if s.len() < 3 {
        return s;
    }
    while last_is(&s, "latest")
        invariant
            drop_latest(s@.map_values(|x: Vec<char>| x@)) == drop_latest(sv),
        decreases s.len(),
    {
        let ghost before = s@.map_values(|x: Vec<char>| x@);
        s.pop();
        assert(s@.map_values(|x: Vec<char>| x@) =~= before.drop_last());
    }
    assert(s@.map_values(|x: Vec<char>| x@) == drop_latest(sv));
    if dash_pair(&s, "releases") {
        let n = s.len() - 2;
        s.truncate(n);
    }
    assert(s@.map_values(|x: Vec<char>| x@) =~= drop_dash_pair(drop_latest(sv), "releases"@));
    if dash_pair(&s, "tags") {
        let n = s.len() - 2;
        s.truncate(n);
    }
    assert(s@.map_values(|x: Vec<char>| x@) =~= drop_dash_pair(drop_dash_pair(drop_latest(sv), "releases"@), "tags"@));
    if last_is(&s, "tags") {
        s.pop();
    }
    assert(s@.map_values(|x: Vec<char>| x@) =~= normalized_segments(sv));
    s
}

fn strip_git_vec(n: &Vec<char>) -> (r: Vec<char>)
    ensures
        r@ == strip_git(n@),
{
    proof {
        reveal_strlit(".git");
    }
    if ends_with_vec(n, &chars_of(".git")) {
        sub_vec(n, 0, n.len() - 4)
    } else {
        sub_vec(n, 0, n.len())
    }
}

fn join_vec(s: &Vec<Vec<char>>, upto: usize) -> (r: Vec<char>)
    requires
        upto <= s.len(),
    ensures
        r@ == join_slash(s@.map_values(|x: Vec<char>| x@).subrange(0, upto as int)),
{
    let ghost sv = s@.map_values(|x: Vec<char>| x@);
    let mut out: Vec<char> = Vec::new();
    let mut i: usize = 0;
    assert(sv.subrange(0, 0) =~= seq![]);
    while i < upto
        invariant
            i <= upto <= s.len(),
            sv == s@.map_values(|x: Vec<char>| x@),
            out@ == join_slash(sv.subrange(0, i as int)),
        decreases upto - i,
    {
        let ghost q = sv.subrange(0, i + 1);
        assert(q.drop_last() =~= sv.subrange(0, i as int));
        if i > 0 {
            out.push('/');
        }
        let mut piece = sub_vec(&s[i], 0, s[i].len());
        out.append(&mut piece);
        if i == 0 {
            assert(out@ =~= join_slash(q));
        } else {
            assert(out@ =~= join_slash(q));
        }
        i = i + 1;
    }
    out
}

fn concat_chars(a: &Vec<char>, b: &Vec<char>) -> (r: Vec<char>)
    ensures
        r@ == a@ + b@,
{
    let mut out = sub_vec(a, 0, a.len());
    let mut c = sub_vec(b, 0, b.len());
    out.append(&mut c);
    assert(a@.subrange(0, a@.len() as int) =~= a@);
    assert(b@.subrange(0, b@.len() as int) =~= b@);
    out
}

/// Resolves a project URL (with or without a releases, latest or tags
/// suffix) to its forge and identity.
pub fn detect_repo(input: &str) -> (r: Result<DetectedRepo, DetectError>)
    ensures
        match detect_spec(input@) {
            Ok(id) => r matches Ok(d) && detected_view(d) == id && d.forge_str@ == forge_name(d.kind),
            Err(e) => r == Err::<DetectedRepo, DetectError>(e),
        },
{
    let t = string_of(&trim_vec(&chars_of(input)));
    let parts = match parse_url(t.as_str()) {
        Some(p) => p,
        None => {
            return Err(DetectError::InvalidUrl);
        },
    };
    let host = match parts.host {
        Some(h) => h,
        None => {
            return Err(DetectError::MissingHost);
        },
    };
    let path = chars_of(parts.path.as_str());
    let raw = keep_non_empty(split_pieces(&path));
    if raw.len() == 0 {
        return Err(DetectError::EmptyPath);
    }
    let segs = normalize_segments(raw);
    let ghost sv = segs@.map_values(|x: Vec<char>| x@);
    if segs.len() < 2 {
        return Err(DetectError::ExpectedOwnerAndName);
    }
    let hv = chars_of(host.as_str());
    let kind = if eq_ic_vec(&hv, &chars_of("github.com")) {
        ForgeKind::GitHub
    } else if eq_ic_vec(&hv, &chars_of("gitlab.com")) {
        ForgeKind::GitLab
    } else if eq_ic_vec(&hv, &chars_of("codeberg.org")) {
        ForgeKind::Gitea
    } else if contains_vec(&path, &chars_of("/-/")) {
        ForgeKind::GitLab
    } else {
        ForgeKind::Gitea
    };
    let (owner, name, project_path) = if kind == ForgeKind::GitLab {
        let mut ps = segs;
        let n = ps.len();
        let last = strip_git_vec(&ps[n - 1]);
        ps.set(n - 1, last);
        let ghost pv = sv.update(sv.len() - 1, strip_git(sv.last()));
        assert(ps@.map_values(|x: Vec<char>| x@) =~= pv);
        let owner = join_vec(&ps, n - 1);
        assert(pv.subrange(0, n - 1) =~= pv.drop_last());
        let project_path = join_vec(&ps, n);
        assert(pv.subrange(0, n as int) =~= pv);
        let name = sub_vec(&ps[n - 1], 0, ps[n - 1].len());
        assert(name@ =~= pv.last());
        (owner, name, project_path)
    } else {
        let owner = sub_vec(&segs[0], 0, segs[0].len());
        assert(owner@ =~= sv[0]);
        assert(segs@[1]@ == sv[1]);
        let name = strip_git_vec(&segs[1]);
        let mut slash: Vec<char> = Vec::new();
        slash.push('/');
        let project_path = concat_chars(&concat_chars(&owner, &slash), &name);
        assert(slash@ =~= seq!['/']);
        (owner, name, project_path)
    };
    let mut sep: Vec<char> = chars_of("://");
    let mut slash: Vec<char> = Vec::new();
    slash.push('/');
    let canonical = concat_chars(
        &concat_chars(&concat_chars(&concat_chars(&chars_of(parts.scheme.as_str()), &sep), &hv), &slash),
        &project_path,
    );
    assert(slash@ =~= seq!['/']);
    Ok(
        DetectedRepo {
            kind,
            forge_str: kind.as_str(),
            host: host,
            owner: string_of(&owner),
            name: string_of(&name),
            canonical_url: string_of(&canonical),
            project_path: string_of(&project_path),
        },
    )
}

} // verus!
