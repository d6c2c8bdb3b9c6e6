//! Shared state of a reconciliation session: the forge credential, cached
//! release answers, and the planning of git-tracked projects.
use vstd::prelude::*;
use crate::git::GitHeadState;
use crate::model::{InstallMode, LatestRelease, Repo};
use crate::plan::{blank_plan, current_label, normalized_current_version, UpdatePlan};
use crate::text::{cat, chars_of, copy_str, starts_with, starts_with_vec, str_eq, string_of, sub_vec, trim, trim_vec};
use crate::urls::{opt_view, parse_url, url_parts_of};

verus! {

/// The credential for the GitHub-style forge, set at run time and read
/// wherever a request is made.
#[derive(Debug, Clone, Default)]
pub struct TokenHolder {
    pub token: Option<String>,
}

/// A credential as kept: trimmed, and none when blank.
pub open spec fn normalized_token(t: Option<String>) -> Option<Seq<char>> {
    match t {
        Some(s) => if trim(s@).len() > 0 {
            Some(trim(s@))
        } else {
            None
        },
        None => None,
    }
}

fn normalize_token(t: Option<String>) -> (r: Option<String>)
    ensures
        opt_view(r) == normalized_token(t),
{
    match t {
        Some(s) => {
            let v = trim_vec(&chars_of(s.as_str()));
            if v.len() > 0 {
                Some(string_of(&v))
            } else {
                None
            }
        },
        None => None,
    }
}

/// Stores a credential, trimmed; a blank one clears it.
pub fn set_github_token(holder: &mut TokenHolder, token: Option<String>)
    ensures
        opt_view(final(holder).token) == normalized_token(token),
{
    holder.token = normalize_token(token);
}

/// The credential in use: the one set at run time, else the one the
/// environment supplied, each trimmed and ignored when blank.
pub fn github_token(holder: &TokenHolder, from_environment: Option<String>) -> (r: Option<String>)
    ensures
        opt_view(r) == match normalized_token(holder.token) {
            Some(t) => Some(t),
            None => normalized_token(from_environment),
        },
{
    let held = match &holder.token {
        Some(t) => Some(t.clone()),
        None => None,
    };
    match normalize_token(held) {
        Some(t) => Some(t),
        None => normalize_token(from_environment),
    }
}

/// How long a cached release answer stays fresh, in seconds.
pub open spec fn cache_ttl_secs() -> u64 {
    45
}

/// A release answer kept for later passes.
#[derive(Debug, Clone)]
pub struct CachedRelease {
    pub etag: Option<String>,
    pub release: LatestRelease,
}

/// What the release cache offers a caller.
#[derive(Debug, Clone)]
pub enum CacheLookup {
    /// Nothing cached.
    Miss,
    /// The entry is older than the time to live: drop it and ask the forge.
    Expired,
    /// The caller's tag equals the cached one: nothing changed.
    NotModified { etag: Option<String> },
    /// The cached answer.
    Hit { etag: Option<String>, release: LatestRelease },
}

/// Looks a project up in the release cache. `age_secs` is how long ago the
/// entry was stored. Within the time to live, a caller whose tag equals the
/// cached tag is told that nothing changed; others get the cached release.
pub fn cache_lookup(entry: Option<&CachedRelease>, age_secs: u64, caller_etag: Option<&str>) -> (r: CacheLookup)
    ensures
        match entry {
            None => r is Miss,
            Some(e) => if age_secs > cache_ttl_secs() {
                r is Expired
            } else if caller_etag is Some && opt_view(e.etag) == Some(caller_etag->0@) {
                r matches CacheLookup::NotModified { etag } && opt_view(etag) == opt_view(e.etag)
            } else {
                r matches CacheLookup::Hit { etag, release } && opt_view(etag) == opt_view(e.etag)
                    && release.tag == e.release.tag && release.name == e.release.name
                    && release.assets@ == e.release.assets@
            },
        },
{
    let e = match entry {
        Some(e) => e,
        None => {
            return CacheLookup::Miss;
        },
    };
    if age_secs > 45 {
        return CacheLookup::Expired;
    }
    let etag = match &e.etag {
        Some(t) => Some(t.clone()),
        None => None,
    };
    if let Some(t) = caller_etag {
        let same = match &e.etag {
            Some(x) => str_eq(x.as_str(), t),
            None => false,
        };
        if same {
            return CacheLookup::NotModified { etag };
        }
    }
    CacheLookup::Hit { etag, release: crate::model::copy_release(&e.release) }
}

/// The branch a git-tracked project follows: its configured branch,
/// trimmed, or `master`.
pub open spec fn followed_branch(r: Repo) -> Seq<char> {
    match r.git_branch {
        Some(b) => if trim(b@).len() > 0 {
            trim(b@)
        } else {
            "master"@
        },
        None => "master"@,
    }
}

pub fn preferred_git_branch(r: &Repo) -> (b: String)
    ensures
        b@ == followed_branch(*r),
{
    match &r.git_branch {
        Some(b) => {
            let t = trim_vec(&chars_of(b.as_str()));
            if t.len() > 0 {
                string_of(&t)
            } else {
                copy_str("master")
            }
        },
        None => copy_str("master"),
    }
}

/// What a git-tracked project has installed: the local worktree's short
/// commit, else its stored label.
pub open spec fn git_current(r: Repo, local: Option<GitHeadState>) -> Option<Seq<char>> {
    match local {
        Some(h) => Some(h.short_oid@),
        None => current_label(r),
    }
}

/// The plan of a git-tracked project from its local and remote heads: a
/// sync is needed when the commits differ, there is no local worktree, or
/// files are missing.
pub open spec fn is_git_plan(p: UpdatePlan, r: Repo, local: Option<GitHeadState>, remote: GitHeadState, missing_targets: bool) -> bool {
    let same = local matches Some(h) && h.oid@ == remote.oid@;
    &&& p.repo_id == r.id && p.forge == r.forge && p.host == r.host && p.owner == r.owner && p.name == r.name
        && p.url == r.url && p.mode == r.mode && !p.applied
    &&& opt_view(p.current) == git_current(r, local)
    &&& p.latest@ == remote.short_oid@
    &&& p.asset_id@ == remote.oid@
    &&& p.asset_name@ == "git:"@ + remote.branch@
    &&& p.asset_url@ == if !same || missing_targets { r.url@ } else { seq![] }
    &&& p.asset_size is None
    &&& p.asset_sha256 is None
    &&& p.repair_needed == (missing_targets && git_current(r, local) is Some)
    &&& !p.not_modified
    &&& p.error is None
}

pub fn plan_for_git(r: &Repo, local: Option<&GitHeadState>, remote: &GitHeadState, missing_targets: bool) -> (p: UpdatePlan)
    ensures
        is_git_plan(
            p,
            *r,
            match local {
                Some(h) => Some(*h),
                None => None,
            },
            *remote,
            missing_targets,
        ),
{
    let current = match local {
        Some(h) => Some(h.short_oid.clone()),
        None => normalized_current_version(r),
    };
    let same = match local {
        Some(h) => str_eq(h.oid.as_str(), remote.oid.as_str()),
        None => false,
    };
    let needs_sync = !same || missing_targets;
    let repair = missing_targets && current.is_some();
    let base = blank_plan(r);
    UpdatePlan {
        current,
        latest: remote.short_oid.clone(),
        asset_id: remote.oid.clone(),
        asset_name: cat("git:", remote.branch.as_str()),
        asset_url: if needs_sync { r.url.clone() } else { String::new() },
        asset_size: None,
        asset_sha256: None,
        repair_needed: repair,
        not_modified: false,
        error: None,
        ..base
    }
}

/// A remote URL as an HTTPS URL: HTTP(S) URLs as they are, `ssh://` and
/// `git://` URLs and SCP-style `user@host:path` rewritten to
/// `https://host/path`.
pub open spec fn https_remote(raw: Seq<char>) -> Option<Seq<char>> {
    let url = trim(raw);
    if url.len() == 0 {
        None
    } else if starts_with(url, "https://"@) || starts_with(url, "http://"@) {
        Some(url)
    } else if starts_with(url, "ssh://"@) || starts_with(url, "git://"@) {
        match url_parts_of(url) {
            Some((_, Some(h), path)) => if trim(h).len() > 0 && trim_start_slashes(trim(path)).len() > 0 {
                Some("https://"@ + trim(h) + seq!['/'] + trim_start_slashes(trim(path)))
            } else {
                None
            },
            _ => None,
        }
    } else {
        match scp_parts(url) {
            Some((h, path)) => if trim(h).len() > 0 && trim(path).len() > 0 {
                Some("https://"@ + trim(h) + seq!['/'] + trim_start_slashes(trim(path)))
            } else {
                None
            },
            None => None,
        }
    }
}

pub open spec fn trim_start_slashes(s: Seq<char>) -> Seq<char>
    decreases s.len(),
{
    if s.len() > 0 && s[0] == '/' {
        trim_start_slashes(s.drop_first())
    } else {
        s
    }
}

/// Index of the first occurrence of `c` in `s`, or -1.
pub open spec fn first_index(s: Seq<char>, c: char) -> int
    decreases s.len(),
{
    if s.len() == 0 {
        -1
    } else if first_index(s.drop_last(), c) >= 0 {
        first_index(s.drop_last(), c)
    } else if s.last() == c {
        s.len() - 1
    } else {
        -1
    }
}

/// Host and path of `user@host:path`: after the first `@`, split at the
/// first `:`.
pub open spec fn scp_parts(url: Seq<char>) -> Option<(Seq<char>, Seq<char>)> {
    let at = first_index(url, '@');
    if at < 0 {
        None
    } else {
        let rest = url.subrange(at + 1, url.len() as int);
        let colon = first_index(rest, ':');
        if colon < 0 {
            None
        } else {
            Some((rest.subrange(0, colon), rest.subrange(colon + 1, rest.len() as int)))
        }
    }
}

fn first_index_exec(v: &Vec<char>, c: char) -> (r: Option<usize>)
    ensures
        r matches Some(i) ==> first_index(v@, c) == i as int && i < v@.len(),
        r is None ==> first_index(v@, c) == -1,
{
    let mut i: usize = 0;
    assert(v@.subrange(0, 0) =~= seq![]);
    while i < v.len()
        invariant
            i <= v.len(),
            first_index(v@.subrange(0, i as int), c) == -1,
        decreases v.len() - i,
    {
        assert(v@.subrange(0, i + 1).drop_last() =~= v@.subrange(0, i as int));
        if v[i] == c {
            proof {
                lemma_first_index_prefix(v@, c, i + 1);
            }
            return Some(i);
        }
        i = i + 1;
    }
    assert(v@.subrange(0, v.len() as int) =~= v@);
    None
}

pub proof fn lemma_first_index_prefix(s: Seq<char>, c: char, n: int)
    requires
        0 <= n <= s.len(),
        first_index(s.subrange(0, n), c) >= 0,
    ensures
        first_index(s, c) == first_index(s.subrange(0, n), c),
    decreases s.len() - n,
{
    if n < s.len() {
        assert(s.subrange(0, n + 1).drop_last() =~= s.subrange(0, n));
        lemma_first_index_prefix(s, c, n + 1);
    } else {
        assert(s.subrange(0, n) =~= s);
    }
}

fn trim_start_slashes_vec(v: &Vec<char>) -> (r: Vec<char>)
    ensures
        r@ == trim_start_slashes(v@),
{
    let mut a: usize = 0;
    assert(v@.subrange(0, v.len() as int) =~= v@);
    while a < v.len() && v[a] == '/'
        invariant
            a <= v.len(),
            trim_start_slashes(v@) == trim_start_slashes(v@.subrange(a as int, v.len() as int)),
        decreases v.len() - a,
    {
        assert(v@.subrange(a as int, v.len() as int).drop_first() =~= v@.subrange(a + 1, v.len() as int));
        a = a + 1;
    }
    sub_vec(v, a, v.len())
}

fn https_of(host: &Vec<char>, path: &Vec<char>) -> (r: String)
    ensures
        r@ == "https://"@ + host@ + seq!['/'] + path@,
{
    let a = cat("https://", string_of(host).as_str());
    let b = cat(a.as_str(), "/");
    proof {
        reveal_strlit("/");
    }
    let r = cat(b.as_str(), string_of(path).as_str());
    assert(r@ =~= "https://"@ + host@ + seq!['/'] + path@);
    r
}

pub fn normalize_git_remote_url(raw: &str) -> (r: Option<String>)
    ensures
        opt_view(r) == https_remote(raw@),
{
    let url = trim_vec(&chars_of(raw));
    if url.len() == 0 {
        return None;
    }
    let us = string_of(&url);
    if starts_with_vec(&url, &chars_of("https://")) || starts_with_vec(&url, &chars_of("http://")) {
        return Some(us);
    }
    if starts_with_vec(&url, &chars_of("ssh://")) || starts_with_vec(&url, &chars_of("git://")) {
        let parts = match parse_url(us.as_str()) {
            Some(p) => p,
            None => {
                return None;
            },
        };
        let h = match &parts.host {
            Some(h) => trim_vec(&chars_of(h.as_str())),
            None => {
                return None;
            },
        };
        let p = trim_start_slashes_vec(&trim_vec(&chars_of(parts.path.as_str())));
        if h.len() == 0 || p.len() == 0 {
            return None;
        }
        return Some(https_of(&h, &p));
    }
    let at = match first_index_exec(&url, '@') {
        Some(a) => a,
        None => {
            return None;
        },
    };
    let rest = sub_vec(&url, at + 1, url.len());
    let colon = match first_index_exec(&rest, ':') {
        Some(c) => c,
        None => {
            return None;
        },
    };
    let host = trim_vec(&sub_vec(&rest, 0, colon));
    let path = trim_vec(&sub_vec(&rest, colon + 1, rest.len()));
    if host.len() == 0 || path.len() == 0 {
        return None;
    }
    Some(https_of(&host, &trim_start_slashes_vec(&path)))
}

/// A branch choice as stored: trimmed, `master` when blank or absent.
pub fn normalize_branch_choice(git_branch: Option<String>) -> (b: String)
    ensures
        b@ == match normalized_token(git_branch) {
            Some(t) => t,
            None => "master"@,
        },
{
    match normalize_token(git_branch) {
        Some(t) => t,
        None => copy_str("master"),
    }
}

/// The branches offered for a git-tracked project: the remote's, with the
/// selected branch put first when the remote does not list it (ignoring
/// ASCII case).
pub open spec fn offered_branches(branches: Seq<Seq<char>>, selected: Option<Seq<char>>) -> Seq<Seq<char>> {
    match selected {
        Some(s) => if exists|i: int| 0 <= i < branches.len() && crate::text::eq_ic(#[trigger] branches[i], s) {
            branches
        } else {
            seq![s] + branches
        },
        None => branches,
    }
}

pub fn with_selected_branch(branches: Vec<String>, selected: Option<String>) -> (r: Vec<String>)
    ensures
        crate::dlls::views(r@) == offered_branches(crate::dlls::views(branches@), opt_view(selected)),
{
    let s = match selected {
        Some(s) => s,
        None => {
            return branches;
        },
    };
    let ghost bv = crate::dlls::views(branches@);
    assert(opt_view(selected) == Some(s@));
    let mut i: usize = 0;
    while i < branches.len()
        invariant
            i <= branches.len(),
            opt_view(selected) == Some(s@),
            bv == crate::dlls::views(branches@),
            forall|j: int| 0 <= j < i ==> !crate::text::eq_ic(#[trigger] bv[j], s@),
        decreases branches.len() - i,
    {
        assert(bv[i as int] == branches@[i as int]@);
        if crate::text::eq_ic_str(branches[i].as_str(), s.as_str()) {
            assert(crate::text::eq_ic(bv[i as int], s@));
            return branches;
        }
        i = i + 1;
    }
    let mut out: Vec<String> = Vec::new();
    out.push(s);
    let mut rest = branches;
    out.append(&mut rest);
    assert(crate::dlls::views(out@) =~= offered_branches(bv, opt_view(Some(out@[0]))));
    out
}

/// Consecutive groups of at most `size` items covering `0..count`, as
/// half-open index ranges.
pub open spec fn is_batching(r: Seq<(usize, usize)>, count: usize, size: usize) -> bool {
    &&& forall|i: int| 0 <= i < r.len() ==> (#[trigger] r[i]).0 < r[i].1 && r[i].1 - r[i].0 <= size
    &&& r.len() > 0 ==> r[0].0 == 0 && r.last().1 == count
    &&& forall|i: int| 0 <= i < r.len() - 1 ==> (#[trigger] r[i]).1 == r[i + 1].0
    &&& forall|i: int| 0 <= i < r.len() - 1 ==> (#[trigger] r[i]).1 - r[i].0 == size
    &&& count == 0 <==> r.len() == 0
}

/// Splits `count` release checks into groups of `size`, so that a forge is
/// never asked more than `size` questions at once.
pub fn batch_ranges(count: usize, size: usize) -> (r: Vec<(usize, usize)>)
    requires
        size > 0,
    ensures
        is_batching(r@, count, size),
{
    let mut out: Vec<(usize, usize)> = Vec::new();
    let mut start: usize = 0;
    while start < count
        invariant
            start <= count,
            size > 0,
            forall|i: int| 0 <= i < out@.len() ==> (#[trigger] out@[i]).0 < out@[i].1 && out@[i].1 - out@[i].0 <= size,
            out@.len() > 0 ==> out@[0].0 == 0 && out@.last().1 == start,
            out@.len() == 0 ==> start == 0,
            forall|i: int| 0 <= i < out@.len() - 1 ==> (#[trigger] out@[i]).1 == out@[i + 1].0,
            forall|i: int| 0 <= i < out@.len() - 1 ==> (#[trigger] out@[i]).1 - out@[i].0 == size,
            out@.len() > 0 ==> (start == count || out@.last().1 - out@.last().0 == size),
        decreases count - start,
    {
        let end = if count - start > size { start + size } else { count };
        out.push((start, end));
        start = end;
    }
    out
}


/// A git clone found in the addons folder, ready to be stored.
#[derive(Debug, Clone)]
pub struct ImportedRepo {
    pub repo: Repo,
    /// Its identity key, as `repo_key` gives it.
    pub key: String,
    /// Manifest entries `(path, kind)`: the clone itself as `raw`, then one
    /// `addon` entry per addon name (ignoring case).
    pub entries: Vec<(String, String)>,
}

/// What importing a clone found at `folder_path` (named `folder_name`) with
/// remote `raw_url` records: nothing for a hidden folder, a remote that is
/// no forge project, a project already known, or a clone without addons.
pub open spec fn import_spec(
    wow_dir: Seq<char>,
    folder_path: Seq<char>,
    folder_name: Seq<char>,
    raw_url: Seq<char>,
    known: Seq<Seq<char>>,
    detected: Seq<(Seq<char>, Seq<char>)>,
) -> bool {
    folder_name.len() > 0 && folder_name[0] == '.' || https_remote(raw_url) is None || crate::forge::detect_spec(
        https_remote(raw_url)->0,
    ) is Err || known.contains(
        crate::paths::repo_key_of(
            (crate::forge::detect_spec(https_remote(raw_url)->0)->Ok_0).host,
            (crate::forge::detect_spec(https_remote(raw_url)->0)->Ok_0).owner,
            (crate::forge::detect_spec(https_remote(raw_url)->0)->Ok_0).name,
        ),
    ) || detected.len() == 0
}

/// The manifest entries of an imported clone.
pub open spec fn import_entries(wow_dir: Seq<char>, folder_path: Seq<char>, chosen: Seq<(Seq<char>, Seq<char>)>) -> Seq<(Seq<char>, Seq<char>)> {
    seq![(crate::paths::manifest_path(folder_path, wow_dir), "raw"@)] + Seq::new(
        chosen.len(),
        |i: int| (crate::paths::manifest_path(crate::paths::addon_dir(wow_dir, chosen[i].1), wow_dir), "addon"@),
    )
}

/// Prepares the import of a git clone found in the addons folder:
/// `detected` are its addon folders with their names, `branch` and `head`
/// what the clone has checked out.
pub fn import_entry(
    wow_dir: &str,
    folder_path: &str,
    folder_name: &str,
    raw_url: &str,
    known: &Vec<String>,
    detected: &Vec<(String, String)>,
    branch: Option<String>,
    head: Option<&GitHeadState>,
) -> (r: Option<ImportedRepo>)
    ensures
        r is None <==> import_spec(wow_dir@, folder_path@, folder_name@, raw_url@, crate::dlls::views(known@),
            crate::deploy::pair_views(detected@)),
        r matches Some(imp) ==> ({
            let id = crate::forge::detect_spec(https_remote(raw_url@)->0)->Ok_0;
            &&& imp.repo.url@ == id.canonical_url
            &&& imp.repo.forge@ == crate::forge::forge_name(id.kind)
            &&& imp.repo.host@ == id.host && imp.repo.owner@ == id.owner && imp.repo.name@ == id.name
            &&& imp.repo.mode == InstallMode::AddonGit && imp.repo.enabled
            &&& opt_view(imp.repo.git_branch) == Some(branch_choice(branch))
            &&& imp.repo.asset_regex is None && imp.repo.etag is None
            &&& opt_view(imp.repo.last_version) == (match head { Some(h) => Some(h.short_oid@), None => None })
            &&& opt_view(imp.repo.installed_asset_id) == (match head { Some(h) => Some(h.oid@), None => None })
            &&& opt_view(imp.repo.installed_asset_name) == Some("git:"@ + branch_choice(branch))
            &&& imp.repo.installed_asset_size is None
            &&& opt_view(imp.repo.installed_asset_url) == Some(id.canonical_url)
            &&& imp.key@ == crate::paths::repo_key_of(id.host, id.owner, id.name)
            &&& crate::deploy::pair_views(imp.entries@) == import_entries(wow_dir@, folder_path@,
                crate::deploy::first_of_each_name(crate::deploy::pair_views(detected@)))
        }),
{
    let fname = chars_of(folder_name);
    if fname.len() > 0 && fname[0] == '.' {
        return None;
    }
    let url = match normalize_git_remote_url(raw_url) {
        Some(u) => u,
        None => {
            return None;
        },
    };
    let det = match crate::forge::detect_repo(url.as_str()) {
        Ok(d) => d,
        Err(_) => {
            return None;
        },
    };
    let key = crate::paths::repo_key(det.host.as_str(), det.owner.as_str(), det.name.as_str());
    let ghost uv = https_remote(raw_url@)->0;
    assert(url@ == uv);
    assert(crate::forge::detected_view(det) == crate::forge::detect_spec(uv)->Ok_0);
    let mut k: usize = 0;
    while k < known.len()
        invariant
            k <= known.len(),
            https_remote(raw_url@) == Some(uv),
            crate::forge::detect_spec(uv) is Ok,
            crate::forge::detected_view(det) == crate::forge::detect_spec(uv)->Ok_0,
            key@ == crate::paths::repo_key_of(det.host@, det.owner@, det.name@),
            forall|j: int| 0 <= j < k ==> known@[j]@ != key@,
        decreases known.len() - k,
    {
        if str_eq(known[k].as_str(), key.as_str()) {
            assert(crate::dlls::views(known@)[k as int] == key@);
            return None;
        }
        k = k + 1;
    }
    assert(!crate::dlls::views(known@).contains(key@)) by {
        assert forall|j: int| 0 <= j < known@.len() implies crate::dlls::views(known@)[j] != key@ by {
            assert(crate::dlls::views(known@)[j] == known@[j]@);
        }
    }
    if detected.len() == 0 {
        return None;
    }
    let b = normalize_branch_choice(branch);
    let chosen = crate::deploy::choose_deployable_addons(detected);
    let ghost cv = crate::deploy::pair_views(chosen@);
    let mut entries: Vec<(String, String)> = Vec::new();
    entries.push((crate::paths::to_manifest_path(folder_path, wow_dir), copy_str("raw")));
    assert(crate::deploy::pair_views(entries@) =~= import_entries(wow_dir@, folder_path@, cv.subrange(0, 0)));
    let mut i: usize = 0;
    while i < chosen.len()
        invariant
            i <= chosen.len(),
            cv == crate::deploy::pair_views(chosen@),
            crate::deploy::pair_views(entries@) == import_entries(wow_dir@, folder_path@, cv.subrange(0, i as int)),
        decreases chosen.len() - i,
    {
        assert(cv[i as int] == (chosen@[i as int].0@, chosen@[i as int].1@));
        let dst = crate::paths::addon_folder_path(wow_dir, chosen[i].1.as_str());
        let ghost prev = crate::deploy::pair_views(entries@);
        let m = crate::paths::to_manifest_path(dst.as_str(), wow_dir);
        let ghost mv = m@;
        entries.push((m, copy_str("addon")));
        assert(crate::deploy::pair_views(entries@) =~= prev.push((mv, "addon"@)));
        assert(crate::deploy::pair_views(entries@) =~= import_entries(wow_dir@, folder_path@, cv.subrange(0, i + 1)));
        i = i + 1;
    }
    assert(cv.subrange(0, chosen.len() as int) =~= cv);
    let repo = Repo {
        id: 0,
        url: det.canonical_url.clone(),
        forge: copy_str(det.forge_str),
        host: det.host.clone(),
        owner: det.owner.clone(),
        name: det.name.clone(),
        mode: InstallMode::AddonGit,
        enabled: true,
        git_branch: Some(b.clone()),
        asset_regex: None,
        last_version: match head {
            Some(h) => Some(h.short_oid.clone()),
            None => None,
        },
        etag: None,
        installed_asset_id: match head {
            Some(h) => Some(h.oid.clone()),
            None => None,
        },
        installed_asset_name: Some(cat("git:", b.as_str())),
        installed_asset_size: None,
        installed_asset_url: Some(det.canonical_url.clone()),
    };
    Some(ImportedRepo { repo, key, entries })
}

/// A branch choice as stored: trimmed, `master` when blank or absent.
pub open spec fn branch_choice(b: Option<String>) -> Seq<char> {
    match normalized_token(b) {
        Some(t) => t,
        None => "master"@,
    }
}

} // verus!
