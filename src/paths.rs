//! File-system names that the engine builds: sanitised components, staging
//! and cache directories, manifest paths. Paths are `/`-separated text.
use vstd::prelude::*;
use crate::text::{cat, chars_of, copy_str, ends_with, ends_with_vec, lower, lower_vec, starts_with, starts_with_vec, string_of, sub_vec, trim, trim_vec};

verus! {

pub open spec fn fs_safe(c: char) -> bool {
    ('a' <= c && c <= 'z') || ('A' <= c && c <= 'Z') || ('0' <= c && c <= '9') || c == '.' || c == '-' || c == '_'
}

/// Every character outside `[A-Za-z0-9._-]` replaced by `_`.
pub open spec fn sanitized(v: Seq<char>) -> Seq<char> {
    Seq::new(v.len(), |i: int| if fs_safe(v[i]) { v[i] } else { '_' })
}

/// A sanitised name, or `fallback` for an empty one.
pub open spec fn sanitized_or(v: Seq<char>, fallback: Seq<char>) -> Seq<char> {
    if v.len() == 0 {
        fallback
    } else {
        sanitized(v)
    }
}

fn sanitize_chars(v: &Vec<char>) -> (r: Vec<char>)
    ensures
        r@ == sanitized(v@),
{
    let mut out: Vec<char> = Vec::new();
    let mut i: usize = 0;
    while i < v.len()
        invariant
            i <= v.len(),
            out@ == sanitized(v@).subrange(0, i as int),
        decreases v.len() - i,
    {
        let c = v[i];
        let safe = ('a' <= c && c <= 'z') || ('A' <= c && c <= 'Z') || ('0' <= c && c <= '9') || c == '.' || c == '-'
            || c == '_';
        out.push(if safe { c } else { '_' });
        i = i + 1;
        assert(out@ =~= sanitized(v@).subrange(0, i as int));
    }
    assert(sanitized(v@).subrange(0, v.len() as int) =~= sanitized(v@));
    out
}

/// A path component made safe for any file system; `_` for an empty one.
pub fn sanitize_fs_component(v: &str) -> (r: String)
    ensures
        r@ == sanitized_or(v@, "_"@),
{
    let c = chars_of(v);
    if c.len() == 0 {
        return copy_str("_");
    }
    string_of(&sanitize_chars(&c))
}

/// A cache-directory component made safe; `unknown` for an empty one.
pub fn sanitize_for_fs(s: &str) -> (r: String)
    ensures
        r@ == sanitized_or(s@, "unknown"@),
{
    let c = chars_of(s);
    if c.len() == 0 {
        return copy_str("unknown");
    }
    string_of(&sanitize_chars(&c))
}

/// `child` under `base`, with one `/` between them.
pub open spec fn join_path(base: Seq<char>, child: Seq<char>) -> Seq<char> {
    if base.len() > 0 && base.last() == '/' {
        base + child
    } else {
        base + seq!['/'] + child
    }
}

pub fn join(base: &str, child: &str) -> (r: String)
    ensures
        r@ == join_path(base@, child@),
{
    let b = chars_of(base);
    if b.len() > 0 && b[b.len() - 1] == '/' {
        cat(base, child)
    } else {
        let with_slash = cat(base, "/");
        proof {
            reveal_strlit("/");
        }
        assert(with_slash@ =~= base@ + seq!['/']);
        cat(with_slash.as_str(), child)
    }
}

/// Where the git worktree of an addon tracked by branch is staged.
pub open spec fn staging_dir(wow_dir: Seq<char>, host: Seq<char>, owner: Seq<char>, name: Seq<char>) -> Seq<char> {
    join_path(
        join_path(
            join_path(
                join_path(join_path(join_path(join_path(wow_dir, "Interface"@), "AddOns"@), ".wuddle"@), "addon_git"@),
                sanitized_or(host, "_"@),
            ),
            sanitized_or(owner, "_"@),
        ),
        sanitized_or(name, "_"@),
    )
}

/// The hidden staging directory, inside the addons folder, of a project's
/// git worktree.
pub fn addon_repo_staging_dir(wow_dir: &str, host: &str, owner: &str, repo_name: &str) -> (r: String)
    ensures
        r@ == staging_dir(wow_dir@, host@, owner@, repo_name@),
{
    let a = join(wow_dir, "Interface");
    let b = join(a.as_str(), "AddOns");
    let c = join(b.as_str(), ".wuddle");
    let d = join(c.as_str(), "addon_git");
    let e = join(d.as_str(), sanitize_fs_component(host).as_str());
    let f = join(e.as_str(), sanitize_fs_component(owner).as_str());
    join(f.as_str(), sanitize_fs_component(repo_name).as_str())
}

/// The installed folder of an addon.
pub open spec fn addon_dir(wow_dir: Seq<char>, addon: Seq<char>) -> Seq<char> {
    join_path(join_path(join_path(wow_dir, "Interface"@), "AddOns"@), addon)
}

pub fn addon_folder_path(wow_dir: &str, addon_folder_name: &str) -> (r: String)
    ensures
        r@ == addon_dir(wow_dir@, addon_folder_name@),
{
    let a = join(wow_dir, "Interface");
    let b = join(a.as_str(), "AddOns");
    join(b.as_str(), addon_folder_name)
}

/// The store file inside the application directory.
pub fn db_path(app_dir: &str) -> (r: String)
    ensures
        r@ == join_path(app_dir@, "wuddle.sqlite"@),
{
    join(app_dir, "wuddle.sqlite")
}

/// Backslashes turned into slashes.
pub open spec fn forward_slashes(s: Seq<char>) -> Seq<char> {
    Seq::new(s.len(), |i: int| if s[i] == '\\' { '/' } else { s[i] })
}

/// The root with forward slashes and one trailing `/`.
pub open spec fn root_prefix(wow_dir: Seq<char>) -> Seq<char> {
    let w = forward_slashes(wow_dir);
    if w.len() > 0 && w.last() == '/' {
        w
    } else {
        w + seq!['/']
    }
}

/// A manifest path: with forward slashes (backslashes of Windows paths
/// included), and relative to the installation root when the path lies
/// under it; the root itself gives the empty path.
pub open spec fn manifest_path(path: Seq<char>, wow_dir: Seq<char>) -> Seq<char> {
    let p = forward_slashes(path);
    let root = root_prefix(wow_dir);
    if starts_with(p, root) {
        p.subrange(root.len() as int, p.len() as int)
    } else if p + seq!['/'] == root {
        seq![]
    } else {
        p
    }
}

pub fn forward_vec(v: &Vec<char>) -> (r: Vec<char>)
    ensures
        r@ == forward_slashes(v@),
{
    let mut out: Vec<char> = Vec::new();
    let mut i: usize = 0;
    while i < v.len()
        invariant
            i <= v.len(),
            out@ == forward_slashes(v@).subrange(0, i as int),
        decreases v.len() - i,
    {
        out.push(if v[i] == '\\' { '/' } else { v[i] });
        i = i + 1;
        assert(out@ =~= forward_slashes(v@).subrange(0, i as int));
    }
    assert(forward_slashes(v@).subrange(0, v.len() as int) =~= forward_slashes(v@));
    out
}

pub fn to_manifest_path(path: &str, wow_dir: &str) -> (r: String)
    ensures
        r@ == manifest_path(path@, wow_dir@),
{
    let p = forward_vec(&chars_of(path));
    let mut root = forward_vec(&chars_of(wow_dir));
    let ghost w = root@;
    if !(root.len() > 0 && root[root.len() - 1] == '/') {
        root.push('/');
        assert(root@ =~= w + seq!['/']);
    }
    assert(root@ == root_prefix(wow_dir@));
    if starts_with_vec(&p, &root) {
        return string_of(&sub_vec(&p, root.len(), p.len()));
    }
    let mut ps = sub_vec(&p, 0, p.len());
    ps.push('/');
    assert(p@.subrange(0, p@.len() as int) =~= p@);
    assert(ps@ =~= p@ + seq!['/']);
    if crate::text::seq_eq(&ps, &root) {
        return String::new();
    }
    string_of(&p)
}

/// `a`, `|`, `b`.
pub open spec fn bar_join(a: Seq<char>, b: Seq<char>) -> Seq<char> {
    a + seq!['|'] + b
}

fn bar(a: &str, b: &str) -> (r: String)
    ensures
        r@ == bar_join(a@, b@),
{
    let x = cat(a, "|");
    proof {
        reveal_strlit("|");
    }
    assert(x@ =~= a@ + seq!['|']);
    cat(x.as_str(), b)
}

/// The case-insensitive identity key of a project.
pub open spec fn repo_key_of(host: Seq<char>, owner: Seq<char>, name: Seq<char>) -> Seq<char> {
    bar_join(bar_join(lower(trim(host)), lower(trim(owner))), lower(trim(name)))
}

pub fn repo_key(host: &str, owner: &str, name: &str) -> (r: String)
    ensures
        r@ == repo_key_of(host@, owner@, name@),
{
    let h = string_of(&lower_vec(&trim_vec(&chars_of(host))));
    let o = string_of(&lower_vec(&trim_vec(&chars_of(owner))));
    let n = string_of(&lower_vec(&trim_vec(&chars_of(name))));
    let ho = bar(h.as_str(), o.as_str());
    bar(ho.as_str(), n.as_str())
}

/// The key of a project in the release cache: forge, host and project path,
/// the last two lower-cased.
pub open spec fn release_cache_key(forge: Seq<char>, host: Seq<char>, project_path: Seq<char>) -> Seq<char> {
    bar_join(bar_join(forge, lower(host)), lower(project_path))
}

pub fn cache_key(repo: &crate::forge::DetectedRepo) -> (r: String)
    ensures
        r@ == release_cache_key(crate::forge::forge_name(repo.kind), repo.host@, repo.project_path@),
{
    let h = crate::text::lower_str(repo.host.as_str());
    let p = crate::text::lower_str(repo.project_path.as_str());
    let fh = bar(repo.kind.as_str(), h.as_str());
    bar(fh.as_str(), p.as_str())
}

/// The file name of a downloaded asset: the last part of its name, or
/// `asset.bin` when that is empty, `.` or `..`.
pub open spec fn asset_file_name_of(name: Seq<char>) -> Seq<char> {
    let b = crate::policy::base_name(name);
    if b.len() == 0 || b == "."@ || b == ".."@ {
        "asset.bin"@
    } else {
        b
    }
}

pub fn asset_file_name(asset_name: &str) -> (r: String)
    ensures
        r@ == asset_file_name_of(asset_name@),
{
    let b = crate::policy::base_name_of(asset_name);
    if b.as_str().is_empty() || crate::text::str_eq(b.as_str(), ".") || crate::text::str_eq(b.as_str(), "..") {
        copy_str("asset.bin")
    } else {
        b
    }
}

/// Candidate clone URLs: the trimmed URL without trailing slashes, tried
/// with `.git` first when it is an HTTP(S) or SCP-style URL without it.
pub open spec fn url_candidates(url: Seq<char>) -> Seq<Seq<char>> {
    let base = trim_end_slashes(trim(url));
    if trim(url).len() == 0 {
        seq![]
    } else if (starts_with(base, "https://"@) || starts_with(base, "http://"@) || starts_with(base, "git@"@)) && !ends_with(
        base,
        ".git"@,
    ) {
        seq![base + ".git"@, base]
    } else {
        seq![base]
    }
}

pub open spec fn trim_end_slashes(s: Seq<char>) -> Seq<char>
    decreases s.len(),
{
    if s.len() > 0 && s.last() == '/' {
        trim_end_slashes(s.drop_last())
    } else {
        s
    }
}

pub fn git_url_candidates(url: &str) -> (r: Vec<String>)
    ensures
        r@.map_values(|s: String| s@) == url_candidates(url@),
{
    let t = trim_vec(&chars_of(url));
    if t.len() == 0 {
        let e: Vec<String> = Vec::new();
        assert(e@.map_values(|s: String| s@) =~= seq![]);
        return e;
    }
    let mut b: usize = t.len();
    assert(t@.subrange(0, t.len() as int) =~= t@);
    while b > 0 && t[b - 1] == '/'
        invariant
            b <= t.len(),
            trim_end_slashes(t@) == trim_end_slashes(t@.subrange(0, b as int)),
        decreases b,
    {
        assert(t@.subrange(0, b as int).drop_last() =~= t@.subrange(0, b - 1));
        b = b - 1;
    }
    let base = string_of(&sub_vec(&t, 0, b));
    let bv = chars_of(base.as_str());
    let add = (starts_with_vec(&bv, &chars_of("https://")) || starts_with_vec(&bv, &chars_of("http://"))
        || starts_with_vec(&bv, &chars_of("git@"))) && !ends_with_vec(&bv, &chars_of(".git"));
    let mut out: Vec<String> = Vec::new();
    if add {
        out.push(cat(base.as_str(), ".git"));
    }
    out.push(base);
    assert(out@.map_values(|s: String| s@) =~= url_candidates(url@));
    out
}

} // verus!
