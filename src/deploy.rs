//! Install decisions: which files of an archive are materialised, whether
//! deploying addon folders would overwrite content the project does not own,
//! and how a git-owned project is planned.
use vstd::prelude::*;

use crate::model::{InstallMode};
use crate::paths::{addon_dir, addon_folder_path};

use crate::text::{cat, chars_of, copy_str, ends_with, ends_with_vec, eq_ic, eq_ic_vec, lower, lower_vec, seq_eq, starts_with, str_eq, string_of, sub_vec, trim, trim_vec};
use crate::urls::opt_view;

verus! {

/// What an archive install materialises in a mode: libraries, addon folders.
pub open spec fn zip_targets_of(mode: InstallMode) -> (bool, bool) {
    (
        mode == InstallMode::Dll || mode == InstallMode::Mixed || mode == InstallMode::Auto,
        mode == InstallMode::Addon || mode == InstallMode::Mixed || mode == InstallMode::Auto,
    )
}

/// `(want_dll, want_addon)` for an archive installed in `mode`.
pub fn zip_targets(mode: InstallMode) -> (r: (bool, bool))
    ensures
        r == zip_targets_of(mode),
{
    let want_dll = mode == InstallMode::Dll || mode == InstallMode::Mixed || mode == InstallMode::Auto;
    let want_addon = mode == InstallMode::Addon || mode == InstallMode::Mixed || mode == InstallMode::Auto;
    (want_dll, want_addon)
}

/// How a downloaded asset is installed.
#[derive(Debug, Clone, Copy, PartialEq, Eq, Structural)]
pub enum InstallRoute {
    /// Extract the archive.
    Archive,
    /// Copy the library into the installation root.
    Library,
    /// Copy the file into the raw destination.
    RawFile,
    /// Not installable in this mode.
    Unsupported,
}

pub open spec fn route_of(asset_name: Seq<char>, file_name: Seq<char>, mode: InstallMode) -> InstallRoute {
    if ends_with(lower(asset_name), ".zip"@) || crate::policy::raw_extension(file_name) == Some("zip"@) {
        InstallRoute::Archive
    } else if ends_with(lower(asset_name), ".dll"@) {
        InstallRoute::Library
    } else if mode == InstallMode::Raw || mode == InstallMode::Auto {
        InstallRoute::RawFile
    } else {
        InstallRoute::Unsupported
    }
}

/// An archive by name or by its file's extension, else a library by name,
/// else a raw file in the raw and automatic modes.
pub fn install_route(asset_name: &str, file_name: &str, mode: InstallMode) -> (r: InstallRoute)
    ensures
        r == route_of(asset_name@, file_name@, mode),
{
    let ln = lower_vec(&chars_of(asset_name));
    let is_zip_ext = match crate::policy::raw_extension_of(file_name) {
        Some(e) => str_eq(e.as_str(), "zip"),
        None => false,
    };
    if ends_with_vec(&ln, &chars_of(".zip")) || is_zip_ext {
        InstallRoute::Archive
    } else if ends_with_vec(&ln, &chars_of(".dll")) {
        InstallRoute::Library
    } else if mode == InstallMode::Raw || mode == InstallMode::Auto {
        InstallRoute::RawFile
    } else {
        InstallRoute::Unsupported
    }
}

/// The `/`-separated components of a relative path, empty ones dropped.
pub open spec fn components(p: Seq<char>) -> Seq<Seq<char>> {
    crate::forge::path_segments(crate::paths::forward_slashes(p))
}

pub open spec fn has_component(p: Seq<char>, want: Seq<char>) -> bool {
    exists|i: int| 0 <= i < components(p).len() && eq_ic(#[trigger] components(p)[i], want)
}

pub open spec fn file_is(p: Seq<char>, name: Seq<char>) -> bool {
    components(p).len() > 0 && eq_ic(components(p).last(), name)
}

/// The 32-bit `d3d9.dll` of a bundle that ships an `x32/dxgi.dll`.
pub open spec fn is_x32(p: Seq<char>, name: Seq<char>) -> bool {
    file_is(p, name) && has_component(p, "x32"@)
}

/// Index of the first path satisfying `is_x32(_, name)`.
pub open spec fn first_x32(ps: Seq<Seq<char>>, name: Seq<char>) -> Option<int>
    decreases ps.len(),
{
    if ps.len() == 0 {
        None
    } else {
        match first_x32(ps.drop_last(), name) {
            Some(i) => Some(i),
            None => if is_x32(ps.last(), name) {
                Some(ps.len() - 1)
            } else {
                None
            },
        }
    }
}

/// The libraries to install from an archive: all of them, except that a
/// multi-architecture graphics layer (an `x32/dxgi.dll` beside an
/// `x32/d3d9.dll`) installs only its 32-bit `d3d9.dll`.
pub open spec fn selected_dlls(ps: Seq<Seq<char>>) -> Seq<Seq<char>> {
    if first_x32(ps, "dxgi.dll"@) is Some && first_x32(ps, "d3d9.dll"@) is Some {
        seq![ps[first_x32(ps, "d3d9.dll"@)->0]]
    } else {
        ps
    }
}

fn component_check(p: &str, want: &str) -> (r: bool)
    ensures
        r == has_component(p@, want@),
{
    let segs = split_components(p);
    let w = chars_of(want);
    let mut i: usize = 0;
    while i < segs.len()
        invariant
            i <= segs.len(),
            segs@.map_values(|x: Vec<char>| x@) == components(p@),
            w@ == want@,
            forall|j: int| 0 <= j < i ==> !eq_ic(#[trigger] components(p@)[j], want@),
        decreases segs.len() - i,
    {
        assert(segs@[i as int]@ == components(p@)[i as int]);
        if eq_ic_vec(&segs[i], &w) {
            return true;
        }
        i = i + 1;
    }
    false
}

fn split_components(p: &str) -> (r: Vec<Vec<char>>)
    ensures
        r@.map_values(|x: Vec<char>| x@) == components(p@),
{
    let f = string_of(&crate::paths::forward_vec(&chars_of(p)));
    crate::forge::path_segments_of(f.as_str())
}

fn file_check(p: &str, name: &str) -> (r: bool)
    ensures
        r == file_is(p@, name@),
{
    let segs = split_components(p);
    if segs.len() == 0 {
        return false;
    }
    assert(segs@[segs.len() - 1]@ == components(p@).last());
    eq_ic_vec(&segs[segs.len() - 1], &chars_of(name))
}

fn find_x32(ps: &Vec<String>, name: &str) -> (r: Option<usize>)
    ensures
        r matches Some(i) ==> first_x32(crate::dlls::views(ps@), name@) == Some(i as int) && i < ps@.len(),
        r is None ==> first_x32(crate::dlls::views(ps@), name@) is None,
{
    let ghost pv = crate::dlls::views(ps@);
    let mut i: usize = 0;
    assert(pv.subrange(0, 0) =~= seq![]);
    while i < ps.len()
        invariant
            i <= ps.len(),
            pv == crate::dlls::views(ps@),
            first_x32(pv.subrange(0, i as int), name@) is None,
        decreases ps.len() - i,
    {
        assert(pv.subrange(0, i + 1).drop_last() =~= pv.subrange(0, i as int));
        assert(pv[i as int] == ps@[i as int]@);
        if file_check(ps[i].as_str(), name) && component_check(ps[i].as_str(), "x32") {
            proof {
                lemma_x32_prefix(pv, name@, i + 1);
            }
            return Some(i);
        }
        i = i + 1;
    }
    assert(pv.subrange(0, ps.len() as int) =~= pv);
    None
}

pub proof fn lemma_x32_prefix(s: Seq<Seq<char>>, name: Seq<char>, n: int)
    requires
        0 <= n <= s.len(),
        first_x32(s.subrange(0, n), name) is Some,
    ensures
        first_x32(s, name) == first_x32(s.subrange(0, n), name),
    decreases s.len() - n,
{
    if n < s.len() {
        assert(s.subrange(0, n + 1).drop_last() =~= s.subrange(0, n));
        lemma_x32_prefix(s, name, n + 1);
    } else {
        assert(s.subrange(0, n) =~= s);
    }
}

/// Picks the libraries of an extracted archive to install; `dlls` are
/// their paths relative to the extraction root.
pub fn select_dlls_for_install(dlls: Vec<String>) -> (r: Vec<String>)
    ensures
        crate::dlls::views(r@) == selected_dlls(crate::dlls::views(dlls@)),
{
    if dlls.len() == 0 {
        return dlls;
    }
    if find_x32(&dlls, "dxgi.dll").is_some() {
        if let Some(k) = find_x32(&dlls, "d3d9.dll") {
            let mut out: Vec<String> = Vec::new();
            out.push(dlls[k].clone());
            assert(crate::dlls::views(out@) =~= seq![crate::dlls::views(dlls@)[k as int]]);
            return out;
        }
    }
    dlls
}

/// Two paths that differ at most in using `\\` or `/` as separator.
pub open spec fn same_path(a: Seq<char>, b: Seq<char>) -> bool {
    crate::paths::forward_slashes(a) == crate::paths::forward_slashes(b)
}

/// Some path of the list is `p`, up to the separator used.
pub open spec fn holds_path(list: Seq<Seq<char>>, p: Seq<char>) -> bool {
    exists|i: int| 0 <= i < list.len() && same_path(#[trigger] list[i], p)
}

/// Deploying `name` would overwrite content the project does not own: the
/// destination is not one of its owned paths and holds something.
pub open spec fn is_conflict(dst: Seq<char>, owned: Seq<Seq<char>>, occupied: bool) -> bool {
    !holds_path(owned, dst) && occupied
}

/// The conflicting names, with their destinations, in order.
pub open spec fn conflicts_of(wow_dir: Seq<char>, names: Seq<Seq<char>>, owned: Seq<Seq<char>>, occupied: Seq<bool>) -> Seq<(Seq<char>, Seq<char>)>
    decreases names.len(),
{
    if names.len() == 0 || occupied.len() != names.len() {
        seq![]
    } else if is_conflict(addon_dir(wow_dir, names.last()), owned, occupied.last()) {
        conflicts_of(wow_dir, names.drop_last(), owned, occupied.drop_last()).push((names.last(), addon_dir(wow_dir, names.last())))
    } else {
        conflicts_of(wow_dir, names.drop_last(), owned, occupied.drop_last())
    }
}

pub open spec fn pair_views(v: Seq<(String, String)>) -> Seq<(Seq<char>, Seq<char>)> {
    v.map_values(|p: (String, String)| (p.0@, p.1@))
}

fn owned_contains(owned: &Vec<String>, dst: &str) -> (r: bool)
    ensures
        r == holds_path(crate::dlls::views(owned@), dst@),
{
    let ghost tv = crate::dlls::views(owned@);
    let d = crate::paths::forward_vec(&chars_of(dst));
    let mut i: usize = 0;
    while i < owned.len()
        invariant
            i <= owned.len(),
            tv == crate::dlls::views(owned@),
            d@ == crate::paths::forward_slashes(dst@),
            forall|j: int| 0 <= j < i ==> !same_path(#[trigger] tv[j], dst@),
        decreases owned.len() - i,
    {
        assert(tv[i as int] == owned@[i as int]@);
        if seq_eq(&crate::paths::forward_vec(&chars_of(owned[i].as_str())), &d) {
            assert(same_path(tv[i as int], dst@));
            return true;
        }
        i = i + 1;
    }
    false
}

/// The addon folders whose deployment would overwrite unmanaged content.
///
/// `owned_paths` are the project's owned addon destinations, resolved
/// against the installation root; `occupied[i]` says whether the
/// destination of `addon_folder_names[i]` exists and is not an empty folder.
pub fn addon_install_conflicts(wow_dir: &str, addon_folder_names: &Vec<String>, owned_paths: &Vec<String>, occupied: &Vec<bool>) -> (r: Vec<(String, String)>)
    requires
        occupied@.len() == addon_folder_names@.len(),
    ensures
        pair_views(r@) == conflicts_of(wow_dir@, crate::dlls::views(addon_folder_names@), crate::dlls::views(owned_paths@), occupied@),
{
    let ghost nv = crate::dlls::views(addon_folder_names@);
    let ghost tv = crate::dlls::views(owned_paths@);
    let mut out: Vec<(String, String)> = Vec::new();
    let mut i: usize = 0;
    assert(nv.subrange(0, 0) =~= seq![]);
    assert(pair_views(out@) =~= seq![]);
    while i < addon_folder_names.len()
        invariant
            i <= addon_folder_names.len(),
            occupied@.len() == addon_folder_names@.len(),
            nv == crate::dlls::views(addon_folder_names@),
            tv == crate::dlls::views(owned_paths@),
            pair_views(out@) == conflicts_of(wow_dir@, nv.subrange(0, i as int), tv, occupied@.subrange(0, i as int)),
        decreases addon_folder_names.len() - i,
    {
        assert(nv.subrange(0, i + 1).drop_last() =~= nv.subrange(0, i as int));
        assert(occupied@.subrange(0, i + 1).drop_last() =~= occupied@.subrange(0, i as int));
        assert(nv[i as int] == addon_folder_names@[i as int]@);
        let dst = addon_folder_path(wow_dir, addon_folder_names[i].as_str());
        if !owned_contains(owned_paths, dst.as_str()) && occupied[i] {
            let ghost prev = pair_views(out@);
            out.push((addon_folder_names[i].clone(), dst));
            assert(pair_views(out@) =~= prev.push((nv[i as int], addon_dir(wow_dir@, nv[i as int]))));
        }
        i = i + 1;
    }
    assert(nv.subrange(0, addon_folder_names.len() as int) =~= nv);
    assert(occupied@.subrange(0, addon_folder_names.len() as int) =~= occupied@);
    out
}

/// `name (path)` for each conflict, joined with `; `.
pub open spec fn conflict_details(c: Seq<(Seq<char>, Seq<char>)>) -> Seq<char>
    decreases c.len(),
{
    if c.len() == 0 {
        seq![]
    } else if c.len() == 1 {
        c[0].0 + " ("@ + c[0].1 + ")"@
    } else {
        conflict_details(c.drop_last()) + "; "@ + c.last().0 + " ("@ + c.last().1 + ")"@
    }
}

/// The fixed prefix that marks an addon-conflict error.
pub open spec fn conflict_prefix() -> Seq<char> {
    "ADDON_CONFLICT: "@
}

pub open spec fn conflict_message(c: Seq<(Seq<char>, Seq<char>)>) -> Seq<char> {
    conflict_prefix() + "Existing addon files were found for: "@ + conflict_details(c)
        + ". Confirm replacement to delete those folders and continue."@
}

/// One error naming every conflicting addon and its path, behind the fixed
/// `ADDON_CONFLICT: ` prefix that callers recognise.
pub fn format_addon_conflict_message(conflicts: &Vec<(String, String)>) -> (r: String)
    ensures
        r@ == conflict_message(pair_views(conflicts@)),
{
    let ghost cv = pair_views(conflicts@);
    let mut details = String::new();
    let mut i: usize = 0;
    assert(cv.subrange(0, 0) =~= seq![]);
    while i < conflicts.len()
        invariant
            i <= conflicts.len(),
            cv == pair_views(conflicts@),
            details@ == conflict_details(cv.subrange(0, i as int)),
        decreases conflicts.len() - i,
    {
        assert(cv.subrange(0, i + 1).drop_last() =~= cv.subrange(0, i as int));
        assert(cv[i as int] == (conflicts@[i as int].0@, conflicts@[i as int].1@));
        let (name, path) = (&conflicts[i].0, &conflicts[i].1);
        let a = if i == 0 { copy_str(name.as_str()) } else {
            let d = cat(details.as_str(), "; ");
            cat(d.as_str(), name.as_str())
        };
        let b = cat(a.as_str(), " (");
        let c = cat(b.as_str(), path.as_str());
        details = cat(c.as_str(), ")");
        proof {
            if i == 0 {
                assert(cv.subrange(0, 1) =~= seq![cv[0]]);
            }
        }
        i = i + 1;
    }
    assert(cv.subrange(0, conflicts.len() as int) =~= cv);
    let head = cat("ADDON_CONFLICT: ", "Existing addon files were found for: ");
    let body = cat(head.as_str(), details.as_str());
    cat(body.as_str(), ". Confirm replacement to delete those folders and continue.")
}

/// What a git-mode deployment does about conflicts: nothing when there are
/// none; refuse with the conflict message unless replacing is allowed; when
/// it is, the destinations to clear before deploying.
pub open spec fn conflict_decision(c: Seq<(Seq<char>, Seq<char>)>, replace: bool) -> Result<Seq<Seq<char>>, Seq<char>> {
    if c.len() == 0 {
        Ok(seq![])
    } else if !replace {
        Err(conflict_message(c))
    } else {
        Ok(Seq::new(c.len(), |i: int| c[i].1))
    }
}

pub fn resolve_addon_conflicts(conflicts: &Vec<(String, String)>, replace_addon_conflicts: bool) -> (r: Result<Vec<String>, String>)
    ensures
        match conflict_decision(pair_views(conflicts@), replace_addon_conflicts) {
            Ok(paths) => r matches Ok(v) && crate::dlls::views(v@) == paths,
            Err(m) => r matches Err(e) && e@ == m,
        },
{
    if conflicts.len() == 0 {
        let v: Vec<String> = Vec::new();
        assert(crate::dlls::views(v@) =~= seq![]);
        return Ok(v);
    }
    if !replace_addon_conflicts {
        return Err(format_addon_conflict_message(conflicts));
    }
    let mut v: Vec<String> = Vec::new();
    let mut i: usize = 0;
    while i < conflicts.len()
        invariant
            i <= conflicts.len(),
            v@.len() == i,
            forall|j: int| 0 <= j < i ==> (#[trigger] v@[j])@ == conflicts@[j].1@,
        decreases conflicts.len() - i,
    {
        v.push(conflicts[i].1.clone());
        i = i + 1;
    }
    assert(crate::dlls::views(v@) =~= Seq::new(pair_views(conflicts@).len(), |i: int| pair_views(conflicts@)[i].1));
    Ok(v)
}

/// Conflict detection: deploying an addon whose destination holds unmanaged
/// content (not among the project's owned paths) fails with the fixed
/// conflict prefix and clears nothing unless replacing is allowed; when it
/// is, that destination is among the paths cleared before deployment.
pub proof fn conflict_detection(wow_dir: Seq<char>, name: Seq<char>, owned: Seq<Seq<char>>, replace: bool)
    requires
        !holds_path(owned, addon_dir(wow_dir, name)),
    ensures
        ({
            let c = conflicts_of(wow_dir, seq![name], owned, seq![true]);
            &&& c == seq![(name, addon_dir(wow_dir, name))]
            &&& !replace ==> (conflict_decision(c, replace) matches Err(m) && starts_with(m, conflict_prefix()))
            &&& replace ==> (conflict_decision(c, replace) matches Ok(paths) && paths == seq![addon_dir(wow_dir, name)])
        }),
{
    let c = conflicts_of(wow_dir, seq![name], owned, seq![true]);
    assert(seq![name].drop_last() =~= seq![]);
    assert(seq![true].drop_last() =~= seq![]);
    assert(seq![name].last() == name);
    assert(seq![true].last() == true);
    let e: Seq<(Seq<char>, Seq<char>)> = seq![];
    assert(conflicts_of(wow_dir, seq![name].drop_last(), owned, seq![true].drop_last()) == e);
    assert(e.push((name, addon_dir(wow_dir, name))) =~= seq![(name, addon_dir(wow_dir, name))]);
    assert(c == seq![(name, addon_dir(wow_dir, name))]);
    if !replace {
        let m = conflict_message(c);
        assert(m.subrange(0, conflict_prefix().len() as int) =~= conflict_prefix());
    } else {
        assert(Seq::new(c.len(), |i: int| c[i].1) =~= seq![addon_dir(wow_dir, name)]);
    }
}

/// Keeps the first detected addon of each name, ignoring ASCII case; the
/// pairs are (source folder, addon name).
pub open spec fn first_of_each_name(d: Seq<(Seq<char>, Seq<char>)>) -> Seq<(Seq<char>, Seq<char>)>
    decreases d.len(),
{
    if d.len() == 0 {
        seq![]
    } else if exists|i: int| 0 <= i < d.len() - 1 && eq_ic(#[trigger] d[i].1, d.last().1) {
        first_of_each_name(d.drop_last())
    } else {
        first_of_each_name(d.drop_last()).push(d.last())
    }
}

/// The addons a git worktree deploys: one per name, the first found.
pub fn choose_deployable_addons(detected: &Vec<(String, String)>) -> (r: Vec<(String, String)>)
    ensures
        pair_views(r@) == first_of_each_name(pair_views(detected@)),
{
    let ghost dv = pair_views(detected@);
    let mut out: Vec<(String, String)> = Vec::new();
    let mut i: usize = 0;
    assert(dv.subrange(0, 0) =~= seq![]);
    assert(pair_views(out@) =~= seq![]);
    while i < detected.len()
        invariant
            i <= detected.len(),
            dv == pair_views(detected@),
            pair_views(out@) == first_of_each_name(dv.subrange(0, i as int)),
        decreases detected.len() - i,
    {
        let ghost pre = dv.subrange(0, i + 1);
        assert(pre.drop_last() =~= dv.subrange(0, i as int));
        assert(pre.last() == dv[i as int]);
        assert(dv[i as int] == (detected@[i as int].0@, detected@[i as int].1@));
        let mut k: usize = 0;
        let mut seen = false;
        while k < i
            invariant_except_break
                !seen,
            invariant
                k <= i,
                i < detected.len(),
                dv == pair_views(detected@),
                pre == dv.subrange(0, i + 1),
                forall|j: int| 0 <= j < k ==> !eq_ic(#[trigger] pre[j].1, pre.last().1),
            ensures
                seen ==> exists|j: int| 0 <= j < i && eq_ic(#[trigger] pre[j].1, pre.last().1),
                !seen ==> forall|j: int| 0 <= j < i ==> !eq_ic(#[trigger] pre[j].1, pre.last().1),
            decreases i - k,
        {
            assert(pre[k as int] == dv[k as int]);
            assert(dv[k as int] == (detected@[k as int].0@, detected@[k as int].1@));
            if crate::text::eq_ic_str(detected[k].1.as_str(), detected[i].1.as_str()) {
                assert(eq_ic(pre[k as int].1, pre.last().1));
                seen = true;
                break;
            }
            k = k + 1;
        }
        if !seen {
            let ghost prev = pair_views(out@);
            out.push((detected[i].0.clone(), detected[i].1.clone()));
            assert(pair_views(out@) =~= prev.push(dv[i as int]));
        }
        i = i + 1;
    }
    assert(dv.subrange(0, detected.len() as int) =~= dv);
    out
}

pub open spec fn is_path_sep(c: char) -> bool {
    c == '/' || c == '\\'
}

/// The path starts with a drive prefix such as `C:`.
pub open spec fn has_drive(p: Seq<char>) -> bool {
    p.len() >= 2 && (('a' <= p[0] && p[0] <= 'z') || ('A' <= p[0] && p[0] <= 'Z')) && p[1] == ':'
}

/// An absolute path: one starting with a separator (a Unix root, a Windows
/// root or a UNC share), or a drive prefix followed by a separator.
pub open spec fn is_absolute_path(p: Seq<char>) -> bool {
    (p.len() > 0 && is_path_sep(p[0])) || (has_drive(p) && p.len() >= 3 && is_path_sep(p[2]))
}

/// A stored manifest path resolved against the installation root: absolute
/// paths as they are; relative ones joined to the root, unless no root is
/// known, they carry a drive prefix, or they climb out of it (`..`).
pub open spec fn resolved_path(path: Seq<char>, wow_dir: Option<Seq<char>>) -> Option<Seq<char>> {
    if is_absolute_path(path) {
        Some(path)
    } else {
        match wow_dir {
            None => None,
            Some(w) => if has_drive(path) || exists|i: int| 0 <= i < components(path).len() && #[trigger] components(path)[i] == ".."@ {
                None
            } else {
                Some(crate::paths::join_path(w, path))
            },
        }
    }
}

fn drive_check(p: &Vec<char>) -> (r: bool)
    ensures
        r == has_drive(p@),
{
    p.len() >= 2 && (('a' <= p[0] && p[0] <= 'z') || ('A' <= p[0] && p[0] <= 'Z')) && p[1] == ':'
}

pub fn resolve_install_path(path: &str, wow_dir: Option<&str>) -> (r: Option<String>)
    ensures
        opt_view(r) == resolved_path(path@, crate::policy::opt_str_view(wow_dir)),
{
    let p = chars_of(path);
    let drive = drive_check(&p);
    if (p.len() > 0 && (p[0] == '/' || p[0] == '\\')) || (drive && p.len() >= 3 && (p[2] == '/' || p[2] == '\\')) {
        return Some(copy_str(path));
    }
    let w = match wow_dir {
        Some(w) => w,
        None => {
            return None;
        },
    };
    if drive {
        return None;
    }
    let segs = split_components(path);
    let up = chars_of("..");
    let mut i: usize = 0;
    while i < segs.len()
        invariant
            i <= segs.len(),
            segs@.map_values(|x: Vec<char>| x@) == components(path@),
            up@ == ".."@,
            !is_absolute_path(path@),
            !has_drive(path@),
            wow_dir == Some(w),
            forall|j: int| 0 <= j < i ==> #[trigger] components(path@)[j] != ".."@,
        decreases segs.len() - i,
    {
        assert(segs@[i as int]@ == components(path@)[i as int]);
        if seq_eq(&segs[i], &up) {
            assert(components(path@)[i as int] == ".."@);
            return None;
        }
        i = i + 1;
    }
    Some(crate::paths::join(w, path))
}

/// The first 220 characters of a response body with newlines as spaces,
/// trimmed, for error messages.
pub open spec fn compacted(body: Seq<char>) -> Seq<char> {
    let t = trim(Seq::new(body.len(), |i: int| if body[i] == '\n' { ' ' } else { body[i] }));
    if t.len() <= 220 {
        t
    } else {
        t.subrange(0, 220)
    }
}

pub fn compact_body(body: &str) -> (r: String)
    ensures
        r@ == compacted(body@),
{
    let v = chars_of(body);
    let mut out: Vec<char> = Vec::new();
    let mut i: usize = 0;
    let ghost sp = Seq::new(v@.len(), |i: int| if v@[i] == '\n' { ' ' } else { v@[i] });
    while i < v.len()
        invariant
            i <= v.len(),
            sp == Seq::new(v@.len(), |i: int| if v@[i] == '\n' { ' ' } else { v@[i] }),
            out@ == sp.subrange(0, i as int),
        decreases v.len() - i,
    {
        out.push(if v[i] == '\n' { ' ' } else { v[i] });
        i = i + 1;
        assert(out@ =~= sp.subrange(0, i as int));
    }
    assert(sp.subrange(0, v.len() as int) =~= sp);
    let t = trim_vec(&out);
    if t.len() <= 220 {
        string_of(&t)
    } else {
        string_of(&sub_vec(&t, 0, 220))
    }
}

/// The installed addon folders of a project that a new install no longer
/// produces: stored addon entries whose resolved path is not kept.
pub open spec fn stale_paths(entries: Seq<(Seq<char>, Seq<char>)>, wow_dir: Seq<char>, kept: Seq<Seq<char>>) -> Seq<Seq<char>>
    decreases entries.len(),
{
    if entries.len() == 0 {
        seq![]
    } else {
        let e = entries.last();
        let rest = stale_paths(entries.drop_last(), wow_dir, kept);
        if e.1 == "addon"@ && resolved_path(e.0, Some(wow_dir)) is Some && !holds_path(kept, resolved_path(e.0, Some(wow_dir))->0) {
            rest.push(resolved_path(e.0, Some(wow_dir))->0)
        } else {
            rest
        }
    }
}

/// Addon folders to remove after a release install: previously stored
/// addon entries (`(path, kind)`) that the new install did not produce.
pub fn stale_addon_paths(entries: &Vec<(String, String)>, wow_dir: &str, kept: &Vec<String>) -> (r: Vec<String>)
    ensures
        crate::dlls::views(r@) == stale_paths(pair_views(entries@), wow_dir@, crate::dlls::views(kept@)),
{
    let ghost ev = pair_views(entries@);
    let mut out: Vec<String> = Vec::new();
    let mut i: usize = 0;
    assert(ev.subrange(0, 0) =~= seq![]);
    assert(crate::dlls::views(out@) =~= seq![]);
    while i < entries.len()
        invariant
            i <= entries.len(),
            ev == pair_views(entries@),
            crate::dlls::views(out@) == stale_paths(ev.subrange(0, i as int), wow_dir@, crate::dlls::views(kept@)),
        decreases entries.len() - i,
    {
        assert(ev.subrange(0, i + 1).drop_last() =~= ev.subrange(0, i as int));
        assert(ev[i as int] == (entries@[i as int].0@, entries@[i as int].1@));
        if str_eq(entries[i].1.as_str(), "addon") {
            if let Some(full) = resolve_install_path(entries[i].0.as_str(), Some(wow_dir)) {
                if !owned_contains(kept, full.as_str()) {
                    let ghost prev = crate::dlls::views(out@);
                    let ghost fv = full@;
                    out.push(full);
                    assert(crate::dlls::views(out@) =~= prev.push(fv));
                }
            }
        }
        i = i + 1;
    }
    assert(ev.subrange(0, entries.len() as int) =~= ev);
    out
}


/// What an archive install does for the bundled VanillaFixes tool: when the
/// archive holds both its launcher and its patcher library, place both in
/// the installation root, and place the archive's `dlls.txt` only where the
/// root has none yet.
pub open spec fn bundled_tool_plan(launcher_found: bool, patcher_found: bool, list_found: bool, list_present: bool) -> (bool, bool) {
    (launcher_found && patcher_found, launcher_found && patcher_found && list_found && !list_present)
}

pub fn bundled_tool_layout(launcher_found: bool, patcher_found: bool, list_found: bool, list_present: bool) -> (r: (bool, bool))
    ensures
        r == bundled_tool_plan(launcher_found, patcher_found, list_found, list_present),
{
    let place = launcher_found && patcher_found;
    (place, place && list_found && !list_present)
}

/// A library of the archive is skipped when it is the patcher already
/// placed with the bundled tool.
pub fn skip_bundled_patcher(tool_placed: bool, file_name: &str) -> (r: bool)
    ensures
        r == (tool_placed && eq_ic(file_name@, "VfPatcher.dll"@)),
{
    tool_placed && crate::text::eq_ic_str(file_name, "VfPatcher.dll")
}

} // verus!
