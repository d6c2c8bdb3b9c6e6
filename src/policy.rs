//! Asset policy: which release assets may be installed, from where, and
//! whether downloaded bytes look like what they claim to be.
use vstd::prelude::*;
use crate::model::{copy_asset, InstallMode, LatestRelease, ReleaseAsset};
use crate::urls::{opt_view, parse_url, url_parts_of};
use crate::text::{
    eq_ic, eq_ic_vec,
    chars_of, contains, contains_vec, ends_with, ends_with_vec, lower, lower_vec, seq_eq,
    starts_with, starts_with_vec, string_of, sub_vec, trim, trim_vec,
};

verus! {

/// The part of a name after its last `/`.
pub open spec fn base_name(s: Seq<char>) -> Seq<char>
    decreases s.len(),
{
    if s.len() == 0 {
        s
    } else if s.last() == '/' {
        seq![]
    } else {
        base_name(s.drop_last()).push(s.last())
    }
}

/// Index of the last `.` in `s`, or -1.
pub open spec fn last_dot(s: Seq<char>) -> int
    decreases s.len(),
{
    if s.len() == 0 {
        -1
    } else if s.last() == '.' {
        s.len() - 1
    } else {
        last_dot(s.drop_last())
    }
}

/// The extension of a file name: what follows its last dot, unless that dot
/// starts the name.
pub open spec fn raw_extension(b: Seq<char>) -> Option<Seq<char>> {
    if last_dot(b) > 0 {
        Some(b.subrange(last_dot(b) + 1, b.len() as int))
    } else {
        None
    }
}

/// The trimmed, lower-cased, non-empty extension of an asset name.
pub open spec fn extension_of(name: Seq<char>) -> Option<Seq<char>> {
    match raw_extension(base_name(name)) {
        Some(e) => if lower(trim(e)).len() > 0 {
            Some(lower(trim(e)))
        } else {
            None
        },
        None => None,
    }
}

/// Extensions of executables, scripts and installers.
pub open spec fn blocked_extensions() -> Seq<Seq<char>> {
    seq![
        "exe"@, "msi"@, "msix"@, "appx"@, "bat"@, "cmd"@, "ps1"@, "vbs"@, "js"@, "jse"@,
        "wsf"@, "wsh"@, "scr"@, "com"@, "sh"@, "run"@, "apk"@, "jar"@, "py"@, "pl"@, "rb"@,
        "dmg"@, "pkg"@,
    ]
}

pub open spec fn is_blocked(ext: Seq<char>) -> bool {
    blocked_extensions().contains(ext)
}

/// Whether an asset of this name may be installed in this mode.
pub open spec fn name_allowed(name: Seq<char>, mode: InstallMode) -> bool {
    let n = trim(name);
    if n.len() == 0 {
        false
    } else {
        match extension_of(n) {
            None => mode == InstallMode::Raw,
            Some(e) => !is_blocked(e) && match mode {
                InstallMode::Addon | InstallMode::Mixed => e == "zip"@,
                InstallMode::AddonGit => false,
                InstallMode::Dll | InstallMode::Auto => e == "dll"@ || e == "zip"@,
                InstallMode::Raw => true,
            },
        }
    }
}

fn base_start(v: &Vec<char>) -> (r: usize)
    ensures
        r <= v.len(),
        base_name(v@) == v@.subrange(r as int, v.len() as int),
{
    let mut i: usize = v.len();
    assert(v@.subrange(v.len() as int, v.len() as int) =~= seq![]);
    assert(v@.subrange(0, v.len() as int) =~= v@);
    assert(base_name(v@) + seq![] =~= base_name(v@));
    while i > 0 && v[i - 1] != '/'
        invariant
            i <= v.len(),
            base_name(v@) == base_name(v@.subrange(0, i as int)) + v@.subrange(i as int, v.len() as int),
        decreases i,
    {
        let ghost p = v@.subrange(0, i as int);
        assert(p.drop_last() =~= v@.subrange(0, i - 1));
        assert(base_name(p) == base_name(p.drop_last()).push(p.last()));
        assert(seq![v@[i - 1]] + v@.subrange(i as int, v.len() as int) =~= v@.subrange(i - 1, v.len() as int));
        assert(base_name(v@.subrange(0, i - 1)).push(v@[i - 1]) + v@.subrange(i as int, v.len() as int)
            =~= base_name(v@.subrange(0, i - 1)) + v@.subrange(i - 1, v.len() as int));
        i = i - 1;
    }
    if i > 0 {
        assert(base_name(v@.subrange(0, i as int)) =~= seq![]);
    } else {
        assert(v@.subrange(0, 0) =~= seq![]);
    }
    assert(base_name(v@.subrange(0, i as int)) + v@.subrange(i as int, v.len() as int) =~= v@.subrange(
        i as int,
        v.len() as int,
    ));
    i
}

/// The part of a name after its last `/`.
pub fn base_name_of(name: &str) -> (r: String)
    ensures
        r@ == base_name(name@),
{
    let v = chars_of(name);
    let s = base_start(&v);
    string_of(&sub_vec(&v, s, v.len()))
}

/// The extension of a file name, as `raw_extension` defines it.
pub fn raw_extension_of(name: &str) -> (r: Option<String>)
    ensures
        crate::urls::opt_view(r) == raw_extension(name@),
{
    let v = chars_of(name);
    match find_last_dot(&v) {
        Some(d) => if d == 0 {
            None
        } else {
            Some(string_of(&sub_vec(&v, d + 1, v.len())))
        },
        None => None,
    }
}

fn find_last_dot(v: &Vec<char>) -> (r: Option<usize>)
    ensures
        r matches Some(i) ==> last_dot(v@) == i as int && i < v.len(),
        r is None ==> last_dot(v@) == -1,
{
    let mut i: usize = v.len();
    assert(v@.subrange(0, v.len() as int) =~= v@);
    while i > 0
        invariant
            i <= v.len(),
            last_dot(v@) == last_dot(v@.subrange(0, i as int)),
        decreases i,
    {
        let ghost p = v@.subrange(0, i as int);
        assert(p.drop_last() =~= v@.subrange(0, i - 1));
        if v[i - 1] == '.' {
            return Some(i - 1);
        }
        i = i - 1;
    }
    None
}

/// The trimmed, lower-cased extension of an asset name, if it has one.
pub fn asset_extension(name: &str) -> (r: Option<String>)
    ensures
        r matches Some(e) ==> extension_of(name@) == Some(e@),
        r is None ==> extension_of(name@) is None,
{
    let v = chars_of(name);
    let s = base_start(&v);
    let b = sub_vec(&v, s, v.len());
    match find_last_dot(&b) {
        Some(d) => {
            if d == 0 {
                return None;
            }
            let e = sub_vec(&b, d + 1, b.len());
            let le = lower_vec(&trim_vec(&e));
            if le.len() > 0 {
                Some(string_of(&le))
            } else {
                None
            }
        },
        None => None,
    }
}

fn blocked_extension(i: usize) -> (r: Vec<char>)
    requires
        i < 23,
    ensures
        r@ == blocked_extensions()[i as int],
{
    let e = match i {
        0 => "exe",
        1 => "msi",
        2 => "msix",
        3 => "appx",
        4 => "bat",
        5 => "cmd",
        6 => "ps1",
        7 => "vbs",
        8 => "js",
        9 => "jse",
        10 => "wsf",
        11 => "wsh",
        12 => "scr",
        13 => "com",
        14 => "sh",
        15 => "run",
        16 => "apk",
        17 => "jar",
        18 => "py",
        19 => "pl",
        20 => "rb",
        21 => "dmg",
        _ => "pkg",
    };
    chars_of(e)
}

/// Whether an extension belongs to an executable, script or installer.
pub fn is_blocked_extension(ext: &str) -> (r: bool)
    ensures
        r == is_blocked(ext@),
{
    let v = chars_of(ext);
    let mut i: usize = 0;
    while i < 23
        invariant
            i <= 23,
            v@ == ext@,
            forall|j: int| 0 <= j < i ==> blocked_extensions()[j] != ext@,
        decreases 23 - i,
    {
        if seq_eq(&v, &blocked_extension(i)) {
            assert(blocked_extensions()[i as int] == ext@);
            return true;
        }
        i = i + 1;
    }
    assert(!blocked_extensions().contains(ext@));
    false
}

fn is_text(v: &Vec<char>, t: &str) -> (r: bool)
    ensures
        r == (v@ == t@),
{
    seq_eq(v, &chars_of(t))
}

/// Whether an asset may be installed in the given mode.
pub fn is_asset_allowed(asset: &ReleaseAsset, mode: InstallMode) -> (r: bool)
    ensures
        r == name_allowed(asset.name@, mode),
{
    let n = trim_vec(&chars_of(asset.name.as_str()));
    if n.len() == 0 {
        return false;
    }
    let ns = string_of(&n);
    let ext = match asset_extension(ns.as_str()) {
        Some(e) => e,
        None => {
            return mode == InstallMode::Raw;
        },
    };
    if is_blocked_extension(ext.as_str()) {
        return false;
    }
    let e = chars_of(ext.as_str());
    match mode {
        InstallMode::Addon | InstallMode::Mixed => is_text(&e, "zip"),
        InstallMode::AddonGit => false,
        InstallMode::Dll | InstallMode::Auto => is_text(&e, "dll") || is_text(&e, "zip"),
        InstallMode::Raw => true,
    }
}

/// Whether `pattern` matches somewhere in `text`; `None` when `pattern` is
/// not a valid regular expression.
pub uninterp spec fn regex_match_of(pattern: Seq<char>, text: Seq<char>) -> Option<bool>;

/// Relies on `regex::Regex::new` and `Regex::is_match`: the pattern is
/// compiled (an invalid one gives `None`) and searched for in the text; the
/// answer depends on the two strings alone.
#[verifier::external_body]
fn regex_match(pattern: &str, text: &str) -> (r: Option<bool>)
    ensures
        r == regex_match_of(pattern@, text@),
{
    regex::Regex::new(pattern).ok().map(|re| re.is_match(text))
}

/// Index of the first element of `s` that satisfies `f`.
pub open spec fn first_match(s: Seq<ReleaseAsset>, f: spec_fn(ReleaseAsset) -> bool) -> Option<int>
    decreases s.len(),
{
    if s.len() == 0 {
        None
    } else {
        match first_match(s.drop_last(), f) {
            Some(i) => Some(i),
            None => if f(s.last()) {
                Some(s.len() - 1)
            } else {
                None
            },
        }
    }
}

pub open spec fn lname(a: ReleaseAsset) -> Seq<char> {
    lower(a.name@)
}

pub open spec fn by_pattern(p: Seq<char>, mode: InstallMode) -> spec_fn(ReleaseAsset) -> bool {
    |a: ReleaseAsset| regex_match_of(p, a.name@) == Some(true) && name_allowed(a.name@, mode)
}

pub open spec fn plain_zip(mode: InstallMode) -> spec_fn(ReleaseAsset) -> bool {
    |a: ReleaseAsset| starts_with(lname(a), "vanillafixes"@) && ends_with(lname(a), ".zip"@) && !contains(lname(a), "-dxvk"@)
        && name_allowed(a.name@, mode)
}

pub open spec fn any_zip(mode: InstallMode) -> spec_fn(ReleaseAsset) -> bool {
    |a: ReleaseAsset| ends_with(lname(a), ".zip"@) && name_allowed(a.name@, mode)
}

pub open spec fn any_dll(mode: InstallMode) -> spec_fn(ReleaseAsset) -> bool {
    |a: ReleaseAsset| ends_with(lname(a), ".dll"@) && name_allowed(a.name@, mode)
}

pub open spec fn any_allowed(mode: InstallMode) -> spec_fn(ReleaseAsset) -> bool {
    |a: ReleaseAsset| name_allowed(a.name@, mode)
}

pub open spec fn prefers_zip(mode: InstallMode) -> bool {
    mode == InstallMode::Addon || mode == InstallMode::Mixed || mode == InstallMode::Auto
}

/// Some asset belongs to the bundled VanillaFixes tool family.
pub open spec fn has_bundled_tool(s: Seq<ReleaseAsset>) -> bool {
    exists|i: int| 0 <= i < s.len() && starts_with(lname(#[trigger] s[i]), "vanillafixes"@)
}

/// Why no asset could be chosen.
#[derive(Debug, Clone, Copy, PartialEq, Eq, Structural)]
pub enum PickError {
    /// The release has no assets at all.
    NoAssets,
    /// The name pattern override is not a valid regular expression.
    InvalidPattern,
    /// No asset is safe and compatible with the mode.
    NoCompatible,
}

/// Which asset of a release is installed, by index.
pub open spec fn pick_spec(assets: Seq<ReleaseAsset>, mode: InstallMode, pattern: Option<Seq<char>>) -> Result<int, PickError> {
    if assets.len() == 0 {
        Err(PickError::NoAssets)
    } else if pattern is Some && exists|i: int|
        0 <= i < assets.len() && regex_match_of(pattern->0, (#[trigger] assets[i]).name@) is None {
        Err(PickError::InvalidPattern)
    } else if pattern is Some && first_match(assets, by_pattern(pattern->0, mode)) is Some {
        Ok(first_match(assets, by_pattern(pattern->0, mode))->0)
    } else if prefers_zip(mode) && has_bundled_tool(assets) && first_match(assets, plain_zip(mode)) is Some {
        Ok(first_match(assets, plain_zip(mode))->0)
    } else if prefers_zip(mode) && first_match(assets, any_zip(mode)) is Some {
        Ok(first_match(assets, any_zip(mode))->0)
    } else if mode == InstallMode::Dll && first_match(assets, any_dll(mode)) is Some {
        Ok(first_match(assets, any_dll(mode))->0)
    } else if first_match(assets, any_allowed(mode)) is Some {
        Ok(first_match(assets, any_allowed(mode))->0)
    } else {
        Err(PickError::NoCompatible)
    }
}

pub proof fn lemma_first_match_step(s: Seq<ReleaseAsset>, f: spec_fn(ReleaseAsset) -> bool, i: int)
    requires
        0 <= i < s.len(),
        first_match(s.subrange(0, i), f) is None,
    ensures
        first_match(s.subrange(0, i + 1), f) == if f(s[i]) { Some(i) } else { None::<int> },
{
    assert(s.subrange(0, i + 1).drop_last() =~= s.subrange(0, i));
}

pub proof fn lemma_first_match_bounds(s: Seq<ReleaseAsset>, f: spec_fn(ReleaseAsset) -> bool)
    ensures
        first_match(s, f) matches Some(i) ==> 0 <= i < s.len() && f(s[i]),
    decreases s.len(),
{
    if s.len() > 0 {
        lemma_first_match_bounds(s.drop_last(), f);
    }
}

fn lower_name(a: &ReleaseAsset) -> (r: Vec<char>)
    ensures
        r@ == lname(*a),
{
    lower_vec(&chars_of(a.name.as_str()))
}

/// Which selection rule an asset is tested against.
#[derive(Clone, Copy, PartialEq, Eq, Structural)]
enum Rule {
    PlainZip,
    AnyZip,
    AnyDll,
    AnyAllowed,
}

spec fn rule_fn(rule: Rule, mode: InstallMode) -> spec_fn(ReleaseAsset) -> bool {
    match rule {
        Rule::PlainZip => plain_zip(mode),
        Rule::AnyZip => any_zip(mode),
        Rule::AnyDll => any_dll(mode),
        Rule::AnyAllowed => any_allowed(mode),
    }
}

fn rule_holds(rule: Rule, a: &ReleaseAsset, mode: InstallMode) -> (r: bool)
    ensures
        r == (rule_fn(rule, mode))(*a),
{
    let ln = lower_name(a);
    match rule {
        Rule::PlainZip => starts_with_vec(&ln, &chars_of("vanillafixes")) && ends_with_vec(&ln, &chars_of(".zip"))
            && !contains_vec(&ln, &chars_of("-dxvk")) && is_asset_allowed(a, mode),
        Rule::AnyZip => ends_with_vec(&ln, &chars_of(".zip")) && is_asset_allowed(a, mode),
        Rule::AnyDll => ends_with_vec(&ln, &chars_of(".dll")) && is_asset_allowed(a, mode),
        Rule::AnyAllowed => is_asset_allowed(a, mode),
    }
}

fn first_by_rule(assets: &Vec<ReleaseAsset>, rule: Rule, mode: InstallMode) -> (r: Option<usize>)
    ensures
        r matches Some(i) ==> first_match(assets@, rule_fn(rule, mode)) == Some(i as int),
        r is None ==> first_match(assets@, rule_fn(rule, mode)) is None,
{
    let mut i: usize = 0;
    assert(assets@.subrange(0, 0) =~= seq![]);
    while i < assets.len()
        invariant
            i <= assets.len(),
            first_match(assets@.subrange(0, i as int), rule_fn(rule, mode)) is None,
        decreases assets.len() - i,
    {
        proof {
            lemma_first_match_step(assets@, rule_fn(rule, mode), i as int);
        }
        if rule_holds(rule, &assets[i], mode) {
            proof {
                lemma_first_match_prefix(assets@, rule_fn(rule, mode), i as int + 1);
            }
            return Some(i);
        }
        i = i + 1;
    }
    assert(assets@.subrange(0, assets.len() as int) =~= assets@);
    None
}

/// A match found in a prefix stays the first match of the whole sequence.
pub proof fn lemma_first_match_prefix(s: Seq<ReleaseAsset>, f: spec_fn(ReleaseAsset) -> bool, n: int)
    requires
        0 <= n <= s.len(),
        first_match(s.subrange(0, n), f) is Some,
    ensures
        first_match(s, f) == first_match(s.subrange(0, n), f),
    decreases s.len() - n,
{
    if n < s.len() {
        assert(s.subrange(0, n + 1).drop_last() =~= s.subrange(0, n));
        lemma_first_match_prefix(s, f, n + 1);
    } else {
        assert(s.subrange(0, n) =~= s);
    }
}

/// Index of the first asset whose name the pattern matches and that the mode
/// allows; `Err(())` when the pattern does not compile.
fn first_by_pattern(assets: &Vec<ReleaseAsset>, pattern: &str, mode: InstallMode) -> (r: Result<Option<usize>, ()>)
    ensures
        r is Err <==> exists|i: int| 0 <= i < assets@.len() && regex_match_of(pattern@, (#[trigger] assets@[i]).name@) is None,
        r matches Ok(Some(i)) ==> first_match(assets@, by_pattern(pattern@, mode)) == Some(i as int),
        r matches Ok(None) ==> first_match(assets@, by_pattern(pattern@, mode)) is None,
{
    let mut i: usize = 0;
    while i < assets.len()
        invariant
            i <= assets.len(),
            forall|j: int| 0 <= j < i ==> regex_match_of(pattern@, (#[trigger] assets@[j]).name@) is Some,
        decreases assets.len() - i,
    {
        if regex_match(pattern, assets[i].name.as_str()).is_none() {
            return Err(());
        }
        i = i + 1;
    }
    let mut k: usize = 0;
    assert(assets@.subrange(0, 0) =~= seq![]);
    while k < assets.len()
        invariant
            k <= assets.len(),
            first_match(assets@.subrange(0, k as int), by_pattern(pattern@, mode)) is None,
            forall|j: int| 0 <= j < assets@.len() ==> regex_match_of(pattern@, (#[trigger] assets@[j]).name@) is Some,
        decreases assets.len() - k,
    {
        proof {
            lemma_first_match_step(assets@, by_pattern(pattern@, mode), k as int);
        }
        let m = regex_match(pattern, assets[k].name.as_str());
        if m == Some(true) && is_asset_allowed(&assets[k], mode) {
            proof {
                lemma_first_match_prefix(assets@, by_pattern(pattern@, mode), k as int + 1);
            }
            return Ok(Some(k));
        }
        k = k + 1;
    }
    assert(assets@.subrange(0, assets.len() as int) =~= assets@);
    Ok(None)
}

fn any_bundled_tool(assets: &Vec<ReleaseAsset>) -> (r: bool)
    ensures
        r == has_bundled_tool(assets@),
{
    let prefix = chars_of("vanillafixes");
    let mut i: usize = 0;
    while i < assets.len()
        invariant
            i <= assets.len(),
            prefix@ == "vanillafixes"@,
            forall|j: int| 0 <= j < i ==> !starts_with(lname(#[trigger] assets@[j]), "vanillafixes"@),
        decreases assets.len() - i,
    {
        if starts_with_vec(&lower_name(&assets[i]), &prefix) {
            return true;
        }
        i = i + 1;
    }
    false
}

/// Index of the asset to install from `assets`, as `pick_spec` decides.
pub fn pick_asset_index(assets: &Vec<ReleaseAsset>, mode: InstallMode, asset_regex: Option<&str>) -> (r: Result<usize, PickError>)
    ensures
        r matches Ok(i) ==> pick_spec(assets@, mode, opt_str_view(asset_regex)) == Ok::<int, PickError>(i as int),
        r matches Err(e) ==> pick_spec(assets@, mode, opt_str_view(asset_regex)) == Err::<int, PickError>(e),
{
    if assets.len() == 0 {
        return Err(PickError::NoAssets);
    }
    if let Some(rx) = asset_regex {
        match first_by_pattern(assets, rx, mode) {
            Err(()) => {
                return Err(PickError::InvalidPattern);
            },
            Ok(Some(i)) => {
                return Ok(i);
            },
            Ok(None) => {},
        }
    }
    let prefer_zip = mode == InstallMode::Addon || mode == InstallMode::Mixed || mode == InstallMode::Auto;
    if prefer_zip {
        if any_bundled_tool(assets) {
            if let Some(i) = first_by_rule(assets, Rule::PlainZip, mode) {
                return Ok(i);
            }
        }
        if let Some(i) = first_by_rule(assets, Rule::AnyZip, mode) {
            return Ok(i);
        }
    }
    if mode == InstallMode::Dll {
        if let Some(i) = first_by_rule(assets, Rule::AnyDll, mode) {
            return Ok(i);
        }
    }
    if let Some(i) = first_by_rule(assets, Rule::AnyAllowed, mode) {
        return Ok(i);
    }
    Err(PickError::NoCompatible)
}

pub open spec fn opt_str_view(o: Option<&str>) -> Option<Seq<char>> {
    match o {
        Some(s) => Some(s@),
        None => None,
    }
}

/// The asset of a release to install: the first one that the name pattern
/// override matches, then (for archive modes) a zip, preferring a non-DXVK
/// zip of the bundled VanillaFixes family when the release has one, then (in library mode) a DLL,
/// then any allowed asset.
pub fn pick_asset(rel: &LatestRelease, mode: InstallMode, asset_regex: Option<&str>) -> (r: Result<ReleaseAsset, PickError>)
    ensures
        match pick_spec(rel.assets@, mode, opt_str_view(asset_regex)) {
            Ok(i) => r == Ok::<ReleaseAsset, PickError>(rel.assets@[i]),
            Err(e) => r == Err::<ReleaseAsset, PickError>(e),
        },
{
    match pick_asset_index(&rel.assets, mode, asset_regex) {
        Ok(i) => {
            proof {
                lemma_pick_in_bounds(rel.assets@, mode, opt_str_view(asset_regex));
            }
            Ok(copy_asset(&rel.assets[i]))
        },
        Err(e) => Err(e),
    }
}

pub proof fn lemma_pick_in_bounds(assets: Seq<ReleaseAsset>, mode: InstallMode, pattern: Option<Seq<char>>)
    ensures
        pick_spec(assets, mode, pattern) matches Ok(i) ==> 0 <= i < assets.len() && name_allowed(assets[i].name@, mode),
{
    if let Some(p) = pattern {
        lemma_first_match_bounds(assets, by_pattern(p, mode));
    }
    lemma_first_match_bounds(assets, plain_zip(mode));
    lemma_first_match_bounds(assets, any_zip(mode));
    lemma_first_match_bounds(assets, any_dll(mode));
    lemma_first_match_bounds(assets, any_allowed(mode));
}

/// `host` is `trusted` or a subdomain of it, ignoring ASCII case.
pub open spec fn host_matches(host: Seq<char>, trusted: Seq<char>) -> bool {
    eq_ic(host, trusted) || ends_with(lower(host), seq!['.'] + lower(trusted))
}

pub fn host_matches_or_subdomain(host: &str, trusted: &str) -> (r: bool)
    ensures
        r == host_matches(host@, trusted@),
{
    let h = chars_of(host);
    let t = chars_of(trusted);
    if eq_ic_vec(&h, &t) {
        return true;
    }
    let mut dotted: Vec<char> = Vec::new();
    dotted.push('.');
    let mut lt = lower_vec(&t);
    dotted.append(&mut lt);
    assert(dotted@ =~= seq!['.'] + lower(trusted@));
    ends_with_vec(&lower_vec(&h), &dotted)
}

/// Hosts trusted for downloads: the project's own host, and for the
/// GitHub-style forge its CDN and object-storage hosts.
pub open spec fn trusted_hosts(forge: Seq<char>, host: Seq<char>) -> Seq<Seq<char>> {
    if eq_ic(forge, "github"@) {
        seq![host, "github.com"@, "objects.githubusercontent.com"@, "release-assets.githubusercontent.com"@, "codeload.github.com"@]
    } else {
        seq![host]
    }
}

/// Why a download URL was refused.
#[derive(Debug, Clone, Copy, PartialEq, Eq, Structural)]
pub enum AssetUrlError {
    /// Not a valid URL.
    Invalid,
    /// The scheme is not `https`.
    NotHttps,
    /// The URL names no host.
    MissingHost,
    /// The host is not trusted for this project.
    UntrustedHost,
}

pub open spec fn asset_url_check(url: Seq<char>, forge: Seq<char>, host: Seq<char>) -> Result<(), AssetUrlError> {
    match url_parts_of(url) {
        None => Err(AssetUrlError::Invalid),
        Some((scheme, h, _)) => if scheme != "https"@ {
            Err(AssetUrlError::NotHttps)
        } else {
            match h {
                None => Err(AssetUrlError::MissingHost),
                Some(h) => if exists|i: int|
                    0 <= i < trusted_hosts(forge, host).len() && host_matches(h, #[trigger] trusted_hosts(forge, host)[i]) {
                    Ok(())
                } else {
                    Err(AssetUrlError::UntrustedHost)
                },
            }
        },
    }
}

fn trusted_host(forge_is_github: bool, host: &str, i: usize) -> (r: String)
    requires
        i < 5,
        forge_is_github || i == 0,
    ensures
        r@ == (if forge_is_github {
            seq![host@, "github.com"@, "objects.githubusercontent.com"@, "release-assets.githubusercontent.com"@, "codeload.github.com"@]
        } else {
            seq![host@]
        })[i as int],
{
    let t = match i {
        0 => host,
        1 => "github.com",
        2 => "objects.githubusercontent.com",
        3 => "release-assets.githubusercontent.com",
        _ => "codeload.github.com",
    };
    crate::text::copy_str(t)
}

/// Checks that an asset may be downloaded from `asset_url`: HTTPS, and a
/// host that is the project's forge host (or, for the GitHub-style forge,
/// one of its download hosts) or a subdomain of one.
pub fn validate_asset_url(asset_url: &str, forge: &str, host: &str) -> (r: Result<(), AssetUrlError>)
    ensures
        r == asset_url_check(asset_url@, forge@, host@),
{
    let parts = match parse_url(asset_url) {
        Some(p) => p,
        None => {
            return Err(AssetUrlError::Invalid);
        },
    };
    if !crate::text::str_eq(parts.scheme.as_str(), "https") {
        return Err(AssetUrlError::NotHttps);
    }
    let h = match parts.host {
        Some(h) => h,
        None => {
            return Err(AssetUrlError::MissingHost);
        },
    };
    let gh = crate::text::eq_ic_str(forge, "github");
    let n: usize = if gh { 5 } else { 1 };
    let ghost ts = trusted_hosts(forge@, host@);
    let mut i: usize = 0;
    while i < n
        invariant
            i <= n,
            ts == trusted_hosts(forge@, host@),
            n == ts.len(),
            gh == eq_ic(forge@, "github"@),
            url_parts_of(asset_url@) matches Some((sc, hh, _)) && sc == "https"@ && hh == Some(h@),
            forall|j: int| 0 <= j < i ==> !host_matches(h@, #[trigger] ts[j]),
        decreases n - i,
    {
        let t = trusted_host(gh, host, i);
        if host_matches_or_subdomain(h.as_str(), t.as_str()) {
            assert(host_matches(h@, ts[i as int]));
            return Ok(());
        }
        i = i + 1;
    }
    Err(AssetUrlError::UntrustedHost)
}

/// The first bytes are a ZIP local-header, end-of-directory or spanning signature.
pub open spec fn zip_signature(head: Seq<u8>) -> bool {
    head.len() >= 4 && head[0] == 0x50 && head[1] == 0x4B && (
        (head[2] == 3 && head[3] == 4) || (head[2] == 5 && head[3] == 6) || (head[2] == 7 && head[3] == 8))
}

/// The first bytes are the `MZ` signature of an executable image.
pub open spec fn dll_signature(head: Seq<u8>) -> bool {
    head.len() >= 2 && head[0] == 0x4D && head[1] == 0x5A
}

pub fn looks_like_zip_bytes(head: &[u8]) -> (r: bool)
    ensures
        r == zip_signature(head@),
{
    head.len() >= 4 && head[0] == 0x50 && head[1] == 0x4B && ((head[2] == 3 && head[3] == 4) || (head[2] == 5
        && head[3] == 6) || (head[2] == 7 && head[3] == 8))
}

pub fn looks_like_dll_bytes(head: &[u8]) -> (r: bool)
    ensures
        r == dll_signature(head@),
{
    head.len() >= 2 && head[0] == 0x4D && head[1] == 0x5A
}

/// Why downloaded bytes were refused before installation.
#[derive(Debug, Clone, Copy, PartialEq, Eq, Structural)]
pub enum DownloadError {
    /// The byte length differs from the size the forge announced.
    SizeMismatch,
    /// A `.zip` asset does not start with a ZIP signature.
    BadZipSignature,
    /// A `.dll` asset does not start with `MZ`.
    BadDllSignature,
}

pub open spec fn download_check(name: Seq<char>, expected_size: Option<u64>, actual_len: u64, head: Seq<u8>) -> Result<(), DownloadError> {
    if expected_size is Some && expected_size->0 != actual_len {
        Err(DownloadError::SizeMismatch)
    } else if ends_with(lower(name), ".zip"@) && !zip_signature(head) {
        Err(DownloadError::BadZipSignature)
    } else if ends_with(lower(name), ".dll"@) && !dll_signature(head) {
        Err(DownloadError::BadDllSignature)
    } else {
        Ok(())
    }
}

/// Checks a downloaded asset from its length and first bytes: the announced
/// size must match exactly, and a `.zip` or `.dll` name must be backed by
/// the matching file signature.
pub fn validate_downloaded_asset(asset_name: &str, expected_size: Option<u64>, actual_len: u64, head: &[u8]) -> (r: Result<(), DownloadError>)
    ensures
        r == download_check(asset_name@, expected_size, actual_len, head@),
{
    if let Some(expected) = expected_size {
        if expected != actual_len {
            return Err(DownloadError::SizeMismatch);
        }
    }
    let lower_name = lower_vec(&chars_of(asset_name));
    if ends_with_vec(&lower_name, &chars_of(".zip")) && !looks_like_zip_bytes(head) {
        return Err(DownloadError::BadZipSignature);
    }
    if ends_with_vec(&lower_name, &chars_of(".dll")) && !looks_like_dll_bytes(head) {
        return Err(DownloadError::BadDllSignature);
    }
    Ok(())
}

/// Asset policy by extension: an `.exe` is never allowed, hence never
/// picked, in any mode; a `.zip` is allowed in every release mode (addon,
/// mixed, library, automatic and raw); a name without extension only in
/// raw mode.
pub proof fn asset_policy_by_extension(assets: Seq<ReleaseAsset>, mode: InstallMode, pattern: Option<Seq<char>>, name: Seq<char>)
    requires
        trim(name).len() > 0,
    ensures
        extension_of(trim(name)) == Some("exe"@) ==> !name_allowed(name, mode),
        extension_of(trim(name)) == Some("zip"@) ==> (name_allowed(name, mode) <==> mode != InstallMode::AddonGit),
        extension_of(trim(name)) is None ==> (name_allowed(name, mode) <==> mode == InstallMode::Raw),
        pick_spec(assets, mode, pattern) matches Ok(i) ==> extension_of(trim(assets[i].name@)) != Some("exe"@),
{
    assert(blocked_extensions()[0] == "exe"@);
    proof_zip_not_blocked();
    lemma_pick_in_bounds(assets, mode, pattern);
}

proof fn proof_zip_not_blocked()
    ensures
        !is_blocked("zip"@),
{
    reveal_strlit("zip");
    reveal_strlit("exe");
    reveal_strlit("msi");
    reveal_strlit("msix");
    reveal_strlit("appx");
    reveal_strlit("bat");
    reveal_strlit("cmd");
    reveal_strlit("ps1");
    reveal_strlit("vbs");
    reveal_strlit("js");
    reveal_strlit("jse");
    reveal_strlit("wsf");
    reveal_strlit("wsh");
    reveal_strlit("scr");
    reveal_strlit("com");
    reveal_strlit("sh");
    reveal_strlit("run");
    reveal_strlit("apk");
    reveal_strlit("jar");
    reveal_strlit("py");
    reveal_strlit("pl");
    reveal_strlit("rb");
    reveal_strlit("dmg");
    reveal_strlit("pkg");
    assert forall|i: int| 0 <= i < blocked_extensions().len() implies blocked_extensions()[i] != "zip"@ by {
        assert(blocked_extensions()[i].len() != 3 || blocked_extensions()[i][0] != 'z');
    }
}


/// A release whose only asset the mode allows installs that asset when no
/// name pattern is set; in particular a `.zip` asset is picked in every
/// release mode.
pub proof fn single_allowed_asset_is_picked(a: ReleaseAsset, mode: InstallMode)
    requires
        name_allowed(a.name@, mode),
    ensures
        pick_spec(seq![a], mode, None) == Ok::<int, PickError>(0),
        trim(a.name@).len() > 0 && extension_of(trim(a.name@)) == Some("zip"@) ==> mode != InstallMode::AddonGit,
{
    let s = seq![a];
    assert(s.drop_last() =~= seq![]);
    assert(s.last() == a);
    let e: Seq<ReleaseAsset> = seq![];
    assert(first_match(e, any_allowed(mode)) is None);
    assert((any_allowed(mode))(a));
    assert(first_match(s, any_allowed(mode)) == Some(0int));
    lemma_first_match_bounds(s, plain_zip(mode));
    lemma_first_match_bounds(s, any_zip(mode));
    lemma_first_match_bounds(s, any_dll(mode));
}

} // verus!
