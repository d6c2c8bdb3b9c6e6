//! Update planning: from a tracked project's stored state and what its forge
//! reports, decide whether anything must be downloaded, repaired or reported.
use vstd::prelude::*;
use crate::digest::{sha256_hex, sha256_hex_of_text};
use crate::model::{copy_opt_string, mode_name, InstallMode, LatestRelease, ReleaseAsset, Repo};
use crate::policy::{name_allowed, pick_asset, pick_spec, PickError};
use crate::text::{cat, decimal, decimal_i64, chars_of, copy_str, lower, lower_vec, seq_eq, starts_with, starts_with_vec, string_of, trim, trim_vec};
use crate::urls::opt_view;

verus! {

/// The outcome of one reconciliation pass over one tracked project.
#[derive(Debug, Clone)]
pub struct UpdatePlan {
    pub repo_id: i64,
    pub forge: String,
    pub host: String,
    pub owner: String,
    pub name: String,
    pub url: String,
    pub mode: InstallMode,
    /// Normalised label of what is installed.
    pub current: Option<String>,
    /// Normalised label of the newest release or commit.
    pub latest: String,
    pub asset_id: String,
    pub asset_name: String,
    /// What to download; empty means nothing to download.
    pub asset_url: String,
    pub asset_size: Option<u64>,
    pub asset_sha256: Option<String>,
    /// Files are missing on disk although the metadata says installed.
    pub repair_needed: bool,
    /// The forge confirmed that nothing changed.
    pub not_modified: bool,
    pub applied: bool,
    /// A failure of this pass, for this project only.
    pub error: Option<String>,
}

/// The first capture group of the first match of `pattern` in `text`;
/// `None` when the pattern does not compile or does not match.
pub uninterp spec fn regex_capture_of(pattern: Seq<char>, text: Seq<char>) -> Option<Seq<char>>;

/// Relies on `regex::Regex::new`, `Regex::captures` and `Captures::get(1)`:
/// the text of the first group of the leftmost match, which depends on the
/// pattern and the text alone.
#[verifier::external_body]
fn regex_capture(pattern: &str, text: &str) -> (r: Option<String>)
    ensures
        r matches Some(t) ==> regex_capture_of(pattern@, text@) == Some(t@),
        r is None ==> regex_capture_of(pattern@, text@) is None,
{
    regex::Regex::new(pattern).ok().and_then(|re| re.captures(text)).and_then(|c| c.get(1)).map(
        |m| m.as_str().to_string(),
    )
}

/// The version-shaped token that a release-asset file name holds: a version
/// that starts the name or follows a character other than a letter or digit
/// (an underscore included).
pub open spec fn version_token_of(name: Seq<char>) -> Option<Seq<char>> {
    regex_capture_of("(?i)(?:^|[^0-9a-z])(v?\\d+(?:[._]\\d+){1,3}(?:[-+][0-9a-z.-]+)?)\\b"@, name)
}

fn version_token(name: &str) -> (r: Option<String>)
    ensures
        r matches Some(t) ==> version_token_of(name@) == Some(t@),
        r is None ==> version_token_of(name@) is None,
{
    regex_capture("(?i)(?:^|[^0-9a-z])(v?\\d+(?:[._]\\d+){1,3}(?:[-+][0-9a-z.-]+)?)\\b", name)
}

/// Lower-cased trimmed labels that say nothing about a version.
pub open spec fn is_generic_label(label: Seq<char>) -> bool {
    let l = lower(trim(label));
    l.len() == 0 || l == "release"@ || l == "latest"@ || l == "stable"@ || l == "current"@ || l
        == "download"@ || starts_with(l, "release "@) || starts_with(l, "latest "@) || starts_with(
        l,
        "stable "@,
    )
}

pub fn is_generic_release_label(label: &str) -> (r: bool)
    ensures
        r == is_generic_label(label@),
{
    let l = lower_vec(&trim_vec(&chars_of(label)));
    l.len() == 0 || seq_eq(&l, &chars_of("release")) || seq_eq(&l, &chars_of("latest")) || seq_eq(
        &l,
        &chars_of("stable"),
    ) || seq_eq(&l, &chars_of("current")) || seq_eq(&l, &chars_of("download")) || starts_with_vec(
        &l,
        &chars_of("release "),
    ) || starts_with_vec(&l, &chars_of("latest ")) || starts_with_vec(&l, &chars_of("stable "))
}

/// Underscores turned into dots.
pub open spec fn dotted(s: Seq<char>) -> Seq<char> {
    Seq::new(s.len(), |i: int| if s[i] == '_' { '.' } else { s[i] })
}

/// The version label that a found token gives: trimmed, with underscores as
/// dots; none for a blank token.
pub open spec fn version_from_token(tok: Option<Seq<char>>) -> Option<Seq<char>> {
    match tok {
        Some(v) => if trim(v).len() == 0 {
            None
        } else {
            Some(dotted(trim(v)))
        },
        None => None,
    }
}

pub open spec fn version_from_name(name: Seq<char>) -> Option<Seq<char>> {
    version_from_token(version_token_of(name))
}

/// The label of a release: its trimmed tag, unless that is generic
/// ("latest", "release", ...), in which case the version found in the asset
/// name, if any.
pub open spec fn label_from_token(tag: Seq<char>, tok: Option<Seq<char>>) -> Seq<char> {
    if !is_generic_label(trim(tag)) {
        trim(tag)
    } else {
        match version_from_token(tok) {
            Some(v) => v,
            None => trim(tag),
        }
    }
}

pub open spec fn latest_label(tag: Seq<char>, asset_name: Seq<char>) -> Seq<char> {
    label_from_token(tag, version_token_of(asset_name))
}

fn dotted_vec(v: &Vec<char>) -> (r: Vec<char>)
    ensures
        r@ == dotted(v@),
{
    let mut out: Vec<char> = Vec::new();
    let mut i: usize = 0;
    while i < v.len()
        invariant
            i <= v.len(),
            out@ == dotted(v@).subrange(0, i as int),
        decreases v.len() - i,
    {
        out.push(if v[i] == '_' { '.' } else { v[i] });
        i = i + 1;
        assert(out@ =~= dotted(v@).subrange(0, i as int));
    }
    assert(dotted(v@).subrange(0, v.len() as int) =~= dotted(v@));
    out
}

/// The version label that a token found in an asset name gives.
pub fn version_from_found_token(token: Option<&str>) -> (r: Option<String>)
    ensures
        opt_view(r) == version_from_token(
            match token {
                Some(t) => Some(t@),
                None => None,
            },
        ),
{
    match token {
        Some(t) => {
            let v = trim_vec(&chars_of(t));
            if v.len() == 0 {
                None
            } else {
                Some(string_of(&dotted_vec(&v)))
            }
        },
        None => None,
    }
}

/// Extracts a version-shaped label from an asset file name
/// ("SuperWoW_1.5.1.zip" gives "1.5.1").
pub fn version_from_asset_name(asset_name: &str) -> (r: Option<String>)
    ensures
        opt_view(r) == version_from_name(asset_name@),
{
    match version_token(asset_name) {
        Some(t) => version_from_found_token(Some(t.as_str())),
        None => version_from_found_token(None),
    }
}

/// The release label from a tag and the version token found in the chosen
/// asset's name.
pub fn label_from_found_token(tag: &str, token: Option<&str>) -> (r: String)
    ensures
        r@ == label_from_token(
            tag@,
            match token {
                Some(t) => Some(t@),
                None => None,
            },
        ),
{
    let t = string_of(&trim_vec(&chars_of(tag)));
    if !is_generic_release_label(t.as_str()) {
        return t;
    }
    match version_from_found_token(token) {
        Some(v) => v,
        None => t,
    }
}

/// The label shown for a release whose chosen asset is `asset_name`.
pub fn effective_latest_label(tag: &str, asset_name: &str) -> (r: String)
    ensures
        r@ == latest_label(tag@, asset_name@),
{
    match version_token(asset_name) {
        Some(t) => label_from_found_token(tag, Some(t.as_str())),
        None => label_from_found_token(tag, None),
    }
}

/// The normalised label of what a project has installed.
pub open spec fn current_label(r: Repo) -> Option<Seq<char>> {
    match r.last_version {
        None => None,
        Some(cur) => if !is_generic_label(cur@) {
            Some(cur@)
        } else {
            match r.installed_asset_name {
                Some(n) => match version_from_name(n@) {
                    Some(v) => Some(v),
                    None => Some(cur@),
                },
                None => Some(cur@),
            }
        },
    }
}

pub fn normalized_current_version(r: &Repo) -> (out: Option<String>)
    ensures
        opt_view(out) == current_label(*r),
{
    let cur = match &r.last_version {
        Some(c) => c,
        None => {
            return None;
        },
    };
    if !is_generic_release_label(cur.as_str()) {
        return Some(cur.clone());
    }
    if let Some(n) = &r.installed_asset_name {
        if let Some(v) = version_from_asset_name(n.as_str()) {
            return Some(v);
        }
    }
    Some(cur.clone())
}

/// The identity of an asset: its forge id, or else the hex SHA-256 of its
/// download URL.
pub open spec fn asset_identity(a: ReleaseAsset) -> Seq<char> {
    match a.id {
        Some(i) => i@,
        None => sha256_hex_of_text(a.download_url@),
    }
}

pub fn effective_asset_id(asset: &ReleaseAsset) -> (r: String)
    ensures
        r@ == asset_identity(*asset),
{
    match &asset.id {
        Some(i) => i.clone(),
        None => sha256_hex(asset.download_url.as_str()),
    }
}

/// A byte size as the store keeps it: sizes beyond `i64` are not kept.
pub open spec fn stored_size(v: Option<u64>) -> Option<i64> {
    match v {
        Some(n) => if n <= i64::MAX {
            Some(n as i64)
        } else {
            None
        },
        None => None,
    }
}

pub fn size_u64_to_i64(v: Option<u64>) -> (r: Option<i64>)
    ensures
        r == stored_size(v),
{
    match v {
        Some(n) => if n <= i64::MAX as u64 {
            Some(n as i64)
        } else {
            None
        },
        None => None,
    }
}

/// Whether the stored install is this asset: same id, name and size when an
/// installed-asset identity is stored, else the same label.
pub open spec fn installed_is(r: Repo, tag: Seq<char>, asset_id: Seq<char>, asset_name: Seq<char>, asset_size: Option<i64>) -> bool {
    match r.installed_asset_id {
        Some(stored) => stored@ == asset_id && opt_view(r.installed_asset_name) == Some(asset_name)
            && r.installed_asset_size == asset_size,
        None => current_label(r) == Some(tag),
    }
}

pub fn installed_matches(r: &Repo, latest_tag: &str, latest_asset_id: &str, latest_asset_name: &str, latest_asset_size: Option<i64>) -> (out: bool)
    ensures
        out == installed_is(*r, latest_tag@, latest_asset_id@, latest_asset_name@, latest_asset_size),
{
    if let Some(stored) = &r.installed_asset_id {
        let name_match = match &r.installed_asset_name {
            Some(n) => crate::text::str_eq(n.as_str(), latest_asset_name),
            None => false,
        };
        let size_match = r.installed_asset_size == latest_asset_size;
        return crate::text::str_eq(stored.as_str(), latest_asset_id) && name_match && size_match;
    }
    match normalized_current_version(r) {
        Some(cur) => crate::text::str_eq(cur.as_str(), latest_tag),
        None => false,
    }
}

/// The plan carries the project's identity and its installed label.
pub open spec fn carries_identity(p: UpdatePlan, r: Repo) -> bool {
    &&& p.repo_id == r.id
    &&& p.forge == r.forge
    &&& p.host == r.host
    &&& p.owner == r.owner
    &&& p.name == r.name
    &&& p.url == r.url
    &&& p.mode == r.mode
    &&& opt_view(p.current) == current_label(r)
    &&& p.applied == false
}

/// A plan with the project's identity, no asset and no outcome.
pub open spec fn blank_body(p: UpdatePlan, r: Repo) -> bool {
    &&& carries_identity(p, r)
    &&& p.asset_id@.len() == 0
    &&& p.asset_name@.len() == 0
    &&& p.asset_url@.len() == 0
    &&& p.asset_size is None
    &&& p.asset_sha256 is None
    &&& !p.repair_needed
    &&& !p.not_modified
    &&& p.error is None
}

/// A plan that changes nothing: the known state, with no asset and no error.
pub open spec fn is_blank_plan(p: UpdatePlan, r: Repo) -> bool {
    &&& blank_body(p, r)
    &&& p.latest@ == match current_label(r) {
        Some(c) => c,
        None => "unknown"@,
    }
}

pub fn blank_plan(r: &Repo) -> (p: UpdatePlan)
    ensures
        is_blank_plan(p, *r),
{
    let current = normalized_current_version(r);
    let latest = match &current {
        Some(c) => c.clone(),
        None => copy_str("unknown"),
    };
    UpdatePlan {
        repo_id: r.id,
        forge: r.forge.clone(),
        host: r.host.clone(),
        owner: r.owner.clone(),
        name: r.name.clone(),
        url: r.url.clone(),
        mode: r.mode,
        current,
        latest,
        asset_id: String::new(),
        asset_name: String::new(),
        asset_url: String::new(),
        asset_size: None,
        asset_sha256: None,
        repair_needed: false,
        not_modified: false,
        applied: false,
        error: None,
    }
}

/// A plan that reports an error and otherwise changes nothing.
pub open spec fn is_error_plan(p: UpdatePlan, r: Repo, msg: Seq<char>) -> bool {
    &&& is_blank_plan(UpdatePlan { error: None, ..p }, r)
    &&& p.error matches Some(m) && m@ == msg
}

pub open spec fn rate_limit_message(host: Seq<char>, reset_epoch: i64) -> Seq<char> {
    "GitHub API rate-limited for "@ + host + " until unix "@ + decimal(reset_epoch as int)
        + ". Add a GitHub token in Wuddle settings to raise limits."@
}

pub fn with_error(p: UpdatePlan, msg: String) -> (q: UpdatePlan)
    ensures
        q == (UpdatePlan { error: Some(msg), ..p }),
{
    UpdatePlan { error: Some(msg), ..p }
}

/// The plan of a project whose forge host is cooling down until `reset_epoch`.
pub fn rate_limited_plan(r: &Repo, reset_epoch: i64) -> (p: UpdatePlan)
    ensures
        is_error_plan(p, *r, rate_limit_message(r.host@, reset_epoch)),
{
    let a = cat("GitHub API rate-limited for ", r.host.as_str());
    let b = cat(a.as_str(), " until unix ");
    let c = cat(b.as_str(), decimal_i64(reset_epoch).as_str());
    let m = cat(c.as_str(), ". Add a GitHub token in Wuddle settings to raise limits.");
    let p = blank_plan(r);
    let q = with_error(p, m);
    assert(UpdatePlan { error: None, ..q } == p);
    q
}

/// What the cooldown of a forge host allows before any request is made.
#[derive(Debug, Clone, Copy, PartialEq, Eq, Structural)]
pub enum CooldownGate {
    /// Go ahead; drop the stored cooldown first when `clear_cooldown`.
    Proceed { clear_cooldown: bool },
    /// Stop without a request: the host cools down until `reset_epoch`.
    Blocked { reset_epoch: i64 },
}

pub open spec fn gate_spec(is_github: bool, has_token: bool, cooldown: Option<i64>, now: i64) -> CooldownGate {
    if !is_github {
        CooldownGate::Proceed { clear_cooldown: false }
    } else if has_token {
        CooldownGate::Proceed { clear_cooldown: true }
    } else {
        match cooldown {
            Some(e) => if now < e {
                CooldownGate::Blocked { reset_epoch: e }
            } else {
                CooldownGate::Proceed { clear_cooldown: true }
            },
            None => CooldownGate::Proceed { clear_cooldown: false },
        }
    }
}

/// Decides whether a release check may contact a GitHub-style host: a
/// credential lifts any cooldown; without one, a cooldown that has not
/// passed blocks the request, and one that has passed is cleared.
pub fn rate_limit_gate(is_github: bool, has_token: bool, cooldown: Option<i64>, now: i64) -> (g: CooldownGate)
    ensures
        g == gate_spec(is_github, has_token, cooldown, now),
{
    if !is_github {
        return CooldownGate::Proceed { clear_cooldown: false };
    }
    if has_token {
        return CooldownGate::Proceed { clear_cooldown: true };
    }
    match cooldown {
        Some(e) => if now < e {
            CooldownGate::Blocked { reset_epoch: e }
        } else {
            CooldownGate::Proceed { clear_cooldown: true }
        },
        None => CooldownGate::Proceed { clear_cooldown: false },
    }
}

/// Rate-limit gating: with a cooldown in the future and no credential, a
/// check of a GitHub-style host is blocked and reports that same epoch; once
/// the epoch has passed, the check proceeds and clears the cooldown.
pub proof fn rate_limit_gating(has_token: bool, reset_epoch: i64, now: i64)
    ensures
        !has_token && now < reset_epoch ==> gate_spec(true, has_token, Some(reset_epoch), now)
            == (CooldownGate::Blocked { reset_epoch }),
        now >= reset_epoch ==> gate_spec(true, has_token, Some(reset_epoch), now)
            == (CooldownGate::Proceed { clear_cooldown: true }),
{
}

/// The digits that a GitHub rate-limit error message gives after `reset `.
pub open spec fn reset_digits_of(msg: Seq<char>) -> Option<Seq<char>> {
    regex_capture_of("reset (\\d+)"@, msg)
}

fn reset_digits_in(msg: &str) -> (r: Option<String>)
    ensures
        r matches Some(d) ==> reset_digits_of(msg@) == Some(d@),
        r is None ==> reset_digits_of(msg@) is None,
{
    regex_capture("reset (\\d+)", msg)
}

pub open spec fn is_ascii_digit(c: char) -> bool {
    '0' <= c && c <= '9'
}

/// The value of a sequence of ASCII digits.
pub open spec fn digits_value(s: Seq<char>) -> int
    decreases s.len(),
{
    if s.len() == 0 {
        0
    } else {
        digits_value(s.drop_last()) * 10 + (s.last() as int - '0' as int)
    }
}

/// A non-empty run of ASCII digits read as an `i64`; none when another
/// character occurs or the value does not fit.
pub open spec fn decimal_i64_of(s: Seq<char>) -> Option<i64> {
    if s.len() > 0 && (forall|i: int| 0 <= i < s.len() ==> is_ascii_digit(#[trigger] s[i])) && digits_value(s)
        <= i64::MAX {
        Some(digits_value(s) as i64)
    } else {
        None
    }
}

/// The cooldown epoch that a GitHub rate-limit error message states.
pub open spec fn reset_epoch_of(msg: Seq<char>) -> Option<i64> {
    match reset_digits_of(msg) {
        Some(d) => decimal_i64_of(d),
        None => None,
    }
}

pub proof fn lemma_digits_monotone(s: Seq<char>, n: int)
    requires
        0 <= n <= s.len(),
        forall|i: int| 0 <= i < s.len() ==> is_ascii_digit(#[trigger] s[i]),
    ensures
        digits_value(s.subrange(0, n)) <= digits_value(s),
        0 <= digits_value(s.subrange(0, n)),
    decreases s.len() - n,
{
    if n < s.len() {
        lemma_digits_monotone(s, n + 1);
        assert(s.subrange(0, n + 1).drop_last() =~= s.subrange(0, n));
        assert(s.subrange(0, n + 1).last() == s[n]);
    } else {
        assert(s.subrange(0, n) =~= s);
        lemma_digits_nonneg(s);
    }
}

pub proof fn lemma_digits_nonneg(s: Seq<char>)
    requires
        forall|i: int| 0 <= i < s.len() ==> is_ascii_digit(#[trigger] s[i]),
    ensures
        0 <= digits_value(s),
    decreases s.len(),
{
    if s.len() > 0 {
        assert forall|i: int| 0 <= i < s.drop_last().len() implies is_ascii_digit(#[trigger] s.drop_last()[i]) by {
            assert(s.drop_last()[i] == s[i]);
        }
        lemma_digits_nonneg(s.drop_last());
        assert(is_ascii_digit(s.last()));
    }
}

/// Reads a run of ASCII digits as an `i64`, as `str::parse` does for one.
pub fn parse_decimal_i64(s: &str) -> (r: Option<i64>)
    ensures
        r == decimal_i64_of(s@),
{
    let v = chars_of(s);
    if v.len() == 0 {
        return None;
    }
    let mut i: usize = 0;
    while i < v.len()
        invariant
            i <= v.len(),
            v@ == s@,
            forall|j: int| 0 <= j < i ==> is_ascii_digit(#[trigger] v@[j]),
        decreases v.len() - i,
    {
        if !('0' <= v[i] && v[i] <= '9') {
            return None;
        }
        i = i + 1;
    }
    let mut acc: i64 = 0;
    let mut k: usize = 0;
    assert(v@.subrange(0, 0) =~= seq![]);
    while k < v.len()
        invariant
            k <= v.len(),
            v@ == s@,
            forall|j: int| 0 <= j < v@.len() ==> is_ascii_digit(#[trigger] v@[j]),
            acc as int == digits_value(v@.subrange(0, k as int)),
            0 <= acc,
        decreases v.len() - k,
    {
        let d = (v[k] as u32 - '0' as u32) as i64;
        assert(v@.subrange(0, k + 1).drop_last() =~= v@.subrange(0, k as int));
        assert(v@.subrange(0, k + 1).last() == v@[k as int]);
        if acc > (i64::MAX - d) / 10 {
            proof {
                assert(acc * 10 + d > i64::MAX) by (nonlinear_arith)
                    requires
                        acc > (i64::MAX - d) / 10,
                        0 <= d <= 9,
                ;
                lemma_digits_monotone(v@, k + 1);
            }
            return None;
        }
        proof {
            assert(acc * 10 + d <= i64::MAX) by (nonlinear_arith)
                requires
                    acc <= (i64::MAX - d) / 10,
                    0 <= d <= 9,
                    0 <= acc,
            ;
        }
        acc = acc * 10 + d;
        k = k + 1;
    }
    assert(v@.subrange(0, v.len() as int) =~= v@);
    Some(acc)
}

/// The cooldown epoch in a rate-limit message, if it states one that fits.
fn reset_epoch_in(msg: &str) -> (r: Option<i64>)
    ensures
        r == reset_epoch_of(msg@),
{
    match reset_digits_in(msg) {
        Some(d) => parse_decimal_i64(d.as_str()),
        None => None,
    }
}

/// What the store should record after one forge round, besides the plan.
#[derive(Debug, Clone)]
pub struct StoreUpdate {
    /// A new entity tag to keep.
    pub etag: Option<String>,
    /// A cooldown to persist for the host.
    pub set_cooldown: Option<i64>,
    /// Drop the host's cooldown.
    pub clear_cooldown: bool,
}

/// The result of one forge round of a release check.
#[derive(Debug, Clone)]
pub struct FetchStep {
    /// The plan; `None` asks for one more, uncached request.
    pub plan: Option<UpdatePlan>,
    pub store: StoreUpdate,
}

/// The plan after a failed forge request, given the cooldown epoch that its
/// message states (for a GitHub-style host).
pub fn plan_after_failure(r: &Repo, is_github: bool, message: String, reset_epoch: Option<i64>) -> (s: FetchStep)
    ensures
        is_github && reset_epoch is Some ==> (s.plan matches Some(p) && is_error_plan(p, *r, rate_limit_message(r.host@, reset_epoch->0))
            && s.store.set_cooldown == reset_epoch),
        !(is_github && reset_epoch is Some) ==> (s.plan matches Some(p) && is_error_plan(p, *r, message@)
            && s.store.set_cooldown is None),
        s.store.etag is None,
        !s.store.clear_cooldown,
{
    if is_github {
        if let Some(e) = reset_epoch {
            return FetchStep {
                plan: Some(rate_limited_plan(r, e)),
                store: StoreUpdate { etag: None, set_cooldown: Some(e), clear_cooldown: false },
            };
        }
    }
    let p = blank_plan(r);
    let q = with_error(p, message);
    assert(UpdatePlan { error: None, ..q } == p);
    FetchStep { plan: Some(q), store: StoreUpdate { etag: None, set_cooldown: None, clear_cooldown: false } }
}

/// The plan after a failed forge request: the message is read for a
/// cooldown epoch when the host is GitHub-style.
pub fn plan_after_fetch_error(r: &Repo, is_github: bool, message: String) -> (s: FetchStep)
    ensures
        is_github && reset_epoch_of(message@) is Some ==> (s.plan matches Some(p) && is_error_plan(
            p,
            *r,
            rate_limit_message(r.host@, reset_epoch_of(message@)->0),
        ) && s.store.set_cooldown == reset_epoch_of(message@)),
        !(is_github && reset_epoch_of(message@) is Some) ==> (s.plan matches Some(p) && is_error_plan(p, *r, message@)
            && s.store.set_cooldown is None),
        s.store.etag is None,
        !s.store.clear_cooldown,
{
    let e = if is_github { reset_epoch_in(message.as_str()) } else { None };
    plan_after_failure(r, is_github, message, e)
}

pub open spec fn opt_is_blank(o: Option<String>) -> bool {
    match o {
        Some(s) => s@.len() == 0,
        None => true,
    }
}

/// A stale "not modified" answer is retried once without the cached tag
/// when nothing is known to be installed, or when files are missing and the
/// download URL of the install was never recorded.
pub open spec fn needs_uncached_retry(r: Repo, missing_targets: bool, attempted_uncached: bool) -> bool {
    !attempted_uncached && ((r.installed_asset_id is None && r.last_version is None) || (missing_targets
        && opt_is_blank(r.installed_asset_url)))
}

/// A known install can be replayed: files are missing and the install's
/// name and a non-empty download URL are recorded.
pub open spec fn can_replay(r: Repo, missing_targets: bool) -> bool {
    missing_targets && r.installed_asset_name is Some && (r.installed_asset_url matches Some(u) && u@.len() > 0)
}

pub open spec fn installed_size_u64(v: Option<i64>) -> Option<u64> {
    match v {
        Some(n) => if n >= 0 {
            Some(n as u64)
        } else {
            None
        },
        None => None,
    }
}

pub open spec fn view_or_empty(o: Option<String>) -> Seq<char> {
    match o {
        Some(s) => s@,
        None => seq![],
    }
}

/// The plan for an unchanged release: the stored install, replayed when
/// its files are missing and its URL is known.
pub open spec fn is_not_modified_plan(p: UpdatePlan, r: Repo, missing_targets: bool) -> bool {
    &&& carries_identity(p, r)
    &&& p.latest@ == match current_label(r) {
        Some(c) => c,
        None => "unknown"@,
    }
    &&& p.not_modified
    &&& p.repair_needed == can_replay(r, missing_targets)
    &&& p.asset_id@ == view_or_empty(r.installed_asset_id)
    &&& p.asset_name@ == view_or_empty(r.installed_asset_name)
    &&& p.asset_size == installed_size_u64(r.installed_asset_size)
    &&& p.asset_sha256 is None
    &&& p.asset_url@ == if can_replay(r, missing_targets) { view_or_empty(r.installed_asset_url) } else { seq![] }
    &&& p.error is None
}

fn string_or_empty(o: &Option<String>) -> (s: String)
    ensures
        s@ == view_or_empty(*o),
{
    match o {
        Some(x) => x.clone(),
        None => String::new(),
    }
}

/// Decides what an unchanged ("not modified") forge answer means for a project.
pub fn plan_not_modified(r: &Repo, missing_targets: bool, attempted_uncached: bool) -> (p: Option<UpdatePlan>)
    ensures
        needs_uncached_retry(*r, missing_targets, attempted_uncached) ==> p is None,
        !needs_uncached_retry(*r, missing_targets, attempted_uncached) ==> (p matches Some(q) && is_not_modified_plan(q, *r, missing_targets)),
{
    let has_known_install = r.installed_asset_id.is_some() || r.last_version.is_some();
    let url_blank = match &r.installed_asset_url {
        Some(u) => u.as_str().is_empty(),
        None => true,
    };
    if !attempted_uncached && (!has_known_install || (missing_targets && url_blank)) {
        return None;
    }
    let can_repair = missing_targets && r.installed_asset_name.is_some() && match &r.installed_asset_url {
        Some(u) => !u.as_str().is_empty(),
        None => false,
    };
    let p = blank_plan(r);
    let size = match r.installed_asset_size {
        Some(n) => if n >= 0 { Some(n as u64) } else { None },
        None => None,
    };
    let url = if can_repair { string_or_empty(&r.installed_asset_url) } else { String::new() };
    Some(UpdatePlan {
        not_modified: true,
        repair_needed: can_repair,
        asset_id: string_or_empty(&r.installed_asset_id),
        asset_name: string_or_empty(&r.installed_asset_name),
        asset_size: size,
        asset_sha256: None,
        asset_url: url,
        error: None,
        ..p
    })
}

pub open spec fn pick_error_message(e: PickError, tag: Seq<char>, mode: InstallMode) -> Seq<char> {
    match e {
        PickError::NoAssets => "No assets found in latest release "@ + tag,
        PickError::InvalidPattern => "Invalid asset name pattern"@,
        PickError::NoCompatible => "No safe/compatible release asset found for mode "@ + mode_name(mode) + " in "@ + tag
            + "."@,
    }
}

pub fn pick_error_text(e: PickError, tag: &str, mode: InstallMode) -> (m: String)
    ensures
        m@ == pick_error_message(e, tag@, mode),
{
    match e {
        PickError::NoAssets => cat("No assets found in latest release ", tag),
        PickError::InvalidPattern => copy_str("Invalid asset name pattern"),
        PickError::NoCompatible => {
            let a = cat("No safe/compatible release asset found for mode ", mode.as_str());
            let b = cat(a.as_str(), " in ");
            let c = cat(b.as_str(), tag);
            cat(c.as_str(), ".")
        },
    }
}

/// The asset name override of a project, as `pick_asset` takes it.
pub open spec fn pattern_of(r: Repo) -> Option<Seq<char>> {
    opt_view(r.asset_regex)
}

/// The plan for a fresh release: the chosen asset is downloaded when it is
/// not the stored install or files are missing; it is a repair when it is
/// the stored install and files are missing.
pub open spec fn is_release_plan(p: UpdatePlan, r: Repo, rel: LatestRelease, missing_targets: bool) -> bool {
    match pick_spec(rel.assets@, r.mode, pattern_of(r)) {
        Err(e) => is_error_plan(p, r, pick_error_message(e, rel.tag@, r.mode)),
        Ok(i) => {
            let a = rel.assets@[i];
            let latest = latest_label(rel.tag@, a.name@);
            let id = asset_identity(a);
            let same = installed_is(r, latest, id, a.name@, stored_size(a.size));
            &&& carries_identity(p, r)
            &&& p.latest@ == latest
            &&& p.asset_id@ == id
            &&& p.asset_name == a.name
            &&& p.asset_url@ == if !same || missing_targets { a.download_url@ } else { seq![] }
            &&& p.asset_size == a.size
            &&& p.asset_sha256 == a.sha256
            &&& p.repair_needed == (missing_targets && same)
            &&& !p.not_modified
            &&& p.error is None
        },
    }
}

/// Plans the install of a project's newest release.
pub fn plan_for_release(r: &Repo, rel: &LatestRelease, missing_targets: bool) -> (p: UpdatePlan)
    ensures
        is_release_plan(p, *r, *rel, missing_targets),
{
    let rx: Option<&str> = match &r.asset_regex {
        Some(x) => Some(x.as_str()),
        None => None,
    };
    let asset = match pick_asset(rel, r.mode, rx) {
        Ok(a) => a,
        Err(e) => {
            let p = blank_plan(r);
            let q = with_error(p, pick_error_text(e, rel.tag.as_str(), r.mode));
            assert(UpdatePlan { error: None, ..q } == p);
            return q;
        },
    };
    let latest = effective_latest_label(rel.tag.as_str(), asset.name.as_str());
    let asset_id = effective_asset_id(&asset);
    let size = size_u64_to_i64(asset.size);
    let same = installed_matches(r, latest.as_str(), asset_id.as_str(), asset.name.as_str(), size);
    let needs_download = !same || missing_targets;
    let p = blank_plan(r);
    UpdatePlan {
        latest,
        asset_id,
        asset_name: asset.name.clone(),
        asset_url: if needs_download { asset.download_url.clone() } else { String::new() },
        asset_size: asset.size,
        asset_sha256: copy_opt_string(&asset.sha256),
        repair_needed: missing_targets && same,
        not_modified: false,
        error: None,
        ..p
    }
}

impl Repo {
    /// Records an install: its label and the installed asset's identity,
    /// name, size and download URL, as one update.
    pub fn set_installed_asset_state(
        &mut self,
        last_version: Option<String>,
        asset_id: Option<String>,
        asset_name: Option<String>,
        asset_size: Option<i64>,
        asset_url: Option<String>,
    )
        ensures
            *final(self) == (Repo {
                last_version,
                installed_asset_id: asset_id,
                installed_asset_name: asset_name,
                installed_asset_size: asset_size,
                installed_asset_url: asset_url,
                ..*old(self)
            }),
    {
        self.last_version = last_version;
        self.installed_asset_id = asset_id;
        self.installed_asset_name = asset_name;
        self.installed_asset_size = asset_size;
        self.installed_asset_url = asset_url;
    }
}

/// The stored state of a project after its release plan was applied.
pub open spec fn after_release_install(r: Repo, p: UpdatePlan) -> Repo {
    Repo {
        last_version: Some(p.latest),
        installed_asset_id: Some(p.asset_id),
        installed_asset_name: Some(p.asset_name),
        installed_asset_size: stored_size(p.asset_size),
        installed_asset_url: Some(p.asset_url),
        ..r
    }
}

/// Records that a release plan was applied to a project.
pub fn record_release_install(r: &mut Repo, p: &UpdatePlan)
    ensures
        *final(r) == after_release_install(*old(r), *p),
{
    r.set_installed_asset_state(
        Some(p.latest.clone()),
        Some(p.asset_id.clone()),
        Some(p.asset_name.clone()),
        size_u64_to_i64(p.asset_size),
        Some(p.asset_url.clone()),
    );
}

/// Whether a cached download must be fetched again: when there is no cached
/// file, when its length differs from the announced size, or when a digest
/// is expected and the cached file does not have it.
pub open spec fn must_download(cached_len: Option<u64>, expected_size: Option<u64>, digest_expected: bool, cached_digest_ok: bool) -> bool {
    match cached_len {
        None => true,
        Some(len) => (expected_size matches Some(e) && len != e) || (digest_expected && !cached_digest_ok),
    }
}

pub fn should_download(cached_len: Option<u64>, expected_size: Option<u64>, digest_expected: bool, cached_digest_ok: bool) -> (r: bool)
    ensures
        r == must_download(cached_len, expected_size, digest_expected, cached_digest_ok),
{
    let mut sd = match (cached_len, expected_size) {
        (Some(len), Some(expected)) => len != expected,
        (Some(_), None) => false,
        (None, _) => true,
    };
    if !sd && digest_expected {
        sd = !cached_digest_ok;
    }
    sd
}

/// Idempotence: once a release plan has been applied and recorded, planning
/// the same release again, with all files present, downloads nothing and
/// repairs nothing; and a cached file of the announced size (and digest,
/// when one is expected) is not fetched again.
pub proof fn applied_plan_is_idempotent(r: Repo, rel: LatestRelease, p: UpdatePlan, q: UpdatePlan, len: u64, digest_ok: bool)
    requires
        is_release_plan(p, r, rel, false) || is_release_plan(p, r, rel, true),
        p.error is None,
        is_release_plan(q, after_release_install(r, p), rel, false),
        p.asset_size matches Some(n) ==> n == len,
        p.asset_sha256 is Some ==> digest_ok,
    ensures
        q.asset_url@.len() == 0,
        !q.repair_needed,
        !must_download(Some(len), p.asset_size, p.asset_sha256 is Some, digest_ok),
{
    let r2 = after_release_install(r, p);
    assert(pattern_of(r2) == pattern_of(r));
    match pick_spec(rel.assets@, r.mode, pattern_of(r)) {
        Ok(i) => {
            let a = rel.assets@[i];
            assert(installed_is(r2, latest_label(rel.tag@, a.name@), asset_identity(a), a.name@, stored_size(a.size)));
        },
        Err(e) => {},
    }
}

/// Determinism of asset identities: two assets without a forge id and with
/// the same download URL have the same identity.
pub proof fn asset_identity_is_stable(a: ReleaseAsset, b: ReleaseAsset)
    requires
        a.id is None,
        b.id is None,
        a.download_url@ == b.download_url@,
    ensures
        asset_identity(a) == asset_identity(b),
        asset_identity(a) == sha256_hex_of_text(a.download_url@),
{
}

/// The plan of a project whose forge reports no release.
pub open spec fn is_no_release_plan(p: UpdatePlan, r: Repo) -> bool {
    &&& blank_body(p, r)
    &&& p.latest@ == "none"@
}

/// One successful forge round: keep the new entity tag, drop a GitHub-style
/// host's cooldown, and plan from the answer: an unchanged answer as
/// `plan_not_modified` decides (possibly asking for an uncached retry), no
/// release as a plan labelled `none`, a release as `plan_for_release`.
pub fn plan_after_fetch(
    r: &Repo,
    is_github: bool,
    new_etag: Option<String>,
    release: Option<LatestRelease>,
    not_modified: bool,
    missing_targets: bool,
    attempted_uncached: bool,
) -> (s: FetchStep)
    ensures
        s.store.etag == new_etag,
        s.store.clear_cooldown == is_github,
        s.store.set_cooldown is None,
        not_modified && needs_uncached_retry(*r, missing_targets, attempted_uncached) ==> s.plan is None,
        not_modified && !needs_uncached_retry(*r, missing_targets, attempted_uncached) ==> (s.plan matches Some(p)
            && is_not_modified_plan(p, *r, missing_targets)),
        !not_modified && release is None ==> (s.plan matches Some(p) && is_no_release_plan(p, *r)),
        !not_modified && release is Some ==> (s.plan matches Some(p) && is_release_plan(p, *r, release->0, missing_targets)),
{
    let store = StoreUpdate { etag: new_etag, set_cooldown: None, clear_cooldown: is_github };
    if not_modified {
        return FetchStep { plan: plan_not_modified(r, missing_targets, attempted_uncached), store };
    }
    match release {
        Some(rel) => FetchStep { plan: Some(plan_for_release(r, &rel, missing_targets)), store },
        None => {
            let p = blank_plan(r);
            let q = UpdatePlan { latest: copy_str("none"), ..p };
            FetchStep { plan: Some(q), store }
        },
    }
}


/// A project with nothing installed and no name pattern, whose newest
/// release has one asset the mode allows: the plan downloads that asset,
/// names it, and reports neither error nor repair.
pub proof fn fresh_install_is_planned(r: Repo, rel: LatestRelease, a: ReleaseAsset, p: UpdatePlan)
    requires
        r.installed_asset_id is None,
        r.last_version is None,
        r.asset_regex is None,
        rel.assets@ == seq![a],
        name_allowed(a.name@, r.mode),
        is_release_plan(p, r, rel, false),
    ensures
        p.asset_url@ == a.download_url@,
        p.asset_name == a.name,
        p.error is None,
        !p.repair_needed,
        !p.not_modified,
{
    crate::policy::single_allowed_asset_is_picked(a, r.mode);
    assert(pattern_of(r) is None);
}

} // verus!
