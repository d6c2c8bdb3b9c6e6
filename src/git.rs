//! Git-branch tracking: resolving a remote's head from its advertised refs,
//! listing its branches, and where a synced worktree is staged.
use vstd::prelude::*;
use crate::order::{lemma_lt_irreflexive, lemma_lt_total, lemma_lt_transitive, seq_lt, vec_lt};
use crate::text::{chars_of, lower, lower_vec, seq_eq, starts_with, starts_with_vec, string_of, sub_vec, trim, trim_vec};

verus! {

/// A resolved commit of a branch, described the same way for a remote and
/// for a local worktree.
#[derive(Debug, Clone)]
pub struct GitHeadState {
    /// Full hex commit id.
    pub oid: String,
    /// Its first ten characters.
    pub short_oid: String,
    pub branch: String,
    /// Fully-qualified ref, `refs/heads/<branch>`.
    pub remote_ref: String,
}

/// One ref that a remote advertises.
#[derive(Debug, Clone)]
pub struct RemoteRef {
    pub name: String,
    /// Target of a symbolic ref such as `HEAD`.
    pub symref_target: Option<String>,
    /// Hex commit id.
    pub oid: String,
}

/// Why no remote head could be resolved.
#[derive(Debug, Clone, Copy, PartialEq, Eq, Structural)]
pub enum GitHeadError {
    /// No ref could be chosen.
    NoHeadRef,
    /// A ref was chosen but its commit is unknown.
    NoHeadCommit,
}

pub open spec fn is_zero_oid(oid: Seq<char>) -> bool {
    forall|i: int| 0 <= i < oid.len() ==> #[trigger] oid[i] == '0'
}

/// Index of the first ref with this name.
pub open spec fn find_ref(refs: Seq<RemoteRef>, name: Seq<char>) -> Option<int>
    decreases refs.len(),
{
    if refs.len() == 0 {
        None
    } else {
        match find_ref(refs.drop_last(), name) {
            Some(i) => Some(i),
            None => if refs.last().name@ == name {
                Some(refs.len() - 1)
            } else {
                None
            },
        }
    }
}

/// Index of the first branch ref with a non-zero commit.
pub open spec fn first_live_branch(refs: Seq<RemoteRef>) -> Option<int>
    decreases refs.len(),
{
    if refs.len() == 0 {
        None
    } else {
        match first_live_branch(refs.drop_last()) {
            Some(i) => Some(i),
            None => if starts_with(refs.last().name@, "refs/heads/"@) && !is_zero_oid(refs.last().oid@) {
                Some(refs.len() - 1)
            } else {
                None
            },
        }
    }
}

pub open spec fn ref_with_oid(refs: Seq<RemoteRef>, name: Seq<char>) -> Option<(Seq<char>, Option<Seq<char>>)> {
    match find_ref(refs, name) {
        Some(i) => Some((refs[i].name@, Some(refs[i].oid@))),
        None => None,
    }
}

/// The ref chosen as the remote head, with its commit if known: the
/// requested branch, else what `HEAD` points to, else `main`, else
/// `master`; when no commit is known by then, the first live branch.
pub open spec fn chosen_head(refs: Seq<RemoteRef>, preferred: Option<Seq<char>>) -> Option<(Seq<char>, Option<Seq<char>>)> {
    let step1 = match preferred {
        Some(b) => if trim(b).len() > 0 {
            ref_with_oid(refs, "refs/heads/"@ + trim(b))
        } else {
            None
        },
        None => None,
    };
    let step2 = if step1 is Some {
        step1
    } else {
        match find_ref(refs, "HEAD"@) {
            Some(h) => match refs[h].symref_target {
                Some(t) => Some((t@, match find_ref(refs, t@) {
                    Some(k) => Some(refs[k].oid@),
                    None => None,
                })),
                None => None,
            },
            None => None,
        }
    };
    let step3 = if step2 is Some {
        step2
    } else if ref_with_oid(refs, "refs/heads/main"@) is Some {
        ref_with_oid(refs, "refs/heads/main"@)
    } else {
        ref_with_oid(refs, "refs/heads/master"@)
    };
    if step3 matches Some((_, Some(_))) {
        step3
    } else {
        match first_live_branch(refs) {
            Some(i) => Some((refs[i].name@, Some(refs[i].oid@))),
            None => step3,
        }
    }
}

/// A ref name without its `refs/heads/` prefix.
pub open spec fn branch_of(rf: Seq<char>) -> Seq<char> {
    if starts_with(rf, "refs/heads/"@) {
        rf.subrange(11, rf.len() as int)
    } else {
        rf
    }
}

pub open spec fn short_of(oid: Seq<char>) -> Seq<char> {
    if oid.len() <= 10 {
        oid
    } else {
        oid.subrange(0, 10)
    }
}

pub open spec fn head_spec(refs: Seq<RemoteRef>, preferred: Option<Seq<char>>) -> Result<(Seq<char>, Seq<char>), GitHeadError> {
    match chosen_head(refs, preferred) {
        None => Err(GitHeadError::NoHeadRef),
        Some((_, None)) => Err(GitHeadError::NoHeadCommit),
        Some((rf, Some(oid))) => Ok((rf, oid)),
    }
}

fn find_ref_exec(refs: &Vec<RemoteRef>, name: &Vec<char>) -> (r: Option<usize>)
    ensures
        r matches Some(i) ==> find_ref(refs@, name@) == Some(i as int) && i < refs@.len(),
        r is None ==> find_ref(refs@, name@) is None,
{
    let mut i: usize = 0;
    assert(refs@.subrange(0, 0) =~= seq![]);
    while i < refs.len()
        invariant
            i <= refs.len(),
            find_ref(refs@.subrange(0, i as int), name@) is None,
        decreases refs.len() - i,
    {
        assert(refs@.subrange(0, i + 1).drop_last() =~= refs@.subrange(0, i as int));
        if seq_eq(&chars_of(refs[i].name.as_str()), name) {
            proof {
                lemma_find_ref_prefix(refs@, name@, i + 1);
            }
            return Some(i);
        }
        i = i + 1;
    }
    assert(refs@.subrange(0, refs.len() as int) =~= refs@);
    None
}

pub proof fn lemma_find_ref_prefix(s: Seq<RemoteRef>, name: Seq<char>, n: int)
    requires
        0 <= n <= s.len(),
        find_ref(s.subrange(0, n), name) is Some,
    ensures
        find_ref(s, name) == find_ref(s.subrange(0, n), name),
    decreases s.len() - n,
{
    if n < s.len() {
        assert(s.subrange(0, n + 1).drop_last() =~= s.subrange(0, n));
        lemma_find_ref_prefix(s, name, n + 1);
    } else {
        assert(s.subrange(0, n) =~= s);
    }
}

pub proof fn lemma_live_prefix(s: Seq<RemoteRef>, n: int)
    requires
        0 <= n <= s.len(),
        first_live_branch(s.subrange(0, n)) is Some,
    ensures
        first_live_branch(s) == first_live_branch(s.subrange(0, n)),
    decreases s.len() - n,
{
    if n < s.len() {
        assert(s.subrange(0, n + 1).drop_last() =~= s.subrange(0, n));
        lemma_live_prefix(s, n + 1);
    } else {
        assert(s.subrange(0, n) =~= s);
    }
}

fn is_zero_oid_exec(oid: &str) -> (r: bool)
    ensures
        r == is_zero_oid(oid@),
{
    let v = chars_of(oid);
    let mut i: usize = 0;
    while i < v.len()
        invariant
            i <= v.len(),
            v@ == oid@,
            forall|j: int| 0 <= j < i ==> #[trigger] v@[j] == '0',
        decreases v.len() - i,
    {
        if v[i] != '0' {
            return false;
        }
        i = i + 1;
    }
    true
}

fn first_live_exec(refs: &Vec<RemoteRef>) -> (r: Option<usize>)
    ensures
        r matches Some(i) ==> first_live_branch(refs@) == Some(i as int) && i < refs@.len(),
        r is None ==> first_live_branch(refs@) is None,
{
    let prefix = chars_of("refs/heads/");
    let mut i: usize = 0;
    assert(refs@.subrange(0, 0) =~= seq![]);
    while i < refs.len()
        invariant
            i <= refs.len(),
            prefix@ == "refs/heads/"@,
            first_live_branch(refs@.subrange(0, i as int)) is None,
        decreases refs.len() - i,
    {
        assert(refs@.subrange(0, i + 1).drop_last() =~= refs@.subrange(0, i as int));
        if starts_with_vec(&chars_of(refs[i].name.as_str()), &prefix) && !is_zero_oid_exec(refs[i].oid.as_str()) {
            proof {
                lemma_live_prefix(refs@, i + 1);
            }
            return Some(i);
        }
        i = i + 1;
    }
    assert(refs@.subrange(0, refs.len() as int) =~= refs@);
    None
}

fn with_oid(refs: &Vec<RemoteRef>, name: &Vec<char>) -> (r: Option<(String, Option<String>)>)
    ensures
        match ref_with_oid(refs@, name@) {
            Some((n, o)) => r matches Some((a, b)) && a@ == n && crate::urls::opt_view(b) == o,
            None => r is None,
        },
{
    match find_ref_exec(refs, name) {
        Some(i) => Some((refs[i].name.clone(), Some(refs[i].oid.clone()))),
        None => None,
    }
}

/// Resolves the head to follow from the refs a remote advertises: the
/// requested branch, else the remote's symbolic `HEAD`, else `main`, else
/// `master`, else the first branch with a non-zero commit.
pub fn remote_head_for_branch(refs: &Vec<RemoteRef>, preferred_branch: Option<&str>) -> (r: Result<GitHeadState, GitHeadError>)
    ensures
        match head_spec(refs@, crate::policy::opt_str_view(preferred_branch)) {
            Ok((rf, oid)) => r matches Ok(h) && h.remote_ref@ == rf && h.oid@ == oid && h.branch@ == branch_of(rf)
                && h.short_oid@ == short_of(oid),
            Err(e) => r == Err::<GitHeadState, GitHeadError>(e),
        },
{
    let ghost pv = crate::policy::opt_str_view(preferred_branch);
    proof {
        reveal_strlit("refs/heads/");
    }
    let mut chosen: Option<(String, Option<String>)> = None;
    if let Some(b) = preferred_branch {
        let tb = trim_vec(&chars_of(b));
        if tb.len() > 0 {
            let mut full = chars_of("refs/heads/");
            let mut t2 = sub_vec(&tb, 0, tb.len());
            full.append(&mut t2);
            assert(tb@.subrange(0, tb@.len() as int) =~= tb@);
            chosen = with_oid(refs, &full);
        }
    }
    if chosen.is_none() {
        if let Some(h) = find_ref_exec(refs, &chars_of("HEAD")) {
            if let Some(t) = &refs[h].symref_target {
                let oid = match find_ref_exec(refs, &chars_of(t.as_str())) {
                    Some(k) => Some(refs[k].oid.clone()),
                    None => None,
                };
                chosen = Some((t.clone(), oid));
            }
        }
    }
    if chosen.is_none() {
        chosen = with_oid(refs, &chars_of("refs/heads/main"));
        if chosen.is_none() {
            chosen = with_oid(refs, &chars_of("refs/heads/master"));
        }
    }
    let complete = match &chosen {
        Some((_, Some(_))) => true,
        _ => false,
    };
    if !complete {
        if let Some(i) = first_live_exec(refs) {
            chosen = Some((refs[i].name.clone(), Some(refs[i].oid.clone())));
        }
    }
    let (rf, oid) = match chosen {
        None => {
            return Err(GitHeadError::NoHeadRef);
        },
        Some((_, None)) => {
            return Err(GitHeadError::NoHeadCommit);
        },
        Some((rf, Some(oid))) => (rf, oid),
    };
    let rv = chars_of(rf.as_str());
    let branch = if starts_with_vec(&rv, &chars_of("refs/heads/")) {
        string_of(&sub_vec(&rv, 11, rv.len()))
    } else {
        rf.clone()
    };
    let ov = chars_of(oid.as_str());
    let short = if ov.len() <= 10 {
        oid.clone()
    } else {
        string_of(&sub_vec(&ov, 0, 10))
    };
    Ok(GitHeadState { oid, short_oid: short, branch, remote_ref: rf })
}

/// The branch names that the refs advertise, in ref order.
pub open spec fn branch_names(refs: Seq<RemoteRef>) -> Seq<Seq<char>>
    decreases refs.len(),
{
    if refs.len() == 0 {
        seq![]
    } else if starts_with(refs.last().name@, "refs/heads/"@) {
        branch_names(refs.drop_last()).push(refs.last().name@.subrange(11, refs.last().name@.len() as int))
    } else {
        branch_names(refs.drop_last())
    }
}

/// The sort key of a branch name: its ASCII lower-case form.
#[verifier::opaque]
pub open spec fn fold_key(s: Seq<char>) -> Seq<char> {
    lower(s)
}

#[verifier::opaque]
pub open spec fn sorted_by_key(out: Seq<Seq<char>>) -> bool {
    forall|i: int, j: int| 0 <= i < j < out.len() ==> seq_lt(fold_key(#[trigger] out[i]), fold_key(#[trigger] out[j]))
}

/// Some element of `out` has this key.
pub open spec fn has_key(out: Seq<Seq<char>>, key: Seq<char>) -> bool {
    exists|j: int| #[trigger] key_at(out, key, j)
}

pub open spec fn key_at(out: Seq<Seq<char>>, key: Seq<char>, j: int) -> bool {
    0 <= j < out.len() && fold_key(out[j]) == key
}

pub open spec fn covers(out: Seq<Seq<char>>, bs: Seq<Seq<char>>) -> bool {
    forall|k: int| 0 <= k < bs.len() ==> has_key(out, fold_key(#[trigger] bs[k]))
}

/// `bs[i]` is the first of `bs` with its key.
pub open spec fn first_with_key(bs: Seq<Seq<char>>, i: int) -> bool {
    forall|k: int| 0 <= k < i ==> fold_key(#[trigger] bs[k]) != fold_key(bs[i])
}

/// `s` occurs in `bs` at a position where its key occurs first.
pub open spec fn has_first(bs: Seq<Seq<char>>, s: Seq<char>) -> bool {
    exists|i: int| #[trigger] first_at(bs, s, i)
}

pub open spec fn first_at(bs: Seq<Seq<char>>, s: Seq<char>, i: int) -> bool {
    0 <= i < bs.len() && bs[i] == s && first_with_key(bs, i)
}

pub open spec fn first_spellings(out: Seq<Seq<char>>, bs: Seq<Seq<char>>) -> bool {
    forall|j: int| 0 <= j < out.len() ==> has_first(bs, #[trigger] out[j])
}

/// `out` lists the names of `bs` once per name up to ASCII case, the first
/// spelling of each, sorted by lower-cased name.
pub open spec fn is_branch_listing(out: Seq<Seq<char>>, bs: Seq<Seq<char>>) -> bool {
    &&& sorted_by_key(out)
    &&& covers(out, bs)
    &&& first_spellings(out, bs)
}

pub proof fn lemma_listing_dup(ov: Seq<Seq<char>>, pre: Seq<Seq<char>>, x: Seq<char>, pos: int)
    requires
        is_branch_listing(ov, pre),
        0 <= pos < ov.len(),
        fold_key(ov[pos]) == fold_key(x),
    ensures
        is_branch_listing(ov, pre.push(x)),
{
    let nxt = pre.push(x);
    assert(covers(ov, nxt)) by {
        assert forall|k: int| 0 <= k < nxt.len() implies has_key(ov, fold_key(#[trigger] nxt[k])) by {
            if k < pre.len() {
                assert(nxt[k] == pre[k]);
                assert(fold_key(nxt[k]) == fold_key(pre[k]));
            } else {
                assert(fold_key(ov[pos]) == fold_key(nxt[k]));
            }
        }
    }
    assert(first_spellings(ov, nxt)) by {
        assert forall|j: int| 0 <= j < ov.len() implies has_first(nxt, #[trigger] ov[j]) by {
            assert(has_first(pre, ov[j]));
            let m = choose|m: int| first_at(pre, ov[j], m);
            assert(nxt[m] == ov[j]);
            assert forall|k: int| 0 <= k < m implies fold_key(#[trigger] nxt[k]) != fold_key(nxt[m]) by {
                assert(nxt[k] == pre[k]);
            }
            assert(first_with_key(nxt, m));
            assert(first_at(nxt, ov[j], m));
        }
    }
}

pub proof fn lemma_listing_insert(ov: Seq<Seq<char>>, pre: Seq<Seq<char>>, x: Seq<char>, pos: int)
    requires
        is_branch_listing(ov, pre),
        0 <= pos <= ov.len(),
        forall|j: int| 0 <= j < pos ==> seq_lt(fold_key(#[trigger] ov[j]), fold_key(x)),
        pos == ov.len() || seq_lt(fold_key(x), fold_key(ov[pos])),
    ensures
        is_branch_listing(ov.insert(pos, x), pre.push(x)),
{
    let nv = ov.insert(pos, x);
    let nxt = pre.push(x);
    let key = fold_key(x);
    lemma_lt_irreflexive(key);
    assert forall|j: int| 0 <= j < ov.len() implies fold_key(#[trigger] ov[j]) != key by {
        reveal(sorted_by_key);
        if j > pos {
            assert(seq_lt(fold_key(ov[pos]), fold_key(ov[j])));
            lemma_lt_transitive(key, fold_key(ov[pos]), fold_key(ov[j]));
        }
    }
    assert(sorted_by_key(nv)) by {
    reveal(sorted_by_key);
    assert forall|a: int, b: int| 0 <= a < b < nv.len() implies seq_lt(fold_key(#[trigger] nv[a]), fold_key(#[trigger] nv[b])) by {
        if a < pos && b == pos {
            assert(nv[a] == ov[a]);
        } else if a < pos && b > pos {
            assert(nv[b] == ov[b - 1]);
            assert(nv[a] == ov[a]);
        } else if a == pos && b > pos {
            assert(nv[b] == ov[b - 1]);
            if b - 1 > pos {
                assert(seq_lt(fold_key(ov[pos]), fold_key(ov[b - 1])));
                lemma_lt_transitive(key, fold_key(ov[pos]), fold_key(ov[b - 1]));
            }
        } else if a > pos {
            assert(nv[a] == ov[a - 1]);
            assert(nv[b] == ov[b - 1]);
        } else {
            assert(nv[a] == ov[a]);
            assert(nv[b] == ov[b]);
        }
    }
    }
    lemma_covers_insert(ov, pre, x, pos);
    lemma_first_insert(ov, pre, x, pos);
}

pub proof fn lemma_covers_insert(ov: Seq<Seq<char>>, pre: Seq<Seq<char>>, x: Seq<char>, pos: int)
    requires
        covers(ov, pre),
        0 <= pos <= ov.len(),
    ensures
        covers(ov.insert(pos, x), pre.push(x)),
{
    let nv = ov.insert(pos, x);
    let nxt = pre.push(x);
    assert forall|k: int| 0 <= k < nxt.len() implies has_key(nv, fold_key(#[trigger] nxt[k])) by {
        if k == pre.len() {
            assert(nv[pos] == nxt[k]);
            assert(fold_key(nv[pos]) == fold_key(nxt[k]));
            assert(key_at(nv, fold_key(nxt[k]), pos));
        } else {
            assert(nxt[k] == pre[k]);
            assert(fold_key(nxt[k]) == fold_key(pre[k]));
            assert(has_key(ov, fold_key(pre[k])));
            let j0 = choose|j: int| key_at(ov, fold_key(pre[k]), j);
            if j0 < pos {
                assert(nv[j0] == ov[j0]);
                assert(fold_key(nv[j0]) == fold_key(nxt[k]));
                assert(key_at(nv, fold_key(nxt[k]), j0));
            } else {
                assert(nv[j0 + 1] == ov[j0]);
                assert(fold_key(nv[j0 + 1]) == fold_key(nxt[k]));
                assert(key_at(nv, fold_key(nxt[k]), j0 + 1));
            }
        }
    }
}

pub proof fn lemma_first_insert(ov: Seq<Seq<char>>, pre: Seq<Seq<char>>, x: Seq<char>, pos: int)
    requires
        first_spellings(ov, pre),
        covers(ov, pre),
        0 <= pos <= ov.len(),
        forall|j: int| 0 <= j < ov.len() ==> fold_key(#[trigger] ov[j]) != fold_key(x),
    ensures
        first_spellings(ov.insert(pos, x), pre.push(x)),
{
    let nv = ov.insert(pos, x);
    let nxt = pre.push(x);
    let key = fold_key(x);
    assert forall|j: int| 0 <= j < nv.len() implies has_first(nxt, #[trigger] nv[j]) by {
        if j == pos {
            let m = pre.len() as int;
            assert(nxt[m] == nv[j]);
            assert forall|k: int| 0 <= k < m implies fold_key(#[trigger] nxt[k]) != fold_key(nxt[m]) by {
                assert(nxt[k] == pre[k]);
                assert(fold_key(nxt[k]) == fold_key(pre[k]));
                assert(has_key(ov, fold_key(pre[k])));
                let j1 = choose|j1: int| key_at(ov, fold_key(pre[k]), j1);
                assert(fold_key(ov[j1]) != key);
            }
            assert(first_with_key(nxt, m));
            assert(first_at(nxt, nv[j], m));
        } else {
            let jj = if j < pos { j } else { j - 1 };
            assert(nv[j] == ov[jj]);
            assert(has_first(pre, ov[jj]));
            let m = choose|m: int| first_at(pre, ov[jj], m);
            assert(nxt[m] == nv[j]);
            assert forall|k: int| 0 <= k < m implies fold_key(#[trigger] nxt[k]) != fold_key(nxt[m]) by {
                assert(nxt[k] == pre[k]);
            }
            assert(first_with_key(nxt, m));
            assert(first_at(nxt, nv[j], m));
        }
    }
}

fn branch_names_exec(refs: &Vec<RemoteRef>) -> (r: Vec<Vec<char>>)
    ensures
        r@.map_values(|x: Vec<char>| x@) == branch_names(refs@),
{
    proof {
        reveal_strlit("refs/heads/");
    }
    let prefix = chars_of("refs/heads/");
    let mut out: Vec<Vec<char>> = Vec::new();
    let mut i: usize = 0;
    assert(refs@.subrange(0, 0) =~= seq![]);
    assert(out@.map_values(|x: Vec<char>| x@) =~= branch_names(refs@.subrange(0, 0)));
    while i < refs.len()
        invariant
            i <= refs.len(),
            prefix@ == "refs/heads/"@,
            prefix@.len() == 11,
            out@.map_values(|x: Vec<char>| x@) == branch_names(refs@.subrange(0, i as int)),
        decreases refs.len() - i,
    {
        assert(refs@.subrange(0, i + 1).drop_last() =~= refs@.subrange(0, i as int));
        let n = chars_of(refs[i].name.as_str());
        if starts_with_vec(&n, &prefix) {
            out.push(sub_vec(&n, 11, n.len()));
        }
        assert(out@.map_values(|x: Vec<char>| x@) =~= branch_names(refs@.subrange(0, i + 1)));
        i = i + 1;
    }
    assert(refs@.subrange(0, refs.len() as int) =~= refs@);
    out
}

/// Lists the branches that the refs advertise, sorted by name ignoring ASCII
/// case, with names that differ only in case listed once.
pub fn remote_branches(refs: &Vec<RemoteRef>) -> (r: Vec<String>)
    ensures
        is_branch_listing(r@.map_values(|x: String| x@), branch_names(refs@)),
{
    let bs = branch_names_exec(refs);
    let ghost bv = branch_names(refs@);
    let mut out: Vec<Vec<char>> = Vec::new();
    let mut keys: Vec<Vec<char>> = Vec::new();
    let mut i: usize = 0;
    proof {
        reveal(sorted_by_key);
        assert(bv.subrange(0, 0) =~= seq![]);
    }
    while i < bs.len()
        invariant
            i <= bs.len(),
            bs@.map_values(|x: Vec<char>| x@) == bv,
            keys@.len() == out@.len(),
            forall|j: int| 0 <= j < out@.len() ==> (#[trigger] keys@[j])@ == fold_key(out@[j]@),
            is_branch_listing(out@.map_values(|x: Vec<char>| x@), bv.subrange(0, i as int)),
        decreases bs.len() - i,
    {
        let ghost ov = out@.map_values(|x: Vec<char>| x@);
        let ghost pre = bv.subrange(0, i as int);
        let ghost nxt = bv.subrange(0, i + 1);
        assert(bs@[i as int]@ == bv[i as int]);
        let key = lower_vec(&bs[i]);
        proof {
            reveal(fold_key);
        }
        assert(key@ == fold_key(bv[i as int]));
        let ghost old_keys = keys@;
        let mut pos: usize = 0;
        let mut dup = false;
        while pos < keys.len()
            invariant_except_break
                !dup,
            invariant
                pos <= keys.len(),
                keys@.len() == out@.len(),
                ov == out@.map_values(|x: Vec<char>| x@),
                forall|j: int| 0 <= j < out@.len() ==> (#[trigger] keys@[j])@ == fold_key(out@[j]@),
                forall|j: int| 0 <= j < pos ==> seq_lt(fold_key(#[trigger] ov[j]), key@),
                keys@ == old_keys,
            ensures
                pos <= keys.len(),
                forall|j: int| 0 <= j < pos ==> seq_lt(fold_key(#[trigger] ov[j]), key@),
                dup ==> pos < keys.len() && keys@[pos as int]@ == key@,
                !dup ==> pos == keys.len() || seq_lt(key@, keys@[pos as int]@),
            decreases keys.len() - pos,
        {
            assert(keys@[pos as int]@ == fold_key(ov[pos as int]));
            if seq_eq(&keys[pos], &key) {
                dup = true;
                break;
            }
            if vec_lt(&key, &keys[pos]) {
                break;
            }
            proof {
                lemma_lt_total(key@, keys@[pos as int]@);
            }
            pos = pos + 1;
        }
        proof {
            assert(nxt.drop_last() =~= pre);
        }
        if dup {
            proof {
                lemma_listing_dup(ov, pre, bv[i as int], pos as int);
                assert(nxt =~= pre.push(bv[i as int]));
            }
        } else {
            let item = sub_vec(&bs[i], 0, bs[i].len());
            assert(item@ =~= bv[i as int]);
            out.insert(pos, item);
            keys.insert(pos, key);
            proof {
                lemma_listing_insert(ov, pre, bv[i as int], pos as int);
                assert(out@.map_values(|x: Vec<char>| x@) =~= ov.insert(pos as int, bv[i as int]));
                assert(nxt =~= pre.push(bv[i as int]));
                assert forall|j: int| 0 <= j < out@.len() implies (#[trigger] keys@[j])@ == fold_key(out@[j]@) by {
                    if j < pos {
                    } else if j > pos {
                        assert(keys@[j] == old_keys[j - 1]);
                    }
                }
            }
        }
        i = i + 1;
    }
    assert(bv.subrange(0, bs.len() as int) =~= bv);
    let mut res: Vec<String> = Vec::new();
    let mut q: usize = 0;
    while q < out.len()
        invariant
            q <= out.len(),
            res@.len() == q,
            forall|j: int| 0 <= j < q ==> (#[trigger] res@[j])@ == out@[j]@,
        decreases out.len() - q,
    {
        res.push(string_of(&out[q]));
        q = q + 1;
    }
    assert(res@.map_values(|x: String| x@) =~= out@.map_values(|x: Vec<char>| x@));
    res
}

} // verus!
