//! The tracked-project table as a sequence of rows: identity lookup and the
//! idempotent add that the durable store performs.
use vstd::prelude::*;
use crate::model::Repo;
use crate::text::str_eq;

verus! {

/// The identity of a project: host, owner and name, case-sensitive.
pub open spec fn same_identity(a: Repo, host: Seq<char>, owner: Seq<char>, name: Seq<char>) -> bool {
    a.host@ == host && a.owner@ == owner && a.name@ == name
}

/// Index of the row with this identity.
pub open spec fn row_index(rows: Seq<Repo>, host: Seq<char>, owner: Seq<char>, name: Seq<char>) -> Option<int>
    decreases rows.len(),
{
    if rows.len() == 0 {
        None
    } else {
        match row_index(rows.drop_last(), host, owner, name) {
            Some(i) => Some(i),
            None => if same_identity(rows.last(), host, owner, name) {
                Some(rows.len() - 1)
            } else {
                None
            },
        }
    }
}

/// Two rows with different identities and different ids.
pub open spec fn distinct_rows(a: Repo, b: Repo) -> bool {
    !same_identity(a, b.host@, b.owner@, b.name@) && a.id != b.id
}

/// No two rows share an identity, and no two share an id.
pub open spec fn unique_rows(rows: Seq<Repo>) -> bool {
    forall|i: int, j: int| 0 <= i < j < rows.len() ==> distinct_rows(#[trigger] rows[i], #[trigger] rows[j])
}

pub open spec fn id_unused(rows: Seq<Repo>, id: i64) -> bool {
    forall|i: int| 0 <= i < rows.len() ==> #[trigger] rows[i].id != id
}

/// Adding a project: the existing row's id when its identity is present
/// (rows unchanged), else a new row under `fresh_id`.
pub open spec fn store_add(rows: Seq<Repo>, repo: Repo, fresh_id: i64) -> (Seq<Repo>, i64) {
    match row_index(rows, repo.host@, repo.owner@, repo.name@) {
        Some(i) => (rows, rows[i].id),
        None => (rows.push(Repo { id: fresh_id, ..repo }), fresh_id),
    }
}

pub proof fn lemma_row_index_found(rows: Seq<Repo>, host: Seq<char>, owner: Seq<char>, name: Seq<char>)
    ensures
        row_index(rows, host, owner, name) matches Some(i) ==> 0 <= i < rows.len() && same_identity(rows[i], host, owner, name),
        row_index(rows, host, owner, name) is None ==> forall|k: int| 0 <= k < rows.len() ==> !same_identity(#[trigger] rows[k], host, owner, name),
    decreases rows.len(),
{
    if rows.len() > 0 {
        lemma_row_index_found(rows.drop_last(), host, owner, name);
        if row_index(rows.drop_last(), host, owner, name) is None {
            assert forall|k: int| 0 <= k < rows.len() - 1 implies !same_identity(#[trigger] rows[k], host, owner, name) by {
                assert(rows[k] == rows.drop_last()[k]);
            }
        }
    }
}

/// Uniqueness: adding the same project twice returns the same id, the second
/// add changes no row, and the rows keep unique identities and ids.
pub proof fn add_is_idempotent(rows: Seq<Repo>, repo: Repo, fresh1: i64, fresh2: i64)
    requires
        unique_rows(rows),
        id_unused(rows, fresh1),
    ensures
        ({
            let (rows1, id1) = store_add(rows, repo, fresh1);
            let (rows2, id2) = store_add(rows1, repo, fresh2);
            &&& id1 == id2
            &&& rows2 == rows1
            &&& unique_rows(rows1)
            &&& row_index(rows1, repo.host@, repo.owner@, repo.name@) is Some
        }),
{
    lemma_row_index_found(rows, repo.host@, repo.owner@, repo.name@);
    let (rows1, id1) = store_add(rows, repo, fresh1);
    if row_index(rows, repo.host@, repo.owner@, repo.name@) is None {
        let added = Repo { id: fresh1, ..repo };
        assert(rows1 == rows.push(added));
        assert(rows1.drop_last() =~= rows);
        assert(same_identity(rows1.last(), repo.host@, repo.owner@, repo.name@));
        assert(row_index(rows1, repo.host@, repo.owner@, repo.name@) == Some(rows.len() as int));
        assert forall|i: int, j: int| 0 <= i < j < rows1.len() implies distinct_rows(#[trigger] rows1[i], #[trigger] rows1[j]) by {
            assert(rows1[i] == rows[i]);
            if j == rows.len() {
                assert(rows1[j] == added);
                assert(!same_identity(rows[i], repo.host@, repo.owner@, repo.name@));
                assert(rows[i].id != fresh1);
            } else {
                assert(rows1[j] == rows[j]);
                assert(distinct_rows(rows[i], rows[j]));
            }
        }
    }
    lemma_row_index_found(rows1, repo.host@, repo.owner@, repo.name@);
}

/// The id of the row with this identity, if any.
pub fn find_repo_id(rows: &Vec<Repo>, host: &str, owner: &str, name: &str) -> (r: Option<i64>)
    ensures
        match row_index(rows@, host@, owner@, name@) {
            Some(i) => r == Some(rows@[i].id),
            None => r is None,
        },
{
    let mut i: usize = 0;
    assert(rows@.subrange(0, 0) =~= seq![]);
    while i < rows.len()
        invariant
            i <= rows.len(),
            row_index(rows@.subrange(0, i as int), host@, owner@, name@) is None,
        decreases rows.len() - i,
    {
        assert(rows@.subrange(0, i + 1).drop_last() =~= rows@.subrange(0, i as int));
        let r = &rows[i];
        if str_eq(r.host.as_str(), host) && str_eq(r.owner.as_str(), owner) && str_eq(r.name.as_str(), name) {
            proof {
                lemma_row_prefix(rows@, host@, owner@, name@, i + 1);
            }
            return Some(r.id);
        }
        i = i + 1;
    }
    assert(rows@.subrange(0, rows.len() as int) =~= rows@);
    None
}

pub proof fn lemma_row_prefix(s: Seq<Repo>, host: Seq<char>, owner: Seq<char>, name: Seq<char>, n: int)
    requires
        0 <= n <= s.len(),
        row_index(s.subrange(0, n), host, owner, name) is Some,
    ensures
        row_index(s, host, owner, name) == row_index(s.subrange(0, n), host, owner, name),
    decreases s.len() - n,
{
    if n < s.len() {
        assert(s.subrange(0, n + 1).drop_last() =~= s.subrange(0, n));
        lemma_row_prefix(s, host, owner, name, n + 1);
    } else {
        assert(s.subrange(0, n) =~= s);
    }
}


/// Uniqueness across URLs: two project URLs that resolve to the same host,
/// owner and name add one row; the second add returns the first's id and
/// leaves the rows (the first add's mode and pattern included) unchanged.
pub proof fn same_project_shares_one_row(
    rows: Seq<Repo>,
    u1: Seq<char>,
    u2: Seq<char>,
    r1: Repo,
    r2: Repo,
    fresh1: i64,
    fresh2: i64,
)
    requires
        unique_rows(rows),
        id_unused(rows, fresh1),
        crate::forge::detect_spec(u1) is Ok,
        crate::forge::detect_spec(u2) is Ok,
        same_identity_of(crate::forge::detect_spec(u1)->Ok_0, crate::forge::detect_spec(u2)->Ok_0),
        same_identity(r1, (crate::forge::detect_spec(u1)->Ok_0).host, (crate::forge::detect_spec(u1)->Ok_0).owner,
            (crate::forge::detect_spec(u1)->Ok_0).name),
        same_identity(r2, (crate::forge::detect_spec(u2)->Ok_0).host, (crate::forge::detect_spec(u2)->Ok_0).owner,
            (crate::forge::detect_spec(u2)->Ok_0).name),
    ensures
        ({
            let (rows1, id1) = store_add(rows, r1, fresh1);
            let (rows2, id2) = store_add(rows1, r2, fresh2);
            id1 == id2 && rows2 == rows1 && unique_rows(rows1)
        }),
{
    add_is_idempotent(rows, r1, fresh1, fresh2);
    assert(r2.host@ == r1.host@ && r2.owner@ == r1.owner@ && r2.name@ == r1.name@);
}

/// Two detected projects with the same host, owner and name.
pub open spec fn same_identity_of(a: crate::forge::RepoIdentity, b: crate::forge::RepoIdentity) -> bool {
    a.host == b.host && a.owner == b.owner && a.name == b.name
}

} // verus!
