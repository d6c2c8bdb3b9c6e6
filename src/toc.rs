//! Addon-folder naming from TOC descriptor files.
use vstd::prelude::*;
use crate::order::{lemma_lt_irreflexive, lemma_lt_transitive, seq_lt, vec_lt};
use crate::text::{copy_str, seq_eq, eq_ic, eq_ic_vec, chars_of, ends_with, ends_with_vec, is_ws, lower, lower_vec, string_of, sub_vec, trim, trim_end, trim_start, trim_vec};

verus! {

/// Edition and channel words that a TOC file name may end with.
pub open spec fn edition_words() -> Seq<Seq<char>> {
    seq![
        "classic"@, "bcc"@, "vanilla"@, "tbc"@, "mainline"@, "wrath"@, "wotlk"@,
        "wotlkc"@, "era"@, "classicera"@, "retail"@, "cata"@, "sod"@,
    ]
}

/// The `k`-th suffix: each word with a dash, then with an underscore.
pub open spec fn edition_suffix(k: int) -> Seq<char> {
    seq![if k % 2 == 0 { '-' } else { '_' }] + edition_words()[k / 2]
}

pub open spec fn n_edition_suffixes() -> int {
    26
}

/// Length of the first suffix, in list order, that ends `s` (ignoring ASCII
/// case) and leaves something before it.
pub open spec fn suffix_match_from(s: Seq<char>, k: int) -> Option<nat>
    decreases n_edition_suffixes() - k,
{
    if k < 0 || k >= n_edition_suffixes() {
        None
    } else if ends_with(lower(s), edition_suffix(k)) && s.len() > edition_suffix(k).len() {
        Some(edition_suffix(k).len())
    } else {
        suffix_match_from(s, k + 1)
    }
}

pub open spec fn is_sep(c: char) -> bool {
    c == '-' || c == '_'
}

/// The sequence without trailing dashes and underscores.
pub open spec fn trim_end_seps(s: Seq<char>) -> Seq<char>
    decreases s.len(),
{
    if s.len() > 0 && is_sep(s.last()) {
        trim_end_seps(s.drop_last())
    } else {
        s
    }
}

/// One step: drop the matched suffix, then trailing separators and white space.
pub open spec fn strip_step(s: Seq<char>, n: nat) -> Seq<char> {
    trim(trim_end_seps(s.subrange(0, s.len() - n)))
}

pub proof fn lemma_trim_start_len(s: Seq<char>)
    ensures
        trim_start(s).len() <= s.len(),
    decreases s.len(),
{
    if s.len() > 0 && is_ws(s[0]) {
        lemma_trim_start_len(s.drop_first());
    }
}

pub proof fn lemma_trim_end_len(s: Seq<char>)
    ensures
        trim_end(s).len() <= s.len(),
    decreases s.len(),
{
    if s.len() > 0 && is_ws(s.last()) {
        lemma_trim_end_len(s.drop_last());
    }
}

pub proof fn lemma_trim_end_seps_len(s: Seq<char>)
    ensures
        trim_end_seps(s).len() <= s.len(),
    decreases s.len(),
{
    if s.len() > 0 && is_sep(s.last()) {
        lemma_trim_end_seps_len(s.drop_last());
    }
}

pub proof fn lemma_suffix_match_len(s: Seq<char>, k: int)
    ensures
        suffix_match_from(s, k) matches Some(n) ==> 0 < n < s.len(),
    decreases n_edition_suffixes() - k,
{
    if k >= 0 && k < n_edition_suffixes() {
        if !(ends_with(lower(s), edition_suffix(k)) && s.len() > edition_suffix(k).len()) {
            lemma_suffix_match_len(s, k + 1);
        }
    }
}

pub proof fn lemma_strip_step_shorter(s: Seq<char>)
    ensures
        suffix_match_from(s, 0) matches Some(n) ==> strip_step(s, n).len() < s.len(),
{
    lemma_suffix_match_len(s, 0);
    if let Some(n) = suffix_match_from(s, 0) {
        let a = s.subrange(0, s.len() - n);
        lemma_trim_end_seps_len(a);
        lemma_trim_start_len(trim_end_seps(a));
        lemma_trim_end_len(trim_start(trim_end_seps(a)));
    }
}

/// Repeatedly strips edition suffixes until none matches.
pub open spec fn strip_editions(s: Seq<char>) -> Seq<char>
    decreases s.len(),
{
    match suffix_match_from(s, 0) {
        Some(n) => if strip_step(s, n).len() < s.len() {
            strip_editions(strip_step(s, n))
        } else {
            s
        },
        None => s,
    }
}

/// The canonical addon name of a TOC file stem: trimmed, with edition and
/// channel suffixes removed; the trimmed stem itself if nothing would remain.
pub open spec fn normalized_toc_stem(stem: Seq<char>) -> Seq<char> {
    let t = trim(stem);
    if t.len() == 0 {
        t
    } else if strip_editions(t).len() == 0 {
        t
    } else {
        strip_editions(t)
    }
}

fn edition_word(i: usize) -> (r: Vec<char>)
    requires
        i < 13,
    ensures
        r@ == edition_words()[i as int],
{
    let w = match i {
        0 => "classic",
        1 => "bcc",
        2 => "vanilla",
        3 => "tbc",
        4 => "mainline",
        5 => "wrath",
        6 => "wotlk",
        7 => "wotlkc",
        8 => "era",
        9 => "classicera",
        10 => "retail",
        11 => "cata",
        _ => "sod",
    };
    chars_of(w)
}

fn edition_suffix_chars(k: usize) -> (r: Vec<char>)
    requires
        k < 26,
    ensures
        r@ == edition_suffix(k as int),
{
    let mut out: Vec<char> = Vec::new();
    out.push(if k % 2 == 0 { '-' } else { '_' });
    let mut w = edition_word(k / 2);
    out.append(&mut w);
    assert(out@ =~= edition_suffix(k as int));
    out
}

/// Length of the first matching suffix, as `suffix_match_from(s, 0)`.
fn suffix_match(s: &Vec<char>) -> (r: Option<usize>)
    ensures
        r matches Some(n) ==> suffix_match_from(s@, 0) == Some(n as nat),
        r is None ==> suffix_match_from(s@, 0) is None,
{
    let l = lower_vec(s);
    let mut k: usize = 0;
    while k < 26
        invariant
            k <= 26,
            l@ == lower(s@),
            suffix_match_from(s@, 0) == suffix_match_from(s@, k as int),
        decreases 26 - k,
    {
        let suf = edition_suffix_chars(k);
        if ends_with_vec(&l, &suf) && s.len() > suf.len() {
            return Some(suf.len());
        }
        k = k + 1;
    }
    None
}

fn trim_end_seps_vec(v: &Vec<char>) -> (r: Vec<char>)
    ensures
        r@ == trim_end_seps(v@),
{
    let mut b: usize = v.len();
    assert(v@.subrange(0, v.len() as int) =~= v@);
    while b > 0 && (v[b - 1] == '-' || v[b - 1] == '_')
        invariant
            b <= v.len(),
            trim_end_seps(v@) == trim_end_seps(v@.subrange(0, b as int)),
        decreases b,
    {
        assert(v@.subrange(0, b as int).drop_last() =~= v@.subrange(0, b - 1));
        b = b - 1;
    }
    sub_vec(v, 0, b)
}

/// Strips edition/channel suffixes ("-classic", "_wotlk", "-era", ...) from a
/// TOC file stem, ignoring ASCII case.
pub fn normalize_toc_stem(stem: &str) -> (r: String)
    ensures
        r@ == normalized_toc_stem(stem@),
{
    let t = trim_vec(&chars_of(stem));
    if t.len() == 0 {
        return string_of(&t);
    }
    let mut out = clone_chars(&t);
    loop
        invariant
            strip_editions(out@) == strip_editions(t@),
        ensures
            out@ == strip_editions(t@),
        decreases out.len(),
    {
        proof {
            lemma_strip_step_shorter(out@);
            lemma_suffix_match_len(out@, 0);
        }
        match suffix_match(&out) {
            Some(n) => {
                let cut = sub_vec(&out, 0, out.len() - n);
                let next = trim_vec(&trim_end_seps_vec(&cut));
                assert(next@ == strip_step(out@, n as nat));
                out = next;
            },
            None => {
                assert(strip_editions(out@) == out@);
                break;
            },
        }
    }
    if out.len() == 0 {
        string_of(&t)
    } else {
        string_of(&out)
    }
}

fn clone_chars(v: &Vec<char>) -> (r: Vec<char>)
    ensures
        r@ == v@,
{
    sub_vec(v, 0, v.len())
}

/// The trimmed, non-empty stems of a directory's TOC files, in order.
pub open spec fn clean_stems(files: Seq<Seq<char>>) -> Seq<Seq<char>>
    decreases files.len(),
{
    if files.len() == 0 {
        seq![]
    } else if trim(files.last()).len() > 0 {
        clean_stems(files.drop_last()).push(trim(files.last()))
    } else {
        clean_stems(files.drop_last())
    }
}

pub open spec fn normalized_all(stems: Seq<Seq<char>>) -> Seq<Seq<char>> {
    Seq::new(stems.len(), |i: int| normalized_toc_stem(stems[i]))
}

pub open spec fn lowered_all(names: Seq<Seq<char>>) -> Seq<Seq<char>> {
    Seq::new(names.len(), |i: int| lower(names[i]))
}

/// How often `k` occurs in `keys`.
pub open spec fn count_of(keys: Seq<Seq<char>>, k: Seq<char>) -> nat
    decreases keys.len(),
{
    if keys.len() == 0 {
        0
    } else {
        count_of(keys.drop_last(), k) + if keys.last() == k { 1nat } else { 0nat }
    }
}

/// `k` is the most frequent of `keys`, the smallest such in lexicographic order.
pub open spec fn is_most_common(keys: Seq<Seq<char>>, k: Seq<char>) -> bool {
    &&& keys.contains(k)
    &&& forall|j: int|
        0 <= j < keys.len() ==> count_of(keys, #[trigger] keys[j]) <= count_of(keys, k) && (
        count_of(keys, keys[j]) == count_of(keys, k) ==> !seq_lt(keys[j], k))
}

/// Some TOC stem names the directory itself, raw or normalized, ignoring case.
pub open spec fn names_dir(stems: Seq<Seq<char>>, dir_name: Seq<char>) -> bool {
    exists|i: int|
        0 <= i < stems.len() && (eq_ic(#[trigger] stems[i], dir_name) || eq_ic(
            normalized_toc_stem(stems[i]),
            dir_name,
        ))
}

/// All normalized stems agree, ignoring case.
pub open spec fn all_agree(norms: Seq<Seq<char>>) -> bool {
    forall|i: int| 0 <= i < norms.len() ==> lower(#[trigger] norms[i]) == lower(norms[0])
}

/// The folder name that a directory's TOC files give it, in every case but
/// the last (a non-root directory whose stems disagree), where the result is
/// the most common lower-cased normalized stem.
pub open spec fn folder_name_decided(dir_name: Seq<char>, is_root: bool, files: Seq<Seq<char>>) -> Option<
    Option<Seq<char>>,
> {
    let stems = clean_stems(files);
    let norms = normalized_all(stems);
    if stems.len() == 0 {
        Some(None)
    } else if !is_root && dir_name.len() > 0 && names_dir(stems, dir_name) {
        Some(Some(dir_name))
    } else if all_agree(norms) {
        Some(Some(norms[0]))
    } else if is_root {
        Some(None)
    } else {
        None
    }
}

fn clean_stems_exec(files: &Vec<String>) -> (r: Vec<Vec<char>>)
    ensures
        r@.len() == clean_stems(files@.map_values(|f: String| f@)).len(),
        forall|i: int| 0 <= i < r@.len() ==> (#[trigger] r@[i])@ == clean_stems(files@.map_values(|f: String| f@))[i],
{
    let ghost fs = files@.map_values(|f: String| f@);
    let mut out: Vec<Vec<char>> = Vec::new();
    let mut i: usize = 0;
    while i < files.len()
        invariant
            i <= files.len(),
            fs == files@.map_values(|f: String| f@),
            out@.len() == clean_stems(fs.subrange(0, i as int)).len(),
            forall|j: int| 0 <= j < out@.len() ==> (#[trigger] out@[j])@ == clean_stems(fs.subrange(0, i as int))[j],
        decreases files.len() - i,
    {
        let t = trim_vec(&chars_of(files[i].as_str()));
        assert(fs.subrange(0, i + 1).drop_last() =~= fs.subrange(0, i as int));
        assert(fs.subrange(0, i + 1).last() == files@[i as int]@);
        if t.len() > 0 {
            out.push(t);
        }
        i = i + 1;
    }
    assert(fs.subrange(0, files.len() as int) =~= fs);
    out
}

fn count_in(keys: &Vec<Vec<char>>, k: &Vec<char>) -> (c: usize)
    ensures
        c == count_of(keys@.map_values(|x: Vec<char>| x@), k@),
{
    let ghost ks = keys@.map_values(|x: Vec<char>| x@);
    let mut c: usize = 0;
    let mut j: usize = 0;
    while j < keys.len()
        invariant
            j <= keys.len(),
            ks == keys@.map_values(|x: Vec<char>| x@),
            c == count_of(ks.subrange(0, j as int), k@),
            c <= j,
        decreases keys.len() - j,
    {
        assert(ks.subrange(0, j + 1).drop_last() =~= ks.subrange(0, j as int));
        if seq_eq(&keys[j], k) {
            c = c + 1;
        }
        j = j + 1;
    }
    assert(ks.subrange(0, keys.len() as int) =~= ks);
    c
}

/// The most frequent key, ties going to the lexicographically smallest.
fn most_common(keys: &Vec<Vec<char>>) -> (r: Vec<char>)
    requires
        keys.len() > 0,
    ensures
        is_most_common(keys@.map_values(|x: Vec<char>| x@), r@),
{
    let ghost ks = keys@.map_values(|x: Vec<char>| x@);
    let mut best: usize = 0;
    let mut best_count = count_in(keys, &keys[0]);
    let mut i: usize = 1;
    proof {
        lemma_lt_irreflexive(ks[0]);
    }
    while i < keys.len()
        invariant
            1 <= i <= keys.len(),
            best < keys.len(),
            ks == keys@.map_values(|x: Vec<char>| x@),
            best_count == count_of(ks, ks[best as int]),
            forall|j: int|
                0 <= j < i ==> count_of(ks, #[trigger] ks[j]) <= best_count && (count_of(ks, ks[j])
                    == best_count ==> !seq_lt(ks[j], ks[best as int])),
        decreases keys.len() - i,
    {
        let c = count_in(keys, &keys[i]);
        if c > best_count || (c == best_count && vec_lt(&keys[i], &keys[best])) {
            proof {
                lemma_lt_irreflexive(ks[i as int]);
                assert forall|j: int|
                    0 <= j < i + 1 implies count_of(ks, #[trigger] ks[j]) <= c && (count_of(ks, ks[j])
                    == c ==> !seq_lt(ks[j], ks[i as int])) by {
                    if j < i && count_of(ks, ks[j]) == c && seq_lt(ks[j], ks[i as int]) {
                        lemma_lt_transitive(ks[j], ks[i as int], ks[best as int]);
                    }
                }
            }
            best = i;
            best_count = c;
        }
        i = i + 1;
    }
    assert(ks.contains(ks[best as int]));
    assert(ks[best as int] == keys@[best as int]@);
    let r = sub_vec(&keys[best], 0, keys[best].len());
    assert(r@ =~= ks[best as int]);
    r
}

/// The folder name that a directory's TOC files give it.
///
/// `toc_stems` are the file stems of the directory's `.toc` files;
/// `is_root` says whether the directory is the root of the scan. A directory
/// whose name matches one of its stems, raw or normalized, keeps its name;
/// stems that all normalize alike give that name; a root whose stems disagree
/// gives none, so that nested folders are used instead; other directories
/// take the most common normalized stem, lower-cased.
pub fn addon_folder_name_from_toc(dir_name: &str, is_root: bool, toc_stems: &Vec<String>) -> (r: Option<String>)
    ensures
        ({
            let stems = clean_stems(toc_stems@.map_values(|f: String| f@));
            let keys = lowered_all(normalized_all(stems));
            match folder_name_decided(dir_name@, is_root, toc_stems@.map_values(|f: String| f@)) {
                Some(d) => (r matches Some(x) ==> d == Some(x@)) && (r is None ==> d is None),
                None => r matches Some(x) && is_most_common(keys, x@),
            }
        }),
{
    let ghost files = toc_stems@.map_values(|f: String| f@);
    let stems = clean_stems_exec(toc_stems);
    let ghost ss = clean_stems(files);
    assert(stems@.map_values(|x: Vec<char>| x@) =~= ss);
    if stems.len() == 0 {
        return None;
    }
    let mut norms: Vec<Vec<char>> = Vec::new();
    let mut i: usize = 0;
    while i < stems.len()
        invariant
            i <= stems.len(),
            stems@.map_values(|x: Vec<char>| x@) == ss,
            norms@.len() == i,
            forall|j: int| 0 <= j < i ==> (#[trigger] norms@[j])@ == normalized_toc_stem(ss[j]),
        decreases stems.len() - i,
    {
        let s = string_of(&stems[i]);
        let n = normalize_toc_stem(s.as_str());
        norms.push(chars_of(n.as_str()));
        i = i + 1;
    }
    let ghost ns = normalized_all(ss);
    assert(norms@.map_values(|x: Vec<char>| x@) =~= ns);
    let dir = chars_of(dir_name);
    if !is_root && dir.len() > 0 {
        let mut k: usize = 0;
        while k < stems.len()
            invariant
                k <= stems.len(),
                stems@.map_values(|x: Vec<char>| x@) == ss,
                norms@.map_values(|x: Vec<char>| x@) == ns,
                norms@.len() == stems@.len(),
                ns == normalized_all(ss),
                ss == clean_stems(files),
                files == toc_stems@.map_values(|f: String| f@),
                ss.len() > 0,
                !is_root,
                dir@.len() > 0,
                dir@ == dir_name@,
                forall|j: int|
                    0 <= j < k ==> !(eq_ic(#[trigger] ss[j], dir_name@) || eq_ic(
                        normalized_toc_stem(ss[j]),
                        dir_name@,
                    )),
            decreases stems.len() - k,
        {
            assert(stems@.map_values(|x: Vec<char>| x@)[k as int] == stems@[k as int]@);
            assert(norms@.map_values(|x: Vec<char>| x@)[k as int] == norms@[k as int]@);
            if eq_ic_vec(&stems[k], &dir) || eq_ic_vec(&norms[k], &dir) {
                assert(eq_ic(ss[k as int], dir_name@) || eq_ic(normalized_toc_stem(ss[k as int]), dir_name@));
                assert(names_dir(ss, dir_name@));
                return Some(copy_str(dir_name));
            }
            k = k + 1;
        }
    }
    let mut keys: Vec<Vec<char>> = Vec::new();
    let mut m: usize = 0;
    while m < norms.len()
        invariant
            m <= norms.len(),
            norms@.map_values(|x: Vec<char>| x@) == ns,
            keys@.len() == m,
            forall|j: int| 0 <= j < m ==> (#[trigger] keys@[j])@ == lower(ns[j]),
        decreases norms.len() - m,
    {
        keys.push(lower_vec(&norms[m]));
        m = m + 1;
    }
    let ghost kseq = lowered_all(ns);
    assert(keys@.map_values(|x: Vec<char>| x@) =~= kseq);
    let mut same = true;
    let mut q: usize = 1;
    while q < keys.len()
        invariant
            1 <= q <= keys.len() || keys.len() == 0,
            keys@.map_values(|x: Vec<char>| x@) == kseq,
            kseq == lowered_all(ns),
            keys@.len() == ns.len(),
            ns.len() > 0,
            same == (forall|j: int| 0 <= j < q ==> lower(#[trigger] ns[j]) == lower(ns[0])),
        decreases keys.len() - q,
    {
        assert(keys@.map_values(|x: Vec<char>| x@)[q as int] == keys@[q as int]@);
        assert(keys@.map_values(|x: Vec<char>| x@)[0] == keys@[0]@);
        assert(kseq[q as int] == lower(ns[q as int]));
        assert(kseq[0] == lower(ns[0]));
        if !seq_eq(&keys[q], &keys[0]) {
            same = false;
        }
        q = q + 1;
    }
    if same {
        return Some(string_of(&norms[0]));
    }
    if is_root {
        return None;
    }
    let best = most_common(&keys);
    Some(string_of(&best))
}

} // verus!
