//! The DLL registration list (`dlls.txt`): one library name per line, a
//! leading `#` disabling an entry.
use vstd::prelude::*;
use crate::text::{chars_of, eq_ic, eq_ic_vec, string_of, sub_vec, trim, trim_vec};

verus! {

/// The library named by a line: trimmed, without a leading `#`; none for a
/// blank line.
pub open spec fn line_entry(line: Seq<char>) -> Option<Seq<char>> {
    let t = trim(line);
    if t.len() == 0 {
        None
    } else if t[0] == '#' {
        Some(trim(t.drop_first()))
    } else {
        Some(t)
    }
}

pub open spec fn names_entry(line: Seq<char>, dll: Seq<char>) -> bool {
    line_entry(line) matches Some(e) && eq_ic(e, dll)
}

/// Index of the first line that names `dll`, ignoring ASCII case.
pub open spec fn entry_index(lines: Seq<Seq<char>>, dll: Seq<char>) -> Option<int>
    decreases lines.len(),
{
    if lines.len() == 0 {
        None
    } else {
        match entry_index(lines.drop_last(), dll) {
            Some(i) => Some(i),
            None => if names_entry(lines.last(), dll) {
                Some(lines.len() - 1)
            } else {
                None
            },
        }
    }
}

/// `dll` enabled: its first line, commented or not, becomes the bare name;
/// with no such line it is appended.
pub open spec fn enable_one(lines: Seq<Seq<char>>, dll: Seq<char>) -> Seq<Seq<char>> {
    match entry_index(lines, dll) {
        Some(i) => lines.update(i, dll),
        None => lines.push(dll),
    }
}

pub open spec fn enable_all(lines: Seq<Seq<char>>, dlls: Seq<Seq<char>>) -> Seq<Seq<char>>
    decreases dlls.len(),
{
    if dlls.len() == 0 {
        lines
    } else {
        enable_one(enable_all(lines, dlls.drop_last()), dlls.last())
    }
}

/// Each line followed by a newline.
pub open spec fn flat_lines(lines: Seq<Seq<char>>) -> Seq<char>
    decreases lines.len(),
{
    if lines.len() == 0 {
        seq![]
    } else {
        flat_lines(lines.drop_last()) + lines.last() + seq!['\n']
    }
}

/// The file text of a list of lines: joined by newlines, ending with one.
pub open spec fn file_text(lines: Seq<Seq<char>>) -> Seq<char> {
    if lines.len() == 0 {
        seq!['\n']
    } else {
        flat_lines(lines)
    }
}

pub open spec fn views(v: Seq<String>) -> Seq<Seq<char>> {
    v.map_values(|s: String| s@)
}

fn entry_of(line: &Vec<char>) -> (r: Option<Vec<char>>)
    ensures
        match line_entry(line@) {
            Some(e) => r matches Some(x) && x@ == e,
            None => r is None,
        },
{
    let t = trim_vec(line);
    if t.len() == 0 {
        None
    } else if t[0] == '#' {
        let rest = sub_vec(&t, 1, t.len());
        assert(rest@ =~= t@.drop_first());
        Some(trim_vec(&rest))
    } else {
        Some(t)
    }
}

fn line_names(line: &Vec<char>, dll: &Vec<char>) -> (r: bool)
    ensures
        r == names_entry(line@, dll@),
{
    match entry_of(line) {
        Some(e) => eq_ic_vec(&e, dll),
        None => false,
    }
}

fn to_chars_all(v: &Vec<String>) -> (r: Vec<Vec<char>>)
    ensures
        r@.map_values(|x: Vec<char>| x@) == views(v@),
        r@.len() == v@.len(),
{
    let mut out: Vec<Vec<char>> = Vec::new();
    let mut i: usize = 0;
    while i < v.len()
        invariant
            i <= v.len(),
            out@.len() == i,
            forall|j: int| 0 <= j < i ==> (#[trigger] out@[j])@ == v@[j]@,
        decreases v.len() - i,
    {
        out.push(chars_of(v[i].as_str()));
        i = i + 1;
    }
    assert(out@.map_values(|x: Vec<char>| x@) =~= views(v@));
    out
}

fn enable_one_exec(lines: &mut Vec<Vec<char>>, dll: &Vec<char>)
    ensures
        final(lines)@.map_values(|x: Vec<char>| x@) == enable_one(old(lines)@.map_values(|x: Vec<char>| x@), dll@),
{
    let ghost lv = lines@.map_values(|x: Vec<char>| x@);
    let mut i: usize = 0;
    assert(lv.subrange(0, 0) =~= seq![]);
    while i < lines.len()
        invariant
            i <= lines.len(),
            lv == lines@.map_values(|x: Vec<char>| x@),
            lv == old(lines)@.map_values(|x: Vec<char>| x@),
            entry_index(lv.subrange(0, i as int), dll@) is None,
        decreases lines.len() - i,
    {
        assert(lv.subrange(0, i + 1).drop_last() =~= lv.subrange(0, i as int));
        assert(lines@[i as int]@ == lv[i as int]);
        if line_names(&lines[i], dll) {
            proof {
                lemma_entry_prefix(lv, dll@, i + 1);
            }
            let d = sub_vec(dll, 0, dll.len());
            assert(d@ =~= dll@);
            lines.set(i, d);
            assert(lines@.map_values(|x: Vec<char>| x@) =~= lv.update(i as int, dll@));
            return;
        }
        i = i + 1;
    }
    assert(lv.subrange(0, lines.len() as int) =~= lv);
    let d = sub_vec(dll, 0, dll.len());
    assert(d@ =~= dll@);
    lines.push(d);
    assert(lines@.map_values(|x: Vec<char>| x@) =~= lv.push(dll@));
}

pub proof fn lemma_entry_prefix(s: Seq<Seq<char>>, dll: Seq<char>, n: int)
    requires
        0 <= n <= s.len(),
        entry_index(s.subrange(0, n), dll) is Some,
    ensures
        entry_index(s, dll) == entry_index(s.subrange(0, n), dll),
    decreases s.len() - n,
{
    if n < s.len() {
        assert(s.subrange(0, n + 1).drop_last() =~= s.subrange(0, n));
        lemma_entry_prefix(s, dll, n + 1);
    } else {
        assert(s.subrange(0, n) =~= s);
    }
}

fn text_of(lines: &Vec<Vec<char>>) -> (r: String)
    ensures
        r@ == file_text(lines@.map_values(|x: Vec<char>| x@)),
{
    let ghost lv = lines@.map_values(|x: Vec<char>| x@);
    if lines.len() == 0 {
        let mut v: Vec<char> = Vec::new();
        v.push('\n');
        assert(v@ =~= seq!['\n']);
        return string_of(&v);
    }
    let mut out: Vec<char> = Vec::new();
    let mut i: usize = 0;
    assert(lv.subrange(0, 0) =~= seq![]);
    while i < lines.len()
        invariant
            i <= lines.len(),
            lv == lines@.map_values(|x: Vec<char>| x@),
            out@ == flat_lines(lv.subrange(0, i as int)),
        decreases lines.len() - i,
    {
        assert(lv.subrange(0, i + 1).drop_last() =~= lv.subrange(0, i as int));
        let mut l = sub_vec(&lines[i], 0, lines[i].len());
        assert(l@ =~= lv[i as int]);
        out.append(&mut l);
        out.push('\n');
        i = i + 1;
    }
    assert(lv.subrange(0, lines.len() as int) =~= lv);
    string_of(&out)
}

/// The new `dlls.txt` text once the given libraries are enabled: each one's
/// first line (commented or not, matched ignoring ASCII case) becomes the
/// bare name, and a name with no line is appended. `None` when no library
/// is given, so that the file is left alone.
pub fn update_dlls_txt(lines: &Vec<String>, dll_names: &Vec<String>) -> (r: Option<String>)
    ensures
        dll_names@.len() == 0 ==> r is None,
        dll_names@.len() > 0 ==> (r matches Some(t) && t@ == file_text(enable_all(views(lines@), views(dll_names@)))),
{
    if dll_names.len() == 0 {
        return None;
    }
    let mut ls = to_chars_all(lines);
    let names = to_chars_all(dll_names);
    let ghost nv = views(dll_names@);
    let mut k: usize = 0;
    assert(nv.subrange(0, 0) =~= seq![]);
    while k < names.len()
        invariant
            k <= names.len(),
            names@.map_values(|x: Vec<char>| x@) == nv,
            ls@.map_values(|x: Vec<char>| x@) == enable_all(views(lines@), nv.subrange(0, k as int)),
        decreases names.len() - k,
    {
        assert(nv.subrange(0, k + 1).drop_last() =~= nv.subrange(0, k as int));
        assert(names@[k as int]@ == nv[k as int]);
        enable_one_exec(&mut ls, &names[k]);
        k = k + 1;
    }
    assert(nv.subrange(0, names.len() as int) =~= nv);
    Some(text_of(&ls))
}

/// Some name of the list matches the entry, ignoring ASCII case.
pub open spec fn listed(names: Seq<Seq<char>>, e: Seq<char>) -> bool {
    exists|i: int| 0 <= i < names.len() && eq_ic(#[trigger] names[i], e)
}

/// The lines kept when the named libraries are unregistered: blank lines and
/// lines naming other libraries.
pub open spec fn kept_lines(lines: Seq<Seq<char>>, names: Seq<Seq<char>>) -> Seq<Seq<char>>
    decreases lines.len(),
{
    if lines.len() == 0 {
        seq![]
    } else if line_entry(lines.last()) matches Some(e) && listed(names, e) {
        kept_lines(lines.drop_last(), names)
    } else {
        kept_lines(lines.drop_last(), names).push(lines.last())
    }
}

fn is_listed(names: &Vec<Vec<char>>, e: &Vec<char>) -> (r: bool)
    ensures
        r == listed(names@.map_values(|x: Vec<char>| x@), e@),
{
    let ghost nv = names@.map_values(|x: Vec<char>| x@);
    let mut i: usize = 0;
    while i < names.len()
        invariant
            i <= names.len(),
            nv == names@.map_values(|x: Vec<char>| x@),
            forall|j: int| 0 <= j < i ==> !eq_ic(#[trigger] nv[j], e@),
        decreases names.len() - i,
    {
        assert(names@[i as int]@ == nv[i as int]);
        if eq_ic_vec(&names[i], e) {
            assert(eq_ic(nv[i as int], e@));
            return true;
        }
        i = i + 1;
    }
    false
}

/// The new `dlls.txt` text once the given libraries are unregistered: every
/// line naming one of them (commented or not, ignoring ASCII case) is
/// dropped. `None` when no library is given.
pub fn remove_dlls_txt_entries(lines: &Vec<String>, dll_names: &Vec<String>) -> (r: Option<String>)
    ensures
        dll_names@.len() == 0 ==> r is None,
        dll_names@.len() > 0 ==> (r matches Some(t) && t@ == file_text(kept_lines(views(lines@), views(dll_names@)))),
{
    if dll_names.len() == 0 {
        return None;
    }
    let ls = to_chars_all(lines);
    let names = to_chars_all(dll_names);
    let ghost lv = views(lines@);
    let ghost nv = views(dll_names@);
    let mut kept: Vec<Vec<char>> = Vec::new();
    let mut i: usize = 0;
    assert(lv.subrange(0, 0) =~= seq![]);
    assert(kept@.map_values(|x: Vec<char>| x@) =~= kept_lines(lv.subrange(0, 0), nv));
    while i < ls.len()
        invariant
            i <= ls.len(),
            ls@.map_values(|x: Vec<char>| x@) == lv,
            names@.map_values(|x: Vec<char>| x@) == nv,
            kept@.map_values(|x: Vec<char>| x@) == kept_lines(lv.subrange(0, i as int), nv),
        decreases ls.len() - i,
    {
        assert(lv.subrange(0, i + 1).drop_last() =~= lv.subrange(0, i as int));
        assert(ls@[i as int]@ == lv[i as int]);
        let drop = match entry_of(&ls[i]) {
            Some(e) => is_listed(&names, &e),
            None => false,
        };
        if !drop {
            let l = sub_vec(&ls[i], 0, ls[i].len());
            assert(l@ =~= lv[i as int]);
            kept.push(l);
        }
        assert(kept@.map_values(|x: Vec<char>| x@) =~= kept_lines(lv.subrange(0, i + 1), nv));
        i = i + 1;
    }
    assert(lv.subrange(0, ls.len() as int) =~= lv);
    Some(text_of(&kept))
}

/// The wanted form of a listed entry: `# name` when disabled, else `name`.
pub open spec fn desired_line(e: Seq<char>, commented: bool) -> Seq<char> {
    if commented {
        "# "@ + e
    } else {
        e
    }
}

/// A line naming a listed library is rewritten to its wanted form when its
/// trimmed text differs from it.
pub open spec fn line_rewrite(l: Seq<char>, names: Seq<Seq<char>>, commented: bool) -> Option<Seq<char>> {
    match line_entry(l) {
        Some(e) => if listed(names, e) && trim(l) != desired_line(e, commented) {
            Some(desired_line(e, commented))
        } else {
            None
        },
        None => None,
    }
}

pub open spec fn rewritten(lines: Seq<Seq<char>>, names: Seq<Seq<char>>, commented: bool) -> Seq<Seq<char>> {
    Seq::new(lines.len(), |i: int| match line_rewrite(lines[i], names, commented) {
        Some(d) => d,
        None => lines[i],
    })
}

pub open spec fn rewrite_count(lines: Seq<Seq<char>>, names: Seq<Seq<char>>, commented: bool) -> nat
    decreases lines.len(),
{
    if lines.len() == 0 {
        0
    } else {
        rewrite_count(lines.drop_last(), names, commented) + if line_rewrite(lines.last(), names, commented) is Some {
            1nat
        } else {
            0nat
        }
    }
}

/// The names that no line names, in order.
pub open spec fn unlisted_names(lines: Seq<Seq<char>>, names: Seq<Seq<char>>) -> Seq<Seq<char>>
    decreases names.len(),
{
    if names.len() == 0 {
        seq![]
    } else if entry_index(lines, names.last()) is None {
        unlisted_names(lines, names.drop_last()).push(names.last())
    } else {
        unlisted_names(lines, names.drop_last())
    }
}

pub open spec fn toggled_lines(lines: Seq<Seq<char>>, names: Seq<Seq<char>>, commented: bool) -> Seq<Seq<char>> {
    if commented {
        rewritten(lines, names, commented)
    } else {
        rewritten(lines, names, commented) + unlisted_names(lines, names)
    }
}

pub open spec fn toggle_count(lines: Seq<Seq<char>>, names: Seq<Seq<char>>, commented: bool) -> nat {
    rewrite_count(lines, names, commented) + if commented { 0 } else { unlisted_names(lines, names).len() }
}

/// Comments out (or re-enables) the lines of the given libraries in
/// `dlls.txt`; re-enabling also appends names that have no line. Returns the
/// new text, when anything changed, and the number of changes.
pub fn set_dlls_txt_entries_commented(lines: &Vec<String>, dll_names: &Vec<String>, commented: bool) -> (r: (
    Option<String>,
    usize,
))
    requires
        lines@.len() + dll_names@.len() <= usize::MAX,
    ensures
        dll_names@.len() == 0 ==> r.0 is None && r.1 == 0,
        dll_names@.len() > 0 ==> r.1 == toggle_count(views(lines@), views(dll_names@), commented),
        dll_names@.len() > 0 && r.1 > 0 ==> (r.0 matches Some(t) && t@ == file_text(
            toggled_lines(views(lines@), views(dll_names@), commented),
        )),
        r.1 == 0 ==> r.0 is None,
{
    if dll_names.len() == 0 {
        return (None, 0);
    }
    let ls = to_chars_all(lines);
    let names = to_chars_all(dll_names);
    let ghost lv = views(lines@);
    let ghost nv = views(dll_names@);
    let mut out: Vec<Vec<char>> = Vec::new();
    let mut changed: usize = 0;
    let mut i: usize = 0;
    assert(lv.subrange(0, 0) =~= seq![]);
    while i < ls.len()
        invariant
            i <= ls.len(),
            ls@.len() == lines@.len(),
            ls@.map_values(|x: Vec<char>| x@) == lv,
            names@.map_values(|x: Vec<char>| x@) == nv,
            out@.map_values(|x: Vec<char>| x@) == rewritten(lv, nv, commented).subrange(0, i as int),
            changed == rewrite_count(lv.subrange(0, i as int), nv, commented),
            changed <= i,
        decreases ls.len() - i,
    {
        assert(lv.subrange(0, i + 1).drop_last() =~= lv.subrange(0, i as int));
        assert(ls@[i as int]@ == lv[i as int]);
        let mut line = sub_vec(&ls[i], 0, ls[i].len());
        assert(line@ =~= lv[i as int]);
        if let Some(e) = entry_of(&ls[i]) {
            if is_listed(&names, &e) {
                let desired = if commented {
                    let mut d = chars_of("# ");
                    let mut ec = sub_vec(&e, 0, e.len());
                    d.append(&mut ec);
                    assert(d@ =~= "# "@ + e@);
                    d
                } else {
                    sub_vec(&e, 0, e.len())
                };
                assert(desired@ =~= desired_line(e@, commented));
                if !crate::text::seq_eq(&trim_vec(&ls[i]), &desired) {
                    line = desired;
                    changed = changed + 1;
                }
            }
        }
        assert(line@ == rewritten(lv, nv, commented)[i as int]);
        let ghost prev = out@.map_values(|x: Vec<char>| x@);
        let ghost lv_i = line@;
        out.push(line);
        assert(out@.map_values(|x: Vec<char>| x@) =~= prev.push(lv_i));
        assert(rewritten(lv, nv, commented).subrange(0, i + 1) =~= rewritten(lv, nv, commented).subrange(0, i as int).push(lv_i));
        i = i + 1;
    }
    assert(lv.subrange(0, ls.len() as int) =~= lv);
    assert(rewritten(lv, nv, commented).subrange(0, ls.len() as int) =~= rewritten(lv, nv, commented));
    if !commented {
        let mut k: usize = 0;
        let ghost base = out@.map_values(|x: Vec<char>| x@);
        assert(nv.subrange(0, 0) =~= seq![]);
        assert(base + unlisted_names(lv, nv.subrange(0, 0)) =~= base);
        while k < names.len()
            invariant
                k <= names.len(),
                names@.len() == dll_names@.len(),
                ls@.len() == lines@.len(),
                lines@.len() + dll_names@.len() <= usize::MAX,
                ls@.map_values(|x: Vec<char>| x@) == lv,
                names@.map_values(|x: Vec<char>| x@) == nv,
                out@.map_values(|x: Vec<char>| x@) == base + unlisted_names(lv, nv.subrange(0, k as int)),
                changed == rewrite_count(lv, nv, commented) + unlisted_names(lv, nv.subrange(0, k as int)).len(),
                changed <= ls@.len() + k,
            decreases names.len() - k,
        {
            assert(nv.subrange(0, k + 1).drop_last() =~= nv.subrange(0, k as int));
            assert(names@[k as int]@ == nv[k as int]);
            assert(nv.subrange(0, k + 1).last() == nv[k as int]);
            if !any_line_names(&ls, &names[k]) {
                let n = sub_vec(&names[k], 0, names[k].len());
                assert(n@ =~= nv[k as int]);
                let ghost prev = out@.map_values(|x: Vec<char>| x@);
                out.push(n);
                changed = changed + 1;
                assert(out@.map_values(|x: Vec<char>| x@) =~= prev.push(nv[k as int]));
                assert(unlisted_names(lv, nv.subrange(0, k + 1)) == unlisted_names(lv, nv.subrange(0, k as int)).push(nv[k as int]));
                assert(out@.map_values(|x: Vec<char>| x@) =~= base + unlisted_names(lv, nv.subrange(0, k + 1)));
            }
            k = k + 1;
        }
        assert(nv.subrange(0, names.len() as int) =~= nv);
    }
    if changed > 0 {
        (Some(text_of(&out)), changed)
    } else {
        (None, 0)
    }
}

fn any_line_names(lines: &Vec<Vec<char>>, dll: &Vec<char>) -> (r: bool)
    ensures
        r == (entry_index(lines@.map_values(|x: Vec<char>| x@), dll@) is Some),
{
    let ghost lv = lines@.map_values(|x: Vec<char>| x@);
    let mut i: usize = 0;
    assert(lv.subrange(0, 0) =~= seq![]);
    while i < lines.len()
        invariant
            i <= lines.len(),
            lv == lines@.map_values(|x: Vec<char>| x@),
            entry_index(lv.subrange(0, i as int), dll@) is None,
        decreases lines.len() - i,
    {
        assert(lv.subrange(0, i + 1).drop_last() =~= lv.subrange(0, i as int));
        assert(lines@[i as int]@ == lv[i as int]);
        if line_names(&lines[i], dll) {
            proof {
                lemma_entry_prefix(lv, dll@, i + 1);
            }
            return true;
        }
        i = i + 1;
    }
    assert(lv.subrange(0, lines.len() as int) =~= lv);
    false
}

} // verus!
