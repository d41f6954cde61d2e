//! Deriving the displayed lists from a directory's entries, and sorting entries.
use vstd::prelude::*;
use crate::path::{names, lemma_names_push};
use crate::text::{has_substring, is_hidden, name_le, lemma_name_le_total, contains_text, is_hidden_name, name_le_exec};

verus! {

/// The entry that stands for the parent directory.
pub open spec fn parent_entry() -> Seq<char> {
    seq!['.', '.', '/']
}

/// The text put before each file name in the displayed list.
pub open spec fn file_marker() -> Seq<char> {
    seq![' ', '-', ' ']
}

/// The filter text, an absent filter being empty.
pub open spec fn filter_text(filter: Option<String>) -> Seq<char> {
    match filter {
        Some(f) => f@,
        None => Seq::empty(),
    }
}

/// A name is displayed when it is not hidden (or hidden names are shown)
/// and holds the filter text.
pub open spec fn keep(name: Seq<char>, filter: Seq<char>, show_hidden: bool) -> bool {
    (show_hidden || !is_hidden(name)) && has_substring(name, filter)
}

/// The names that are displayed, in their order.
pub open spec fn filtered(s: Seq<Seq<char>>, filter: Seq<char>, show_hidden: bool) -> Seq<Seq<char>>
    decreases s.len(),
{
    if s.len() == 0 {
        Seq::empty()
    } else {
        let r = filtered(s.drop_last(), filter, show_hidden);
        if keep(s.last(), filter, show_hidden) {
            r.push(s.last())
        } else {
            r
        }
    }
}

/// The displayed subdirectories: the parent entry first where there is a parent.
pub open spec fn subdirs_view(all: Seq<Seq<char>>, filter: Seq<char>, show_hidden: bool, has_parent: bool) -> Seq<Seq<char>> {
    if has_parent {
        seq![parent_entry()] + filtered(all, filter, show_hidden)
    } else {
        filtered(all, filter, show_hidden)
    }
}

/// The displayed files, each after the file marker.
pub open spec fn files_view(all: Seq<Seq<char>>, filter: Seq<char>, show_hidden: bool) -> Seq<Seq<char>> {
    filtered(all, filter, show_hidden).map_values(|n: Seq<char>| file_marker() + n)
}

/// Each name comes before or equals the next.
pub open spec fn sorted(s: Seq<Seq<char>>) -> bool {
    forall|i: int| 0 <= i < s.len() - 1 ==> name_le(#[trigger] s[i], s[i + 1])
}

/// What the filter keeps of a concatenation is what it keeps of each part,
/// in the same order: filtering keeps the input's order.
pub proof fn lemma_filtered_append(a: Seq<Seq<char>>, b: Seq<Seq<char>>, filter: Seq<char>, show_hidden: bool)
    ensures
        filtered(a + b, filter, show_hidden) == filtered(a, filter, show_hidden) + filtered(b, filter, show_hidden),
    decreases b.len(),
{
    if b.len() == 0 {
        assert(a + b =~= a);
        assert(filtered(a, filter, show_hidden) + filtered(b, filter, show_hidden) =~= filtered(a, filter, show_hidden));
    } else {
        assert((a + b).drop_last() =~= a + b.drop_last());
        lemma_filtered_append(a, b.drop_last(), filter, show_hidden);
        let fa = filtered(a, filter, show_hidden);
        let fb = filtered(b.drop_last(), filter, show_hidden);
        assert((fa + fb).push(b.last()) =~= fa + fb.push(b.last()));
    }
}

/// Every displayed name holds the filter text (and is not hidden unless hidden
/// names are shown), and a name of the input is displayed exactly when it passes.
pub proof fn lemma_filtered_members(s: Seq<Seq<char>>, filter: Seq<char>, show_hidden: bool)
    ensures
        forall|k: int| 0 <= k < filtered(s, filter, show_hidden).len() ==> {
            &&& has_substring(#[trigger] filtered(s, filter, show_hidden)[k], filter)
            &&& (show_hidden || !is_hidden(filtered(s, filter, show_hidden)[k]))
            &&& s.contains(filtered(s, filter, show_hidden)[k])
        },
        forall|x: Seq<char>| s.contains(x) && keep(x, filter, show_hidden) ==> #[trigger] filtered(s, filter, show_hidden).contains(x),
    decreases s.len(),
{
    if s.len() > 0 {
        lemma_filtered_members(s.drop_last(), filter, show_hidden);
        let r = filtered(s.drop_last(), filter, show_hidden);
        assert forall|k: int| 0 <= k < r.len() implies s.contains(#[trigger] r[k]) by {
            let j = choose|j: int| 0 <= j < s.drop_last().len() && s.drop_last()[j] == r[k];
            assert(s[j] == r[k]);
        }
        assert forall|x: Seq<char>| s.contains(x) && keep(x, filter, show_hidden) implies #[trigger] filtered(s, filter, show_hidden).contains(x) by {
            let j = choose|j: int| 0 <= j < s.len() && s[j] == x;
            if j < s.len() - 1 {
                assert(s.drop_last()[j] == x);
                assert(r.contains(x));
                let k = choose|k: int| 0 <= k < r.len() && r[k] == x;
                if keep(s.last(), filter, show_hidden) {
                    assert(r.push(s.last())[k] == x);
                }
            } else {
                assert(r.push(s.last())[r.len() as int] == x);
            }
        }
    }
}

/// An empty filter keeps every name but the hidden ones (unless they are shown).
pub proof fn lemma_empty_filter_keeps(name: Seq<char>, show_hidden: bool)
    ensures
        keep(name, Seq::empty(), show_hidden) == (show_hidden || !is_hidden(name)),
{
    assert(name.subrange(0, 0) =~= Seq::<char>::empty());
    assert(crate::text::occurs_at(name, Seq::empty(), 0));
}

/// The filter keeps a list free of repeated names.
pub proof fn lemma_filtered_no_duplicates(s: Seq<Seq<char>>, filter: Seq<char>, show_hidden: bool)
    requires
        s.no_duplicates(),
    ensures
        filtered(s, filter, show_hidden).no_duplicates(),
    decreases s.len(),
{
    if s.len() > 0 {
        let d = s.drop_last();
        assert(d.no_duplicates());
        lemma_filtered_no_duplicates(d, filter, show_hidden);
        lemma_filtered_members(d, filter, show_hidden);
        let r = filtered(d, filter, show_hidden);
        assert(!d.contains(s.last()));
        assert forall|k: int| 0 <= k < r.len() implies r[k] != s.last() by {
            assert(d.contains(r[k]));
        }
    }
}

/// The filter never lengthens a list.
pub proof fn lemma_filtered_len(s: Seq<Seq<char>>, filter: Seq<char>, show_hidden: bool)
    ensures
        filtered(s, filter, show_hidden).len() <= s.len(),
    decreases s.len(),
{
    if s.len() > 0 {
        lemma_filtered_len(s.drop_last(), filter, show_hidden);
    }
}

/// The names of `all` that the filter keeps, in their order.
pub fn filter_names(all: &Vec<String>, filter: &String, show_hidden: bool) -> (r: Vec<String>)
    ensures
        names(r@) == filtered(names(all@), filter@, show_hidden),
{
    let mut out: Vec<String> = Vec::new();
    let mut i: usize = 0;
    while i < all.len()
        invariant
            i <= all@.len(),
            names(out@) == filtered(names(all@).take(i as int), filter@, show_hidden),
        decreases all@.len() - i,
    {
        let ghost before = names(all@).take(i as int);
        assert(names(all@).take(i + 1).drop_last() =~= before);
        assert(names(all@).take(i + 1).last() == all@[i as int]@);
        let name = &all[i];
        if (show_hidden || !is_hidden_name(name)) && contains_text(name, filter) {
            let c = name.clone();
            proof {
                lemma_names_push(out@, c);
            }
            out.push(c);
        }
        i = i + 1;
    }
    assert(names(all@).take(all@.len() as int) =~= names(all@));
    out
}

/// The displayed subdirectories and files of a directory.
pub fn filter_view(
    all_subdirs: &Vec<String>,
    all_files: &Vec<String>,
    filter: &Option<String>,
    show_hidden: bool,
    has_parent: bool,
) -> (r: (Vec<String>, Vec<String>))
    ensures
        names(r.0@) == subdirs_view(names(all_subdirs@), filter_text(*filter), show_hidden, has_parent),
        names(r.1@) == files_view(names(all_files@), filter_text(*filter), show_hidden),
{
    let empty = String::new();
    let f = match filter {
        Some(f) => f,
        None => &empty,
    };
    let kept = filter_names(all_subdirs, f, show_hidden);
    let subdirs = if has_parent {
        let mut s: Vec<String> = Vec::new();
        let up = String::from_str("../");
        proof {
            reveal_strlit("../");
            lemma_names_push(s@, up);
        }
        assert(up@ =~= parent_entry());
        s.push(up);
        let mut i: usize = 0;
        while i < kept.len()
            invariant
                i <= kept@.len(),
                names(s@) == seq![parent_entry()] + names(kept@).take(i as int),
            decreases kept@.len() - i,
        {
            let c = kept[i].clone();
            proof {
                lemma_names_push(s@, c);
            }
            s.push(c);
            assert(seq![parent_entry()] + names(kept@).take(i + 1) =~= (seq![parent_entry()] + names(kept@).take(i as int)).push(kept@[i as int]@));
            i = i + 1;
        }
        assert(names(kept@).take(kept@.len() as int) =~= names(kept@));
        s
    } else {
        kept
    };
    let kept_files = filter_names(all_files, f, show_hidden);
    let mut files: Vec<String> = Vec::new();
    let marker = " - ";
    proof {
        reveal_strlit(" - ");
    }
    assert(marker@ =~= file_marker());
    let mut i: usize = 0;
    while i < kept_files.len()
        invariant
            i <= kept_files@.len(),
            marker@ == file_marker(),
            names(files@) == names(kept_files@).take(i as int).map_values(|n: Seq<char>| file_marker() + n),
        decreases kept_files@.len() - i,
    {
        let item = String::from_str(marker).concat(kept_files[i].as_str());
        proof {
            lemma_names_push(files@, item);
        }
        files.push(item);
        assert(names(kept_files@).take(i + 1).map_values(|n: Seq<char>| file_marker() + n) =~= names(kept_files@).take(i as int).map_values(|n: Seq<char>| file_marker() + n).push(file_marker() + kept_files@[i as int]@));
        i = i + 1;
    }
    assert(names(kept_files@).take(kept_files@.len() as int) =~= names(kept_files@));
    (subdirs, files)
}

/// The names of a list after inserting one at position `j`.
proof fn lemma_names_insert(v: Seq<String>, j: int, x: String)
    requires
        0 <= j <= v.len(),
    ensures
        names(v.insert(j, x)) == names(v).insert(j, x@),
{
    assert(names(v.insert(j, x)) =~= names(v).insert(j, x@));
}

/// The names of `v` in lexicographic order: the same names, each as often.
pub fn sort_names(v: Vec<String>) -> (r: Vec<String>)
    ensures
        sorted(names(r@)),
        names(r@).to_multiset() == names(v@).to_multiset(),
{
    broadcast use vstd::seq_lib::group_to_multiset_ensures;
    let mut rest = v;
    let mut out: Vec<String> = Vec::new();
    while rest.len() > 0
        invariant
            sorted(names(out@)),
            names(out@).to_multiset().add(names(rest@).to_multiset()) == names(v@).to_multiset(),
        decreases rest@.len(),
    {
        let ghost before = rest@;
        let x = rest.pop().unwrap();
        proof {
            assert(before =~= rest@.push(x));
            lemma_names_push(rest@, x);
        }
        let mut j: usize = 0;
        while j < out.len() && name_le_exec(&out[j], &x)
            invariant
                j <= out@.len(),
                j > 0 ==> name_le(out@[j - 1]@, x@),
            decreases out@.len() - j,
        {
            j = j + 1;
        }
        let ghost o = names(out@);
        proof {
            if j < out@.len() {
                lemma_name_le_total(out@[j as int]@, x@);
            }
            lemma_names_insert(out@, j as int, x);
            vstd::seq_lib::to_multiset_insert(o, j as int, x@);
        }
        out.insert(j, x);
        proof {
            let t = names(out@);
            assert(t == o.insert(j as int, x@));
            assert forall|i: int| 0 <= i < t.len() - 1 implies name_le(#[trigger] t[i], t[i + 1]) by {
                if i < j - 1 {
                    assert(t[i] == o[i] && t[i + 1] == o[i + 1]);
                } else if i == j - 1 {
                    assert(t[i] == o[i] && t[i + 1] == x@);
                } else if i == j {
                    assert(t[i] == x@ && t[i + 1] == o[i]);
                } else {
                    assert(t[i] == o[i - 1] && t[i + 1] == o[i]);
                }
            }
            let r = names(rest@);
            assert(names(before) == r.push(x@));
            r.to_multiset_ensures();
            assert(names(before).to_multiset() == r.to_multiset().insert(x@));
            assert(t.to_multiset() == o.to_multiset().insert(x@));
            assert(o.to_multiset().insert(x@).add(r.to_multiset()) =~= o.to_multiset().add(r.to_multiset().insert(x@)));
        }
    }
    proof {
        assert(names(rest@) =~= Seq::<Seq<char>>::empty());
        assert(names(out@).to_multiset().add(names(rest@).to_multiset()) =~= names(out@).to_multiset());
    }
    out
}

} // verus!
