//! Which test cases the launcher runs, and with which arguments.
//!
//! The list is a comma-separated string. Empty entries and entries that
//! start with `#` are skipped, and so is an entry whose command line holds
//! no argument at all.

use vstd::prelude::*;
use crate::cmdline::{join_args, law_parse_joined_plain_words, parse_cmd, plain_word, spec_parse_cmd};

verus! {

/// The pieces of `s` between commas: those already closed, and the open one.
pub open spec fn split_scan(s: Seq<char>) -> (Seq<Seq<char>>, Seq<char>)
    decreases s.len(),
{
    if s.len() == 0 {
        (Seq::empty(), Seq::empty())
    } else {
        let (pieces, cur) = split_scan(s.drop_last());
        if s.last() == ',' {
            (pieces.push(cur), Seq::empty())
        } else {
            (pieces, cur.push(s.last()))
        }
    }
}

/// `s` split at every comma; there is always one piece more than commas.
pub open spec fn split_commas(s: Seq<char>) -> Seq<Seq<char>> {
    split_scan(s).0.push(split_scan(s).1)
}

/// An entry is run when it is not empty, is not a comment, and names a
/// command.
pub open spec fn runnable(entry: Seq<char>) -> bool {
    &&& entry.len() > 0
    &&& entry[0] != '#'
    &&& spec_parse_cmd(entry).len() > 0
}

/// The runnable entries of `entries`, in order, each with its arguments.
pub open spec fn spec_plan(entries: Seq<Seq<char>>) -> Seq<(Seq<char>, Seq<Seq<char>>)>
    decreases entries.len(),
{
    if entries.len() == 0 {
        Seq::empty()
    } else {
        let earlier = spec_plan(entries.drop_last());
        let e = entries.last();
        if runnable(e) {
            earlier.push((e, spec_parse_cmd(e)))
        } else {
            earlier
        }
    }
}

pub open spec fn spec_plan_testcases(list: Seq<char>) -> Seq<(Seq<char>, Seq<Seq<char>>)> {
    spec_plan(split_commas(list))
}

fn push_if_runnable(
    plan: &mut Vec<(String, Vec<String>)>,
    entry: String,
    first: Option<char>,
)
    requires
        first == (if entry@.len() > 0 { Some(entry@[0]) } else { None::<char> }),
    ensures
        final(plan).deep_view() == (if runnable(entry@) {
            old(plan).deep_view().push((entry@, spec_parse_cmd(entry@)))
        } else {
            old(plan).deep_view()
        }),
{
    match first {
        None => {},
        Some(c) => {
            if c != '#' {
                let args = parse_cmd(entry.as_str());
                if args.len() > 0 {
                    plan.push((entry, args));
                }
            }
        },
    }
}

/// The test cases of a comma-separated list that the launcher runs, each
/// with the arguments that `parse_cmd` gives for it.
pub fn plan_testcases(list: &str) -> (plan: Vec<(String, Vec<String>)>)
    ensures
        plan.deep_view() == spec_plan_testcases(list@),
{
    let mut plan: Vec<(String, Vec<String>)> = Vec::new();
    let mut entry = String::new();
    let mut first: Option<char> = None;
    let ghost s = list@;

    for c in iter: list.chars()
        invariant
            iter.seq() == s,
            plan.deep_view() == spec_plan(split_scan(s.take(iter.index())).0),
            entry@ == split_scan(s.take(iter.index())).1,
            first == (if entry@.len() > 0 { Some(entry@[0]) } else { None::<char> }),
    {
        assert(s.take(iter.index() + 1).drop_last() =~= s.take(iter.index()));
        let ghost pieces = split_scan(s.take(iter.index())).0;
        if c == ',' {
            assert(pieces.push(entry@).drop_last() =~= pieces);
            let done = entry;
            entry = String::new();
            push_if_runnable(&mut plan, done, first);
            first = None;
        } else {
            if first.is_none() {
                first = Some(c);
            }
            entry.push(c);
        }
    }
    assert(s.take(s.len() as int) =~= s);
    let ghost pieces = split_scan(s).0;
    assert(pieces.push(entry@).drop_last() =~= pieces);
    push_if_runnable(&mut plan, entry, first);
    plan
}

/// Every planned test case is a non-empty, non-comment entry with at least
/// one argument.
pub proof fn law_plan_entries_runnable(entries: Seq<Seq<char>>)
    ensures
        forall|i: int|
            0 <= i < spec_plan(entries).len() ==> {
                &&& runnable(#[trigger] spec_plan(entries)[i].0)
                &&& spec_plan(entries)[i].1 == spec_parse_cmd(spec_plan(entries)[i].0)
            },
    decreases entries.len(),
{
    if entries.len() > 0 {
        let earlier = spec_plan(entries.drop_last());
        law_plan_entries_runnable(entries.drop_last());
        assert forall|i: int| 0 <= i < spec_plan(entries).len() implies {
            &&& runnable(#[trigger] spec_plan(entries)[i].0)
            &&& spec_plan(entries)[i].1 == spec_parse_cmd(spec_plan(entries)[i].0)
        } by {
            if i < earlier.len() {
                assert(spec_plan(entries)[i] == earlier[i]);
            }
        }
    }
}

/// The pieces joined with commas in between.
pub open spec fn join_commas(pieces: Seq<Seq<char>>) -> Seq<char>
    decreases pieces.len(),
{
    if pieces.len() <= 1 {
        if pieces.len() == 0 {
            Seq::empty()
        } else {
            pieces[0]
        }
    } else {
        join_commas(pieces.drop_last()).push(',') + pieces.last()
    }
}

proof fn lemma_split_scan_joins(s: Seq<char>)
    ensures
        join_commas(split_scan(s).0.push(split_scan(s).1)) == s,
        forall|i: int|
            0 <= i < split_scan(s).0.len() ==> !(#[trigger] split_scan(s).0[i]).contains(','),
        !split_scan(s).1.contains(','),
    decreases s.len(),
{
    if s.len() > 0 {
        let p = s.drop_last();
        let c = s.last();
        lemma_split_scan_joins(p);
        let (pieces, cur) = split_scan(p);
        let all = pieces.push(cur);
        if c == ',' {
            let all2 = all.push(Seq::<char>::empty());
            assert(all2.drop_last() =~= all);
            assert(join_commas(all2) =~= join_commas(all).push(',') + Seq::<char>::empty());
            assert(join_commas(all).push(',') =~= s) by {
                assert(p.push(c) =~= s);
            }
            assert forall|i: int| 0 <= i < all.len() implies !(#[trigger] all[i]).contains(',') by {
                if i < pieces.len() {
                    assert(all[i] == pieces[i]);
                }
            }
            assert(!Seq::<char>::empty().contains(','));
        } else {
            let cur2 = cur.push(c);
            let all2 = pieces.push(cur2);
            if pieces.len() == 0 {
                assert(join_commas(all) == cur);
                assert(join_commas(all2) == cur2);
            } else {
                assert(all.drop_last() =~= pieces);
                assert(all2.drop_last() =~= pieces);
                assert(join_commas(all2) =~= join_commas(all).push(c));
            }
            assert(p.push(c) =~= s);
            assert(!cur2.contains(',')) by {
                if cur2.contains(',') {
                    let k = choose|k: int| 0 <= k < cur2.len() && cur2[k] == ',';
                    if k < cur.len() {
                        assert(cur[k] == ',');
                    }
                }
            }
        }
    }
}

/// The entries of a list are the pieces between its commas: none holds a
/// comma, and joined with commas they give back the list.
pub proof fn law_entries_split_at_commas(list: Seq<char>)
    ensures
        join_commas(split_commas(list)) == list,
        forall|i: int|
            0 <= i < split_commas(list).len() ==> !(#[trigger] split_commas(list)[i]).contains(','),
{
    lemma_split_scan_joins(list);
    let (pieces, cur) = split_scan(list);
    assert forall|i: int| 0 <= i < split_commas(list).len() implies !(#[trigger] split_commas(
        list,
    )[i]).contains(',') by {
        if i < pieces.len() {
            assert(split_commas(list)[i] == pieces[i]);
        }
    }
}

/// One more entry in the list adds it to the plan, with its arguments,
/// exactly when it is not empty, does not start with `#`, and has at least
/// one argument; any other entry leaves the plan as it was.
pub proof fn law_plan_takes_each_runnable_entry(entries: Seq<Seq<char>>, e: Seq<char>)
    ensures
        spec_plan(entries.push(e)) == (if e.len() > 0 && e[0] != '#' && spec_parse_cmd(e).len()
            > 0 {
            spec_plan(entries).push((e, spec_parse_cmd(e)))
        } else {
            spec_plan(entries)
        }),
{
    assert(entries.push(e).drop_last() =~= entries);
}

proof fn lemma_split_without_commas(s: Seq<char>)
    requires
        !s.contains(','),
    ensures
        split_scan(s) == (Seq::<Seq<char>>::empty(), s),
    decreases s.len(),
{
    if s.len() > 0 {
        let p = s.drop_last();
        assert(!p.contains(',')) by {
            if p.contains(',') {
                let k = choose|k: int| 0 <= k < p.len() && p[k] == ',';
                assert(s[k] == ',');
            }
        }
        lemma_split_without_commas(p);
        assert(s.last() != ',') by {
            assert(s[s.len() - 1] == s.last());
        }
        assert(p.push(s.last()) =~= s);
    }
}

/// A list that is a single plain word (a program run without arguments,
/// not a comment) plans that word, run with itself as its only argument.
pub proof fn law_single_program_is_planned(w: Seq<char>)
    requires
        plain_word(w),
        !w.contains(','),
        w[0] != '#',
    ensures
        spec_plan_testcases(w) == seq![(w, seq![w])],
{
    lemma_split_without_commas(w);
    let args = seq![w];
    assert forall|i: int| 0 <= i < args.len() implies plain_word(#[trigger] args[i]) by {
        assert(args[i] == w);
    }
    law_parse_joined_plain_words(args);
    assert(join_args(args) == w);
    assert(split_commas(w) =~= seq![w]);
    assert(spec_parse_cmd(w) == seq![w]);
    law_plan_takes_each_runnable_entry(Seq::empty(), w);
    assert(Seq::<Seq<char>>::empty().push(w) =~= seq![w]);
    assert(Seq::<(Seq<char>, Seq<Seq<char>>)>::empty().push((w, seq![w])) =~= seq![
        (w, seq![w]),
    ]);
}

} // verus!
