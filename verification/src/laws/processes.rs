//! The list of processes, by what the system lists and what is shown.
use crate::process_list::{
    is_sorted, list_shows_named_processes, named, records, with_key, ProcessInfo, RawProcess,
};
use crate::text::{lowercase_of, text_le};
use vstd::multiset::Multiset;
use vstd::prelude::*;

verus! {

/// The records of processes, as often as they are listed: each with its number, its name, its path,
/// and the icon at its place, but for those without a path, which have none.
pub open spec fn bag(raw: Seq<RawProcess>, icons: Seq<Option<String>>) -> Multiset<ProcessInfo>
    decreases raw.len(),
{
    if raw.len() == 0 {
        Multiset::empty()
    } else {
        let p = raw.last();
        bag(raw.drop_last(), icons.drop_last()).insert(
            ProcessInfo {
                pid: p.pid,
                name: p.name,
                exe_path: p.exe_path,
                icon: if p.exe_path@.len() == 0 {
                    None
                } else {
                    icons.last()
                },
            },
        )
    }
}

/// The numbers of the processes that have a name, as often as they are listed.
pub open spec fn named_pids(raw: Seq<RawProcess>) -> Multiset<u32>
    decreases raw.len(),
{
    if raw.len() == 0 {
        Multiset::empty()
    } else if raw.last().name@.len() == 0 {
        named_pids(raw.drop_last())
    } else {
        named_pids(raw.drop_last()).insert(raw.last().pid)
    }
}

proof fn lemma_bag(raw: Seq<RawProcess>, icons: Seq<Option<String>>)
    requires
        raw.len() == icons.len(),
    ensures
        records(raw, icons).to_multiset() == bag(raw, icons),
    decreases raw.len(),
{
    broadcast use vstd::seq_lib::group_to_multiset_ensures;

    let rs = records(raw, icons);
    if raw.len() > 0 {
        lemma_bag(raw.drop_last(), icons.drop_last());
        assert(rs.drop_last() =~= records(raw.drop_last(), icons.drop_last()));
        assert(rs =~= rs.drop_last().push(rs.last()));
    } else {
        assert(rs.to_multiset() =~= Multiset::empty());
    }
}

proof fn lemma_named(raw: Seq<RawProcess>)
    ensures
        crate::process_list::raw_pids(named(raw)).to_multiset() == named_pids(raw),
    decreases raw.len(),
{
    broadcast use vstd::seq_lib::group_to_multiset_ensures;

    reveal(Seq::filter);
    if raw.len() > 0 {
        let rest = raw.drop_last();
        lemma_named(rest);
        let before = crate::process_list::raw_pids(named(rest));
        let after = crate::process_list::raw_pids(named(raw));
        if raw.last().name@.len() > 0 {
            assert(named(raw) == named(rest).push(raw.last()));
            assert(after =~= before.push(raw.last().pid));
        } else {
            assert(named(raw) == named(rest));
        }
    } else {
        assert(crate::process_list::raw_pids(named(raw)).to_multiset() =~= Multiset::empty());
    }
}

/// The list that is shown, against what the system lists: it has the numbers of all processes with a
/// name and of no others, each as often; and every record is that of a process with its name, its
/// path and its icon, or without an icon if there is no path. It is in the order of the names in
/// lower case.
pub proof fn the_list_is_what_the_system_lists(
    raw: Seq<RawProcess>,
    icons: Seq<Option<String>>,
    list: Seq<ProcessInfo>,
)
    requires
        icons.len() == named(raw).len(),
        is_sorted(list),
        forall|key: Seq<char>| #[trigger]
            with_key(list, key) == with_key(records(named(raw), icons), key),
    ensures
        crate::process_list::pids_of(list).to_multiset() == named_pids(raw),
        list.to_multiset() == bag(named(raw), icons),
        forall|i: int, j: int|
            0 <= i < j < list.len() ==> text_le(
                lowercase_of((#[trigger] list[i]).name@),
                lowercase_of((#[trigger] list[j]).name@),
            ),
        forall|i: int| 0 <= i < list.len() ==> (#[trigger] list[i]).name@.len() > 0,
{
    list_shows_named_processes(raw, icons, list);
    lemma_bag(named(raw), icons);
    lemma_named(raw);
}

/// Processes whose names are the same in lower case keep their order.
pub proof fn one_name_keeps_its_order(ps: Seq<ProcessInfo>, key: Seq<char>)
    ensures
        with_key(ps, key) == ps.filter(|p: ProcessInfo| lowercase_of(p.name@) == key),
{
    assert((|p: ProcessInfo| crate::process_list::sort_key(p) == key) =~= (|p: ProcessInfo|
        lowercase_of(p.name@) == key));
}

/// A process is kept if and only if it has a name, and the order is kept.
pub proof fn processes_with_a_name_are_kept(raw: Seq<RawProcess>, last: RawProcess)
    ensures
        named(Seq::empty()) == Seq::<RawProcess>::empty(),
        named(raw.push(last)) == if last.name@.len() > 0 {
            named(raw).push(last)
        } else {
            named(raw)
        },
{
    reveal(Seq::filter);
    assert(raw.push(last).drop_last() =~= raw);
}

} // verus!
