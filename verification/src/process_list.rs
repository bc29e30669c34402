//! The list of running processes, and the icons that are remembered for it.
use crate::text::{lowercase, lowercase_of, not_after, text_le, text_le_total, text_le_transitive};
use vstd::prelude::*;

verus! {

/// A process as it is shown.
#[derive(Debug, PartialEq, Eq)]
pub struct ProcessInfo {
    pub pid: u32,
    pub name: String,
    pub exe_path: String,
    pub icon: Option<String>,
}

impl Clone for ProcessInfo {
    fn clone(&self) -> (r: ProcessInfo)
        ensures
            r == *self,
    {
        ProcessInfo {
            pid: self.pid,
            name: self.name.clone(),
            exe_path: self.exe_path.clone(),
            icon: self.icon.clone(),
        }
    }
}

/// A process as the system knows it; the path is empty where it is not known.
#[derive(Debug, PartialEq, Eq)]
pub struct RawProcess {
    pub pid: u32,
    pub name: String,
    pub exe_path: String,
}

/// The processes' numbers.
pub open spec fn pids_of(processes: Seq<ProcessInfo>) -> Seq<u32> {
    processes.map_values(|p: ProcessInfo| p.pid)
}

/// The numbers of processes as the system knows them.
pub open spec fn raw_pids(raw: Seq<RawProcess>) -> Seq<u32> {
    raw.map_values(|p: RawProcess| p.pid)
}

/// The processes that have a name, in the same order.
pub open spec fn named(raw: Seq<RawProcess>) -> Seq<RawProcess> {
    raw.filter(|p: RawProcess| p.name@.len() > 0)
}

/// The processes that have a name, in the same order.
pub fn named_processes(raw: Vec<RawProcess>) -> (r: Vec<RawProcess>)
    ensures
        r@ == named(raw@),
{
    let ghost has_name = |p: RawProcess| p.name@.len() > 0;
    let mut r: Vec<RawProcess> = Vec::new();
    assert(raw@.take(0).filter(has_name) =~= Seq::<RawProcess>::empty()) by {
        reveal(Seq::filter);
    }
    for process in iter: raw
        invariant
            iter.seq() == raw@,
            has_name == (|p: RawProcess| p.name@.len() > 0),
            r@ == raw@.take(iter.index() as int).filter(has_name),
    {
        proof {
            reveal(Seq::filter);
            assert(raw@.take(iter.index() + 1).drop_last() =~= raw@.take(iter.index() as int));
        }
        if !process.name.as_str().is_empty() {
            r.push(process);
        }
    }
    assert(raw@.take(raw@.len() as int) =~= raw@);
    r
}

/// What a process is sorted by.
pub open spec fn sort_key(p: ProcessInfo) -> Seq<char> {
    lowercase_of(p.name@)
}

/// Those of the processes with the key, in the same order.
pub open spec fn with_key(ps: Seq<ProcessInfo>, key: Seq<char>) -> Seq<ProcessInfo> {
    ps.filter(|p: ProcessInfo| sort_key(p) == key)
}

/// Whether the keys ascend.
pub open spec fn is_sorted(ps: Seq<ProcessInfo>) -> bool {
    forall|i: int, j: int|
        0 <= i <= j < ps.len() ==> text_le(sort_key(#[trigger] ps[i]), sort_key(#[trigger] ps[j]))
}

/// Whether an item has the key.
pub open spec fn key_is(key: Seq<char>) -> spec_fn((String, ProcessInfo)) -> bool {
    |item: (String, ProcessInfo)| item.0@ == key
}

/// Those of the items with the key, in the same order.
pub open spec fn items_with_key(
    items: Seq<(String, ProcessInfo)>,
    key: Seq<char>,
) -> Seq<(String, ProcessInfo)> {
    items.filter(key_is(key))
}

/// Whether the keys of the items ascend.
pub open spec fn keys_ascend(items: Seq<(String, ProcessInfo)>) -> bool {
    forall|i: int, j: int|
        0 <= i <= j < items.len() ==> text_le((#[trigger] items[i]).0@, (#[trigger] items[j]).0@)
}

/// Where an item with the key goes behind those that do not come after it.
fn place_for(items: &Vec<(String, ProcessInfo)>, key: &String) -> (at: usize)
    requires
        keys_ascend(items@),
    ensures
        at <= items.len(),
        forall|i: int| 0 <= i < at ==> text_le((#[trigger] items@[i]).0@, key@),
        forall|i: int| at <= i < items.len() ==> !text_le((#[trigger] items@[i]).0@, key@),
{
    let mut at: usize = items.len();
    while at > 0 && !not_after(items[at - 1].0.as_str(), key.as_str())
        invariant
            at <= items.len(),
            forall|i: int| at <= i < items.len() ==> !text_le((#[trigger] items@[i]).0@, key@),
        decreases at,
    {
        at = at - 1;
    }
    proof {
        assert forall|i: int| 0 <= i < at implies text_le((#[trigger] items@[i]).0@, key@) by {
            text_le_transitive(items@[i].0@, items@[at - 1].0@, key@);
        }
    }
    at
}

proof fn lemma_place_keeps_order(
    items: Seq<(String, ProcessInfo)>,
    item: (String, ProcessInfo),
    at: int,
)
    requires
        keys_ascend(items),
        0 <= at <= items.len(),
        forall|i: int| 0 <= i < at ==> text_le((#[trigger] items[i]).0@, item.0@),
        forall|i: int| at <= i < items.len() ==> !text_le((#[trigger] items[i]).0@, item.0@),
    ensures
        keys_ascend(items.insert(at, item)),
        forall|key: Seq<char>| #[trigger]
            items_with_key(items.insert(at, item), key) == items_with_key(items.push(item), key),
{
    let r = items.insert(at, item);
    assert forall|i: int, j: int| 0 <= i <= j < r.len() implies text_le(
        (#[trigger] r[i]).0@,
        (#[trigger] r[j]).0@,
    ) by {
        let x = if i < at {
            items[i]
        } else if i == at {
            item
        } else {
            items[i - 1]
        };
        let y = if j < at {
            items[j]
        } else if j == at {
            item
        } else {
            items[j - 1]
        };
        assert(r[i] == x && r[j] == y);
        text_le_total(x.0@, y.0@);
    }
    assert forall|key: Seq<char>|
        items_with_key(items.insert(at, item), key) == items_with_key(items.push(item), key) by {
        let pred = key_is(key);
        let head = items.take(at);
        let tail = items.skip(at);
        let one = seq![item];
        assert(r =~= head + (one + tail));
        assert(items.push(item) =~= head + (tail + one));
        Seq::filter_distributes_over_add(head, one + tail, pred);
        Seq::filter_distributes_over_add(head, tail + one, pred);
        Seq::filter_distributes_over_add(one, tail, pred);
        Seq::filter_distributes_over_add(tail, one, pred);
        if item.0@ == key {
            assert forall|i: int| 0 <= i < tail.len() implies !pred(tail[i]) by {
                assert(tail[i] == items[at + i]);
                text_le_total(key, key);
            }
            tail.lemma_all_neg_filter_empty(pred);
            assert(tail.filter(pred).len() == 0);
            assert(one.filter(pred) + tail.filter(pred) =~= tail.filter(pred) + one.filter(pred));
        } else {
            assert(one.filter(pred).len() == 0) by {
                one.lemma_all_neg_filter_empty(pred);
            }
            assert(one.filter(pred) + tail.filter(pred) =~= tail.filter(pred) + one.filter(pred));
        }
    }
}

/// Sorts items by their keys; items with the same key keep their order.
pub fn sort_keyed(items: Vec<(String, ProcessInfo)>) -> (r: Vec<(String, ProcessInfo)>)
    ensures
        r.len() == items.len(),
        keys_ascend(r@),
        forall|key: Seq<char>| #[trigger] items_with_key(r@, key) == items_with_key(items@, key),
{
    let mut r: Vec<(String, ProcessInfo)> = Vec::new();
    let ghost all = items@;
    assert(all.take(0) =~= r@);
    for item in iter: items
        invariant
            iter.seq() == all,
            r.len() == iter.index(),
            keys_ascend(r@),
            forall|key: Seq<char>| #[trigger]
                items_with_key(r@, key) == items_with_key(all.take(iter.index() as int), key),
    {
        let at = place_for(&r, &item.0);
        proof {
            let n = iter.index() as int;
            lemma_place_keeps_order(r@, item, at as int);
            assert forall|key: Seq<char>| #[trigger]
                items_with_key(r@.insert(at as int, item), key) == items_with_key(
                    all.take(n + 1),
                    key,
                ) by {
                let pred = key_is(key);
                assert(all.take(n + 1) =~= all.take(n).push(item));
                r@.lemma_filter_push(item, pred);
                all.take(n).lemma_filter_push(item, pred);
                assert(items_with_key(r@, key) == items_with_key(all.take(n), key));
                assert(items_with_key(r@.push(item), key) == items_with_key(
                    all.take(n).push(item),
                    key,
                ));
            }
        }
        r.insert(at, item);
    }
    assert(all.take(all.len() as int) =~= all);
    r
}

/// The processes of the items.
pub open spec fn processes_of(items: Seq<(String, ProcessInfo)>) -> Seq<ProcessInfo> {
    items.map_values(|item: (String, ProcessInfo)| item.1)
}

/// Whether every item has the key that its process is sorted by.
pub open spec fn keyed_by_name(items: Seq<(String, ProcessInfo)>) -> bool {
    forall|i: int| 0 <= i < items.len() ==> (#[trigger] items[i]).0@ == sort_key(items[i].1)
}

proof fn lemma_with_key(items: Seq<(String, ProcessInfo)>, key: Seq<char>)
    requires
        keyed_by_name(items),
    ensures
        with_key(processes_of(items), key) == processes_of(items_with_key(items, key)),
    decreases items.len(),
{
    reveal(Seq::filter);
    if items.len() > 0 {
        let rest = items.drop_last();
        lemma_with_key(rest, key);
        assert(processes_of(items).drop_last() =~= processes_of(rest));
        assert(processes_of(items).last() == items.last().1);
        assert(items.last() == items[items.len() - 1]);
        if items.last().0@ == key {
            assert(processes_of(items_with_key(rest, key).push(items.last())) =~= processes_of(
                items_with_key(rest, key),
            ).push(items.last().1));
        }
    } else {
        assert(processes_of(items) =~= Seq::<ProcessInfo>::empty());
        assert(processes_of(items_with_key(items, key)) =~= Seq::<ProcessInfo>::empty());
    }
}

proof fn lemma_sorting_keeps_keys(
    before: Seq<(String, ProcessInfo)>,
    after: Seq<(String, ProcessInfo)>,
)
    requires
        keyed_by_name(before),
        forall|key: Seq<char>| #[trigger]
            items_with_key(after, key) == items_with_key(before, key),
    ensures
        keyed_by_name(after),
{
    broadcast use vstd::seq_lib::group_filter_ensures;

    assert forall|i: int| 0 <= i < after.len() implies (#[trigger] after[i]).0@ == sort_key(
        after[i].1,
    ) by {
        let key = after[i].0@;
        let pred = key_is(key);
        assert(pred(after[i]));
        assert(items_with_key(after, key).contains(after[i]));
        assert(items_with_key(before, key).contains(after[i]));
        before.lemma_filter_contains_rev(pred, after[i]);
        assert(before.contains(after[i]));
    }
}

/// Sorts processes by their names, whatever the case of the letters; those whose names differ in
/// nothing else keep their order.
pub fn sort_processes(processes: Vec<ProcessInfo>) -> (r: Vec<ProcessInfo>)
    ensures
        r.len() == processes.len(),
        is_sorted(r@),
        forall|key: Seq<char>| #[trigger] with_key(r@, key) == with_key(processes@, key),
{
    let ghost all = processes@;
    let mut items: Vec<(String, ProcessInfo)> = Vec::new();
    for process in iter: processes
        invariant
            iter.seq() == all,
            keyed_by_name(items@),
            processes_of(items@) =~= all.take(iter.index() as int),
    {
        let key = lowercase(process.name.as_str());
        proof {
            let n = iter.index() as int;
            assert(all.take(n + 1) =~= all.take(n).push(process));
            assert(processes_of(items@.push((key, process))) =~= processes_of(items@).push(process));
        }
        items.push((key, process));
    }
    let ghost before = items@;
    assert(all.take(all.len() as int) =~= all);
    let sorted = sort_keyed(items);
    let ghost after = sorted@;
    proof {
        lemma_sorting_keeps_keys(before, after);
    }
    let mut r: Vec<ProcessInfo> = Vec::new();
    for item in iter: sorted
        invariant
            iter.seq() == after,
            r@ =~= processes_of(after).take(iter.index() as int),
    {
        r.push(item.1);
    }
    proof {
        assert(r@ =~= processes_of(after));
        assert forall|key: Seq<char>| #[trigger] with_key(r@, key) == with_key(all, key) by {
            lemma_with_key(before, key);
            lemma_with_key(after, key);
            assert(items_with_key(after, key) == items_with_key(before, key));
        }
        assert forall|i: int, j: int| 0 <= i <= j < r@.len() implies text_le(
            sort_key(#[trigger] r@[i]),
            sort_key(#[trigger] r@[j]),
        ) by {
            assert(after[i].0@ == sort_key(after[i].1));
            assert(after[j].0@ == sort_key(after[j].1));
        }
    }
    r
}

/// Sorting neither adds nor drops a process: each occurs as often as before.
pub proof fn sorting_keeps_processes(before: Seq<ProcessInfo>, after: Seq<ProcessInfo>)
    requires
        forall|key: Seq<char>| #[trigger] with_key(after, key) == with_key(before, key),
    ensures
        after.to_multiset() == before.to_multiset(),
        forall|process: ProcessInfo| #[trigger]
            after.contains(process) <==> before.contains(process),
{
    broadcast use vstd::seq_lib::group_to_multiset_ensures;

    assert forall|process: ProcessInfo| #[trigger]
        after.to_multiset().count(process) == before.to_multiset().count(process) by {
        let key = sort_key(process);
        let pred = |p: ProcessInfo| sort_key(p) == key;
        assert(with_key(after, key) == after.filter(pred));
        assert(with_key(before, key) == before.filter(pred));
        lemma_filter_count(after, pred, process);
        lemma_filter_count(before, pred, process);
    }
    assert(after.to_multiset() =~= before.to_multiset());
    assert forall|process: ProcessInfo| #[trigger]
        after.contains(process) <==> before.contains(process) by {
        assert(after.contains(process) <==> after.to_multiset().count(process) > 0);
        assert(before.contains(process) <==> before.to_multiset().count(process) > 0);
    }
}

proof fn lemma_filter_count(
    ps: Seq<ProcessInfo>,
    pred: spec_fn(ProcessInfo) -> bool,
    process: ProcessInfo,
)
    requires
        pred(process),
    ensures
        ps.filter(pred).to_multiset().count(process) == ps.to_multiset().count(process),
    decreases ps.len(),
{
    broadcast use vstd::seq_lib::group_to_multiset_ensures;

    reveal(Seq::filter);
    if ps.len() > 0 {
        let rest = ps.drop_last();
        lemma_filter_count(rest, pred, process);
        assert(ps =~= rest.push(ps.last()));
    }
}

/// What is shown of a process: its number, name and path, and its icon if it has a path.
pub open spec fn shown(p: RawProcess, icon: Option<String>) -> ProcessInfo {
    ProcessInfo {
        pid: p.pid,
        name: p.name,
        exe_path: p.exe_path,
        icon: if p.exe_path@.len() > 0 {
            icon
        } else {
            None
        },
    }
}

/// What is shown of processes, each with its icon, in the same order.
pub open spec fn records(raw: Seq<RawProcess>, icons: Seq<Option<String>>) -> Seq<ProcessInfo> {
    Seq::new(raw.len(), |i: int| shown(raw[i], icons[i]))
}

/// The list of processes as it is shown, from those that have a name and what was found of their
/// icons. A process without a path has no icon.
pub fn show_processes(raw: Vec<RawProcess>, icons: Vec<Option<String>>) -> (r: Vec<ProcessInfo>)
    requires
        icons.len() == raw.len(),
    ensures
        r.len() == raw.len(),
        is_sorted(r@),
        forall|key: Seq<char>| #[trigger]
            with_key(r@, key) == with_key(records(raw@, icons@), key),
{
    let ghost all = raw@;
    let mut list: Vec<ProcessInfo> = Vec::new();
    let mut i: usize = 0;
    for process in iter: raw
        invariant
            iter.seq() == all,
            icons.len() == all.len(),
            i == iter.index(),
            list@ =~= records(all, icons@).take(i as int),
    {
        let icon: Option<String> = if process.exe_path.as_str().is_empty() {
            None
        } else {
            icons[i].clone()
        };
        let record = ProcessInfo {
            pid: process.pid,
            name: process.name,
            exe_path: process.exe_path,
            icon,
        };
        assert(record == records(all, icons@)[i as int]);
        list.push(record);
        assert(i < icons.len());
        i = i + 1;
    }
    assert(list@ =~= records(all, icons@));
    sort_processes(list)
}

proof fn lemma_map_multiset<A, B>(x: Seq<A>, y: Seq<A>, f: spec_fn(A) -> B)
    requires
        x.to_multiset() == y.to_multiset(),
    ensures
        x.map_values(f).to_multiset() == y.map_values(f).to_multiset(),
    decreases x.len(),
{
    broadcast use vstd::seq_lib::group_to_multiset_ensures;

    assert(x.len() == x.to_multiset().len());
    assert(y.len() == y.to_multiset().len());
    if x.len() > 0 {
        let rest = x.drop_last();
        let last = x.last();
        assert(x =~= rest.push(last));
        assert(x.contains(x[x.len() - 1]));
        assert(y.to_multiset().count(last) > 0);
        assert(y.contains(last));
        let j = choose|j: int| 0 <= j < y.len() && y[j] == last;
        let other = y.remove(j);
        assert(other.to_multiset() =~= y.to_multiset().remove(last));
        assert(rest.to_multiset() =~= x.to_multiset().remove(last)) by {
            assert(x.to_multiset() =~= rest.to_multiset().insert(last));
        }
        lemma_map_multiset(rest, other, f);
        assert(x.map_values(f) =~= rest.map_values(f).push(f(last)));
        assert(y.map_values(f) =~= other.map_values(f).insert(j, f(last)));
        assert(other.map_values(f).insert(j, f(last)).to_multiset() =~= other.map_values(
            f,
        ).to_multiset().insert(f(last))) by {
            vstd::seq_lib::to_multiset_insert(other.map_values(f), j, f(last));
        }
    } else {
        assert(x =~= y);
    }
}

/// The list shows the processes that have a name and no others, each as often as the system lists
/// it, in the order of their names; none without a path has an icon.
pub proof fn list_shows_named_processes(
    raw: Seq<RawProcess>,
    icons: Seq<Option<String>>,
    list: Seq<ProcessInfo>,
)
    requires
        icons.len() == named(raw).len(),
        is_sorted(list),
        forall|key: Seq<char>| #[trigger]
            with_key(list, key) == with_key(records(named(raw), icons), key),
    ensures
        list.to_multiset() == records(named(raw), icons).to_multiset(),
        pids_of(list).to_multiset() == raw_pids(named(raw)).to_multiset(),
        list.len() == named(raw).len(),
        forall|i: int|
            0 <= i < list.len() ==> {
                &&& (#[trigger] list[i]).name@.len() > 0
                &&& list[i].exe_path@.len() == 0 ==> list[i].icon is None
                &&& exists|j: int|
                    0 <= j < named(raw).len() && list[i] == shown(
                        #[trigger] named(raw)[j],
                        icons[j],
                    )
            },
{
    broadcast use vstd::seq_lib::group_to_multiset_ensures;
    broadcast use vstd::seq_lib::group_filter_ensures;

    let rs = records(named(raw), icons);
    sorting_keeps_processes(rs, list);
    lemma_map_multiset(list, rs, |p: ProcessInfo| p.pid);
    assert(pids_of(rs) =~= raw_pids(named(raw)));
    assert(list.len() == list.to_multiset().len());
    assert(rs.len() == rs.to_multiset().len());
    assert forall|i: int| 0 <= i < list.len() implies {
        &&& (#[trigger] list[i]).name@.len() > 0
        &&& list[i].exe_path@.len() == 0 ==> list[i].icon is None
        &&& exists|j: int|
            0 <= j < named(raw).len() && list[i] == shown(#[trigger] named(raw)[j], icons[j])
    } by {
        assert(list.contains(list[i]));
        assert(rs.contains(list[i]));
        let j = choose|j: int| 0 <= j < rs.len() && rs[j] == list[i];
        let p = named(raw)[j];
        assert(named(raw).contains(p));
        raw.lemma_filter_contains_rev(|p: RawProcess| p.name@.len() > 0, p);
        assert(p.name@.len() > 0);
        assert(list[i] == shown(named(raw)[j], icons[j]));
    }
}

/// What is known of the icon of an executable.
#[derive(Debug, PartialEq, Eq)]
pub enum IconLookup {
    /// There is no path, and so no icon.
    NoPath,
    /// It was extracted before.
    Known(String),
    /// It is to be extracted.
    Extract,
}

/// The icons that were extracted, by the path of the executable.
pub struct IconCache {
    entries: Vec<(String, String)>,
}

impl View for IconCache {
    type V = Map<Seq<char>, Seq<char>>;

    closed spec fn view(&self) -> Map<Seq<char>, Seq<char>> {
        icons_of(self.entries@)
    }
}

/// What a list of paths and icons holds; of a path that occurs twice, the later icon.
pub open spec fn icons_of(entries: Seq<(String, String)>) -> Map<Seq<char>, Seq<char>>
    decreases entries.len(),
{
    if entries.len() == 0 {
        Map::empty()
    } else {
        icons_of(entries.drop_last()).insert(entries.last().0@, entries.last().1@)
    }
}

proof fn lemma_icon_at(entries: Seq<(String, String)>, i: int)
    requires
        0 <= i < entries.len(),
        forall|j: int| i < j < entries.len() ==> (#[trigger] entries[j]).0@ != entries[i].0@,
    ensures
        icons_of(entries).contains_key(entries[i].0@),
        icons_of(entries)[entries[i].0@] == entries[i].1@,
    decreases entries.len(),
{
    if i < entries.len() - 1 {
        let rest = entries.drop_last();
        assert forall|j: int| i < j < rest.len() implies (#[trigger] rest[j]).0@ != rest[i].0@ by {
            assert(entries[j].0@ != entries[i].0@);
        }
        lemma_icon_at(rest, i);
        assert(entries[entries.len() - 1].0@ != entries[i].0@);
    }
}

proof fn lemma_no_icon(entries: Seq<(String, String)>, path: Seq<char>)
    requires
        forall|j: int| 0 <= j < entries.len() ==> (#[trigger] entries[j]).0@ != path,
    ensures
        !icons_of(entries).contains_key(path),
    decreases entries.len(),
{
    if entries.len() > 0 {
        let rest = entries.drop_last();
        assert forall|j: int| 0 <= j < rest.len() implies (#[trigger] rest[j]).0@ != path by {
            assert(entries[j].0@ != path);
        }
        lemma_no_icon(rest, path);
        assert(entries[entries.len() - 1].0@ != path);
    }
}

impl IconCache {
    /// A cache without icons.
    pub fn new() -> (r: IconCache)
        ensures
            r@ == Map::<Seq<char>, Seq<char>>::empty(),
    {
        IconCache { entries: Vec::new() }
    }

    /// What is known of the icon of an executable.
    pub fn lookup(&self, exe_path: &String) -> (r: IconLookup)
        ensures
            exe_path@.len() == 0 ==> r is NoPath,
            exe_path@.len() > 0 && self@.contains_key(exe_path@) ==> (r matches IconLookup::Known(
                icon,
            ) && icon@ == self@[exe_path@]),
            exe_path@.len() > 0 && !self@.contains_key(exe_path@) ==> r is Extract,
    {
        if exe_path.as_str().is_empty() {
            return IconLookup::NoPath;
        }
        let mut i: usize = self.entries.len();
        while i > 0
            invariant
                i <= self.entries.len(),
                exe_path@.len() > 0,
                forall|j: int|
                    i <= j < self.entries@.len() ==> (#[trigger] self.entries@[j]).0@ != exe_path@,
            decreases i,
        {
            i = i - 1;
            if self.entries[i].0 == *exe_path {
                proof {
                    lemma_icon_at(self.entries@, i as int);
                }
                return IconLookup::Known(self.entries[i].1.clone());
            }
        }
        proof {
            lemma_no_icon(self.entries@, exe_path@);
        }
        IconLookup::Extract
    }

    /// Remembers the icon of an executable, if it could be extracted.
    pub fn learn(&mut self, exe_path: &String, icon: &Option<String>)
        ensures
            final(self)@ == match icon {
                Some(found) => old(self)@.insert(exe_path@, found@),
                None => old(self)@,
            },
    {
        if let Some(found) = icon {
            self.entries.push((exe_path.clone(), found.clone()));
            assert(self.entries@.drop_last() =~= old(self).entries@);
        }
    }
}

} // verus!
