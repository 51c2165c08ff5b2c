//! Process records, the name match used to find a program's processes, and the
//! process tree that is terminated children first.

use vstd::prelude::*;
use crate::folders::{join_path, joined_path};
use crate::winpath::{file_name, path_file_name};
use crate::text::{
    chars_eq_ignore_ascii_case, chars_of, eq_ignore_case, is_utf16, lemma_eq_ignore_case_equivalence,
    lemma_lossy_decodes_encoding, lemma_until_nul_prefix, string_from_utf16_lossy, until_nul, utf16_encode,
    utf16_lossy,
};

verus! {

/// One entry of a process snapshot.
#[derive(Clone, Debug, PartialEq, Eq)]
pub struct ProcessRecord {
    pub pid: u32,
    pub parent_pid: u32,
    pub name: String,
}

/// `x` is a root, or the child of a process that is in the tree within `d - 1` steps.
pub open spec fn reaches_within(entries: Seq<ProcessRecord>, roots: Seq<u32>, x: u32, d: nat) -> bool
    decreases d,
{
    ||| roots.contains(x)
    ||| (d > 0 && exists|q: int|
        0 <= q < entries.len() && (#[trigger] entries[q]).pid == x
            && reaches_within(entries, roots, entries[q].parent_pid, (d - 1) as nat))
}

/// `x` is one of the roots or a descendant of one of them, following parent ids in `entries`.
pub open spec fn in_process_tree(entries: Seq<ProcessRecord>, roots: Seq<u32>, x: u32) -> bool {
    exists|d: nat| reaches_within(entries, roots, x, d)
}

/// Every process id that `tree` adds after the roots has its parent earlier in `tree`.
pub open spec fn parents_come_first(entries: Seq<ProcessRecord>, roots_len: int, tree: Seq<u32>) -> bool {
    forall|k: int|
        #![trigger tree[k]]
        roots_len <= k < tree.len() ==> exists|q: int|
            0 <= q < entries.len() && (#[trigger] entries[q]).pid == tree[k]
                && tree.take(k).contains(entries[q].parent_pid)
}

/// Every process id that `tree` adds after the roots is new: it occurs nowhere before.
pub open spec fn additions_are_new(roots_len: int, tree: Seq<u32>) -> bool {
    forall|j: int, k: int| #![trigger tree[j], tree[k]] 0 <= j < k < tree.len() && roots_len <= k ==> tree[j] != tree[k]
}

/// One pass over the first `n` entries in order, starting from `acc`: an entry whose parent is
/// held and whose own id is not yet held has its id appended.
pub open spec fn tree_pass(entries: Seq<ProcessRecord>, acc: Seq<u32>, n: nat) -> Seq<u32>
    decreases n,
{
    if n == 0 {
        acc
    } else {
        let prev = tree_pass(entries, acc, (n - 1) as nat);
        let e = entries[n - 1];
        if prev.contains(e.parent_pid) && !prev.contains(e.pid) {
            prev.push(e.pid)
        } else {
            prev
        }
    }
}

/// Passes over all entries, repeated until one appends nothing, at most `fuel` of them.
pub open spec fn tree_passes(entries: Seq<ProcessRecord>, acc: Seq<u32>, fuel: nat) -> Seq<u32>
    decreases fuel,
{
    if fuel == 0 {
        acc
    } else {
        let next = tree_pass(entries, acc, entries.len());
        if next.len() == acc.len() {
            acc
        } else {
            tree_passes(entries, next, (fuel - 1) as nat)
        }
    }
}

/// The roots followed by their descendants, in the order in which repeated passes over the
/// snapshot find them. One pass more than there are entries always reaches the point where a
/// pass appends nothing.
pub open spec fn process_tree(entries: Seq<ProcessRecord>, roots: Seq<u32>) -> Seq<u32> {
    tree_passes(entries, roots, entries.len() + 1)
}

/// A pass only appends: what it started from stays in front.
proof fn lemma_tree_pass_extends(entries: Seq<ProcessRecord>, acc: Seq<u32>, n: nat)
    requires
        n <= entries.len(),
    ensures
        tree_pass(entries, acc, n).len() >= acc.len(),
        tree_pass(entries, acc, n).take(acc.len() as int) == acc,
    decreases n,
{
    if n > 0 {
        lemma_tree_pass_extends(entries, acc, (n - 1) as nat);
        let prev = tree_pass(entries, acc, (n - 1) as nat);
        assert(prev.push(entries[n - 1].pid).take(acc.len() as int) == prev.take(acc.len() as int));
    }
}

/// Whether `v` holds `x`.
pub fn vec_contains(v: &Vec<u32>, x: u32) -> (r: bool)
    ensures
        r == v@.contains(x),
{
    let mut i: usize = 0;
    while i < v.len()
        invariant
            i <= v.len(),
            forall|k: int| 0 <= k < i ==> v@[k] != x,
        decreases v.len() - i,
    {
        if v[i] == x {
            return true;
        }
        i = i + 1;
    }
    false
}

/// A sequence without repeats, all of whose items occur in `t`, is no longer than `t`.
proof fn lemma_distinct_within(s: Seq<u32>, t: Seq<u32>)
    requires
        s.no_duplicates(),
        forall|i: int| 0 <= i < s.len() ==> t.contains(#[trigger] s[i]),
    ensures
        s.len() <= t.len(),
{
    s.unique_seq_to_set();
    t.lemma_cardinality_of_set();
    assert(s.to_set().subset_of(t.to_set()));
    vstd::set_lib::lemma_len_subset(s.to_set(), t.to_set());
}

/// A sequence that holds the roots and every child of what it holds holds the whole tree.
proof fn lemma_closed_holds_tree(entries: Seq<ProcessRecord>, roots: Seq<u32>, tree: Seq<u32>, x: u32, d: nat)
    requires
        forall|i: int| 0 <= i < roots.len() ==> tree.contains(#[trigger] roots[i]),
        forall|q: int|
            0 <= q < entries.len() && tree.contains((#[trigger] entries[q]).parent_pid) ==> tree.contains(entries[q].pid),
        reaches_within(entries, roots, x, d),
    ensures
        tree.contains(x),
    decreases d,
{
    if roots.contains(x) {
        let i = choose|i: int| 0 <= i < roots.len() && roots[i] == x;
        assert(tree.contains(roots[i]));
    } else {
        let q = choose|q: int|
            0 <= q < entries.len() && (#[trigger] entries[q]).pid == x
                && reaches_within(entries, roots, entries[q].parent_pid, (d - 1) as nat);
        lemma_closed_holds_tree(entries, roots, tree, entries[q].parent_pid, (d - 1) as nat);
    }
}

/// The roots followed by all their descendants in `entries`, each added after its parent.
///
/// The result starts with `roots` as given; every further id is new, belongs to an entry whose
/// parent occurs earlier in the result; an id is in the result exactly when it is a root or a
/// descendant of one.
pub fn collect_process_tree(entries: &[ProcessRecord], roots: &[u32]) -> (tree: Vec<u32>)
    ensures
        tree@.len() >= roots@.len(),
        tree@.take(roots@.len() as int) == roots@,
        additions_are_new(roots@.len() as int, tree@),
        parents_come_first(entries@, roots@.len() as int, tree@),
        forall|x: u32| tree@.contains(x) <==> in_process_tree(entries@, roots@, x),
        tree@ == process_tree(entries@, roots@),
{
    let r: usize = roots.len();
    let mut result: Vec<u32> = Vec::new();
    let mut i: usize = 0;
    while i < r
        invariant
            r == roots@.len(),
            i <= r,
            result@ == roots@.take(i as int),
        decreases r - i,
    {
        result.push(roots[i]);
        i = i + 1;
        assert(result@ == roots@.take(i as int));
    }
    assert(roots@.take(r as int) == roots@);
    proof {
        assert forall|k: int| 0 <= k < result@.len() implies in_process_tree(entries@, roots@, #[trigger] result@[k]) by {
            assert(roots@.contains(result@[k]));
            assert(reaches_within(entries@, roots@, result@[k], 0));
        }
    }
    let ghost pid_list = entries@.map_values(|e: ProcessRecord| e.pid);
    let ghost mut passes: int = 0;
    let mut added = true;
    while added
        invariant
            r == roots@.len(),
            pid_list == entries@.map_values(|e: ProcessRecord| e.pid),
            0 <= passes <= result@.len() - r,
            process_tree(entries@, roots@) == (if added {
                tree_passes(entries@, result@, (entries@.len() + 1 - passes) as nat)
            } else {
                result@
            }),
            result@.len() >= r,
            result@.take(r as int) == roots@,
            additions_are_new(r as int, result@),
            parents_come_first(entries@, r as int, result@),
            forall|k: int| 0 <= k < result@.len() ==> in_process_tree(entries@, roots@, #[trigger] result@[k]),
            result@.len() - r <= entries@.len(),
            !added ==> forall|q: int|
                0 <= q < entries@.len() && result@.contains((#[trigger] entries@[q]).parent_pid)
                    ==> result@.contains(entries@[q].pid),
        decreases entries@.len() - (result@.len() - r) + (if added { 1int } else { 0int }),
    {
        added = false;
        let ghost start_len = result@.len();
        let ghost start = result@;
        let mut e: usize = 0;
        while e < entries.len()
            invariant
                r == roots@.len(),
                start.len() == start_len,
                result@ == tree_pass(entries@, start, e as nat),
                pid_list == entries@.map_values(|e: ProcessRecord| e.pid),
                e <= entries@.len(),
                result@.len() >= start_len >= r,
                result@.take(r as int) == roots@,
                additions_are_new(r as int, result@),
                parents_come_first(entries@, r as int, result@),
                forall|k: int| 0 <= k < result@.len() ==> in_process_tree(entries@, roots@, #[trigger] result@[k]),
                added == (result@.len() > start_len),
                !added ==> forall|q: int|
                    0 <= q < e && result@.contains((#[trigger] entries@[q]).parent_pid)
                        ==> result@.contains(entries@[q].pid),
            decreases entries@.len() - e,
        {
            let parent = entries[e].parent_pid;
            let pid = entries[e].pid;
            if vec_contains(&result, parent) && !vec_contains(&result, pid) {
                let ghost before = result@;
                proof {
                    let j = choose|j: int| 0 <= j < before.len() && before[j] == parent;
                    assert(in_process_tree(entries@, roots@, before[j]));
                    let d = choose|d: nat| reaches_within(entries@, roots@, parent, d);
                    assert(entries@[e as int].pid == pid);
                    assert(reaches_within(entries@, roots@, pid, d + 1));
                }
                result.push(pid);
                added = true;
                proof {
                    assert(result@.take(r as int) == before.take(r as int));
                    assert forall|k: int| #![trigger result@[k]] r <= k < result@.len() implies exists|q: int|
                        0 <= q < entries@.len() && (#[trigger] entries@[q]).pid == result@[k]
                            && result@.take(k).contains(entries@[q].parent_pid) by {
                        if k < before.len() {
                            assert(result@.take(k) == before.take(k));
                            assert(result@[k] == before[k]);
                        } else {
                            assert(result@.take(k) == before);
                            assert(entries@[e as int].pid == result@[k]);
                        }
                    }
                    assert forall|k: int| 0 <= k < result@.len() implies in_process_tree(entries@, roots@, #[trigger] result@[k]) by {
                        if k < before.len() {
                            assert(result@[k] == before[k]);
                        } else {
                            assert(result@[k] == pid);
                        }
                    }
                }
            }
            e = e + 1;
        }
        proof {
            let added_part = result@.skip(r as int);
            assert forall|i: int, j: int| 0 <= i < added_part.len() && 0 <= j < added_part.len() && i != j
                implies added_part[i] != added_part[j] by {
                if i < j {
                    assert(result@[r + i] != result@[r + j]);
                } else {
                    assert(result@[r + j] != result@[r + i]);
                }
            }
            assert forall|i: int| 0 <= i < added_part.len() implies pid_list.contains(#[trigger] added_part[i]) by {
                let k = r + i;
                assert(added_part[i] == result@[k]);
                let q = choose|q: int|
                    0 <= q < entries@.len() && (#[trigger] entries@[q]).pid == result@[k]
                        && result@.take(k).contains(entries@[q].parent_pid);
                assert(pid_list[q] == entries@[q].pid);
            }
            lemma_distinct_within(added_part, pid_list);
            lemma_tree_pass_extends(entries@, start, entries@.len());
            let f = (entries@.len() + 1 - passes) as nat;
            assert(f >= 1);
            if added {
                assert(tree_passes(entries@, start, f) == tree_passes(entries@, result@, (f - 1) as nat));
                passes = passes + 1;
            } else {
                assert(result@ == start);
                assert(tree_passes(entries@, start, f) == start);
            }
        }
    }
    proof {
        assert forall|x: u32| result@.contains(x) <==> in_process_tree(entries@, roots@, x) by {
            if result@.contains(x) {
                let k = choose|k: int| 0 <= k < result@.len() && result@[k] == x;
                assert(in_process_tree(entries@, roots@, result@[k]));
            }
            if in_process_tree(entries@, roots@, x) {
                let d = choose|d: nat| reaches_within(entries@, roots@, x, d);
                assert forall|i: int| 0 <= i < roots@.len() implies result@.contains(#[trigger] roots@[i]) by {
                    assert(result@.take(r as int)[i] == roots@[i]);
                    assert(result@[i] == roots@[i]);
                }
                lemma_closed_holds_tree(entries@, roots@, result@, x, d);
            }
        }
    }
    result
}


/// The program whose processes are ended before its local data is removed.
pub const DISCORD_PROCESS_NAME: &'static str = "Discord.exe";
/// How long to wait, in seconds, after ending Discord before its files are removed.
pub const EXIT_WAIT_SECONDS: u64 = 5;

/// The process's executable name has the file name `target`, ignoring the case of ASCII letters.
pub open spec fn name_matches(exe_name: Seq<char>, target: Seq<char>) -> bool {
    match file_name(exe_name) {
        Some(n) => eq_ignore_case(n, target),
        None => false,
    }
}

/// The match ignores the case of ASCII letters in the target too: targets that differ only in
/// case match the same names.
pub proof fn lemma_name_match_ignores_case(exe_name: Seq<char>, t1: Seq<char>, t2: Seq<char>)
    requires
        eq_ignore_case(t1, t2),
    ensures
        name_matches(exe_name, t1) == name_matches(exe_name, t2),
{
    if let Some(n) = file_name(exe_name) {
        lemma_eq_ignore_case_equivalence(n, t1, t2);
        lemma_eq_ignore_case_equivalence(t1, t2, n);
        lemma_eq_ignore_case_equivalence(n, t2, t1);
        lemma_eq_ignore_case_equivalence(t2, t1, n);
    }
}

/// Whether the file name of `exe_name` is `target`, ignoring the case of ASCII letters.
pub fn process_name_matches(exe_name: &str, target: &str) -> (r: bool)
    ensures
        r == name_matches(exe_name@, target@),
{
    match path_file_name(exe_name) {
        Some(n) => {
            let t = chars_of(target);
            chars_eq_ignore_ascii_case(&n, &t)
        },
        None => false,
    }
}


/// The pids of the entries whose executable name matches `target`, in snapshot order.
pub open spec fn matching_pids(entries: Seq<ProcessRecord>, target: Seq<char>) -> Seq<u32> {
    entries.filter(|e: ProcessRecord| name_matches(e.name@, target)).map_values(|e: ProcessRecord| e.pid)
}

/// The pids of the processes whose executable name matches `target`.
pub fn matching_process_ids(entries: &[ProcessRecord], target: &str) -> (pids: Vec<u32>)
    ensures
        pids@ == matching_pids(entries@, target@),
{
    let mut pids: Vec<u32> = Vec::new();
    let mut i: usize = 0;
    let ghost pred = |e: ProcessRecord| name_matches(e.name@, target@);
    while i < entries.len()
        invariant
            i <= entries@.len(),
            pred == (|e: ProcessRecord| name_matches(e.name@, target@)),
            pids@ == entries@.take(i as int).filter(pred).map_values(|e: ProcessRecord| e.pid),
        decreases entries@.len() - i,
    {
        let ghost before = entries@.take(i as int);
        let ghost after = entries@.take(i + 1);
        assert(after.drop_last() == before);
        assert(after.last() == entries@[i as int]);
        proof {
            reveal(Seq::filter);
        }
        if process_name_matches(&entries[i].name, target) {
            pids.push(entries[i].pid);
            assert(after.filter(pred) == before.filter(pred).push(entries@[i as int]));
        } else {
            assert(after.filter(pred) == before.filter(pred));
        }
        i = i + 1;
    }
    assert(entries@.take(entries@.len() as int) == entries@);
    pids
}

/// The processes to end for `target`, in the order in which to end them: every member of the
/// process tree of the matching processes except `current_pid`, each child before its parent.
/// None when no process matches.
pub fn termination_order(entries: &[ProcessRecord], target: &str, current_pid: u32) -> (r: Option<Vec<u32>>)
    ensures
        r is None <==> matching_pids(entries@, target@).len() == 0,
        r matches Some(order) ==> {
            &&& forall|x: u32| order@.contains(x) <==> (x != current_pid
                && in_process_tree(entries@, matching_pids(entries@, target@), x))
            &&& forall|k: int|
                #![trigger order@[k]]
                0 <= k < order@.len() && !matching_pids(entries@, target@).contains(order@[k])
                    ==> exists|q: int|
                    0 <= q < entries@.len() && (#[trigger] entries@[q]).pid == order@[k]
                        && (entries@[q].parent_pid == current_pid
                            || order@.skip(k + 1).contains(entries@[q].parent_pid))
            &&& order@ == process_tree(entries@, matching_pids(entries@, target@)).filter(
                |x: u32| x != current_pid,
            ).reverse()
        },
{
    let roots = matching_process_ids(entries, target);
    if roots.len() == 0 {
        return None;
    }
    let tree = collect_process_tree(entries, roots.as_slice());
    let ghost t = tree@;
    let ghost rs = roots@;
    let mut order: Vec<u32> = Vec::new();
    let ghost mut pos: Seq<int> = Seq::empty();
    let ghost keep = |x: u32| x != current_pid;
    let mut i: usize = tree.len();
    assert(t.subrange(i as int, t.len() as int).filter(keep) =~= Seq::<u32>::empty()) by {
        reveal(Seq::filter);
    }
    while i > 0
        invariant
            t == tree@,
            i <= t.len(),
            keep == (|x: u32| x != current_pid),
            order@ == t.subrange(i as int, t.len() as int).filter(keep).reverse(),
            order@.len() == pos.len(),
            forall|k: int| 0 <= k < pos.len() ==> i <= #[trigger] pos[k] < t.len() && order@[k] == t[pos[k]],
            forall|k: int, k2: int| 0 <= k < k2 < pos.len() ==> #[trigger] pos[k] > #[trigger] pos[k2],
            forall|m: int| i <= m < t.len() && t[m] != current_pid ==> exists|k: int| 0 <= k < pos.len() && #[trigger] pos[k] == m,
            forall|k: int| 0 <= k < order@.len() ==> #[trigger] order@[k] != current_pid,
        decreases i,
    {
        i = i - 1;
        let ghost old_pos = pos;
        let ghost old_order = order@;
        let ghost rest = t.subrange(i + 1, t.len() as int);
        let pid = tree[i];
        proof {
            assert(t.subrange(i as int, t.len() as int) =~= seq![pid] + rest);
            rest.lemma_filter_prepend(pid, keep);
        }
        if pid != current_pid {
            order.push(pid);
            proof {
                pos = pos.push(i as int);
                assert((seq![pid] + rest.filter(keep)).reverse() =~= rest.filter(keep).reverse().push(pid));
            }
        } else {
            assert(Seq::<u32>::empty() + rest.filter(keep) =~= rest.filter(keep));
        }
        proof {
            assert forall|m: int| i <= m < t.len() && t[m] != current_pid implies exists|k: int| 0 <= k < pos.len() && #[trigger] pos[k] == m by {
                if m == i {
                    assert(pos[pos.len() - 1] == m);
                } else {
                    let k = choose|k: int| 0 <= k < old_pos.len() && #[trigger] old_pos[k] == m;
                    assert(pos[k] == old_pos[k]);
                }
            }
        }
    }
    proof {
        let r = rs.len() as int;
        assert(t.subrange(0, t.len() as int) == t);
        assert(order@ == process_tree(entries@, matching_pids(entries@, target@)).filter(keep).reverse());
        assert forall|x: u32| order@.contains(x) <==> (x != current_pid && in_process_tree(entries@, rs, x)) by {
            if order@.contains(x) {
                let k = choose|k: int| 0 <= k < order@.len() && order@[k] == x;
                assert(t.contains(t[pos[k]]));
            }
            if x != current_pid && in_process_tree(entries@, rs, x) {
                assert(t.contains(x));
                let m = choose|m: int| 0 <= m < t.len() && t[m] == x;
                let k = choose|k: int| 0 <= k < pos.len() && #[trigger] pos[k] == m;
                assert(order@[k] == x);
            }
        }
        assert forall|k: int|
            #![trigger order@[k]]
            0 <= k < order@.len() && !rs.contains(order@[k])
                ==> exists|q: int|
                0 <= q < entries@.len() && (#[trigger] entries@[q]).pid == order@[k]
                    && (entries@[q].parent_pid == current_pid
                        || order@.skip(k + 1).contains(entries@[q].parent_pid)) by {
            if 0 <= k < order@.len() && !rs.contains(order@[k]) {
                let m = pos[k];
                if m < r {
                    assert(t.take(r)[m] == t[m]);
                    assert(rs[m] == t[m]);
                }
                assert(m >= r);
                let q = choose|q: int|
                    0 <= q < entries@.len() && (#[trigger] entries@[q]).pid == t[m]
                        && t.take(m).contains(entries@[q].parent_pid);
                let parent = entries@[q].parent_pid;
                if parent != current_pid {
                    let j = choose|j: int| 0 <= j < m && t.take(m)[j] == parent;
                    assert(t[j] == parent);
                    let k2 = choose|k2: int| 0 <= k2 < pos.len() && #[trigger] pos[k2] == j;
                    if k2 <= k {
                        if k2 < k {
                            assert(pos[k2] > pos[k]);
                        }
                    }
                    assert(k2 > k);
                    assert(order@.skip(k + 1)[k2 - k - 1] == order@[k2]);
                    assert(order@.skip(k + 1).contains(parent));
                }
            }
        }
    }
    Some(order)
}


/// A process that is gone by the time it is opened does not count as a failure.
pub open spec fn process_vanished(hr: i32) -> bool {
    let code = crate::error::win32_code(hr);
    code == 2 || code == 87 || code == 1168
}

/// Whether opening a process failed because it no longer exists.
pub fn is_vanished_process(hr: i32) -> (r: bool)
    ensures
        r == process_vanished(hr),
{
    let code = crate::error::win32_code_from_hresult(hr);
    code == 2 || code == 87 || code == 1168
}

/// The code units before the first zero unit.
pub fn units_until_nul(value: &[u16]) -> (units: Vec<u16>)
    ensures
        units@ == until_nul(value@),
{
    let mut units: Vec<u16> = Vec::new();
    let mut i: usize = 0;
    while i < value.len()
        invariant
            i <= value@.len(),
            units@ == value@.take(i as int),
            forall|k: int| 0 <= k < i ==> value@[k] != 0,
        decreases value@.len() - i,
    {
        if value[i] == 0 {
            proof {
                lemma_until_nul_prefix(value@, i as int);
            }
            return units;
        }
        units.push(value[i]);
        i = i + 1;
        assert(units@ == value@.take(i as int));
    }
    proof {
        lemma_until_nul_prefix(value@, i as int);
    }
    units
}

/// The text of a zero-terminated UTF-16 buffer, ill-formed parts replaced.
pub fn wide_to_string(value: &[u16]) -> (s: String)
    ensures
        s@ == utf16_lossy(until_nul(value@)),
        is_utf16(until_nul(value@)) ==> utf16_encode(s@) == until_nul(value@),
{
    let units = units_until_nul(value);
    let s = string_from_utf16_lossy(units.as_slice());
    proof {
        if is_utf16(until_nul(value@)) {
            let t = choose|t: Seq<char>| utf16_encode(t) == until_nul(value@);
            lemma_lossy_decodes_encoding(t);
        }
    }
    s
}

/// Discord's local storage, where its sign-in is kept, under the user's profile folder.
pub open spec fn discord_leveldb_dir_of(home: Seq<char>) -> Seq<char> {
    joined_path(
        joined_path(
            joined_path(joined_path(joined_path(home, "AppData"@), "Roaming"@), "Discord"@),
            "Local Storage"@,
        ),
        "leveldb"@,
    )
}

/// Discord's local storage folder.
pub fn discord_leveldb_dir(home: &str) -> (p: String)
    ensures
        p@ == discord_leveldb_dir_of(home@),
{
    let a = join_path(home, "AppData");
    let b = join_path(a.as_str(), "Roaming");
    let c = join_path(b.as_str(), "Discord");
    let d = join_path(c.as_str(), "Local Storage");
    join_path(d.as_str(), "leveldb")
}

/// The text prefix when Discord cannot be ended.
pub const OPERATION: &'static str = "Discordプロセスの終了に失敗しました";
/// The text prefix when a file of Discord's storage cannot be removed.
pub const LEVELDB_REMOVE_OPERATION: &'static str = "Discordデータベースファイルの削除に失敗しました";

} // verus!
