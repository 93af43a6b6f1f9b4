//! Rendering a directory tree as the indented listing the model is shown.
//!
//! The directory contents are read elsewhere into `DirNode` values; here they
//! are ordered (directories first, then by lower-cased name), drawn with box
//! characters, and cut off at a depth and an entry limit.
use vstd::prelude::*;
use vstd::string::StringExecFns;
use crate::text::{chars_of, join_strings, join_with, strings_model};

verus! {

/// How deep the listing descends.
pub const MAX_TREE_DEPTH: usize = 6;

/// How many entries the listing shows at most.
pub const MAX_TREE_ENTRIES: usize = 400;

/// One directory entry: its name, whether it is a directory, and (for a
/// directory that could be read) its entries, in any order.
#[derive(Debug, PartialEq, Eq)]
pub struct DirNode {
    pub name: String,
    pub is_dir: bool,
    pub children: Vec<DirNode>,
}

/// What `str::to_lowercase` returns for a string: its Unicode lower-case mapping.
pub uninterp spec fn lowercase_of(s: Seq<char>) -> Seq<char>;

/// `str::to_lowercase`; the result is named by `lowercase_of`, whose value this
/// library does not state.
#[verifier::external_body]
fn to_lowercase(s: &str) -> (r: String)
    ensures
        r@ == lowercase_of(s@),
{
    s.to_lowercase()
}

/// Lexicographic order of character sequences by code point (the order of
/// `String`'s comparison, as UTF-8 keeps code-point order byte-wise).
pub open spec fn code_point_less(a: Seq<char>, b: Seq<char>) -> bool
    decreases a.len(),
{
    if a.len() == 0 {
        b.len() > 0
    } else if b.len() == 0 {
        false
    } else if (a[0] as u32) < (b[0] as u32) {
        true
    } else if (a[0] as u32) > (b[0] as u32) {
        false
    } else {
        code_point_less(a.drop_first(), b.drop_first())
    }
}

/// `a` is listed strictly before `b`: directories first, then by lower-cased name.
pub open spec fn listed_before(a: DirNode, b: DirNode) -> bool {
    ||| a.is_dir && !b.is_dir
    ||| a.is_dir == b.is_dir && code_point_less(lowercase_of(a.name@), lowercase_of(b.name@))
}

/// The index at or after `i` of the first entry of `t` that `x` goes before.
pub open spec fn insertion_point(x: DirNode, t: Seq<DirNode>, i: int) -> int
    decreases t.len() - i,
{
    if i < 0 || i >= t.len() {
        t.len() as int
    } else if listed_before(x, t[i]) {
        i
    } else {
        insertion_point(x, t, i + 1)
    }
}

/// The stable sort of `s` by `listed_before`.
pub open spec fn sort_entries(s: Seq<DirNode>) -> Seq<DirNode>
    decreases s.len(),
{
    if s.len() == 0 {
        s
    } else {
        let t = sort_entries(s.drop_last());
        t.insert(insertion_point(s.last(), t, 0), s.last())
    }
}

/// Lexicographic comparison by code point.
fn chars_less(a: &Vec<char>, b: &Vec<char>) -> (r: bool)
    ensures
        r == code_point_less(a@, b@),
{
    let mut k: usize = 0;
    assert(a@.skip(0) =~= a@ && b@.skip(0) =~= b@);
    loop
        invariant
            k <= a@.len(),
            k <= b@.len(),
            code_point_less(a@, b@) == code_point_less(a@.skip(k as int), b@.skip(k as int)),
        decreases a@.len() - k,
    {
        if k == a.len() {
            return k < b.len();
        }
        if k == b.len() {
            return false;
        }
        let x = a[k] as u32;
        let y = b[k] as u32;
        if x < y {
            return true;
        }
        if x > y {
            return false;
        }
        assert(a@.skip(k as int).drop_first() =~= a@.skip(k + 1));
        assert(b@.skip(k as int).drop_first() =~= b@.skip(k + 1));
        k = k + 1;
    }
}

/// Entry `a` goes strictly before entry `b` when entry `k` is a directory
/// as `dirs[k]` says and has sort key `keys[k]`: directories first, then by key.
pub open spec fn key_before(dirs: Seq<bool>, keys: Seq<Seq<char>>, a: int, b: int) -> bool {
    ||| dirs[a] && !dirs[b]
    ||| dirs[a] == dirs[b] && code_point_less(keys[a], keys[b])
}

/// The position at or after `i` in the index list `t` before which entry `x` goes.
pub open spec fn key_insertion(dirs: Seq<bool>, keys: Seq<Seq<char>>, x: int, t: Seq<usize>, i: int) -> int
    decreases t.len() - i,
{
    if i < 0 || i >= t.len() {
        t.len() as int
    } else if key_before(dirs, keys, x, t[i] as int) {
        i
    } else {
        key_insertion(dirs, keys, x, t, i + 1)
    }
}

/// The indices `0..n` of the entries in listing order: the stable sort by
/// `key_before`.
pub open spec fn key_order(dirs: Seq<bool>, keys: Seq<Seq<char>>, n: nat) -> Seq<usize>
    decreases n,
{
    if n == 0 {
        Seq::empty()
    } else {
        let t = key_order(dirs, keys, (n - 1) as nat);
        t.insert(key_insertion(dirs, keys, n - 1, t, 0), (n - 1) as usize)
    }
}

/// The indices of entries in listing order, where entry `k` is a directory
/// as `is_dir[k]` says and is ordered by the key `keys[k]` (for a listing,
/// its lower-cased name).
pub fn listing_order_by_keys(is_dir: &Vec<bool>, keys: &Vec<String>) -> (order: Vec<usize>)
    requires
        is_dir@.len() == keys@.len(),
    ensures
        order@ == key_order(is_dir@, strings_model(keys@), keys@.len() as nat),
{
    let n = keys.len();
    let ghost ks = strings_model(keys@);
    let ghost ds = is_dir@;
    let mut chars: Vec<Vec<char>> = Vec::new();
    for i in 0..n
        invariant
            n == keys@.len(),
            ks == strings_model(keys@),
            chars@.len() == i,
            forall|j: int| 0 <= j < i ==> #[trigger] chars@[j]@ == ks[j],
    {
        chars.push(chars_of(keys[i].as_str()));
    }
    let mut order: Vec<usize> = Vec::new();
    for i in 0..n
        invariant
            n == keys@.len(),
            n == ds.len(),
            ds == is_dir@,
            ks == strings_model(keys@),
            chars@.len() == n,
            forall|j: int| 0 <= j < n ==> #[trigger] chars@[j]@ == ks[j],
            order@ == key_order(ds, ks, i as nat),
            order@.len() == i,
            forall|k: int| 0 <= k < order@.len() ==> order@[k] < i,
    {
        let ghost t = order@;
        let mut p: usize = 0;
        while p < order.len()
            invariant
                n == ds.len(),
                ds == is_dir@,
                chars@.len() == n,
                forall|j: int| 0 <= j < n ==> #[trigger] chars@[j]@ == ks[j],
                i < n,
                t == order@,
                forall|k: int| 0 <= k < order@.len() ==> order@[k] < i,
                p <= order@.len(),
                key_insertion(ds, ks, i as int, t, 0) == key_insertion(ds, ks, i as int, t, p as int),
            ensures
                p <= order@.len(),
                key_insertion(ds, ks, i as int, t, 0) == key_insertion(ds, ks, i as int, t, p as int),
                p < order@.len() ==> key_before(ds, ks, i as int, t[p as int] as int),
            decreases order@.len() - p,
        {
            let j = order[p];
            let before = (is_dir[i] && !is_dir[j]) || (is_dir[i] == is_dir[j] && chars_less(
                &chars[i],
                &chars[j],
            ));
            if before {
                break;
            }
            p = p + 1;
        }
        assert(key_insertion(ds, ks, i as int, t, p as int) == p as int);
        order.insert(p, i);
        assert(key_order(ds, ks, (i + 1) as nat) == t.insert(p as int, i));
    }
    order
}

/// The entries picked out by the indices of `order`.
pub open spec fn picked(entries: Seq<DirNode>, order: Seq<usize>) -> Seq<DirNode> {
    order.map_values(|i: usize| entries[i as int])
}

proof fn lemma_key_insertion_matches(entries: Seq<DirNode>, dirs: Seq<bool>, keys: Seq<Seq<char>>, x: int, t: Seq<usize>, i: int)
    requires
        dirs.len() == entries.len(),
        keys.len() == entries.len(),
        forall|k: int| 0 <= k < entries.len() ==> dirs[k] == (#[trigger] entries[k]).is_dir && keys[k]
            == lowercase_of(entries[k].name@),
        0 <= x < entries.len(),
        forall|k: int| 0 <= k < t.len() ==> t[k] < entries.len(),
        0 <= i,
    ensures
        key_insertion(dirs, keys, x, t, i) == insertion_point(entries[x], picked(entries, t), i),
    decreases t.len() - i,
{
    if i < t.len() {
        assert(picked(entries, t)[i] == entries[t[i] as int]);
        lemma_key_insertion_matches(entries, dirs, keys, x, t, i + 1);
    }
}

/// With each entry's directory flag and lower-cased name as its key, the key
/// order picks the entries out in listing order.
proof fn lemma_key_order_lists(entries: Seq<DirNode>, dirs: Seq<bool>, keys: Seq<Seq<char>>, n: nat)
    requires
        dirs.len() == entries.len(),
        keys.len() == entries.len(),
        forall|k: int| 0 <= k < entries.len() ==> dirs[k] == (#[trigger] entries[k]).is_dir && keys[k]
            == lowercase_of(entries[k].name@),
        n <= entries.len(),
        entries.len() <= usize::MAX,
    ensures
        key_order(dirs, keys, n).len() == n,
        forall|k: int| 0 <= k < n ==> #[trigger] key_order(dirs, keys, n)[k] < n,
        picked(entries, key_order(dirs, keys, n)) == sort_entries(entries.take(n as int)),
    decreases n,
{
    if n == 0 {
        assert(entries.take(0) =~= Seq::<DirNode>::empty());
        assert(picked(entries, key_order(dirs, keys, n)) =~= Seq::<DirNode>::empty());
    } else {
        let m = (n - 1) as nat;
        lemma_key_order_lists(entries, dirs, keys, m);
        let t = key_order(dirs, keys, m);
        let x = m as int;
        lemma_key_insertion_matches(entries, dirs, keys, x, t, 0);
        let pt = picked(entries, t);
        assert(pt.len() == t.len());
        let p = key_insertion(dirs, keys, x, t, 0);
        lemma_insertion_point(entries[x], pt, 0);
        let r = t.insert(p, m as usize);
        assert(r == key_order(dirs, keys, n));
        let s = entries.take(n as int);
        assert(s.drop_last() =~= entries.take(m as int));
        assert(s.last() == entries[x]);
        assert(picked(entries, r) =~= pt.insert(p, entries[x]));
    }
}

proof fn lemma_insertion_point(x: DirNode, t: Seq<DirNode>, from: int)
    requires
        0 <= from <= t.len(),
    ensures
        from <= insertion_point(x, t, from) <= t.len(),
    decreases t.len() - from,
{
    if from < t.len() && !listed_before(x, t[from]) {
        lemma_insertion_point(x, t, from + 1);
    }
}

/// The indices of `entries` in listing order.
fn listing_order(entries: &Vec<DirNode>) -> (order: Vec<usize>)
    ensures
        order@.len() == entries@.len(),
        forall|k: int| 0 <= k < order@.len() ==> order@[k] < entries@.len(),
        picked(entries@, order@) == sort_entries(entries@),
{
    let n = entries.len();
    let mut dirs: Vec<bool> = Vec::new();
    let mut keys: Vec<String> = Vec::new();
    for i in 0..n
        invariant
            n == entries@.len(),
            dirs@.len() == i,
            keys@.len() == i,
            forall|j: int| 0 <= j < i ==> dirs@[j] == (#[trigger] entries@[j]).is_dir && keys@[j]@
                == lowercase_of(entries@[j].name@),
    {
        dirs.push(entries[i].is_dir);
        keys.push(to_lowercase(entries[i].name.as_str()));
    }
    let order = listing_order_by_keys(&dirs, &keys);
    proof {
        lemma_key_order_lists(entries@, dirs@, strings_model(keys@), n as nat);
        assert(entries@.take(n as int) =~= entries@);
    }
    order
}


/// The connector drawn before an entry.
pub open spec fn branch(is_last: bool) -> Seq<char> {
    if is_last {
        "└── "@
    } else {
        "├── "@
    }
}

/// The indentation under an entry, for that entry's own entries.
pub open spec fn child_prefix(prefix: Seq<char>, is_last: bool) -> Seq<char> {
    if is_last {
        prefix + "    "@
    } else {
        prefix + "│   "@
    }
}

/// The line that shows entry `e`.
pub open spec fn entry_line(prefix: Seq<char>, e: DirNode, is_last: bool) -> Seq<char> {
    prefix + branch(is_last) + e.name@ + if e.is_dir {
        "/"@
    } else {
        Seq::empty()
    }
}

/// The lines for the (unsorted) `entries` of a directory at `depth`, and the
/// entry count after them, when `emitted` entries were shown before.
pub open spec fn render_level(
    entries: Seq<DirNode>,
    prefix: Seq<char>,
    depth: int,
    max_depth: int,
    max_entries: int,
    emitted: int,
) -> (Seq<Seq<char>>, int)
    decreases max_depth - depth, 1int, 0int,
{
    if depth >= max_depth || emitted >= max_entries {
        (Seq::empty(), emitted)
    } else {
        render_items(sort_entries(entries), 0, prefix, depth, max_depth, max_entries, emitted)
    }
}

/// The lines for the listed entries `sorted[idx..]`, and the entry count after them.
pub open spec fn render_items(
    sorted: Seq<DirNode>,
    idx: int,
    prefix: Seq<char>,
    depth: int,
    max_depth: int,
    max_entries: int,
    emitted: int,
) -> (Seq<Seq<char>>, int)
    decreases max_depth - depth, 0int, sorted.len() - idx,
{
    if depth >= max_depth || idx < 0 || idx >= sorted.len() || emitted >= max_entries {
        (Seq::empty(), emitted)
    } else {
        let e = sorted[idx];
        let is_last = idx + 1 == sorted.len();
        let below = if e.is_dir {
            render_level(
                e.children@,
                child_prefix(prefix, is_last),
                depth + 1,
                max_depth,
                max_entries,
                emitted + 1,
            )
        } else {
            (Seq::empty(), emitted + 1)
        };
        let after = render_items(sorted, idx + 1, prefix, depth, max_depth, max_entries, below.1);
        (seq![entry_line(prefix, e, is_last)] + below.0 + after.0, after.1)
    }
}

/// The last line of a listing that was cut off.
pub open spec fn truncation_line() -> Seq<char> {
    "└── ... (tree truncated: too many entries)"@
}

/// All lines of the listing of `entries` under the heading `label`.
pub open spec fn tree_lines(entries: Seq<DirNode>, label: Seq<char>, max_depth: int, max_entries: int) -> Seq<Seq<char>> {
    let r = render_level(entries, Seq::empty(), 0, max_depth, max_entries, 0);
    seq![label] + r.0 + if r.1 >= max_entries {
        seq![truncation_line()]
    } else {
        Seq::empty()
    }
}

/// The listing of `entries` under `label`, one line per entry.
pub open spec fn tree_listing(entries: Seq<DirNode>, label: Seq<char>, max_depth: int, max_entries: int) -> Seq<char> {
    join_with(tree_lines(entries, label, max_depth, max_entries), "\n"@)
}

/// Appends the lines for the `entries` of a directory at `depth` to `lines`.
fn build_tree_lines(
    entries: &Vec<DirNode>,
    prefix: &String,
    depth: usize,
    max_depth: usize,
    max_entries: usize,
    emitted: &mut usize,
    lines: &mut Vec<String>,
)
    ensures
        strings_model(final(lines)@) == strings_model(old(lines)@) + render_level(
            entries@,
            prefix@,
            depth as int,
            max_depth as int,
            max_entries as int,
            *old(emitted) as int,
        ).0,
        *final(emitted) as int == render_level(
            entries@,
            prefix@,
            depth as int,
            max_depth as int,
            max_entries as int,
            *old(emitted) as int,
        ).1,
        *old(emitted) <= max_entries ==> *final(emitted) <= max_entries,
    decreases max_depth - depth,
{
    if depth >= max_depth || *emitted >= max_entries {
        assert(strings_model(lines@) =~= strings_model(lines@) + Seq::<Seq<char>>::empty());
        return;
    }
    let order = listing_order(entries);
    let total = order.len();
    let ghost sorted = sort_entries(entries@);
    let ghost start_lines = strings_model(lines@);
    let ghost e0 = *emitted as int;
    let ghost whole = render_items(
        sorted,
        0,
        prefix@,
        depth as int,
        max_depth as int,
        max_entries as int,
        e0,
    );
    assert(whole == render_level(
        entries@,
        prefix@,
        depth as int,
        max_depth as int,
        max_entries as int,
        e0,
    ));
    let mut idx: usize = 0;
    while idx < total
        invariant
            total == order@.len(),
            total == entries@.len(),
            forall|k: int| 0 <= k < order@.len() ==> order@[k] < entries@.len(),
            picked(entries@, order@) == sorted,
            start_lines == strings_model(old(lines)@),
            e0 == *old(emitted) as int,
            depth < max_depth,
            idx <= total,
            e0 <= max_entries ==> *emitted <= max_entries,
            whole == render_level(
                entries@,
                prefix@,
                depth as int,
                max_depth as int,
                max_entries as int,
                e0,
            ),
            strings_model(lines@) + render_items(
                sorted,
                idx as int,
                prefix@,
                depth as int,
                max_depth as int,
                max_entries as int,
                *emitted as int,
            ).0 == start_lines + whole.0,
            render_items(
                sorted,
                idx as int,
                prefix@,
                depth as int,
                max_depth as int,
                max_entries as int,
                *emitted as int,
            ).1 == whole.1,
        decreases total - idx,
    {
        if *emitted >= max_entries {
            assert(strings_model(lines@) =~= start_lines + whole.0);
            return;
        }
        assert(*emitted < max_entries);
        let e = &entries[order[idx]];
        assert(sorted[idx as int] == *e);
        let is_last = idx + 1 == total;
        let mut line = prefix.clone();
        if is_last {
            line.append("└── ");
        } else {
            line.append("├── ");
        }
        line.append(e.name.as_str());
        if e.is_dir {
            line.append("/");
        } else {
            assert(line@ =~= line@ + Seq::<char>::empty());
        }
        assert(line@ == entry_line(prefix@, *e, is_last));
        let ghost before_lines = strings_model(lines@);
        let ghost em = *emitted as int;
        lines.push(line);
        assert(strings_model(lines@) =~= before_lines.push(entry_line(prefix@, *e, is_last)));
        *emitted = *emitted + 1;
        if e.is_dir {
            let mut below_prefix = prefix.clone();
            if is_last {
                below_prefix.append("    ");
            } else {
                below_prefix.append("│   ");
            }
            build_tree_lines(
                &e.children,
                &below_prefix,
                depth + 1,
                max_depth,
                max_entries,
                emitted,
                lines,
            );
        } else {
            assert(strings_model(lines@) =~= strings_model(lines@) + Seq::<Seq<char>>::empty());
        }
        idx = idx + 1;
        proof {
            let below = if e.is_dir {
                render_level(
                    e.children@,
                    child_prefix(prefix@, is_last),
                    depth + 1,
                    max_depth as int,
                    max_entries as int,
                    em + 1,
                )
            } else {
                (Seq::<Seq<char>>::empty(), em + 1)
            };
            assert(strings_model(lines@) =~= before_lines + seq![entry_line(prefix@, *e, is_last)]
                + below.0);
        }
    }
    assert(strings_model(lines@) =~= start_lines + whole.0);
}

/// The listing of `entries` under the heading `label`, at most `max_depth`
/// levels deep and at most `max_entries` entries long.
pub fn render_directory_tree(entries: &Vec<DirNode>, label: &str, max_depth: usize, max_entries: usize) -> (r: String)
    ensures
        r@ == tree_listing(entries@, label@, max_depth as int, max_entries as int),
{
    let mut lines: Vec<String> = Vec::new();
    lines.push(label.to_owned());
    let mut emitted: usize = 0;
    let prefix = String::new();
    assert(strings_model(lines@) =~= seq![label@]);
    build_tree_lines(entries, &prefix, 0, max_depth, max_entries, &mut emitted, &mut lines);
    let ghost body = strings_model(lines@);
    if emitted >= max_entries {
        lines.push("└── ... (tree truncated: too many entries)".to_owned());
    }
    assert(prefix@ =~= Seq::<char>::empty());
    let ghost r0 = render_level(entries@, Seq::empty(), 0, max_depth as int, max_entries as int, 0);
    assert(emitted == r0.1);
    assert(body == seq![label@] + r0.0);
    assert(strings_model(lines@) =~= tree_lines(entries@, label@, max_depth as int, max_entries as int));
    join_strings(&lines, "\n")
}

/// The listing of a project directory whose entries are `entries`.
pub fn project_tree_snapshot(entries: &Vec<DirNode>) -> (r: String)
    ensures
        r@ == tree_listing(entries@, "."@, MAX_TREE_DEPTH as int, MAX_TREE_ENTRIES as int),
{
    render_directory_tree(entries, ".", MAX_TREE_DEPTH, MAX_TREE_ENTRIES)
}

} // verus!
