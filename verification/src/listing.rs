//! The order of a folder listing: folders first, then by lower-cased name, entries
//! that compare equal keeping the order they were read in.
use vstd::prelude::*;
use crate::text::{chars_vec, to_lowercase, lowercase};

verus! {

broadcast use vstd::seq_lib::group_to_multiset_ensures;

/// One entry of a folder listing.
pub struct FileEntry {
    pub name: String,
    pub path: String,
    pub is_dir: bool,
    pub size: u64,
}

/// Lexicographic order of character sequences by code point (the order of `str`).
pub open spec fn lex_lt(a: Seq<char>, b: Seq<char>) -> bool
    decreases a.len(),
{
    if a.len() == 0 {
        b.len() > 0
    } else if b.len() == 0 {
        false
    } else if a[0] != b[0] {
        a[0] < b[0]
    } else {
        lex_lt(a.skip(1), b.skip(1))
    }
}

/// An entry together with the name it is ordered by.
pub type Keyed = (FileEntry, Seq<char>);

/// Whether `a` is listed before `b`: folders before files, then by ordering name.
pub open spec fn entry_before(a: Keyed, b: Keyed) -> bool {
    (a.0.is_dir && !b.0.is_dir) || (a.0.is_dir == b.0.is_dir && lex_lt(a.1, b.1))
}

/// Whether two entries compare equal in the listing order.
pub open spec fn same_rank(a: Keyed, b: Keyed) -> bool {
    a.0.is_dir == b.0.is_dir && a.1 == b.1
}

/// `x` placed into `s` after every entry that is not listed after it.
pub open spec fn insert_sorted(s: Seq<Keyed>, x: Keyed) -> Seq<Keyed>
    decreases s.len(),
{
    if s.len() == 0 {
        seq![x]
    } else if !entry_before(x, s.last()) {
        s.push(x)
    } else {
        insert_sorted(s.drop_last(), x).push(s.last())
    }
}

/// The listing order of `s`: its stable sort, folders first, then by ordering name.
pub open spec fn listing_order(s: Seq<Keyed>) -> Seq<Keyed>
    decreases s.len(),
{
    if s.len() == 0 {
        s
    } else {
        insert_sorted(listing_order(s.drop_last()), s.last())
    }
}

/// Each entry paired with the name at the same position of `keys`.
pub open spec fn with_keys(entries: Seq<FileEntry>, keys: Seq<Seq<char>>) -> Seq<Keyed> {
    Seq::new(entries.len(), |i: int| (entries[i], keys[i]))
}

/// Each entry paired with its lower-cased name, by which a folder listing is ordered.
pub open spec fn by_lowercase_name(entries: Seq<FileEntry>) -> Seq<Keyed> {
    Seq::new(entries.len(), |i: int| (entries[i], lowercase(entries[i].name@)))
}

/// The entries of keyed entries.
pub open spec fn entries_of(s: Seq<Keyed>) -> Seq<FileEntry> {
    Seq::new(s.len(), |i: int| s[i].0)
}

fn lex_less(a: &Vec<char>, b: &Vec<char>) -> (r: bool)
    ensures
        r == lex_lt(a@, b@),
{
    let mut i: usize = 0;
    proof {
        assert(a@.skip(0) == a@);
        assert(b@.skip(0) == b@);
    }
    loop
        invariant
            i <= a@.len(),
            i <= b@.len(),
            lex_lt(a@, b@) == lex_lt(a@.skip(i as int), b@.skip(i as int)),
        decreases a@.len() - i,
    {
        let ghost sa = a@.skip(i as int);
        let ghost sb = b@.skip(i as int);
        if i == a.len() {
            return i < b.len();
        }
        if i == b.len() {
            return false;
        }
        assert(sa[0] == a@[i as int] && sb[0] == b@[i as int]);
        if a[i] != b[i] {
            return a[i] < b[i];
        }
        proof {
            assert(sa.skip(1) == a@.skip(i + 1));
            assert(sb.skip(1) == b@.skip(i + 1));
        }
        i = i + 1;
    }
}

fn before_exec(a_dir: bool, a_key: &Vec<char>, b_dir: bool, b_key: &Vec<char>) -> (r: bool)
    ensures
        r == ((a_dir && !b_dir) || (a_dir == b_dir && lex_lt(a_key@, b_key@))),
{
    if a_dir && !b_dir {
        true
    } else if a_dir == b_dir {
        lex_less(a_key, b_key)
    } else {
        false
    }
}

proof fn lemma_insert_at(s: Seq<Keyed>, x: Keyed, pos: int)
    requires
        0 <= pos <= s.len(),
        forall|j: int| pos <= j < s.len() ==> entry_before(x, #[trigger] s[j]),
        pos == 0 || !entry_before(x, s[pos - 1]),
    ensures
        insert_sorted(s, x) == s.insert(pos, x),
    decreases s.len(),
{
    if s.len() == 0 {
        assert(s.insert(pos, x) == seq![x]);
    } else if pos == s.len() {
        assert(s.insert(pos, x) == s.push(x));
    } else {
        assert(entry_before(x, s[s.len() - 1]));
        let t = s.drop_last();
        assert forall|j: int| pos <= j < t.len() implies entry_before(x, #[trigger] t[j]) by {
            assert(t[j] == s[j]);
        }
        if pos > 0 {
            assert(t[pos - 1] == s[pos - 1]);
        }
        lemma_insert_at(t, x, pos);
        assert(t.insert(pos, x).push(s.last()) == s.insert(pos, x));
    }
}

/// Orders entries by the given ordering names (one per entry, in the same order).
pub fn sort_with_keys(entries: Vec<FileEntry>, keys: Vec<String>) -> (out: Vec<FileEntry>)
    requires
        entries@.len() == keys@.len(),
    ensures
        out@ == entries_of(listing_order(with_keys(entries@, keys@.map_values(|k: String| k@)))),
{
    let ghost all = with_keys(entries@, keys@.map_values(|k: String| k@));
    let n = entries.len();
    let mut input = entries;
    let mut input_keys = keys;
    let mut out: Vec<FileEntry> = Vec::new();
    let mut out_keys: Vec<Vec<char>> = Vec::new();
    let mut i: usize = 0;
    proof {
        assert(all.take(0) == Seq::<Keyed>::empty());
    }
    while i < n
        invariant
            n == all.len(),
            i <= n,
            input@.len() == n - i,
            input_keys@.len() == n - i,
            forall|j: int|
                0 <= j < n - i ==> (#[trigger] input@[j], input_keys@[j]@) == all[i + j],
            out_keys@.len() == out@.len(),
            Seq::new(out@.len(), |j: int| (out@[j], out_keys@[j]@)) == listing_order(
                all.take(i as int),
            ),
        decreases n - i,
    {
        let ghost old_input = input@;
        let ghost old_input_keys = input_keys@;
        let x = input.remove(0);
        let xk = input_keys.remove(0);
        let kx = chars_vec(xk.as_str());
        let ghost item: Keyed = (x, kx@);
        proof {
            assert(item == all[i as int]) by {
                assert((old_input[0], old_input_keys[0]@) == all[i + 0]);
            }
            assert forall|j: int| 0 <= j < n - (i + 1) implies (#[trigger] input@[j],
                input_keys@[j]@) == all[(i + 1) + j] by {
                assert(input@[j] == old_input[j + 1]);
                assert(input_keys@[j] == old_input_keys[j + 1]);
                assert((old_input[j + 1], old_input_keys[j + 1]@) == all[i + (j + 1)]);
            }
        }
        let ghost cur = Seq::new(out@.len(), |j: int| (out@[j], out_keys@[j]@));
        let mut pos = out.len();
        while pos > 0 && before_exec(x.is_dir, &kx, out[pos - 1].is_dir, &out_keys[pos - 1])
            invariant
                pos <= out@.len(),
                out_keys@.len() == out@.len(),
                cur == Seq::new(out@.len(), |j: int| (out@[j], out_keys@[j]@)),
                item == (x, kx@),
                forall|j: int| pos <= j < cur.len() ==> entry_before(item, #[trigger] cur[j]),
            decreases pos,
        {
            assert(cur[pos - 1] == (out@[pos - 1], out_keys@[pos - 1]@));
            pos = pos - 1;
        }
        proof {
            if pos > 0 {
                assert(cur[pos - 1] == (out@[pos - 1], out_keys@[pos - 1]@));
            }
            lemma_insert_at(cur, item, pos as int);
            assert(all.take(i + 1).drop_last() == all.take(i as int));
            assert(all.take(i + 1).last() == item);
        }
        let ghost old_out = out@;
        let ghost old_keys = out_keys@;
        out.insert(pos, x);
        out_keys.insert(pos, kx);
        proof {
            let now = Seq::new(out@.len(), |j: int| (out@[j], out_keys@[j]@));
            assert(now =~= cur.insert(pos as int, item)) by {
                assert forall|j: int| 0 <= j < now.len() implies now[j] == cur.insert(
                    pos as int,
                    item,
                )[j] by {
                    if j < pos {
                        assert(out@[j] == old_out[j] && out_keys@[j] == old_keys[j]);
                    } else if j > pos {
                        assert(out@[j] == old_out[j - 1] && out_keys@[j] == old_keys[j - 1]);
                    }
                }
            }
        }
        i = i + 1;
    }
    proof {
        assert(all.take(n as int) == all);
        let fin = Seq::new(out@.len(), |j: int| (out@[j], out_keys@[j]@));
        assert(out@ =~= entries_of(fin));
    }
    out
}

/// Orders the entries of a folder listing: folders first, then by lower-cased name.
pub fn sort_entries(entries: Vec<FileEntry>) -> (out: Vec<FileEntry>)
    ensures
        out@ == entries_of(listing_order(by_lowercase_name(entries@))),
{
    let n = entries.len();
    let mut keys: Vec<String> = Vec::new();
    let mut i: usize = 0;
    while i < n
        invariant
            n == entries@.len(),
            i <= n,
            keys@.len() == i,
            forall|j: int| 0 <= j < i ==> (#[trigger] keys@[j])@ == lowercase(
                entries@[j].name@,
            ),
        decreases n - i,
    {
        keys.push(to_lowercase(entries[i].name.as_str()));
        i = i + 1;
    }
    proof {
        assert(with_keys(entries@, keys@.map_values(|k: String| k@)) =~= by_lowercase_name(
            entries@,
        ));
    }
    sort_with_keys(entries, keys)
}

proof fn lemma_lex_irreflexive(a: Seq<char>)
    ensures
        !lex_lt(a, a),
    decreases a.len(),
{
    if a.len() > 0 {
        lemma_lex_irreflexive(a.skip(1));
    }
}

proof fn lemma_lex_transitive(a: Seq<char>, b: Seq<char>, c: Seq<char>)
    requires
        lex_lt(a, b),
        lex_lt(b, c),
    ensures
        lex_lt(a, c),
    decreases a.len(),
{
    if a.len() > 0 && b.len() > 0 && c.len() > 0 && a[0] == b[0] && b[0] == c[0] {
        lemma_lex_transitive(a.skip(1), b.skip(1), c.skip(1));
    }
}

proof fn lemma_lex_total(a: Seq<char>, b: Seq<char>)
    requires
        a != b,
    ensures
        lex_lt(a, b) || lex_lt(b, a),
    decreases a.len(),
{
    if a.len() == 0 {
        assert(b.len() > 0) by {
            if b.len() == 0 {
                assert(a =~= b);
            }
        }
    } else if b.len() > 0 && a[0] == b[0] {
        assert(a.skip(1) != b.skip(1)) by {
            if a.skip(1) == b.skip(1) {
                assert(a.skip(1).len() == b.skip(1).len());
                assert(a.len() == b.len());
                assert(a =~= b) by {
                    assert forall|i: int| 0 <= i < a.len() implies a[i] == b[i] by {
                        if i > 0 {
                            assert(a[i] == a.skip(1)[i - 1]);
                            assert(b[i] == b.skip(1)[i - 1]);
                        }
                    }
                }
            }
        }
        lemma_lex_total(a.skip(1), b.skip(1));
    }
}

/// For any entries, `a` before `b` means every `c` is after `a` or before `b`.
proof fn lemma_before_connected(a: Keyed, b: Keyed, c: Keyed)
    requires
        entry_before(a, b),
    ensures
        entry_before(a, c) || entry_before(c, b),
{
    if a.0.is_dir == c.0.is_dir && b.0.is_dir == c.0.is_dir {
        if a.1 == c.1 {
        } else {
            lemma_lex_total(a.1, c.1);
            if lex_lt(c.1, a.1) {
                lemma_lex_transitive(c.1, a.1, b.1);
            }
        }
    }
}

proof fn lemma_before_asymmetric(a: Keyed, b: Keyed)
    requires
        entry_before(a, b),
    ensures
        !entry_before(b, a),
        !same_rank(a, b),
{
    if a.0.is_dir == b.0.is_dir && lex_lt(b.1, a.1) {
        lemma_lex_transitive(a.1, b.1, a.1);
        lemma_lex_irreflexive(a.1);
    }
    lemma_lex_irreflexive(a.1);
}

/// Whether no entry of `s` is listed before an earlier one.
pub open spec fn is_listing_sorted(s: Seq<Keyed>) -> bool {
    forall|i: int, j: int| 0 <= i < j < s.len() ==> !entry_before(#[trigger] s[j], #[trigger] s[i])
}

proof fn lemma_insert_contains(s: Seq<Keyed>, x: Keyed, e: Keyed)
    requires
        insert_sorted(s, x).contains(e),
    ensures
        e == x || s.contains(e),
    decreases s.len(),
{
    let r = insert_sorted(s, x);
    let k = choose|k: int| 0 <= k < r.len() && r[k] == e;
    if s.len() == 0 {
    } else if !entry_before(x, s.last()) {
        if k < s.len() {
            assert(s[k] == e);
        }
    } else {
        let t = insert_sorted(s.drop_last(), x);
        if k < t.len() {
            assert(t[k] == e);
            lemma_insert_contains(s.drop_last(), x, e);
            if s.drop_last().contains(e) {
                let m = choose|m: int| 0 <= m < s.drop_last().len() && s.drop_last()[m] == e;
                assert(s[m] == e);
            }
        } else {
            assert(s[s.len() - 1] == e);
        }
    }
}

proof fn lemma_insert_sorted_keeps_order(s: Seq<Keyed>, x: Keyed)
    requires
        is_listing_sorted(s),
    ensures
        is_listing_sorted(insert_sorted(s, x)),
    decreases s.len(),
{
    if s.len() == 0 {
    } else if !entry_before(x, s.last()) {
        let r = s.push(x);
        assert forall|i: int, j: int| 0 <= i < j < r.len() implies !entry_before(
            #[trigger] r[j],
            #[trigger] r[i],
        ) by {
            if j == s.len() {
                if i < s.len() - 1 {
                    assert(!entry_before(s[s.len() - 1], s[i]));
                    if entry_before(x, s[i]) {
                        lemma_before_connected(x, s[i], s[s.len() - 1]);
                    }
                }
            } else {
                assert(r[i] == s[i] && r[j] == s[j]);
            }
        }
    } else {
        let t = s.drop_last();
        let l = s.last();
        assert(is_listing_sorted(t)) by {
            assert forall|i: int, j: int| 0 <= i < j < t.len() implies !entry_before(
                #[trigger] t[j],
                #[trigger] t[i],
            ) by {
                assert(t[i] == s[i] && t[j] == s[j]);
            }
        }
        lemma_insert_sorted_keeps_order(t, x);
        let it = insert_sorted(t, x);
        let r = it.push(l);
        assert forall|i: int, j: int| 0 <= i < j < r.len() implies !entry_before(
            #[trigger] r[j],
            #[trigger] r[i],
        ) by {
            if j == it.len() {
                let e = it[i];
                assert(it.contains(e));
                lemma_insert_contains(t, x, e);
                if e == x {
                    lemma_before_asymmetric(x, l);
                } else {
                    let m = choose|m: int| 0 <= m < t.len() && t[m] == e;
                    assert(s[m] == e);
                    assert(!entry_before(s[s.len() - 1], s[m]));
                }
            } else {
                assert(r[i] == it[i] && r[j] == it[j]);
            }
        }
    }
}

/// A listing is in order: no entry comes before an entry that it should follow.
pub proof fn lemma_listing_sorted(s: Seq<Keyed>)
    ensures
        is_listing_sorted(listing_order(s)),
    decreases s.len(),
{
    if s.len() > 0 {
        lemma_listing_sorted(s.drop_last());
        lemma_insert_sorted_keeps_order(listing_order(s.drop_last()), s.last());
    }
}

proof fn lemma_insert_multiset(s: Seq<Keyed>, x: Keyed)
    ensures
        insert_sorted(s, x).to_multiset() == s.to_multiset().insert(x),
    decreases s.len(),
{
    if s.len() == 0 {
        assert(seq![x] == Seq::<Keyed>::empty().push(x));
    } else if !entry_before(x, s.last()) {
    } else {
        lemma_insert_multiset(s.drop_last(), x);
        assert(s.drop_last().push(s.last()) == s);
        assert(s.to_multiset() == s.drop_last().to_multiset().insert(s.last()));
    }
}

/// A listing holds exactly the entries it was given.
pub proof fn lemma_listing_permutation(s: Seq<Keyed>)
    ensures
        listing_order(s).to_multiset() == s.to_multiset(),
    decreases s.len(),
{
    if s.len() > 0 {
        lemma_listing_permutation(s.drop_last());
        lemma_insert_multiset(listing_order(s.drop_last()), s.last());
        assert(s.drop_last().push(s.last()) == s);
    }
}

/// The entries of `s` that have the same rank as `y`, in their order in `s`.
pub open spec fn same_rank_entries(s: Seq<Keyed>, y: Keyed) -> Seq<Keyed>
    decreases s.len(),
{
    if s.len() == 0 {
        s
    } else if same_rank(s.last(), y) {
        same_rank_entries(s.drop_last(), y).push(s.last())
    } else {
        same_rank_entries(s.drop_last(), y)
    }
}

proof fn lemma_insert_same_rank(s: Seq<Keyed>, x: Keyed, y: Keyed)
    ensures
        same_rank_entries(insert_sorted(s, x), y) == (if same_rank(x, y) {
            same_rank_entries(s, y).push(x)
        } else {
            same_rank_entries(s, y)
        }),
    decreases s.len(),
{
    if s.len() == 0 {
        assert(seq![x].drop_last() == s);
        assert(seq![x].last() == x);
    } else if !entry_before(x, s.last()) {
        assert(s.push(x).drop_last() == s);
        assert(s.push(x).last() == x);
    } else {
        let t = s.drop_last();
        let l = s.last();
        lemma_insert_same_rank(t, x, y);
        lemma_before_asymmetric(x, l);
        let it = insert_sorted(t, x);
        assert(it.push(l).drop_last() == it);
        assert(it.push(l).last() == l);
    }
}

/// Entries that compare equal keep the order they were read in: for every entry
/// `y`, the entries of the same rank as `y` appear in the listing in their original
/// order.
pub proof fn lemma_listing_stable(s: Seq<Keyed>, y: Keyed)
    ensures
        same_rank_entries(listing_order(s), y) == same_rank_entries(s, y),
    decreases s.len(),
{
    if s.len() > 0 {
        lemma_listing_stable(s.drop_last(), y);
        lemma_insert_same_rank(listing_order(s.drop_last()), s.last(), y);
    }
}

/// In a listing every folder comes before every file, and entries of the same kind
/// come in ascending order of their ordering names.
pub proof fn lemma_listing_folders_first(s: Seq<Keyed>)
    ensures
        forall|i: int, j: int|
            0 <= i < j < listing_order(s).len() && (#[trigger] listing_order(s)[j]).0.is_dir
                ==> (#[trigger] listing_order(s)[i]).0.is_dir,
        forall|i: int, j: int|
            0 <= i < j < listing_order(s).len() && (#[trigger] listing_order(s)[i]).0.is_dir
                == (#[trigger] listing_order(s)[j]).0.is_dir ==> !lex_lt(
                listing_order(s)[j].1,
                listing_order(s)[i].1,
            ),
{
    lemma_listing_sorted(s);
}

/// Names are ordered character by character from the start by code point, a name
/// coming before every longer name that it begins.
pub proof fn lemma_lex_order(p: Seq<char>, c1: char, c2: char, x: Seq<char>, y: Seq<char>)
    ensures
        c1 != c2 ==> lex_lt(p + seq![c1] + x, p + seq![c2] + y) == (c1 < c2),
        lex_lt(p, p + seq![c1] + x),
        !lex_lt(p + seq![c1] + x, p),
    decreases p.len(),
{
    if p.len() > 0 {
        lemma_lex_order(p.skip(1), c1, c2, x, y);
        assert((p + seq![c1] + x).skip(1) == p.skip(1) + seq![c1] + x);
        assert((p + seq![c2] + y).skip(1) == p.skip(1) + seq![c2] + y);
        assert((p + seq![c1] + x)[0] == p[0]);
        assert((p + seq![c2] + y)[0] == p[0]);
    } else {
        assert(p + seq![c1] + x == seq![c1] + x);
        assert(p + seq![c2] + y == seq![c2] + y);
    }
}

} // verus!
