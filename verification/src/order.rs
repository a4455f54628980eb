//! Orders on texts and sorting by them.

use vstd::prelude::*;

verus! {

/// Dictionary order by code point.
pub open spec fn text_le(a: Seq<char>, b: Seq<char>) -> bool
    decreases a.len(),
{
    if a.len() == 0 {
        true
    } else if b.len() == 0 {
        false
    } else if a[0] != b[0] {
        a[0] < b[0]
    } else {
        text_le(a.skip(1), b.skip(1))
    }
}

pub proof fn lemma_text_total(a: Seq<char>, b: Seq<char>)
    ensures
        text_le(a, b) || text_le(b, a),
    decreases a.len(),
{
    if a.len() > 0 && b.len() > 0 && a[0] == b[0] {
        lemma_text_total(a.skip(1), b.skip(1));
    }
}

pub proof fn lemma_text_transitive(a: Seq<char>, b: Seq<char>, c: Seq<char>)
    requires
        text_le(a, b),
        text_le(b, c),
    ensures
        text_le(a, c),
    decreases a.len(),
{
    if a.len() > 0 && b.len() > 0 && c.len() > 0 && a[0] == b[0] && b[0] == c[0] {
        lemma_text_transitive(a.skip(1), b.skip(1), c.skip(1));
    }
}

pub proof fn lemma_text_antisymmetric(a: Seq<char>, b: Seq<char>)
    requires
        text_le(a, b),
        text_le(b, a),
    ensures
        a == b,
    decreases a.len(),
{
    if a.len() > 0 && b.len() > 0 {
        lemma_text_antisymmetric(a.skip(1), b.skip(1));
        assert(a =~= seq![a[0]] + a.skip(1));
        assert(b =~= seq![b[0]] + b.skip(1));
    } else {
        assert(a =~= b);
    }
}

pub fn chars_le(a: &[char], b: &[char]) -> (yes: bool)
    ensures
        yes == text_le(a@, b@),
{
    let mut i: usize = 0;
    assert(a@.skip(0) =~= a@);
    assert(b@.skip(0) =~= b@);
    while i < a.len() && i < b.len()
        invariant
            i <= a.len(),
            i <= b.len(),
            text_le(a@, b@) == text_le(a@.skip(i as int), b@.skip(i as int)),
        decreases a.len() - i,
    {
        if a[i] != b[i] {
            return a[i] < b[i];
        }
        assert(a@.skip(i as int).skip(1) =~= a@.skip(i + 1));
        assert(b@.skip(i as int).skip(1) =~= b@.skip(i + 1));
        i += 1;
    }
    i == a.len()
}

/// Whether `a` comes before `b` in dictionary order, or is the same.
pub fn text_not_after(a: &str, b: &str) -> (yes: bool)
    ensures
        yes == text_le(a@, b@),
{
    chars_le(&crate::text::to_chars(a), &crate::text::to_chars(b))
}

/// Values that a total order ranks.
pub trait Ranked: Sized {
    spec fn rank_le(self, other: Self) -> bool;

    proof fn rank_total(a: Self, b: Self)
        ensures
            a.rank_le(b) || b.rank_le(a),
    ;

    proof fn rank_transitive(a: Self, b: Self, c: Self)
        requires
            a.rank_le(b),
            b.rank_le(c),
        ensures
            a.rank_le(c),
    ;

    fn not_after(&self, other: &Self) -> (yes: bool)
        ensures
            yes == self.rank_le(*other),
    ;
}

pub open spec fn is_sorted<T: Ranked>(s: Seq<T>) -> bool {
    forall|i: int, j: int|
        #![trigger s[i], s[j]]
        0 <= i <= j < s.len() ==> s[i].rank_le(s[j])
}

/// Every value of `a` ranks before every value of `b`, or with it.
spec fn all_before<T: Ranked>(a: Seq<T>, b: Seq<T>) -> bool {
    forall|i: int, j: int|
        #![trigger a[i], b[j]]
        0 <= i < a.len() && 0 <= j < b.len() ==> a[i].rank_le(b[j])
}

spec fn is_sorted_down<T: Ranked>(s: Seq<T>) -> bool {
    forall|i: int, j: int|
        #![trigger s[i], s[j]]
        0 <= i <= j < s.len() ==> s[j].rank_le(s[i])
}

proof fn lemma_pop_multiset<T>(s: Seq<T>)
    requires
        s.len() > 0,
    ensures
        s.to_multiset() == s.drop_last().to_multiset().insert(s.last()),
{
    s.drop_last().to_multiset_ensures();
    assert(s.drop_last().push(s.last()) =~= s);
}

fn reverse<T: Ranked>(items: Vec<T>) -> (reversed: Vec<T>)
    requires
        is_sorted_down(items@),
    ensures
        is_sorted(reversed@),
        reversed@.to_multiset() == items@.to_multiset(),
{
    let mut rest = items;
    let mut reversed: Vec<T> = Vec::new();
    proof {
        Seq::<T>::empty().to_multiset_ensures();
        assert(rest@.to_multiset().add(reversed@.to_multiset()) =~= items@.to_multiset());
    }
    while rest.len() > 0
        invariant
            is_sorted_down(rest@),
            is_sorted(reversed@),
            all_before(reversed@, rest@),
            rest@.to_multiset().add(reversed@.to_multiset()) == items@.to_multiset(),
        decreases rest.len(),
    {
        let ghost before = rest@;
        let ghost done = reversed@;
        let last = match rest.pop() {
            Some(last) => last,
            None => {
                return reversed;
            },
        };
        proof {
            lemma_pop_multiset(before);
            T::rank_total(last, last);
            assert forall|i: int, j: int|
                #![trigger done.push(last)[i], done.push(last)[j]]
                0 <= i <= j < done.len() + 1 implies done.push(last)[i].rank_le(
                done.push(last)[j],
            ) by {
                if j == done.len() && i < done.len() {
                    assert(done[i].rank_le(before[before.len() - 1]));
                }
            }
            assert forall|i: int, j: int|
                #![trigger done.push(last)[i], rest@[j]]
                0 <= i < done.len() + 1 && 0 <= j < rest@.len() implies done.push(last)[i].rank_le(
                rest@[j],
            ) by {
                assert(rest@[j] == before[j]);
                if i == done.len() {
                    assert(before[before.len() - 1].rank_le(before[j]));
                }
            }
            done.to_multiset_ensures();
        }
        reversed.push(last);
        assert(rest@.to_multiset().add(reversed@.to_multiset()) =~= items@.to_multiset());
    }
    proof {
        rest@.to_multiset_ensures();
        assert(reversed@.to_multiset() =~= items@.to_multiset());
    }
    reversed
}

spec fn merging<T: Ranked>(a: Seq<T>, b: Seq<T>, out: Seq<T>) -> bool {
    &&& is_sorted(a)
    &&& is_sorted(b)
    &&& is_sorted_down(out)
    &&& all_before(a, out)
    &&& all_before(b, out)
}

/// Taking the last value of `a`, when it ranks with or after the last of `b`.
proof fn lemma_take_last<T: Ranked>(a: Seq<T>, b: Seq<T>, out: Seq<T>)
    requires
        a.len() > 0,
        merging(a, b, out),
        b.len() > 0 ==> b.last().rank_le(a.last()),
    ensures
        merging(a.drop_last(), b, out.push(a.last())),
{
    let x = a.last();
    let more = out.push(x);
    T::rank_total(x, x);
    assert forall|i: int, j: int|
        #![trigger more[i], more[j]]
        0 <= i <= j < more.len() implies more[j].rank_le(more[i]) by {
        if j == out.len() && i < out.len() {
            assert(a[a.len() - 1].rank_le(out[i]));
        }
    }
    assert forall|i: int, j: int|
        #![trigger a.drop_last()[i], more[j]]
        0 <= i < a.drop_last().len() && 0 <= j < more.len() implies a.drop_last()[i].rank_le(
        more[j],
    ) by {
        assert(a.drop_last()[i] == a[i]);
        assert(a[i].rank_le(a[a.len() - 1]));
    }
    assert forall|i: int, j: int|
        #![trigger b[i], more[j]]
        0 <= i < b.len() && 0 <= j < more.len() implies b[i].rank_le(more[j]) by {
        if j == out.len() {
            assert(b[i].rank_le(b[b.len() - 1]));
            T::rank_transitive(b[i], b.last(), x);
        }
    }
}

fn merge<T: Ranked>(left: Vec<T>, right: Vec<T>) -> (merged: Vec<T>)
    requires
        is_sorted(left@),
        is_sorted(right@),
    ensures
        is_sorted(merged@),
        merged@.to_multiset() == left@.to_multiset().add(right@.to_multiset()),
{
    let mut a = left;
    let mut b = right;
    let mut out: Vec<T> = Vec::new();
    let ghost all = left@.to_multiset().add(right@.to_multiset());
    proof {
        Seq::<T>::empty().to_multiset_ensures();
        assert(a@.to_multiset().add(b@.to_multiset()).add(out@.to_multiset()) =~= all);
    }
    while a.len() > 0 || b.len() > 0
        invariant
            merging(a@, b@, out@),
            a@.to_multiset().add(b@.to_multiset()).add(out@.to_multiset()) == all,
        decreases a.len() + b.len(),
    {
        let take_right = if a.len() == 0 {
            true
        } else if b.len() == 0 {
            false
        } else {
            a[a.len() - 1].not_after(&b[b.len() - 1])
        };
        let ghost (x, y, z) = (a@, b@, out@);
        proof {
            z.to_multiset_ensures();
            if take_right {
                lemma_pop_multiset(y);
                lemma_take_last(y, x, z);
            } else {
                if y.len() > 0 {
                    T::rank_total(x.last(), y.last());
                }
                lemma_pop_multiset(x);
                lemma_take_last(x, y, z);
            }
        }
        if take_right {
            if let Some(item) = b.pop() {
                out.push(item);
            }
        } else {
            if let Some(item) = a.pop() {
                out.push(item);
            }
        }
        assert(a@.to_multiset().add(b@.to_multiset()).add(out@.to_multiset()) =~= all);
    }
    proof {
        a@.to_multiset_ensures();
        b@.to_multiset_ensures();
        assert(out@.to_multiset() =~= all);
    }
    reverse(out)
}

/// The same values in their order.
pub fn sort<T: Ranked>(items: Vec<T>) -> (sorted: Vec<T>)
    ensures
        is_sorted(sorted@),
        sorted@.to_multiset() == items@.to_multiset(),
    decreases items.len(),
{
    let mut left = items;
    if left.len() <= 1 {
        proof {
            if left.len() == 1 {
                T::rank_total(left@[0], left@[0]);
            }
        }
        return left;
    }
    let middle: usize = left.len() / 2;
    let right = left.split_off(middle);
    proof {
        assert(left@ + right@ =~= items@);
        vstd::seq_lib::lemma_multiset_commutative(left@, right@);
    }
    let left = sort(left);
    let right = sort(right);
    merge(left, right)
}

impl Ranked for String {
    open spec fn rank_le(self, other: Self) -> bool {
        text_le(self@, other@)
    }

    proof fn rank_total(a: Self, b: Self) {
        lemma_text_total(a@, b@);
    }

    proof fn rank_transitive(a: Self, b: Self, c: Self) {
        lemma_text_transitive(a@, b@, c@);
    }

    fn not_after(&self, other: &Self) -> (yes: bool) {
        text_not_after(self, other)
    }
}

impl Ranked for crate::model::ManifestEntry {
    open spec fn rank_le(self, other: Self) -> bool {
        text_le(self.relative_path@, other.relative_path@)
    }

    proof fn rank_total(a: Self, b: Self) {
        lemma_text_total(a.relative_path@, b.relative_path@);
    }

    proof fn rank_transitive(a: Self, b: Self, c: Self) {
        lemma_text_transitive(a.relative_path@, b.relative_path@, c.relative_path@);
    }

    fn not_after(&self, other: &Self) -> (yes: bool) {
        text_not_after(&self.relative_path, &other.relative_path)
    }
}

impl Ranked for crate::model::HashedFile {
    open spec fn rank_le(self, other: Self) -> bool {
        text_le(self.entry.relative_path@, other.entry.relative_path@)
    }

    proof fn rank_total(a: Self, b: Self) {
        lemma_text_total(a.entry.relative_path@, b.entry.relative_path@);
    }

    proof fn rank_transitive(a: Self, b: Self, c: Self) {
        lemma_text_transitive(
            a.entry.relative_path@,
            b.entry.relative_path@,
            c.entry.relative_path@,
        );
    }

    fn not_after(&self, other: &Self) -> (yes: bool) {
        text_not_after(&self.entry.relative_path, &other.entry.relative_path)
    }
}

/// Texts are ordered by the first place where they differ, and a text comes before what
/// continues it.
pub proof fn law_texts_are_ordered_by_their_first_difference(a: Seq<char>, b: Seq<char>)
    ensures
        text_le(a, b) <==> exists|n: int|
            0 <= n <= a.len() && n <= b.len() && #[trigger] a.take(n) == b.take(n) && (n == a.len()
                || n < b.len() && a[n] < b[n]),
    decreases a.len(),
{
    if a.len() == 0 {
        assert(a.take(0) =~= b.take(0));
    } else if b.len() == 0 {
    } else if a[0] != b[0] {
        if a[0] < b[0] {
            assert(a.take(0) =~= b.take(0));
        }
        assert forall|n: int|
            0 <= n <= a.len() && n <= b.len() && #[trigger] a.take(n) == b.take(n) && (n == a.len()
                || n < b.len() && a[n] < b[n]) implies a[0] < b[0] by {
            if n > 0 {
                assert(a.take(n)[0] == b.take(n)[0]);
            }
        }
    } else {
        let (x, y) = (a.skip(1), b.skip(1));
        law_texts_are_ordered_by_their_first_difference(x, y);
        if text_le(x, y) {
            let n = choose|n: int|
                0 <= n <= x.len() && n <= y.len() && #[trigger] x.take(n) == y.take(n) && (n
                    == x.len() || n < y.len() && x[n] < y[n]);
            assert forall|k: int| 0 <= k < n + 1 implies a[k] == b[k] by {
                if k > 0 {
                    assert(x.take(n)[k - 1] == y.take(n)[k - 1]);
                }
            }
            assert(a.take(n + 1) =~= b.take(n + 1));
        }
        assert forall|n: int|
            0 <= n <= a.len() && n <= b.len() && #[trigger] a.take(n) == b.take(n) && (n == a.len()
                || n < b.len() && a[n] < b[n]) implies text_le(x, y) by {
            if n > 0 {
                assert forall|k: int| 0 <= k < n - 1 implies x[k] == y[k] by {
                    assert(a.take(n)[k + 1] == b.take(n)[k + 1]);
                }
                assert(x.take(n - 1) =~= y.take(n - 1));
            }
        }
    }
}

/// In a sorted list of entries what lies below a directory comes after it.
pub proof fn law_directories_come_before_their_contents(
    entries: Seq<crate::model::ManifestEntry>,
    upper: int,
    lower: int,
)
    requires
        is_sorted(entries),
        0 <= upper < entries.len(),
        0 <= lower < entries.len(),
        ({
            let (a, b) = (entries[upper].relative_path@, entries[lower].relative_path@);
            a.len() < b.len() && b[a.len() as int] == '/' && b.take(a.len() as int) == a
        }),
    ensures
        upper < lower,
{
    let (a, b) = (entries[upper].relative_path@, entries[lower].relative_path@);
    if lower <= upper {
        assert(entries[lower].rank_le(entries[upper]));
        law_texts_are_ordered_by_their_first_difference(a, b);
        let n = a.len() as int;
        assert(a.take(n) =~= b.take(n));
        lemma_text_antisymmetric(a, b);
    }
}

/// Sorted entries, and sorted hashed files, never go back in the order of their paths,
/// and equal paths stand together.
pub proof fn law_sorted_paths_never_go_back(
    entries: Seq<crate::model::ManifestEntry>,
    files: Seq<crate::model::HashedFile>,
    i: int,
    j: int,
    k: int,
)
    requires
        is_sorted(entries),
        is_sorted(files),
        0 <= i <= j <= k,
    ensures
        j < entries.len() ==> text_le(entries[i].relative_path@, entries[j].relative_path@),
        k < entries.len() && entries[i].relative_path@ == entries[k].relative_path@
            ==> entries[j].relative_path@ == entries[i].relative_path@,
        j < files.len() ==> text_le(files[i].entry.relative_path@, files[j].entry.relative_path@),
        k < files.len() && files[i].entry.relative_path@ == files[k].entry.relative_path@
            ==> files[j].entry.relative_path@ == files[i].entry.relative_path@,
{
    if k < entries.len() {
        assert(entries[i].rank_le(entries[j]));
        assert(entries[j].rank_le(entries[k]));
        if entries[i].relative_path@ == entries[k].relative_path@ {
            lemma_text_antisymmetric(entries[i].relative_path@, entries[j].relative_path@);
        }
    }
    if j < entries.len() {
        assert(entries[i].rank_le(entries[j]));
    }
    if k < files.len() {
        assert(files[i].rank_le(files[j]));
        assert(files[j].rank_le(files[k]));
        if files[i].entry.relative_path@ == files[k].entry.relative_path@ {
            lemma_text_antisymmetric(files[i].entry.relative_path@, files[j].entry.relative_path@);
        }
    }
    if j < files.len() {
        assert(files[i].rank_le(files[j]));
    }
}

} // verus!
