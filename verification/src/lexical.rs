//! Ordering, sorting and merging of lists of texts.
//!
//! Texts are ordered the way `String`'s `Ord` orders them: character by
//! character by code point, a proper prefix coming first.
use vstd::prelude::*;
use vstd::relations::{sorted_by, total_ordering};

verus! {

broadcast use vstd::seq_lib::group_to_multiset_ensures;

/// The texts held by a list of strings.
pub open spec fn texts(v: Seq<String>) -> Seq<Seq<char>> {
    v.map_values(|s: String| s@)
}

/// `a` comes before `b` or equals it, character by character.
pub open spec fn lex_le(a: Seq<char>, b: Seq<char>) -> bool
    decreases a.len(),
{
    if a.len() == 0 {
        true
    } else if b.len() == 0 {
        false
    } else if a[0] != b[0] {
        a[0] < b[0]
    } else {
        lex_le(a.drop_first(), b.drop_first())
    }
}

/// `lex_le` as a relation value.
pub open spec fn lex_order() -> spec_fn(Seq<char>, Seq<char>) -> bool {
    |a: Seq<char>, b: Seq<char>| lex_le(a, b)
}

proof fn lemma_lex_reflexive(a: Seq<char>)
    ensures
        lex_le(a, a),
    decreases a.len(),
{
    if a.len() > 0 {
        lemma_lex_reflexive(a.drop_first());
    }
}

proof fn lemma_lex_antisymmetric(a: Seq<char>, b: Seq<char>)
    requires
        lex_le(a, b),
        lex_le(b, a),
    ensures
        a == b,
    decreases a.len(),
{
    if a.len() == 0 {
        assert(b.len() == 0);
        assert(a =~= b);
    } else {
        assert(b.len() > 0);
        assert(a[0] == b[0]);
        lemma_lex_antisymmetric(a.drop_first(), b.drop_first());
        assert(a =~= seq![a[0]] + a.drop_first());
        assert(b =~= seq![b[0]] + b.drop_first());
    }
}

proof fn lemma_lex_transitive(a: Seq<char>, b: Seq<char>, c: Seq<char>)
    requires
        lex_le(a, b),
        lex_le(b, c),
    ensures
        lex_le(a, c),
    decreases a.len(),
{
    if a.len() > 0 && b.len() > 0 && c.len() > 0 {
        if a[0] == b[0] && b[0] == c[0] {
            lemma_lex_transitive(a.drop_first(), b.drop_first(), c.drop_first());
        }
    }
}

proof fn lemma_lex_total(a: Seq<char>, b: Seq<char>)
    ensures
        lex_le(a, b) || lex_le(b, a),
    decreases a.len(),
{
    if a.len() > 0 && b.len() > 0 && a[0] == b[0] {
        lemma_lex_total(a.drop_first(), b.drop_first());
    }
}

/// `lex_le` is a total order.
pub proof fn lemma_lex_total_ordering()
    ensures
        total_ordering(lex_order()),
{
    assert forall|a: Seq<char>| #[trigger] lex_order()(a, a) by {
        lemma_lex_reflexive(a);
    }
    assert forall|a: Seq<char>, b: Seq<char>|
        #[trigger] lex_order()(a, b) && #[trigger] lex_order()(b, a) implies a == b by {
        lemma_lex_antisymmetric(a, b);
    }
    assert forall|a: Seq<char>, b: Seq<char>, c: Seq<char>|
        #[trigger] lex_order()(a, b) && #[trigger] lex_order()(b, c) implies lex_order()(a, c) by {
        lemma_lex_transitive(a, b, c);
    }
    assert forall|a: Seq<char>, b: Seq<char>|
        #[trigger] lex_order()(a, b) || #[trigger] lex_order()(b, a) by {
        lemma_lex_total(a, b);
    }
}

proof fn lemma_lex_skip(a: Seq<char>, b: Seq<char>, i: int)
    requires
        0 <= i <= a.len(),
        i <= b.len(),
        forall|k: int| 0 <= k < i ==> a[k] == b[k],
    ensures
        lex_le(a, b) == lex_le(a.skip(i), b.skip(i)),
    decreases i,
{
    if i > 0 {
        lemma_lex_skip(a.drop_first(), b.drop_first(), i - 1);
        assert(a.drop_first().skip(i - 1) =~= a.skip(i));
        assert(b.drop_first().skip(i - 1) =~= b.skip(i));
    } else {
        assert(a.skip(0) =~= a);
        assert(b.skip(0) =~= b);
    }
}

/// Returns whether `a` comes before `b` or equals it.
pub fn str_le(a: &str, b: &str) -> (r: bool)
    ensures
        r == lex_le(a@, b@),
{
    let n = a.unicode_len();
    let m = b.unicode_len();
    let mut i: usize = 0;
    while i < n && i < m
        invariant
            n == a@.len(),
            m == b@.len(),
            i <= n,
            i <= m,
            forall|k: int| 0 <= k < i ==> a@[k] == b@[k],
        decreases n - i,
    {
        let x = a.get_char(i);
        let y = b.get_char(i);
        if x != y {
            proof {
                lemma_lex_skip(a@, b@, i as int);
                assert(a@.skip(i as int)[0] == x);
                assert(b@.skip(i as int)[0] == y);
            }
            return x < y;
        }
        i = i + 1;
    }
    proof {
        lemma_lex_skip(a@, b@, i as int);
    }
    i == n
}

/// Returns whether one of the strings holds the text `t`.
pub fn texts_contain(v: &Vec<String>, t: &str) -> (r: bool)
    ensures
        r == texts(v@).contains(t@),
{
    let mut i: usize = 0;
    while i < v.len()
        invariant
            i <= v.len(),
            forall|k: int| 0 <= k < i ==> v@[k]@ != t@,
        decreases v.len() - i,
    {
        if crate::strings::str_eq(v[i].as_str(), t) {
            assert(texts(v@)[i as int] == t@);
            return true;
        }
        i = i + 1;
    }
    proof {
        if texts(v@).contains(t@) {
            let k = choose|k: int| 0 <= k < texts(v@).len() && texts(v@)[k] == t@;
            assert(v@[k]@ == t@);
        }
    }
    false
}

/// A copy of a list of strings.
pub fn copy_texts(v: &Vec<String>) -> (r: Vec<String>)
    ensures
        texts(r@) == texts(v@),
{
    let mut r: Vec<String> = Vec::new();
    let mut i: usize = 0;
    while i < v.len()
        invariant
            i <= v.len(),
            texts(r@) == texts(v@).take(i as int),
        decreases v.len() - i,
    {
        let ghost old_r = r@;
        let c = v[i].clone();
        assert(c@ == v@[i as int]@);
        r.push(c);
        assert(texts(r@) =~= texts(old_r).push(c@));
        assert(texts(v@).take(i + 1) =~= texts(v@).take(i as int).push(c@));
        i = i + 1;
    }
    assert(texts(v@).take(v.len() as int) =~= texts(v@));
    r
}

/// The texts in ascending order.
pub open spec fn sorted_texts(s: Seq<Seq<char>>) -> Seq<Seq<char>> {
    s.sort_by(lex_order())
}

/// Sorts a list of strings into ascending order.
pub fn sort_texts(v: &mut Vec<String>)
    ensures
        sorted_by(texts(final(v)@), lex_order()),
        texts(final(v)@).to_multiset() == texts(old(v)@).to_multiset(),
        texts(final(v)@) == sorted_texts(texts(old(v)@)),
{
    proof {
        lemma_lex_total_ordering();
    }
    let mut res: Vec<String> = Vec::new();
    let mut i: usize = 0;
    let n = v.len();
    while i < n
        invariant
            n == v.len(),
            i <= n,
            total_ordering(lex_order()),
            sorted_by(texts(res@), lex_order()),
            texts(res@).to_multiset() == texts(v@).take(i as int).to_multiset(),
        decreases n - i,
    {
        let x = v[i].clone();
        let mut pos: usize = 0;
        while pos < res.len()
            invariant
                pos <= res.len(),
                forall|k: int| 0 <= k < pos ==> lex_le(#[trigger] res@[k]@, x@),
            ensures
                pos <= res.len(),
                forall|k: int| 0 <= k < pos ==> lex_le(#[trigger] res@[k]@, x@),
                pos < res.len() ==> !lex_le(res@[pos as int]@, x@),
            decreases res.len() - pos,
        {
            if !str_le(res[pos].as_str(), x.as_str()) {
                break;
            }
            pos = pos + 1;
        }
        let ghost before = texts(res@);
        proof {
            // Everything from `pos` on comes after `x`.
            if pos < res.len() {
                assert(!lex_le(res@[pos as int]@, x@));
                assert forall|k: int| pos <= k < res.len() implies !lex_le(
                    #[trigger] res@[k]@,
                    x@,
                ) by {
                    let t = texts(res@);
                    assert(t[pos as int] == res@[pos as int]@);
                    assert(t[k] == res@[k]@);
                    if pos < k {
                        assert(lex_order()(t[pos as int], t[k]));
                    }
                    if lex_le(res@[k]@, x@) {
                        lemma_lex_transitive(res@[pos as int]@, res@[k]@, x@);
                    }
                }
            }
        }
        res.insert(pos, x);
        proof {
            assert(texts(res@) =~= before.insert(pos as int, x@));
            assert(texts(v@).take(i + 1) =~= texts(v@).take(i as int).push(x@));
            assert forall|a: int, b: int| 0 <= a < b < texts(res@).len() implies #[trigger] lex_order()(
                texts(res@)[a],
                texts(res@)[b],
            ) by {
                let t = texts(res@);
                if a < pos && b == pos {
                } else if a == pos && b > pos {
                    lemma_lex_total(x@, before[b - 1]);
                } else if a < pos && b > pos {
                    lemma_lex_total(x@, before[b - 1]);
                    lemma_lex_transitive(before[a], x@, before[b - 1]);
                } else if b < pos {
                    assert(lex_order()(before[a], before[b]));
                } else {
                    assert(lex_order()(before[a - 1], before[b - 1]));
                }
            }
        }
        i = i + 1;
    }
    assert(texts(v@).take(n as int) =~= texts(v@));
    *v = res;
    proof {
        lemma_lex_total_ordering();
        texts(old(v)@).lemma_sort_by_ensures(lex_order());
        vstd::seq_lib::lemma_sorted_unique(texts(v@), sorted_texts(texts(old(v)@)), lex_order());
    }
}

/// Runs of equal neighbours collapsed to one element, as `Vec::dedup` leaves them.
pub open spec fn dedup_adjacent(s: Seq<Seq<char>>) -> Seq<Seq<char>>
    decreases s.len(),
{
    if s.len() <= 1 {
        s
    } else {
        let d = dedup_adjacent(s.drop_last());
        if s[s.len() - 2] == s.last() {
            d
        } else {
            d.push(s.last())
        }
    }
}

/// Removes consecutive repeated texts, keeping the first of each run.
pub fn dedup_texts(v: &mut Vec<String>)
    ensures
        texts(final(v)@) == dedup_adjacent(texts(old(v)@)),
{
    let mut res: Vec<String> = Vec::new();
    let n = v.len();
    let mut i: usize = 0;
    while i < n
        invariant
            n == v.len(),
            i <= n,
            texts(res@) == dedup_adjacent(texts(v@).take(i as int)),
        decreases n - i,
    {
        let ghost t = texts(v@);
        assert(t.take(i + 1).drop_last() =~= t.take(i as int));
        let keep = if i == 0 {
            true
        } else {
            v[i] != v[i - 1]
        };
        if keep {
            let ghost old_res = res@;
            let c = v[i].clone();
            res.push(c);
            assert(texts(res@) =~= texts(old_res).push(c@));
        }
        proof {
            if i == 0 {
                assert(t.take(1) =~= seq![t[0]]);
                assert(dedup_adjacent(t.take(0)) =~= Seq::<Seq<char>>::empty());
                assert(texts(res@) =~= seq![t[0]]);
            } else {
                assert(t.take(i + 1)[i - 1] == v@[i - 1]@);
                assert(t.take(i + 1).last() == v@[i as int]@);
            }
        }
        i = i + 1;
    }
    assert(texts(v@).take(n as int) =~= texts(v@));
    *v = res;
}

/// `acc` followed by each text of `t` that is not already there, in order;
/// a text repeated in `t` is added once.
pub open spec fn append_missing(acc: Seq<Seq<char>>, t: Seq<Seq<char>>) -> Seq<Seq<char>>
    decreases t.len(),
{
    if t.len() == 0 {
        acc
    } else {
        let a = append_missing(acc, t.drop_last());
        if a.contains(t.last()) {
            a
        } else {
            a.push(t.last())
        }
    }
}

/// Appends to `dst` each text of `src` that `dst` does not hold yet.
pub fn append_missing_texts(dst: &mut Vec<String>, src: &Vec<String>)
    ensures
        texts(final(dst)@) == append_missing(texts(old(dst)@), texts(src@)),
{
    let ghost start = texts(dst@);
    let n = src.len();
    let mut i: usize = 0;
    while i < n
        invariant
            n == src.len(),
            i <= n,
            texts(dst@) == append_missing(start, texts(src@).take(i as int)),
        decreases n - i,
    {
        let ghost t = texts(src@);
        assert(t.take(i + 1).drop_last() =~= t.take(i as int));
        assert(t.take(i + 1).last() == src@[i as int]@);
        if !texts_contain(dst, src[i].as_str()) {
            let ghost old_dst = dst@;
            let c = src[i].clone();
            dst.push(c);
            assert(texts(dst@) =~= texts(old_dst).push(c@));
        }
        i = i + 1;
    }
    assert(texts(src@).take(n as int) =~= texts(src@));
}

/// Returns whether two lists of strings hold the same texts in the same order.
pub fn texts_equal(a: &Vec<String>, b: &Vec<String>) -> (r: bool)
    ensures
        r == (texts(a@) == texts(b@)),
{
    if a.len() != b.len() {
        assert(texts(a@).len() != texts(b@).len());
        return false;
    }
    let mut i: usize = 0;
    while i < a.len()
        invariant
            a.len() == b.len(),
            i <= a.len(),
            forall|k: int| 0 <= k < i ==> a@[k]@ == b@[k]@,
        decreases a.len() - i,
    {
        if a[i] != b[i] {
            assert(texts(a@)[i as int] != texts(b@)[i as int]);
            return false;
        }
        i = i + 1;
    }
    assert(texts(a@) =~= texts(b@));
    true
}

/// Every text that `append_missing` started with or was given is in its result.
pub proof fn lemma_append_missing_keeps_all(acc: Seq<Seq<char>>, t: Seq<Seq<char>>)
    ensures
        forall|i: int| 0 <= i < acc.len() ==> append_missing(acc, t).contains(#[trigger] acc[i]),
        forall|i: int| 0 <= i < t.len() ==> append_missing(acc, t).contains(#[trigger] t[i]),
        append_missing(acc, t).len() >= acc.len(),
        append_missing(acc, t).take(acc.len() as int) == acc,
    decreases t.len(),
{
    if t.len() > 0 {
        lemma_append_missing_keeps_all(acc, t.drop_last());
        let a = append_missing(acc, t.drop_last());
        assert forall|i: int| 0 <= i < acc.len() implies append_missing(acc, t).contains(#[trigger] acc[i]) by {
            assert(a.contains(acc[i]));
            if !a.contains(t.last()) {
                let k = choose|k: int| 0 <= k < a.len() && a[k] == acc[i];
                assert(a.push(t.last())[k] == acc[i]);
            }
        }
        assert forall|i: int| 0 <= i < t.len() implies append_missing(acc, t).contains(#[trigger] t[i]) by {
            if i < t.len() - 1 {
                assert(t.drop_last()[i] == t[i]);
                assert(a.contains(t[i]));
                if !a.contains(t.last()) {
                    let k = choose|k: int| 0 <= k < a.len() && a[k] == t[i];
                    assert(a.push(t.last())[k] == t[i]);
                }
            } else {
                if !a.contains(t.last()) {
                    assert(a.push(t.last())[a.len() as int] == t.last());
                }
            }
        }
        if !a.contains(t.last()) {
            assert(a.push(t.last()).take(acc.len() as int) =~= a.take(acc.len() as int));
        }
    } else {
        assert(acc.take(acc.len() as int) =~= acc);
    }
}

/// Appending texts that are all there already changes nothing.
pub proof fn lemma_append_present(acc: Seq<Seq<char>>, t: Seq<Seq<char>>)
    requires
        forall|i: int| 0 <= i < t.len() ==> acc.contains(#[trigger] t[i]),
    ensures
        append_missing(acc, t) == acc,
    decreases t.len(),
{
    if t.len() > 0 {
        assert forall|i: int| 0 <= i < t.drop_last().len() implies acc.contains(#[trigger] t.drop_last()[i]) by {
            assert(t.drop_last()[i] == t[i]);
        }
        lemma_append_present(acc, t.drop_last());
        assert(acc.contains(t[t.len() - 1]));
    }
}

/// Merging the same texts a second time changes nothing.
pub proof fn lemma_append_missing_idempotent(acc: Seq<Seq<char>>, t: Seq<Seq<char>>)
    ensures
        append_missing(append_missing(acc, t), t) == append_missing(acc, t),
{
    lemma_append_missing_keeps_all(acc, t);
    lemma_append_present(append_missing(acc, t), t);
}

/// After `dedup_adjacent` no two neighbours are equal, and its last element
/// is the input's last.
pub proof fn lemma_dedup_no_adjacent_repeats(s: Seq<Seq<char>>)
    ensures
        forall|i: int| 0 <= i < dedup_adjacent(s).len() - 1 ==> #[trigger] dedup_adjacent(s)[i] != dedup_adjacent(s)[i + 1],
        s.len() > 0 ==> dedup_adjacent(s).len() > 0 && dedup_adjacent(s).last() == s.last(),
        dedup_adjacent(s).len() <= s.len(),
    decreases s.len(),
{
    if s.len() > 1 {
        lemma_dedup_no_adjacent_repeats(s.drop_last());
        let d = dedup_adjacent(s.drop_last());
        assert(d.last() == s.drop_last().last());
        if s[s.len() - 2] != s.last() {
            assert forall|i: int| 0 <= i < d.push(s.last()).len() - 1 implies #[trigger] d.push(
                s.last(),
            )[i] != d.push(s.last())[i + 1] by {
                if i < d.len() - 1 {
                    assert(d[i] != d[i + 1]);
                }
            }
        }
    }
}

/// The sorted texts are in order, and are the same texts.
pub proof fn lemma_sorted_texts(s: Seq<Seq<char>>)
    ensures
        sorted_by(sorted_texts(s), lex_order()),
        sorted_texts(s).to_multiset() == s.to_multiset(),
{
    lemma_lex_total_ordering();
    s.lemma_sort_by_ensures(lex_order());
}

} // verus!
