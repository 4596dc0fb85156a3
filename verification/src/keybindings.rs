//! The key bindings table: actions with their keys, and how wide it is.
use vstd::prelude::*;
use vstd::relations::{sorted_by, total_ordering};
use crate::lexical::{
    append_missing, append_missing_texts, lemma_lex_total_ordering, lex_le, lex_order, sort_texts,
    sorted_texts, str_le, texts,
};

verus! {

broadcast use vstd::seq_lib::group_to_multiset_ensures;

/// The length of a text in UTF-8 bytes (`str::len`).
pub open spec fn byte_len(t: Seq<char>) -> nat {
    vstd::utf8::encode_utf8(t).len()
}

/// Keys are listed shortest first, then alphabetically.
pub open spec fn key_le(a: Seq<char>, b: Seq<char>) -> bool {
    byte_len(a) < byte_len(b) || (byte_len(a) == byte_len(b) && lex_le(a, b))
}

/// `key_le` as a relation value.
pub open spec fn key_order() -> spec_fn(Seq<char>, Seq<char>) -> bool {
    |a: Seq<char>, b: Seq<char>| key_le(a, b)
}

/// `key_le` is a total order.
pub proof fn lemma_key_total_ordering()
    ensures
        total_ordering(key_order()),
{
    lemma_lex_total_ordering();
    assert forall|a: Seq<char>| #[trigger] key_order()(a, a) by {
        assert(lex_order()(a, a));
    }
    assert forall|a: Seq<char>, b: Seq<char>|
        #[trigger] key_order()(a, b) && #[trigger] key_order()(b, a) implies a == b by {
        assert(lex_order()(a, b) && lex_order()(b, a));
    }
    assert forall|a: Seq<char>, b: Seq<char>, c: Seq<char>|
        #[trigger] key_order()(a, b) && #[trigger] key_order()(b, c) implies key_order()(a, c) by {
        if byte_len(a) == byte_len(b) && byte_len(b) == byte_len(c) {
            assert(lex_order()(a, b) && lex_order()(b, c));
        }
    }
    assert forall|a: Seq<char>, b: Seq<char>|
        #[trigger] key_order()(a, b) || #[trigger] key_order()(b, a) by {
        assert(lex_order()(a, b) || lex_order()(b, a));
    }
}

/// Returns whether `a` is listed before `b` or equals it.
fn key_before(a: &String, b: &String) -> (r: bool)
    requires
        byte_len(a@) <= usize::MAX,
        byte_len(b@) <= usize::MAX,
    ensures
        r == key_le(a@, b@),
{
    let la = a.as_str().len();
    let lb = b.as_str().len();
    la < lb || (la == lb && str_le(a.as_str(), b.as_str()))
}

/// The keys in listing order.
pub open spec fn sorted_keys(s: Seq<Seq<char>>) -> Seq<Seq<char>> {
    s.sort_by(key_order())
}

/// Sorts keys shortest first, then alphabetically.
pub fn sort_keys(v: &mut Vec<String>)
    requires
        forall|i: int| 0 <= i < old(v)@.len() ==> byte_len(#[trigger] old(v)@[i]@) <= usize::MAX,
    ensures
        texts(final(v)@) == sorted_keys(texts(old(v)@)),
{
    proof {
        lemma_key_total_ordering();
    }
    let mut res: Vec<String> = Vec::new();
    let mut i: usize = 0;
    let n = v.len();
    while i < n
        invariant
            n == v.len(),
            i <= n,
            forall|q: int| 0 <= q < v@.len() ==> byte_len(#[trigger] v@[q]@) <= usize::MAX,
            forall|q: int| 0 <= q < res@.len() ==> byte_len(#[trigger] res@[q]@) <= usize::MAX,
            total_ordering(key_order()),
            sorted_by(texts(res@), key_order()),
            texts(res@).to_multiset() == texts(v@).take(i as int).to_multiset(),
        decreases n - i,
    {
        let x = v[i].clone();
        assert(byte_len(v@[i as int]@) <= usize::MAX);
        let mut pos: usize = 0;
        while pos < res.len()
            invariant
                pos <= res.len(),
                byte_len(x@) <= usize::MAX,
                forall|q: int| 0 <= q < res@.len() ==> byte_len(#[trigger] res@[q]@) <= usize::MAX,
                forall|k: int| 0 <= k < pos ==> key_le(#[trigger] res@[k]@, x@),
            ensures
                pos <= res.len(),
                forall|k: int| 0 <= k < pos ==> key_le(#[trigger] res@[k]@, x@),
                pos < res.len() ==> !key_le(res@[pos as int]@, x@),
            decreases res.len() - pos,
        {
            if !key_before(&res[pos], &x) {
                break;
            }
            pos = pos + 1;
        }
        let ghost before = texts(res@);
        proof {
            if pos < res.len() {
                assert forall|k: int| pos <= k < res.len() implies !key_le(#[trigger] res@[k]@, x@) by {
                    let t = texts(res@);
                    assert(t[pos as int] == res@[pos as int]@);
                    assert(t[k] == res@[k]@);
                    if pos < k {
                        assert(key_order()(t[pos as int], t[k]));
                        if key_le(res@[k]@, x@) {
                            assert(key_order()(t[k], x@));
                        }
                    }
                }
            }
        }
        let ghost xv = x@;
        let ghost res_before = res@;
        res.insert(pos, x);
        proof {
            assert forall|q: int| 0 <= q < res@.len() implies byte_len(#[trigger] res@[q]@) <= usize::MAX by {
                if q < pos {
                    assert(res@[q] == res_before[q]);
                } else if q > pos {
                    assert(res@[q] == res_before[q - 1]);
                }
            }
            assert(texts(res@) =~= before.insert(pos as int, x@));
            assert(texts(v@).take(i + 1) =~= texts(v@).take(i as int).push(x@));
            assert forall|a: int, b: int| 0 <= a < b < texts(res@).len() implies #[trigger] key_order()(
                texts(res@)[a],
                texts(res@)[b],
            ) by {
                if a < pos && b == pos {
                } else if a == pos && b > pos {
                    assert(key_order()(x@, before[b - 1]) || key_order()(before[b - 1], x@));
                } else if a < pos && b > pos {
                    assert(key_order()(x@, before[b - 1]) || key_order()(before[b - 1], x@));
                    assert(key_order()(before[a], x@));
                } else if b < pos {
                    assert(key_order()(before[a], before[b]));
                } else {
                    assert(key_order()(before[a - 1], before[b - 1]));
                }
            }
        }
        i = i + 1;
    }
    assert(texts(v@).take(n as int) =~= texts(v@));
    *v = res;
    proof {
        lemma_key_total_ordering();
        texts(old(v)@).lemma_sort_by_ensures(key_order());
        vstd::seq_lib::lemma_sorted_unique(texts(v@), sorted_keys(texts(old(v)@)), key_order());
    }
}

/// The actions of a list of (action, key) pairs.
pub open spec fn pair_actions(pairs: Seq<(String, String)>) -> Seq<Seq<char>> {
    pairs.map_values(|p: (String, String)| p.0@)
}

/// The keys bound to `action`, in the order of the pairs.
pub open spec fn keys_of(pairs: Seq<(String, String)>, action: Seq<char>) -> Seq<Seq<char>>
    decreases pairs.len(),
{
    if pairs.len() == 0 {
        Seq::empty()
    } else {
        let rest = keys_of(pairs.drop_last(), action);
        if pairs.last().0@ == action {
            rest.push(pairs.last().1@)
        } else {
            rest
        }
    }
}

/// The actions with keys, each once, in alphabetical order.
pub open spec fn table_actions(pairs: Seq<(String, String)>) -> Seq<Seq<char>> {
    sorted_texts(append_missing(Seq::empty(), pair_actions(pairs)))
}

/// The columns a row's keys take: their bytes plus `", "` between them.
pub open spec fn keys_width(keys: Seq<Seq<char>>) -> nat
    decreases keys.len(),
{
    if keys.len() == 0 {
        0
    } else if keys.len() == 1 {
        byte_len(keys[0])
    } else {
        keys_width(keys.drop_last()) + 2 + byte_len(keys.last())
    }
}

/// The widest action over the first `n` rows, at least 10.
pub open spec fn action_width(actions: Seq<Seq<char>>, n: int) -> u16
    decreases n,
{
    if n <= 0 {
        10
    } else {
        let w = action_width(actions, n - 1);
        let a = byte_len(actions[n - 1]) as u16;
        if a > w {
            a
        } else {
            w
        }
    }
}

/// The widest key list over the first `n` rows, at least 10.
pub open spec fn key_list_width(rows: Seq<Seq<Seq<char>>>, n: int) -> u16
    decreases n,
{
    if n <= 0 {
        10
    } else {
        let w = key_list_width(rows, n - 1);
        let a = keys_width(rows[n - 1]) as u16;
        if a > w {
            a
        } else {
            w
        }
    }
}

/// The total bytes of the keys plus two per key: a bound for the widths.
pub open spec fn pairs_bytes(pairs: Seq<(String, String)>) -> nat
    decreases pairs.len(),
{
    if pairs.len() == 0 {
        0
    } else {
        pairs_bytes(pairs.drop_last()) + byte_len(pairs.last().1@) + 2
    }
}

/// The key bindings as a table: each action with its keys, and the widths of
/// the two columns.
#[derive(Debug)]
pub struct FormattedBindings {
    pub data: Vec<(String, Vec<String>)>,
    pub max_action_width: u16,
    pub max_keys_width: u16,
}

proof fn lemma_keys_of_bounded(pairs: Seq<(String, String)>, action: Seq<char>)
    ensures
        keys_width(keys_of(pairs, action)) + 2 <= pairs_bytes(pairs) + 2,
        keys_of(pairs, action).len() <= pairs.len(),
    decreases pairs.len(),
{
    if pairs.len() > 0 {
        lemma_keys_of_bounded(pairs.drop_last(), action);
        let rest = keys_of(pairs.drop_last(), action);
        if pairs.last().0@ == action {
            let r = rest.push(pairs.last().1@);
            assert(r.drop_last() =~= rest);
        }
    }
}

proof fn lemma_pair_key_bounded(pairs: Seq<(String, String)>, j: int)
    requires
        0 <= j < pairs.len(),
    ensures
        byte_len(pairs[j].1@) <= pairs_bytes(pairs),
    decreases pairs.len(),
{
    if j < pairs.len() - 1 {
        lemma_pair_key_bounded(pairs.drop_last(), j);
        assert(pairs.drop_last()[j] == pairs[j]);
    }
}

proof fn lemma_merged_from(acc: Seq<Seq<char>>, t: Seq<Seq<char>>, x: Seq<char>)
    requires
        append_missing(acc, t).contains(x),
    ensures
        acc.contains(x) || t.contains(x),
    decreases t.len(),
{
    if t.len() > 0 {
        let a = append_missing(acc, t.drop_last());
        if a.contains(x) {
            lemma_merged_from(acc, t.drop_last(), x);
            if t.drop_last().contains(x) {
                let k = choose|k: int| 0 <= k < t.drop_last().len() && t.drop_last()[k] == x;
                assert(t[k] == x);
            }
        } else {
            assert(t[t.len() - 1] == x);
        }
    }
}

/// Every action in the table is the action of some pair.
proof fn lemma_table_actions_from_pairs(pairs: Seq<(String, String)>, i: int)
    requires
        0 <= i < table_actions(pairs).len(),
    ensures
        exists|k: int| 0 <= k < pairs.len() && pairs[k].0@ == table_actions(pairs)[i],
{
    lemma_lex_total_ordering();
    let m = append_missing(Seq::empty(), pair_actions(pairs));
    m.lemma_sort_by_ensures(lex_order());
    let x = table_actions(pairs)[i];
    assert(sorted_texts(m).to_multiset().count(x) > 0);
    assert(m.to_multiset().count(x) > 0);
    assert(m.contains(x));
    lemma_merged_from(Seq::empty(), pair_actions(pairs), x);
    let k = choose|k: int| 0 <= k < pair_actions(pairs).len() && pair_actions(pairs)[k] == x;
    assert(pairs[k].0@ == x);
}

impl FormattedBindings {
    /// Builds the table from the (action, key) pairs of the key bindings: one
    /// row per action in alphabetical order, its keys shortest first then
    /// alphabetically; the action column as wide as the longest action and
    /// the key column as the longest `", "`-joined key list, both in bytes
    /// cut to 16 bits, and at least 10.
    pub fn from_keybindings(pairs: &Vec<(String, String)>) -> (r: Self)
        requires
            pairs_bytes(pairs@) + 2 <= usize::MAX,
            forall|i: int| 0 <= i < pairs@.len() ==> byte_len((#[trigger] pairs@[i]).0@) <= usize::MAX,
        ensures
            r.data@.len() == table_actions(pairs@).len(),
            forall|i: int| 0 <= i < r.data@.len() ==> {
                &&& (#[trigger] r.data@[i]).0@ == table_actions(pairs@)[i]
                &&& texts(r.data@[i].1@) == sorted_keys(keys_of(pairs@, table_actions(pairs@)[i]))
            },
            r.max_action_width == action_width(table_actions(pairs@), table_actions(pairs@).len() as int),
            r.max_keys_width == key_list_width(
                table_actions(pairs@).map_values(|a: Seq<char>| keys_of(pairs@, a)),
                table_actions(pairs@).len() as int,
            ),
    {
        let mut names: Vec<String> = Vec::new();
        let mut i: usize = 0;
        while i < pairs.len()
            invariant
                i <= pairs.len(),
                texts(names@) == append_missing(Seq::empty(), pair_actions(pairs@).take(i as int)),
            decreases pairs.len() - i,
        {
            let ghost pa = pair_actions(pairs@);
            assert(pa.take(i + 1).drop_last() =~= pa.take(i as int));
            assert(pa.take(i + 1).last() == pairs@[i as int].0@);
            if !crate::lexical::texts_contain(&names, pairs[i].0.as_str()) {
                let ghost before = names@;
                names.push(pairs[i].0.clone());
                assert(texts(names@) =~= texts(before).push(pairs@[i as int].0@));
            }
            i = i + 1;
        }
        assert(pair_actions(pairs@).take(pairs.len() as int) =~= pair_actions(pairs@));
        sort_texts(&mut names);
        let ghost acts = texts(names@);
        assert(acts == table_actions(pairs@));
        let ghost rows_keys = acts.map_values(|a: Seq<char>| keys_of(pairs@, a));
        let mut data: Vec<(String, Vec<String>)> = Vec::new();
        let mut max_action_width: u16 = 10;
        let mut max_keys_width: u16 = 10;
        let mut k: usize = 0;
        while k < names.len()
            invariant
                k <= names.len(),
                acts == texts(names@),
                acts == table_actions(pairs@),
                rows_keys == acts.map_values(|a: Seq<char>| keys_of(pairs@, a)),
                pairs_bytes(pairs@) + 2 <= usize::MAX,
                forall|i: int| 0 <= i < pairs@.len() ==> byte_len((#[trigger] pairs@[i]).0@) <= usize::MAX,
                data@.len() == k,
                forall|j: int| 0 <= j < k ==> {
                    &&& (#[trigger] data@[j]).0@ == acts[j]
                    &&& texts(data@[j].1@) == sorted_keys(keys_of(pairs@, acts[j]))
                },
                max_action_width == action_width(acts, k as int),
                max_keys_width == key_list_width(rows_keys, k as int),
            decreases names.len() - k,
        {
            let action = &names[k];
            assert(acts[k as int] == action@);
            proof {
                lemma_table_actions_from_pairs(pairs@, k as int);
            }
            let mut keys: Vec<String> = Vec::new();
            let mut j: usize = 0;
            while j < pairs.len()
                invariant
                    j <= pairs.len(),
                    texts(keys@) == keys_of(pairs@.take(j as int), action@),
                    pairs_bytes(pairs@) + 2 <= usize::MAX,
                    forall|q: int| 0 <= q < keys@.len() ==> byte_len(#[trigger] keys@[q]@) <= usize::MAX,
                decreases pairs.len() - j,
            {
                assert(pairs@.take(j + 1).drop_last() =~= pairs@.take(j as int));
                assert(pairs@.take(j + 1).last() == pairs@[j as int]);
                if pairs[j].0 == *action {
                    proof {
                        lemma_pair_key_bounded(pairs@, j as int);
                    }
                    let ghost before = keys@;
                    keys.push(pairs[j].1.clone());
                    assert(texts(keys@) =~= texts(before).push(pairs@[j as int].1@));
                }
                j = j + 1;
            }
            assert(pairs@.take(pairs.len() as int) =~= pairs@);
            let ghost unsorted = texts(keys@);
            proof {
                lemma_keys_of_bounded(pairs@, action@);
            }
            let mut total: usize = 0;
            let mut m: usize = 0;
            while m < keys.len()
                invariant
                    m <= keys.len(),
                    unsorted == texts(keys@),
                    keys_width(unsorted) + 2 <= pairs_bytes(pairs@) + 2,
                    pairs_bytes(pairs@) + 2 <= usize::MAX,
                    total == keys_width(unsorted.take(m as int)),
                    keys_width(unsorted.take(m as int)) <= keys_width(unsorted),
                decreases keys.len() - m,
            {
                assert(unsorted.take(m + 1).drop_last() =~= unsorted.take(m as int));
                assert(unsorted.take(m + 1).last() == keys@[m as int]@);
                proof {
                    lemma_keys_width_prefix(unsorted, m + 1);
                }
                let b = keys[m].as_str().len();
                if m == 0 {
                    total = b;
                } else {
                    total = total + 2 + b;
                }
                m = m + 1;
            }
            assert(unsorted.take(keys.len() as int) =~= unsorted);
            sort_keys(&mut keys);
            let aw = action.as_str().len() as u16;
            if aw > max_action_width {
                max_action_width = aw;
            }
            let kw = total as u16;
            if kw > max_keys_width {
                max_keys_width = kw;
            }
            assert(rows_keys[k as int] == keys_of(pairs@, acts[k as int]));
            data.push((action.clone(), keys));
            k = k + 1;
        }
        FormattedBindings { data, max_action_width, max_keys_width }
    }
}

proof fn lemma_keys_width_prefix(k: Seq<Seq<char>>, m: int)
    requires
        0 <= m <= k.len(),
    ensures
        keys_width(k.take(m)) <= keys_width(k),
    decreases k.len() - m,
{
    if m < k.len() {
        lemma_keys_width_prefix(k, m + 1);
        let t = k.take(m + 1);
        assert(t.drop_last() =~= k.take(m));
    } else {
        assert(k.take(m) =~= k);
    }
}

/// How wide the key bindings pop-up is.
#[derive(Debug, Clone, Copy, PartialEq, Eq, Structural)]
pub enum WidthConstraint {
    /// A fixed number of columns.
    Length(u16),
    /// A share of the screen.
    Percentage(u16),
}

/// The pop-up's width: on screens over 120 columns the desired width, at most
/// 60 % of the screen; between 81 and 120 columns a share growing from 60 %
/// to 80 % as the screen narrows; otherwise 90 %.
pub fn adaptive_width_constraint(screen_width: u16, desired_width: u16) -> (r: WidthConstraint)
    requires
        screen_width * 60 <= 0xffff,
    ensures
        r == if screen_width > 120 {
            WidthConstraint::Length(
                if desired_width < (screen_width * 60 / 100) as u16 {
                    desired_width
                } else {
                    (screen_width * 60 / 100) as u16
                },
            )
        } else if screen_width > 80 {
            WidthConstraint::Percentage((60 + (120 - screen_width) * 20 / 40) as u16)
        } else {
            WidthConstraint::Percentage(90)
        },
{
    if screen_width > 120 {
        let cap: u16 = screen_width * 60 / 100;
        WidthConstraint::Length(
            if desired_width < cap {
                desired_width
            } else {
                cap
            },
        )
    } else if screen_width > 80 {
        WidthConstraint::Percentage(60 + (120 - screen_width) * 20 / 40)
    } else {
        WidthConstraint::Percentage(90)
    }
}

/// One key hint: the key in angle brackets, then the label.
pub open spec fn hint_text(key: Seq<char>, label: Seq<char>) -> Seq<char> {
    "<"@ + key + ">: "@ + label
}

/// Key hints joined by ` | `.
pub open spec fn hints_text(hints: Seq<(String, String)>) -> Seq<char>
    decreases hints.len(),
{
    if hints.len() == 0 {
        Seq::empty()
    } else if hints.len() == 1 {
        hint_text(hints[0].0@, hints[0].1@)
    } else {
        hints_text(hints.drop_last()) + " | "@ + hint_text(hints.last().0@, hints.last().1@)
    }
}

/// The text of a footer of `<KEY>: label` hints joined by ` | ` (see `hints_text`).
pub fn key_hint_footer(hints: &Vec<(String, String)>) -> (r: String)
    ensures
        r@ == hints_text(hints@),
{
    let mut s = String::new();
    let mut i: usize = 0;
    while i < hints.len()
        invariant
            i <= hints@.len(),
            s@ == hints_text(hints@.take(i as int)),
        decreases hints@.len() - i,
    {
        let ghost before = s@;
        if i > 0 {
            crate::strings::push_str(&mut s, " | ");
        }
        crate::strings::push_str(&mut s, "<");
        crate::strings::push_str(&mut s, hints[i].0.as_str());
        crate::strings::push_str(&mut s, ">: ");
        crate::strings::push_str(&mut s, hints[i].1.as_str());
        let ghost t = hints@.take(i + 1);
        assert(t.drop_last() =~= hints@.take(i as int));
        assert(t.last() == hints@[i as int]);
        if i == 0 {
            assert(t.len() == 1);
            assert(s@ =~= hint_text(t[0].0@, t[0].1@));
        } else {
            assert(s@ =~= before + " | "@ + hint_text(t.last().0@, t.last().1@));
        }
        i = i + 1;
    }
    assert(hints@.take(hints@.len() as int) =~= hints@);
    s
}

/// Keys joined by `, `.
pub open spec fn joined_keys(keys: Seq<Seq<char>>) -> Seq<char>
    decreases keys.len(),
{
    if keys.len() == 0 {
        Seq::empty()
    } else if keys.len() == 1 {
        keys[0]
    } else {
        joined_keys(keys.drop_last()) + ", "@ + keys.last()
    }
}

/// The keystroke cell of a row: its keys joined by `, `.
pub fn keys_cell_text(keys: &Vec<String>) -> (r: String)
    ensures
        r@ == joined_keys(texts(keys@)),
{
    let mut s = String::new();
    let mut i: usize = 0;
    while i < keys.len()
        invariant
            i <= keys@.len(),
            s@ == joined_keys(texts(keys@).take(i as int)),
        decreases keys@.len() - i,
    {
        let ghost before = s@;
        if i > 0 {
            crate::strings::push_str(&mut s, ", ");
        }
        crate::strings::push_str(&mut s, keys[i].as_str());
        let ghost t = texts(keys@).take(i + 1);
        assert(t.drop_last() =~= texts(keys@).take(i as int));
        assert(t.last() == keys@[i as int]@);
        if i == 0 {
            assert(s@ =~= t[0]);
        } else {
            assert(s@ =~= before + ", "@ + t.last());
        }
        i = i + 1;
    }
    assert(texts(keys@).take(keys@.len() as int) =~= texts(keys@));
    s
}

/// The key bindings pop-up's size: the action column's width, the width it
/// would like, and its height.
#[derive(Debug, Clone, Copy, PartialEq, Eq, Structural)]
pub struct PopupSize {
    pub action_column: u16,
    pub desired_width: u16,
    pub height: u16,
}

/// The pop-up's size: the action column 4 wider than the longest action; the
/// desired width both columns and 10 for borders, padding and margin; one
/// line per action, the header with its margin and the two borders, but no
/// more than the screen's height less 2.
pub fn keybindings_popup_size(max_action_width: u16, max_keys_width: u16, total_items: usize, area_height: u16) -> (r: PopupSize)
    requires
        max_action_width + max_keys_width + 10 <= u16::MAX,
        (total_items as u16) + 4 <= u16::MAX,
    ensures
        r.action_column == max_action_width + 4,
        r.desired_width == max_action_width + max_keys_width + 10,
        r.height == if (total_items as u16) + 4 < (if area_height > 2 {
            area_height - 2
        } else {
            0
        }) {
            (total_items as u16) + 4
        } else if area_height > 2 {
            area_height - 2
        } else {
            0
        },
{
    let content_height = (total_items as u16) + 4;
    let available = area_height.saturating_sub(2);
    PopupSize {
        action_column: max_action_width + 4,
        desired_width: max_action_width + max_keys_width + 10,
        height: if content_height < available {
            content_height
        } else {
            available
        },
    }
}

/// The scroll offset kept within reach, so the table fills the pop-up from
/// the bottom: at most the actions that do not fit below the header.
pub fn clamp_scroll_offset(offset: usize, total_items: usize, inner_height: u16) -> (r: usize)
    ensures
        ({
            let visible = if inner_height > 2 {
                inner_height - 2
            } else {
                0
            };
            let max_offset = if total_items > visible {
                total_items - visible
            } else {
                0
            };
            r == if offset < max_offset {
                offset as int
            } else {
                max_offset
            }
        }),
{
    let visible = inner_height.saturating_sub(2) as usize;
    let max_offset = total_items.saturating_sub(visible);
    if offset < max_offset {
        offset
    } else {
        max_offset
    }
}

} // verus!
