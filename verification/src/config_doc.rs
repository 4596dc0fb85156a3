//! Placing the description pop-up next to the selected config item.
use vstd::prelude::*;

verus! {

/// Descriptions with fewer lines than this get one extra row.
pub const DOC_SHORT_LINE_THRESHOLD: u16 = 3;
/// Descriptions with fewer lines than this get two extra rows.
pub const DOC_MEDIUM_LINE_THRESHOLD: u16 = 6;
/// Extra rows for short descriptions.
pub const DOC_EXTRA_HEIGHT_SHORT: u16 = 1;
/// Extra rows for medium descriptions.
pub const DOC_EXTRA_HEIGHT_MEDIUM: u16 = 2;
/// Extra rows for long descriptions.
pub const DOC_EXTRA_HEIGHT_TALL: u16 = 3;

/// The number of line breaks in a text.
pub open spec fn newlines(s: Seq<char>) -> nat
    decreases s.len(),
{
    if s.len() == 0 {
        0
    } else {
        newlines(s.drop_last()) + if s.last() == '\n' {
            1nat
        } else {
            0nat
        }
    }
}

/// A text has no more line breaks than characters.
pub proof fn lemma_newlines_bound(s: Seq<char>)
    ensures
        newlines(s) <= s.len(),
    decreases s.len(),
{
    if s.len() > 0 {
        lemma_newlines_bound(s.drop_last());
    }
}

/// The number of lines `str::lines` yields: none for an empty text; a final
/// line break ends the last line rather than starting a new one.
pub open spec fn line_count(s: Seq<char>) -> nat {
    if s.len() == 0 {
        0
    } else if s.last() == '\n' {
        newlines(s)
    } else {
        newlines(s) + 1
    }
}

/// The height of the description pop-up: one row per line plus one extra row
/// for fewer than 3 lines, two for fewer than 6, three otherwise.
pub open spec fn doc_height(lines: nat) -> nat {
    lines + if lines < 3 {
        1nat
    } else if lines < 6 {
        2nat
    } else {
        3nat
    }
}

/// The number of lines of a description.
pub fn count_lines(description: &str) -> (r: usize)
    ensures
        r == line_count(description@),
{
    let n = description.unicode_len();
    let mut count: usize = 0;
    let mut i: usize = 0;
    while i < n
        invariant
            n == description@.len(),
            i <= n,
            count == newlines(description@.take(i as int)),
            count <= i,
        decreases n - i,
    {
        assert(description@.take(i + 1).drop_last() =~= description@.take(i as int));
        if description.get_char(i) == '\n' {
            count = count + 1;
        }
        i = i + 1;
    }
    assert(description@.take(n as int) =~= description@);
    proof {
        if n > 0 && description@.last() != '\n' {
            lemma_newlines_bound(description@.drop_last());
            assert(newlines(description@) == newlines(description@.drop_last()));
        }
    }
    if n == 0 || description.get_char(n - 1) == '\n' {
        count
    } else {
        count + 1
    }
}

/// The height in rows of the description pop-up.
pub fn doc_popup_height(description: &str) -> (r: u16)
    requires
        line_count(description@) < 0xfff0,
    ensures
        r == doc_height(line_count(description@)),
{
    let num_lines = count_lines(description) as u16;
    let extra = if num_lines < DOC_SHORT_LINE_THRESHOLD {
        DOC_EXTRA_HEIGHT_SHORT
    } else if num_lines < DOC_MEDIUM_LINE_THRESHOLD {
        DOC_EXTRA_HEIGHT_MEDIUM
    } else {
        DOC_EXTRA_HEIGHT_TALL
    };
    num_lines + extra
}

/// A config item as the placement sees it: the rows it takes and the columns
/// its key and value take (highlight prefix included).
#[derive(Debug, Clone, Copy, PartialEq, Eq, Structural)]
pub struct DocItem {
    pub row_height: u16,
    pub width: usize,
}

/// The first row of item `j`: the rows of the items before it.
pub open spec fn row_start(items: Seq<DocItem>, j: int) -> nat
    decreases j,
{
    if j <= 0 {
        0
    } else {
        row_start(items, j - 1) + items[j - 1].row_height as nat
    }
}

/// Item `j` shares a row with the pop-up spanning rows `start..=end`, and
/// reaches past column `x`.
pub open spec fn conflicts(items: Seq<DocItem>, j: int, x: u16, start: int, end: int) -> bool {
    &&& row_start(items, j) <= end
    &&& row_start(items, j) + items[j].row_height - 1 >= start
    &&& items[j].width > x
}

/// The last item below the selected one, among the first `k`, that conflicts.
pub open spec fn last_conflict(items: Seq<DocItem>, selected: int, k: int, x: u16, start: int, end: int) -> Option<int>
    decreases k - selected,
{
    if k <= selected + 1 || k <= 0 {
        None
    } else if conflicts(items, k - 1, x, start, end) {
        Some(k - 1)
    } else {
        last_conflict(items, selected, k - 1, x, start, end)
    }
}

/// Later items start at later rows.
pub proof fn lemma_row_start_mono(items: Seq<DocItem>, i: int, j: int)
    requires
        0 <= i <= j <= items.len(),
    ensures
        row_start(items, i) <= row_start(items, j),
    decreases j - i,
{
    if i < j {
        lemma_row_start_mono(items, i, j - 1);
    }
}

/// The last conflicting item lies below the selected one and conflicts.
pub proof fn lemma_last_conflict_range(items: Seq<DocItem>, selected: int, k: int, x: u16, start: int, end: int)
    ensures
        last_conflict(items, selected, k, x, start, end) matches Some(j) ==> selected + 1 <= j < k
            && 0 <= j && conflicts(items, j, x, start, end),
    decreases k - selected,
{
    if k > selected + 1 && k > 0 && !conflicts(items, k - 1, x, start, end) {
        lemma_last_conflict_range(items, selected, k - 1, x, start, end);
    }
}

/// The row at which the description pop-up starts: from `y`, moved below the
/// last later item it would cover whose text reaches into its columns, until
/// nothing is covered or it would not move down.
pub open spec fn doc_y(items: Seq<DocItem>, selected: int, x: u16, y: int, height: int) -> int
    decreases row_start(items, items.len() as int) + 2 - y,
{
    let start = if y >= 1 {
        y - 1
    } else {
        0
    };
    let end = y + height - 2;
    match last_conflict(items, selected, items.len() as int, x, start, end) {
        None => y,
        Some(j) => {
            let new_y = row_start(items, j) + items[j].row_height + 1;
            if new_y <= y {
                y
            } else {
                proof {
                    lemma_last_conflict_range(items, selected, items.len() as int, x, start, end);
                    lemma_row_start_mono(items, j + 1, items.len() as int);
                }
                doc_y(items, selected, x, new_y, height)
            }
        },
    }
}

/// The row at which the description pop-up of item `selected` starts
/// (see `doc_y`).
pub fn compute_doc_y(items: &[DocItem], selected: usize, x_offset: u16, base_y: u16, popup_height: u16) -> (r: u16)
    requires
        selected < items@.len(),
        row_start(items@, items@.len() as int) + 2 <= 0xffff,
        forall|j: int| 0 <= j < items@.len() ==> items@[j].row_height >= 1,
        base_y + popup_height <= 0xffff,
        row_start(items@, items@.len() as int) + 1 + popup_height <= 0xffff,
        base_y + popup_height >= 2,
    ensures
        r == doc_y(items@, selected as int, x_offset, base_y as int, popup_height as int),
{
    let n = items.len();
    let ghost total = row_start(items@, n as int);
    let mut item_rows: Vec<u16> = Vec::new();
    let mut acc: u16 = 0;
    let mut i: usize = 0;
    while i < n
        invariant
            n == items@.len(),
            i <= n,
            total == row_start(items@, n as int),
            total + 2 <= 0xffff,
            acc == row_start(items@, i as int),
            item_rows@.len() == i,
            forall|k: int| 0 <= k < i ==> item_rows@[k] == row_start(items@, k),
        decreases n - i,
    {
        proof {
            lemma_row_start_mono(items@, i + 1, n as int);
        }
        item_rows.push(acc);
        acc = acc + items[i].row_height;
        i = i + 1;
    }
    let mut y: u16 = base_y;
    loop
        invariant
            n == items@.len(),
            selected < n,
            total == row_start(items@, n as int),
            total + 2 <= 0xffff,
            total + 1 + popup_height <= 0xffff,
            item_rows@.len() == n,
            forall|k: int| 0 <= k < n ==> item_rows@[k] == row_start(items@, k),
            forall|j: int| 0 <= j < items@.len() ==> items@[j].row_height >= 1,
            y + popup_height <= 0xffff,
            y + popup_height >= 2,
            doc_y(items@, selected as int, x_offset, y as int, popup_height as int) == doc_y(
                items@,
                selected as int,
                x_offset,
                base_y as int,
                popup_height as int,
            ),
        decreases total + 2 - y,
    {
        let popup_start: u16 = if y >= 1 {
            y - 1
        } else {
            0
        };
        let popup_end: u16 = y + popup_height - 2;
        let ghost gs = popup_start as int;
        let ghost ge = popup_end as int;
        let mut k: usize = n;
        let mut found: Option<usize> = None;
        while k > selected + 1 && found.is_none()
            invariant
                n == items@.len(),
                selected < n,
                selected + 1 <= k <= n,
                item_rows@.len() == n,
                forall|m: int| 0 <= m < n ==> item_rows@[m] == row_start(items@, m),
                forall|j: int| 0 <= j < items@.len() ==> items@[j].row_height >= 1,
                total == row_start(items@, n as int),
                total + 2 <= 0xffff,
                gs == popup_start as int,
                ge == popup_end as int,
                found is None ==> last_conflict(items@, selected as int, n as int, x_offset, gs, ge)
                    == last_conflict(items@, selected as int, k as int, x_offset, gs, ge),
                found matches Some(j) ==> last_conflict(items@, selected as int, n as int, x_offset, gs, ge)
                    == Some(j as int),
            decreases k + if found is None {
                1int
            } else {
                0int
            },
        {
            let j = k - 1;
            proof {
                lemma_row_start_mono(items@, j + 1, n as int);
            }
            let row_start_j = item_rows[j];
            let row_end_j = row_start_j + items[j].row_height - 1;
            assert(row_start_j == row_start(items@, j as int));
            if row_start_j <= popup_end && row_end_j >= popup_start && items[j].width > x_offset as usize {
                assert(conflicts(items@, j as int, x_offset, gs, ge));
                found = Some(j);
            } else {
                assert(!conflicts(items@, j as int, x_offset, gs, ge));
                k = j;
            }
        }
        match found {
            None => {
                return y;
            },
            Some(j) => {
                proof {
                    lemma_last_conflict_range(items@, selected as int, n as int, x_offset, gs, ge);
                    lemma_row_start_mono(items@, j + 1, n as int);
                }
                let new_y = item_rows[j] + items[j].row_height + 1;
                if new_y <= y {
                    return y;
                }
                y = new_y;
            },
        }
    }
}

/// The first row of item `selected` (see `row_start`).
pub fn item_start_row(items: &[DocItem], selected: usize) -> (r: u16)
    requires
        selected <= items@.len(),
        row_start(items@, items@.len() as int) <= 0xffff,
    ensures
        r == row_start(items@, selected as int),
{
    let mut acc: u16 = 0;
    let mut i: usize = 0;
    while i < selected
        invariant
            selected <= items@.len(),
            i <= selected,
            row_start(items@, items@.len() as int) <= 0xffff,
            acc == row_start(items@, i as int),
        decreases selected - i,
    {
        proof {
            lemma_row_start_mono(items@, i + 1, items@.len() as int);
        }
        acc = acc + items[i].row_height;
        i = i + 1;
    }
    acc
}

/// The row below which the text editor and the option picker open: one row
/// under the selected item, a one-row item taken where none is selected.
pub fn overlay_row(items: &[DocItem], selected: usize) -> (r: u16)
    requires
        selected <= items@.len(),
        row_start(items@, items@.len() as int) + 2 <= 0xffff,
    ensures
        r == row_start(items@, selected as int) + (if selected < items@.len() {
            items@[selected as int].row_height as int
        } else {
            1
        }) + 1,
{
    let start = item_start_row(items, selected);
    proof {
        if selected < items@.len() {
            lemma_row_start_mono(items@, selected as int + 1, items@.len() as int);
        }
    }
    let height: u16 = if selected < items.len() {
        items[selected].row_height
    } else {
        1
    };
    start + height + 1
}

/// Where a description pop-up goes: the column after the item's highlight
/// prefix (3), key column, value and a gap of 3; and the first row below the
/// item (two rows lower for list values, which open an editor there), moved
/// down past covered items (see `doc_y`).
pub fn doc_anchor(
    items: &[DocItem],
    selected: usize,
    list_value: bool,
    key_column: usize,
    value_len: usize,
    description: &str,
) -> (r: (u16, u16))
    requires
        selected < items@.len(),
        forall|j: int| 0 <= j < items@.len() ==> items@[j].row_height >= 1,
        key_column + value_len + 6 <= 0xffff,
        line_count(description@) < 0xfff0,
        row_start(items@, items@.len() as int) + 4 + doc_height(line_count(description@)) <= 0xffff,
    ensures
        ({
            let x = (3 + key_column + value_len + 3) as u16;
            let base_y = row_start(items@, selected as int + 1) + (if list_value {
                2int
            } else {
                0int
            });
            let h = doc_height(line_count(description@));
            &&& r.0 == x
            &&& r.1 == doc_y(items@, selected as int, x, base_y, h as int)
        }),
{
    let x: u16 = (3 + key_column + value_len + 3) as u16;
    let start = item_start_row(items, selected);
    proof {
        lemma_row_start_mono(items@, selected as int + 1, items@.len() as int);
    }
    let gap: u16 = if list_value {
        2
    } else {
        0
    };
    let base_y: u16 = start + items[selected].row_height + gap;
    let height = doc_popup_height(description);
    let y = compute_doc_y(items, selected, x, base_y, height);
    (x, y)
}

} // verus!
