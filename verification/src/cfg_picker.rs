//! The config window's picker over one section: its items, the selected row,
//! and the inline picker that previews a `StringSelect` value while it moves.
use vstd::prelude::*;
use crate::config_edit::{ConfigValue, ValueView};
use crate::lexical::{copy_texts, texts};
use crate::option_selector::{OptionSelector, position_of, value_at};
use crate::strings::str_eq;
use crate::ip_info::opt_text;
use crate::error_box::ErrorBox;
use crate::config_edit::{confirm_action, handle_confirm_action};

verus! {

/// One item of a config section: its key, its value and, for a
/// `StringSelect`, the values it may take.
#[derive(Debug)]
pub struct ConfigItem {
    pub key: String,
    pub value: ConfigValue,
    pub options: Vec<String>,
}

/// An item as plain values.
pub struct ItemView {
    pub key: Seq<char>,
    pub value: ValueView,
    pub options: Seq<Seq<char>>,
}

impl View for ConfigItem {
    type V = ItemView;

    open spec fn view(&self) -> ItemView {
        ItemView { key: self.key@, value: self.value@, options: texts(self.options@) }
    }
}

/// An open picker as plain values.
pub struct SelectorView {
    pub key: Seq<char>,
    pub options: Seq<Seq<char>>,
    pub selected_idx: int,
    pub original_idx: int,
}

/// The plain values of an open picker.
pub open spec fn selector_view(s: OptionSelector) -> SelectorView {
    SelectorView {
        key: s.config_key@,
        options: texts(s.options@),
        selected_idx: s.selected_idx as int,
        original_idx: s.original_idx as int,
    }
}

/// The picker state as plain values.
pub struct PickerView {
    pub items: Seq<ItemView>,
    pub selected: Option<usize>,
    pub selector: Option<SelectorView>,
    /// The first line of the open text editor.
    pub editor: Option<Seq<char>>,
}

/// The state of the config picker of one section.
#[derive(Debug)]
pub struct CfgPickerState {
    pub items: Vec<ConfigItem>,
    /// The selected row.
    pub selected: Option<usize>,
    /// The inline picker, while one is open.
    pub option_selector: Option<OptionSelector>,
    /// The first line of the text editor, while one is open.
    pub txt_edit: Option<String>,
}

/// The plain values of a list of items.
pub open spec fn item_views(items: Seq<ConfigItem>) -> Seq<ItemView> {
    items.map_values(|i: ConfigItem| i@)
}

impl View for CfgPickerState {
    type V = PickerView;

    open spec fn view(&self) -> PickerView {
        PickerView {
            items: item_views(self.items@),
            selected: self.selected,
            selector: match self.option_selector {
                Some(s) => Some(selector_view(s)),
                None => None,
            },
            editor: opt_text(self.txt_edit),
        }
    }
}

/// The row the picker acts on: the selected one, or the first.
pub open spec fn row(s: PickerView) -> int {
    match s.selected {
        Some(i) => i as int,
        None => 0,
    }
}

/// The items after writing `value` into the `StringSelect` at `idx`, where
/// that item has key `key`; unchanged otherwise.
pub open spec fn written_select(items: Seq<ItemView>, idx: int, key: Seq<char>, value: Seq<char>) -> Seq<ItemView> {
    if 0 <= idx < items.len() && items[idx].value is StringSelect && items[idx].key == key {
        items.update(
            idx,
            ItemView { key: items[idx].key, value: ValueView::StringSelect(value), options: items[idx].options },
        )
    } else {
        items
    }
}

/// Whether the acted-on row holds a `StringSelect`, so that a picker opens.
pub open spec fn can_open(s: PickerView) -> bool {
    0 <= row(s) < s.items.len() && s.items[row(s)].value is StringSelect
}

/// The value of a `StringSelect`, empty for any other kind.
pub open spec fn select_value(v: ValueView) -> Seq<char> {
    match v {
        ValueView::StringSelect(t) => t,
        _ => Seq::empty(),
    }
}

/// The state after trying to open a picker: one over the row's options,
/// on the row's value (or the first option), where the row is a
/// `StringSelect`; unchanged otherwise.
pub open spec fn opened(s: PickerView) -> PickerView {
    if can_open(s) {
        let it = s.items[row(s)];
        let p = position_of(it.options, select_value(it.value));
        PickerView {
            items: s.items,
            selected: s.selected,
            editor: s.editor,
            selector: Some(SelectorView { key: it.key, options: it.options, selected_idx: p, original_idx: p }),
        }
    } else {
        s
    }
}

/// The state after writing the picker's current value into its item.
pub open spec fn previewed(s: PickerView) -> PickerView {
    match s.selector {
        Some(sel) => PickerView {
            items: written_select(s.items, row(s), sel.key, value_at(sel.options, sel.selected_idx)),
            selected: s.selected,
            editor: s.editor,
            selector: s.selector,
        },
        None => s,
    }
}

/// The picker position after one move, wrapping at either end.
pub open spec fn stepped(sel: SelectorView, up: bool) -> int {
    if sel.options.len() == 0 {
        sel.selected_idx
    } else if up {
        if sel.selected_idx == 0 {
            sel.options.len() - 1
        } else {
            sel.selected_idx - 1
        }
    } else {
        (sel.selected_idx + 1) % (sel.options.len() as int)
    }
}

/// The state after moving the picker up or down and previewing its value.
pub open spec fn moved(s: PickerView, up: bool) -> PickerView {
    previewed(
        match s.selector {
            Some(sel) => PickerView {
                items: s.items,
                selected: s.selected,
                editor: s.editor,
                selector: Some(
                    SelectorView {
                        key: sel.key,
                        options: sel.options,
                        selected_idx: stepped(sel, up),
                        original_idx: sel.original_idx,
                    },
                ),
            },
            None => s,
        },
    )
}

/// The state after a series of moves, `true` for up.
pub open spec fn moved_all(s: PickerView, moves: Seq<bool>) -> PickerView
    decreases moves.len(),
{
    if moves.len() == 0 {
        s
    } else {
        moved(moved_all(s, moves.drop_last()), moves.last())
    }
}

/// The state after cancelling: the picker closes and its item gets back the
/// value it had when the picker opened; with no picker open, nothing changes.
pub open spec fn cancelled(s: PickerView) -> PickerView {
    match s.selector {
        Some(sel) => PickerView {
            items: written_select(s.items, row(s), sel.key, value_at(sel.options, sel.original_idx)),
            selected: s.selected,
            editor: s.editor,
            selector: None,
        },
        None => s,
    }
}

/// A copy of an item.
fn copy_item_with(it: &ConfigItem, value: ConfigValue) -> (r: ConfigItem)
    ensures
        r@ == (ItemView { key: it@.key, value: value@, options: it@.options }),
{
    ConfigItem { key: it.key.clone(), value, options: copy_texts(&it.options) }
}

/// Writes `value` into the `StringSelect` at `idx` whose key is `key`.
fn write_string_select(items: &mut Vec<ConfigItem>, idx: usize, key: &str, value: &str)
    ensures
        item_views(final(items)@) == written_select(item_views(old(items)@), idx as int, key@, value@),
{
    if idx < items.len() {
        let hit = match &items[idx].value {
            ConfigValue::StringSelect(_) => str_eq(items[idx].key.as_str(), key),
            _ => false,
        };
        if hit {
            let it = copy_item_with(&items[idx], ConfigValue::StringSelect(value.to_owned()));
            let ghost before = items@;
            items.set(idx, it);
            assert(item_views(items@) =~= item_views(before).update(idx as int, it@));
        }
    }
}

impl CfgPickerState {
    /// An open picker stays on one of its options.
    pub open spec fn wf(&self) -> bool {
        match self.option_selector {
            Some(s) => s.wf(),
            None => true,
        }
    }

    /// A picker over `items` with the first row selected and no inline picker.
    pub fn new(items: Vec<ConfigItem>) -> (r: Self)
        ensures
            r.wf(),
            r@ == (PickerView { items: item_views(items@), selected: Some(0), selector: None, editor: None }),
    {
        CfgPickerState { items, selected: Some(0), option_selector: None, txt_edit: None }
    }

    /// Whether an inline picker is open.
    pub fn selector_open(&self) -> (r: bool)
        ensures
            r == self@.selector is Some,
    {
        self.option_selector.is_some()
    }

    /// Opens an inline picker where the selected row is a `StringSelect`;
    /// says whether one was opened.
    pub fn try_open_selector(&mut self) -> (r: bool)
        requires
            old(self).wf(),
        ensures
            final(self).wf(),
            r == can_open(old(self)@),
            final(self)@ == opened(old(self)@),
    {
        let idx: usize = match self.selected {
            Some(i) => i,
            None => 0,
        };
        if idx < self.items.len() {
            match &self.items[idx].value {
                ConfigValue::StringSelect(v) => {
                    let sel = OptionSelector::new(
                        self.items[idx].key.as_str(),
                        copy_texts(&self.items[idx].options),
                        v.as_str(),
                    );
                    self.option_selector = Some(sel);
                    return true;
                },
                _ => {},
            }
        }
        false
    }

    /// Keeps the previewed value and closes the inline picker.
    pub fn confirm_selector(&mut self)
        ensures
            final(self).wf(),
            final(self)@ == (PickerView { selector: None, ..old(self)@ }),
    {
        self.option_selector = None;
    }

    /// Closes the inline picker and gives its item back the value it had
    /// when the picker opened; with no picker open, changes nothing.
    pub fn cancel_selector(&mut self)
        requires
            old(self).wf(),
        ensures
            final(self).wf(),
            final(self)@ == cancelled(old(self)@),
    {
        let (original, key) = match &self.option_selector {
            None => return,
            Some(sel) => (sel.original_value().to_owned(), sel.config_key.clone()),
        };
        let idx: usize = match self.selected {
            Some(i) => i,
            None => 0,
        };
        self.option_selector = None;
        write_string_select(&mut self.items, idx, key.as_str(), original.as_str());
    }

    /// Writes the inline picker's current value into its item.
    pub fn apply_selector_preview(&mut self)
        requires
            old(self).wf(),
        ensures
            final(self).wf(),
            final(self)@ == previewed(old(self)@),
    {
        let (value, key) = match &self.option_selector {
            None => return,
            Some(sel) => (sel.current_value().to_owned(), sel.config_key.clone()),
        };
        let idx: usize = match self.selected {
            Some(i) => i,
            None => 0,
        };
        write_string_select(&mut self.items, idx, key.as_str(), value.as_str());
    }

    /// Moves the inline picker one option up and previews it.
    pub fn navigate_selector_up(&mut self)
        requires
            old(self).wf(),
        ensures
            final(self).wf(),
            final(self)@ == moved(old(self)@, true),
    {
        match &mut self.option_selector {
            Some(sel) => sel.navigate_up(),
            None => {},
        }
        self.apply_selector_preview();
    }

    /// Moves the inline picker one option down and previews it.
    pub fn navigate_selector_down(&mut self)
        requires
            old(self).wf(),
        ensures
            final(self).wf(),
            final(self)@ == moved(old(self)@, false),
    {
        match &mut self.option_selector {
            Some(sel) => sel.navigate_down(),
            None => {},
        }
        self.apply_selector_preview();
    }

    /// Confirms the selected row: the confirm action of its item (see
    /// `handle_confirm_action`), with `value_str` the item's current text for
    /// an editor that opens; with no row selected, or the selection past the
    /// items, nothing changes.
    pub fn handle_selected_item(&mut self, value_str: &str) -> (r: Result<(), ErrorBox>)
        requires
            old(self).wf(),
        ensures
            final(self).wf(),
            final(self)@.selected == old(self)@.selected,
            final(self)@.selector == old(self)@.selector,
            match old(self).selected {
                Some(i) => if i < old(self)@.items.len() {
                    let it = old(self)@.items[i as int];
                    let (e, out) = confirm_action(old(self)@.editor, it.value, value_str@);
                    &&& final(self)@.editor == e
                    &&& match out {
                        Ok(v) => r is Ok && final(self)@.items == old(self)@.items.update(
                            i as int,
                            ItemView { key: it.key, value: v, options: it.options },
                        ),
                        Err(m) => r matches Err(b) && b.msg@ == m && final(self)@.items == old(self)@.items,
                    }
                } else {
                    r is Ok && final(self)@ == old(self)@
                },
                None => r is Ok && final(self)@ == old(self)@,
            },
    {
        let i = match self.selected {
            Some(i) => i,
            None => return Ok(()),
        };
        if i >= self.items.len() {
            return Ok(());
        }
        let ghost before = self.items@;
        let mut it = self.items.remove(i);
        let ghost it0 = it@;
        let r = handle_confirm_action(&mut self.txt_edit, &mut it.value, value_str);
        self.items.insert(i, it);
        proof {
            assert(item_views(self.items@) =~= item_views(before).update(i as int, it@));
            if it@ == it0 {
                assert(item_views(before).update(i as int, it0) =~= item_views(before));
            }
        }
        r
    }
}

/// What holds of a picker opened on `s` after any moves: it is still open on
/// the opened row's key and options, with its opening position; only that
/// row's value may differ, and it stays a `StringSelect`.
pub open spec fn still_open_on(t: PickerView, s: PickerView) -> bool {
    let i = row(s);
    let it = s.items[i];
    &&& t.selected == s.selected
    &&& t.items.len() == s.items.len()
    &&& t.items[i].key == it.key
    &&& t.items[i].options == it.options
    &&& t.items[i].value is StringSelect
    &&& forall|k: int| 0 <= k < s.items.len() && k != i ==> #[trigger] t.items[k] == s.items[k]
    &&& t.selector matches Some(sel) && sel.key == it.key && sel.options == it.options && sel.original_idx
        == position_of(it.options, select_value(it.value))
}

proof fn lemma_moves_keep_picker(s: PickerView, moves: Seq<bool>)
    requires
        can_open(s),
    ensures
        still_open_on(moved_all(opened(s), moves), s),
    decreases moves.len(),
{
    if moves.len() > 0 {
        lemma_moves_keep_picker(s, moves.drop_last());
    }
}

/// The first position of a value that is among the options holds it.
proof fn lemma_position_found(options: Seq<Seq<char>>, v: Seq<char>)
    requires
        options.contains(v),
    ensures
        0 <= position_of(options, v) < options.len(),
        options[position_of(options, v)] == v,
{
    let j = choose|j: int| 0 <= j < options.len() && options[j] == v;
    lemma_first_exists(options, v, j);
}

proof fn lemma_first_exists(options: Seq<Seq<char>>, v: Seq<char>, j: int)
    requires
        0 <= j < options.len(),
        options[j] == v,
    ensures
        exists|i: int|
            0 <= i < options.len() && options[i] == v && forall|k: int| 0 <= k < i ==> options[k] != v,
    decreases j,
{
    if exists|k: int| 0 <= k < j && options[k] == v {
        let k = choose|k: int| 0 <= k < j && options[k] == v;
        lemma_first_exists(options, v, k);
    } else {
        assert(forall|k: int| 0 <= k < j ==> options[k] != v);
    }
}

proof fn lemma_cancel_after_moves(t: PickerView, s: PickerView)
    requires
        can_open(s),
        s.items[row(s)].options.contains(select_value(s.items[row(s)].value)),
        still_open_on(t, s),
    ensures
        cancelled(t).items == s.items,
        cancelled(t).selector is None,
        cancelled(t).selected == s.selected,
{
    let i = row(s);
    let it = s.items[i];
    let v0 = select_value(it.value);
    lemma_position_found(it.options, v0);
    let c = cancelled(t);
    assert(row(t) == i);
    assert(it.value == ValueView::StringSelect(v0));
    assert(c.items =~= s.items) by {
        assert forall|k: int| 0 <= k < s.items.len() implies c.items[k] == s.items[k] by {
            if k != i {
                assert(t.items[k] == s.items[k]);
            }
        }
    }
}

/// Cancelling an inline picker gives the item back the value it had when
/// the picker opened, however the picker moved in between (each move writes
/// a preview), where that value is one of the item's options; the picker is
/// then closed and every item is as before. With no picker open, cancelling
/// changes nothing.
pub proof fn lemma_cancel_restores_value(s: PickerView, moves: Seq<bool>)
    requires
        can_open(s),
        s.items[row(s)].options.contains(select_value(s.items[row(s)].value)),
    ensures
        cancelled(moved_all(opened(s), moves)).items == s.items,
        cancelled(moved_all(opened(s), moves)).selector is None,
        cancelled(moved_all(opened(s), moves)).selected == s.selected,
        s.selector is None ==> cancelled(s) == s,
{
    lemma_moves_keep_picker(s, moves);
    lemma_cancel_after_moves(moved_all(opened(s), moves), s);
}

} // verus!
