//! The decisions of the terminal front end: which pop-ups are open, which pane
//! has the focus, how the screen is split, and what each action does. The
//! panes, the search box and the config window themselves are driven by the
//! caller, which carries out the returned `Effect`.
use vstd::prelude::*;
use crate::error_box::{ErrorBox, PromptResponse, prompt_view};

verus! {

/// What a key can be bound to.
#[derive(Debug, Clone, Copy, PartialEq, Eq, Structural)]
pub enum Action {
    Quit,
    Close,
    Keybindings,
    IncreaseVerbosity,
    DecreaseVerbosity,
    ToggleFocus,
    NavigateSelect,
    NavigateRight,
    NavigateLeft,
    NavigateDown,
    NavigateUp,
    NavigatePageup,
    NavigatePagedown,
    NavigateScrollToEnd,
    NavigateScrollToBeginning,
    IncreaseLayoutFill,
    DecreaseLayoutFill,
    Refresh,
    CopyToClipboard,
    Config,
    SaveConfig,
    Search,
}

/// The number of actions, one row each in the key bindings pop-up.
pub const ACTION_COUNT: usize = 22;

/// The pop-ups that can be stacked on the panes.
#[derive(Debug, Clone, Copy, PartialEq, Eq, Structural)]
pub enum Popup {
    ConfigBox,
    SearchBox,
    ErrorBox,
    IpInfoPopUp,
    Keybindings,
}

/// What the front end reacts to.
#[derive(Debug, Clone, Copy, PartialEq, Eq, Structural)]
pub enum Message {
    Action(Action),
    /// A key typed into the pop-up on top (the caller keeps the key).
    BoxInput,
    PromptResponse(PromptResponse),
    Open(Popup),
}

/// Which pane has the focus.
#[derive(Debug, Clone, Copy, PartialEq, Eq, Structural)]
pub enum TuiPane {
    Logs,
    IpInfo,
    IpInfoWithSearch,
}

/// Whether the front end keeps running.
#[derive(Debug, Clone, Copy, PartialEq, Eq, Structural)]
pub enum RunningState {
    Running,
    Done,
}

/// Work on the parts the caller drives.
#[derive(Debug, Clone, Copy, PartialEq, Eq, Structural)]
pub enum Effect {
    Nothing,
    /// Tell the scanners to stop.
    Stop,
    IncreaseVerbosity,
    DecreaseVerbosity,
    Refresh,
    CopyToClipboard,
    OpenConfigWindow,
    /// The config window's close action (it may only close its text editor).
    CloseConfigWindow,
    /// Hand the action to the config window.
    ConfigUpdate(Action),
    /// Hand the typed key to the config window.
    ConfigInput,
    /// The prompt was answered OK: let an open config window act on it.
    ConfigConfirm,
    /// The prompt was answered CANCEL: let an open config window drop it.
    ConfigCancel,
    /// Create the search box.
    OpenSearch,
    /// Drop the search box.
    CloseSearch,
    /// Hand the action to the search box.
    SearchUpdate(Action),
    /// Hand the typed key to the search box.
    SearchInput,
    TableNextRow,
    TablePreviousRow,
    TableNextColumn,
    TablePreviousColumn,
    TableScrollToStart,
    TableScrollToEnd,
    LogScrollDown,
    LogScrollUp,
    LogScrollLeft,
    LogScrollRight,
    LogPageUp,
    LogPageDown,
    LogScrollToStart,
    LogScrollToEnd,
}

/// Where a pressed key goes.
#[derive(Debug, Clone, Copy, PartialEq, Eq, Structural)]
pub enum KeyRoute {
    /// Not a press: ignored.
    Ignore,
    /// Looked up in the key bindings.
    Keymap,
    /// Typed into the pop-up on top.
    BoxInput,
}

/// The front end's state as plain values.
pub struct ModelView {
    pub popups: Seq<Popup>,
    pub pane: TuiPane,
    pub running: RunningState,
    pub top_fill: u16,
    pub bottom_fill: u16,
    pub keybinding_row: Option<usize>,
    pub error_selected: Option<Option<PromptResponse>>,
    /// The error pop-up's message and question, where one is shown.
    pub error_text: Option<(Seq<char>, Option<Seq<Seq<char>>>)>,
    pub search_open: bool,
    pub ip_info_popup_open: bool,
}

/// The focus after switching panes: the log pane and the table alternate.
pub open spec fn toggled_pane(p: TuiPane) -> TuiPane {
    match p {
        TuiPane::Logs => TuiPane::IpInfo,
        _ => TuiPane::Logs,
    }
}

/// A fill percentage grown by five, at most 100.
pub open spec fn grown(c: u16) -> u16 {
    if c + 5 > 100 {
        100
    } else {
        (c + 5) as u16
    }
}

/// A fill percentage shrunk by five, at least 2.
pub open spec fn shrunk(c: u16) -> u16 {
    if c < 7 {
        2
    } else {
        (c - 5) as u16
    }
}

/// The next row of the key bindings table: one down, staying on the last
/// row; the first row where none was selected.
pub open spec fn next_binding_row(r: Option<usize>) -> Option<usize> {
    match r {
        Some(i) => Some(
            if i >= ACTION_COUNT - 1 {
                i
            } else {
                (i + 1) as usize
            },
        ),
        None => Some(0),
    }
}

/// The previous row of the key bindings table: one up, staying on the first.
pub open spec fn previous_binding_row(r: Option<usize>) -> Option<usize> {
    match r {
        Some(i) => Some(
            if i == 0 {
                0
            } else {
                (i - 1) as usize
            },
        ),
        None => Some(0),
    }
}

/// The pop-up on top, if any.
pub open spec fn top(popups: Seq<Popup>) -> Option<Popup> {
    if popups.len() == 0 {
        None
    } else {
        Some(popups.last())
    }
}

/// The state the front end keeps to: fills between 2 and 100, and no log
/// focus while a search box is stacked.
pub open spec fn model_wf(m: ModelView) -> bool {
    &&& 2 <= m.top_fill <= 100
    &&& 2 <= m.bottom_fill <= 100
    &&& m.popups.contains(Popup::SearchBox) ==> m.pane != TuiPane::Logs
}

/// The messages the front end cannot take in a state: selecting while the
/// config window or the search box is on top, and typing into the error pop-up.
pub open spec fn accepts(m: ModelView, msg: Message) -> bool {
    &&& !(msg == Message::Action(Action::NavigateSelect) && top(m.popups) == Some(Popup::ConfigBox))
    &&& !(msg == Message::Action(Action::NavigateSelect) && top(m.popups) == Some(Popup::SearchBox))
    &&& !(msg == Message::BoxInput && top(m.popups) == Some(Popup::ErrorBox))
}

/// The state of the front end.
pub struct Model {
    popup: Vec<Popup>,
    selected_pane: TuiPane,
    running_state: RunningState,
    top_fill: u16,
    bottom_fill: u16,
    keybinding_row: Option<usize>,
    error_box: Option<ErrorBox>,
    search_open: bool,
    ip_info_popup_open: bool,
}

/// The result of taking in a message: a message to take in next, if any, and
/// the work for the caller.
#[derive(Debug, Clone, Copy, PartialEq, Eq, Structural)]
pub struct Update {
    pub reply: Option<Message>,
    pub effect: Effect,
}

impl View for Model {
    type V = ModelView;

    closed spec fn view(&self) -> ModelView {
        ModelView {
            popups: self.popup@,
            pane: self.selected_pane,
            running: self.running_state,
            top_fill: self.top_fill,
            bottom_fill: self.bottom_fill,
            keybinding_row: self.keybinding_row,
            error_selected: match self.error_box {
                Some(e) => Some(e.selected),
                None => None,
            },
            error_text: match self.error_box {
                Some(e) => Some((e.msg@, prompt_view(e.prompt))),
                None => None,
            },
            search_open: self.search_open,
            ip_info_popup_open: self.ip_info_popup_open,
        }
    }
}

/// The state with one pop-up fewer, and what closing it does: the search box
/// returns the focus to the table; the error pop-up and the host pop-up close.
pub open spec fn close_step(m: ModelView) -> (ModelView, Effect) {
    if m.popups.len() == 0 {
        (m, Effect::Nothing)
    } else {
        let rest = ModelView { popups: m.popups.drop_last(), ..m };
        match m.popups.last() {
            Popup::ConfigBox => (rest, Effect::CloseConfigWindow),
            Popup::SearchBox => (
                ModelView { pane: TuiPane::IpInfo, search_open: false, ..rest },
                Effect::CloseSearch,
            ),
            Popup::ErrorBox => (ModelView { error_selected: None, error_text: None, ..rest }, Effect::Nothing),
            Popup::IpInfoPopUp => (ModelView { ip_info_popup_open: false, ..rest }, Effect::Nothing),
            Popup::Keybindings => (rest, Effect::Nothing),
        }
    }
}

/// The error pop-up's choice after `f`, where there is an error pop-up.
pub open spec fn error_choice(m: ModelView, choice: Option<PromptResponse>) -> ModelView {
    match m.error_selected {
        Some(_) => ModelView { error_selected: Some(choice), ..m },
        None => m,
    }
}

/// The effect of moving down or up: the focused pane scrolls or moves its row.
pub open spec fn row_effect(pane: TuiPane, down: bool) -> Effect {
    match pane {
        TuiPane::Logs => if down {
            Effect::LogScrollDown
        } else {
            Effect::LogScrollUp
        },
        _ => if down {
            Effect::TableNextRow
        } else {
            Effect::TablePreviousRow
        },
    }
}

/// Moving right or left (see `Model::update`).
pub open spec fn sideways_step(m: ModelView, right: bool) -> (ModelView, Effect) {
    let a = if right {
        Action::NavigateRight
    } else {
        Action::NavigateLeft
    };
    let table = if right {
        Effect::TableNextColumn
    } else {
        Effect::TablePreviousColumn
    };
    match top(m.popups) {
        Some(Popup::ConfigBox) => (m, Effect::ConfigUpdate(a)),
        Some(Popup::SearchBox) => match m.pane {
            TuiPane::IpInfoWithSearch => (
                m,
                if m.search_open {
                    Effect::SearchUpdate(a)
                } else {
                    Effect::Nothing
                },
            ),
            _ => (m, table),
        },
        Some(Popup::ErrorBox) => (
            error_choice(
                m,
                Some(
                    if right {
                        PromptResponse::Cancel
                    } else {
                        PromptResponse::Confirm
                    },
                ),
            ),
            Effect::Nothing,
        ),
        Some(_) => (m, Effect::Nothing),
        None => match m.pane {
            TuiPane::Logs => (
                m,
                if right {
                    Effect::LogScrollRight
                } else {
                    Effect::LogScrollLeft
                },
            ),
            _ => (m, table),
        },
    }
}

/// Moving down or up (see `Model::update`).
pub open spec fn vertical_step(m: ModelView, down: bool) -> (ModelView, Effect) {
    let a = if down {
        Action::NavigateDown
    } else {
        Action::NavigateUp
    };
    match top(m.popups) {
        Some(Popup::ConfigBox) => (m, Effect::ConfigUpdate(a)),
        Some(Popup::ErrorBox) => (m, Effect::Nothing),
        Some(Popup::Keybindings) => (
            ModelView {
                keybinding_row: if down {
                    next_binding_row(m.keybinding_row)
                } else {
                    previous_binding_row(m.keybinding_row)
                },
                ..m
            },
            Effect::Nothing,
        ),
        _ => (m, row_effect(m.pane, down)),
    }
}

/// The fills after growing the pane at `grow` and shrinking the one at `shrink`
/// (0 the table, 1 the logs).
pub open spec fn adjusted(m: ModelView, grow: usize, shrink: usize) -> ModelView {
    let t1 = if grow == 0 {
        grown(m.top_fill)
    } else {
        m.top_fill
    };
    let b1 = if grow == 1 {
        grown(m.bottom_fill)
    } else {
        m.bottom_fill
    };
    let t2 = if shrink == 0 {
        shrunk(t1)
    } else {
        t1
    };
    let b2 = if shrink == 1 {
        shrunk(b1)
    } else {
        b1
    };
    ModelView { top_fill: t2, bottom_fill: b2, ..m }
}

/// Growing the focused pane.
pub open spec fn fill_more(m: ModelView) -> ModelView {
    match m.pane {
        TuiPane::Logs => adjusted(m, 1, 0),
        _ => adjusted(m, 0, 1),
    }
}

/// Shrinking the focused pane.
pub open spec fn fill_less(m: ModelView) -> ModelView {
    match m.pane {
        TuiPane::Logs => adjusted(m, 0, 1),
        _ => adjusted(m, 1, 0),
    }
}

/// One action (see `Model::update`): the next state, the message to take in
/// next and the work for the caller.
pub open spec fn action_step(m: ModelView, a: Action) -> (ModelView, Option<Message>, Effect) {
    match a {
        Action::Quit => (ModelView { running: RunningState::Done, ..m }, None, Effect::Stop),
        Action::Close => {
            let (n, e) = close_step(m);
            (n, None, e)
        },
        Action::Keybindings => if top(m.popups) == Some(Popup::Keybindings) {
            (m, None, Effect::Nothing)
        } else {
            (
                ModelView { popups: m.popups.push(Popup::Keybindings), keybinding_row: Some(0), ..m },
                None,
                Effect::Nothing,
            )
        },
        Action::IncreaseVerbosity => (m, None, Effect::IncreaseVerbosity),
        Action::DecreaseVerbosity => (m, None, Effect::DecreaseVerbosity),
        Action::ToggleFocus => match top(m.popups) {
            Some(Popup::ConfigBox) => (m, None, Effect::ConfigUpdate(Action::ToggleFocus)),
            Some(Popup::SearchBox) => (
                ModelView {
                    pane: if m.pane == TuiPane::IpInfo {
                        TuiPane::IpInfoWithSearch
                    } else {
                        TuiPane::IpInfo
                    },
                    ..m
                },
                None,
                Effect::Nothing,
            ),
            Some(Popup::ErrorBox) => (
                error_choice(
                    m,
                    Some(
                        match m.error_selected {
                            Some(Some(PromptResponse::Confirm)) => PromptResponse::Cancel,
                            Some(Some(PromptResponse::Cancel)) => PromptResponse::Confirm,
                            _ => PromptResponse::Cancel,
                        },
                    ),
                ),
                None,
                Effect::Nothing,
            ),
            Some(_) => (m, None, Effect::Nothing),
            None => (ModelView { pane: toggled_pane(m.pane), ..m }, None, Effect::Nothing),
        },
        Action::NavigateSelect => match top(m.popups) {
            Some(Popup::ErrorBox) => match m.error_selected {
                Some(Some(r)) => (
                    ModelView { error_selected: None, error_text: None, ..m },
                    Some(Message::PromptResponse(r)),
                    Effect::Nothing,
                ),
                _ => (m, None, Effect::Nothing),
            },
            Some(_) => (m, Some(Message::Action(Action::Close)), Effect::Nothing),
            None => match m.pane {
                TuiPane::Logs => (m, None, Effect::Nothing),
                _ => (
                    ModelView { ip_info_popup_open: !m.ip_info_popup_open, ..m },
                    Some(
                        if !m.ip_info_popup_open {
                            Message::Open(Popup::IpInfoPopUp)
                        } else {
                            Message::Action(Action::Close)
                        },
                    ),
                    Effect::Nothing,
                ),
            },
        },
        Action::NavigateRight => {
            let (n, e) = sideways_step(m, true);
            (n, None, e)
        },
        Action::NavigateLeft => {
            let (n, e) = sideways_step(m, false);
            (n, None, e)
        },
        Action::NavigateDown => {
            let (n, e) = vertical_step(m, true);
            (n, None, e)
        },
        Action::NavigateUp => {
            let (n, e) = vertical_step(m, false);
            (n, None, e)
        },
        Action::NavigatePageup => (
            m,
            None,
            if m.pane == TuiPane::Logs {
                Effect::LogPageUp
            } else {
                Effect::Nothing
            },
        ),
        Action::NavigatePagedown => (
            m,
            None,
            if m.pane == TuiPane::Logs {
                Effect::LogPageDown
            } else {
                Effect::Nothing
            },
        ),
        Action::NavigateScrollToEnd => (
            m,
            None,
            if m.pane == TuiPane::Logs {
                Effect::LogScrollToEnd
            } else {
                Effect::TableScrollToEnd
            },
        ),
        Action::NavigateScrollToBeginning => (
            m,
            None,
            if m.pane == TuiPane::Logs {
                Effect::LogScrollToStart
            } else {
                Effect::TableScrollToStart
            },
        ),
        Action::IncreaseLayoutFill => (fill_more(m), None, Effect::Nothing),
        Action::DecreaseLayoutFill => (fill_less(m), None, Effect::Nothing),
        Action::Refresh => (m, None, Effect::Refresh),
        Action::CopyToClipboard => (m, None, Effect::CopyToClipboard),
        Action::Config => (m, Some(Message::Open(Popup::ConfigBox)), Effect::Nothing),
        Action::SaveConfig => (m, None, Effect::Nothing),
        Action::Search => (m, Some(Message::Open(Popup::SearchBox)), Effect::Nothing),
    }
}

/// One message (see `Model::update`).
pub open spec fn model_step(m: ModelView, msg: Message) -> (ModelView, Option<Message>, Effect) {
    match msg {
        Message::Action(a) => action_step(m, a),
        Message::BoxInput => match top(m.popups) {
            Some(Popup::ConfigBox) => (m, None, Effect::ConfigInput),
            Some(Popup::SearchBox) => (
                m,
                None,
                if m.search_open {
                    Effect::SearchInput
                } else {
                    Effect::Nothing
                },
            ),
            _ => (m, None, Effect::Nothing),
        },
        Message::PromptResponse(p) => {
            let n = ModelView {
                popups: if m.popups.len() > 0 {
                    m.popups.drop_last()
                } else {
                    m.popups
                },
                ..m
            };
            (
                n,
                None,
                match p {
                    PromptResponse::Confirm => Effect::ConfigConfirm,
                    PromptResponse::Cancel => Effect::ConfigCancel,
                },
            )
        },
        Message::Open(p) => match p {
            Popup::ConfigBox => (
                ModelView { popups: m.popups.push(Popup::ConfigBox), ..m },
                None,
                Effect::OpenConfigWindow,
            ),
            Popup::SearchBox => (
                ModelView {
                    popups: m.popups.push(Popup::SearchBox),
                    pane: TuiPane::IpInfoWithSearch,
                    search_open: true,
                    ..m
                },
                None,
                Effect::OpenSearch,
            ),
            _ => (ModelView { popups: m.popups.push(p), ..m }, None, Effect::Nothing),
        },
    }
}

/// Where a key goes (see `Model::route_key`).
pub open spec fn key_route(
    m: ModelView,
    is_press: bool,
    basic_navigation: bool,
    copy_key: bool,
    config_text_editing: bool,
) -> KeyRoute {
    if !is_press {
        KeyRoute::Ignore
    } else {
        match top(m.popups) {
            Some(Popup::ConfigBox) => if !config_text_editing && basic_navigation {
                KeyRoute::Keymap
            } else {
                KeyRoute::BoxInput
            },
            Some(Popup::SearchBox) => match m.pane {
                TuiPane::IpInfoWithSearch => KeyRoute::BoxInput,
                _ => if basic_navigation || copy_key {
                    KeyRoute::Keymap
                } else {
                    KeyRoute::BoxInput
                },
            },
            _ => KeyRoute::Keymap,
        }
    }
}

impl Model {
    /// The starting state: no pop-ups, the table focused, split 70 / 30.
    pub fn new() -> (r: Self)
        ensures
            model_wf(r@),
            r@.popups == Seq::<Popup>::empty(),
            r@.pane == TuiPane::IpInfo,
            r@.running == RunningState::Running,
            r@.top_fill == 70,
            r@.bottom_fill == 30,
            r@.keybinding_row == None::<usize>,
            r@.error_selected == None::<Option<PromptResponse>>,
            r@.error_text is None,
            !r@.search_open,
            !r@.ip_info_popup_open,
    {
        let r = Model {
            popup: Vec::new(),
            selected_pane: TuiPane::IpInfo,
            running_state: RunningState::Running,
            top_fill: 70,
            bottom_fill: 30,
            keybinding_row: None,
            error_box: None,
            search_open: false,
            ip_info_popup_open: false,
        };
        assert(r@.popups =~= Seq::<Popup>::empty());
        r
    }

    /// Whether the front end is done.
    pub fn is_done(&self) -> (r: bool)
        ensures
            r == (self@.running == RunningState::Done),
    {
        self.running_state == RunningState::Done
    }

    /// The focused pane.
    pub fn selected_pane(&self) -> (r: TuiPane)
        ensures
            r == self@.pane,
    {
        self.selected_pane
    }

    /// The pop-up on top, if any.
    pub fn top_popup(&self) -> (r: Option<Popup>)
        ensures
            r == top(self@.popups),
    {
        if self.popup.len() == 0 {
            None
        } else {
            Some(self.popup[self.popup.len() - 1])
        }
    }

    /// The fill percentages of the table and the log pane.
    pub fn pane_constraints(&self) -> (r: (u16, u16))
        ensures
            r == (self@.top_fill, self@.bottom_fill),
    {
        (self.top_fill, self.bottom_fill)
    }

    /// The selected row of the key bindings pop-up.
    pub fn keybinding_row(&self) -> (r: Option<usize>)
        ensures
            r == self@.keybinding_row,
    {
        self.keybinding_row
    }

    /// The error pop-up, if one is shown.
    pub fn error_box(&self) -> (r: &Option<ErrorBox>)
        ensures
            match *r {
                Some(e) => self@.error_selected == Some(e.selected) && self@.error_text == Some(
                    (e.msg@, prompt_view(e.prompt)),
                ),
                None => self@.error_selected is None && self@.error_text is None,
            },
    {
        &self.error_box
    }

    /// Whether the host pop-up of the table is open.
    pub fn ip_info_popup_open(&self) -> (r: bool)
        ensures
            r == self@.ip_info_popup_open,
    {
        self.ip_info_popup_open
    }

    /// Shows an error without stacking its pop-up.
    pub fn set_error(&mut self, e: ErrorBox)
        ensures
            final(self)@ == (ModelView {
                error_selected: Some(e.selected),
                error_text: Some((e.msg@, prompt_view(e.prompt))),
                ..old(self)@
            }),
    {
        self.error_box = Some(e);
    }

    /// Typing into the config window failed: shows the error and asks to
    /// open its pop-up.
    pub fn config_input_failed(&mut self, e: ErrorBox) -> (r: Message)
        ensures
            final(self)@ == (ModelView {
                error_selected: Some(e.selected),
                error_text: Some((e.msg@, prompt_view(e.prompt))),
                ..old(self)@
            }),
            r == Message::Open(Popup::ErrorBox),
    {
        self.error_box = Some(e);
        Message::Open(Popup::ErrorBox)
    }

    /// Switches the focus between the table and the log pane.
    pub fn toggle_selected_pane(&mut self)
        ensures
            final(self)@ == (ModelView { pane: toggled_pane(old(self)@.pane), ..old(self)@ }),
    {
        self.selected_pane = match self.selected_pane {
            TuiPane::Logs => TuiPane::IpInfo,
            TuiPane::IpInfoWithSearch | TuiPane::IpInfo => TuiPane::Logs,
        };
    }

    /// Grows the pane at `grow_idx` by five points (at most 100) and shrinks
    /// the one at `shrink_idx` by five (at least 2); 0 is the table, 1 the logs.
    pub fn adjust_panes(&mut self, grow_idx: usize, shrink_idx: usize)
        requires
            grow_idx < 2,
            shrink_idx < 2,
        ensures
            final(self)@ == adjusted(old(self)@, grow_idx, shrink_idx),
    {
        if grow_idx == 0 {
            self.top_fill = if self.top_fill > 95 {
                100
            } else {
                self.top_fill + 5
            };
        } else {
            self.bottom_fill = if self.bottom_fill > 95 {
                100
            } else {
                self.bottom_fill + 5
            };
        }
        if shrink_idx == 0 {
            self.top_fill = if self.top_fill < 7 {
                2
            } else {
                self.top_fill - 5
            };
        } else {
            self.bottom_fill = if self.bottom_fill < 7 {
                2
            } else {
                self.bottom_fill - 5
            };
        }
    }

    /// Grows the focused pane.
    pub fn increase_layout_fill(&mut self)
        ensures
            final(self)@ == fill_more(old(self)@),
    {
        match self.selected_pane {
            TuiPane::IpInfo | TuiPane::IpInfoWithSearch => self.adjust_panes(0, 1),
            TuiPane::Logs => self.adjust_panes(1, 0),
        }
    }

    /// Shrinks the focused pane.
    pub fn decrease_layout_fill(&mut self)
        ensures
            final(self)@ == fill_less(old(self)@),
    {
        match self.selected_pane {
            TuiPane::IpInfo | TuiPane::IpInfoWithSearch => self.adjust_panes(1, 0),
            TuiPane::Logs => self.adjust_panes(0, 1),
        }
    }

    /// Moves the key bindings selection one row down.
    pub fn next_keybinding_row(&mut self)
        ensures
            final(self)@ == (ModelView {
                keybinding_row: next_binding_row(old(self)@.keybinding_row),
                ..old(self)@
            }),
    {
        let i = match self.keybinding_row {
            Some(i) => {
                if i >= ACTION_COUNT - 1 {
                    i
                } else {
                    i + 1
                }
            },
            None => 0,
        };
        self.keybinding_row = Some(i);
    }

    /// Moves the key bindings selection one row up.
    pub fn previous_keybinding_row(&mut self)
        ensures
            final(self)@ == (ModelView {
                keybinding_row: previous_binding_row(old(self)@.keybinding_row),
                ..old(self)@
            }),
    {
        let i = match self.keybinding_row {
            Some(i) => if i == 0 {
                0
            } else {
                i - 1
            },
            None => 0,
        };
        self.keybinding_row = Some(i);
    }

    fn close(&mut self) -> (r: Effect)
        ensures
            (final(self)@, r) == close_step(old(self)@),
    {
        match self.popup.pop() {
            Some(p) => match p {
                Popup::ConfigBox => Effect::CloseConfigWindow,
                Popup::SearchBox => {
                    self.selected_pane = TuiPane::IpInfo;
                    self.search_open = false;
                    Effect::CloseSearch
                },
                Popup::ErrorBox => {
                    self.error_box = None;
                    Effect::Nothing
                },
                Popup::IpInfoPopUp => {
                    self.ip_info_popup_open = false;
                    Effect::Nothing
                },
                Popup::Keybindings => Effect::Nothing,
            },
            None => Effect::Nothing,
        }
    }

    fn sideways(&mut self, right: bool) -> (r: Effect)
        ensures
            (final(self)@, r) == sideways_step(old(self)@, right),
    {
        let a = if right {
            Action::NavigateRight
        } else {
            Action::NavigateLeft
        };
        let table = if right {
            Effect::TableNextColumn
        } else {
            Effect::TablePreviousColumn
        };
        match self.top_popup() {
            Some(Popup::ConfigBox) => Effect::ConfigUpdate(a),
            Some(Popup::SearchBox) => match self.selected_pane {
                TuiPane::IpInfoWithSearch => if self.search_open {
                    Effect::SearchUpdate(a)
                } else {
                    Effect::Nothing
                },
                _ => table,
            },
            Some(Popup::ErrorBox) => {
                match &mut self.error_box {
                    Some(err) => if right {
                        err.navigate_right();
                    } else {
                        err.navigate_left();
                    },
                    None => {},
                }
                Effect::Nothing
            },
            Some(_) => Effect::Nothing,
            None => match self.selected_pane {
                TuiPane::Logs => if right {
                    Effect::LogScrollRight
                } else {
                    Effect::LogScrollLeft
                },
                _ => table,
            },
        }
    }

    fn vertical(&mut self, down: bool) -> (r: Effect)
        ensures
            (final(self)@, r) == vertical_step(old(self)@, down),
    {
        let a = if down {
            Action::NavigateDown
        } else {
            Action::NavigateUp
        };
        let rows = match self.selected_pane {
            TuiPane::Logs => if down {
                Effect::LogScrollDown
            } else {
                Effect::LogScrollUp
            },
            _ => if down {
                Effect::TableNextRow
            } else {
                Effect::TablePreviousRow
            },
        };
        match self.top_popup() {
            Some(Popup::ConfigBox) => Effect::ConfigUpdate(a),
            Some(Popup::ErrorBox) => Effect::Nothing,
            Some(Popup::Keybindings) => {
                if down {
                    self.next_keybinding_row();
                } else {
                    self.previous_keybinding_row();
                }
                Effect::Nothing
            },
            _ => rows,
        }
    }

    /// Takes in a message (see `model_step`) and returns the message to take
    /// in next, if any, and the work for the caller.
    pub fn update(&mut self, msg: Message) -> (r: Update)
        requires
            model_wf(old(self)@),
            accepts(old(self)@, msg),
        ensures
            model_wf(final(self)@),
            (final(self)@, r.reply, r.effect) == model_step(old(self)@, msg),
    {
        let ghost m0 = self@;
        let r = match msg {
            Message::Action(a) => match a {
                Action::Quit => {
                    self.running_state = RunningState::Done;
                    Update { reply: None, effect: Effect::Stop }
                },
                Action::Close => {
                    let e = self.close();
                    Update { reply: None, effect: e }
                },
                Action::Keybindings => {
                    if self.top_popup() != Some(Popup::Keybindings) {
                        self.popup.push(Popup::Keybindings);
                        self.keybinding_row = Some(0);
                    }
                    Update { reply: None, effect: Effect::Nothing }
                },
                Action::IncreaseVerbosity => Update { reply: None, effect: Effect::IncreaseVerbosity },
                Action::DecreaseVerbosity => Update { reply: None, effect: Effect::DecreaseVerbosity },
                Action::ToggleFocus => match self.top_popup() {
                    Some(p) => match p {
                        Popup::ConfigBox => Update {
                            reply: None,
                            effect: Effect::ConfigUpdate(Action::ToggleFocus),
                        },
                        Popup::SearchBox => {
                            self.selected_pane = match self.selected_pane {
                                TuiPane::IpInfo => TuiPane::IpInfoWithSearch,
                                _ => TuiPane::IpInfo,
                            };
                            Update { reply: None, effect: Effect::Nothing }
                        },
                        Popup::ErrorBox => {
                            match &mut self.error_box {
                                Some(err) => err.navigate_toggle(),
                                None => {},
                            }
                            Update { reply: None, effect: Effect::Nothing }
                        },
                        Popup::IpInfoPopUp | Popup::Keybindings => Update {
                            reply: None,
                            effect: Effect::Nothing,
                        },
                    },
                    None => {
                        self.toggle_selected_pane();
                        Update { reply: None, effect: Effect::Nothing }
                    },
                },
                Action::NavigateSelect => match self.top_popup() {
                    Some(p) => match p {
                        Popup::ErrorBox => {
                            let resp = match &self.error_box {
                                Some(err) => err.select(),
                                None => None,
                            };
                            match resp {
                                Some(r) => {
                                    self.error_box = None;
                                    Update { reply: Some(Message::PromptResponse(r)), effect: Effect::Nothing }
                                },
                                None => Update { reply: None, effect: Effect::Nothing },
                            }
                        },
                        _ => Update { reply: Some(Message::Action(Action::Close)), effect: Effect::Nothing },
                    },
                    None => match self.selected_pane {
                        TuiPane::Logs => Update { reply: None, effect: Effect::Nothing },
                        _ => {
                            self.ip_info_popup_open = !self.ip_info_popup_open;
                            if self.ip_info_popup_open {
                                Update {
                                    reply: Some(Message::Open(Popup::IpInfoPopUp)),
                                    effect: Effect::Nothing,
                                }
                            } else {
                                Update { reply: Some(Message::Action(Action::Close)), effect: Effect::Nothing }
                            }
                        },
                    },
                },
                Action::NavigateRight => {
                    let e = self.sideways(true);
                    Update { reply: None, effect: e }
                },
                Action::NavigateLeft => {
                    let e = self.sideways(false);
                    Update { reply: None, effect: e }
                },
                Action::NavigateDown => {
                    let e = self.vertical(true);
                    Update { reply: None, effect: e }
                },
                Action::NavigateUp => {
                    let e = self.vertical(false);
                    Update { reply: None, effect: e }
                },
                Action::NavigatePageup => Update {
                    reply: None,
                    effect: if self.selected_pane == TuiPane::Logs {
                        Effect::LogPageUp
                    } else {
                        Effect::Nothing
                    },
                },
                Action::NavigatePagedown => Update {
                    reply: None,
                    effect: if self.selected_pane == TuiPane::Logs {
                        Effect::LogPageDown
                    } else {
                        Effect::Nothing
                    },
                },
                Action::NavigateScrollToEnd => Update {
                    reply: None,
                    effect: if self.selected_pane == TuiPane::Logs {
                        Effect::LogScrollToEnd
                    } else {
                        Effect::TableScrollToEnd
                    },
                },
                Action::NavigateScrollToBeginning => Update {
                    reply: None,
                    effect: if self.selected_pane == TuiPane::Logs {
                        Effect::LogScrollToStart
                    } else {
                        Effect::TableScrollToStart
                    },
                },
                Action::IncreaseLayoutFill => {
                    self.increase_layout_fill();
                    Update { reply: None, effect: Effect::Nothing }
                },
                Action::DecreaseLayoutFill => {
                    self.decrease_layout_fill();
                    Update { reply: None, effect: Effect::Nothing }
                },
                Action::Refresh => Update { reply: None, effect: Effect::Refresh },
                Action::CopyToClipboard => Update { reply: None, effect: Effect::CopyToClipboard },
                Action::Config => Update { reply: Some(Message::Open(Popup::ConfigBox)), effect: Effect::Nothing },
                Action::SaveConfig => Update { reply: None, effect: Effect::Nothing },
                Action::Search => Update { reply: Some(Message::Open(Popup::SearchBox)), effect: Effect::Nothing },
            },
            Message::BoxInput => match self.top_popup() {
                Some(Popup::ConfigBox) => Update { reply: None, effect: Effect::ConfigInput },
                Some(Popup::SearchBox) => Update {
                    reply: None,
                    effect: if self.search_open {
                        Effect::SearchInput
                    } else {
                        Effect::Nothing
                    },
                },
                _ => Update { reply: None, effect: Effect::Nothing },
            },
            Message::PromptResponse(p) => {
                let _ = self.popup.pop();
                Update {
                    reply: None,
                    effect: match p {
                        PromptResponse::Confirm => Effect::ConfigConfirm,
                        PromptResponse::Cancel => Effect::ConfigCancel,
                    },
                }
            },
            Message::Open(p) => {
                match p {
                    Popup::ConfigBox => {
                        self.popup.push(Popup::ConfigBox);
                        Update { reply: None, effect: Effect::OpenConfigWindow }
                    },
                    Popup::SearchBox => {
                        self.selected_pane = TuiPane::IpInfoWithSearch;
                        self.search_open = true;
                        self.popup.push(Popup::SearchBox);
                        Update { reply: None, effect: Effect::OpenSearch }
                    },
                    _ => {
                        self.popup.push(p);
                        Update { reply: None, effect: Effect::Nothing }
                    },
                }
            },
        };
        proof {
            let m1 = self@;
            assert forall|p: Popup| #[trigger] m1.popups.contains(p) && m1.popups.len() <= m0.popups.len()
                implies m0.popups.contains(p) by {
                let k = choose|k: int| 0 <= k < m1.popups.len() && m1.popups[k] == p;
                assert(m0.popups[k] == p);
            }
        }
        r
    }

    /// Where a key goes: only presses count; over the config window, plain
    /// navigation keys go to the key bindings unless its text editor is open,
    /// other keys are typed in; over the search box with the table focused,
    /// navigation and copy keys go to the key bindings and others are typed
    /// in; with the search field focused, everything is typed in; otherwise
    /// all keys go to the key bindings.
    pub fn route_key(
        &self,
        is_press: bool,
        basic_navigation: bool,
        copy_key: bool,
        config_text_editing: bool,
    ) -> (r: KeyRoute)
        ensures
            r == key_route(self@, is_press, basic_navigation, copy_key, config_text_editing),
    {
        if !is_press {
            return KeyRoute::Ignore;
        }
        match self.top_popup() {
            Some(Popup::ConfigBox) => if !config_text_editing && basic_navigation {
                KeyRoute::Keymap
            } else {
                KeyRoute::BoxInput
            },
            Some(Popup::SearchBox) => match self.selected_pane {
                TuiPane::IpInfoWithSearch => KeyRoute::BoxInput,
                _ => if basic_navigation || copy_key {
                    KeyRoute::Keymap
                } else {
                    KeyRoute::BoxInput
                },
            },
            _ => KeyRoute::Keymap,
        }
    }
}

/// Once the front end is done, no message makes it run again.
pub proof fn lemma_done_is_final(m: ModelView, msg: Message)
    requires
        m.running == RunningState::Done,
    ensures
        model_step(m, msg).0.running == RunningState::Done,
{
}

/// Quitting always ends the front end and stops the scanners.
pub proof fn lemma_quit_ends(m: ModelView)
    ensures
        model_step(m, Message::Action(Action::Quit)).0.running == RunningState::Done,
        model_step(m, Message::Action(Action::Quit)).2 == Effect::Stop,
{
}

/// Closing removes exactly the pop-up on top; with none open it changes nothing.
pub proof fn lemma_close_pops_one(m: ModelView)
    ensures
        m.popups.len() > 0 ==> model_step(m, Message::Action(Action::Close)).0.popups
            == m.popups.drop_last(),
        m.popups.len() == 0 ==> model_step(m, Message::Action(Action::Close)).0 == m,
{
}

/// Opening a pop-up puts it on top of the others.
pub proof fn lemma_open_pushes(m: ModelView, p: Popup)
    ensures
        model_step(m, Message::Open(p)).0.popups == m.popups.push(p),
{
}

/// The key bindings pop-up is never stacked on itself: asking for it leaves it
/// on top exactly once.
pub proof fn lemma_keybindings_once_on_top(m: ModelView)
    ensures
        ({
            let n = model_step(m, Message::Action(Action::Keybindings)).0;
            &&& top(n.popups) == Some(Popup::Keybindings)
            &&& if top(m.popups) == Some(Popup::Keybindings) {
                n.popups == m.popups
            } else {
                n.popups == m.popups.push(Popup::Keybindings)
            }
        }),
{
}

/// Switching the focus twice between the table and the log pane returns to
/// where it was.
pub proof fn lemma_toggle_twice(p: TuiPane)
    requires
        p != TuiPane::IpInfoWithSearch,
    ensures
        toggled_pane(toggled_pane(p)) == p,
{
}

/// Growing the focused pane and then shrinking it restores the split when
/// both fills are between 7 and 95.
pub proof fn lemma_fill_round_trip(m: ModelView)
    requires
        7 <= m.top_fill <= 95,
        7 <= m.bottom_fill <= 95,
    ensures
        fill_less(fill_more(m)).top_fill == m.top_fill,
        fill_less(fill_more(m)).bottom_fill == m.bottom_fill,
{
}

/// Every message the front end accepts keeps its state well formed: fills
/// between 2 and 100, and no log focus under a search box.
pub proof fn lemma_step_keeps_wf(m: ModelView, msg: Message)
    requires
        model_wf(m),
        accepts(m, msg),
    ensures
        model_wf(model_step(m, msg).0),
{
    let n = model_step(m, msg).0;
    assert forall|p: Popup| #[trigger] n.popups.contains(p) && n.popups.len() <= m.popups.len()
        implies m.popups.contains(p) by {
        let k = choose|k: int| 0 <= k < n.popups.len() && n.popups[k] == p;
        assert(m.popups[k] == p);
    }
    if n.popups.len() > m.popups.len() && n.popups.contains(Popup::SearchBox) {
        let k = choose|k: int| 0 <= k < n.popups.len() && n.popups[k] == Popup::SearchBox;
        if k < m.popups.len() {
            assert(m.popups[k] == Popup::SearchBox);
        }
    }
}

} // verus!
