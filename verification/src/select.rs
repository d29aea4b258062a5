//! State of the native `<select>` controls.

use crate::events::{Key, KeyboardEvent, Keystroke};
use crate::text;
use std::collections::HashMap;
use vstd::prelude::*;
use vstd::string::*;

verus! {

/// How many options the page keys go.
pub const PAGE: usize = 10;

/// One option of a select.
#[derive(Debug)]
pub struct SelectOption {
    pub label: String,
    pub value: String,
    pub disabled: bool,
}

/// What an option holds.
#[verifier::ext_equal]
pub struct OptionModel {
    pub label: Seq<char>,
    pub value: Seq<char>,
    pub disabled: bool,
}

impl View for SelectOption {
    type V = OptionModel;

    open spec fn view(&self) -> OptionModel {
        OptionModel { label: self.label@, value: self.value@, disabled: self.disabled }
    }
}

/// The first option from `i` on that is not disabled.
pub open spec fn enabled_from(options: Seq<OptionModel>, i: int) -> Option<int>
    decreases options.len() - i,
{
    if 0 <= i < options.len() {
        if !options[i].disabled {
            Some(i)
        } else {
            enabled_from(options, i + 1)
        }
    } else {
        None
    }
}

/// The last option up to `i` that is not disabled.
pub open spec fn enabled_to(options: Seq<OptionModel>, i: int) -> Option<int>
    decreases i + 1,
{
    if 0 <= i < options.len() {
        if !options[i].disabled {
            Some(i)
        } else {
            enabled_to(options, i - 1)
        }
    } else {
        None
    }
}

/// An option that typing `c` may go to: not disabled, with a label that
/// begins with `c`, whatever the case.
pub open spec fn answers_to(option: OptionModel, c: char) -> bool {
    !option.disabled && option.label.len() > 0 && text::ascii_lower(option.label[0])
        == text::ascii_lower(c)
}

/// The first of `left` options from `i` on, wrapping round, that typing `c`
/// may go to.
pub open spec fn typed_ahead(options: Seq<OptionModel>, c: char, i: int, left: int) -> Option<int>
    decreases left,
{
    if left <= 0 || options.len() == 0 {
        None
    } else if answers_to(options[i % (options.len() as int)], c) {
        Some(i % (options.len() as int))
    } else {
        typed_ahead(options, c, i + 1, left - 1)
    }
}

pub open spec fn option_models(options: Seq<SelectOption>) -> Seq<OptionModel> {
    Seq::new(options.len(), |i: int| options[i]@)
}

/// What a select holds.
#[verifier::ext_equal]
pub struct SelectModel {
    pub options: Seq<OptionModel>,
    pub selected: Option<int>,
    /// The highlighted option of an open popup.
    pub active: Option<int>,
    pub open: bool,
    pub disabled: bool,
    pub popup_root: Option<usize>,
    pub option_nodes: Seq<Option<usize>>,
}

impl SelectModel {
    /// The selected and the highlighted option exist.
    pub open spec fn wf(self) -> bool {
        &&& self.selected matches Some(i) ==> 0 <= i < self.options.len()
        &&& self.active matches Some(i) ==> 0 <= i < self.options.len()
    }

    /// Opened, with the selected option highlighted, or the first that is
    /// enabled where that one is not.
    pub open spec fn opened(self) -> SelectModel {
        SelectModel {
            open: true,
            active: match self.selected {
                Some(i) => if !self.options[i].disabled {
                    Some(i)
                } else {
                    enabled_from(self.options, 0)
                },
                None => enabled_from(self.options, 0),
            },
            ..self
        }
    }

    /// Closed, with nothing highlighted.
    pub open spec fn closed(self) -> SelectModel {
        SelectModel { open: false, active: None, ..self }
    }

    /// Closed, with the highlighted option selected where it is enabled.
    pub open spec fn committed(self) -> SelectModel {
        match self.active {
            Some(i) => if !self.options[i].disabled {
                (SelectModel { selected: Some(i), ..self }).closed()
            } else {
                self.closed()
            },
            None => self.closed(),
        }
    }

    /// Where the selection goes from the current option, `step` options
    /// forwards: there, or to the next enabled option behind, or else to the
    /// last enabled one before that is still ahead of the current.
    pub open spec fn forwards(self, step: int) -> Option<int> {
        let from = match self.selected {
            Some(i) => i,
            None => -1,
        };
        let last = self.options.len() - 1;
        let to = if from + step < last { from + step } else { last };
        match enabled_from(self.options, to) {
            Some(i) => Some(i),
            None => match enabled_to(self.options, to) {
                Some(i) => if i > from {
                    Some(i)
                } else {
                    None
                },
                None => None,
            },
        }
    }

    /// As [`SelectModel::forwards`], towards the first option.
    pub open spec fn backwards(self, step: int) -> Option<int> {
        let from = match self.selected {
            Some(i) => i,
            None => self.options.len() as int,
        };
        let to = if from - step > 0 { from - step } else { 0 };
        match enabled_to(self.options, to) {
            Some(i) => Some(i),
            None => match enabled_from(self.options, to) {
                Some(i) => if i < from {
                    Some(i)
                } else {
                    None
                },
                None => None,
            },
        }
    }

    /// Selects an option, where there is one to select and it is another.
    pub open spec fn selecting(self, to: Option<int>) -> Option<SelectModel> {
        if to is Some && to != self.selected {
            Some(SelectModel { selected: to, ..self })
        } else {
            None
        }
    }

    /// The option from which the arrow keys move the highlight.
    pub open spec fn highlight_base(self) -> int {
        match self.active {
            Some(i) => i,
            None => match self.selected {
                Some(i) => i,
                None => 0,
            },
        }
    }

    /// The label of the selected option, empty where none is selected.
    pub open spec fn label(self) -> Seq<char> {
        match self.selected {
            Some(i) => self.options[i].label,
            None => Seq::empty(),
        }
    }
}

/// State of one select.
#[derive(Debug)]
pub struct SelectState {
    options: Vec<SelectOption>,
    selected: Option<usize>,
    active: Option<usize>,
    open: bool,
    disabled: bool,
    popup_root_id: Option<usize>,
    option_node_ids: Vec<Option<usize>>,
}

pub open spec fn index_view(index: Option<usize>) -> Option<int> {
    match index {
        Some(i) => Some(i as int),
        None => None,
    }
}

impl View for SelectState {
    type V = SelectModel;

    closed spec fn view(&self) -> SelectModel {
        SelectModel {
            options: option_models(self.options@),
            selected: index_view(self.selected),
            active: index_view(self.active),
            open: self.open,
            disabled: self.disabled,
            popup_root: self.popup_root_id,
            option_nodes: self.option_node_ids@,
        }
    }
}

impl SelectState {
    /// A closed select with the given options, one of which may be selected.
    pub fn new(options: Vec<SelectOption>, selected: Option<usize>) -> (res: Self)
        requires
            selected matches Some(i) ==> i < options.len(),
        ensures
            res@ == (SelectModel {
                options: option_models(options@),
                selected: index_view(selected),
                active: None,
                open: false,
                disabled: false,
                popup_root: None,
                option_nodes: Seq::empty(),
            }),
            res@.wf(),
    {
        SelectState {
            options,
            selected,
            active: None,
            open: false,
            disabled: false,
            popup_root_id: None,
            option_node_ids: Vec::new(),
        }
    }

    pub fn disabled(&self) -> (res: bool)
        ensures
            res == self@.disabled,
    {
        self.disabled
    }

    pub fn set_disabled(&mut self, disabled: bool)
        ensures
            final(self)@ == (SelectModel { disabled, ..old(self)@ }),
    {
        self.disabled = disabled;
    }

    pub fn is_open(&self) -> (res: bool)
        ensures
            res == self@.open,
    {
        self.open
    }

    pub fn option_count(&self) -> (res: usize)
        ensures
            res == self@.options.len(),
    {
        self.options.len()
    }

    pub fn option_disabled(&self, index: usize) -> (res: bool)
        requires
            index < self@.options.len(),
        ensures
            res == self@.options[index as int].disabled,
    {
        self.options[index].disabled
    }

    pub fn active_index(&self) -> (res: Option<usize>)
        ensures
            index_view(res) == self@.active,
    {
        self.active
    }

    pub fn selected_index(&self) -> (res: Option<usize>)
        ensures
            index_view(res) == self@.selected,
    {
        self.selected
    }

    pub fn set_active_index(&mut self, index: Option<usize>)
        requires
            index matches Some(i) ==> i < old(self)@.options.len(),
        ensures
            final(self)@ == (SelectModel { active: index_view(index), ..old(self)@ }),
            old(self)@.wf() ==> final(self)@.wf(),
    {
        self.active = index;
    }

    pub fn set_selected_index(&mut self, index: Option<usize>)
        requires
            index matches Some(i) ==> i < old(self)@.options.len(),
        ensures
            final(self)@ == (SelectModel { selected: index_view(index), ..old(self)@ }),
            old(self)@.wf() ==> final(self)@.wf(),
    {
        self.selected = index;
    }

    /// The node of the popup and those of its options, while it is shown.
    pub fn set_popup(&mut self, root: Option<usize>, option_nodes: Vec<Option<usize>>)
        ensures
            final(self)@ == (SelectModel {
                popup_root: root,
                option_nodes: option_nodes@,
                ..old(self)@
            }),
    {
        self.popup_root_id = root;
        self.option_node_ids = option_nodes;
    }

    pub fn popup_root(&self) -> (res: Option<usize>)
        ensures
            res == self@.popup_root,
    {
        self.popup_root_id
    }

    pub fn option_nodes(&self) -> (res: &Vec<Option<usize>>)
        ensures
            res@ == self@.option_nodes,
    {
        &self.option_node_ids
    }

    /// The value of the selected option.
    pub fn selected_value(&self) -> (res: Option<&str>)
        requires
            self@.wf(),
        ensures
            crate::input::str_view(res) == match self@.selected {
                Some(i) => Some(self@.options[i].value),
                None => None,
            },
    {
        match self.selected {
            Some(i) => Some(self.options[i].value.as_str()),
            None => None,
        }
    }

    /// The value of the selected option.
    pub fn value(&self) -> (res: Option<String>)
        requires
            self@.wf(),
        ensures
            crate::input::text_view(res) == match self@.selected {
                Some(i) => Some(self@.options[i].value),
                None => None,
            },
    {
        match self.selected_value() {
            Some(value) => Some(value.to_owned()),
            None => None,
        }
    }

    /// The label of the selected option, empty where none is selected.
    pub fn current_label(&self) -> (res: String)
        requires
            self@.wf(),
        ensures
            res@ == self@.label(),
    {
        match self.selected {
            Some(i) => self.options[i].label.clone(),
            None => String::new(),
        }
    }

    fn first_enabled_from(&self, from: usize) -> (res: Option<usize>)
        ensures
            index_view(res) == enabled_from(self@.options, from as int),
            res matches Some(i) ==> from <= i < self@.options.len()
                && !self@.options[i as int].disabled,
    {
        let mut i: usize = from;
        while i < self.options.len()
            invariant
                from <= i,
                enabled_from(self@.options, i as int) == enabled_from(self@.options, from as int),
            decreases self.options.len() - i,
        {
            if !self.options[i].disabled {
                return Some(i);
            }
            i += 1;
        }
        None
    }

    fn last_enabled_to(&self, to: usize) -> (res: Option<usize>)
        requires
            to < self@.options.len(),
        ensures
            index_view(res) == enabled_to(self@.options, to as int),
            res matches Some(i) ==> i <= to && !self@.options[i as int].disabled,
    {
        let mut i: usize = to;
        loop
            invariant
                i <= to < self@.options.len(),
                enabled_to(self@.options, i as int) == enabled_to(self@.options, to as int),
            decreases i,
        {
            if !self.options[i].disabled {
                return Some(i);
            }
            if i == 0 {
                return None;
            }
            i -= 1;
        }
    }

    pub fn find_first_enabled(&self) -> (res: Option<usize>)
        ensures
            index_view(res) == enabled_from(self@.options, 0),
            res matches Some(i) ==> i < self@.options.len(),
    {
        self.first_enabled_from(0)
    }

    pub fn find_last_enabled(&self) -> (res: Option<usize>)
        ensures
            index_view(res) == enabled_to(self@.options, self@.options.len() - 1),
            res matches Some(i) ==> i < self@.options.len(),
    {
        let len: usize = self.options.len();
        if len == 0 {
            None
        } else {
            self.last_enabled_to(len - 1)
        }
    }

    /// Opens or closes the popup.
    pub fn set_open(&mut self, open: bool)
        requires
            old(self)@.wf(),
        ensures
            final(self)@ == if open {
                old(self)@.opened()
            } else {
                old(self)@.closed()
            },
            final(self)@.wf(),
    {
        if open {
            let active = match self.selected {
                Some(i) => if !self.options[i].disabled {
                    Some(i)
                } else {
                    self.find_first_enabled()
                },
                None => self.find_first_enabled(),
            };
            self.active = active;
        } else {
            self.active = None;
        }
        self.open = open;
    }

    /// Selects the highlighted option, where it is enabled, and closes.
    pub fn commit(&mut self)
        requires
            old(self)@.wf(),
        ensures
            final(self)@ == old(self)@.committed(),
            final(self)@.wf(),
    {
        if let Some(active) = self.active {
            if !self.options[active].disabled {
                self.selected = Some(active);
            }
        }
        self.set_open(false);
    }

    fn select(&mut self, to: Option<usize>) -> (res: bool)
        requires
            old(self)@.wf(),
            to matches Some(i) ==> i < old(self)@.options.len(),
        ensures
            res == (old(self)@.selecting(index_view(to)) is Some),
            res ==> final(self)@ == old(self)@.selecting(index_view(to))->0,
            !res ==> *final(self) == *old(self),
            final(self)@.wf(),
    {
        let current = self.selected;
        match to {
            Some(i) => {
                let same = match current {
                    Some(j) => i == j,
                    None => false,
                };
                if same {
                    false
                } else {
                    self.selected = Some(i);
                    true
                }
            },
            None => false,
        }
    }

    /// Moves the selection by `step` options, forwards or backwards. Returns
    /// whether another option is selected.
    pub fn move_selection(&mut self, step: usize, forwards: bool) -> (res: bool)
        requires
            old(self)@.wf(),
            1 <= step,
        ensures
            ({
                let to = if forwards {
                    old(self)@.forwards(step as int)
                } else {
                    old(self)@.backwards(step as int)
                };
                &&& res == (old(self)@.selecting(to) is Some)
                &&& res ==> final(self)@ == old(self)@.selecting(to)->0
            }),
            !res ==> *final(self) == *old(self),
            final(self)@.wf(),
    {
        let len: usize = self.options.len();
        if len == 0 {
            return false;
        }
        if forwards {
            let last: usize = len - 1;
            let to: usize = match self.selected {
                Some(i) => if last - i > step {
                    i + step
                } else {
                    last
                },
                None => if last >= step {
                    step - 1
                } else {
                    last
                },
            };
            let mut found = self.first_enabled_from(to);
            if found.is_none() {
                if let Some(i) = self.last_enabled_to(to) {
                    let ahead = match self.selected {
                        Some(j) => i > j,
                        None => true,
                    };
                    if ahead {
                        found = Some(i);
                    }
                }
            }
            self.select(found)
        } else {
            let from: usize = match self.selected {
                Some(i) => i,
                None => len,
            };
            let to: usize = if from > step {
                from - step
            } else {
                0
            };
            let mut found = self.last_enabled_to(to);
            if found.is_none() {
                if let Some(i) = self.first_enabled_from(to) {
                    if i < from {
                        found = Some(i);
                    }
                }
            }
            self.select(found)
        }
    }

    /// Selects the first or the last enabled option. Returns whether another
    /// option is selected.
    pub fn jump_to_extreme(&mut self, at_end: bool) -> (res: bool)
        requires
            old(self)@.wf(),
        ensures
            ({
                let to = if at_end {
                    enabled_to(old(self)@.options, old(self)@.options.len() - 1)
                } else {
                    enabled_from(old(self)@.options, 0)
                };
                &&& res == (old(self)@.selecting(to) is Some)
                &&& res ==> final(self)@ == old(self)@.selecting(to)->0
            }),
            !res ==> *final(self) == *old(self),
            final(self)@.wf(),
    {
        let to = if at_end {
            self.find_last_enabled()
        } else {
            self.find_first_enabled()
        };
        self.select(to)
    }

    fn answers(&self, index: usize, c: char) -> (res: bool)
        requires
            index < self@.options.len(),
        ensures
            res == answers_to(self@.options[index as int], c),
    {
        let option = &self.options[index];
        if option.disabled {
            return false;
        }
        let label = option.label.as_str();
        !label.is_empty() && text::to_ascii_lower(label.get_char(0)) == text::to_ascii_lower(c)
    }

    /// Selects the next option behind the current, wrapping round, whose label
    /// begins with `c`. Returns whether another option is selected.
    pub fn type_ahead(&mut self, c: char) -> (res: bool)
        requires
            old(self)@.wf(),
        ensures
            ({
                let after = match old(self)@.selected {
                    Some(i) => i + 1,
                    None => 0,
                };
                let to = typed_ahead(
                    old(self)@.options,
                    c,
                    after,
                    old(self)@.options.len() as int,
                );
                &&& res == (old(self)@.selecting(to) is Some)
                &&& res ==> final(self)@ == old(self)@.selecting(to)->0
            }),
            !res ==> *final(self) == *old(self),
            final(self)@.wf(),
    {
        let len: usize = self.options.len();
        if len == 0 {
            return false;
        }
        let ghost after = match self@.selected {
            Some(i) => i + 1,
            None => 0,
        };
        let mut at: usize = match self.selected {
            Some(i) => if i + 1 < len {
                i + 1
            } else {
                0
            },
            None => 0,
        };
        let mut seen: usize = 0;
        let mut found: Option<usize> = None;
        proof {
            assert(at as int == after % (len as int)) by (nonlinear_arith)
                requires
                    0 <= after <= len,
                    len > 0,
                    at == if after < len { after } else { 0 },
            ;
        }
        while seen < len
            invariant_except_break
                found is None,
            invariant
                *self == *old(self),
                self@.wf(),
                len == self@.options.len(),
                0 < len,
                seen <= len,
                at < len,
                at as int == (after + seen) % (len as int),
                found is None ==> typed_ahead(self@.options, c, after + seen, len - seen)
                    == typed_ahead(self@.options, c, after, len as int),
                found matches Some(i) ==> i < len && typed_ahead(
                    self@.options,
                    c,
                    after,
                    len as int,
                ) == Some(i as int),
            ensures
                found is None ==> typed_ahead(self@.options, c, after, len as int) is None,
            decreases len - seen,
        {
            if self.answers(at, c) {
                found = Some(at);
                break;
            }
            proof {
                vstd::arithmetic::div_mod::lemma_add_mod_noop(
                    after + seen as int,
                    1,
                    len as int,
                );
                assert((after + seen + 1) % (len as int) == (at as int + 1) % (len as int)) by {
                    if len == 1 {
                        vstd::arithmetic::div_mod::lemma_mod_self_0(1);
                    } else {
                        vstd::arithmetic::div_mod::lemma_small_mod(1nat, len as nat);
                    }
                }
                if at + 1 < len {
                    vstd::arithmetic::div_mod::lemma_small_mod((at + 1) as nat, len as nat);
                } else {
                    vstd::arithmetic::div_mod::lemma_mod_self_0(len as int);
                }
            }
            at = if at + 1 < len {
                at + 1
            } else {
                0
            };
            seen += 1;
        }
        self.select(found)
    }
}

/// The selects of a document, by node.
pub type SelectRegistry = HashMap<usize, SelectState>;

/// What the selects of a document hold, by node.
pub open spec fn select_models(selects: Map<usize, SelectState>) -> Map<usize, SelectModel> {
    selects.map_values(|s: SelectState| s@)
}

/// Every select is in order.
pub open spec fn selects_wf(selects: Map<usize, SelectModel>) -> bool {
    forall|id: usize| #[trigger] selects.contains_key(id) ==> selects[id].wf()
}

/// A select after a keystroke, and whether a `change` event is due.
#[verifier::ext_equal]
pub struct SelectEdit {
    pub state: SelectModel,
    pub emits: bool,
}

impl SelectModel {
    /// Another option selected, where there was one to select.
    pub open spec fn choosing(self, to: Option<int>) -> Option<SelectEdit> {
        match self.selecting(to) {
            Some(state) => Some(SelectEdit { state, emits: true }),
            None => None,
        }
    }

    /// Another option highlighted.
    pub open spec fn highlighting(self, to: Option<int>) -> Option<SelectEdit> {
        match to {
            Some(i) => Some(
                SelectEdit { state: SelectModel { active: Some(i), ..self }, emits: false },
            ),
            None => None,
        }
    }

    /// What a keystroke does to a closed select.
    pub open spec fn closed_key(self, k: Keystroke) -> Option<SelectEdit> {
        match k.key {
            Key::ArrowDown | Key::Down => if k.alt {
                Some(SelectEdit { state: self.opened(), emits: false })
            } else {
                self.choosing(self.forwards(1))
            },
            Key::ArrowUp | Key::Up => self.choosing(self.backwards(1)),
            Key::PageDown => self.choosing(self.forwards(PAGE as int)),
            Key::PageUp => self.choosing(self.backwards(PAGE as int)),
            Key::Home => self.choosing(enabled_from(self.options, 0)),
            Key::End => self.choosing(enabled_to(self.options, self.options.len() - 1)),
            Key::Space | Key::Enter => Some(SelectEdit { state: self.opened(), emits: false }),
            Key::Char(c) => if k.modified() {
                None
            } else {
                self.choosing(
                    typed_ahead(
                        self.options,
                        c,
                        match self.selected {
                            Some(i) => i + 1,
                            None => 0,
                        },
                        self.options.len() as int,
                    ),
                )
            },
            _ => None,
        }
    }

    /// What a keystroke does to an open select.
    pub open spec fn open_key(self, k: Keystroke) -> Option<SelectEdit> {
        let len = self.options.len() as int;
        match k.key {
            Key::ArrowDown | Key::Down => self.highlighting(
                Some((self.highlight_base() + 1) % len),
            ),
            Key::ArrowUp | Key::Up => if k.alt {
                Some(SelectEdit { state: self.committed(), emits: true })
            } else {
                self.highlighting(Some((self.highlight_base() - 1) % len))
            },
            Key::Home => self.highlighting(enabled_from(self.options, 0)),
            Key::End => self.highlighting(enabled_to(self.options, len - 1)),
            Key::Space | Key::Enter | Key::Tab => Some(
                SelectEdit { state: self.committed(), emits: true },
            ),
            Key::Escape => Some(SelectEdit { state: self.closed(), emits: false }),
            _ => None,
        }
    }

    /// What a keystroke does to the select; `None` where it does nothing.
    pub open spec fn key(self, k: Keystroke) -> Option<SelectEdit> {
        if self.disabled {
            None
        } else if self.open {
            self.open_key(k)
        } else {
            self.closed_key(k)
        }
    }

    /// The keys that move the highlight of an open popup from option to
    /// option, which takes options to move among.
    pub open spec fn key_needs_options(self, k: Keystroke) -> bool {
        !self.disabled && self.open && (k.key is ArrowDown || k.key is Down || ((k.key is ArrowUp
            || k.key is Up) && !k.alt))
    }
}

impl SelectState {
    /// Applies a keystroke. Returns whether it did anything, and whether a
    /// `change` event is due.
    pub fn press(&mut self, k: Keystroke) -> (res: (bool, bool))
        requires
            old(self)@.wf(),
            old(self)@.key_needs_options(k) ==> old(self)@.options.len() > 0,
        ensures
            match old(self)@.key(k) {
                Some(edit) => res == (true, edit.emits) && final(self)@ == edit.state,
                None => res == (false, false) && *final(self) == *old(self),
            },
            final(self)@.wf(),
    {
        if self.disabled {
            return (false, false);
        }
        if !self.open {
            self.press_closed(k)
        } else {
            self.press_open(k)
        }
    }

    fn press_closed(&mut self, k: Keystroke) -> (res: (bool, bool))
        requires
            old(self)@.wf(),
        ensures
            match old(self)@.closed_key(k) {
                Some(edit) => res == (true, edit.emits) && final(self)@ == edit.state,
                None => res == (false, false) && *final(self) == *old(self),
            },
            final(self)@.wf(),
    {
        match k.key {
            Key::ArrowDown | Key::Down => {
                if k.alt {
                    self.set_open(true);
                    (true, false)
                } else {
                    let edited = self.move_selection(1, true);
                    (edited, edited)
                }
            },
            Key::ArrowUp | Key::Up => {
                let edited = self.move_selection(1, false);
                (edited, edited)
            },
            Key::PageDown => {
                let edited = self.move_selection(PAGE, true);
                (edited, edited)
            },
            Key::PageUp => {
                let edited = self.move_selection(PAGE, false);
                (edited, edited)
            },
            Key::Home => {
                let edited = self.jump_to_extreme(false);
                (edited, edited)
            },
            Key::End => {
                let edited = self.jump_to_extreme(true);
                (edited, edited)
            },
            Key::Space | Key::Enter => {
                self.set_open(true);
                (true, false)
            },
            Key::Char(c) => {
                if k.is_modified() {
                    (false, false)
                } else {
                    let edited = self.type_ahead(c);
                    (edited, edited)
                }
            },
            _ => (false, false),
        }
    }

    fn press_open(&mut self, k: Keystroke) -> (res: (bool, bool))
        requires
            old(self)@.wf(),
            !old(self)@.disabled,
            old(self)@.open,
            old(self)@.key_needs_options(k) ==> old(self)@.options.len() > 0,
        ensures
            match old(self)@.open_key(k) {
                Some(edit) => res == (true, edit.emits) && final(self)@ == edit.state,
                None => res == (false, false) && *final(self) == *old(self),
            },
            final(self)@.wf(),
    {
        let len: usize = self.options.len();
        let base: usize = match self.active {
            Some(i) => i,
            None => match self.selected {
                Some(i) => i,
                None => 0,
            },
        };
        match k.key {
            Key::ArrowDown | Key::Down => {
                let next: usize = if base + 1 < len {
                    base + 1
                } else {
                    0
                };
                proof {
                    if base + 1 < len {
                        vstd::arithmetic::div_mod::lemma_small_mod((base + 1) as nat, len as nat);
                    } else {
                        vstd::arithmetic::div_mod::lemma_mod_self_0(len as int);
                    }
                }
                self.set_active_index(Some(next));
                (true, false)
            },
            Key::ArrowUp | Key::Up => {
                if k.alt {
                    self.commit();
                    return (true, true);
                }
                let next: usize = if base > 0 {
                    base - 1
                } else {
                    len - 1
                };
                proof {
                    if base > 0 {
                        vstd::arithmetic::div_mod::lemma_small_mod((base - 1) as nat, len as nat);
                    } else {
                        vstd::arithmetic::div_mod::lemma_fundamental_div_mod_converse(
                            -1,
                            len as int,
                            -1,
                            len - 1,
                        );
                    }
                }
                self.set_active_index(Some(next));
                (true, false)
            },
            Key::Home => {
                match self.find_first_enabled() {
                    Some(i) => {
                        self.set_active_index(Some(i));
                        (true, false)
                    },
                    None => (false, false),
                }
            },
            Key::End => {
                match self.find_last_enabled() {
                    Some(i) => {
                        self.set_active_index(Some(i));
                        (true, false)
                    },
                    None => (false, false),
                }
            },
            Key::Space | Key::Enter | Key::Tab => {
                self.commit();
                (true, true)
            },
            Key::Escape => {
                self.set_open(false);
                (true, false)
            },
            _ => (false, false),
        }
    }
}

/// Applies a keystroke to the select registered for `select_id`. Returns
/// whether it did anything, and whether a `change` event is due.
pub fn apply_select_key(
    selects: &mut SelectRegistry,
    select_id: usize,
    event: &KeyboardEvent,
) -> (res: (bool, bool))
    requires
        selects_wf(select_models(old(selects)@)),
        old(selects)@.contains_key(select_id) && old(selects)@[select_id]@.key_needs_options(
            event.stroke(),
        ) ==> old(selects)@[select_id]@.options.len() > 0,
    ensures
        ({
            let before = select_models(old(selects)@);
            let after = select_models(final(selects)@);
            if before.contains_key(select_id) {
                match before[select_id].key(event.stroke()) {
                    Some(edit) => res == (true, edit.emits) && after == before.insert(
                        select_id,
                        edit.state,
                    ),
                    None => res == (false, false) && after == before,
                }
            } else {
                res == (false, false) && after == before
            }
        }),
        selects_wf(select_models(final(selects)@)),
{
    let ghost before = select_models(selects@);
    let k = event.keystroke();
    match selects.remove(&select_id) {
        Some(mut state) => {
            assert(before.contains_key(select_id));
            let edited = state.press(k);
            selects.insert(select_id, state);
            assert(select_models(selects@) =~= before.insert(select_id, state@));
            assert(before.insert(select_id, before[select_id]) =~= before);
            edited
        },
        None => {
            assert(select_models(selects@) =~= before);
            (false, false)
        },
    }
}

/// The selects with every one closed but `owner`.
pub open spec fn others_closed(
    selects: Map<usize, SelectModel>,
    owner: Option<usize>,
) -> Map<usize, SelectModel> {
    Map::new(
        |k: usize| selects.contains_key(k),
        |k: usize|
            if selects[k].open && Some(k) != owner {
                selects[k].closed()
            } else {
                selects[k]
            },
    )
}

/// A select other than `owner` is open.
pub open spec fn others_open(selects: Map<usize, SelectModel>, owner: Option<usize>) -> bool {
    exists|k: usize| #[trigger] selects.contains_key(k) && selects[k].open && Some(k) != owner
}

/// Closes every select but `owner`. Returns whether any was open.
pub fn close_others(selects: &mut SelectRegistry, owner: Option<usize>) -> (res: bool)
    requires
        selects_wf(select_models(old(selects)@)),
    ensures
        res == others_open(select_models(old(selects)@), owner),
        select_models(final(selects)@) == others_closed(select_models(old(selects)@), owner),
        selects_wf(select_models(final(selects)@)),
{
    let ghost before = select_models(selects@);
    let ghost goal = others_closed(before, owner);
    let ids = crate::registry::ids_of(selects);
    let mut any = false;
    let mut i: usize = 0;
    assert forall|j: int| 0 <= j < ids.len() implies selects@[#[trigger] ids@[j]]@
        == before[ids@[j]] by {
        assert(ids@.contains(ids@[j]));
    }
    while i < ids.len()
        invariant
            i <= ids.len(),
            ids@.no_duplicates(),
            forall|k: usize| ids@.contains(k) <==> before.contains_key(k),
            selects_wf(before),
            goal == others_closed(before, owner),
            selects@.dom() == before.dom(),
            any == exists|j: int|
                0 <= j < i && before[#[trigger] ids@[j]].open && Some(ids@[j]) != owner,
            forall|j: int| 0 <= j < i ==> selects@[#[trigger] ids@[j]]@ == goal[ids@[j]],
            forall|j: int|
                i <= j < ids.len() ==> selects@[#[trigger] ids@[j]]@ == before[ids@[j]],
        decreases ids.len() - i,
    {
        let k: usize = ids[i];
        assert(ids@.contains(k));
        let ghost prior = any;
        let mine = match owner {
            Some(id) => id == k,
            None => false,
        };
        if let Some(mut state) = selects.remove(&k) {
            if state.is_open() && !mine {
                state.set_open(false);
                any = true;
            }
            assert(state@ == goal[k]);
            selects.insert(k, state);
        }
        assert(selects@.dom() =~= before.dom());
        assert(before[ids@[i as int]].open && Some(ids@[i as int]) != owner ==> any);
        i += 1;
    }
    assert(select_models(selects@) =~= goal) by {
        assert forall|k: usize| goal.contains_key(k) implies selects@[k]@ == goal[k] by {
            assert(ids@.contains(k));
            let j = choose|j: int| 0 <= j < ids.len() && ids@[j] == k;
            assert(selects@[ids@[j]]@ == goal[ids@[j]]);
        }
    }
    assert(any == others_open(before, owner)) by {
        if any {
            let j = choose|j: int|
                0 <= j < ids.len() && before[#[trigger] ids@[j]].open && Some(ids@[j]) != owner;
            assert(ids@.contains(ids@[j]));
        }
        if others_open(before, owner) {
            let k = choose|k: usize| #[trigger]
                before.contains_key(k) && before[k].open && Some(k) != owner;
            assert(ids@.contains(k));
            let j = choose|j: int| 0 <= j < ids.len() && ids@[j] == k;
            assert(before[ids@[j]].open);
        }
    }
    any
}

/// Where no other select is open, there is none to close.
pub proof fn lemma_none_to_close(selects: Map<usize, SelectModel>, owner: Option<usize>)
    requires
        !others_open(selects, owner),
    ensures
        others_closed(selects, owner) == selects,
{
    assert(others_closed(selects, owner) =~= selects);
}

/// An option as the popup shows it.
#[derive(Debug)]
pub struct PopupOption {
    pub label: String,
    pub disabled: bool,
}

/// The label that a popup shows for the option `i`: the text of the element
/// that stands for it in the document, where there is one, or else the
/// option's own.
pub open spec fn popup_label(m: SelectModel, element_texts: Seq<Option<String>>, i: int) -> Seq<
    char,
> {
    if i < element_texts.len() {
        match element_texts[i] {
            Some(text) => text@,
            None => m.options[i].label,
        }
    } else {
        m.options[i].label
    }
}

impl SelectState {
    /// The options as the popup shows them. `element_texts` holds, for each
    /// option element of the document, the text in it.
    pub fn popup_options(&self, element_texts: &Vec<Option<String>>) -> (res: Vec<PopupOption>)
        ensures
            res.len() == self@.options.len(),
            forall|i: int|
                0 <= i < res.len() ==> (#[trigger] res@[i]).label@ == popup_label(
                    self@,
                    element_texts@,
                    i,
                ) && res@[i].disabled == self@.options[i].disabled,
    {
        let mut res: Vec<PopupOption> = Vec::new();
        let mut i: usize = 0;
        while i < self.options.len()
            invariant
                i <= self.options.len(),
                self.options.len() == self@.options.len(),
                res.len() == i,
                forall|j: int|
                    0 <= j < i ==> (#[trigger] res@[j]).label@ == popup_label(
                        self@,
                        element_texts@,
                        j,
                    ) && res@[j].disabled == self@.options[j].disabled,
            decreases self.options.len() - i,
        {
            let mut label = self.options[i].label.clone();
            if i < element_texts.len() {
                if let Some(text) = &element_texts[i] {
                    label = text.clone();
                }
            }
            res.push(PopupOption { label, disabled: self.options[i].disabled });
            i += 1;
        }
        res
    }
}

} // verus!
