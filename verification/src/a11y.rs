//! What assistive technologies are told of the controls.

use crate::input::{InputModel, InputState};
use crate::select::{SelectModel, SelectState};
use crate::text;
use vstd::prelude::*;
use vstd::string::*;

verus! {

#[derive(Debug, Clone, Copy, PartialEq, Eq, Structural)]
pub enum Role {
    Button,
    Link,
    CheckBox,
    RadioButton,
    Slider,
    Heading,
    ListBox,
    ListBoxOption,
    ComboBox,
    TextInput,
    NumberInput,
}

#[derive(Debug, Clone, Copy, PartialEq, Eq, Structural)]
pub enum Toggled {
    False,
    True,
    Mixed,
}

/// The actions that a node takes.
#[derive(Debug, Clone, Copy, PartialEq, Eq, Structural)]
pub struct Actions {
    pub focus: bool,
    pub click: bool,
    pub increment: bool,
    pub decrement: bool,
    pub set_value: bool,
    pub expand: bool,
    pub collapse: bool,
}

/// The number of a control: its bounds and its step, as the bits of doubles.
/// The number itself is that of the text in the control.
#[derive(Debug, Clone, Copy, PartialEq, Eq, Structural)]
pub struct Numeric {
    pub min: Option<u64>,
    pub max: Option<u64>,
    pub step: u64,
}

/// The flags and numbers of a node.
#[derive(Debug, Clone, Copy, PartialEq, Eq, Structural)]
pub struct Traits {
    pub role: Option<Role>,
    pub toggled: Option<Toggled>,
    pub disabled: bool,
    pub readonly: bool,
    pub hidden: bool,
    pub numeric: Option<Numeric>,
    pub actions: Actions,
}

/// What is told of a node, on top of what its place in the document says.
/// Where something is not set here, the document's own word stands.
#[derive(Debug)]
pub struct A11yNode {
    pub traits: Traits,
    pub label: Option<String>,
    pub value: Option<String>,
    pub placeholder: Option<String>,
}

/// What is told of a node.
#[verifier::ext_equal]
pub struct A11yModel {
    pub traits: Traits,
    pub label: Option<Seq<char>>,
    pub value: Option<Seq<char>>,
    pub placeholder: Option<Seq<char>>,
}

impl View for A11yNode {
    type V = A11yModel;

    open spec fn view(&self) -> A11yModel {
        A11yModel {
            traits: self.traits,
            label: crate::input::text_view(self.label),
            value: crate::input::text_view(self.value),
            placeholder: crate::input::text_view(self.placeholder),
        }
    }
}

impl A11yModel {
    pub open spec fn new() -> A11yModel {
        A11yModel {
            traits: Traits {
                role: None,
                toggled: None,
                disabled: false,
                readonly: false,
                hidden: false,
                numeric: None,
                actions: Actions {
                    focus: false,
                    click: false,
                    increment: false,
                    decrement: false,
                    set_value: false,
                    expand: false,
                    collapse: false,
                },
            },
            label: None,
            value: None,
            placeholder: None,
        }
    }

    /// With the live state of an input. A text that bullets stand for is not
    /// told.
    pub open spec fn with_input(self, m: InputModel) -> A11yModel {
        let t = self.traits;
        let t = Traits {
            disabled: t.disabled || m.disabled,
            readonly: t.readonly || m.readonly,
            actions: Actions { focus: true, ..t.actions },
            ..t
        };
        if m.kind.checked_like() {
            A11yModel {
                traits: Traits {
                    role: Some(
                        if m.kind is Radio {
                            Role::RadioButton
                        } else {
                            Role::CheckBox
                        },
                    ),
                    toggled: Some(
                        if m.checked {
                            Toggled::True
                        } else {
                            Toggled::False
                        },
                    ),
                    actions: Actions { click: true, ..t.actions },
                    ..t
                },
                ..self
            }
        } else if m.kind.numeric_like() {
            A11yModel {
                traits: Traits {
                    role: Some(
                        if m.kind is Range {
                            Role::Slider
                        } else {
                            Role::NumberInput
                        },
                    ),
                    numeric: Some(
                        Numeric {
                            min: m.min,
                            max: m.max,
                            step: m.step.unwrap_or(crate::input::ONE_BITS),
                        },
                    ),
                    actions: Actions {
                        increment: true,
                        decrement: true,
                        set_value: true,
                        ..t.actions
                    },
                    ..t
                },
                ..self
            }
        } else {
            A11yModel {
                traits: Traits {
                    role: Some(Role::TextInput),
                    actions: Actions { set_value: true, ..t.actions },
                    ..t
                },
                value: if m.shows_bullets() {
                    self.value
                } else {
                    Some(m.value)
                },
                placeholder: match m.placeholder {
                    Some(p) => Some(p),
                    None => self.placeholder,
                },
                ..self
            }
        }
    }

    /// With the live state of a select.
    pub open spec fn with_select(self, m: SelectModel) -> A11yModel {
        let t = self.traits;
        A11yModel {
            traits: Traits {
                role: Some(Role::ComboBox),
                disabled: t.disabled || m.disabled,
                actions: Actions {
                    focus: true,
                    click: true,
                    expand: true,
                    collapse: true,
                    ..t.actions
                },
                ..t
            },
            value: Some(m.label()),
            ..self
        }
    }

    /// With what one attribute says.
    pub open spec fn with_attr(self, name: Seq<char>, value: Seq<char>) -> A11yModel {
        if name == "aria-label"@ && value.len() > 0 {
            A11yModel { label: Some(value), ..self }
        } else if name == "aria-hidden"@ && truthy(value) {
            A11yModel { traits: Traits { hidden: true, ..self.traits }, ..self }
        } else if name == "aria-disabled"@ && truthy(value) {
            A11yModel { traits: Traits { disabled: true, ..self.traits }, ..self }
        } else if name == "aria-checked"@ && toggled_named(value) is Some {
            A11yModel { traits: Traits { toggled: toggled_named(value), ..self.traits }, ..self }
        } else if name == "role"@ && role_named(value) is Some {
            A11yModel { traits: Traits { role: role_named(value), ..self.traits }, ..self }
        } else if name == "placeholder"@ && value.len() > 0 {
            A11yModel { placeholder: Some(value), ..self }
        } else {
            self
        }
    }

    /// With what the first `n` attributes say, in order.
    pub open spec fn with_attrs(self, attrs: Seq<(String, String)>, n: int) -> A11yModel
        decreases n,
    {
        if n <= 0 {
            self
        } else {
            self.with_attrs(attrs, n - 1).with_attr(attrs[n - 1].0@, attrs[n - 1].1@)
        }
    }

    /// With what the kind of element says: an anchor with an address is a
    /// link, and it and a button take clicks and the focus.
    pub open spec fn with_element(self, tag: Seq<char>, has_href: bool) -> A11yModel {
        let actions = Actions { click: true, focus: true, ..self.traits.actions };
        if tag == "a"@ && has_href {
            A11yModel {
                traits: Traits { role: Some(Role::Link), actions, ..self.traits },
                ..self
            }
        } else if tag == "button"@ {
            A11yModel { traits: Traits { actions, ..self.traits }, ..self }
        } else {
            self
        }
    }
}

/// An attribute is true: it says so, whatever the case.
pub open spec fn truthy(value: Seq<char>) -> bool {
    text::same_ignoring_case(value, "true"@)
}

/// Whether an attribute is true.
pub fn aria_truthy(value: &str) -> (res: bool)
    ensures
        res == truthy(value@),
{
    text::eq_ignore_ascii_case(value, "true")
}

/// The state that an attribute names.
pub open spec fn toggled_named(value: Seq<char>) -> Option<Toggled> {
    if value == "true"@ {
        Some(Toggled::True)
    } else if value == "mixed"@ {
        Some(Toggled::Mixed)
    } else if value == "false"@ {
        Some(Toggled::False)
    } else {
        None
    }
}

/// The role that an attribute names.
pub open spec fn role_named(value: Seq<char>) -> Option<Role> {
    if value == "button"@ {
        Some(Role::Button)
    } else if value == "link"@ {
        Some(Role::Link)
    } else if value == "checkbox"@ {
        Some(Role::CheckBox)
    } else if value == "radio"@ {
        Some(Role::RadioButton)
    } else if value == "slider"@ {
        Some(Role::Slider)
    } else if value == "heading"@ {
        Some(Role::Heading)
    } else if value == "listbox"@ {
        Some(Role::ListBox)
    } else if value == "option"@ {
        Some(Role::ListBoxOption)
    } else if value == "combobox"@ {
        Some(Role::ComboBox)
    } else if value == "textbox"@ {
        Some(Role::TextInput)
    } else {
        None
    }
}

/// The role that an attribute names.
pub fn aria_role(value: &str) -> (res: Option<Role>)
    ensures
        res == role_named(value@),
{
    if text::same(value, "button") {
        Some(Role::Button)
    } else if text::same(value, "link") {
        Some(Role::Link)
    } else if text::same(value, "checkbox") {
        Some(Role::CheckBox)
    } else if text::same(value, "radio") {
        Some(Role::RadioButton)
    } else if text::same(value, "slider") {
        Some(Role::Slider)
    } else if text::same(value, "heading") {
        Some(Role::Heading)
    } else if text::same(value, "listbox") {
        Some(Role::ListBox)
    } else if text::same(value, "option") {
        Some(Role::ListBoxOption)
    } else if text::same(value, "combobox") {
        Some(Role::ComboBox)
    } else if text::same(value, "textbox") {
        Some(Role::TextInput)
    } else {
        None
    }
}

fn aria_toggled(value: &str) -> (res: Option<Toggled>)
    ensures
        res == toggled_named(value@),
{
    if text::same(value, "true") {
        Some(Toggled::True)
    } else if text::same(value, "mixed") {
        Some(Toggled::Mixed)
    } else if text::same(value, "false") {
        Some(Toggled::False)
    } else {
        None
    }
}

impl A11yNode {
    /// A node of which nothing is told yet.
    pub fn new() -> (res: A11yNode)
        ensures
            res@ == A11yModel::new(),
    {
        A11yNode {
            traits: Traits {
                role: None,
                toggled: None,
                disabled: false,
                readonly: false,
                hidden: false,
                numeric: None,
                actions: Actions {
                    focus: false,
                    click: false,
                    increment: false,
                    decrement: false,
                    set_value: false,
                    expand: false,
                    collapse: false,
                },
            },
            label: None,
            value: None,
            placeholder: None,
        }
    }
}

/// Tells the live state of an input.
pub fn enrich_input_a11y_node(node: &mut A11yNode, state: &InputState)
    ensures
        final(node)@ == old(node)@.with_input(state@),
{
    let t = node.traits;
    let t = Traits {
        disabled: t.disabled || state.disabled(),
        readonly: t.readonly || state.readonly(),
        actions: Actions { focus: true, ..t.actions },
        ..t
    };
    if state.is_checked_like() {
        node.traits = Traits {
            role: Some(
                if state.is_radio() {
                    Role::RadioButton
                } else {
                    Role::CheckBox
                },
            ),
            toggled: Some(
                if state.checked() {
                    Toggled::True
                } else {
                    Toggled::False
                },
            ),
            actions: Actions { click: true, ..t.actions },
            ..t
        };
    } else if state.is_range() || state.is_number() {
        node.traits = Traits {
            role: Some(
                if state.is_range() {
                    Role::Slider
                } else {
                    Role::NumberInput
                },
            ),
            numeric: Some(
                Numeric {
                    min: state.min(),
                    max: state.max(),
                    step: state.step(),
                },
            ),
            actions: Actions { increment: true, decrement: true, set_value: true, ..t.actions },
            ..t
        };
    } else {
        node.traits = Traits {
            role: Some(Role::TextInput),
            actions: Actions { set_value: true, ..t.actions },
            ..t
        };
        if !state.shows_bullets() {
            node.value = Some(state.value().to_owned());
        }
        if let Some(placeholder) = state.placeholder() {
            node.placeholder = Some(placeholder.to_owned());
        }
    }
}

/// Tells the live state of a select.
pub fn enrich_select_a11y_node(node: &mut A11yNode, state: &SelectState)
    requires
        state@.wf(),
    ensures
        final(node)@ == old(node)@.with_select(state@),
{
    node.traits.role = Some(Role::ComboBox);
    node.value = Some(state.current_label());
    node.traits.actions.focus = true;
    node.traits.actions.click = true;
    node.traits.actions.expand = true;
    node.traits.actions.collapse = true;
    if state.disabled() {
        node.traits.disabled = true;
    }
}

/// An element has an address.
pub open spec fn has_href(attrs: Seq<(String, String)>) -> bool {
    exists|i: int| 0 <= i < attrs.len() && (#[trigger] attrs[i]).0@ == "href"@
}

fn apply_attr(node: &mut A11yNode, name: &str, value: &str)
    ensures
        final(node)@ == old(node)@.with_attr(name@, value@),
{
    proof {
        reveal_strlit("aria-label");
        reveal_strlit("aria-hidden");
        reveal_strlit("aria-disabled");
        reveal_strlit("aria-checked");
        reveal_strlit("role");
        reveal_strlit("placeholder");
        assert("aria-label"@.len() != "aria-hidden"@.len());
        assert("aria-checked"@.len() == 12 && "aria-disabled"@.len() == 13);
        assert("aria-hidden"@.len() == 11 && "placeholder"@.len() == 11);
        assert("aria-hidden"@[0] == 'a' && "placeholder"@[0] == 'p');
    }
    if text::same(name, "aria-label") {
        if !value.is_empty() {
            node.label = Some(value.to_owned());
        }
    } else if text::same(name, "aria-hidden") {
        if aria_truthy(value) {
            node.traits.hidden = true;
        }
    } else if text::same(name, "aria-disabled") {
        if aria_truthy(value) {
            node.traits.disabled = true;
        }
    } else if text::same(name, "aria-checked") {
        if let Some(toggled) = aria_toggled(value) {
            node.traits.toggled = Some(toggled);
        }
    } else if text::same(name, "role") {
        if let Some(role) = aria_role(value) {
            node.traits.role = Some(role);
        }
    } else if text::same(name, "placeholder") {
        if !value.is_empty() {
            node.placeholder = Some(value.to_owned());
        }
    }
}

/// Tells what the attributes of an element, with their names and values in
/// order, and its kind say.
pub fn enrich_a11y_node_from_attrs(
    node: &mut A11yNode,
    tag: &str,
    attrs: &Vec<(String, String)>,
)
    ensures
        final(node)@ == old(node)@.with_attrs(attrs@, attrs.len() as int).with_element(
            tag@,
            has_href(attrs@),
        ),
{
    let mut href = false;
    let mut i: usize = 0;
    while i < attrs.len()
        invariant
            i <= attrs.len(),
            node@ == old(node)@.with_attrs(attrs@, i as int),
            href == exists|j: int| 0 <= j < i && (#[trigger] attrs@[j]).0@ == "href"@,
        decreases attrs.len() - i,
    {
        let attr = &attrs[i];
        apply_attr(node, attr.0.as_str(), attr.1.as_str());
        if text::same(attr.0.as_str(), "href") {
            href = true;
        }
        i += 1;
    }
    if text::same(tag, "a") && href {
        node.traits.role = Some(Role::Link);
        node.traits.actions.click = true;
        node.traits.actions.focus = true;
    } else if text::same(tag, "button") {
        node.traits.actions.click = true;
        node.traits.actions.focus = true;
    }
}

} // verus!
