//! What is told: to assistive technologies of the controls, to scripts of
//! events, and to people of errors; and what keys are called.

use crate::a11y::{A11yModel, Actions, Numeric, Role, Toggled, Traits};
use crate::capture::CaptureError;
use crate::error::{GpuError, InstanceError, RegisterFontError};
use crate::events::{Key, KeyboardEvent};
use crate::input::InputType;
use crate::plan::Model;
use crate::protocol::EventName;
use vstd::prelude::*;

verus! {

/// The name of a key that goes by one.
pub open spec fn key_name(key: Key) -> Seq<char> {
    match key {
        Key::Space => "Space"@,
        Key::Enter => "Enter"@,
        Key::Tab => "Tab"@,
        Key::Escape => "Escape"@,
        Key::Backspace => "Backspace"@,
        Key::Delete => "Delete"@,
        Key::ArrowLeft => "ArrowLeft"@,
        Key::ArrowRight => "ArrowRight"@,
        Key::ArrowUp => "ArrowUp"@,
        Key::ArrowDown => "ArrowDown"@,
        Key::Up => "Up"@,
        Key::Down => "Down"@,
        Key::Home => "Home"@,
        Key::End => "End"@,
        Key::PageUp => "PageUp"@,
        Key::PageDown => "PageDown"@,
        Key::Char(c) => seq![c],
        Key::Other => Seq::empty(),
    }
}

/// Each key goes by its name, and a character key by its character. The space
/// bar goes by its character too. Any other name is that of no key known here.
pub proof fn law_keys_go_by_their_names(key: Key, name: Seq<char>)
    ensures
        key != Key::Char(' ') ==> crate::events::key_named(key_name(key)) == key,
        crate::events::key_named(seq![' ']) == Key::Space,
        crate::events::key_named(name) == key ==> key is Other || name == key_name(key) || (
        key is Space && name == seq![' ']),
        crate::events::key_named(name) == Key::Other ==> name != key_name(key) || key is Other,
{
    reveal_strlit(" ");
    reveal_strlit("Space");
    reveal_strlit("Enter");
    reveal_strlit("Tab");
    reveal_strlit("Escape");
    reveal_strlit("Backspace");
    reveal_strlit("Delete");
    reveal_strlit("ArrowLeft");
    reveal_strlit("ArrowRight");
    reveal_strlit("ArrowUp");
    reveal_strlit("ArrowDown");
    reveal_strlit("Up");
    reveal_strlit("Down");
    reveal_strlit("Home");
    reveal_strlit("End");
    reveal_strlit("PageUp");
    reveal_strlit("PageDown");
    assert("Space"@.len() == 5);
    assert("Enter"@.len() == 5);
    assert("Tab"@.len() == 3);
    assert("Escape"@.len() == 6);
    assert("Backspace"@.len() == 9);
    assert("Delete"@.len() == 6);
    assert("ArrowLeft"@.len() == 9);
    assert("ArrowRight"@.len() == 10);
    assert("ArrowUp"@.len() == 7);
    assert("ArrowDown"@.len() == 9);
    assert("Up"@.len() == 2);
    assert("Down"@.len() == 4);
    assert("Home"@.len() == 4);
    assert("End"@.len() == 3);
    assert("PageUp"@.len() == 6);
    assert("PageDown"@.len() == 8);
    assert("Space"@[0] != "Enter"@[0]);
    assert("Tab"@[0] != "End"@[0]);
    assert("Escape"@[0] != "Delete"@[0]);
    assert("Escape"@[0] != "PageUp"@[0]);
    assert("Delete"@[0] != "PageUp"@[0]);
    assert("Backspace"@[0] != "ArrowLeft"@[0]);
    assert("Backspace"@[0] != "ArrowDown"@[0]);
    assert("ArrowLeft"@[5] != "ArrowDown"@[5]);
    assert("Down"@[0] != "Home"@[0]);
    assert(" "@ =~= seq![' ']);
    if name.len() == 1 {
        assert(name =~= seq![name[0]]);
    }
    if let Key::Char(c) = key {
        assert(seq![c][0] == c);
    }
}

/// A keystroke has the key of its event, and each modifier that the event has.
pub proof fn law_keystrokes_keep_their_modifiers(event: KeyboardEvent)
    ensures
        event.stroke().key == crate::events::key_named(event.key@),
        event.stroke().shift == event.shift_key,
        event.stroke().ctrl == event.ctrl_key,
        event.stroke().alt == event.alt_key,
        event.stroke().meta == event.meta_key,
{
}

/// The name by which scripts know an event.
pub open spec fn event_name(event: EventName) -> Seq<char> {
    match event {
        EventName::Click => "click"@,
        EventName::ContextMenu => "contextmenu"@,
        EventName::AuxClick => "auxclick"@,
        EventName::MouseUp => "mouseup"@,
        EventName::MouseOut => "mouseout"@,
        EventName::MouseLeave => "mouseleave"@,
        EventName::HoverLeave => "hoverleave"@,
        EventName::MouseOver => "mouseover"@,
        EventName::MouseEnter => "mouseenter"@,
        EventName::Hover => "hover"@,
        EventName::HoverEnter => "hoverenter"@,
        EventName::MouseMove => "mousemove"@,
        EventName::Focus => "focus"@,
        EventName::Blur => "blur"@,
        EventName::KeyDown => "keydown"@,
        EventName::KeyUp => "keyup"@,
        EventName::Wheel => "wheel"@,
        EventName::Scroll => "scroll"@,
        EventName::Input => "input"@,
        EventName::Change => "change"@,
        EventName::Load => "load"@,
        EventName::Error => "error"@,
    }
}

/// Scripts know each event by its own name.
pub proof fn law_events_go_by_their_names(event: EventName)
    ensures
        event.name() == event_name(event),
{
}

/// The role of an input.
pub open spec fn input_role(kind: InputType) -> Role {
    match kind {
        InputType::Radio => Role::RadioButton,
        InputType::Checkbox => Role::CheckBox,
        InputType::Range => Role::Slider,
        InputType::Number => Role::NumberInput,
        _ => Role::TextInput,
    }
}

/// Of an input is told: its role; its check mark, where it is one for that; its
/// bounds and its step, where it is one for numbers; its text, unless that is
/// masked, and its placeholder, where it is a plain line of text; whether it is
/// disabled or read-only; and that it takes the focus, clicks where it has a
/// check mark, steps where it is a number, and values where it has no check
/// mark. No more is told.
pub proof fn law_inputs_are_told(m: Model, node: usize)
    requires
        m.inputs.contains_key(node),
    ensures
        ({
            let input = m.inputs[node];
            let check = input.kind is Checkbox || input.kind is Radio;
            let number = input.kind is Number || input.kind is Range;
            m.told(node, None) == (A11yModel {
                traits: Traits {
                    role: Some(input_role(input.kind)),
                    toggled: if !check {
                        None
                    } else if input.checked {
                        Some(Toggled::True)
                    } else {
                        Some(Toggled::False)
                    },
                    disabled: input.disabled,
                    readonly: input.readonly,
                    hidden: false,
                    numeric: if number {
                        Some(
                            Numeric {
                                min: input.min,
                                max: input.max,
                                step: match input.step {
                                    Some(step) => step,
                                    None => 0x3FF0_0000_0000_0000,
                                },
                            },
                        )
                    } else {
                        None
                    },
                    actions: Actions {
                        focus: true,
                        click: check,
                        increment: number,
                        decrement: number,
                        set_value: !check,
                        expand: false,
                        collapse: false,
                    },
                },
                label: None,
                value: if check || number || input.masked || input.kind is Password {
                    None
                } else {
                    Some(input.value)
                },
                placeholder: if check || number {
                    None
                } else {
                    input.placeholder
                },
            })
        }),
{
}

/// Of a select is told that it is one, whether it is disabled, and the label of
/// its option; it takes the focus, clicks, and being opened and closed.
pub proof fn law_selects_are_told(m: Model, node: usize)
    requires
        !m.inputs.contains_key(node),
        m.selects.contains_key(node),
    ensures
        ({
            let select = m.selects[node];
            m.told(node, None) == (A11yModel {
                traits: Traits {
                    role: Some(Role::ComboBox),
                    toggled: None,
                    disabled: select.disabled,
                    readonly: false,
                    hidden: false,
                    numeric: None,
                    actions: Actions {
                        focus: true,
                        click: true,
                        increment: false,
                        decrement: false,
                        set_value: false,
                        expand: true,
                        collapse: true,
                    },
                },
                label: None,
                value: Some(
                    match select.selected {
                        Some(i) => select.options[i].label,
                        None => Seq::empty(),
                    },
                ),
                placeholder: None,
            })
        }),
{
}

/// Nothing is told of a node that is no control.
pub proof fn law_plain_nodes_are_not_told(m: Model, node: usize)
    requires
        !m.inputs.contains_key(node),
        !m.selects.contains_key(node),
    ensures
        ({
            let told = m.told(node, None);
            &&& told.label is None && told.value is None && told.placeholder is None
            &&& told.traits.role is None && told.traits.toggled is None
                && told.traits.numeric is None
            &&& !told.traits.disabled && !told.traits.readonly && !told.traits.hidden
            &&& told.traits.actions == (Actions {
                focus: false,
                click: false,
                increment: false,
                decrement: false,
                set_value: false,
                expand: false,
                collapse: false,
            })
        }),
{
}

/// The attributes of an element are heard in their order, each on top of those
/// before it, and its tag comes last.
pub proof fn law_attributes_are_heard_in_order(
    m: Model,
    node: usize,
    tag: Seq<char>,
    attrs: Seq<(String, String)>,
    told: A11yModel,
    i: int,
)
    requires
        0 <= i < attrs.len(),
    ensures
        m.told(node, Some((tag, attrs))) == m.told(node, None).with_attrs(
            attrs,
            attrs.len() as int,
        ).with_element(tag, crate::a11y::has_href(attrs)),
        told.with_attrs(attrs, 0) == told,
        told.with_attrs(attrs, i + 1) == told.with_attrs(attrs, i).with_attr(
            attrs[i].0@,
            attrs[i].1@,
        ),
{
}

/// A label, a placeholder and a role are taken over, where they say something; a
/// flag is raised where its attribute is true, and never lowered. Any other
/// attribute, and one that says nothing, changes nothing.
pub proof fn law_attributes_add_to_what_is_told(told: A11yModel, value: Seq<char>, name: Seq<char>)
    ensures
        told.with_attr("aria-label"@, value) == if value.len() > 0 {
            A11yModel { label: Some(value), ..told }
        } else {
            told
        },
        told.with_attr("placeholder"@, value) == if value.len() > 0 {
            A11yModel { placeholder: Some(value), ..told }
        } else {
            told
        },
        told.with_attr("aria-hidden"@, value) == (A11yModel {
            traits: Traits {
                hidden: told.traits.hidden || crate::text::same_ignoring_case(value, "true"@),
                ..told.traits
            },
            ..told
        }),
        told.with_attr("aria-disabled"@, value) == (A11yModel {
            traits: Traits {
                disabled: told.traits.disabled || crate::text::same_ignoring_case(value, "true"@),
                ..told.traits
            },
            ..told
        }),
        told.with_attr("aria-checked"@, value) == (A11yModel {
            traits: Traits {
                toggled: if value == "true"@ {
                    Some(Toggled::True)
                } else if value == "false"@ {
                    Some(Toggled::False)
                } else if value == "mixed"@ {
                    Some(Toggled::Mixed)
                } else {
                    told.traits.toggled
                },
                ..told.traits
            },
            ..told
        }),
        told.with_attr("role"@, value) == (A11yModel {
            traits: Traits {
                role: match crate::a11y::role_named(value) {
                    Some(role) => Some(role),
                    None => told.traits.role,
                },
                ..told.traits
            },
            ..told
        }),
        name != "aria-label"@ && name != "placeholder"@ && name != "aria-hidden"@ && name
            != "aria-disabled"@ && name != "aria-checked"@ && name != "role"@ ==> told.with_attr(
            name,
            value,
        ) == told,
{
    reveal_strlit("aria-label");
    reveal_strlit("placeholder");
    reveal_strlit("aria-hidden");
    reveal_strlit("aria-disabled");
    reveal_strlit("aria-checked");
    reveal_strlit("role");
    reveal_strlit("true");
    reveal_strlit("false");
    reveal_strlit("mixed");
    assert("aria-label"@.len() == 10);
    assert("placeholder"@.len() == 11);
    assert("aria-hidden"@.len() == 11);
    assert("aria-disabled"@.len() == 13);
    assert("aria-checked"@.len() == 12);
    assert("role"@.len() == 4);
    assert("true"@.len() == 4);
    assert("false"@.len() == 5);
    assert("mixed"@.len() == 5);
    assert("placeholder"@[0] != "aria-hidden"@[0]);
    assert("false"@[0] != "mixed"@[0]);
}

/// The name of a role, for those that have one.
pub open spec fn role_name(role: Role) -> Seq<char> {
    match role {
        Role::Button => "button"@,
        Role::Link => "link"@,
        Role::CheckBox => "checkbox"@,
        Role::RadioButton => "radio"@,
        Role::Slider => "slider"@,
        Role::Heading => "heading"@,
        Role::ListBox => "listbox"@,
        Role::ListBoxOption => "option"@,
        Role::ComboBox => "combobox"@,
        Role::TextInput => "textbox"@,
        Role::NumberInput => Seq::empty(),
    }
}

/// Each role goes by its name. The role of a number has none.
pub proof fn law_roles_go_by_their_names(role: Role, name: Seq<char>)
    ensures
        !(role is NumberInput) ==> crate::a11y::role_named(role_name(role)) == Some(role),
        crate::a11y::role_named(name) == Some(role) ==> name == role_name(role) && !(
        role is NumberInput),
{
    reveal_strlit("button");
    reveal_strlit("link");
    reveal_strlit("checkbox");
    reveal_strlit("radio");
    reveal_strlit("slider");
    reveal_strlit("heading");
    reveal_strlit("listbox");
    reveal_strlit("option");
    reveal_strlit("combobox");
    reveal_strlit("textbox");
    assert("button"@.len() == 6);
    assert("link"@.len() == 4);
    assert("checkbox"@.len() == 8);
    assert("radio"@.len() == 5);
    assert("slider"@.len() == 6);
    assert("heading"@.len() == 7);
    assert("listbox"@.len() == 7);
    assert("option"@.len() == 6);
    assert("combobox"@.len() == 8);
    assert("textbox"@.len() == 7);
    assert("button"@[0] != "slider"@[0]);
    assert("button"@[0] != "option"@[0]);
    assert("slider"@[0] != "option"@[0]);
    assert("checkbox"@[1] != "combobox"@[1]);
    assert("heading"@[0] != "listbox"@[0]);
    assert("heading"@[0] != "textbox"@[0]);
    assert("listbox"@[0] != "textbox"@[0]);
}

/// An anchor with an address is a link; it and a button take clicks and the
/// focus. Any other element adds nothing.
pub proof fn law_elements_add_to_what_is_told(told: A11yModel, tag: Seq<char>, has_href: bool)
    ensures
        ({
            let link = tag == "a"@ && has_href;
            let n = told.with_element(tag, has_href);
            &&& !link && tag != "button"@ ==> n == told
            &&& link || tag == "button"@ ==> n == (A11yModel {
                traits: Traits {
                    role: if link {
                        Some(Role::Link)
                    } else {
                        told.traits.role
                    },
                    actions: Actions { click: true, focus: true, ..told.traits.actions },
                    ..told.traits
                },
                ..told
            })
        }),
{
}

/// An error is told with what it is about: the message of a script or compiler
/// as it is, and an address, a path or a message of the machine behind a few
/// words that say what failed.
pub proof fn law_errors_tell_what_they_are_about(message: String, value: String)
    ensures
        InstanceError::JsContext(message).text() == message@,
        InstanceError::CompileComponent(message).text() == message@,
        InstanceError::Io(message).text() == "failed to read component source: "@ + message@,
        (InstanceError::BaseUrl { value, error: message }).text() == "invalid base URL `"@ + value@
            + "`: "@ + message@,
        (InstanceError::UnsupportedJsxModule { path: value }).text()
            == "JSX/TSX/TS component loading requires the `jsx-compiler` feature: "@ + value@,
        (InstanceError::MissingVirtualEntrypoint { path: value }).text()
            == "missing virtual entrypoint source for `"@ + value@ + "`"@,
        RegisterFontError::UnknownFormat.text()
            == "unknown font format: expected file extension `.ttf`, `.otf`, `.woff`, or `.woff2`"@,
        RegisterFontError::Io(message).text() == "failed to read font file: "@ + message@,
        GpuError::Surface(message).text() == "creating surface: "@ + message@,
        GpuError::Adapter(message).text() == "requesting adapter: "@ + message@,
        GpuError::Device(message).text() == "requesting device: "@ + message@,
{
}

/// A capture that failed is told with what was captured and what is wrong with
/// it; bytes that are too many or too few are told with both numbers.
pub proof fn law_captures_tell_what_is_wrong(format: String, expected: u32, got: usize)
    ensures
        CaptureError::ZeroDimensions.texture_text()
            == "capture_texture_to_png: texture has zero dimensions"@,
        CaptureError::UnsupportedFormat(format).texture_text()
            == "capture_texture_to_png: unsupported format "@ + format@,
        CaptureError::RowTooLarge.texture_text() == "capture_texture_to_png: row too large"@,
        CaptureError::ImageTooLarge.texture_text() == "capture_texture_to_png: image too large"@,
        CaptureError::BuildFailed.texture_text()
            == "capture_texture_to_png: failed to build image"@,
        CaptureError::ZeroDimensions.buffer_text()
            == "capture_buffer_to_png: frame has zero dimensions"@,
        (CaptureError::WrongLength { expected, got }).buffer_text()
            == "capture_buffer_to_png: expected "@ + crate::text::decimal(expected as nat)
            + " bytes, got "@ + crate::text::decimal(got as nat),
        CaptureError::BuildFailed.buffer_text() == "capture_buffer_to_png: failed to build image"@,
        CaptureError::ImageTooLarge.buffer_text() == "capture_buffer_to_png: image too large"@,
{
}

/// An element has an address where one of its attributes is called `href`.
pub proof fn law_addresses_are_attributes(attrs: Seq<(String, String)>, i: int)
    ensures
        0 <= i < attrs.len() && attrs[i].0@ == "href"@ ==> crate::a11y::has_href(attrs),
        crate::a11y::has_href(attrs) ==> exists|j: int|
            0 <= j < attrs.len() && (#[trigger] attrs[j]).0@ == "href"@,
{
}

} // verus!
