//! What the calls on an input do to its value, its caret and its selection,
//! what an input shows, and what an assistive technology asks for.

use crate::input::{InputModel, InputState, InputType};
use crate::instance::RenderText;
use crate::plan::{Model, Ui};
use crate::press_laws;
use crate::protocol::{Action, Ask, Next, Purpose};
use crate::select::SelectModel;
use crate::select_laws;
use crate::typing_laws;
use vstd::prelude::*;

verus! {

/// The ends of the selection are the caret and the anchor, the lesser first;
/// something is selected where they differ.
pub proof fn law_selections_have_two_ends(m: InputModel)
    ensures
        m.anchor is None ==> m.sel_start() == m.caret && m.sel_end() == m.caret,
        m.anchor is Some ==> (m.sel_start() == m.caret && m.sel_end() == m.anchor->0) || (
        m.sel_start() == m.anchor->0 && m.sel_end() == m.caret),
        m.sel_start() <= m.sel_end(),
        m.has_selection() <==> m.sel_start() < m.sel_end(),
{
}

/// Text goes in place of the selected part, or to the caret, and the caret
/// behind it, in a line of text that is neither read-only nor disabled. The
/// empty text does nothing.
pub proof fn law_text_is_inserted(m: InputModel, text: Seq<char>)
    requires
        typing_laws::in_place(m),
    ensures
        ({
            let from = typing_laws::part_start(m);
            let to = typing_laws::part_end(m);
            m.typing(text) == if typing_laws::line_of_text(m) && !m.readonly && !m.disabled
                && text.len() > 0 {
                Some(
                    typing_laws::with_text(
                        m,
                        m.value.take(from) + text + m.value.skip(to),
                        from + text.len() as int,
                    ),
                )
            } else {
                None
            }
        }),
{
}

/// The selected part is deleted, and the caret goes where it was, in a line of
/// text that is neither read-only nor disabled.
pub proof fn law_selections_are_deleted(m: InputModel)
    requires
        typing_laws::in_place(m),
    ensures
        ({
            let from = typing_laws::part_start(m);
            let to = typing_laws::part_end(m);
            m.clearing() == if typing_laws::line_of_text(m) && !m.readonly && !m.disabled && from
                < to {
                Some(typing_laws::with_text(m, m.value.take(from) + m.value.skip(to), from))
            } else {
                None
            }
        }),
{
    let from = typing_laws::part_start(m);
    let to = typing_laws::part_end(m);
    assert(m.value.take(from) + Seq::<char>::empty() + m.value.skip(to) =~= m.value.take(from)
        + m.value.skip(to));
}

/// A character goes into a number where it makes what may be typed on the way
/// to a number, in place of the selected part. A minus sign goes only to the
/// start of one that has none.
pub proof fn law_characters_make_numbers(m: InputModel, c: char)
    requires
        typing_laws::in_place(m),
    ensures
        ({
            let before = m.value.take(typing_laws::part_start(m));
            let behind = m.value.skip(typing_laws::part_end(m));
            let typed = before.push(c) + behind;
            &&& m.typed_into_number(c) == if typing_laws::numeric(typed) {
                Some(typing_laws::with_text(m, typed, typing_laws::part_start(m) + 1))
            } else {
                None
            }
            &&& InputModel::number_char(c) <==> (('0' <= c && c <= '9') || c == '.' || c == '-')
            &&& m.selection_dropped() == if typing_laws::part_start(m) < typing_laws::part_end(m) {
                typing_laws::with_text(m, before + behind, typing_laws::part_start(m))
            } else {
                m
            }
            &&& m.number_insertion_point() == typing_laws::part_start(m)
        }),
{
    let before = m.value.take(typing_laws::part_start(m));
    let behind = m.value.skip(typing_laws::part_end(m));
    let typed = before.push(c) + behind;
    let rest = m.without_selection();
    assert(rest.value =~= before + behind) by {
        if typing_laws::part_start(m) == typing_laws::part_end(m) {
            assert(before + behind =~= m.value);
        }
    }
    assert(rest.caret == typing_laws::part_start(m));
    let next = crate::text::spliced(rest.value, rest.caret, rest.caret, seq![c]);
    assert(next =~= typed);
    typing_laws::lemma_numeric(typed);
    if c == '-' && typing_laws::numeric(typed) {
        assert(typed[typing_laws::part_start(m)] == '-');
        assert(typing_laws::part_start(m) == 0);
        assert forall|i: int| 0 <= i < rest.value.len() implies rest.value[i] != '-' by {
            assert(typed[i + 1] == rest.value[i]);
        }
    }
}

/// A number is to be brought within its bounds: it is another than the value,
/// and the input is one for numbers.
pub open spec fn to_be_bounded(m: InputModel, value: Seq<char>) -> bool {
    (m.kind is Number || m.kind is Range) && value != m.value && value.len() > 0
        && typing_laws::numeric(value)
}

/// A value that is given to an input replaces the one it has, with the caret at
/// its end and nothing selected; a checkbox or radio button keeps its caret. The
/// value that it has already, and a number that is still to be brought within
/// its bounds, change nothing.
pub proof fn law_values_are_given(m: InputModel, value: Seq<char>)
    ensures
        m.number_pending(value) <==> to_be_bounded(m, value),
        m.given(value) == if value == m.value || to_be_bounded(m, value) {
            m
        } else if m.kind is Checkbox || m.kind is Radio {
            typing_laws::with_text(m, value, m.caret)
        } else {
            typing_laws::with_text(m, value, value.len() as int)
        },
        m.put(value) == if to_be_bounded(m, value) {
            m
        } else if m.kind is Checkbox || m.kind is Radio {
            if value == m.value {
                m
            } else {
                typing_laws::with_text(m, value, m.caret)
            }
        } else {
            typing_laws::with_text(m, value, value.len() as int)
        },
        m.with_value(value) == typing_laws::with_text(m, value, value.len() as int),
{
    typing_laws::lemma_numeric(value);
}

/// A place among the characters of the value: that which was asked for, or the
/// end where the value is shorter.
pub open spec fn place_in(m: InputModel, at: int) -> int {
    if at < m.value.len() {
        at
    } else {
        m.value.len() as int
    }
}

/// The caret is placed, and nothing is selected any more, in a line of text that
/// is not disabled. Behind the end there is only the end.
pub proof fn law_carets_are_placed(m: InputModel, at: int)
    ensures
        m.caret_placed(at) == if typing_laws::line_of_text(m) && !m.disabled {
            typing_laws::with_caret(m, place_in(m, at), false)
        } else {
            m
        },
        m.caret_at_end() == press_laws::caret_to_end(m),
{
}

/// A selection is set from one place to another, where the caret is. Where they
/// are the same, nothing is selected.
pub proof fn law_selections_are_set(m: InputModel, anchor: int, focus: int)
    ensures
        m.selected(anchor, focus) == if typing_laws::line_of_text(m) {
            InputModel {
                caret: place_in(m, focus),
                anchor: if place_in(m, anchor) == place_in(m, focus) {
                    None
                } else {
                    Some(place_in(m, anchor))
                },
                blink_visible: true,
                restarts: m.restarts + 1,
                ..m
            }
        } else {
            m
        },
{
}

/// An input that becomes of another kind has its caret at the start and nothing
/// selected, and is masked exactly where it is a password. Its value stays, but
/// a slider has a value and bounds: what it lacks becomes "0", from 0 to 100 by
/// 1.
pub proof fn law_inputs_become_of_another_kind(m: InputModel, kind: InputType)
    ensures
        ({
            let n = m.with_kind(kind);
            let slides = kind is Range;
            let filled = slides && m.value.len() == 0;
            n == (InputModel {
                kind,
                masked: kind is Password,
                anchor: None,
                value: if filled {
                    "0"@
                } else {
                    m.value
                },
                caret: if filled {
                    1
                } else {
                    0
                },
                min: if slides && m.min is None {
                    Some(0)
                } else {
                    m.min
                },
                max: if slides && m.max is None {
                    Some(0x4059_0000_0000_0000)
                } else {
                    m.max
                },
                step: if slides && m.step is None {
                    Some(0x3FF0_0000_0000_0000)
                } else {
                    m.step
                },
                blink_visible: true,
                restarts: m.restarts + 1,
                ..m
            })
        }),
{
    reveal_strlit("0");
}

/// What a slider has already is not touched by the defaults, and other inputs
/// have none.
pub proof fn law_defaults_fill_what_is_missing(m: InputModel)
    ensures
        !(m.kind is Range) ==> m.with_numeric_defaults() == m,
        m.kind is Range && m.min is Some && m.max is Some && m.step is Some && m.value.len() > 0
            ==> m.with_numeric_defaults() == m,
        m.with_numeric_defaults().with_numeric_defaults() == m.with_numeric_defaults(),
{
    reveal_strlit("0");
}

/// A disabled input has its caret at the start and nothing selected. Nothing
/// else changes, and an input that is enabled again stays as it is.
pub proof fn law_inputs_are_disabled(m: InputModel, disabled: bool)
    ensures
        m.with_disabled(disabled) == (InputModel {
            disabled,
            anchor: if disabled {
                None
            } else {
                m.anchor
            },
            caret: if disabled {
                0
            } else {
                m.caret
            },
            ..m
        }),
{
}

/// A check mark that changes shows the caret anew; one that does not, changes
/// nothing.
pub proof fn law_check_marks_are_set(m: InputModel, checked: bool)
    ensures
        m.with_checked(checked) == if m.checked == checked {
            m
        } else {
            typing_laws::with_check(m, checked)
        },
{
}

/// A line of text, and a slider, show their value, with a bullet for each
/// character where it is masked or a password. A checkbox shows "true" or
/// "false" and a radio button "on" or "off", never a bullet.
pub proof fn law_inputs_show_their_value(m: InputModel)
    ensures
        m.display() == match m.kind {
            InputType::Checkbox => if m.checked {
                "true"@
            } else {
                "false"@
            },
            InputType::Radio => if m.checked {
                "on"@
            } else {
                "off"@
            },
            _ => if m.masked || m.kind is Password {
                Seq::new(m.value.len(), |i: int| '\u{2022}')
            } else {
                m.value
            },
        },
{
    assert(m.shows_bullets() ==> m.display() =~= Seq::new(m.value.len(), |i: int| '\u{2022}'));
}

/// An empty line of text shows its placeholder, where it has one; otherwise an
/// input shows its value.
pub proof fn law_empty_inputs_show_their_placeholder(m: InputModel)
    ensures
        m.shows_placeholder() <==> typing_laws::line_of_text(m) && m.value.len() == 0
            && m.placeholder is Some,
        m.rendered() == if typing_laws::line_of_text(m) && m.value.len() == 0 && m.placeholder is Some {
            m.placeholder->0
        } else {
            m.display()
        },
{
}

/// The name of a kind of input.
pub open spec fn kind_name(kind: InputType) -> Seq<char> {
    match kind {
        InputType::Text => "text"@,
        InputType::Password => "password"@,
        InputType::Checkbox => "checkbox"@,
        InputType::Radio => "radio"@,
        InputType::Range => "range"@,
        InputType::Number => "number"@,
    }
}

/// Each kind of input goes by its name, in whatever case; what is no name of
/// another kind stands for a plain line of text.
pub proof fn law_kinds_go_by_their_names(kind: InputType, name: Seq<char>)
    ensures
        crate::text::same_ignoring_case(name, kind_name(kind)) ==> crate::input::input_type_named(
            name,
        ) == kind,
        crate::input::input_type_named(name) == kind ==> kind is Text
            || crate::text::same_ignoring_case(name, kind_name(kind)),
{
    reveal_strlit("text");
    reveal_strlit("password");
    reveal_strlit("checkbox");
    reveal_strlit("radio");
    reveal_strlit("range");
    reveal_strlit("number");
    if crate::text::same_ignoring_case(name, kind_name(kind)) {
        assert(name.len() == kind_name(kind).len());
        if name.len() > 0 {
            assert(crate::text::ascii_lower(name[0]) == crate::text::ascii_lower(
                kind_name(kind)[0],
            ));
        }
        if name.len() > 2 {
            assert(crate::text::ascii_lower(name[2]) == crate::text::ascii_lower(
                kind_name(kind)[2],
            ));
        }
    }
}

/// The kinds of input: lines of text, numbers, and those with a check mark. A
/// number is typed as a line of text; a slider is a number and no text.
pub proof fn law_kinds_are_told_apart(kind: InputType)
    ensures
        kind.text_like() <==> !(kind is Checkbox || kind is Radio || kind is Range),
        kind.checked_like() <==> !(kind.text_like() || kind.numeric_like()),
        kind.text_like() && kind.numeric_like() <==> kind is Number,
        kind is Range ==> kind.numeric_like(),
{
}

/// An assistive technology moves the focus, steps a number up or down, and has a
/// node scrolled into view; what it does not know does nothing.
pub proof fn law_assistance_moves_and_steps(m: Model, node: usize, value: Seq<char>)
    ensures
        m.assisting(node, Action::Focus, value) == m.focusing(Some(node)),
        m.assisting(node, Action::Blur, value) == m.focusing(None),
        ({
            let numeric = m.inputs.contains_key(node) && (m.inputs[node].kind is Number
                || m.inputs[node].kind is Range);
            &&& m.assisting(node, Action::Increment, value) == if numeric {
                press_laws::goes_on(
                    m,
                    m.ui,
                    seq![Ask::StepText { node, count: 1i8, purpose: Purpose::Press }],
                )
            } else {
                m
            }
            &&& m.assisting(node, Action::Decrement, value) == if numeric {
                press_laws::goes_on(
                    m,
                    m.ui,
                    seq![Ask::StepText { node, count: -1i8, purpose: Purpose::Press }],
                )
            } else {
                m
            }
        }),
        m.assisting(node, Action::ScrollIntoView, value) == press_laws::goes_on(
            m,
            press_laws::painting(m.ui),
            seq![Ask::Reveal { node }],
        ),
        m.assisting(node, Action::Other, value) == m,
{
    let up = m.assisting(node, Action::Increment, value);
    let down = m.assisting(node, Action::Decrement, value);
    let shown = m.assisting(node, Action::ScrollIntoView, value);
    assert(up.agenda.len() > m.agenda.len() ==> up.agenda =~= m.agenda + seq![up.agenda.last()]);
    assert(down.agenda.len() > m.agenda.len() ==> down.agenda =~= m.agenda + seq![
        down.agenda.last(),
    ]);
    assert(shown.agenda =~= m.agenda + seq![Ask::Reveal { node }]);
}

/// An assistive technology sets the value of an input that is neither disabled
/// nor read-only: what shows follows, and then the `input` event. A number is
/// first to be brought within its bounds.
pub proof fn law_assistance_sets_values(m: Model, node: usize, value: Seq<char>)
    ensures
        ({
            let n = m.assisting(node, Action::SetValue, value);
            if !m.inputs.contains_key(node) || m.inputs[node].disabled || m.inputs[node].readonly {
                n == m
            } else if to_be_bounded(m.inputs[node], value) {
                n == press_laws::goes_on(m, m.ui, seq![Ask::ClampText { node, emits: true }])
            } else {
                &&& n.inputs[node].value == value
                &&& n == (Model {
                    inputs: m.inputs.insert(node, m.inputs[node].given(value)),
                    ..press_laws::goes_on(
                        m,
                        press_laws::changed(m.ui),
                        seq![Ask::SendInput { node }, Ask::RefreshInput { node }],
                    )
                })
            }
        }),
{
    typing_laws::lemma_numeric(value);
    let n = m.assisting(node, Action::SetValue, value);
    if m.inputs.contains_key(node) {
        assert(m.inputs.insert(node, m.inputs[node]) =~= m.inputs);
    }
    if n.agenda.len() == m.agenda.len() + 1 {
        assert(n.agenda =~= m.agenda + seq![n.agenda.last()]);
    } else if n.agenda.len() > m.agenda.len() {
        assert(n.agenda =~= m.agenda + seq![Ask::SendInput { node }, Ask::RefreshInput { node }]);
    }
}

/// A click of an assistive technology on a checkbox flips it, unless that is
/// locked; one on a radio button chooses it, unless it is chosen or disabled.
pub proof fn law_assistance_operates_checks(m: Model, node: usize, value: Seq<char>)
    requires
        m.inputs.contains_key(node),
        m.inputs[node].kind is Checkbox || m.inputs[node].kind is Radio,
    ensures
        ({
            let n = m.assisting(node, Action::Click, value);
            let was = m.inputs[node];
            let flips = !was.disabled && (if was.kind is Radio {
                !was.checked
            } else {
                !was.readonly
            });
            &&& !flips ==> n == m
            &&& flips ==> n == (Model {
                inputs: n.inputs,
                ..press_laws::goes_on(
                    m,
                    m.ui,
                    seq![Ask::SendInput { node }, Ask::SyncChecked { node }],
                )
            })
            &&& flips && was.kind is Checkbox ==> n.inputs == m.inputs.insert(
                node,
                typing_laws::with_check(was, !was.checked),
            )
            &&& flips && was.kind is Radio ==> typing_laws::chosen_in_its_group(
                m.inputs,
                n.inputs,
                node,
            )
        }),
{
    reveal(Model::check_clicked);
    let n = m.assisting(node, Action::Click, value);
    assert(crate::keys::radio_chosen(m.inputs, node).dom() =~= m.inputs.dom());
    if n.agenda.len() > m.agenda.len() {
        assert(n.agenda =~= m.agenda + seq![Ask::SendInput { node }, Ask::SyncChecked { node }]);
    }
}

/// A click of an assistive technology on a select flips whether its popup is
/// open, and one on any other node is a press and then a release.
pub proof fn law_assistance_clicks(m: Model, node: usize, value: Seq<char>)
    requires
        !(m.inputs.contains_key(node) && (m.inputs[node].kind is Checkbox
            || m.inputs[node].kind is Radio)),
        m.selects.contains_key(node) ==> select_laws::consistent(m.selects[node]),
    ensures
        ({
            let n = m.assisting(node, Action::Click, value);
            if m.selects.contains_key(node) {
                let was = m.selects[node];
                let is = n.selects[node];
                &&& is.open == !was.open
                &&& was.open ==> is == (SelectModel { open: false, active: None, ..was })
                &&& !was.open ==> select_laws::popped_up(was, is)
                &&& n == (Model {
                    selects: m.selects.insert(node, is),
                    ..press_laws::goes_on(
                        m,
                        press_laws::painting(m.ui),
                        seq![Ask::RefreshSelect { select: node }, Ask::SyncPopups],
                    )
                })
            } else {
                n == press_laws::goes_on(
                    m,
                    m.ui,
                    seq![Ask::Proceed { stage: Next::Release }, Ask::Spinner],
                )
            }
        }),
{
    reveal(Model::select_clicked);
    reveal(Model::pointer);
    let n = m.assisting(node, Action::Click, value);
    if m.selects.contains_key(node) {
        press_laws::lemma_opened(m.selects[node]);
        assert(n.agenda =~= m.agenda + seq![Ask::RefreshSelect { select: node }, Ask::SyncPopups]);
    } else {
        assert(n.agenda =~= m.agenda + seq![Ask::Proceed { stage: Next::Release }, Ask::Spinner]);
    }
}

/// A popup that is opened highlights the selected option, or else the first that
/// can be selected; one that is closed highlights nothing; and neither changes
/// the selection.
pub proof fn law_popups_open_and_close(m: SelectModel)
    requires
        select_laws::consistent(m),
    ensures
        select_laws::popped_up(m, m.opened()),
        m.opened().open,
        m.closed() == (SelectModel { open: false, active: None, ..m }),
{
    press_laws::lemma_opened(m);
}

/// A select takes over its highlighted option, unless that is disabled or there
/// is none, and closes.
pub proof fn law_highlights_are_committed(m: SelectModel)
    ensures
        m.committed() == (SelectModel {
            open: false,
            active: None,
            selected: if m.active is Some && !m.options[m.active->0].disabled {
                m.active
            } else {
                m.selected
            },
            ..m
        }),
{
}

/// A select shows the label of its selected option, and nothing where none is.
pub proof fn law_selects_show_their_option(m: SelectModel, i: int)
    ensures
        m.selected == Some(i) ==> m.label() == m.options[i].label,
        m.selected is None ==> m.label().len() == 0,
{
}

/// An instance begins with nothing hovered, pressed, focused, dragged or
/// coasting, with nothing to ask, and with its first frame to be painted. It has
/// the size, the stylesheets and the address that it was made with, the
/// stylesheets numbered in order.
pub proof fn law_instances_begin_idle(
    width: u32,
    height: u32,
    container: usize,
    document_scroll: bool,
    sheets: Seq<String>,
    base_url: Seq<char>,
    id: u64,
)
    requires
        sheets.len() <= u64::MAX,
    ensures
        ({
            let m = Model::fresh(width, height, container, document_scroll, sheets, base_url);
            &&& m.ui == (Ui {
                width,
                height,
                container,
                document_scroll,
                needs_paint: true,
                result: crate::events::TickResult { needs_paint: false, jobs_pending: false },
                focus_paint: false,
                hovered: None,
                active: None,
                focused: None,
                range_drag: None,
                scrollbar_drag: None,
                touch: None,
                momentum: None,
            })
            &&& m.agenda.len() == 0
            &&& !m.inputs.contains_key(container)
            &&& m.inputs.dom() == Set::<usize>::empty()
            &&& m.selects.dom() == Set::<usize>::empty()
            &&& m.base_url == base_url
            &&& m.next_sheet == sheets.len()
            &&& m.sheet(id) == if id < sheets.len() {
                Some(sheets[id as int]@)
            } else {
                None
            }
        }),
{
}

/// Every change of the stylesheets is painted; a call on one that is not
/// registered changes nothing.
pub proof fn law_stylesheets_are_painted(m: Model, id: u64, css: Seq<char>)
    ensures
        m.with_sheet(css).ui == press_laws::changed(m.ui),
        m.sheets.contains_key(id) ==> m.with_sheet_replaced(id, css).ui == press_laws::changed(m.ui)
            && m.without_sheet(id).ui == press_laws::changed(m.ui),
        !m.sheets.contains_key(id) ==> m.with_sheet_replaced(id, css) == m && m.without_sheet(id)
            == m,
{
}

/// The blink interval of an input runs on as long as it is not started anew.
pub proof fn law_blink_intervals_run_on(before: InputState, after: InputState)
    requires
        crate::input::timer_kept(before, after),
    ensures
        before@.restarts <= after@.restarts,
        before@.restarts == after@.restarts ==> before.last_blink() == after.last_blink(),
{
}

/// A caret blinks twice in a second, of a thousand million nanoseconds.
pub proof fn law_carets_blink_twice_a_second()
    ensures
        2 * crate::input::BLINK_INTERVAL == 1_000_000_000,
{
}

/// What layout is handed of an input: the text that it shows, whether that is
/// its placeholder, and how many bytes of the shown value come before the caret.
pub proof fn law_layout_gets_what_an_input_shows(shown: RenderText, node: usize, m: InputModel)
    requires
        m.wf(),
        m.kind is Text || m.kind is Password || m.kind is Number || m.kind is Range,
        shown.shows(node, m),
    ensures
        shown.node == node,
        shown.text@ == m.rendered(),
        shown.placeholder == (m.kind !is Range && m.value.len() == 0 && m.placeholder is Some),
        shown.caret_byte == crate::text::byte_len(m.display().take(m.caret)),
{
    crate::laws::law_caret_offset_is_that_of_the_shown_text(m);
    assert(m.display().len() == m.value.len());
}

/// A node stands for an option of a popup where the select lists it for that
/// option.
pub proof fn law_options_are_found_by_their_nodes(m: Model, select: usize, index: int, node: usize)
    ensures
        m.shows_option(select, index, node) <==> m.selects.contains_key(select) && 0 <= index
            < m.selects[select].option_nodes.len() && m.selects[select].option_nodes[index] == Some(
            node,
        ),
{
}

/// A new input is an empty line of text with nothing selected and nothing set.
pub proof fn law_new_inputs_are_empty()
    ensures
        ({
            let m = InputModel::new();
            &&& m.value.len() == 0 && m.caret == 0 && m.anchor is None
            &&& m.kind is Text && !m.masked && !m.checked && !m.readonly && !m.disabled
            &&& m.blink_visible && m.restarts == 0
            &&& m.placeholder is None && m.name is None
            &&& m.min is None && m.max is None && m.step is None
        }),
{
}

} // verus!
