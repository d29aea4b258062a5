use serde_json::Value;
use solite::events::{KeyboardEvent, TickResult};
use solite::focus::{collect_tab_order, is_focusable_by_default, TabCandidate};
use solite::hit::{active_changes, hit_node_id, HitTree, PopupBox};
use solite::input::InputState;
use solite::instance::{Instance, InstanceConfig, StylesheetId};
use solite::protocol::{
    Action, Ask, EventName, Hit, ImgEvent, MouseButton, MouseEvent, Release, Reply, ScrollAxis,
    ScrollbarHit, Step, TouchEvent, TouchPhase,
};
use solite::select::{SelectOption, SelectState};
use solite::text::char_index_to_byte_index;
use std::cell::RefCell;
use std::collections::BTreeMap;
use std::rc::Rc;

const CONTAINER: usize = 1;
const LEFT: MouseButton = MouseButton::Left;
const DOWN: MouseEvent = MouseEvent::Down { button: LEFT };
const UP: MouseEvent = MouseEvent::Up { button: LEFT };

type Rect = (f32, f32, f32, f32);
type Handler = Rc<dyn Fn(&mut Script, &EventInfo)>;

/// What scripts share with the host.
#[derive(Default)]
struct Script {
    state: BTreeMap<String, Value>,
    sent: Vec<(String, f64)>,
    /// Values that scripts wrote to inputs.
    writes: Vec<(usize, String)>,
}

impl Script {
    fn set(&mut self, name: &str, value: Value) {
        self.state.insert(name.to_owned(), value);
    }

    fn count(&mut self, name: &str) {
        let count = self.state.get(name).and_then(|v| v.as_u64()).unwrap_or(0);
        self.set(name, Value::from(count + 1));
    }
}

#[derive(Default)]
struct EventInfo {
    target: usize,
    related: Option<usize>,
    key: String,
    value: Option<String>,
    checked: bool,
    selection_start: Option<usize>,
    scroll_top: f64,
}

#[derive(Default)]
struct Node {
    parent: usize,
    tag: String,
    class: String,
    text: String,
    rect: Rect,
    handlers: Vec<(EventName, Handler)>,
    href: bool,
    disabled: bool,
    tabindex: Option<i32>,
    /// The height of what is inside, where that can be scrolled.
    content: Option<f32>,
    scroll_top: f64,
}

/// A document laid out by hand, and scripts that are closures.
struct Host {
    instance: Instance,
    nodes: BTreeMap<usize, Node>,
    order: Vec<usize>,
    script: Script,
    pointer: (f32, f32),
    delta: (f64, f64),
    key: String,
    hovered: Option<usize>,
    active: Vec<usize>,
    focused: Option<usize>,
    drag: (f32, f64),
    blink_offset: u64,
    images: Vec<ImgEvent>,
    panning: bool,
    release: Release,
    coast: (bool, bool),
    asks: Vec<Ask>,
}

fn inside(rect: Rect, at: (f32, f32)) -> bool {
    at.0 >= rect.0 && at.0 < rect.0 + rect.2 && at.1 >= rect.1 && at.1 < rect.1 + rect.3
}

fn handler(f: impl Fn(&mut Script, &EventInfo) + 'static) -> Handler {
    Rc::new(f)
}

fn null_or(id: Option<usize>) -> Value {
    match id {
        Some(id) => Value::from(id),
        None => Value::Null,
    }
}

impl Host {
    fn sized(width: u32, height: u32, document_scroll: bool, css: &[&str]) -> Host {
        let config = InstanceConfig {
            width,
            height,
            stylesheets: css.iter().map(|s| s.to_string()).collect(),
            document_scroll,
            base_url: None,
        };
        let instance = Instance::new(config, CONTAINER, "file:///srv/".to_owned()).expect("valid");
        let mut host = Host {
            instance,
            nodes: BTreeMap::new(),
            order: vec![],
            script: Script::default(),
            pointer: (0.0, 0.0),
            delta: (0.0, 0.0),
            key: String::new(),
            hovered: None,
            active: vec![],
            focused: None,
            drag: (0.0, 0.0),
            blink_offset: 0,
            images: vec![],
            panning: false,
            release: Release::Tap,
            coast: (false, false),
            asks: vec![],
        };
        let rect = (0.0, 0.0, width as f32, height as f32);
        host.nodes.insert(CONTAINER, Node { tag: "div".to_owned(), rect, ..Node::default() });
        host
    }

    fn with_css(css: &[&str]) -> Host {
        Host::sized(100, 100, false, css)
    }

    fn element(&mut self, id: usize, parent: usize, tag: &str, rect: Rect) -> &mut Node {
        let node = Node { parent, tag: tag.to_owned(), rect, ..Node::default() };
        self.nodes.insert(id, node);
        self.order.push(id);
        if tag == "input" {
            self.instance.register_input(id, InputState::default());
        }
        self.nodes.get_mut(&id).unwrap()
    }

    fn input(&mut self, id: usize, parent: usize, kind: &str, rect: Rect) {
        self.element(id, parent, "input", rect);
        self.edit_input(id, |state| state.set_input_type(kind));
    }

    fn edit_input(&mut self, id: usize, f: impl FnOnce(&mut InputState)) {
        let mut state = self.instance.input(id).expect("input").clone();
        f(&mut state);
        self.instance.register_input(id, state);
    }

    fn on(&mut self, id: usize, event: EventName, f: impl Fn(&mut Script, &EventInfo) + 'static) {
        self.nodes.get_mut(&id).unwrap().handlers.push((event, handler(f)));
    }

    fn get(&self, name: &str) -> Option<Value> {
        self.script.state.get(name).cloned()
    }

    fn path(&self, id: Option<usize>) -> Vec<usize> {
        let mut path = vec![];
        let mut at = id.unwrap_or(0);
        while let Some(node) = self.nodes.get(&at) {
            path.insert(0, at);
            at = node.parent;
        }
        path
    }

    fn handles(&self, id: usize, event: EventName) -> Option<Handler> {
        let found = self.nodes.get(&id)?.handlers.iter().find(|(e, _)| *e == event)?;
        Some(found.1.clone())
    }

    fn tree(&self, id: usize) -> HitTree {
        let hit = inside(self.nodes[&id].rect, self.pointer);
        let children = self.order.iter().copied().filter(|c| self.nodes[c].parent == id);
        HitTree {
            id,
            within_reach: hit || id == CONTAINER,
            within_box: hit && id != CONTAINER,
            children: children.map(|c| self.tree(c)).collect(),
        }
    }

    fn popups(&self) -> Vec<PopupBox> {
        let mut boxes = vec![];
        for select in self.instance.select_node_ids() {
            let state = self.instance.select(select).unwrap();
            if let Some(root) = state.popup_root() {
                let rect = self.nodes[&select].rect;
                let mut options = vec![];
                for (i, node) in state.option_nodes().iter().enumerate() {
                    let y = rect.1 + rect.3 + 20.0 * i as f32;
                    options.push((node.unwrap(), inside((rect.0, y, rect.2, 20.0), self.pointer)));
                }
                let within = options.iter().any(|o| o.1);
                boxes.push(PopupBox { root, within, options });
            }
        }
        boxes
    }

    fn sync_popups(&mut self) {
        for select in self.instance.select_node_ids() {
            let state = self.instance.select(select).unwrap();
            if state.is_open() {
                let count = state.option_count();
                let nodes = (0..count).map(|i| Some(select * 1000 + 1 + i)).collect();
                self.instance.set_select_popup(select, Some(select * 1000), nodes);
            } else {
                self.instance.set_select_popup(select, None, vec![]);
            }
        }
    }

    fn number(&self, node: usize, change: impl Fn(f64, f64, f64, f64) -> f64) -> Reply {
        let Some(state) = self.instance.input(node) else {
            return Reply::Text(None);
        };
        let min = state.min().map(f64::from_bits).unwrap_or(f64::NEG_INFINITY);
        let max = state.max().map(f64::from_bits).unwrap_or(f64::INFINITY);
        let step = f64::from_bits(state.step());
        let value = state.value().parse::<f64>().unwrap_or(0.0);
        let next = change(value, min, max, step).max(min).min(max);
        Reply::Text(Some(format!("{next}")))
    }

    fn send(&mut self, node: usize, event: EventName, related: Option<usize>) -> Reply {
        let Some(f) = self.handles(node, event) else {
            return Reply::Tick(TickResult::default());
        };
        let snapshot = self.instance.input_snapshot(node);
        let choice = self.instance.select_snapshot(node);
        let info = EventInfo {
            target: node,
            related,
            key: self.key.clone(),
            checked: snapshot.as_ref().is_some_and(|s| s.checked),
            selection_start: snapshot.as_ref().map(|s| s.selection_start),
            value: snapshot.map(|s| s.value).or(choice.map(|s| s.value)),
            scroll_top: self.nodes[&node].scroll_top,
        };
        f(&mut self.script, &info);
        for (id, value) in std::mem::take(&mut self.script.writes) {
            self.edit_input(id, |state| {
                state.set_value(&value);
            });
        }
        Reply::Tick(TickResult { needs_paint: true, jobs_pending: false })
    }

    fn scroll(&mut self, node: usize, by: f64) -> bool {
        let Some(at) = self.nodes.get_mut(&node) else {
            return false;
        };
        let Some(content) = at.content else {
            return false;
        };
        let most = (content - at.rect.3).max(0.0) as f64;
        let top = (at.scroll_top + by).max(0.0).min(most);
        let moved = top != at.scroll_top;
        at.scroll_top = top;
        moved
    }

    /// The thumb and the track of a node's scrollbar, at its right edge.
    fn bars(&self, node: usize) -> (Rect, Rect) {
        let at = &self.nodes[&node];
        let content = at.content.unwrap();
        let track = (at.rect.0 + at.rect.2 - 10.0, at.rect.1, 10.0, at.rect.3);
        let length = at.rect.3 * at.rect.3 / content;
        let most = (content - at.rect.3) as f64;
        let y = track.1 + (at.scroll_top / most) as f32 * (track.3 - length);
        ((track.0, y, track.2, length), track)
    }

    fn answer(&mut self, ask: Ask) -> Reply {
        match ask {
            Ask::HitTest { .. } => {
                let node = hit_node_id(&self.popups(), &self.tree(CONTAINER));
                Reply::Hit(self.instance.classify_hit(node))
            }
            Ask::Spinner => {
                for node in self.instance.number_input_ids() {
                    let rect = self.nodes[&node].rect;
                    let up = (rect.0 + rect.2 - 10.0, rect.1, 10.0, rect.3 / 2.0);
                    let down = (up.0, up.1 + up.3, 10.0, up.3);
                    if inside(up, self.pointer) || inside(down, self.pointer) {
                        return Reply::Spinner(Some((node, inside(up, self.pointer))));
                    }
                }
                Reply::Spinner(None)
            }
            Ask::Scrollbar => {
                for (id, node) in &self.nodes {
                    if node.content.is_some_and(|c| c > node.rect.3) {
                        let (thumb, track) = self.bars(*id);
                        let axis = ScrollAxis::Vertical;
                        if inside(thumb, self.pointer) {
                            self.drag = (self.pointer.1, node.scroll_top);
                            return Reply::Scrollbar(ScrollbarHit::Thumb { node: *id, axis });
                        }
                        if inside(track, self.pointer) {
                            return Reply::Scrollbar(ScrollbarHit::Track { node: *id, axis });
                        }
                    }
                }
                Reply::Scrollbar(ScrollbarHit::Nothing)
            }
            Ask::DragScroll { node, .. } => {
                let (thumb, track) = self.bars(node);
                let most = self.nodes[&node].content.unwrap() - self.nodes[&node].rect.3;
                let by = (self.pointer.1 - self.drag.0) * most / (track.3 - thumb.3);
                let target = self.drag.1 + by as f64;
                let top = self.nodes[&node].scroll_top;
                self.scroll(node, target - top);
                Reply::Nothing
            }
            Ask::PageScroll { node, .. } => {
                let (thumb, track) = self.bars(node);
                let page = if self.pointer.1 < thumb.1 { -track.3 } else { track.3 };
                self.scroll(node, page as f64);
                Reply::Nothing
            }
            Ask::RangeText { node, .. } => {
                let rect = self.nodes[&node].rect;
                let part = ((self.pointer.0 - rect.0) / rect.2).max(0.0).min(1.0) as f64;
                self.number(node, |_, min, max, step| {
                    min + ((max - min) * part / step).round() * step
                })
            }
            Ask::StepText { node, count, .. } => {
                self.number(node, |value, _, _, step| value + step * count as f64)
            }
            Ask::ExtremeText { node, maximum, .. } => {
                self.number(node, |_, min, max, _| if maximum { max } else { min })
            }
            Ask::ClampText { node, .. } => {
                let text = self.instance.input(node).map(|_| self.key.clone());
                let value = text.and_then(|t| t.trim().parse::<f64>().ok()).unwrap_or(0.0);
                self.number(node, |_, _, _, _| value)
            }
            Ask::Hover { to, .. } => {
                self.hovered = to;
                Reply::Flag(false)
            }
            Ask::Activate { from, to } => {
                let (off, on) = active_changes(&self.path(from), &self.path(to));
                self.active.retain(|id| !off.contains(id));
                self.active.extend(on);
                Reply::Nothing
            }
            Ask::FindHandler { node, event, .. } => {
                let path = self.path(Some(node));
                let found = path.into_iter().rev().find(|id| self.handles(*id, event).is_some());
                Reply::Node(found)
            }
            Ask::Send { node, event, related, .. } => self.send(node, event, related),
            Ask::SendInput { node } => self.send(node, EventName::Input, None),
            Ask::SendChange { select } => self.send(select, EventName::Change, None),
            Ask::SendKey { down, tail, .. } => {
                let event = if down { EventName::KeyDown } else { EventName::KeyUp };
                self.send(tail.node, event, None)
            }
            Ask::SendWheel { node, .. } => self.send(node, EventName::Wheel, None),
            Ask::SendScroll { node } => self.send(node, EventName::Scroll, None),
            Ask::Blur { node, .. } => self.send(node, EventName::Blur, None),
            Ask::Focus { node } => self.send(node, EventName::Focus, None),
            Ask::ClearFocus => {
                self.focused = None;
                Reply::Nothing
            }
            Ask::SetFocus { node } => {
                self.focused = Some(node);
                Reply::Nothing
            }
            Ask::IsButton { tail } => Reply::Flag(self.nodes[&tail.node].tag == "button"),
            Ask::TabOrder { .. } => {
                let mut candidates = vec![];
                for id in &self.order {
                    let node = &self.nodes[id];
                    candidates.push(TabCandidate {
                        node: *id,
                        focusable: is_focusable_by_default(&node.tag, node.href),
                        disabled: node.disabled,
                        tabindex: node.tabindex,
                    });
                }
                Reply::Path(collect_tab_order(&candidates))
            }
            Ask::RadioOrder { .. } => {
                let radios = self.order.iter().copied();
                let radios = radios.filter(|id| self.instance.input(*id).is_some_and(|s| s.is_radio()));
                Reply::Path(radios.collect())
            }
            Ask::Owner { node } => {
                let path = self.path(Some(node));
                Reply::Node(path.into_iter().find(|id| self.instance.select(*id).is_some()))
            }
            Ask::RefreshInput { node } => {
                if let (Some(text), Some(at)) =
                    (self.instance.input_text(node), self.nodes.get_mut(&node))
                {
                    at.text = text;
                }
                Reply::Nothing
            }
            Ask::RefreshSelect { select } => {
                if let (Some(text), Some(at)) =
                    (self.instance.select_text(select), self.nodes.get_mut(&select))
                {
                    at.text = text;
                }
                Reply::Nothing
            }
            Ask::SyncPopups => {
                self.sync_popups();
                Reply::Nothing
            }
            Ask::ScrollBy { node } => {
                for id in self.path(Some(node)).into_iter().rev() {
                    if self.scroll(id, -self.delta.1) {
                        return Reply::Scrolled { node: Some(id), viewport: false };
                    }
                }
                Reply::Scrolled { node: None, viewport: false }
            }
            Ask::Overlay { .. } => Reply::Flag(false),
            Ask::TrackMove { .. } => Reply::Flag(self.panning),
            Ask::PanBy { node } => {
                self.scroll(node, -self.delta.1);
                Reply::Nothing
            }
            Ask::Lift { .. } => Reply::Release(self.release),
            Ask::RunJobs => Reply::Tick(TickResult::default()),
            Ask::Blink => {
                let now = self.instance.blink_clock();
                let flips = now.is_some_and(|now| {
                    self.instance.advance_input_blink(now + self.blink_offset)
                });
                Reply::Flag(flips)
            }
            Ask::Coast { .. } => Reply::Coast { scrolled: self.coast.0, alive: self.coast.1 },
            Ask::Images => Reply::Images(std::mem::take(&mut self.images)),
            Ask::SendRuntime => {
                self.script.count("runtime");
                Reply::Tick(TickResult { needs_paint: true, jobs_pending: true })
            }
            Ask::SyncChecked { .. } | Ask::Reveal { .. } | Ask::Proceed { .. } => Reply::Nothing,
        }
    }

    fn run(&mut self, first: Step) -> TickResult {
        let mut step = first;
        loop {
            match step {
                Step::Done { result } => return result,
                Step::Ask { ask } => {
                    self.asks.push(ask);
                    let reply = self.answer(ask);
                    step = self.instance.step(reply);
                }
            }
        }
    }

    fn mouse(&mut self, x: f32, y: f32, event: MouseEvent) -> TickResult {
        self.pointer = (x, y);
        let step = self.instance.dispatch_mouse(event);
        self.run(step)
    }

    fn click(&mut self, x: f32, y: f32) {
        self.mouse(x, y, DOWN);
        self.mouse(x, y, UP);
    }

    fn wheel(&mut self, x: f32, y: f32, dx: f64, dy: f64) -> TickResult {
        self.pointer = (x, y);
        self.delta = (dx, dy);
        let step = self.instance.dispatch_wheel();
        self.run(step)
    }

    fn touch(&mut self, id: u64, phase: TouchPhase, x: f32, y: f32) -> TickResult {
        self.pointer = (x, y);
        let step = self.instance.dispatch_touch(TouchEvent { id, phase });
        self.run(step)
    }

    fn key_down(&mut self, event: KeyboardEvent) -> TickResult {
        self.key = event.key.clone();
        let step = self.instance.dispatch_key_down(&event);
        self.run(step)
    }

    fn key_up(&mut self, event: KeyboardEvent) -> TickResult {
        self.key = event.key.clone();
        let step = self.instance.dispatch_key_up(&event);
        self.run(step)
    }

    fn focus(&mut self, node: Option<usize>) -> TickResult {
        let step = self.instance.set_focused_node(node);
        self.run(step)
    }

    fn tick(&mut self) -> TickResult {
        let step = self.instance.tick();
        self.run(step)
    }

    fn assist(&mut self, node: usize, action: Action, value: Option<&str>) -> TickResult {
        let step = self.instance.perform_accessibility_action(node as u64, action, value);
        self.run(step)
    }

    /// The colour that the registered stylesheets give a node.
    fn color(&self, id: usize) -> Option<(u8, u8, u8)> {
        let node = self.nodes.get(&id)?;
        let mut best = 0;
        let mut color = (0, 0, 0);
        for sheet in 0..16 {
            let css = self.instance.stylesheet(StylesheetId(sheet)).unwrap_or("");
            for rule in css.split('}') {
                let Some((selector, body)) = rule.split_once('{') else {
                    continue;
                };
                let selector = selector.trim().trim_start_matches('.');
                let (class, pseudo) = selector.split_once(':').unwrap_or((selector, ""));
                let holds = match pseudo {
                    "" => true,
                    "hover" => self.path(self.hovered).contains(&id),
                    "active" => self.active.contains(&id),
                    "focus" => self.focused == Some(id),
                    other => panic!("pseudo class {other}"),
                };
                let weight = if pseudo.is_empty() { 1 } else { 2 };
                if !holds || weight < best || !node.class.split(' ').any(|c| c == class) {
                    continue;
                }
                for declaration in body.split(';') {
                    if let Some(value) = declaration.trim().strip_prefix("color:") {
                        let list = value.trim().trim_start_matches("rgb(").trim_end_matches(')');
                        let parts: Vec<u8> =
                            list.split(',').map(|p| p.trim().parse().unwrap()).collect();
                        color = (parts[0], parts[1], parts[2]);
                        best = weight;
                    }
                }
            }
        }
        Some(color)
    }
}

fn make_key_event(
    key: &str,
    code: &str,
    key_code: u32,
    repeat: bool,
    shift_key: bool,
    ctrl_key: bool,
    alt_key: bool,
    meta_key: bool,
) -> KeyboardEvent {
    KeyboardEvent {
        key: key.to_owned(),
        code: code.to_owned(),
        key_code,
        repeat,
        shift_key,
        ctrl_key,
        alt_key,
        meta_key,
    }
}

fn type_key(key: &str) -> KeyboardEvent {
    make_key_event(key, "", 0, false, false, false, false, false)
}

fn plain_key(key: &str) -> KeyboardEvent {
    make_key_event(key, key, 0, false, false, false, false, false)
}

fn alt_key(key: &str) -> KeyboardEvent {
    make_key_event(key, key, 0, false, false, false, true, false)
}

fn ctrl_key(key: &str) -> KeyboardEvent {
    make_key_event(key, key, 0, false, false, true, false, false)
}

fn ctrl_shift_key(key: &str) -> KeyboardEvent {
    make_key_event(key, key, 0, false, true, true, false, false)
}

fn tab_key(shift: bool) -> KeyboardEvent {
    make_key_event("Tab", "Tab", 9, false, shift, false, false, false)
}

fn enter_key() -> KeyboardEvent {
    make_key_event("Enter", "Enter", 13, false, false, false, false, false)
}

fn space_key() -> KeyboardEvent {
    make_key_event(" ", "Space", 32, false, false, false, false, false)
}

fn truth() -> Option<Value> {
    Some(Value::from(true))
}

fn falsehood() -> Option<Value> {
    Some(Value::from(false))
}

fn text(s: &str) -> Option<Value> {
    Some(Value::from(s))
}

fn number(n: u64) -> Option<Value> {
    Some(Value::from(n))
}

// Pointer, focus and keys.

fn mouse_click_updates_state() {
    let mut host = Host::sized(200, 200, false, &[]);
    host.element(2, CONTAINER, "div", (0.0, 0.0, 200.0, 200.0));
    host.on(2, EventName::Click, |s, _| s.set("clicked", Value::from(true)));
    assert_eq!(host.get("clicked"), None);
    assert!(host.mouse(10.0, 10.0, DOWN).needs_paint);
    assert_eq!(host.get("clicked"), truth());
    assert!(host.mouse(10.0, 10.0, DOWN).needs_paint);
    assert_eq!(host.get("clicked"), truth());
}

#[test]
fn tests_dispatch_mouse_click_updates_rust_state() {
    mouse_click_updates_state();
}

#[test]
fn instance_dispatch_mouse_click_updates_rust_state() {
    mouse_click_updates_state();
}

fn text_input() -> Host {
    let mut host = Host::sized(200, 80, false, &[]);
    host.element(2, CONTAINER, "input", (0.0, 0.0, 220.0, 40.0));
    host.on(2, EventName::Focus, |s, _| {
        s.set("focused", Value::from(true));
        s.set("lastFocus", Value::from("focus"));
    });
    host.on(2, EventName::Blur, |s, _| {
        s.set("focused", Value::from(false));
        s.set("lastBlur", Value::from("blur"));
    });
    host.on(2, EventName::Input, |s, e| {
        s.set("value", Value::from(e.value.clone().unwrap()));
        s.set("caret", Value::from(e.selection_start.unwrap()));
    });
    host.on(2, EventName::KeyDown, |s, e| {
        s.set("lastKey", Value::from(e.key.clone()));
        if let Some(start) = e.selection_start {
            s.set("caret", Value::from(start));
        }
    });
    host.on(2, EventName::KeyUp, |s, e| s.set("lastKeyUp", Value::from(e.key.clone())));
    host
}

fn keys_target_the_focused_node() {
    let mut host = text_input();
    host.mouse(10.0, 10.0, DOWN);
    assert_eq!(host.get("focused"), truth());

    host.key_down(make_key_event("A", "KeyA", 65, false, false, false, false, false));
    assert_eq!(host.get("value"), text("A"));
    assert_eq!(host.get("caret"), number(1));
    assert_eq!(host.get("lastKey"), text("A"));

    host.key_down(make_key_event("Backspace", "Backspace", 8, false, false, false, false, false));
    assert_eq!(host.get("value"), text(""));
    assert_eq!(host.get("caret"), number(0));

    host.key_up(make_key_event("A", "KeyA", 65, false, false, false, false, false));
    assert_eq!(host.get("lastKeyUp"), text("A"));

    host.mouse(500.0, 500.0, DOWN);
    assert_eq!(host.get("focused"), falsehood());

    let value_after_blur = host.get("value");
    host.key_down(make_key_event("B", "KeyB", 66, false, false, false, false, false));
    assert_eq!(host.get("value"), value_after_blur);
}

#[test]
fn tests_dispatch_key_down_and_up_target_focused_node() {
    keys_target_the_focused_node();
}

#[test]
fn instance_dispatch_key_down_and_up_target_focused_node() {
    keys_target_the_focused_node();
}

fn focus_events_update_state() {
    let mut host = text_input();
    host.mouse(10.0, 10.0, DOWN);
    assert_eq!(host.get("focused"), truth());
    assert_eq!(host.get("lastFocus"), text("focus"));

    host.mouse(500.0, 500.0, DOWN);
    assert_eq!(host.get("focused"), falsehood());
    assert_eq!(host.get("lastBlur"), text("blur"));

    host.tick();
    assert_eq!(host.get("lastBlur"), text("blur"));
}

#[test]
fn tests_dispatch_focus_events_update_host_state() {
    focus_events_update_state();
}

#[test]
fn instance_dispatch_focus_events_update_host_state() {
    focus_events_update_state();
}

fn resize_keeps_click_working() {
    let mut host = Host::with_css(&[]);
    host.element(2, CONTAINER, "button", (0.0, 0.0, 160.0, 80.0));
    host.on(2, EventName::Click, |s, _| s.count("count"));
    assert!(host.mouse(20.0, 20.0, DOWN).needs_paint);
    assert_eq!(host.get("count"), number(1));

    host.instance.resize(220, 80);
    assert_eq!(host.instance.size(), (220, 80));
    assert!(host.mouse(10.0, 10.0, DOWN).needs_paint);
    assert_eq!(host.get("count"), number(2));
}

#[test]
fn tests_resize_updates_size_and_keeps_click_working() {
    resize_keeps_click_working();
}

#[test]
fn instance_resize_updates_size_and_keeps_click_working() {
    resize_keeps_click_working();
}

fn move_updates_hover() {
    let mut host = Host::sized(200, 200, false, &[]);
    let btn = 2;
    host.element(btn, CONTAINER, "button", (0.0, 0.0, 80.0, 80.0));
    host.on(btn, EventName::MouseOver, |s, e| {
        s.count("over");
        s.set("overTarget", Value::from(e.target));
        s.set("overRelated", null_or(e.related));
    });
    host.on(btn, EventName::MouseOut, |s, e| {
        s.count("out");
        s.set("outTarget", Value::from(e.target));
        s.set("outRelated", null_or(e.related));
    });
    host.on(btn, EventName::MouseEnter, |s, e| {
        s.count("enter");
        s.set("enterCurrent", Value::from(e.target));
        s.set("enterRelated", null_or(e.related));
    });
    host.on(btn, EventName::MouseLeave, |s, e| {
        s.count("leave");
        s.set("leaveCurrent", Value::from(e.target));
        s.set("leaveRelated", null_or(e.related));
    });
    host.on(btn, EventName::Hover, |s, e| {
        s.count("hover");
        s.set("hoverCurrent", Value::from(e.target));
    });
    host.on(btn, EventName::HoverEnter, |s, e| {
        s.count("hoverEnter");
        s.set("hoverEnterRelated", null_or(e.related));
    });
    host.on(btn, EventName::HoverLeave, |s, e| {
        s.count("hoverLeave");
        s.set("hoverLeaveRelated", null_or(e.related));
    });

    assert_ne!(host.hovered, Some(btn));
    assert!(host.mouse(10.0, 10.0, MouseEvent::Move).needs_paint);
    assert_eq!(host.hovered, Some(btn));
    assert_eq!(host.get("over"), number(1));
    assert_eq!(host.get("enter"), number(1));
    assert_eq!(host.get("hover"), number(1));
    assert_eq!(host.get("hoverEnter"), number(1));
    assert_eq!(host.get("hoverCurrent"), number(2));
    assert_eq!(host.get("hoverEnterRelated"), Some(Value::Null));
    assert_eq!(host.get("overTarget"), number(2));
    assert_eq!(host.get("overRelated"), Some(Value::Null));
    assert_eq!(host.get("enterCurrent"), number(2));
    assert_eq!(host.get("enterRelated"), Some(Value::Null));

    assert!(!host.mouse(20.0, 20.0, MouseEvent::Move).needs_paint);
    assert_eq!(host.get("over"), number(1));
    assert_eq!(host.get("enter"), number(1));
    assert_eq!(host.get("hover"), number(1));
    assert_eq!(host.get("hoverEnter"), number(1));
    assert!(host.get("out").is_none());

    assert!(host.mouse(500.0, 500.0, MouseEvent::Move).needs_paint);
    assert_ne!(host.hovered, Some(btn));
    assert_eq!(host.get("out"), number(1));
    assert_eq!(host.get("leave"), number(1));
    assert_eq!(host.get("hoverLeave"), number(1));
    assert_eq!(host.get("outTarget"), number(2));
    assert_eq!(host.get("outRelated"), Some(Value::Null));
    assert_eq!(host.get("leaveCurrent"), number(2));
    assert_eq!(host.get("leaveRelated"), Some(Value::Null));
    assert_eq!(host.get("hoverLeaveRelated"), Some(Value::Null));
}

#[test]
fn tests_dispatch_mouse_move_updates_hover_state_and_handlers() {
    move_updates_hover();
}

#[test]
fn instance_dispatch_mouse_move_updates_hover_state_and_handlers() {
    move_updates_hover();
}

fn wheel_dispatches_events() {
    let mut host = Host::sized(160, 160, false, &[]);
    host.element(2, CONTAINER, "div", (0.0, 0.0, 120.0, 80.0)).content = Some(240.0);
    host.element(3, 2, "div", (0.0, 0.0, 120.0, 240.0));
    host.on(2, EventName::Wheel, |s, e| {
        s.count("wheel");
        s.sent.push(("wheel".to_owned(), e.scroll_top));
    });
    host.on(2, EventName::Scroll, |s, e| {
        s.count("scroll");
        s.set("scrollTop", Value::from(e.scroll_top));
    });
    let before_top = host.nodes[&2].scroll_top;
    assert!(host.wheel(10.0, 10.0, 0.0, 40.0).needs_paint);
    let after_top = host.nodes[&2].scroll_top;
    assert_eq!(host.get("wheel"), number(1));
    assert_eq!(host.script.sent, vec![("wheel".to_owned(), 0.0)]);
    assert!(after_top >= before_top);
}

#[test]
fn tests_dispatch_wheel_scrolls_and_dispatches_events() {
    wheel_dispatches_events();
}

#[test]
fn instance_dispatch_wheel_scrolls_and_dispatches_events() {
    wheel_dispatches_events();
}

#[test]
fn scroll_events_follow_wheel_events() {
    let mut host = Host::sized(160, 160, false, &[]);
    host.element(2, CONTAINER, "div", (0.0, 0.0, 120.0, 80.0)).content = Some(240.0);
    host.on(2, EventName::Wheel, |s, e| s.sent.push(("wheel".to_owned(), e.scroll_top)));
    host.on(2, EventName::Scroll, |s, e| s.sent.push(("scroll".to_owned(), e.scroll_top)));
    host.instance.painted();
    assert!(host.wheel(10.0, 10.0, 0.0, -40.0).needs_paint);
    assert!(host.instance.needs_paint());
    assert_eq!(host.script.sent, vec![("wheel".to_owned(), 40.0), ("scroll".to_owned(), 40.0)]);
}

// Stylesheets and what they see of the document.

fn colored(css: &[&str]) -> Host {
    let mut host = Host::with_css(css);
    host.element(2, CONTAINER, "div", (0.0, 0.0, 50.0, 50.0)).class = "tag".to_owned();
    host
}

fn class_matches_selector() {
    let host = colored(&[".tag { color: rgb(255, 0, 0) }"]);
    assert_eq!(host.color(2), Some((255, 0, 0)));
}

#[test]
fn tests_classname_normalizes_to_class_and_matches_selector() {
    class_matches_selector();
}

#[test]
fn instance_classname_normalizes_to_class_and_matches_selector() {
    class_matches_selector();
}

fn added_sheets_apply() {
    let mut host = colored(&[]);
    let baseline = host.color(2);
    let _ = host.instance.add_stylesheet(".tag { color: rgb(0, 128, 0) }");
    let after = host.color(2);
    assert_ne!(after, baseline);
    assert_eq!(after, Some((0, 128, 0)));
}

#[test]
fn tests_add_stylesheet_applies_class_rule_post_mount() {
    added_sheets_apply();
}

#[test]
fn instance_add_stylesheet_applies_class_rule_post_mount() {
    added_sheets_apply();
}

fn replaced_sheets_apply() {
    let mut host = colored(&[]);
    let id = host.instance.add_stylesheet(".tag { color: rgb(255, 0, 0) }");
    assert_eq!(host.color(2), Some((255, 0, 0)));
    assert!(host.instance.replace_stylesheet(id, ".tag { color: rgb(0, 0, 255) }").is_some());
    assert_eq!(host.color(2), Some((0, 0, 255)));
}

#[test]
fn tests_replace_stylesheet_swaps_rule() {
    replaced_sheets_apply();
}

#[test]
fn instance_replace_stylesheet_swaps_rule() {
    replaced_sheets_apply();
}

fn removed_sheets_do_not_apply() {
    let mut host = colored(&[]);
    let id = host.instance.add_stylesheet(".tag { color: rgb(255, 0, 0) }");
    assert_eq!(host.color(2), Some((255, 0, 0)));
    assert!(host.instance.remove_stylesheet(id).is_some());
    assert_ne!(host.color(2), Some((255, 0, 0)));
    assert!(host.instance.remove_stylesheet(id).is_none());
}

#[test]
fn tests_remove_stylesheet_drops_rule() {
    removed_sheets_do_not_apply();
}

#[test]
fn instance_remove_stylesheet_drops_rule() {
    removed_sheets_do_not_apply();
}

#[test]
fn upsert_stylesheet_reuses_or_recreates_id() {
    let mut host = colored(&[]);
    let stable_id = host.instance.add_stylesheet(".tag { color: rgb(255, 0, 0) }");
    let (updated_id, _) =
        host.instance.upsert_stylesheet(Some(stable_id), ".tag { color: rgb(0, 0, 255) }");
    assert_eq!(updated_id, stable_id);
    assert_eq!(host.color(2), Some((0, 0, 255)));

    let missing = StylesheetId(u64::MAX);
    let (new_id, _) =
        host.instance.upsert_stylesheet(Some(missing), ".tag { color: rgb(0, 128, 0) }");
    assert_ne!(new_id, missing);
    assert_eq!(host.color(2), Some((0, 128, 0)));
}

#[test]
fn stylesheets_hand_back_what_they_displace() {
    let mut host = colored(&["a", "b"]);
    assert_eq!(host.instance.replace_stylesheet(StylesheetId(1), "c").as_deref(), Some("b"));
    assert_eq!(host.instance.stylesheet(StylesheetId(1)), Some("c"));
    assert_eq!(host.instance.replace_stylesheet(StylesheetId(2), "d"), None);
    assert_eq!(host.instance.add_stylesheet("e"), StylesheetId(2));
    assert_eq!(host.instance.remove_stylesheet(StylesheetId(2)).as_deref(), Some("e"));
    assert_eq!(host.instance.add_stylesheet("f"), StylesheetId(3), "numbers are not reused");
    host.instance.painted();
    assert!(!host.instance.reload_imported_stylesheets(&vec![false, false]));
    assert!(!host.instance.needs_paint());
    assert!(host.instance.reload_imported_stylesheets(&vec![false, true]));
    assert!(host.instance.needs_paint());
}

#[test]
fn register_font_bytes_returns_distinct_stylesheet_ids() {
    let css = ".uses-custom { font-family: 'SoliteTestBullet'; font-size: 32px; }";
    let mut host = Host::sized(64, 64, false, &[css]);
    let face = |name: &str| format!("@font-face {{ font-family: '{name}'; }}");
    let a = host.instance.register_font_bytes(&face("SoliteTestBullet"));
    let b = host.instance.register_font_bytes(&face("SoliteTestBullet2"));
    assert_ne!(a, b);
}

fn hover_changes_color() {
    let css = ".tag { color: rgb(10, 10, 10) } .tag:hover { color: rgb(200, 200, 200) }";
    let mut host = Host::with_css(&[css]);
    host.element(2, CONTAINER, "div", (0.0, 0.0, 80.0, 80.0)).class = "tag".to_owned();
    assert_eq!(host.color(2), Some((10, 10, 10)));
    host.mouse(20.0, 20.0, MouseEvent::Move);
    assert_eq!(host.color(2), Some((200, 200, 200)));
    host.mouse(500.0, 500.0, MouseEvent::Move);
    assert_eq!(host.color(2), Some((10, 10, 10)));
}

#[test]
fn tests_hover_pseudo_class_changes_computed_color() {
    hover_changes_color();
}

#[test]
fn instance_hover_pseudo_class_changes_computed_color() {
    hover_changes_color();
}

fn hover_works_with_many_classes() {
    let css = ".btn { color: rgb(50, 50, 50) } .btn-add:hover { color: rgb(255, 0, 0) }";
    let mut host = Host::with_css(&[css]);
    host.element(2, CONTAINER, "div", (0.0, 0.0, 80.0, 80.0)).class = "btn btn-add".to_owned();
    assert_eq!(host.color(2), Some((50, 50, 50)));
    host.mouse(10.0, 10.0, MouseEvent::Move);
    assert_eq!(host.color(2), Some((255, 0, 0)));
}

#[test]
fn tests_hover_pseudo_class_works_with_multiple_class_tokens() {
    hover_works_with_many_classes();
}

#[test]
fn instance_hover_pseudo_class_works_with_multiple_class_tokens() {
    hover_works_with_many_classes();
}

fn hover_reaches_ancestors() {
    let css = ".row { color: rgb(10, 10, 10) } .row:hover { color: rgb(20, 80, 200) }";
    let mut host = Host::with_css(&[css]);
    host.element(2, CONTAINER, "div", (0.0, 0.0, 100.0, 100.0)).class = "row".to_owned();
    host.element(3, 2, "div", (10.0, 10.0, 40.0, 40.0));
    assert_eq!(host.color(2), Some((10, 10, 10)));
    host.mouse(25.0, 25.0, MouseEvent::Move);
    assert_eq!(host.instance.hovered_node_id(), Some(3));
    assert_eq!(host.color(2), Some((20, 80, 200)));
}

#[test]
fn tests_hover_flips_when_pointer_enters_nested_child() {
    hover_reaches_ancestors();
}

#[test]
fn instance_hover_flips_when_pointer_enters_nested_child() {
    hover_reaches_ancestors();
}

fn active_follows_the_press() {
    let css = ".tag { color: rgb(1, 1, 1) } .tag:active { color: rgb(222, 0, 0) }";
    let mut host = Host::with_css(&[css]);
    host.element(2, CONTAINER, "div", (0.0, 0.0, 80.0, 80.0)).class = "tag".to_owned();
    assert_eq!(host.color(2), Some((1, 1, 1)));
    host.mouse(20.0, 20.0, DOWN);
    assert_eq!(host.color(2), Some((222, 0, 0)));
    host.mouse(20.0, 20.0, UP);
    assert_eq!(host.color(2), Some((1, 1, 1)));
}

#[test]
fn tests_active_pseudo_class_flips_on_press() {
    active_follows_the_press();
}

#[test]
fn instance_active_pseudo_class_flips_on_press() {
    active_follows_the_press();
}

fn focus_follows_the_click() {
    let css = ".field { color: rgb(1, 1, 1) } .field:focus { color: rgb(200, 50, 10) }";
    let mut host = Host::with_css(&[css]);
    host.input(2, CONTAINER, "text", (0.0, 0.0, 80.0, 30.0));
    host.nodes.get_mut(&2).unwrap().class = "field".to_owned();
    assert_eq!(host.color(2), Some((1, 1, 1)));
    host.mouse(20.0, 20.0, DOWN);
    assert_eq!(host.color(2), Some((200, 50, 10)));
    host.mouse(500.0, 500.0, DOWN);
    assert_eq!(host.color(2), Some((1, 1, 1)));
}

#[test]
fn tests_focus_pseudo_class_flips_on_click() {
    focus_follows_the_click();
}

#[test]
fn instance_focus_pseudo_class_flips_on_click() {
    focus_follows_the_click();
}

// Scrolling.

fn scrollable() -> Host {
    let mut host = Host::with_css(&[]);
    host.element(2, CONTAINER, "div", (0.0, 0.0, 100.0, 80.0)).content = Some(480.0);
    host.element(3, 2, "div", (0.0, 0.0, 100.0, 480.0));
    host
}

fn thumb_drag_scrolls() {
    let mut host = scrollable();
    let (thumb, _) = host.bars(2);
    let (x, y) = (thumb.0 + thumb.2 * 0.5, thumb.1 + thumb.3 * 0.5);
    host.mouse(x, y, DOWN);
    host.mouse(x, y + 30.0, MouseEvent::Move);
    let scrolled = host.nodes[&2].scroll_top;
    assert!(scrolled > 0.0, "expected scroll to advance, got {scrolled}");
    host.mouse(x, y + 30.0, UP);
    host.mouse(x, y + 40.0, MouseEvent::Move);
    assert_eq!(host.nodes[&2].scroll_top, scrolled, "the drag is over");
}

#[test]
fn tests_scrollbar_thumb_drag_moves_scroll_offset() {
    thumb_drag_scrolls();
}

#[test]
fn instance_scrollbar_thumb_drag_moves_scroll_offset() {
    thumb_drag_scrolls();
}

fn track_click_pages() {
    let mut host = scrollable();
    let (thumb, track) = host.bars(2);
    host.mouse(track.0 + track.2 * 0.5, thumb.1 + thumb.3 + 5.0, DOWN);
    let after = host.nodes[&2].scroll_top;
    assert!(after > 0.0, "expected page-down to advance scroll, got {after}");
}

#[test]
fn tests_track_click_pages_scroll_offset() {
    track_click_pages();
}

#[test]
fn instance_track_click_pages_scroll_offset() {
    track_click_pages();
}

fn document_scrolls() {
    let mut host = Host::sized(200, 200, true, &[]);
    host.element(2, CONTAINER, "div", (0.0, 0.0, 200.0, 600.0));
    assert_eq!(host.instance.container_height().as_deref(), Some("200px"));
    host.nodes.get_mut(&CONTAINER).unwrap().content = Some(600.0);
    let before = host.nodes[&CONTAINER].scroll_top;
    assert!(host.wheel(10.0, 10.0, 0.0, -40.0).needs_paint);
    let after = host.nodes[&CONTAINER].scroll_top;
    assert!(after > before, "expected the document to scroll ({before}, {after})");
}

#[test]
fn tests_document_scroll_scrolls_root_container() {
    document_scrolls();
}

#[test]
fn instance_document_scroll_scrolls_root_container() {
    document_scrolls();
}

// Inputs.

fn input_takes_keys() {
    let mut host = Host::with_css(&[]);
    host.element(2, CONTAINER, "input", (0.0, 0.0, 200.0, 40.0));
    host.on(2, EventName::Input, |s, e| {
        s.set("value", Value::from(e.value.clone().unwrap()));
        s.set("caret", Value::from(e.selection_start.unwrap()));
    });
    host.mouse(10.0, 10.0, DOWN);
    host.key_down(type_key("h"));
    host.key_down(type_key("i"));
    assert_eq!(host.get("value"), text("hi"));
    assert_eq!(host.get("caret"), number(2));
    host.key_down(type_key("Backspace"));
    assert_eq!(host.get("value"), text("h"));
    assert_eq!(host.get("caret"), number(1));
    host.key_down(type_key("ArrowLeft"));
    assert_eq!(host.get("caret"), number(1));
    host.key_down(type_key("a"));
    assert_eq!(host.get("value"), text("ah"));
    assert_eq!(host.get("caret"), number(1));
}

#[test]
fn tests_input_element_routes_keys_to_rust_owned_value() {
    input_takes_keys();
}

#[test]
fn instance_input_element_routes_keys_to_rust_owned_value() {
    input_takes_keys();
}

fn tab_moves_between_inputs() {
    let mut host = Host::with_css(&[]);
    host.element(2, CONTAINER, "input", (0.0, 0.0, 200.0, 24.0));
    host.element(3, CONTAINER, "input", (0.0, 24.0, 200.0, 24.0));
    host.on(2, EventName::Focus, |s, _| s.set("focused", Value::from("first")));
    host.on(2, EventName::Input, |s, e| s.set("firstValue", Value::from(e.value.clone())));
    host.on(3, EventName::Focus, |s, _| s.set("focused", Value::from("second")));
    host.on(3, EventName::Input, |s, e| s.set("secondValue", Value::from(e.value.clone())));
    host.mouse(10.0, 10.0, DOWN);
    assert_eq!(host.get("focused"), text("first"));
    host.key_down(tab_key(false));
    assert_eq!(host.get("focused"), text("second"));
    host.key_down(type_key("x"));
    assert_eq!(host.get("firstValue"), None);
    assert_eq!(host.get("secondValue"), text("x"));
    host.key_down(tab_key(true));
    assert_eq!(host.get("focused"), text("first"));
    host.key_down(type_key("y"));
    assert_eq!(host.get("firstValue"), text("y"));
    assert_eq!(host.get("secondValue"), text("x"));
}

#[test]
fn tests_tab_moves_focus_between_native_inputs() {
    tab_moves_between_inputs();
}

#[test]
fn instance_tab_moves_focus_between_native_inputs() {
    tab_moves_between_inputs();
}

fn option(value: &str, label: &str, disabled: bool) -> SelectOption {
    SelectOption { label: label.to_owned(), value: value.to_owned(), disabled }
}

#[test]
fn tab_commits_open_select_and_advances_focus() {
    let mut host = Host::with_css(&[]);
    host.element(2, CONTAINER, "input", (0.0, 0.0, 200.0, 24.0));
    host.element(3, CONTAINER, "select", (0.0, 24.0, 200.0, 24.0));
    host.element(4, CONTAINER, "input", (0.0, 48.0, 200.0, 24.0));
    let options =
        vec![option("", "Choose..", true), option("one", "One", false), option("two", "Two", false)];
    host.instance.register_select(3, SelectState::new(options, Some(0)));
    host.on(2, EventName::Focus, |s, _| s.set("focused", Value::from("first")));
    host.on(3, EventName::Focus, |s, _| s.set("focused", Value::from("select")));
    host.on(3, EventName::Change, |s, e| s.set("selectValue", Value::from(e.value.clone())));
    host.on(4, EventName::Focus, |s, _| s.set("focused", Value::from("second")));
    host.mouse(10.0, 10.0, DOWN);
    assert_eq!(host.get("focused"), text("first"));
    host.key_down(tab_key(false));
    assert_eq!(host.get("focused"), text("select"));
    host.key_down(enter_key());
    host.key_down(plain_key("ArrowDown"));
    host.key_down(tab_key(false));
    assert_eq!(host.get("selectValue"), text("two"));
    assert_eq!(host.get("focused"), text("second"));
}

fn choices() -> Host {
    let mut host = Host::with_css(&[]);
    host.element(2, CONTAINER, "select", (0.0, 0.0, 200.0, 24.0));
    let options = vec![
        option("", "Choose..", true),
        option("first", "First", false),
        option("second", "Second", false),
    ];
    host.instance.register_select(2, SelectState::new(options, Some(0)));
    host.on(2, EventName::Change, |s, e| s.set("selectValue", Value::from(e.value.clone())));
    host
}

#[test]
fn open_select_arrow_enter_and_escape_match_keyboard_behavior() {
    let mut host = choices();
    host.mouse(10.0, 10.0, DOWN);
    let select = host.instance.select(2).expect("select state");
    assert!(select.is_open());
    assert_eq!(select.active_index(), Some(1));
    assert_eq!(select.selected_index(), Some(0));

    host.key_down(plain_key("ArrowDown"));
    let select = host.instance.select(2).expect("select state");
    assert_eq!(select.active_index(), Some(2));
    assert_eq!(select.selected_index(), Some(0));

    host.key_down(plain_key("Escape"));
    let select = host.instance.select(2).expect("select state");
    assert!(!select.is_open());
    assert_eq!(select.selected_index(), Some(0));
    assert_eq!(host.get("selectValue"), None);

    host.mouse(10.0, 10.0, DOWN);
    host.key_down(plain_key("ArrowDown"));
    host.key_down(enter_key());
    let select = host.instance.select(2).expect("select state");
    assert!(!select.is_open());
    assert_eq!(select.selected_index(), Some(2));
    assert_eq!(host.get("selectValue"), text("second"));
}

#[test]
fn options_are_chosen_with_the_pointer() {
    let mut host = choices();
    host.mouse(10.0, 10.0, DOWN);
    host.mouse(10.0, 70.0, MouseEvent::Move);
    assert_eq!(host.instance.select(2).unwrap().active_index(), Some(2));
    host.mouse(10.0, 30.0, DOWN);
    assert!(host.instance.select(2).unwrap().is_open(), "a disabled option swallows the press");
    assert_eq!(host.get("selectValue"), None);
    host.mouse(10.0, 50.0, DOWN);
    let select = host.instance.select(2).unwrap();
    assert!(!select.is_open());
    assert_eq!(select.selected_index(), Some(1));
    assert_eq!(select.popup_root(), None);
    assert_eq!(host.get("selectValue"), text("first"));
    assert_eq!(host.nodes[&2].text, "First");
    host.mouse(10.0, 10.0, DOWN);
    assert_eq!(host.instance.classify_hit(Some(2002)), Hit::Choice { node: 2002, select: 2, index: 1 });
    host.mouse(500.0, 500.0, DOWN);
    assert!(!host.instance.select(2).unwrap().is_open(), "a press elsewhere closes the popup");
}

#[test]
fn radio_arrow_keys_move_selection_and_focus() {
    let mut host = Host::with_css(&[]);
    for (id, name) in [(2, "r1"), (3, "r2"), (4, "r3")] {
        host.input(id, CONTAINER, "radio", (0.0, 20.0 * (id - 2) as f32, 20.0, 20.0));
        host.edit_input(id, |s| s.set_name(Some("group-a".to_owned())));
        host.on(id, EventName::Focus, move |s, _| s.set("focused", Value::from(name)));
        host.on(id, EventName::Input, move |s, e| {
            if e.checked {
                s.set("selected", Value::from(name));
            }
        });
    }
    host.mouse(10.0, 10.0, DOWN);
    assert_eq!(host.get("focused"), text("r1"));
    assert_eq!(host.get("selected"), text("r1"));
    host.key_down(plain_key("ArrowRight"));
    assert_eq!(host.get("focused"), text("r2"));
    assert_eq!(host.get("selected"), text("r2"));
    host.key_down(plain_key("ArrowLeft"));
    assert_eq!(host.get("focused"), text("r1"));
    assert_eq!(host.get("selected"), text("r1"));
    host.key_down(plain_key("End"));
    assert_eq!(host.get("selected"), text("r3"));
    host.key_down(plain_key("ArrowDown"));
    assert_eq!(host.get("selected"), text("r1"), "the arrows wrap round");
}

fn single_input() -> Host {
    let mut host = Host::with_css(&[]);
    host.element(2, CONTAINER, "input", (0.0, 0.0, 200.0, 40.0));
    host.mouse(10.0, 10.0, DOWN);
    host
}

fn caret_is_shown_where_it_is() {
    let mut host = single_input();
    host.key_down(type_key("h"));
    host.key_down(type_key("i"));
    assert_eq!(host.nodes[&2].text, "hi");
    let end = host.instance.render_text(2).unwrap();
    assert_eq!(end.text, "hi");
    host.key_down(type_key("ArrowLeft"));
    assert_eq!(host.nodes[&2].text, "hi");
    let mid = host.instance.render_text(2).unwrap();
    assert!(mid.caret_byte < end.caret_byte, "expected caret to move left");
    host.key_down(type_key(" "));
    assert_eq!(host.nodes[&2].text, "h i");
    host.key_down(type_key("a"));
    assert_eq!(host.nodes[&2].text, "h ai");
}

#[test]
fn tests_input_space_and_caret_movement_refresh_rendered_caret() {
    caret_is_shown_where_it_is();
}

#[test]
fn instance_input_space_and_caret_movement_refresh_rendered_caret() {
    caret_is_shown_where_it_is();
}

fn numbers_take_numbers() {
    let mut host = Host::with_css(&[]);
    host.input(2, CONTAINER, "number", (0.0, 0.0, 200.0, 40.0));
    host.on(2, EventName::Input, |s, e| s.set("value", Value::from(e.value.clone())));
    host.mouse(10.0, 10.0, DOWN);
    for key in ["1", "2", ".", "3"] {
        host.key_down(type_key(key));
    }
    assert_eq!(host.get("value"), text("12.3"));
    host.key_down(type_key("a"));
    assert_eq!(host.get("value"), text("12.3"));
}

#[test]
fn tests_input_number_restricts_to_numeric_chars() {
    numbers_take_numbers();
}

#[test]
fn instance_input_number_restricts_to_numeric_chars() {
    numbers_take_numbers();
}

/// Where a text of glyphs of unequal widths is selected.
fn selected_extent(shown: &str, start_byte: usize, end_byte: usize) -> (f32, f32) {
    let width = |s: &str| s.chars().map(|c| if "il".contains(c) { 3.0 } else { 9.0 }).sum::<f32>();
    (width(&shown[..start_byte]), width(&shown[start_byte..end_byte]))
}

fn assert_input_selection_matches_layout(kind: &str, typed: &str, anchor: usize, focus: usize) {
    let mut host = Host::with_css(&[]);
    host.input(2, CONTAINER, kind, (0.0, 0.0, 220.0, 40.0));
    host.mouse(10.0, 10.0, DOWN);
    for ch in typed.chars() {
        host.key_down(type_key(&ch.to_string()));
    }
    host.edit_input(2, |state| state.set_selection(anchor, focus));
    let span = host.instance.selection_to_paint().expect("selection overlay");
    assert_eq!(span.node, 2);
    let shown = host.instance.input(2).unwrap().render(true).0;
    let from = char_index_to_byte_index(&shown, anchor);
    let to = char_index_to_byte_index(&shown, focus);
    let expected = selected_extent(&shown, from, to);
    let actual = selected_extent(&shown, span.start_byte, span.end_byte);
    assert!((actual.0 - expected.0).abs() < 0.01, "x mismatch");
    assert!((actual.1 - expected.1).abs() < 0.01, "width mismatch");
    assert_eq!((span.start_chars, span.end_chars), (anchor, focus));
    let exact: usize = if kind == "password" { 3 } else { 1 };
    assert_eq!((span.start_byte, span.end_byte), (anchor * exact, focus * exact));
}

#[test]
fn input_text_selection_uses_layout_geometry() {
    assert_input_selection_matches_layout("text", "illWWWtext", 2, 7);
}

#[test]
fn input_password_selection_uses_masked_layout_geometry() {
    assert_input_selection_matches_layout("password", "supersecret", 1, 8);
}

fn slider() -> Host {
    let mut host = Host::with_css(&[]);
    host.input(2, CONTAINER, "range", (0.0, 0.0, 200.0, 40.0));
    host.edit_input(2, |s| {
        s.set_min(Some(0f64.to_bits()));
        s.set_max(Some(10f64.to_bits()));
        s.set_step(Some(2f64.to_bits()));
        assert!(s.set_value("4"));
        s.store_number("4");
    });
    host.on(2, EventName::Input, |s, e| s.set("value", Value::from(e.value.clone())));
    host
}

fn slider_steps() {
    let mut host = slider();
    assert_eq!(host.instance.input_text(2), None);
    host.mouse(100.0, 10.0, DOWN);
    host.mouse(100.0, 10.0, UP);
    for (key, value) in
        [("Home", "0"), ("ArrowRight", "2"), ("ArrowRight", "4"), ("ArrowLeft", "2"), ("End", "10")]
    {
        host.key_down(type_key(key));
        assert_eq!(host.get("value"), text(value));
        assert_eq!(host.instance.input_value(2).as_deref(), Some(value));
    }
}

#[test]
fn tests_input_range_responds_to_step_and_extremes() {
    slider_steps();
}

#[test]
fn instance_input_range_responds_to_step_and_extremes() {
    slider_steps();
}

#[test]
fn sliders_follow_the_pointer_until_it_is_released() {
    let mut host = slider();
    host.mouse(0.0, 10.0, DOWN);
    assert_eq!(host.get("value"), text("0"));
    host.mouse(80.0, 500.0, MouseEvent::Move);
    assert_eq!(host.get("value"), text("4"));
    host.mouse(80.0, 500.0, UP);
    host.mouse(10.0, 10.0, MouseEvent::Move);
    assert_eq!(host.get("value"), text("4"));
}

fn checks_toggle() {
    let mut host = Host::with_css(&[]);
    host.input(2, CONTAINER, "checkbox", (0.0, 0.0, 20.0, 20.0));
    host.input(3, CONTAINER, "radio", (0.0, 20.0, 20.0, 20.0));
    host.input(4, CONTAINER, "radio", (0.0, 40.0, 20.0, 20.0));
    host.edit_input(3, |s| s.set_name(Some("group-a".to_owned())));
    host.edit_input(4, |s| s.set_name(Some("group-a".to_owned())));
    host.on(2, EventName::Input, |s, e| s.set("checkbox", Value::from(e.checked)));
    host.mouse(10.0, 10.0, DOWN);
    assert_eq!(host.get("checkbox"), truth());
    host.key_down(type_key("Space"));
    assert_eq!(host.get("checkbox"), falsehood());
    host.mouse(10.0, 10.0, DOWN);
    assert_eq!(host.get("checkbox"), truth());

    host.mouse(4.0, 24.0, DOWN);
    host.key_down(type_key(" "));
    assert_eq!(host.instance.input_value(3).as_deref(), Some("on"));
    assert_eq!(host.instance.input_value(4).as_deref(), Some("off"));
    host.mouse(4.0, 44.0, DOWN);
    host.key_down(type_key(" "));
    assert_eq!(host.instance.input_value(3).as_deref(), Some("off"));
    assert_eq!(host.instance.input_value(4).as_deref(), Some("on"));
}

#[test]
fn tests_input_checkbox_and_radio_types_toggle() {
    checks_toggle();
}

#[test]
fn instance_input_checkbox_and_radio_types_toggle() {
    checks_toggle();
}

fn named_space_is_space() {
    let mut host = single_input();
    host.key_down(type_key("Space"));
    assert_eq!(host.instance.input_value(2), Some(" ".into()));
}

#[test]
fn tests_input_named_space_key_is_treated_as_space() {
    named_space_is_space();
}

#[test]
fn instance_input_named_space_key_is_treated_as_space() {
    named_space_is_space();
}

fn values_are_seeded() {
    let mut host = Host::with_css(&[]);
    host.element(2, CONTAINER, "input", (0.0, 0.0, 200.0, 40.0));
    host.edit_input(2, |s| {
        s.set_value("preset");
    });
    assert_eq!(host.instance.input_value(2).as_deref(), Some("preset"));
    let step = host.instance.set_input_value(2, "from-host");
    assert!(step.is_some());
    host.run(step.unwrap());
    assert_eq!(host.instance.input_value(2).as_deref(), Some("from-host"));
    assert!(host.instance.set_input_value(9, "nowhere").is_none());
}

#[test]
fn tests_input_value_attribute_seeds_rust_state() {
    values_are_seeded();
}

#[test]
fn instance_input_value_attribute_seeds_rust_state() {
    values_are_seeded();
}

fn keydown_sees_the_value() {
    let mut host = Host::with_css(&[]);
    host.element(2, CONTAINER, "input", (0.0, 0.0, 200.0, 40.0));
    host.on(2, EventName::KeyDown, |s, e| {
        s.set("observedValue", Value::from(e.value.clone()));
        s.set("observedKey", Value::from(e.key.clone()));
    });
    host.mouse(10.0, 10.0, DOWN);
    host.key_down(type_key("z"));
    assert_eq!(host.get("observedKey"), text("z"));
    assert!(host.get("observedValue").is_some());
    assert_eq!(host.get("observedValue"), text("z"), "the edit comes before the handler");
}

#[test]
fn tests_keydown_handler_sees_event_value() {
    keydown_sees_the_value();
}

#[test]
fn instance_keydown_handler_sees_event_value() {
    keydown_sees_the_value();
}

fn caret_blinks() {
    let mut host = Host::with_css(&[]);
    host.element(2, CONTAINER, "input", (0.0, 0.0, 200.0, 40.0));
    host.edit_input(2, |s| {
        s.set_value("hi");
    });
    host.mouse(10.0, 10.0, DOWN);
    assert_eq!(host.instance.caret_owner(), Some(2), "expected visible caret overlay");
    assert_eq!(host.nodes[&2].text, "hi");
    host.blink_offset = 600_000_000;
    host.tick();
    assert_eq!(host.instance.caret_owner(), None, "expected hidden caret overlay after blink");
}

#[test]
fn tests_blink_toggles_visible_text_on_tick() {
    caret_blinks();
}

#[test]
fn instance_blink_toggles_visible_text_on_tick() {
    caret_blinks();
}

// Images.

fn run_img_test(src_url: &str) -> Vec<String> {
    let mut host = Host::sized(64, 64, false, &[]);
    host.element(2, CONTAINER, "img", (0.0, 0.0, 0.0, 0.0));
    host.on(2, EventName::Load, |s, e| s.sent.push(("img:load".to_owned(), e.target as f64)));
    host.on(2, EventName::Error, |s, e| s.sent.push(("img:error".to_owned(), e.target as f64)));
    let loads = src_url.starts_with("data:");
    host.images =
        vec![if loads { ImgEvent::Load { node: 2 } } else { ImgEvent::Error { node: 2 } }];
    host.tick();
    host.script.sent.iter().map(|(name, _)| name.clone()).collect()
}

#[test]
fn missing_img_src_dispatches_error_event() {
    let names = run_img_test("file:///tmp/solite-does-not-exist-12345.png");
    assert!(names.contains(&"img:error".to_owned()), "expected img:error, got {names:?}");
    assert!(!names.contains(&"img:load".to_owned()), "did not expect img:load, got {names:?}");
}

#[test]
fn loaded_images_are_told() {
    let names = run_img_test("data:image/png;base64,");
    assert_eq!(names, vec!["img:load".to_owned()]);
}

// Keyboard navigation.

fn focusables(list: &[(&str, Option<i32>, bool)]) -> Host {
    let mut host = Host::sized(320, 160, false, &[]);
    for (i, (tag, tabindex, disabled)) in list.iter().enumerate() {
        let node = host.element(2 + i, CONTAINER, tag, (0.0, 20.0 * i as f32, 100.0, 20.0));
        node.tabindex = *tabindex;
        node.disabled = *disabled;
    }
    host
}

fn kb_nav() -> Host {
    let mut host = focusables(&[("input", None, false), ("input", None, false), ("button", None, false)]);
    host.on(4, EventName::Click, |s, _| s.count("clicked"));
    host.script.set("clicked", Value::from(0u64));
    host.tick();
    host
}

fn focused_tag(host: &Host) -> Option<String> {
    Some(host.nodes[&host.instance.focused_node_id()?].tag.clone())
}

#[test]
fn tab_walks_inputs_and_buttons_in_doc_order() {
    let mut host = kb_nav();
    host.key_down(tab_key(false));
    assert_eq!(focused_tag(&host).as_deref(), Some("input"));
    host.key_down(tab_key(false));
    assert_eq!(focused_tag(&host).as_deref(), Some("input"));
    host.key_down(tab_key(false));
    assert_eq!(focused_tag(&host).as_deref(), Some("button"));
    host.key_down(tab_key(true));
    assert_eq!(focused_tag(&host).as_deref(), Some("input"));
}

#[test]
fn automatic_tab_order_walks_all_default_focusables_in_doc_order() {
    let mut host = focusables(&[
        ("input", None, false),
        ("button", None, false),
        ("select", None, false),
        ("a", None, false),
        ("div", None, false),
    ]);
    host.nodes.get_mut(&5).unwrap().href = true;
    host.instance.register_select(4, SelectState::new(vec![option("a", "A", false)], Some(0)));
    for (expected, shift) in
        [(2, false), (3, false), (4, false), (5, false), (2, false), (5, true), (4, true)]
    {
        host.key_down(tab_key(shift));
        assert_eq!(host.instance.focused_node_id(), Some(expected));
    }
}

#[test]
fn anchor_without_href_is_not_in_automatic_tab_order() {
    let mut host = focusables(&[("input", None, false), ("a", None, false), ("a", None, false)]);
    host.nodes.get_mut(&4).unwrap().href = true;
    host.key_down(tab_key(false));
    assert_eq!(host.instance.focused_node_id(), Some(2));
    host.key_down(tab_key(false));
    assert_eq!(
        host.instance.focused_node_id(),
        Some(4),
        "<a> without href must NOT receive Tab focus"
    );
}

#[test]
fn disabled_default_focusable_is_skipped_by_automatic_tab_order() {
    let mut host = focusables(&[
        ("input", None, false),
        ("input", None, true),
        ("button", None, true),
        ("input", None, false),
    ]);
    host.key_down(tab_key(false));
    assert_eq!(host.instance.focused_node_id(), Some(2));
    host.key_down(tab_key(false));
    assert_eq!(
        host.instance.focused_node_id(),
        Some(5),
        "disabled input and disabled button must both be skipped"
    );
}

#[test]
fn tabindex_negative_skips_element_from_tab_order() {
    let mut host =
        focusables(&[("input", None, false), ("input", Some(-1), false), ("input", None, false)]);
    host.key_down(tab_key(false));
    assert_eq!(host.instance.focused_node_id(), Some(2));
    host.key_down(tab_key(false));
    assert_eq!(host.instance.focused_node_id(), Some(4), "tabindex=-1 input must be skipped");
}

#[test]
fn positive_tabindex_takes_priority_over_doc_order() {
    let mut host =
        focusables(&[("input", None, false), ("input", Some(2), false), ("input", Some(1), false)]);
    for expected in [4, 3, 2] {
        host.key_down(tab_key(false));
        assert_eq!(host.instance.focused_node_id(), Some(expected));
    }
}

#[test]
fn enter_on_focused_button_fires_click() {
    let mut host = kb_nav();
    host.focus(Some(4));
    host.key_down(enter_key());
    assert_eq!(host.get("clicked"), number(1));
}

#[test]
fn space_keyup_on_focused_button_fires_click() {
    let mut host = kb_nav();
    host.focus(Some(4));
    host.key_down(space_key());
    assert_eq!(host.get("clicked"), number(0));
    host.key_up(space_key());
    assert_eq!(host.get("clicked"), number(1));
}

#[test]
fn ctrl_left_via_dispatch_key_works_end_to_end() {
    let mut host = Host::sized(320, 80, false, &[]);
    host.input(2, CONTAINER, "text", (0.0, 0.0, 100.0, 20.0));
    host.edit_input(2, |s| {
        s.set_value("hello world");
    });
    host.focus(Some(2));
    assert_eq!(host.instance.input(2).unwrap().caret(), 11);
    host.key_down(ctrl_key("ArrowLeft"));
    assert_eq!(host.instance.input(2).unwrap().caret(), 6);
    host.key_down(ctrl_shift_key("ArrowLeft"));
    let state = host.instance.input(2).unwrap();
    assert_eq!(state.selection_start(), 0);
    assert_eq!(state.selection_end(), 6);
}

fn select_nav() -> Host {
    let mut host = Host::sized(240, 200, false, &[]);
    host.element(2, CONTAINER, "select", (0.0, 0.0, 100.0, 20.0));
    let labels = [
        "Apple", "Apricot", "Banana", "Blueberry", "Cherry", "Date", "Elderberry", "Fig", "Grape",
        "Honeydew", "Kiwi", "Lemon",
    ];
    let options = labels.iter().map(|l| option(&l.to_lowercase(), l, false)).collect();
    host.instance.register_select(2, SelectState::new(options, Some(0)));
    host.focus(Some(2));
    host
}

fn select_value(host: &Host) -> Option<String> {
    host.instance.select(2).and_then(|s| s.value())
}

#[test]
fn select_type_ahead_jumps_to_first_match_after_current() {
    let mut host = select_nav();
    host.key_down(plain_key("c"));
    assert_eq!(select_value(&host).as_deref(), Some("cherry"));
}

#[test]
fn select_type_ahead_b_finds_banana() {
    let mut host = select_nav();
    host.key_down(plain_key("b"));
    assert_eq!(select_value(&host).as_deref(), Some("banana"));
}

#[test]
fn select_type_ahead_cycles_on_repeat_letter() {
    let mut host = select_nav();
    host.key_down(plain_key("a"));
    assert_eq!(select_value(&host).as_deref(), Some("apricot"));
    host.key_down(plain_key("a"));
    assert_eq!(select_value(&host).as_deref(), Some("apple"));
    host.key_down(plain_key("a"));
    assert_eq!(select_value(&host).as_deref(), Some("apricot"));
}

#[test]
fn select_page_down_steps_ten() {
    let mut host = select_nav();
    host.key_down(plain_key("PageDown"));
    assert_eq!(select_value(&host).as_deref(), Some("kiwi"));
    host.key_down(plain_key("PageUp"));
    assert_eq!(select_value(&host).as_deref(), Some("apple"));
}

#[test]
fn select_alt_down_opens_dropdown() {
    let mut host = select_nav();
    assert!(!host.instance.select(2).unwrap().is_open());
    host.key_down(alt_key("ArrowDown"));
    assert!(host.instance.select(2).unwrap().is_open());
}

#[test]
fn select_alt_up_commits_and_closes() {
    let mut host = select_nav();
    host.key_down(alt_key("ArrowDown"));
    host.key_down(plain_key("ArrowDown"));
    host.key_down(alt_key("ArrowUp"));
    assert!(!host.instance.select(2).unwrap().is_open());
    assert_eq!(select_value(&host).as_deref(), Some("apricot"));
}

#[test]
fn a_select_without_options_ignores_arrows() {
    let mut host = Host::with_css(&[]);
    host.element(2, CONTAINER, "select", (0.0, 0.0, 100.0, 20.0));
    host.instance.register_select(2, SelectState::new(vec![], None));
    host.mouse(10.0, 10.0, DOWN);
    host.key_down(plain_key("ArrowDown"));
    host.key_down(plain_key("a"));
    assert!(host.instance.select(2).unwrap().is_open());
    assert_eq!(host.instance.select_snapshot(2).unwrap().value, "");
}

// A list of things to do.

#[derive(Clone, Copy, PartialEq)]
enum Filter {
    All,
    Active,
    Done,
}

struct Todos {
    items: Vec<(usize, String, bool)>,
    draft: String,
    filter: Filter,
    next: usize,
}

const TODO_INPUT: usize = 10;

impl Todos {
    fn shown(&self) -> Vec<(usize, String, bool)> {
        let keep = |done: bool| match self.filter {
            Filter::All => true,
            Filter::Active => !done,
            Filter::Done => done,
        };
        self.items.iter().filter(|item| keep(item.2)).cloned().collect()
    }

    fn add(&mut self, script: &mut Script) {
        if !self.draft.is_empty() {
            self.items.push((self.next, std::mem::take(&mut self.draft), false));
            self.next += 1;
            script.writes.push((TODO_INPUT, String::new()));
        }
    }
}

struct TodoApp {
    host: Host,
    todos: Rc<RefCell<Todos>>,
}

impl TodoApp {
    fn new() -> TodoApp {
        let todos = Todos { items: vec![], draft: String::new(), filter: Filter::All, next: 1 };
        let mut host = Host::sized(540, 800, true, &[]);
        host.input(TODO_INPUT, CONTAINER, "text", (0.0, 0.0, 400.0, 40.0));
        let mut app = TodoApp { host, todos: Rc::new(RefCell::new(todos)) };
        let todos = app.todos.clone();
        app.host.on(TODO_INPUT, EventName::Input, move |_, e| {
            todos.borrow_mut().draft = e.value.clone().unwrap();
        });
        let todos = app.todos.clone();
        app.host.on(TODO_INPUT, EventName::KeyDown, move |s, e| {
            if e.key == "Enter" {
                todos.borrow_mut().add(s);
            }
        });
        app.host.nodes.get_mut(&TODO_INPUT).unwrap().class = "todo-input".to_owned();
        app.refresh();
        app
    }

    fn place(&mut self, id: usize, tag: &str, class: &str, text: &str, rect: Rect) {
        self.host.element(id, CONTAINER, tag, rect);
        let node = self.host.nodes.get_mut(&id).unwrap();
        node.class = class.to_owned();
        node.text = text.to_owned();
    }

    /// Lays the document out anew.
    fn refresh(&mut self) {
        self.host.tick();
        let gone: Vec<usize> =
            self.host.order.iter().copied().filter(|id| *id != TODO_INPUT).collect();
        for id in gone {
            self.host.nodes.remove(&id);
            self.host.instance.remove_input(id);
        }
        self.host.order.retain(|id| *id == TODO_INPUT);
        self.place(11, "button", "add-btn", "Add", (400.0, 0.0, 100.0, 40.0));
        let todos = self.todos.clone();
        self.host.on(11, EventName::Click, move |s, _| todos.borrow_mut().add(s));
        let filter = self.todos.borrow().filter;
        for (i, (label, wanted)) in
            [("All", Filter::All), ("Active", Filter::Active), ("Done", Filter::Done)]
                .into_iter()
                .enumerate()
        {
            let class = if filter == wanted { "chip active" } else { "chip" };
            self.place(20 + i, "button", class, label, (100.0 * i as f32, 40.0, 100.0, 40.0));
            let todos = self.todos.clone();
            self.host.on(20 + i, EventName::Click, move |_, _| {
                todos.borrow_mut().filter = wanted;
            });
        }
        self.place(30, "button", "clear-btn", "Clear completed", (400.0, 40.0, 100.0, 40.0));
        let todos = self.todos.clone();
        self.host.on(30, EventName::Click, move |_, _| {
            todos.borrow_mut().items.retain(|item| !item.2);
        });
        let shown = self.todos.borrow().shown();
        if shown.is_empty() {
            let empty = match filter {
                Filter::Done => "No completed items yet",
                _ => "Nothing here yet",
            };
            self.place(40, "div", "empty-state", empty, (0.0, 80.0, 540.0, 40.0));
        }
        for (row, (id, text, done)) in shown.into_iter().enumerate() {
            let y = 80.0 + 40.0 * row as f32;
            let class = if done { "todo-item done" } else { "todo-item" };
            self.place(100 * id, "div", class, &text, (0.0, y, 540.0, 40.0));
            self.place(100 * id + 1, "input", "todo-checkbox", "", (0.0, y, 40.0, 40.0));
            self.host.edit_input(100 * id + 1, |state| {
                state.set_input_type("checkbox");
                state.set_checked(done);
            });
            let todos = self.todos.clone();
            self.host.on(100 * id + 1, EventName::Input, move |_, e| {
                for item in todos.borrow_mut().items.iter_mut() {
                    if item.0 == id {
                        item.2 = e.checked;
                    }
                }
            });
        }
    }

    fn by_class(&self, class: &str) -> Vec<usize> {
        let has = |id: &usize| self.host.nodes[id].class.split(' ').any(|c| c == class);
        self.host.order.iter().copied().filter(has).collect()
    }

    fn click_nth_by_class(&mut self, class: &str, n: usize) {
        let rect = self.host.nodes[&self.by_class(class)[n]].rect;
        self.host.click(rect.0 + rect.2 / 2.0, rect.1 + rect.3 / 2.0);
        self.refresh();
    }

    fn click_by_class(&mut self, class: &str) {
        self.click_nth_by_class(class, 0);
    }

    fn type_text(&mut self, text: &str) {
        for ch in text.chars() {
            self.host.key_down(type_key(&ch.to_string()));
        }
        self.refresh();
    }

    fn type_and_enter(&mut self, text: &str) {
        self.type_text(text);
        self.host.key_down(enter_key());
        self.refresh();
    }

    fn visible_items(&self) -> Vec<(String, bool)> {
        let nodes = self.by_class("todo-item").into_iter().map(|id| &self.host.nodes[&id]);
        nodes.map(|n| (n.text.clone(), n.class.ends_with("done"))).collect()
    }

    fn empty_state_text(&self) -> String {
        let states = self.by_class("empty-state");
        states.first().map(|id| self.host.nodes[id].text.to_lowercase()).unwrap_or_default()
    }

    fn active_chip(&self) -> Option<String> {
        self.by_class("active").first().map(|id| self.host.nodes[id].text.clone())
    }
}

#[test]
fn full_user_flow_create_filter_toggle_clear() {
    let mut app = TodoApp::new();
    assert!(app.visible_items().is_empty());
    assert_eq!(app.active_chip().as_deref(), Some("All"));
    assert!(app.empty_state_text().contains("nothing here"));

    app.click_by_class("todo-input");
    app.type_and_enter("buy milk");
    app.type_and_enter("walk dog");
    app.type_text("write report");
    app.click_by_class("add-btn");

    let items = app.visible_items();
    assert_eq!(items.len(), 3, "three items after adding");
    assert_eq!(
        items.iter().map(|(t, _)| t.as_str()).collect::<Vec<_>>(),
        vec!["buy milk", "walk dog", "write report"]
    );
    assert!(items.iter().all(|(_, done)| !done), "all start undone");

    app.click_by_class("chip");
    app.click_nth_by_class("chip", 1);
    assert_eq!(app.active_chip().as_deref(), Some("Active"));
    assert_eq!(app.visible_items().len(), 3, "active = 3 when nothing done");

    app.click_nth_by_class("chip", 2);
    assert_eq!(app.active_chip().as_deref(), Some("Done"));
    assert!(app.visible_items().is_empty(), "done filter shows no items before toggling");
    assert!(
        app.empty_state_text().contains("no completed"),
        "empty state should describe completed filter"
    );

    app.click_nth_by_class("chip", 0);
    assert_eq!(app.active_chip().as_deref(), Some("All"));
    assert_eq!(app.visible_items().len(), 3);

    app.click_nth_by_class("todo-checkbox", 0);
    app.click_nth_by_class("todo-checkbox", 2);
    let items = app.visible_items();
    assert_eq!(items.len(), 3);
    assert!(items[0].1, "buy milk done");
    assert!(!items[1].1, "walk dog not done");
    assert!(items[2].1, "write report done");

    app.click_nth_by_class("chip", 1);
    let active_items = app.visible_items();
    assert_eq!(active_items.len(), 1, "active = 1 after marking two done");
    assert_eq!(active_items[0].0, "walk dog");

    app.click_nth_by_class("chip", 2);
    let done_items = app.visible_items();
    assert_eq!(done_items.len(), 2);
    let done_texts: Vec<&str> = done_items.iter().map(|(t, _)| t.as_str()).collect();
    assert!(done_texts.contains(&"buy milk"));
    assert!(done_texts.contains(&"write report"));

    app.click_nth_by_class("chip", 0);
    app.click_by_class("clear-btn");
    let remaining = app.visible_items();
    assert_eq!(remaining.len(), 1, "clear completed leaves only undone");
    assert_eq!(remaining[0].0, "walk dog");
    assert!(!remaining[0].1, "remaining item is not done");

    app.click_nth_by_class("chip", 2);
    assert!(app.visible_items().is_empty());
    assert!(app.empty_state_text().contains("no completed"));
}

#[test]
fn add_button_click_fires_handler_and_updates_signals() {
    let mut app = TodoApp::new();
    assert_eq!(app.todos.borrow().draft, "");
    assert_eq!(app.todos.borrow().items.len(), 0);

    app.click_by_class("todo-input");
    app.type_text("tea");
    assert_eq!(
        app.todos.borrow().draft,
        "tea",
        "draft signal must mirror typed text after the user types"
    );

    app.click_by_class("add-btn");
    assert_eq!(app.todos.borrow().items.len(), 1, "todoCount should be 1 after clicking Add");
    assert_eq!(app.todos.borrow().draft, "", "draft signal should clear after Add");
}

#[test]
fn clicking_add_button_via_scene_grows_the_list() {
    let mut app = TodoApp::new();
    app.click_by_class("todo-input");
    app.type_text("milk");
    app.click_by_class("add-btn");
    let items = app.visible_items();
    assert_eq!(items.len(), 1, "clicking Add via Scene should add exactly one item");
    assert_eq!(items[0].0, "milk");
}

// Scripts that change the document.

fn two_instances_are_independent() {
    let mut a = Host::sized(140, 140, false, &[]);
    a.element(2, CONTAINER, "div", (0.0, 0.0, 200.0, 200.0));
    a.on(2, EventName::Click, |s, _| s.set("clicked", Value::from(true)));
    let mut b = Host::sized(140, 140, false, &[]);
    b.element(2, CONTAINER, "button", (0.0, 0.0, 160.0, 80.0));
    b.on(2, EventName::Click, |s, _| s.count("count"));

    assert!(a.mouse(10.0, 10.0, DOWN).needs_paint);
    assert!(b.mouse(10.0, 10.0, DOWN).needs_paint);
    assert_eq!(a.get("clicked"), truth());
    assert_eq!(b.get("count"), number(1));

    a.instance.resize(120, 120);
    assert_eq!(a.instance.size(), (120, 120));
    assert_eq!(b.instance.size(), (140, 140));
    assert!(a.mouse(8.0, 8.0, DOWN).needs_paint);
}

#[test]
fn tests_two_instances_share_device_and_keep_state_independent() {
    two_instances_are_independent();
}

#[test]
fn instance_two_instances_share_device_and_keep_state_independent() {
    two_instances_are_independent();
}

fn clicks_grow_a_list() {
    let mut host = Host::sized(200, 200, false, &[]);
    host.element(2, CONTAINER, "div", (0.0, 0.0, 200.0, 200.0));
    host.element(3, 2, "button", (0.0, 0.0, 100.0, 30.0));
    host.element(4, 2, "div", (0.0, 30.0, 200.0, 0.0));
    host.script.set("listLen", Value::from(0));
    host.on(3, EventName::Click, |s, _| {
        s.count("count");
        let rows = s.state["count"].clone();
        s.set("listLen", rows);
    });
    assert_eq!(host.get("listLen"), number(0));
    for rows in 1..3 {
        host.mouse(10.0, 10.0, DOWN);
        assert_eq!(host.get("count"), number(rows));
        assert_eq!(host.get("listLen"), number(rows));
        host.element(4 + rows as usize, 4, "div", (0.0, 10.0 + 20.0 * rows as f32, 200.0, 20.0));
    }
}

#[test]
fn tests_click_triggers_reactive_list_update() {
    clicks_grow_a_list();
}

#[test]
fn instance_click_triggers_reactive_list_update() {
    clicks_grow_a_list();
}

fn wheel_handlers_change_state() {
    let mut host = Host::sized(160, 160, false, &[]);
    host.element(2, CONTAINER, "div", (0.0, 0.0, 120.0, 80.0)).content = Some(240.0);
    host.element(3, 2, "div", (0.0, 0.0, 120.0, 240.0));
    host.on(2, EventName::Wheel, |s, _| s.count("wheel"));
    host.wheel(10.0, 10.0, 0.0, 40.0);
    assert_eq!(host.get("wheel"), number(1));
}

#[test]
fn tests_dispatch_wheel_with_reactive_effect_does_not_panic_on_doc_borrow() {
    wheel_handlers_change_state();
}

#[test]
fn instance_dispatch_wheel_with_reactive_effect_does_not_panic_on_doc_borrow() {
    wheel_handlers_change_state();
}

fn rows_change_color_under_the_pointer() {
    let css = ".row { color: rgb(50, 50, 50) } \
               .row-even { background: rgb(20, 20, 20) } \
               .row:hover { color: rgb(255, 0, 0) }";
    let mut host = Host::with_css(&[css]);
    host.element(2, CONTAINER, "div", (0.0, 0.0, 120.0, 120.0));
    host.element(3, 2, "div", (0.0, 0.0, 120.0, 40.0)).class = "row row-even".to_owned();
    host.element(4, 2, "div", (0.0, 40.0, 120.0, 40.0)).class = "row row-odd".to_owned();
    assert_eq!(host.color(3), Some((50, 50, 50)));
    host.mouse(20.0, 10.0, MouseEvent::Move);
    assert_eq!(host.color(3), Some((255, 0, 0)));
}

#[test]
fn tests_hover_via_solid_setprop_on_class_works() {
    rows_change_color_under_the_pointer();
}

#[test]
fn instance_hover_via_solid_setprop_on_class_works() {
    rows_change_color_under_the_pointer();
}

fn buttons_change_color_under_the_pointer() {
    const CSS: &str = r#"
            .panel { display: block; width: 200px; padding: 10px; background: #182238; }
            .btn { display: inline-block; padding: 8px 10px; border: 1px solid #7fb5ff; color: rgb(243, 247, 255); }
            .btn-add { background: rgb(31, 59, 95); }
            .btn-add:hover { background: rgb(91, 140, 250); color: rgb(255, 255, 255); }
        "#;
    let mut host = Host::with_css(&[CSS]);
    host.element(2, CONTAINER, "div", (0.0, 0.0, 220.0, 60.0)).class = "panel".to_owned();
    host.element(3, 2, "button", (10.0, 10.0, 80.0, 40.0)).class = "btn btn-add".to_owned();
    assert_eq!(host.color(3), Some((243, 247, 255)));
    host.mouse(20.0, 20.0, MouseEvent::Move);
    assert_eq!(host.color(3), Some((255, 255, 255)), "hover should flip color");
}

#[test]
fn tests_kitchen_sink_button_hover_flips_color() {
    buttons_change_color_under_the_pointer();
}

#[test]
fn instance_kitchen_sink_button_hover_flips_color() {
    buttons_change_color_under_the_pointer();
}

fn hovered_rows_come_and_go() {
    let css = ".row { color: rgb(50, 50, 50) } .row:hover { color: rgb(255, 0, 0) }";
    let mut host = Host::with_css(&[css]);
    host.element(2, CONTAINER, "div", (0.0, 0.0, 120.0, 240.0));
    let mut next = 3;
    let mut shown: Vec<usize> = vec![];
    for rows in [3, 5, 2] {
        for id in shown.drain(..) {
            host.nodes.remove(&id);
            host.order.retain(|at| *at != id);
        }
        for row in 0..rows {
            let rect = (0.0, 20.0 * row as f32, 120.0, 20.0);
            host.element(next, 2, "div", rect).class = "row".to_owned();
            shown.push(next);
            next += 1;
        }
        host.tick();
        host.mouse(10.0, 5.0, MouseEvent::Move);
        assert_eq!(host.color(shown[0]), Some((255, 0, 0)));
        assert_eq!(host.color(shown[1]), Some((50, 50, 50)));
    }
}

#[test]
fn tests_dynamic_subtree_with_hover_survives_remove_and_restyle() {
    hovered_rows_come_and_go();
}

#[test]
fn instance_dynamic_subtree_with_hover_survives_remove_and_restyle() {
    hovered_rows_come_and_go();
}

// What holds of every dispatch, on single cases.

#[test]
fn blur_comes_before_focus() {
    let mut host = Host::with_css(&[]);
    for id in [2, 3] {
        host.element(id, CONTAINER, "input", (0.0, 20.0 * (id - 2) as f32, 50.0, 20.0));
        host.on(id, EventName::Focus, |s, e| s.sent.push(("focus".to_owned(), e.target as f64)));
        host.on(id, EventName::Blur, |s, e| s.sent.push(("blur".to_owned(), e.target as f64)));
    }
    host.focus(Some(2));
    host.focus(Some(2));
    host.focus(Some(3));
    host.focus(None);
    let expected: Vec<(String, f64)> = [("focus", 2.0), ("blur", 2.0), ("focus", 3.0), ("blur", 3.0)]
        .iter()
        .map(|(name, node)| (name.to_string(), *node))
        .collect();
    assert_eq!(host.script.sent, expected);
    assert_eq!(host.instance.focused_node_id(), None);
    assert_eq!(host.focused, None);
}

#[test]
fn leaving_events_come_before_entering_events() {
    let mut host = Host::with_css(&[]);
    host.element(2, CONTAINER, "div", (0.0, 0.0, 50.0, 50.0));
    host.element(3, CONTAINER, "div", (50.0, 0.0, 50.0, 50.0));
    host.mouse(10.0, 10.0, MouseEvent::Move);
    host.asks.clear();
    host.mouse(60.0, 10.0, MouseEvent::Move);
    let sent: Vec<(usize, &str, Option<usize>)> = host
        .asks
        .iter()
        .filter_map(|ask| match ask {
            Ask::Send { node, event, related, .. } => Some((*node, event.as_str(), *related)),
            _ => None,
        })
        .collect();
    assert_eq!(
        sent,
        vec![
            (2, "mouseout", Some(3)),
            (2, "mouseleave", Some(3)),
            (2, "hoverleave", Some(3)),
            (3, "mouseover", Some(2)),
            (3, "mouseenter", Some(2)),
            (3, "hover", Some(2)),
            (3, "hoverenter", Some(2)),
            (3, "mousemove", None),
        ]
    );
}

#[test]
fn only_painting_clears_the_mark() {
    let mut host = Host::with_css(&[]);
    host.element(2, CONTAINER, "div", (0.0, 0.0, 50.0, 50.0));
    assert!(host.instance.needs_paint(), "the first frame is always painted");
    assert!(host.tick().needs_paint);
    host.instance.painted();
    assert!(!host.tick().needs_paint);
    host.mouse(10.0, 10.0, MouseEvent::Move);
    assert!(host.instance.needs_paint());
    host.mouse(11.0, 10.0, MouseEvent::Move);
    assert!(host.instance.needs_paint());
}

#[test]
fn other_buttons_have_their_own_events() {
    let mut host = Host::with_css(&[]);
    host.element(2, CONTAINER, "div", (0.0, 0.0, 50.0, 50.0));
    for event in [EventName::ContextMenu, EventName::AuxClick, EventName::MouseUp, EventName::Click] {
        host.on(2, event, move |s, _| s.count(event.as_str()));
    }
    host.mouse(10.0, 10.0, MouseEvent::Down { button: MouseButton::Right });
    host.mouse(10.0, 10.0, MouseEvent::Up { button: MouseButton::Right });
    host.mouse(10.0, 10.0, MouseEvent::Down { button: MouseButton::Middle });
    assert_eq!(host.get("contextmenu"), number(1));
    assert_eq!(host.get("auxclick"), number(1));
    assert_eq!(host.get("mouseup"), number(1));
    assert_eq!(host.get("click"), None);
}

#[test]
fn spin_buttons_step_numbers() {
    let mut host = Host::with_css(&[]);
    host.input(2, CONTAINER, "number", (0.0, 0.0, 100.0, 20.0));
    host.edit_input(2, |s| s.set_max(Some(2f64.to_bits())));
    host.on(2, EventName::Input, |s, e| s.set("value", Value::from(e.value.clone())));
    host.mouse(95.0, 5.0, DOWN);
    assert_eq!(host.get("value"), text("1"));
    host.mouse(95.0, 5.0, DOWN);
    host.mouse(95.0, 5.0, DOWN);
    assert_eq!(host.get("value"), text("2"), "the upper bound holds");
    host.mouse(95.0, 15.0, DOWN);
    assert_eq!(host.get("value"), text("1"));
    assert_eq!(host.instance.focused_node_id(), None);
}

#[test]
fn taps_click_and_pans_scroll() {
    let mut host = scrollable();
    host.element(4, CONTAINER, "button", (0.0, 80.0, 50.0, 20.0));
    host.on(4, EventName::Click, |s, _| s.count("clicked"));
    host.touch(7, TouchPhase::Started, 10.0, 90.0);
    assert_eq!(host.get("clicked"), number(1), "a control is pressed at once");
    host.touch(8, TouchPhase::Started, 10.0, 10.0);
    host.touch(8, TouchPhase::Moved, 10.0, 10.0);
    host.touch(8, TouchPhase::Ended, 10.0, 10.0);
    assert_eq!(host.instance.active_node_id(), Some(4), "a second finger is not followed");
    host.touch(7, TouchPhase::Ended, 10.0, 90.0);
    assert_eq!(host.instance.active_node_id(), None);

    host.touch(9, TouchPhase::Started, 10.0, 40.0);
    host.panning = true;
    host.delta = (0.0, -25.0);
    assert!(host.touch(9, TouchPhase::Moved, 10.0, 15.0).needs_paint);
    assert_eq!(host.nodes[&3].scroll_top, 0.0);
    host.release = Release::Pan { coasting: true };
    assert!(host.touch(9, TouchPhase::Ended, 10.0, 15.0).needs_paint);
    assert!(host.instance.next_wake_deadline(5).is_some());
    host.coast = (true, false);
    host.instance.painted();
    assert!(host.tick().needs_paint);
    assert_eq!(host.instance.next_wake_deadline(5), None);
}

#[test]
fn cancelled_touches_do_nothing_more() {
    let mut host = scrollable();
    host.touch(1, TouchPhase::Started, 10.0, 40.0);
    host.asks.clear();
    host.touch(1, TouchPhase::Cancelled, 10.0, 40.0);
    host.touch(1, TouchPhase::Ended, 10.0, 40.0);
    assert!(host.asks.is_empty());
}

#[test]
fn assistive_technologies_operate_controls() {
    let mut host = Host::with_css(&[]);
    host.input(2, CONTAINER, "number", (0.0, 0.0, 50.0, 20.0));
    host.input(3, CONTAINER, "checkbox", (0.0, 20.0, 20.0, 20.0));
    host.input(4, CONTAINER, "text", (0.0, 40.0, 50.0, 20.0));
    for id in [2, 3, 4] {
        host.on(id, EventName::Input, |s, e| {
            s.set("value", Value::from(e.value.clone()));
            s.set("checked", Value::from(e.checked));
        });
    }
    host.assist(2, Action::Increment, None);
    host.assist(2, Action::Increment, None);
    host.assist(2, Action::Decrement, None);
    assert_eq!(host.get("value"), text("1"));
    host.assist(3, Action::Click, None);
    assert_eq!(host.get("checked"), truth());
    host.assist(4, Action::SetValue, Some("said"));
    assert_eq!(host.get("value"), text("said"));
    host.edit_input(4, |s| s.set_readonly(true));
    host.assist(4, Action::SetValue, Some("again"));
    assert_eq!(host.instance.input_value(4).as_deref(), Some("said"));
    host.assist(4, Action::Focus, None);
    assert_eq!(host.instance.focused_node_id(), Some(4));
    host.assist(4, Action::Blur, None);
    assert_eq!(host.instance.focused_node_id(), None);
    host.instance.painted();
    assert!(host.assist(4, Action::ScrollIntoView, None).needs_paint);
    assert_eq!(host.asks.last(), Some(&Ask::Reveal { node: 4 }));
    assert!(!host.assist(4, Action::Other, None).needs_paint);
}

#[test]
fn runtime_events_reach_the_scripts() {
    let mut host = Host::with_css(&[]);
    host.instance.painted();
    let step = host.instance.dispatch_runtime_event();
    let result = host.run(step);
    assert_eq!(result, TickResult { needs_paint: true, jobs_pending: true });
    assert_eq!(host.get("runtime"), number(1));
    assert!(host.instance.needs_paint());
}

#[test]
fn disabled_inputs_are_not_focused() {
    let mut host = Host::with_css(&[]);
    host.element(2, CONTAINER, "input", (0.0, 0.0, 50.0, 20.0));
    host.element(3, CONTAINER, "input", (0.0, 20.0, 50.0, 20.0));
    host.edit_input(3, |s| s.set_disabled(true));
    for id in [2, 3] {
        host.on(id, EventName::Blur, |s, _| s.count("blur"));
        host.on(id, EventName::Focus, |s, _| s.count("focus"));
    }
    host.focus(Some(2));
    host.focus(Some(3));
    host.click(10.0, 30.0);
    host.assist(3, Action::Focus, None);
    assert_eq!(host.instance.focused_node_id(), Some(2));
    assert_eq!(host.get("focus"), number(1));
    assert_eq!(host.get("blur"), None);
    host.edit_input(3, |s| s.set_disabled(false));
    host.focus(Some(3));
    assert_eq!(host.instance.focused_node_id(), Some(3));
    assert_eq!(host.get("blur"), number(1));
}

#[test]
fn disabled_inputs_accept_no_editing() {
    let mut host = slider();
    host.input(3, CONTAINER, "radio", (0.0, 50.0, 20.0, 20.0));
    host.input(4, CONTAINER, "number", (0.0, 70.0, 100.0, 20.0));
    for id in [2, 3, 4] {
        host.edit_input(id, |s| s.set_disabled(true));
        host.on(id, EventName::Input, |s, _| s.count("input"));
    }
    host.mouse(0.0, 10.0, DOWN);
    host.mouse(80.0, 10.0, MouseEvent::Move);
    host.mouse(80.0, 10.0, UP);
    assert_eq!(host.instance.input_value(2).as_deref(), Some("4"));
    host.click(10.0, 60.0);
    assert_eq!(host.instance.input_value(3).as_deref(), Some("off"));
    host.mouse(95.0, 75.0, DOWN);
    host.assist(4, Action::Increment, None);
    assert_eq!(host.instance.input_value(4).as_deref(), Some(""));
    assert_eq!(host.get("input"), None);
}

#[test]
fn a_drag_that_changes_nothing_needs_no_paint() {
    let mut host = slider();
    host.mouse(0.0, 10.0, DOWN);
    host.mouse(80.0, 10.0, MouseEvent::Move);
    assert_eq!(host.get("value"), text("4"));
    host.instance.painted();
    assert!(!host.mouse(80.0, 20.0, MouseEvent::Move).needs_paint);
    assert!(!host.instance.needs_paint());
    host.mouse(0.0, 20.0, MouseEvent::Move);
    assert!(host.instance.needs_paint());
}

#[test]
fn a_number_that_loses_its_selection_is_announced() {
    let mut host = Host::with_css(&[]);
    host.input(2, CONTAINER, "number", (0.0, 0.0, 100.0, 20.0));
    host.on(2, EventName::Input, |s, e| s.set("value", Value::from(e.value.clone())));
    host.focus(Some(2));
    for key in ["1", "2", ".", "5"] {
        host.key_down(type_key(key));
    }
    assert_eq!(host.get("value"), text("12.5"));
    host.edit_input(2, |s| {
        s.set_selection(0, 2);
    });
    host.key_down(type_key("."));
    assert_eq!(host.instance.input_value(2).as_deref(), Some(".5"));
    assert_eq!(host.get("value"), text(".5"));
}

#[test]
fn a_value_set_again_moves_the_caret_to_its_end() {
    let mut host = single_input();
    let step = host.instance.set_input_value(2, "abc").expect("an input");
    host.run(step);
    host.edit_input(2, |s| s.place_caret(1));
    host.instance.painted();
    let step = host.instance.set_input_value(2, "abc").expect("an input");
    host.run(step);
    assert_eq!(host.instance.input(2).unwrap().caret(), 3);
    assert!(host.instance.needs_paint());
}

#[test]
fn looking_at_the_blink_too_early_changes_nothing() {
    let mut host = single_input();
    host.focus(Some(2));
    let due = host.instance.next_blink_deadline().unwrap();
    for early in 1..5 {
        assert!(!host.instance.advance_input_blink(due - early));
        assert_eq!(host.instance.next_blink_deadline(), Some(due));
    }
    assert!(host.instance.advance_input_blink(due));
    assert!(host.instance.next_blink_deadline() > Some(due));
}

#[test]
fn dispatch_leaves_the_blink_of_other_inputs_alone() {
    let mut host = single_input();
    host.element(3, CONTAINER, "input", (0.0, 60.0, 50.0, 20.0));
    host.edit_input(3, |s| s.restart_blink(5));
    host.focus(Some(2));
    host.key_down(type_key("x"));
    assert_eq!(host.instance.input(3).unwrap().next_blink_at(), 500_000_005);
}

#[test]
fn tabs_visit_every_control_once() {
    let list = [("input", None, false), ("button", None, false), ("input", None, false)];
    for backwards in [false, true] {
        let mut host = focusables(&list);
        host.key_down(tab_key(backwards));
        let start = host.instance.focused_node_id();
        let mut seen = vec![];
        for _ in 0..list.len() {
            host.key_down(tab_key(backwards));
            seen.push(host.instance.focused_node_id().unwrap());
        }
        assert_eq!(seen.last().copied(), start);
        seen.sort();
        seen.dedup();
        assert_eq!(seen.len(), list.len());
    }
}

#[test]
fn removed_stylesheets_stay_removed() {
    let mut host = Host::with_css(&[]);
    let id = host.instance.add_stylesheet("a");
    assert_eq!(host.instance.remove_stylesheet(id).as_deref(), Some("a"));
    for _ in 0..3 {
        assert_ne!(host.instance.add_stylesheet("b"), id);
        host.tick();
    }
    assert_eq!(host.instance.stylesheet(id), None);
    assert_eq!(host.instance.replace_stylesheet(id, "c"), None);
    assert_eq!(host.instance.remove_stylesheet(id), None);
}

#[test]
fn every_dispatch_ends_whatever_is_answered() {
    let reply = |i: usize| match i % 10 {
        0 => Reply::Nothing,
        1 => Reply::Flag(true),
        2 => Reply::Hit(Hit::Node { node: 2 }),
        3 => Reply::Node(Some(2)),
        4 => Reply::Node(None),
        5 => Reply::Spinner(None),
        6 => Reply::Scrollbar(ScrollbarHit::Nothing),
        7 => Reply::Tick(TickResult { needs_paint: true, jobs_pending: true }),
        8 => Reply::Path(vec![2, 3]),
        _ => Reply::Release(Release::Tap),
    };
    for start in 0..6 {
        for stride in 1..10 {
            let mut host = Host::with_css(&[]);
            host.input(2, CONTAINER, "radio", (0.0, 0.0, 50.0, 20.0));
            host.input(3, CONTAINER, "number", (0.0, 20.0, 50.0, 20.0));
            let mut step = match start {
                0 => host.instance.dispatch_mouse(DOWN),
                1 => host.instance.dispatch_mouse(MouseEvent::Move),
                2 => host.instance.dispatch_wheel(),
                3 => {
                    host.instance.dispatch_touch(TouchEvent { id: 1, phase: TouchPhase::Started })
                }
                4 => host.instance.set_focused_node(Some(3)),
                _ => host.instance.tick(),
            };
            let mut answers = 0;
            while let Step::Ask { .. } = step {
                step = host.instance.step(reply(answers * stride));
                answers += 1;
                assert!(answers < 100);
            }
        }
    }
}
