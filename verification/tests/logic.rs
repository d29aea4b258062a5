use solite::a11y::{
    aria_role, aria_truthy, enrich_a11y_node_from_attrs, enrich_input_a11y_node, A11yNode, Role,
    Toggled,
};
use solite::base_url::{base_url_for, choose_base_url, default_base_url, parse_base_url};
use solite::capture::{
    buffer_size, build_capture_path, capture_buffer_pixels, capture_path_from_cli,
    capture_texture_layout, capture_texture_pixels, read_pixels_layout, unpack_rows, CaptureError,
};
use solite::error::{GpuError, InstanceError, RegisterFontError};
use solite::events::{combine_tick_result, key_from_name, Key, TickResult};
use solite::focus::{
    collect_tab_order, is_button, is_focusable_by_default, parse_tabindex, TabCandidate,
};
use solite::hit::{active_changes, hit_node_id, scrolled_node, HitTree, PopupBox};
use solite::input::InputState;
use solite::instance::{Instance, InstanceConfig, StylesheetId};
use solite::select::{SelectOption, SelectState};
use solite::source::{
    component_module, directory_entrypoints, find_virtual_entrypoint, first_entrypoint,
    is_jsx_or_ts_module, poll_source_changes, virtual_entrypoint, virtual_entrypoint_source,
    watch_root, FontFormat, SourceChangeSummary, VirtualSourceFile,
};
use solite::surface::{
    choose_alpha_mode, choose_format, plan_draws, present_step, retry_after_draw, surface_size,
    AlphaMode, PresentStep, Rect, SurfaceStatus,
};
use solite::text::{char_index_to_byte_index, trim};

fn strings(items: &[&str]) -> Vec<String> {
    items.iter().map(|s| s.to_string()).collect()
}

#[test]
fn filewatch_classifies_css_and_js_changes() {
    let root = "/tmp/solite-watch";
    let css_only = poll_source_changes(&strings(&["/tmp/solite-watch/style.css"]), root);
    assert!(
        css_only.css_reload,
        "css edits should be flagged for stylesheet reload"
    );
    assert!(
        !css_only.bundle_rebuild,
        "css-only edits should not request bundle rebuild"
    );
    let bundle_only = poll_source_changes(&strings(&["/tmp/solite-watch/app.tsx"]), root);
    assert!(
        bundle_only.bundle_rebuild,
        "jsx edits should be flagged for bundle rebuild"
    );
    assert!(
        !bundle_only.css_reload,
        "jsx-only edits should not require css reload"
    );
    assert_eq!(poll_source_changes(&vec![], root), SourceChangeSummary::default());
}

#[test]
fn changes_outside_the_source_directory_are_ignored() {
    let root = "/srv/app";
    let none = SourceChangeSummary { bundle_rebuild: false, css_reload: false };
    assert_eq!(poll_source_changes(&strings(&["/srv/application/a.css"]), root), none);
    assert_eq!(poll_source_changes(&strings(&["/srv/app/readme.md", "/srv/app/.ts"]), root), none);
    let both = poll_source_changes(&strings(&["/srv/app/x.JSX", "/srv/app/deep/y.Css"]), root);
    assert_eq!(both, SourceChangeSummary { bundle_rebuild: true, css_reload: true });
}

#[test]
fn register_font_from_path_rejects_unknown_extension() {
    let err = FontFormat::from_path("Cargo.toml").expect_err("must reject .toml");
    assert!(matches!(err, RegisterFontError::UnknownFormat));
    assert_eq!(
        err.message(),
        "unknown font format: expected file extension `.ttf`, `.otf`, `.woff`, or `.woff2`"
    );
}

#[test]
fn fonts_are_told_by_their_extension() {
    let path = "vendor/blitz/packages/blitz-dom/assets/moz-bullet-font.otf";
    assert!(matches!(FontFormat::from_path(path), Ok(FontFormat::Opentype)));
    assert!(matches!(FontFormat::from_path("a/b.TTF"), Ok(FontFormat::Truetype)));
    assert!(matches!(FontFormat::from_path("b.woff"), Ok(FontFormat::Woff)));
    assert!(matches!(FontFormat::from_path("b.woff2"), Ok(FontFormat::Woff2)));
    assert!(FontFormat::from_path("woff2").is_err());
    assert_eq!(
        RegisterFontError::Io("gone".to_owned()).message(),
        "failed to read font file: gone"
    );
}

#[test]
fn modules_are_told_by_their_extension() {
    assert!(is_jsx_or_ts_module("src/app.jsx"));
    assert!(is_jsx_or_ts_module("src/app.tsx"));
    assert!(is_jsx_or_ts_module("src/app.test.ts"));
    assert!(!is_jsx_or_ts_module("src/app.js"));
    assert!(!is_jsx_or_ts_module("src/app.TS"));
    assert!(!is_jsx_or_ts_module("src/tsx"));
    assert!(!is_jsx_or_ts_module("src/.ts"));
    assert!(!is_jsx_or_ts_module(""));
}

fn file(path: &str, source: &str) -> VirtualSourceFile {
    VirtualSourceFile { path: path.to_owned(), source: source.to_owned() }
}

fn config(base_url: Option<&str>) -> InstanceConfig {
    InstanceConfig {
        width: 320,
        height: 160,
        stylesheets: vec!["a {}".to_owned()],
        document_scroll: true,
        base_url: base_url.map(|s| s.to_owned()),
    }
}

fn tmp() -> String {
    "file:///tmp/".to_owned()
}

#[test]
fn virtual_entrypoints_are_found_by_path() {
    let files = vec![file("index.js", "one"), file("index.js", "two"), file("app.tsx", "three")];
    assert!(matches!(virtual_entrypoint_source(&files, "index.js"), Ok(s) if s == "one"));
    let missing = virtual_entrypoint_source(&files, "main.js").err().unwrap();
    assert_eq!(missing.message(), "missing virtual entrypoint source for `main.js`");
}

#[test]
fn modules_are_compiled_where_there_is_a_compiler() {
    let module = |path: &str, compiled: Option<Result<String, String>>| {
        component_module(path, "source".to_owned(), compiled)
    };
    assert!(matches!(module("a.mjs", None), Ok(s) if s == "source"));
    assert_eq!(
        module("app.tsx", None).err().unwrap().message(),
        "JSX/TSX/TS component loading requires the `jsx-compiler` feature: app.tsx"
    );
    assert!(matches!(module("app.tsx", Some(Ok("made".to_owned()))), Ok(s) if s == "made"));
    assert!(matches!(module("a.mjs", Some(Ok("made".to_owned()))), Ok(s) if s == "made"));
    let refused = module("app.tsx", Some(Err("line 3".to_owned()))).err().unwrap();
    assert!(matches!(refused, InstanceError::CompileComponent(ref m) if m == "line 3"));
}

#[test]
fn components_from_files_resolve_against_their_directory() {
    let load = |base_url: Option<&str>, path: &str| {
        Instance::new_from_file(config(base_url), 1, path, "src".to_owned(), None, tmp())
    };
    let (instance, module) = load(None, "/srv/my ui/app.js").unwrap();
    assert_eq!(module, "src");
    assert_eq!(instance.base_url(), "file:///srv/my%20ui/");
    assert_eq!(instance.stylesheet(StylesheetId(0)), Some("a {}"));
    assert_eq!(load(None, "app.js").unwrap().0.base_url(), "file:///tmp/");
    assert_eq!(load(Some("x:y"), "/srv/app.js").unwrap().0.base_url(), "x:y");
    let err = load(Some("nowhere"), "/srv/app.js").err().unwrap();
    assert!(matches!(err, InstanceError::BaseUrl { ref value, .. } if value == "nowhere"));
    let err = load(Some("nowhere"), "/srv/app.tsx").err().unwrap();
    assert!(matches!(err, InstanceError::UnsupportedJsxModule { .. }));
}

#[test]
fn components_from_memory_are_mounted() {
    let files = vec![file("app.js", "one"), file("app.js", "two")];
    let load = |entry: &str| {
        Instance::new_from_virtual_files(config(None), 1, &files, entry, None, tmp())
    };
    let (instance, module) = load("app.js").unwrap();
    assert_eq!((module.as_str(), instance.base_url()), ("one", "file:///tmp/"));
    let err = load("index.js").err().unwrap();
    assert!(matches!(err, InstanceError::MissingVirtualEntrypoint { ref path } if path == "index.js"));
}

#[test]
fn entry_points_are_found_by_name() {
    let paths = |paths: &[&str]| -> Vec<VirtualSourceFile> {
        paths.iter().map(|path| file(path, "")).collect()
    };
    let find = |list: &[&str]| find_virtual_entrypoint(&paths(list));
    assert_eq!(find(&["util.ts", "app.mjs", "index.tsx"]), Some(1));
    assert_eq!(find(&["lib/index.tsx", "index.css", "index.jsx"]), Some(2));
    assert_eq!(find(&["main.tsx", "index.html"]), None);
    assert_eq!(find(&[]), None);
    let names = directory_entrypoints();
    assert_eq!(names.len(), 10);
    assert_eq!((names[0].as_str(), names[9].as_str()), ("index.tsx", "app.mjs"));
    assert_eq!(first_entrypoint(&vec![false, true, true]), Some(1));
    assert_eq!(first_entrypoint(&vec![false, false]), None);
    assert_eq!(virtual_entrypoint(&paths(&["util.ts", "app.mjs"])), "app.mjs");
    assert_eq!(virtual_entrypoint(&paths(&["util.ts"])), "index.tsx");
}

#[test]
fn capture_names_are_stable() {
    for base in ["/srv/shot.jpg", "/srv/shot", "/srv/shot.", "shot.tar.gz", "/srv/.hidden"] {
        let plain = build_capture_path(base, None);
        assert_eq!(build_capture_path(&plain, None), plain);
        assert_eq!(build_capture_path(base, Some("")), plain);
        let end = plain.rsplit('.').next().unwrap().to_owned();
        assert!(!end.is_empty());
        assert!(build_capture_path(base, Some("b.c")).ends_with(&format!("-b.c.{end}")));
    }
}

#[test]
fn an_image_of_no_height_is_refused_before_it_is_built() {
    assert!(matches!(capture_buffer_pixels(0x4000_0000, 0, &[]), Err(CaptureError::ZeroDimensions)));
}

#[test]
fn the_directory_of_a_component_is_watched() {
    assert_eq!(watch_root("/srv/ui", true), "/srv/ui");
    assert_eq!(watch_root("/srv/ui/app.js", false), "/srv/ui");
    assert_eq!(watch_root("/", false), ".");
    assert_eq!(watch_root("", false), ".");
}

#[test]
fn messages_name_what_failed() {
    assert_eq!(GpuError::Surface("s".to_owned()).message(), "creating surface: s");
    assert_eq!(GpuError::Adapter("a".to_owned()).message(), "requesting adapter: a");
    assert_eq!(GpuError::Device("d".to_owned()).message(), "requesting device: d");
    assert_eq!(
        InstanceError::Io("gone".to_owned()).message(),
        "failed to read component source: gone"
    );
    assert_eq!(InstanceError::JsContext("js".to_owned()).message(), "js");
    assert_eq!(InstanceError::CompileComponent("c".to_owned()).message(), "c");
}

#[test]
fn base_urls_are_parsed() {
    assert!(matches!(parse_base_url("file:///srv/app/"), Ok(u) if u == "file:///srv/app/"));
    assert!(matches!(parse_base_url("HTTP://Example.com"), Ok(u) if u == "http://example.com/"));
    let err = parse_base_url("logo.png").err().unwrap();
    assert_eq!(
        err.message(),
        "invalid base URL `logo.png`: relative URL without a base"
    );
}

#[test]
fn base_urls_default_to_the_component_directory() {
    let default = || "file:///default/".to_owned();
    assert_eq!(base_url_for(Some("x:y".to_owned()), Some("/srv"), default()), "x:y");
    assert_eq!(base_url_for(None, Some("/srv/my app"), default()), "file:///srv/my%20app/");
    assert_eq!(base_url_for(None, Some("relative"), default()), "file:///default/");
    assert_eq!(base_url_for(None, None, default()), "file:///default/");
    assert_eq!(choose_base_url(None, Some("d".to_owned()), default()), "d");
}

#[test]
fn instances_refuse_a_bad_base_url() {
    let mut instance = Instance::new(config(None), 1, "file:///tmp/".to_owned()).expect("valid");
    assert_eq!(instance.base_url(), "file:///tmp/");
    assert!(!instance.set_base_url("nowhere"));
    assert_eq!(instance.base_url(), "file:///tmp/");
    assert!(instance.set_base_url("https://Solite.dev/a/../b"));
    assert_eq!(instance.base_url(), "https://solite.dev/b");
    assert_eq!(instance.container_height().as_deref(), Some("160px"));
    assert_eq!(instance.resize(10, 4_294_967_295).as_deref(), Some("4294967295px"));
    let err = Instance::new(config(Some("x y")), 1, "file:///tmp/".to_owned()).err().unwrap();
    assert!(matches!(err, InstanceError::BaseUrl { ref value, .. } if value == "x y"));
}

#[test]
fn capture_paths_keep_stem_and_extension() {
    assert_eq!(build_capture_path("out/shot.png", None), "out/shot.png");
    assert_eq!(build_capture_path("out/shot.png", Some("2")), "out/shot-2.png");
    assert_eq!(build_capture_path("out/shot.jpeg", Some("")), "out/shot.jpeg");
    assert_eq!(build_capture_path("shot", Some("a")), "shot-a.png");
    assert_eq!(build_capture_path("out/.hidden", None), "out/.hidden.png");
    assert_eq!(build_capture_path("out/shot.", None), "out/shot.png");
    assert_eq!(build_capture_path("a.b.c", Some("x")), "a.b-x.c");
    assert_eq!(build_capture_path("", Some("x")), "./capture-x.png");
    assert_eq!(build_capture_path("/", None), "./capture.png");
    assert_eq!(build_capture_path("a/..", None), "a/capture.png");
}

#[test]
fn capture_paths_come_from_arguments() {
    let env = || Some("from-env.png".to_owned());
    let path = |args: &[&str]| capture_path_from_cli(&strings(args), env());
    assert_eq!(path(&["app"]).as_deref(), Some("from-env.png"));
    assert_eq!(path(&["app", "--capture=a.png", "-c", "b"]).as_deref(), Some("a.png"));
    assert_eq!(path(&["app", "x", "--capture", "b.png"]).as_deref(), Some("b.png"));
    assert_eq!(path(&["app", "-c", "c.png"]).as_deref(), Some("c.png"));
    assert_eq!(path(&["app", "--capture"]), None);
    assert_eq!(path(&["app", "--capture="]).as_deref(), Some(""));
    assert_eq!(path(&["--capture=a.png"]).as_deref(), Some("from-env.png"));
    assert_eq!(capture_path_from_cli(&strings(&["app"]), None), None);
}

#[test]
fn captured_rows_lose_their_padding() {
    let layout = capture_texture_layout(3, 2, true, "Rgba8Unorm").expect("captures");
    assert_eq!((layout.row_bytes, layout.stride), (12, 256));
    assert_eq!(buffer_size(&layout), 512);
    let mut data = vec![0u8; 512];
    for x in 0..12 {
        data[x] = x as u8 + 1;
        data[256 + x] = x as u8 + 101;
    }
    let expected: Vec<u8> = (1..=12).chain(101..=112).collect();
    assert_eq!(unpack_rows(&data, &layout), expected);
    assert!(matches!(capture_texture_pixels(&data, &layout), Ok(p) if p == expected));
    let exact = read_pixels_layout(64, 1);
    assert_eq!((exact.row_bytes, exact.stride), (256, 256));
}

#[test]
fn captures_that_cannot_be_are_refused() {
    let text = |w: u32, h: u32, rgba8: bool, f: &str| {
        capture_texture_layout(w, h, rgba8, f).err().unwrap().texture_message()
    };
    assert_eq!(text(0, 1, true, ""), "capture_texture_to_png: texture has zero dimensions");
    assert_eq!(
        text(1, 1, false, "Bgra8Unorm"),
        "capture_texture_to_png: unsupported format Bgra8Unorm"
    );
    assert_eq!(text(0x4000_0000, 1, true, ""), "capture_texture_to_png: row too large");
    let buffer = |w: u32, h: u32, bytes: &[u8]| {
        capture_buffer_pixels(w, h, bytes).err().unwrap().buffer_message()
    };
    assert_eq!(buffer(1, 0, &[]), "capture_buffer_to_png: frame has zero dimensions");
    assert_eq!(buffer(0x10000, 0x10000, &[]), "capture_buffer_to_png: image too large");
    assert_eq!(buffer(2, 1, &[0; 7]), "capture_buffer_to_png: expected 8 bytes, got 7");
    assert!(matches!(capture_buffer_pixels(1, 1, &[1, 2, 3, 4]), Ok(p) if p == [1, 2, 3, 4]));
    assert_eq!(
        CaptureError::ImageTooLarge.texture_message(),
        "capture_texture_to_png: image too large"
    );
    assert_eq!(
        CaptureError::BuildFailed.buffer_message(),
        "capture_buffer_to_png: failed to build image"
    );
}

#[test]
fn draws_are_clipped_to_the_target() {
    let rect = |x, y, width, height| Rect { x, y, width, height };
    let draws = vec![
        rect(0, 0, 50, 50),
        rect(90, 10, 50, 200),
        rect(100, 0, 5, 5),
        rect(3, 3, 0, 9),
        rect(4_294_967_295, 0, 4_294_967_295, 1),
    ];
    assert_eq!(
        plan_draws(&draws, 100, 100),
        vec![(0, rect(0, 0, 50, 50)), (1, rect(90, 10, 10, 90))]
    );
    assert_eq!(surface_size(0, 7), (1, 7));
}

#[test]
fn surfaces_choose_format_and_alpha() {
    assert_eq!(choose_format(&vec![false, true, true]), 1);
    assert_eq!(choose_format(&vec![false, false]), 0);
    assert_eq!(
        choose_alpha_mode(&vec![AlphaMode::Opaque, AlphaMode::PostMultiplied]),
        AlphaMode::PostMultiplied
    );
    assert_eq!(choose_alpha_mode(&vec![AlphaMode::Inherit]), AlphaMode::Inherit);
    assert_eq!(choose_alpha_mode(&vec![]), AlphaMode::Opaque);
}

#[test]
fn lost_surfaces_are_configured_once_more() {
    assert_eq!(present_step(SurfaceStatus::Success, false), PresentStep::Draw);
    assert_eq!(present_step(SurfaceStatus::Suboptimal, true), PresentStep::Draw);
    assert_eq!(present_step(SurfaceStatus::Lost, false), PresentStep::Reconfigure);
    assert_eq!(present_step(SurfaceStatus::Outdated, true), PresentStep::Stop { retry: true });
    assert_eq!(present_step(SurfaceStatus::Timeout, false), PresentStep::Stop { retry: true });
    assert_eq!(present_step(SurfaceStatus::Occluded, true), PresentStep::Stop { retry: true });
    assert_eq!(present_step(SurfaceStatus::Validation, false), PresentStep::Stop { retry: false });
    assert!(retry_after_draw(2, false));
    assert!(!retry_after_draw(0, false));
    assert!(!retry_after_draw(2, true));
}

#[test]
fn tick_results_combine() {
    let t = |needs_paint, jobs_pending| TickResult { needs_paint, jobs_pending };
    assert_eq!(combine_tick_result(t(true, false), t(false, true)), t(true, true));
    assert_eq!(combine_tick_result(t(false, false), TickResult::default()), t(false, false));
}

#[test]
fn keys_go_by_their_names() {
    assert_eq!(key_from_name(" "), Key::Space);
    assert_eq!(key_from_name("Space"), Key::Space);
    assert_eq!(key_from_name("Up"), Key::Up);
    assert_eq!(key_from_name("é"), Key::Char('é'));
    assert_eq!(key_from_name("Shift"), Key::Other);
    assert_eq!(key_from_name(""), Key::Other);
}

#[test]
fn byte_offsets_follow_characters() {
    assert_eq!(char_index_to_byte_index("héllo", 2), 3);
    assert_eq!(char_index_to_byte_index("héllo", 99), 6);
    assert_eq!(char_index_to_byte_index("", 0), 0);
    assert_eq!(trim("\u{2003} a b \n"), "a b");
    assert_eq!(trim("x"), "x");
}

#[test]
fn the_topmost_node_is_hit() {
    let leaf = |id, hit| HitTree { id, within_reach: hit, within_box: hit, children: vec![] };
    let tree = |reach, boxed, children| HitTree {
        id: 1,
        within_reach: reach,
        within_box: boxed,
        children,
    };
    let none: Vec<PopupBox> = vec![];
    let both = tree(true, true, vec![leaf(2, true), leaf(3, true), leaf(4, false)]);
    assert_eq!(hit_node_id(&none, &both), Some(3));
    assert_eq!(hit_node_id(&none, &tree(true, true, vec![leaf(2, false)])), Some(1));
    assert_eq!(hit_node_id(&none, &tree(true, false, vec![leaf(2, false)])), None);
    assert_eq!(hit_node_id(&none, &tree(false, true, vec![leaf(2, true)])), None);
    let popup = |within, options: &[(usize, bool)]| PopupBox {
        root: 9,
        within,
        options: options.to_vec(),
    };
    assert_eq!(hit_node_id(&vec![popup(true, &[(10, false), (11, true)])], &both), Some(11));
    assert_eq!(hit_node_id(&vec![popup(true, &[(10, false)])], &both), Some(9));
    assert_eq!(hit_node_id(&vec![popup(false, &[(10, true)])], &both), Some(3));
}

#[test]
fn pressed_states_change_below_the_common_ancestor() {
    assert_eq!(active_changes(&vec![1, 2, 3], &vec![1, 2, 4, 5]), (vec![3], vec![4, 5]));
    assert_eq!(active_changes(&vec![], &vec![1]), (vec![], vec![1]));
    assert_eq!(scrolled_node(&vec![(5, false), (4, true), (1, true)]), Some(4));
    assert_eq!(scrolled_node(&vec![(5, false)]), None);
}

#[test]
fn tab_order_puts_positive_indices_first() {
    let c = |node, focusable, disabled, tabindex| TabCandidate {
        node,
        focusable,
        disabled,
        tabindex,
    };
    let order = collect_tab_order(&vec![
        c(1, true, false, None),
        c(2, true, false, Some(2)),
        c(3, true, false, Some(1)),
        c(4, true, true, None),
        c(5, true, false, Some(-1)),
        c(6, false, false, Some(0)),
        c(7, false, false, None),
        c(8, true, false, Some(2)),
    ]);
    assert_eq!(order, vec![3, 2, 8, 1, 6]);
    assert!(is_focusable_by_default("a", true));
    assert!(!is_focusable_by_default("a", false));
    assert!(!is_focusable_by_default("div", true));
}

#[test]
fn assistive_technologies_hear_of_inputs() {
    let mut node = A11yNode::new();
    let mut state = InputState::default();
    state.set_value("secret");
    state.set_placeholder(Some("name".to_owned()));
    enrich_input_a11y_node(&mut node, &state);
    assert_eq!(node.traits.role, Some(Role::TextInput));
    assert_eq!(node.value.as_deref(), Some("secret"));
    assert_eq!(node.placeholder.as_deref(), Some("name"));
    assert!(node.traits.actions.focus && node.traits.actions.set_value);
    assert!(!node.traits.actions.click);

    let mut node = A11yNode::new();
    state.set_input_type("password");
    enrich_input_a11y_node(&mut node, &state);
    assert_eq!(node.value, None);

    let mut node = A11yNode::new();
    state.set_input_type("text");
    state.set_masked(true);
    enrich_input_a11y_node(&mut node, &state);
    assert_eq!(node.value, None, "masked content is not told");

    let mut node = A11yNode::new();
    state.set_input_type("number");
    let mut plain = A11yNode::new();
    enrich_input_a11y_node(&mut plain, &state);
    state.set_masked(true);
    enrich_input_a11y_node(&mut node, &state);
    assert_eq!(node.traits, plain.traits, "a number is told, masked or not");

    let mut node = A11yNode::new();
    state.set_input_type("range");
    state.set_max(Some(10f64.to_bits()));
    state.set_disabled(true);
    enrich_input_a11y_node(&mut node, &state);
    let numeric = node.traits.numeric.expect("a slider has a number");
    assert_eq!(node.traits.role, Some(Role::Slider));
    assert_eq!((numeric.min, numeric.max), (Some(0f64.to_bits()), Some(10f64.to_bits())));
    assert_eq!(numeric.step, 1f64.to_bits());
    assert!(node.traits.disabled && node.traits.actions.increment);

    let mut node = A11yNode::new();
    state.set_input_type("radio");
    state.set_checked(true);
    state.set_readonly(true);
    enrich_input_a11y_node(&mut node, &state);
    assert_eq!(node.traits.role, Some(Role::RadioButton));
    assert_eq!(node.traits.toggled, Some(Toggled::True));
    assert!(node.traits.readonly && node.traits.actions.click);
}

#[test]
fn assistive_technologies_hear_of_attributes() {
    let attrs = |items: &[(&str, &str)]| -> Vec<(String, String)> {
        items.iter().map(|(n, v)| (n.to_string(), v.to_string())).collect()
    };
    let mut node = A11yNode::new();
    enrich_a11y_node_from_attrs(
        &mut node,
        "a",
        &attrs(&[
            ("aria-label", "Home"),
            ("aria-label", ""),
            ("aria-hidden", "TRUE"),
            ("aria-disabled", "false"),
            ("aria-checked", "mixed"),
            ("aria-checked", "maybe"),
            ("role", "button"),
            ("role", "unknown"),
            ("placeholder", "p"),
            ("href", "#"),
        ]),
    );
    assert_eq!(node.label.as_deref(), Some("Home"));
    assert!(node.traits.hidden && !node.traits.disabled);
    assert_eq!(node.traits.toggled, Some(Toggled::Mixed));
    assert_eq!(node.traits.role, Some(Role::Link));
    assert_eq!(node.placeholder.as_deref(), Some("p"));
    assert!(node.traits.actions.click && node.traits.actions.focus);

    let mut node = A11yNode::new();
    enrich_a11y_node_from_attrs(&mut node, "a", &attrs(&[("role", "heading")]));
    assert_eq!(node.traits.role, Some(Role::Heading));
    assert!(!node.traits.actions.click);
    let mut node = A11yNode::new();
    enrich_a11y_node_from_attrs(&mut node, "button", &vec![]);
    assert_eq!(node.traits.role, None);
    assert!(node.traits.actions.click);
    assert!(aria_truthy("True") && !aria_truthy("yes") && !aria_truthy(""));
    assert_eq!(aria_role("textbox"), Some(Role::TextInput));
    assert_eq!(aria_role("Button"), None);
}

#[test]
fn selects_skip_disabled_options() {
    let option = |label: &str, disabled| SelectOption {
        label: label.to_owned(),
        value: label.to_lowercase(),
        disabled,
    };
    let mut s = SelectState::new(
        vec![
            option("One", false),
            option("Two", true),
            option("Three", false),
            option("Four", true),
        ],
        Some(0),
    );
    assert!(s.move_selection(1, true));
    assert_eq!(s.value().as_deref(), Some("three"));
    assert!(!s.move_selection(1, true), "only disabled options follow");
    assert!(s.move_selection(1, false));
    assert_eq!(s.current_label(), "One");
    assert!(s.jump_to_extreme(true));
    assert_eq!(s.selected_index(), Some(2));
    assert!(!s.jump_to_extreme(true));
    assert!(!s.type_ahead('t'), "the only match is selected already");
    assert!(s.type_ahead('O'));
    let shown = s.popup_options(&vec![None, Some("Zwei".to_owned())]);
    let labels: Vec<&str> = shown.iter().map(|o| o.label.as_str()).collect();
    assert_eq!(labels, vec!["One", "Zwei", "Three", "Four"]);
    assert!(shown[1].disabled && !shown[2].disabled);
}

#[test]
fn the_default_base_address_is_that_of_the_working_directory() {
    assert_eq!(default_base_url(Some("/srv/my ui")), "file:///srv/my%20ui/");
    assert_eq!(default_base_url(Some("relative")), "file:///");
    assert_eq!(default_base_url(None), "file:///");
}

#[test]
fn tab_indices_are_whole_numbers() {
    for (text, place) in [
        ("0", Some(0)),
        (" 12 ", Some(12)),
        ("-1", Some(-1)),
        ("+3", Some(3)),
        ("007", Some(7)),
        ("2147483647", Some(i32::MAX)),
        ("-2147483648", Some(i32::MIN)),
        ("2147483648", None),
        ("-2147483649", None),
        ("99999999999999999999999", None),
        ("", None),
        ("-", None),
        ("1.5", None),
        ("1 2", None),
    ] {
        assert_eq!(parse_tabindex(text), place, "{text}");
        assert_eq!(text.trim().parse::<i32>().ok(), place);
    }
    assert!(is_button("button") && !is_button("a"));
}
