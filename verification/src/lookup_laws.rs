//! What is found: under a point, in the order of Tab, among draws, arguments and
//! source files.

use crate::focus::TabCandidate;
use crate::hit::{HitTree, PopupBox};
use crate::source::{FontFormat, VirtualSourceFile};
use crate::surface::{AlphaMode, PresentStep, Rect, SurfaceStatus};
use vstd::prelude::*;

verus! {

/// Nothing is hit of a node where a point is out of its reach.
pub proof fn law_points_out_of_reach_hit_nothing(node: HitTree)
    requires
        !node.within_reach,
    ensures
        crate::hit::hit_in(node) is None,
{
}

proof fn lemma_hit_among(nodes: Seq<HitTree>, n: int, top: int)
    requires
        0 <= n <= nodes.len(),
        -1 <= top < n,
        top >= 0 ==> crate::hit::hit_in(nodes[top]) is Some,
        forall|i: int| top < i < n ==> crate::hit::hit_in(#[trigger] nodes[i]) is None,
    ensures
        crate::hit::hit_among(nodes, n) == if top >= 0 {
            crate::hit::hit_in(nodes[top])
        } else {
            None
        },
    decreases n,
{
    if n > 0 && top < n - 1 {
        assert(crate::hit::hit_in(nodes[n - 1]) is None);
        lemma_hit_among(nodes, n - 1, top);
    }
}

/// What is hit of a node is what is hit of the last of its children of which
/// anything is: that lies on top. The node itself is hit only where nothing is
/// hit of any child, and the point lies in its box.
pub proof fn law_what_lies_on_top_is_hit(node: HitTree, top: int)
    requires
        node.within_reach,
        -1 <= top < node.children@.len(),
        top >= 0 ==> crate::hit::hit_in(node.children@[top]) is Some,
        forall|i: int|
            top < i < node.children@.len() ==> crate::hit::hit_in(#[trigger] node.children@[i]) is None,
    ensures
        top >= 0 ==> crate::hit::hit_in(node) == crate::hit::hit_in(node.children@[top]),
        top < 0 ==> crate::hit::hit_in(node) == if node.within_box {
            Some(node.id)
        } else {
            None
        },
{
    lemma_hit_among(node.children@, node.children@.len() as int, top);
}

proof fn lemma_option_hit(options: Seq<(usize, bool)>, from: int, at: int)
    requires
        0 <= from <= at <= options.len(),
        at < options.len() ==> options[at].1,
        forall|i: int| from <= i < at ==> !(#[trigger] options[i]).1,
    ensures
        crate::hit::option_hit(options, from) == if at < options.len() {
            Some(options[at].0)
        } else {
            None
        },
    decreases at - from,
{
    if from < at {
        assert(!options[from].1);
        lemma_option_hit(options, from + 1, at);
    }
}

proof fn lemma_popup_hit(popups: Seq<PopupBox>, from: int, at: int)
    requires
        0 <= from <= at <= popups.len(),
        at < popups.len() ==> popups[at].within,
        forall|i: int| from <= i < at ==> !(#[trigger] popups[i]).within,
    ensures
        crate::hit::popup_hit(popups, from) == crate::hit::popup_hit(popups, at),
    decreases at - from,
{
    if from < at {
        assert(!popups[from].within);
        lemma_popup_hit(popups, from + 1, at);
    }
}

/// Of the popups, the first that a point lies in is hit: the first of its
/// options that the point lies in, or else the popup itself. `option` is the
/// place of that option, or the number of options where there is none.
pub proof fn law_the_first_popup_is_hit(popups: Seq<PopupBox>, at: int, option: int)
    requires
        0 <= at <= popups.len(),
        forall|i: int| 0 <= i < at ==> !(#[trigger] popups[i]).within,
        at < popups.len() ==> popups[at].within && 0 <= option <= popups[at].options@.len() && (option
            < popups[at].options@.len() ==> popups[at].options@[option].1) && forall|i: int|
            0 <= i < option ==> !(#[trigger] popups[at].options@[i]).1,
    ensures
        crate::hit::popup_hit(popups, 0) == if at == popups.len() {
            None
        } else if option < popups[at].options@.len() {
            Some(popups[at].options@[option].0)
        } else {
            Some(popups[at].root)
        },
{
    lemma_popup_hit(popups, 0, at);
    if at < popups.len() {
        lemma_option_hit(popups[at].options@, 0, option);
    }
}

/// Two paths from the root have a common beginning, and it is the longest:
/// behind it, one of them ends or they differ.
pub proof fn law_paths_part_where_they_differ(a: Seq<usize>, b: Seq<usize>)
    ensures
        ({
            let same = crate::hit::common_from(a, b, 0);
            &&& 0 <= same <= a.len()
            &&& same <= b.len()
            &&& a.take(same) == b.take(same)
            &&& same < a.len() && same < b.len() ==> a[same] != b[same]
        }),
{
    lemma_common(a, b, 0);
    let same = crate::hit::common_from(a, b, 0);
    assert(a.take(same) =~= b.take(same));
}

proof fn lemma_common(a: Seq<usize>, b: Seq<usize>, i: int)
    requires
        0 <= i <= a.len(),
        i <= b.len(),
    ensures
        ({
            let same = crate::hit::common_from(a, b, i);
            &&& i <= same <= a.len()
            &&& same <= b.len()
            &&& forall|j: int| i <= j < same ==> a[j] == b[j]
            &&& same < a.len() && same < b.len() ==> a[same] != b[same]
        }),
    decreases a.len() - i,
{
    if i < a.len() && i < b.len() && a[i] == b[i] {
        lemma_common(a, b, i + 1);
    }
}

/// The node that scrolled is the first whose offset changed.
pub proof fn law_the_first_change_counts(offsets: Seq<(usize, bool)>, at: int)
    requires
        0 <= at <= offsets.len(),
        at < offsets.len() ==> offsets[at].1,
        forall|i: int| 0 <= i < at ==> !(#[trigger] offsets[i]).1,
    ensures
        crate::hit::changed_from(offsets, 0) == if at < offsets.len() {
            Some(offsets[at].0)
        } else {
            None
        },
{
    lemma_changed(offsets, 0, at);
}

proof fn lemma_changed(offsets: Seq<(usize, bool)>, from: int, at: int)
    requires
        0 <= from <= at <= offsets.len(),
        at < offsets.len() ==> offsets[at].1,
        forall|i: int| from <= i < at ==> !(#[trigger] offsets[i]).1,
    ensures
        crate::hit::changed_from(offsets, from) == if at < offsets.len() {
            Some(offsets[at].0)
        } else {
            None
        },
    decreases at - from,
{
    if from < at {
        assert(!offsets[from].1);
        lemma_changed(offsets, from + 1, at);
    }
}

/// Tab never stops at what is disabled or has a negative `tabindex`. It stops at
/// whatever else has one, and without one, at what takes the focus by default.
pub proof fn law_tab_stops(c: TabCandidate)
    ensures
        c.disabled ==> !c.stops(),
        c.tabindex matches Some(index) && index < 0 ==> !c.stops(),
        c.tabindex matches Some(index) && index >= 0 && !c.disabled ==> c.stops(),
        c.tabindex is None && !c.disabled ==> c.stops() == c.focusable,
{
}

/// The candidate has a `tabindex` above zero.
pub open spec fn numbered(c: TabCandidate) -> bool {
    c.tabindex is Some && c.tabindex->0 > 0
}

/// Tab visits what has a `tabindex` above zero before anything else, the lower
/// before the higher; and among equals, and among all others, it keeps the order
/// of the document.
pub proof fn law_tab_visits_in_order(candidates: Seq<TabCandidate>, a: int, b: int)
    ensures
        ({
            let x = candidates[a];
            let y = candidates[b];
            &&& numbered(x) && !numbered(y) ==> crate::focus::visited_before(candidates, a, b)
                && !crate::focus::visited_before(candidates, b, a)
            &&& numbered(x) && numbered(y) && x.tabindex->0 < y.tabindex->0
                ==> crate::focus::visited_before(candidates, a, b) && !crate::focus::visited_before(
                candidates,
                b,
                a,
            )
            &&& (numbered(x) && numbered(y) && x.tabindex->0 == y.tabindex->0) || (!numbered(x)
                && !numbered(y)) ==> (crate::focus::visited_before(candidates, a, b) <==> a < b)
        }),
{
}

/// An input, a select and a button take the focus by default, and so does an
/// anchor with an address; no other element does.
pub proof fn law_focusable_elements(tag: Seq<char>, has_href: bool)
    ensures
        crate::focus::focusable_by_default(tag, has_href) <==> tag == "input"@ || tag == "select"@
            || tag == "button"@ || (tag == "a"@ && has_href),
{
}

/// A frame draws each rectangle that shows, and no other, clipped and with its
/// place, in the order of the list.
pub proof fn law_frames_draw_what_shows(draws: Seq<Rect>, width: u32, height: u32, n: int)
    requires
        0 <= n <= draws.len(),
        n <= usize::MAX,
    ensures
        ({
            let plan = crate::surface::planned(draws, width, height, n);
            &&& forall|k: int|
                0 <= k < plan.len() ==> (#[trigger] plan[k]).0 < n && draws[plan[k].0 as int].clip(
                    width,
                    height,
                ) == Some(plan[k].1)
            &&& forall|j: int, k: int| 0 <= j < k < plan.len() ==> plan[j].0 < plan[k].0
            &&& forall|i: int|
                0 <= i < n && (#[trigger] draws[i]).clip(width, height) is Some ==> plan.contains(
                    (i as usize, draws[i].clip(width, height)->0),
                )
        }),
    decreases n,
{
    if n > 0 {
        law_frames_draw_what_shows(draws, width, height, n - 1);
        let before = crate::surface::planned(draws, width, height, n - 1);
        let plan = crate::surface::planned(draws, width, height, n);
        assert forall|i: int|
            0 <= i < n && (#[trigger] draws[i]).clip(width, height) is Some implies plan.contains(
            (i as usize, draws[i].clip(width, height)->0),
        ) by {
            let one = (i as usize, draws[i].clip(width, height)->0);
            if i == n - 1 {
                assert(plan[plan.len() - 1] == one);
            } else {
                assert(before.contains(one));
                let k = choose|k: int| 0 <= k < before.len() && before[k] == one;
                assert(plan[k] == one);
            }
        }
    }
}

/// A clipped rectangle begins where the whole one does, and is neither empty nor
/// beyond the target.
pub proof fn law_clipped_rectangles_stay_in_place(r: Rect, width: u32, height: u32)
    ensures
        r.clip(width, height) matches Some(c) ==> c.x == r.x && c.y == r.y && 0 < c.width <= r.width && 0
            < c.height <= r.height && c.x + c.width <= width && c.y + c.height <= height,
        r.clip(width, height) is None <==> r.width == 0 || r.height == 0 || r.x >= width || r.y
            >= height,
        r.x + r.width <= width && r.y + r.height <= height && r.width > 0 && r.height > 0
            ==> r.clip(width, height) == Some(r),
{
}

/// The mode blends.
pub open spec fn blends(mode: AlphaMode) -> bool {
    mode is PreMultiplied || mode is PostMultiplied
}

/// A surface has the first of its modes that blends, or else its first, or else
/// the opaque one. `at` is the place of that mode, or the number of modes where
/// none blends.
pub proof fn law_the_first_mode_that_blends_is_taken(modes: Seq<AlphaMode>, at: int)
    requires
        0 <= at <= modes.len(),
        at < modes.len() ==> blends(modes[at]),
        forall|i: int| 0 <= i < at ==> !blends(#[trigger] modes[i]),
    ensures
        crate::surface::alpha_mode_from(modes, 0) == if at < modes.len() {
            modes[at]
        } else if modes.len() > 0 {
            modes[0]
        } else {
            AlphaMode::Opaque
        },
{
    lemma_mode(modes, 0, at);
}

proof fn lemma_mode(modes: Seq<AlphaMode>, from: int, at: int)
    requires
        0 <= from <= at <= modes.len(),
        at < modes.len() ==> blends(modes[at]),
        forall|i: int| from <= i < at ==> !blends(#[trigger] modes[i]),
    ensures
        crate::surface::alpha_mode_from(modes, from) == if at < modes.len() {
            modes[at]
        } else if modes.len() > 0 {
            modes[0]
        } else {
            AlphaMode::Opaque
        },
    decreases at - from,
{
    if from < at {
        assert(!blends(modes[from]));
        lemma_mode(modes, from + 1, at);
    }
}

/// An argument that names the path of a capture, or says that the next does.
pub open spec fn about_capture(arg: Seq<char>) -> bool {
    arg == "--capture"@ || arg == "-c"@ || names_capture(arg)
}

/// An argument that names the path of a capture itself.
pub open spec fn names_capture(arg: Seq<char>) -> bool {
    exists|path: Seq<char>| arg == #[trigger] ("--capture="@ + path)
}

proof fn lemma_names_capture(arg: Seq<char>)
    ensures
        crate::capture::capture_assignment(arg) == names_capture(arg),
{
    let prefix = "--capture="@;
    let len = prefix.len() as int;
    if crate::capture::capture_assignment(arg) {
        assert(arg =~= prefix + arg.skip(len));
    }
    if names_capture(arg) {
        let path = choose|path: Seq<char>| arg == #[trigger] (prefix + path);
        assert((prefix + path).take(len) =~= prefix);
    }
}

proof fn lemma_path_in_args(args: Seq<String>, from: int, at: int)
    requires
        0 <= from <= at <= args.len(),
        at < args.len() ==> about_capture(args[at]@),
        forall|i: int| from <= i < at ==> !about_capture((#[trigger] args[i])@),
    ensures
        crate::capture::path_in_args(args, from) == crate::capture::path_in_args(args, at),
    decreases at - from,
{
    if from < at {
        assert(!about_capture(args[from]@));
        lemma_names_capture(args[from]@);
        lemma_path_in_args(args, from + 1, at);
    }
}

/// The first argument behind the program that is about captures decides: its own
/// path where it names one, and otherwise the next argument, or none where it is
/// the last. Where no argument is about captures, nothing is decided. `at` is
/// the place of that argument, or the number of arguments where there is none.
pub proof fn law_the_first_argument_decides(args: Seq<String>, at: int, path: Seq<char>)
    requires
        1 <= at <= args.len(),
        at < args.len() ==> about_capture(args[at]@),
        forall|i: int| 1 <= i < at ==> !about_capture((#[trigger] args[i])@),
    ensures
        at == args.len() ==> crate::capture::path_in_args(args, 1) is None,
        at < args.len() && args[at]@ == "--capture="@ + path ==> crate::capture::path_in_args(
            args,
            1,
        ) == Some(Some(path)),
        at < args.len() && !names_capture(args[at]@) ==> crate::capture::path_in_args(args, 1)
            == Some(
            if at + 1 < args.len() {
                Some(args[at + 1]@)
            } else {
                None
            },
        ),
{
    lemma_path_in_args(args, 1, at);
    if at < args.len() {
        lemma_names_capture(args[at]@);
        let prefix = "--capture="@;
        if args[at]@ == prefix + path {
            assert((prefix + path).take(prefix.len() as int) =~= prefix);
            assert((prefix + path).skip(prefix.len() as int) =~= path);
        }
    }
}

/// The name of a capture is the stem, a hyphen and the suffix where there is
/// one, a point, and the extension, which is that of a picture where there is
/// none.
pub proof fn law_capture_names_are_made_of_their_parts(
    stem: Seq<char>,
    ext: Seq<char>,
    suffix: Seq<char>,
)
    requires
        ext.len() > 0,
        suffix.len() > 0,
    ensures
        crate::capture::capture_name_of(stem, Some(ext), Some(suffix)) == stem + "-"@ + suffix
            + "."@ + ext,
        crate::capture::capture_name_of(stem, Some(ext), None) == stem + "."@ + ext,
        crate::capture::capture_name_of(stem, None, Some(suffix)) == stem + "-"@ + suffix + "."@
            + "png"@,
        crate::capture::capture_name_of(stem, None, None) == stem + "."@ + "png"@,
        crate::capture::capture_name_of(stem, Some(Seq::empty()), None) == stem + "."@ + "png"@,
{
}

/// A file name with an extension is its stem, a point and the extension, and the
/// last point parts them; a name has none where its only point comes first or it
/// has no point, or where it is two points.
pub proof fn law_names_are_parted_at_the_last_point(name: Seq<char>, at: int)
    requires
        -1 <= at < name.len(),
        at >= 0 ==> name[at] == '.',
        forall|i: int| at < i < name.len() ==> name[i] != '.',
    ensures
        at > 0 && name != ".."@ ==> {
            &&& crate::paths::name_stem(name) == name.take(at)
            &&& crate::paths::name_extension(name) == Some(name.skip(at + 1))
        },
        at <= 0 || name == ".."@ ==> {
            &&& crate::paths::name_stem(name) == name
            &&& crate::paths::name_extension(name) is None
        },
{
    lemma_point(name, name.len() as int, at);
}

proof fn lemma_point(name: Seq<char>, end: int, at: int)
    requires
        -1 <= at < end <= name.len() || (at == -1 && end == 0),
        at >= 0 ==> name[at] == '.',
        forall|i: int| at < i < end ==> name[i] != '.',
    ensures
        crate::paths::last_dot(name, end) == at,
    decreases end,
{
    if end > 0 && at < end - 1 {
        assert(name[end - 1] != '.');
        lemma_point(name, end - 1, at);
    }
}

/// Only what has one of the extensions `jsx`, `tsx` and `ts` is compiled.
pub proof fn law_modules_are_compiled_by_their_extension(path: Seq<char>)
    ensures
        crate::source::compiled_module(path) <==> {
            let ext = crate::paths::path_extension(path);
            ext == Some("jsx"@) || ext == Some("tsx"@) || ext == Some("ts"@)
        },
{
}

/// What the compiler made of a component is mounted, and its error is reported.
/// Without a compiler the source itself is mounted, unless it would have to be
/// compiled: that is reported with its path.
pub proof fn law_compiled_modules_are_mounted(
    path: Seq<char>,
    source: Seq<char>,
    module: String,
    message: String,
)
    ensures
        crate::source::module_outcome(path, source, Some(Ok(module))) == Ok::<
            Seq<char>,
            crate::error::InstanceErrorModel,
        >(module@),
        crate::source::module_outcome(path, source, Some(Err(message))) == Err::<
            Seq<char>,
            crate::error::InstanceErrorModel,
        >(crate::error::InstanceErrorModel::CompileComponent { message: message@ }),
        crate::source::compiled_module(path) ==> crate::source::module_outcome(path, source, None)
            == Err::<Seq<char>, crate::error::InstanceErrorModel>(
            crate::error::InstanceErrorModel::UnsupportedJsxModule { path },
        ),
        !crate::source::compiled_module(path) ==> crate::source::module_outcome(path, source, None)
            == Ok::<Seq<char>, crate::error::InstanceErrorModel>(source),
{
}

/// The stems of the names of entry points, in the order in which they are looked
/// for.
pub open spec fn entry_stem(i: int) -> Seq<char> {
    if i == 0 {
        "index"@
    } else {
        "app"@
    }
}

/// The extensions of entry points, in the order in which they are looked for.
pub open spec fn entry_extension(i: int) -> Seq<char> {
    if i == 0 {
        "tsx"@
    } else if i == 1 {
        "jsx"@
    } else if i == 2 {
        "ts"@
    } else if i == 3 {
        "js"@
    } else {
        "mjs"@
    }
}

/// Entry points are looked for by one stem after the other, and under each by
/// one extension after the other.
pub proof fn law_entry_points_have_an_order(stem: int, ext: int)
    requires
        0 <= stem < 2,
        0 <= ext < 5,
    ensures
        crate::source::entry_names().len() == 10,
        crate::source::entry_names()[5 * stem + ext] == entry_stem(stem) + "."@ + entry_extension(
            ext,
        ),
{
    reveal_strlit("index.tsx");
    reveal_strlit("index.jsx");
    reveal_strlit("index.ts");
    reveal_strlit("index.js");
    reveal_strlit("index.mjs");
    reveal_strlit("app.tsx");
    reveal_strlit("app.jsx");
    reveal_strlit("app.ts");
    reveal_strlit("app.js");
    reveal_strlit("app.mjs");
    reveal_strlit("index");
    reveal_strlit("app");
    reveal_strlit(".");
    reveal_strlit("tsx");
    reveal_strlit("jsx");
    reveal_strlit("ts");
    reveal_strlit("js");
    reveal_strlit("mjs");
    assert(crate::source::entry_names()[5 * stem + ext] =~= entry_stem(stem) + "."@
        + entry_extension(ext));
}

/// The entry point among files is the first that has one of the names, whatever
/// the order of the names; there is at most one.
pub proof fn law_one_file_is_the_entry_point(files: Seq<VirtualSourceFile>, a: int, b: int)
    requires
        crate::source::first_entry(files, a),
    ensures
        crate::source::entry_names().contains(files[a].path@),
        0 <= b < a ==> !crate::source::entry_names().contains(files[b].path@),
        crate::source::first_entry(files, b) ==> a == b,
{
    if crate::source::first_entry(files, b) {
        assert(a < b ==> !crate::source::entry_names().contains(files[a].path@));
        assert(b < a ==> !crate::source::entry_names().contains(files[b].path@));
    }
}

/// Of a directory, the directory itself is watched; of a file, the directory it
/// lies in, and the present one where its path names none.
pub proof fn law_directories_are_watched(path: Seq<char>)
    ensures
        crate::source::watched(path, true) == path,
        crate::paths::path_parent(path) matches Some(parent) ==> crate::source::watched(
            path,
            false,
        ) == parent,
        crate::paths::path_parent(path) is None ==> crate::source::watched(path, false) == "."@,
{
}

/// A change outside the source directory calls for nothing. Within it, a change
/// of a script in one of the languages that are compiled calls for another
/// bundle, and no change calls for both that and another stylesheet.
pub proof fn law_changes_are_told_by_their_extension(path: Seq<char>, source_dir: Seq<char>)
    ensures
        !crate::paths::path_within(path, source_dir) ==> !crate::source::rebuilds(path, source_dir)
            && !crate::source::changed_as(path, source_dir, "css"@),
        crate::paths::path_within(path, source_dir) && crate::source::compiled_module(path)
            ==> crate::source::rebuilds(path, source_dir),
        crate::paths::path_within(path, source_dir) && crate::paths::path_extension(path) == Some(
            "css"@,
        ) ==> crate::source::changed_as(path, source_dir, "css"@),
        !(crate::source::rebuilds(path, source_dir) && crate::source::changed_as(
            path,
            source_dir,
            "css"@,
        )),
        crate::paths::path_extension(path) is None ==> !crate::source::rebuilds(path, source_dir)
            && !crate::source::changed_as(path, source_dir, "css"@),
{
    reveal_strlit("css");
    reveal_strlit("jsx");
    reveal_strlit("tsx");
    reveal_strlit("ts");
    if let Some(ext) = crate::paths::path_extension(path) {
        if crate::text::same_ignoring_case(ext, "css"@) {
            assert(crate::text::ascii_lower(ext[0]) == crate::text::ascii_lower("css"@[0]));
        }
    }
}

/// The extension of a format of fonts.
pub open spec fn font_extension(format: FontFormat) -> Seq<char> {
    match format {
        FontFormat::Truetype => "ttf"@,
        FontFormat::Opentype => "otf"@,
        FontFormat::Woff => "woff"@,
        FontFormat::Woff2 => "woff2"@,
    }
}

/// A font is of the format whose extension its path has, in whatever case, and
/// of no other.
pub proof fn law_fonts_are_told_by_their_extension(path: Seq<char>, a: FontFormat, b: FontFormat)
    ensures
        a.of_path(path) <==> (crate::paths::path_extension(path) matches Some(ext)
            && crate::text::same_ignoring_case(ext, font_extension(a))),
        a.of_path(path) && b.of_path(path) ==> a == b,
{
    reveal_strlit("ttf");
    reveal_strlit("otf");
    reveal_strlit("woff");
    reveal_strlit("woff2");
    if a.of_path(path) && b.of_path(path) {
        let ext = crate::paths::path_extension(path)->0;
        assert(crate::text::ascii_lower(ext[0]) == crate::text::ascii_lower(font_extension(a)[0]));
    }
}

/// The configured address comes first, then that of the directory, then the
/// default.
pub proof fn law_addresses_have_an_order(
    configured: Option<Seq<char>>,
    directory: Option<Seq<char>>,
    default: Seq<char>,
)
    ensures
        configured matches Some(url) ==> crate::base_url::chosen(configured, directory, default)
            == url,
        configured is None && directory is Some ==> crate::base_url::chosen(
            configured,
            directory,
            default,
        ) == directory->0,
        configured is None && directory is None ==> crate::base_url::chosen(
            configured,
            directory,
            default,
        ) == default,
{
}

/// An address that is parsed is taken in its canonical form; one that is not is
/// reported with the value and the message.
pub proof fn law_addresses_are_canonical_or_reported(
    value: Seq<char>,
    url: Seq<char>,
    message: Seq<char>,
)
    ensures
        crate::base_url::canonical_outcome(value, Ok(url)) == Ok::<
            Seq<char>,
            crate::error::InstanceErrorModel,
        >(url),
        crate::base_url::canonical_outcome(value, Err(message)) == Err::<
            Seq<char>,
            crate::error::InstanceErrorModel,
        >(crate::error::InstanceErrorModel::BaseUrl { value, error: message }),
{
}

/// A frame is drawn exactly where one was given. A surface that is outdated or
/// lost is configured again, once. The host is told to try again unless the
/// surface was used wrongly.
pub proof fn law_frames_are_presented(status: SurfaceStatus)
    ensures
        ({
            let first = crate::surface::next_step(status, false);
            let again = crate::surface::next_step(status, true);
            &&& (first is Draw <==> status is Success || status is Suboptimal)
            &&& (again is Draw <==> first is Draw)
            &&& (first is Reconfigure <==> status is Outdated || status is Lost)
            &&& !(again is Reconfigure)
            &&& (again matches PresentStep::Stop { retry } ==> (retry <==> !(
            status is Validation)))
            &&& (first matches PresentStep::Stop { retry } ==> (retry <==> !(
            status is Validation)))
        }),
{
}

} // verus!
