//! Work on the desktop and in the browser: what the tools make of their
//! arguments, the text that they find on the screen, and the messages to the
//! driver of the browser and to a simulated window.

use crate::gateway::{empty_table, text_or};
use crate::json::{
    bool_member, count_member, int_member, json_reading, json_text, list_member, list_model, list_model_elements, member,
    read_json, text_member, Json, JsonModel,
};
use crate::mcp::or_null;
use crate::ocr::{OcrBox, OcrSummary};
use crate::text::{
    chars_of, contains_text, copy_str, finishes_with, first_chars, has_text, join, joined, lowercase, remove_words,
    same_text, take_chars, texts, trim, trimmed, unicode_lower, without_words,
};
use crate::tools::{optional_string, required_string, text_arg_or};
use vstd::prelude::*;

pub mod catalog;
pub mod simulator;

verus! {

// ---------------------------------------------------------------------------
// Input
// ---------------------------------------------------------------------------

/// Something that is done to the desktop.
pub enum DesktopInput {
    Click { x: i32, y: i32 },
    Type { text: String },
    /// One key, or keys together.
    Keys { combo: String },
    Launch { target: String },
    /// Up where `delta` is positive.
    Scroll { x: i32, y: i32, delta: i32 },
}

/// A click at a place on the screen.
pub fn desktop_click(x: i32, y: i32) -> (r: DesktopInput)
    ensures
        r == (DesktopInput::Click { x, y }),
{
    DesktopInput::Click { x, y }
}

/// Typing.
pub fn desktop_type(text: &str) -> (r: DesktopInput)
    ensures
        r matches DesktopInput::Type { text: t } && t@ == text@,
{
    DesktopInput::Type { text: copy_str(text) }
}

/// A key.
pub fn desktop_key(key: &str) -> (r: DesktopInput)
    ensures
        r matches DesktopInput::Keys { combo } && combo@ == key@,
{
    DesktopInput::Keys { combo: copy_str(key) }
}

/// Keys together.
pub fn desktop_shortcut(combo: &str) -> (r: DesktopInput)
    ensures
        r matches DesktopInput::Keys { combo: c } && c@ == combo@,
{
    DesktopInput::Keys { combo: copy_str(combo) }
}

/// The start of an application or the opening of an address.
pub fn desktop_launch(target: &str) -> (r: DesktopInput)
    ensures
        r matches DesktopInput::Launch { target: t } && t@ == target@,
{
    DesktopInput::Launch { target: copy_str(target) }
}

/// Scrolling at a place on the screen.
pub fn desktop_scroll(x: i32, y: i32, delta: i32) -> (r: DesktopInput)
    ensures
        r == (DesktopInput::Scroll { x, y, delta }),
{
    DesktopInput::Scroll { x, y, delta }
}

/// The number under a key, cut to the range of `i32`.
pub open spec fn i32_arg(args: JsonModel, key: Seq<char>) -> Option<i32> {
    match int_member(args, key) {
        Some(n) => Some(((n as i64) as i32)),
        None => None,
    }
}

fn required_i32(args: &Json, key: &str) -> (r: Result<i32, String>)
    ensures
        match r {
            Ok(n) => i32_arg(args.model(), key@) == Some(n),
            Err(e) => i32_arg(args.model(), key@) is None && e@ == "缺少 "@ + key@,
        },
{
    match args.int_at(key) {
        Some(n) => Ok(#[verifier::truncate] (n as i32)),
        None => {
            let mut e = copy_str("缺少 ");
            e.append(key);
            Err(e)
        },
    }
}

/// The message of the first of the keys that has no number.
pub open spec fn missing_number(args: JsonModel, keys: Seq<Seq<char>>, i: int) -> Option<Seq<char>>
    decreases keys.len() - i,
{
    if i >= keys.len() {
        None
    } else if i32_arg(args, keys[i]) is None {
        Some("缺少 "@ + keys[i])
    } else {
        missing_number(args, keys, i + 1)
    }
}

/// Where a click is to be.
pub fn click_args(args: &Json) -> (r: Result<(i32, i32), String>)
    ensures
        match r {
            Ok(p) => i32_arg(args.model(), "x"@) == Some(p.0) && i32_arg(args.model(), "y"@) == Some(p.1),
            Err(e) => missing_number(args.model(), seq!["x"@, "y"@], 0) == Some(e@),
        },
{
    proof {
        reveal_with_fuel(missing_number, 3);
        let keys = seq!["x"@, "y"@];
        assert(keys[0] == "x"@ && keys[1] == "y"@);
    }
    let x: i32 = match required_i32(args, "x") {
        Ok(n) => n,
        Err(e) => {
            return Err(e);
        },
    };
    match required_i32(args, "y") {
        Ok(y) => Ok((x, y)),
        Err(e) => Err(e),
    }
}

/// Where and how far it is to be scrolled.
pub fn scroll_args(args: &Json) -> (r: Result<(i32, i32, i32), String>)
    ensures
        match r {
            Ok(p) => i32_arg(args.model(), "x"@) == Some(p.0) && i32_arg(args.model(), "y"@) == Some(p.1) && i32_arg(
                args.model(),
                "delta"@,
            ) == Some(p.2),
            Err(e) => missing_number(args.model(), seq!["x"@, "y"@, "delta"@], 0) == Some(e@),
        },
{
    proof {
        reveal_with_fuel(missing_number, 4);
        let keys = seq!["x"@, "y"@, "delta"@];
        assert(keys[0] == "x"@ && keys[1] == "y"@ && keys[2] == "delta"@);
    }
    let x: i32 = match required_i32(args, "x") {
        Ok(n) => n,
        Err(e) => {
            return Err(e);
        },
    };
    let y: i32 = match required_i32(args, "y") {
        Ok(n) => n,
        Err(e) => {
            return Err(e);
        },
    };
    match required_i32(args, "delta") {
        Ok(d) => Ok((x, y, d)),
        Err(e) => Err(e),
    }
}

/// The longest time that is waited, in milliseconds.
pub const MAX_WAIT_MS: u64 = 120_000;

/// How long it is to be waited.
pub fn wait_args(args: &Json) -> (r: Result<u64, String>)
    ensures
        match count_member(args.model(), "ms"@) {
            Some(n) => r == Ok::<u64, String>(
                if n < MAX_WAIT_MS {
                    n as u64
                } else {
                    MAX_WAIT_MS
                },
            ),
            None => r matches Err(e) && e@ == "缺少 ms"@,
        },
{
    match args.count_at("ms") {
        Some(n) => Ok(
            if n < MAX_WAIT_MS {
                n
            } else {
                MAX_WAIT_MS
            },
        ),
        None => Err(copy_str("缺少 ms")),
    }
}

/// How many words are handed out at most.
pub fn max_boxes_arg(args: &Json) -> (r: u64)
    ensures
        r == count_or(args.model(), "max_boxes"@, 120),
{
    match args.count_at("max_boxes") {
        Some(n) => n,
        None => 120,
    }
}

/// A list of numbers as a JSON value.
pub open spec fn int_list(v: Seq<i32>) -> JsonModel {
    JsonModel::List(v.map_values(|n: i32| JsonModel::Int(n as int)))
}

fn ints_json(v: &Vec<i32>) -> (r: Json)
    ensures
        r.model() == int_list(v@),
{
    let mut list: Vec<Json> = Vec::new();
    for i in 0..v.len()
        invariant
            list@.len() == i,
            forall|j: int| 0 <= j < i ==> (#[trigger] list@[j]).model() == JsonModel::Int(v@[j] as int),
    {
        list.push(Json::Int(v[i] as i64));
    }
    proof {
        list_model_elements(list@);
        assert(list_model(list@) =~= v@.map_values(|n: i32| JsonModel::Int(n as int)));
    }
    Json::List(list)
}

/// What a click answers.
pub fn click_result(x: i32, y: i32) -> (r: Json)
    ensures
        r.model() == JsonModel::Table(empty_table().insert("clicked"@, int_list(seq![x, y]))),
{
    let mut v: Vec<i32> = Vec::new();
    v.push(x);
    v.push(y);
    assert(v@ =~= seq![x, y]);
    Json::table().with("clicked", ints_json(&v))
}

/// What scrolling answers; a simulated window need not be scrolled.
pub fn scroll_result(x: i32, y: i32, delta: i32, simulated: bool) -> (r: Json)
    ensures
        r.model() == JsonModel::Table(
            marked(empty_table().insert("scrolled"@, int_list(seq![x, y, delta])), simulated),
        ),
{
    let mut v: Vec<i32> = Vec::new();
    v.push(x);
    v.push(y);
    v.push(delta);
    assert(v@ =~= seq![x, y, delta]);
    let j = Json::table().with("scrolled", ints_json(&v));
    if simulated {
        j.with("surface", Json::text("sim"))
    } else {
        j
    }
}

/// The members, with the mark of a simulated window where it is one.
pub open spec fn marked(m: Map<Seq<char>, JsonModel>, simulated: bool) -> Map<Seq<char>, JsonModel> {
    if simulated {
        m.insert("surface"@, JsonModel::Text("sim"@))
    } else {
        m
    }
}

/// What typing answers.
pub fn type_result(text: &str) -> (r: Json)
    ensures
        r.model() == JsonModel::Table(empty_table().insert("typed_chars"@, JsonModel::Int(text@.len() as int))),
{
    let n: usize = chars_of(text).len();
    Json::table().with("typed_chars", Json::UInt(n as u64))
}

/// What a launch answers.
pub fn launch_result(target: &str, simulated: bool) -> (r: Json)
    ensures
        r.model() == JsonModel::Table(
            marked(empty_table().insert("launched"@, JsonModel::Text(target@)), simulated),
        ),
{
    let j = Json::table().with("launched", Json::text(target));
    if simulated {
        j.with("surface", Json::text("sim"))
    } else {
        j
    }
}

/// What a key answers.
pub fn key_result(key: &str) -> (r: Json)
    ensures
        r.model() == JsonModel::Table(empty_table().insert("key"@, JsonModel::Text(key@))),
{
    Json::table().with("key", Json::text(key))
}

/// What keys together answer.
pub fn shortcut_result(combo: &str) -> (r: Json)
    ensures
        r.model() == JsonModel::Table(empty_table().insert("combo"@, JsonModel::Text(combo@))),
{
    Json::table().with("combo", Json::text(combo))
}

/// What waiting answers.
pub fn wait_result(ms: u64) -> (r: Json)
    ensures
        r.model() == JsonModel::Table(empty_table().insert("waited_ms"@, JsonModel::Int(ms as int))),
{
    Json::table().with("waited_ms", Json::UInt(ms))
}

/// What the closing of the browser answers.
pub fn close_result() -> (r: Json)
    ensures
        r.model() == JsonModel::Table(empty_table().insert("closed"@, JsonModel::Bool(true))),
{
    Json::table().with("closed", Json::Bool(true))
}

// ---------------------------------------------------------------------------
// Windows
// ---------------------------------------------------------------------------

/// A window of the desktop.
pub struct WindowInfo {
    pub hwnd: i64,
    pub process: String,
    pub title: String,
    pub visible: bool,
}

/// The window is one that is meant: the given part of its process or of its
/// title stands there.
pub open spec fn is_meant(w: WindowInfo, process: Seq<char>, title: Seq<char>) -> bool {
    w.visible && ((process.len() > 0 && has_text(w.process@, process)) || (title.len() > 0 && has_text(
        w.title@,
        title,
    )))
}

/// The first window that is meant, from `i` on.
pub open spec fn first_meant(v: Seq<WindowInfo>, process: Seq<char>, title: Seq<char>, i: int) -> int
    decreases v.len() - i,
{
    if i >= v.len() {
        -1
    } else if is_meant(v[i], process, title) {
        i
    } else {
        first_meant(v, process, title, i + 1)
    }
}

/// The window that the arguments mean: the one of the number, else the first
/// that matches.
pub fn find_window(args: &Json, windows: &Vec<WindowInfo>) -> (r: Result<i64, String>)
    ensures
        match int_member(args.model(), "hwnd"@) {
            Some(n) => r == Ok::<i64, String>(n as i64),
            None => {
                let process = text_arg_or(args.model(), "process"@, Seq::<char>::empty());
                let title = text_arg_or(args.model(), "title"@, Seq::<char>::empty());
                let at = first_meant(windows@, process, title, 0);
                if process.len() == 0 && title.len() == 0 {
                    r matches Err(e) && e@ == "desktop_window_ocr 需要 hwnd 或 process/title"@
                } else if at == -1 {
                    r matches Err(e) && e@ == "未找到窗口（process="@ + process + ", title="@ + title + "）"@
                } else {
                    0 <= at < windows@.len() && r == Ok::<i64, String>(windows@[at].hwnd)
                }
            },
        },
{
    if let Some(n) = args.int_at("hwnd") {
        return Ok(n);
    }
    let none = String::new();
    let process = optional_string(args, "process", none.as_str());
    let title = optional_string(args, "title", none.as_str());
    assert(none@ =~= Seq::<char>::empty());
    if process.as_str().is_empty() && title.as_str().is_empty() {
        return Err(copy_str("desktop_window_ocr 需要 hwnd 或 process/title"));
    }
    let mut i: usize = 0;
    while i < windows.len()
        invariant
            i <= windows@.len(),
            int_member(args.model(), "hwnd"@) is None,
            process@ == text_arg_or(args.model(), "process"@, Seq::<char>::empty()),
            title@ == text_arg_or(args.model(), "title"@, Seq::<char>::empty()),
            process@.len() > 0 || title@.len() > 0,
            first_meant(windows@, process@, title@, 0) == first_meant(windows@, process@, title@, i as int),
        decreases windows@.len() - i,
    {
        let w = &windows[i];
        let by_process = !process.as_str().is_empty() && contains_text(w.process.as_str(), process.as_str());
        let by_title = !title.as_str().is_empty() && contains_text(w.title.as_str(), title.as_str());
        if w.visible && (by_process || by_title) {
            return Ok(w.hwnd);
        }
        i += 1;
    }
    let mut e = copy_str("未找到窗口（process=");
    e.append(process.as_str());
    e.append(", title=");
    e.append(title.as_str());
    e.append("）");
    Err(e)
}

/// Whether the arguments name a window to bring to the front.
pub fn activate_args(args: &Json) -> (r: Result<(String, String), String>)
    ensures
        ({
            let process = text_arg_or(args.model(), "process"@, Seq::<char>::empty());
            let title = text_arg_or(args.model(), "title"@, Seq::<char>::empty());
            match r {
                Ok(p) => p.0@ == process && p.1@ == title && (process.len() > 0 || title.len() > 0),
                Err(e) => process.len() == 0 && title.len() == 0 && e@ == "desktop_activate 需要 process 或 title"@,
            }
        }),
{
    let none = String::new();
    assert(none@ =~= Seq::<char>::empty());
    let process = optional_string(args, "process", none.as_str());
    let title = optional_string(args, "title", none.as_str());
    if process.as_str().is_empty() && title.as_str().is_empty() {
        return Err(copy_str("desktop_activate 需要 process 或 title"));
    }
    Ok((process, title))
}

// ---------------------------------------------------------------------------
// Text on the screen
// ---------------------------------------------------------------------------

/// What a line of text is likely to be.
pub open spec fn role_of(text: Seq<char>, y: i32) -> Seq<char> {
    if has_text(text, "发送"@) || has_text(text, "搜索"@) || has_text(text, "提交"@) {
        "button"@
    } else if has_text(text, "输入"@) || has_text(text, "请输入"@) {
        "input"@
    } else if y < 60 {
        "header"@
    } else {
        "text"@
    }
}

/// What a line of text is likely to be.
pub fn role_hint(text: &str, y: i32) -> (r: &'static str)
    ensures
        r@ == role_of(text@, y),
{
    if contains_text(text, "发送") || contains_text(text, "搜索") || contains_text(text, "提交") {
        "button"
    } else if contains_text(text, "输入") || contains_text(text, "请输入") {
        "input"
    } else if y < 60 {
        "header"
    } else {
        "text"
    }
}

/// A word or line with its place, moved by an offset.
pub open spec fn box_members(b: OcrBox, dx: int, dy: int) -> Map<Seq<char>, JsonModel> {
    empty_table().insert("text"@, JsonModel::Text(b.text@)).insert("x"@, JsonModel::Int(b.x + dx)).insert(
        "y"@,
        JsonModel::Int(b.y + dy),
    ).insert("width"@, JsonModel::Int(b.width as int)).insert("height"@, JsonModel::Int(b.height as int))
}

pub open spec fn box_model(b: OcrBox, dx: int, dy: int) -> JsonModel {
    JsonModel::Table(box_members(b, dx, dy))
}

/// A line with what it is likely to be.
pub open spec fn line_model(b: OcrBox, dx: int, dy: int) -> JsonModel {
    JsonModel::Table(box_members(b, dx, dy).insert("role_hint"@, JsonModel::Text(role_of(b.text@, b.y))))
}

fn box_json(b: &OcrBox, dx: i32, dy: i32) -> (r: Json)
    ensures
        r is Table,
        r.model() == box_model(*b, dx as int, dy as int),
{
    Json::table().with("text", Json::text(b.text.as_str())).with("x", Json::Int(b.x as i64 + dx as i64)).with(
        "y",
        Json::Int(b.y as i64 + dy as i64),
    ).with("width", Json::Int(b.width as i64)).with("height", Json::Int(b.height as i64))
}

/// The first boxes.
pub open spec fn first_boxes(v: Seq<OcrBox>, n: int) -> Seq<OcrBox> {
    if n < v.len() {
        v.take(n)
    } else {
        v
    }
}

/// The members of what was read: the text, the lines and the words.
pub open spec fn summary_members(
    s: OcrSummary,
    lines: Seq<OcrBox>,
    max_boxes: int,
    dx: int,
    dy: int,
) -> Map<Seq<char>, JsonModel> {
    empty_table().insert("text"@, JsonModel::Text(s.text@)).insert("chars"@, JsonModel::Int(s.chars as int)).insert(
        "lines"@,
        JsonModel::List(lines.map_values(|b: OcrBox| line_model(b, dx, dy))),
    ).insert(
        "boxes"@,
        JsonModel::List(first_boxes(s.boxes@, max_boxes).map_values(|b: OcrBox| box_model(b, dx, dy))),
    ).insert("box_count"@, JsonModel::Int(s.boxes@.len() as int))
}

fn summary_json(summary: &OcrSummary, lines: &Vec<OcrBox>, max_boxes: usize, dx: i32, dy: i32) -> (r: Json)
    ensures
        r is Table,
        r.model() == JsonModel::Table(
            summary_members(*summary, lines@, max_boxes as int, dx as int, dy as int),
        ),
{
    let mut line_list: Vec<Json> = Vec::new();
    for i in 0..lines.len()
        invariant
            line_list@.len() == i,
            forall|j: int|
                0 <= j < i ==> (#[trigger] line_list@[j]).model() == line_model(lines@[j], dx as int, dy as int),
    {
        let b = &lines[i];
        let role = role_hint(b.text.as_str(), b.y);
        line_list.push(box_json(b, dx, dy).with("role_hint", Json::text(role)));
    }
    proof {
        list_model_elements(line_list@);
        assert(list_model(line_list@) =~= lines@.map_values(|b: OcrBox| line_model(b, dx as int, dy as int)));
    }
    let n: usize = if max_boxes < summary.boxes.len() {
        max_boxes
    } else {
        summary.boxes.len()
    };
    let mut box_list: Vec<Json> = Vec::new();
    for i in 0..n
        invariant
            n <= summary.boxes@.len(),
            box_list@.len() == i,
            forall|j: int|
                0 <= j < i ==> (#[trigger] box_list@[j]).model() == box_model(
                    summary.boxes@[j],
                    dx as int,
                    dy as int,
                ),
    {
        box_list.push(box_json(&summary.boxes[i], dx, dy));
    }
    proof {
        list_model_elements(box_list@);
        assert(list_model(box_list@) =~= first_boxes(summary.boxes@, max_boxes as int).map_values(
            |b: OcrBox| box_model(b, dx as int, dy as int),
        ));
    }
    Json::table().with("text", Json::text(summary.text.as_str())).with("chars", Json::UInt(summary.chars as u64)).with(
        "lines",
        Json::List(line_list),
    ).with("boxes", Json::List(box_list)).with("box_count", Json::UInt(summary.boxes.len() as u64))
}

/// What was read on a surface: the text, its lines with what they are likely to
/// be, and the first words.
pub fn ocr_summary_json(summary: &OcrSummary, lines: &Vec<OcrBox>, max_boxes: usize, surface: &str) -> (r: Json)
    ensures
        r.model() == JsonModel::Table(
            summary_members(*summary, lines@, max_boxes as int, 0, 0).insert("surface"@, JsonModel::Text(surface@)),
        ),
{
    summary_json(summary, lines, max_boxes, 0, 0).with("surface", Json::text(surface))
}

/// Where the text on the screen is to come from.
pub enum ScreenNext {
    /// It is known.
    Known(Json),
    /// From a picture of the simulated window.
    Frame,
    /// From a picture of the desktop.
    Capture,
}

/// Where the text on the screen is to come from: a simulated window says it
/// itself, where it can; else it is read from a picture.
pub fn ocr_screen(simulated: bool, said: Option<Json>) -> (r: ScreenNext)
    ensures
        match (simulated, said) {
            (true, Some(j)) => r == ScreenNext::Known(j),
            (true, None) => r is Frame,
            (false, _) => r is Capture,
        },
{
    if !simulated {
        return ScreenNext::Capture;
    }
    match said {
        Some(j) => ScreenNext::Known(j),
        None => ScreenNext::Frame,
    }
}

/// What the reading of a picture answers; `region` tells a part of the screen
/// from the whole.
pub fn screen_text(
    read: Result<(OcrSummary, Vec<OcrBox>), String>,
    region: bool,
    max_boxes: usize,
    simulated: bool,
) -> (r: Result<Json, String>)
    ensures
        match read {
            Ok(x) => r matches Ok(j) && j.model() == JsonModel::Table(
                summary_members(x.0, x.1@, max_boxes as int, 0, 0).insert(
                    "surface"@,
                    JsonModel::Text(
                        if simulated {
                            "sim"@
                        } else {
                            "desktop"@
                        },
                    ),
                ),
            ),
            Err(e) => r matches Err(m) && m@ == (if region {
                "区域 OCR 失败："@
            } else {
                "OCR 失败："@
            }) + e@,
        },
{
    match read {
        Ok((summary, lines)) => {
            let surface = if simulated {
                "sim"
            } else {
                "desktop"
            };
            Ok(ocr_summary_json(&summary, &lines, max_boxes, surface))
        },
        Err(e) => {
            let mut m = if region {
                copy_str("区域 OCR 失败：")
            } else {
                copy_str("OCR 失败：")
            };
            m.append(e.as_str());
            Err(m)
        },
    }
}

/// What was read in a window, at its places on the screen.
pub fn window_ocr_json(
    summary: &OcrSummary,
    lines: &Vec<OcrBox>,
    hwnd: i64,
    rect: (i32, i32, i32, i32),
) -> (r: Json)
    ensures
        r.model() == JsonModel::Table(
            summary_members(*summary, lines@, 200, rect.0 as int, rect.1 as int).insert(
                "surface"@,
                JsonModel::Text("window"@),
            ).insert(
                "window"@,
                JsonModel::Table(
                    empty_table().insert("hwnd"@, JsonModel::Int(hwnd as int)).insert(
                        "rect"@,
                        int_list(seq![rect.0, rect.1, rect.2, rect.3]),
                    ),
                ),
            ),
        ),
{
    let mut v: Vec<i32> = Vec::new();
    v.push(rect.0);
    v.push(rect.1);
    v.push(rect.2);
    v.push(rect.3);
    assert(v@ =~= seq![rect.0, rect.1, rect.2, rect.3]);
    let window = Json::table().with("hwnd", Json::Int(hwnd)).with("rect", ints_json(&v));
    summary_json(summary, lines, 200, rect.0, rect.1).with("surface", Json::text("window")).with("window", window)
}

/// The line holds the text, in any case, and is what it is asked to be.
pub open spec fn line_matches(line: JsonModel, needle: Seq<char>, role: Seq<char>) -> bool {
    &&& role.len() == 0 || text_member(line, "role_hint"@) == Some(role)
    &&& has_text(unicode_lower(text_arg_or(line, "text"@, Seq::<char>::empty())), unicode_lower(needle))
}

/// The first line that matches, from `i` on.
pub open spec fn first_line(v: Seq<JsonModel>, needle: Seq<char>, role: Seq<char>, i: int) -> Option<JsonModel>
    decreases v.len() - i,
{
    if i >= v.len() {
        None
    } else if line_matches(v[i], needle, role) {
        Some(v[i])
    } else {
        first_line(v, needle, role, i + 1)
    }
}

/// The line with a text in what was read.
pub open spec fn found_line(ocr: JsonModel, needle: Seq<char>, role: Seq<char>) -> Option<JsonModel> {
    match list_member(ocr, "lines"@) {
        Some(v) => first_line(v, needle, role, 0),
        None => None,
    }
}

/// Finds the first line that holds a text, in any case; where a role is asked
/// for, among the lines that are likely to be that.
pub fn find_ocr_line(ocr: &Json, needle: &str, role: &str) -> (r: Option<Json>)
    ensures
        match r {
            Some(j) => found_line(ocr.model(), needle@, role@) == Some(j.model()),
            None => found_line(ocr.model(), needle@, role@) is None,
        },
{
    let lower = lowercase(needle);
    let none = String::new();
    assert(none@ =~= Seq::<char>::empty());
    match ocr.list_at("lines") {
        Some(v) => {
            proof {
                list_model_elements(v@);
            }
            let ghost all = list_model(v@);
            let mut i: usize = 0;
            while i < v.len()
                invariant
                    i <= v@.len(),
                    all == list_model(v@),
                    list_member(ocr.model(), "lines"@) == Some(all),
                    all.len() == v@.len(),
                    forall|j: int| 0 <= j < v@.len() ==> #[trigger] all[j] == v@[j].model(),
                    lower@ == unicode_lower(needle@),
                    none@ == Seq::<char>::empty(),
                    first_line(all, needle@, role@, 0) == first_line(all, needle@, role@, i as int),
                decreases v@.len() - i,
            {
                assert(all[i as int] == v@[i as int].model());
                let text = lowercase(optional_string(&v[i], "text", none.as_str()).as_str());
                let role_ok = role.is_empty() || match v[i].text_at("role_hint") {
                    Some(h) => same_text(h.as_str(), role),
                    None => false,
                };
                if role_ok && contains_text(text.as_str(), lower.as_str()) {
                    return Some(v[i].clone());
                }
                i += 1;
            }
            None
        },
        None => None,
    }
}

/// A part of the screen.
#[derive(Debug, Clone, Copy, PartialEq, Eq, Structural)]
pub struct Region {
    pub x: i32,
    pub y: i32,
    pub width: i32,
    pub height: i32,
    /// How much larger it is read.
    pub scale: u32,
}

/// The part of the screen that the arguments name; it is read twice as large
/// where they do not say how large.
pub fn region_args(args: &Json) -> (r: Result<Region, String>)
    ensures
        match r {
            Ok(g) => {
                &&& i32_arg(args.model(), "x"@) == Some(g.x)
                &&& i32_arg(args.model(), "y"@) == Some(g.y)
                &&& i32_arg(args.model(), "width"@) == Some(g.width)
                &&& i32_arg(args.model(), "height"@) == Some(g.height)
                &&& g.scale == (match count_member(args.model(), "scale"@) {
                    Some(n) => (n as u64) as u32,
                    None => 2u32,
                })
            },
            Err(e) => missing_number(args.model(), seq!["x"@, "y"@, "width"@, "height"@], 0) == Some(e@),
        },
{
    proof {
        reveal_with_fuel(missing_number, 5);
        let keys = seq!["x"@, "y"@, "width"@, "height"@];
        assert(keys[0] == "x"@ && keys[1] == "y"@ && keys[2] == "width"@ && keys[3] == "height"@);
    }
    let x: i32 = match required_i32(args, "x") {
        Ok(n) => n,
        Err(e) => {
            return Err(e);
        },
    };
    let y: i32 = match required_i32(args, "y") {
        Ok(n) => n,
        Err(e) => {
            return Err(e);
        },
    };
    let width: i32 = match required_i32(args, "width") {
        Ok(n) => n,
        Err(e) => {
            return Err(e);
        },
    };
    let height: i32 = match required_i32(args, "height") {
        Ok(n) => n,
        Err(e) => {
            return Err(e);
        },
    };
    let scale: u32 = match args.count_at("scale") {
        Some(n) => #[verifier::truncate] (n as u32),
        None => 2,
    };
    Ok(Region { x, y, width, height, scale })
}

/// The number under a key, cut to the range of `i32`; zero where it is missing.
pub open spec fn i32_or_zero(line: JsonModel, key: Seq<char>) -> int {
    match i32_arg(line, key) {
        Some(n) => n as int,
        None => 0,
    }
}

/// The line lies in part within the region.
pub open spec fn overlaps(line: JsonModel, g: Region) -> bool {
    let x = i32_or_zero(line, "x"@);
    let y = i32_or_zero(line, "y"@);
    let w = i32_or_zero(line, "width"@);
    let h = i32_or_zero(line, "height"@);
    x < g.x + g.width && x + w > g.x && y < g.y + g.height && y + h > g.y
}

/// The number under a key, cut to the range of `i32`; zero where it is missing.
pub fn number_or_zero(line: &Json, key: &str) -> (r: i64)
    ensures
        r == i32_or_zero(line.model(), key@),
        -2147483648 <= r <= 2147483647,
{
    match line.int_at(key) {
        Some(n) => (#[verifier::truncate] (n as i32)) as i64,
        None => 0,
    }
}

/// The lines that lie in part within the region.
pub open spec fn lines_within(v: Seq<JsonModel>, g: Region) -> Seq<JsonModel>
    decreases v.len(),
{
    if v.len() == 0 {
        seq![]
    } else if overlaps(v.last(), g) {
        lines_within(v.drop_last(), g).push(v.last())
    } else {
        lines_within(v.drop_last(), g)
    }
}

/// The texts of lines.
pub open spec fn line_texts(v: Seq<JsonModel>) -> Seq<Seq<char>>
    decreases v.len(),
{
    if v.len() == 0 {
        seq![]
    } else {
        match text_member(v.last(), "text"@) {
            Some(t) => line_texts(v.drop_last()).push(t),
            None => line_texts(v.drop_last()),
        }
    }
}

/// The lines in what was read.
pub open spec fn lines_of_ocr(ocr: JsonModel) -> Seq<JsonModel> {
    match list_member(ocr, "lines"@) {
        Some(v) => v,
        None => seq![],
    }
}

/// What was read in a simulated window, cut down to a region.
pub open spec fn region_of_simulated(ocr: JsonModel, g: Region) -> JsonModel {
    let kept = lines_within(lines_of_ocr(ocr), g);
    let text = joined(line_texts(kept), " "@);
    JsonModel::Table(
        ocr->Table_0.insert("lines"@, JsonModel::List(kept)).insert("text"@, JsonModel::Text(text)).insert(
            "chars"@,
            JsonModel::Int(text.len() as int),
        ).insert("surface"@, JsonModel::Text("sim"@)).insert("note"@, JsonModel::Text("坐标为模拟窗口坐标"@)),
    )
}

/// Cuts what was read in a simulated window down to a region.
pub fn simulated_region(ocr: Json, g: &Region) -> (r: Json)
    requires
        ocr is Table,
    ensures
        r.model() == region_of_simulated(ocr.model(), *g),
{
    let mut kept: Vec<Json> = Vec::new();
    let mut parts: Vec<String> = Vec::new();
    let ghost all = lines_of_ocr(ocr.model());
    assert(list_model(kept@) =~= lines_within(all.take(0), *g));
    assert(texts(parts@) =~= line_texts(lines_within(all.take(0), *g)));
    match ocr.list_at("lines") {
        Some(v) => {
            proof {
                list_model_elements(v@);
            }
            for i in 0..v.len()
                invariant
                    all == list_model(v@),
                    all.len() == v@.len(),
                    forall|j: int| 0 <= j < v@.len() ==> #[trigger] all[j] == v@[j].model(),
                    list_model(kept@) == lines_within(all.take(i as int), *g),
                    texts(parts@) == line_texts(list_model(kept@)),
            {
                let ghost kept0 = kept@;
                let ghost parts0 = texts(parts@);
                proof {
                    assert(all.take(i + 1).drop_last() =~= all.take(i as int));
                    assert(all[i as int] == v@[i as int].model());
                }
                let x: i64 = number_or_zero(&v[i], "x");
                let y: i64 = number_or_zero(&v[i], "y");
                let w: i64 = number_or_zero(&v[i], "width");
                let h: i64 = number_or_zero(&v[i], "height");
                let gx: i64 = g.x as i64;
                let gy: i64 = g.y as i64;
                if x < gx + g.width as i64 && x + w > gx && y < gy + g.height as i64 && y + h > gy {
                    kept.push(v[i].clone());
                    proof {
                        list_model_elements(kept0);
                        list_model_elements(kept@);
                        assert(list_model(kept@) =~= list_model(kept0).push(all[i as int]));
                        assert(list_model(kept@).drop_last() =~= list_model(kept0));
                    }
                    if let Some(t) = v[i].text_at("text") {
                        parts.push(t.clone());
                        assert(texts(parts@) =~= parts0.push(t@));
                    }
                }
            }
            assert(all.take(all.len() as int) =~= all);
        },
        None => {
            assert(all.take(0) =~= all);
        },
    }
    let text = join(&parts, " ");
    let chars: usize = chars_of(text.as_str()).len();
    ocr.with("lines", Json::List(kept)).with("text", Json::Text(text)).with("chars", Json::UInt(chars as u64)).with(
        "surface",
        Json::text("sim"),
    ).with("note", Json::text("坐标为模拟窗口坐标"))
}

// ---------------------------------------------------------------------------
// Waiting for a text
// ---------------------------------------------------------------------------

/// Waits until a text shows.
pub struct WaitUntil {
    pub needle: String,
    pub role: String,
    pub timeout_ms: u64,
    pub interval_ms: u64,
    pub last_ocr: Json,
    pub last_error: String,
}

/// The number under a key, or another where it is missing.
pub open spec fn count_or(args: JsonModel, key: Seq<char>, otherwise: int) -> int {
    match count_member(args, key) {
        Some(n) => n,
        None => otherwise,
    }
}

/// The surface that a reading names.
pub open spec fn surface_of(ocr: JsonModel) -> JsonModel {
    match member(ocr, "surface"@) {
        Some(s) => s,
        None => JsonModel::Text("unknown"@),
    }
}

fn surface_json(ocr: &Json) -> (r: Json)
    ensures
        r.model() == surface_of(ocr.model()),
{
    match ocr.get("surface") {
        Some(s) => s.clone(),
        None => Json::text("unknown"),
    }
}

impl WaitUntil {
    /// What is waited for and how long: at most two minutes, half a minute where
    /// nothing is said; the looks are a fifth of a second apart at least, a second
    /// where nothing is said.
    pub fn new(args: &Json) -> (r: Result<WaitUntil, String>)
        ensures
            match r {
                Ok(w) => {
                    &&& text_member(args.model(), "text"@) == Some(w.needle@)
                    &&& w.role@ == text_arg_or(args.model(), "role"@, Seq::<char>::empty())
                    &&& w.timeout_ms == (if count_or(args.model(), "timeout_ms"@, 30_000) < MAX_WAIT_MS {
                        count_or(args.model(), "timeout_ms"@, 30_000)
                    } else {
                        MAX_WAIT_MS as int
                    })
                    &&& w.interval_ms == (if count_or(args.model(), "interval_ms"@, 1_000) > 200 {
                        count_or(args.model(), "interval_ms"@, 1_000)
                    } else {
                        200
                    })
                    &&& w.last_ocr.model() == JsonModel::Null
                    &&& w.last_error@.len() == 0
                },
                Err(e) => text_member(args.model(), "text"@) is None && e@ == "参数缺少字符串字段："@ + "text"@,
            },
    {
        let needle = match required_string(args, "text") {
            Ok(t) => t,
            Err(e) => {
                return Err(e);
            },
        };
        let none = String::new();
        assert(none@ =~= Seq::<char>::empty());
        let role = optional_string(args, "role", none.as_str());
        let timeout: u64 = match args.count_at("timeout_ms") {
            Some(n) => n,
            None => 30_000,
        };
        let interval: u64 = match args.count_at("interval_ms") {
            Some(n) => n,
            None => 1_000,
        };
        Ok(
            WaitUntil {
                needle,
                role,
                timeout_ms: if timeout < MAX_WAIT_MS {
                    timeout
                } else {
                    MAX_WAIT_MS
                },
                interval_ms: if interval > 200 {
                    interval
                } else {
                    200
                },
                last_ocr: Json::Null,
                last_error: String::new(),
            },
        )
    }

    /// How long it was waited, where `remaining_ms` are left.
    pub open spec fn waited(self, remaining_ms: u64) -> int {
        if remaining_ms > self.timeout_ms {
            0
        } else {
            self.timeout_ms - remaining_ms
        }
    }

    /// Looks at what was read: the answer, where the text shows. A reading that
    /// failed is kept as the last error.
    pub fn look(&mut self, reading: Result<Json, String>, remaining_ms: u64) -> (r: Option<Json>)
        ensures
            final(self).needle == old(self).needle,
            final(self).role == old(self).role,
            final(self).timeout_ms == old(self).timeout_ms,
            final(self).interval_ms == old(self).interval_ms,
            match reading {
                Ok(ocr) => {
                    &&& final(self).last_ocr.model() == ocr.model()
                    &&& final(self).last_error == old(self).last_error
                    &&& match found_line(ocr.model(), old(self).needle@, old(self).role@) {
                        Some(line) => r matches Some(j) && j.model() == JsonModel::Table(
                            empty_table().insert("matched"@, JsonModel::Bool(true)).insert(
                                "text"@,
                                JsonModel::Text(old(self).needle@),
                            ).insert("line"@, line).insert(
                                "elapsed_ms"@,
                                JsonModel::Int(old(self).waited(remaining_ms)),
                            ).insert("surface"@, surface_of(ocr.model())),
                        ),
                        None => r is None,
                    }
                },
                Err(e) => r is None && final(self).last_error == e && final(self).last_ocr == old(self).last_ocr,
            },
    {
        match reading {
            Ok(ocr) => {
                let found = find_ocr_line(&ocr, self.needle.as_str(), self.role.as_str());
                let surface = surface_json(&ocr);
                self.last_ocr = ocr;
                match found {
                    Some(line) => Some(
                        Json::table().with("matched", Json::Bool(true)).with(
                            "text",
                            Json::text(self.needle.as_str()),
                        ).with("line", line).with(
                            "elapsed_ms",
                            Json::UInt(self.timeout_ms.saturating_sub(remaining_ms)),
                        ).with("surface", surface),
                    ),
                    None => None,
                }
            },
            Err(e) => {
                self.last_error = e;
                None
            },
        }
    }

    /// The answer where the time has run out.
    pub fn expired(&self, remaining_ms: u64) -> (r: Json)
        ensures
            r.model() == JsonModel::Table(
                empty_table().insert("matched"@, JsonModel::Bool(false)).insert(
                    "text"@,
                    JsonModel::Text(self.needle@),
                ).insert("elapsed_ms"@, JsonModel::Int(self.waited(remaining_ms))).insert(
                    "surface"@,
                    surface_of(self.last_ocr.model()),
                ).insert("last_error"@, JsonModel::Text(self.last_error@)).insert(
                    "last_ocr_preview"@,
                    JsonModel::Text(
                        first_chars(text_arg_or(self.last_ocr.model(), "text"@, Seq::<char>::empty()), 500),
                    ),
                ),
            ),
    {
        let none = String::new();
        assert(none@ =~= Seq::<char>::empty());
        let text = optional_string(&self.last_ocr, "text", none.as_str());
        Json::table().with("matched", Json::Bool(false)).with("text", Json::text(self.needle.as_str())).with(
            "elapsed_ms",
            Json::UInt(self.timeout_ms.saturating_sub(remaining_ms)),
        ).with("surface", surface_json(&self.last_ocr)).with("last_error", Json::text(self.last_error.as_str())).with(
            "last_ocr_preview",
            Json::Text(take_chars(text.as_str(), 500)),
        )
    }
}

// ---------------------------------------------------------------------------
// Looking with a model
// ---------------------------------------------------------------------------

/// What a model is asked about the screen where the arguments do not say.
pub open spec fn usual_question() -> Seq<char> {
    "请用中文描述这个界面的当前状态：这是什么应用？有哪些关键控件（按钮/输入框/消息）？它们大致在什么位置（给出屏幕坐标范围）？最新消息内容是什么？"@
}

/// What a model is asked about the screen.
pub fn vision_prompt(args: &Json) -> (r: String)
    ensures
        r@ == text_arg_or(args.model(), "prompt"@, usual_question()),
{
    optional_string(
        args,
        "prompt",
        "请用中文描述这个界面的当前状态：这是什么应用？有哪些关键控件（按钮/输入框/消息）？它们大致在什么位置（给出屏幕坐标范围）？最新消息内容是什么？",
    )
}

/// A question that is to be answered with yes or no.
pub fn verify_prompt(question: &str) -> (r: String)
    ensures
        r@ == "请只看这张截图回答问题。先回答 YES 或 NO，再给出 0-1 置信度。问题："@ + question@,
{
    let mut r = copy_str("请只看这张截图回答问题。先回答 YES 或 NO，再给出 0-1 置信度。问题：");
    r.append(question);
    r
}

/// What a look at the screen answers.
pub fn vision_result(surface: &str, provider: &str, model: &str, description: &str) -> (r: Json)
    ensures
        r.model() == JsonModel::Table(
            empty_table().insert("surface"@, JsonModel::Text(surface@)).insert(
                "provider"@,
                JsonModel::Text(provider@),
            ).insert("model"@, JsonModel::Text(model@)).insert("description"@, JsonModel::Text(description@)),
        ),
{
    Json::table().with("surface", Json::text(surface)).with("provider", Json::text(provider)).with(
        "model",
        Json::text(model),
    ).with("description", Json::text(description))
}

/// What a question about the screen answers.
pub fn verify_result(
    surface: &str,
    provider: &str,
    model: &str,
    question: &str,
    answer: &str,
    confidence: Json,
    raw: &str,
) -> (r: Json)
    ensures
        r.model() == JsonModel::Table(
            empty_table().insert("surface"@, JsonModel::Text(surface@)).insert(
                "provider"@,
                JsonModel::Text(provider@),
            ).insert("model"@, JsonModel::Text(model@)).insert("question"@, JsonModel::Text(question@)).insert(
                "answer"@,
                JsonModel::Text(answer@),
            ).insert("confidence"@, confidence.model()).insert("raw"@, JsonModel::Text(raw@)),
        ),
{
    Json::table().with("surface", Json::text(surface)).with("provider", Json::text(provider)).with(
        "model",
        Json::text(model),
    ).with("question", Json::text(question)).with("answer", Json::text(answer)).with("confidence", confidence).with(
        "raw",
        Json::text(raw),
    )
}

// ---------------------------------------------------------------------------
// The browser
// ---------------------------------------------------------------------------

/// The command that the driver of the browser knows a tool by.
pub fn driver_command(tool: &str) -> (r: String)
    ensures
        r@ == without_words(tool@, "browser_"@),
{
    remove_words(tool, "browser_")
}

/// A command to the driver.
pub open spec fn driver_request(id: u64, command: Seq<char>, args: JsonModel) -> JsonModel {
    JsonModel::Table(
        empty_table().insert("id"@, JsonModel::Int(id as int)).insert("cmd"@, JsonModel::Text(command)).insert(
            "args"@,
            args,
        ),
    )
}

/// The line that carries a command to the driver.
pub fn driver_line(id: u64, command: &str, args: Json) -> (r: String)
    ensures
        r@ == json_text(driver_request(id, command@, args.model())).push('\n'),
{
    let request = Json::table().with("id", Json::UInt(id)).with("cmd", Json::text(command)).with("args", args);
    let mut line = request.to_text();
    line.push('\n');
    line
}

/// What a line of the driver brings.
pub enum DriverReply {
    /// Nothing for this command.
    Skip,
    Done(Result<Json, String>),
}

/// What the line of the driver brings for the command of the number.
pub open spec fn driver_outcome(id: u64, line: Seq<char>) -> Option<Result<JsonModel, Seq<char>>> {
    let t = trimmed(line);
    if t.len() == 0 {
        None
    } else {
        match json_reading(t) {
            Err(e) => Some(Err("浏览器驱动返回非法 JSON："@ + e + "："@ + t)),
            Ok(value) => if count_member(value, "id"@) != Some(id as int) {
                None
            } else if bool_member(value, "ok"@) == Some(true) {
                Some(Ok(or_null(member(value, "data"@))))
            } else {
                Some(
                    Err(
                        match text_member(value, "error"@) {
                            Some(e) => e,
                            None => "浏览器命令失败"@,
                        },
                    ),
                )
            },
        }
    }
}

/// Reads a line of the driver. A line that is no JSON ends the command; one for
/// another command is passed over.
pub fn read_driver_line(id: u64, line: &str) -> (r: DriverReply)
    ensures
        match r {
            DriverReply::Skip => driver_outcome(id, line@) is None,
            DriverReply::Done(Ok(j)) => driver_outcome(id, line@) == Some(
                Ok::<JsonModel, Seq<char>>(j.model()),
            ),
            DriverReply::Done(Err(e)) => driver_outcome(id, line@) == Some(Err::<JsonModel, Seq<char>>(e@)),
        },
{
    let t = trim(line);
    if t.as_str().is_empty() {
        return DriverReply::Skip;
    }
    let value = match read_json(t.as_str()) {
        Ok(v) => v,
        Err(error) => {
            let mut e = copy_str("浏览器驱动返回非法 JSON：");
            e.append(error.as_str());
            e.append("：");
            e.append(t.as_str());
            return DriverReply::Done(Err(e));
        },
    };
    let mine = match value.count_at("id") {
        Some(n) => n == id,
        None => false,
    };
    if !mine {
        return DriverReply::Skip;
    }
    let ok = match value.bool_at("ok") {
        Some(b) => b,
        None => false,
    };
    if ok {
        return DriverReply::Done(
            Ok(
                match value.get("data") {
                    Some(d) => d.clone(),
                    None => Json::Null,
                },
            ),
        );
    }
    DriverReply::Done(
        Err(
            match value.text_at("error") {
                Some(e) => e.clone(),
                None => copy_str("浏览器命令失败"),
            },
        ),
    )
}

/// The arguments of a tool that writes a file, with the full path in place of
/// the given one.
pub fn with_full_path(args: Json, full: &str) -> (r: Json)
    requires
        args is Table,
    ensures
        r.model() == JsonModel::Table(args.model()->Table_0.insert("path"@, JsonModel::Text(full@))),
{
    args.with("path", Json::text(full))
}

/// The values of the environment that name the runtime of the driver.
pub struct NodeEnv {
    pub browser_node: Option<String>,
    pub browser_node_path: Option<String>,
    pub skill_node: Option<String>,
    pub skill_runtime: Option<String>,
}

/// The runtime of the driver and where its packages are: what is named for the
/// browser, else what is named for skills, else what is installed, else whatever
/// goes by its name.
pub fn node_runtime(env: NodeEnv, installed: Option<(String, String)>) -> (r: (String, Option<String>))
    ensures
        match (env.browser_node, env.skill_node, installed) {
            (Some(n), _, _) => r.0 == n && r.1 == env.browser_node_path,
            (None, Some(n), _) => {
                let runtime = text_or(env.skill_runtime, Seq::<char>::empty());
                &&& r.0 == n
                &&& if runtime.len() == 0 {
                    r.1 is None
                } else {
                    r.1 matches Some(p) && p@ == runtime + "\\node\\node_modules"@
                }
            },
            (None, None, Some(i)) => r.0 == i.0 && r.1 == Some(i.1),
            (None, None, None) => r.0@ == "node"@ && r.1 is None,
        },
{
    match env.browser_node {
        Some(n) => {
            return (n, env.browser_node_path);
        },
        None => {},
    }
    match env.skill_node {
        Some(n) => {
            let runtime = match env.skill_runtime {
                Some(t) => t,
                None => String::new(),
            };
            if runtime.as_str().is_empty() {
                return (n, None);
            }
            let mut path = runtime;
            path.append("\\node\\node_modules");
            return (n, Some(path));
        },
        None => {},
    }
    match installed {
        Some(i) => (i.0, Some(i.1)),
        None => (copy_str("node"), None),
    }
}

/// The folder in which the browser keeps its state.
pub fn browser_profile(named: Option<String>, local_app_data: Option<String>, temp_dir: &str) -> (r: String)
    ensures
        r@ == (match named {
            Some(p) => p@,
            None => text_or(local_app_data, temp_dir@) + "\\OwO\\Agent\\browser-profile"@,
        }),
{
    match named {
        Some(p) => p,
        None => {
            let mut r = match local_app_data {
                Some(l) => l,
                None => copy_str(temp_dir),
            };
            r.append("\\OwO\\Agent\\browser-profile");
            r
        },
    }
}

// ---------------------------------------------------------------------------
// Laws
// ---------------------------------------------------------------------------

/// A number that was given and fits is taken as it is; what is no number is none.
pub proof fn numbers_are_taken_as_given(args: JsonModel, key: Seq<char>, n: int, otherwise: int)
    ensures
        member(args, key) == Some(JsonModel::Int(n)) && i32::MIN <= n <= i32::MAX ==> i32_arg(args, key) == Some(n as i32)
            && i32_or_zero(args, key) == n,
        member(args, key) is None ==> i32_arg(args, key) is None && i32_or_zero(args, key) == 0,
        member(args, key) == Some(JsonModel::Int(n)) && 0 <= n <= u64::MAX ==> count_or(args, key, otherwise) == n,
        member(args, key) is None ==> count_or(args, key, otherwise) == otherwise,
{
}

/// Where numbers are missing, the first that is is named; where all are there, none is.
pub proof fn the_first_missing_number_is_named(args: JsonModel, keys: Seq<Seq<char>>, i: int)
    requires
        0 <= i <= keys.len(),
        forall|j: int| 0 <= j < i ==> i32_arg(args, #[trigger] keys[j]) is Some,
    ensures
        i < keys.len() && i32_arg(args, keys[i]) is None ==> (missing_number(args, keys, 0) matches Some(t) && finishes_with(
            t,
            keys[i],
        )),
        i == keys.len() ==> missing_number(args, keys, 0) is None,
{
    numbers_there(args, keys, 0, i);
    if i < keys.len() {
        let t = "缺少 "@ + keys[i];
        assert(t.skip(t.len() - keys[i].len()) =~= keys[i]);
    }
}

proof fn numbers_there(args: JsonModel, keys: Seq<Seq<char>>, from: int, to: int)
    requires
        0 <= from <= to <= keys.len(),
        forall|j: int| from <= j < to ==> i32_arg(args, #[trigger] keys[j]) is Some,
    ensures
        missing_number(args, keys, from) == missing_number(args, keys, to),
    decreases to - from,
{
    if from < to {
        assert(i32_arg(args, keys[from]) is Some);
        numbers_there(args, keys, from + 1, to);
    }
}

/// The window that is meant is the first that can be seen and whose process or title
/// holds what was asked for; an empty wish means none.
pub proof fn the_first_visible_window_is_meant(v: Seq<WindowInfo>, process: Seq<char>, title: Seq<char>, from: int)
    requires
        0 <= from,
    ensures
        ({
            let i = first_meant(v, process, title, from);
            &&& i >= 0 ==> from <= i < v.len() && v[i].visible && ((process.len() > 0 && has_text(v[i].process@, process)) || (
            title.len() > 0 && has_text(v[i].title@, title)))
            &&& i >= 0 ==> forall|j: int| from <= j < i ==> !is_meant(#[trigger] v[j], process, title)
            &&& i < 0 <==> forall|j: int| from <= j < v.len() ==> !is_meant(#[trigger] v[j], process, title)
            &&& process.len() == 0 && title.len() == 0 ==> i < 0
        }),
    decreases v.len() - from,
{
    if from < v.len() && !is_meant(v[from], process, title) {
        the_first_visible_window_is_meant(v, process, title, from + 1);
    }
}

/// A text that asks to send, search or submit is a button, one that asks for input an
/// input; what stands at the top is a header, and all else text.
pub proof fn roles_go_by_words_and_place(text: Seq<char>, y: i32)
    ensures
        has_text(text, "发送"@) || has_text(text, "搜索"@) || has_text(text, "提交"@) ==> role_of(text, y) == "button"@,
        !has_text(text, "发送"@) && !has_text(text, "搜索"@) && !has_text(text, "提交"@) && has_text(text, "输入"@)
            ==> role_of(text, y) == "input"@,
        !has_text(text, "发送"@) && !has_text(text, "搜索"@) && !has_text(text, "提交"@) && !has_text(text, "输入"@)
            && !has_text(text, "请输入"@) ==> role_of(text, y) == if y < 60 { "header"@ } else { "text"@ },
{
}

proof fn box_words_differ()
    ensures
        "text"@ != "x"@ && "text"@ != "y"@ && "text"@ != "width"@ && "text"@ != "height"@ && "text"@ != "role_hint"@ && "x"@
            != "y"@ && "x"@ != "width"@ && "x"@ != "height"@ && "x"@ != "role_hint"@ && "y"@ != "width"@ && "y"@ != "height"@
            && "y"@ != "role_hint"@ && "width"@ != "height"@ && "width"@ != "role_hint"@ && "height"@ != "role_hint"@,
        "text"@ != "chars"@ && "text"@ != "lines"@ && "text"@ != "boxes"@ && "text"@ != "box_count"@ && "chars"@ != "lines"@
            && "chars"@ != "boxes"@ && "chars"@ != "box_count"@ && "lines"@ != "boxes"@ && "lines"@ != "box_count"@
            && "boxes"@ != "box_count"@,
        "lines"@ != "surface"@ && "lines"@ != "note"@ && "text"@ != "surface"@ && "text"@ != "note"@ && "chars"@ != "surface"@
            && "chars"@ != "note"@ && "surface"@ != "note"@,
        "id"@ != "cmd"@ && "id"@ != "args"@ && "cmd"@ != "args"@,
{
    reveal_strlit("text");
    reveal_strlit("x");
    reveal_strlit("y");
    reveal_strlit("width");
    reveal_strlit("height");
    reveal_strlit("role_hint");
    reveal_strlit("chars");
    reveal_strlit("lines");
    reveal_strlit("boxes");
    reveal_strlit("box_count");
    reveal_strlit("surface");
    reveal_strlit("note");
    reveal_strlit("id");
    reveal_strlit("cmd");
    reveal_strlit("args");
    assert("text"@[0] == 't' && "x"@[0] == 'x' && "y"@[0] == 'y' && "width"@[0] == 'w' && "height"@[0] == 'h'
        && "role_hint"@[0] == 'r' && "chars"@[0] == 'c' && "lines"@[0] == 'l' && "boxes"@[0] == 'b' && "boxes"@.len() == 5
        && "box_count"@.len() == 9 && "box_count"@[0] == 'b' && "surface"@[0] == 's' && "note"@[0] == 'n' && "id"@[0] == 'i'
        && "cmd"@[0] == 'c' && "args"@[0] == 'a');
}

/// A box that was read is told with its text and its size, and moved by where its picture
/// lay; a line is told with its role too.
pub proof fn boxes_are_told_whole(b: OcrBox, dx: int, dy: int)
    ensures
        member(box_model(b, dx, dy), "text"@) == Some(JsonModel::Text(b.text@)),
        member(box_model(b, dx, dy), "x"@) == Some(JsonModel::Int(b.x + dx)),
        member(box_model(b, dx, dy), "y"@) == Some(JsonModel::Int(b.y + dy)),
        member(box_model(b, dx, dy), "width"@) == Some(JsonModel::Int(b.width as int)),
        member(box_model(b, dx, dy), "height"@) == Some(JsonModel::Int(b.height as int)),
        member(line_model(b, dx, dy), "role_hint"@) == Some(JsonModel::Text(role_of(b.text@, b.y))),
        member(line_model(b, dx, dy), "text"@) == Some(JsonModel::Text(b.text@)),
        member(line_model(b, dx, dy), "x"@) == Some(JsonModel::Int(b.x + dx)),
        member(line_model(b, dx, dy), "y"@) == Some(JsonModel::Int(b.y + dy)),
{
    box_words_differ();
}

/// What was read off a picture is told whole: its text, every line, the first boxes and
/// how many there are.
pub proof fn readings_are_told_whole(s: OcrSummary, lines: Seq<OcrBox>, max_boxes: nat, dx: int, dy: int, i: int)
    ensures
        ({
            let m = JsonModel::Table(summary_members(s, lines, max_boxes as int, dx, dy));
            &&& member(m, "text"@) == Some(JsonModel::Text(s.text@))
            &&& member(m, "chars"@) == Some(JsonModel::Int(s.chars as int))
            &&& member(m, "box_count"@) == Some(JsonModel::Int(s.boxes@.len() as int))
            &&& member(m, "lines"@) matches Some(JsonModel::List(l)) && l.len() == lines.len() && (0 <= i < l.len() ==> l[i]
                == line_model(lines[i], dx, dy))
            &&& member(m, "boxes"@) matches Some(JsonModel::List(l)) && l.len() == (if s.boxes@.len() < max_boxes {
                s.boxes@.len()
            } else {
                max_boxes
            }) && (0 <= i < l.len() ==> l[i] == box_model(s.boxes@[i], dx, dy))
        }),
{
    box_words_differ();
}

/// The line that is found is the first whose text holds what was looked for, in whatever
/// case, and whose role is the one asked for, where one is.
pub proof fn lines_are_found_by_text_and_role(ocr: JsonModel, v: Seq<JsonModel>, needle: Seq<char>, role: Seq<char>, i: int, t: Seq<char>)
    requires
        member(ocr, "lines"@) == Some(JsonModel::List(v)),
        0 <= i < v.len(),
        forall|j: int| 0 <= j < i ==> !line_matches(#[trigger] v[j], needle, role),
        member(v[i], "text"@) == Some(JsonModel::Text(t)),
    ensures
        has_text(unicode_lower(t), unicode_lower(needle)) && (role.len() == 0 || member(v[i], "role_hint"@) == Some(
            JsonModel::Text(role),
        )) ==> found_line(ocr, needle, role) == Some(v[i]),
        !has_text(unicode_lower(t), unicode_lower(needle)) ==> !line_matches(v[i], needle, role),
        role.len() > 0 && member(v[i], "role_hint"@) is None ==> !line_matches(v[i], needle, role),
        (forall|j: int| 0 <= j < v.len() ==> !line_matches(#[trigger] v[j], needle, role)) ==> found_line(ocr, needle, role)
            is None,
{
    lines_passed_over(v, needle, role, 0, i);
    if forall|j: int| 0 <= j < v.len() ==> !line_matches(#[trigger] v[j], needle, role) {
        lines_passed_over(v, needle, role, 0, v.len() as int);
    }
}

proof fn lines_passed_over(v: Seq<JsonModel>, needle: Seq<char>, role: Seq<char>, from: int, to: int)
    requires
        0 <= from <= to <= v.len(),
        forall|j: int| from <= j < to ==> !line_matches(#[trigger] v[j], needle, role),
    ensures
        first_line(v, needle, role, from) == first_line(v, needle, role, to),
    decreases to - from,
{
    if from < to {
        assert(!line_matches(v[from], needle, role));
        lines_passed_over(v, needle, role, from + 1, to);
    }
}

/// Of a region only the lines that reach into it are kept, all of them and in their
/// order: those that have a point in common with it, where both have an extent.
pub proof fn regions_keep_what_reaches_in(v: Seq<JsonModel>, l: JsonModel, g: Region)
    ensures
        lines_within(seq![], g).len() == 0,
        overlaps(l, g) ==> lines_within(v.push(l), g) == lines_within(v, g).push(l),
        !overlaps(l, g) ==> lines_within(v.push(l), g) == lines_within(v, g),
        overlaps(l, g) && i32_or_zero(l, "width"@) > 0 && i32_or_zero(l, "height"@) > 0 && g.width > 0 && g.height > 0
            ==> exists|px: int, py: int|
            g.x <= px < g.x + g.width && g.y <= py < g.y + g.height && #[trigger] covers(l, px, py),
        (exists|px: int, py: int|
            g.x <= px < g.x + g.width && g.y <= py < g.y + g.height && #[trigger] covers(l, px, py)) ==> overlaps(l, g),
{
    assert(v.push(l).drop_last() =~= v);
    if overlaps(l, g) {
        let x = i32_or_zero(l, "x"@);
        let y = i32_or_zero(l, "y"@);
        let w = i32_or_zero(l, "width"@);
        let h = i32_or_zero(l, "height"@);
        if w > 0 && h > 0 && g.width > 0 && g.height > 0 {
            let px = if x > g.x { x } else { g.x as int };
            let py = if y > g.y { y } else { g.y as int };
            assert(covers(l, px, py));
        }
    }
}

/// The point lies in the line.
pub open spec fn covers(line: JsonModel, px: int, py: int) -> bool {
    let x = i32_or_zero(line, "x"@);
    let y = i32_or_zero(line, "y"@);
    x <= px < x + i32_or_zero(line, "width"@) && y <= py < y + i32_or_zero(line, "height"@)
}

/// The text of lines is that of those that have one, in their order.
pub proof fn texts_of_lines_follow(v: Seq<JsonModel>, l: JsonModel, t: Seq<char>)
    ensures
        line_texts(seq![]).len() == 0,
        member(l, "text"@) == Some(JsonModel::Text(t)) ==> line_texts(v.push(l)) == line_texts(v).push(t),
        member(l, "text"@) is None ==> line_texts(v.push(l)) == line_texts(v),
{
    assert(v.push(l).drop_last() =~= v);
}

/// What is told of a region of the simulated window is what lies in it: its lines, their
/// text and how long that is.
pub proof fn simulated_regions_tell_their_lines(ocr: JsonModel, g: Region, v: Seq<JsonModel>)
    requires
        member(ocr, "lines"@) == Some(JsonModel::List(v)),
    ensures
        ({
            let r = region_of_simulated(ocr, g);
            let text = joined(line_texts(lines_within(v, g)), " "@);
            &&& member(r, "lines"@) == Some(JsonModel::List(lines_within(v, g)))
            &&& member(r, "text"@) == Some(JsonModel::Text(text))
            &&& member(r, "chars"@) == Some(JsonModel::Int(text.len() as int))
            &&& member(r, "surface"@) == Some(JsonModel::Text("sim"@))
        }),
{
    box_words_differ();
}

/// A command to the browser carries its number, its name and its arguments. The answer
/// is the line with that number: its data where it went well, its error where it did
/// not; lines with other numbers are not it.
pub proof fn browser_answers_belong_to_their_command(id: u64, line: Seq<char>, value: JsonModel, data: JsonModel, e: Seq<char>, command: Seq<char>)
    requires
        trimmed(line).len() > 0,
        json_reading(trimmed(line)) == Ok::<JsonModel, Seq<char>>(value),
    ensures
        member(value, "id"@) == Some(JsonModel::Int(id as int)) && member(value, "ok"@) == Some(JsonModel::Bool(true))
            && member(value, "data"@) == Some(data) ==> driver_outcome(id, line) == Some(Ok::<JsonModel, Seq<char>>(data)),
        member(value, "id"@) == Some(JsonModel::Int(id as int)) && member(value, "ok"@) == Some(JsonModel::Bool(false))
            && member(value, "error"@) == Some(JsonModel::Text(e)) ==> driver_outcome(id, line) == Some(
            Err::<JsonModel, Seq<char>>(e),
        ),
        member(value, "id"@) is None ==> driver_outcome(id, line) is None,
        (member(value, "id"@) is Some && member(value, "id"@) != Some(JsonModel::Int(id as int))) ==> driver_outcome(id, line)
            is None,
        member(driver_request(id, command, data), "id"@) == Some(JsonModel::Int(id as int)),
        member(driver_request(id, command, data), "cmd"@) == Some(JsonModel::Text(command)),
        member(driver_request(id, command, data), "args"@) == Some(data),
{
    box_words_differ();
}

} // verus!
