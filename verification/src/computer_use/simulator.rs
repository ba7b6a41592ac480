//! A simulated window in place of the desktop, reached over HTTP.

use crate::computer_use::{i32_or_zero, lines_of_ocr, number_or_zero};
use crate::gateway::{empty_table, endpoint, without_slashes};
use crate::json::{json_reading, json_text, list_model, list_model_elements, member, read_json, text_member, Json, JsonModel};
use crate::learn::SemanticAnchor;
use crate::number::{parse_unsigned, unsigned_value};
use crate::text::{
    after_prefix, begins_with, chars_of, contains_text, copy_str, decimal, decimal_text, find_text, finishes_with, first_at,
    first_position_is, first_position_is_first, has_text, lossy_string, lossy_text, parts_stand_in_the_whole, same_text, slice, strip_prefix, trim, trim_leading, trimmed, without_leading,
};
use crate::tools::{byte_count, optional_string, text_arg_or};
use vstd::prelude::*;
use vstd::utf8::encode_utf8;

verus! {

/// The address of the simulated window, where one is named.
pub open spec fn window_address(named: Option<String>) -> Option<Seq<char>> {
    match named {
        Some(t) => if trimmed(t@).len() > 0 {
            Some(trimmed(t@))
        } else {
            None
        },
        None => None,
    }
}

/// The address of the simulated window, where one is named: without the space
/// around it.
pub fn sim_base_url(named: &Option<String>) -> (r: Option<String>)
    ensures
        match r {
            Some(b) => window_address(*named) == Some(b@),
            None => window_address(*named) is None,
        },
{
    match named {
        Some(t) => {
            let b = trim(t.as_str());
            if b.as_str().is_empty() {
                None
            } else {
                Some(b)
            }
        },
        None => None,
    }
}

/// An address at the simulated window.
pub open spec fn window_url(base: Seq<char>, path: Seq<char>) -> Seq<char> {
    without_slashes(base) + "/"@ + without_leading(path, '/')
}

/// An address at the simulated window.
pub fn sim_url(base: &str, path: &str) -> (r: String)
    ensures
        r@ == window_url(base@, path@),
{
    let mut r = endpoint(base, "/");
    r.append(trim_leading(path, '/').as_str());
    r
}

/// Takes a picture of the simulated window, where it is one.
pub fn sim_frame(bytes: Vec<u8>) -> (r: Result<Vec<u8>, String>)
    ensures
        if bytes@.len() >= 54 && bytes@[0] == 66 && bytes@[1] == 77 {
            r == Ok::<Vec<u8>, String>(bytes)
        } else {
            r matches Err(e) && e@ == "模拟窗口返回的不是 BMP"@
        },
{
    if bytes.len() < 54 || bytes[0] != 66 || bytes[1] != 77 {
        return Err(copy_str("模拟窗口返回的不是 BMP"));
    }
    Ok(bytes)
}

/// What the simulated window says of its own text, marked as such; nothing where
/// it names no line.
pub fn sim_ocr_lines(value: Json) -> (r: Option<Json>)
    ensures
        match r {
            Some(j) => {
                &&& lines_of_ocr(value.model()).len() > 0
                &&& j is Table
                &&& j.model() == JsonModel::Table(
                    value.model()->Table_0.insert("surface"@, JsonModel::Text("sim"@)),
                )
            },
            None => lines_of_ocr(value.model()).len() == 0,
        },
{
    let has_lines = match value.list_at("lines") {
        Some(v) => {
            proof {
                list_model_elements(v@);
            }
            v.len() > 0
        },
        None => false,
    };
    if !has_lines {
        return None;
    }
    Some(value.with("surface", Json::text("sim")))
}

/// What the desktop answers of the window in front, where it is simulated.
pub fn sim_foreground() -> (r: Json)
    ensures
        r.model() == JsonModel::Table(
            empty_table().insert("process"@, JsonModel::Text("owo-sim-qq"@)).insert(
                "title"@,
                JsonModel::Text("OwO 模拟QQ - 张子豪"@),
            ).insert("rect"@, sim_rect()).insert("surface"@, JsonModel::Text("sim"@)),
        ),
{
    Json::table().with("process", Json::text("owo-sim-qq")).with("title", Json::text("OwO 模拟QQ - 张子豪")).with(
        "rect",
        sim_rect_json(),
    ).with("surface", Json::text("sim"))
}

/// Where the simulated window stands.
pub open spec fn sim_rect() -> JsonModel {
    JsonModel::List(seq![JsonModel::Int(0), JsonModel::Int(0), JsonModel::Int(1020), JsonModel::Int(700)])
}

fn sim_rect_json() -> (r: Json)
    ensures
        r.model() == sim_rect(),
{
    let mut v: Vec<Json> = Vec::new();
    v.push(Json::Int(0));
    v.push(Json::Int(0));
    v.push(Json::Int(1020));
    v.push(Json::Int(700));
    proof {
        list_model_elements(v@);
        assert(list_model(v@) =~= seq![
            JsonModel::Int(0),
            JsonModel::Int(0),
            JsonModel::Int(1020),
            JsonModel::Int(700),
        ]);
    }
    Json::List(v)
}

/// The windows of the desktop, where it is simulated.
pub fn sim_window_list() -> (r: Json)
    ensures
        r.model() == JsonModel::Table(
            empty_table().insert(
                "windows"@,
                JsonModel::List(
                    seq![
                        JsonModel::Table(
                            empty_table().insert("hwnd"@, JsonModel::Int(1)).insert("pid"@, JsonModel::Int(1)).insert(
                                "process"@,
                                JsonModel::Text("owo-sim-qq"@),
                            ).insert("title"@, JsonModel::Text("OwO 模拟QQ - 张子豪"@)).insert(
                                "rect"@,
                                sim_rect(),
                            ).insert("visible"@, JsonModel::Bool(true)),
                        ),
                    ],
                ),
            ).insert("surface"@, JsonModel::Text("sim"@)),
        ),
{
    let window = Json::table().with("hwnd", Json::Int(1)).with("pid", Json::Int(1)).with(
        "process",
        Json::text("owo-sim-qq"),
    ).with("title", Json::text("OwO 模拟QQ - 张子豪")).with("rect", sim_rect_json()).with("visible", Json::Bool(true));
    let ghost w = window.model();
    let mut v: Vec<Json> = Vec::new();
    v.push(window);
    proof {
        list_model_elements(v@);
        assert(list_model(v@) =~= seq![w]);
    }
    Json::table().with("windows", Json::List(v)).with("surface", Json::text("sim"))
}

/// What bringing a window to the front answers, where the desktop is simulated.
pub fn sim_activated() -> (r: Json)
    ensures
        r.model() == JsonModel::Table(
            empty_table().insert("activated"@, JsonModel::Bool(true)).insert(
                "foreground"@,
                JsonModel::Text("owo-sim-qq"@),
            ).insert("surface"@, JsonModel::Text("sim"@)),
        ),
{
    Json::table().with("activated", Json::Bool(true)).with("foreground", Json::text("owo-sim-qq")).with(
        "surface",
        Json::text("sim"),
    )
}

// ---------------------------------------------------------------------------
// Requests
// ---------------------------------------------------------------------------

/// A request over HTTP.
pub struct SimRequest {
    pub host: String,
    pub port: u16,
    pub text: String,
}

/// The host with its port, and the path, in an address without its scheme.
pub open spec fn host_and_path(rest: Seq<char>) -> (Seq<char>, Seq<char>) {
    let at = first_at(rest, "/"@);
    if at == -1 {
        (rest, "/"@)
    } else {
        (rest.take(at), "/"@ + rest.skip(at + 1))
    }
}

/// The last place of the character, or `-1`.
pub open spec fn last_place(s: Seq<char>, c: char) -> int
    decreases s.len(),
{
    if s.len() == 0 {
        -1
    } else if s.last() == c {
        s.len() - 1
    } else {
        last_place(s.drop_last(), c)
    }
}

/// The number of a port; 80 where the text is none.
pub open spec fn port_number(s: Seq<char>) -> int {
    match unsigned_value(s) {
        Some(n) => if n <= 65535 {
            n as int
        } else {
            80
        },
        None => 80,
    }
}

/// The host and the port.
pub open spec fn host_and_port(h: Seq<char>) -> (Seq<char>, int) {
    let at = last_place(h, ':');
    if at == -1 {
        (h, 80)
    } else {
        (h.take(at), port_number(h.skip(at + 1)))
    }
}

/// The text of a request.
pub open spec fn request_words(
    method: Seq<char>,
    path: Seq<char>,
    host_port: Seq<char>,
    payload: Seq<char>,
) -> Seq<char> {
    method + " "@ + path + " HTTP/1.1\r\nHost: "@ + host_port
        + "\r\nContent-Type: application/json\r\nContent-Length: "@ + decimal(encode_utf8(payload).len())
        + "\r\nConnection: close\r\n\r\n"@ + payload
}

fn find_last(s: &str, c: char) -> (r: Option<usize>)
    ensures
        match r {
            Some(i) => last_place(s@, c) == i && i < s@.len(),
            None => last_place(s@, c) == -1,
        },
{
    let v = chars_of(s);
    let mut n: usize = v.len();
    assert(v@.take(n as int) =~= s@);
    while n > 0
        invariant
            v@ == s@,
            n <= v@.len(),
            last_place(s@, c) == last_place(v@.take(n as int), c),
        decreases n,
    {
        assert(v@.take(n as int).drop_last() =~= v@.take(n - 1));
        assert(v@.take(n as int).last() == v@[n - 1]);
        if v[n - 1] == c {
            return Some(n - 1);
        }
        n -= 1;
    }
    None
}

fn parse_port(s: &str) -> (r: u16)
    ensures
        r == port_number(s@),
{
    match parse_unsigned(s) {
        Some(n) => if n <= 65535 {
            n as u16
        } else {
            80
        },
        None => 80,
    }
}

fn split_path(rest: &str) -> (r: (String, String))
    ensures
        (r.0@, r.1@) == host_and_path(rest@),
{
    proof {
        reveal_strlit("/");
    }
    let n: usize = chars_of(rest).len();
    let mut at_host = copy_str("/");
    match find_text(rest, "/") {
        Some(i) => {
            assert(rest@.subrange(i + 1, n as int) =~= rest@.skip(i + 1));
            assert(rest@.subrange(0, i as int) =~= rest@.take(i as int));
            at_host.append(slice(rest, i + 1, n).as_str());
            (slice(rest, 0, i), at_host)
        },
        None => (copy_str(rest), at_host),
    }
}

fn split_port(h: &str) -> (r: (String, u16))
    ensures
        (r.0@, r.1 as int) == host_and_port(h@),
{
    let m: usize = chars_of(h).len();
    match find_last(h, ':') {
        Some(i) => {
            assert(h@.subrange(i + 1, m as int) =~= h@.skip(i + 1));
            assert(h@.subrange(0, i as int) =~= h@.take(i as int));
            (slice(h, 0, i), parse_port(slice(h, i + 1, m).as_str()))
        },
        None => (copy_str(h), 80),
    }
}

fn write_request(method: &str, path: &str, host_port: &str, payload: &str) -> (r: String)
    ensures
        r@ == request_words(method@, path@, host_port@, payload@),
{
    let mut text = copy_str(method);
    text.append(" ");
    text.append(path);
    text.append(" HTTP/1.1\r\nHost: ");
    text.append(host_port);
    text.append("\r\nContent-Type: application/json\r\nContent-Length: ");
    text.append(decimal_text(byte_count(payload)).as_str());
    text.append("\r\nConnection: close\r\n\r\n");
    text.append(payload);
    text
}

/// What a request carries.
pub open spec fn payload_of(body: Option<&Json>) -> Seq<char> {
    match body {
        Some(b) => json_text(b.model()),
        None => Seq::<char>::empty(),
    }
}

/// The request that asks the simulated window. Only plain HTTP is spoken.
pub fn sim_request(base: &str, method: &str, path: &str, body: Option<&Json>) -> (r: Result<SimRequest, String>)
    ensures
        match after_prefix(window_url(base@, path@), "http://"@) {
            Some(rest) => {
                let (host_port, at_host) = host_and_path(rest);
                &&& r matches Ok(q)
                &&& (q.host@, q.port as int) == host_and_port(host_port)
                &&& q.text@ == request_words(method@, at_host, host_port, payload_of(body))
            },
            None => r matches Err(e) && e@ == "模拟服务地址仅支持 http://"@,
        },
{
    let url = sim_url(base, path);
    let rest = match strip_prefix(url.as_str(), "http://") {
        Some(t) => t,
        None => {
            return Err(copy_str("模拟服务地址仅支持 http://"));
        },
    };
    let (host_port, at_host) = split_path(rest.as_str());
    let (host, port): (String, u16) = split_port(host_port.as_str());
    let payload = match body {
        Some(b) => b.to_text(),
        None => String::new(),
    };
    assert(payload@ =~= payload_of(body));
    let text = write_request(method, at_host.as_str(), host_port.as_str(), payload.as_str());
    Ok(SimRequest { host, port, text })
}

/// What the simulated window answers.
pub open spec fn response_outcome(text: Seq<char>) -> Result<JsonModel, Seq<char>> {
    let at = first_at(text, "\r\n\r\n"@);
    if at == -1 {
        Err("模拟服务响应无正文："@ + text)
    } else {
        let body = text.skip(at + 4);
        match json_reading(body) {
            Ok(m) => Ok(m),
            Err(e) => Err("模拟服务响应解析失败："@ + e + "："@ + body),
        }
    }
}

/// Reads what the simulated window answered: the JSON behind the first empty
/// line.
pub fn read_sim_response(bytes: &Vec<u8>) -> (r: Result<Json, String>)
    ensures
        match response_outcome(lossy_text(bytes@)) {
            Ok(m) => r matches Ok(j) && j.model() == m,
            Err(e) => r matches Err(t) && t@ == e,
        },
{
    proof {
        reveal_strlit("\r\n\r\n");
    }
    let text = lossy_string(bytes.as_slice());
    let n: usize = chars_of(text.as_str()).len();
    let body = match find_text(text.as_str(), "\r\n\r\n") {
        Some(i) => {
            assert(text@.subrange(i + 4, n as int) =~= text@.skip(i + 4));
            slice(text.as_str(), i + 4, n)
        },
        None => {
            let mut e = copy_str("模拟服务响应无正文：");
            e.append(text.as_str());
            return Err(e);
        },
    };
    match read_json(body.as_str()) {
        Ok(j) => Ok(j),
        Err(error) => {
            let mut e = copy_str("模拟服务响应解析失败：");
            e.append(error.as_str());
            e.append("：");
            e.append(body.as_str());
            Err(e)
        },
    }
}

// ---------------------------------------------------------------------------
// Actions
// ---------------------------------------------------------------------------

/// What is sent to the simulated window.
pub struct SimCall {
    pub path: &'static str,
    pub body: Json,
}

/// A click at a place.
pub open spec fn click_body(x: int, y: int) -> JsonModel {
    JsonModel::Table(empty_table().insert("x"@, JsonModel::Int(x)).insert("y"@, JsonModel::Int(y)))
}

/// A click at a place.
pub fn sim_click(x: i64, y: i64) -> (r: SimCall)
    ensures
        r.path@ == "click"@,
        r.body.model() == click_body(x as int, y as int),
{
    SimCall { path: "click", body: Json::table().with("x", Json::Int(x)).with("y", Json::Int(y)) }
}

/// Typing.
pub fn sim_type(text: &str) -> (r: SimCall)
    ensures
        r.path@ == "type"@,
        r.body.model() == JsonModel::Table(empty_table().insert("text"@, JsonModel::Text(text@))),
{
    SimCall { path: "type", body: Json::table().with("text", Json::text(text)) }
}

/// A key, or keys together.
pub fn sim_key(combo: &str) -> (r: SimCall)
    ensures
        r.path@ == "key"@,
        r.body.model() == JsonModel::Table(empty_table().insert("key"@, JsonModel::Text(combo@))),
{
    SimCall { path: "key", body: Json::table().with("key", Json::text(combo)) }
}

/// Half of a number, cut towards zero.
pub open spec fn half(n: int) -> int {
    if n >= 0 {
        n / 2
    } else {
        -((-n) / 2)
    }
}

fn half_of(n: i64) -> (r: i64)
    requires
        -2147483648 <= n <= 2147483647,
    ensures
        r == half(n as int),
        -2147483648 <= r <= 2147483647,
{
    if n >= 0 {
        n / 2
    } else {
        -((-n) / 2)
    }
}

/// The click on the middle of a line.
pub fn click_line_center(line: &Json) -> (r: SimCall)
    ensures
        r.path@ == "click"@,
        r.body.model() == click_body(
            i32_or_zero(line.model(), "x"@) + half(i32_or_zero(line.model(), "width"@)),
            i32_or_zero(line.model(), "y"@) + half(i32_or_zero(line.model(), "height"@)),
        ),
{
    let x: i64 = number_or_zero(line, "x");
    let y: i64 = number_or_zero(line, "y");
    let w: i64 = number_or_zero(line, "width");
    let h: i64 = number_or_zero(line, "height");
    sim_click(x + half_of(w), y + half_of(h))
}

/// What a line is likely to be fits the role of the anchor.
pub open spec fn role_fits(role: Option<Seq<char>>, hint: Option<Seq<char>>) -> bool {
    match role {
        None => true,
        Some(r) => if r == "button"@ {
            hint == Some("button"@)
        } else if r == "edit"@ || r == "input"@ {
            hint == Some("input"@)
        } else if r == "text"@ {
            hint matches Some(h) && (h == "message"@ || h == "header"@ || h == "contact"@ || h == "status"@ || h
                == "preview"@)
        } else {
            true
        },
    }
}

/// The line is the one that the anchor means.
pub open spec fn is_anchor(line: JsonModel, anchor: SemanticAnchor) -> bool {
    &&& role_fits(
        match anchor.role {
            Some(r) => Some(r@),
            None => None,
        },
        text_member(line, "role_hint"@),
    )
    &&& anchor.name@.len() > 0
    &&& has_text(text_arg_or(line, "text"@, Seq::<char>::empty()), anchor.name@)
}

fn hint_is(line: &Json, role: &str) -> (r: bool)
    ensures
        r == (text_member(line.model(), "role_hint"@) == Some(role@)),
{
    match line.text_at("role_hint") {
        Some(h) => same_text(h.as_str(), role),
        None => false,
    }
}

/// Whether the line is the one that the anchor means: its text holds the name,
/// and it is likely to be what the role asks for.
pub fn sim_anchor_matches(line: &Json, anchor: &SemanticAnchor) -> (r: bool)
    ensures
        r == is_anchor(line.model(), *anchor),
{
    let role_ok = match &anchor.role {
        None => true,
        Some(r) => if same_text(r.as_str(), "button") {
            hint_is(line, "button")
        } else if same_text(r.as_str(), "edit") || same_text(r.as_str(), "input") {
            hint_is(line, "input")
        } else if same_text(r.as_str(), "text") {
            hint_is(line, "message") || hint_is(line, "header") || hint_is(line, "contact") || hint_is(
                line,
                "status",
            ) || hint_is(line, "preview")
        } else {
            true
        },
    };
    let none = String::new();
    assert(none@ =~= Seq::<char>::empty());
    let text = optional_string(line, "text", none.as_str());
    role_ok && !anchor.name.as_str().is_empty() && contains_text(text.as_str(), anchor.name.as_str())
}

/// The first line that the anchor means, from `i` on.
pub open spec fn first_anchor(v: Seq<JsonModel>, anchor: SemanticAnchor, i: int) -> Option<JsonModel>
    decreases v.len() - i,
{
    if i >= v.len() {
        None
    } else if is_anchor(v[i], anchor) {
        Some(v[i])
    } else {
        first_anchor(v, anchor, i + 1)
    }
}

/// Does what learned actions ask for in the simulated window. The lines that
/// were found are kept; a handle is a line's number.
pub struct SimUiActionSource {
    pub base: String,
    pub keep: Vec<Json>,
}

impl SimUiActionSource {
    /// What the kept lines say.
    pub open spec fn lines(self) -> Seq<JsonModel> {
        list_model(self.keep@)
    }

    /// A source for the window at the address, where one is named.
    pub fn new(named: &Option<String>) -> (r: Result<SimUiActionSource, String>)
        ensures
            match window_address(*named) {
                Some(b) => r matches Ok(s) && s.base@ == b && s.lines() == Seq::<JsonModel>::empty(),
                None => r matches Err(e) && e@ == "模拟环境未配置 OWO_SIM_QQ_URL"@,
            },
    {
        match sim_base_url(named) {
            Some(base) => Ok(SimUiActionSource { base, keep: Vec::new() }),
            None => Err(copy_str("模拟环境未配置 OWO_SIM_QQ_URL")),
        }
    }

    /// Keeps the first line of what the window says that the anchor means, and
    /// hands out its number.
    pub fn find(&mut self, ocr: &Json, anchor: &SemanticAnchor) -> (r: Result<u64, String>)
        ensures
            final(self).base == old(self).base,
            match first_anchor(lines_of_ocr(ocr.model()), *anchor, 0) {
                Some(line) => r == Ok::<u64, String>(old(self).lines().len() as u64) && final(self).lines() == old(
                    self,
                ).lines().push(line),
                None => r matches Err(e) && e@ == "模拟窗口未找到锚点："@ + anchor.name@ && *final(self) == *old(self),
            },
    {
        let ghost all = lines_of_ocr(ocr.model());
        if let Some(v) = ocr.list_at("lines") {
            proof {
                list_model_elements(v@);
                list_model_elements(self.keep@);
            }
            let mut i: usize = 0;
            while i < v.len()
                invariant
                    i <= v@.len(),
                    *self == *old(self),
                    self.lines().len() == self.keep@.len(),
                    all == lines_of_ocr(ocr.model()),
                    all.len() == v@.len(),
                    forall|j: int| 0 <= j < v@.len() ==> #[trigger] all[j] == v@[j].model(),
                    first_anchor(all, *anchor, 0) == first_anchor(all, *anchor, i as int),
                decreases v@.len() - i,
            {
                assert(all[i as int] == v@[i as int].model());
                if sim_anchor_matches(&v[i], anchor) {
                    let handle: usize = self.keep.len();
                    self.keep.push(v[i].clone());
                    assert(self.keep@.drop_last() =~= old(self).keep@);
                    return Ok(handle as u64);
                }
                i += 1;
            }
        }
        let mut e = copy_str("模拟窗口未找到锚点：");
        e.append(anchor.name.as_str());
        Err(e)
    }

    /// The line of a handle.
    pub fn line(&self, handle: u64) -> (r: Result<Json, String>)
        ensures
            if handle < self.lines().len() {
                r matches Ok(j) && j.model() == self.lines()[handle as int]
            } else {
                r matches Err(e) && e@ == "模拟锚点句柄失效"@
            },
    {
        proof {
            list_model_elements(self.keep@);
        }
        if handle < self.keep.len() as u64 {
            Ok(self.keep[handle as usize].clone())
        } else {
            Err(copy_str("模拟锚点句柄失效"))
        }
    }

    /// The click on a line that was found.
    pub fn invoke(&self, handle: u64) -> (r: Result<SimCall, String>)
        ensures
            if handle < self.lines().len() {
                let line = self.lines()[handle as int];
                r matches Ok(c) && c.path@ == "click"@ && c.body.model() == click_body(
                    i32_or_zero(line, "x"@) + half(i32_or_zero(line, "width"@)),
                    i32_or_zero(line, "y"@) + half(i32_or_zero(line, "height"@)),
                )
            } else {
                r matches Err(e) && e@ == "模拟锚点句柄失效"@
            },
    {
        match self.line(handle) {
            Ok(line) => Ok(click_line_center(&line)),
            Err(e) => Err(e),
        }
    }

    /// Typing into a line that was found: a field for input is clicked first.
    pub fn type_text(&self, handle: u64, text: &str) -> (r: Result<(Option<SimCall>, SimCall), String>)
        ensures
            if handle < self.lines().len() {
                let line = self.lines()[handle as int];
                &&& r matches Ok(c)
                &&& c.1.path@ == "type"@
                &&& c.1.body.model() == JsonModel::Table(empty_table().insert("text"@, JsonModel::Text(text@)))
                &&& if text_member(line, "role_hint"@) == Some("input"@) {
                    c.0 matches Some(k) && k.path@ == "click"@ && k.body.model() == click_body(
                        i32_or_zero(line, "x"@) + half(i32_or_zero(line, "width"@)),
                        i32_or_zero(line, "y"@) + half(i32_or_zero(line, "height"@)),
                    )
                } else {
                    c.0 is None
                }
            } else {
                r matches Err(e) && e@ == "模拟锚点句柄失效"@
            },
    {
        match self.line(handle) {
            Ok(line) => {
                let first = if hint_is(&line, "input") {
                    Some(click_line_center(&line))
                } else {
                    None
                };
                Ok((first, sim_type(text)))
            },
            Err(e) => Err(e),
        }
    }
}

/// What is asked of the simulated window to test a predicate.
pub fn verify_path(predicate: &str) -> (r: &'static str)
    ensures
        r@ == (if after_prefix(predicate@, "value:"@) is Some {
            "state"@
        } else {
            "ocr"@
        }),
{
    match strip_prefix(predicate, "value:") {
        Some(_) => "state",
        None => "ocr",
    }
}

/// The predicate holds of what the window answered.
pub open spec fn holds(predicate: Seq<char>, reply: JsonModel) -> bool {
    match after_prefix(predicate, "value:"@) {
        Some(expected) => has_text(text_arg_or(reply, "input"@, Seq::<char>::empty()), expected),
        None => match after_prefix(predicate, "ui:"@) {
            Some(expected) => has_text(json_text(reply), expected),
            None => has_text(json_text(reply), predicate),
        },
    }
}

/// Whether the predicate holds of what the window answered: of the text in its
/// field for input, or of all that it shows.
pub fn verify(predicate: &str, reply: &Json) -> (r: bool)
    ensures
        r == holds(predicate@, reply.model()),
{
    if let Some(expected) = strip_prefix(predicate, "value:") {
        let none = String::new();
        assert(none@ =~= Seq::<char>::empty());
        let input = optional_string(reply, "input", none.as_str());
        return contains_text(input.as_str(), expected.as_str());
    }
    let haystack = reply.to_text();
    match strip_prefix(predicate, "ui:") {
        Some(expected) => contains_text(haystack.as_str(), expected.as_str()),
        None => contains_text(haystack.as_str(), predicate),
    }
}

// ---------------------------------------------------------------------------
// Laws
// ---------------------------------------------------------------------------

/// The address of the simulated window is what was set, without white space around it; a
/// blank one is none. A path hangs on it with one slash between them.
pub proof fn window_addresses_are_joined(t: String, base: Seq<char>, path: Seq<char>)
    ensures
        trimmed(t@).len() > 0 ==> window_address(Some(t)) == Some(trimmed(t@)),
        trimmed(t@).len() == 0 ==> window_address(Some(t)) is None,
        window_address(None) is None,
        (base.len() == 0 || base.last() != '/') && (path.len() == 0 || path[0] != '/') ==> window_url(base, path) == base
            + "/"@ + path && window_url(base.push('/'), seq!['/'] + path) == base + "/"@ + path,
{
    crate::gateway::slashes_at_the_end_go(base);
    crate::text::leading_parts_are_taken_off(path, '/', "/"@.push('/'));
    assert((seq!['/'] + path).skip(1) =~= path);
}

/// An address is its host up to the first slash and its path from there on; the port
/// stands behind the last colon, and is eighty where none can be read.
pub proof fn addresses_fall_into_host_port_and_path(host: Seq<char>, path: Seq<char>, port: Seq<char>, n: nat)
    requires
        !host.contains('/'),
        !port.contains(':'),
    ensures
        host_and_path(host + "/"@ + path) == (host, "/"@ + path),
        host_and_path(host) == (host, "/"@),
        unsigned_value(port) == Some(n) && n <= 65535 ==> host_and_port(host + seq![':'] + port) == (host, n as int),
        unsigned_value(port) is None ==> host_and_port(host + seq![':'] + port) == (host, 80int),
        !host.contains(':') ==> host_and_port(host) == (host, 80int),
{
    reveal_strlit("/");
    let s = "/"@;
    assert(s =~= seq!['/']);
    let full = host + s + path;
    let k = host.len() as int;
    assert(full.subrange(k, k + 1) =~= s);
    assert forall|j: int| 0 <= j < k implies full.subrange(j, #[trigger] (j + s.len())) != s by {
        assert(full.subrange(j, j + 1)[0] == host[j]);
        if host[j] == '/' {
            assert(host.contains('/'));
        }
    }
    first_position_is(full, s, k);
    assert(full.take(k) =~= host);
    assert(full.skip(k + 1) =~= path);
    if has_text(host, s) {
        let i = choose|i: int| crate::text::occurs_at(host, s, i);
        assert(host.subrange(i, i + 1)[0] == host[i]);
        assert(host.contains('/'));
    }
    let h = host + seq![':'] + port;
    last_is(h, ':', k);
    assert(h.take(k) =~= host);
    assert(h.skip(k + 1) =~= port);
    if !host.contains(':') {
        last_is_none(host, ':');
    }
}

proof fn last_is(s: Seq<char>, c: char, k: int)
    requires
        0 <= k < s.len(),
        s[k] == c,
        !s.skip(k + 1).contains(c),
    ensures
        last_place(s, c) == k,
    decreases s.len(),
{
    if k < s.len() - 1 {
        let t = s.skip(k + 1);
        assert(t[t.len() - 1] == s.last());
        assert(s.last() != c);
        let r = s.drop_last();
        assert(!r.skip(k + 1).contains(c)) by {
            if r.skip(k + 1).contains(c) {
                let i = choose|i: int| 0 <= i < r.skip(k + 1).len() && #[trigger] r.skip(k + 1)[i] == c;
                assert(t[i] == c);
            }
        }
        last_is(r, c, k);
    }
}

proof fn last_is_none(s: Seq<char>, c: char)
    requires
        !s.contains(c),
    ensures
        last_place(s, c) == -1,
    decreases s.len(),
{
    if s.len() > 0 {
        assert(s[s.len() - 1] == s.last());
        assert(!s.drop_last().contains(c)) by {
            if s.drop_last().contains(c) {
                let i = choose|i: int| 0 <= i < s.drop_last().len() && #[trigger] s.drop_last()[i] == c;
                assert(s[i] == c);
            }
        }
        last_is_none(s.drop_last(), c);
    }
}

/// A request names its method, its path and its host, says how many bytes follow, and
/// ends with them.
pub proof fn requests_carry_their_payload(method: Seq<char>, path: Seq<char>, host_port: Seq<char>, payload: Seq<char>)
    ensures
        ({
            let r = request_words(method, path, host_port, payload);
            &&& begins_with(r, method + " "@ + path + " HTTP/1.1\r\n"@)
            &&& has_text(r, "Host: "@ + host_port + "\r\n"@)
            &&& has_text(r, "Content-Length: "@ + decimal(encode_utf8(payload).len()) + "\r\n"@)
            &&& finishes_with(r, "\r\n\r\n"@ + payload)
        }),
{
    reveal_strlit(" HTTP/1.1\r\nHost: ");
    reveal_strlit(" HTTP/1.1\r\n");
    reveal_strlit("Host: ");
    reveal_strlit("\r\n");
    reveal_strlit("\r\nContent-Type: application/json\r\nContent-Length: ");
    reveal_strlit("Content-Length: ");
    reveal_strlit("\r\nConnection: close\r\n\r\n");
    reveal_strlit("\r\n\r\n");
    let r = request_words(method, path, host_port, payload);
    let a = method + " "@ + path;
    let d = decimal(encode_utf8(payload).len());
    let m = "\r\nContent-Type: application/json\r\nContent-Length: "@;
    let c = "\r\nConnection: close\r\n\r\n"@;
    let first = a + " HTTP/1.1\r\n"@;
    assert(" HTTP/1.1\r\nHost: "@ =~= " HTTP/1.1\r\n"@ + "Host: "@);
    assert(m =~= "\r\n"@ + m.skip(2));
    let m2 = m.subrange(2, m.len() - 16);
    assert(m =~= "\r\n"@ + m2 + "Content-Length: "@);
    assert(c =~= "\r\n"@ + c.skip(2));
    let c2 = c.subrange(2, c.len() - 4);
    assert(c =~= "\r\n"@ + c2 + "\r\n\r\n"@);
    let h = "Host: "@ + host_port + "\r\n"@;
    let l = "Content-Length: "@ + d + "\r\n"@;
    let z = "\r\n\r\n"@ + payload;
    assert(r =~= first + h + (m2 + l + c2 + z));
    assert(r.take(first.len() as int) =~= first);
    parts_stand_in_the_whole(first, h, m2 + l + c2 + z, r);
    assert(r =~= (first + h + m2) + l + (c2 + z));
    parts_stand_in_the_whole(first + h + m2, l, c2 + z, r);
    assert(r.skip(r.len() - z.len()) =~= z);
}

/// What is answered stands behind the first empty line; it has to be JSON.
pub proof fn answers_stand_behind_the_head(text: Seq<char>)
    ensures
        ({
            let at = first_at(text, "\r\n\r\n"@);
            &&& at < 0 ==> response_outcome(text) is Err
            &&& at >= 0 ==> (json_reading(text.skip(at + 4)) matches Ok(m) ==> response_outcome(text) == Ok::<
                JsonModel,
                Seq<char>,
            >(m))
            &&& at >= 0 ==> (json_reading(text.skip(at + 4)) is Err ==> response_outcome(text) is Err)
        }),
{
    first_position_is_first(text, "\r\n\r\n"@, 0);
}

/// Half of a number is what is left of it when it is cut in two, towards zero.
pub proof fn halves_are_cut_towards_zero(n: int)
    ensures
        n >= 0 ==> 2 * half(n) <= n <= 2 * half(n) + 1,
        n < 0 ==> 2 * half(n) - 1 <= n <= 2 * half(n),
        half(-n) == -half(n),
{
}

/// A line is what is looked for if it holds the name and its role is the one asked for:
/// a button, an input, or one of the kinds of text; no role asks for none.
pub proof fn anchors_fit_by_name_and_role(line: JsonModel, anchor: SemanticAnchor, role: String, t: Seq<char>, hint: Seq<char>)
    requires
        member(line, "text"@) == Some(JsonModel::Text(t)),
        member(line, "role_hint"@) == Some(JsonModel::Text(hint)),
    ensures
        anchor.name@.len() == 0 ==> !is_anchor(line, anchor),
        !has_text(t, anchor.name@) ==> !is_anchor(line, anchor),
        anchor.role is None && anchor.name@.len() > 0 && has_text(t, anchor.name@) ==> is_anchor(line, anchor),
        anchor.role == Some(role) && role@ == "button"@ ==> (is_anchor(line, anchor) <==> hint == "button"@
            && anchor.name@.len() > 0 && has_text(t, anchor.name@)),
        anchor.role == Some(role) && (role@ == "edit"@ || role@ == "input"@) ==> (is_anchor(line, anchor) <==> hint
            == "input"@ && anchor.name@.len() > 0 && has_text(t, anchor.name@)),
        anchor.role == Some(role) && role@ == "text"@ && (hint == "button"@ || hint == "input"@) ==> !is_anchor(line, anchor),
        anchor.role == Some(role) && role@ == "text"@ && (hint == "message"@ || hint == "header"@ || hint == "contact"@
            || hint == "status"@ || hint == "preview"@) && anchor.name@.len() > 0 && has_text(t, anchor.name@) ==> is_anchor(
            line,
            anchor,
        ),
{
    reveal_strlit("button");
    reveal_strlit("edit");
    reveal_strlit("input");
    reveal_strlit("text");
    reveal_strlit("message");
    reveal_strlit("header");
    reveal_strlit("contact");
    reveal_strlit("status");
    reveal_strlit("preview");
    assert("button"@.len() == 6 && "button"@[0] == 'b' && "edit"@.len() == 4 && "edit"@[0] == 'e' && "input"@.len() == 5
        && "text"@.len() == 4 && "text"@[0] == 't' && "message"@.len() == 7 && "header"@.len() == 6 && "header"@[0] == 'h'
        && "contact"@.len() == 7 && "status"@.len() == 6 && "status"@[0] == 's' && "preview"@.len() == 7);
}

/// The first line that fits is the one that is found, and none where none fits.
pub proof fn the_first_anchor_is_found(v: Seq<JsonModel>, anchor: SemanticAnchor, from: int, i: int)
    requires
        0 <= from <= i <= v.len(),
        forall|j: int| from <= j < i ==> !is_anchor(#[trigger] v[j], anchor),
    ensures
        i < v.len() && is_anchor(v[i], anchor) ==> first_anchor(v, anchor, from) == Some(v[i]),
        i == v.len() ==> first_anchor(v, anchor, from) is None,
    decreases i - from,
{
    if from < i {
        assert(!is_anchor(v[from], anchor));
        the_first_anchor_is_found(v, anchor, from + 1, i);
    }
}

/// A condition on a value looks at what was typed; one on the window, or without a kind,
/// at all that the window shows.
pub proof fn conditions_look_where_they_say(expected: Seq<char>, reply: JsonModel, typed: Seq<char>)
    ensures
        member(reply, "input"@) == Some(JsonModel::Text(typed)) ==> (holds("value:"@ + expected, reply) <==> has_text(
            typed,
            expected,
        )),
        holds("ui:"@ + expected, reply) <==> has_text(json_text(reply), expected),
        !begins_with(expected, "value:"@) && !begins_with(expected, "ui:"@) ==> (holds(expected, reply) <==> has_text(
            json_text(reply),
            expected,
        )),
{
    parts_stand_in_the_whole(expected, "value:"@, expected, expected);
    parts_stand_in_the_whole(expected, "ui:"@, expected, expected);
    reveal_strlit("value:");
    reveal_strlit("ui:");
    let u = "ui:"@ + expected;
    if begins_with(u, "value:"@) {
        assert(u.take(6)[0] == u[0]);
    }
}

proof fn click_words_differ()
    ensures
        "x"@ != "y"@,
{
    reveal_strlit("x");
    reveal_strlit("y");
    assert("x"@[0] == 'x' && "y"@[0] == 'y');
}

/// A click says where.
pub proof fn clicks_say_where(x: int, y: int)
    ensures
        member(click_body(x, y), "x"@) == Some(JsonModel::Int(x)),
        member(click_body(x, y), "y"@) == Some(JsonModel::Int(y)),
{
    click_words_differ();
}

} // verus!
