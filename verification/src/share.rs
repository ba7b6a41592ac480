//! Sessions written out as Markdown or HTML.

use crate::chat::{calls_model, chat_model, CallModel, ChatMessage, ChatModel, ToolCall};
use crate::json::json_text;
use crate::session::{plain_path, Session};
use crate::text::{
    begins_with, chars_of, copy_str, decimal, decimal_text, has_text, occurs_at, parts_stand_in_the_whole, same_text,
    strip_prefix, to_slashes,
};
use vstd::prelude::*;

verus! {

pub open spec fn content_of(m: ChatModel) -> Seq<char> {
    match m.content {
        Some(c) => c,
        None => Seq::<char>::empty(),
    }
}

fn content_str(m: &ChatMessage) -> (r: String)
    ensures
        r@ == content_of(m@),
{
    match &m.content {
        Some(c) => c.clone(),
        None => String::new(),
    }
}

fn display_workspace(session: &Session) -> (r: String)
    ensures
        r@ == plain_path(session.workspace@),
{
    let raw = to_slashes(session.workspace.as_str());
    match strip_prefix(raw.as_str(), "//?/") {
        Some(rest) => rest,
        None => raw,
    }
}

// ---------------------------------------------------------------------------
// Markdown
// ---------------------------------------------------------------------------

/// The lines of calls.
pub open spec fn markdown_calls(v: Seq<CallModel>) -> Seq<char>
    decreases v.len(),
{
    if v.len() == 0 {
        Seq::<char>::empty()
    } else {
        markdown_calls(v.drop_last()) + "- `"@ + v.last().name + "`：`"@ + json_text(v.last().arguments) + "`\n"@
    }
}

/// A section with a heading.
pub open spec fn markdown_section(index: nat, heading: Seq<char>, content: Seq<char>) -> Seq<char> {
    "## "@ + decimal(index) + ". "@ + heading + "\n\n"@ + content + "\n\n"@
}

/// A message in Markdown.
pub open spec fn markdown_message(index: nat, m: ChatModel) -> Seq<char> {
    if m.role == "user"@ {
        markdown_section(index, "用户"@, content_of(m))
    } else if m.role == "assistant"@ {
        match m.tool_calls {
            Some(calls) => "## "@ + decimal(index) + ". "@ + "助手（工具调用）"@ + "\n\n"@ + markdown_calls(calls)
                + "\n"@,
            None => markdown_section(index, "助手"@, content_of(m)),
        }
    } else if m.role == "tool"@ {
        markdown_section(index, "工具结果"@, "```json\n"@ + content_of(m) + "\n```"@)
    } else if m.role == "system"@ {
        markdown_section(index, "系统"@, content_of(m))
    } else {
        markdown_section(index, m.role, content_of(m))
    }
}

/// The first `n` messages in Markdown.
pub open spec fn markdown_messages(v: Seq<ChatModel>, n: int) -> Seq<char>
    decreases n,
{
    if n <= 0 {
        Seq::<char>::empty()
    } else {
        markdown_messages(v, n - 1) + markdown_message((n - 1) as nat, v[n - 1])
    }
}

/// The head of a session in Markdown.
pub open spec fn markdown_head(s: Session) -> Seq<char> {
    "# OwO Agent 会话分享\n\n- 会话：`"@ + s.id@ + "`\n- 工作区：`"@ + plain_path(s.workspace@) + "`\n- 模型：`"@ + s.model@
        + "`\n- 创建："@ + s.created_at@ + "\n- 更新："@ + s.updated_at@ + "\n"@ + (match s.parent_id {
        Some(p) => "- 父会话：`"@ + p@ + "`\n"@,
        None => Seq::<char>::empty(),
    }) + "\n"@
}

fn section_text(index: usize, heading: &str, content: &str) -> (r: String)
    ensures
        r@ == markdown_section(index as nat, heading@, content@),
{
    let mut r = copy_str("## ");
    r.append(decimal_text(index as u64).as_str());
    r.append(". ");
    r.append(heading);
    r.append("\n\n");
    r.append(content);
    r.append("\n\n");
    r
}

fn calls_text(v: &Vec<ToolCall>) -> (r: String)
    ensures
        r@ == markdown_calls(calls_model(v@)),
{
    let mut r = String::new();
    let ghost all = calls_model(v@);
    assert(r@ =~= markdown_calls(all.take(0)));
    for i in 0..v.len()
        invariant
            all == calls_model(v@),
            r@ == markdown_calls(all.take(i as int)),
    {
        assert(all.take(i + 1).drop_last() =~= all.take(i as int));
        r.append("- `");
        r.append(v[i].name.as_str());
        r.append("`：`");
        r.append(v[i].arguments.to_text().as_str());
        r.append("`\n");
    }
    assert(all.take(all.len() as int) =~= all);
    r
}

/// A message in Markdown.
pub fn render_message_markdown(index: usize, message: &ChatMessage) -> (r: String)
    ensures
        r@ == markdown_message(index as nat, message@),
{
    let content = content_str(message);
    if same_text(message.role.as_str(), "user") {
        section_text(index, "用户", content.as_str())
    } else if same_text(message.role.as_str(), "assistant") {
        match &message.tool_calls {
            Some(calls) => {
                let mut r = copy_str("## ");
                r.append(decimal_text(index as u64).as_str());
                r.append(". ");
                r.append("助手（工具调用）");
                r.append("\n\n");
                r.append(calls_text(calls).as_str());
                r.append("\n");
                r
            },
            None => section_text(index, "助手", content.as_str()),
        }
    } else if same_text(message.role.as_str(), "tool") {
        let mut block = copy_str("```json\n");
        block.append(content.as_str());
        block.append("\n```");
        section_text(index, "工具结果", block.as_str())
    } else if same_text(message.role.as_str(), "system") {
        section_text(index, "系统", content.as_str())
    } else {
        section_text(index, message.role.as_str(), content.as_str())
    }
}

/// A session as a Markdown document.
pub open spec fn markdown_text(s: Session) -> Seq<char> {
    markdown_head(s) + markdown_messages(chat_model(s.messages@), s.messages@.len() as int)
}

/// A session in Markdown.
pub fn export_markdown(session: &Session) -> (r: String)
    ensures
        r@ == markdown_text(*session),
{
    let mut r = copy_str("# OwO Agent 会话分享\n\n- 会话：`");
    r.append(session.id.as_str());
    r.append("`\n- 工作区：`");
    r.append(display_workspace(session).as_str());
    r.append("`\n- 模型：`");
    r.append(session.model.as_str());
    r.append("`\n- 创建：");
    r.append(session.created_at.as_str());
    r.append("\n- 更新：");
    r.append(session.updated_at.as_str());
    r.append("\n");
    let mut parent = String::new();
    match &session.parent_id {
        Some(p) => {
            parent.append("- 父会话：`");
            parent.append(p.as_str());
            parent.append("`\n");
            assert(parent@ =~= "- 父会话：`"@ + p@ + "`\n"@);
        },
        None => {},
    }
    r.append(parent.as_str());
    r.append("\n");
    let ghost head = r@;
    assert(head == markdown_head(*session));
    let ghost all = chat_model(session.messages@);
    assert(r@ =~= head + markdown_messages(all, 0));
    for i in 0..session.messages.len()
        invariant
            all == chat_model(session.messages@),
            r@ == head + markdown_messages(all, i as int),
    {
        r.append(render_message_markdown(i, &session.messages[i]).as_str());
        assert(r@ =~= head + markdown_messages(all, i + 1));
    }
    r
}

// ---------------------------------------------------------------------------
// HTML
// ---------------------------------------------------------------------------

/// A character as it stands in HTML.
pub open spec fn escaped_char(c: char) -> Seq<char> {
    if c == '&' {
        "&amp;"@
    } else if c == '<' {
        "&lt;"@
    } else if c == '>' {
        "&gt;"@
    } else if c == '"' {
        "&quot;"@
    } else if c == '\'' {
        "&#39;"@
    } else {
        seq![c]
    }
}

/// A text as it stands in HTML.
pub open spec fn escaped(s: Seq<char>) -> Seq<char>
    decreases s.len(),
{
    if s.len() == 0 {
        Seq::<char>::empty()
    } else {
        escaped(s.drop_last()) + escaped_char(s.last())
    }
}

/// A text as it stands in HTML.
pub fn html_escape(input: &str) -> (r: String)
    ensures
        r@ == escaped(input@),
{
    let v = chars_of(input);
    let mut r = String::new();
    assert(r@ =~= escaped(input@.take(0)));
    for i in 0..v.len()
        invariant
            v@ == input@,
            r@ == escaped(input@.take(i as int)),
    {
        assert(input@.take(i + 1).drop_last() =~= input@.take(i as int));
        let c: char = v[i];
        if c == '&' {
            r.append("&amp;");
        } else if c == '<' {
            r.append("&lt;");
        } else if c == '>' {
            r.append("&gt;");
        } else if c == '"' {
            r.append("&quot;");
        } else if c == '\'' {
            r.append("&#39;");
        } else {
            r.push(c);
            assert(r@ =~= escaped(input@.take(i as int)) + seq![c]);
        }
    }
    assert(input@.take(input@.len() as int) =~= input@);
    r
}

/// Nothing that opens or closes a tag or an attribute is left in a text once it
/// is escaped.
pub proof fn escaped_holds_no_markup(s: Seq<char>, i: int)
    requires
        0 <= i < escaped(s).len(),
    ensures
        escaped(s)[i] != '<',
        escaped(s)[i] != '>',
        escaped(s)[i] != '"',
        escaped(s)[i] != '\'',
    decreases s.len(),
{
    reveal_strlit("&amp;");
    reveal_strlit("&lt;");
    reveal_strlit("&gt;");
    reveal_strlit("&quot;");
    reveal_strlit("&#39;");
    if s.len() > 0 {
        let front = escaped(s.drop_last());
        if i < front.len() {
            escaped_holds_no_markup(s.drop_last(), i);
        } else {
            assert(escaped(s)[i] == escaped_char(s.last())[i - front.len()]);
        }
    }
}

/// What stands before the body.
pub const HTML_HEAD: &'static str = "<!DOCTYPE html><html lang=\"zh\"><head><meta charset=\"utf-8\"><title>OwO Agent 会话分享</title><style>body{max-width:820px;margin:2rem auto;padding:0 1rem;font-family:system-ui,sans-serif;line-height:1.6}pre{background:#f5f5f5;padding:0.8rem;border-radius:6px;overflow-x:auto}code{background:#f0f0f0;padding:0.1rem 0.3rem;border-radius:4px}h2{border-bottom:1px solid #eee;padding-bottom:0.2rem}</style></head><body>";

/// The name of a role.
pub open spec fn role_name(role: Seq<char>) -> Seq<char> {
    if role == "user"@ {
        "用户"@
    } else if role == "assistant"@ {
        "助手"@
    } else if role == "tool"@ {
        "工具结果"@
    } else if role == "system"@ {
        "系统"@
    } else {
        role
    }
}

pub open spec fn html_calls(v: Seq<CallModel>) -> Seq<char>
    decreases v.len(),
{
    if v.len() == 0 {
        Seq::<char>::empty()
    } else {
        html_calls(v.drop_last()) + "<p><code>"@ + escaped(v.last().name) + "</code>: <code>"@ + escaped(
            json_text(v.last().arguments),
        ) + "</code></p>"@
    }
}

/// A message in HTML.
pub open spec fn html_message(index: nat, m: ChatModel) -> Seq<char> {
    "<h2>"@ + decimal(index) + ". "@ + role_name(m.role) + "</h2><pre>"@ + escaped(content_of(m)) + "</pre>"@ + (
    match m.tool_calls {
        Some(v) => html_calls(v),
        None => Seq::<char>::empty(),
    })
}

pub open spec fn html_messages(v: Seq<ChatModel>, n: int) -> Seq<char>
    decreases n,
{
    if n <= 0 {
        Seq::<char>::empty()
    } else {
        html_messages(v, n - 1) + html_message((n - 1) as nat, v[n - 1])
    }
}

/// The head of a session in HTML.
pub open spec fn html_session(s: Session) -> Seq<char> {
    "<h1>OwO Agent 会话分享</h1><dl><dt>会话</dt><dd><code>"@ + escaped(s.id@)
        + "</code></dd><dt>工作区</dt><dd><code>"@ + escaped(plain_path(s.workspace@))
        + "</code></dd><dt>模型</dt><dd><code>"@ + escaped(s.model@) + "</code></dd><dt>创建</dt><dd>"@ + escaped(
        s.created_at@,
    ) + "</dd><dt>更新</dt><dd>"@ + escaped(s.updated_at@) + "</dd></dl>"@ + (match s.parent_id {
        Some(p) => "<p>父会话：<code>"@ + escaped(p@) + "</code></p>"@,
        None => Seq::<char>::empty(),
    }) + "<hr>"@
}

fn role_str(role: &str) -> (r: String)
    ensures
        r@ == role_name(role@),
{
    if same_text(role, "user") {
        copy_str("用户")
    } else if same_text(role, "assistant") {
        copy_str("助手")
    } else if same_text(role, "tool") {
        copy_str("工具结果")
    } else if same_text(role, "system") {
        copy_str("系统")
    } else {
        copy_str(role)
    }
}

fn html_calls_text(v: &Vec<ToolCall>) -> (r: String)
    ensures
        r@ == html_calls(calls_model(v@)),
{
    let mut r = String::new();
    let ghost all = calls_model(v@);
    assert(r@ =~= html_calls(all.take(0)));
    for i in 0..v.len()
        invariant
            all == calls_model(v@),
            r@ == html_calls(all.take(i as int)),
    {
        assert(all.take(i + 1).drop_last() =~= all.take(i as int));
        r.append("<p><code>");
        r.append(html_escape(v[i].name.as_str()).as_str());
        r.append("</code>: <code>");
        r.append(html_escape(v[i].arguments.to_text().as_str()).as_str());
        r.append("</code></p>");
    }
    assert(all.take(all.len() as int) =~= all);
    r
}

fn html_message_text(index: usize, m: &ChatMessage) -> (r: String)
    ensures
        r@ == html_message(index as nat, m@),
{
    let mut r = copy_str("<h2>");
    r.append(decimal_text(index as u64).as_str());
    r.append(". ");
    r.append(role_str(m.role.as_str()).as_str());
    r.append("</h2><pre>");
    r.append(html_escape(content_str(m).as_str()).as_str());
    r.append("</pre>");
    let mut calls = String::new();
    match &m.tool_calls {
        Some(v) => {
            calls = html_calls_text(v);
        },
        None => {},
    }
    r.append(calls.as_str());
    assert(r@ =~= html_message(index as nat, m@));
    r
}

fn html_session_text(session: &Session) -> (r: String)
    ensures
        r@ == html_session(*session),
{
    let mut r = copy_str("<h1>OwO Agent 会话分享</h1><dl><dt>会话</dt><dd><code>");
    r.append(html_escape(session.id.as_str()).as_str());
    r.append("</code></dd><dt>工作区</dt><dd><code>");
    r.append(html_escape(display_workspace(session).as_str()).as_str());
    r.append("</code></dd><dt>模型</dt><dd><code>");
    r.append(html_escape(session.model.as_str()).as_str());
    r.append("</code></dd><dt>创建</dt><dd>");
    r.append(html_escape(session.created_at.as_str()).as_str());
    r.append("</dd><dt>更新</dt><dd>");
    r.append(html_escape(session.updated_at.as_str()).as_str());
    r.append("</dd></dl>");
    let mut parent = String::new();
    match &session.parent_id {
        Some(p) => {
            parent.append("<p>父会话：<code>");
            parent.append(html_escape(p.as_str()).as_str());
            parent.append("</code></p>");
            assert(parent@ =~= "<p>父会话：<code>"@ + escaped(p@) + "</code></p>"@);
        },
        None => {},
    }
    r.append(parent.as_str());
    r.append("<hr>");
    r
}

/// A session as an HTML page.
pub open spec fn html_text(s: Session) -> Seq<char> {
    HTML_HEAD@ + (html_session(s) + html_messages(chat_model(s.messages@), s.messages@.len() as int))
        + "</body></html>"@
}

/// A session as a page of HTML that needs nothing else.
pub fn export_html(session: &Session) -> (r: String)
    ensures
        r@ == html_text(*session),
{
    let mut body = html_session_text(session);
    let ghost head = body@;
    let ghost all = chat_model(session.messages@);
    assert(body@ =~= head + html_messages(all, 0));
    for i in 0..session.messages.len()
        invariant
            all == chat_model(session.messages@),
            body@ == head + html_messages(all, i as int),
    {
        body.append(html_message_text(i, &session.messages[i]).as_str());
        assert(body@ =~= head + html_messages(all, i + 1));
    }
    let mut r = copy_str(HTML_HEAD);
    r.append(body.as_str());
    r.append("</body></html>");
    r
}

/// A text is escaped character by character: the five that mean something in a page are
/// written by their names, every other stays.
pub proof fn escaping_goes_by_characters(s: Seq<char>, t: Seq<char>, c: char)
    ensures
        escaped(s + t) == escaped(s) + escaped(t),
        escaped(seq!['&']) == "&amp;"@ && escaped(seq!['<']) == "&lt;"@ && escaped(seq!['>']) == "&gt;"@ && escaped(
            seq!['"'],
        ) == "&quot;"@ && escaped(seq!['\'']) == "&#39;"@,
        c != '&' && c != '<' && c != '>' && c != '"' && c != '\'' ==> escaped(seq![c]) == seq![c],
    decreases t.len(),
{
    if t.len() == 0 {
        assert(s + t =~= s);
        assert(escaped(s) + escaped(t) =~= escaped(s));
    } else {
        escaping_goes_by_characters(s, t.drop_last(), c);
        assert((s + t).drop_last() =~= s + t.drop_last());
        assert(escaped(s + t) =~= escaped(s) + escaped(t));
    }
    one_escaped('&');
    one_escaped('<');
    one_escaped('>');
    one_escaped('"');
    one_escaped('\'');
    one_escaped(c);
}

proof fn one_escaped(c: char)
    ensures
        escaped(seq![c]) == escaped_char(c),
{
    let s = seq![c];
    assert(s.drop_last() =~= Seq::<char>::empty());
    assert(escaped(s.drop_last()) =~= Seq::<char>::empty());
    assert(escaped(s) == escaped(s.drop_last()) + escaped_char(s.last()));
    assert(escaped(s) =~= escaped_char(c));
}

/// A session that is shared holds every message, in order: behind its number stands who
/// speaks, and what was said.
pub proof fn shared_sessions_hold_every_message(s: Session, i: int)
    requires
        0 <= i < s.messages@.len(),
    ensures
        has_text(markdown_text(s), markdown_message(i as nat, chat_model(s.messages@)[i])),
        has_text(html_text(s), html_message(i as nat, chat_model(s.messages@)[i])),
{
    let v = chat_model(s.messages@);
    let n = s.messages@.len() as int;
    message_within(v, n, i);
    let m = markdown_message(i as nat, v[i]);
    let h = html_message(i as nat, v[i]);
    let none = Seq::<char>::empty();
    let all = markdown_messages(v, n);
    assert(markdown_text(s) =~= markdown_head(s) + all + none);
    part_within(markdown_head(s), all, none, m);
    let pages = html_messages(v, n);
    let z = "</body></html>"@;
    assert(html_text(s) =~= (HTML_HEAD@ + html_session(s)) + pages + z);
    part_within(HTML_HEAD@ + html_session(s), pages, z, h);
}

/// A session that is shared names itself, in a page escaped.
pub proof fn shared_sessions_name_themselves(s: Session)
    ensures
        has_text(markdown_text(s), s.id@),
        has_text(html_text(s), escaped(s.id@)),
{
    let a = "# OwO Agent 会话分享\n\n- 会话：`"@;
    let rest = markdown_text(s).skip((a.len() + s.id@.len()) as int);
    assert(markdown_text(s) =~= a + s.id@ + rest);
    parts_stand_in_the_whole(a, s.id@, rest, rest);
    let b = "<h1>OwO Agent 会话分享</h1><dl><dt>会话</dt><dd><code>"@;
    let e = escaped(s.id@);
    let page = html_session(s);
    let after = page.skip((b.len() + e.len()) as int);
    assert(page =~= b + e + after);
    parts_stand_in_the_whole(b, e, after, after);
    let pages = html_messages(chat_model(s.messages@), s.messages@.len() as int);
    let z = "</body></html>"@;
    assert(html_text(s) =~= HTML_HEAD@ + page + (pages + z));
    part_within(HTML_HEAD@, page, pages + z, e);
}

proof fn part_within(a: Seq<char>, s: Seq<char>, b: Seq<char>, p: Seq<char>)
    requires
        has_text(s, p),
    ensures
        has_text(a + s + b, p),
{
    let i = choose|i: int| occurs_at(s, p, i);
    let all = a + s + b;
    let at = a.len() + i;
    assert(all.subrange(at, at + p.len()) =~= s.subrange(i, i + p.len()));
    assert(occurs_at(all, p, at));
}

proof fn message_within(v: Seq<ChatModel>, n: int, i: int)
    requires
        0 <= i < n <= v.len(),
    ensures
        has_text(markdown_messages(v, n), markdown_message(i as nat, v[i])),
        has_text(html_messages(v, n), html_message(i as nat, v[i])),
    decreases n,
{
    let none = Seq::<char>::empty();
    let m = markdown_message((n - 1) as nat, v[n - 1]);
    let h = html_message((n - 1) as nat, v[n - 1]);
    let fm = markdown_messages(v, n - 1);
    let fh = html_messages(v, n - 1);
    if i == n - 1 {
        assert(markdown_messages(v, n) =~= fm + m + none);
        assert(html_messages(v, n) =~= fh + h + none);
        parts_stand_in_the_whole(fm, m, none, none);
        parts_stand_in_the_whole(fh, h, none, none);
    } else {
        message_within(v, n - 1, i);
        assert(markdown_messages(v, n) =~= none + fm + m);
        assert(html_messages(v, n) =~= none + fh + h);
        part_within(none, fm, m, markdown_message(i as nat, v[i]));
        part_within(none, fh, h, html_message(i as nat, v[i]));
    }
}

/// A message that is shared holds its number, who speaks and what was said, in a page
/// escaped; every call of it by its name and with its arguments.
pub proof fn shared_messages_are_whole(index: nat, m: ChatModel, c: Seq<char>)
    requires
        m.content == Some(c),
    ensures
        has_text(html_message(index, m), escaped(c)) && has_text(html_message(index, m), decimal(index)) && has_text(
            html_message(index, m),
            role_name(m.role),
        ),
        m.tool_calls is None ==> has_text(markdown_message(index, m), c) && has_text(
            markdown_message(index, m),
            decimal(index),
        ),
{
    let none = Seq::<char>::empty();
    let h = html_message(index, m);
    let d = decimal(index);
    let tail = h.skip(("<h2>"@.len() + d.len()) as int);
    assert(h =~= "<h2>"@ + d + tail);
    parts_stand_in_the_whole("<h2>"@, d, tail, none);
    let a = "<h2>"@ + d + ". "@;
    let r = role_name(m.role);
    let tail2 = h.skip((a.len() + r.len()) as int);
    assert(h =~= a + r + tail2);
    parts_stand_in_the_whole(a, r, tail2, none);
    let b = a + r + "</h2><pre>"@;
    let e = escaped(c);
    let tail3 = h.skip((b.len() + e.len()) as int);
    assert(h =~= b + e + tail3);
    parts_stand_in_the_whole(b, e, tail3, none);
    if m.tool_calls is None {
        let heading = if m.role == "user"@ {
            "用户"@
        } else if m.role == "assistant"@ {
            "助手"@
        } else if m.role == "tool"@ {
            "工具结果"@
        } else if m.role == "system"@ {
            "系统"@
        } else {
            m.role
        };
        let inner = if m.role != "user"@ && m.role != "assistant"@ && m.role == "tool"@ {
            "```json\n"@ + c + "\n```"@
        } else {
            c
        };
        let t = markdown_message(index, m);
        assert(t == markdown_section(index, heading, inner));
        let x = "## "@ + d + ". "@ + heading + "\n\n"@;
        assert(t =~= x + inner + "\n\n"@);
        if inner != c {
            parts_stand_in_the_whole("```json\n"@, c, "\n```"@, none);
        } else {
            assert(c =~= none + c + none);
            parts_stand_in_the_whole(none, c, none, none);
        }
        part_within(x, inner, "\n\n"@, c);
        let y = t.skip(("## "@.len() + d.len()) as int);
        assert(t =~= "## "@ + d + y);
        parts_stand_in_the_whole("## "@, d, y, none);
    }
}

/// Every call of a message is shared, in order, with its name and its arguments.
pub proof fn shared_calls_are_whole(v: Seq<CallModel>, c: CallModel)
    ensures
        markdown_calls(seq![]).len() == 0 && html_calls(seq![]).len() == 0,
        begins_with(markdown_calls(v.push(c)), markdown_calls(v)) && has_text(
            markdown_calls(v.push(c)).skip(markdown_calls(v).len() as int),
            c.name,
        ) && has_text(markdown_calls(v.push(c)).skip(markdown_calls(v).len() as int), json_text(c.arguments)),
        begins_with(html_calls(v.push(c)), html_calls(v)) && has_text(
            html_calls(v.push(c)).skip(html_calls(v).len() as int),
            escaped(c.name),
        ) && has_text(html_calls(v.push(c)).skip(html_calls(v).len() as int), escaped(json_text(c.arguments))),
{
    assert(v.push(c).drop_last() =~= v);
    let none = Seq::<char>::empty();
    let a = json_text(c.arguments);
    let m = markdown_calls(v.push(c));
    let fm = markdown_calls(v);
    assert(m.take(fm.len() as int) =~= fm);
    let tm = m.skip(fm.len() as int);
    assert(tm =~= "- `"@ + c.name + ("`：`"@ + a + "`\n"@));
    parts_stand_in_the_whole("- `"@, c.name, "`：`"@ + a + "`\n"@, none);
    assert(tm =~= ("- `"@ + c.name + "`：`"@) + a + "`\n"@);
    parts_stand_in_the_whole("- `"@ + c.name + "`：`"@, a, "`\n"@, none);
    let h = html_calls(v.push(c));
    let fh = html_calls(v);
    assert(h.take(fh.len() as int) =~= fh);
    let th = h.skip(fh.len() as int);
    let n = escaped(c.name);
    let e = escaped(a);
    assert(th =~= "<p><code>"@ + n + ("</code>: <code>"@ + e + "</code></p>"@));
    parts_stand_in_the_whole("<p><code>"@, n, "</code>: <code>"@ + e + "</code></p>"@, none);
    assert(th =~= ("<p><code>"@ + n + "</code>: <code>"@) + e + "</code></p>"@);
    parts_stand_in_the_whole("<p><code>"@ + n + "</code>: <code>"@, e, "</code></p>"@, none);
}

} // verus!
