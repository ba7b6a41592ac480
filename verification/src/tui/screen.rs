//! What stands on the screen.

use crate::text::copy_str;
use crate::tui::{entries, in_sight, Style, TuiApp, TuiModel};
use vstd::prelude::*;

verus! {

/// The texts on the screen, from top to bottom: the title, the lines of the
/// session, the line that is typed and the status.
pub struct Screen {
    pub title: Vec<(String, Style)>,
    pub lines: Vec<(String, Style)>,
    pub input_title: String,
    pub input: String,
    pub status: Vec<(String, Style)>,
}

/// The title.
pub open spec fn title_of(m: TuiModel) -> Seq<(Seq<char>, Style)> {
    seq![
        (" OwO Agent "@, Style::Badge),
        (" "@, Style::Plain),
        (m.workspace, Style::Dim),
        (" | "@, Style::Plain),
        (m.model, Style::Blue),
        (" | "@, Style::Plain),
        if m.read_only {
            ("plan"@, Style::Yellow)
        } else {
            ("build"@, Style::Green)
        },
        (" | "@, Style::Plain),
        if m.running {
            ("● 运行中"@, Style::Red)
        } else {
            ("○ 空闲"@, Style::Green)
        },
    ]
}

/// The lines in sight, with what the model is still saying below them.
pub open spec fn shown_lines(m: TuiModel, height: int) -> Seq<(Seq<char>, Style)> {
    if m.streaming.len() == 0 {
        in_sight(m, height)
    } else {
        in_sight(m, height).push(("▍"@ + m.streaming, Style::Streaming))
    }
}

/// The status.
pub open spec fn status_of(m: TuiModel) -> Seq<(Seq<char>, Style)> {
    seq![
        (" Tab "@, Style::Cyan),
        ("模式 "@, Style::Plain),
        (" Ctrl+C "@, Style::Cyan),
        ("中止/退出 "@, Style::Plain),
        (" PgUp/PgDn "@, Style::Cyan),
        ("滚动 | "@, Style::Plain),
        (m.status, Style::Yellow),
    ]
}

impl TuiApp {
    /// What stands on the screen, where the lines of the session have a place of
    /// the height, with its frame.
    pub fn draw(&self, height: usize) -> (r: Screen)
        ensures
            entries(r.title@) == title_of(self.model()),
            entries(r.lines@) == shown_lines(self.model(), height as int),
            r.input_title@ == (if self.read_only {
                " 输入（plan（只读）） "@
            } else {
                " 输入（build） "@
            }),
            r.input == self.input,
            entries(r.status@) == status_of(self.model()),
    {
        let mut lines = self.visible_lines(height);
        if !self.streaming.as_str().is_empty() {
            let ghost before = entries(lines@);
            let mut line = copy_str("▍");
            line.append(self.streaming.as_str());
            lines.push((line, Style::Streaming));
            assert(entries(lines@) =~= before.push(("▍"@ + self.streaming@, Style::Streaming)));
        }
        let input_title = if self.read_only {
            copy_str(" 输入（plan（只读）） ")
        } else {
            copy_str(" 输入（build） ")
        };
        Screen {
            title: self.draw_title(),
            lines,
            input_title,
            input: self.input.clone(),
            status: self.draw_status(),
        }
    }

    fn draw_title(&self) -> (r: Vec<(String, Style)>)
        ensures
            entries(r@) == title_of(self.model()),
    {
        let mut r: Vec<(String, Style)> = Vec::new();
        r.push((copy_str(" OwO Agent "), Style::Badge));
        r.push((copy_str(" "), Style::Plain));
        r.push((self.workspace.clone(), Style::Dim));
        r.push((copy_str(" | "), Style::Plain));
        r.push((self.model.clone(), Style::Blue));
        r.push((copy_str(" | "), Style::Plain));
        if self.read_only {
            r.push((copy_str("plan"), Style::Yellow));
        } else {
            r.push((copy_str("build"), Style::Green));
        }
        r.push((copy_str(" | "), Style::Plain));
        if self.running {
            r.push((copy_str("● 运行中"), Style::Red));
        } else {
            r.push((copy_str("○ 空闲"), Style::Green));
        }
        assert(entries(r@) =~= title_of(self.model()));
        r
    }

    fn draw_status(&self) -> (r: Vec<(String, Style)>)
        ensures
            entries(r@) == status_of(self.model()),
    {
        let mut r: Vec<(String, Style)> = Vec::new();
        r.push((copy_str(" Tab "), Style::Cyan));
        r.push((copy_str("模式 "), Style::Plain));
        r.push((copy_str(" Ctrl+C "), Style::Cyan));
        r.push((copy_str("中止/退出 "), Style::Plain));
        r.push((copy_str(" PgUp/PgDn "), Style::Cyan));
        r.push((copy_str("滚动 | "), Style::Plain));
        r.push((self.status.clone(), Style::Yellow));
        assert(entries(r@) =~= status_of(self.model()));
        r
    }
}

/// The title shows the workspace, the model, the mode and whether a turn runs; the
/// status shows what there is to know; what the model is saying stands below what was
/// said.
pub proof fn screens_show_what_is(m: TuiModel, height: int)
    ensures
        title_of(m)[2].0 == m.workspace && title_of(m)[4].0 == m.model,
        title_of(m)[6].0 == if m.read_only { "plan"@ } else { "build"@ },
        m.running <==> title_of(m)[8].1 is Red,
        status_of(m).last().0 == m.status,
        m.streaming.len() == 0 ==> shown_lines(m, height) == in_sight(m, height),
        m.streaming.len() > 0 ==> shown_lines(m, height).drop_last() == in_sight(m, height) && shown_lines(
            m,
            height,
        ).last().0.len() == m.streaming.len() + 1 && shown_lines(m, height).last().0.skip(1) == m.streaming,
{
    reveal_strlit("▍");
    if m.streaming.len() > 0 {
        assert(shown_lines(m, height).drop_last() =~= in_sight(m, height));
        assert(("▍"@ + m.streaming).skip(1) =~= m.streaming);
    }
}

} // verus!
