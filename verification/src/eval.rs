//! Suites of tasks that an agent is measured by.

use crate::text::{chars_of, contains_text, copy_str, has_text, texts};
use vstd::prelude::*;

verus! {

/// A task with what its answer must hold.
pub struct EvalCase {
    pub name: String,
    pub prompt: String,
    /// All of these must stand in the answer.
    pub expected: Vec<String>,
    /// The files in the workspace at the start, with what they hold.
    pub setup_files: Vec<(String, String)>,
}

/// Tasks under one name.
pub struct EvalSuite {
    pub name: String,
    pub cases: Vec<EvalCase>,
}

/// What came of a task.
pub struct CaseResult {
    pub name: String,
    pub passed: bool,
    pub output: String,
    pub steps: usize,
    pub duration_ms: u64,
    pub error: Option<String>,
}

/// What came of a suite.
pub struct EvalReport {
    pub suite: String,
    pub total: usize,
    pub passed: usize,
    pub total_duration_ms: u64,
    pub cases: Vec<CaseResult>,
}

/// Every one of the texts stands in the output.
pub open spec fn holds_all(output: Seq<char>, expected: Seq<Seq<char>>) -> bool {
    forall|i: int| 0 <= i < expected.len() ==> has_text(output, #[trigger] expected[i])
}

/// The tasks that were passed.
pub open spec fn passed_count(v: Seq<CaseResult>) -> nat
    decreases v.len(),
{
    if v.len() == 0 {
        0
    } else {
        passed_count(v.drop_last()) + (if v.last().passed {
            1nat
        } else {
            0nat
        })
    }
}

/// How the agent got on with a task.
pub enum CaseRun {
    /// The workspace could not be made.
    NoWorkspace(String),
    /// The files could not be written.
    NoSetup,
    /// The turn ended.
    Ended { final_text: Option<String>, steps: usize },
    /// The turn broke off.
    Broken(String),
}

/// What came of a task.
pub fn judge_case(case: &EvalCase, run: CaseRun, duration_ms: u64) -> (r: CaseResult)
    ensures
        r.name == case.name,
        r.duration_ms == duration_ms,
        match run {
            CaseRun::NoWorkspace(e) => {
                &&& !r.passed && r.output@.len() == 0 && r.steps == 0
                &&& r.error matches Some(m) && m@ == "临时工作区创建失败："@ + e@
            },
            CaseRun::NoSetup => {
                &&& !r.passed && r.output@.len() == 0 && r.steps == 0
                &&& r.error matches Some(m) && m@ == "用例 setup 失败"@
            },
            CaseRun::Ended { final_text, steps } => {
                &&& r.output@ == (match final_text {
                    Some(t) => t@,
                    None => Seq::<char>::empty(),
                })
                &&& r.passed == holds_all(r.output@, texts(case.expected@))
                &&& r.steps == steps
                &&& r.error is None
            },
            CaseRun::Broken(e) => !r.passed && r.output@.len() == 0 && r.steps == 0 && r.error == Some(e),
        },
{
    match run {
        CaseRun::NoWorkspace(e) => {
            let mut m = copy_str("临时工作区创建失败：");
            m.append(e.as_str());
            failed_case(case, m, duration_ms)
        },
        CaseRun::NoSetup => failed_case(case, copy_str("用例 setup 失败"), duration_ms),
        CaseRun::Ended { final_text, steps } => {
            let output = match final_text {
                Some(t) => t,
                None => String::new(),
            };
            let mut passed = true;
            for i in 0..case.expected.len()
                invariant
                    passed <==> forall|j: int| 0 <= j < i ==> has_text(output@, #[trigger] texts(case.expected@)[j]),
            {
                assert(texts(case.expected@)[i as int] == case.expected@[i as int]@);
                if !contains_text(output.as_str(), case.expected[i].as_str()) {
                    passed = false;
                }
            }
            CaseResult { name: case.name.clone(), passed, output, steps, duration_ms, error: None }
        },
        CaseRun::Broken(e) => failed_case(case, e, duration_ms),
    }
}

fn failed_case(case: &EvalCase, error: String, duration_ms: u64) -> (r: CaseResult)
    ensures
        r.name == case.name,
        !r.passed,
        r.output@.len() == 0,
        r.steps == 0,
        r.duration_ms == duration_ms,
        r.error == Some(error),
{
    CaseResult {
        name: case.name.clone(),
        passed: false,
        output: String::new(),
        steps: 0,
        duration_ms,
        error: Some(error),
    }
}

/// What came of a suite.
pub fn suite_report(suite: &EvalSuite, cases: Vec<CaseResult>, total_duration_ms: u64) -> (r: EvalReport)
    ensures
        r.suite == suite.name,
        r.total == cases@.len(),
        r.passed == passed_count(cases@),
        r.passed <= r.total,
        r.total_duration_ms == total_duration_ms,
        r.cases == cases,
{
    let mut passed: usize = 0;
    for i in 0..cases.len()
        invariant
            passed == passed_count(cases@.take(i as int)),
            passed <= i,
    {
        assert(cases@.take(i + 1).drop_last() =~= cases@.take(i as int));
        if cases[i].passed {
            passed += 1;
        }
    }
    assert(cases@.take(cases@.len() as int) =~= cases@);
    EvalReport { suite: suite.name.clone(), total: cases.len(), passed, total_duration_ms, cases }
}

/// The result of `char::is_alphanumeric`.
pub uninterp spec fn is_alphanumeric(c: char) -> bool;

/// `char::is_alphanumeric`: whether Unicode counts the character as a letter or
/// a number, a function of the character alone.
#[verifier::external_body]
fn char_is_alphanumeric(c: char) -> (r: bool)
    ensures
        r == is_alphanumeric(c),
{
    c.is_alphanumeric()
}

/// The name with every character that is neither letter nor number replaced.
pub open spec fn folder_name(name: Seq<char>) -> Seq<char> {
    name.map_values(
        |c: char|
            if is_alphanumeric(c) {
                c
            } else {
                '_'
            },
    )
}

/// The name of a task as part of the name of a folder.
pub fn case_folder_name(name: &str) -> (r: String)
    ensures
        r@ == folder_name(name@),
{
    let v = chars_of(name);
    let mut r = String::new();
    for i in 0..v.len()
        invariant
            v@ == name@,
            r@ == folder_name(name@.take(i as int)),
    {
        let c: char = if char_is_alphanumeric(v[i]) {
            v[i]
        } else {
            '_'
        };
        r.push(c);
        assert(folder_name(name@.take(i + 1)) =~= folder_name(name@.take(i as int)).push(c));
    }
    assert(name@.take(name@.len() as int) =~= name@);
    r
}

/// What a case says.
pub struct CaseModel {
    pub name: Seq<char>,
    pub prompt: Seq<char>,
    pub expected: Seq<Seq<char>>,
    pub setup_files: Seq<(Seq<char>, Seq<char>)>,
}

impl View for EvalCase {
    type V = CaseModel;

    open spec fn view(&self) -> CaseModel {
        CaseModel {
            name: self.name@,
            prompt: self.prompt@,
            expected: texts(self.expected@),
            setup_files: self.setup_files@.map_values(|f: (String, String)| (f.0@, f.1@)),
        }
    }
}

/// A case that expects one text and has at most one file.
pub open spec fn simple_case(
    name: Seq<char>,
    prompt: Seq<char>,
    expected: Seq<char>,
    file: Option<(Seq<char>, Seq<char>)>,
) -> CaseModel {
    CaseModel {
        name,
        prompt,
        expected: seq![expected],
        setup_files: match file {
            Some(f) => seq![f],
            None => seq![],
        },
    }
}

fn make_case(name: &str, prompt: &str, expected: &str, file: Option<(&str, &str)>) -> (r: EvalCase)
    ensures
        r@ == simple_case(
            name@,
            prompt@,
            expected@,
            match file {
                Some(f) => Some((f.0@, f.1@)),
                None => None,
            },
        ),
{
    let mut want: Vec<String> = Vec::new();
    want.push(copy_str(expected));
    let mut files: Vec<(String, String)> = Vec::new();
    match file {
        Some(f) => {
            files.push((copy_str(f.0), copy_str(f.1)));
        },
        None => {},
    }
    let r = EvalCase { name: copy_str(name), prompt: copy_str(prompt), expected: want, setup_files: files };
    proof {
        assert(r@.expected =~= seq![expected@]);
        match file {
            Some(f) => {
                assert(r@.setup_files =~= seq![(f.0@, f.1@)]);
            },
            None => {
                assert(r@.setup_files =~= seq![]);
            },
        }
    }
    r
}

/// The suite that comes with the agent: reading, writing, listing, searching
/// and handing on.
pub fn builtin_suite() -> (r: EvalSuite)
    ensures
        r.name@ == "builtin-demo"@,
        r.cases@.map_values(|c: EvalCase| c@) == seq![
            simple_case(
                "read_file"@,
                "读取 data.txt 并汇报其内容"@,
                "hello-eval"@,
                Some(("data.txt"@, "hello-eval"@)),
            ),
            simple_case("write_file"@, "创建 output.txt，内容为 eval-ok"@, "eval-ok"@, None),
            simple_case("list_dir"@, "列出当前目录，找出 src.txt"@, "src.txt"@, Some(("src.txt"@, "x"@))),
            simple_case(
                "search_files"@,
                "搜索文件名包含 todo 的文件并汇报"@,
                "todo.md"@,
                Some(("todo.md"@, "任务"@)),
            ),
            simple_case(
                "explore_subagent"@,
                "调用 explore 调查 NOTES.txt 的内容并汇报"@,
                "subagent-notes"@,
                Some(("NOTES.txt"@, "subagent-notes"@)),
            ),
        ],
{
    let mut cases: Vec<EvalCase> = Vec::new();
    cases.push(
        make_case("read_file", "读取 data.txt 并汇报其内容", "hello-eval", Some(("data.txt", "hello-eval"))),
    );
    cases.push(make_case("write_file", "创建 output.txt，内容为 eval-ok", "eval-ok", None));
    cases.push(make_case("list_dir", "列出当前目录，找出 src.txt", "src.txt", Some(("src.txt", "x"))));
    cases.push(
        make_case("search_files", "搜索文件名包含 todo 的文件并汇报", "todo.md", Some(("todo.md", "任务"))),
    );
    cases.push(
        make_case(
            "explore_subagent",
            "调用 explore 调查 NOTES.txt 的内容并汇报",
            "subagent-notes",
            Some(("NOTES.txt", "subagent-notes")),
        ),
    );
    EvalSuite { name: copy_str("builtin-demo"), cases }
}

// ---------------------------------------------------------------------------
// Laws
// ---------------------------------------------------------------------------

/// An output passes if it holds all that is expected: what is expected more must be
/// there too.
pub proof fn outputs_hold_all_that_is_expected(output: Seq<char>, expected: Seq<Seq<char>>, more: Seq<char>)
    ensures
        holds_all(output, seq![]),
        holds_all(output, expected.push(more)) <==> holds_all(output, expected) && has_text(output, more),
{
    let all = expected.push(more);
    if holds_all(output, all) {
        assert forall|i: int| 0 <= i < expected.len() implies has_text(output, #[trigger] expected[i]) by {
            assert(has_text(output, all[i]));
        }
        assert(has_text(output, all[expected.len() as int]));
    }
    if holds_all(output, expected) && has_text(output, more) {
        assert forall|i: int| 0 <= i < all.len() implies has_text(output, #[trigger] all[i]) by {
            if i < expected.len() {
                assert(has_text(output, expected[i]));
            }
        }
    }
}

/// As many cases passed as there are that did.
pub proof fn passed_cases_are_counted(v: Seq<CaseResult>, c: CaseResult)
    ensures
        passed_count(seq![]) == 0,
        c.passed ==> passed_count(v.push(c)) == passed_count(v) + 1,
        !c.passed ==> passed_count(v.push(c)) == passed_count(v),
{
    assert(v.push(c).drop_last() =~= v);
}

/// The folder of a case is named after it: what is no letter or digit is an underscore.
pub proof fn folders_are_named_after_their_case(name: Seq<char>, i: int)
    requires
        0 <= i < name.len(),
    ensures
        folder_name(name).len() == name.len(),
        is_alphanumeric(name[i]) ==> folder_name(name)[i] == name[i],
        !is_alphanumeric(name[i]) ==> folder_name(name)[i] == '_',
{
}

} // verus!
