//! The tools for the desktop and the browser.

use crate::json::Json;
use crate::mcp::ToolModel;
use crate::text::{copy_str, texts};
use crate::tools::{choice_json, described, described_json, kind_json, object_schema, of_kind, one_of, schema_json, ToolSpec};
use crate::gateway::empty_table;
use vstd::prelude::*;

verus! {

/// What is known of `screen_ocr`.
#[verifier::opaque]
pub open spec fn screen_ocr_tool() -> ToolModel {
    ToolModel {
        name: "screen_ocr"@,
        description: "截取当前屏幕（或模拟窗口）并做本地 OCR，返回整行文本 lines（含坐标和 role_hint=button/input/header/text）。定位控件优先用本工具：找到目标行后点击该行中心。不要用 ocr_region 代替本工具"@,
        input_schema: object_schema(
            empty_table().insert("max_boxes"@, described("integer"@, "最多返回多少词框（默认 120）"@)),
            seq![],
        ),
    }
}

/// Reads the text on the screen.
pub struct ScreenOcrTool;

impl ScreenOcrTool {
    /// What the model is told of the tool.
    pub fn spec(&self) -> (r: ToolSpec)
        ensures
            r.model() == screen_ocr_tool(),
    {
        proof {
            reveal(screen_ocr_tool);
        }
        let properties = Json::table().with("max_boxes", described_json("integer", "最多返回多少词框（默认 120）"));
        let required: Vec<String> = Vec::new();
        assert(texts(required@) =~= seq![]);
        ToolSpec {
            name: copy_str("screen_ocr"),
            description: copy_str("截取当前屏幕（或模拟窗口）并做本地 OCR，返回整行文本 lines（含坐标和 role_hint=button/input/header/text）。定位控件优先用本工具：找到目标行后点击该行中心。不要用 ocr_region 代替本工具"),
            input_schema: schema_json(properties, &required),
        }
    }
}

/// What is known of `ocr_region`.
#[verifier::opaque]
pub open spec fn ocr_region_tool() -> ToolModel {
    ToolModel {
        name: "ocr_region"@,
        description: "仅当需要放大识别小字/弹窗时才用（可传 scale 放大）；正常情况下定位控件请用 screen_ocr 的 lines"@,
        input_schema: object_schema(
            empty_table().insert("x"@, of_kind("integer"@)).insert("y"@, of_kind("integer"@)).insert("width"@, of_kind("integer"@)).insert("height"@, of_kind("integer"@)).insert("scale"@, described("integer"@, "放大倍数，默认 2"@)),
            seq!["x"@, "y"@, "width"@, "height"@],
        ),
    }
}

/// Reads the text in a part of the screen.
pub struct OcrRegionTool;

impl OcrRegionTool {
    /// What the model is told of the tool.
    pub fn spec(&self) -> (r: ToolSpec)
        ensures
            r.model() == ocr_region_tool(),
    {
        proof {
            reveal(ocr_region_tool);
        }
        let properties = Json::table().with("x", kind_json("integer")).with("y", kind_json("integer")).with("width", kind_json("integer")).with("height", kind_json("integer")).with("scale", described_json("integer", "放大倍数，默认 2"));
        let mut required: Vec<String> = Vec::new();
        required.push(copy_str("x"));
        required.push(copy_str("y"));
        required.push(copy_str("width"));
        required.push(copy_str("height"));
        assert(texts(required@) =~= seq!["x"@, "y"@, "width"@, "height"@]);
        ToolSpec {
            name: copy_str("ocr_region"),
            description: copy_str("仅当需要放大识别小字/弹窗时才用（可传 scale 放大）；正常情况下定位控件请用 screen_ocr 的 lines"),
            input_schema: schema_json(properties, &required),
        }
    }
}

/// What is known of `desktop_window_ocr`.
#[verifier::opaque]
pub open spec fn desktop_window_ocr_tool() -> ToolModel {
    ToolModel {
        name: "desktop_window_ocr"@,
        description: "后台只读抓取指定窗口内容并 OCR（PrintWindow，可抓被遮挡窗口；传 hwnd，或 process/title 模糊匹配），返回窗口屏幕矩形和整行文本（屏幕坐标），用于窗口级情景理解"@,
        input_schema: object_schema(
            empty_table().insert("hwnd"@, of_kind("integer"@)).insert("process"@, of_kind("string"@)).insert("title"@, of_kind("string"@)),
            seq![],
        ),
    }
}

/// Reads the text in a window.
pub struct DesktopWindowOcrTool;

impl DesktopWindowOcrTool {
    /// What the model is told of the tool.
    pub fn spec(&self) -> (r: ToolSpec)
        ensures
            r.model() == desktop_window_ocr_tool(),
    {
        proof {
            reveal(desktop_window_ocr_tool);
        }
        let properties = Json::table().with("hwnd", kind_json("integer")).with("process", kind_json("string")).with("title", kind_json("string"));
        let required: Vec<String> = Vec::new();
        assert(texts(required@) =~= seq![]);
        ToolSpec {
            name: copy_str("desktop_window_ocr"),
            description: copy_str("后台只读抓取指定窗口内容并 OCR（PrintWindow，可抓被遮挡窗口；传 hwnd，或 process/title 模糊匹配），返回窗口屏幕矩形和整行文本（屏幕坐标），用于窗口级情景理解"),
            input_schema: schema_json(properties, &required),
        }
    }
}

/// What is known of `desktop_foreground`.
#[verifier::opaque]
pub open spec fn desktop_foreground_tool() -> ToolModel {
    ToolModel {
        name: "desktop_foreground"@,
        description: "返回当前前台窗口的进程名、标题和屏幕矩形"@,
        input_schema: object_schema(
            empty_table(),
            seq![],
        ),
    }
}

/// Tells which window is in front.
pub struct DesktopForegroundTool;

impl DesktopForegroundTool {
    /// What the model is told of the tool.
    pub fn spec(&self) -> (r: ToolSpec)
        ensures
            r.model() == desktop_foreground_tool(),
    {
        proof {
            reveal(desktop_foreground_tool);
        }
        let properties = Json::table();
        let required: Vec<String> = Vec::new();
        assert(texts(required@) =~= seq![]);
        ToolSpec {
            name: copy_str("desktop_foreground"),
            description: copy_str("返回当前前台窗口的进程名、标题和屏幕矩形"),
            input_schema: schema_json(properties, &required),
        }
    }
}

/// What is known of `desktop_window_list`.
#[verifier::opaque]
pub open spec fn desktop_window_list_tool() -> ToolModel {
    ToolModel {
        name: "desktop_window_list"@,
        description: "列出当前所有可见顶层窗口（进程名/标题/矩形），用于找到 QQ、浏览器等目标窗口"@,
        input_schema: object_schema(
            empty_table(),
            seq![],
        ),
    }
}

/// Lists the windows.
pub struct DesktopWindowListTool;

impl DesktopWindowListTool {
    /// What the model is told of the tool.
    pub fn spec(&self) -> (r: ToolSpec)
        ensures
            r.model() == desktop_window_list_tool(),
    {
        proof {
            reveal(desktop_window_list_tool);
        }
        let properties = Json::table();
        let required: Vec<String> = Vec::new();
        assert(texts(required@) =~= seq![]);
        ToolSpec {
            name: copy_str("desktop_window_list"),
            description: copy_str("列出当前所有可见顶层窗口（进程名/标题/矩形），用于找到 QQ、浏览器等目标窗口"),
            input_schema: schema_json(properties, &required),
        }
    }
}

/// What is known of `desktop_activate`.
#[verifier::opaque]
pub open spec fn desktop_activate_tool() -> ToolModel {
    ToolModel {
        name: "desktop_activate"@,
        description: "把指定进程名或标题的窗口切到前台（可传 process 或 title，模糊匹配）"@,
        input_schema: object_schema(
            empty_table().insert("process"@, described("string"@, "例如 qq / msedge / owo-sim-qq"@)).insert("title"@, described("string"@, "窗口标题包含文本"@)),
            seq![],
        ),
    }
}

/// Brings a window to the front.
pub struct DesktopActivateTool;

impl DesktopActivateTool {
    /// What the model is told of the tool.
    pub fn spec(&self) -> (r: ToolSpec)
        ensures
            r.model() == desktop_activate_tool(),
    {
        proof {
            reveal(desktop_activate_tool);
        }
        let properties = Json::table().with("process", described_json("string", "例如 qq / msedge / owo-sim-qq")).with("title", described_json("string", "窗口标题包含文本"));
        let required: Vec<String> = Vec::new();
        assert(texts(required@) =~= seq![]);
        ToolSpec {
            name: copy_str("desktop_activate"),
            description: copy_str("把指定进程名或标题的窗口切到前台（可传 process 或 title，模糊匹配）"),
            input_schema: schema_json(properties, &required),
        }
    }
}

/// What is known of `desktop_click`.
#[verifier::opaque]
pub open spec fn desktop_click_tool() -> ToolModel {
    ToolModel {
        name: "desktop_click"@,
        description: "在屏幕坐标 (x, y) 处单击鼠标左键（坐标来自 screen_ocr 的词框中心）"@,
        input_schema: object_schema(
            empty_table().insert("x"@, of_kind("integer"@)).insert("y"@, of_kind("integer"@)),
            seq!["x"@, "y"@],
        ),
    }
}

/// Clicks at a place on the screen.
pub struct DesktopClickTool;

impl DesktopClickTool {
    /// What the model is told of the tool.
    pub fn spec(&self) -> (r: ToolSpec)
        ensures
            r.model() == desktop_click_tool(),
    {
        proof {
            reveal(desktop_click_tool);
        }
        let properties = Json::table().with("x", kind_json("integer")).with("y", kind_json("integer"));
        let mut required: Vec<String> = Vec::new();
        required.push(copy_str("x"));
        required.push(copy_str("y"));
        assert(texts(required@) =~= seq!["x"@, "y"@]);
        ToolSpec {
            name: copy_str("desktop_click"),
            description: copy_str("在屏幕坐标 (x, y) 处单击鼠标左键（坐标来自 screen_ocr 的词框中心）"),
            input_schema: schema_json(properties, &required),
        }
    }
}

/// What is known of `desktop_type`.
#[verifier::opaque]
pub open spec fn desktop_type_tool() -> ToolModel {
    ToolModel {
        name: "desktop_type"@,
        description: "向前台窗口注入 UTF-16 文本（不依赖 IME；中文/英文/表情均可）"@,
        input_schema: object_schema(
            empty_table().insert("text"@, of_kind("string"@)),
            seq!["text"@],
        ),
    }
}

/// Types a text.
pub struct DesktopTypeTool;

impl DesktopTypeTool {
    /// What the model is told of the tool.
    pub fn spec(&self) -> (r: ToolSpec)
        ensures
            r.model() == desktop_type_tool(),
    {
        proof {
            reveal(desktop_type_tool);
        }
        let properties = Json::table().with("text", kind_json("string"));
        let mut required: Vec<String> = Vec::new();
        required.push(copy_str("text"));
        assert(texts(required@) =~= seq!["text"@]);
        ToolSpec {
            name: copy_str("desktop_type"),
            description: copy_str("向前台窗口注入 UTF-16 文本（不依赖 IME；中文/英文/表情均可）"),
            input_schema: schema_json(properties, &required),
        }
    }
}

/// What is known of `desktop_key`.
#[verifier::opaque]
pub open spec fn desktop_key_tool() -> ToolModel {
    ToolModel {
        name: "desktop_key"@,
        description: "向前台窗口发送单个按键（enter/tab/backspace/delete/escape/space/up/down/left/right/home/end/f1-f24）"@,
        input_schema: object_schema(
            empty_table().insert("key"@, of_kind("string"@)),
            seq!["key"@],
        ),
    }
}

/// Presses a key.
pub struct DesktopKeyTool;

impl DesktopKeyTool {
    /// What the model is told of the tool.
    pub fn spec(&self) -> (r: ToolSpec)
        ensures
            r.model() == desktop_key_tool(),
    {
        proof {
            reveal(desktop_key_tool);
        }
        let properties = Json::table().with("key", kind_json("string"));
        let mut required: Vec<String> = Vec::new();
        required.push(copy_str("key"));
        assert(texts(required@) =~= seq!["key"@]);
        ToolSpec {
            name: copy_str("desktop_key"),
            description: copy_str("向前台窗口发送单个按键（enter/tab/backspace/delete/escape/space/up/down/left/right/home/end/f1-f24）"),
            input_schema: schema_json(properties, &required),
        }
    }
}

/// What is known of `desktop_shortcut`.
#[verifier::opaque]
pub open spec fn desktop_shortcut_tool() -> ToolModel {
    ToolModel {
        name: "desktop_shortcut"@,
        description: "向前台窗口发送组合键，例如 ctrl+a / ctrl+c / ctrl+v / alt+tab / ctrl+shift+o"@,
        input_schema: object_schema(
            empty_table().insert("combo"@, of_kind("string"@)),
            seq!["combo"@],
        ),
    }
}

/// Presses keys together.
pub struct DesktopShortcutTool;

impl DesktopShortcutTool {
    /// What the model is told of the tool.
    pub fn spec(&self) -> (r: ToolSpec)
        ensures
            r.model() == desktop_shortcut_tool(),
    {
        proof {
            reveal(desktop_shortcut_tool);
        }
        let properties = Json::table().with("combo", kind_json("string"));
        let mut required: Vec<String> = Vec::new();
        required.push(copy_str("combo"));
        assert(texts(required@) =~= seq!["combo"@]);
        ToolSpec {
            name: copy_str("desktop_shortcut"),
            description: copy_str("向前台窗口发送组合键，例如 ctrl+a / ctrl+c / ctrl+v / alt+tab / ctrl+shift+o"),
            input_schema: schema_json(properties, &required),
        }
    }
}

/// What is known of `desktop_launch`.
#[verifier::opaque]
pub open spec fn desktop_launch_tool() -> ToolModel {
    ToolModel {
        name: "desktop_launch"@,
        description: "启动应用（exe 路径）或打开 URL（交给系统默认浏览器）"@,
        input_schema: object_schema(
            empty_table().insert("target"@, of_kind("string"@)),
            seq!["target"@],
        ),
    }
}

/// Starts an application or opens an address.
pub struct DesktopLaunchTool;

impl DesktopLaunchTool {
    /// What the model is told of the tool.
    pub fn spec(&self) -> (r: ToolSpec)
        ensures
            r.model() == desktop_launch_tool(),
    {
        proof {
            reveal(desktop_launch_tool);
        }
        let properties = Json::table().with("target", kind_json("string"));
        let mut required: Vec<String> = Vec::new();
        required.push(copy_str("target"));
        assert(texts(required@) =~= seq!["target"@]);
        ToolSpec {
            name: copy_str("desktop_launch"),
            description: copy_str("启动应用（exe 路径）或打开 URL（交给系统默认浏览器）"),
            input_schema: schema_json(properties, &required),
        }
    }
}

/// What is known of `desktop_wait`.
#[verifier::opaque]
pub open spec fn desktop_wait_tool() -> ToolModel {
    ToolModel {
        name: "desktop_wait"@,
        description: "等待指定毫秒（最多 120000），用于等对方回复/页面加载/动画完成"@,
        input_schema: object_schema(
            empty_table().insert("ms"@, of_kind("integer"@)),
            seq!["ms"@],
        ),
    }
}

/// Waits for a time.
pub struct DesktopWaitTool;

impl DesktopWaitTool {
    /// What the model is told of the tool.
    pub fn spec(&self) -> (r: ToolSpec)
        ensures
            r.model() == desktop_wait_tool(),
    {
        proof {
            reveal(desktop_wait_tool);
        }
        let properties = Json::table().with("ms", kind_json("integer"));
        let mut required: Vec<String> = Vec::new();
        required.push(copy_str("ms"));
        assert(texts(required@) =~= seq!["ms"@]);
        ToolSpec {
            name: copy_str("desktop_wait"),
            description: copy_str("等待指定毫秒（最多 120000），用于等对方回复/页面加载/动画完成"),
            input_schema: schema_json(properties, &required),
        }
    }
}

/// What is known of `desktop_scroll`.
#[verifier::opaque]
pub open spec fn desktop_scroll_tool() -> ToolModel {
    ToolModel {
        name: "desktop_scroll"@,
        description: "把鼠标移到屏幕坐标 (x,y) 并滚动滚轮（delta 正数向上、负数向下，一格 120），用于滚动聊天/列表"@,
        input_schema: object_schema(
            empty_table().insert("x"@, of_kind("integer"@)).insert("y"@, of_kind("integer"@)).insert("delta"@, of_kind("integer"@)),
            seq!["x"@, "y"@, "delta"@],
        ),
    }
}

/// Scrolls at a place on the screen.
pub struct DesktopScrollTool;

impl DesktopScrollTool {
    /// What the model is told of the tool.
    pub fn spec(&self) -> (r: ToolSpec)
        ensures
            r.model() == desktop_scroll_tool(),
    {
        proof {
            reveal(desktop_scroll_tool);
        }
        let properties = Json::table().with("x", kind_json("integer")).with("y", kind_json("integer")).with("delta", kind_json("integer"));
        let mut required: Vec<String> = Vec::new();
        required.push(copy_str("x"));
        required.push(copy_str("y"));
        required.push(copy_str("delta"));
        assert(texts(required@) =~= seq!["x"@, "y"@, "delta"@]);
        ToolSpec {
            name: copy_str("desktop_scroll"),
            description: copy_str("把鼠标移到屏幕坐标 (x,y) 并滚动滚轮（delta 正数向上、负数向下，一格 120），用于滚动聊天/列表"),
            input_schema: schema_json(properties, &required),
        }
    }
}

/// What is known of `desktop_wait_until`.
#[verifier::opaque]
pub open spec fn desktop_wait_until_tool() -> ToolModel {
    ToolModel {
        name: "desktop_wait_until"@,
        description: "轮询屏幕 OCR，直到出现包含指定文本的行（可限定 role_hint=button/input/message/header）；用于等待对方回复/页面加载/消息上屏，返回匹配行与坐标；超时返回 matched=false"@,
        input_schema: object_schema(
            empty_table().insert("text"@, described("string"@, "要等待出现的文本"@)).insert("role"@, described("string"@, "可选：限定行类型 button/input/message/header"@)).insert("timeout_ms"@, described("integer"@, "最长等待毫秒，默认 30000，最大 120000"@)).insert("interval_ms"@, described("integer"@, "轮询间隔毫秒，默认 1000"@)),
            seq!["text"@],
        ),
    }
}

/// Waits until a text shows on the screen.
pub struct DesktopWaitUntilTool;

impl DesktopWaitUntilTool {
    /// What the model is told of the tool.
    pub fn spec(&self) -> (r: ToolSpec)
        ensures
            r.model() == desktop_wait_until_tool(),
    {
        proof {
            reveal(desktop_wait_until_tool);
        }
        let properties = Json::table().with("text", described_json("string", "要等待出现的文本")).with("role", described_json("string", "可选：限定行类型 button/input/message/header")).with("timeout_ms", described_json("integer", "最长等待毫秒，默认 30000，最大 120000")).with("interval_ms", described_json("integer", "轮询间隔毫秒，默认 1000"));
        let mut required: Vec<String> = Vec::new();
        required.push(copy_str("text"));
        assert(texts(required@) =~= seq!["text"@]);
        ToolSpec {
            name: copy_str("desktop_wait_until"),
            description: copy_str("轮询屏幕 OCR，直到出现包含指定文本的行（可限定 role_hint=button/input/message/header）；用于等待对方回复/页面加载/消息上屏，返回匹配行与坐标；超时返回 matched=false"),
            input_schema: schema_json(properties, &required),
        }
    }
}

/// What is known of `screen_vision`.
#[verifier::opaque]
pub open spec fn screen_vision_tool() -> ToolModel {
    ToolModel {
        name: "screen_vision"@,
        description: "把当前屏幕（或模拟窗口）截图交给视觉模型做场景描述（本地 Ollama 或 BYOK 云端）；视觉只用于理解与验证，不直接控制，主控制仍用 screen_ocr"@,
        input_schema: object_schema(
            empty_table().insert("prompt"@, described("string"@, "可选：自定义描述指令"@)),
            seq![],
        ),
    }
}

/// Has the screen described by a model.
pub struct ScreenVisionTool;

impl ScreenVisionTool {
    /// What the model is told of the tool.
    pub fn spec(&self) -> (r: ToolSpec)
        ensures
            r.model() == screen_vision_tool(),
    {
        proof {
            reveal(screen_vision_tool);
        }
        let properties = Json::table().with("prompt", described_json("string", "可选：自定义描述指令"));
        let required: Vec<String> = Vec::new();
        assert(texts(required@) =~= seq![]);
        ToolSpec {
            name: copy_str("screen_vision"),
            description: copy_str("把当前屏幕（或模拟窗口）截图交给视觉模型做场景描述（本地 Ollama 或 BYOK 云端）；视觉只用于理解与验证，不直接控制，主控制仍用 screen_ocr"),
            input_schema: schema_json(properties, &required),
        }
    }
}

/// What is known of `vision_verify`.
#[verifier::opaque]
pub open spec fn vision_verify_tool() -> ToolModel {
    ToolModel {
        name: "vision_verify"@,
        description: "让视觉模型针对当前截图回答 yes/no 问题（如“消息是否已上屏”“输入框是否已清空”），返回 answer/confidence，用于异步完成验证"@,
        input_schema: object_schema(
            empty_table().insert("question"@, of_kind("string"@)),
            seq!["question"@],
        ),
    }
}

/// Has a question about the screen answered by a model.
pub struct VisionVerifyTool;

impl VisionVerifyTool {
    /// What the model is told of the tool.
    pub fn spec(&self) -> (r: ToolSpec)
        ensures
            r.model() == vision_verify_tool(),
    {
        proof {
            reveal(vision_verify_tool);
        }
        let properties = Json::table().with("question", kind_json("string"));
        let mut required: Vec<String> = Vec::new();
        required.push(copy_str("question"));
        assert(texts(required@) =~= seq!["question"@]);
        ToolSpec {
            name: copy_str("vision_verify"),
            description: copy_str("让视觉模型针对当前截图回答 yes/no 问题（如“消息是否已上屏”“输入框是否已清空”），返回 answer/confidence，用于异步完成验证"),
            input_schema: schema_json(properties, &required),
        }
    }
}

/// What is known of `vision_ground`.
#[verifier::opaque]
pub open spec fn vision_ground_tool() -> ToolModel {
    ToolModel {
        name: "vision_ground"@,
        description: "让视觉模型定位描述的元素（返回坐标框），并与 OCR 文本交叉验证；只有 matched=true 且 cross_validated=true 时才可点击返回的 line 中心；这是兜底定位，优先用 screen_ocr"@,
        input_schema: object_schema(
            empty_table().insert("description"@, described("string"@, "要定位的元素描述，例如“发送按钮”“输入框”"@)),
            seq!["description"@],
        ),
    }
}

/// Has a model find something on the screen.
pub struct VisionGroundTool;

impl VisionGroundTool {
    /// What the model is told of the tool.
    pub fn spec(&self) -> (r: ToolSpec)
        ensures
            r.model() == vision_ground_tool(),
    {
        proof {
            reveal(vision_ground_tool);
        }
        let properties = Json::table().with("description", described_json("string", "要定位的元素描述，例如“发送按钮”“输入框”"));
        let mut required: Vec<String> = Vec::new();
        required.push(copy_str("description"));
        assert(texts(required@) =~= seq!["description"@]);
        ToolSpec {
            name: copy_str("vision_ground"),
            description: copy_str("让视觉模型定位描述的元素（返回坐标框），并与 OCR 文本交叉验证；只有 matched=true 且 cross_validated=true 时才可点击返回的 line 中心；这是兜底定位，优先用 screen_ocr"),
            input_schema: schema_json(properties, &required),
        }
    }
}

/// What is known of `browser_screenshot`.
#[verifier::opaque]
pub open spec fn browser_screenshot_tool() -> ToolModel {
    ToolModel {
        name: "browser_screenshot"@,
        description: "把当前页面截图保存到工作区路径，返回文件大小"@,
        input_schema: object_schema(
            empty_table().insert("path"@, of_kind("string"@)).insert("full_page"@, of_kind("boolean"@)),
            seq!["path"@],
        ),
    }
}

/// Keeps a picture of the page.
pub struct BrowserScreenshotWriteTool;

impl BrowserScreenshotWriteTool {
    /// What the model is told of the tool.
    pub fn spec(&self) -> (r: ToolSpec)
        ensures
            r.model() == browser_screenshot_tool(),
    {
        proof {
            reveal(browser_screenshot_tool);
        }
        let properties = Json::table().with("path", kind_json("string")).with("full_page", kind_json("boolean"));
        let mut required: Vec<String> = Vec::new();
        required.push(copy_str("path"));
        assert(texts(required@) =~= seq!["path"@]);
        ToolSpec {
            name: copy_str("browser_screenshot"),
            description: copy_str("把当前页面截图保存到工作区路径，返回文件大小"),
            input_schema: schema_json(properties, &required),
        }
    }
}

/// What is known of `browser_download_image`.
#[verifier::opaque]
pub open spec fn browser_download_image_tool() -> ToolModel {
    ToolModel {
        name: "browser_download_image"@,
        description: "下载图片到工作区：传 url 直接下载，或传 src（CSS 选择器）取页面中该图片的地址再下载"@,
        input_schema: object_schema(
            empty_table().insert("url"@, of_kind("string"@)).insert("src"@, of_kind("string"@)).insert("path"@, of_kind("string"@)),
            seq!["path"@],
        ),
    }
}

/// Keeps a picture that is on the page.
pub struct BrowserDownloadImageWriteTool;

impl BrowserDownloadImageWriteTool {
    /// What the model is told of the tool.
    pub fn spec(&self) -> (r: ToolSpec)
        ensures
            r.model() == browser_download_image_tool(),
    {
        proof {
            reveal(browser_download_image_tool);
        }
        let properties = Json::table().with("url", kind_json("string")).with("src", kind_json("string")).with("path", kind_json("string"));
        let mut required: Vec<String> = Vec::new();
        required.push(copy_str("path"));
        assert(texts(required@) =~= seq!["path"@]);
        ToolSpec {
            name: copy_str("browser_download_image"),
            description: copy_str("下载图片到工作区：传 url 直接下载，或传 src（CSS 选择器）取页面中该图片的地址再下载"),
            input_schema: schema_json(properties, &required),
        }
    }
}

/// What is known of `browser_close`.
#[verifier::opaque]
pub open spec fn browser_close_tool() -> ToolModel {
    ToolModel {
        name: "browser_close"@,
        description: "关闭浏览器会话（清空页面状态）"@,
        input_schema: object_schema(
            empty_table(),
            seq![],
        ),
    }
}

/// Closes the browser.
pub struct BrowserCloseTool;

impl BrowserCloseTool {
    /// What the model is told of the tool.
    pub fn spec(&self) -> (r: ToolSpec)
        ensures
            r.model() == browser_close_tool(),
    {
        proof {
            reveal(browser_close_tool);
        }
        let properties = Json::table();
        let required: Vec<String> = Vec::new();
        assert(texts(required@) =~= seq![]);
        ToolSpec {
            name: copy_str("browser_close"),
            description: copy_str("关闭浏览器会话（清空页面状态）"),
            input_schema: schema_json(properties, &required),
        }
    }
}

/// What is known of `browser_navigate`.
#[verifier::opaque]
pub open spec fn browser_navigate_tool() -> ToolModel {
    ToolModel {
        name: "browser_navigate"@,
        description: "在浏览器中打开 URL（持久化 Edge 窗口，保持登录态）"@,
        input_schema: object_schema(
            empty_table().insert("url"@, of_kind("string"@)),
            seq!["url"@],
        ),
    }
}

/// Opens an address in the browser.
pub struct BrowserNavigateTool;

impl BrowserNavigateTool {
    /// What the model is told of the tool.
    pub fn spec(&self) -> (r: ToolSpec)
        ensures
            r.model() == browser_navigate_tool(),
    {
        proof {
            reveal(browser_navigate_tool);
        }
        let properties = Json::table().with("url", kind_json("string"));
        let mut required: Vec<String> = Vec::new();
        required.push(copy_str("url"));
        assert(texts(required@) =~= seq!["url"@]);
        ToolSpec {
            name: copy_str("browser_navigate"),
            description: copy_str("在浏览器中打开 URL（持久化 Edge 窗口，保持登录态）"),
            input_schema: schema_json(properties, &required),
        }
    }
}

/// What is known of `browser_search`.
#[verifier::opaque]
pub open spec fn browser_search_tool() -> ToolModel {
    ToolModel {
        name: "browser_search"@,
        description: "用 Bing/Baidu 搜索关键词并返回结果列表（标题/链接/摘要）"@,
        input_schema: object_schema(
            empty_table().insert("query"@, of_kind("string"@)).insert("engine"@, one_of("string"@, seq!["bing"@, "baidu"@])),
            seq!["query"@],
        ),
    }
}

/// Searches with a search engine.
pub struct BrowserSearchTool;

impl BrowserSearchTool {
    /// What the model is told of the tool.
    pub fn spec(&self) -> (r: ToolSpec)
        ensures
            r.model() == browser_search_tool(),
    {
        proof {
            reveal(browser_search_tool);
        }
        let mut choices: Vec<String> = Vec::new();
        choices.push(copy_str("bing"));
        choices.push(copy_str("baidu"));
        assert(texts(choices@) =~= seq!["bing"@, "baidu"@]);
        let properties = Json::table().with("query", kind_json("string")).with("engine", choice_json("string", &choices));
        let mut required: Vec<String> = Vec::new();
        required.push(copy_str("query"));
        assert(texts(required@) =~= seq!["query"@]);
        ToolSpec {
            name: copy_str("browser_search"),
            description: copy_str("用 Bing/Baidu 搜索关键词并返回结果列表（标题/链接/摘要）"),
            input_schema: schema_json(properties, &required),
        }
    }
}

/// What is known of `browser_snapshot`.
#[verifier::opaque]
pub open spec fn browser_snapshot_tool() -> ToolModel {
    ToolModel {
        name: "browser_snapshot"@,
        description: "读取当前页面的可见文本、链接、图片和输入框清单，用于理解页面状态"@,
        input_schema: object_schema(
            empty_table().insert("max_items"@, of_kind("integer"@)),
            seq![],
        ),
    }
}

/// Reads the page.
pub struct BrowserSnapshotTool;

impl BrowserSnapshotTool {
    /// What the model is told of the tool.
    pub fn spec(&self) -> (r: ToolSpec)
        ensures
            r.model() == browser_snapshot_tool(),
    {
        proof {
            reveal(browser_snapshot_tool);
        }
        let properties = Json::table().with("max_items", kind_json("integer"));
        let required: Vec<String> = Vec::new();
        assert(texts(required@) =~= seq![]);
        ToolSpec {
            name: copy_str("browser_snapshot"),
            description: copy_str("读取当前页面的可见文本、链接、图片和输入框清单，用于理解页面状态"),
            input_schema: schema_json(properties, &required),
        }
    }
}

/// What is known of `browser_click`.
#[verifier::opaque]
pub open spec fn browser_click_tool() -> ToolModel {
    ToolModel {
        name: "browser_click"@,
        description: "点击页面元素：传 selector（CSS 选择器）或 text（页面可见文本）"@,
        input_schema: object_schema(
            empty_table().insert("selector"@, of_kind("string"@)).insert("text"@, of_kind("string"@)).insert("exact"@, of_kind("boolean"@)),
            seq![],
        ),
    }
}

/// Clicks on the page.
pub struct BrowserClickTool;

impl BrowserClickTool {
    /// What the model is told of the tool.
    pub fn spec(&self) -> (r: ToolSpec)
        ensures
            r.model() == browser_click_tool(),
    {
        proof {
            reveal(browser_click_tool);
        }
        let properties = Json::table().with("selector", kind_json("string")).with("text", kind_json("string")).with("exact", kind_json("boolean"));
        let required: Vec<String> = Vec::new();
        assert(texts(required@) =~= seq![]);
        ToolSpec {
            name: copy_str("browser_click"),
            description: copy_str("点击页面元素：传 selector（CSS 选择器）或 text（页面可见文本）"),
            input_schema: schema_json(properties, &required),
        }
    }
}

/// What is known of `browser_type`.
#[verifier::opaque]
pub open spec fn browser_type_tool() -> ToolModel {
    ToolModel {
        name: "browser_type"@,
        description: "在页面输入框填文本：传 selector 时自动聚焦填充，否则向当前焦点输入"@,
        input_schema: object_schema(
            empty_table().insert("selector"@, of_kind("string"@)).insert("text"@, of_kind("string"@)),
            seq!["text"@],
        ),
    }
}

/// Types on the page.
pub struct BrowserTypeTool;

impl BrowserTypeTool {
    /// What the model is told of the tool.
    pub fn spec(&self) -> (r: ToolSpec)
        ensures
            r.model() == browser_type_tool(),
    {
        proof {
            reveal(browser_type_tool);
        }
        let properties = Json::table().with("selector", kind_json("string")).with("text", kind_json("string"));
        let mut required: Vec<String> = Vec::new();
        required.push(copy_str("text"));
        assert(texts(required@) =~= seq!["text"@]);
        ToolSpec {
            name: copy_str("browser_type"),
            description: copy_str("在页面输入框填文本：传 selector 时自动聚焦填充，否则向当前焦点输入"),
            input_schema: schema_json(properties, &required),
        }
    }
}

/// What is known of `browser_press`.
#[verifier::opaque]
pub open spec fn browser_press_tool() -> ToolModel {
    ToolModel {
        name: "browser_press"@,
        description: "向页面发送按键，例如 Enter / Escape / Tab / Control+A"@,
        input_schema: object_schema(
            empty_table().insert("key"@, of_kind("string"@)),
            seq!["key"@],
        ),
    }
}

/// Presses a key on the page.
pub struct BrowserPressTool;

impl BrowserPressTool {
    /// What the model is told of the tool.
    pub fn spec(&self) -> (r: ToolSpec)
        ensures
            r.model() == browser_press_tool(),
    {
        proof {
            reveal(browser_press_tool);
        }
        let properties = Json::table().with("key", kind_json("string"));
        let mut required: Vec<String> = Vec::new();
        required.push(copy_str("key"));
        assert(texts(required@) =~= seq!["key"@]);
        ToolSpec {
            name: copy_str("browser_press"),
            description: copy_str("向页面发送按键，例如 Enter / Escape / Tab / Control+A"),
            input_schema: schema_json(properties, &required),
        }
    }
}

} // verus!
