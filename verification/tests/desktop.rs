use owo_agent_core::computer_use::simulator::{
    read_sim_response, sim_anchor_matches, sim_base_url, sim_frame, sim_ocr_lines, sim_request, sim_url, verify,
    verify_path, SimUiActionSource,
};
use owo_agent_core::computer_use::{
    activate_args, browser_profile, click_args, click_result, driver_command, driver_line, find_ocr_line, find_window,
    node_runtime, ocr_summary_json, read_driver_line, region_args, role_hint, scroll_args, scroll_result,
    simulated_region, type_result, vision_prompt, wait_args, window_ocr_json, DriverReply, NodeEnv, WaitUntil,
    WindowInfo,
};
use owo_agent_core::json::{read_json, Json};
use owo_agent_core::learn::SemanticAnchor;
use owo_agent_core::ocr::{ocr_bmp, ocr_bmp_detailed, ocr_result, read_frame, OcrBox, OcrSummary};
use owo_agent_core::platform::{
    capture_screen_region, clipboard_sequence, encode_bmp, pixel_bytes, poll_foreground_app, process_name_of,
    read_bmp_head,
};
use owo_agent_core::vision::{bmp_to_png, number_parts, ollama_models, parse_verification, percent_part, read_ollama, VisionConfig, VisionEnv};

fn json(text: &str) -> Json {
    read_json(text).unwrap_or_else(|e| panic!("{}", e))
}

#[test]
fn browser_tool_names_map_to_driver_commands() {
    let names = [
        "browser_navigate",
        "browser_search",
        "browser_snapshot",
        "browser_click",
        "browser_type",
        "browser_press",
    ];
    for name in names {
        let cmd = driver_command(name);
        assert!(matches!(cmd.as_str(), "navigate" | "search" | "snapshot" | "click" | "type" | "press"));
    }
}

#[test]
fn node_runtime_falls_back_without_panicking() {
    let none = || NodeEnv { browser_node: None, browser_node_path: None, skill_node: None, skill_runtime: None };
    let (node, node_path) = node_runtime(none(), None);
    assert!(!node.is_empty());
    assert!(node_path.is_none());
    let mut skill = none();
    skill.skill_node = Some("n.exe".to_string());
    skill.skill_runtime = Some("C:\\rt".to_string());
    assert_eq!(node_runtime(skill, None), ("n.exe".to_string(), Some("C:\\rt\\node\\node_modules".to_string())));
    assert_eq!(browser_profile(None, None, "/tmp/x"), "/tmp/x\\OwO\\Agent\\browser-profile");
}

#[test]
fn find_ocr_line_matches_text_and_role_filter() {
    let ocr = json(
        r#"{ "lines": [
            { "text": "发送", "x": 0, "y": 0, "width": 10, "height": 10, "role_hint": "button" },
            { "text": "对方正在输入…", "x": 0, "y": 20, "width": 10, "height": 10, "role_hint": "status" },
            { "text": "今晚吃什么", "x": 0, "y": 40, "width": 10, "height": 10, "role_hint": "message" }
        ] }"#,
    );
    let button = find_ocr_line(&ocr, "发送", "button").expect("应匹配发送按钮");
    assert_eq!(button.text_at("role_hint").unwrap(), "button");
    assert!(find_ocr_line(&ocr, "发送", "message").is_none());
    assert!(find_ocr_line(&ocr, "输入中", "").is_none());
    let message = find_ocr_line(&ocr, "吃什么", "").expect("应匹配消息行");
    assert_eq!(message.int_at("y"), Some(40));
}

#[test]
fn find_ocr_line_is_case_insensitive() {
    let ocr = json(
        r#"{ "lines": [{ "text": "Hello World", "x": 0, "y": 0, "width": 10, "height": 10, "role_hint": "text" }] }"#,
    );
    assert!(find_ocr_line(&ocr, "hello", "").is_some());
}

fn anchor(role: Option<&str>, name: &str) -> SemanticAnchor {
    SemanticAnchor { app_id: None, role: role.map(|r| r.to_string()), name: name.to_string() }
}

#[test]
fn sim_anchor_matches_line_text_and_role() {
    let input = json(r#"{ "text": "输入消息...", "role_hint": "input" }"#);
    let send = json(r#"{ "text": "发送", "role_hint": "button" }"#);
    let message = json(r#"{ "text": "今晚吃什么", "role_hint": "message" }"#);
    assert!(sim_anchor_matches(&input, &anchor(Some("edit"), "输入消息")));
    assert!(sim_anchor_matches(&send, &anchor(Some("button"), "发送")));
    assert!(!sim_anchor_matches(&send, &anchor(Some("input"), "发送")));
    assert!(sim_anchor_matches(&message, &anchor(Some("text"), "吃什么")));
    assert!(!sim_anchor_matches(&message, &anchor(None, "")));
}

#[test]
fn arguments_of_tools_are_read() {
    assert_eq!(click_args(&json(r#"{"x":1,"y":2}"#)).unwrap(), (1, 2));
    assert_eq!(click_args(&json(r#"{"y":2}"#)).unwrap_err(), "缺少 x");
    assert_eq!(click_args(&json(r#"{"x":2}"#)).unwrap_err(), "缺少 y");
    assert_eq!(scroll_args(&json(r#"{"x":1,"y":2,"delta":-120}"#)).unwrap(), (1, 2, -120));
    assert_eq!(scroll_args(&json(r#"{"x":1,"y":2}"#)).unwrap_err(), "缺少 delta");
    assert_eq!(wait_args(&json(r#"{"ms":999999}"#)).unwrap(), 120_000);
    assert_eq!(wait_args(&json("{}")).unwrap_err(), "缺少 ms");
    let region = region_args(&json(r#"{"x":1,"y":2,"width":3,"height":4}"#)).unwrap();
    assert_eq!((region.width, region.height, region.scale), (3, 4, 2));
    assert_eq!(region_args(&json(r#"{"x":1,"y":2,"width":3}"#)).unwrap_err(), "缺少 height");
    assert!(activate_args(&json("{}")).is_err());
    assert_eq!(click_result(3, 4).to_text(), r#"{"clicked":[3,4]}"#);
    assert_eq!(scroll_result(1, 2, 3, true).to_text(), r#"{"scrolled":[1,2,3],"surface":"sim"}"#);
    assert_eq!(type_result("你好").to_text(), r#"{"typed_chars":2}"#);
    assert_eq!(vision_prompt(&json(r#"{"prompt":"p"}"#)), "p");
}

#[test]
fn window_is_found_by_process_or_title() {
    let windows = vec![
        WindowInfo { hwnd: 1, process: "qq.exe".to_string(), title: "聊天".to_string(), visible: false },
        WindowInfo { hwnd: 2, process: "qq.exe".to_string(), title: "聊天".to_string(), visible: true },
    ];
    assert_eq!(find_window(&json(r#"{"hwnd":9}"#), &windows).unwrap(), 9);
    assert_eq!(find_window(&json(r#"{"process":"qq"}"#), &windows).unwrap(), 2);
    assert!(find_window(&json("{}"), &windows).is_err());
    assert_eq!(
        find_window(&json(r#"{"title":"x"}"#), &windows).unwrap_err(),
        "未找到窗口（process=, title=x）"
    );
}

fn summary() -> (OcrSummary, Vec<OcrBox>) {
    let line = |text: &str, y: i32| OcrBox { text: text.to_string(), x: 5, y, width: 10, height: 10 };
    (
        OcrSummary { text: "发送".to_string(), chars: 2, boxes: vec![line("发", 100), line("送", 100)] },
        vec![line("发送", 100)],
    )
}

#[test]
fn lines_of_the_screen_carry_roles_and_places() {
    assert_eq!(role_hint("搜索", 100), "button");
    assert_eq!(role_hint("请输入", 100), "input");
    assert_eq!(role_hint("标题", 10), "header");
    assert_eq!(role_hint("正文", 100), "text");
    let (s, lines) = summary();
    let seen = ocr_summary_json(&s, &lines, 1, "desktop");
    assert_eq!(seen.list_at("boxes").unwrap().len(), 1);
    assert_eq!(seen.count_at("box_count"), Some(2));
    assert_eq!(seen.text_at("surface").unwrap(), "desktop");
    let window = window_ocr_json(&s, &lines, 7, (100, 200, 300, 400));
    let line = &window.list_at("lines").unwrap()[0];
    assert_eq!((line.int_at("x"), line.int_at("y")), (Some(105), Some(300)));
    assert_eq!(line.text_at("role_hint").unwrap(), "button");
}

#[test]
fn region_keeps_the_lines_that_lie_in_it() {
    let ocr = json(
        r#"{ "lines": [ {"text":"a","x":0,"y":0,"width":10,"height":10}, {"text":"b","x":100,"y":100,"width":10,"height":10} ] }"#,
    );
    let region = region_args(&json(r#"{"x":90,"y":90,"width":50,"height":50}"#)).unwrap();
    let cut = simulated_region(ocr, &region);
    assert_eq!(cut.text_at("text").unwrap(), "b");
    assert_eq!(cut.count_at("chars"), Some(1));
}

#[test]
fn waiting_ends_with_the_text_or_the_time() {
    assert!(WaitUntil::new(&json("{}")).is_err());
    let mut wait = WaitUntil::new(&json(r#"{"text":"ok","timeout_ms":500,"interval_ms":1}"#))
        .unwrap_or_else(|e| panic!("{}", e));
    assert_eq!(wait.interval_ms, 200);
    assert!(wait.look(Err("dark".to_string()), 400).is_none());
    assert!(wait.look(Ok(json(r#"{"lines":[],"text":"nothing"}"#)), 300).is_none());
    let expired = wait.expired(0);
    assert_eq!(expired.bool_at("matched"), Some(false));
    assert_eq!(expired.text_at("last_error").unwrap(), "dark");
    assert_eq!(expired.text_at("last_ocr_preview").unwrap(), "nothing");
    let found = wait.look(Ok(json(r#"{"lines":[{"text":"it is OK"}],"surface":"sim"}"#)), 100).unwrap();
    assert_eq!(found.count_at("elapsed_ms"), Some(400));
    assert_eq!(found.text_at("surface").unwrap(), "sim");
}

#[test]
fn driver_is_asked_and_answers() {
    let line = driver_line(3, "click", json(r#"{"text":"x"}"#));
    assert_eq!(line, "{\"args\":{\"text\":\"x\"},\"cmd\":\"click\",\"id\":3}\n");
    assert!(matches!(read_driver_line(3, "  \n"), DriverReply::Skip));
    assert!(matches!(read_driver_line(3, r#"{"id":2,"ok":true}"#), DriverReply::Skip));
    match read_driver_line(3, r#"{"id":3,"ok":true,"data":5}"#) {
        DriverReply::Done(Ok(j)) => assert_eq!(j.as_u64(), Some(5)),
        _ => panic!("data expected"),
    }
    match read_driver_line(3, r#"{"id":3,"ok":false}"#) {
        DriverReply::Done(Err(e)) => assert_eq!(e, "浏览器命令失败"),
        _ => panic!("failure expected"),
    }
    match read_driver_line(3, "not json") {
        DriverReply::Done(Err(e)) => assert!(e.starts_with("浏览器驱动返回非法 JSON：")),
        _ => panic!("failure expected"),
    }
}

#[test]
fn simulated_window_is_asked_over_http() {
    assert_eq!(sim_base_url(&Some("  ".to_string())), None);
    assert_eq!(sim_base_url(&Some(" http://h ".to_string())), Some("http://h".to_string()));
    assert_eq!(sim_url("http://h/", "/ocr"), "http://h/ocr");
    let request = sim_request("http://127.0.0.1:18500/", "POST", "click", Some(&json(r#"{"x":1}"#)))
        .unwrap_or_else(|e| panic!("{}", e));
    assert_eq!(request.host, "127.0.0.1");
    assert_eq!(request.port, 18500);
    assert_eq!(
        request.text,
        "POST /click HTTP/1.1\r\nHost: 127.0.0.1:18500\r\nContent-Type: application/json\r\nContent-Length: 7\r\nConnection: close\r\n\r\n{\"x\":1}"
    );
    assert!(sim_request("https://h", "GET", "ocr", None).is_err());
    let plain = sim_request("http://h:x", "GET", "ocr", None).unwrap_or_else(|e| panic!("{}", e));
    assert_eq!(plain.port, 80);
    let body = read_sim_response(&b"HTTP/1.1 200 OK\r\n\r\n{\"a\":1}".to_vec()).unwrap_or_else(|e| panic!("{}", e));
    assert_eq!(body.count_at("a"), Some(1));
    assert!(read_sim_response(&b"HTTP/1.1 200 OK".to_vec()).is_err());
    assert!(read_sim_response(&b"x\r\n\r\n{".to_vec()).is_err());
    assert!(sim_frame(vec![0u8; 60]).is_err());
    assert!(sim_ocr_lines(json(r#"{"lines":[]}"#)).is_none());
    let marked = sim_ocr_lines(json(r#"{"lines":[1]}"#)).unwrap();
    assert_eq!(marked.text_at("surface").unwrap(), "sim");
}

#[test]
fn learned_actions_work_in_the_simulated_window() {
    assert!(SimUiActionSource::new(&None).is_err());
    let mut source = SimUiActionSource::new(&Some("http://h".to_string())).unwrap_or_else(|e| panic!("{}", e));
    let ocr = json(r#"{"lines":[{"text":"输入消息","role_hint":"input","x":10,"y":20,"width":5,"height":6}]}"#);
    assert!(source.find(&ocr, &anchor(None, "没有")).is_err());
    let handle = source.find(&ocr, &anchor(Some("edit"), "输入")).unwrap();
    assert_eq!(handle, 0);
    let click = source.invoke(handle).unwrap_or_else(|e| panic!("{}", e));
    assert_eq!((click.path, click.body.to_text()), ("click", r#"{"x":12,"y":23}"#.to_string()));
    let (first, typing) = source.type_text(handle, "hi").unwrap_or_else(|e| panic!("{}", e));
    assert!(first.is_some());
    assert_eq!((typing.path, typing.body.to_text()), ("type", r#"{"text":"hi"}"#.to_string()));
    assert!(source.line(5).is_err());
    assert_eq!(verify_path("value:hi"), "state");
    assert_eq!(verify_path("ui:hi"), "ocr");
    assert!(verify("value:hi", &json(r#"{"input":"oh hi"}"#)));
    assert!(verify("ui:输入", &ocr));
    assert!(!verify("xyz", &ocr));
}

#[test]
fn ocr_is_callable_and_never_panics() {
    if let Some(bmp) = capture_screen_region(4, 4) {
        let _ = ocr_bmp(&bmp);
    }
}

#[test]
fn foreground_poll_is_callable() {
    let _ = poll_foreground_app();
}

#[test]
fn clipboard_sequence_is_callable() {
    let _ = clipboard_sequence();
}

#[test]
fn screen_capture_region_produces_bmp() {
    if let Some(bmp) = capture_screen_region(4, 4) {
        assert_eq!(&bmp[..2], b"BM");
        assert!(bmp.len() > 54);
    }
}

#[test]
fn picture_reads_back_as_it_was_written() {
    let pixels: Vec<u8> = (0..16).collect();
    let bmp = encode_bmp(2, 2, &pixels);
    assert_eq!(&bmp[..2], b"BM");
    let head = read_bmp_head(&bmp).unwrap();
    assert_eq!((head.width, head.height, head.bits), (2, 2, 32));
    assert_eq!(pixel_bytes(2, 2), 16);
    let frame = read_frame(&bmp).unwrap_or_else(|e| panic!("{}", e));
    assert_eq!((frame.width, frame.height), (2, 2));
    assert_eq!(frame.pixels, pixels);
    assert!(read_frame(&vec![0u8; 10]).is_err());
    assert!(ocr_bmp_detailed(&bmp).is_err());
    assert!(ocr_result(String::new(), Vec::new()).is_err());
    assert_eq!(process_name_of("C:\\Apps\\QQ.exe"), "qq");
}

#[test]
fn bmp_to_png_produces_valid_png() {
    let mut bmp = vec![0u8; 54 + 4 * 4 * 4];
    bmp[0..2].copy_from_slice(b"BM");
    bmp[18..22].copy_from_slice(&4i32.to_le_bytes());
    bmp[22..26].copy_from_slice(&4i32.to_le_bytes());
    bmp[28..30].copy_from_slice(&32u16.to_le_bytes());
    let png = bmp_to_png(&bmp).expect("转换应成功");
    assert_eq!(&png[..8], b"\x89PNG\r\n\x1a\n");
    assert!(bmp_to_png(&vec![0u8; 10]).is_err());
}

#[test]
fn parse_verification_extracts_yes_no_and_confidence() {
    let yes = "YES (confidence 0.92)：消息已上屏";
    assert_eq!(parse_verification(yes), "yes");
    let confidence =
        number_parts(yes).iter().filter_map(|p| p.parse::<f64>().ok()).find(|v| (0.0..=1.0).contains(v));
    assert_eq!(confidence, Some(0.92));
    let no = "NO，输入框仍非空，置信度 85%";
    assert_eq!(parse_verification(no), "no");
    let confidence =
        number_parts(no).iter().filter_map(|p| p.parse::<f64>().ok()).find(|v| (0.0..=1.0).contains(v));
    assert_eq!(confidence, None);
    assert_eq!(percent_part(no).parse::<f64>().ok().map(|v| v / 100.0), Some(0.85));
    assert_eq!(parse_verification("不确定"), "unknown");
}

#[test]
fn vision_answers_are_read() {
    let env = VisionEnv {
        provider: None,
        model: None,
        base_url: None,
        api_key: None,
        ollama_host: None,
        owo_ollama_host: None,
    };
    let config = VisionConfig::from_env(env);
    assert!(!config.is_openai());
    assert!(read_ollama(&config, false, &json("{}")).is_err());
    assert_eq!(
        ollama_models(&json(r#"{"models":[{"name":"a"},{"name":"b"}]}"#)),
        vec!["a".to_string(), "b".to_string()]
    );
}
