use lasada::computer::{plan_steps, screenshot_attempts, xdotool_error, ComputerExecutor, ComputerReport, ComputerStep};
use lasada::dispatch::{EngineKind, ExecutionDispatcher};
use lasada::shell::{bash_delimiter, frame_bash, frame_python, python_delimiter, CommandOutput};
use lasada::types::AppError;
use lasada::web::{assemble_page_text, build_search_url, format_search_results, page_text_of, parse_web_command, search_results_report, SearchHit, WebCommand, WebExecutor};

#[test]
fn bash_command_is_framed_with_its_marker() {
    let d = bash_delimiter(42, 1700000000123456);
    assert_eq!(d, "__LASADA_END_42_1700000000123456__");
    assert_eq!(frame_bash("  ls -l \n", &d), "ls -l\necho \"__LASADA_END_42_1700000000123456__:$?\"\n");
}

#[test]
fn python_code_is_framed_with_its_marker() {
    let d = python_delimiter(7, 9);
    assert_eq!(d, "__LASADA_PY_END_7_9__");
    assert_eq!(frame_python("print(1)\n", &d), "print(1)\nprint(f\"__LASADA_PY_END_7_9__:0\")\n");
}

#[test]
fn shell_output_reports_nonzero_exit_codes() {
    let mut out = CommandOutput::new("__M__");
    assert!(!out.shell_line("a"));
    out.error_line("oops");
    assert!(out.shell_line("__M__:2"));
    assert_eq!(out.finish(), "a\noops\n\n[Exit Code: 2]");

    let mut ok = CommandOutput::new("__M__");
    assert!(!ok.shell_line("  b  "));
    assert!(ok.shell_line("__M__:0"));
    assert_eq!(ok.finish(), "b");

    let mut nocolon = CommandOutput::new("__M__");
    assert!(nocolon.shell_line("__M__"));
    assert_eq!(nocolon.finish(), "");
}

#[test]
fn python_output_stops_at_marker() {
    let mut out = CommandOutput::new("__P__");
    assert!(!out.python_line("2"));
    assert!(out.python_line("__P__:0"));
    assert_eq!(out.finish(), "2");
}

#[test]
fn computer_script_is_read_line_by_line() {
    let _ = ComputerExecutor::new();
    let steps = plan_steps("  mousemove 10  20 \n\nscreenshot\n key ctrl+s");
    assert_eq!(steps.len(), 3);
    match &steps[0] {
        ComputerStep::Xdotool { line, args } => {
            assert_eq!(line, "mousemove 10  20");
            assert_eq!(args, &vec!["mousemove", "10", "20"]);
        }
        _ => panic!(),
    }
    assert!(matches!(steps[1], ComputerStep::Screenshot));
    assert!(plan_steps(" \n ").is_empty());
}

#[test]
fn computer_report_lines() {
    let tries = screenshot_attempts();
    assert_eq!(tries[0].program, "scrot");
    assert_eq!(tries[0].args, vec!["-o", "/tmp/lasada_screenshot.jpg"]);
    assert_eq!(tries[1].program, "gnome-screenshot");
    let mut r = ComputerReport::new();
    r.screenshot_saved();
    r.xdotool_done("key a", true, "");
    r.xdotool_done("bad", false, "err");
    r.screenshot_failed();
    assert_eq!(
        r.finish(),
        "SCREENSHOT_SAVED: /tmp/lasada_screenshot.jpg\nExecuted: key a\nError executing 'bad': err\nError: Failed to take screenshot. Make sure 'scrot' or 'gnome-screenshot' is installed."
    );
    match xdotool_error("not found") {
        AppError::ExecutionError(m) => assert_eq!(m, "xdotool error: not found"),
        _ => panic!(),
    }
}

#[test]
fn web_commands_are_parsed() {
    let _ = WebExecutor::new();
    assert!(matches!(parse_web_command("  search rust lang \n"), Ok(WebCommand::Search(q)) if q == "rust lang"));
    assert!(matches!(parse_web_command("browse https://a.b"), Ok(WebCommand::Browse(u)) if u == "https://a.b"));
    match parse_web_command("fetch x") {
        Err(AppError::ExecutionError(m)) => assert_eq!(m, "Unknown web command. Use 'search <query>' or 'browse <url>'."),
        _ => panic!(),
    }
    assert!(parse_web_command("search").is_err());
}

#[test]
fn search_url_is_percent_encoded() {
    assert_eq!(build_search_url("rust lang?"), "https://html.duckduckgo.com/html/?q=rust%20lang%3F");
    assert_eq!(build_search_url("a-b_c.d~é"), "https://html.duckduckgo.com/html/?q=a-b_c.d~%C3%A9");
}

#[test]
fn search_report_lists_at_most_five_hits() {
    let hits: Vec<SearchHit> = (1..=7)
        .map(|i| SearchHit { title: format!(" T{} ", i), link: format!("u{}", i), snippet: format!("s{}\n", i) })
        .collect();
    let r = format_search_results("q", &hits);
    assert!(r.starts_with("Search results for: q\n\n1. T1\n   URL: u1\n   Snippet: s1\n\n2. T2"));
    assert!(r.contains("5. T5"));
    assert!(!r.contains("6. T6"));
    assert_eq!(format_search_results("q", &Vec::new()), "Search results for: q\n\n(No results found or access blocked by provider.)");
}

#[test]
fn search_report_from_result_page() {
    let html = r#"<html><body>
        <div class="result__body"><a class="result__a" href="https://x.org">X <b>Org</b></a><div class="result__snippet"> about x </div></div>
        <div class="result__body"><a class="result__a" href="https://y.org">Y</a></div>
        </body></html>"#;
    let r = search_results_report("x", html);
    assert_eq!(
        r,
        "Search results for: x\n\n1. X Org\n   URL: https://x.org\n   Snippet: about x\n\n2. Y\n   URL: https://y.org\n   Snippet: \n\n"
    );
}

#[test]
fn page_text_joins_body_text() {
    let html = "<html><head><title>T</title></head><body><p> Hello </p><div>\n</div><p>world</p></body></html>";
    assert_eq!(page_text_of(html), Some("Hello world".to_string()));
}

#[test]
fn long_page_text_is_truncated_at_5000_bytes() {
    let nodes = vec!["a".repeat(6000)];
    let t = assemble_page_text(&nodes).unwrap();
    assert_eq!(t.len(), 5000 + "... (Content truncated)".len());
    assert!(t.ends_with("a... (Content truncated)"));
    let exact = vec!["b".repeat(4999)];
    assert_eq!(assemble_page_text(&exact).unwrap().len(), 4999);
}

#[test]
fn page_text_cut_inside_a_character_has_no_text() {
    let nodes = vec![format!("{}é{}", "a".repeat(4999), "b".repeat(10))];
    assert_eq!(assemble_page_text(&nodes), None);
}

#[test]
fn dispatcher_routes_by_language() {
    let d = ExecutionDispatcher::new();
    let names: Vec<String> = d.registrations().into_iter().map(|(n, _)| n).collect();
    assert_eq!(names, vec!["bash", "sh", "python", "python3", "computer", "web"]);
    assert!(d.registrations()[3].1 == EngineKind::Python);
    let r = d.route("").ok().unwrap();
    assert_eq!((r.executor.as_str(), r.language.as_str()), ("bash", "bash"));
    let r = d.route("python3").ok().unwrap();
    assert_eq!((r.executor.as_str(), r.language.as_str()), ("python3", "python3"));
    let r = d.route("ruby").ok().unwrap();
    assert_eq!((r.executor.as_str(), r.language.as_str()), ("bash", "ruby"));
}
