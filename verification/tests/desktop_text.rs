//! Desktop shell texts and file checks.

use req_engine::desktop::{
    admin_token_from, api_base, bind_failure_message, desktop_init_script, health_request,
    html_escape_attr, inject_bootstrap, ipc_command, is_health_reply, looks_like_nested_mock_ui,
    no_free_port_message, port_candidates, shell_step, tray_icon_rgba, DesktopEvent, IpcCommand,
    ShellAction,
};

#[test]
fn occupied_port_refuses_to_attach() {
    let msg = bind_failure_message("no free port", true);
    assert!(msg.contains("Refusing to attach"), "{msg}");
    assert!(!msg.contains("attaching WebView to existing"));
}

#[test]
fn live_titlebar_is_not_treated_as_mock() {
    assert!(!looks_like_nested_mock_ui(
        r#"<div class="titlebar" id="titlebar">需求引擎</div>"#
    ));
    assert!(looks_like_nested_mock_ui(r#"<div class="desk-caption">mock</div>"#));
}

#[test]
fn bind_failure_without_listener_is_plain_error() {
    let msg = bind_failure_message("no free port", false);
    assert!(msg.contains("cannot bind HTTP port"));
    assert!(!msg.contains("Refusing to attach"));
}

#[test]
fn bind_failure_messages_are_exact() {
    assert_eq!(bind_failure_message("busy", false), "cannot bind HTTP port: busy");
    assert_eq!(
        bind_failure_message("busy", true),
        "cannot bind HTTP port (busy). Refusing to attach the window to whatever is already listening — that would send the admin token to a foreign process."
    );
}

#[test]
fn nested_window_markers_are_each_mocks() {
    assert!(looks_like_nested_mock_ui("<i class=\"desk-window\"></i>"));
    assert!(looks_like_nested_mock_ui("x nested-mock y"));
    assert!(!looks_like_nested_mock_ui(""));
}

#[test]
fn attribute_escaping() {
    assert_eq!(html_escape_attr(r#"a&b"c<d>e"#), "a&amp;b&quot;c&lt;d&gt;e");
    assert_eq!(html_escape_attr("plain"), "plain");
    assert_eq!(html_escape_attr("&amp;"), "&amp;amp;");
    assert_eq!(html_escape_attr(""), "");
}

#[test]
fn admin_token_read_from_tokens_file() {
    let text = "# req-engine bootstrap tokens — treat as secrets\n# Generated at x\n\nadmin=req_abc\nplanner=req_def\n";
    assert_eq!(admin_token_from(text).as_deref(), Some("req_abc"));
    assert_eq!(admin_token_from("  admin=  spaced  \r\n").as_deref(), Some("spaced"));
    assert_eq!(admin_token_from("admin=\nadmin=second").as_deref(), Some("second"));
    assert_eq!(admin_token_from("planner=req_x\n"), None);
    assert_eq!(admin_token_from(""), None);
}

#[test]
fn page_messages_name_their_commands() {
    assert_eq!(ipc_command("pick_folder"), Some(IpcCommand::PickFolder));
    assert_eq!(ipc_command("  win_minimize\n"), Some(IpcCommand::Post(DesktopEvent::WinMinimize)));
    assert_eq!(ipc_command("win_maximize"), Some(IpcCommand::Post(DesktopEvent::WinMaximizeToggle)));
    assert_eq!(ipc_command("win_close"), Some(IpcCommand::Post(DesktopEvent::WinClose)));
    assert_eq!(ipc_command("win_quit"), Some(IpcCommand::Post(DesktopEvent::TrayQuit)));
    assert_eq!(ipc_command("win_drag"), Some(IpcCommand::Post(DesktopEvent::WinDrag)));
    assert_eq!(ipc_command("win_explode"), None);
    assert_eq!(ipc_command(""), None);
}

#[test]
fn closing_hides_with_tray_and_exits_without() {
    assert_eq!(shell_step(DesktopEvent::WinClose, true), ShellAction::Hide);
    assert_eq!(shell_step(DesktopEvent::CloseRequested, true), ShellAction::Hide);
    assert_eq!(
        shell_step(DesktopEvent::WinClose, false),
        ShellAction::Exit("close without tray — process exiting".to_string())
    );
    assert_eq!(
        shell_step(DesktopEvent::CloseRequested, false),
        ShellAction::Exit("CloseRequested without tray — process exiting".to_string())
    );
    for tray in [true, false] {
        assert_eq!(
            shell_step(DesktopEvent::TrayQuit, tray),
            ShellAction::Exit("quit requested — process exiting".to_string())
        );
        assert_eq!(shell_step(DesktopEvent::TrayShow, tray), ShellAction::Show);
        assert_eq!(shell_step(DesktopEvent::WinDrag, tray), ShellAction::Drag);
        assert_eq!(shell_step(DesktopEvent::WinMinimize, tray), ShellAction::Minimize);
        assert_eq!(shell_step(DesktopEvent::WinMaximizeToggle, tray), ShellAction::ToggleMaximize);
    }
}

#[test]
fn picked_folder_is_handed_to_the_page_as_json() {
    let a = shell_step(DesktopEvent::FolderPicked("C:\\work\\a \"b\"".into()), true);
    assert_eq!(
        a,
        ShellAction::EvalScript(
            "window.__onNativeFolderPicked && window.__onNativeFolderPicked(\"C:\\\\work\\\\a \\\"b\\\"\");"
                .to_string()
        )
    );
    let a = shell_step(DesktopEvent::FolderPicked(String::new()), false);
    assert_eq!(
        a,
        ShellAction::EvalScript(
            "window.__onNativeFolderPicked && window.__onNativeFolderPicked(\"\");".to_string()
        )
    );
}

#[test]
fn api_base_reaches_wildcard_binds_through_loopback() {
    assert_eq!(api_base("0.0.0.0", 7420), "http://127.0.0.1:7420/v1");
    assert_eq!(api_base("::", 80), "http://127.0.0.1:80/v1");
    assert_eq!(api_base("127.0.0.1", 0), "http://127.0.0.1:0/v1");
    assert_eq!(api_base("192.168.1.5", 65535), "http://192.168.1.5:65535/v1");
}

#[test]
fn init_script_stores_base_and_token() {
    let s = desktop_init_script("http://127.0.0.1:7420/v1", "ab\"c");
    assert_eq!(
        s,
        "(function(){\n  try {\n    localStorage.setItem('req_engine_base', \"http://127.0.0.1:7420/v1\");\n    localStorage.setItem('req_engine_token', \"ab\\\"c\");\n    document.documentElement.setAttribute('data-shell','native');\n  } catch (e) {}\n})();\nwindow.__REQ_DESKTOP__=true;"
    );
}

#[test]
fn boot_markup_goes_before_the_first_head_end() {
    let html = "<html><head><title>x</title></head><body></head></body></html>";
    let out = inject_bootstrap(html, r#"{"a":"<&>"}"#);
    let inject = r#"<meta name="req-bootstrap" content="{&quot;a&quot;:&quot;&lt;&amp;&gt;&quot;}" /><script>window.__REQ_BOOTSTRAP__={"a":"<&>"};window.__REQ_DESKTOP__=true;</script>"#;
    assert_eq!(
        out,
        format!("<html><head><title>x</title>{inject}</head><body></head></body></html>")
    );
    let out = inject_bootstrap("<body>hi</body>", "{}");
    assert_eq!(
        out,
        "<meta name=\"req-bootstrap\" content=\"{}\" /><script>window.__REQ_BOOTSTRAP__={};window.__REQ_DESKTOP__=true;</script><body>hi</body>"
    );
    let out = inject_bootstrap("</head>", "1");
    assert!(out.starts_with("<meta"));
    assert!(out.ends_with("</script></head>"));
}

#[test]
fn ports_tried_are_the_preferred_and_twenty_after_capped() {
    let v = port_candidates(7420);
    assert_eq!(v.len(), 21);
    assert_eq!(v[0], 7420);
    assert_eq!(v[20], 7440);
    let v = port_candidates(65530);
    assert_eq!(&v[..6], &[65530, 65531, 65532, 65533, 65534, 65535]);
    assert!(v[6..].iter().all(|p| *p == 65535));
    assert_eq!(
        no_free_port_message(7420, "in use"),
        "no free port in 7420..7440 (last error: in use)"
    );
}

#[test]
fn health_probe_texts() {
    assert_eq!(health_request("127.0.0.1"), "GET /v1/health HTTP/1.0\r\nHost: 127.0.0.1\r\n\r\n");
    assert!(is_health_reply("HTTP/1.0 200 OK\r\n\r\n{\"service\":\"req-engine\"}"));
    assert!(!is_health_reply("HTTP/1.0 200 OK\r\n\r\n{\"service\":\"other\"}"));
}

#[test]
fn tray_icon_is_a_white_disc_on_blue() {
    let px = tray_icon_rgba();
    assert_eq!(px.len(), 32 * 32 * 4);
    let at = |x: usize, y: usize| &px[(y * 32 + x) * 4..(y * 32 + x) * 4 + 4];
    assert_eq!(at(16, 16), &[255, 255, 255, 255]);
    assert_eq!(at(0, 0), &[0, 95, 184, 255]);
    assert_eq!(at(30, 16), &[255, 255, 255, 255]);
    assert_eq!(at(31, 16), &[0, 95, 184, 255]);
    assert_eq!(at(2, 16), &[255, 255, 255, 255]);
    assert_eq!(at(1, 16), &[0, 95, 184, 255]);
}

#[test]
fn picked_folder_control_chars_are_escaped() {
    let a = shell_step(DesktopEvent::FolderPicked("a/\u{1f}\n\u{8}é".into()), true);
    assert_eq!(
        a,
        ShellAction::EvalScript(
            "window.__onNativeFolderPicked && window.__onNativeFolderPicked(\"a/\\u001f\\n\\bé\");"
                .to_string()
        )
    );
}
