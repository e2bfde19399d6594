//! Onboarding prompts handed out with a pair code.

use req_engine::domain::models::AgentSeat;
use req_engine::services::onboarding::{
    build_onboarding_prompt, discuss_onboarding_prompt, onboarding_prompt, OnboardingCtx,
    DEFAULT_HOME_WIN, INSTALL_EXE_WIN,
};

fn ctx() -> OnboardingCtx<'static> {
    OnboardingCtx {
        exe: r"C:\Users\yyy\secret-box\req-engine.exe",
        home: r"C:\Users\yyy\secret-home",
        project_id: "proj-1",
        project_name: "Demo",
        pair_code: "disc_abc",
        local_path: r"C:\Users\yyy\some-repo",
    }
}

fn assert_one_click_pack(t: &str) {
    assert!(t.contains("stdio"));
    assert!(t.contains("command = req-engine.exe"));
    assert!(t.contains(r#"["mcp", "--pair""#));
    assert!(t.contains(INSTALL_EXE_WIN));
    assert!(t.contains(DEFAULT_HOME_WIN));
    assert!(!t.contains("--home"));
    assert!(!t.contains("你是谁"));
    assert!(!t.contains("不要伪造"));
    assert!(!t.contains("问使用你的人"));
    assert!(!t.contains("不要抄别人"));
    assert!(!t.contains("tokens.txt"));
    assert!(!t.to_ascii_lowercase().contains("grok"));
    assert!(!t.to_ascii_lowercase().contains("cursor"));
    assert!(!t.contains(r"C:\Users\yyy\secret-box"));
    assert!(!t.contains(r"C:\Users\yyy\secret-home"));
    assert!(!t.contains(r"C:\Users\yyy\some-repo"));
}

#[test]
fn discuss_prompt_has_boundaries_and_pair() {
    let t = discuss_onboarding_prompt(&ctx());
    assert!(t.contains("disc_abc"));
    assert!(t.contains("不要自己下场"));
    assert!(t.contains("通读代码工作区"));
    assert!(t.contains("list_requirements"));
    assert!(!t.contains("claim"));
    assert!(!t.contains("complete_review"));
    assert_one_click_pack(&t);
}

#[test]
fn build_prompt_has_duty_and_pair() {
    let mut c = ctx();
    c.pair_code = "build_xyz";
    let t = build_onboarding_prompt(&c);
    assert!(t.contains("build_xyz"));
    assert!(t.contains("claim_task"));
    assert!(t.contains("只按看板里就绪的 todo"));
    assert!(!t.contains("complete_review"));
    assert!(!t.contains("create_requirement"));
    assert_one_click_pack(&t);
}


#[test]
fn prompt_by_seat_matches_seat_prompt() {
    let c = ctx();
    assert_eq!(onboarding_prompt(AgentSeat::Discuss, &c), discuss_onboarding_prompt(&c));
    assert_eq!(onboarding_prompt(AgentSeat::Build, &c), build_onboarding_prompt(&c));
}

#[test]
fn connect_recipe_is_exact() {
    let t = discuss_onboarding_prompt(&ctx());
    let recipe = format!(
        "# 连接 MCP\nstdio。登记一条本地 MCP server：\n\n  command = req-engine.exe\n  args    = [\"mcp\", \"--pair\", \"disc_abc\"]\n\n若 PATH 里没有 req-engine.exe，command 用：\n  {}\n\n数据目录：`REQ_ENGINE_HOME`，否则 `{}`。",
        INSTALL_EXE_WIN, DEFAULT_HOME_WIN
    );
    assert!(t.contains(&recipe));
    assert!(t.starts_with("# 职责\n"));
    assert!(t.ends_with("- cancel_requirement\n"));
    assert_eq!(INSTALL_EXE_WIN, r"%LOCALAPPDATA%\Programs\req-engine\req-engine.exe");
    assert_eq!(DEFAULT_HOME_WIN, r"%USERPROFILE%\.req-engine");
}
