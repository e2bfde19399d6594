//! Seat-specific onboarding prompts copied with a pair code. Zero LLM.
//! Agent-facing connect recipe only: portable command/args, duty, tools on this seat.

use vstd::prelude::*;
use vstd::string::*;

use crate::domain::models::AgentSeat;
use crate::text::{has_substr, occurs_at};

verus! {

pub const INSTALL_EXE_WIN: &'static str = "%LOCALAPPDATA%\\Programs\\req-engine\\req-engine.exe";

pub const DEFAULT_HOME_WIN: &'static str = "%USERPROFILE%\\.req-engine";

/// What a prompt may refer to. Only the pair code goes into the text: machine paths stay out.
pub struct OnboardingCtx<'a> {
    pub exe: &'a str,
    pub home: &'a str,
    pub project_id: &'a str,
    pub project_name: &'a str,
    pub pair_code: &'a str,
    pub local_path: &'a str,
}

/// The MCP connect recipe for a pair code.
pub open spec fn connect_text(code: Seq<char>) -> Seq<char> {
    "# 连接 MCP\nstdio。登记一条本地 MCP server：\n\n  command = req-engine.exe\n  args    = [\"mcp\", \"--pair\", \""@
        + code + "\"]\n\n若 PATH 里没有 req-engine.exe，command 用：\n  "@ + INSTALL_EXE_WIN@
        + "\n\n数据目录：`REQ_ENGINE_HOME`，否则 `"@ + DEFAULT_HOME_WIN@ + "`。"@
}

/// Duty of the discuss seat (before the recipe).
pub open spec fn discuss_head() -> Seq<char> {
    "# 职责\n跟用户把项目需求讨论清楚，写成看板上的卡片。不要自己下场改代码或实现功能。\n\n第一次接到这个项目：先通读代码工作区（宿主当前打开的文件夹），弄清现在做到哪，再讨论、再建卡。\n\n"@
}

/// Tools of the discuss seat (after the recipe).
pub open spec fn discuss_tail() -> Seq<char> {
    "\n\n# 工具\n- list_requirements\n- get_requirement\n- create_requirement\n- update_requirement\n- cancel_requirement\n"@
}

/// Duty of the build seat (before the recipe).
pub open spec fn build_head() -> Seq<char> {
    "# 职责\n先通读代码工作区（宿主当前打开的文件夹），弄清进度。只按看板里就绪的 todo 卡片完成任务，不要做卡片以外的改动。\n\n"@
}

/// Tools of the build seat (after the recipe).
pub open spec fn build_tail() -> Seq<char> {
    "\n\n# 工具\n- list_ready_tasks\n- get_requirement\n- claim_task\n- report_progress\n- submit_for_review\n- release_task\n"@
}

/// The prompt for a seat: its duty, the connect recipe for the pair code, its tools.
pub open spec fn prompt_spec(seat: AgentSeat, code: Seq<char>) -> Seq<char> {
    match seat {
        AgentSeat::Discuss => discuss_head() + connect_text(code) + discuss_tail(),
        AgentSeat::Build => build_head() + connect_text(code) + build_tail(),
    }
}

/// The MCP connect recipe for a pair code.
fn mcp_connect(code: &str) -> (r: String)
    ensures
        r@ == connect_text(code@),
{
    let mut s = String::from_str(
        "# 连接 MCP\nstdio。登记一条本地 MCP server：\n\n  command = req-engine.exe\n  args    = [\"mcp\", \"--pair\", \"",
    );
    s.append(code);
    s.append("\"]\n\n若 PATH 里没有 req-engine.exe，command 用：\n  ");
    s.append(INSTALL_EXE_WIN);
    s.append("\n\n数据目录：`REQ_ENGINE_HOME`，否则 `");
    s.append(DEFAULT_HOME_WIN);
    s.append("`。");
    s
}

/// The pair code occurs in the prompt, inside the connect recipe.
proof fn lemma_prompt_has_code(seat: AgentSeat, code: Seq<char>)
    ensures
        has_substr(prompt_spec(seat, code), code),
{
    let pre = "# 连接 MCP\nstdio。登记一条本地 MCP server：\n\n  command = req-engine.exe\n  args    = [\"mcp\", \"--pair\", \""@;
    let head = match seat {
        AgentSeat::Discuss => discuss_head(),
        AgentSeat::Build => build_head(),
    };
    let p = prompt_spec(seat, code);
    let at: int = (head.len() + pre.len()) as int;
    assert(p.subrange(at, at + code.len() as int) =~= code);
    assert(occurs_at(p, code, at));
}

/// Prompt for the discuss seat.
pub fn discuss_onboarding_prompt(ctx: &OnboardingCtx<'_>) -> (r: String)
    ensures
        r@ == prompt_spec(AgentSeat::Discuss, ctx.pair_code@),
        has_substr(r@, ctx.pair_code@),
{
    let mut s = String::from_str(
        "# 职责\n跟用户把项目需求讨论清楚，写成看板上的卡片。不要自己下场改代码或实现功能。\n\n第一次接到这个项目：先通读代码工作区（宿主当前打开的文件夹），弄清现在做到哪，再讨论、再建卡。\n\n",
    );
    let howto = mcp_connect(ctx.pair_code);
    s.append(howto.as_str());
    s.append(
        "\n\n# 工具\n- list_requirements\n- get_requirement\n- create_requirement\n- update_requirement\n- cancel_requirement\n",
    );
    proof {
        lemma_prompt_has_code(AgentSeat::Discuss, ctx.pair_code@);
    }
    s
}

/// Prompt for the build seat.
pub fn build_onboarding_prompt(ctx: &OnboardingCtx<'_>) -> (r: String)
    ensures
        r@ == prompt_spec(AgentSeat::Build, ctx.pair_code@),
        has_substr(r@, ctx.pair_code@),
{
    let mut s = String::from_str(
        "# 职责\n先通读代码工作区（宿主当前打开的文件夹），弄清进度。只按看板里就绪的 todo 卡片完成任务，不要做卡片以外的改动。\n\n",
    );
    let howto = mcp_connect(ctx.pair_code);
    s.append(howto.as_str());
    s.append(
        "\n\n# 工具\n- list_ready_tasks\n- get_requirement\n- claim_task\n- report_progress\n- submit_for_review\n- release_task\n",
    );
    proof {
        lemma_prompt_has_code(AgentSeat::Build, ctx.pair_code@);
    }
    s
}

/// Prompt for a seat.
pub fn onboarding_prompt(seat: AgentSeat, ctx: &OnboardingCtx<'_>) -> (r: String)
    ensures
        r@ == prompt_spec(seat, ctx.pair_code@),
        has_substr(r@, ctx.pair_code@),
{
    match seat {
        AgentSeat::Discuss => discuss_onboarding_prompt(ctx),
        AgentSeat::Build => build_onboarding_prompt(ctx),
    }
}

} // verus!
