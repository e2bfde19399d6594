//! Decisions of the desktop shell: what it says when it cannot bind, which UI files it refuses,
//! how it escapes an attribute, and how it reads the admin token from `tokens.txt`.

use vstd::prelude::*;
use vstd::string::*;

use crate::outside::{json_quote, json_string_literal};
use crate::domain::state::{role_name, Role};
use crate::domain::models::Micros;
use crate::outside::{hex_digit, hex_lower};
use crate::services::board::BoardV;
use crate::services::tokens::{
    bootstrap_all, bootstrap_spec, join_lines, lemma_join_one, token_entries, token_entry,
    token_line, token_text, tokens_file_spec, tokens_header, GeneratedTokenV, TokenErrorV,
};
use crate::text::{
    decimal, is_ws, lemma_trim_first, lemma_trim_keeps, has_prefix, has_substr, occurs_at, push_char, push_decimal, str_contains, str_eq,
    str_starts_with, str_trim, trim,
};

verus! {

/// Message when the HTTP port cannot be bound. When something already listens there, the
/// window is not attached to it (that would hand the admin token to a foreign process).
pub open spec fn bind_failure_spec(pick_err: Seq<char>, someone_listening: bool) -> Seq<char> {
    if someone_listening {
        "cannot bind HTTP port ("@ + pick_err
            + "). Refusing to attach the window to whatever is already listening — that would send the admin token to a foreign process."@
    } else {
        "cannot bind HTTP port: "@ + pick_err
    }
}

/// Message when the HTTP port cannot be bound.
pub fn bind_failure_message(pick_err: &str, someone_listening: bool) -> (r: String)
    ensures
        r@ == bind_failure_spec(pick_err@, someone_listening),
{
    if someone_listening {
        let mut m = String::from_str("cannot bind HTTP port (");
        m.append(pick_err);
        m.append(
            "). Refusing to attach the window to whatever is already listening — that would send the admin token to a foreign process.",
        );
        m
    } else {
        let mut m = String::from_str("cannot bind HTTP port: ");
        m.append(pick_err);
        m
    }
}

/// Old static mocks drew nested OS-window chrome; the live shell's title bar is not one.
pub open spec fn nested_mock_spec(html: Seq<char>) -> bool {
    has_substr(html, "desk-caption"@) || has_substr(html, "desk-window"@) || has_substr(
        html,
        "nested-mock"@,
    )
}

/// Whether a UI file is one of the old nested-window mocks.
pub fn looks_like_nested_mock_ui(html: &str) -> (r: bool)
    ensures
        r == nested_mock_spec(html@),
{
    str_contains(html, "desk-caption") || str_contains(html, "desk-window") || str_contains(
        html,
        "nested-mock",
    )
}

/// One char as written inside an HTML attribute.
pub open spec fn escape_char(c: char) -> Seq<char> {
    if c == '&' {
        "&amp;"@
    } else if c == '"' {
        "&quot;"@
    } else if c == '<' {
        "&lt;"@
    } else if c == '>' {
        "&gt;"@
    } else {
        seq![c]
    }
}

/// A text as written inside an HTML attribute.
pub open spec fn escape_attr(s: Seq<char>) -> Seq<char>
    decreases s.len(),
{
    if s.len() == 0 {
        Seq::empty()
    } else {
        escape_attr(s.drop_last()) + escape_char(s.last())
    }
}

/// Escape `&`, `"`, `<` and `>` for an HTML attribute.
pub fn html_escape_attr(s: &str) -> (r: String)
    ensures
        r@ == escape_attr(s@),
{
    let cs = crate::text::chars_of(s);
    let mut out = String::new();
    let mut i: usize = 0;
    assert(cs@.take(0) =~= Seq::<char>::empty());
    while i < cs.len()
        invariant
            cs@ == s@,
            i <= cs@.len(),
            out@ == escape_attr(cs@.take(i as int)),
        decreases cs.len() - i,
    {
        let c = cs[i];
        assert(cs@.take(i + 1).drop_last() =~= cs@.take(i as int));
        if c == '&' {
            out.append("&amp;");
        } else if c == '"' {
            out.append("&quot;");
        } else if c == '<' {
            out.append("&lt;");
        } else if c == '>' {
            out.append("&gt;");
        } else {
            push_char(&mut out, c);
        }
        i += 1;
    }
    assert(cs@.take(cs@.len() as int) =~= cs@);
    out
}

/// Position of the first line feed of `s`, or its length.
pub open spec fn line_end(s: Seq<char>) -> int
    decreases s.len(),
{
    if s.len() == 0 {
        0
    } else if s[0] == '\n' {
        0
    } else {
        1 + line_end(s.drop_first())
    }
}

/// A line without its carriage return, if it ends with one.
pub open spec fn strip_cr(l: Seq<char>) -> Seq<char> {
    if l.len() > 0 && l.last() == '\r' {
        l.drop_last()
    } else {
        l
    }
}

/// The lines of a text as `str::lines` splits it.
pub open spec fn lines_of(s: Seq<char>) -> Seq<Seq<char>>
    decreases s.len(),
{
    if s.len() == 0 {
        Seq::empty()
    } else {
        let k = line_end(s);
        if 0 <= k < s.len() {
            seq![strip_cr(s.take(k))] + lines_of(s.skip(k + 1))
        } else {
            seq![strip_cr(s)]
        }
    }
}

/// The admin token a line gives: after `admin=` (the line trimmed), trimmed and not blank.
pub open spec fn admin_in_line(l: Seq<char>) -> Option<Seq<char>> {
    let t = trim(l);
    if has_prefix(t, "admin="@) && trim(t.skip(6)).len() > 0 {
        Some(trim(t.skip(6)))
    } else {
        None
    }
}

/// The admin token of the first line that gives one.
pub open spec fn admin_in_lines(ls: Seq<Seq<char>>) -> Option<Seq<char>>
    decreases ls.len(),
{
    if ls.len() == 0 {
        None
    } else {
        match admin_in_line(ls[0]) {
            Some(t) => Some(t),
            None => admin_in_lines(ls.drop_first()),
        }
    }
}

proof fn lemma_line_end_bounds(s: Seq<char>)
    ensures
        0 <= line_end(s) <= s.len(),
        line_end(s) < s.len() ==> s[line_end(s)] == '\n',
        forall|j: int| 0 <= j < line_end(s) ==> s[j] != '\n',
    decreases s.len(),
{
    if s.len() > 0 && s[0] != '\n' {
        lemma_line_end_bounds(s.drop_first());
        assert forall|j: int| 0 <= j < line_end(s) implies s[j] != '\n' by {
            if j > 0 {
                assert(s.drop_first()[j - 1] == s[j]);
            }
        }
    }
}

/// The admin token written in the text of `tokens.txt` (`admin=<token>`), if any.
pub fn admin_token_from(text: &str) -> (r: Option<String>)
    ensures
        r.deep_view() == admin_in_lines(lines_of(text@)),
{
    proof {
        reveal_strlit("admin=");
    }
    let cs = crate::text::chars_of(text);
    let n = cs.len();
    let mut pos: usize = 0;
    assert(text@.skip(0) =~= text@);
    while pos < n
        invariant
            cs@ == text@,
            n == cs@.len(),
            pos <= n,
            admin_in_lines(lines_of(text@)) == admin_in_lines(lines_of(text@.skip(pos as int))),
        decreases n - pos,
    {
        let ghost rest = text@.skip(pos as int);
        proof {
            reveal_strlit("admin=");
            lemma_line_end_bounds(rest);
        }
        let mut k: usize = pos;
        while k < n && cs[k] != '\n'
            invariant
                cs@ == text@,
                n == cs@.len(),
                pos <= k <= n,
                rest == text@.skip(pos as int),
                rest.len() == n - pos,
                0 <= line_end(rest) <= rest.len(),
                line_end(rest) < rest.len() ==> rest[line_end(rest)] == '\n',
                k - pos <= line_end(rest),
                forall|j: int| pos <= j < k ==> cs@[j] != '\n',
            decreases n - k,
        {
            proof {
                if k - pos == line_end(rest) && k < n {
                    assert(rest[k - pos] == cs@[k as int]);
                }
            }
            k += 1;
        }
        proof {
            if k < n {
                assert(rest[k - pos] == '\n');
            }
            if k - pos < line_end(rest) {
                assert(rest[k - pos] == cs@[k as int]);
            }
            assert(k - pos == line_end(rest));
        }
        let mut end = k;
        if end > pos && cs[end - 1] == '\r' {
            end = end - 1;
        }
        let line = text.substring_char(pos, end);
        proof {
            assert(line@ =~= strip_cr(rest.take(k - pos)));
            if k < n {
                assert(lines_of(rest) == seq![strip_cr(rest.take(k - pos))] + lines_of(
                    rest.skip(k - pos + 1),
                ));
            } else {
                assert(rest.take(k - pos) =~= rest);
                assert(lines_of(rest) == seq![strip_cr(rest)]);
            }
            assert(lines_of(rest)[0] == line@);
        }
        let t = str_trim(line);
        if str_starts_with(t, "admin=") {
            assert("admin="@.len() == 6);
            let tn = t.unicode_len();
            let after = t.substring_char(6, tn);
            assert(after@ =~= t@.skip(6));
            let v = str_trim(after);
            if !v.is_empty() {
                assert(admin_in_line(line@) == Some(v@));
                return Some(String::from_str(v));
            }
        }
        proof {
            assert("admin="@.len() == 6);
            assert(admin_in_line(line@) is None);
            let ls = lines_of(rest);
            assert(admin_in_lines(ls) == admin_in_lines(ls.drop_first()));
            if k < n {
                assert(rest.skip(k - pos + 1) =~= text@.skip(k + 1));
                assert(ls.drop_first() =~= lines_of(text@.skip(k + 1)));
            } else {
                assert(ls.drop_first() =~= Seq::<Seq<char>>::empty());
                assert(text@.skip(n as int) =~= Seq::<char>::empty());
                assert(lines_of(text@.skip(n as int)) =~= Seq::<Seq<char>>::empty());
            }
        }
        pos = if k < n {
            k + 1
        } else {
            n
        };
        proof {
            assert(text@.skip(n as int) =~= Seq::<char>::empty());
        }
    }
    None
}

} // verus!

verus! {

/// What the shell's event loop is handed: a message from the page, the folder picker's answer,
/// a tray click, or the window's own close button.
#[derive(Debug, Clone, PartialEq, Eq)]
pub enum DesktopEvent {
    /// Absolute path of the chosen folder, or empty when the dialog was cancelled.
    FolderPicked(String),
    WinMinimize,
    WinMaximizeToggle,
    WinClose,
    WinDrag,
    /// Restore the window from the tray.
    TrayShow,
    /// End the process (tray menu, or the page's quit button).
    TrayQuit,
    /// The operating system asks the window to close.
    CloseRequested,
}

/// What a message from the page asks for: a folder dialog, or an event for the loop.
#[derive(Debug, Clone, PartialEq, Eq)]
pub enum IpcCommand {
    PickFolder,
    Post(DesktopEvent),
}

/// The command a page message names, the message trimmed; unknown messages name none.
pub open spec fn ipc_spec(body: Seq<char>) -> Option<IpcCommand> {
    let b = trim(body);
    if b == "pick_folder"@ {
        Some(IpcCommand::PickFolder)
    } else if b == "win_minimize"@ {
        Some(IpcCommand::Post(DesktopEvent::WinMinimize))
    } else if b == "win_maximize"@ {
        Some(IpcCommand::Post(DesktopEvent::WinMaximizeToggle))
    } else if b == "win_close"@ {
        Some(IpcCommand::Post(DesktopEvent::WinClose))
    } else if b == "win_quit"@ {
        Some(IpcCommand::Post(DesktopEvent::TrayQuit))
    } else if b == "win_drag"@ {
        Some(IpcCommand::Post(DesktopEvent::WinDrag))
    } else {
        None
    }
}

/// Reads a message that the page posts to the shell.
pub fn ipc_command(body: &str) -> (r: Option<IpcCommand>)
    ensures
        r == ipc_spec(body@),
{
    let b = str_trim(body);
    if str_eq(b, "pick_folder") {
        Some(IpcCommand::PickFolder)
    } else if str_eq(b, "win_minimize") {
        Some(IpcCommand::Post(DesktopEvent::WinMinimize))
    } else if str_eq(b, "win_maximize") {
        Some(IpcCommand::Post(DesktopEvent::WinMaximizeToggle))
    } else if str_eq(b, "win_close") {
        Some(IpcCommand::Post(DesktopEvent::WinClose))
    } else if str_eq(b, "win_quit") {
        Some(IpcCommand::Post(DesktopEvent::TrayQuit))
    } else if str_eq(b, "win_drag") {
        Some(IpcCommand::Post(DesktopEvent::WinDrag))
    } else {
        None
    }
}

/// What the loop does with the window for one event.
#[derive(Debug, Clone, PartialEq, Eq)]
pub enum ShellAction {
    /// Run this script in the page.
    EvalScript(String),
    Minimize,
    ToggleMaximize,
    /// Hide the window; the tray icon brings it back.
    Hide,
    /// Make the window visible, restored and focused.
    Show,
    Drag,
    /// Log this line and end the process (the HTTP server thread with it).
    Exit(String),
}

/// The script that hands a picked folder to the page.
pub open spec fn folder_script_spec(path: Seq<char>) -> Seq<char> {
    "window.__onNativeFolderPicked && window.__onNativeFolderPicked("@ + json_string_literal(path)
        + ");"@
}

/// The shell's answer to one event. Closing hides the window while a tray icon can bring it
/// back and ends the process otherwise; the quit command always ends it.
pub fn shell_step(ev: DesktopEvent, tray_ok: bool) -> (r: ShellAction)
    ensures
        match ev {
            DesktopEvent::FolderPicked(p) => r matches ShellAction::EvalScript(s) && s@
                == folder_script_spec(p@),
            DesktopEvent::WinMinimize => r == ShellAction::Minimize,
            DesktopEvent::WinMaximizeToggle => r == ShellAction::ToggleMaximize,
            DesktopEvent::WinClose => if tray_ok {
                r == ShellAction::Hide
            } else {
                r matches ShellAction::Exit(m) && m@ == "close without tray — process exiting"@
            },
            DesktopEvent::CloseRequested => if tray_ok {
                r == ShellAction::Hide
            } else {
                r matches ShellAction::Exit(m) && m@
                    == "CloseRequested without tray — process exiting"@
            },
            DesktopEvent::TrayShow => r == ShellAction::Show,
            DesktopEvent::TrayQuit => r matches ShellAction::Exit(m) && m@
                == "quit requested — process exiting"@,
            DesktopEvent::WinDrag => r == ShellAction::Drag,
        },
{
    match ev {
        DesktopEvent::FolderPicked(p) => {
            let mut s = String::from_str("window.__onNativeFolderPicked && window.__onNativeFolderPicked(");
            let q = json_quote(p.as_str());
            s.append(q.as_str());
            s.append(");");
            ShellAction::EvalScript(s)
        },
        DesktopEvent::WinMinimize => ShellAction::Minimize,
        DesktopEvent::WinMaximizeToggle => ShellAction::ToggleMaximize,
        DesktopEvent::WinClose => {
            if tray_ok {
                ShellAction::Hide
            } else {
                ShellAction::Exit(String::from_str("close without tray — process exiting"))
            }
        },
        DesktopEvent::CloseRequested => {
            if tray_ok {
                ShellAction::Hide
            } else {
                ShellAction::Exit(
                    String::from_str("CloseRequested without tray — process exiting"),
                )
            }
        },
        DesktopEvent::TrayShow => ShellAction::Show,
        DesktopEvent::TrayQuit => ShellAction::Exit(
            String::from_str("quit requested — process exiting"),
        ),
        DesktopEvent::WinDrag => ShellAction::Drag,
    }
}

/// The host the page talks to: a wildcard bind address is reached through loopback.
pub open spec fn browse_host_spec(host: Seq<char>) -> Seq<char> {
    if host == "0.0.0.0"@ || host == "::"@ {
        "127.0.0.1"@
    } else {
        host
    }
}

/// The API base URL the page is given, `http://<host>:<port>/v1`.
pub open spec fn api_base_spec(host: Seq<char>, port: u16) -> Seq<char> {
    "http://"@ + browse_host_spec(host) + ":"@ + decimal(port as nat) + "/v1"@
}

/// The API base URL for the page, for a server bound to `host:port`.
pub fn api_base(host: &str, port: u16) -> (r: String)
    ensures
        r@ == api_base_spec(host@, port),
{
    let mut s = String::from_str("http://");
    if str_eq(host, "0.0.0.0") || str_eq(host, "::") {
        s.append("127.0.0.1");
    } else {
        s.append(host);
    }
    s.append(":");
    push_decimal(&mut s, port as u32);
    s.append("/v1");
    s
}

/// The script run before the page loads: it stores the API base and token for the page and
/// marks the shell as native.
pub open spec fn init_script_spec(base: Seq<char>, token: Seq<char>) -> Seq<char> {
    "(function(){\n  try {\n    localStorage.setItem('req_engine_base', "@ + json_string_literal(
        base,
    ) + ");\n    localStorage.setItem('req_engine_token', "@ + json_string_literal(token)
        + ");\n    document.documentElement.setAttribute('data-shell','native');\n  } catch (e) {}\n})();\nwindow.__REQ_DESKTOP__=true;"@
}

/// The script run before the page loads.
pub fn desktop_init_script(base: &str, token: &str) -> (r: String)
    ensures
        r@ == init_script_spec(base@, token@),
{
    let mut s = String::from_str("(function(){\n  try {\n    localStorage.setItem('req_engine_base', ");
    let qb = json_quote(base);
    s.append(qb.as_str());
    s.append(");\n    localStorage.setItem('req_engine_token', ");
    let qt = json_quote(token);
    s.append(qt.as_str());
    s.append(
        ");\n    document.documentElement.setAttribute('data-shell','native');\n  } catch (e) {}\n})();\nwindow.__REQ_DESKTOP__=true;",
    );
    s
}

/// First position at or after `i` where `p` occurs in `s`, or -1.
pub open spec fn find_from(s: Seq<char>, p: Seq<char>, i: int) -> int
    decreases s.len() - i,
{
    if i < 0 || i + p.len() > s.len() {
        -1
    } else if occurs_at(s, p, i) {
        i
    } else if i + p.len() == s.len() {
        -1
    } else {
        find_from(s, p, i + 1)
    }
}

/// The markup put into the page: the boot object in a `<meta>` attribute and in a script.
pub open spec fn boot_inject_spec(boot_json: Seq<char>) -> Seq<char> {
    "<meta name=\"req-bootstrap\" content=\""@ + escape_attr(boot_json) + "\" />"@
        + "<script>window.__REQ_BOOTSTRAP__="@ + boot_json
        + ";window.__REQ_DESKTOP__=true;</script>"@
}

/// The page with the boot markup put just before its first `</head>`, or in front of it when
/// it has none.
pub open spec fn shell_html_spec(html: Seq<char>, boot_json: Seq<char>) -> Seq<char> {
    let k = find_from(html, "</head>"@, 0);
    if k >= 0 {
        html.take(k) + boot_inject_spec(boot_json) + html.skip(k)
    } else {
        boot_inject_spec(boot_json) + html
    }
}

/// `find_from` finds an occurrence exactly when there is one at or after `i`, and the first.
pub proof fn lemma_find_from(s: Seq<char>, p: Seq<char>, i: int)
    requires
        0 <= i,
    ensures
        find_from(s, p, i) == -1 || (i <= find_from(s, p, i) && occurs_at(
            s,
            p,
            find_from(s, p, i),
        )),
        forall|j: int| i <= j && (find_from(s, p, i) == -1 || j < find_from(s, p, i)) ==> !occurs_at(s, p, j),
    decreases s.len() - i,
{
    if i + p.len() > s.len() {
    } else if occurs_at(s, p, i) {
    } else if i + p.len() == s.len() {
    } else {
        lemma_find_from(s, p, i + 1);
        assert forall|j: int| i <= j && (find_from(s, p, i) == -1 || j < find_from(s, p, i)) implies !occurs_at(s, p, j) by {
            if j > i {
            }
        }
    }
}

/// The first `</head>` is found exactly when the page contains one.
pub proof fn lemma_head_found_iff_contained(html: Seq<char>)
    ensures
        (find_from(html, "</head>"@, 0) >= 0) == has_substr(html, "</head>"@),
{
    lemma_find_from(html, "</head>"@, 0);
    if has_substr(html, "</head>"@) {
        let j = choose|j: int| occurs_at(html, "</head>"@, j);
        assert(occurs_at(html, "</head>"@, j));
    }
}

/// Whether `p` occurs in `cs` at `i`.
fn occurs_at_exec(cs: &Vec<char>, p: &Vec<char>, i: usize) -> (r: bool)
    ensures
        r == occurs_at(cs@, p@, i as int),
{
    if i > cs.len() || p.len() > cs.len() - i {
        return false;
    }
    let mut k: usize = 0;
    while k < p.len()
        invariant
            i + p@.len() <= cs@.len(),
            k <= p@.len(),
            cs@.len() <= usize::MAX,
            forall|j: int| 0 <= j < k ==> cs@[i + j] == p@[j],
        decreases p.len() - k,
    {
        assert(i + k < cs@.len());
        if cs[i + k] != p[k] {
            assert(cs@.subrange(i as int, i + p@.len())[k as int] != p@[k as int]);
            return false;
        }
        k += 1;
    }
    assert(cs@.subrange(i as int, i + p@.len()) =~= p@);
    true
}

/// The shell page with the boot object put in.
pub fn inject_bootstrap(html: &str, boot_json: &str) -> (r: String)
    ensures
        r@ == shell_html_spec(html@, boot_json@),
        (find_from(html@, "</head>"@, 0) >= 0) == has_substr(html@, "</head>"@),
{
    proof {
        reveal_strlit("</head>");
        lemma_head_found_iff_contained(html@);
    }
    let cs = crate::text::chars_of(html);
    let pat = crate::text::chars_of("</head>");
    let n = cs.len();
    let mut inject = String::from_str("<meta name=\"req-bootstrap\" content=\"");
    let esc = html_escape_attr(boot_json);
    inject.append(esc.as_str());
    inject.append("\" />");
    inject.append("<script>window.__REQ_BOOTSTRAP__=");
    inject.append(boot_json);
    inject.append(";window.__REQ_DESKTOP__=true;</script>");
    assert(inject@ =~= boot_inject_spec(boot_json@));
    let mut i: usize = 0;
    while pat.len() <= n - i
        invariant
            cs@ == html@,
            pat@ == "</head>"@,
            pat@.len() == 7,
            inject@ == boot_inject_spec(boot_json@),
            n == cs@.len(),
            i <= n,
            find_from(html@, "</head>"@, 0) == find_from(html@, "</head>"@, i as int),
        decreases n - i,
    {
        if occurs_at_exec(&cs, &pat, i) {
            let head = html.substring_char(0, i);
            let tail = html.substring_char(i, n);
            let mut out = String::from_str(head);
            out.append(inject.as_str());
            out.append(tail);
            assert(head@ =~= html@.take(i as int));
            assert(tail@ =~= html@.skip(i as int));
            assert(out@ =~= html@.take(i as int) + boot_inject_spec(boot_json@) + html@.skip(
                i as int,
            ));
            return out;
        }
        i += 1;
    }
    assert(find_from(html@, "</head>"@, i as int) == -1);
    inject.append(html);
    inject
}

/// The ports tried for the server: `preferred` and the twenty after it, capped at 65535.
pub open spec fn port_at(preferred: u16, offset: int) -> u16 {
    if preferred + offset <= 65535 {
        (preferred + offset) as u16
    } else {
        65535
    }
}

/// The ports tried for the server, in order.
pub fn port_candidates(preferred: u16) -> (r: Vec<u16>)
    ensures
        r@.len() == 21,
        forall|i: int| 0 <= i < 21 ==> r@[i] == port_at(preferred, i),
{
    let mut v: Vec<u16> = Vec::new();
    let mut offset: u16 = 0;
    while offset < 21
        invariant
            offset <= 21,
            v@.len() == offset,
            forall|i: int| 0 <= i < offset ==> v@[i] == port_at(preferred, i),
        decreases 21 - offset,
    {
        v.push(preferred.saturating_add(offset));
        offset += 1;
    }
    v
}

/// The error when none of the candidate ports could be bound.
pub open spec fn no_free_port_spec(preferred: u16, last_err: Seq<char>) -> Seq<char> {
    "no free port in "@ + decimal(preferred as nat) + ".."@ + decimal((preferred + 20) as nat)
        + " (last error: "@ + last_err + ")"@
}

/// The error when none of the candidate ports could be bound.
pub fn no_free_port_message(preferred: u16, last_err: &str) -> (r: String)
    requires
        preferred + 20 <= 65535,
    ensures
        r@ == no_free_port_spec(preferred, last_err@),
{
    let mut s = String::from_str("no free port in ");
    push_decimal(&mut s, preferred as u32);
    s.append("..");
    push_decimal(&mut s, preferred as u32 + 20);
    s.append(" (last error: ");
    s.append(last_err);
    s.append(")");
    s
}

/// The request that asks the local server for its health.
pub open spec fn health_request_spec(host: Seq<char>) -> Seq<char> {
    "GET /v1/health HTTP/1.0\r\nHost: "@ + host + "\r\n\r\n"@
}

/// The request that asks the local server for its health.
pub fn health_request(host: &str) -> (r: String)
    ensures
        r@ == health_request_spec(host@),
{
    let mut s = String::from_str("GET /v1/health HTTP/1.0\r\nHost: ");
    s.append(host);
    s.append("\r\n\r\n");
    s
}

/// Whether a reply to the health request came from this server.
pub fn is_health_reply(reply: &str) -> (r: bool)
    ensures
        r == has_substr(reply@, "req-engine"@),
{
    str_contains(reply, "req-engine")
}

/// Whether pixel `(x, y)` of the tray icon lies on the white disc.
pub open spec fn in_disc(x: int, y: int) -> bool {
    (x - 16) * (x - 16) + (y - 16) * (y - 16) <= 196
}

/// Byte `k` (red, green, blue, alpha) of pixel `(x, y)` of the tray icon: a white disc on blue.
pub open spec fn icon_byte(x: int, y: int, k: int) -> u8 {
    if k == 3 || in_disc(x, y) {
        255
    } else if k == 0 {
        0
    } else if k == 1 {
        95
    } else {
        184
    }
}

/// The tray icon, 32 by 32 RGBA pixels row by row.
pub fn tray_icon_rgba() -> (r: Vec<u8>)
    ensures
        r@.len() == 4096,
        forall|x: int, y: int, k: int|
            0 <= x < 32 && 0 <= y < 32 && 0 <= k < 4 ==> #[trigger] r@[4 * (32 * y + x) + k]
                == icon_byte(x, y, k),
{
    let mut out: Vec<u8> = Vec::new();
    let mut y: i32 = 0;
    while y < 32
        invariant
            0 <= y <= 32,
            out@.len() == 128 * (y as int),
            forall|x2: int, y2: int, k: int|
                0 <= x2 < 32 && 0 <= y2 < 32 && 0 <= k < 4 && 32 * y2 + x2 < 32 * y ==> #[trigger] out@[4 * (32 * y2 + x2) + k]
                    == icon_byte(x2, y2, k),
        decreases 32 - y,
    {
        let mut x: i32 = 0;
        assert(out@.len() == 4 * (32 * (y as int) + (x as int)));
        while x < 32
            invariant
                0 <= y < 32,
                0 <= x <= 32,
                out@.len() == 4 * (32 * y + x),
                forall|x2: int, y2: int, k: int|
                    0 <= x2 < 32 && 0 <= y2 < 32 && 0 <= k < 4 && 32 * y2 + x2 < 32 * y + x ==> #[trigger] out@[4 * (32 * y2 + x2) + k]
                        == icon_byte(x2, y2, k),
            decreases 32 - x,
        {
            let cx: i32 = x - 16;
            let cy: i32 = y - 16;
            assert(cx * cx <= 256 && cy * cy <= 256 && 0 <= cx * cx && 0 <= cy * cy) by (nonlinear_arith)
                requires
                    -16 <= cx <= 16,
                    -16 <= cy <= 16,
            ;
            let r2: i32 = cx * cx + cy * cy;
            let ghost base: int = out@.len() as int;
            let ghost old_out = out@;
            if r2 <= 14 * 14 {
                out.push(255u8);
                out.push(255u8);
                out.push(255u8);
            } else {
                out.push(0u8);
                out.push(95u8);
                out.push(184u8);
            }
            out.push(255u8);
            proof {
                assert(in_disc(x as int, y as int) == (r2 <= 196));
                assert forall|x2: int, y2: int, k: int|
                    0 <= x2 < 32 && 0 <= y2 < 32 && 0 <= k < 4 && 32 * y2 + x2 < 32 * y + x + 1 implies #[trigger] out@[4 * (32 * y2 + x2) + k]
                        == icon_byte(x2, y2, k) by {
                    if 32 * y2 + x2 < 32 * y + x {
                        assert(out@[4 * (32 * y2 + x2) + k] == old_out[4 * (32 * y2 + x2) + k]);
                    } else {
                        assert(32 * y2 + x2 == 32 * y + x);
                        assert(y2 == y as int && x2 == x as int);
                    }
                }
            }
            x += 1;
        }
        y += 1;
    }
    out
}

} // verus!

verus! {

/// No line feed in `s`.
pub open spec fn no_lf(s: Seq<char>) -> bool {
    forall|i: int| 0 <= i < s.len() ==> s[i] != '\n'
}

proof fn lemma_no_lf_concat(a: Seq<char>, b: Seq<char>)
    requires
        no_lf(a),
        no_lf(b),
    ensures
        no_lf(a + b),
{
    assert forall|i: int| 0 <= i < (a + b).len() implies (a + b)[i] != '\n' by {
        if i < a.len() {
            assert((a + b)[i] == a[i]);
        } else {
            assert((a + b)[i] == b[i - a.len()]);
        }
    }
}

proof fn lemma_line_end_concat(l: Seq<char>, rest: Seq<char>)
    requires
        no_lf(l),
    ensures
        line_end(l + "\n"@ + rest) == l.len(),
    decreases l.len(),
{
    reveal_strlit("\n");
    let s = l + "\n"@ + rest;
    if l.len() == 0 {
        assert(s[0] == '\n');
    } else {
        assert(s[0] == l[0]);
        assert(s.drop_first() =~= l.drop_first() + "\n"@ + rest);
        assert(no_lf(l.drop_first())) by {
            assert forall|i: int| 0 <= i < l.drop_first().len() implies l.drop_first()[i] != '\n' by {
                assert(l.drop_first()[i] == l[i + 1]);
            }
        }
        lemma_line_end_concat(l.drop_first(), rest);
    }
}

proof fn lemma_lines_of_cons(l: Seq<char>, rest: Seq<char>)
    requires
        no_lf(l),
    ensures
        lines_of(l + "\n"@ + rest) == seq![strip_cr(l)] + lines_of(rest),
{
    reveal_strlit("\n");
    let s = l + "\n"@ + rest;
    lemma_line_end_concat(l, rest);
    assert(s.take(l.len() as int) =~= l);
    assert(s.skip(l.len() as int + 1) =~= rest);
}

proof fn lemma_join_front(ls: Seq<Seq<char>>)
    requires
        ls.len() > 0,
    ensures
        join_lines(ls) == ls[0] + "\n"@ + join_lines(ls.drop_first()),
    decreases ls.len(),
{
    if ls.len() == 1 {
        lemma_join_one(ls[0]);
        assert(ls =~= seq![ls[0]]);
        assert(ls.drop_first() =~= Seq::<Seq<char>>::empty());
        assert(ls[0] + "\n"@ + join_lines(ls.drop_first()) =~= ls[0] + "\n"@);
    } else {
        lemma_join_front(ls.drop_last());
        assert(ls.drop_last().drop_first() =~= ls.drop_first().drop_last());
        assert(ls.drop_first().last() == ls.last());
        assert(ls.drop_last()[0] == ls[0]);
        assert(ls[0] + "\n"@ + join_lines(ls.drop_first()) =~= ls[0] + "\n"@ + join_lines(
            ls.drop_last().drop_first(),
        ) + ls.last() + "\n"@);
    }
}

/// Reading back written lines: each line comes back, without a trailing carriage return.
proof fn lemma_lines_of_join(ls: Seq<Seq<char>>)
    requires
        forall|i: int| 0 <= i < ls.len() ==> no_lf(#[trigger] ls[i]),
    ensures
        lines_of(join_lines(ls)) == ls.map_values(|l: Seq<char>| strip_cr(l)),
    decreases ls.len(),
{
    if ls.len() == 0 {
        assert(join_lines(ls) =~= Seq::<char>::empty());
        assert(ls.map_values(|l: Seq<char>| strip_cr(l)) =~= Seq::<Seq<char>>::empty());
    } else {
        lemma_join_front(ls);
        assert(no_lf(ls[0]));
        lemma_lines_of_cons(ls[0], join_lines(ls.drop_first()));
        assert forall|i: int| 0 <= i < ls.drop_first().len() implies no_lf(
            #[trigger] ls.drop_first()[i],
        ) by {
            assert(ls.drop_first()[i] == ls[i + 1]);
        }
        lemma_lines_of_join(ls.drop_first());
        assert(ls.map_values(|l: Seq<char>| strip_cr(l)) =~= seq![strip_cr(ls[0])]
            + ls.drop_first().map_values(|l: Seq<char>| strip_cr(l)));
    }
}

proof fn lemma_admin_in_lines_concat(a: Seq<Seq<char>>, b: Seq<Seq<char>>)
    ensures
        admin_in_lines(a + b) == match admin_in_lines(a) {
            Some(t) => Some(t),
            None => admin_in_lines(b),
        },
    decreases a.len(),
{
    if a.len() == 0 {
        assert(a + b =~= b);
    } else {
        assert((a + b)[0] == a[0]);
        assert((a + b).drop_first() =~= a.drop_first() + b);
        lemma_admin_in_lines_concat(a.drop_first(), b);
    }
}

/// A line that is empty, or starts with neither whitespace nor `a`, gives no admin token.
proof fn lemma_no_admin_line(l: Seq<char>)
    requires
        l.len() == 0 || (!is_ws(l[0]) && l[0] != 'a'),
    ensures
        admin_in_line(strip_cr(l)) is None,
{
    reveal_strlit("admin=");
    let c = strip_cr(l);
    if c.len() > 0 {
        assert(c[0] == l[0]);
        lemma_trim_first(c);
        assert(trim(c)[0] != "admin="@[0]);
        if trim(c).len() >= 6 {
            assert(trim(c).subrange(0, 6)[0] == trim(c)[0]);
            assert(trim(c).subrange(0, 6) != "admin="@);
        }
    } else {
        assert(trim(c) =~= c);
    }
}

/// The line `admin=<p>` gives `p` when `p` has no whitespace at either end.
proof fn lemma_admin_line(p: Seq<char>)
    requires
        p.len() > 0,
        !is_ws(p[0]),
        !is_ws(p.last()),
    ensures
        admin_in_line(strip_cr("admin="@ + p)) == Some(p),
{
    reveal_strlit("admin=");
    let l = "admin="@ + p;
    assert(l.last() == p.last());
    assert(strip_cr(l) == l);
    assert(l[0] == 'a');
    lemma_trim_keeps(l);
    lemma_trim_keeps(p);
    assert(l.subrange(0, 6) =~= "admin="@);
    assert(l.skip(6) =~= p);
}

proof fn lemma_entries_concat(a: Seq<GeneratedTokenV>, b: Seq<GeneratedTokenV>, annotated: bool)
    ensures
        token_entries(a + b, annotated) == token_entries(a, annotated) + token_entries(b, annotated),
    decreases b.len(),
{
    if b.len() == 0 {
        assert(a + b =~= a);
        assert(token_entries(a, annotated) + token_entries(b, annotated) =~= token_entries(a, annotated));
    } else {
        lemma_entries_concat(a, b.drop_last(), annotated);
        assert((a + b).drop_last() =~= a + b.drop_last());
        assert((a + b).last() == b.last());
        assert(token_entries(a, annotated) + token_entries(b, annotated) =~= token_entries(a, annotated)
            + token_entries(b.drop_last(), annotated) + token_entry(b.last(), annotated));
    }
}

/// The comment line of an annotated entry gives no admin token.
proof fn lemma_comment_line(g: GeneratedTokenV)
    ensures
        admin_in_line(strip_cr("# role="@ + role_name(g.role) + " name="@ + g.name)) is None,
{
    reveal_strlit("# role=");
    let l = "# role="@ + role_name(g.role) + " name="@ + g.name;
    assert(l[0] == '#');
    lemma_no_admin_line(l);
}

/// Entries of tokens none of which is an admin's give no admin token.
proof fn lemma_entries_no_admin(gs: Seq<GeneratedTokenV>, annotated: bool)
    requires
        forall|j: int| 0 <= j < gs.len() ==> (#[trigger] gs[j]).role != Role::Admin,
    ensures
        admin_in_lines(token_entries(gs, annotated).map_values(|l: Seq<char>| strip_cr(l))) is None,
    decreases gs.len(),
{
    if gs.len() > 0 {
        let g = gs.last();
        assert(gs[gs.len() - 1] == g);
        lemma_entries_no_admin(gs.drop_last(), annotated);
        let a = token_entries(gs.drop_last(), annotated);
        let e = token_entry(g, annotated);
        assert((a + e).map_values(|l: Seq<char>| strip_cr(l)) =~= a.map_values(
            |l: Seq<char>| strip_cr(l),
        ) + e.map_values(|l: Seq<char>| strip_cr(l)));
        lemma_admin_in_lines_concat(
            a.map_values(|l: Seq<char>| strip_cr(l)),
            e.map_values(|l: Seq<char>| strip_cr(l)),
        );
        reveal_strlit("planner");
        reveal_strlit("foreman");
        let t = token_line(g);
        assert(t[0] == role_name(g.role)[0]);
        lemma_no_admin_line(t);
        lemma_comment_line(g);
        let em = e.map_values(|l: Seq<char>| strip_cr(l));
        assert forall|i: int| 0 <= i < em.len() implies admin_in_line(#[trigger] em[i]) is None by {
            assert(em[i] == strip_cr(e[i]));
        }
        lemma_no_admin_from(em);
    }
}

/// What `tokens.txt` gives back: reading the admin token from the text written for a list of
/// tokens yields the plaintext of its first admin token, when nothing written into the file
/// breaks a line and that plaintext has no whitespace at either end.
pub proof fn law_tokens_file_gives_admin_back(
    gs: Seq<GeneratedTokenV>,
    at: Seq<char>,
    annotated: bool,
    k: int,
)
    requires
        0 <= k < gs.len(),
        gs[k].role == Role::Admin,
        forall|j: int| 0 <= j < k ==> (#[trigger] gs[j]).role != Role::Admin,
        no_lf(at),
        forall|j: int| 0 <= j < gs.len() ==> no_lf((#[trigger] gs[j]).name) && no_lf(gs[j].plaintext),
        gs[k].plaintext.len() > 0,
        !is_ws(gs[k].plaintext[0]),
        !is_ws(gs[k].plaintext.last()),
    ensures
        admin_in_lines(lines_of(tokens_file_spec(gs, at, annotated))) == Some(gs[k].plaintext),
{
    reveal_strlit("# req-engine bootstrap tokens — treat as secrets");
    reveal_strlit("# Generated at ");
    reveal_strlit("# Hash is stored in DB; plaintext only here / printed once");
    reveal_strlit("# role=");
    reveal_strlit(" name=");
    reveal_strlit("=");
    reveal_strlit("admin");
    reveal_strlit("planner");
    reveal_strlit("foreman");
    let h = tokens_header(at, annotated);
    let ents = token_entries(gs, annotated);
    let all = h + ents;
    // Nothing written breaks a line.
    assert forall|j: int| 0 <= j < gs.len() implies no_lf(token_line(#[trigger] gs[j])) && no_lf(
        "# role="@ + role_name(gs[j].role) + " name="@ + gs[j].name,
    ) by {
        let g = gs[j];
        assert(no_lf(role_name(g.role)));
        assert(no_lf("="@));
        assert(no_lf("# role="@));
        assert(no_lf(" name="@));
        lemma_no_lf_concat(role_name(g.role), "="@);
        lemma_no_lf_concat(role_name(g.role) + "="@, g.plaintext);
        lemma_no_lf_concat("# role="@, role_name(g.role));
        lemma_no_lf_concat("# role="@ + role_name(g.role), " name="@);
        lemma_no_lf_concat("# role="@ + role_name(g.role) + " name="@, g.name);
    }
    lemma_entries_lines_no_lf(gs, annotated);
    assert(no_lf("# Generated at "@));
    lemma_no_lf_concat("# Generated at "@, at);
    assert forall|i: int| 0 <= i < all.len() implies no_lf(#[trigger] all[i]) by {
        if i < h.len() {
            assert(all[i] == h[i]);
        } else {
            assert(all[i] == ents[i - h.len()]);
        }
    }
    lemma_lines_of_join(all);
    let strip = |l: Seq<char>| strip_cr(l);
    assert(all.map_values(strip) =~= h.map_values(strip) + ents.map_values(strip));
    lemma_admin_in_lines_concat(h.map_values(strip), ents.map_values(strip));
    // The header gives no admin token.
    assert forall|i: int| 0 <= i < h.len() implies admin_in_line(strip_cr(#[trigger] h[i])) is None by {
        let l = h[i];
        if l.len() > 0 {
            assert(l[0] == '#');
        }
        lemma_no_admin_line(l);
    }
    lemma_no_admin_from(h.map_values(strip));
    // Entries before the first admin token give none; the admin token's entry gives it.
    let before = gs.take(k);
    let rest = gs.skip(k + 1);
    assert(gs =~= before + seq![gs[k]] + rest);
    lemma_entries_concat(before + seq![gs[k]], rest, annotated);
    lemma_entries_concat(before, seq![gs[k]], annotated);
    assert(token_entries(seq![gs[k]], annotated) =~= token_entry(gs[k], annotated)) by {
        assert(seq![gs[k]].drop_last() =~= Seq::<GeneratedTokenV>::empty());
        assert(token_entries(Seq::<GeneratedTokenV>::empty(), annotated) =~= Seq::<Seq<char>>::empty());
    }
    let ea = token_entries(before, annotated);
    let ek = token_entry(gs[k], annotated);
    let er = token_entries(rest, annotated);
    assert(ents =~= ea + ek + er);
    assert(ents.map_values(strip) =~= ea.map_values(strip) + ek.map_values(strip) + er.map_values(
        strip,
    ));
    assert forall|j: int| 0 <= j < before.len() implies (#[trigger] before[j]).role != Role::Admin by {
        assert(before[j] == gs[j]);
    }
    lemma_entries_no_admin(before, annotated);
    lemma_admin_in_lines_concat(ea.map_values(strip), ek.map_values(strip) + er.map_values(strip));
    assert(ea.map_values(strip) + ek.map_values(strip) + er.map_values(strip) =~= ea.map_values(strip)
        + (ek.map_values(strip) + er.map_values(strip)));
    lemma_admin_in_lines_concat(ek.map_values(strip), er.map_values(strip));
    let p = gs[k].plaintext;
    assert(token_line(gs[k]) =~= "admin="@ + p) by {
        assert("admin"@ + "="@ =~= "admin="@) by {
            reveal_strlit("admin=");
        }
    }
    lemma_admin_line(p);
    let ekm = ek.map_values(strip);
    if annotated {
        lemma_comment_line(gs[k]);
        assert(ekm[0] == strip_cr(ek[0]));
        assert(ekm.drop_first() =~= seq![strip_cr(token_line(gs[k]))]);
        assert(admin_in_lines(ekm.drop_first()) == Some(p)) by {
            let d = ekm.drop_first();
            assert(d[0] == strip_cr(token_line(gs[k])));
        }
    } else {
        assert(ekm[0] == strip_cr(token_line(gs[k])));
    }
    assert(admin_in_lines(ekm) == Some(p));
}

/// The lines of token entries break no line when no name or plaintext does.
proof fn lemma_entries_lines_no_lf(gs: Seq<GeneratedTokenV>, annotated: bool)
    requires
        forall|j: int| 0 <= j < gs.len() ==> no_lf(token_line(#[trigger] gs[j])) && no_lf(
            "# role="@ + role_name(gs[j].role) + " name="@ + gs[j].name,
        ),
    ensures
        forall|i: int| 0 <= i < token_entries(gs, annotated).len() ==> no_lf(
            #[trigger] token_entries(gs, annotated)[i],
        ),
    decreases gs.len(),
{
    if gs.len() > 0 {
        let g = gs.last();
        assert(gs[gs.len() - 1] == g);
        assert forall|j: int| 0 <= j < gs.drop_last().len() implies no_lf(
            token_line(#[trigger] gs.drop_last()[j]),
        ) && no_lf("# role="@ + role_name(gs.drop_last()[j].role) + " name="@ + gs.drop_last()[j].name) by {
            assert(gs.drop_last()[j] == gs[j]);
        }
        lemma_entries_lines_no_lf(gs.drop_last(), annotated);
        let a = token_entries(gs.drop_last(), annotated);
        let e = token_entry(g, annotated);
        assert forall|i: int| 0 <= i < (a + e).len() implies no_lf(#[trigger] (a + e)[i]) by {
            if i < a.len() {
                assert((a + e)[i] == a[i]);
            } else {
                assert((a + e)[i] == e[i - a.len()]);
            }
        }
    }
}

/// Lines none of which gives an admin token give none together.
proof fn lemma_no_admin_from(ls: Seq<Seq<char>>)
    requires
        forall|i: int| 0 <= i < ls.len() ==> admin_in_line(#[trigger] ls[i]) is None,
    ensures
        admin_in_lines(ls) is None,
    decreases ls.len(),
{
    if ls.len() > 0 {
        assert(admin_in_line(ls[0]) is None);
        assert forall|i: int| 0 <= i < ls.drop_first().len() implies admin_in_line(
            #[trigger] ls.drop_first()[i],
        ) is None by {
            assert(ls.drop_first()[i] == ls[i + 1]);
        }
        lemma_no_admin_from(ls.drop_first());
    }
}

} // verus!

verus! {

/// A token text (`req_` and hex) breaks no line and has no whitespace at either end.
proof fn lemma_token_text_shape(x: Seq<u8>)
    requires
        x.len() > 0,
    ensures
        no_lf(token_text(x)),
        token_text(x).len() > 0,
        !is_ws(token_text(x)[0]),
        !is_ws(token_text(x).last()),
{
    reveal_strlit("req_");
    let t = token_text(x);
    let h = hex_lower(x);
    assert forall|i: int| 0 <= i < t.len() implies t[i] != '\n' by {
        if i >= 4 {
            let j = i - 4;
            assert(t[i] == h[j]);
            if j % 2 == 0 {
                assert(h[j] == hex_digit(x[j / 2] / 16));
            } else {
                assert(h[j] == hex_digit(x[j / 2] % 16));
            }
        }
    }
    let n = x.len();
    assert(t.last() == h[2 * n - 1]);
    assert(h[2 * n - 1] == hex_digit(x[n - 1] % 16));
}

/// After init, the text written to `tokens.txt` for the freshly issued bootstrap tokens gives
/// back the admin token that was issued.
pub proof fn law_bootstrap_file_gives_admin_back(
    b: BoardV,
    x: Seq<u8>,
    y: Seq<u8>,
    z: Seq<u8>,
    now: Micros,
    at: Seq<char>,
    annotated: bool,
)
    requires
        x.len() > 0,
        y.len() > 0,
        z.len() > 0,
        bootstrap_all(b, token_text(x), token_text(y), token_text(z), now).1 is Ok,
        no_lf(at),
    ensures
        admin_in_lines(
            lines_of(
                tokens_file_spec(
                    bootstrap_all(b, token_text(x), token_text(y), token_text(z), now).1->Ok_0,
                    at,
                    annotated,
                ),
            ),
        ) == Some(token_text(x)),
{
    reveal_strlit("admin");
    reveal_strlit("planner");
    reveal_strlit("foreman");
    let plains = seq![token_text(x), token_text(y), token_text(z)];
    let s1 = bootstrap_spec(b, plains, now, 1);
    let s2 = bootstrap_spec(b, plains, now, 2);
    let s3 = bootstrap_spec(b, plains, now, 3);
    assert(bootstrap_spec(b, plains, now, 0) == (b, Ok::<Seq<GeneratedTokenV>, TokenErrorV>(Seq::empty())));
    assert(s1.1 is Ok);
    assert(s2.1 is Ok);
    let gs = s3.1->Ok_0;
    assert(gs.len() == 3);
    assert(gs[0].role == Role::Admin);
    assert(gs[0].plaintext == token_text(x));
    lemma_token_text_shape(x);
    lemma_token_text_shape(y);
    lemma_token_text_shape(z);
    assert forall|j: int| 0 <= j < gs.len() implies no_lf((#[trigger] gs[j]).name) && no_lf(
        gs[j].plaintext,
    ) by {
        assert(gs[j].name == role_name(gs[j].role));
        assert(gs[j].plaintext == plains[j]);
    }
    law_tokens_file_gives_admin_back(gs, at, annotated, 0);
}

} // verus!
