//! Map MCP `clientInfo.name` to a small known-host table, else an identicon.
//! Names are self-reported; this is display only, not auth.

use vstd::prelude::*;
use vstd::string::*;
use vstd::utf8::encode_utf8;

use crate::services::board::{lemma_filter_take_all, lemma_filter_take_step, lemma_filter_take_zero};
use crate::text::{
    ascii_alnum, ascii_upper, char_is_alphanumeric, chars_of, has_substr, is_ascii_alnum,
    lower_seq, owned, push_char, str_contains, str_trim, to_ascii_lower, to_ascii_upper, trim,
    unicode_alnum,
};

verus! {

#[derive(Debug, PartialEq, Eq)]
pub struct OccupantFace {
    /// Stable key: `cursor` | `grok` | … | `unknown`
    pub key: String,
    /// Human label shown on the seat.
    pub label: String,
    pub initials: String,
    pub hue: u16,
    pub known: bool,
}

pub struct OccupantFaceV {
    pub key: Seq<char>,
    pub label: Seq<char>,
    pub initials: Seq<char>,
    pub hue: u16,
    pub known: bool,
}

impl DeepView for OccupantFace {
    type V = OccupantFaceV;

    open spec fn deep_view(&self) -> OccupantFaceV {
        OccupantFaceV {
            key: self.key@,
            label: self.label@,
            initials: self.initials@,
            hue: self.hue,
            known: self.known,
        }
    }
}

impl OccupantFace {
    /// Field-by-field copy.
    pub fn copy(&self) -> (r: OccupantFace)
        ensures
            r == *self,
    {
        OccupantFace {
            key: self.key.clone(),
            label: self.label.clone(),
            initials: self.initials.clone(),
            hue: self.hue,
            known: self.known,
        }
    }
}

/// Some needle occurs in `c`.
pub open spec fn any_needle(c: Seq<char>, needles: Seq<Seq<char>>) -> bool {
    exists|k: int| 0 <= k < needles.len() && has_substr(c, #[trigger] needles[k])
}

/// Known hosts, in matching order: needles, key, label, hue.
pub open spec fn known_hosts() -> Seq<(Seq<Seq<char>>, Seq<char>, Seq<char>, u16)> {
    seq![
        (seq!["cursor"@], "cursor"@, "Cursor"@, 220u16),
        (seq!["grokbuild"@, "grok"@, "xiaigrok"@], "grok"@, "Grok"@, 30u16),
        (seq!["openaicodex"@, "codex"@], "codex"@, "Codex"@, 160u16),
        (seq!["kimicode"@, "moonshot"@, "kimi"@], "kimi"@, "Kimi"@, 280u16),
        (seq!["googleantigravity"@, "antigravity"@], "antigravity"@, "Antigravity"@, 200u16),
        (seq!["windsurf"@, "codeium"@], "windsurf"@, "Windsurf"@, 190u16),
        (seq!["visualstudiocode"@, "githubcopilot"@, "vscode"@, "copilot"@], "vscode"@, "VS Code"@, 210u16),
        (seq!["trae"@], "trae"@, "Trae"@, 250u16),
        (seq!["cline"@], "cline"@, "Cline"@, 145u16),
        (seq!["continue"@], "continue"@, "Continue"@, 265u16),
        (seq!["zed"@], "zed"@, "Zed"@, 45u16),
    ]
}

/// First known host (from position `from` on) with a needle in `c`.
pub open spec fn known_from(c: Seq<char>, from: int) -> Option<int>
    decreases known_hosts().len() - from,
{
    if from < 0 || from >= known_hosts().len() {
        None
    } else if any_needle(c, known_hosts()[from].0) {
        Some(from)
    } else {
        known_from(c, from + 1)
    }
}

/// The test that keeps ASCII letters and digits.
pub open spec fn keeps_ascii_alnum() -> spec_fn(char) -> bool {
    |c: char| is_ascii_alnum(c)
}

/// `name` and `title` (each trimmed, joined by a space) reduced to lower-case ASCII letters
/// and digits.
pub open spec fn compact_spec(name: Seq<char>, title: Seq<char>) -> Seq<char> {
    lower_seq((trim(name) + " "@ + trim(title)).filter(keeps_ascii_alnum()))
}

/// First chars of the maximal alphanumeric runs of `s`.
pub open spec fn run_starts(s: Seq<char>) -> Seq<char>
    decreases s.len(),
{
    if s.len() == 0 {
        Seq::empty()
    } else {
        let pre = run_starts(s.drop_last());
        let n = s.len() - 1;
        if unicode_alnum(s[n]) && (n == 0 || !unicode_alnum(s[n - 1])) {
            pre.push(s[n])
        } else {
            pre
        }
    }
}

/// Alphanumeric chars of `s`, in order.
pub open spec fn alnum_chars(s: Seq<char>) -> Seq<char>
    decreases s.len(),
{
    if s.len() == 0 {
        Seq::empty()
    } else {
        let pre = alnum_chars(s.drop_last());
        if unicode_alnum(s.last()) {
            pre.push(s.last())
        } else {
            pre
        }
    }
}

/// Two-letter badge: the first letters of the first two words, else the first two letters,
/// else `MCP`; ASCII upper-cased.
pub open spec fn initials_spec(s: Seq<char>) -> Seq<char> {
    let parts = run_starts(s);
    let letters = alnum_chars(s);
    if parts.len() >= 2 {
        seq![ascii_upper(parts[0]), ascii_upper(parts[1])]
    } else if letters.len() == 0 {
        "MCP"@
    } else if letters.len() == 1 {
        seq![ascii_upper(letters[0])]
    } else {
        seq![ascii_upper(letters[0]), ascii_upper(letters[1])]
    }
}

/// FNV-1a (32-bit) over a byte string.
pub open spec fn fnv1a(bytes: Seq<u8>) -> u32
    decreases bytes.len(),
{
    if bytes.len() == 0 {
        2166136261u32
    } else {
        vstd::wrapping::u32_specs::wrapping_mul(
            fnv1a(bytes.drop_last()) ^ (bytes.last() as u32),
            16777619u32,
        )
    }
}

/// Identicon hue of a text: FNV-1a of its UTF-8 bytes, modulo 360.
pub open spec fn hue_spec(s: Seq<char>) -> u16 {
    (fnv1a(encode_utf8(s)) % 360) as u16
}

/// A missing title reads as the empty text.
pub open spec fn spec_title(title: Option<Seq<char>>) -> Seq<char> {
    match title {
        Some(x) => x,
        None => Seq::empty(),
    }
}

/// The face shown for a self-reported client name and optional title.
pub open spec fn recognize_spec(name: Seq<char>, title: Option<Seq<char>>) -> OccupantFaceV {
    let t = spec_title(title);
    let c = compact_spec(name, t);
    match known_from(c, 0) {
        Some(k) => OccupantFaceV {
            key: known_hosts()[k].1,
            label: known_hosts()[k].2,
            initials: initials_spec(known_hosts()[k].2),
            hue: known_hosts()[k].3,
            known: true,
        },
        None => {
            let label = if trim(t).len() > 0 {
                trim(t)
            } else if trim(name).len() > 0 {
                trim(name)
            } else {
                "MCP"@
            };
            OccupantFaceV {
                key: "unknown"@,
                label: label,
                initials: initials_spec(label),
                hue: hue_spec(c),
                known: false,
            }
        },
    }
}

/// Lower-cased ASCII letters and digits of `name`, a space, and `title`.
fn compact_of(name: &str, title: &str) -> (r: String)
    ensures
        r@ == lower_seq((name@ + " "@ + title@).filter(keeps_ascii_alnum())),
{
    let mut blob = chars_of(name);
    blob.push(' ');
    let tail = chars_of(title);
    let ghost head = blob@;
    let mut j: usize = 0;
    while j < tail.len()
        invariant
            j <= tail@.len(),
            blob@ == head + tail@.take(j as int),
        decreases tail.len() - j,
    {
        blob.push(tail[j]);
        j += 1;
        assert(blob@ =~= head + tail@.take(j as int));
    }
    proof {
        reveal_strlit(" ");
        assert(tail@.take(tail@.len() as int) =~= tail@);
        assert(blob@ =~= name@ + " "@ + title@);
    }
    let ghost p = keeps_ascii_alnum();
    let mut out = String::new();
    proof {
        lemma_filter_take_zero(blob@, p);
        assert(out@ =~= lower_seq(blob@.take(0).filter(p)));
    }
    let mut i: usize = 0;
    while i < blob.len()
        invariant
            i <= blob@.len(),
            p == keeps_ascii_alnum(),
            out@ == lower_seq(blob@.take(i as int).filter(p)),
        decreases blob.len() - i,
    {
        let c = blob[i];
        proof {
            lemma_filter_take_step(blob@, p, i as int);
        }
        if ascii_alnum(c) {
            push_char(&mut out, to_ascii_lower(c));
            assert(out@ =~= lower_seq(blob@.take(i + 1).filter(p)));
        }
        i += 1;
    }
    proof {
        lemma_filter_take_all(blob@, p);
    }
    out
}

/// Row `k` of the known-host table: needles, key, label, hue.
fn known_host(k: usize) -> (r: (Vec<&'static str>, &'static str, &'static str, u16))
    requires
        k < known_hosts().len(),
    ensures
        r.0.deep_view() == known_hosts()[k as int].0,
        r.1@ == known_hosts()[k as int].1,
        r.2@ == known_hosts()[k as int].2,
        r.3 == known_hosts()[k as int].3,
{
    let r = if k == 0 {
        (vec!["cursor"], "cursor", "Cursor", 220u16)
    } else if k == 1 {
        (vec!["grokbuild", "grok", "xiaigrok"], "grok", "Grok", 30u16)
    } else if k == 2 {
        (vec!["openaicodex", "codex"], "codex", "Codex", 160u16)
    } else if k == 3 {
        (vec!["kimicode", "moonshot", "kimi"], "kimi", "Kimi", 280u16)
    } else if k == 4 {
        (vec!["googleantigravity", "antigravity"], "antigravity", "Antigravity", 200u16)
    } else if k == 5 {
        (vec!["windsurf", "codeium"], "windsurf", "Windsurf", 190u16)
    } else if k == 6 {
        (
            vec!["visualstudiocode", "githubcopilot", "vscode", "copilot"],
            "vscode",
            "VS Code",
            210u16,
        )
    } else if k == 7 {
        (vec!["trae"], "trae", "Trae", 250u16)
    } else if k == 8 {
        (vec!["cline"], "cline", "Cline", 145u16)
    } else if k == 9 {
        (vec!["continue"], "continue", "Continue", 265u16)
    } else {
        (vec!["zed"], "zed", "Zed", 45u16)
    };
    assert(r.0.deep_view() =~= known_hosts()[k as int].0);
    r
}

/// Whether some needle occurs in `c`.
fn any_needle_in(c: &str, needles: &Vec<&str>) -> (r: bool)
    ensures
        r == any_needle(c@, needles.deep_view()),
{
    let mut k: usize = 0;
    while k < needles.len()
        invariant
            k <= needles@.len(),
            forall|j: int| 0 <= j < k ==> !has_substr(c@, #[trigger] needles.deep_view()[j]),
        decreases needles.len() - k,
    {
        assert(needles.deep_view()[k as int] == needles@[k as int]@);
        if str_contains(c, needles[k]) {
            return true;
        }
        k += 1;
    }
    false
}

/// Map a self-reported MCP client name (and optional title) to a face: a known host when
/// a needle of the table occurs in the compacted text, else an identicon.
pub fn recognize(raw_name: &str, title: Option<&str>) -> (r: OccupantFace)
    ensures
        r.deep_view() == recognize_spec(raw_name@, title.deep_view()),
{
    let name = str_trim(raw_name);
    let t: &str = match title {
        Some(x) => str_trim(x),
        None => "",
    };
    proof {
        reveal_strlit("");
        if title is None {
            assert(t@ =~= trim(Seq::<char>::empty()));
        }
    }
    let compact = compact_of(name, t);
    let ghost c = compact@;
    let mut k: usize = 0;
    while k < 11
        invariant
            k <= 11,
            known_hosts().len() == 11,
            c == compact@,
            c == compact_spec(raw_name@, spec_title(title.deep_view())),
            known_from(c, 0) == known_from(c, k as int),
        decreases 11 - k,
    {
        let (needles, key, label, hue) = known_host(k);
        if any_needle_in(compact.as_str(), &needles) {
            return OccupantFace {
                key: owned(key),
                label: owned(label),
                initials: initials_from(label),
                hue: hue,
                known: true,
            };
        }
        k += 1;
    }
    let label: &str = if !t.is_empty() {
        t
    } else if !name.is_empty() {
        name
    } else {
        "MCP"
    };
    OccupantFace {
        key: String::from_str("unknown"),
        label: owned(label),
        initials: initials_from(label),
        hue: hue_of(compact.as_str()),
        known: false,
    }
}

/// Two-letter badge of a label (see `initials_spec`).
pub fn initials_from(s: &str) -> (r: String)
    ensures
        r@ == initials_spec(s@),
{
    let cs = chars_of(s);
    let mut parts: Vec<char> = Vec::new();
    let mut letters: Vec<char> = Vec::new();
    let mut prev = false;
    let mut i: usize = 0;
    while i < cs.len()
        invariant
            cs@ == s@,
            i <= cs@.len(),
            parts@ == run_starts(cs@.take(i as int)),
            letters@ == alnum_chars(cs@.take(i as int)),
            i > 0 ==> prev == unicode_alnum(cs@[i - 1]),
        decreases cs.len() - i,
    {
        let c = cs[i];
        let a = char_is_alphanumeric(c);
        proof {
            let t = cs@.take(i + 1);
            assert(t.drop_last() =~= cs@.take(i as int));
            assert(t.last() == c);
        }
        if a && (i == 0 || !prev) {
            parts.push(c);
        }
        if a {
            letters.push(c);
        }
        prev = a;
        i += 1;
    }
    assert(cs@.take(cs@.len() as int) =~= cs@);
    let mut out = String::new();
    if parts.len() >= 2 {
        push_char(&mut out, to_ascii_upper(parts[0]));
        push_char(&mut out, to_ascii_upper(parts[1]));
    } else if letters.len() == 0 {
        out = String::from_str("MCP");
    } else if letters.len() == 1 {
        push_char(&mut out, to_ascii_upper(letters[0]));
    } else {
        push_char(&mut out, to_ascii_upper(letters[0]));
        push_char(&mut out, to_ascii_upper(letters[1]));
    }
    assert(out@ =~= initials_spec(s@));
    out
}

/// Identicon hue of a text (see `hue_spec`).
pub fn hue_of(s: &str) -> (r: u16)
    ensures
        r == hue_spec(s@),
{
    let bytes = s.as_bytes();
    let mut h: u32 = 2166136261;
    let mut i: usize = 0;
    while i < bytes.len()
        invariant
            bytes@ == encode_utf8(s@),
            i <= bytes@.len(),
            h == fnv1a(bytes@.take(i as int)),
        decreases bytes.len() - i,
    {
        proof {
            assert(bytes@.take(i + 1).drop_last() =~= bytes@.take(i as int));
        }
        h = (h ^ (bytes[i] as u32)).wrapping_mul(16777619);
        i += 1;
    }
    assert(bytes@.take(bytes@.len() as int) =~= bytes@);
    (h % 360) as u16
}

} // verus!
