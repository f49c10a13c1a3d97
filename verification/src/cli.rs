//! What the command-line front end decides and says: its description, the
//! chat session, the setup advice, and the size and usage lines it prints.
use vstd::prelude::*;

use crate::setup::{DepView, SetupStatus, dep_views, install_command, install_command_of};
use crate::text::{
    chars_of, decimal, decimal_exec, extend_chars, extend_str, join, join_exec, lines, lines_exec,
    pieces, string_of, trim, trim_exec, eq_chars, lemma_pieces_push,
};
use crate::types::{LocalModel, Message, Role, Usage};

verus! {

/// The one-line description shown by `--help`.
pub open spec fn about_text() -> Seq<char> {
    "Zonky - High-performance local LLM inference engine"@
}

pub fn about() -> (r: &'static str)
    ensures
        r@ == about_text(),
{
    "Zonky - High-performance local LLM inference engine"
}

/// The description names the program, and holds none of the characters
/// that a UTF-8 text misread as Latin-1 would show (`â`, `ð`, `Â`).
pub proof fn lemma_about_is_clean()
    ensures
        about_text().subrange(0, 7) == "Zonky -"@,
        forall|i: int|
            0 <= i < about_text().len() ==> #[trigger] about_text()[i] != '\u{00E2}' && about_text()[i]
                != '\u{00F0}' && about_text()[i] != '\u{00C2}',
{
    reveal_strlit("Zonky - High-performance local LLM inference engine");
    reveal_strlit("Zonky -");
    assert(about_text().subrange(0, 7) =~= "Zonky -"@);
}

// ---------------------------------------------------------------------------
// Sizes and usage
// ---------------------------------------------------------------------------

/// How `bytesize` prints a byte count (`ByteSize(n).to_string()`).
pub uninterp spec fn byte_size_text(bytes: u64) -> Seq<char>;

/// `bytesize::ByteSize(bytes).to_string()`: the count in decimal units;
/// below 1000 bytes it is the plain count followed by ` B`.
#[verifier::external_body]
fn byte_size(bytes: u64) -> (r: String)
    ensures
        r@ == byte_size_text(bytes),
        bytes < 1000 ==> r@ == decimal(bytes as nat) + " B"@,
{
    bytesize::ByteSize(bytes).to_string()
}

/// A file size as the listings print it, or `missing` when it is unknown.
pub fn size_text(size: Option<u64>, missing: &str) -> (r: String)
    ensures
        size matches Some(n) ==> r@ == byte_size_text(n),
        size is None ==> r@ == missing@,
{
    match size {
        Some(n) => byte_size(n),
        None => crate::text::owned(missing),
    }
}

/// `({p} prompt + {c} completion = {t} total tokens)`.
pub open spec fn usage_text(u: Usage) -> Seq<char> {
    "("@ + decimal(u.prompt_tokens as nat) + " prompt + "@ + decimal(u.completion_tokens as nat)
        + " completion = "@ + decimal(u.total_tokens as nat) + " total tokens)"@
}

pub fn usage_line(u: &Usage) -> (r: String)
    ensures
        r@ == usage_text(*u),
{
    let mut m = chars_of("(");
    extend_chars(&mut m, &decimal_exec(u.prompt_tokens as u64));
    extend_str(&mut m, " prompt + ");
    extend_chars(&mut m, &decimal_exec(u.completion_tokens as u64));
    extend_str(&mut m, " completion = ");
    extend_chars(&mut m, &decimal_exec(u.total_tokens as u64));
    extend_str(&mut m, " total tokens)");
    string_of(&m)
}

/// The tag line of a search hit: its first five tags joined by `, `, or
/// nothing when it has no tags.
pub open spec fn tags_text(tags: Seq<Seq<char>>) -> Option<Seq<char>> {
    if tags.len() == 0 {
        None
    } else {
        Some(join(tags.take(if tags.len() < 5 { tags.len() as int } else { 5 }), ", "@))
    }
}

pub fn tags_line(tags: &Vec<String>) -> (r: Option<String>)
    ensures
        match tags_text(tags@.map_values(|t: String| t@)) {
            Some(t) => r matches Some(s) && s@ == t,
            None => r is None,
        },
{
    if tags.len() == 0 {
        return None;
    }
    let n: usize = if tags.len() < 5 { tags.len() } else { 5 };
    let ghost tv = tags@.map_values(|t: String| t@);
    let mut parts: Vec<Vec<char>> = Vec::new();
    let mut i: usize = 0;
    while i < n
        invariant
            i <= n,
            n <= tags.len(),
            tv == tags@.map_values(|t: String| t@),
            pieces(&parts) == tv.take(i as int),
        decreases n - i,
    {
        let p = chars_of(tags[i].as_str());
        let ghost before = parts@;
        parts.push(p);
        proof {
            lemma_pieces_push(before, parts@, p);
            assert(tv.take(i + 1) =~= tv.take(i as int).push(p@));
        }
        i = i + 1;
    }
    let sep = chars_of(", ");
    Some(string_of(&join_exec(&parts, &sep)))
}

/// `info`'s local lookup: the first cached model whose id or repo id is the
/// query.
pub open spec fn local_info_index(local: Seq<LocalModel>, q: Seq<char>, i: int) -> int
    decreases local.len() - i,
{
    if i < 0 || i >= local.len() {
        local.len() as int
    } else if local[i].id@ == q || local[i].repo_id@ == q {
        i
    } else {
        local_info_index(local, q, i + 1)
    }
}

pub fn find_local_info(local: &Vec<LocalModel>, model_id: &str) -> (r: Option<usize>)
    ensures
        local_info_index(local@, model_id@, 0) < local@.len() ==> r == Some(local_info_index(local@, model_id@, 0) as usize),
        local_info_index(local@, model_id@, 0) >= local@.len() ==> r is None,
{
    let q = chars_of(model_id);
    let mut i: usize = 0;
    while i < local.len()
        invariant
            i <= local.len(),
            q@ == model_id@,
            local_info_index(local@, model_id@, 0) == local_info_index(local@, model_id@, i as int),
        decreases local.len() - i,
    {
        let a = chars_of(local[i].id.as_str());
        let b = chars_of(local[i].repo_id.as_str());
        if eq_chars(&a, &q) || eq_chars(&b, &q) {
            return Some(i);
        }
        i = i + 1;
    }
    None
}

// ---------------------------------------------------------------------------
// The chat session
// ---------------------------------------------------------------------------

/// What the chat loop does with one line of input.
#[derive(Debug, Clone, Copy, PartialEq, Eq, Structural)]
pub enum ChatAction {
    /// A blank line: ask again.
    Skip,
    /// `exit` or `quit`: end the session.
    Quit,
    /// `/clear`: the history was emptied.
    Cleared,
    /// The line joined the history as the user's turn; ask the model.
    Send,
}

pub open spec fn message_views(v: Seq<Message>) -> Seq<(Role, Seq<char>)> {
    v.map_values(|m: Message| (m.role, m.content@))
}

/// The action a line of input leads to.
pub open spec fn chat_action_of(line: Seq<char>) -> ChatAction {
    let t = trim(line);
    if t.len() == 0 {
        ChatAction::Skip
    } else if t == "exit"@ || t == "quit"@ {
        ChatAction::Quit
    } else if t == "/clear"@ {
        ChatAction::Cleared
    } else {
        ChatAction::Send
    }
}

/// The history after a line of input.
pub open spec fn history_after(h: Seq<(Role, Seq<char>)>, line: Seq<char>) -> Seq<(Role, Seq<char>)> {
    match chat_action_of(line) {
        ChatAction::Cleared => seq![],
        ChatAction::Send => h.push((Role::User, trim(line))),
        _ => h,
    }
}

/// The conversation of an interactive chat.
pub struct ChatSession {
    pub messages: Vec<Message>,
}

impl ChatSession {
    pub fn new() -> (r: ChatSession)
        ensures
            message_views(r.messages@) == Seq::<(Role, Seq<char>)>::empty(),
    {
        let r = ChatSession { messages: Vec::new() };
        assert(message_views(r.messages@) =~= Seq::<(Role, Seq<char>)>::empty());
        r
    }

    /// Takes one line typed by the user.
    pub fn on_input(&mut self, line: &str) -> (r: ChatAction)
        ensures
            r == chat_action_of(line@),
            message_views(final(self).messages@) == history_after(message_views(old(self).messages@), line@),
    {
        let raw = chars_of(line);
        let t = trim_exec(&raw);
        if t.len() == 0 {
            return ChatAction::Skip;
        }
        let exit = chars_of("exit");
        let quit = chars_of("quit");
        if eq_chars(&t, &exit) || eq_chars(&t, &quit) {
            return ChatAction::Quit;
        }
        let clear = chars_of("/clear");
        if eq_chars(&t, &clear) {
            self.messages = Vec::new();
            assert(message_views(self.messages@) =~= Seq::<(Role, Seq<char>)>::empty());
            return ChatAction::Cleared;
        }
        let ghost before = self.messages@;
        let m = Message { role: Role::User, content: string_of(&t) };
        let ghost mv = (m.role, m.content@);
        self.messages.push(m);
        assert(message_views(self.messages@) =~= message_views(before).push(mv));
        ChatAction::Send
    }

    /// Records the model's answer as the assistant's turn.
    pub fn on_reply(&mut self, content: String)
        ensures
            message_views(final(self).messages@) == message_views(old(self).messages@).push((Role::Assistant, content@)),
    {
        let ghost before = self.messages@;
        let ghost cv = content@;
        self.messages.push(Message { role: Role::Assistant, content });
        assert(message_views(self.messages@) =~= message_views(before).push((Role::Assistant, cv)));
    }
}

/// `/clear` empties the history whatever it held, and a blank line leaves it
/// unchanged.
pub proof fn lemma_clear_and_blank(h: Seq<(Role, Seq<char>)>, blank: Seq<char>)
    requires
        trim(blank).len() == 0,
    ensures
        history_after(h, "/clear"@) == Seq::<(Role, Seq<char>)>::empty(),
        history_after(h, blank) == h,
{
    reveal_strlit("/clear");
    reveal_strlit("exit");
    reveal_strlit("quit");
    assert(trim("/clear"@) =~= "/clear"@);
}

/// A line with text that is not a command is sent, and the history keeps
/// the whole conversation: the old history stays as it was and the trimmed
/// line is added after it as the user's message. `exit` and `quit` leave
/// the history as it is.
pub proof fn lemma_sent_line_extends_history(h: Seq<(Role, Seq<char>)>, line: Seq<char>)
    ensures
        (trim(line).len() > 0 && trim(line) != "exit"@ && trim(line) != "quit"@ && trim(line)
            != "/clear"@) ==> {
            &&& chat_action_of(line) == ChatAction::Send
            &&& history_after(h, line).len() == h.len() + 1
            &&& history_after(h, line).subrange(0, h.len() as int) == h
            &&& history_after(h, line)[h.len() as int] == (Role::User, trim(line))
        },
        (trim(line) == "exit"@ || trim(line) == "quit"@) ==> history_after(h, line) == h,
{
    reveal_strlit("/clear");
    reveal_strlit("exit");
    reveal_strlit("quit");
    let r = history_after(h, line);
    if trim(line).len() > 0 && trim(line) != "exit"@ && trim(line) != "quit"@ && trim(line) != "/clear"@ {
        assert(r == h.push((Role::User, trim(line))));
        assert(r.subrange(0, h.len() as int) =~= h);
    }
}

// ---------------------------------------------------------------------------
// Setup advice
// ---------------------------------------------------------------------------

/// What `zonky setup` tells the user after checking the machine.
#[derive(Debug, Clone, Copy, PartialEq, Eq, Structural)]
pub enum SetupAdvice {
    /// No dependency is needed here; the summary says why.
    NothingNeeded,
    /// Group membership changed; a reboot activates it.
    RebootNeeded,
    /// Everything is in place.
    Ready,
    /// Some dependencies are missing.
    Missing,
}

pub open spec fn setup_advice_of(deps_empty: bool, needs_reboot: bool, compute_ready: bool) -> SetupAdvice {
    if deps_empty {
        SetupAdvice::NothingNeeded
    } else if needs_reboot {
        SetupAdvice::RebootNeeded
    } else if compute_ready {
        SetupAdvice::Ready
    } else {
        SetupAdvice::Missing
    }
}

pub fn setup_advice(status: &SetupStatus) -> (r: SetupAdvice)
    ensures
        r == setup_advice_of(status@.deps.len() == 0, status@.needs_reboot, status@.compute_ready),
{
    if status.deps.len() == 0 {
        SetupAdvice::NothingNeeded
    } else if status.needs_reboot {
        SetupAdvice::RebootNeeded
    } else if status.compute_ready {
        SetupAdvice::Ready
    } else {
        SetupAdvice::Missing
    }
}

/// What `zonky setup` does about missing dependencies.
#[derive(Debug)]
pub enum InstallStep {
    /// Nothing: no dependency is missing, or none has an install command.
    Nothing,
    /// Run this command (`--install` was given).
    Install(String),
    /// Show this command and how to run the install.
    Suggest(String),
}

/// The install step for a status and the `--install` flag: only when
/// dependencies are missing and an install command exists; the flag decides
/// between running it and suggesting it.
pub fn install_step(status: &SetupStatus, install: bool) -> (r: InstallStep)
    ensures
        setup_advice_of(status@.deps.len() == 0, status@.needs_reboot, status@.compute_ready)
            != SetupAdvice::Missing ==> r is Nothing,
        setup_advice_of(status@.deps.len() == 0, status@.needs_reboot, status@.compute_ready)
            == SetupAdvice::Missing ==> match install_command_of(status@) {
            None => r is Nothing,
            Some(c) => if install {
                r matches InstallStep::Install(x) && x@ == c
            } else {
                r matches InstallStep::Suggest(x) && x@ == c
            },
        },
{
    if setup_advice(status) != SetupAdvice::Missing {
        return InstallStep::Nothing;
    }
    match install_command(status) {
        None => InstallStep::Nothing,
        Some(c) => if install {
            InstallStep::Install(c)
        } else {
            InstallStep::Suggest(c)
        },
    }
}

/// What a second check after installing tells the user.
#[derive(Debug, Clone, Copy, PartialEq, Eq, Structural)]
pub enum RecheckAdvice {
    Ready,
    RebootNeeded,
    StillMissing,
}

pub fn recheck_advice(status: &SetupStatus) -> (r: RecheckAdvice)
    ensures
        status@.compute_ready ==> r == RecheckAdvice::Ready,
        !status@.compute_ready && status@.needs_reboot ==> r == RecheckAdvice::RebootNeeded,
        !status@.compute_ready && !status@.needs_reboot ==> r == RecheckAdvice::StillMissing,
{
    if status.compute_ready {
        RecheckAdvice::Ready
    } else if status.needs_reboot {
        RecheckAdvice::RebootNeeded
    } else {
        RecheckAdvice::StillMissing
    }
}

/// The dependencies that are not installed, in order.
pub open spec fn missing_of(d: Seq<DepView>) -> Seq<DepView>
    decreases d.len(),
{
    if d.len() == 0 {
        seq![]
    } else if d.last().installed {
        missing_of(d.drop_last())
    } else {
        missing_of(d.drop_last()).push(d.last())
    }
}

/// Names and descriptions of the missing dependencies.
pub fn missing_deps(status: &SetupStatus) -> (r: Vec<(String, String)>)
    ensures
        r@.len() == missing_of(status@.deps).len(),
        forall|k: int| 0 <= k < r@.len() ==> (#[trigger] r@[k]).0@ == missing_of(status@.deps)[k].name
            && r@[k].1@ == missing_of(status@.deps)[k].description,
{
    let ghost dv = status@.deps;
    let mut out: Vec<(String, String)> = Vec::new();
    let mut i: usize = 0;
    while i < status.deps.len()
        invariant
            i <= status.deps.len(),
            dv == dep_views(status.deps@),
            out@.len() == missing_of(dv.subrange(0, i as int)).len(),
            forall|k: int| 0 <= k < out@.len() ==> (#[trigger] out@[k]).0@ == missing_of(dv.subrange(0, i as int))[k].name
                && out@[k].1@ == missing_of(dv.subrange(0, i as int))[k].description,
        decreases status.deps.len() - i,
    {
        assert(dv.subrange(0, i + 1).drop_last() =~= dv.subrange(0, i as int));
        assert(dv[i as int] == status.deps@[i as int]@);
        let d = &status.deps[i];
        if !d.installed {
            out.push((d.name.clone(), d.description.clone()));
        }
        i = i + 1;
    }
    assert(dv.subrange(0, dv.len() as int) =~= dv);
    out
}

/// The last `n` lines of an installer's output, or none when the output is
/// blank.
pub open spec fn output_tail(output: Seq<char>, n: nat) -> Seq<Seq<char>> {
    if trim(output).len() == 0 {
        seq![]
    } else {
        let ls = lines(output);
        ls.skip(if ls.len() >= n { ls.len() - n } else { 0 })
    }
}

pub fn install_tail(output: &str, n: usize) -> (r: Vec<String>)
    ensures
        r@.map_values(|s: String| s@) == output_tail(output@, n as nat),
{
    let text = chars_of(output);
    let t = trim_exec(&text);
    if t.len() == 0 {
        let r: Vec<String> = Vec::new();
        assert(r@.map_values(|s: String| s@) =~= Seq::<Seq<char>>::empty());
        return r;
    }
    let ls = lines_exec(&text);
    let start: usize = if ls.len() >= n { ls.len() - n } else { 0 };
    let ghost lv = pieces(&ls);
    let mut out: Vec<String> = Vec::new();
    let mut i: usize = start;
    while i < ls.len()
        invariant
            start <= i <= ls.len(),
            lv == pieces(&ls),
            out@.map_values(|s: String| s@) == lv.subrange(start as int, i as int),
        decreases ls.len() - i,
    {
        let s = string_of(&ls[i]);
        let ghost before = out@;
        out.push(s);
        assert(lv[i as int] == ls@[i as int]@);
        assert(out@.map_values(|s: String| s@) =~= before.map_values(|s: String| s@).push(s@));
        assert(lv.subrange(start as int, i + 1) =~= lv.subrange(start as int, i as int).push(lv[i as int]));
        i = i + 1;
    }
    assert(lv.skip(start as int) =~= lv.subrange(start as int, lv.len() as int));
    out
}

} // verus!
