//! The controller's request handling: frames, conversation commands, the bounded
//! conversation history, and the decisions around agent turns.
use vstd::prelude::*;
use crate::protocol::{Action, EditorContext, Stage, TourDraft, MAX_FRAME, VERSION};
use crate::controller::Controller;
use crate::agent::WorkspaceMode;
use crate::text::{chars_of, is_space, space, is_blank, blank, parse_usize, parsed_usize, string_from, take_chars};
use crate::hunks::{skip_space, word_end, word, lemma_scan, skip_space_at, word_end_at, word_at, sub_chars};
use crate::world::{World, EffectView, Need};
use crate::error::{Fault, Refusal};

verus! {

/// At most this many conversation lines are kept.
pub const HISTORY_ENTRIES: usize = 200;

/// At most this many bytes of conversation are kept.
pub const HISTORY_BYTES: usize = 200000;

/// A conversation line keeps at most this many characters.
pub const LINE_CHARS: usize = 16000;

/// How a read of one frame ends.
#[derive(Debug, PartialEq, Eq, Structural)]
pub enum FrameStatus {
    /// The peer closed the connection.
    End,
    /// A whole frame, newline included.
    Frame,
    /// An unterminated or oversized frame.
    Invalid,
}

/// Judges what a read of at most one byte more than `MAX_FRAME`, up to a newline, gave.
pub fn frame_status(buf: &Vec<u8>) -> (r: FrameStatus)
    ensures
        buf@.len() == 0 ==> r == FrameStatus::End,
        buf@.len() > 0 ==> (r == FrameStatus::Frame <==> buf@.len() <= MAX_FRAME && buf@.last() == 10u8),
        buf@.len() > 0 ==> r != FrameStatus::End,
{
    if buf.len() == 0 {
        FrameStatus::End
    } else if buf.len() <= MAX_FRAME && buf[buf.len() - 1] == 10u8 {
        FrameStatus::Frame
    } else {
        FrameStatus::Invalid
    }
}

/// Refuses a request of another protocol version.
pub fn check_version(version: u32) -> (r: Result<(), Refusal>)
    ensures
        r is Ok <==> version == VERSION,
        r matches Err(e) ==> e == Refusal::UnsupportedVersion(version),
{
    if version != VERSION {
        Err(Refusal::UnsupportedVersion(version))
    } else {
        Ok(())
    }
}

/// The bytes character `c` takes in UTF-8.
pub open spec fn char_bytes(c: char) -> int {
    if (c as u32) < 0x80u32 { 1 } else if (c as u32) < 0x800u32 { 2 } else if (c as u32) < 0x10000u32 { 3 } else { 4 }
}

/// The length in bytes of `s` in UTF-8, as `String::len` gives it.
pub open spec fn utf8_len(s: Seq<char>) -> int
    decreases s.len(),
{
    if s.len() == 0 {
        0
    } else {
        utf8_len(s.drop_last()) + char_bytes(s.last())
    }
}

/// The bytes that the lines of `h` take.
pub open spec fn history_bytes(h: Seq<Seq<char>>) -> int
    decreases h.len(),
{
    if h.len() == 0 {
        0
    } else {
        history_bytes(h.drop_last()) + utf8_len(h.last())
    }
}

/// The history is within its limits: lines and bytes.
pub open spec fn within(h: Seq<Seq<char>>) -> bool {
    h.len() <= HISTORY_ENTRIES && history_bytes(h) <= HISTORY_BYTES
}

/// The newest lines of `h` that fit the limits: the oldest go first.
pub open spec fn kept_history(h: Seq<Seq<char>>) -> Seq<Seq<char>>
    decreases h.len(),
{
    if within(h) || h.len() == 0 {
        h
    } else {
        kept_history(h.drop_first())
    }
}

/// Every line is within its length, and there are no more lines than the limit.
pub open spec fn bounded(h: Seq<Seq<char>>) -> bool {
    &&& h.len() <= HISTORY_ENTRIES
    &&& forall|i: int| 0 <= i < h.len() ==> (#[trigger] h[i]).len() <= LINE_CHARS
}

pub open spec fn lines_of(h: Seq<String>) -> Seq<Seq<char>> {
    h.map_values(|s: String| s@)
}

proof fn lemma_utf8_len(s: Seq<char>)
    ensures
        0 <= utf8_len(s) <= 4 * s.len(),
    decreases s.len(),
{
    if s.len() > 0 {
        lemma_utf8_len(s.drop_last());
    }
}

/// A prefix of a text takes no more bytes than the text.
proof fn lemma_utf8_len_prefix(s: Seq<char>, k: int)
    requires
        0 <= k <= s.len(),
    ensures
        utf8_len(s.take(k)) <= utf8_len(s),
    decreases s.len(),
{
    if k < s.len() {
        lemma_utf8_len_prefix(s.drop_last(), k);
        assert(s.drop_last().take(k) =~= s.take(k));
    } else {
        assert(s.take(k) =~= s);
    }
}

/// A prefix of a history takes no more bytes than the history.
proof fn lemma_history_bytes_prefix(h: Seq<Seq<char>>, k: int)
    requires
        0 <= k <= h.len(),
    ensures
        history_bytes(h.take(k)) <= history_bytes(h),
    decreases h.len(),
{
    if k < h.len() {
        lemma_history_bytes_prefix(h.drop_last(), k);
        assert(h.drop_last().take(k) =~= h.take(k));
        lemma_utf8_len(h.last());
    } else {
        assert(h.take(k) =~= h);
    }
}

/// The bytes of `s` in UTF-8 where they are at most `cap`; otherwise a number above `cap`.
fn text_bytes(s: &String, cap: usize) -> (r: usize)
    requires
        cap <= HISTORY_BYTES,
    ensures
        utf8_len(s@) <= cap ==> r == utf8_len(s@),
        utf8_len(s@) > cap ==> r > cap,
        r <= cap + 4,
{
    let v = chars_of(s.as_str());
    let mut n: usize = 0;
    let mut i: usize = 0;
    while i < v.len()
        invariant
            v@ == s@,
            cap <= HISTORY_BYTES,
            i <= v.len(),
            n == utf8_len(v@.take(i as int)),
            n <= cap,
        decreases v.len() - i,
    {
        assert(v@.take(i + 1).drop_last() =~= v@.take(i as int));
        assert(v@.take(i + 1).last() == v@[i as int]);
        let c = v[i];
        let w: usize = if (c as u32) < 0x80u32 { 1 } else if (c as u32) < 0x800u32 { 2 } else if (c as u32) < 0x10000u32 { 3 } else { 4 };
        n = n + w;
        i = i + 1;
        if n > cap {
            proof {
                lemma_utf8_len_prefix(v@, i as int);
            }
            return n;
        }
    }
    assert(v@.take(i as int) =~= v@);
    n
}

/// Whether the lines of `h` take more bytes than the history may hold.
fn too_many_bytes(h: &Vec<String>) -> (r: bool)
    ensures
        r == (history_bytes(lines_of(h@)) > HISTORY_BYTES),
{
    let mut n: usize = 0;
    let mut i: usize = 0;
    while i < h.len()
        invariant
            i <= h@.len(),
            n == history_bytes(lines_of(h@.take(i as int))),
            n <= HISTORY_BYTES,
        decreases h.len() - i,
    {
        assert(lines_of(h@.take(i + 1)).drop_last() =~= lines_of(h@.take(i as int)));
        assert(lines_of(h@.take(i + 1)).last() == h@[i as int]@);
        let b = text_bytes(&h[i], HISTORY_BYTES - n);
        i = i + 1;
        if b > HISTORY_BYTES - n {
            proof {
                lemma_utf8_len(h@[i - 1]@);
                assert(lines_of(h@).take(i as int) =~= lines_of(h@.take(i as int)));
                lemma_history_bytes_prefix(lines_of(h@), i as int);
            }
            return true;
        }
        n = n + b;
    }
    assert(h@.take(i as int) =~= h@);
    false
}

/// Adds a conversation line, cut to its length, and drops the oldest lines until the
/// history fits its limits.
pub fn remember(history: &mut Vec<String>, text: &str)
    ensures
        bounded(lines_of(old(history)@)) ==> bounded(lines_of(final(history)@)),
        lines_of(final(history)@) == kept_history(lines_of(old(history)@).push(
            if text@.len() <= LINE_CHARS { text@ } else { text@.take(LINE_CHARS as int) })),
        within(lines_of(final(history)@)),
{
    let line = take_chars(text, LINE_CHARS);
    let ghost pushed = lines_of(old(history)@).push(line@);
    let ghost was_bounded = bounded(lines_of(old(history)@));
    history.push(line);
    assert(lines_of(history@) =~= pushed);
    proof {
        if was_bounded {
            assert forall|j: int| 0 <= j < history@.len() implies (#[trigger] history@[j])@.len() <= LINE_CHARS by {
                if j < old(history)@.len() {
                    assert(lines_of(old(history)@)[j] == old(history)@[j]@);
                }
            }
        }
    }
    loop
        invariant
            was_bounded ==> history@.len() <= HISTORY_ENTRIES + 1,
            was_bounded ==> forall|j: int| 0 <= j < history@.len() ==> (#[trigger] history@[j])@.len() <= LINE_CHARS,
            kept_history(lines_of(history@)) == kept_history(pushed),
        ensures
            was_bounded ==> forall|j: int| 0 <= j < history@.len() ==> (#[trigger] history@[j])@.len() <= LINE_CHARS,
            kept_history(lines_of(history@)) == kept_history(pushed),
            within(lines_of(history@)),
        decreases history@.len(),
    {
        if !(history.len() > HISTORY_ENTRIES || too_many_bytes(history)) {
            assert(within(lines_of(history@)));
            break;
        }
        assert(history@.len() > 0);
        let ghost before = lines_of(history@);
        history.remove(0);
        assert(lines_of(history@) =~= before.drop_first());
    }
    proof {
        assert(kept_history(lines_of(history@)) == lines_of(history@));
        if was_bounded {
            assert forall|i: int| 0 <= i < lines_of(history@).len() implies (#[trigger] lines_of(history@)[i]).len() <= LINE_CHARS by {
                assert(lines_of(history@)[i] == history@[i]@);
            }
        }
    }
}

/// Where the text after trimming ends, scanning back from `j` no further than `lo`.
pub open spec fn trim_back(s: Seq<char>, lo: int, j: int) -> int
    decreases j - lo,
{
    if j <= lo {
        lo
    } else if is_space(s[j - 1]) {
        trim_back(s, lo, j - 1)
    } else {
        j
    }
}

/// `s` without leading and trailing whitespace, as `str::trim` gives it.
pub open spec fn trimmed(s: Seq<char>) -> Seq<char> {
    let a = skip_space(s, 0);
    s.subrange(a, trim_back(s, a, s.len() as int))
}

proof fn lemma_trim_back(s: Seq<char>, lo: int, j: int)
    requires
        0 <= lo <= j <= s.len(),
    ensures
        lo <= trim_back(s, lo, j) <= j,
    decreases j - lo,
{
    if j > lo && is_space(s[j - 1]) {
        lemma_trim_back(s, lo, j - 1);
    }
}

/// `s` without leading and trailing whitespace.
pub fn trim(s: &Vec<char>) -> (r: Vec<char>)
    ensures
        r@ == trimmed(s@),
{
    proof {
        lemma_scan(s@, 0);
    }
    let a = skip_space_at(s, 0);
    let mut b = s.len();
    proof {
        lemma_trim_back(s@, a as int, b as int);
    }
    while b > a && space(s[b - 1])
        invariant
            a <= b <= s@.len(),
            trim_back(s@, a as int, s@.len() as int) == trim_back(s@, a as int, b as int),
        decreases b,
    {
        b = b - 1;
    }
    sub_chars(s, a, b)
}

/// A conversation command, as read from typed input.
pub enum Parsed {
    Begin(Seq<char>),
    Revise(Seq<char>),
    Switch(Option<usize>),
    TourNext,
    TourPrevious,
    NextChange,
    PreviousChange,
    TourJump(Option<usize>),
    TourClose,
    Apply,
    Revert(Option<usize>),
    Diff,
    Peek,
    Cancel,
    Message(Seq<char>),
    Unknown,
}

/// What typed input `raw` asks for: a `/` command with its argument, or a message. `/next`
/// and `/prev` move through the active tour if there is one, else through the changes; a
/// bare `/revert` reverts the current change.
pub open spec fn parse_input(raw: Seq<char>, touring: bool, change_index: usize) -> Parsed {
    let input = trimmed(raw);
    let k = word_end(input, 0);
    let command = input.take(k);
    let argument = if k < input.len() { trimmed(input.skip(k + 1)) } else { Seq::<char>::empty() };
    if command == "/begin"@ {
        Parsed::Begin(argument)
    } else if command == "/revise"@ {
        Parsed::Revise(argument)
    } else if command == "/proposal"@ {
        Parsed::Switch(parsed_usize(argument))
    } else if command == "/next"@ {
        if touring { Parsed::TourNext } else { Parsed::NextChange }
    } else if command == "/prev"@ {
        if touring { Parsed::TourPrevious } else { Parsed::PreviousChange }
    } else if command == "/jump"@ {
        Parsed::TourJump(parsed_usize(argument))
    } else if command == "/close"@ {
        Parsed::TourClose
    } else if command == "/apply"@ {
        Parsed::Apply
    } else if command == "/revert"@ {
        Parsed::Revert(if argument.len() == 0 { Some(change_index) } else { parsed_usize(argument) })
    } else if command == "/diff"@ {
        Parsed::Diff
    } else if command == "/peek"@ {
        Parsed::Peek
    } else if command == "/cancel"@ {
        Parsed::Cancel
    } else if input.len() > 0 && input[0] == '/' {
        Parsed::Unknown
    } else {
        Parsed::Message(input)
    }
}

/// Whether an answer is what a parse asks for: the action, or the refusal of a bad number
/// or an unknown command.
pub open spec fn answers(r: Result<Action, Refusal>, p: Parsed) -> bool {
    match p {
        Parsed::Begin(t) => r matches Ok(Action::Begin { text }) && text@ == t,
        Parsed::Revise(t) => r matches Ok(Action::Revise { feedback }) && feedback@ == t,
        Parsed::Switch(n) => match n {
            Some(n) => r matches Ok(Action::Switch { proposal }) && proposal == n,
            None => r matches Err(Refusal::InvalidNumber),
        },
        Parsed::TourNext => r matches Ok(Action::TourNext),
        Parsed::TourPrevious => r matches Ok(Action::TourPrevious),
        Parsed::NextChange => r matches Ok(Action::NextChange),
        Parsed::PreviousChange => r matches Ok(Action::PreviousChange),
        Parsed::TourJump(n) => match n {
            Some(n) => r matches Ok(Action::TourJump { index }) && index == n,
            None => r matches Err(Refusal::InvalidNumber),
        },
        Parsed::TourClose => r matches Ok(Action::TourClose),
        Parsed::Apply => r matches Ok(Action::Apply),
        Parsed::Revert(n) => match n {
            Some(n) => r matches Ok(Action::Revert { change }) && change == n,
            None => r matches Err(Refusal::InvalidNumber),
        },
        Parsed::Diff => r matches Ok(Action::Diff),
        Parsed::Peek => r matches Ok(Action::Peek),
        Parsed::Cancel => r matches Ok(Action::Cancel),
        Parsed::Message(t) => r matches Ok(Action::Message { text }) && text@ == t,
        Parsed::Unknown => r matches Err(Refusal::UnknownAction),
    }
}

fn is_word(v: &Vec<char>, w: &str) -> (r: bool)
    ensures
        r == (v@ == w@),
{
    let c = chars_of(w);
    if v.len() != c.len() {
        return false;
    }
    let mut i: usize = 0;
    while i < v.len()
        invariant
            c@ == w@,
            v@.len() == c@.len(),
            i <= v.len(),
            forall|j: int| 0 <= j < i ==> v@[j] == c@[j],
        decreases v.len() - i,
    {
        if v[i] != c[i] {
            return false;
        }
        i = i + 1;
    }
    assert(v@ =~= c@);
    true
}

fn number(argument: &Vec<char>) -> (r: Result<usize, Refusal>)
    ensures
        match parsed_usize(argument@) {
            Some(n) => r == Ok::<usize, Refusal>(n),
            None => r matches Err(Refusal::InvalidNumber),
        },
{
    match parse_usize(argument) {
        Some(n) => Ok(n),
        None => Err(Refusal::InvalidNumber),
    }
}

/// Reads typed conversation input as a command or a message.
pub fn conversation_action(input: &str, c: &Controller) -> (r: Result<Action, Refusal>)
    ensures
        answers(r, parse_input(input@, c.active() is Some, c.session.change_index)),
{
    let raw = chars_of(input);
    let text = trim(&raw);
    proof {
        lemma_scan(text@, 0);
    }
    let k = word_end_at(&text, 0);
    let command = sub_chars(&text, 0, k);
    assert(command@ =~= text@.take(k as int));
    let argument = if k < text.len() {
        let rest = sub_chars(&text, k + 1, text.len());
        assert(rest@ =~= text@.skip(k + 1));
        trim(&rest)
    } else {
        Vec::new()
    };
    let touring = c.tour().is_some();
    if is_word(&command, "/begin") {
        Ok(Action::Begin { text: string_from(&argument) })
    } else if is_word(&command, "/revise") {
        Ok(Action::Revise { feedback: string_from(&argument) })
    } else if is_word(&command, "/proposal") {
        Ok(Action::Switch { proposal: number(&argument)? })
    } else if is_word(&command, "/next") {
        if touring { Ok(Action::TourNext) } else { Ok(Action::NextChange) }
    } else if is_word(&command, "/prev") {
        if touring { Ok(Action::TourPrevious) } else { Ok(Action::PreviousChange) }
    } else if is_word(&command, "/jump") {
        Ok(Action::TourJump { index: number(&argument)? })
    } else if is_word(&command, "/close") {
        Ok(Action::TourClose)
    } else if is_word(&command, "/apply") {
        Ok(Action::Apply)
    } else if is_word(&command, "/revert") {
        let change = if argument.len() == 0 { c.session.change_index } else { number(&argument)? };
        Ok(Action::Revert { change })
    } else if is_word(&command, "/diff") {
        Ok(Action::Diff)
    } else if is_word(&command, "/peek") {
        Ok(Action::Peek)
    } else if is_word(&command, "/cancel") {
        Ok(Action::Cancel)
    } else if text.len() > 0 && text[0] == '/' {
        Err(Refusal::UnknownAction)
    } else {
        Ok(Action::Message { text: string_from(&text) })
    }
}

/// Whether typed input's first word is `/cancel`.
pub fn is_cancel(text: &str) -> (r: bool)
    ensures
        r == (word(text@, 0, 0) matches Some((a, e)) && text@.subrange(a, e) == "/cancel"@),
{
    let v = chars_of(text);
    match word_at(&v, 0, 0) {
        Some((a, e)) => {
            let w = sub_chars(&v, a, e);
            is_word(&w, "/cancel")
        },
        None => false,
    }
}

/// What a request adds to the conversation when it succeeds: the typed text of an input,
/// a message or a revision request.
pub fn user_text(action: &Action) -> (r: Option<String>)
    ensures
        match action {
            Action::Input { text } => r matches Some(t) && t@ == text@,
            Action::Message { text } => r matches Some(t) && t@ == text@,
            Action::Revise { feedback } => r matches Some(t) && t@ == feedback@,
            _ => r is None,
        },
{
    match action {
        Action::Input { text } => Some(text.clone()),
        Action::Message { text } => Some(text.clone()),
        Action::Revise { feedback } => Some(feedback.clone()),
        _ => None,
    }
}

/// The request `/begin` sends the building agent: the inline text, or by default the
/// approach agreed in conversation.
pub open spec fn begin_text(text: Seq<char>) -> Seq<char> {
    if is_blank(text) { "Implement the approach agreed in our conversation."@ } else { text }
}

/// The request `/begin` sends the building agent: the inline text, or by default the
/// approach agreed in conversation.
pub fn begin_prompt(text: String) -> (r: String)
    ensures
        r@ == begin_text(text@),
        is_blank(text@) ==> r@ == "Implement the approach agreed in our conversation."@,
        !is_blank(text@) ==> r@ == text@,
{
    if blank(text.as_str()) {
        String::from_str("Implement the approach agreed in our conversation.")
    } else {
        text
    }
}

/// Which step an agent's completion finishes.
#[derive(Debug, PartialEq, Eq, Structural)]
pub enum Completion {
    Build,
    Refinement,
    Conversation,
}

impl Controller {
    /// An editor (re)connects or disconnects; a connecting editor must send its context
    /// before anything consequential happens.
    pub fn connect_editor(&mut self, connected: bool)
        ensures
            final(self).editor_connected == Some(connected),
            connected ==> final(self).editor.file is None && final(self).editor.line == 0 && final(self).editor.column == 0
                && final(self).editor.selection@.len() == 0 && final(self).editor.selection_start_line is None
                && final(self).editor.selection_end_line is None && final(self).editor.nearby@.len() == 0
                && final(self).editor.dirty@.len() == 1 && final(self).editor.dirty@[0]@ == "waiting for editor context"@,
            !connected ==> final(self).editor == old(self).editor,
            final(self).session == old(self).session,
            final(self).busy == old(self).busy,
            final(self).turn == old(self).turn,
            final(self).generation == old(self).generation,
            final(self).navigation == old(self).navigation,
            final(self).workspace == old(self).workspace,
    {
        self.editor_connected = Some(connected);
        if connected {
            let mut dirty: Vec<String> = Vec::new();
            dirty.push(String::from_str("waiting for editor context"));
            self.editor = EditorContext {
                file: None,
                line: 0,
                column: 0,
                selection: String::new(),
                selection_start_line: None,
                selection_end_line: None,
                nearby: String::new(),
                dirty,
            };
        }
    }

    /// The editor's context, with the nearby text cut to 16000 characters and the
    /// selection to 4000.
    pub fn set_context(&mut self, context: EditorContext)
        ensures
            final(self).editor.nearby@ == if context.nearby@.len() <= 16000 { context.nearby@ } else { context.nearby@.take(16000) },
            final(self).editor.selection@ == if context.selection@.len() <= 4000 { context.selection@ } else { context.selection@.take(4000) },
            final(self).editor.file == context.file,
            final(self).editor.line == context.line,
            final(self).editor.column == context.column,
            final(self).editor.selection_start_line == context.selection_start_line,
            final(self).editor.selection_end_line == context.selection_end_line,
            final(self).editor.dirty == context.dirty,
            final(self).editor_connected == old(self).editor_connected,
            final(self).session == old(self).session,
            final(self).busy == old(self).busy,
            final(self).turn == old(self).turn,
            final(self).generation == old(self).generation,
            final(self).navigation == old(self).navigation,
            final(self).workspace == old(self).workspace,
    {
        let mut context = context;
        context.nearby = take_chars(context.nearby.as_str(), 16000);
        context.selection = take_chars(context.selection.as_str(), 4000);
        self.editor = context;
    }

    /// A conversation message needs an idle agent and some text.
    pub fn check_message(&self, text: &str) -> (r: Result<(), Refusal>)
        ensures
            self.busy ==> r matches Err(Refusal::AgentBusy),
            !self.busy && is_blank(text@) ==> r matches Err(Refusal::EmptyMessage),
            r is Ok <==> !self.busy && !is_blank(text@),
    {
        if self.busy {
            return Err(Refusal::AgentBusy);
        }
        if blank(text) {
            return Err(Refusal::EmptyMessage);
        }
        Ok(())
    }

    /// A message refines the proposal on tour when every buffer is saved; otherwise the
    /// turn is read-only.
    pub open spec fn refines_on_message(&self) -> bool {
        self.session.stage == Stage::Tour && self.editor.dirty@.len() == 0
    }

    /// A message refines the proposal on tour when every buffer is saved; otherwise the
    /// turn is read-only.
    pub fn message_refines(&self) -> (r: bool)
        ensures
            r == self.refines_on_message(),
    {
        self.session.stage == Stage::Tour && self.editor.dirty.len() == 0
    }

    /// Shutting down needs an idle agent.
    pub fn check_shutdown(&self) -> (r: Result<(), Refusal>)
        ensures
            r is Ok <==> !self.busy,
            r matches Err(e) ==> e is CancelBeforeShutdown,
    {
        if self.busy {
            Err(Refusal::CancelBeforeShutdown)
        } else {
            Ok(())
        }
    }

    /// Before a read-only turn with no proposal pending, the shadow files catch up with
    /// the real ones.
    pub fn prepare_turn(&self, w: &World, mode: WorkspaceMode) -> (r: Result<(), Fault>)
        ensures
            !(mode == WorkspaceMode::ReadOnly && !self.session.pending_proposal) ==> r is Ok,
            mode == WorkspaceMode::ReadOnly && !self.session.pending_proposal ==> {
                &&& (r is Ok <==> (self.current_of(*w, 0) matches Some(cur) && w.performed(0, EffectView::Sync(cur))))
                &&& (r matches Err(Fault::Need(Need::Perform(k, e))) ==> k == 0 && e@ is Sync)
            },
    {
        if mode == WorkspaceMode::ReadOnly && !self.session.pending_proposal {
            let current = self.current_at(w, 0)?;
            self.workspace.sync(w, 0, &current)?;
        }
        Ok(())
    }

    /// What an agent's completion finishes: a build, a refinement, or a conversation turn.
    pub fn completion(&self) -> (r: Completion)
        ensures
            self.session.stage == Stage::Building ==> r == Completion::Build,
            self.session.stage != Stage::Building && (self.turn matches Some(t) && t.refinement) ==> r == Completion::Refinement,
            self.session.stage != Stage::Building && !(self.turn matches Some(t) && t.refinement) ==> r == Completion::Conversation,
    {
        if self.session.stage == Stage::Building {
            Completion::Build
        } else if self.refining() {
            Completion::Refinement
        } else {
            Completion::Conversation
        }
    }
}


/// The text of a conversation message or a revision request.
pub open spec fn message_text(action: Action) -> Option<Seq<char>> {
    match action {
        Action::Message { text } => Some(text@),
        Action::Revise { feedback } => Some(feedback@),
        _ => None,
    }
}

impl Controller {
    /// Starts the agent turn that a conversation message or a revision request asks for:
    /// it refines the proposal on tour when every buffer is saved, and is read-only
    /// otherwise, with the shadow files brought up to the real ones first when no
    /// proposal is pending. Gives the prompt and the turn's access.
    fn message_turn(&mut self, w: &World, text: String) -> (r: Result<Option<(String, WorkspaceMode)>, Fault>)
        requires
            old(self).wf(),
        ensures
            final(self).wf(),
            r is Err ==> *final(self) == *old(self),
            old(self).busy ==> r matches Err(Fault::Refused(Refusal::AgentBusy)),
            !old(self).busy && is_blank(text@) ==> r matches Err(Fault::Refused(Refusal::EmptyMessage)),
            r matches Ok(t) ==> (t matches Some((p, m)) && p@ == text@ && final(self).busy
                && (m == WorkspaceMode::Refine <==> old(self).refines_on_message())
                && (m == WorkspaceMode::ReadOnly <==> !old(self).refines_on_message())),
            old(self).refines_on_message() ==> {
                &&& (!old(self).busy && !is_blank(text@) ==> (r is Ok <==> old(self).editor_saved() && old(self).remember_of(*w, 0) is Some))
                &&& (r is Ok ==> final(self).refined(*old(self), *w))
            },
            !old(self).refines_on_message() ==> {
                &&& (!old(self).busy && !is_blank(text@) ==> (r is Ok <==> (!old(self).session.pending_proposal
                    ==> (old(self).current_of(*w, 0) matches Some(cur) && w.performed(0, EffectView::Sync(cur))))))
                &&& (r is Ok ==> *final(self) == (Controller { busy: true, ..*old(self) }))
            },
    {
        match self.check_message(text.as_str()) {
            Ok(()) => {},
            Err(e) => {
                return Err(Fault::Refused(e));
            },
        }
        if self.message_refines() {
            self.refine(w)?;
            Ok(Some((text, WorkspaceMode::Refine)))
        } else {
            self.prepare_turn(w, WorkspaceMode::ReadOnly)?;
            self.busy = true;
            Ok(Some((text, WorkspaceMode::ReadOnly)))
        }
    }

    /// Ends a conversation turn: a tour the agent gave with its answer is presented, and
    /// the agent is idle again.
    pub fn finish_conversation(&mut self, w: &World, tour: Option<TourDraft>) -> (r: Result<(), Fault>)
        requires
            old(self).wf(),
            old(self).generation < u64::MAX,
            old(self).session.tours@.len() < usize::MAX,
        ensures
            final(self).wf(),
            r is Err ==> *final(self) == *old(self),
            r is Ok ==> !final(self).busy && final(self).turn == old(self).turn,
            tour is None ==> (r is Ok && *final(self) == (Controller { busy: false, ..*old(self) })),
            tour matches Some(t) ==> final(self).presents(*old(self), *w, t, r),
    {
        match tour {
            None => {
                self.busy = false;
                Ok(())
            },
            Some(t) => {
                self.present_tour(w, t)?;
                self.busy = false;
                Ok(())
            },
        }
    }

    /// Starts the agent turn that `action` asks for, if any, and gives its prompt and
    /// what the agent may do in it. Only `/begin` starts a turn that builds; a message or
    /// a revision request refines the proposal on tour when every buffer is saved, and is
    /// read-only otherwise. Any other action starts no turn and changes nothing. The
    /// controller is busy once a turn has started.
    pub fn turn_for(&mut self, w: &World, action: Action) -> (r: Result<Option<(String, WorkspaceMode)>, Fault>)
        requires
            old(self).wf(),
        ensures
            final(self).wf(),
            r is Err && !(action is Begin) ==> *final(self) == *old(self),
            !(action is Message || action is Revise || action is Begin) ==> (r matches Ok(None) && *final(self) == *old(self)),
            r matches Ok(Some((_, m))) ==> final(self).busy && (m == WorkspaceMode::Build <==> action is Begin),
            action matches Action::Begin { text } ==> {
                &&& (r matches Err(Fault::Need(_)) ==> *final(self) == *old(self))
                &&& (r matches Err(Fault::Refused(_)) ==> final(self).kept(*old(self), old(self).begin_seen(*w).0, old(self).begin_seen(*w).1))
                &&& (old(self).busy || old(self).session.stage == Stage::Building
                    ==> r matches Err(Fault::Refused(Refusal::BeginWhileBusy)))
                &&& (r is Ok <==> !old(self).busy && old(self).session.stage != Stage::Building && old(self).editor_saved()
                    && old(self).begin_plan(*w) is Some)
                &&& (r matches Ok(t) ==> (t matches Some((p, m)) && p@ == begin_text(text@) && m == WorkspaceMode::Build
                    && final(self).began(*old(self), *w)))
            },
            message_text(action) matches Some(text) ==> {
                &&& (old(self).busy ==> r matches Err(Fault::Refused(Refusal::AgentBusy)))
                &&& (!old(self).busy && is_blank(text) ==> r matches Err(Fault::Refused(Refusal::EmptyMessage)))
                &&& (r matches Ok(t) ==> (t matches Some((p, m)) && p@ == text
                    && (m == WorkspaceMode::Refine <==> old(self).refines_on_message())
                    && (m == WorkspaceMode::ReadOnly <==> !old(self).refines_on_message())))
                &&& (old(self).refines_on_message() ==> {
                    &&& (!old(self).busy && !is_blank(text) ==> (r is Ok <==> old(self).editor_saved() && old(self).remember_of(*w, 0) is Some))
                    &&& (r is Ok ==> final(self).refined(*old(self), *w))
                })
                &&& (!old(self).refines_on_message() ==> {
                    &&& (!old(self).busy && !is_blank(text) ==> (r is Ok <==> (!old(self).session.pending_proposal
                        ==> (old(self).current_of(*w, 0) matches Some(cur) && w.performed(0, EffectView::Sync(cur))))))
                    &&& (r is Ok ==> *final(self) == (Controller { busy: true, ..*old(self) }))
                })
            },
    {
        match action {
            Action::Begin { text } => {
                self.begin(w)?;
                Ok(Some((begin_prompt(text), WorkspaceMode::Build)))
            },
            Action::Message { text } => self.message_turn(w, text),
            Action::Revise { feedback } => self.message_turn(w, feedback),
            _ => Ok(None),
        }
    }
}

/// Typed text that does not begin with `/` is a message to the agent, trimmed, whatever
/// words it holds.
pub proof fn law_plain_text_is_a_message(raw: Seq<char>, touring: bool, change_index: usize)
    requires
        trimmed(raw).len() > 0,
        trimmed(raw)[0] != '/',
    ensures
        parse_input(raw, touring, change_index) == Parsed::Message(trimmed(raw)),
{
    reveal_strlit("/revert");
    reveal_strlit("/begin");
    reveal_strlit("/revise");
    reveal_strlit("/proposal");
    reveal_strlit("/next");
    reveal_strlit("/prev");
    reveal_strlit("/jump");
    reveal_strlit("/close");
    reveal_strlit("/apply");
    reveal_strlit("/diff");
    reveal_strlit("/peek");
    reveal_strlit("/cancel");
    let input = trimmed(raw);
    lemma_scan(input, 0);
    let command = input.take(word_end(input, 0));
    assert(command.len() == 0 || command[0] == input[0]);
}

/// `/next` and `/prev` move through the active tour when there is one, and through the
/// applied changes otherwise.
pub proof fn law_next_and_prev_follow_the_tour(raw: Seq<char>, touring: bool, change_index: usize)
    ensures
        trimmed(raw) == "/next"@ ==> parse_input(raw, touring, change_index)
            == if touring { Parsed::TourNext } else { Parsed::NextChange },
        trimmed(raw) == "/prev"@ ==> parse_input(raw, touring, change_index)
            == if touring { Parsed::TourPrevious } else { Parsed::PreviousChange },
{
    reveal_strlit("/begin");
    reveal_strlit("/revise");
    reveal_strlit("/proposal");
    reveal_strlit("/next");
    reveal_strlit("/prev");
    let input = trimmed(raw);
    reveal_with_fuel(word_end, 6);
    if input == "/next"@ {
        assert(word_end(input, 0) == 5);
        assert(input.take(5) =~= input);
    }
    if input == "/prev"@ {
        assert(word_end(input, 0) == 5);
        assert(input.take(5) =~= input);
    }
}

/// A bare `/revert`, with no argument, reverts the change the review is at.
pub proof fn law_bare_revert_reverts_current_change(raw: Seq<char>, touring: bool, change_index: usize)
    requires
        trimmed(raw) == "/revert"@,
    ensures
        parse_input(raw, touring, change_index) == Parsed::Revert(Some(change_index)),
{
    reveal_strlit("/revert");
    reveal_strlit("/begin");
    reveal_strlit("/revise");
    reveal_strlit("/proposal");
    reveal_strlit("/next");
    reveal_strlit("/prev");
    reveal_strlit("/jump");
    reveal_strlit("/close");
    reveal_strlit("/apply");
    let input = trimmed(raw);
    reveal_with_fuel(word_end, 8);
    assert(word_end(input, 0) == 7);
    assert(input.take(7) =~= input);
    assert(input[4] != "/revise"@[4]);
}

/// Ordinary conversation never starts a build: only input whose first word is `/begin`
/// asks for one.
pub proof fn law_only_begin_builds(raw: Seq<char>, touring: bool, change_index: usize)
    ensures
        parse_input(raw, touring, change_index) is Begin ==> trimmed(raw).take(word_end(trimmed(raw), 0)) == "/begin"@,
{
}

} // verus!
