//! Prompt Compiler — intent refinement before agent execution.
//!
//! A single model subprocess refines raw user input into structured prompts.
//! This module holds everything the daemon decides and remembers: which
//! prompts go through the compiler, the self-contained message sent for each
//! refinement, the per-session memory of recent refinements and learned
//! hints, the feedback signals drawn from a finished exchange, and the
//! counters. Talking to the subprocess (and its timeouts) is left to the
//! caller, which hands the outcomes back.

use vstd::prelude::*;
use std::collections::VecDeque;
use crate::retrospective::notes::NoteType;
use crate::text::{
    char_count_for_bytes, chars_of, contains, contains_str, decimal, decimal_of, eq_str,
    extend_chars, extend_str, join, join_chars, lemma_utf8_len_prefix_mono, opt_chars, slice_range,
    string_of, string_views, utf8_len, utf8_len_at_most, views, words, words_of,
};
use crate::unicode::{is_alphanumeric, char_is_alphanumeric, lowercase, str_to_lowercase};

verus! {

/// Maximum number of recent refinements kept per session.
pub const MAX_RECENT_REFINEMENTS: usize = 5;

/// Number of recent refinements included in a compiler message.
pub const INCLUDE_RECENT: usize = 3;

/// Timeout for a single refinement call (ms).
pub const REFINE_TIMEOUT_MS: u64 = 500;

/// Timeout for acquiring the compiler when it is busy (ms).
pub const LOCK_CONTENTION_TIMEOUT_MS: u64 = 100;

/// Minimum number of words for a prompt to be compiled.
pub const MIN_TOKENS_FOR_COMPILE: usize = 15;

/// Maximum number of learned hints kept per session.
pub const MAX_HINTS_PER_SESSION: usize = 20;

/// Default system prompt for the Prompt Compiler.
pub const DEFAULT_COMPILER_PROMPT: &'static str = "You are a Prompt Compiler. Your ONLY job is to transform raw user input into a structured, clear prompt for a development agent.

## Rules
1. NEVER add information the user didn't imply — only CLARIFY intent
2. NEVER change the user's intent — a \"fix\" is a bug fix, not a refactor
3. Keep the refined prompt ≤ 1.5x the original length
4. If the input is already clear and actionable, return it UNCHANGED
5. Structure when helpful: [Action] [Target] [Constraints] [Expected outcome]
6. Preserve the user's language (French stays French, English stays English)
7. Don't expand scope — if user says \"file X\", don't add \"and file Y\"
8. Don't add tests/docs unless the user mentions them

## Multi-session awareness
Each message has a frontmatter header with project/language/session context.
Use this to calibrate your refinement — Rust debug ≠ Dart UI ≠ architecture discussion.

## Output format
Return ONLY the refined prompt text. No explanation, no markdown wrapper, no prefix.
If the input needs no refinement, return it exactly as-is.";

/// Name of the persona used by the Prompt Compiler in the graph.
pub const PERSONA_NAME: &'static str = "prompt-compiler";

// ============================================================================
// Debug formatting
// ============================================================================

/// What `format!("{:?}", s)` writes for a string: the string in double
/// quotes, with the characters that `char::escape_debug` escapes written as
/// escapes, except single quotes, which stay as they are.
pub uninterp spec fn debug_quoted(s: Seq<char>) -> Seq<char>;

/// A printable ASCII character (space to `~`) other than `"` and `\`: one
/// that `Debug` of a string writes as it is.
pub open spec fn debug_plain_char(c: char) -> bool {
    ' ' <= c && c <= '~' && c != '"' && c != '\\'
}

/// `format!("{:?}", s)`: the result is the name `debug_quoted` of `s`; a
/// string of characters that need no escape is written in double quotes
/// as it is.
#[verifier::external_body]
fn debug_string(s: &str) -> (r: String)
    ensures
        r@ == debug_quoted(s@),
        (forall|i: int| 0 <= i < s@.len() ==> debug_plain_char(#[trigger] s@[i])) ==> r@ == "\""@
            + s@ + "\""@,
{
    format!("{:?}", s)
}

// ============================================================================
// Truncation
// ============================================================================

/// `s` cut for display: unchanged when it has at most `max_len` characters;
/// otherwise its first `max_len` characters followed by `...`.
pub open spec fn truncated(s: Seq<char>, max_len: nat) -> Seq<char> {
    if s.len() <= max_len {
        s
    } else {
        s.take(max_len as int) + "..."@
    }
}

/// Truncates a string to `max_len` characters, appending `...` if it was
/// longer.
pub fn truncate(s: &str, max_len: usize) -> (r: String)
    ensures
        r@ == truncated(s@, max_len as nat),
{
    let cs = chars_of(s);
    if cs.len() <= max_len {
        return string_of(cs.as_slice());
    }
    let mut out = slice_range(cs.as_slice(), 0, max_len);
    proof {
        assert(cs@.subrange(0, max_len as int) =~= cs@.take(max_len as int));
    }
    extend_str(&mut out, "...");
    string_of(out.as_slice())
}

// ============================================================================
// Refinement context and per-session state
// ============================================================================

/// Context passed to a refinement, for building the self-contained message.
#[derive(Debug, Clone)]
pub struct RefineContext {
    /// Project slug (e.g. "knowloop", "budget")
    pub project_slug: String,
    /// Session UUID
    pub session_id: String,
    /// Primary programming language of the project
    pub primary_language: String,
    /// Conversation type / intent (e.g. "debug", "architect", "plan_run", "general")
    pub conversation_type: String,
    /// Active persona name, if any
    pub persona: Option<String>,
    /// Parent session ID (for forks)
    pub parent_session: Option<String>,
    /// Whether this message is a tool-use continuation
    pub is_tool_continuation: bool,
    /// Fork type (e.g. "plan_run", "user", "agent")
    pub fork_type: Option<String>,
}

/// A copy of an optional string.
fn copy_opt_string(o: &Option<String>) -> (r: Option<String>)
    ensures
        opt_chars(r) == opt_chars(*o),
{
    match o {
        Some(s) => Some(s.clone()),
        None => None,
    }
}

/// Per-session compiler state.
#[derive(Debug, Clone)]
pub struct SessionCompilerState {
    /// Recent (input, output) pairs for few-shot context, oldest first
    pub last_refinements: VecDeque<(String, String)>,
    /// Learned hints specific to this session
    pub learned_hints: Vec<String>,
    /// Conversation type for this session
    pub conversation_type: String,
    /// Parent session slug (for inheriting hints)
    pub parent_slug: Option<String>,
}

/// The (input, output) pairs of a refinement history, as character
/// sequences.
pub open spec fn pairs_view(q: Seq<(String, String)>) -> Seq<(Seq<char>, Seq<char>)> {
    q.map_values(|p: (String, String)| (p.0@, p.1@))
}

/// The history after one more exchange: the oldest dropped once the
/// history holds the maximum, then the new pair added last.
pub open spec fn history_after_push(
    h: Seq<(Seq<char>, Seq<char>)>,
    input: Seq<char>,
    output: Seq<char>,
) -> Seq<(Seq<char>, Seq<char>)> {
    if h.len() >= MAX_RECENT_REFINEMENTS {
        h.drop_first().push((input, output))
    } else {
        h.push((input, output))
    }
}

/// One line of the recent-refinements block.
pub open spec fn exchange_line(p: (Seq<char>, Seq<char>)) -> Seq<char> {
    "- Input: "@ + debug_quoted(truncated(p.0, 100)) + " → Output: "@ + debug_quoted(
        truncated(p.1, 150),
    )
}

/// The last `n` exchanges of a history (all of them if there are fewer),
/// oldest first.
pub open spec fn last_n<A>(h: Seq<A>, n: nat) -> Seq<A> {
    if h.len() > n {
        h.skip(h.len() - n)
    } else {
        h
    }
}

/// The recent-refinements block: one line per exchange among the last `n`,
/// joined with newlines.
pub open spec fn recent_block(h: Seq<(Seq<char>, Seq<char>)>, n: nat) -> Seq<char> {
    if h.len() == 0 {
        seq![]
    } else {
        join(last_n(h, n).map_values(|p: (Seq<char>, Seq<char>)| exchange_line(p)), "\n"@)
    }
}

/// The learned-hints block: each hint after `- `, joined with newlines.
pub open spec fn hints_block(hints: Seq<Seq<char>>) -> Seq<char> {
    if hints.len() == 0 {
        seq![]
    } else {
        join(hints.map_values(|h: Seq<char>| "- "@ + h), "\n"@)
    }
}

impl SessionCompilerState {
    /// The refinement history, as character sequences.
    pub open spec fn history(&self) -> Seq<(Seq<char>, Seq<char>)> {
        pairs_view(self.last_refinements@)
    }

    /// A new empty state for the context's session.
    pub fn new(ctx: &RefineContext) -> (s: SessionCompilerState)
        ensures
            s.last_refinements@.len() == 0,
            s.learned_hints@.len() == 0,
            s.conversation_type@ == ctx.conversation_type@,
            opt_chars(s.parent_slug) == opt_chars(ctx.parent_session),
    {
        SessionCompilerState {
            last_refinements: VecDeque::with_capacity(MAX_RECENT_REFINEMENTS),
            learned_hints: Vec::new(),
            conversation_type: ctx.conversation_type.clone(),
            parent_slug: copy_opt_string(&ctx.parent_session),
        }
    }

    /// Records a refinement exchange, evicting the oldest when the history
    /// holds the maximum.
    pub fn push_exchange(&mut self, input: &str, output: &str)
        ensures
            final(self).history() == history_after_push(old(self).history(), input@, output@),
            final(self).learned_hints == old(self).learned_hints,
            final(self).conversation_type == old(self).conversation_type,
            final(self).parent_slug == old(self).parent_slug,
    {
        let ghost h0 = self.last_refinements@;
        if self.last_refinements.len() >= MAX_RECENT_REFINEMENTS {
            self.last_refinements.pop_front();
            proof {
                assert(pairs_view(self.last_refinements@) =~= pairs_view(h0).drop_first());
            }
        }
        let ghost h1 = self.last_refinements@;
        let pair = (input.to_owned(), output.to_owned());
        self.last_refinements.push_back(pair);
        proof {
            assert(self.last_refinements@ == h1.push(pair));
            assert(pairs_view(self.last_refinements@) =~= pairs_view(h1).push((input@, output@)));
        }
    }

    /// The `n` most recent refinements, one line each, oldest first; empty
    /// when there are none.
    pub fn format_recent(&self, n: usize) -> (r: String)
        ensures
            r@ == recent_block(self.history(), n as nat),
    {
        let len = self.last_refinements.len();
        if len == 0 {
            return String::new();
        }
        let ghost h = self.history();
        let start: usize = if len > n {
            len - n
        } else {
            0
        };
        let ghost sel = last_n(h, n as nat);
        let ghost lines_spec = sel.map_values(|p: (Seq<char>, Seq<char>)| exchange_line(p));
        proof {
            assert(sel =~= h.skip(start as int));
        }
        let mut lines: Vec<Vec<char>> = Vec::new();
        let mut i: usize = start;
        while i < len
            invariant
                start <= i <= len,
                len == self.last_refinements@.len(),
                h == self.history(),
                sel == h.skip(start as int),
                lines_spec == sel.map_values(|p: (Seq<char>, Seq<char>)| exchange_line(p)),
                views(lines@) == lines_spec.take(i - start),
            decreases len - i,
        {
            let pair = &self.last_refinements[i];
            let mut line = chars_of("- Input: ");
            let t_in = truncate(pair.0.as_str(), 100);
            let d_in = debug_string(t_in.as_str());
            extend_str(&mut line, d_in.as_str());
            extend_str(&mut line, " → Output: ");
            let t_out = truncate(pair.1.as_str(), 150);
            let d_out = debug_string(t_out.as_str());
            extend_str(&mut line, d_out.as_str());
            proof {
                assert(h[i as int] == (pair.0@, pair.1@));
                assert(sel[i - start] == h[i as int]);
                assert(line@ == exchange_line(h[i as int]));
            }
            let ghost prev = lines@;
            lines.push(line);
            proof {
                assert(views(lines@) =~= views(prev).push(line@));
                assert(lines_spec.take(i + 1 - start) =~= lines_spec.take(i - start).push(
                    lines_spec[i - start],
                ));
            }
            i = i + 1;
        }
        proof {
            assert(lines_spec.take(len - start) =~= lines_spec);
        }
        let sep = chars_of("\n");
        let joined = join_chars(&lines, sep.as_slice());
        string_of(joined.as_slice())
    }

    /// The learned hints, one `- hint` line each; empty when there are none.
    pub fn format_hints(&self) -> (r: String)
        ensures
            r@ == hints_block(string_views(self.learned_hints@)),
    {
        let n = self.learned_hints.len();
        if n == 0 {
            return String::new();
        }
        let ghost hs = string_views(self.learned_hints@);
        let ghost lines_spec = hs.map_values(|h: Seq<char>| "- "@ + h);
        let mut lines: Vec<Vec<char>> = Vec::new();
        let mut i: usize = 0;
        proof {
            assert(views(lines@) =~= lines_spec.take(0));
        }
        while i < n
            invariant
                0 <= i <= n,
                n == self.learned_hints@.len(),
                hs == string_views(self.learned_hints@),
                lines_spec == hs.map_values(|h: Seq<char>| "- "@ + h),
                views(lines@) == lines_spec.take(i as int),
            decreases n - i,
        {
            let mut line = chars_of("- ");
            extend_str(&mut line, self.learned_hints[i].as_str());
            let ghost prev = lines@;
            lines.push(line);
            proof {
                assert(views(lines@) =~= views(prev).push(line@));
                assert(lines_spec.take(i + 1) =~= lines_spec.take(i as int).push(lines_spec[i as int]));
            }
            i = i + 1;
        }
        proof {
            assert(lines_spec.take(n as int) =~= lines_spec);
        }
        let sep = chars_of("\n");
        let joined = join_chars(&lines, sep.as_slice());
        string_of(joined.as_slice())
    }
}

/// The history never grows past the maximum: pushing onto a history of at
/// most the maximum keeps it at most the maximum, and keeps the newest pair
/// last.
pub proof fn lemma_history_bounded(
    h: Seq<(Seq<char>, Seq<char>)>,
    input: Seq<char>,
    output: Seq<char>,
)
    requires
        h.len() <= MAX_RECENT_REFINEMENTS,
    ensures
        history_after_push(h, input, output).len() <= MAX_RECENT_REFINEMENTS,
        history_after_push(h, input, output).last() == (input, output),
        h.len() < MAX_RECENT_REFINEMENTS ==> history_after_push(h, input, output).drop_last() == h,
        h.len() == MAX_RECENT_REFINEMENTS ==> history_after_push(h, input, output).drop_last()
            == h.drop_first(),
{
    assert(h.push((input, output)).drop_last() =~= h);
    assert(h.drop_first().push((input, output)).drop_last() =~= h.drop_first());
}

// ============================================================================
// Feedback
// ============================================================================

/// Feedback signal sent to the compiler after a stream completes.
#[derive(Debug, Clone)]
pub enum CompilerFeedback {
    /// The agent completed the task without the user needing to reformulate
    Success { session_id: String, project_slug: String },
    /// The user reformulated their message (original → new)
    Reformulation {
        session_id: String,
        project_slug: String,
        original: String,
        reformulated: String,
    },
    /// The agent asked for clarification (prompt was ambiguous)
    ClarificationNeeded { session_id: String, project_slug: String },
}

/// The number of bytes of a session id shown in messages: eight, or fewer
/// when the id is shorter.
pub open spec fn short_id_bytes(sid: Seq<char>) -> nat {
    if utf8_len(sid) < 8 {
        utf8_len(sid)
    } else {
        8
    }
}

/// The first eight bytes of a session id fall on a character boundary (or
/// the id is shorter): the id can be shortened for display.
pub open spec fn short_id_ok(sid: Seq<char>) -> bool {
    exists|k: int| 0 <= k <= sid.len() && #[trigger] utf8_len(sid.take(k)) == short_id_bytes(sid)
}

/// The session id as shown in messages: its first eight bytes.
pub open spec fn short_id(sid: Seq<char>) -> Seq<char> {
    sid.take(
        choose|k: int| 0 <= k <= sid.len() && #[trigger] utf8_len(sid.take(k)) == short_id_bytes(sid),
    )
}

proof fn lemma_prefix_bytes_unique(s: Seq<char>, i: int, j: int)
    requires
        0 <= i <= s.len(),
        0 <= j <= s.len(),
        utf8_len(s.take(i)) == utf8_len(s.take(j)),
    ensures
        i == j,
{
    if i < j {
        lemma_utf8_len_prefix_mono(s, i, j);
    } else if j < i {
        lemma_utf8_len_prefix_mono(s, j, i);
    }
}

/// The displayed form of a session id.
fn short_session_id(sid: &str) -> (r: Vec<char>)
    requires
        short_id_ok(sid@),
    ensures
        r@ == short_id(sid@),
{
    let cs = chars_of(sid);
    let ghost k0 = choose|k: int|
        0 <= k <= sid@.len() && #[trigger] utf8_len(sid@.take(k)) == short_id_bytes(sid@);
    if utf8_len_at_most(cs.as_slice(), 8) {
        proof {
            assert(cs@.take(cs@.len() as int) =~= cs@);
            if utf8_len(sid@) == 8 {
                assert(utf8_len(sid@.take(sid@.len() as int)) == short_id_bytes(sid@));
            }
            lemma_prefix_bytes_unique(sid@, k0, sid@.len() as int);
        }
        return slice_range(cs.as_slice(), 0, cs.len());
    }
    match char_count_for_bytes(cs.as_slice(), 8) {
        Some(k) => {
            proof {
                lemma_prefix_bytes_unique(sid@, k0, k as int);
            }
            let r = slice_range(cs.as_slice(), 0, k);
            assert(r@ =~= sid@.take(k as int));
            r
        },
        None => {
            proof {
                assert(utf8_len(sid@.take(k0)) == 8);
            }
            Vec::new()
        },
    }
}

/// The opening of every feedback message.
pub open spec fn feedback_head(project: Seq<char>, sid: Seq<char>) -> Seq<char> {
    "[FEEDBACK project="@ + project + " session="@ + short_id(sid) + "] "@
}

/// The message sent to the compiler for a feedback signal.
pub open spec fn feedback_message(f: CompilerFeedback) -> Seq<char> {
    match f {
        CompilerFeedback::Success { session_id, project_slug } => feedback_head(
            project_slug@,
            session_id@,
        ) + "✓ Last refinement was effective — task completed without reformulation."@,
        CompilerFeedback::Reformulation { session_id, project_slug, original, reformulated } =>
            feedback_head(project_slug@, session_id@) + "✗ User reformulated.\nBefore: "@
            + debug_quoted(truncated(original@, 200)) + "\nAfter: "@ + debug_quoted(
            truncated(reformulated@, 200),
        ) + "\nLearn from this — the refinement missed the user's true intent."@,
        CompilerFeedback::ClarificationNeeded { session_id, project_slug } => feedback_head(
            project_slug@,
            session_id@,
        )
            + "⚠ Agent asked for clarification — the prompt was still ambiguous after refinement."@,
    }
}

impl CompilerFeedback {
    /// The session id the signal is about.
    pub open spec fn session(&self) -> Seq<char> {
        match self {
            CompilerFeedback::Success { session_id, .. } => session_id@,
            CompilerFeedback::Reformulation { session_id, .. } => session_id@,
            CompilerFeedback::ClarificationNeeded { session_id, .. } => session_id@,
        }
    }

    /// Formats the signal as a message for the compiler daemon. The session
    /// id is cut to its first eight bytes, which must end on a character
    /// boundary.
    pub fn to_message(&self) -> (r: String)
        requires
            short_id_ok(self.session()),
        ensures
            r@ == feedback_message(*self),
    {
        match self {
            CompilerFeedback::Success { session_id, project_slug } => {
                let mut m = chars_of("[FEEDBACK project=");
                extend_str(&mut m, project_slug.as_str());
                extend_str(&mut m, " session=");
                let short = short_session_id(session_id.as_str());
                extend_chars(&mut m, short.as_slice());
                extend_str(&mut m, "] ");
                extend_str(
                    &mut m,
                    "✓ Last refinement was effective — task completed without reformulation.",
                );
                string_of(m.as_slice())
            },
            CompilerFeedback::Reformulation { session_id, project_slug, original, reformulated } => {
                let mut m = chars_of("[FEEDBACK project=");
                extend_str(&mut m, project_slug.as_str());
                extend_str(&mut m, " session=");
                let short = short_session_id(session_id.as_str());
                extend_chars(&mut m, short.as_slice());
                extend_str(&mut m, "] ");
                extend_str(&mut m, "✗ User reformulated.\nBefore: ");
                let t1 = truncate(original.as_str(), 200);
                let d1 = debug_string(t1.as_str());
                extend_str(&mut m, d1.as_str());
                extend_str(&mut m, "\nAfter: ");
                let t2 = truncate(reformulated.as_str(), 200);
                let d2 = debug_string(t2.as_str());
                extend_str(&mut m, d2.as_str());
                extend_str(&mut m, "\nLearn from this — the refinement missed the user's true intent.");
                string_of(m.as_slice())
            },
            CompilerFeedback::ClarificationNeeded { session_id, project_slug } => {
                let mut m = chars_of("[FEEDBACK project=");
                extend_str(&mut m, project_slug.as_str());
                extend_str(&mut m, " session=");
                let short = short_session_id(session_id.as_str());
                extend_chars(&mut m, short.as_slice());
                extend_str(&mut m, "] ");
                extend_str(
                    &mut m,
                    "⚠ Agent asked for clarification — the prompt was still ambiguous after refinement.",
                );
                string_of(m.as_slice())
            },
        }
    }
}

/// Whether a session id can be shortened for display (its first eight bytes
/// end on a character boundary, or it is shorter).
pub fn session_id_displayable(sid: &str) -> (b: bool)
    ensures
        b == short_id_ok(sid@),
{
    let cs = chars_of(sid);
    if utf8_len_at_most(cs.as_slice(), 8) {
        proof {
            assert(cs@.take(cs@.len() as int) =~= cs@);
            assert(utf8_len(sid@.take(sid@.len() as int)) == short_id_bytes(sid@));
        }
        return true;
    }
    match char_count_for_bytes(cs.as_slice(), 8) {
        Some(k) => {
            assert(utf8_len(sid@.take(k as int)) == short_id_bytes(sid@));
            true
        },
        None => false,
    }
}

// ============================================================================
// Which prompts go through the compiler
// ============================================================================

/// A prompt is compiled unless it continues a tool use, belongs to a
/// `plan_run` fork, or has fewer than `MIN_TOKENS_FOR_COMPILE` words.
pub open spec fn compile_wanted(prompt: Seq<char>, ctx: RefineContext) -> bool {
    &&& !ctx.is_tool_continuation
    &&& opt_chars(ctx.fork_type) != Some("plan_run"@)
    &&& words(prompt).len() >= MIN_TOKENS_FOR_COMPILE
}

// ============================================================================
// Clarification and reformulation signals
// ============================================================================

/// The first `n` bytes of `s` end on a character boundary.
pub open spec fn byte_boundary(s: Seq<char>, n: nat) -> bool {
    exists|k: int| 0 <= k <= s.len() && #[trigger] utf8_len(s.take(k)) == n
}

/// The characters of the first `n` bytes of `s`.
pub open spec fn byte_prefix(s: Seq<char>, n: nat) -> Seq<char> {
    s.take(choose|k: int| 0 <= k <= s.len() && #[trigger] utf8_len(s.take(k)) == n)
}

/// The part of a lowercased reply that is searched for clarification
/// requests: its first 500 bytes, or all of it when shorter; `None` when the
/// 500th byte falls inside a character.
pub open spec fn clarification_window(low: Seq<char>) -> Option<Seq<char>> {
    if utf8_len(low) > 500 {
        if byte_boundary(low, 500) {
            Some(byte_prefix(low, 500))
        } else {
            None
        }
    } else {
        Some(low)
    }
}

/// The searched part of a reply is the start of it: the whole reply when it
/// has at most 500 bytes, else exactly its first 500 bytes.
pub proof fn lemma_clarification_window_prefix(low: Seq<char>)
    ensures
        clarification_window(low) matches Some(w) ==> w.len() <= low.len() && low.take(
            w.len() as int,
        ) == w,
        utf8_len(low) <= 500 ==> clarification_window(low) == Some(low),
        clarification_window(low) matches Some(w) ==> (utf8_len(low) > 500 ==> utf8_len(w) == 500),
{
    if utf8_len(low) > 500 && byte_boundary(low, 500) {
        let k = choose|k: int| 0 <= k <= low.len() && #[trigger] utf8_len(low.take(k)) == 500nat;
        let w = low.take(k);
        assert(w.len() == k);
        assert(low.take(w.len() as int) =~= w);
    } else if utf8_len(low) <= 500 {
        assert(low.take(low.len() as int) =~= low);
    }
}

/// The text holds one of the phrases with which an agent asks for
/// clarification, in English or French.
pub open spec fn asks_clarification(w: Seq<char>) -> bool {
    ||| contains(w, "could you clarify"@)
    ||| contains(w, "can you clarify"@)
    ||| contains(w, "do you mean"@)
    ||| contains(w, "did you mean"@)
    ||| contains(w, "could you specify"@)
    ||| contains(w, "can you specify"@)
    ||| contains(w, "what do you mean by"@)
    ||| contains(w, "which one"@)
    ||| contains(w, "which file"@)
    ||| contains(w, "a few questions"@)
    ||| contains(w, "before i proceed"@)
    ||| contains(w, "before proceeding"@)
    ||| contains(w, "just to confirm"@)
    ||| contains(w, "je veux clarifier"@)
    ||| contains(w, "tu veux dire"@)
    ||| contains(w, "peux-tu préciser"@)
    ||| contains(w, "lequel"@)
    ||| contains(w, "c'est-à-dire"@)
    ||| contains(w, "tu parles de"@)
    ||| contains(w, "quelques questions"@)
    ||| contains(w, "avant de commencer"@)
}

/// A reply that asks for clarification in so many words is recognised as
/// such: a text holding any one of the English or French clarification
/// phrases (`did you mean`, `do you mean`, `could you clarify`, `lequel`, and
/// the others below) counts as asking for clarification.
pub proof fn lemma_clarification_phrases(w: Seq<char>)
    ensures
        contains(w, "could you clarify"@) ==> asks_clarification(w),
        contains(w, "can you clarify"@) ==> asks_clarification(w),
        contains(w, "do you mean"@) ==> asks_clarification(w),
        contains(w, "did you mean"@) ==> asks_clarification(w),
        contains(w, "could you specify"@) ==> asks_clarification(w),
        contains(w, "can you specify"@) ==> asks_clarification(w),
        contains(w, "what do you mean by"@) ==> asks_clarification(w),
        contains(w, "which one"@) ==> asks_clarification(w),
        contains(w, "which file"@) ==> asks_clarification(w),
        contains(w, "a few questions"@) ==> asks_clarification(w),
        contains(w, "before i proceed"@) ==> asks_clarification(w),
        contains(w, "before proceeding"@) ==> asks_clarification(w),
        contains(w, "just to confirm"@) ==> asks_clarification(w),
        contains(w, "je veux clarifier"@) ==> asks_clarification(w),
        contains(w, "tu veux dire"@) ==> asks_clarification(w),
        contains(w, "peux-tu préciser"@) ==> asks_clarification(w),
        contains(w, "lequel"@) ==> asks_clarification(w),
        contains(w, "c'est-à-dire"@) ==> asks_clarification(w),
        contains(w, "tu parles de"@) ==> asks_clarification(w),
        contains(w, "quelques questions"@) ==> asks_clarification(w),
        contains(w, "avant de commencer"@) ==> asks_clarification(w),
{
}

/// A reply whose lowercased first 500 bytes (all of it when shorter) hold a
/// clarification phrase such as `did you mean` or `do you mean` is detected
/// as a clarification request.
pub proof fn lemma_detected_clarification(text: Seq<char>)
    ensures
        clarification_window(lowercase(text)) matches Some(w) ==> ((contains(w, "did you mean"@)
            || contains(w, "do you mean"@) || contains(w, "could you clarify"@) || contains(
            w,
            "what do you mean by"@,
        ) || contains(w, "tu veux dire"@)) ==> asks_clarification(w)),
{
}

/// Whether a reply asks for clarification.
fn asks_clarification_chars(w: &[char]) -> (b: bool)
    ensures
        b == asks_clarification(w@),
{
    contains_str(w, "could you clarify") || contains_str(w, "can you clarify") || contains_str(
        w,
        "do you mean",
    ) || contains_str(w, "did you mean") || contains_str(w, "could you specify") || contains_str(
        w,
        "can you specify",
    ) || contains_str(w, "what do you mean by") || contains_str(w, "which one") || contains_str(
        w,
        "which file",
    ) || contains_str(w, "a few questions") || contains_str(w, "before i proceed")
        || contains_str(w, "before proceeding") || contains_str(w, "just to confirm")
        || contains_str(w, "je veux clarifier") || contains_str(w, "tu veux dire") || contains_str(
        w,
        "peux-tu préciser",
    ) || contains_str(w, "lequel") || contains_str(w, "c'est-à-dire") || contains_str(
        w,
        "tu parles de",
    ) || contains_str(w, "quelques questions") || contains_str(w, "avant de commencer")
}

/// Characters of a word that are kept at its ends: letters and digits.
pub open spec fn strip_non_alnum_start(w: Seq<char>) -> Seq<char>
    decreases w.len(),
{
    if w.len() > 0 && !is_alphanumeric(w[0]) {
        strip_non_alnum_start(w.drop_first())
    } else {
        w
    }
}

/// `w` without its trailing characters that are neither letters nor digits.
pub open spec fn strip_non_alnum_end(w: Seq<char>) -> Seq<char>
    decreases w.len(),
{
    if w.len() > 0 && !is_alphanumeric(w.last()) {
        strip_non_alnum_end(w.drop_last())
    } else {
        w
    }
}

/// A word without the non-alphanumeric characters at its ends.
pub open spec fn clean_word(w: Seq<char>) -> Seq<char> {
    strip_non_alnum_end(strip_non_alnum_start(w))
}

/// The cleaned words of a sequence whose UTF-8 encoding is longer than two
/// bytes, in order.
pub open spec fn significant(ws: Seq<Seq<char>>) -> Seq<Seq<char>>
    decreases ws.len(),
{
    if ws.len() == 0 {
        seq![]
    } else {
        let rest = significant(ws.drop_last());
        let c = clean_word(ws.last());
        if utf8_len(c) > 2 {
            rest.push(c)
        } else {
            rest
        }
    }
}

/// The elements of a sequence without repetitions, in order of first
/// occurrence.
pub open spec fn distinct(ws: Seq<Seq<char>>) -> Seq<Seq<char>>
    decreases ws.len(),
{
    if ws.len() == 0 {
        seq![]
    } else {
        let rest = distinct(ws.drop_last());
        if rest.contains(ws.last()) {
            rest
        } else {
            rest.push(ws.last())
        }
    }
}

/// The distinct significant words of a message.
pub open spec fn word_set(s: Seq<char>) -> Seq<Seq<char>> {
    distinct(significant(words(s)))
}

/// How many elements of `a` occur in `b`.
pub open spec fn count_in(a: Seq<Seq<char>>, b: Seq<Seq<char>>) -> nat
    decreases a.len(),
{
    if a.len() == 0 {
        0
    } else {
        count_in(a.drop_last(), b) + if b.contains(a.last()) {
            1nat
        } else {
            0nat
        }
    }
}

/// Two consecutive messages are a reformulation when both have significant
/// words and the share of words they have in common (shared words over all
/// words, counted without repetition) lies between 30% and 70%.
pub open spec fn is_reformulation(previous: Seq<char>, current: Seq<char>) -> bool {
    let a = word_set(previous);
    let b = word_set(current);
    let inter = count_in(a, b);
    let union = a.len() + b.len() - inter;
    &&& a.len() > 0
    &&& b.len() > 0
    &&& union > 0
    &&& 10 * inter >= 3 * union
    &&& 10 * inter <= 7 * union
}

/// A word without the non-alphanumeric characters at its ends.
fn clean_word_chars(w: &Vec<char>) -> (r: Vec<char>)
    ensures
        r@ == clean_word(w@),
{
    let n = w.len();
    let mut i: usize = 0;
    assert(w@.skip(0) =~= w@);
    while i < n && !char_is_alphanumeric(w[i])
        invariant
            0 <= i <= n,
            n == w@.len(),
            strip_non_alnum_start(w@) == strip_non_alnum_start(w@.skip(i as int)),
        decreases n - i,
    {
        proof {
            assert(w@.skip(i as int).drop_first() =~= w@.skip(i + 1));
        }
        i = i + 1;
    }
    let ghost t = w@.skip(i as int);
    assert(i < n ==> t[0] == w@[i as int]);
    assert(strip_non_alnum_start(w@) == t);
    let mut j: usize = n;
    assert(t =~= w@.subrange(i as int, n as int));
    while j > i && !char_is_alphanumeric(w[j - 1])
        invariant
            i <= j <= n,
            n == w@.len(),
            t == w@.skip(i as int),
            strip_non_alnum_end(t) == strip_non_alnum_end(w@.subrange(i as int, j as int)),
        decreases j,
    {
        proof {
            assert(w@.subrange(i as int, j as int).drop_last() =~= w@.subrange(i as int, j - 1));
        }
        j = j - 1;
    }
    proof {
        let u = w@.subrange(i as int, j as int);
        assert(j > i ==> u.last() == w@[j - 1]);
        assert(strip_non_alnum_end(u) == u);
    }
    slice_range(w.as_slice(), i, j)
}

/// Whether `ws` holds `w`.
fn holds(ws: &Vec<Vec<char>>, w: &Vec<char>) -> (b: bool)
    ensures
        b == views(ws@).contains(w@),
{
    let mut k: usize = 0;
    while k < ws.len()
        invariant
            0 <= k <= ws@.len(),
            forall|m: int| 0 <= m < k ==> views(ws@)[m] != w@,
        decreases ws@.len() - k,
    {
        if crate::text::eq_chars(ws[k].as_slice(), w.as_slice()) {
            assert(views(ws@)[k as int] == w@);
            return true;
        }
        k = k + 1;
    }
    false
}

/// The distinct significant words of a message.
fn word_set_of(s: &str) -> (r: Vec<Vec<char>>)
    ensures
        views(r@) == word_set(s@),
{
    let cs = chars_of(s);
    let ws = words_of(cs.as_slice());
    let ghost wv = views(ws@);
    let mut sig: Vec<Vec<char>> = Vec::new();
    let mut i: usize = 0;
    proof {
        assert(wv.take(0) =~= Seq::<Seq<char>>::empty());
        assert(views(sig@) =~= Seq::<Seq<char>>::empty());
    }
    while i < ws.len()
        invariant
            0 <= i <= ws@.len(),
            wv == views(ws@),
            views(sig@) == significant(wv.take(i as int)),
        decreases ws@.len() - i,
    {
        let c = clean_word_chars(&ws[i]);
        proof {
            assert(wv.take(i + 1).drop_last() =~= wv.take(i as int));
            assert(wv.take(i + 1).last() == ws@[i as int]@);
        }
        if !utf8_len_at_most(c.as_slice(), 2) {
            let ghost prev = sig@;
            sig.push(c);
            proof {
                assert(views(sig@) =~= views(prev).push(c@));
            }
        }
        i = i + 1;
    }
    proof {
        assert(wv.take(i as int) =~= wv);
    }
    let ghost sv = views(sig@);
    let mut out: Vec<Vec<char>> = Vec::new();
    let mut j: usize = 0;
    proof {
        assert(sv.take(0) =~= Seq::<Seq<char>>::empty());
        assert(views(out@) =~= Seq::<Seq<char>>::empty());
    }
    while j < sig.len()
        invariant
            0 <= j <= sig@.len(),
            sv == views(sig@),
            views(out@) == distinct(sv.take(j as int)),
        decreases sig@.len() - j,
    {
        proof {
            assert(sv.take(j + 1).drop_last() =~= sv.take(j as int));
            assert(sv.take(j + 1).last() == sig@[j as int]@);
        }
        if !holds(&out, &sig[j]) {
            let c = slice_range(sig[j].as_slice(), 0, sig[j].len());
            let ghost prev = out@;
            out.push(c);
            proof {
                assert(c@ =~= sig@[j as int]@);
                assert(views(out@) =~= views(prev).push(c@));
            }
        }
        j = j + 1;
    }
    proof {
        assert(sv.take(j as int) =~= sv);
    }
    out
}

/// How many elements of `a` occur in `b`.
fn count_in_vecs(a: &Vec<Vec<char>>, b: &Vec<Vec<char>>) -> (r: usize)
    ensures
        r == count_in(views(a@), views(b@)),
        r <= a@.len(),
{
    let ghost av = views(a@);
    let mut n: usize = 0;
    let mut i: usize = 0;
    proof {
        assert(av.take(0) =~= Seq::<Seq<char>>::empty());
    }
    while i < a.len()
        invariant
            0 <= i <= a@.len(),
            av == views(a@),
            n == count_in(av.take(i as int), views(b@)),
            n <= i,
        decreases a@.len() - i,
    {
        proof {
            assert(av.take(i + 1).drop_last() =~= av.take(i as int));
            assert(av.take(i + 1).last() == a@[i as int]@);
        }
        if holds(b, &a[i]) {
            n = n + 1;
        }
        i = i + 1;
    }
    proof {
        assert(av.take(i as int) =~= av);
    }
    n
}

// ============================================================================
// The compiler's memory and decisions
// ============================================================================

/// The memory of one session.
#[derive(Debug, Clone)]
pub struct SessionEntry {
    /// Project slug of the session
    pub project_slug: String,
    /// Session id
    pub session_id: String,
    /// What the compiler remembers of the session
    pub state: SessionCompilerState,
}

/// What a finished exchange tells the compiler.
#[derive(Debug, Clone)]
pub enum FeedbackDecision {
    /// No refinement was made in this session: nothing is sent.
    Skip,
    /// The 500-byte window of the lowercased reply ends inside a character,
    /// so the reply cannot be searched.
    Undecidable,
    /// The agent asked for clarification: the signal, and the hint to learn.
    Clarification { feedback: CompilerFeedback, hint: String },
    /// The user reformulated the previous prompt.
    Reformulation { feedback: CompilerFeedback },
    /// The refinement was effective.
    Success { feedback: CompilerFeedback },
}

/// The Prompt Compiler's state: the per-session memory, keyed by (project,
/// session), and the refinement and bypass counters.
#[derive(Debug)]
pub struct PromptCompiler {
    /// Per-(project, session) compiler state
    session_memory: Vec<SessionEntry>,
    /// Total refinements performed
    pub refinement_count: u64,
    /// Total bypasses (passthrough because of contention, error or timeout)
    pub bypass_count: u64,
}

/// What the compiler answered a refinement request.
#[derive(Debug, Clone)]
pub enum RefineOutcome {
    /// Another request held the compiler past the contention timeout.
    Contended,
    /// The refined prompt.
    Refined(String),
    /// The request failed or timed out.
    Failed,
}

/// The compiler's reply: the text blocks of its assistant messages joined,
/// and trimmed; an error where they hold no text.
pub fn extract_reply(blocks: &Vec<String>) -> (r: Result<String, String>)
    ensures
        join(string_views(blocks@), seq![]).len() == 0 ==> (r matches Err(e) && e@
            == "Empty response from compiler"@),
        join(string_views(blocks@), seq![]).len() > 0 ==> (r matches Ok(t) && t@ == crate::text::trim(
            join(string_views(blocks@), seq![]),
        )),
{
    let mut parts: Vec<Vec<char>> = Vec::new();
    let mut i: usize = 0;
    while i < blocks.len()
        invariant
            0 <= i <= blocks@.len(),
            views(parts@) == string_views(blocks@).take(i as int),
        decreases blocks@.len() - i,
    {
        let ghost before = views(parts@);
        parts.push(chars_of(blocks[i].as_str()));
        proof {
            assert(views(parts@) =~= before.push(blocks@[i as int]@));
            assert(string_views(blocks@).take(i + 1) =~= string_views(blocks@).take(i as int).push(blocks@[i as int]@));
        }
        i = i + 1;
    }
    proof {
        assert(string_views(blocks@).take(i as int) =~= string_views(blocks@));
    }
    let empty: Vec<char> = Vec::new();
    let text = join_chars(&parts, empty.as_slice());
    proof {
        assert(empty@ =~= Seq::<char>::empty());
    }
    if text.len() == 0 {
        return Err("Empty response from compiler".to_string());
    }
    let t = crate::text::trimmed(text.as_slice());
    Ok(string_of(t.as_slice()))
}

/// The system prompt of the compiler persona among the global personas
/// (name and prompt override): the override of the first one named
/// `prompt-compiler`, or the default prompt where it has none; `None` where
/// there is no such persona (and it has to be created).
pub fn persona_prompt(personas: &Vec<(String, Option<String>)>) -> (r: Option<String>)
    ensures
        (exists|i: int| 0 <= i < personas@.len() && #[trigger] personas@[i].0@ == PERSONA_NAME@)
            <==> r is Some,
        r matches Some(p) ==> {
            let i = choose|i: int|
                0 <= i < personas@.len() && #[trigger] personas@[i].0@ == PERSONA_NAME@
                    && forall|j: int| 0 <= j < i ==> personas@[j].0@ != PERSONA_NAME@;
            p@ == (match personas@[i].1 {
                Some(o) => o@,
                None => DEFAULT_COMPILER_PROMPT@,
            })
        },
{
    let mut i: usize = 0;
    while i < personas.len()
        invariant
            0 <= i <= personas@.len(),
            forall|j: int| 0 <= j < i ==> #[trigger] personas@[j].0@ != PERSONA_NAME@,
        decreases personas@.len() - i,
    {
        if eq_str(personas[i].0.as_str(), PERSONA_NAME) {
            let p = match &personas[i].1 {
                Some(o) => o.clone(),
                None => DEFAULT_COMPILER_PROMPT.to_string(),
            };
            proof {
                let c = choose|c: int|
                    0 <= c < personas@.len() && #[trigger] personas@[c].0@ == PERSONA_NAME@
                        && forall|j: int| 0 <= j < c ==> personas@[j].0@ != PERSONA_NAME@;
                assert(personas@[i as int].0@ == PERSONA_NAME@);
                if c < i {
                } else if c > i {
                    assert(personas@[i as int].0@ != PERSONA_NAME@);
                }
            }
            return Some(p);
        }
        i = i + 1;
    }
    None
}

/// The status of a persona.
#[derive(Debug, Clone, Copy, PartialEq, Eq, Structural)]
pub enum PersonaStatus {
    Active,
}

/// Description of the compiler persona created where none exists.
pub const PERSONA_DESCRIPTION: &'static str = "Prompt Compiler daemon — refines user prompts before agent execution. Transforms vague input into structured, clear prompts.";

/// The persona to create: global (no project), named `prompt-compiler`,
/// active, preferring the `haiku` model, with the default prompt.
#[derive(Debug, Clone)]
pub struct PersonaToCreate {
    pub project_id: Option<u128>,
    pub name: String,
    pub description: String,
    pub status: PersonaStatus,
    pub model_preference: Option<String>,
    pub system_prompt_override: Option<String>,
}

/// Where the compiler's system prompt comes from.
#[derive(Debug, Clone)]
pub enum PersonaPlan {
    /// The existing persona's prompt.
    Use(String),
    /// No persona exists: create this one, then use the default prompt.
    Create(PersonaToCreate),
}

/// The system prompt from the global personas, or the persona to create
/// where none is named `prompt-compiler`.
pub fn persona_plan(personas: &Vec<(String, Option<String>)>) -> (r: PersonaPlan)
    ensures
        (exists|i: int| 0 <= i < personas@.len() && #[trigger] personas@[i].0@ == PERSONA_NAME@)
            <==> r is Use,
        r matches PersonaPlan::Use(p) ==> {
            let i = choose|i: int|
                0 <= i < personas@.len() && #[trigger] personas@[i].0@ == PERSONA_NAME@
                    && forall|j: int| 0 <= j < i ==> personas@[j].0@ != PERSONA_NAME@;
            p@ == (match personas@[i].1 {
                Some(o) => o@,
                None => DEFAULT_COMPILER_PROMPT@,
            })
        },
        r matches PersonaPlan::Create(c) ==> {
            &&& c.project_id is None
            &&& c.name@ == PERSONA_NAME@
            &&& c.description@ == PERSONA_DESCRIPTION@
            &&& c.status == PersonaStatus::Active
            &&& c.model_preference matches Some(m) && m@ == "haiku"@
            &&& c.system_prompt_override matches Some(o) && o@ == DEFAULT_COMPILER_PROMPT@
        },
{
    match persona_prompt(personas) {
        Some(p) => PersonaPlan::Use(p),
        None => PersonaPlan::Create(
            PersonaToCreate {
                project_id: None,
                name: PERSONA_NAME.to_string(),
                description: PERSONA_DESCRIPTION.to_string(),
                status: PersonaStatus::Active,
                model_preference: Some("haiku".to_string()),
                system_prompt_override: Some(DEFAULT_COMPILER_PROMPT.to_string()),
            },
        ),
    }
}

/// The system prompt once the persona was created: the default prompt, or
/// the creation's error.
pub fn prompt_after_creation<E>(created: Result<(), E>) -> (r: Result<String, E>)
    ensures
        created is Ok ==> (r matches Ok(p) && p@ == DEFAULT_COMPILER_PROMPT@),
        created matches Err(e) ==> (r matches Err(x) && x == e),
{
    match created {
        Ok(()) => Ok(DEFAULT_COMPILER_PROMPT.to_string()),
        Err(e) => Err(e),
    }
}

/// What recording a refinement does: the refinement counter goes up by one
/// (wrapping), the bypass counter stays, and the exchange joins the
/// session's history (a new session, made from the context, where there was
/// none).
pub open spec fn refinement_recorded(
    before: PromptCompiler,
    after: PromptCompiler,
    prompt: Seq<char>,
    ctx: RefineContext,
    refined: Seq<char>,
) -> bool {
    &&& after.refinements() == before.refinements().wrapping_add(1)
    &&& after.bypasses() == before.bypasses()
    &&& match session_index(before.sessions(), ctx.project_slug@, ctx.session_id@) {
        Some(i) => after.sessions() == before.sessions().update(i, after.sessions()[i])
            && after.sessions()[i].state.history() == history_after_push(
            before.sessions()[i].state.history(),
            prompt,
            refined,
        ) && after.sessions()[i].state.learned_hints == before.sessions()[i].state.learned_hints,
        None => after.sessions().len() == before.sessions().len() + 1 && after.sessions().drop_last()
            == before.sessions() && after.sessions().last().project_slug@ == ctx.project_slug@
            && after.sessions().last().session_id@ == ctx.session_id@
            && after.sessions().last().state.history() == seq![(prompt, refined)]
            && after.sessions().last().state.learned_hints@.len() == 0,
    }
}

/// The index of the first entry for (project, session).
pub open spec fn session_index(m: Seq<SessionEntry>, project: Seq<char>, session: Seq<char>) -> Option<
    int,
> {
    if exists|i: int|
        0 <= i < m.len() && #[trigger] m[i].project_slug@ == project && m[i].session_id@
            == session {
        Some(
            choose|i: int|
                0 <= i < m.len() && #[trigger] m[i].project_slug@ == project && m[i].session_id@
                    == session && forall|j: int|
                    0 <= j < i ==> !(#[trigger] m[j].project_slug@ == project && m[j].session_id@
                        == session),
        )
    } else {
        None
    }
}

/// The frontmatter that opens every compiler message.
pub open spec fn frontmatter(ctx: RefineContext) -> Seq<char> {
    "---\nproject: "@ + ctx.project_slug@ + "\nlanguage: "@ + ctx.primary_language@
        + "\nsession_type: "@ + ctx.conversation_type@ + "\npersona: "@ + match ctx.persona {
        Some(p) => p@,
        None => "none"@,
    } + "\n---"@
}

/// The parts of a compiler message: the frontmatter, the recent
/// refinements (at most `INCLUDE_RECENT`) and the learned hints of the
/// session where it has any, and the prompt.
pub open spec fn message_parts(
    state: Option<SessionCompilerState>,
    prompt: Seq<char>,
    ctx: RefineContext,
) -> Seq<Seq<char>> {
    let head = seq![frontmatter(ctx)];
    let with_state = match state {
        Some(s) => {
            let recent = recent_block(s.history(), INCLUDE_RECENT as nat);
            let hints = hints_block(string_views(s.learned_hints@));
            let p1 = if recent.len() > 0 {
                head.push("## Recent refinements for this session\n"@ + recent)
            } else {
                head
            };
            if hints.len() > 0 {
                p1.push("## Learned hints\n"@ + hints)
            } else {
                p1
            }
        },
        None => head,
    };
    with_state.push("Refine this prompt:\n"@ + prompt)
}

/// The hint learned when an agent asked for clarification.
pub open spec fn clarification_hint(user_prompt: Seq<char>) -> Seq<char> {
    "Ambiguous pattern: "@ + debug_quoted(truncated(user_prompt, 80))
        + " → agent asked for clarification"@
}

/// The learned hints of all sessions, each once, in the order the sessions
/// and their hints come.
pub open spec fn all_hints(m: Seq<SessionEntry>) -> Seq<Seq<char>>
    decreases m.len(),
{
    if m.len() == 0 {
        seq![]
    } else {
        distinct(all_hints(m.drop_last()) + string_views(m.last().state.learned_hints@))
    }
}

/// Adds `w` to `out` unless it is already there.
fn push_distinct(out: &mut Vec<Vec<char>>, w: Vec<char>)
    ensures
        views(final(out)@) == (if views(old(out)@).contains(w@) {
            views(old(out)@)
        } else {
            views(old(out)@).push(w@)
        }),
{
    if !holds(out, &w) {
        let ghost prev = out@;
        out.push(w);
        proof {
            assert(views(out@) =~= views(prev).push(w@));
        }
    }
}

proof fn lemma_distinct_append(a: Seq<Seq<char>>, b: Seq<Seq<char>>, x: Seq<char>)
    ensures
        distinct(a + b.push(x)) == (if distinct(a + b).contains(x) {
            distinct(a + b)
        } else {
            distinct(a + b).push(x)
        }),
{
    assert((a + b.push(x)).drop_last() =~= a + b);
}

proof fn lemma_distinct_idempotent(a: Seq<Seq<char>>)
    ensures
        distinct(distinct(a)) == distinct(a),
        distinct(a).no_duplicates(),
    decreases a.len(),
{
    if a.len() > 0 {
        lemma_distinct_idempotent(a.drop_last());
        let r = distinct(a.drop_last());
        if !r.contains(a.last()) {
            assert(r.push(a.last()).drop_last() =~= r);
            assert(r.push(a.last()).no_duplicates()) by {
                assert forall|i: int, j: int|
                    0 <= i < r.len() + 1 && 0 <= j < r.len() + 1 && i != j implies r.push(
                    a.last(),
                )[i] != r.push(a.last())[j] by {
                    if i == r.len() as int {
                        assert(r.push(a.last())[j] == r[j]);
                    } else if j == r.len() as int {
                        assert(r.push(a.last())[i] == r[i]);
                    }
                }
            }
        }
    }
}

proof fn lemma_all_hints_distinct(m: Seq<SessionEntry>)
    ensures
        distinct(all_hints(m)) == all_hints(m),
{
    if m.len() > 0 {
        lemma_distinct_idempotent(all_hints(m.drop_last()) + string_views(m.last().state.learned_hints@));
    }
}

proof fn lemma_distinct_of_distinct_append(a: Seq<Seq<char>>, b: Seq<Seq<char>>)
    ensures
        distinct(distinct(a) + b) == distinct(a + b),
    decreases b.len(),
{
    if b.len() == 0 {
        assert(distinct(a) + b =~= distinct(a));
        assert(a + b =~= a);
        lemma_distinct_idempotent(a);
    } else {
        lemma_distinct_of_distinct_append(a, b.drop_last());
        assert(b =~= b.drop_last().push(b.last()));
        lemma_distinct_append(distinct(a), b.drop_last(), b.last());
        lemma_distinct_append(a, b.drop_last(), b.last());
    }
}

impl PromptCompiler {
    /// The sessions remembered, in the order they were first seen.
    pub closed spec fn sessions(&self) -> Seq<SessionEntry> {
        self.session_memory@
    }

    /// The number of refinements counted.
    pub closed spec fn refinements(&self) -> u64 {
        self.refinement_count
    }

    /// The number of bypasses counted.
    pub closed spec fn bypasses(&self) -> u64 {
        self.bypass_count
    }

    /// An empty compiler state with zero counters.
    pub fn new() -> (c: PromptCompiler)
        ensures
            c.sessions().len() == 0,
            c.refinements() == 0,
            c.bypasses() == 0,
    {
        PromptCompiler { session_memory: Vec::new(), refinement_count: 0, bypass_count: 0 }
    }

    /// The index of the memory of (project, session), if any.
    pub fn find_session(&self, project_slug: &str, session_id: &str) -> (r: Option<usize>)
        ensures
            r matches Some(i) ==> session_index(self.sessions(), project_slug@, session_id@)
                == Some(i as int) && i < self.sessions().len(),
            r is None ==> session_index(self.sessions(), project_slug@, session_id@) == None::<int>,
    {
        let ghost m = self.session_memory@;
        let mut i: usize = 0;
        while i < self.session_memory.len()
            invariant
                0 <= i <= m.len(),
                m == self.session_memory@,
                forall|j: int|
                    0 <= j < i ==> !(#[trigger] m[j].project_slug@ == project_slug@
                        && m[j].session_id@ == session_id@),
            decreases m.len() - i,
        {
            let e = &self.session_memory[i];
            if eq_str(e.project_slug.as_str(), project_slug) && eq_str(
                e.session_id.as_str(),
                session_id,
            ) {
                proof {
                    let k = choose|k: int|
                        0 <= k < m.len() && #[trigger] m[k].project_slug@ == project_slug@
                            && m[k].session_id@ == session_id@ && forall|j: int|
                            0 <= j < k ==> !(#[trigger] m[j].project_slug@ == project_slug@
                                && m[j].session_id@ == session_id@);
                    assert(m[i as int].project_slug@ == project_slug@);
                    if k < i {
                    } else if k > i {
                        assert(!(m[i as int].project_slug@ == project_slug@ && m[i as int].session_id@
                            == session_id@));
                    }
                }
                return Some(i);
            }
            i = i + 1;
        }
        None
    }

    /// Whether a prompt should go through the compiler: not for tool-use
    /// continuations, `plan_run` forks, or prompts of fewer than
    /// `MIN_TOKENS_FOR_COMPILE` words.
    pub fn should_compile(prompt: &str, ctx: &RefineContext) -> (r: bool)
        ensures
            r == compile_wanted(prompt@, *ctx),
    {
        if ctx.is_tool_continuation {
            return false;
        }
        match &ctx.fork_type {
            Some(f) => {
                if eq_str(f.as_str(), "plan_run") {
                    return false;
                }
            },
            None => {},
        }
        let cs = chars_of(prompt);
        let ws = words_of(cs.as_slice());
        ws.len() >= MIN_TOKENS_FOR_COMPILE
    }

    /// Builds the self-contained message for the compiler: frontmatter
    /// (project, language, session type, persona), the session's recent
    /// refinements and learned hints where there are any, and the prompt,
    /// separated by blank lines.
    pub fn build_compiler_message(&self, prompt: &str, ctx: &RefineContext) -> (r: String)
        ensures
            r@ == join(
                message_parts(
                    match session_index(self.sessions(), ctx.project_slug@, ctx.session_id@) {
                        Some(i) => Some(self.sessions()[i].state),
                        None => None,
                    },
                    prompt@,
                    *ctx,
                ),
                "\n\n"@,
            ),
    {
        let mut head = chars_of("---\nproject: ");
        extend_str(&mut head, ctx.project_slug.as_str());
        extend_str(&mut head, "\nlanguage: ");
        extend_str(&mut head, ctx.primary_language.as_str());
        extend_str(&mut head, "\nsession_type: ");
        extend_str(&mut head, ctx.conversation_type.as_str());
        extend_str(&mut head, "\npersona: ");
        match &ctx.persona {
            Some(p) => extend_str(&mut head, p.as_str()),
            None => extend_str(&mut head, "none"),
        }
        extend_str(&mut head, "\n---");
        let mut parts: Vec<Vec<char>> = Vec::new();
        parts.push(head);
        let idx = self.find_session(ctx.project_slug.as_str(), ctx.session_id.as_str());
        let ghost state_opt = match idx {
            Some(i) => Some(self.sessions()[i as int].state),
            None => None::<SessionCompilerState>,
        };
        proof {
            assert(views(parts@) =~= seq![frontmatter(*ctx)]);
        }
        match idx {
            Some(i) => {
                let st = &self.session_memory[i].state;
                let recent = st.format_recent(INCLUDE_RECENT);
                if !recent.as_str().is_empty() {
                    let mut part = chars_of("## Recent refinements for this session\n");
                    extend_str(&mut part, recent.as_str());
                    let ghost prev = parts@;
                    parts.push(part);
                    proof {
                        assert(views(parts@) =~= views(prev).push(part@));
                    }
                }
                let hints = st.format_hints();
                if !hints.as_str().is_empty() {
                    let mut part = chars_of("## Learned hints\n");
                    extend_str(&mut part, hints.as_str());
                    let ghost prev = parts@;
                    parts.push(part);
                    proof {
                        assert(views(parts@) =~= views(prev).push(part@));
                    }
                }
            },
            None => {},
        }
        let mut last = chars_of("Refine this prompt:\n");
        extend_str(&mut last, prompt);
        let ghost prev = parts@;
        parts.push(last);
        proof {
            assert(views(parts@) =~= views(prev).push(last@));
            assert(views(parts@) == message_parts(state_opt, prompt@, *ctx));
        }
        let sep = chars_of("\n\n");
        let joined = join_chars(&parts, sep.as_slice());
        string_of(joined.as_slice())
    }

    /// Records a successful refinement: the refinement counter goes up by
    /// one (wrapping), and the exchange joins the session's history, the
    /// session being created from the context when new.
    pub fn record_refinement(&mut self, prompt: &str, ctx: &RefineContext, refined: &str)
        ensures
            refinement_recorded(*old(self), *final(self), prompt@, *ctx, refined@),
    {
        self.refinement_count = self.refinement_count.wrapping_add(1);
        match self.find_session(ctx.project_slug.as_str(), ctx.session_id.as_str()) {
            Some(i) => {
                let mut entry = self.session_memory.remove(i);
                let ghost removed = self.session_memory@;
                entry.state.push_exchange(prompt, refined);
                self.session_memory.insert(i, entry);
                proof {
                    assert(self.session_memory@ =~= old(self).session_memory@.update(i as int, entry));
                }
            },
            None => {
                let mut state = SessionCompilerState::new(ctx);
                state.push_exchange(prompt, refined);
                let entry = SessionEntry {
                    project_slug: ctx.project_slug.clone(),
                    session_id: ctx.session_id.clone(),
                    state: state,
                };
                self.session_memory.push(entry);
                proof {
                    assert(pairs_view(Seq::<(String, String)>::empty()) =~= Seq::<(Seq<char>, Seq<char>)>::empty());
                    assert(self.session_memory@.drop_last() =~= old(self).session_memory@);
                    assert(self.session_memory@.last().state.history() =~= seq![(prompt@, refined@)]);
                }
            },
        }
    }

    /// Finishes a refinement with what the compiler answered: a refined
    /// prompt is counted, remembered in the session and returned; where the
    /// compiler was busy, failed or timed out, the bypass is counted and the
    /// original prompt returned.
    pub fn refine(&mut self, prompt: &str, ctx: &RefineContext, outcome: RefineOutcome) -> (r:
        String)
        ensures
            match outcome {
                RefineOutcome::Refined(t) => r == t && refinement_recorded(
                    *old(self),
                    *final(self),
                    prompt@,
                    *ctx,
                    t@,
                ),
                _ => r@ == prompt@ && final(self).bypasses() == old(self).bypasses().wrapping_add(1)
                    && final(self).refinements() == old(self).refinements()
                    && final(self).sessions() == old(self).sessions(),
            },
    {
        match outcome {
            RefineOutcome::Refined(t) => {
                self.record_refinement(prompt, ctx, t.as_str());
                t
            },
            _ => {
                self.record_bypass();
                prompt.to_string()
            },
        }
    }

    /// Records a passthrough (contention, error or timeout): the bypass
    /// counter goes up by one (wrapping).
    pub fn record_bypass(&mut self)
        ensures
            final(self).bypasses() == old(self).bypasses().wrapping_add(1),
            final(self).refinements() == old(self).refinements(),
            final(self).sessions() == old(self).sessions(),
    {
        self.bypass_count = self.bypass_count.wrapping_add(1);
    }

    /// The counters: (refinements, bypasses).
    pub fn stats(&self) -> (r: (u64, u64))
        ensures
            r == (self.refinements(), self.bypasses()),
    {
        (self.refinement_count, self.bypass_count)
    }

    /// The previous raw input of a session: the input of the second-to-last
    /// exchange, when the session has at least two.
    pub fn get_previous_input(&self, project_slug: &str, session_id: &str) -> (r: Option<String>)
        ensures
            match session_index(self.sessions(), project_slug@, session_id@) {
                Some(i) => {
                    let h = self.sessions()[i].state.history();
                    if h.len() >= 2 {
                        r matches Some(p) && p@ == h[h.len() - 2].0
                    } else {
                        r is None
                    }
                },
                None => r is None,
            },
    {
        match self.find_session(project_slug, session_id) {
            Some(i) => {
                let st = &self.session_memory[i].state;
                let n = st.last_refinements.len();
                if n < 2 {
                    return None;
                }
                let idx = n - 2;
                let p = st.last_refinements[idx].0.clone();
                Some(p)
            },
            None => None,
        }
    }

    /// Adds a learned hint to a session, unless the session is unknown or
    /// already holds `MAX_HINTS_PER_SESSION` hints.
    pub fn add_hint(&mut self, project_slug: &str, session_id: &str, hint: String)
        ensures
            final(self).refinements() == old(self).refinements(),
            final(self).bypasses() == old(self).bypasses(),
            match session_index(old(self).sessions(), project_slug@, session_id@) {
                Some(i) => if old(self).sessions()[i].state.learned_hints@.len()
                    < MAX_HINTS_PER_SESSION {
                    final(self).sessions() == old(self).sessions().update(
                        i,
                        final(self).sessions()[i],
                    ) && final(self).sessions()[i].state.learned_hints@ == old(
                        self,
                    ).sessions()[i].state.learned_hints@.push(hint)
                        && final(self).sessions()[i].state.last_refinements == old(
                        self,
                    ).sessions()[i].state.last_refinements
                } else {
                    final(self).sessions() == old(self).sessions()
                },
                None => final(self).sessions() == old(self).sessions(),
            },
    {
        match self.find_session(project_slug, session_id) {
            Some(i) => {
                if self.session_memory[i].state.learned_hints.len() < MAX_HINTS_PER_SESSION {
                    let mut entry = self.session_memory.remove(i);
                    entry.state.learned_hints.push(hint);
                    self.session_memory.insert(i, entry);
                    proof {
                        assert(self.session_memory@ =~= old(self).session_memory@.update(
                            i as int,
                            entry,
                        ));
                    }
                }
            },
            None => {},
        }
    }

    /// Decides which feedback a finished exchange gives: nothing when the
    /// session had no refinement; a clarification signal (and a hint to
    /// learn) when the reply's first 500 bytes, lowercased, ask for
    /// clarification; a reformulation signal when the prompt reformulates
    /// the session's previous input; a success signal otherwise.
    pub fn feedback_decision(
        &self,
        user_prompt: &str,
        assistant_text: &str,
        project_slug: &str,
        session_id: &str,
    ) -> (r: FeedbackDecision)
        ensures
            match session_index(self.sessions(), project_slug@, session_id@) {
                None => r is Skip,
                Some(i) => if self.sessions()[i].state.history().len() == 0 {
                    r is Skip
                } else {
                    match clarification_window(lowercase(assistant_text@)) {
                        None => r is Undecidable,
                        Some(w) => if asks_clarification(w) {
                            r matches FeedbackDecision::Clarification { feedback, hint }
                                && feedback matches CompilerFeedback::ClarificationNeeded {
                                session_id: s,
                                project_slug: p,
                            } && s@ == session_id@ && p@ == project_slug@ && hint@
                                == clarification_hint(user_prompt@)
                        } else {
                            let h = self.sessions()[i].state.history();
                            if h.len() >= 2 && is_reformulation(h[h.len() - 2].0, user_prompt@) {
                                r matches FeedbackDecision::Reformulation { feedback }
                                    && feedback matches CompilerFeedback::Reformulation {
                                    session_id: s,
                                    project_slug: p,
                                    original: o,
                                    reformulated: n,
                                } && s@ == session_id@ && p@ == project_slug@ && o@ == h[h.len()
                                    - 2].0 && n@ == user_prompt@
                            } else {
                                r matches FeedbackDecision::Success { feedback }
                                    && feedback matches CompilerFeedback::Success {
                                    session_id: s,
                                    project_slug: p,
                                } && s@ == session_id@ && p@ == project_slug@
                            }
                        },
                    }
                },
            },
    {
        let i = match self.find_session(project_slug, session_id) {
            Some(i) => i,
            None => {
                return FeedbackDecision::Skip;
            },
        };
        if self.session_memory[i].state.last_refinements.len() == 0 {
            return FeedbackDecision::Skip;
        }
        match detect_clarification(assistant_text) {
            None => FeedbackDecision::Undecidable,
            Some(true) => {
                let mut hint = chars_of("Ambiguous pattern: ");
                let t = truncate(user_prompt, 80);
                let d = debug_string(t.as_str());
                extend_str(&mut hint, d.as_str());
                extend_str(&mut hint, " → agent asked for clarification");
                FeedbackDecision::Clarification {
                    feedback: CompilerFeedback::ClarificationNeeded {
                        session_id: session_id.to_owned(),
                        project_slug: project_slug.to_owned(),
                    },
                    hint: string_of(hint.as_slice()),
                }
            },
            Some(false) => {
                match self.get_previous_input(project_slug, session_id) {
                    Some(prev) => {
                        if detect_reformulation(prev.as_str(), user_prompt) {
                            return FeedbackDecision::Reformulation {
                                feedback: CompilerFeedback::Reformulation {
                                    session_id: session_id.to_owned(),
                                    project_slug: project_slug.to_owned(),
                                    original: prev,
                                    reformulated: user_prompt.to_owned(),
                                },
                            };
                        }
                    },
                    None => {},
                }
                FeedbackDecision::Success {
                    feedback: CompilerFeedback::Success {
                        session_id: session_id.to_owned(),
                        project_slug: project_slug.to_owned(),
                    },
                }
            },
        }
    }

    /// The learned hints of all sessions, each once, in the order the
    /// sessions and their hints come.
    pub fn collect_hints(&self) -> (r: Vec<String>)
        ensures
            string_views(r@) == all_hints(self.sessions()),
    {
        let ghost m = self.session_memory@;
        let mut out: Vec<Vec<char>> = Vec::new();
        let mut i: usize = 0;
        proof {
            assert(m.take(0) =~= Seq::<SessionEntry>::empty());
            assert(views(out@) =~= Seq::<Seq<char>>::empty());
        }
        while i < self.session_memory.len()
            invariant
                0 <= i <= m.len(),
                m == self.session_memory@,
                views(out@) == all_hints(m.take(i as int)),
            decreases m.len() - i,
        {
            let hints = &self.session_memory[i].state.learned_hints;
            let ghost base = views(out@);
            let ghost hs = string_views(hints@);
            let mut j: usize = 0;
            proof {
                assert(m.take(i + 1).drop_last() =~= m.take(i as int));
                assert(m.take(i + 1).last() == m[i as int]);
                lemma_all_hints_distinct(m.take(i as int));
                assert(base + hs.take(0) =~= base);
            }
            while j < hints.len()
                invariant
                    0 <= j <= hs.len(),
                    hs == string_views(hints@),
                    views(out@) == distinct(base + hs.take(j as int)),
                    base == all_hints(m.take(i as int)),
                decreases hs.len() - j,
            {
                let w = chars_of(hints[j].as_str());
                proof {
                    assert(hs.take(j + 1) =~= hs.take(j as int).push(hs[j as int]));
                    lemma_distinct_append(base, hs.take(j as int), hs[j as int]);
                }
                push_distinct(&mut out, w);
                j = j + 1;
            }
            proof {
                assert(hs.take(j as int) =~= hs);
                assert(hs == string_views(m[i as int].state.learned_hints@));
            }
            i = i + 1;
        }
        proof {
            assert(m.take(i as int) =~= m);
        }
        let mut r: Vec<String> = Vec::new();
        let mut k: usize = 0;
        while k < out.len()
            invariant
                0 <= k <= out@.len(),
                string_views(r@) == views(out@).take(k as int),
            decreases out@.len() - k,
        {
            let st = string_of(out[k].as_slice());
            let ghost prev = r@;
            r.push(st);
            proof {
                assert(string_views(r@) =~= string_views(prev).push(st@));
                assert(views(out@).take(k + 1) =~= views(out@).take(k as int).push(out@[k as int]@));
            }
            k = k + 1;
        }
        proof {
            assert(views(out@).take(k as int) =~= views(out@));
        }
        r
    }
}

/// Whether a reply asks for clarification: the first 500 bytes of its
/// lowercase form (all of it when shorter) hold one of the clarification
/// phrases. `None` when byte 500 falls inside a character.
pub fn detect_clarification(assistant_text: &str) -> (r: Option<bool>)
    ensures
        match clarification_window(lowercase(assistant_text@)) {
            Some(w) => r == Some(asks_clarification(w)),
            None => r is None,
        },
        clarification_window(lowercase(assistant_text@)) matches Some(w) ==> ((contains(
            w,
            "did you mean"@,
        ) || contains(w, "do you mean"@)) ==> r == Some(true)),
{
    let low = str_to_lowercase(assistant_text);
    let cs = chars_of(low.as_str());
    if utf8_len_at_most(cs.as_slice(), 500) {
        return Some(asks_clarification_chars(cs.as_slice()));
    }
    match char_count_for_bytes(cs.as_slice(), 500) {
        Some(k) => {
            let window = slice_range(cs.as_slice(), 0, k);
            proof {
                let k0 = choose|m: int|
                    0 <= m <= cs@.len() && #[trigger] utf8_len(cs@.take(m)) == 500nat;
                lemma_prefix_bytes_unique(cs@, k0, k as int);
                assert(window@ =~= cs@.take(k as int));
            }
            Some(asks_clarification_chars(window.as_slice()))
        },
        None => None,
    }
}

/// Whether two consecutive user messages reformulate each other: both have
/// significant words (longer than two bytes once stripped of
/// non-alphanumeric ends) and the words they share are between 30% and 70%
/// of all their distinct words. (The ratio is compared exactly; a
/// floating-point division of the same counts gives the same answer for any
/// word counts below 2^40.)
pub fn detect_reformulation(previous: &str, current: &str) -> (r: bool)
    ensures
        r == is_reformulation(previous@, current@),
{
    let a = word_set_of(previous);
    let b = word_set_of(current);
    if a.len() == 0 || b.len() == 0 {
        return false;
    }
    let inter = count_in_vecs(&a, &b);
    let union: u128 = (a.len() as u128) + (b.len() as u128) - (inter as u128);
    if union == 0 {
        return false;
    }
    let i = inter as u128;
    10 * i >= 3 * union && 10 * i <= 7 * union
}

/// The content of the note that keeps the learned hints: a heading, the
/// hints numbered from 1, and a closing line.
pub open spec fn hints_note(hints: Seq<Seq<char>>) -> Seq<char> {
    "## Prompt Compiler — Learned Patterns\n\n"@ + join(
        Seq::new(hints.len(), |i: int| decimal((i + 1) as nat) + ". "@ + hints[i]),
        "\n"@,
    ) + "\n\n_Auto-generated from feedback signals._"@
}

/// The content of the note that keeps the learned hints.
pub fn hints_note_content(hints: &Vec<String>) -> (r: String)
    ensures
        r@ == hints_note(string_views(hints@)),
{
    let ghost hs = string_views(hints@);
    let ghost items = Seq::new(hs.len(), |i: int| decimal((i + 1) as nat) + ". "@ + hs[i]);
    let mut lines: Vec<Vec<char>> = Vec::new();
    let mut i: usize = 0;
    while i < hints.len()
        invariant
            0 <= i <= hints@.len(),
            hs == string_views(hints@),
            items == Seq::new(hs.len(), |i: int| decimal((i + 1) as nat) + ". "@ + hs[i]),
            views(lines@) == items.take(i as int),
        decreases hints@.len() - i,
    {
        let mut line = decimal_of((i as u64) + 1);
        extend_str(&mut line, ". ");
        extend_str(&mut line, hints[i].as_str());
        let ghost prev = lines@;
        lines.push(line);
        proof {
            assert(views(lines@) =~= views(prev).push(line@));
            assert(items.take(i + 1) =~= items.take(i as int).push(items[i as int]));
        }
        i = i + 1;
    }
    proof {
        assert(items.take(i as int) =~= items);
    }
    let mut content = chars_of("## Prompt Compiler — Learned Patterns\n\n");
    let sep = chars_of("\n");
    let body = join_chars(&lines, sep.as_slice());
    extend_chars(&mut content, body.as_slice());
    extend_str(&mut content, "\n\n_Auto-generated from feedback signals._");
    string_of(content.as_slice())
}


/// The note that keeps the learned hints: global, a pattern, written by the
/// prompt compiler, tagged `prompt-compiler` and `auto-generated`.
#[derive(Debug, Clone)]
pub struct HintsNote {
    pub project_id: Option<u128>,
    pub note_type: NoteType,
    pub content: String,
    pub tags: Vec<String>,
    pub created_by: String,
}

impl PromptCompiler {
    /// The note that persisting the hints writes: none where no session
    /// learned a hint; otherwise one global pattern note numbering the
    /// hints of all sessions, each once.
    pub fn hints_note_to_persist(&self) -> (r: Option<HintsNote>)
        ensures
            all_hints(self.sessions()).len() == 0 <==> r is None,
            r matches Some(n) ==> {
                &&& n.project_id is None
                &&& n.note_type == NoteType::Pattern
                &&& n.content@ == hints_note(all_hints(self.sessions()))
                &&& string_views(n.tags@) == seq!["prompt-compiler"@, "auto-generated"@]
                &&& n.created_by@ == PERSONA_NAME@
            },
    {
        let hints = self.collect_hints();
        if hints.len() == 0 {
            return None;
        }
        let content = hints_note_content(&hints);
        let mut tags: Vec<String> = Vec::new();
        tags.push("prompt-compiler".to_string());
        tags.push("auto-generated".to_string());
        proof {
            assert(string_views(tags@) =~= seq!["prompt-compiler"@, "auto-generated"@]);
        }
        Some(
            HintsNote {
                project_id: None,
                note_type: NoteType::Pattern,
                content,
                tags,
                created_by: PERSONA_NAME.to_string(),
            },
        )
    }
}

} // verus!
