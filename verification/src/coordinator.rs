//! The review rounds: convergence verdicts, diff chunking, round snapshots,
//! and the decision after each round.
use vstd::prelude::*;
use crate::progress::ConvergenceVerdict;
use crate::text::{
    chars_of, contains_exec, contains_seq, has_prefix, lines, lines_of, push_str, push_string,
    seqs, starts_with, string_of, trim, trim_of,
};

verus! {

/// `NOT_CONVERGED` anywhere means not converged; otherwise `CONVERGED`
/// anywhere means converged; otherwise there is no verdict.
pub open spec fn convergence_spec(input: Seq<char>) -> Option<ConvergenceVerdict> {
    if contains_seq(input, "NOT_CONVERGED"@) {
        Some(ConvergenceVerdict::NotConverged)
    } else if contains_seq(input, "CONVERGED"@) {
        Some(ConvergenceVerdict::Converged)
    } else {
        None
    }
}

pub fn parse_convergence_verdict(input: &str) -> (r: Option<ConvergenceVerdict>)
    ensures
        r == convergence_spec(input@),
{
    let s = chars_of(input);
    let not = chars_of("NOT_CONVERGED");
    if contains_exec(s.as_slice(), not.as_slice()) {
        return Some(ConvergenceVerdict::NotConverged);
    }
    let yes = chars_of("CONVERGED");
    if contains_exec(s.as_slice(), yes.as_slice()) {
        return Some(ConvergenceVerdict::Converged);
    }
    None
}

// ---------------------------------------------------------------------
// Counting changed lines
// ---------------------------------------------------------------------

pub open spec fn is_change_line(l: Seq<char>) -> bool {
    (starts_with(l, seq!['+']) || starts_with(l, seq!['-'])) && !starts_with(l, seq!['+', '+', '+', ' '])
        && !starts_with(l, seq!['-', '-', '-', ' '])
}

/// The number of added or removed lines, file headers excluded.
pub open spec fn changed_lines_count(ls: Seq<Seq<char>>) -> nat
    decreases ls.len(),
{
    if ls.len() == 0 {
        0
    } else {
        changed_lines_count(ls.drop_last()) + if is_change_line(ls.last()) {
            1nat
        } else {
            0nat
        }
    }
}

proof fn lemma_count_bound(ls: Seq<Seq<char>>)
    ensures
        changed_lines_count(ls) <= ls.len(),
    decreases ls.len(),
{
    if ls.len() > 0 {
        lemma_count_bound(ls.drop_last());
    }
}

pub fn count_changed_lines(diff: &str) -> (r: usize)
    ensures
        r == changed_lines_count(lines_of(diff@)),
{
    let dc = chars_of(diff);
    let ls = lines(dc.as_slice());
    let ghost lm = lines_of(diff@);
    let mut plus: Vec<char> = Vec::new();
    plus.push('+');
    let mut minus: Vec<char> = Vec::new();
    minus.push('-');
    let mut plus3: Vec<char> = Vec::new();
    plus3.push('+');
    plus3.push('+');
    plus3.push('+');
    plus3.push(' ');
    let mut minus3: Vec<char> = Vec::new();
    minus3.push('-');
    minus3.push('-');
    minus3.push('-');
    minus3.push(' ');
    assert(plus@ =~= seq!['+']);
    assert(minus@ =~= seq!['-']);
    assert(plus3@ =~= seq!['+', '+', '+', ' ']);
    assert(minus3@ =~= seq!['-', '-', '-', ' ']);
    let mut n: usize = 0;
    let mut i: usize = 0;
    while i < ls.len()
        invariant
            i <= ls@.len(),
            seqs(ls@) == lm,
            plus@ == seq!['+'],
            minus@ == seq!['-'],
            plus3@ == seq!['+', '+', '+', ' '],
            minus3@ == seq!['-', '-', '-', ' '],
            n == changed_lines_count(lm.take(i as int)),
            n <= i,
        decreases ls.len() - i,
    {
        assert(lm.take(i + 1).drop_last() =~= lm.take(i as int));
        assert(lm.take(i + 1).last() == ls@[i as int]@);
        let l = ls[i].as_slice();
        if (has_prefix(l, plus.as_slice()) || has_prefix(l, minus.as_slice())) && !has_prefix(
            l,
            plus3.as_slice(),
        ) && !has_prefix(l, minus3.as_slice()) {
            n = n + 1;
        }
        i += 1;
    }
    assert(lm.take(ls@.len() as int) =~= lm);
    n
}

// ---------------------------------------------------------------------
// Diff chunking
// ---------------------------------------------------------------------

pub open spec fn file_header() -> Seq<char> {
    "diff --git "@
}

/// The line followed by a newline.
pub open spec fn with_nl(l: Seq<char>) -> Seq<char> {
    l + "\n"@
}

/// Chunking state: closed chunks, the open chunk, and its line count.
pub type ChunkState = (Seq<Seq<char>>, Seq<char>, int);

/// One line: a file header closes the open chunk when it already holds at
/// least `per_chunk` lines and one more chunk would stay below `max_chunks`;
/// then the line is appended to the open chunk.
pub open spec fn chunk_step(st: ChunkState, line: Seq<char>, per_chunk: int, max_chunks: int) -> ChunkState {
    let split = starts_with(line, file_header()) && st.2 >= per_chunk && st.0.len() + 1 < max_chunks;
    if split {
        (st.0.push(st.1), with_nl(line), 1)
    } else {
        (st.0, st.1 + with_nl(line), st.2 + 1)
    }
}

pub open spec fn chunk_scan(ls: Seq<Seq<char>>, per_chunk: int, max_chunks: int) -> ChunkState
    decreases ls.len(),
{
    if ls.len() == 0 {
        (seq![], seq![], 0)
    } else {
        chunk_step(chunk_scan(ls.drop_last(), per_chunk, max_chunks), ls.last(), per_chunk, max_chunks)
    }
}

/// Splits a diff into chunks at file boundaries: a diff of at most
/// `max(per_chunk, 200)` lines stays whole; otherwise each chunk holds at
/// least that many lines before a file header starts the next, there are at
/// most `max(max_chunks, 1)` chunks, and a blank remainder is dropped.
pub open spec fn chunk_diff_spec(diff: Seq<char>, per_chunk: usize, max_chunks: usize) -> Seq<Seq<char>> {
    let per = if per_chunk < 200 {
        200
    } else {
        per_chunk as int
    };
    let maxc = if max_chunks < 1 {
        1
    } else {
        max_chunks as int
    };
    let ls = lines_of(diff);
    if ls.len() <= per {
        seq![diff]
    } else {
        let st = chunk_scan(ls, per, maxc);
        let chunks = if st.0.len() < maxc && trim_of(st.1).len() > 0 {
            st.0.push(st.1)
        } else {
            st.0
        };
        if chunks.len() == 0 {
            seq![diff]
        } else {
            chunks
        }
    }
}

proof fn lemma_chunk_scan_bounds(ls: Seq<Seq<char>>, per: int, maxc: int)
    requires
        maxc >= 1,
    ensures
        chunk_scan(ls, per, maxc).0.len() < maxc || ls.len() == 0,
        chunk_scan(ls, per, maxc).0.len() <= ls.len(),
        0 <= chunk_scan(ls, per, maxc).2 <= ls.len(),
    decreases ls.len(),
{
    if ls.len() > 0 {
        lemma_chunk_scan_bounds(ls.drop_last(), per, maxc);
    }
}

/// A diff is never split into more chunks than allowed, and never into
/// none; a diff of at most 200 lines stays whole.
pub proof fn law_chunk_count(diff: Seq<char>, per_chunk: usize, max_chunks: usize)
    ensures
        1 <= chunk_diff_spec(diff, per_chunk, max_chunks).len(),
        chunk_diff_spec(diff, per_chunk, max_chunks).len() <= if max_chunks < 1 {
            1
        } else {
            max_chunks as int
        },
        lines_of(diff).len() <= 200 ==> chunk_diff_spec(diff, per_chunk, max_chunks) == seq![diff],
{
    let maxc = if max_chunks < 1 {
        1
    } else {
        max_chunks as int
    };
    let per = if per_chunk < 200 {
        200
    } else {
        per_chunk as int
    };
    lemma_chunk_scan_bounds(lines_of(diff), per, maxc);
}

pub fn chunk_diff(diff: &str, max_lines_per_chunk: usize, max_chunks: usize) -> (r: Vec<String>)
    ensures
        r@.map_values(|s: String| s@) == chunk_diff_spec(diff@, max_lines_per_chunk, max_chunks),
{
    let per: usize = if max_lines_per_chunk < 200 {
        200
    } else {
        max_lines_per_chunk
    };
    let maxc: usize = if max_chunks < 1 {
        1
    } else {
        max_chunks
    };
    let dc = chars_of(diff);
    let ls = lines(dc.as_slice());
    let ghost lm = lines_of(diff@);
    if ls.len() <= per {
        let mut one: Vec<String> = Vec::new();
        one.push(string_of(dc.as_slice()));
        assert(one@.map_values(|s: String| s@) =~= seq![diff@]);
        return one;
    }
    let header = chars_of("diff --git ");
    let mut chunks: Vec<String> = Vec::new();
    let mut current = String::new();
    let mut current_lines: usize = 0;
    let mut i: usize = 0;
    assert(chunks@.map_values(|s: String| s@) =~= seq![]);
    while i < ls.len()
        invariant
            i <= ls@.len(),
            seqs(ls@) == lm,
            header@ == file_header(),
            maxc >= 1,
            chunk_scan(lm.take(i as int), per as int, maxc as int) == (
                chunks@.map_values(|s: String| s@),
                current@,
                current_lines as int,
            ),
        decreases ls.len() - i,
    {
        proof {
            assert(lm.take(i + 1).drop_last() =~= lm.take(i as int));
            assert(lm.take(i + 1).last() == ls@[i as int]@);
            lemma_chunk_scan_bounds(lm.take(i as int), per as int, maxc as int);
        }
        let l = ls[i].as_slice();
        if has_prefix(l, header.as_slice()) && current_lines >= per && chunks.len() + 1 < maxc {
            let ghost before = chunks@.map_values(|s: String| s@);
            chunks.push(current);
            assert(chunks@.map_values(|s: String| s@) =~= before.push(current@));
            current = String::new();
            current_lines = 0;
        }
        let ls_str = string_of(l);
        push_string(&mut current, &ls_str);
        push_str(&mut current, "\n");
        proof {
            lemma_chunk_scan_bounds(lm.take(i + 1), per as int, maxc as int);
        }
        current_lines = current_lines + 1;
        i += 1;
    }
    assert(lm.take(ls@.len() as int) =~= lm);
    let cc = chars_of(current.as_str());
    let trimmed = trim(cc.as_slice());
    if chunks.len() < maxc && trimmed.len() > 0 {
        let ghost before = chunks@.map_values(|s: String| s@);
        chunks.push(current);
        assert(chunks@.map_values(|s: String| s@) =~= before.push(cc@));
    }
    if chunks.len() == 0 {
        let mut one: Vec<String> = Vec::new();
        one.push(string_of(dc.as_slice()));
        assert(one@.map_values(|s: String| s@) =~= seq![diff@]);
        one
    } else {
        chunks
    }
}

// ---------------------------------------------------------------------
// Round snapshots
// ---------------------------------------------------------------------

/// One message of an agent's conversation.
#[derive(Clone, Debug)]
pub struct AgentMessage {
    pub role: String,
    pub content: String,
}

pub type MessagesModel = Seq<(Seq<char>, Seq<(Seq<char>, Seq<char>)>)>;

pub open spec fn message_models(v: Seq<AgentMessage>) -> Seq<(Seq<char>, Seq<char>)> {
    v.map_values(|m: AgentMessage| (m.role@, m.content@))
}

pub open spec fn messages_model(v: Seq<(String, Vec<AgentMessage>)>) -> MessagesModel {
    v.map_values(|e: (String, Vec<AgentMessage>)| (e.0@, message_models(e.1@)))
}

/// The agents whose messages are held, in order.
pub open spec fn message_agents(v: Seq<(String, Vec<AgentMessage>)>) -> Seq<Seq<char>> {
    v.map_values(|e: (String, Vec<AgentMessage>)| e.0@)
}

/// The messages of every agent, frozen at the end of a round.
#[derive(Clone, Debug)]
pub struct RoundSnapshot {
    pub round: u8,
    pub messages: Vec<(String, Vec<AgentMessage>)>,
}

/// The frozen rounds of a run, in the order they were frozen.
pub struct MessageSnapshotter {
    rounds: Vec<RoundSnapshot>,
}

impl View for MessageSnapshotter {
    type V = Seq<(u8, MessagesModel)>;

    closed spec fn view(&self) -> Seq<(u8, MessagesModel)> {
        self.rounds@.map_values(|r: RoundSnapshot| (r.round, messages_model(r.messages@)))
    }
}

fn clone_messages(v: &Vec<AgentMessage>) -> (r: Vec<AgentMessage>)
    ensures
        message_models(r@) == message_models(v@),
{
    let mut out: Vec<AgentMessage> = Vec::new();
    let mut i: usize = 0;
    while i < v.len()
        invariant
            i <= v@.len(),
            out@.len() == i,
            forall|k: int| 0 <= k < i ==> (#[trigger] out@[k]).role@ == v@[k].role@ && out@[k].content@ == v@[k].content@,
        decreases v.len() - i,
    {
        out.push(AgentMessage { role: v[i].role.clone(), content: v[i].content.clone() });
        i += 1;
    }
    assert(message_models(out@) =~= message_models(v@));
    out
}

/// The first round at or after `i` frozen under `round`.
pub open spec fn snapshot_pos(s: Seq<(u8, MessagesModel)>, round: u8, i: int) -> Option<int>
    decreases s.len() - i,
{
    if i < 0 || i >= s.len() {
        None
    } else if s[i].0 == round {
        Some(i)
    } else {
        snapshot_pos(s, round, i + 1)
    }
}

proof fn lemma_snapshot_pos_push(s: Seq<(u8, MessagesModel)>, x: (u8, MessagesModel), q: u8, i: int)
    requires
        0 <= i <= s.len(),
    ensures
        snapshot_pos(s.push(x), q, i) == match snapshot_pos(s, q, i) {
            Some(k) => Some(k),
            None => if x.0 == q {
                Some(s.len() as int)
            } else {
                None
            },
        },
    decreases s.len() - i,
{
    if i < s.len() {
        assert(s.push(x)[i] == s[i]);
        if s[i].0 != q {
            lemma_snapshot_pos_push(s, x, q, i + 1);
        }
    } else {
        assert(s.push(x)[i] == x);
        assert(snapshot_pos(s.push(x), q, i + 1) is None);
    }
}

/// Freezing a round makes it retrievable: a round frozen for the first
/// time is then found with the messages it was frozen with, the first
/// freeze of a round wins over later ones, and other rounds are found as
/// before.
pub proof fn law_freeze_then_get(s: Seq<(u8, MessagesModel)>, round: u8, m: MessagesModel, other: u8)
    requires
        other != round,
    ensures
        snapshot_pos(s, round, 0) is None ==> snapshot_pos(s.push((round, m)), round, 0) == Some(s.len() as int)
            && s.push((round, m))[s.len() as int].1 == m,
        snapshot_pos(s, round, 0) is Some ==> snapshot_pos(s.push((round, m)), round, 0) == snapshot_pos(s, round, 0),
        snapshot_pos(s.push((round, m)), other, 0) == snapshot_pos(s, other, 0),
{
    lemma_snapshot_pos_push(s, (round, m), round, 0);
    lemma_snapshot_pos_push(s, (round, m), other, 0);
}

proof fn lemma_snapshot_pos_first(s: Seq<(u8, MessagesModel)>, round: u8, i: int)
    requires
        0 <= i <= s.len(),
    ensures
        match snapshot_pos(s, round, i) {
            Some(j) => i <= j < s.len() && s[j].0 == round && forall|k: int| i <= k < j ==> s[k].0 != round,
            None => forall|k: int| i <= k < s.len() ==> s[k].0 != round,
        },
    decreases s.len() - i,
{
    if i < s.len() && s[i].0 != round {
        lemma_snapshot_pos_first(s, round, i + 1);
    }
}

/// The snapshots of a sequence of freezes: the snapshot of a round is the
/// one of its first freeze, and a round never frozen has none.
pub proof fn law_first_freeze_wins(freezes: Seq<(u8, MessagesModel)>, round: u8)
    ensures
        match snapshot_pos(freezes, round, 0) {
            Some(j) => 0 <= j < freezes.len() && freezes[j].0 == round && forall|k: int|
                0 <= k < j ==> freezes[k].0 != round,
            None => forall|k: int| 0 <= k < freezes.len() ==> freezes[k].0 != round,
        },
{
    lemma_snapshot_pos_first(freezes, round, 0);
}

impl MessageSnapshotter {
    pub fn new() -> (r: Self)
        ensures
            r@.len() == 0,
    {
        let r = MessageSnapshotter { rounds: Vec::new() };
        assert(r@ =~= seq![]);
        r
    }

    /// Records the messages of a round, keyed by agent (each agent once).
    pub fn freeze_round(&mut self, round: u8, messages: &Vec<(String, Vec<AgentMessage>)>)
        requires
            message_agents(messages@).no_duplicates(),
        ensures
            final(self)@ == old(self)@.push((round, messages_model(messages@))),
    {
        let mut copy: Vec<(String, Vec<AgentMessage>)> = Vec::new();
        let mut i: usize = 0;
        while i < messages.len()
            invariant
                i <= messages@.len(),
                copy@.len() == i,
                forall|k: int| 0 <= k < i ==> (#[trigger] copy@[k]).0@ == messages@[k].0@
                    && message_models(copy@[k].1@) == message_models(messages@[k].1@),
            decreases messages.len() - i,
        {
            copy.push((messages[i].0.clone(), clone_messages(&messages[i].1)));
            i += 1;
        }
        assert(messages_model(copy@) =~= messages_model(messages@));
        let ghost before = self@;
        self.rounds.push(RoundSnapshot { round, messages: copy });
        assert(self@ =~= before.push((round, messages_model(messages@))));
    }

    /// The first round frozen under `round`, if any.
    pub fn get_snapshot(&self, round: u8) -> (r: Option<&RoundSnapshot>)
        ensures
            match snapshot_pos(self@, round, 0) {
                Some(k) => r is Some && r.unwrap().round == round && messages_model(r.unwrap().messages@) == self@[k].1,
                None => r is None,
            },
    {
        let ghost s = self@;
        let mut i: usize = 0;
        while i < self.rounds.len()
            invariant
                i <= self.rounds@.len(),
                s == self@,
                s.len() == self.rounds@.len(),
                snapshot_pos(s, round, 0) == snapshot_pos(s, round, i as int),
            decreases self.rounds.len() - i,
        {
            assert(s[i as int].0 == self.rounds@[i as int].round);
            if self.rounds[i].round == round {
                return Some(&self.rounds[i]);
            }
            i += 1;
        }
        None
    }
}

/// The prior round's findings summarized for the next round.
#[derive(Clone, Debug)]
pub struct CrossPollinationSynthesis {
    pub summary: String,
}

/// A marker for a debate's transcript.
pub struct DebateTranscript;

/// The outcome of an analysis: focus, findings and an optional fix.
pub struct AnalysisResult {
    pub focus: crate::analysis::FocusAreas,
    pub findings: Vec<crate::report::Finding>,
    pub auto_fix: Option<crate::report::AutoFix>,
}

} // verus!
