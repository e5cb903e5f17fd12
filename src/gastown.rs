use vstd::prelude::*;

use vstd::slice::slice_subrange;

use crate::text::{
    chars_of, contains_chars, contains_seq, find_in_range, first_match, joined,
    lemma_first_match_found, lower_of,
    lowercase, parse_i32, parse_i32_chars, parse_u64, parse_u64_chars, piece_bounds, pieces,
    remove_all, remove_all_in_range, starts_with, starts_with_chars, text_range, trim, trim_chars,
    word_bounds, words,
};

verus! {

/// The output of one external command.
#[derive(Clone, Debug)]
pub struct CommandResult {
    pub stdout: String,
    pub stderr: String,
    pub exit_code: i32,
}

/// A tmux session, with the time of its last activity in Unix seconds.
#[derive(Clone, Debug)]
pub struct TmuxSession {
    pub name: String,
    pub windows: i32,
    pub attached: bool,
    pub activity: Option<u64>,
}

/// A pane of a tmux session.
#[derive(Clone, Debug)]
pub struct TmuxPane {
    pub session_name: String,
    pub window_index: i32,
    pub window_name: String,
    pub pane_index: i32,
    pub pane_id: String,
    pub pane_active: bool,
    pub pane_current_command: String,
    pub pane_pid: i32,
}

/// How a session seems to be doing.
#[derive(Clone, Copy, Debug, PartialEq, Eq, Structural)]
pub enum SessionHealth {
    /// Recently active.
    Active,
    /// Running a command.
    Processing,
    /// Waiting at a shell prompt.
    Idle,
    /// Running something, yet silent for long.
    Stuck,
}

/// A session with its panes, its health and the command that attaches to it.
#[derive(Clone, Debug)]
pub struct TmuxSessionDetail {
    pub session: TmuxSession,
    pub panes: Vec<TmuxPane>,
    pub health: SessionHealth,
    pub connection_string: String,
}

/// Where a workflow step stands.
#[derive(Clone, Copy, Debug, PartialEq, Eq, Structural)]
pub enum StepStatus {
    Pending,
    Active,
    Complete,
    Failed,
    Blocked,
}

/// One step of a workflow.
#[derive(Clone, Debug)]
pub struct MoleculeStep {
    pub id: String,
    pub title: String,
    pub description: Option<String>,
    pub status: StepStatus,
    pub depends_on: Vec<String>,
    pub assignee: Option<String>,
    pub started_at: Option<u64>,
    pub completed_at: Option<u64>,
}

/// A workflow instance and its steps.
#[derive(Clone, Debug)]
pub struct Molecule {
    pub id: String,
    pub name: String,
    pub description: Option<String>,
    pub status: String,
    pub steps: Vec<MoleculeStep>,
    pub created_at: Option<u64>,
    pub updated_at: Option<u64>,
}

/// What the text parser keeps of a step: id, title and status.
pub type StepText = (Seq<char>, Seq<char>, StepStatus);

/// The parser's state after some lines: name, description, status, steps, and, inside
/// a description block, the description lines read so far.
pub type MoleculeText = (Seq<char>, Option<Seq<char>>, Seq<char>, Seq<StepText>, Option<Seq<Seq<char>>>);

/// A line that lists a step: a bracket and a step state.
pub open spec fn is_step_line(line: Seq<char>) -> bool {
    contains_seq(line, "["@) && (contains_seq(line, "pending"@) || contains_seq(line, "complete"@)
        || contains_seq(line, "active"@) || contains_seq(line, "failed"@))
}

/// The state a step line names, the first of complete, active, failed, blocked that
/// it mentions, else pending.
pub open spec fn step_status_of(line: Seq<char>) -> StepStatus {
    if contains_seq(line, "complete"@) {
        StepStatus::Complete
    } else if contains_seq(line, "active"@) {
        StepStatus::Active
    } else if contains_seq(line, "failed"@) {
        StepStatus::Failed
    } else if contains_seq(line, "blocked"@) {
        StepStatus::Blocked
    } else {
        StepStatus::Pending
    }
}

/// The step a step line lists: its first word is the id, its words from the fourth on
/// are the title.
pub open spec fn step_of(line: Seq<char>) -> StepText {
    let w = words(line);
    let title_words = if w.len() > 3 {
        w.subrange(3, w.len() as int)
    } else {
        Seq::<Seq<char>>::empty()
    };
    (w[0], joined(title_words, " "@), step_status_of(line))
}

/// What follows the first `: ` of `line`.
pub open spec fn after_first_separator(line: Seq<char>) -> Seq<char> {
    match first_match(line, ": "@, 0) {
        Some(k) => line.subrange(k + 2, line.len() as int),
        None => line,
    }
}

/// A line read outside a description block; `index` is its position in the text.
pub open spec fn molecule_line(st: MoleculeText, raw: Seq<char>, index: int, id: Seq<char>) -> MoleculeText {
    let line = trim(raw);
    let name = if contains_seq(line, ": "@) && (starts_with(line, id + ":"@) || index == 0) {
        after_first_separator(line)
    } else {
        st.0
    };
    let status = if starts_with(line, "Status:"@) {
        trim(remove_all(line, "Status:"@))
    } else {
        st.2
    };
    if starts_with(line, "Description:"@) {
        (name, st.1, status, st.3, Some(Seq::<Seq<char>>::empty()))
    } else {
        let steps = if is_step_line(line) && words(line).len() > 0 {
            st.3.push(step_of(line))
        } else {
            st.3
        };
        (name, st.1, status, steps, None)
    }
}

/// A line read in any state: inside a description block, a non-blank line without a
/// colon continues the description; any other line ends it and is read as usual.
pub open spec fn molecule_step(st: MoleculeText, raw: Seq<char>, index: int, id: Seq<char>) -> MoleculeText {
    match st.4 {
        Some(acc) => if trim(raw).len() > 0 && !contains_seq(raw, ":"@) {
            (st.0, st.1, st.2, st.3, Some(acc.push(trim(raw))))
        } else {
            molecule_line((st.0, Some(joined(acc, "\n"@)), st.2, st.3, None), raw, index, id)
        },
        None => molecule_line(st, raw, index, id),
    }
}

/// The state after the first `n` lines.
pub open spec fn molecule_fold(lines: Seq<Seq<char>>, id: Seq<char>, n: int) -> MoleculeText
    decreases n,
{
    if n <= 0 {
        (id, None, "unknown"@, Seq::<StepText>::empty(), None)
    } else {
        molecule_step(molecule_fold(lines, id, n - 1), lines[n - 1], n - 1, id)
    }
}

/// The description once every line is read.
pub open spec fn final_description(st: MoleculeText) -> Option<Seq<char>> {
    match st.4 {
        Some(acc) => Some(joined(acc, "\n"@)),
        None => st.1,
    }
}

pub open spec fn opt_view(o: Option<String>) -> Option<Seq<char>> {
    match o {
        Some(s) => Some(s@),
        None => None,
    }
}

/// A step as the text parser makes it: only id, title and status are known.
pub open spec fn step_matches(m: MoleculeStep, t: StepText) -> bool {
    &&& m.id@ == t.0
    &&& m.title@ == t.1
    &&& m.status == t.2
    &&& m.description is None
    &&& m.depends_on@.len() == 0
    &&& m.assignee is None
    &&& m.started_at is None
    &&& m.completed_at is None
}

/// The command runs a long-lived program that shows active work.
pub open spec fn is_work_command(cmd: Seq<char>) -> bool {
    let c = lower_of(cmd);
    contains_seq(c, "vim"@) || contains_seq(c, "nvim"@)
        || contains_seq(c, "cargo"@) || contains_seq(c, "npm"@) || contains_seq(c, "node"@)
        || contains_seq(c, "python"@) || contains_seq(c, "make"@)
}

/// The command is a shell.
pub open spec fn is_shell_command(cmd: Seq<char>) -> bool {
    let c = lower_of(cmd);
    contains_seq(c, "zsh"@) || contains_seq(c, "bash"@) || contains_seq(c, "fish"@)
        || contains_seq(c, "sh"@)
}

pub open spec fn has_work(panes: Seq<TmuxPane>) -> bool {
    exists|i: int| 0 <= i < panes.len() && is_work_command(#[trigger] panes[i].pane_current_command@)
}

pub open spec fn all_shells(panes: Seq<TmuxPane>) -> bool {
    forall|i: int| 0 <= i < panes.len() ==> is_shell_command(#[trigger] panes[i].pane_current_command@)
}

/// The health of a session at time `now` (Unix seconds): by how long ago it was last
/// active, whether a pane runs work, and whether every pane is a shell.
pub open spec fn health_of(session: TmuxSession, panes: Seq<TmuxPane>, now: u64) -> SessionHealth {
    let by_state = if session.attached {
        SessionHealth::Active
    } else if all_shells(panes) {
        SessionHealth::Idle
    } else {
        SessionHealth::Processing
    };
    match session.activity {
        Some(a) => {
            let idle_for = if now >= a {
                now - a
            } else {
                0
            };
            if idle_for < 10 {
                SessionHealth::Active
            } else if idle_for < 60 && has_work(panes) {
                SessionHealth::Processing
            } else if idle_for < 300 {
                if all_shells(panes) {
                    SessionHealth::Idle
                } else {
                    SessionHealth::Processing
                }
            } else if has_work(panes) {
                SessionHealth::Stuck
            } else {
                by_state
            }
        },
        None => by_state,
    }
}

fn work_command(cmd: &str) -> (r: bool)
    ensures
        r == is_work_command(cmd@),
{
    let lower = lowercase(cmd);
    let c = chars_of(lower.as_str());
    let s = c.as_slice();
    contains_chars(s, "vim") || contains_chars(s, "nvim")
        || contains_chars(s, "cargo") || contains_chars(s, "npm") || contains_chars(s, "node")
        || contains_chars(s, "python") || contains_chars(s, "make")
}

fn shell_command(cmd: &str) -> (r: bool)
    ensures
        r == is_shell_command(cmd@),
{
    let lower = lowercase(cmd);
    let c = chars_of(lower.as_str());
    let s = c.as_slice();
    contains_chars(s, "zsh") || contains_chars(s, "bash") || contains_chars(s, "fish")
        || contains_chars(s, "sh")
}

/// Judges a session's health from its last activity and what its panes run, at time
/// `now` in Unix seconds.
pub fn determine_session_health(session: &TmuxSession, panes: &[TmuxPane], now: u64) -> (r: SessionHealth)
    ensures
        r == health_of(*session, panes@, now),
{
    let mut any_work = false;
    let mut every_shell = true;
    let mut i: usize = 0;
    while i < panes.len()
        invariant
            i <= panes@.len(),
            any_work == exists|k: int| 0 <= k < i && is_work_command(#[trigger] panes@[k].pane_current_command@),
            every_shell == forall|k: int| 0 <= k < i ==> is_shell_command(#[trigger] panes@[k].pane_current_command@),
        decreases panes@.len() - i,
    {
        let cmd = panes[i].pane_current_command.as_str();
        if work_command(cmd) {
            any_work = true;
        }
        if !shell_command(cmd) {
            every_shell = false;
        }
        i = i + 1;
    }
    if let Some(activity) = session.activity {
        let idle_for: u64 = if now >= activity {
            now - activity
        } else {
            0
        };
        if idle_for < 10 {
            return SessionHealth::Active;
        } else if idle_for < 60 && any_work {
            return SessionHealth::Processing;
        } else if idle_for < 300 {
            if every_shell {
                return SessionHealth::Idle;
            }
            return SessionHealth::Processing;
        } else if any_work {
            return SessionHealth::Stuck;
        }
    }
    if session.attached {
        SessionHealth::Active
    } else if every_shell {
        SessionHealth::Idle
    } else {
        SessionHealth::Processing
    }
}

/// The full view of a session: its health at `now` and the command that attaches to it.
pub fn session_detail(session: TmuxSession, panes: Vec<TmuxPane>, now: u64) -> (r: TmuxSessionDetail)
    ensures
        r.health == health_of(session, panes@, now),
        r.connection_string@ == "tmux attach -t "@ + session.name@,
        r.session == session,
        r.panes@ == panes@,
{
    let health = determine_session_health(&session, panes.as_slice(), now);
    let mut connection_string = String::from_str("tmux attach -t ");
    connection_string.append(session.name.as_str());
    TmuxSessionDetail { session, panes, health, connection_string }
}

/// A parsed number, or `0` when the text is not one.
pub open spec fn i32_or_zero(s: Seq<char>) -> i32 {
    match parse_i32(s) {
        Some(v) => v,
        None => 0,
    }
}

/// The session that a line of `tmux list-sessions` in the format
/// `name:windows:attached:activity` describes; lines of fewer than three fields
/// describe none.
pub open spec fn session_line_ok(line: Seq<char>, t: TmuxSession) -> bool {
    let p = pieces(line, ':');
    &&& t.name@ == p[0]
    &&& t.windows == i32_or_zero(p[1])
    &&& t.attached == (p[2] == "1"@)
    &&& t.activity == if p.len() > 3 {
        parse_u64(p[3])
    } else {
        None
    }
}

/// The pane that a line of `tmux list-panes` in the format
/// `session:window_index:window_name:pane_index:pane_id:active:command:pid` describes;
/// lines of fewer than eight fields describe none.
pub open spec fn pane_line_ok(line: Seq<char>, t: TmuxPane) -> bool {
    let p = pieces(line, ':');
    &&& t.session_name@ == p[0]
    &&& t.window_index == i32_or_zero(p[1])
    &&& t.window_name@ == p[2]
    &&& t.pane_index == i32_or_zero(p[3])
    &&& t.pane_id@ == p[4]
    &&& t.pane_active == (p[5] == "1"@)
    &&& t.pane_current_command@ == p[6]
    &&& t.pane_pid == i32_or_zero(p[7])
}

fn field_text(line: &str, b: (usize, usize)) -> (r: String)
    requires
        b.0 <= b.1 <= line@.len(),
    ensures
        r@ == line@.subrange(b.0 as int, b.1 as int),
{
    String::from_str(line.substring_char(b.0, b.1))
}

fn field_i32(chars: &Vec<char>, b: (usize, usize)) -> (r: i32)
    requires
        b.0 <= b.1 <= chars@.len(),
    ensures
        r == i32_or_zero(chars@.subrange(b.0 as int, b.1 as int)),
{
    match parse_i32_chars(slice_subrange(chars.as_slice(), b.0, b.1)) {
        Some(v) => v,
        None => 0,
    }
}

fn field_is_one(chars: &Vec<char>, b: (usize, usize)) -> (r: bool)
    requires
        b.0 <= b.1 <= chars@.len(),
    ensures
        r == (chars@.subrange(b.0 as int, b.1 as int) == "1"@),
{
    proof {
        reveal_strlit("1");
    }
    let r = b.1 - b.0 == 1 && chars[b.0] == '1';
    if r {
        assert(chars@.subrange(b.0 as int, b.1 as int) =~= "1"@);
    } else if b.1 - b.0 == 1 {
        assert(chars@.subrange(b.0 as int, b.1 as int)[0] != "1"@[0]);
    } else {
        assert(chars@.subrange(b.0 as int, b.1 as int).len() != "1"@.len());
    }
    r
}

/// Reads one line of `tmux list-sessions` output.
pub fn parse_tmux_session_line(line: &str) -> (r: Option<TmuxSession>)
    ensures
        r is None <==> pieces(line@, ':').len() < 3,
        r matches Some(t) ==> session_line_ok(line@, t),
{
    let chars = chars_of(line);
    let b = piece_bounds(chars.as_slice(), ':');
    if b.len() < 3 {
        return None;
    }
    let activity = if b.len() > 3 {
        parse_u64_chars(slice_subrange(chars.as_slice(), b[3].0, b[3].1))
    } else {
        None
    };
    Some(
        TmuxSession {
            name: field_text(line, b[0]),
            windows: field_i32(&chars, b[1]),
            attached: field_is_one(&chars, b[2]),
            activity,
        },
    )
}

/// Reads one line of `tmux list-panes` output.
pub fn parse_tmux_pane_line(line: &str) -> (r: Option<TmuxPane>)
    ensures
        r is None <==> pieces(line@, ':').len() < 8,
        r matches Some(t) ==> pane_line_ok(line@, t),
{
    let chars = chars_of(line);
    let b = piece_bounds(chars.as_slice(), ':');
    if b.len() < 8 {
        return None;
    }
    Some(
        TmuxPane {
            session_name: field_text(line, b[0]),
            window_index: field_i32(&chars, b[1]),
            window_name: field_text(line, b[2]),
            pane_index: field_i32(&chars, b[3]),
            pane_id: field_text(line, b[4]),
            pane_active: field_is_one(&chars, b[5]),
            pane_current_command: field_text(line, b[6]),
            pane_pid: field_i32(&chars, b[7]),
        },
    )
}

/// What the parser keeps of a step.
pub open spec fn step_text(m: MoleculeStep) -> StepText {
    (m.id@, m.title@, m.status)
}

pub open spec fn step_texts(v: Seq<MoleculeStep>) -> Seq<StepText> {
    v.map_values(|m: MoleculeStep| step_text(m))
}

/// The molecule that the parser is building.
struct ParseState {
    name: String,
    description: Option<String>,
    status: String,
    steps: Vec<MoleculeStep>,
}

spec fn state_matches(ps: ParseState, st: MoleculeText) -> bool {
    &&& ps.name@ == st.0
    &&& opt_view(ps.description) == st.1
    &&& ps.status@ == st.2
    &&& ps.steps@.len() == st.3.len()
    &&& forall|j: int| 0 <= j < ps.steps@.len() ==> step_matches(#[trigger] ps.steps@[j], st.3[j])
}

fn join_ranges(
    text: &str,
    chars: &Vec<char>,
    lo: usize,
    bounds: &Vec<(usize, usize)>,
    from: usize,
    ws: Ghost<Seq<Seq<char>>>,
) -> (r: String)
    requires
        chars@ == text@,
        bounds@.len() == ws@.len(),
        from <= bounds@.len(),
        forall|k: int|
            0 <= k < bounds@.len() ==> lo + (#[trigger] bounds@[k]).0 <= lo + bounds@[k].1 <= chars@.len()
                && chars@.subrange(lo + bounds@[k].0, lo + bounds@[k].1) == ws@[k],
    ensures
        r@ == joined(ws@.subrange(from as int, ws@.len() as int), " "@),
{
    let mut out = String::new();
    let cl = chars.len();
    let mut i = from;
    while i < bounds.len()
        invariant
            cl == chars@.len(),
            chars@ == text@,
            bounds@.len() == ws@.len(),
            from <= i <= bounds@.len(),
            forall|k: int|
                0 <= k < bounds@.len() ==> lo + (#[trigger] bounds@[k]).0 <= lo + bounds@[k].1 <= chars@.len()
                    && chars@.subrange(lo + bounds@[k].0, lo + bounds@[k].1) == ws@[k],
            out@ == joined(ws@.subrange(from as int, i as int), " "@),
        decreases bounds@.len() - i,
    {
        let b = bounds[i];
        if i > from {
            out.append(" ");
        }
        out.append(text_range(text, lo + b.0, lo + b.1).as_str());
        proof {
            let sub = ws@.subrange(from as int, i + 1);
            assert(sub.drop_last() =~= ws@.subrange(from as int, i as int));
            if i == from {
                assert(out@ =~= joined(sub, " "@));
            } else {
                assert(out@ =~= joined(sub, " "@));
            }
        }
        i = i + 1;
    }
    out
}

fn trimmed(s: &String) -> (r: String)
    ensures
        r@ == trim(s@),
{
    let c = chars_of(s.as_str());
    let (a, b) = trim_chars(c.as_slice());
    text_range(s.as_str(), a, b)
}

/// Reads the raw line `a..b` of `text` outside a description block; says whether it
/// opens one.
fn read_line(
    ps: &mut ParseState,
    text: &str,
    chars: &Vec<char>,
    a: usize,
    b: usize,
    index: usize,
    key: &String,
    id: Ghost<Seq<char>>,
) -> (opens: bool)
    requires
        chars@ == text@,
        a <= b <= chars@.len(),
        key@ == id@ + ":"@,
    ensures
        ({
            let st = molecule_line(
                (old(ps).name@, opt_view(old(ps).description), old(ps).status@, step_texts(old(ps).steps@), None),
                chars@.subrange(a as int, b as int),
                index as int,
                id@,
            );
            &&& final(ps).name@ == st.0
            &&& opt_view(final(ps).description) == st.1
            &&& final(ps).status@ == st.2
            &&& final(ps).steps@.len() == st.3.len()
            &&& forall|j: int| 0 <= j < final(ps).steps@.len() ==> (#[trigger] final(ps).steps@[j]).id@ == st.3[j].0
                && final(ps).steps@[j].title@ == st.3[j].1 && final(ps).steps@[j].status == st.3[j].2
            &&& forall|j: int| 0 <= j < old(ps).steps@.len() ==> #[trigger] final(ps).steps@[j] == old(ps).steps@[j]
            &&& final(ps).steps@.len() > old(ps).steps@.len() ==> final(ps).steps@.len() == old(ps).steps@.len() + 1
                && step_matches(final(ps).steps@.last(), st.3.last())
            &&& opens == st.4 is Some
            &&& opens ==> st.4 == Some(Seq::<Seq<char>>::empty())
        }),
{
    let ghost raw = chars@.subrange(a as int, b as int);
    let (ta, tb) = trim_chars(slice_subrange(chars.as_slice(), a, b));
    let lo = a + ta;
    let hi = a + tb;
    let ghost line = trim(raw);
    assert(chars@.subrange(lo as int, hi as int) =~= line);
    let ls = slice_subrange(chars.as_slice(), lo, hi);
    let sep = find_in_range(chars.as_slice(), lo, hi, ": ");
    proof {
        reveal_strlit(": ");
        lemma_first_match_found(line, ": "@, 0);
        if let Some(k) = sep {
            assert(line.subrange(k - lo, k - lo + 2) == ": "@);
        }
    }
    match sep {
        Some(k) => {
            if starts_with_chars(ls, key.as_str()) || index == 0 {
                ps.name = text_range(text, k + 2, hi);
                assert(ps.name@ =~= after_first_separator(line));
            }
        },
        None => {},
    }
    if starts_with_chars(ls, "Status:") {
        proof {
            reveal_strlit("Status:");
        }
        let removed = remove_all_in_range(text, chars.as_slice(), lo, hi, "Status:");
        ps.status = trimmed(&removed);
    }
    if starts_with_chars(ls, "Description:") {
        return true;
    }
    let step_line = contains_chars(ls, "[") && (contains_chars(ls, "pending") || contains_chars(ls, "complete")
        || contains_chars(ls, "active") || contains_chars(ls, "failed"));
    if step_line {
        let wb = word_bounds(ls);
        if wb.len() > 0 {
            let ghost ws = words(line);
            let status = if contains_chars(ls, "complete") {
                StepStatus::Complete
            } else if contains_chars(ls, "active") {
                StepStatus::Active
            } else if contains_chars(ls, "failed") {
                StepStatus::Failed
            } else if contains_chars(ls, "blocked") {
                StepStatus::Blocked
            } else {
                StepStatus::Pending
            };
            proof {
                assert forall|k: int| 0 <= k < wb@.len() implies lo + (#[trigger] wb@[k]).0 <= lo + wb@[k].1 <= chars@.len()
                    && chars@.subrange(lo + wb@[k].0, lo + wb@[k].1) == ws[k] by {
                    assert(chars@.subrange(lo + wb@[k].0, lo + wb@[k].1) =~= ls@.subrange(wb@[k].0 as int, wb@[k].1 as int));
                }
            }
            let step_id = text_range(text, lo + wb[0].0, lo + wb[0].1);
            let title = if wb.len() > 3 {
                join_ranges(text, chars, lo, &wb, 3, Ghost(ws))
            } else {
                assert(joined(Seq::<Seq<char>>::empty(), " "@) == Seq::<char>::empty());
                String::new()
            };
            ps.steps.push(
                MoleculeStep {
                    id: step_id,
                    title,
                    description: None,
                    status,
                    depends_on: Vec::new(),
                    assignee: None,
                    started_at: None,
                    completed_at: None,
                },
            );
        }
    }
    false
}

/// Reads a workflow from the text that `gt mol show` prints: the name from a title
/// line, the status from a `Status:` line, the description from the lines after
/// `Description:`, and one step per line that lists one.
pub fn parse_molecule_from_text(id: &str, text: &str) -> (r: Result<Molecule, String>)
    ensures
        r is Ok,
        r matches Ok(m) ==> {
            let lines = pieces(text@, '\n');
            let st = molecule_fold(lines, id@, lines.len() as int);
            &&& m.id@ == id@
            &&& m.name@ == st.0
            &&& opt_view(m.description) == final_description(st)
            &&& m.status@ == st.2
            &&& m.steps@.len() == st.3.len()
            &&& forall|j: int| 0 <= j < m.steps@.len() ==> step_matches(#[trigger] m.steps@[j], st.3[j])
            &&& m.created_at is None
            &&& m.updated_at is None
        },
{
    let chars = chars_of(text);
    let lines = piece_bounds(chars.as_slice(), '\n');
    let ghost all = pieces(text@, '\n');
    let mut key = String::from_str(id);
    key.append(":");
    let mut ps = ParseState {
        name: String::from_str(id),
        description: None,
        status: String::from_str("unknown"),
        steps: Vec::new(),
    };
    let mut in_description = false;
    let mut description = String::new();
    let mut described: usize = 0;
    let ghost mut acc: Seq<Seq<char>> = Seq::empty();
    let mut k: usize = 0;
    while k < lines.len()
        invariant
            chars@ == text@,
            lines@.len() == all.len(),
            all == pieces(text@, '\n'),
            key@ == id@ + ":"@,
            forall|j: int|
                0 <= j < lines@.len() ==> (#[trigger] lines@[j]).0 <= lines@[j].1 <= chars@.len()
                    && chars@.subrange(lines@[j].0 as int, lines@[j].1 as int) == all[j],
            k <= lines@.len(),
            state_matches(ps, molecule_fold(all, id@, k as int)),
            in_description <==> molecule_fold(all, id@, k as int).4 is Some,
            in_description ==> molecule_fold(all, id@, k as int).4 == Some(acc)
                && description@ == joined(acc, "\n"@) && described == acc.len(),
            described <= k,
        decreases lines@.len() - k,
    {
        let (a, b) = lines[k];
        let ghost before = molecule_fold(all, id@, k as int);
        let raw = slice_subrange(chars.as_slice(), a, b);
        let mut normal = true;
        if in_description {
            let (ta, tb) = trim_chars(raw);
            if tb > ta && !contains_chars(raw, ":") {
                if described > 0 {
                    description.append("\n");
                }
                description.append(text_range(text, a + ta, a + tb).as_str());
                proof {
                    let t = chars@.subrange(a + ta, a + tb);
                    assert(t =~= raw@.subrange(ta as int, tb as int));
                    let acc2 = acc.push(t);
                    assert(acc2.drop_last() =~= acc);
                    assert(description@ =~= joined(acc2, "\n"@));
                    acc = acc2;
                }
                described = described + 1;
                normal = false;
            } else {
                ps.description = Some(description);
                description = String::new();
                in_description = false;
            }
        }
        if normal {
            let ghost mid = if before.4 is Some {
                (before.0, Some(joined(acc, "\n"@)), before.2, before.3, None::<Seq<Seq<char>>>)
            } else {
                before
            };
            assert(step_texts(ps.steps@) =~= mid.3) by {
                assert forall|j: int| 0 <= j < ps.steps@.len() implies step_texts(ps.steps@)[j] == mid.3[j] by {
                    assert(step_matches(ps.steps@[j], before.3[j]));
                }
            }
            let ghost old_ps_steps = ps.steps@;
            let opens = read_line(&mut ps, text, &chars, a, b, k, &key, Ghost(id@));
            proof {
                let after = molecule_fold(all, id@, k + 1);
                assert(raw@ == all[k as int]);
                assert(forall|j: int| 0 <= j < old_ps_steps.len() ==> step_matches(#[trigger] old_ps_steps[j], before.3[j]));
                assert forall|j: int| 0 <= j < ps.steps@.len() implies step_matches(#[trigger] ps.steps@[j], after.3[j]) by {
                    if j < old_ps_steps.len() {
                        assert(ps.steps@[j] == old_ps_steps[j]);
                    }
                }
            }
            if opens {
                in_description = true;
                description = String::new();
                described = 0;
                proof {
                    acc = Seq::empty();
                }
            }
        }
        k = k + 1;
    }
    let final_desc = if in_description {
        Some(description)
    } else {
        ps.description
    };
    Ok(
        Molecule {
            id: String::from_str(id),
            name: ps.name,
            description: final_desc,
            status: ps.status,
            steps: ps.steps,
            created_at: None,
            updated_at: None,
        },
    )
}

/// The status a `bd list` prefix names: `open`, `in_progress` or `closed`, else
/// `unknown`.
pub open spec fn listed_status(prefix: Seq<char>) -> Seq<char> {
    if contains_seq(prefix, "open"@) {
        "open"@
    } else if contains_seq(prefix, "in_progress"@) {
        "in_progress"@
    } else if contains_seq(prefix, "closed"@) {
        "closed"@
    } else {
        "unknown"@
    }
}

/// Reads one line of `bd list --type=molecule` text output,
/// `id [priority] [type] status - title`; a line without ` - ` lists nothing.
pub fn parse_molecule_list_line(line: &str) -> (r: Option<Molecule>)
    ensures
        first_match(line@, " - "@, 0) is None ==> r is None,
        first_match(line@, " - "@, 0) matches Some(k) ==> (r matches Some(m) && {
            let prefix = line@.subrange(0, k);
            &&& m.id@ == (if words(prefix).len() > 0 {
                words(prefix)[0]
            } else {
                Seq::<char>::empty()
            })
            &&& m.name@ == line@.subrange(k + 3, line@.len() as int)
            &&& m.status@ == listed_status(prefix)
            &&& m.description is None
            &&& m.steps@.len() == 0
            &&& m.created_at is None
            &&& m.updated_at is None
        }),
{
    let chars = chars_of(line);
    let n = chars.len();
    let k = match find_in_range(chars.as_slice(), 0, n, " - ") {
        Some(k) => k,
        None => {
            assert(chars@.subrange(0, n as int) =~= line@);
            return None;
        },
    };
    proof {
        reveal_strlit(" - ");
        assert(chars@.subrange(0, n as int) =~= line@);
    }
    let prefix = slice_subrange(chars.as_slice(), 0, k);
    let wb = word_bounds(prefix);
    let id = if wb.len() > 0 {
        assert(chars@.subrange(wb@[0].0 as int, wb@[0].1 as int) =~= prefix@.subrange(wb@[0].0 as int, wb@[0].1 as int));
        text_range(line, wb[0].0, wb[0].1)
    } else {
        String::new()
    };
    let status = if contains_chars(prefix, "open") {
        "open"
    } else if contains_chars(prefix, "in_progress") {
        "in_progress"
    } else if contains_chars(prefix, "closed") {
        "closed"
    } else {
        "unknown"
    };
    Some(
        Molecule {
            id,
            name: text_range(line, k + 3, n),
            description: None,
            status: String::from_str(status),
            steps: Vec::new(),
            created_at: None,
            updated_at: None,
        },
    )
}

} // verus!
