use vstd::prelude::*;

use crate::text::{chars_of, starts_with, starts_with_chars, upper_of, uppercase};

verus! {

/// A voice command to try and what should come of it.
#[derive(Clone, Debug)]
pub struct TestCase {
    pub id: String,
    pub command: String,
    pub expected_action: String,
    pub validation_prompt: String,
}

/// The outcome of one test case.
#[derive(Clone, Debug)]
pub struct TestResult {
    pub test_id: String,
    pub command: String,
    pub passed: bool,
    pub tester_output: String,
    pub verifier_output: String,
    pub duration_ms: u64,
}

/// A self-test run: `status` is `idle`, `running`, `completed`, `failed` or `stopped`.
#[derive(Clone, Debug)]
pub struct SelfTestSession {
    pub id: String,
    pub status: String,
    pub total_tests: usize,
    pub passed_tests: usize,
    pub failed_tests: usize,
    pub current_test: Option<String>,
    pub results: Vec<TestResult>,
    pub duration_ms: u64,
}

pub open spec fn is_test_case(
    t: TestCase,
    id: Seq<char>,
    command: Seq<char>,
    expected_action: Seq<char>,
    validation_prompt: Seq<char>,
) -> bool {
    &&& t.id@ == id
    &&& t.command@ == command
    &&& t.expected_action@ == expected_action
    &&& t.validation_prompt@ == validation_prompt
}

fn test_case(id: &str, command: &str, expected_action: &str, validation_prompt: &str) -> (r: TestCase)
    ensures
        is_test_case(r, id@, command@, expected_action@, validation_prompt@),
{
    TestCase {
        id: String::from_str(id),
        command: String::from_str(command),
        expected_action: String::from_str(expected_action),
        validation_prompt: String::from_str(validation_prompt),
    }
}

/// The built-in voice test cases, in the order they run.
pub fn default_test_cases() -> (r: Vec<TestCase>)
    ensures
        r@.len() == 5,
        is_test_case(r@[0], "nav-dashboard"@, "Show me the dashboard"@, "Navigate to dashboard view"@, "Is the dashboard view visible with convoy information?"@),
        is_test_case(r@[1], "convoy-status"@, "What are the convoys?"@, "Show convoy status"@, "Did the assistant report convoy status?"@),
        is_test_case(r@[2], "check-blockers"@, "What's blocking?"@, "Show blocked items"@, "Did the assistant report blocked items or say nothing is blocked?"@),
        is_test_case(r@[3], "ready-work"@, "What's ready to work on?"@, "Show ready work"@, "Did the assistant report ready work items?"@),
        is_test_case(r@[4], "help-command"@, "What can you do?"@, "Show help"@, "Did the assistant explain available commands?"@),
{
    let mut r: Vec<TestCase> = Vec::new();
    r.push(test_case("nav-dashboard", "Show me the dashboard", "Navigate to dashboard view", "Is the dashboard view visible with convoy information?"));
    r.push(test_case("convoy-status", "What are the convoys?", "Show convoy status", "Did the assistant report convoy status?"));
    r.push(test_case("check-blockers", "What's blocking?", "Show blocked items", "Did the assistant report blocked items or say nothing is blocked?"));
    r.push(test_case("ready-work", "What's ready to work on?", "Show ready work", "Did the assistant report ready work items?"));
    r.push(test_case("help-command", "What can you do?", "Show help", "Did the assistant explain available commands?"));
    r
}

impl TestCase {
    /// An equal copy.
    pub fn duplicate(&self) -> (r: TestCase)
        ensures
            r == *self,
    {
        TestCase {
            id: self.id.clone(),
            command: self.command.clone(),
            expected_action: self.expected_action.clone(),
            validation_prompt: self.validation_prompt.clone(),
        }
    }
}

/// The case is among the requested ids.
pub open spec fn requested(c: TestCase, ids: Seq<String>) -> bool {
    exists|j: int| 0 <= j < ids.len() && (#[trigger] ids[j])@ == c.id@
}

fn is_requested(c: &TestCase, ids: &Vec<String>) -> (r: bool)
    ensures
        r == requested(*c, ids@),
{
    let mut j: usize = 0;
    while j < ids.len()
        invariant
            j <= ids@.len(),
            forall|k: int| 0 <= k < j ==> (#[trigger] ids@[k])@ != c.id@,
        decreases ids@.len() - j,
    {
        if ids[j] == c.id {
            return true;
        }
        j = j + 1;
    }
    false
}

/// The cases to run: those whose id is requested, in their order, or all of them when
/// no ids are given.
pub fn select_test_cases(all: &Vec<TestCase>, ids: Option<&Vec<String>>) -> (r: Vec<TestCase>)
    ensures
        ids is None ==> r@ == all@,
        ids matches Some(v) ==> r@ == all@.filter(|c: TestCase| requested(c, v@)),
{
    let mut r: Vec<TestCase> = Vec::new();
    let mut i: usize = 0;
    while i < all.len()
        invariant
            i <= all@.len(),
            ids is None ==> r@ == all@.subrange(0, i as int),
            ids matches Some(v) ==> r@ == all@.subrange(0, i as int).filter(|c: TestCase| requested(c, v@)),
        decreases all@.len() - i,
    {
        proof {
            assert(all@.subrange(0, i as int + 1).drop_last() =~= all@.subrange(0, i as int));
            reveal(Seq::filter);
        }
        let keep = match ids {
            Some(v) => is_requested(&all[i], v),
            None => true,
        };
        if keep {
            r.push(all[i].duplicate());
        }
        i = i + 1;
        proof {
            if ids is None {
                assert(r@ =~= all@.subrange(0, i as int));
            }
        }
    }
    assert(all@.subrange(0, i as int) =~= all@);
    r
}

/// The verifier's answer passes when, upper-cased, it starts with `PASS`.
pub fn verdict_passed(verifier_output: &str) -> (r: bool)
    ensures
        r == starts_with(upper_of(verifier_output@), "PASS"@),
{
    let upper = uppercase(verifier_output);
    let c = chars_of(upper.as_str());
    starts_with_chars(c.as_slice(), "PASS")
}

impl SelfTestSession {
    /// A run of `total_tests` cases that has just started, under `id`.
    pub fn running(id: String, total_tests: usize) -> (r: SelfTestSession)
        ensures
            r.id == id,
            r.status@ == "running"@,
            r.total_tests == total_tests,
            r.passed_tests == 0 && r.failed_tests == 0,
            r.current_test is None,
            r.results@.len() == 0,
            r.duration_ms == 0,
    {
        SelfTestSession {
            id,
            status: String::from_str("running"),
            total_tests,
            passed_tests: 0,
            failed_tests: 0,
            current_test: None,
            results: Vec::new(),
            duration_ms: 0,
        }
    }

    /// Counts a finished case and keeps its result.
    pub fn record_result(&mut self, result: TestResult)
        requires
            old(self).passed_tests < usize::MAX,
            old(self).failed_tests < usize::MAX,
        ensures
            result.passed ==> final(self).passed_tests == old(self).passed_tests + 1
                && final(self).failed_tests == old(self).failed_tests,
            !result.passed ==> final(self).failed_tests == old(self).failed_tests + 1
                && final(self).passed_tests == old(self).passed_tests,
            final(self).results@ == old(self).results@.push(result),
            final(self).id == old(self).id,
            final(self).status == old(self).status,
            final(self).total_tests == old(self).total_tests,
            final(self).current_test == old(self).current_test,
            final(self).duration_ms == old(self).duration_ms,
    {
        if result.passed {
            self.passed_tests = self.passed_tests + 1;
        } else {
            self.failed_tests = self.failed_tests + 1;
        }
        self.results.push(result);
    }

    /// Ends the run: completed, no current case, and its total duration.
    pub fn finish(&mut self, duration_ms: u64)
        ensures
            final(self).status@ == "completed"@,
            final(self).current_test is None,
            final(self).duration_ms == duration_ms,
            final(self).id == old(self).id,
            final(self).total_tests == old(self).total_tests,
            final(self).passed_tests == old(self).passed_tests,
            final(self).failed_tests == old(self).failed_tests,
            final(self).results@ == old(self).results@,
    {
        self.status = String::from_str("completed");
        self.current_test = None;
        self.duration_ms = duration_ms;
    }

    /// A session that has not run yet, under `id`.
    pub fn idle(id: String) -> (r: SelfTestSession)
        ensures
            r.id == id,
            r.status@ == "idle"@,
            r.total_tests == 0 && r.passed_tests == 0 && r.failed_tests == 0,
            r.current_test is None,
            r.results@.len() == 0,
            r.duration_ms == 0,
    {
        SelfTestSession {
            id,
            status: String::from_str("idle"),
            total_tests: 0,
            passed_tests: 0,
            failed_tests: 0,
            current_test: None,
            results: Vec::new(),
            duration_ms: 0,
        }
    }

    /// Stops a running session; any other session is left as it is.
    pub fn stop(&mut self)
        ensures
            old(self).status@ == "running"@ ==> final(self).status@ == "stopped"@
                && final(self).current_test is None,
            old(self).status@ != "running"@ ==> final(self).status == old(self).status
                && final(self).current_test == old(self).current_test,
            final(self).id == old(self).id,
            final(self).total_tests == old(self).total_tests,
            final(self).passed_tests == old(self).passed_tests,
            final(self).failed_tests == old(self).failed_tests,
            final(self).results@ == old(self).results@,
            final(self).duration_ms == old(self).duration_ms,
    {
        if self.status == String::from_str("running") {
            self.status = String::from_str("stopped");
            self.current_test = None;
        }
    }
}

} // verus!
