use vstd::prelude::*;

verus! {

/// How many workspace events are worth announcing.
#[derive(Clone, Copy, Debug, PartialEq, Eq, Structural)]
pub enum Verbosity {
    /// Only critical events: errors, stuck or blocked agents, escalations.
    Quiet,
    /// Standard events: completions, assignments, mail, sessions, merges, convoys.
    Normal,
    /// Everything.
    Chatty,
}

impl Default for Verbosity {
    fn default() -> (r: Verbosity)
        ensures
            r == Verbosity::Normal,
    {
        Verbosity::Normal
    }
}

/// The event types announced even when quiet.
pub open spec fn is_critical(t: Seq<char>) -> bool {
    t == "error"@ || t == "stuck"@ || t == "blocked"@ || t == "escalation"@
}

/// The event types announced at normal verbosity.
pub open spec fn is_standard(t: Seq<char>) -> bool {
    is_critical(t) || t == "mail"@ || t == "complete"@ || t == "assignment"@ || t
        == "session_start"@ || t == "session_end"@ || t == "merge"@ || t == "convoy_start"@ || t
        == "convoy_complete"@
}

fn is_one_of(t: &String, options: &[&str]) -> (r: bool)
    ensures
        r == exists|i: int| 0 <= i < options@.len() && t@ == (#[trigger] options@[i])@,
{
    let mut i: usize = 0;
    while i < options.len()
        invariant
            i <= options@.len(),
            forall|k: int| 0 <= k < i ==> t@ != (#[trigger] options@[k])@,
        decreases options@.len() - i,
    {
        if *t == String::from_str(options[i]) {
            return true;
        }
        i = i + 1;
    }
    false
}

/// Whether an event of type `event_type` is announced at `verbosity`.
pub fn should_emit_event(event_type: &str, verbosity: Verbosity) -> (r: bool)
    ensures
        r == match verbosity {
            Verbosity::Quiet => is_critical(event_type@),
            Verbosity::Normal => is_standard(event_type@),
            Verbosity::Chatty => true,
        },
{
    let t = String::from_str(event_type);
    let critical: [&str; 4] = ["error", "stuck", "blocked", "escalation"];
    let standard: [&str; 12] = [
        "error",
        "stuck",
        "blocked",
        "escalation",
        "mail",
        "complete",
        "assignment",
        "session_start",
        "session_end",
        "merge",
        "convoy_start",
        "convoy_complete",
    ];
    match verbosity {
        Verbosity::Quiet => {
            let r = is_one_of(&t, critical.as_slice());
            assert(r == is_critical(event_type@)) by {
                if is_critical(event_type@) {
                    if event_type@ == "error"@ { assert(t@ == critical@[0]@); }
                    else if event_type@ == "stuck"@ { assert(t@ == critical@[1]@); }
                    else if event_type@ == "blocked"@ { assert(t@ == critical@[2]@); }
                    else { assert(t@ == critical@[3]@); }
                }
            }
            r
        },
        Verbosity::Normal => {
            let r = is_one_of(&t, standard.as_slice());
            assert(r == is_standard(event_type@)) by {
                if is_standard(event_type@) {
                    let ghost k: int = if event_type@ == "error"@ { 0 }
                        else if event_type@ == "stuck"@ { 1 }
                        else if event_type@ == "blocked"@ { 2 }
                        else if event_type@ == "escalation"@ { 3 }
                        else if event_type@ == "mail"@ { 4 }
                        else if event_type@ == "complete"@ { 5 }
                        else if event_type@ == "assignment"@ { 6 }
                        else if event_type@ == "session_start"@ { 7 }
                        else if event_type@ == "session_end"@ { 8 }
                        else if event_type@ == "merge"@ { 9 }
                        else if event_type@ == "convoy_start"@ { 10 }
                        else { 11 };
                    assert(t@ == standard@[k]@);
                }
            }
            r
        },
        Verbosity::Chatty => true,
    }
}

/// What commentary reads of a workspace event: its type, its actor, and the payload
/// fields that some types carry.
#[derive(Clone, Debug)]
pub struct EventFields {
    pub event_type: String,
    pub actor: String,
    pub subject: Option<String>,
    pub to: Option<String>,
    pub task: Option<String>,
    pub message: Option<String>,
    pub target: Option<String>,
    pub name: Option<String>,
}

/// A payload field, or `fallback` when it is absent.
pub open spec fn or_else(field: Option<String>, fallback: Seq<char>) -> Seq<char> {
    match field {
        Some(s) => s@,
        None => fallback,
    }
}

/// The spoken line for an event, for the types that have one.
pub open spec fn commentary_of(e: EventFields) -> Option<Seq<char>> {
    let t = e.event_type@;
    let a = e.actor@;
    if t == "mail"@ {
        Some("Mail from "@ + a + " to "@ + or_else(e.to, "someone"@) + ": "@ + or_else(e.subject, "message"@))
    } else if t == "session_start"@ {
        Some(a + " has joined the party."@)
    } else if t == "session_end"@ {
        Some(a + " has left. Hopefully they finished something."@)
    } else if t == "complete"@ {
        Some(a + " completed "@ + or_else(e.task, "something"@) + ". Miracles do happen."@)
    } else if t == "stuck"@ {
        Some("Heads up: "@ + a + " appears to be stuck. Might need a nudge."@)
    } else if t == "error"@ {
        Some("Error from "@ + a + ": "@ + or_else(e.message, "unknown error"@))
    } else if t == "nudge"@ {
        Some(a + " nudged "@ + or_else(e.target, "someone"@) + "."@)
    } else if t == "merge"@ {
        Some("Work from "@ + a + " has been merged. Progress!"@)
    } else if t == "convoy_start"@ {
        Some("Convoy "@ + or_else(e.name, "convoy"@) + " is rolling out."@)
    } else if t == "convoy_complete"@ {
        Some("Convoy "@ + or_else(e.name, "convoy"@) + " has reached its destination."@)
    } else {
        None
    }
}

fn push_or(s: &mut String, field: &Option<String>, fallback: &str)
    ensures
        final(s)@ == old(s)@ + or_else(*field, fallback@),
{
    match field {
        Some(v) => s.append(v.as_str()),
        None => s.append(fallback),
    }
}

fn is_type(t: &String, name: &str) -> (r: bool)
    ensures
        r == (t@ == name@),
{
    *t == String::from_str(name)
}

/// The voice assistant's line on an event, or `None` for a type it does not remark on.
pub fn generate_commentary(event: &EventFields) -> (r: Option<String>)
    ensures
        r matches Some(s) ==> commentary_of(*event) == Some(s@),
        r is None ==> commentary_of(*event) is None,
{
    let t = &event.event_type;
    let a = event.actor.as_str();
    if is_type(t, "mail") {
        let mut s = String::from_str("Mail from ");
        s.append(a);
        s.append(" to ");
        push_or(&mut s, &event.to, "someone");
        s.append(": ");
        push_or(&mut s, &event.subject, "message");
        Some(s)
    } else if is_type(t, "session_start") {
        let mut s = String::from_str(a);
        s.append(" has joined the party.");
        Some(s)
    } else if is_type(t, "session_end") {
        let mut s = String::from_str(a);
        s.append(" has left. Hopefully they finished something.");
        Some(s)
    } else if is_type(t, "complete") {
        let mut s = String::from_str(a);
        s.append(" completed ");
        push_or(&mut s, &event.task, "something");
        s.append(". Miracles do happen.");
        Some(s)
    } else if is_type(t, "stuck") {
        let mut s = String::from_str("Heads up: ");
        s.append(a);
        s.append(" appears to be stuck. Might need a nudge.");
        Some(s)
    } else if is_type(t, "error") {
        let mut s = String::from_str("Error from ");
        s.append(a);
        s.append(": ");
        push_or(&mut s, &event.message, "unknown error");
        Some(s)
    } else if is_type(t, "nudge") {
        let mut s = String::from_str(a);
        s.append(" nudged ");
        push_or(&mut s, &event.target, "someone");
        s.append(".");
        Some(s)
    } else if is_type(t, "merge") {
        let mut s = String::from_str("Work from ");
        s.append(a);
        s.append(" has been merged. Progress!");
        Some(s)
    } else if is_type(t, "convoy_start") {
        let mut s = String::from_str("Convoy ");
        push_or(&mut s, &event.name, "convoy");
        s.append(" is rolling out.");
        Some(s)
    } else if is_type(t, "convoy_complete") {
        let mut s = String::from_str("Convoy ");
        push_or(&mut s, &event.name, "convoy");
        s.append(" has reached its destination.");
        Some(s)
    } else {
        None
    }
}

} // verus!
