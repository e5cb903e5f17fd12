use chunked_download::events::{generate_commentary, EventFields};
use chunked_download::gastown::{parse_molecule_from_text, parse_tmux_pane_line, parse_tmux_session_line, StepStatus};
use chunked_download::text::{parse_i32_chars, parse_u32_chars, parse_u64_chars, piece_bounds};
use chunked_download::vision::parse_sips_dimensions;

fn chars(s: &str) -> Vec<char> {
    s.chars().collect()
}

fn event(t: &str) -> EventFields {
    EventFields {
        event_type: t.into(),
        actor: "toast".into(),
        subject: None,
        to: None,
        task: None,
        message: None,
        target: None,
        name: None,
    }
}

#[test]
fn numbers_parse_as_from_str_does() {
    assert_eq!(parse_u32_chars(&chars("4294967295")), Some(u32::MAX));
    assert_eq!(parse_u32_chars(&chars("4294967296")), None);
    assert_eq!(parse_u32_chars(&chars("+7")), Some(7));
    assert_eq!(parse_u32_chars(&chars("+")), None);
    assert_eq!(parse_u32_chars(&chars("")), None);
    assert_eq!(parse_u32_chars(&chars("-1")), None);
    assert_eq!(parse_u32_chars(&chars("1 ")), None);
    assert_eq!(parse_u64_chars(&chars("18446744073709551615")), Some(u64::MAX));
    assert_eq!(parse_u64_chars(&chars("18446744073709551616")), None);
    assert_eq!(parse_i32_chars(&chars("-2147483648")), Some(i32::MIN));
    assert_eq!(parse_i32_chars(&chars("-2147483649")), None);
    assert_eq!(parse_i32_chars(&chars("2147483647")), Some(i32::MAX));
    assert_eq!(parse_i32_chars(&chars("2147483648")), None);
    assert_eq!(parse_i32_chars(&chars("-0")), Some(0));
    assert_eq!(parse_i32_chars(&chars("-+5")), None);
    assert_eq!(parse_i32_chars(&chars("-")), None);
    assert_eq!(parse_i32_chars(&chars("+12")), Some(12));
}

#[test]
fn split_bounds_match_str_split() {
    for s in ["", "a", ":", "a:b", "a::b:", ":x:"] {
        let c = chars(s);
        let pieces: Vec<String> = piece_bounds(&c, ':').iter().map(|&(a, b)| c[a..b].iter().collect()).collect();
        let expected: Vec<String> = s.split(':').map(|p| p.to_string()).collect();
        assert_eq!(pieces, expected, "{:?}", s);
    }
}

#[test]
fn session_lines_are_read() {
    let s = parse_tmux_session_line("main:3:1:1704600000").unwrap();
    assert_eq!((s.name.as_str(), s.windows, s.attached, s.activity), ("main", 3, true, Some(1704600000)));
    let t = parse_tmux_session_line("work:x:0").unwrap();
    assert_eq!((t.windows, t.attached, t.activity), (0, false, None));
    let u = parse_tmux_session_line("w:2:1:soon").unwrap();
    assert_eq!(u.activity, None);
    assert!(parse_tmux_session_line("broken:1").is_none());
}

#[test]
fn pane_lines_are_read() {
    let p = parse_tmux_pane_line("main:0:editor:1:%3:1:nvim:4242").unwrap();
    assert_eq!(p.session_name, "main");
    assert_eq!(p.window_index, 0);
    assert_eq!(p.window_name, "editor");
    assert_eq!(p.pane_index, 1);
    assert_eq!(p.pane_id, "%3");
    assert!(p.pane_active);
    assert_eq!(p.pane_current_command, "nvim");
    assert_eq!(p.pane_pid, 4242);
    assert!(parse_tmux_pane_line("main:0:editor:1:%3:1:nvim").is_none());
}

#[test]
fn sips_output_gives_dimensions() {
    let out = "/tmp/shot.png\n  pixelWidth: 2880\n  pixelHeight: 1800\n";
    assert_eq!(parse_sips_dimensions(out), Some((2880, 1800)));
    assert_eq!(parse_sips_dimensions("  pixelWidth: 2880\r\n  pixelHeight: 1800\r\n"), Some((2880, 1800)));
    assert_eq!(parse_sips_dimensions("  pixelWidth: 2880\n"), None);
    assert_eq!(parse_sips_dimensions("  pixelWidth: wide\n  pixelHeight: 10"), None);
    assert_eq!(parse_sips_dimensions(""), None);
}

#[test]
fn commentary_per_event_type() {
    let mut mail = event("mail");
    mail.to = Some("mayor".into());
    assert_eq!(generate_commentary(&mail).unwrap(), "Mail from toast to mayor: message");
    assert_eq!(generate_commentary(&event("session_start")).unwrap(), "toast has joined the party.");
    let mut done = event("complete");
    done.task = Some("gt-12".into());
    assert_eq!(generate_commentary(&done).unwrap(), "toast completed gt-12. Miracles do happen.");
    assert_eq!(generate_commentary(&event("error")).unwrap(), "Error from toast: unknown error");
    assert_eq!(generate_commentary(&event("nudge")).unwrap(), "toast nudged someone.");
    let mut convoy = event("convoy_complete");
    convoy.name = Some("alpha".into());
    assert_eq!(generate_commentary(&convoy).unwrap(), "Convoy alpha has reached its destination.");
    assert_eq!(generate_commentary(&event("convoy_start")).unwrap(), "Convoy convoy is rolling out.");
    assert!(generate_commentary(&event("assignment")).is_none());
}

#[test]
fn molecule_text_is_read() {
    let text = "mol-1: Feature work\nStatus: in_progress\nDescription:\nFirst line\nSecond line\nSteps:\n  design [complete] - Design the thing\n  impl [active] x Implement it now\n  test [pending]\n";
    let m = parse_molecule_from_text("mol-1", text).unwrap();
    assert_eq!(m.id, "mol-1");
    assert_eq!(m.name, "Feature work");
    assert_eq!(m.status, "in_progress");
    assert_eq!(m.description.as_deref(), Some("First line\nSecond line"));
    assert_eq!(m.steps.len(), 3);
    assert_eq!((m.steps[0].id.as_str(), m.steps[0].title.as_str(), m.steps[0].status), ("design", "Design the thing", StepStatus::Complete));
    assert_eq!((m.steps[1].id.as_str(), m.steps[1].title.as_str(), m.steps[1].status), ("impl", "Implement it now", StepStatus::Active));
    assert_eq!((m.steps[2].id.as_str(), m.steps[2].title.as_str(), m.steps[2].status), ("test", "", StepStatus::Pending));
    assert!(m.steps[0].depends_on.is_empty());
    assert!(m.created_at.is_none());
}

#[test]
fn molecule_text_defaults_and_edges() {
    let m = parse_molecule_from_text("m2", "").unwrap();
    assert_eq!((m.name.as_str(), m.status.as_str()), ("m2", "unknown"));
    assert!(m.description.is_none());
    let t = parse_molecule_from_text("m3", "Some title: here\nx [blocked] failed step\nDescription:\nonly line").unwrap();
    assert_eq!(t.name, "here");
    assert_eq!(t.steps.len(), 1);
    assert_eq!(t.steps[0].status, StepStatus::Failed);
    assert_eq!(t.steps[0].title, "step");
    assert_eq!(t.description.as_deref(), Some("only line"));
    let u = parse_molecule_from_text("m4", "Status: Status: done ").unwrap();
    assert_eq!(u.status, "done");
}
