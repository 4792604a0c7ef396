use swtchr::control::{
    parse_uid, respond, socket_path, swap_reply, Command, Response, MAX_LINE,
};
use swtchr::error::Error;
use swtchr::hyprland::{next_backoff, parse_event, HyprEvent, HyprIpc, FIRST_BACKOFF_MS};
use swtchr::paths::PathPart;

fn show(path: &[PathPart]) -> Vec<String> {
    path.iter()
        .map(|p| match p {
            PathPart::Var(v) => format!("${v}"),
            PathPart::Name(n) => n.to_string(),
        })
        .collect()
}

/// The reply to a line and how many swaps it has queued, as long as the service
/// runs.
fn serve(line: &str, queue: &mut Vec<Command>) -> String {
    match respond(line) {
        Response::Refuse(reply) => reply,
        Response::Reply(reply) => reply,
        Response::QueueSwap => {
            queue.push(Command::Swap);
            swap_reply(true).to_string()
        }
    }
}

#[test]
fn parses_known_commands() {
    assert_eq!(Command::parse("swap"), Some(Command::Swap));
    assert_eq!(Command::parse("swap\n"), Some(Command::Swap));
    assert_eq!(Command::parse(" ping "), Some(Command::Ping));
    assert_eq!(Command::parse("nope"), None);
    assert_eq!(Command::parse(""), None);
}

#[test]
fn round_trip_ping() {
    let mut queue = Vec::new();
    let reply = serve("ping\n", &mut queue);
    assert_eq!(reply.trim(), "ok");
    assert!(queue.is_empty()); // ping does not enqueue
}

#[test]
fn swap_command_enqueues_msg() {
    let mut queue = Vec::new();
    let reply = serve("swap\n", &mut queue);
    assert_eq!(reply.trim(), "ok");
    assert_eq!(queue, vec![Command::Swap]);
}

#[test]
fn unknown_command_replies_err() {
    let mut queue = Vec::new();
    let reply = serve("weird\n", &mut queue);
    assert!(reply.starts_with("err:"));
    assert_eq!(reply, "err: unknown command: \"weird\"\n");
    assert!(queue.is_empty());
}

#[test]
fn unknown_commands_are_shown_quoted() {
    let mut queue = Vec::new();
    assert_eq!(serve("a\"b\tc\n", &mut queue), "err: unknown command: \"a\\\"b\\tc\"\n");
    assert_eq!(serve("", &mut queue), "err: unknown command: \"\"\n");
}

#[test]
fn every_reply_is_one_line() {
    for line in ["ping", "swap", "a\nb", "\n\n", "x\r\ny\u{85}z\u{2028}", &"y".repeat(80)] {
        let mut queue = Vec::new();
        let reply = serve(line, &mut queue);
        assert!(reply.ends_with('\n'));
        assert_eq!(reply.matches('\n').count(), 1);
    }
    assert_eq!(serve("a\nb", &mut Vec::new()), "err: unknown command: \"a\\nb\"\n");
}

#[test]
fn long_lines_are_refused() {
    let mut line = "x".repeat(MAX_LINE);
    assert!(matches!(respond(&line), Response::Reply(_)));
    line.push('x');
    match respond(&line) {
        Response::Refuse(reply) => assert_eq!(reply, "err: line too long\n"),
        other => panic!("{other:?}"),
    }
    // The cap counts bytes.
    assert!(matches!(respond(&"ы".repeat(33)), Response::Refuse(_)));
    // Even a known command is refused when padded past the cap.
    assert!(matches!(respond(&format!("swap{}", " ".repeat(61))), Response::Refuse(_)));
    assert!(matches!(respond(&format!("swap{}", " ".repeat(60))), Response::QueueSwap));
}

#[test]
fn requests_are_read_back() {
    for cmd in [Command::Swap, Command::Ping] {
        assert_eq!(Command::parse(cmd.request_line()), Some(cmd));
    }
    assert_eq!(Command::Swap.request_line(), "swap\n");
    assert_eq!(Command::Ping.request_line(), "ping\n");
}

#[test]
fn a_stopped_service_is_reported() {
    assert_eq!(swap_reply(true), "ok\n");
    assert_eq!(swap_reply(false), "err: service stopped\n");
}

#[test]
fn control_socket_paths() {
    assert_eq!(show(&socket_path(true, 1000)), vec!["$XDG_RUNTIME_DIR", "swtchr.sock"]);
    assert_eq!(show(&socket_path(false, 1000)), vec!["/tmp/swtchr-1000.sock"]);
    assert_eq!(show(&socket_path(false, 0)), vec!["/tmp/swtchr-0.sock"]);
}

#[test]
fn user_ids() {
    let status = "Name:\tswtchr\nUmask:\t0022\nTgid:\t42\nUid:\t1000\t1001\t1002\t1003\nGid:\t7\t7\t7\t7\n";
    assert_eq!(parse_uid(Some(status)), 1000);
    assert_eq!(parse_uid(Some("Uid: 0 5 5 5")), 0);
    assert_eq!(parse_uid(Some("Uid:\t4294967294")), 4294967294);
    assert_eq!(parse_uid(Some("Uid:\t4294967296\n")), 0);
    assert_eq!(parse_uid(Some("Uid:\t-1\nUid:\t9\n")), 0);
    assert_eq!(parse_uid(Some("Uid:\n1000\n")), 0);
    assert_eq!(parse_uid(Some("Gid:\t1000\n")), 0);
    assert_eq!(parse_uid(Some(" Uid:\t1000\n")), 0);
    assert_eq!(parse_uid(Some("")), 0);
    assert_eq!(parse_uid(None), 0);
}

#[test]
fn layout_events() {
    match parse_event("activelayout>>at-keyboard,English (US)\n") {
        Some(HyprEvent::ActiveLayout { keyboard, layout_name }) => {
            assert_eq!(keyboard, "at-keyboard");
            assert_eq!(layout_name, "English (US)");
        }
        other => panic!("{other:?}"),
    }
    // Only the first comma splits.
    match parse_event("activelayout>>kbd,Russian, phonetic") {
        Some(HyprEvent::ActiveLayout { keyboard, layout_name }) => {
            assert_eq!(keyboard, "kbd");
            assert_eq!(layout_name, "Russian, phonetic");
        }
        other => panic!("{other:?}"),
    }
    match parse_event("activelayout>>kbd") {
        Some(HyprEvent::ActiveLayout { keyboard, layout_name }) => {
            assert_eq!(keyboard, "kbd");
            assert_eq!(layout_name, "");
        }
        other => panic!("{other:?}"),
    }
}

#[test]
fn window_events_and_others() {
    assert!(matches!(parse_event("activewindow>>kitty,~\n"), Some(HyprEvent::ActiveWindow)));
    assert!(matches!(parse_event("activewindowv2>>55d\n"), Some(HyprEvent::ActiveWindow)));
    assert!(parse_event("workspace>>2\n").is_none());
    assert!(parse_event("activewindow").is_none());
    assert!(parse_event(" activewindow>>x").is_none());
    assert!(parse_event("").is_none());
    assert!(parse_event(">").is_none());
    // The first arrow counts, even inside a run.
    assert!(matches!(parse_event("activewindow>>>>x"), Some(HyprEvent::ActiveWindow)));
}

#[test]
fn option_responses() {
    assert_eq!(HyprIpc::get_layouts("option: input:kb_layout\nstr: us,ru\nset: true\n"), "us,ru");
    assert_eq!(HyprIpc::get_layouts("str:  us , ru \r\nstr: de\n"), "us , ru");
    assert_eq!(HyprIpc::get_layouts("int: 3\n"), "us");
    assert_eq!(HyprIpc::get_layouts(""), "us");
    assert_eq!(HyprIpc::get_variants("str: ,phonetic\n"), ",phonetic");
    assert_eq!(HyprIpc::get_variants("str: \n"), "");
    assert_eq!(HyprIpc::get_variants("no such option"), "");
    assert_eq!(HyprIpc::layouts_request(), "/getoption input:kb_layout");
    assert_eq!(HyprIpc::variants_request(), "/getoption input:kb_variant");
}

#[test]
fn switch_requests_are_absolute() {
    assert_eq!(HyprIpc::switch_layout_to(0), "switchxkblayout all 0");
    assert_eq!(HyprIpc::switch_layout_to(12), "switchxkblayout all 12");
}

#[test]
fn session_sockets() {
    assert_eq!(
        show(&HyprIpc::socket_path(true, true).unwrap()),
        vec!["$XDG_RUNTIME_DIR", "hypr", "$HYPRLAND_INSTANCE_SIGNATURE", ".socket.sock"]
    );
    assert_eq!(
        show(&HyprIpc::event_socket_path(true, true).unwrap()),
        vec!["$XDG_RUNTIME_DIR", "hypr", "$HYPRLAND_INSTANCE_SIGNATURE", ".socket2.sock"]
    );
    match HyprIpc::socket_path(false, false) {
        Err(Error::Evdev(m)) => assert_eq!(
            m,
            "HYPRLAND_INSTANCE_SIGNATURE not set — is this running inside a Hyprland session?"
        ),
        other => panic!("{other:?}"),
    }
    match HyprIpc::event_socket_path(true, false) {
        Err(Error::Evdev(m)) => assert_eq!(m, "XDG_RUNTIME_DIR not set"),
        other => panic!("{other:?}"),
    }
}

#[test]
fn backoff_doubles_up_to_five_seconds() {
    let mut waits = vec![FIRST_BACKOFF_MS];
    for _ in 0..6 {
        waits.push(next_backoff(*waits.last().unwrap()));
    }
    assert_eq!(waits, vec![200, 400, 800, 1600, 3200, 5000, 5000]);
}
