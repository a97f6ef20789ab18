//! The dispatch engine end to end: navigation, prompts, and outcome
//! reporting over the concrete root/host contexts.

use ctxshell::actions::ShellContext;
use ctxshell::actions::root::{Root, RootCtx};
use ctxshell::actions::straitjacket::CommandAction;
use ctxshell::readline::{Dispatcher, NextContext, ReadEvent, ReadLineContext, SessionState, parse_line};

fn fresh_dispatcher() -> Dispatcher<ShellContext> {
    Dispatcher::new(ShellContext::Root(RootCtx::new(Root::new())))
}

#[test]
fn it_works() {
    assert_eq!(1, 1);
}

#[test]
fn scenario_add_select_back() {
    let mut d = fresh_dispatcher();
    assert_eq!(d.active().prompt(), "(root)");

    let out = d.dispatch_line("host https://a.example 3scaletoken1");
    match out {
        Some(CommandAction::SideEffect(m)) => assert_eq!(m, "Host added: https://a.example"),
        _ => panic!("expected a side effect"),
    }
    assert_eq!(d.depth(), 0);

    let out = d.dispatch_line("host https://a.example");
    assert!(matches!(out, Some(CommandAction::SideEffect(_))));
    assert_eq!(d.active().prompt(), "https://a.example");
    assert_eq!(d.depth(), 1);

    let out = d.dispatch_line("xyz");
    assert!(matches!(out, Some(CommandAction::NotFound)));
    assert_eq!(d.active().prompt(), "https://a.example");
    assert_eq!(d.depth(), 1);

    let out = d.dispatch_line("back");
    assert!(matches!(out, Some(CommandAction::NotFound)));
    assert_eq!(d.active().prompt(), "(root)");
    assert_eq!(d.depth(), 0);
}

#[test]
fn push_then_pop_restores_root_state() {
    let mut d = fresh_dispatcher();
    d.dispatch_line("host https://a.example tok");
    let prompt_before = d.active().prompt().to_string();

    d.dispatch_line("host https://a.example");
    assert_eq!(d.depth(), 1);
    d.dispatch_line("back");
    assert_eq!(d.depth(), 0);
    assert_eq!(d.active().prompt(), prompt_before);

    // The collection survived the round trip: the host can be selected again.
    let out = d.dispatch_line("host https://a.example");
    assert!(matches!(out, Some(CommandAction::SideEffect(_))));
    assert_eq!(d.active().prompt(), "https://a.example");
}

#[test]
fn pop_on_empty_stack_is_noop() {
    let mut d = fresh_dispatcher();
    assert_eq!(d.depth(), 0);
    d.apply_next(NextContext::Pop(None));
    assert_eq!(d.depth(), 0);
    assert_eq!(d.active().prompt(), "(root)");
}

#[test]
fn blank_lines_are_ignored() {
    let mut d = fresh_dispatcher();
    assert!(d.dispatch_line("").is_none());
    assert!(d.dispatch_line("   \t ").is_none());
    assert_eq!(d.depth(), 0);
    assert_eq!(d.active().prompt(), "(root)");
}

#[test]
fn unknown_command_at_root_is_not_found() {
    let mut d = fresh_dispatcher();
    let out = d.dispatch_line("frobnicate now");
    assert!(matches!(out, Some(CommandAction::NotFound)));
    assert_eq!(d.depth(), 0);
    assert_eq!(d.active().prompt(), "(root)");
}

#[test]
fn host_wrong_arity_is_usage() {
    let mut d = fresh_dispatcher();
    match d.dispatch_line("host") {
        Some(CommandAction::Usage(m)) => {
            assert_eq!(m, "usage: host <3scale-system-host> [<token>]")
        },
        _ => panic!("expected a usage error"),
    }
    match d.dispatch_line("host a b c") {
        Some(CommandAction::Usage(m)) => {
            assert_eq!(m, "usage: host <3scale-system-host> [<token>]")
        },
        _ => panic!("expected a usage error"),
    }
}

#[test]
fn host_scope_token_commands() {
    let mut d = fresh_dispatcher();
    d.dispatch_line("host https://a.example 3scaletoken1");
    d.dispatch_line("host https://a.example");

    match d.dispatch_line("token") {
        Some(CommandAction::NoProgress(m)) => assert_eq!(m, "token: 3scaletoken1"),
        _ => panic!("expected no progress"),
    }
    match d.dispatch_line("token fresh") {
        Some(CommandAction::SideEffect(m)) => assert_eq!(m, "Replaced token 3scaletoken1."),
        _ => panic!("expected a side effect"),
    }
    match d.dispatch_line("token") {
        Some(CommandAction::NoProgress(m)) => assert_eq!(m, "token: fresh"),
        _ => panic!("expected no progress"),
    }
    match d.dispatch_line("token a b") {
        Some(CommandAction::Usage(m)) => assert_eq!(m, "usage: token [<token>]"),
        _ => panic!("expected a usage error"),
    }
}

#[test]
fn parse_line_splits_on_whitespace() {
    let words = parse_line("  host   https://a.example \t tok ").expect("tokens expected");
    assert_eq!(words, vec!["host", "https://a.example", "tok"]);
    assert!(parse_line("").is_none());
    assert!(parse_line(" \t  ").is_none());
}

#[test]
fn interrupt_keeps_the_session_running() {
    let mut d = fresh_dispatcher();
    d.dispatch_line("host https://a.example tok");
    let (state, outcome) = d.handle_event(ReadEvent::Interrupted);
    assert!(matches!(state, SessionState::Running));
    assert!(outcome.is_none());
    assert_eq!(d.active().prompt(), "(root)");

    let (state, outcome) = d.handle_event(ReadEvent::Line("host https://a.example".to_string()));
    assert!(matches!(state, SessionState::Running));
    assert!(matches!(outcome, Some(CommandAction::SideEffect(_))));
    assert_eq!(d.active().prompt(), "https://a.example");

    let (state, outcome) = d.handle_event(ReadEvent::EndOfInput);
    assert!(matches!(state, SessionState::Terminated));
    assert!(outcome.is_none());
}

#[test]
fn outcomes_render_with_category_prefixes() {
    assert_eq!(
        CommandAction::SideEffect("done".to_string()).render(),
        "Side effect: done"
    );
    assert_eq!(CommandAction::Failed("why".to_string()).render(), "Failed: why");
    assert_eq!(
        CommandAction::NoProgress("same".to_string()).render(),
        "No progress: same"
    );
    assert_eq!(CommandAction::Usage("how".to_string()).render(), "Usage: how");
    assert_eq!(CommandAction::NotFound.render(), "Command not found.");
}
