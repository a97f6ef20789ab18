//! The root's sorted host collection: upserts, lookup, removal, and the
//! root scope's `host` command.

use ctxshell::actions::root::{Root, RootCtx};
use ctxshell::actions::host::Host;
use ctxshell::actions::straitjacket::CommandAction;
use ctxshell::readline::NextContext;

fn urls_of(root: &Root) -> Vec<String> {
    root.hosts().iter().map(|h| h.url_str().to_string()).collect()
}

#[test]
fn upserts_keep_sorted_and_unique() {
    let mut root = Root::new();
    let inputs = [
        "https://c.example",
        "https://a.example",
        "https://b.example",
        "https://a.example",
        "https://z.example",
        "https://b.example",
    ];
    for (n, url) in inputs.iter().enumerate() {
        root.add_host_by_url(url, &format!("tok{}", n)).expect("valid URL");
    }
    let urls = urls_of(&root);
    assert_eq!(
        urls,
        vec![
            "https://a.example",
            "https://b.example",
            "https://c.example",
            "https://z.example",
        ]
    );
    for w in urls.windows(2) {
        assert!(w[0] < w[1]);
    }
}

#[test]
fn readd_returns_previous_token_and_keeps_order() {
    let mut root = Root::new();
    root.add_host_by_url("https://a.example", "first").unwrap();
    root.add_host_by_url("https://b.example", "other").unwrap();
    let before = urls_of(&root);

    let (idx, prev) = root.add_host_by_url("https://a.example", "second").unwrap();
    assert_eq!(idx, 0);
    assert_eq!(prev.as_deref(), Some("first"));
    assert_eq!(root.hosts().len(), 2);
    assert_eq!(urls_of(&root), before);
    assert_eq!(root.get_host("https://a.example").unwrap().token(), "second");
}

#[test]
fn adding_an_invalid_url_fails_and_changes_nothing() {
    let mut root = Root::new();
    root.add_host_by_url("https://a.example", "tok").unwrap();
    let err = root.add_host_by_url("not a url", "tok").unwrap_err();
    assert_eq!(err.message(), "invalid URL: expected <scheme>://<rest>");
    assert_eq!(root.hosts().len(), 1);
}

#[test]
fn select_missing_host_fails_without_navigating() {
    let mut rc = RootCtx::new(Root::new());
    let args = vec!["https://missing.example".to_string()];
    let (outcome, next) = rc.command("host", &args);
    match outcome {
        CommandAction::Failed(m) => {
            assert_eq!(m, "Host not found. If you want to add it, specify a token.")
        },
        _ => panic!("expected a failure"),
    }
    assert!(matches!(next, NextContext::Unchanged));
}

#[test]
fn select_known_host_pushes_its_scope() {
    let mut root = Root::new();
    root.add_host_by_url("https://a.example", "tok").unwrap();
    let mut rc = RootCtx::new(root);
    let args = vec!["https://a.example".to_string()];
    let (outcome, next) = rc.command("host", &args);
    assert!(matches!(outcome, CommandAction::SideEffect(_)));
    match next {
        NextContext::Push(ctx) => match ctx {
            ctxshell::actions::ShellContext::Host(hc) => {
                assert_eq!(hc.prompt(), "https://a.example");
            },
            _ => panic!("expected a host scope"),
        },
        _ => panic!("expected a descent"),
    }
}

#[test]
fn search_reports_position_of_absent_urls() {
    let mut root = Root::new();
    root.add_host_by_url("https://b.example", "t").unwrap();
    root.add_host_by_url("https://d.example", "t").unwrap();

    assert_eq!(root.host_search("https://b.example"), Ok(0));
    assert_eq!(root.host_search("https://d.example"), Ok(1));
    assert_eq!(root.host_search("https://a.example"), Err(0));
    assert_eq!(root.host_search("https://c.example"), Err(1));
    assert_eq!(root.host_search("https://e.example"), Err(2));
}

#[test]
fn get_and_find_and_remove() {
    let mut root = Root::new();
    root.add_host_by_url("https://a.example", "ta").unwrap();
    root.add_host_by_url("https://b.example", "tb").unwrap();

    assert_eq!(root.get_host("https://a.example").unwrap().token(), "ta");
    assert!(root.get_host("https://x.example").is_none());
    assert_eq!(root.find_host("https://b.example").unwrap().token(), "tb");
    assert!(matches!(root.find_host("https://x.example"), Err(2)));

    let removed = root.remove_host("https://a.example").expect("present");
    assert_eq!(removed.url_str(), "https://a.example");
    assert_eq!(removed.token(), "ta");
    assert_eq!(urls_of(&root), vec!["https://b.example"]);
    assert!(root.remove_host("https://a.example").is_none());
    assert_eq!(root.hosts().len(), 1);
}

#[test]
fn host_construction_and_token_swap() {
    let mut h = Host::new("https://a.example", "one").unwrap();
    assert_eq!(h.url_str(), "https://a.example");
    assert_eq!(h.url().as_str(), "https://a.example");
    assert_eq!(h.token(), "one");
    let prev = h.set_token("two".to_string());
    assert_eq!(prev, "one");
    assert_eq!(h.token(), "two");

    assert!(Host::new("nonsense", "t").is_err());
}

#[test]
fn empty_root_finds_nothing() {
    let mut root = Root::new();
    assert!(root.hosts().is_empty());
    assert_eq!(root.host_search("https://a.example"), Err(0));
    assert!(root.get_host("https://a.example").is_none());
    assert!(root.remove_host("https://a.example").is_none());
}
