use latch::gateway::{completions_url, get_target_node, ghost_action, plan_sweep, GhostAction, Session, SessionId};
use latch::message::{Message, RouteTarget};

fn nodes() -> Vec<String> {
    vec!["http://127.0.0.1:30000".to_string(), "http://127.0.0.1:30001".to_string()]
}

#[test]
fn same_prompt_routes_to_same_node() {
    let a = get_target_node("You are a helpful assistant", &nodes());
    let b = get_target_node("You are a helpful assistant", &nodes());
    assert_eq!(a, b);
    let expected = xxhash_rust::xxh3::xxh3_64("You are a helpful assistant".as_bytes()) % 2;
    assert_eq!(a, RouteTarget::BackendUrl(nodes()[expected as usize].clone()));
    let single = get_target_node("anything", &nodes()[..1]);
    assert_eq!(single, RouteTarget::BackendUrl("http://127.0.0.1:30000".to_string()));
}

#[test]
fn session_history_and_activity() {
    let mut s = Session::start(SessionId::new("s-1"), "be brief", &nodes(), 100);
    assert_eq!(s.history, vec![Message::new("system", "be brief")]);
    assert_eq!(s.last_active, 100);
    s.push_message(Message::new("user", "hi"), 130);
    assert_eq!(s.history.len(), 2);
    assert_eq!(s.last_active, 130);
    assert_eq!(s.history_snapshot(), s.history);
    s.touch(200);
    assert_eq!(s.last_active, 200);
    assert_eq!(s.history.len(), 2);
    assert_eq!(s.session_id.as_str(), "s-1");
    assert_eq!(completions_url(&s.target_node), format!("{}/v1/chat/completions", s.target_node.as_str()));
}

#[test]
fn sweep_rules() {
    assert_eq!(ghost_action(10_000, 10_000 - 3601), GhostAction::Remove);
    assert_eq!(ghost_action(10_000, 10_000 - 3600), GhostAction::KeepAlive);
    assert_eq!(ghost_action(10_000, 10_000 - 16), GhostAction::KeepAlive);
    assert_eq!(ghost_action(10_000, 10_000 - 15), GhostAction::Idle);
    assert_eq!(ghost_action(i64::MAX, i64::MIN), GhostAction::Remove);
    assert_eq!(ghost_action(i64::MIN, i64::MAX), GhostAction::Idle);
    assert_eq!(
        plan_sweep(5000, &[0, 4980, 4999]),
        vec![GhostAction::Remove, GhostAction::KeepAlive, GhostAction::Idle]
    );
}
