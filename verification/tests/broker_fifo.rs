use run_in_roblox::broker::CommandQueues;
use run_in_roblox::message::RobloxEvent;

fn run_script(script: &str, oneshot: bool) -> RobloxEvent {
    RobloxEvent::RunScript { script: script.to_string(), oneshot }
}

#[test]
fn fifo_order_within_one_instance() {
    let mut q = CommandQueues::new();
    let alpha = "alpha-server".to_string();
    q.register(&alpha);
    q.queue_event(alpha.clone(), run_script("a1", false));
    q.queue_event(alpha.clone(), run_script("a2", false));
    q.queue_event(alpha.clone(), run_script("a3", false));
    let got = q.poll(&alpha);
    assert_eq!(
        got,
        vec![
            run_script("a1", false),
            run_script("a2", false),
            run_script("a3", false),
        ]
    );
}

#[test]
fn fifo_order_survives_interleaving_with_other_instances() {
    let mut q = CommandQueues::new();
    let alpha = "alpha-server".to_string();
    let beta = "beta-server".to_string();
    q.register(&alpha);
    q.register(&beta);
    q.queue_event(alpha.clone(), run_script("a1", false));
    q.queue_event(beta.clone(), run_script("b1", false));
    q.queue_event(alpha.clone(), run_script("a2", false));
    q.queue_event(beta.clone(), run_script("b2", false));
    q.queue_event(alpha.clone(), run_script("a3", false));
    let got_alpha = q.poll(&alpha);
    let got_beta = q.poll(&beta);
    assert_eq!(
        got_alpha,
        vec![
            run_script("a1", false),
            run_script("a2", false),
            run_script("a3", false),
        ]
    );
    assert_eq!(got_beta, vec![run_script("b1", false), run_script("b2", false)]);
}

#[test]
fn poll_drains_the_queue() {
    let mut q = CommandQueues::new();
    let alpha = "alpha-server".to_string();
    q.register(&alpha);
    q.queue_event(alpha.clone(), run_script("a1", false));
    let first = q.poll(&alpha);
    let second = q.poll(&alpha);
    assert_eq!(first.len(), 1);
    assert_eq!(second.len(), 0);
}

#[test]
fn queue_for_unknown_instance_is_a_no_op() {
    let mut q = CommandQueues::new();
    let alpha = "alpha-server".to_string();
    let ghost_instance = "never-registered".to_string();
    q.register(&alpha);
    q.queue_event(ghost_instance.clone(), run_script("lost", false));
    assert!(!q.registered(&ghost_instance));
    assert_eq!(q.poll(&ghost_instance).len(), 0);
    assert_eq!(q.poll(&alpha).len(), 0);
}

#[test]
fn register_twice_keeps_the_queue() {
    let mut q = CommandQueues::new();
    let alpha = "alpha-server".to_string();
    q.register(&alpha);
    q.queue_event(alpha.clone(), run_script("a1", false));
    q.register(&alpha);
    assert_eq!(q.poll(&alpha), vec![run_script("a1", false)]);
}

#[test]
fn deregister_drops_binding_and_pending_commands() {
    let mut q = CommandQueues::new();
    let alpha = "alpha-server".to_string();
    q.register(&alpha);
    q.queue_event(alpha.clone(), run_script("a1", false));
    q.deregister(&alpha);
    assert!(!q.registered(&alpha));
    assert_eq!(q.poll(&alpha).len(), 0);
    q.queue_event(alpha.clone(), run_script("late", false));
    assert_eq!(q.poll(&alpha).len(), 0);
}

#[test]
fn stop_closes_every_queue() {
    let mut q = CommandQueues::new();
    let alpha = "alpha-server".to_string();
    let beta = "beta-server".to_string();
    q.register(&alpha);
    q.register(&beta);
    q.queue_event(alpha.clone(), run_script("a1", false));
    q.stop();
    assert!(!q.registered(&alpha));
    assert!(!q.registered(&beta));
    assert_eq!(q.poll(&alpha).len(), 0);
    assert_eq!(q.poll(&beta).len(), 0);
}
