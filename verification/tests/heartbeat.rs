use vvrd::heartbeat::RenderHeartbeat;
use vvrd::renderer::RenderEvent;

#[test]
fn slow_pages_are_mentioned_once() {
    let mut heartbeat = RenderHeartbeat::start();
    assert!(heartbeat.tick(60_000).is_none());
    heartbeat.begin(6, 1_000);
    assert!(heartbeat.tick(5_999).is_none());
    match heartbeat.tick(6_000) {
        Some(RenderEvent::Notice(text)) => {
            assert_eq!(text, "Rendering page 7 is taking a while...");
        }
        _ => panic!("nothing was told"),
    }
    assert!(heartbeat.tick(9_000).is_none());
    heartbeat.end();
    heartbeat.begin(7, 10_000);
    assert!(heartbeat.tick(10_250).is_none());
    assert!(heartbeat.tick(15_000).is_some());
}

#[test]
fn finished_pages_go_unmentioned() {
    let mut heartbeat = RenderHeartbeat::start();
    heartbeat.begin(0, 0);
    heartbeat.end();
    assert!(heartbeat.tick(60_000).is_none());
    assert!(heartbeat.goes_on());
    heartbeat.stop();
    assert!(!heartbeat.goes_on());
    heartbeat.begin(1, 0);
    assert!(heartbeat.is_due(5_000) && !heartbeat.is_due(4_999));
    assert!(heartbeat.tick(5_000).is_some());
    assert!(!heartbeat.is_due(6_000));
    assert!(!heartbeat.goes_on());
}

#[test]
fn start_times_keep_their_low_bits() {
    let mut heartbeat = RenderHeartbeat::start();
    heartbeat.begin(0, (1 << 64) + 5);
    assert_eq!(heartbeat.started_ms, 5);
    let mut early = RenderHeartbeat::start();
    early.begin(0, 9_000);
    assert!(early.tick(1_000).is_none());
}
