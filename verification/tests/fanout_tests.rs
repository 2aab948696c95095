use emojiopticon::fanout::{
    FrameBroadcast, Subscription, ViewerAction, ViewerCounter, ViewerEvent, ViewerSession,
};

#[test]
fn subscriber_gets_only_the_newest_frame() {
    let mut bc = FrameBroadcast::new();
    let mut sub = Subscription::subscribe(&bc);
    assert!(sub.poll(&bc).is_none());
    bc.publish("frame one".to_string());
    bc.publish("frame two".to_string());
    // the older frame was overwritten, never delivered, never blocking
    assert_eq!(sub.poll(&bc), Some("frame two".to_string()));
    assert!(sub.poll(&bc).is_none());
}

#[test]
fn late_subscriber_sees_nothing_old() {
    let mut bc = FrameBroadcast::new();
    bc.publish("early".to_string());
    let mut sub = Subscription::subscribe(&bc);
    assert!(sub.poll(&bc).is_none());
    bc.publish("late".to_string());
    assert_eq!(sub.poll(&bc), Some("late".to_string()));
}

#[test]
fn one_disconnect_decrements_once_and_spares_the_rest() {
    let mut counter = ViewerCounter::new();
    let mut bc = FrameBroadcast::new();

    let mut viewer_a = ViewerSession::open(&mut counter);
    let mut sub_a = Subscription::subscribe(&bc);
    let mut viewer_b = ViewerSession::open(&mut counter);
    let mut sub_b = Subscription::subscribe(&bc);
    assert_eq!(counter.current(), 2);

    bc.publish("frame one".to_string());
    let fa = sub_a.poll(&bc).unwrap();
    let fb = sub_b.poll(&bc).unwrap();
    assert_eq!(fa, fb);
    assert!(matches!(
        viewer_a.on_event(ViewerEvent::Frame(fa), &mut counter),
        ViewerAction::SendFrame(_)
    ));

    // viewer a's socket write fails mid-stream
    let act = viewer_a.on_event(ViewerEvent::WriteFailed, &mut counter);
    assert!(matches!(act, ViewerAction::Cleanup));
    assert_eq!(counter.current(), 1);

    // viewer b keeps receiving subsequent frames uninterrupted
    bc.publish("frame two".to_string());
    assert_eq!(sub_b.poll(&bc), Some("frame two".to_string()));
    assert!(matches!(
        viewer_b.on_event(ViewerEvent::Frame("frame two".to_string()), &mut counter),
        ViewerAction::SendFrame(_)
    ));
    assert_eq!(counter.current(), 1);
}

#[test]
fn stalled_viewer_never_stalls_the_publisher() {
    let mut counter = ViewerCounter::new();
    let mut bc = FrameBroadcast::new();
    let mut stalled = ViewerSession::open(&mut counter);
    let _sub = Subscription::subscribe(&bc);
    let mut live = ViewerSession::open(&mut counter);
    let mut live_sub = Subscription::subscribe(&bc);

    // the stalled viewer never reads; publishing goes on regardless
    for i in 0..100u32 {
        bc.publish(format!("frame {}", i));
    }
    assert_eq!(live_sub.poll(&bc), Some("frame 99".to_string()));

    // when its write finally fails, the stalled viewer is cleaned up alone
    let act = stalled.on_event(ViewerEvent::WriteFailed, &mut counter);
    assert!(matches!(act, ViewerAction::Cleanup));
    assert_eq!(counter.current(), 1);

    bc.publish("after".to_string());
    assert_eq!(live_sub.poll(&bc), Some("after".to_string()));
    let act = live.on_event(ViewerEvent::StreamClosed, &mut counter);
    assert!(matches!(act, ViewerAction::Cleanup));
    assert_eq!(counter.current(), 0);
}
