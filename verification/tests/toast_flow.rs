use toastkit::channel::Delivery;
use toastkit::channel::Request;
use toastkit::channel::ToastAction;
use toastkit::channel::Toaster;
use toastkit::store::publish;
use toastkit::store::PublishOutcome;
use toastkit::store::ToastViewer;
use toastkit::store::ToastViewerMsg;
use toastkit::toast::Toast;
use toastkit::toast::ToastKind;

fn toast_with_lifetime(title: &str, lifetime: Option<u64>) -> Toast {
    let mut t = Toast::new(title.to_string());
    t.timeout = lifetime;
    t
}

#[test]
fn scenario_saved_expires_on_tick() {
    // Publish {title: "Saved", lifetime: 5s} at t=0 with one subscriber.
    let mut toaster = Toaster::new();
    toaster.connected(1);
    let mut viewer = ToastViewer::new();
    let out = publish(&toaster, &mut viewer, toast_with_lifetime("Saved", Some(5_000)), 0);
    assert_eq!(out, PublishOutcome::Displayed { id: 0 });
    assert_eq!(viewer.entry_count(), 1);
    assert_eq!(viewer.get_entry(0).timeout, Some(5_000));
    assert_eq!(viewer.get_entry(0).toast.title, "Saved");
    // Tick delivered at t=5s: the store is empty afterward.
    let changed = viewer.cleanup(5_000);
    assert!(changed);
    assert_eq!(viewer.entry_count(), 0);
}

#[test]
fn scenario_two_lifetimes_single_timer() {
    // Two notifications with lifetimes 3s and 7s at t=0.
    let mut toaster = Toaster::new();
    toaster.connected(1);
    let mut viewer = ToastViewer::new();
    publish(&toaster, &mut viewer, toast_with_lifetime("first", Some(3_000)), 0);
    publish(&toaster, &mut viewer, toast_with_lifetime("second", Some(7_000)), 0);
    // The scheduler arms for t=3s; there is never a second armed timer.
    assert_eq!(viewer.armed_at(), Some(3_000));
    assert_eq!(viewer.pending_deadlines(), 2);
    // After that tick fires and reaps the first entry, it re-arms for 7s.
    let changed = viewer.cleanup(3_000);
    assert!(changed);
    assert_eq!(viewer.entry_count(), 1);
    assert_eq!(viewer.get_entry(0).toast.title, "second");
    assert_eq!(viewer.armed_at(), Some(7_000));
    assert_eq!(viewer.pending_deadlines(), 1);
    // The second tick drains everything.
    viewer.cleanup(7_000);
    assert_eq!(viewer.entry_count(), 0);
    assert_eq!(viewer.armed_at(), None);
    assert_eq!(viewer.pending_deadlines(), 0);
}

#[test]
fn scenario_persistent_until_closed() {
    // A toast without a lifetime persists through any number of ticks.
    let mut toaster = Toaster::new();
    toaster.connected(1);
    let mut viewer = ToastViewer::new();
    let out = publish(&toaster, &mut viewer, toast_with_lifetime("Error", None), 0);
    let id = match out {
        PublishOutcome::Displayed { id } => id,
        PublishOutcome::Dropped { .. } => panic!("subscriber was registered"),
    };
    for now in [0u64, 1_000, 100_000, u64::MAX] {
        let changed = viewer.cleanup(now);
        assert!(!changed);
        assert_eq!(viewer.entry_count(), 1);
    }
    // Only an explicit close removes it.
    let changed = viewer.remove_toast(id);
    assert!(changed);
    assert_eq!(viewer.entry_count(), 0);
}

#[test]
fn scenario_close_unknown_id_is_noop() {
    let mut toaster = Toaster::new();
    toaster.connected(1);
    let mut viewer = ToastViewer::new();
    publish(&toaster, &mut viewer, toast_with_lifetime("keep", None), 0);
    // Closing an id never issued changes nothing and raises no error.
    let changed = viewer.remove_toast(999);
    assert!(!changed);
    assert_eq!(viewer.entry_count(), 1);
    assert_eq!(viewer.get_entry(0).toast.title, "keep");
}

#[test]
fn scenario_publish_without_subscriber_drops() {
    // With zero subscribers the store is unaffected and the
    // delivery-failure signal is observed exactly once.
    let toaster = Toaster::new();
    let mut viewer = ToastViewer::new();
    let out = publish(&toaster, &mut viewer, toast_with_lifetime("lost", Some(1_000)), 0);
    assert_eq!(out, PublishOutcome::Dropped { title: "lost".to_string() });
    assert_eq!(viewer.entry_count(), 0);
    assert_eq!(viewer.pending_deadlines(), 0);
    assert_eq!(viewer.armed_at(), None);
}

#[test]
fn dropped_toast_is_never_queued() {
    // A toast dropped while nobody listened does not reach a viewer
    // registered later.
    let mut toaster = Toaster::new();
    let mut viewer = ToastViewer::new();
    let out = publish(&toaster, &mut viewer, toast_with_lifetime("early", None), 0);
    assert!(matches!(out, PublishOutcome::Dropped { .. }));
    toaster.connected(7);
    let out = publish(&toaster, &mut viewer, toast_with_lifetime("late", None), 10);
    assert_eq!(out, PublishOutcome::Displayed { id: 0 });
    assert_eq!(viewer.entry_count(), 1);
    assert_eq!(viewer.get_entry(0).toast.title, "late");
}

#[test]
fn close_twice_equals_close_once() {
    let mut toaster = Toaster::new();
    toaster.connected(1);
    let mut viewer = ToastViewer::new();
    publish(&toaster, &mut viewer, toast_with_lifetime("a", None), 0);
    publish(&toaster, &mut viewer, toast_with_lifetime("b", None), 0);
    let first = viewer.remove_toast(0);
    assert!(first);
    let titles_once: Vec<String> = (0..viewer.entry_count())
        .map(|i| viewer.get_entry(i).toast.title.clone())
        .collect();
    let second = viewer.remove_toast(0);
    assert!(!second);
    let titles_twice: Vec<String> = (0..viewer.entry_count())
        .map(|i| viewer.get_entry(i).toast.title.clone())
        .collect();
    assert_eq!(titles_once, titles_twice);
    assert_eq!(titles_twice, vec!["b".to_string()]);
}

#[test]
fn no_premature_reap() {
    let mut toaster = Toaster::new();
    toaster.connected(1);
    let mut viewer = ToastViewer::new();
    publish(&toaster, &mut viewer, toast_with_lifetime("Saved", Some(5_000)), 0);
    // A tick one millisecond early removes nothing.
    let changed = viewer.cleanup(4_999);
    assert!(!changed);
    assert_eq!(viewer.entry_count(), 1);
}

#[test]
fn equal_expiries_reaped_in_same_tick() {
    let mut toaster = Toaster::new();
    toaster.connected(1);
    let mut viewer = ToastViewer::new();
    publish(&toaster, &mut viewer, toast_with_lifetime("a", Some(2_000)), 0);
    publish(&toaster, &mut viewer, toast_with_lifetime("b", Some(2_000)), 0);
    assert_eq!(viewer.entry_count(), 2);
    viewer.cleanup(2_000);
    assert_eq!(viewer.entry_count(), 0);
    assert_eq!(viewer.armed_at(), None);
}

#[test]
fn expiry_is_now_plus_lifetime() {
    let mut toaster = Toaster::new();
    toaster.connected(1);
    let mut viewer = ToastViewer::new();
    publish(&toaster, &mut viewer, toast_with_lifetime("x", Some(400)), 100);
    assert_eq!(viewer.get_entry(0).timeout, Some(500));
}

#[test]
fn ids_are_monotonic_and_never_reused() {
    let mut viewer = ToastViewer::new();
    let a = viewer.add_toast(toast_with_lifetime("a", None), 0);
    let b = viewer.add_toast(toast_with_lifetime("b", None), 0);
    let c = viewer.add_toast(toast_with_lifetime("c", None), 0);
    assert_eq!((a, b, c), (0, 1, 2));
    viewer.remove_toast(1);
    let d = viewer.add_toast(toast_with_lifetime("d", None), 0);
    assert_eq!(d, 3);
}

#[test]
fn update_dispatches_events() {
    let mut viewer = ToastViewer::new();
    let toast = toast_with_lifetime("Saved", Some(1_000));
    let render = viewer.update(ToastViewerMsg::Perform(ToastAction::ShowToast(toast)), 0);
    assert!(render);
    assert_eq!(viewer.entry_count(), 1);
    let render = viewer.update(ToastViewerMsg::Cleanup, 500);
    assert!(!render);
    let render = viewer.update(ToastViewerMsg::Cleanup, 1_000);
    assert!(render);
    assert_eq!(viewer.entry_count(), 0);
    let render = viewer.update(ToastViewerMsg::Close(0), 1_000);
    assert!(!render);
}

#[test]
fn channel_delivers_to_most_recent_registrant() {
    let mut toaster = Toaster::new();
    toaster.connected(1);
    toaster.connected(2);
    let d = toaster.show_toast(Toast::new("hi".to_string()));
    assert_eq!(
        d,
        Delivery::Delivered {
            viewer: 2,
            action: ToastAction::ShowToast(Toast::new("hi".to_string()))
        }
    );
    // Registering a handle twice is a no-op: handle 1 is still second
    // from the top after handle 2 deregisters.
    toaster.connected(1);
    toaster.disconnected(2);
    let d = toaster.handle_input(Request::Toast(Toast::new("again".to_string())));
    assert_eq!(
        d,
        Delivery::Delivered {
            viewer: 1,
            action: ToastAction::ShowToast(Toast::new("again".to_string()))
        }
    );
}

#[test]
fn channel_drop_signal_carries_title() {
    let mut toaster = Toaster::new();
    toaster.connected(4);
    toaster.disconnected(4);
    toaster.disconnected(4);
    assert_eq!(toaster.viewer_count(), 0);
    let d = toaster.show_toast(Toast::new("nobody".to_string()));
    assert_eq!(d, Delivery::Dropped { title: "nobody".to_string() });
}

#[test]
fn stamped_toast_reaped_at_its_own_expiry() {
    // The host reads the clock; the core only sees the instant it hands
    // in. A toast stamped at any base instant is reaped by a tick at its
    // own expiry.
    let now: u64 = 1_700_000_000_000;
    let mut viewer = ToastViewer::new();
    let toast = toast_with_lifetime("stamped", Some(100));
    viewer.add_toast(toast, now);
    assert_eq!(viewer.get_entry(0).timeout, Some(now + 100));
    viewer.cleanup(now + 100);
    assert_eq!(viewer.entry_count(), 0);
    let _ = ToastKind::default();
}
