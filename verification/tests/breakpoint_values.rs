use toastkit::breakpoint::Breakpoint;
use toastkit::breakpoint::WithBreakpoint;
use toastkit::breakpoint::WithBreakpointExt;
use toastkit::breakpoint::WithBreakpoints;
use toastkit::toast::Toast;
use toastkit::toast::ToastKind;

#[test]
fn breakpoint_suffixes() {
    assert_eq!(Breakpoint::All.to_string(), "");
    assert_eq!(Breakpoint::Small.to_string(), "-on-sm");
    assert_eq!(Breakpoint::Medium.to_string(), "-on-md");
    assert_eq!(Breakpoint::Large.to_string(), "-on-lg");
    assert_eq!(Breakpoint::XLarge.to_string(), "-on-xl");
    assert_eq!(Breakpoint::XXLarge.to_string(), "-on-2xl");
}

#[test]
fn map_keeps_the_breakpoint() {
    let w = WithBreakpoint { modifier: 21u32, on: Breakpoint::Small };
    let doubled = w.map(|m: &u32| m * 2);
    assert_eq!(doubled.on, Breakpoint::Small);
    assert_eq!(doubled.modifier, 42);
}

#[test]
fn mapped_keeps_order_and_breakpoints() {
    let items = vec![
        WithBreakpoint { modifier: 1u32, on: Breakpoint::All },
        WithBreakpoint { modifier: 2u32, on: Breakpoint::Medium },
        WithBreakpoint { modifier: 3u32, on: Breakpoint::XXLarge },
    ];
    let list = WithBreakpoints::new(items);
    let mapped = list.mapped(|m: &u32| m + 10);
    assert_eq!(mapped.len(), 3);
    assert_eq!(mapped.get(0).modifier, 11);
    assert_eq!(mapped.get(0).on, Breakpoint::All);
    assert_eq!(mapped.get(1).modifier, 12);
    assert_eq!(mapped.get(1).on, Breakpoint::Medium);
    assert_eq!(mapped.get(2).modifier, 13);
    assert_eq!(mapped.get(2).on, Breakpoint::XXLarge);
}

#[test]
fn ext_trait_binds_each_breakpoint() {
    let grow = "grow";
    assert_eq!(grow.all().on, Breakpoint::All);
    assert_eq!(grow.sm().on, Breakpoint::Small);
    assert_eq!(grow.md().on, Breakpoint::Medium);
    assert_eq!(grow.lg().on, Breakpoint::Large);
    assert_eq!(grow.xl().on, Breakpoint::XLarge);
    assert_eq!(grow.xxl().on, Breakpoint::XXLarge);
    assert_eq!(grow.on(Breakpoint::Large).modifier, "grow");
    let n = 5u64;
    assert_eq!(n.sm().modifier, 5);
}

#[test]
fn title_only_toast() {
    let t = Toast::new("Saved".to_string());
    assert_eq!(t.title, "Saved");
    assert_eq!(t.kind, ToastKind::Default);
    assert_eq!(t.timeout, None);
    assert_eq!(t.body, "");
    assert!(t.actions.is_empty());
}

#[test]
fn default_kind() {
    assert_eq!(ToastKind::default(), ToastKind::Default);
}
