use elem::ascii_art::{DUMMY_CODE, ERROR_CODE, PENDING_CODE};
use elem::logitech::{device_id, is_dummy, wireless_devices, Device, DeviceInfo, DevicePayload};
use elem::tray::{parse_u64, Next, Tray, DEFAULT_UPDATE_FREQUENCY};

fn wireless(name: &str) -> DeviceInfo {
    DeviceInfo::new(&format!("id-{}", name), "WIRELESS", "MOUSE", name)
}

fn names(tray: &Tray) -> Vec<String> {
    tray.devices().clone()
}

#[test]
fn interval_argument_is_read_in_milliseconds() {
    assert_eq!(Tray::new(Some("5000".to_string())).update_frequency(), 5000);
}

#[test]
fn unreadable_interval_falls_back_to_default() {
    assert_eq!(Tray::new(Some("abc".to_string())).update_frequency(), 60000);
    assert_eq!(Tray::new(None).update_frequency(), DEFAULT_UPDATE_FREQUENCY);
    assert_eq!(Tray::new(Some(String::new())).update_frequency(), 60000);
    assert_eq!(Tray::new(Some("-5".to_string())).update_frequency(), 60000);
}

#[test]
fn parse_matches_the_standard_reader() {
    for s in ["0", "+7", "007", "18446744073709551615", "18446744073709551616", "+", "", "1a", " 1", "99999999999999999999"] {
        assert_eq!(parse_u64(s), s.parse::<u64>().ok(), "{:?}", s);
    }
}

#[test]
fn new_tray_has_no_selection() {
    let tray = Tray::new(None);
    assert!(tray.devices().is_empty());
    assert_eq!(tray.selected(), &None);
    let refresh = tray.refresh("intent");
    assert!(refresh.pending.is_none());
    match refresh.next {
        Next::Show(d) => {
            assert_eq!(d.icon, ERROR_CODE);
            assert_eq!(d.tooltip, "elem");
        }
        Next::Fetch(_) => panic!("nothing to fetch"),
    }
    let polled = tray.poll().expect("an unresolved selection is shown");
    assert!(matches!(polled.next, Next::Show(ref d) if d.icon == ERROR_CODE));
}

#[test]
fn mouse_and_dummy_scenario() {
    let mut tray = Tray::new(None);
    tray.initialize(&vec![wireless("Mouse X"), wireless("Dummy (Debug)")]);
    assert_eq!(tray.selected(), &Some("Mouse X".to_string()));
    assert_eq!(names(&tray), vec!["Dummy (Debug)".to_string(), "Mouse X".to_string()]);

    let refresh = tray.select("Dummy (Debug)").expect("listed");
    assert!(refresh.pending.is_none());
    match refresh.next {
        Next::Show(d) => {
            assert_eq!(d.icon, DUMMY_CODE);
            assert_eq!(d.tooltip, "elem (Dummy (Debug))");
        }
        Next::Fetch(_) => panic!("the debug device needs no fetch"),
    }
    assert_eq!(tray.selected(), &Some("Dummy (Debug)".to_string()));
    assert!(tray.poll().is_none());
}

#[test]
fn dummy_is_moved_off_the_default_place() {
    let mut tray = Tray::new(None);
    tray.initialize(&vec![wireless("A"), wireless("B"), wireless("Dummy (Debug)")]);
    assert_eq!(names(&tray), vec!["Dummy (Debug)".to_string(), "A".to_string(), "B".to_string()]);
    assert_eq!(tray.selected(), &Some("B".to_string()));
}

#[test]
fn lone_dummy_is_selected() {
    let mut tray = Tray::new(None);
    tray.initialize(&vec![wireless("Dummy (Debug)")]);
    assert_eq!(tray.selected(), &Some("Dummy (Debug)".to_string()));
    let mut empty = Tray::new(None);
    empty.initialize(&vec![]);
    assert_eq!(empty.selected(), &None);
}

#[test]
fn stale_fetch_is_dropped() {
    let mut tray = Tray::new(None);
    tray.initialize(&vec![wireless("A"), wireless("B")]);
    let first = tray.select("A").expect("listed");
    let target = match first.next {
        Next::Fetch(t) => t,
        Next::Show(_) => panic!("A is fetched"),
    };
    assert_eq!(target, "A");
    let pending = first.pending.expect("A shows the pending icon");
    assert_eq!(pending.icon, PENDING_CODE);
    assert_eq!(pending.tooltip, "elem (updating A from intent)");
    assert!(tray.select("B").is_some());
    assert!(tray.complete(&target, Some(50)).is_none());
    let shown = tray.complete("B", Some(70)).expect("B is selected");
    assert_eq!(shown.icon, 70);
    assert_eq!(shown.tooltip, "elem (B)");
}

#[test]
fn failed_fetch_shows_the_error_icon() {
    let mut tray = Tray::new(None);
    tray.initialize(&vec![wireless("A")]);
    let shown = tray.complete("A", None).expect("A is selected");
    assert_eq!(shown.icon, ERROR_CODE);
    assert_eq!(tray.selected(), &Some("A".to_string()));
}

#[test]
fn poll_refreshes_a_real_device() {
    let mut tray = Tray::new(Some("10".to_string()));
    tray.initialize(&vec![wireless("A")]);
    let refresh = tray.poll().expect("A is polled");
    let pending = refresh.pending.expect("A shows the pending icon");
    assert_eq!(pending.icon, PENDING_CODE);
    assert_eq!(pending.tooltip, "elem (updating A from watchman)");
    assert!(matches!(refresh.next, Next::Fetch(ref t) if t == "A"));
}

#[test]
fn unknown_selection_is_ignored() {
    let mut tray = Tray::new(None);
    tray.initialize(&vec![wireless("A")]);
    assert!(tray.select("Z").is_none());
    assert_eq!(tray.selected(), &Some("A".to_string()));
}

#[test]
fn wireless_devices_keep_one_entry_per_name() {
    let listed = vec![
        DeviceInfo::new("k1", "WIRED", "KEYBOARD", "Keys"),
        DeviceInfo::new("m1", "WIRELESS", "MOUSE", "Mouse"),
        DeviceInfo::new("h1", "WIRELESS", "HEADSET", "Head"),
        DeviceInfo::new("m2", "WIRELESS", "MOUSE", "Mouse"),
    ];
    let menu = wireless_devices(&listed);
    let ids: Vec<&str> = menu.iter().map(|d| d.id.as_str()).collect();
    assert_eq!(ids, vec!["m2", "h1", "dummy_debug"]);
    assert_eq!(menu[2].display_name, "Dummy (Debug)");
    assert_eq!(menu[2].connection_type, "WIRELESS");
    assert_eq!(menu[2].device_type, "MOUSE");
    assert_eq!(device_id(&menu, "Mouse"), Some("m2".to_string()));
    assert_eq!(device_id(&menu, "Keys"), None);
}

#[test]
fn copied_device_info_keeps_fields() {
    let a = DeviceInfo::new("x", "WIRELESS", "MOUSE", "X");
    let b = DeviceInfo::from_device_info(&a);
    assert_eq!(b.id, "x");
    assert_eq!(b.connection_type, "WIRELESS");
    assert_eq!(b.device_type, "MOUSE");
    assert_eq!(b.display_name, "X");
}

#[test]
fn dummy_device_is_always_full() {
    assert!(is_dummy("Dummy (Debug)"));
    assert!(!is_dummy("Dummy"));
    assert_eq!(Device::local("Dummy (Debug)").expect("local").payload().percentage(), 100);
    assert!(Device::local("Mouse").is_none());
    assert_eq!(Device::new(DevicePayload::new(37)).payload().percentage(), 37);
}

#[test]
fn default_selection_from_a_listing_is_a_real_device() {
    let listed = vec![
        DeviceInfo::new("m1", "WIRELESS", "MOUSE", "Mouse X"),
        DeviceInfo::new("k1", "WIRED", "KEYBOARD", "Keys"),
    ];
    let mut tray = Tray::new(None);
    tray.initialize(&wireless_devices(&listed));
    assert_eq!(tray.selected(), &Some("Mouse X".to_string()));
    assert_eq!(names(&tray), vec!["Dummy (Debug)".to_string(), "Mouse X".to_string()]);
}

#[test]
fn levels_out_of_range_show_the_error_icon() {
    let mut tray = Tray::new(None);
    tray.initialize(&vec![wireless("A")]);
    assert_eq!(tray.complete("A", Some(100)).expect("selected").icon, 100);
    assert_eq!(tray.complete("A", Some(0)).expect("selected").icon, 0);
    for level in [101u64, ERROR_CODE, PENDING_CODE, DUMMY_CODE, u64::MAX] {
        assert_eq!(tray.complete("A", Some(level)).expect("selected").icon, ERROR_CODE);
    }
}
