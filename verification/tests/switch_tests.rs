use oxide_keys::switches::{DebouncedSwitch, SwitchId, Switches, DEBOUNCE_MS};

#[test]
fn new_switch_is_released() {
    let s = DebouncedSwitch::new();
    assert!(!s.on());
    assert_eq!(s, DebouncedSwitch { on: false, pending: false, changed_at: 0 });
}

#[test]
fn flip_only_restarts_timer() {
    let mut s = DebouncedSwitch::new();
    s.update(true, 100);
    assert!(!s.on());
    assert_eq!(s, DebouncedSwitch { on: false, pending: true, changed_at: 100 });
}

#[test]
fn steady_reading_trusted_after_debounce_time() {
    let mut s = DebouncedSwitch::new();
    s.update(true, 100);
    s.update(true, 105);
    assert!(!s.on());
    s.update(true, 109);
    assert!(!s.on());
    s.update(true, 110);
    assert!(s.on());
    assert_eq!(DEBOUNCE_MS, 10);
}

#[test]
fn release_is_debounced_too() {
    let mut s = DebouncedSwitch { on: true, pending: true, changed_at: 0 };
    s.update(false, 50);
    assert!(s.on());
    s.update(false, 59);
    assert!(s.on());
    s.update(false, 60);
    assert!(!s.on());
}

#[test]
fn single_glitch_ignored() {
    let mut s = DebouncedSwitch::new();
    s.update(true, 1000);
    s.update(false, 5000);
    assert!(!s.on());
    assert!(!s.pending);
}

#[test]
fn bouncing_restarts_timer() {
    let mut s = DebouncedSwitch::new();
    s.update(true, 0);
    s.update(false, 5);
    s.update(true, 8);
    s.update(true, 15);
    assert!(!s.on());
    s.update(true, 18);
    assert!(s.on());
}

#[test]
fn clock_going_back_does_not_trust_reading() {
    let mut s = DebouncedSwitch::new();
    s.update(true, 100);
    s.update(true, 20);
    assert!(!s.on());
    assert_eq!(s.changed_at, 100);
}

#[test]
fn switch_ids_in_panel_order() {
    for (i, id) in SwitchId::ALL.iter().enumerate() {
        assert_eq!(id.index(), i);
    }
    assert_eq!(SwitchId::Sw5.index(), 4);
}

#[test]
fn new_switches_all_released() {
    let sw = Switches::new();
    for id in SwitchId::ALL {
        assert!(!sw.pressed(id));
    }
}

#[test]
fn switches_debounced_independently() {
    let mut sw = Switches::new();
    let mut low = [false; 8];
    low[0] = true;
    low[4] = true;
    sw.upd(0, low);
    sw.upd(10, low);
    assert!(sw.pressed(SwitchId::Sw1));
    assert!(sw.pressed(SwitchId::Sw5));
    assert!(!sw.pressed(SwitchId::Sw2));
    low[4] = false;
    low[7] = true;
    sw.upd(12, low);
    assert!(sw.pressed(SwitchId::Sw5));
    assert!(!sw.pressed(SwitchId::Sw8));
    sw.upd(22, low);
    assert!(sw.pressed(SwitchId::Sw1));
    assert!(!sw.pressed(SwitchId::Sw5));
    assert!(sw.pressed(SwitchId::Sw8));
}

#[test]
fn held_press_reported_over_run_of_updates() {
    let mut sw = Switches::new();
    let mut low = [false; 8];
    low[6] = true;
    for t in [100u64, 103, 106, 109] {
        sw.upd(t, low);
        assert!(!sw.pressed(SwitchId::Sw7));
    }
    sw.upd(110, low);
    assert!(sw.pressed(SwitchId::Sw7));
}

#[test]
fn switch_state_ignores_other_readings() {
    let mut a = Switches::new();
    let mut b = Switches::new();
    for t in 0u64..40 {
        let mine = t % 13 < 7;
        let mut low_a = [false; 8];
        let mut low_b = [true; 8];
        low_a[1] = mine;
        low_b[1] = mine;
        low_b[5] = t % 2 == 0;
        a.upd(t, low_a);
        b.upd(t, low_b);
        assert_eq!(a.pressed(SwitchId::Sw2), b.pressed(SwitchId::Sw2));
    }
}

#[test]
fn state_changes_only_after_steady_reading() {
    let mut s = DebouncedSwitch::new();
    let readings = [(true, 0u64), (false, 4), (true, 8), (true, 12), (true, 17), (true, 18)];
    let mut changed_at_step = None;
    for (k, (raw, t)) in readings.iter().enumerate() {
        let before = s.on();
        s.update(*raw, *t);
        if s.on() != before {
            changed_at_step = Some(k);
        }
    }
    assert_eq!(changed_at_step, Some(5));
    assert!(s.on());
}
