use oxyclock::custom_theme::{arc_dark, Color};
use oxyclock::store::{Effect, Msg, Oxyclock, Persist, StoreError, Time};
use oxyclock::timer::{State, Subscription, Timer};

fn quiet() -> Effect {
    Effect { persist: Persist::Nothing, notify: false, sound: false, next: None }
}

fn store(ids: &[u128]) -> Oxyclock {
    Oxyclock { timers: ids.iter().map(|id| Timer::new(*id)).collect() }
}

fn edit(id: u128, text: &str) -> Time {
    Time { id, time: text.to_string() }
}

fn ids(s: &Oxyclock) -> Vec<u128> {
    s.timers.iter().map(|t| t.id).collect()
}

#[test]
fn default_store_holds_one_new_timer() {
    let s = Oxyclock::default();
    assert_eq!(s.timers.len(), 1);
    assert_eq!(s.timers[0], Timer::new(s.timers[0].id));
    assert_eq!((s.timers[0].id >> 76) & 0xF, 4);
    assert!(s.is_wf());
}

#[test]
fn add_timer_appends_and_asks_for_a_full_write() {
    let mut s = store(&[1, 2]);
    let effect = s.update(Msg::AddTimer).unwrap();
    assert_eq!(effect, Effect { persist: Persist::All, ..quiet() });
    assert_eq!(s.timers.len(), 3);
    assert_eq!(&ids(&s)[..2], &[1, 2]);
    let new = &s.timers[2];
    assert_eq!(*new, Timer::new(new.id));
    assert_eq!((new.id >> 76) & 0xF, 4);
    assert_eq!((new.id >> 62) & 0x3, 2);
}

#[test]
fn add_timer_draws_a_new_identifier_each_time() {
    let mut s = store(&[]);
    s.update(Msg::AddTimer).unwrap();
    s.update(Msg::AddTimer).unwrap();
    s.update(Msg::AddTimer).unwrap();
    let got = ids(&s);
    assert!(got[0] != got[1] && got[1] != got[2] && got[0] != got[2]);
}

#[test]
fn apply_add_timer_uses_the_identifier_given() {
    let mut s = store(&[1]);
    let effect = s.apply(Msg::AddTimer, 99).unwrap();
    assert_eq!(effect.persist, Persist::All);
    assert_eq!(s.timers, vec![Timer::new(1), Timer::new(99)]);
}

#[test]
fn delete_removes_the_timer_and_keeps_the_order() {
    let mut s = store(&[1, 2, 3]);
    let effect = s.update(Msg::DeleteTimer(2)).unwrap();
    assert_eq!(effect, Effect { persist: Persist::All, ..quiet() });
    assert_eq!(ids(&s), vec![1, 3]);
}

#[test]
fn unknown_identifier_is_not_found_and_changes_nothing() {
    let commands = [
        Msg::SaveTimer(9),
        Msg::DeleteTimer(9),
        Msg::Tick(9),
        Msg::Start(9),
        Msg::Stop(9),
        Msg::Reset(9),
        Msg::PlayNotification(9),
        Msg::Hours(edit(9, "1")),
        Msg::Minutes(edit(9, "1")),
        Msg::Seconds(edit(9, "1")),
        Msg::Name(9, "x".to_string()),
    ];
    for msg in commands {
        let mut s = store(&[1, 2]);
        let before = s.clone();
        assert_eq!(s.update(msg.clone()), Err(StoreError::NotFound));
        assert_eq!(s, before);
        assert_eq!(s.dispatch(msg), Err(StoreError::NotFound));
        assert_eq!(s, before);
    }
}

#[test]
fn edits_overwrite_the_field_as_given() {
    let mut s = store(&[1, 2]);
    assert_eq!(s.update(Msg::Hours(edit(2, "ab"))), Ok(quiet()));
    assert_eq!(s.update(Msg::Minutes(edit(2, ""))), Ok(quiet()));
    assert_eq!(s.update(Msg::Seconds(edit(2, " 7"))), Ok(quiet()));
    assert_eq!(s.timers[0], Timer::new(1));
    let t = &s.timers[1];
    assert_eq!((t.hours.as_str(), t.minutes.as_str(), t.seconds.as_str()), ("ab", "", " 7"));
    assert_eq!((t.time, t.state), (0, State::Stopped));
}

#[test]
fn rename_asks_for_a_full_write() {
    let mut s = store(&[1, 2]);
    let effect = s.update(Msg::Name(1, "eggs".to_string())).unwrap();
    assert_eq!(effect, Effect { persist: Persist::All, ..quiet() });
    assert_eq!(s.timers[0].name, "eggs");
    assert_eq!(s.timers[1].name, "");
}

#[test]
fn save_timer_asks_for_a_merge_of_one_record() {
    let mut s = store(&[1, 2]);
    let before = s.clone();
    let effect = s.update(Msg::SaveTimer(2)).unwrap();
    assert_eq!(effect, Effect { persist: Persist::One(2), ..quiet() });
    assert_eq!(s, before);
}

#[test]
fn start_with_bad_fields_is_a_silent_no_op() {
    let mut s = store(&[1]);
    s.update(Msg::Seconds(edit(1, "five"))).unwrap();
    let before = s.clone();
    for _ in 0..3 {
        assert_eq!(s.update(Msg::Start(1)), Ok(quiet()));
        assert_eq!(s, before);
    }
}

#[test]
fn commands_address_the_first_timer_with_the_identifier() {
    let mut s = store(&[5, 5]);
    s.update(Msg::Name(5, "first".to_string())).unwrap();
    assert_eq!(s.timers[0].name, "first");
    assert_eq!(s.timers[1].name, "");
    assert_eq!(s.find(5), Some(0));
    s.update(Msg::DeleteTimer(5)).unwrap();
    assert_eq!(s.timers.len(), 1);
    assert_eq!(s.timers[0].name, "");
}

#[test]
fn five_second_countdown_step_by_step() {
    let mut s = store(&[]);
    s.update(Msg::AddTimer).unwrap();
    let id = s.timers[0].id;
    s.update(Msg::Hours(edit(id, "00"))).unwrap();
    s.update(Msg::Minutes(edit(id, "00"))).unwrap();
    s.update(Msg::Seconds(edit(id, "05"))).unwrap();
    assert_eq!(s.update(Msg::Start(id)), Ok(quiet()));
    assert_eq!((s.timers[0].state, s.timers[0].time), (State::Running, 5));
    for left in [4u64, 3, 2, 1] {
        assert_eq!(s.update(Msg::Tick(id)), Ok(quiet()));
        assert_eq!((s.timers[0].state, s.timers[0].time), (State::Running, left));
    }
    let mut notifications = 0;
    let mut sounds = 0;
    let mut steps = 0;
    let mut next = Some(Msg::Tick(id));
    while let Some(msg) = next {
        let effect = s.update(msg).unwrap();
        assert_eq!(effect.persist, Persist::Nothing);
        notifications += effect.notify as u32;
        sounds += effect.sound as u32;
        steps += 1;
        next = effect.next;
    }
    assert_eq!((steps, notifications, sounds), (3, 1, 1));
    let t = &s.timers[0];
    assert_eq!((t.state, t.time, t.elapsed), (State::Stopped, 0, 4));
    assert_eq!((t.hours.as_str(), t.minutes.as_str(), t.seconds.as_str()), ("00", "00", "00"));
}

#[test]
fn expiring_tick_hands_on_to_notification_then_stop() {
    let mut s = store(&[3]);
    s.update(Msg::Seconds(edit(3, "01"))).unwrap();
    s.update(Msg::Start(3)).unwrap();
    let first = s.update(Msg::Tick(3)).unwrap();
    assert_eq!(first, Effect { notify: true, next: Some(Msg::PlayNotification(3)), ..quiet() });
    assert_eq!((s.timers[0].state, s.timers[0].time), (State::Running, 0));
    let second = s.update(Msg::PlayNotification(3)).unwrap();
    assert_eq!(second, Effect { sound: true, next: Some(Msg::Stop(3)), ..quiet() });
    assert_eq!(s.timers[0].state, State::NotificationSound);
    let third = s.update(Msg::Stop(3)).unwrap();
    assert_eq!(third, quiet());
    assert_eq!(s.timers[0].state, State::Stopped);
}

#[test]
fn dispatch_runs_the_expiry_to_its_end() {
    let mut s = store(&[1, 2]);
    s.dispatch(Msg::Seconds(edit(2, "05"))).unwrap();
    assert_eq!(s.dispatch(Msg::Start(2)), Ok(vec![quiet()]));
    for left in [4u64, 3, 2, 1] {
        assert_eq!(s.dispatch(Msg::Tick(2)), Ok(vec![quiet()]));
        assert_eq!((s.timers[1].state, s.timers[1].time), (State::Running, left));
    }
    let effects = s.dispatch(Msg::Tick(2)).unwrap();
    assert_eq!(
        effects,
        vec![
            Effect { notify: true, next: Some(Msg::PlayNotification(2)), ..quiet() },
            Effect { sound: true, next: Some(Msg::Stop(2)), ..quiet() },
            quiet(),
        ]
    );
    assert_eq!(effects.iter().filter(|e| e.notify).count(), 1);
    assert_eq!(effects.iter().filter(|e| e.sound).count(), 1);
    assert_eq!((s.timers[1].state, s.timers[1].time), (State::Stopped, 0));
    assert_eq!(s.timers[1].seconds, "00");
    assert_eq!(s.timers[0], Timer::new(1));
    assert_eq!(s.dispatch(Msg::Tick(2)), Ok(vec![quiet()]));
    assert_eq!((s.timers[1].state, s.timers[1].time), (State::Stopped, 0));
}

#[test]
fn dispatch_add_and_delete_ask_for_one_full_write() {
    let mut s = store(&[1]);
    assert_eq!(s.dispatch(Msg::AddTimer), Ok(vec![Effect { persist: Persist::All, ..quiet() }]));
    assert_eq!(s.timers.len(), 2);
    assert_eq!(
        s.dispatch(Msg::DeleteTimer(1)),
        Ok(vec![Effect { persist: Persist::All, ..quiet() }])
    );
    assert_eq!(s.timers.len(), 1);
}

#[test]
fn dispatch_play_notification_ends_stopped() {
    let mut s = store(&[4]);
    s.timers[0].time = 30;
    s.timers[0].state = State::Running;
    let effects = s.dispatch(Msg::PlayNotification(4)).unwrap();
    assert_eq!(effects, vec![Effect { sound: true, next: Some(Msg::Stop(4)), ..quiet() }, quiet()]);
    assert_eq!((s.timers[0].state, s.timers[0].time), (State::Stopped, 30));
    assert_eq!(s.timers[0].seconds, "30");
}

#[test]
fn stop_and_reset_through_the_store() {
    let mut s = store(&[1]);
    s.update(Msg::Minutes(edit(1, "02"))).unwrap();
    s.update(Msg::Start(1)).unwrap();
    s.update(Msg::Tick(1)).unwrap();
    assert_eq!(s.update(Msg::Stop(1)), Ok(quiet()));
    assert_eq!((s.timers[0].state, s.timers[0].time), (State::Stopped, 119));
    assert_eq!(s.timers[0].minutes, "01");
    assert_eq!(s.timers[0].seconds, "59");
    s.update(Msg::Start(1)).unwrap();
    assert_eq!(s.update(Msg::Reset(1)), Ok(quiet()));
    assert_eq!((s.timers[0].state, s.timers[0].time), (State::Stopped, 0));
    assert_eq!(s.timers[0].minutes, "00");
}

#[test]
fn subscription_owes_a_tick_to_each_running_timer() {
    let mut s = store(&[1, 2, 3]);
    assert_eq!(s.subscription(), vec![Subscription::Nothing; 3]);
    s.update(Msg::Start(1)).unwrap();
    s.update(Msg::Start(3)).unwrap();
    assert_eq!(
        s.subscription(),
        vec![Subscription::EverySecond(1), Subscription::Nothing, Subscription::EverySecond(3)]
    );
    s.update(Msg::PlayNotification(3)).unwrap();
    assert_eq!(
        s.subscription(),
        vec![Subscription::EverySecond(1), Subscription::Nothing, Subscription::Nothing]
    );
    assert_eq!(store(&[]).subscription(), vec![]);
}

#[test]
fn delete_then_save_one_does_not_bring_the_deleted_timer_back() {
    let mut s = store(&[10, 20]);
    s.update(Msg::Name(20, "second".to_string())).unwrap();
    let mut disk = s.timers.clone();
    let effect = s.update(Msg::DeleteTimer(10)).unwrap();
    assert_eq!(effect.persist, Persist::All);
    assert_eq!(ids(&s), vec![20]);
    assert_eq!(s.timers[0].name, "second");
    disk = match effect.persist {
        Persist::All => s.timers.clone(),
        _ => disk,
    };
    s.timers[0].hours = "07".to_string();
    let effect = s.update(Msg::SaveTimer(20)).unwrap();
    assert_eq!(effect.persist, Persist::One(20));
    let merged = s.merge_one(disk, 20).unwrap();
    assert_eq!(merged.len(), 1);
    assert_eq!(merged[0].id, 20);
    assert_eq!(merged[0].name, "second");
    assert_eq!(merged[0].hours, "07");
}

#[test]
fn merge_one_replaces_only_the_matching_record() {
    let mut s = store(&[1, 2, 3]);
    s.timers[1].name = "memory".to_string();
    s.timers[1].time = 44;
    let mut disk = vec![Timer::new(3), Timer::new(2), Timer::new(8)];
    disk[0].name = "kept a".to_string();
    disk[1].name = "stale".to_string();
    disk[2].name = "kept b".to_string();
    let merged = s.merge_one(disk.clone(), 2).unwrap();
    assert_eq!(merged, vec![disk[0].clone(), s.timers[1].clone(), disk[2].clone()]);
}

#[test]
fn merge_one_fails_without_the_timer_or_its_record() {
    let s = store(&[1, 2]);
    assert_eq!(s.merge_one(vec![Timer::new(1)], 5), Err(StoreError::NotFound));
    assert_eq!(s.merge_one(vec![], 5), Err(StoreError::NotFound));
    assert_eq!(s.merge_one(vec![Timer::new(1)], 2), Err(StoreError::NotPersisted));
    assert_eq!(s.merge_one(vec![], 1), Err(StoreError::NotPersisted));
}

#[test]
fn find_gives_the_place_of_a_timer() {
    let s = store(&[4, 5, 6]);
    assert_eq!(s.find(4), Some(0));
    assert_eq!(s.find(6), Some(2));
    assert_eq!(s.find(7), None);
    assert_eq!(oxyclock::store::find_in(&s.timers, 5), Some(1));
    assert_eq!(store(&[]).find(4), None);
}

#[test]
fn is_wf_checks_every_timer() {
    let mut s = store(&[1, 2]);
    assert!(s.is_wf());
    s.timers[1].state = State::Running;
    s.timers[1].time = u64::MAX;
    s.timers[1].elapsed = 1;
    assert!(!s.is_wf());
}

#[test]
fn theme_is_arc_dark() {
    let theme = store(&[]).theme();
    assert_eq!(theme, arc_dark());
    assert_eq!(theme.name, "Arc-Dark");
    assert_eq!(theme.palette.background, Color { r: 47, g: 52, b: 63 });
    assert_eq!(theme.palette.text, Color { r: 211, g: 218, b: 227 });
    assert_eq!(theme.palette.primary, Color { r: 82, g: 148, b: 226 });
    assert_eq!(theme.palette.success, Color { r: 155, g: 89, b: 182 });
    assert_eq!(theme.palette.danger, Color { r: 220, g: 50, b: 47 });
}
