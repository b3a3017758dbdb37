use game_client::present::{self_present_needs_reload, SelfPresentStatus};
use game_client::mp::remotes::RemoteKitKey;
use game_client::present::LoadSlots;

#[test]
fn plan_starts_each_missing_load_once() {
    let mut slots: LoadSlots<u8, &'static str> = LoadSlots::new();
    let need = slots.plan(&[(1, b'a'), (2, b'b')], false);
    assert_eq!(need, vec![(1, b'a'), (2, b'b')]);
    assert!(slots.plan(&[(1, b'a'), (2, b'b')], false).is_empty());
    let need = slots.plan(&[(1, b'c')], false);
    assert_eq!(need, vec![(1, b'c')]);
}

#[test]
fn finish_keeps_only_current_key() {
    let mut slots: LoadSlots<u8, &'static str> = LoadSlots::new();
    slots.plan(&[(1, b'a')], false);
    slots.plan(&[(1, b'b')], false);
    slots.finish(1, b'a', Some("stale"), false);
    assert!(slots.ready(1).is_none());
    slots.finish(1, b'b', Some("gpu-b"), false);
    assert_eq!(slots.ready(1), Some((&"gpu-b", b'b')));
    assert_eq!(slots.ready_ids(), vec![1]);
    if let Some(g) = slots.ready_mut(1) {
        *g = "gpu-b2";
    }
    assert_eq!(slots.ready(1), Some((&"gpu-b2", b'b')));
}

#[test]
fn failures_stick_or_retry() {
    let mut sticky: LoadSlots<u8, u32> = LoadSlots::new();
    sticky.plan(&[(4, b'x')], true);
    sticky.finish(4, b'x', None, true);
    assert!(sticky.plan(&[(4, b'x')], true).is_empty());

    let mut retry: LoadSlots<u8, u32> = LoadSlots::new();
    retry.plan(&[(4, b'x')], false);
    retry.finish(4, b'x', None, false);
    assert_eq!(retry.plan(&[(4, b'x')], false), vec![(4, b'x')]);
}

#[test]
fn retain_live_drops_gone_ids() {
    let key = RemoteKitKey { character: b'a', primary: Some(b'c'), secondary: None };
    let mut slots: LoadSlots<RemoteKitKey, u32> = LoadSlots::new();
    slots.plan(&[(1, key), (2, key), (3, key)], false);
    slots.finish(1, key, Some(10), false);
    slots.finish(3, key, Some(30), false);
    slots.retain_live(&[3, 2]);
    assert_eq!(slots.ready_ids(), vec![3]);
    assert!(slots.ready(1).is_none());
    slots.clear();
    assert!(slots.ready_ids().is_empty());
}

#[test]
fn self_present_reload_rule() {
    assert!(self_present_needs_reload(SelfPresentStatus::Ready, false));
    assert!(!self_present_needs_reload(SelfPresentStatus::Ready, true));
    assert!(self_present_needs_reload(SelfPresentStatus::Failed, true));
    assert!(!self_present_needs_reload(SelfPresentStatus::Idle, false));
    assert!(!self_present_needs_reload(SelfPresentStatus::Loading, false));
}

#[test]
fn second_pass_starts_nothing() {
    let mut slots: LoadSlots<u8, u32> = LoadSlots::new();
    slots.plan(&[(1, b'a'), (2, b'b'), (5, b'c')], false);
    slots.finish(2, b'b', Some(20), false);
    slots.finish(5, b'c', None, false);
    let live = [1, 3, 5];
    let wanted = [(1, b'z'), (3, b'c'), (5, b'c')];
    slots.retain_live(&live);
    assert_eq!(slots.plan(&wanted, false), vec![(1, b'z'), (3, b'c'), (5, b'c')]);
    slots.retain_live(&live);
    assert!(slots.plan(&wanted, false).is_empty());
    assert!(slots.ready(2).is_none());
}
