use ddnet_core::binds::Binds;

#[test]
fn single_key_press_and_click() {
    let mut binds = Binds::new();
    binds.register_bind(&[7], 100);

    binds.handle_key_down(7);
    let r = binds.process();
    assert_eq!(r.press_actions, vec![100]);
    assert!(r.click_actions.is_empty());
    assert_eq!(r.cur_actions, vec![100]);

    binds.handle_key_up(7);
    let r = binds.process();
    assert!(r.press_actions.is_empty());
    assert_eq!(r.click_actions, vec![100]);
    assert!(r.cur_actions.is_empty());
}

#[test]
fn events_are_consumed_by_process() {
    let mut binds = Binds::new();
    binds.register_bind(&[1], 10);
    binds.handle_key_down(1);
    binds.handle_key_up(1);
    let r = binds.process();
    assert_eq!(r.press_actions, vec![10]);
    assert_eq!(r.click_actions, vec![10]);
    let r = binds.process();
    assert!(r.press_actions.is_empty());
    assert!(r.click_actions.is_empty());
}

#[test]
fn longest_chain_wins() {
    let mut binds = Binds::new();
    binds.register_bind(&[1], 10);
    binds.register_bind(&[1, 2], 20);

    binds.handle_key_down(1);
    assert_eq!(binds.process().cur_actions, vec![10]);
    binds.handle_key_down(2);
    let r = binds.process();
    assert_eq!(r.cur_actions, vec![20]);
    assert_eq!(r.press_actions, vec![20]);
    binds.handle_key_up(2);
    let r = binds.process();
    assert_eq!(r.cur_actions, vec![10]);
    assert_eq!(r.click_actions, vec![20]);
    assert!(r.press_actions.is_empty());
}

#[test]
fn keys_of_a_bind_are_taken_in_order_once() {
    let mut binds = Binds::new();
    binds.register_bind(&[5, 3, 5], 30);
    binds.handle_key_down(5);
    assert!(binds.process().cur_actions.is_empty());
    binds.handle_key_down(3);
    assert_eq!(binds.process().cur_actions, vec![30]);
}

#[test]
fn unbound_leading_keys_are_skipped() {
    let mut binds = Binds::new();
    binds.register_bind(&[9], 90);
    binds.handle_key_down(2);
    binds.handle_key_down(9);
    assert_eq!(binds.process().cur_actions, vec![90]);
}

#[test]
fn several_actions_on_one_key_and_separate_chains() {
    let mut binds = Binds::new();
    binds.register_bind(&[4], 1);
    binds.register_bind(&[4], 2);
    binds.register_bind(&[6], 3);
    binds.register_bind(&[6], 1);
    binds.handle_key_down(6);
    binds.handle_key_down(4);
    let r = binds.process();
    assert_eq!(r.cur_actions, vec![1, 2, 3]);
    assert_eq!(r.press_actions, vec![3, 1, 2]);
}

#[test]
fn pressing_a_held_key_again_changes_nothing() {
    let mut binds = Binds::new();
    binds.register_bind(&[4], 1);
    binds.handle_key_down(4);
    binds.process();
    binds.handle_key_down(4);
    let r = binds.process();
    assert!(r.press_actions.is_empty());
    assert_eq!(r.cur_actions, vec![1]);
}

#[test]
fn action_bound_to_key_and_chain_through_it() {
    let mut binds = Binds::new();
    binds.register_bind(&[1, 2], 20);
    binds.register_bind(&[1], 10);
    binds.handle_key_down(1);
    assert_eq!(binds.process().cur_actions, vec![10]);
    binds.handle_key_down(2);
    assert_eq!(binds.process().cur_actions, vec![20]);
}
