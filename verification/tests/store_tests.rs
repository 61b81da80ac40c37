use overlay_state::model::{default_setup, default_state};
use overlay_state::store::{Store, StoreError};

#[test]
fn get_returns_initial_state() {
    let store = Store::new(default_state());
    let got = store.get_state();
    assert_eq!(got, default_state());
    assert_eq!(got.setups.len(), 4);
}

#[test]
fn update_accepts_valid_best_of_and_get_returns_it() {
    let mut store = Store::new(default_state());
    let mut next = default_state();
    next.setups[1].p1.tag = "Mango".to_string();
    next.setups[1].meta.best_of = 3;
    next.setups[1].meta.game_number = None;
    let accepted = store.update_state(next.clone()).expect("valid update");
    assert_eq!(accepted, next);
    assert_eq!(store.get_state(), next);
}

#[test]
fn update_rejects_bad_best_of_and_keeps_state() {
    let mut store = Store::new(default_state());
    let mut bad = default_state();
    bad.setups[3].meta.best_of = 4;
    let err = store.update_state(bad).expect_err("best-of 4 must be rejected");
    assert_eq!(err, StoreError::InvalidBestOf);
    assert_eq!(err.message(), "bestOf must be 3 or 5 for all setups");
    assert_eq!(store.get_state(), default_state());
}

#[test]
fn update_rejects_best_of_zero() {
    let mut store = Store::new(default_state());
    let mut bad = default_state();
    bad.setups[0].meta.best_of = 0;
    assert!(store.update_state(bad).is_err());
    assert_eq!(store.get_state(), default_state());
}

#[test]
fn swap_sides_swaps_one_setup_and_keeps_the_rest() {
    let mut store = Store::new(default_state());
    let before = store.get_state();
    let after = store.swap_sides(Some(2)).expect("index 2 is valid");
    assert_eq!(store.get_state(), after);
    assert_eq!(after.setups.len(), 4);

    let old = &before.setups[2];
    let swapped = &after.setups[2];
    assert_eq!(swapped.p1.side, "left");
    assert_eq!(swapped.p2.side, "right");
    assert_eq!(swapped.p1.tag, old.p2.tag);
    assert_eq!(swapped.p2.tag, old.p1.tag);
    assert_eq!(swapped.p1.character, old.p2.character);
    assert_eq!(swapped.p2.character, old.p1.character);
    assert_eq!(swapped.p1.port, old.p2.port);
    assert_eq!(swapped.p2.port, old.p1.port);
    assert_eq!(swapped.meta, old.meta);
    assert_eq!(swapped.commentators, old.commentators);
    for i in [0usize, 1, 3] {
        assert_eq!(after.setups[i], before.setups[i]);
    }
}

#[test]
fn swap_sides_defaults_to_first_setup() {
    let mut store = Store::new(default_state());
    let after = store.swap_sides(None).expect("index 0 is valid");
    assert_eq!(after.setups[0].p1.tag, "Player 2");
    assert_eq!(after.setups[0].p2.tag, "Player 1");
    assert_eq!(after.setups[0].p1.side, "left");
    assert_eq!(after.setups[0].p2.side, "right");
}

#[test]
fn swap_sides_twice_restores_players() {
    let mut store = Store::new(default_state());
    store.swap_sides(Some(1)).expect("first swap");
    let after = store.swap_sides(Some(1)).expect("second swap");
    assert_eq!(after, default_state());
}

#[test]
fn swap_sides_out_of_range_fails_and_keeps_state() {
    let mut store = Store::new(default_state());
    let err = store.swap_sides(Some(4)).expect_err("only four slots exist");
    assert_eq!(err, StoreError::SetupIndexOutOfRange(4));
    assert_eq!(err.message(), "setup_index 4 out of range");
    assert_eq!(store.get_state(), default_state());

    let err = store.swap_sides(Some(17)).expect_err("far out of range");
    assert_eq!(err.message(), "setup_index 17 out of range");
    assert_eq!(store.get_state(), default_state());
}

#[test]
fn default_state_is_four_default_setups() {
    let st = default_state();
    assert_eq!(st.setups.len(), 4);
    for s in &st.setups {
        assert_eq!(*s, default_setup());
    }
    let d = default_setup();
    assert_eq!(d.p1.tag, "Player 1");
    assert_eq!(d.p2.tag, "Player 2");
    assert_eq!(d.p1.character, "Falco");
    assert_eq!(d.p2.character, "Marth");
    assert_eq!(d.meta.best_of, 5);
    assert_eq!(d.meta.round, "WF");
    assert!(d.commentators.is_empty());
}
