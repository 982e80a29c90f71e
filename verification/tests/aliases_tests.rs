use sequencer_core::aliases::{AliasUpdater, ALIAS_COUNTER_STORAGE_KEY, INITIAL_AVAILABLE_ALIAS};
use sequencer_core::types::Felt;

fn felt(v: u64) -> Felt {
    Felt { v }
}

#[test]
fn first_round_initializes_counter() {
    // An empty storage has a zero counter: allocation starts at the initial
    // alias, and the counter update is written last.
    let mut updater = AliasUpdater::new(Vec::new());
    updater.insert_alias(felt(0x200));
    updater.insert_alias(felt(0x300));
    let updates = updater.finalize_updates();
    assert_eq!(
        updates,
        vec![
            (felt(0x200), felt(INITIAL_AVAILABLE_ALIAS)),
            (felt(0x300), felt(INITIAL_AVAILABLE_ALIAS + 1)),
            (felt(ALIAS_COUNTER_STORAGE_KEY), felt(INITIAL_AVAILABLE_ALIAS + 2)),
        ]
    );
}

#[test]
fn small_aliased_and_duplicate_keys_are_skipped() {
    // Keys below the threshold stand for themselves; stored and pending
    // aliases are not reallocated.
    let storage = vec![
        (felt(ALIAS_COUNTER_STORAGE_KEY), felt(0x85)),
        (felt(0x200), felt(0x80)),
    ];
    let mut updater = AliasUpdater::new(storage);
    updater.insert_alias(felt(0x7f));
    updater.insert_alias(felt(0x200));
    updater.insert_alias(felt(0x400));
    updater.insert_alias(felt(0x400));
    let updates = updater.finalize_updates();
    assert_eq!(
        updates,
        vec![(felt(0x400), felt(0x85)), (felt(ALIAS_COUNTER_STORAGE_KEY), felt(0x86))]
    );
}

#[test]
fn no_allocation_leaves_initialized_counter_alone() {
    let storage = vec![(felt(ALIAS_COUNTER_STORAGE_KEY), felt(0x90))];
    let mut updater = AliasUpdater::new(storage);
    updater.insert_alias(felt(0x10));
    let updates = updater.finalize_updates();
    assert!(updates.is_empty());
}

#[test]
fn empty_round_still_initializes_counter() {
    let updater = AliasUpdater::new(Vec::new());
    let updates = updater.finalize_updates();
    assert_eq!(
        updates,
        vec![(felt(ALIAS_COUNTER_STORAGE_KEY), felt(INITIAL_AVAILABLE_ALIAS))]
    );
}
