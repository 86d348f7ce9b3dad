use actor_kit::store::{commit, plan_load, seeded, LoadStep};

#[test]
fn unreadable_file_is_seeded() {
    assert!(matches!(plan_load::<&str>(Err("missing")), LoadStep::Seed));
}

#[test]
fn readable_file_is_decoded_not_reseeded() {
    match plan_load::<&str>(Ok(vec![1, 2, 3])) {
        LoadStep::Decode(b) => assert_eq!(b, vec![1, 2, 3]),
        LoadStep::Seed => panic!("an existing file must not be reseeded"),
    }
}

#[test]
fn empty_file_is_still_decoded() {
    assert!(matches!(plan_load::<&str>(Ok(vec![])), LoadStep::Decode(ref b) if b.is_empty()));
}

#[test]
fn seed_is_kept_once_persisted() {
    assert_eq!(seeded::<u32, &str>(5, Ok(())), Ok(5));
}

#[test]
fn seed_fails_when_persisting_fails() {
    assert_eq!(seeded::<u32, &str>(5, Err("disk full")), Err("disk full"));
}

#[test]
fn committed_write_is_read_back() {
    let mut slot = String::from("old");
    assert_eq!(commit::<String, &str>(&mut slot, String::from("new"), Ok(())), Ok(()));
    assert_eq!(slot, "new");
}

#[test]
fn failed_write_leaves_memory_untouched() {
    let mut slot = vec![1u8, 2];
    assert_eq!(commit(&mut slot, vec![9u8], Err("denied")), Err("denied"));
    assert_eq!(slot, vec![1, 2]);
}
