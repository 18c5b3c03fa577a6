use skillchain::skill_registry::{Config, Error, Event, Pallet, SkillInfo};

const ALICE: u64 = 1;
const BOB: u64 = 2;

fn registry(max_metadata_length: u32) -> Pallet {
    Pallet::new(Config { max_metadata_length })
}

#[test]
fn new_registry_is_empty() {
    let reg = registry(64);
    assert_eq!(reg.next_skill_id(), 0);
    assert_eq!(reg.max_metadata_length(), 64);
    assert_eq!(reg.skill(0), None);
    assert_eq!(reg.account_skills(ALICE), Vec::<u32>::new());
}

#[test]
fn first_mint_returns_id_zero_and_stores_unverified_record() {
    let mut reg = registry(64);
    let minted = reg.mint_skill(ALICE, b"cid:abc".to_vec(), false, 12);
    assert_eq!(minted, Ok(Event::SkillMinted { skill_id: 0, owner: ALICE }));
    let expected = SkillInfo {
        owner: ALICE,
        metadata_cid: b"cid:abc".to_vec(),
        issued_by: ALICE,
        issued_at: 12,
        soulbound: false,
        verified: false,
    };
    assert_eq!(reg.skill(0), Some(&expected));
    assert_eq!(reg.next_skill_id(), 1);
    assert_eq!(reg.account_skills(ALICE), vec![0]);
    assert_eq!(reg.skill(1), None);
}

#[test]
fn mint_keeps_the_soulbound_flag_and_the_block() {
    let mut reg = registry(64);
    reg.mint_skill(ALICE, vec![1, 2, 3], true, 77).unwrap();
    let info = reg.skill(0).unwrap();
    assert!(info.soulbound);
    assert_eq!(info.issued_at, 77);
    assert_eq!(info.metadata_cid, vec![1, 2, 3]);
}

#[test]
fn verify_sets_the_flag_for_any_caller_and_is_idempotent() {
    let mut reg = registry(64);
    reg.mint_skill(ALICE, b"cid:abc".to_vec(), false, 1).unwrap();
    assert_eq!(reg.verify_skill(BOB, 0), Ok(Event::SkillVerified { skill_id: 0 }));
    assert!(reg.skill(0).unwrap().verified);
    let once = reg.skill(0).unwrap().clone();
    assert_eq!(reg.verify_skill(BOB, 0), Ok(Event::SkillVerified { skill_id: 0 }));
    assert!(reg.skill(0).unwrap().verified);
    assert_eq!(reg.skill(0), Some(&once));
    assert_eq!(reg.next_skill_id(), 1);
    assert_eq!(reg.account_skills(ALICE), vec![0]);
    assert_eq!(reg.account_skills(BOB), Vec::<u32>::new());
}

#[test]
fn verify_changes_only_the_flag() {
    let mut reg = registry(64);
    reg.mint_skill(ALICE, b"one".to_vec(), true, 5).unwrap();
    reg.mint_skill(BOB, b"two".to_vec(), false, 6).unwrap();
    let other = reg.skill(0).unwrap().clone();
    reg.verify_skill(ALICE, 1).unwrap();
    let expected = SkillInfo {
        owner: BOB,
        metadata_cid: b"two".to_vec(),
        issued_by: BOB,
        issued_at: 6,
        soulbound: false,
        verified: true,
    };
    assert_eq!(reg.skill(1), Some(&expected));
    assert_eq!(reg.skill(0), Some(&other));
    assert!(!reg.skill(0).unwrap().verified);
}

#[test]
fn verify_of_an_unknown_id_fails_and_changes_nothing() {
    let mut reg = registry(64);
    assert_eq!(reg.verify_skill(ALICE, 0), Err(Error::SkillNotFound));
    reg.mint_skill(ALICE, b"cid:abc".to_vec(), false, 1).unwrap();
    let before = reg.skill(0).unwrap().clone();
    assert_eq!(reg.verify_skill(ALICE, 1), Err(Error::SkillNotFound));
    assert_eq!(reg.verify_skill(ALICE, u32::MAX), Err(Error::SkillNotFound));
    assert_eq!(reg.skill(0), Some(&before));
    assert!(!reg.skill(0).unwrap().verified);
    assert_eq!(reg.next_skill_id(), 1);
    assert_eq!(reg.account_skills(ALICE), vec![0]);
}

#[test]
fn verified_stays_true_after_later_calls() {
    let mut reg = registry(8);
    reg.mint_skill(ALICE, b"a".to_vec(), false, 1).unwrap();
    reg.verify_skill(BOB, 0).unwrap();
    reg.mint_skill(BOB, b"b".to_vec(), false, 2).unwrap();
    assert_eq!(reg.mint_skill(BOB, vec![0; 9], false, 3), Err(Error::MetadataTooLong));
    assert_eq!(reg.verify_skill(BOB, 7), Err(Error::SkillNotFound));
    reg.verify_skill(ALICE, 1).unwrap();
    reg.verify_skill(ALICE, 0).unwrap();
    assert!(reg.skill(0).unwrap().verified);
    assert!(reg.skill(1).unwrap().verified);
}

#[test]
fn mint_rejects_metadata_over_the_limit_and_changes_nothing() {
    let mut reg = registry(4);
    reg.mint_skill(ALICE, vec![9; 4], false, 1).unwrap();
    let before = reg.skill(0).unwrap().clone();
    assert_eq!(reg.mint_skill(ALICE, vec![9; 5], false, 2), Err(Error::MetadataTooLong));
    assert_eq!(reg.mint_skill(BOB, vec![9; 500], true, 3), Err(Error::MetadataTooLong));
    assert_eq!(reg.next_skill_id(), 1);
    assert_eq!(reg.skill(0), Some(&before));
    assert_eq!(reg.skill(1), None);
    assert_eq!(reg.account_skills(ALICE), vec![0]);
    assert_eq!(reg.account_skills(BOB), Vec::<u32>::new());
}

#[test]
fn mint_accepts_metadata_of_exactly_the_limit() {
    let mut reg = registry(4);
    assert_eq!(
        reg.mint_skill(ALICE, vec![7; 4], false, 1),
        Ok(Event::SkillMinted { skill_id: 0, owner: ALICE })
    );
    assert_eq!(reg.skill(0).unwrap().metadata_cid, vec![7; 4]);
}

#[test]
fn mint_accepts_empty_metadata() {
    let mut reg = registry(4);
    assert_eq!(
        reg.mint_skill(ALICE, Vec::new(), false, 1),
        Ok(Event::SkillMinted { skill_id: 0, owner: ALICE })
    );
    assert_eq!(reg.skill(0).unwrap().metadata_cid, Vec::<u8>::new());
}

#[test]
fn a_limit_of_zero_admits_only_empty_metadata() {
    let mut reg = registry(0);
    assert_eq!(reg.mint_skill(ALICE, vec![1], false, 1), Err(Error::MetadataTooLong));
    assert_eq!(
        reg.mint_skill(ALICE, Vec::new(), false, 1),
        Ok(Event::SkillMinted { skill_id: 0, owner: ALICE })
    );
}

#[test]
fn counter_counts_the_successful_mints() {
    let mut reg = registry(3);
    let attempts: Vec<(u64, Vec<u8>)> = vec![
        (ALICE, vec![1]),
        (BOB, vec![1, 2, 3, 4]),
        (BOB, vec![1, 2, 3]),
        (ALICE, vec![]),
        (ALICE, vec![0; 10]),
        (BOB, vec![5, 5]),
    ];
    let mut successes: u32 = 0;
    for (who, cid) in attempts {
        let before = reg.next_skill_id();
        match reg.mint_skill(who, cid, false, 1) {
            Ok(Event::SkillMinted { skill_id, owner }) => {
                assert_eq!(skill_id, before);
                assert_eq!(owner, who);
                assert_eq!(reg.next_skill_id(), before + 1);
                successes += 1;
            }
            Ok(other) => panic!("unexpected event {:?}", other),
            Err(error) => {
                assert_eq!(error, Error::MetadataTooLong);
                assert_eq!(reg.next_skill_id(), before);
            }
        }
        let _ = reg.verify_skill(who, 0);
        assert_eq!(reg.next_skill_id(), successes);
    }
    assert_eq!(successes, 4);
    assert_eq!(reg.next_skill_id(), 4);
    for id in 0..4 {
        assert!(reg.skill(id).is_some());
    }
    assert_eq!(reg.skill(4), None);
}

#[test]
fn account_lists_hold_each_accounts_ids_in_mint_order() {
    let mut reg = registry(16);
    reg.mint_skill(ALICE, b"a0".to_vec(), false, 1).unwrap();
    reg.mint_skill(BOB, b"b0".to_vec(), false, 1).unwrap();
    reg.mint_skill(ALICE, b"a1".to_vec(), false, 2).unwrap();
    reg.mint_skill(ALICE, b"a2".to_vec(), false, 3).unwrap();
    reg.mint_skill(BOB, b"b1".to_vec(), false, 3).unwrap();
    assert_eq!(reg.account_skills(ALICE), vec![0, 2, 3]);
    assert_eq!(reg.account_skills(BOB), vec![1, 4]);
    assert_eq!(reg.account_skills(3), Vec::<u32>::new());
    for id in reg.account_skills(ALICE) {
        assert_eq!(reg.skill(id).unwrap().owner, ALICE);
        assert_eq!(reg.skill(id).unwrap().issued_by, ALICE);
    }
    for id in reg.account_skills(BOB) {
        assert_eq!(reg.skill(id).unwrap().owner, BOB);
    }
}

#[test]
fn mint_leaves_earlier_credentials_as_they_were() {
    let mut reg = registry(16);
    reg.mint_skill(ALICE, b"first".to_vec(), true, 1).unwrap();
    reg.verify_skill(BOB, 0).unwrap();
    let first = reg.skill(0).unwrap().clone();
    reg.mint_skill(ALICE, b"second".to_vec(), false, 2).unwrap();
    assert_eq!(reg.skill(0), Some(&first));
    assert!(!reg.skill(1).unwrap().verified);
}

#[test]
fn the_same_metadata_may_be_minted_twice() {
    let mut reg = registry(16);
    assert_eq!(
        reg.mint_skill(ALICE, b"same".to_vec(), false, 1),
        Ok(Event::SkillMinted { skill_id: 0, owner: ALICE })
    );
    assert_eq!(
        reg.mint_skill(ALICE, b"same".to_vec(), false, 1),
        Ok(Event::SkillMinted { skill_id: 1, owner: ALICE })
    );
    assert_eq!(reg.account_skills(ALICE), vec![0, 1]);
}

#[test]
fn clone_of_a_record_is_equal_to_it() {
    let info = SkillInfo {
        owner: ALICE,
        metadata_cid: b"cid:abc".to_vec(),
        issued_by: ALICE,
        issued_at: 3,
        soulbound: true,
        verified: true,
    };
    assert_eq!(info.clone(), info);
}
