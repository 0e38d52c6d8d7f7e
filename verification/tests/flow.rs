use rot_boot::flow::{
    copy_canned_fmc_alias_cert, copy_canned_ldev_cert, CannedCert, CertSlot, Collaborator,
    CollaboratorOutcomes, Ecc384PubKey, Ecc384Signature, Effect, FakeRomFlow, FlowStep,
    ResetReason, RomEnv, RomError,
};

fn all_succeed() -> CollaboratorOutcomes {
    CollaboratorOutcomes {
        firmware_processor: Ok(()),
        warm_reset_flow: Ok(()),
        update_reset_flow: Ok(()),
    }
}

fn cert(seed: u32, len: usize) -> CannedCert {
    CannedCert {
        signature: Ecc384Signature { r: [seed; 12], s: [seed + 1; 12] },
        pub_key: Ecc384PubKey { x: [seed + 2; 12], y: [seed + 3; 12] },
        tbs: (0..len).map(|i| (i as u32 + seed) as u8).collect(),
    }
}

fn env(reason: ResetReason) -> RomEnv {
    RomEnv::new(reason, vec![0xdead_beef, 0x1234_5678, 7], 1024, 1024)
}

fn position(journal: &[Effect], effect: Effect) -> Option<usize> {
    journal.iter().position(|e| *e == effect)
}

#[test]
fn new_environment_is_untouched() {
    let env = env(ResetReason::ColdReset);
    assert_eq!(env.key_vault, vec![0xdead_beef, 0x1234_5678, 7]);
    assert!(!env.ready_for_firmware);
    assert!(!env.handoff_table_initialized);
    assert!(env.sha_acc_locked);
    assert_eq!(env.ldevid.tbs.len(), 1024);
    assert_eq!(env.fmc_alias.tbs.len(), 1024);
    assert_eq!(env.ldevid.tbs_size, 0);
    assert!(env.journal.is_empty());
}

#[test]
fn unknown_reset_fails_and_touches_nothing() {
    let mut env = env(ResetReason::Unknown);
    let before = env.clone();
    let step = FakeRomFlow::begin(&mut env, &cert(1, 100));
    assert_eq!(step, FlowStep::Done(Err(RomError::UnknownResetFlow)));
    assert_eq!(env, before);
}

#[test]
fn warm_reset_is_delegated_whole() {
    let mut env = env(ResetReason::WarmReset);
    let before = env.clone();
    let step = FakeRomFlow::begin(&mut env, &cert(1, 100));
    assert_eq!(step, FlowStep::Delegate(Collaborator::WarmResetFlow));
    assert_eq!(env, before);
    let r = FakeRomFlow::resume(&mut env, Collaborator::WarmResetFlow, Ok(()), &cert(2, 5000));
    assert_eq!(r, Ok(()));
    let e = Err(RomError::Collaborator(0x0104_0001));
    assert_eq!(FakeRomFlow::resume(&mut env, Collaborator::WarmResetFlow, e, &cert(2, 5)), e);
    assert_eq!(env, before);
}

#[test]
fn update_reset_is_delegated_whole() {
    let mut env = env(ResetReason::UpdateReset);
    let before = env.clone();
    let step = FakeRomFlow::begin(&mut env, &cert(1, 100));
    assert_eq!(step, FlowStep::Delegate(Collaborator::UpdateResetFlow));
    let e = Err(RomError::Collaborator(77));
    assert_eq!(FakeRomFlow::resume(&mut env, Collaborator::UpdateResetFlow, e, &cert(2, 5)), e);
    assert_eq!(
        FakeRomFlow::resume(&mut env, Collaborator::UpdateResetFlow, Ok(()), &cert(2, 5)),
        Ok(())
    );
    assert_eq!(env, before);
}

#[test]
fn cold_reset_runs_in_order_up_to_firmware() {
    let mut env = env(ResetReason::ColdReset);
    let ldev = cert(10, 300);
    let step = FakeRomFlow::begin(&mut env, &ldev);
    assert_eq!(step, FlowStep::Delegate(Collaborator::FirmwareProcessor));
    assert_eq!(
        env.journal,
        vec![
            Effect::ColdResetStarted,
            Effect::KeyVaultZeroized,
            Effect::ReadyForFirmware,
            Effect::HandoffTableInitialized,
            Effect::LdevCertInstalled,
            Effect::ShaAccLockAcquired,
            Effect::ShaAccLockReleased,
        ]
    );
    assert_eq!(env.key_vault, vec![0, 0, 0]);
    assert!(env.ready_for_firmware);
    assert!(env.handoff_table_initialized);
    assert!(!env.sha_acc_locked);
    assert_eq!(env.ldevid.tbs_size, 300);
    assert_eq!(env.ldevid.signature, ldev.signature);
    assert_eq!(env.ldevid.pub_key, ldev.pub_key);
    assert_eq!(env.ldevid.certificate(), ldev.tbs);
    assert_eq!(env.ldevid.tbs.len(), 1024);
    assert_eq!(env.fmc_alias.tbs_size, 0);
}

#[test]
fn key_vault_is_zeroized_before_readiness() {
    let mut env = env(ResetReason::ColdReset);
    FakeRomFlow::begin(&mut env, &cert(10, 300));
    let zeroized = position(&env.journal, Effect::KeyVaultZeroized).unwrap();
    let ready = position(&env.journal, Effect::ReadyForFirmware).unwrap();
    assert!(zeroized < ready);
    assert_eq!(zeroized, 1);
    assert_eq!(ready, 2);
}

#[test]
fn sha_acc_lock_is_released_exactly_once() {
    let mut env = env(ResetReason::ColdReset);
    FakeRomFlow::begin(&mut env, &cert(10, 300));
    let acquired = env.journal.iter().filter(|e| **e == Effect::ShaAccLockAcquired).count();
    let released = env.journal.iter().filter(|e| **e == Effect::ShaAccLockReleased).count();
    assert_eq!(acquired, 1);
    assert_eq!(released, 1);
    assert!(!env.sha_acc_locked);
}

#[test]
fn cold_reset_completes_after_firmware_success() {
    let mut env = env(ResetReason::ColdReset);
    let ldev = cert(10, 300);
    let alias = cert(20, 745);
    assert_eq!(
        FakeRomFlow::begin(&mut env, &ldev),
        FlowStep::Delegate(Collaborator::FirmwareProcessor)
    );
    let r = FakeRomFlow::resume(&mut env, Collaborator::FirmwareProcessor, Ok(()), &alias);
    assert_eq!(r, Ok(()));
    assert_eq!(env.journal.len(), 9);
    assert_eq!(env.journal[7], Effect::FmcAliasCertInstalled);
    assert_eq!(env.journal[8], Effect::ColdResetComplete);
    assert_eq!(env.fmc_alias.tbs_size, 745);
    assert_eq!(env.fmc_alias.certificate(), alias.tbs);
    assert_eq!(env.fmc_alias.signature, alias.signature);
    assert_eq!(env.fmc_alias.pub_key, alias.pub_key);
    assert_eq!(env.ldevid.certificate(), ldev.tbs);
}

#[test]
fn firmware_failure_is_returned_unchanged() {
    let mut env = env(ResetReason::ColdReset);
    assert_eq!(
        FakeRomFlow::begin(&mut env, &cert(10, 300)),
        FlowStep::Delegate(Collaborator::FirmwareProcessor)
    );
    let before = env.clone();
    let failure = Err(RomError::Collaborator(0x0102_0003));
    let r = FakeRomFlow::resume(&mut env, Collaborator::FirmwareProcessor, failure, &cert(20, 745));
    assert_eq!(r, failure);
    assert_eq!(env, before);
    assert!(position(&env.journal, Effect::ColdResetStarted).is_some());
    assert!(position(&env.journal, Effect::ColdResetComplete).is_none());
    assert!(position(&env.journal, Effect::FmcAliasCertInstalled).is_none());
    assert_eq!(env.fmc_alias.tbs_size, 0);
}

#[test]
fn oversized_ldev_cert_aborts_cold_reset() {
    let mut env = RomEnv::new(ResetReason::ColdReset, vec![5, 6], 16, 1024);
    let ldev = cert(3, 17);
    let step = FakeRomFlow::begin(&mut env, &ldev);
    assert_eq!(step, FlowStep::Done(Err(RomError::UnsupportedLdevidTbsSize)));
    assert_eq!(
        env.journal,
        vec![
            Effect::ColdResetStarted,
            Effect::KeyVaultZeroized,
            Effect::ReadyForFirmware,
            Effect::HandoffTableInitialized,
        ]
    );
    assert_eq!(env.ldevid.tbs_size, 0);
    assert_eq!(env.ldevid.tbs, vec![0_u8; 16]);
    assert!(env.sha_acc_locked);
    assert_eq!(env.key_vault, vec![0, 0]);
}

#[test]
fn oversized_alias_cert_fails_without_completion() {
    let mut env = RomEnv::new(ResetReason::ColdReset, vec![5, 6], 1024, 744);
    FakeRomFlow::begin(&mut env, &cert(10, 300));
    let r = FakeRomFlow::resume(&mut env, Collaborator::FirmwareProcessor, Ok(()), &cert(20, 745));
    assert_eq!(r, Err(RomError::UnsupportedFmcAliasTbsSize));
    assert_eq!(env.fmc_alias.tbs_size, 0);
    assert_eq!(env.fmc_alias.tbs, vec![0_u8; 744]);
    assert!(position(&env.journal, Effect::ColdResetComplete).is_none());
    assert_eq!(env.journal.len(), 7);
}

#[test]
fn oversized_blob_keeps_recorded_size() {
    let mut env = RomEnv::new(ResetReason::ColdReset, vec![], 32, 32);
    assert_eq!(copy_canned_ldev_cert(&mut env, &cert(1, 20)), Ok(()));
    assert_eq!(copy_canned_fmc_alias_cert(&mut env, &cert(2, 12)), Ok(()));
    let ldev_bytes = env.ldevid.tbs.clone();
    let alias_bytes = env.fmc_alias.tbs.clone();
    let big = cert(9, 33);
    assert_eq!(copy_canned_ldev_cert(&mut env, &big), Err(RomError::UnsupportedLdevidTbsSize));
    assert_eq!(env.ldevid.tbs_size, 20);
    assert_eq!(env.ldevid.tbs, ldev_bytes);
    assert_eq!(env.ldevid.signature, big.signature);
    assert_eq!(env.ldevid.pub_key, big.pub_key);
    assert_eq!(
        copy_canned_fmc_alias_cert(&mut env, &big),
        Err(RomError::UnsupportedFmcAliasTbsSize)
    );
    assert_eq!(env.fmc_alias.tbs_size, 12);
    assert_eq!(env.fmc_alias.tbs, alias_bytes);
    assert_eq!(env.journal, vec![Effect::LdevCertInstalled, Effect::FmcAliasCertInstalled]);
}

#[test]
fn cert_of_exactly_the_capacity_fits() {
    let mut slot = CertSlot::new(8);
    let full = cert(4, 8);
    assert!(slot.install(&full));
    assert_eq!(slot.tbs_size, 8);
    assert_eq!(slot.tbs, full.tbs);
    assert!(!slot.install(&cert(5, 9)));
    assert_eq!(slot.tbs_size, 8);
    assert_eq!(slot.tbs, full.tbs);
}

#[test]
fn shorter_cert_overwrites_only_the_front() {
    let mut slot = CertSlot::new(6);
    assert!(slot.install(&cert(100, 6)));
    assert!(slot.install(&cert(1, 2)));
    assert_eq!(slot.tbs_size, 2);
    assert_eq!(slot.tbs, vec![1, 2, 102, 103, 104, 105]);
    assert_eq!(slot.certificate(), vec![1, 2]);
}

#[test]
fn empty_slot_has_zeroed_key_and_signature() {
    let slot = CertSlot::new(0);
    assert_eq!(slot.signature, Ecc384Signature { r: [0; 12], s: [0; 12] });
    assert_eq!(slot.pub_key, Ecc384PubKey { x: [0; 12], y: [0; 12] });
    assert!(slot.tbs.is_empty());
    assert!(slot.certificate().is_empty());
}

#[test]
fn run_with_unknown_reason_returns_unknown_reset_flow() {
    let mut env = env(ResetReason::Unknown);
    let before = env.clone();
    let r = FakeRomFlow::run(&mut env, &cert(1, 100), &cert(2, 100), &all_succeed());
    assert_eq!(r, Err(RomError::UnknownResetFlow));
    assert_eq!(env, before);
}

#[test]
fn run_cold_reset_to_completion() {
    let mut env = env(ResetReason::ColdReset);
    let ldev = cert(1, 512);
    let alias = cert(2, 745);
    let r = FakeRomFlow::run(&mut env, &ldev, &alias, &all_succeed());
    assert_eq!(r, Ok(()));
    assert_eq!(
        env.journal,
        vec![
            Effect::ColdResetStarted,
            Effect::KeyVaultZeroized,
            Effect::ReadyForFirmware,
            Effect::HandoffTableInitialized,
            Effect::LdevCertInstalled,
            Effect::ShaAccLockAcquired,
            Effect::ShaAccLockReleased,
            Effect::FmcAliasCertInstalled,
            Effect::ColdResetComplete,
        ]
    );
    assert_eq!(env.key_vault, vec![0, 0, 0]);
    assert_eq!(env.ldevid.certificate(), ldev.tbs);
    assert_eq!(env.fmc_alias.certificate(), alias.tbs);
    assert_eq!(env.fmc_alias.tbs_size, 745);
}

#[test]
fn run_cold_reset_with_failing_firmware_shows_started_not_complete() {
    let mut env = env(ResetReason::ColdReset);
    let outcomes = CollaboratorOutcomes {
        firmware_processor: Err(RomError::Collaborator(0x0102_0003)),
        warm_reset_flow: Ok(()),
        update_reset_flow: Ok(()),
    };
    let r = FakeRomFlow::run(&mut env, &cert(1, 512), &cert(2, 745), &outcomes);
    assert_eq!(r, Err(RomError::Collaborator(0x0102_0003)));
    assert!(position(&env.journal, Effect::ColdResetStarted).is_some());
    assert!(position(&env.journal, Effect::ColdResetComplete).is_none());
    assert_eq!(env.journal.len(), 7);
    assert_eq!(env.fmc_alias.tbs_size, 0);
}

#[test]
fn run_returns_the_outcome_of_the_delegated_flow() {
    let outcomes = CollaboratorOutcomes {
        firmware_processor: Err(RomError::Collaborator(1)),
        warm_reset_flow: Err(RomError::Collaborator(2)),
        update_reset_flow: Ok(()),
    };
    let mut warm = env(ResetReason::WarmReset);
    let before = warm.clone();
    let r = FakeRomFlow::run(&mut warm, &cert(1, 5), &cert(2, 5), &outcomes);
    assert_eq!(r, Err(RomError::Collaborator(2)));
    assert_eq!(warm, before);
    let mut update = env(ResetReason::UpdateReset);
    let r = FakeRomFlow::run(&mut update, &cert(1, 5), &cert(2, 5), &outcomes);
    assert_eq!(r, Ok(()));
    assert_eq!(outcomes.outcome(Collaborator::FirmwareProcessor), Err(RomError::Collaborator(1)));
}

#[test]
fn run_with_oversized_ldev_cert_skips_the_firmware() {
    let mut env = RomEnv::new(ResetReason::ColdReset, vec![9], 10, 1024);
    let r = FakeRomFlow::run(&mut env, &cert(1, 11), &cert(2, 5), &all_succeed());
    assert_eq!(r, Err(RomError::UnsupportedLdevidTbsSize));
    assert_eq!(env.journal.len(), 4);
    assert_eq!(env.ldevid.tbs_size, 0);
    assert_eq!(env.fmc_alias.tbs_size, 0);
}
