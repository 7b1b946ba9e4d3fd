//! Ownership of a state root.

use runtime_host::error::{RuntimeErrorCode, RuntimeHostError};
use runtime_host::owner::{
    owner_append_error, owner_lock_error, plan_acquire, unlock_retained_owner, AppendFailure,
    CloseOutcome, CloseStep, LockRefusal, OwnerGuard, OwnerRecord, OwnerResourceDisposition,
    RetainStep,
};
use runtime_host::owner_unlock::{admit_unlock_ledger, unlock_outcome};

fn first_owner() -> OwnerGuard {
    let startup = plan_acquire(&None, Some(11), 4_242, 1).expect("first owner");
    assert!(!startup.takeover);
    OwnerGuard::started(startup.record)
}

#[test]
fn a_retained_owner_keeps_its_resources_unconfirmed() {
    let mut guard = first_owner();
    let record = match guard.retain_unconfirmed() {
        RetainStep::Append(record) => record,
        RetainStep::Done(_) => panic!("a record is due"),
    };
    guard.finish_retain(record, Ok(())).expect("retain unconfirmed owner");
    let updated = guard
        .set_active_instances(&vec![5])
        .expect("update same retained owner")
        .expect("a record is due");
    guard.commit(updated);
    assert_eq!(guard.record.active_instances, [5]);
    assert_eq!(
        guard.record.resource_disposition,
        Some(OwnerResourceDisposition::Unconfirmed)
    );
    assert_eq!(
        guard.retained_resource_disposition().expect("retained result"),
        Some(OwnerResourceDisposition::Unconfirmed)
    );
    assert_eq!(
        guard
            .set_resource_disposition(OwnerResourceDisposition::ConfirmedClosed)
            .expect_err("retained resources cannot be cleared")
            .code(),
        "owner_resource_unconfirmed"
    );
    assert_eq!(
        owner_lock_error(LockRefusal::WouldBlock, "owner_conflict", "acquire_owner_file").code(),
        "owner_conflict"
    );
}

fn stale() -> OwnerRecord {
    OwnerRecord {
        current_schema: true,
        revision: 1,
        owner_epoch: 3,
        pid: 1,
        started_at_unix_ms: 1,
        active: true,
        active_instances: vec![8],
        closed_at_unix_ms: None,
        resource_disposition: Some(OwnerResourceDisposition::Unconfirmed),
    }
}

#[test]
fn unconfirmed_resources_block_a_takeover_until_they_are_unlocked() {
    assert_eq!(
        plan_acquire(&Some(stale()), Some(4), 2, 2).err().expect("stale takeover rejected").code(),
        "owner_resource_unconfirmed"
    );
    assert_eq!(
        unlock_retained_owner(&Some(stale()), false).err().expect("not confirmed").code(),
        "owner_unlock_confirmation_missing"
    );
    let unlocked = unlock_retained_owner(&Some(stale()), true);
    let receipt = unlock_outcome(&unlocked, Ok(())).expect("unlocked");
    assert_eq!(receipt.owner_epoch, 3);
    assert_eq!(receipt.previous_resource_disposition, OwnerResourceDisposition::Unconfirmed);
    let record = unlocked.expect("unlocked").record;
    let startup = plan_acquire(&Some(record), Some(4), 2, 2).expect("takeover");
    assert_eq!(startup.record.owner_epoch, 4);
    assert_eq!(
        unlock_retained_owner(&None, true).err().expect("nothing to unlock").code(),
        "owner_unlock_not_required"
    );
    assert!(admit_unlock_ledger(false).is_err());
}

#[test]
fn a_failure_to_persist_the_retention_stays_and_keeps_the_lock() {
    let mut guard = first_owner();
    let error = owner_append_error(AppendFailure::Write);
    assert_eq!(error.code(), "owner_write_failed");
    match guard.retain_unconfirmed() {
        RetainStep::Append(record) => {
            assert_eq!(
                guard.finish_retain(record, Err(error)).expect_err("not written").code(),
                "owner_write_failed"
            );
        }
        RetainStep::Done(_) => panic!("a record is due"),
    }
    assert!(guard.retained_unconfirmed);
    match guard.retain_unconfirmed() {
        RetainStep::Done(Err(again)) => assert_eq!(again.code(), error.code()),
        _ => panic!("cached failure"),
    }
    assert!(!guard.closes_on_drop(false));
}

#[test]
fn a_closed_owner_is_not_taken_over() {
    let mut guard = first_owner();
    let record = match guard.close(9) {
        CloseStep::Append(record) => record,
        CloseStep::Done(_) => panic!("a record is due"),
    };
    assert_eq!(record.closed_at_unix_ms, Some(9));
    let kept = OwnerRecord { active_instances: record.active_instances.clone(), ..record };
    guard.finish_close(kept, CloseOutcome::Closed).expect("closed");
    assert!(guard.closed);
    let last = OwnerRecord { active_instances: Vec::new(), ..guard.record };
    let startup = plan_acquire(&Some(last), Some(12), 2, 10).expect("next owner");
    assert!(!startup.takeover);
    assert!(startup.takeover_instances.is_empty());
}

#[test]
fn errors_of_the_owner_file_have_their_codes() {
    for (failure, code) in [
        (AppendFailure::Encode, "owner_record_encode_failed"),
        (AppendFailure::Seek, "owner_seek_failed"),
        (AppendFailure::Write, "owner_write_failed"),
        (AppendFailure::Sync, "owner_sync_failed"),
    ] {
        let error: RuntimeHostError = owner_append_error(failure);
        assert_eq!(error.code(), code);
        assert!(error.is_fatal());
        assert_eq!(error.projection, RuntimeErrorCode::RuntimeFatal);
    }
}

#[test]
fn an_epoch_that_cannot_be_issued_does_not_start() {
    assert_eq!(
        plan_acquire(&None, None, 2, 2).err().expect("no epoch").code(),
        "owner_epoch_issue_failed"
    );
}
