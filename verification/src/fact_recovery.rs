//! The course of the facts' recovery when the runtime starts: the store is
//! rebuilt from the ledger, and after a takeover the facts that the new owner
//! epoch cannot trust are invalidated, ledger first.

use vstd::prelude::*;

use crate::error::RuntimeHostError;
use crate::ids::InstanceId;
use crate::ordered_map::{ids_increase, OrderedKey};
use crate::runtime_facts::{
    begin_replay, drop_untrusted, invalidated_ids, lists_targets, replay_appended, replay_origin,
    replayed, scope_less, takeover_invalidations, takeover_target, untrusted_of, without_untrusted,
    FactEvent, FactId, FactKey, Facts, ReplayFailure, RuntimeFactInvalidation,
    RuntimeFactInvalidationReason, RuntimeFactScope, RuntimeFactStore,
};

verus! {

/// The next thing to do.
#[derive(Debug, Clone, Copy, PartialEq, Eq, Structural)]
pub enum FactRecoveryAction {
    /// Read all snapshots of the facts.
    ReadSnapshots,
    /// Read the events about the facts from a sequence on.
    ReadAppended { from_sequence: u64 },
    /// Make the links of the events about an instance.
    MakeLinks { instance_id: InstanceId },
    /// Append the invalidation at the recovery's position.
    Append,
}

/// What an action gave.
#[derive(Debug)]
pub enum FactRecoveryReply {
    Done,
    Failed(RuntimeHostError),
    Events(Vec<FactEvent>),
}

/// Why the facts were not recovered.
#[derive(Debug, Clone, Copy)]
pub enum FactRecoveryFailure {
    /// An action failed.
    Outside(RuntimeHostError),
    /// The ledger holds what cannot be replayed.
    Replay(ReplayFailure),
}

/// A recovery in progress.
#[derive(Debug)]
pub struct FactRecovery {
    pub action: FactRecoveryAction,
    /// The runtime took over from an owner that did not close.
    pub takeover: bool,
    pub now_unix_ms: u64,
    pub store: RuntimeFactStore,
    /// What has to be appended because of the takeover.
    pub invalidations: Vec<RuntimeFactInvalidation>,
    /// How many of them were appended.
    pub position: usize,
}

/// The value of a recovery.
#[verifier::ext_equal]
pub struct FactRecoveryView {
    pub action: FactRecoveryAction,
    pub takeover: bool,
    pub now_unix_ms: u64,
    pub capacity: usize,
    pub facts: Facts,
    pub targets: Seq<FactId>,
    pub position: int,
}

impl View for FactRecovery {
    type V = FactRecoveryView;

    open spec fn view(&self) -> FactRecoveryView {
        FactRecoveryView {
            action: self.action,
            takeover: self.takeover,
            now_unix_ms: self.now_unix_ms,
            capacity: self.store.capacity,
            facts: self.store@,
            targets: invalidated_ids(self.invalidations@),
            position: self.position as int,
        }
    }
}

/// A recovery that goes on, or its result: the store, and whether it changed
/// since it was last sealed.
#[derive(Debug)]
pub enum FactRecoveryProgress {
    Next(FactRecovery),
    End(Result<(RuntimeFactStore, bool), FactRecoveryFailure>),
}

pub enum FactRecoveryProgressView {
    Next(FactRecoveryView),
    End(Result<(Facts, bool), FactRecoveryFailure>),
}

impl View for FactRecoveryProgress {
    type V = FactRecoveryProgressView;

    open spec fn view(&self) -> FactRecoveryProgressView {
        match *self {
            FactRecoveryProgress::Next(recovery) => FactRecoveryProgressView::Next(recovery@),
            FactRecoveryProgress::End(Ok((store, dirty))) => FactRecoveryProgressView::End(
                Ok((store@, dirty)),
            ),
            FactRecoveryProgress::End(Err(failure)) => FactRecoveryProgressView::End(Err(failure)),
        }
    }
}

/// The instance that a fact is about.
pub open spec fn instance_of(id: FactId) -> InstanceId {
    id.0->Instance_instance_id
}

/// While invalidations are appended, they name every untrusted fact that is
/// left, by instance, and those of the instances before are gone.
pub open spec fn recovery_wf(recovery: FactRecoveryView) -> bool {
    let at = recovery.targets[recovery.position];
    match recovery.action {
        FactRecoveryAction::MakeLinks { .. } | FactRecoveryAction::Append => {
            &&& 0 <= recovery.position < recovery.targets.len()
            &&& recovery.action matches FactRecoveryAction::MakeLinks { instance_id }
                ==> instance_id == instance_of(at)
            &&& ids_increase::<FactKey>(recovery.targets)
            &&& forall|i: int|
                0 <= i < recovery.targets.len() ==> takeover_target(#[trigger] recovery.targets[i])
            &&& forall|id: FactId| #[trigger]
                recovery.facts.contains_key(id) && takeover_target(id) ==> recovery.targets.contains(
                    id,
                ) && !scope_less(id.0, at.0)
        },
        _ => true,
    }
}

/// The reply answers the action.
pub open spec fn recovery_reply_fits(action: FactRecoveryAction, reply: FactRecoveryReply) -> bool {
    reply is Failed || match action {
        FactRecoveryAction::ReadSnapshots
        | FactRecoveryAction::ReadAppended { .. } => reply is Events,
        _ => reply is Done,
    }
}

/// How a recovery goes on once the store is rebuilt: without a takeover, or
/// with nothing untrusted, it is at its end.
pub open spec fn rebuilt(
    recovery: FactRecoveryView,
    facts: Facts,
    progress: FactRecoveryProgressView,
) -> bool {
    match progress {
        FactRecoveryProgressView::End(end) => {
            &&& end == Ok::<_, FactRecoveryFailure>((facts, false))
            &&& recovery.takeover ==> forall|id: FactId| #[trigger]
                facts.contains_key(id) ==> !takeover_target(id)
        },
        FactRecoveryProgressView::Next(next) => {
            &&& recovery.takeover
            &&& next.targets.len() > 0
            &&& lists_targets(next.targets, facts)
            &&& next == FactRecoveryView {
                action: FactRecoveryAction::MakeLinks { instance_id: instance_of(next.targets[0]) },
                facts,
                targets: next.targets,
                position: 0,
                ..recovery
            }
        },
    }
}

/// How a recovery goes on once an invalidation is appended: the facts of an
/// instance are dropped when all of its invalidations are.
pub open spec fn appended(recovery: FactRecoveryView) -> FactRecoveryProgressView {
    let position = recovery.position + 1;
    let instance_id = instance_of(recovery.targets[recovery.position]);
    let facts = without_untrusted(recovery.facts, instance_id);
    if position >= recovery.targets.len() {
        FactRecoveryProgressView::End(Ok((facts, true)))
    } else if instance_of(recovery.targets[position]) == instance_id {
        FactRecoveryProgressView::Next(FactRecoveryView { position, ..recovery })
    } else {
        FactRecoveryProgressView::Next(
            FactRecoveryView {
                action: FactRecoveryAction::MakeLinks {
                    instance_id: instance_of(recovery.targets[position]),
                },
                facts,
                position,
                ..recovery
            },
        )
    }
}

/// How a recovery goes on after a reply.
pub open spec fn recovery_goes(
    recovery: FactRecoveryView,
    reply: FactRecoveryReply,
    progress: FactRecoveryProgressView,
) -> bool {
    match (recovery.action, reply) {
        (_, FactRecoveryReply::Failed(error)) => progress == FactRecoveryProgressView::End(
            Err(FactRecoveryFailure::Outside(error)),
        ),
        (FactRecoveryAction::ReadSnapshots, FactRecoveryReply::Events(events)) => match replay_origin(
            events@,
        ) {
            Err(failure) => progress == FactRecoveryProgressView::End(
                Err(FactRecoveryFailure::Replay(failure)),
            ),
            Ok((facts, from_sequence)) => progress == FactRecoveryProgressView::Next(
                FactRecoveryView {
                    action: FactRecoveryAction::ReadAppended { from_sequence },
                    facts,
                    ..recovery
                },
            ),
        },
        (FactRecoveryAction::ReadAppended { .. }, FactRecoveryReply::Events(events)) => match replayed(
            recovery.facts,
            recovery.capacity,
            events@,
        ) {
            Err(failure) => progress == FactRecoveryProgressView::End(
                Err(FactRecoveryFailure::Replay(failure)),
            ),
            Ok(facts) => rebuilt(recovery, facts, progress),
        },
        (FactRecoveryAction::MakeLinks { .. }, _) => progress == FactRecoveryProgressView::Next(
            FactRecoveryView { action: FactRecoveryAction::Append, ..recovery },
        ),
        _ => progress == appended(recovery),
    }
}

fn instance(scope: RuntimeFactScope) -> (instance_id: InstanceId)
    ensures
        scope is Instance ==> instance_id == scope->Instance_instance_id,
{
    match scope {
        RuntimeFactScope::Instance { instance_id } => instance_id,
        RuntimeFactScope::Runtime => 0,
    }
}

impl FactRecovery {
    /// The store and the invalidations are valid.
    pub open spec fn wf(&self) -> bool {
        &&& self.store.wf()
        &&& recovery_wf(self@)
        &&& forall|i: int|
            0 <= i < self.invalidations@.len() ==> (#[trigger] self.invalidations@[i]).reason
                == RuntimeFactInvalidationReason::RuntimeTakeover
                && self.invalidations@[i].at_unix_ms == self.now_unix_ms
    }

    /// Begins with a store that can hold `capacity` facts.
    pub fn new(capacity: usize, takeover: bool, now_unix_ms: u64) -> (recovery: Self)
        ensures
            recovery.wf(),
            recovery@ == (FactRecoveryView {
                action: FactRecoveryAction::ReadSnapshots,
                takeover,
                now_unix_ms,
                capacity,
                facts: Facts::empty(),
                targets: Seq::empty(),
                position: 0,
            }),
    {
        let recovery = FactRecovery {
            action: FactRecoveryAction::ReadSnapshots,
            takeover,
            now_unix_ms,
            store: RuntimeFactStore::new(capacity),
            invalidations: Vec::new(),
            position: 0,
        };
        assert(recovery@.targets =~= Seq::empty());
        recovery
    }

    fn store_rebuilt(self) -> (progress: FactRecoveryProgress)
        requires
            self.wf(),
        ensures
            rebuilt(self@, self.store@, progress@),
            progress matches FactRecoveryProgress::Next(next) ==> next.wf(),
            progress matches FactRecoveryProgress::End(Ok((store, _))) ==> store.wf()
                && store.capacity == self.store.capacity,
    {
        let mut recovery = self;
        if !recovery.takeover {
            return FactRecoveryProgress::End(Ok((recovery.store, false)));
        }
        let invalidations = takeover_invalidations(&recovery.store, recovery.now_unix_ms);
        let ghost targets = invalidated_ids(invalidations@);
        if invalidations.len() == 0 {
            proof {
                assert forall|id: FactId| #[trigger]
                    recovery.store@.contains_key(id) implies !takeover_target(id) by {
                    assert(!targets.contains(id));
                }
            }
            return FactRecoveryProgress::End(Ok((recovery.store, false)));
        }
        proof {
            assert forall|i: int| 0 <= i < targets.len() implies takeover_target(
                #[trigger] targets[i],
            ) by {
                assert(targets.contains(targets[i]));
            }
            assert forall|id: FactId| #[trigger]
                recovery.store@.contains_key(id) && takeover_target(id) implies targets.contains(id)
                && !scope_less(id.0, targets[0].0) by {
                assert(targets.contains(id));
                let i = targets.index_of(id);
                assert(targets[i] == id);
                if i > 0 {
                    assert(FactKey::less(targets[0], targets[i]));
                }
            }
            assert(targets[0].0 == invalidations@[0].scope);
            assert(takeover_target(targets[0]));
        }
        recovery.action = FactRecoveryAction::MakeLinks {
            instance_id: instance(invalidations[0].scope),
        };
        recovery.invalidations = invalidations;
        recovery.position = 0;
        FactRecoveryProgress::Next(recovery)
    }

    fn invalidation_appended(self) -> (progress: FactRecoveryProgress)
        requires
            self.wf(),
            self.action == FactRecoveryAction::Append,
        ensures
            progress@ == appended(self@),
            progress matches FactRecoveryProgress::Next(next) ==> next.wf(),
            progress matches FactRecoveryProgress::End(Ok((store, _))) ==> store.wf()
                && store.capacity == self.store.capacity,
    {
        let mut recovery = self;
        let ghost before = recovery@;
        let ghost targets = before.targets;
        let ghost at = before.position;
        assert(recovery.position < recovery.invalidations.len());
        let position: usize = recovery.position + 1;
        let instance_id = instance(recovery.invalidations[recovery.position].scope);
        assert(takeover_target(targets[at]));
        assert(targets[at].0 == recovery.invalidations@[at].scope);
        if position >= recovery.invalidations.len() {
            drop_untrusted(&mut recovery.store, instance_id);
            return FactRecoveryProgress::End(Ok((recovery.store, true)));
        }
        let following = instance(recovery.invalidations[position].scope);
        assert(takeover_target(targets[at + 1]));
        assert(targets[at + 1].0 == recovery.invalidations@[at + 1].scope);
        if following != instance_id {
            drop_untrusted(&mut recovery.store, instance_id);
            recovery.action = FactRecoveryAction::MakeLinks { instance_id: following };
        }
        recovery.position = position;
        proof {
            let facts = recovery.store@;
            assert forall|id: FactId| #[trigger]
                facts.contains_key(id) && takeover_target(id) implies targets.contains(id)
                && !scope_less(id.0, targets[at + 1].0) by {
                assert(before.facts.contains_key(id));
                let i = targets.index_of(id);
                assert(targets[i] == id);
                if i < at {
                    assert(FactKey::less(targets[i], targets[at]));
                } else if i > at + 1 {
                    assert(FactKey::less(targets[at + 1], targets[i]));
                }
            }
        }
        FactRecoveryProgress::Next(recovery)
    }

    /// Takes the reply to the current action.
    pub fn advance(self, reply: FactRecoveryReply) -> (progress: FactRecoveryProgress)
        requires
            self.wf(),
            recovery_reply_fits(self.action, reply),
        ensures
            recovery_goes(self@, reply, progress@),
            progress matches FactRecoveryProgress::Next(next) ==> next.wf(),
            progress matches FactRecoveryProgress::End(Ok((store, _))) ==> store.wf()
                && store.capacity == self.store.capacity,
    {
        let mut recovery = self;
        match reply {
            FactRecoveryReply::Failed(error) => FactRecoveryProgress::End(
                Err(FactRecoveryFailure::Outside(error)),
            ),
            FactRecoveryReply::Events(events) => {
                if recovery.action == FactRecoveryAction::ReadSnapshots {
                    match begin_replay(recovery.store.capacity, &events) {
                        Err(failure) => FactRecoveryProgress::End(
                            Err(FactRecoveryFailure::Replay(failure)),
                        ),
                        Ok((store, from_sequence)) => {
                            recovery.store = store;
                            recovery.action = FactRecoveryAction::ReadAppended { from_sequence };
                            FactRecoveryProgress::Next(recovery)
                        },
                    }
                } else {
                    match replay_appended(&mut recovery.store, &events) {
                        Err(failure) => FactRecoveryProgress::End(
                            Err(FactRecoveryFailure::Replay(failure)),
                        ),
                        Ok(()) => recovery.store_rebuilt(),
                    }
                }
            },
            FactRecoveryReply::Done => {
                if recovery.action == FactRecoveryAction::Append {
                    recovery.invalidation_appended()
                } else {
                    recovery.action = FactRecoveryAction::Append;
                    FactRecoveryProgress::Next(recovery)
                }
            },
        }
    }
}

/// Once the store is rebuilt, a fact is dropped only after its invalidation
/// was appended; no fact changes otherwise.
pub proof fn law_takeover_is_appended_first(
    recovery: FactRecoveryView,
    reply: FactRecoveryReply,
    progress: FactRecoveryProgressView,
    id: FactId,
)
    requires
        recovery_wf(recovery),
        recovery_reply_fits(recovery.action, reply),
        recovery_goes(recovery, reply, progress),
        recovery.action is MakeLinks || recovery.action is Append,
        recovery.facts.contains_key(id),
    ensures
        ({
            let after = match progress {
                FactRecoveryProgressView::Next(next) => next.facts,
                FactRecoveryProgressView::End(Ok((facts, _))) => facts,
                FactRecoveryProgressView::End(Err(_)) => recovery.facts,
            };
            if after.contains_key(id) {
                after[id] == recovery.facts[id]
            } else {
                &&& takeover_target(id)
                &&& recovery.action == FactRecoveryAction::Append && reply is Done
                &&& recovery.targets.take(recovery.position + 1).contains(id)
            }
        }),
{
    let targets = recovery.targets;
    let at = recovery.position;
    if untrusted_of(id, instance_of(targets[at])) {
        assert(takeover_target(targets[at]));
        let i = targets.index_of(id);
        assert(targets[i] == id);
        if i > at + 1 {
            assert(FactKey::less(targets[at + 1], targets[i]));
            assert(FactKey::less(targets[at], targets[at + 1]));
            assert(takeover_target(targets[at + 1]));
        }
        if i <= at {
            assert(targets.take(at + 1)[i] == id);
        } else {
            assert(takeover_target(targets[at + 1]));
        }
    }
}

/// A recovery after a takeover ends with no fact that the new owner epoch
/// cannot trust, and a fact that it can trust is never dropped.
pub proof fn law_takeover_drops_only_untrusted_facts(
    recovery: FactRecoveryView,
    reply: FactRecoveryReply,
    facts: Facts,
    dirty: bool,
)
    requires
        recovery_wf(recovery),
        recovery_reply_fits(recovery.action, reply),
        recovery.takeover,
        recovery_goes(recovery, reply, FactRecoveryProgressView::End(Ok((facts, dirty)))),
    ensures
        forall|id: FactId| #[trigger] facts.contains_key(id) ==> !takeover_target(id),
        recovery.action == FactRecoveryAction::Append ==> dirty && forall|id: FactId|
            !takeover_target(id) && #[trigger] recovery.facts.contains_key(id)
                ==> facts.contains_key(id) && facts[id] == recovery.facts[id],
{
    let targets = recovery.targets;
    let at = recovery.position;
    if recovery.action == FactRecoveryAction::Append {
        assert(takeover_target(targets[at]));
        assert forall|id: FactId| #[trigger] facts.contains_key(id) implies !takeover_target(id) by {
            if takeover_target(id) {
                assert(recovery.facts.contains_key(id));
                let i = targets.index_of(id);
                assert(targets[i] == id);
                if i < at {
                    assert(FactKey::less(targets[i], targets[at]));
                }
            }
        }
    }
}

/// Without a takeover the facts are those that the ledger gives, and nothing is
/// appended.
pub proof fn law_restart_trusts_the_ledger(
    recovery: FactRecoveryView,
    reply: FactRecoveryReply,
    progress: FactRecoveryProgressView,
)
    requires
        recovery_reply_fits(recovery.action, reply),
        recovery_goes(recovery, reply, progress),
        !recovery.takeover,
        recovery.action is ReadSnapshots || recovery.action is ReadAppended,
    ensures
        progress matches FactRecoveryProgressView::Next(next) ==> !next.takeover
            && next.action is ReadAppended,
        progress matches FactRecoveryProgressView::End(Ok((facts, dirty))) ==> !dirty && (
        reply matches FactRecoveryReply::Events(events) && replayed(
            recovery.facts,
            recovery.capacity,
            events@,
        ) == Ok::<_, ReplayFailure>(facts)),
{
}

} // verus!
