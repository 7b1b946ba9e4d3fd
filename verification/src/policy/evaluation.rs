//! What an evaluation of the policy takes and gives.

use vstd::prelude::*;

use crate::policy::catalog::{ActivityProfile, DispatchIntent, ScopeSelector};
use crate::text::{lemma_text_order, same_text, sorts_before, text_less};

verus! {

/// An instance as an evaluation sees it.
#[derive(Debug, Clone, PartialEq, Eq)]
pub struct InstanceSnapshot {
    pub instance_id: String,
    pub server_id: String,
    pub game_id: String,
}

/// The facts of an evaluation that the runtime's own rules read.
#[derive(Debug, Clone)]
pub struct EvaluationFacts {
    pub fact_snapshot_id: String,
    pub instances: Vec<InstanceSnapshot>,
}

/// A fact that a decision would like to be detected.
#[derive(Debug, Clone)]
pub struct DetectionSuggestion {
    pub scope: ScopeSelector,
    pub fact_key: String,
    pub reason: String,
}

#[derive(Debug, Clone)]
pub struct PolicyDecision {
    pub task_id: String,
    pub instance_id: Option<String>,
    pub detection_suggestions: Vec<DetectionSuggestion>,
    /// Everything else the decision carries, encoded.
    pub remainder: String,
}

#[derive(Debug, Clone, PartialEq, Eq)]
pub struct PolicyReasonRecord {
    pub code: String,
    pub detail: String,
}

#[derive(Debug, Clone, PartialEq, Eq)]
pub struct DecisionReasonChain {
    pub id: String,
    pub decision_id: String,
    pub reasons: Vec<PolicyReasonRecord>,
}

/// What an evaluation decided.
#[derive(Debug, Clone)]
pub struct PolicyEvaluation {
    pub decisions: Vec<PolicyDecision>,
    pub dispatch_intents: Vec<DispatchIntent>,
    pub reason_chains: Vec<DecisionReasonChain>,
    /// Everything else the evaluation carries, encoded.
    pub remainder: String,
}

pub open spec fn scope_matches(scope: ScopeSelector, instance: InstanceSnapshot) -> bool {
    match scope {
        ScopeSelector::Instance { instance_id } => instance_id@ == instance.instance_id@,
        ScopeSelector::Server { server_id } => server_id@ == instance.server_id@,
        ScopeSelector::Game { game_id } => game_id@ == instance.game_id@,
    }
}

/// How narrow a scope is.
pub open spec fn specificity(scope: ScopeSelector) -> int {
    match scope {
        ScopeSelector::Instance { .. } => 3,
        ScopeSelector::Server { .. } => 2,
        ScopeSelector::Game { .. } => 1,
    }
}

pub fn scope_specificity(scope: &ScopeSelector) -> (rank: u8)
    ensures
        rank == specificity(*scope),
{
    match scope {
        ScopeSelector::Instance { .. } => 3,
        ScopeSelector::Server { .. } => 2,
        ScopeSelector::Game { .. } => 1,
    }
}

fn matches_scope(scope: &ScopeSelector, instance: &InstanceSnapshot) -> (matches: bool)
    ensures
        matches == scope_matches(*scope, *instance),
{
    match scope {
        ScopeSelector::Instance { instance_id } => same_text(
            instance_id.as_str(),
            instance.instance_id.as_str(),
        ),
        ScopeSelector::Server { server_id } => same_text(
            server_id.as_str(),
            instance.server_id.as_str(),
        ),
        ScopeSelector::Game { game_id } => same_text(game_id.as_str(), instance.game_id.as_str()),
    }
}

/// A later profile takes the place of an earlier one: its scope is narrower,
/// or as narrow and its id does not sort after the earlier one's.
pub open spec fn outranks(later: ActivityProfile, earlier: ActivityProfile) -> bool {
    specificity(later.scope) > specificity(earlier.scope) || (specificity(later.scope)
        == specificity(earlier.scope) && !text_less(earlier.id@, later.id@))
}

/// The profile of an instance.
pub open spec fn profile_for(profiles: Seq<ActivityProfile>, instance: InstanceSnapshot) -> Option<
    int,
>
    decreases profiles.len(),
{
    if profiles.len() == 0 {
        None
    } else {
        let earlier = profile_for(profiles.drop_last(), instance);
        if !scope_matches(profiles.last().scope, instance) {
            earlier
        } else if earlier is Some && !outranks(profiles.last(), profiles[earlier->0]) {
            earlier
        } else {
            Some(profiles.len() - 1)
        }
    }
}

pub fn matching_activity_profile(profiles: &Vec<ActivityProfile>, instance: &InstanceSnapshot) -> (found:
    Option<usize>)
    ensures
        match profile_for(profiles@, *instance) {
            Some(index) => found is Some && found->0 == index && 0 <= index < profiles@.len(),
            None => found is None,
        },
{
    let mut found: Option<usize> = None;
    let mut index: usize = 0;
    assert(profiles@.take(0) =~= Seq::empty());
    while index < profiles.len()
        invariant
            index <= profiles.len(),
            match profile_for(profiles@.take(index as int), *instance) {
                Some(best) => found is Some && found->0 == best && 0 <= best < index,
                None => found is None,
            },
        decreases profiles.len() - index,
    {
        proof {
            assert(profiles@.take(index + 1).drop_last() =~= profiles@.take(index as int));
        }
        if matches_scope(&profiles[index].scope, instance) {
            let replaces = match found {
                None => true,
                Some(best) => {
                    let rank = scope_specificity(&profiles[index].scope);
                    let best_rank = scope_specificity(&profiles[best].scope);
                    rank > best_rank || (rank == best_rank && !sorts_before(
                        profiles[best].id.as_str(),
                        profiles[index].id.as_str(),
                    ))
                },
            };
            if replaces {
                found = Some(index);
            }
        }
        index += 1;
    }
    assert(profiles@.take(index as int) =~= profiles@);
    found
}

/// The profile of an instance applies to it, and no other profile that does
/// has a narrower scope.
pub proof fn law_narrowest_profile_is_taken(
    profiles: Seq<ActivityProfile>,
    instance: InstanceSnapshot,
    other: int,
)
    requires
        0 <= other < profiles.len(),
        scope_matches(profiles[other].scope, instance),
    ensures
        profile_for(profiles, instance) matches Some(index) && 0 <= index < profiles.len()
            && scope_matches(profiles[index].scope, instance) && specificity(profiles[index].scope)
            >= specificity(profiles[other].scope),
    decreases profiles.len(),
{
    lemma_profile_for(profiles.drop_last(), instance);
    if other < profiles.len() - 1 {
        law_narrowest_profile_is_taken(profiles.drop_last(), instance, other);
    }
}

proof fn lemma_profile_for(profiles: Seq<ActivityProfile>, instance: InstanceSnapshot)
    ensures
        profile_for(profiles, instance) matches Some(index) ==> 0 <= index < profiles.len()
            && scope_matches(profiles[index].scope, instance),
    decreases profiles.len(),
{
    if profiles.len() > 0 {
        lemma_profile_for(profiles.drop_last(), instance);
    }
}

/// A profile of an instance outranks one of its server, and that one of its
/// game; of two with the same scope the one with the smaller id counts.
pub proof fn law_profiles_are_ranked_by_scope(later: ActivityProfile, earlier: ActivityProfile)
    ensures
        later.scope is Instance && !(earlier.scope is Instance) ==> outranks(later, earlier),
        later.scope is Server && earlier.scope is Game ==> outranks(later, earlier),
        later.scope is Game && !(earlier.scope is Game) ==> !outranks(later, earlier),
        later.scope is Server && earlier.scope is Instance ==> !outranks(later, earlier),
        (later.scope is Instance == earlier.scope is Instance) && (later.scope is Server
            == earlier.scope is Server) ==> (outranks(later, earlier) <==> later.id@
            == earlier.id@ || text_less(later.id@, earlier.id@)),
{
    lemma_text_order(later.id@, earlier.id@, later.id@);
}

/// A profile applies to an instance exactly where its scope names the
/// instance, its server or its game; an instance has a profile exactly where
/// one applies.
pub proof fn law_profile_applies_by_scope(
    profiles: Seq<ActivityProfile>,
    instance: InstanceSnapshot,
)
    ensures
        match profile_for(profiles, instance) {
            Some(index) => 0 <= index < profiles.len() && match profiles[index].scope {
                ScopeSelector::Instance { instance_id } => instance_id@ == instance.instance_id@,
                ScopeSelector::Server { server_id } => server_id@ == instance.server_id@,
                ScopeSelector::Game { game_id } => game_id@ == instance.game_id@,
            },
            None => forall|i: int|
                0 <= i < profiles.len() ==> match (#[trigger] profiles[i]).scope {
                    ScopeSelector::Instance { instance_id } => instance_id@
                        != instance.instance_id@,
                    ScopeSelector::Server { server_id } => server_id@ != instance.server_id@,
                    ScopeSelector::Game { game_id } => game_id@ != instance.game_id@,
                },
        },
{
    lemma_profile_for(profiles, instance);
    if profile_for(profiles, instance) is None {
        assert forall|i: int| 0 <= i < profiles.len() implies !scope_matches(
            (#[trigger] profiles[i]).scope,
            instance,
        ) by {
            if scope_matches(profiles[i].scope, instance) {
                law_narrowest_profile_is_taken(profiles, instance, i);
            }
        }
    }
}

/// Of the profiles of the narrowest scope that apply, the one with the smallest
/// id is taken.
pub proof fn law_smallest_id_is_taken(
    profiles: Seq<ActivityProfile>,
    instance: InstanceSnapshot,
    other: int,
)
    requires
        0 <= other < profiles.len(),
        scope_matches(profiles[other].scope, instance),
        profile_for(profiles, instance) is Some,
        specificity(profiles[other].scope) == specificity(
            profiles[profile_for(profiles, instance)->0].scope,
        ),
    ensures
        !text_less(profiles[other].id@, profiles[profile_for(profiles, instance)->0].id@),
    decreases profiles.len(),
{
    let before = profiles.drop_last();
    lemma_profile_for(before, instance);
    let earlier = profile_for(before, instance);
    let taken = profile_for(profiles, instance)->0;
    lemma_text_order(profiles.last().id@, profiles.last().id@, profiles.last().id@);
    if other < before.len() {
        law_narrowest_profile_is_taken(before, instance, other);
        assert(before[other] == profiles[other]);
        assert(before[earlier->0] == profiles[earlier->0]);
        if taken < before.len() {
            law_smallest_id_is_taken(before, instance, other);
        } else if specificity(profiles[earlier->0].scope) == specificity(profiles[other].scope) {
            law_smallest_id_is_taken(before, instance, other);
            lemma_text_order(
                profiles[other].id@,
                profiles[taken].id@,
                profiles[earlier->0].id@,
            );
            lemma_text_order(
                profiles[taken].id@,
                profiles[earlier->0].id@,
                profiles[other].id@,
            );
        }
    } else if taken < before.len() {
        lemma_text_order(profiles[taken].id@, profiles[other].id@, profiles[taken].id@);
    }
}

} // verus!
