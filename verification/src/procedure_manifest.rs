//! Runtime-owned content bindings for external procedure packages.

use vstd::prelude::*;
use vstd::string::StringExecFns;

use crate::digest::{
    digest_text_valid, hex_text, is_digest_text, sha256, sha256_hex, sha256_name, sha256_of,
};
use crate::error::{RuntimeHostError, RuntimeHostResult};
use crate::json_text::{encode_nested, encode_pair, list_json, nested_json};
use crate::ordered_map::OrderedMap;
use crate::policy::catalog::{
    fatal, policy_fatal, policy_request, request, DispatchIntent, IntentView,
};
use crate::policy::dispatch::{copy_reasons, reason_texts};
use crate::policy::evaluation::{DecisionReasonChain, PolicyEvaluation};
use crate::search::{first_position, lemma_first_position, lemma_no_position, lemma_position};
use crate::text::{same_text, same_texts, texts, utf8};

verus! {

pub const MAX_PROCEDURE_TOKEN_BYTES: usize = 256;

/// A byte of a procedure's name: an ASCII letter or digit, a dot, an
/// underscore, a colon or a hyphen.
pub open spec fn is_name_byte(byte: u8) -> bool {
    48 <= byte <= 58 || 65 <= byte <= 90 || 97 <= byte <= 122 || byte == 46 || byte == 95 || byte
        == 45
}

/// A name of at most 256 bytes.
pub open spec fn name_valid(text: Seq<char>) -> bool {
    let bytes = utf8(text);
    &&& 0 < bytes.len() <= 256
    &&& forall|i: int| 0 <= i < bytes.len() ==> is_name_byte(#[trigger] bytes[i])
}

pub fn validate_token(value: &str, field: &'static str) -> (result: RuntimeHostResult<()>)
    ensures
        name_valid(value@) ==> result == Ok::<(), RuntimeHostError>(()),
        !name_valid(value@) ==> result == Err::<(), _>(
            policy_fatal("procedure_manifest_token_invalid", field),
        ),
{
    let bytes = value.as_bytes();
    if bytes.len() == 0 || bytes.len() > MAX_PROCEDURE_TOKEN_BYTES {
        return Err(fatal("procedure_manifest_token_invalid", field));
    }
    let mut index: usize = 0;
    while index < bytes.len()
        invariant
            index <= bytes.len(),
            bytes@ == utf8(value@),
            forall|i: int| 0 <= i < index ==> is_name_byte(#[trigger] bytes@[i]),
        decreases bytes.len() - index,
    {
        let byte: u8 = bytes[index];
        if !((48 <= byte && byte <= 58) || (65 <= byte && byte <= 90) || (97 <= byte && byte <= 122)
            || byte == 46 || byte == 95 || byte == 45) {
            assert(!is_name_byte(utf8(value@)[index as int]));
            return Err(fatal("procedure_manifest_token_invalid", field));
        }
        index += 1;
    }
    Ok(())
}

pub fn validate_sha256(value: &str, field: &'static str) -> (result: RuntimeHostResult<()>)
    ensures
        digest_text_valid(value@) ==> result == Ok::<(), RuntimeHostError>(()),
        !digest_text_valid(value@) ==> result == Err::<(), _>(
            policy_fatal("procedure_package_digest_invalid", field),
        ),
{
    if !is_digest_text(value) {
        return Err(fatal("procedure_package_digest_invalid", field));
    }
    Ok(())
}

fn binding_digest_of(
    procedure_ref: &str,
    package_digest: &str,
    operation_id: &str,
    yield_points: &Vec<String>,
) -> (result: RuntimeHostResult<String>)
    ensures
        result matches Ok(digest) && digest@ == sha256_name(
            nested_json(procedure_ref@, package_digest@, operation_id@, texts(yield_points@)),
        ),
{
    match encode_nested(procedure_ref, package_digest, operation_id, yield_points) {
        Ok(bytes) => Ok(sha256(bytes.as_slice())),
        Err(_) => Err(fatal("procedure_binding_encode_failed", "bind_procedure")),
    }
}

/// What a decision's id becomes once it is bound, without what it starts with.
pub open spec fn bound_name(decision_id: Seq<char>, binding_digest: Seq<char>) -> Seq<char> {
    hex_text(sha256_of(list_json(seq![decision_id, binding_digest])))
}

fn bound_decision_name(decision_id: &str, binding_digest: &str) -> (result: RuntimeHostResult<
    String,
>)
    ensures
        result matches Ok(name) && name@ == bound_name(decision_id@, binding_digest@),
{
    match encode_pair(decision_id, binding_digest) {
        Ok(bytes) => Ok(sha256_hex(bytes.as_slice())),
        Err(_) => Err(
            fatal("procedure_decision_identity_encode_failed", "bind_policy_evaluation"),
        ),
    }
}

/// Immutable binding between a procedure alias and approved package content.
#[derive(Debug, Clone, PartialEq, Eq)]
pub struct ProcedureBinding {
    pub procedure_ref: String,
    pub package_digest: String,
    pub operation_id: String,
    pub yield_points: Vec<String>,
    pub binding_digest: String,
}

pub open spec fn all_names_valid(names: Seq<Seq<char>>) -> bool {
    forall|i: int| 0 <= i < names.len() ==> name_valid(#[trigger] names[i])
}

/// The error of parts that make no binding.
pub open spec fn binding_error(
    procedure_ref: Seq<char>,
    package_digest: Seq<char>,
    operation_id: Seq<char>,
    yield_points: Seq<Seq<char>>,
) -> Option<RuntimeHostError> {
    if !name_valid(procedure_ref) {
        Some(policy_fatal("procedure_manifest_token_invalid", "procedure_ref"))
    } else if !name_valid(operation_id) {
        Some(policy_fatal("procedure_manifest_token_invalid", "operation_id"))
    } else if !digest_text_valid(package_digest) {
        Some(policy_fatal("procedure_package_digest_invalid", "package_digest"))
    } else if !all_names_valid(yield_points) {
        Some(policy_fatal("procedure_manifest_token_invalid", "yield_point"))
    } else {
        None
    }
}

impl ProcedureBinding {
    /// The digest covers everything else.
    pub open spec fn wf(&self) -> bool {
        &&& binding_error(
            self.procedure_ref@,
            self.package_digest@,
            self.operation_id@,
            texts(self.yield_points@),
        ) is None
        &&& self.binding_digest@ == sha256_name(
            nested_json(
                self.procedure_ref@,
                self.package_digest@,
                self.operation_id@,
                texts(self.yield_points@),
            ),
        )
    }

    pub fn new(
        procedure_ref: String,
        package_digest: String,
        operation_id: String,
        yield_points: Vec<String>,
    ) -> (result: RuntimeHostResult<Self>)
        ensures
            match binding_error(
                procedure_ref@,
                package_digest@,
                operation_id@,
                texts(yield_points@),
            ) {
                Some(error) => result matches Err(actual) && actual == error,
                None => result matches Ok(binding) && binding.wf() && binding.procedure_ref
                    == procedure_ref && binding.package_digest == package_digest
                    && binding.operation_id == operation_id && binding.yield_points
                    == yield_points,
            },
    {
        validate_token(procedure_ref.as_str(), "procedure_ref")?;
        validate_token(operation_id.as_str(), "operation_id")?;
        validate_sha256(package_digest.as_str(), "package_digest")?;
        let mut index: usize = 0;
        while index < yield_points.len()
            invariant
                index <= yield_points.len(),
                name_valid(procedure_ref@),
                name_valid(operation_id@),
                digest_text_valid(package_digest@),
                forall|i: int|
                    0 <= i < index ==> name_valid(#[trigger] texts(yield_points@)[i]),
            decreases yield_points.len() - index,
        {
            assert(texts(yield_points@)[index as int] == yield_points@[index as int]@);
            validate_token(yield_points[index].as_str(), "yield_point")?;
            index += 1;
        }
        let binding_digest = binding_digest_of(
            procedure_ref.as_str(),
            package_digest.as_str(),
            operation_id.as_str(),
            &yield_points,
        )?;
        Ok(
            ProcedureBinding {
                procedure_ref,
                package_digest,
                operation_id,
                yield_points,
                binding_digest,
            },
        )
    }

    pub fn procedure_ref(&self) -> (text: &str)
        ensures
            text@ == self.procedure_ref@,
    {
        self.procedure_ref.as_str()
    }

    pub fn package_digest(&self) -> (text: &str)
        ensures
            text@ == self.package_digest@,
    {
        self.package_digest.as_str()
    }

    pub fn operation_id(&self) -> (text: &str)
        ensures
            text@ == self.operation_id@,
    {
        self.operation_id.as_str()
    }

    pub fn yield_points(&self) -> (points: &[String])
        ensures
            points@ == self.yield_points@,
    {
        self.yield_points.as_slice()
    }

    pub fn binding_digest(&self) -> (text: &str)
        ensures
            text@ == self.binding_digest@,
    {
        self.binding_digest.as_str()
    }

    /// The error of an intent that is not for this procedure.
    pub open spec fn descriptor_error(&self, intent: IntentView, operation: &'static str) -> Option<
        RuntimeHostError,
    > {
        if intent.operation_id != self.operation_id@ {
            Some(policy_request("procedure_operation_mismatch", operation))
        } else if intent.yield_points != texts(self.yield_points@) {
            Some(policy_request("procedure_yield_points_mismatch", operation))
        } else {
            None
        }
    }

    pub fn validate_descriptor(&self, intent: &DispatchIntent, operation: &'static str) -> (result:
        RuntimeHostResult<()>)
        ensures
            match self.descriptor_error(intent@, operation) {
                Some(error) => result == Err::<(), _>(error),
                None => result == Ok::<(), RuntimeHostError>(()),
            },
    {
        if !same_text(intent.operation_id.as_str(), self.operation_id.as_str()) {
            return Err(request("procedure_operation_mismatch", operation));
        }
        if !same_texts(&intent.yield_points, &self.yield_points) {
            return Err(request("procedure_yield_points_mismatch", operation));
        }
        Ok(())
    }
}

/// Trusted manifest used to bind policy decisions before they can reach lease admission.
pub struct ProcedureManifest {
    pub bindings: OrderedMap<String, ProcedureBinding>,
}

/// No alias stands twice in a list of bindings.
pub open spec fn aliases_distinct(bindings: Seq<ProcedureBinding>) -> bool {
    forall|i: int, j: int|
        0 <= i < j < bindings.len() ==> (#[trigger] bindings[i]).procedure_ref@ != (
        #[trigger] bindings[j]).procedure_ref@
}

impl ProcedureManifest {
    pub open spec fn wf(&self) -> bool {
        &&& self.bindings.wf()
        &&& forall|alias: Seq<char>| #[trigger]
            self.bindings@.contains_key(alias) ==> self.bindings@[alias].procedure_ref@ == alias
    }

    pub fn new(bindings: Vec<ProcedureBinding>) -> (result: RuntimeHostResult<Self>)
        ensures
            if !aliases_distinct(bindings@) {
                result matches Err(error) && error == policy_fatal(
                    "procedure_manifest_alias_duplicate",
                    "build_procedure_manifest",
                )
            } else if bindings@.len() == 0 {
                result matches Err(error) && error == policy_fatal(
                    "procedure_manifest_empty",
                    "build_procedure_manifest",
                )
            } else {
                &&& result is Ok
                &&& result->Ok_0.wf()
                &&& forall|i: int|
                    0 <= i < bindings@.len() ==> result->Ok_0.bindings@.contains_key(
                        (#[trigger] bindings@[i]).procedure_ref@,
                    ) && result->Ok_0.bindings@[bindings@[i].procedure_ref@] == bindings@[i]
                &&& forall|alias: Seq<char>| #[trigger]
                    result->Ok_0.bindings@.contains_key(alias) ==> exists|i: int|
                        0 <= i < bindings@.len() && (#[trigger] bindings@[i]).procedure_ref@
                            == alias
            },
    {
        let ghost all = bindings@;
        let mut rest = bindings;
        let mut indexed: OrderedMap<String, ProcedureBinding> = OrderedMap::new();
        let empty = rest.len() == 0;
        while rest.len() > 0
            invariant
                all == bindings@,
                rest@.len() <= all.len(),
                empty == (all.len() == 0),
                all.subrange(all.len() - rest@.len(), all.len() as int) == rest@,
                indexed.wf(),
                aliases_distinct(all.take(all.len() - rest@.len())),
                forall|alias: Seq<char>| #[trigger]
                    indexed@.contains_key(alias) ==> indexed@[alias].procedure_ref@ == alias,
                forall|i: int|
                    0 <= i < all.len() - rest@.len() ==> indexed@.contains_key(
                        (#[trigger] all[i]).procedure_ref@,
                    ) && indexed@[all[i].procedure_ref@] == all[i],
                forall|alias: Seq<char>| #[trigger]
                    indexed@.contains_key(alias) ==> exists|i: int|
                        0 <= i < all.len() - rest@.len() && (
                        #[trigger] all[i]).procedure_ref@ == alias,
            decreases rest@.len(),
        {
            let ghost done = all.len() - rest@.len();
            let ghost before = indexed@;
            assert(rest@[0] == all[done]);
            let binding = rest.remove(0);
            assert(all.subrange(done + 1, all.len() as int) =~= rest@);
            if indexed.contains(&binding.procedure_ref) {
                proof {
                    let alias = binding.procedure_ref@;
                    assert(before.contains_key(alias));
                    let i = choose|i: int| 0 <= i < done && (
                    #[trigger] all[i]).procedure_ref@ == alias;
                    assert(all[i].procedure_ref@ == all[done].procedure_ref@);
                    assert(!aliases_distinct(all));
                }
                return Err(
                    fatal("procedure_manifest_alias_duplicate", "build_procedure_manifest"),
                );
            }
            let alias = binding.procedure_ref.clone();
            indexed.insert(alias, binding);
            proof {
                assert forall|i: int, j: int| 0 <= i < j < done + 1 implies (
                #[trigger] all[i]).procedure_ref@ != (#[trigger] all[j]).procedure_ref@ by {
                    if j < done {
                        assert(all.take(done)[i] == all[i] && all.take(done)[j] == all[j]);
                    } else {
                        assert(before.contains_key(all[i].procedure_ref@));
                    }
                }
                assert(aliases_distinct(all.take(done + 1)));
                assert forall|other: Seq<char>| #[trigger]
                    indexed@.contains_key(other) implies exists|i: int|
                    0 <= i < done + 1 && (#[trigger] all[i]).procedure_ref@ == other by {
                    if other == binding.procedure_ref@ {
                        assert(all[done].procedure_ref@ == other);
                    } else {
                        assert(before.contains_key(other));
                    }
                }
            }
        }
        assert(all.take(all.len() as int) =~= all);
        if empty {
            return Err(fatal("procedure_manifest_empty", "build_procedure_manifest"));
        }
        Ok(ProcedureManifest { bindings: indexed })
    }

    pub fn binding(&self, procedure_ref: &str) -> (found: Option<&ProcedureBinding>)
        requires
            self.wf(),
        ensures
            match found {
                Some(binding) => self.bindings@.contains_key(procedure_ref@) && *binding
                    == self.bindings@[procedure_ref@],
                None => !self.bindings@.contains_key(procedure_ref@),
            },
    {
        let key: String = procedure_ref.to_owned();
        self.bindings.get(&key)
    }

    fn resolve(&self, procedure_ref: &str, operation: &'static str) -> (result: RuntimeHostResult<
        &ProcedureBinding,
    >)
        requires
            self.wf(),
        ensures
            if self.bindings@.contains_key(procedure_ref@) {
                result matches Ok(binding) && *binding == self.bindings@[procedure_ref@]
            } else {
                result matches Err(error) && error == policy_request(
                    "procedure_manifest_entry_missing",
                    operation,
                )
            },
    {
        match self.binding(procedure_ref) {
            Some(binding) => Ok(binding),
            None => Err(request("procedure_manifest_entry_missing", operation)),
        }
    }

    /// The error of an intent that is not bound as the manifest says.
    pub open spec fn intent_error(&self, intent: IntentView, operation: &'static str) -> Option<
        RuntimeHostError,
    > {
        let binding = self.bindings@[intent.procedure_ref];
        if !self.bindings@.contains_key(intent.procedure_ref) {
            Some(policy_request("procedure_manifest_entry_missing", operation))
        } else if binding.descriptor_error(intent, operation) is Some {
            binding.descriptor_error(intent, operation)
        } else if intent.package_digest != Some(binding.package_digest@) {
            Some(policy_request("procedure_package_digest_mismatch", operation))
        } else if intent.procedure_binding_digest != Some(binding.binding_digest@) {
            Some(policy_request("procedure_binding_digest_mismatch", operation))
        } else {
            None
        }
    }

    pub fn validate_intent(&self, intent: &DispatchIntent, operation: &'static str) -> (result:
        RuntimeHostResult<()>)
        requires
            self.wf(),
        ensures
            match self.intent_error(intent@, operation) {
                Some(error) => result == Err::<(), _>(error),
                None => result == Ok::<(), RuntimeHostError>(()),
            },
    {
        let binding = self.resolve(intent.procedure_ref.as_str(), operation)?;
        binding.validate_descriptor(intent, operation)?;
        let package_bound = match &intent.package_digest {
            Some(digest) => same_text(digest.as_str(), binding.package_digest.as_str()),
            None => false,
        };
        if !package_bound {
            return Err(request("procedure_package_digest_mismatch", operation));
        }
        let binding_bound = match &intent.procedure_binding_digest {
            Some(digest) => same_text(digest.as_str(), binding.binding_digest.as_str()),
            None => false,
        };
        if !binding_bound {
            return Err(request("procedure_binding_digest_mismatch", operation));
        }
        Ok(())
    }
}

/// The value of a chain of reasons.
pub struct ChainView {
    pub id: Seq<char>,
    pub decision_id: Seq<char>,
    /// Code and detail of each reason.
    pub reasons: Seq<(Seq<char>, Seq<char>)>,
}

impl View for DecisionReasonChain {
    type V = ChainView;

    open spec fn view(&self) -> ChainView {
        ChainView {
            id: self.id@,
            decision_id: self.decision_id@,
            reasons: reason_texts(self.reasons@),
        }
    }
}

pub open spec fn intent_views(intents: Seq<DispatchIntent>) -> Seq<IntentView> {
    intents.map_values(|intent: DispatchIntent| intent@)
}

pub open spec fn chain_views(chains: Seq<DecisionReasonChain>) -> Seq<ChainView> {
    chains.map_values(|chain: DecisionReasonChain| chain@)
}

pub open spec fn bind_fatal(code: &'static str) -> RuntimeHostError {
    policy_fatal(code, "bind_policy_evaluation")
}

pub open spec fn decides(decision_id: Seq<char>) -> spec_fn(IntentView) -> bool {
    |intent: IntentView| intent.decision_id == decision_id
}

/// A chain with the ids of the decision it is for, once that is bound.
pub open spec fn rebound_chain(
    unbound: Seq<IntentView>,
    bound: Seq<IntentView>,
    chain: ChainView,
) -> Result<ChainView, RuntimeHostError> {
    match first_position(unbound, decides(chain.decision_id)) {
        None => Ok(chain),
        Some(index) => if chain.id != unbound[index].reason_chain_id {
            Err(bind_fatal("procedure_reason_chain_identity_mismatch"))
        } else {
            Ok(
                ChainView {
                    id: bound[index].reason_chain_id,
                    decision_id: bound[index].decision_id,
                    ..chain
                },
            )
        },
    }
}

pub open spec fn rebound_chains(
    unbound: Seq<IntentView>,
    bound: Seq<IntentView>,
    chains: Seq<ChainView>,
) -> Result<Seq<ChainView>, RuntimeHostError>
    decreases chains.len(),
{
    if chains.len() == 0 {
        Ok(Seq::empty())
    } else {
        match rebound_chains(unbound, bound, chains.drop_last()) {
            Err(error) => Err(error),
            Ok(earlier) => match rebound_chain(unbound, bound, chains.last()) {
                Err(error) => Err(error),
                Ok(chain) => Ok(earlier.push(chain)),
            },
        }
    }
}

/// A chain gives the reasons of an intent.
pub open spec fn explains(chain: ChainView, intent: IntentView) -> bool {
    chain.id == intent.reason_chain_id && chain.decision_id == intent.decision_id
}

/// Some chain gives the reasons of an intent.
pub open spec fn is_explained(intent: IntentView, chains: Seq<ChainView>) -> bool {
    exists|j: int| 0 <= j < chains.len() && explains(#[trigger] chains[j], intent)
}

/// Every intent has its reasons.
pub open spec fn all_explained(intents: Seq<IntentView>, chains: Seq<ChainView>) -> bool {
    forall|i: int| 0 <= i < intents.len() ==> is_explained(#[trigger] intents[i], chains)
}

impl ProcedureManifest {
    /// An intent with its binding.
    pub open spec fn bound_intent(&self, intent: IntentView) -> Result<
        IntentView,
        RuntimeHostError,
    > {
        let binding = self.bindings@[intent.procedure_ref];
        let operation = "bind_policy_evaluation";
        let name = bound_name(intent.decision_id, binding.binding_digest@);
        if intent.package_digest is Some || intent.procedure_binding_digest is Some {
            Err(bind_fatal("procedure_intent_already_bound"))
        } else if !self.bindings@.contains_key(intent.procedure_ref) {
            Err(policy_request("procedure_manifest_entry_missing", operation))
        } else if binding.descriptor_error(intent, operation) is Some {
            Err(binding.descriptor_error(intent, operation)->0)
        } else {
            Ok(
                IntentView {
                    decision_id: "decision:"@ + name,
                    reason_chain_id: "reason:"@ + name,
                    package_digest: Some(binding.package_digest@),
                    procedure_binding_digest: Some(binding.binding_digest@),
                    ..intent
                },
            )
        }
    }

    /// Intents with their bindings. No two of them are for one decision.
    pub open spec fn bound_intents(&self, intents: Seq<IntentView>) -> Result<
        Seq<IntentView>,
        RuntimeHostError,
    >
        decreases intents.len(),
    {
        if intents.len() == 0 {
            Ok(Seq::empty())
        } else {
            match self.bound_intents(intents.drop_last()) {
                Err(error) => Err(error),
                Ok(earlier) => match self.bound_intent(intents.last()) {
                    Err(error) => Err(error),
                    Ok(intent) => if first_position(
                        intents.drop_last(),
                        decides(intents.last().decision_id),
                    ) is Some {
                        Err(bind_fatal("procedure_decision_identity_duplicate"))
                    } else {
                        Ok(earlier.push(intent))
                    },
                },
            }
        }
    }

    /// The intents and chains of an evaluation, bound.
    pub open spec fn bound_evaluation(
        &self,
        intents: Seq<IntentView>,
        chains: Seq<ChainView>,
    ) -> Result<(Seq<IntentView>, Seq<ChainView>), RuntimeHostError> {
        match self.bound_intents(intents) {
            Err(error) => Err(error),
            Ok(bound) => match rebound_chains(intents, bound, chains) {
                Err(error) => Err(error),
                Ok(rebound) => if !all_explained(bound, rebound) {
                    Err(bind_fatal("procedure_reason_chain_missing"))
                } else {
                    Ok((bound, rebound))
                },
            },
        }
    }

    fn bind_intent(&self, intent: &DispatchIntent) -> (result: RuntimeHostResult<DispatchIntent>)
        requires
            self.wf(),
        ensures
            match self.bound_intent(intent@) {
                Ok(value) => result matches Ok(bound) && bound@ == value,
                Err(error) => result matches Err(actual) && actual == error,
            },
    {
        if intent.package_digest.is_some() || intent.procedure_binding_digest.is_some() {
            return Err(fatal("procedure_intent_already_bound", "bind_policy_evaluation"));
        }
        let binding = self.resolve(intent.procedure_ref.as_str(), "bind_policy_evaluation")?;
        binding.validate_descriptor(intent, "bind_policy_evaluation")?;
        let name = bound_decision_name(
            intent.decision_id.as_str(),
            binding.binding_digest.as_str(),
        )?;
        let mut decision_id = "decision:".to_owned();
        decision_id.append(name.as_str());
        let mut reason_chain_id = "reason:".to_owned();
        reason_chain_id.append(name.as_str());
        let mut bound = intent.copy();
        bound.decision_id = decision_id;
        bound.reason_chain_id = reason_chain_id;
        bound.package_digest = Some(binding.package_digest.clone());
        bound.procedure_binding_digest = Some(binding.binding_digest.clone());
        Ok(bound)
    }

    /// Binds the intents of an evaluation to approved content. Their decisions
    /// and reasons get new ids that depend on the binding. A refused evaluation
    /// stays as it is.
    pub fn bind_evaluation(&self, evaluation: &mut PolicyEvaluation) -> (result: RuntimeHostResult<
        (),
    >)
        requires
            self.wf(),
        ensures
            final(evaluation).decisions == old(evaluation).decisions,
            final(evaluation).remainder == old(evaluation).remainder,
            match self.bound_evaluation(
                intent_views(old(evaluation).dispatch_intents@),
                chain_views(old(evaluation).reason_chains@),
            ) {
                Ok((intents, chains)) => {
                    &&& result == Ok::<(), RuntimeHostError>(())
                    &&& intent_views(final(evaluation).dispatch_intents@) == intents
                    &&& chain_views(final(evaluation).reason_chains@) == chains
                },
                Err(error) => result == Err::<(), _>(error) && *final(evaluation) == *old(
                    evaluation,
                ),
            },
    {
        let intents = self.bind_intents(&evaluation.dispatch_intents)?;
        let chains = rebind_chains(
            &evaluation.dispatch_intents,
            &intents,
            &evaluation.reason_chains,
        )?;
        if !every_intent_explained(&intents, &chains) {
            return Err(fatal("procedure_reason_chain_missing", "bind_policy_evaluation"));
        }
        evaluation.dispatch_intents = intents;
        evaluation.reason_chains = chains;
        Ok(())
    }

    fn bind_intents(&self, intents: &Vec<DispatchIntent>) -> (result: RuntimeHostResult<
        Vec<DispatchIntent>,
    >)
        requires
            self.wf(),
        ensures
            match self.bound_intents(intent_views(intents@)) {
                Ok(expected) => result matches Ok(bound) && intent_views(bound@) == expected
                    && bound@.len() == intents@.len(),
                Err(error) => result matches Err(actual) && actual == error,
            },
    {
        let ghost all = intent_views(intents@);
        let mut bound: Vec<DispatchIntent> = Vec::new();
        let mut index: usize = 0;
        proof {
            assert(all.take(0) =~= Seq::empty());
            assert(intent_views(bound@) =~= Seq::empty());
        }
        while index < intents.len()
            invariant
                index <= intents.len(),
                self.wf(),
                all == intent_views(intents@),
                bound@.len() == index,
                self.bound_intents(all.take(index as int)) == Ok::<
                    Seq<IntentView>,
                    RuntimeHostError,
                >(intent_views(bound@)),
            decreases intents.len() - index,
        {
            let ghost taken = all.take(index + 1);
            proof {
                assert(taken.drop_last() =~= all.take(index as int));
                assert(taken.last() == intents@[index as int]@);
                if self.bound_intents(taken) is Err {
                    self.lemma_binding_stops_at_error(all, index + 1);
                }
            }
            let intent = self.bind_intent(&intents[index])?;
            if find_decision(intents, index, intents[index].decision_id.as_str()).is_some() {
                return Err(
                    fatal("procedure_decision_identity_duplicate", "bind_policy_evaluation"),
                );
            }
            let ghost before = bound@;
            bound.push(intent);
            assert(intent_views(bound@) =~= intent_views(before).push(intent@));
            index += 1;
        }
        assert(all.take(all.len() as int) =~= all);
        Ok(bound)
    }

    proof fn lemma_binding_stops_at_error(&self, intents: Seq<IntentView>, count: int)
        requires
            0 <= count <= intents.len(),
            self.bound_intents(intents.take(count)) is Err,
        ensures
            self.bound_intents(intents) == self.bound_intents(intents.take(count)),
        decreases intents.len(),
    {
        if count == intents.len() {
            assert(intents.take(count) =~= intents);
        } else {
            assert(intents.drop_last().take(count) =~= intents.take(count));
            self.lemma_binding_stops_at_error(intents.drop_last(), count);
        }
    }
}

/// The first of some intents that is for a decision.
fn find_decision(intents: &Vec<DispatchIntent>, count: usize, decision_id: &str) -> (found: Option<
    usize,
>)
    requires
        count <= intents@.len(),
    ensures
        match first_position(intent_views(intents@).take(count as int), decides(decision_id@)) {
            Some(index) => found is Some && found->0 == index && 0 <= index < count,
            None => found is None,
        },
{
    let ghost all = intent_views(intents@).take(count as int);
    let ghost wanted = decides(decision_id@);
    let mut index: usize = 0;
    while index < count
        invariant
            index <= count <= intents@.len(),
            all == intent_views(intents@).take(count as int),
            wanted == decides(decision_id@),
            forall|i: int| 0 <= i < index ==> !wanted(#[trigger] all[i]),
        decreases count - index,
    {
        assert(all[index as int] == intents@[index as int]@);
        if same_text(intents[index].decision_id.as_str(), decision_id) {
            proof {
                lemma_first_position(all, wanted, index as int);
            }
            return Some(index);
        }
        index += 1;
    }
    proof {
        lemma_no_position(all, wanted);
    }
    None
}

proof fn lemma_rebinding_stops_at_error(
    unbound: Seq<IntentView>,
    bound: Seq<IntentView>,
    chains: Seq<ChainView>,
    count: int,
)
    requires
        0 <= count <= chains.len(),
        rebound_chains(unbound, bound, chains.take(count)) is Err,
    ensures
        rebound_chains(unbound, bound, chains) == rebound_chains(
            unbound,
            bound,
            chains.take(count),
        ),
    decreases chains.len(),
{
    if count == chains.len() {
        assert(chains.take(count) =~= chains);
    } else {
        assert(chains.drop_last().take(count) =~= chains.take(count));
        lemma_rebinding_stops_at_error(unbound, bound, chains.drop_last(), count);
    }
}

fn rebind_chains(
    unbound: &Vec<DispatchIntent>,
    bound: &Vec<DispatchIntent>,
    chains: &Vec<DecisionReasonChain>,
) -> (result: RuntimeHostResult<Vec<DecisionReasonChain>>)
    requires
        bound@.len() == unbound@.len(),
    ensures
        match rebound_chains(
            intent_views(unbound@),
            intent_views(bound@),
            chain_views(chains@),
        ) {
            Ok(expected) => result matches Ok(rebound) && chain_views(rebound@) == expected,
            Err(error) => result matches Err(actual) && actual == error,
        },
{
    let ghost all = chain_views(chains@);
    let ghost before = intent_views(unbound@);
    let ghost after = intent_views(bound@);
    let mut rebound: Vec<DecisionReasonChain> = Vec::new();
    let mut index: usize = 0;
    proof {
        assert(all.take(0) =~= Seq::empty());
        assert(chain_views(rebound@) =~= Seq::empty());
        assert(before.take(unbound@.len() as int) =~= before);
    }
    while index < chains.len()
        invariant
            index <= chains.len(),
            bound@.len() == unbound@.len(),
            all == chain_views(chains@),
            before == intent_views(unbound@),
            before.take(unbound@.len() as int) == before,
            after == intent_views(bound@),
            rebound_chains(before, after, all.take(index as int)) == Ok::<
                Seq<ChainView>,
                RuntimeHostError,
            >(chain_views(rebound@)),
        decreases chains.len() - index,
    {
        let chain = &chains[index];
        let ghost taken = all.take(index + 1);
        proof {
            assert(taken.drop_last() =~= all.take(index as int));
            assert(taken.last() == chain@);
            if rebound_chains(before, after, taken) is Err {
                lemma_rebinding_stops_at_error(before, after, all, index + 1);
            }
        }
        let copy = match find_decision(unbound, unbound.len(), chain.decision_id.as_str()) {
            None => DecisionReasonChain {
                id: chain.id.clone(),
                decision_id: chain.decision_id.clone(),
                reasons: copy_reasons(&chain.reasons),
            },
            Some(at) => {
                if !same_text(chain.id.as_str(), unbound[at].reason_chain_id.as_str()) {
                    return Err(
                        fatal("procedure_reason_chain_identity_mismatch", "bind_policy_evaluation"),
                    );
                }
                DecisionReasonChain {
                    id: bound[at].reason_chain_id.clone(),
                    decision_id: bound[at].decision_id.clone(),
                    reasons: copy_reasons(&chain.reasons),
                }
            },
        };
        let ghost earlier = rebound@;
        rebound.push(copy);
        assert(chain_views(rebound@) =~= chain_views(earlier).push(copy@));
        index += 1;
    }
    assert(all.take(all.len() as int) =~= all);
    Ok(rebound)
}

fn every_intent_explained(intents: &Vec<DispatchIntent>, chains: &Vec<DecisionReasonChain>) -> (explained:
    bool)
    ensures
        explained == all_explained(intent_views(intents@), chain_views(chains@)),
{
    let ghost wanted = intent_views(intents@);
    let ghost given = chain_views(chains@);
    let mut index: usize = 0;
    while index < intents.len()
        invariant
            index <= intents.len(),
            wanted == intent_views(intents@),
            given == chain_views(chains@),
            forall|i: int| 0 <= i < index ==> is_explained(#[trigger] wanted[i], given),
        decreases intents.len() - index,
    {
        let intent = &intents[index];
        assert(wanted[index as int] == intent@);
        let mut found = false;
        let mut at: usize = 0;
        while at < chains.len() && !found
            invariant
                at <= chains.len(),
                given == chain_views(chains@),
                found ==> is_explained(intent@, given),
                !found ==> forall|j: int|
                    0 <= j < at ==> !explains(#[trigger] given[j], intent@),
            decreases chains.len() - at,
        {
            assert(given[at as int] == chains@[at as int]@);
            if same_text(chains[at].id.as_str(), intent.reason_chain_id.as_str()) && same_text(
                chains[at].decision_id.as_str(),
                intent.decision_id.as_str(),
            ) {
                assert(explains(given[at as int], intent@));
                found = true;
            }
            at += 1;
        }
        if !found {
            assert(!is_explained(wanted[index as int], given));
            return false;
        }
        index += 1;
    }
    true
}

/// What the manifest bound, it accepts: the intents of a bound evaluation are
/// bound as the manifest says.
pub proof fn law_bound_intents_are_valid(
    manifest: ProcedureManifest,
    intent: IntentView,
    operation: &'static str,
)
    ensures
        manifest.bound_intent(intent) matches Ok(bound) ==> manifest.intent_error(
            bound,
            operation,
        ) is None,
{
}

/// A bound intent is not bound again.
pub proof fn law_binding_happens_once(manifest: ProcedureManifest, intent: IntentView)
    ensures
        manifest.bound_intent(intent) matches Ok(bound) ==> manifest.bound_intent(bound) == Err::<
            IntentView,
            RuntimeHostError,
        >(bind_fatal("procedure_intent_already_bound")),
{
}

/// An intent is bound exactly when it is not bound yet and the manifest has its
/// procedure with its operation and its yield points.
pub proof fn law_binding_is_owed(manifest: ProcedureManifest, intent: IntentView)
    ensures
        manifest.bound_intent(intent) is Ok <==> intent.package_digest is None
            && intent.procedure_binding_digest is None && manifest.bindings@.contains_key(
            intent.procedure_ref,
        ) && manifest.bindings@[intent.procedure_ref].operation_id@ == intent.operation_id && texts(
            manifest.bindings@[intent.procedure_ref].yield_points@,
        ) == intent.yield_points,
{
}

/// A bound intent carries its procedure's package and binding, one new name
/// for its decision and its reasons, and is otherwise the same intent.
pub proof fn law_binding_keeps_the_intent(manifest: ProcedureManifest, intent: IntentView)
    ensures
        manifest.bound_intent(intent) matches Ok(bound) ==> bound == (IntentView {
            decision_id: bound.decision_id,
            reason_chain_id: bound.reason_chain_id,
            package_digest: Some(manifest.bindings@[intent.procedure_ref].package_digest@),
            procedure_binding_digest: Some(
                manifest.bindings@[intent.procedure_ref].binding_digest@,
            ),
            ..intent
        }),
        manifest.bound_intent(intent) matches Ok(bound) ==> exists|name: Seq<char>|
            bound.decision_id == "decision:"@ + name && bound.reason_chain_id == "reason:"@ + name,
{
    if manifest.bound_intent(intent) is Ok {
        let binding = manifest.bindings@[intent.procedure_ref];
        let name = bound_name(intent.decision_id, binding.binding_digest@);
        assert(manifest.bound_intent(intent)->Ok_0.decision_id == "decision:"@ + name);
    }
}

/// All intents of an evaluation are bound or none is: each is bound by itself,
/// in its place, and no two of them decide the same.
pub proof fn law_intents_are_bound_together(
    manifest: ProcedureManifest,
    intents: Seq<IntentView>,
    index: int,
)
    requires
        0 <= index < intents.len(),
    ensures
        manifest.bound_intents(intents) matches Ok(bound) ==> bound.len() == intents.len()
            && manifest.bound_intent(intents[index]) == Ok::<IntentView, RuntimeHostError>(
            bound[index],
        ),
        manifest.bound_intents(intents) is Ok ==> forall|other: int|
            0 <= other < index ==> (#[trigger] intents[other]).decision_id
                != intents[index].decision_id,
    decreases intents.len(),
{
    let earlier = intents.drop_last();
    if manifest.bound_intents(intents) is Ok {
        lemma_bound_intents_len(manifest, intents);
        if index < intents.len() - 1 {
            law_intents_are_bound_together(manifest, earlier, index);
            assert forall|other: int| 0 <= other < index implies (
            #[trigger] intents[other]).decision_id != intents[index].decision_id by {
                assert(earlier[other] == intents[other]);
            }
        } else {
            lemma_bound_intents_len(manifest, earlier);
            assert forall|other: int| 0 <= other < index implies (
            #[trigger] intents[other]).decision_id != intents[index].decision_id by {
                if intents[other].decision_id == intents.last().decision_id {
                    assert(earlier[other] == intents[other]);
                    assert(decides(intents.last().decision_id)(earlier[other]));
                    lemma_position(earlier, decides(intents.last().decision_id));
                }
            }
        }
    }
}

proof fn lemma_bound_intents_len(manifest: ProcedureManifest, intents: Seq<IntentView>)
    ensures
        manifest.bound_intents(intents) matches Ok(bound) ==> bound.len() == intents.len(),
    decreases intents.len(),
{
    if intents.len() > 0 {
        lemma_bound_intents_len(manifest, intents.drop_last());
    }
}

/// A bound evaluation explains each of its intents.
pub proof fn law_bound_intents_are_explained(
    manifest: ProcedureManifest,
    intents: Seq<IntentView>,
    chains: Seq<ChainView>,
    index: int,
)
    requires
        0 <= index < intents.len(),
    ensures
        manifest.bound_evaluation(intents, chains) matches Ok((bound, rebound)) ==> exists|j: int|
            0 <= j < rebound.len() && (#[trigger] rebound[j]).id == bound[index].reason_chain_id
                && rebound[j].decision_id == bound[index].decision_id,
{
    if manifest.bound_evaluation(intents, chains) is Ok {
        let (bound, rebound) = manifest.bound_evaluation(intents, chains)->Ok_0;
        lemma_bound_intents_len(manifest, intents);
        assert(is_explained(bound[index], rebound));
        let j = choose|j: int| 0 <= j < rebound.len() && explains(rebound[j], bound[index]);
        assert(rebound[j].id == bound[index].reason_chain_id);
    }
}

/// A procedure can be named by letters, digits, `.`, `_`, `-` and `:` only, in
/// at most 256 bytes.
pub proof fn law_names_are_plain(text: Seq<char>, index: int)
    requires
        name_valid(text),
        0 <= index < utf8(text).len(),
    ensures
        1 <= utf8(text).len() <= 256,
        ({
            let byte = utf8(text)[index];
            (48 <= byte && byte <= 57) || (65 <= byte && byte <= 90) || (97 <= byte && byte <= 122)
                || byte == 46 || byte == 95 || byte == 45 || byte == 58
        }),
{
}

/// A manifest accepts an intent exactly when the intent has the operation, the
/// yield points, the package and the binding of its procedure.
pub proof fn law_intent_must_match_its_procedure(
    manifest: ProcedureManifest,
    intent: IntentView,
    operation: &'static str,
)
    ensures
        manifest.intent_error(intent, operation) is None <==> manifest.bindings@.contains_key(
            intent.procedure_ref,
        ) && intent.operation_id == manifest.bindings@[intent.procedure_ref].operation_id@
            && intent.yield_points == texts(
            manifest.bindings@[intent.procedure_ref].yield_points@,
        ) && intent.package_digest == Some(
            manifest.bindings@[intent.procedure_ref].package_digest@,
        ) && intent.procedure_binding_digest == Some(
            manifest.bindings@[intent.procedure_ref].binding_digest@,
        ),
{
}

/// A reason chain is renamed with the intent that it explains, and one that
/// explains none stays as it is.
pub proof fn law_chain_follows_its_intent(
    unbound: Seq<IntentView>,
    bound: Seq<IntentView>,
    chain: ChainView,
    index: int,
)
    requires
        0 <= index < unbound.len(),
        unbound[index].decision_id == chain.decision_id,
        forall|other: int|
            0 <= other < unbound.len() && other != index ==> (#[trigger] unbound[other]).decision_id
                != chain.decision_id,
    ensures
        chain.id != unbound[index].reason_chain_id ==> rebound_chain(unbound, bound, chain) is Err,
        chain.id == unbound[index].reason_chain_id ==> rebound_chain(unbound, bound, chain) == Ok::<
            ChainView,
            RuntimeHostError,
        >(
            ChainView {
                id: bound[index].reason_chain_id,
                decision_id: bound[index].decision_id,
                ..chain
            },
        ),
{
    assert(decides(chain.decision_id)(unbound[index]));
    lemma_position(unbound, decides(chain.decision_id));
}

/// A binding is made exactly of a named procedure, a named operation, a digest
/// and named yield points.
pub proof fn law_bindings_are_made_of_names(
    procedure_ref: Seq<char>,
    package_digest: Seq<char>,
    operation_id: Seq<char>,
    yield_points: Seq<Seq<char>>,
)
    ensures
        binding_error(procedure_ref, package_digest, operation_id, yield_points) is None
            <==> name_valid(procedure_ref) && name_valid(operation_id) && digest_text_valid(
            package_digest,
        ) && (forall|i: int| 0 <= i < yield_points.len() ==> name_valid(#[trigger] yield_points[i])),
        binding_error(procedure_ref, package_digest, operation_id, yield_points) matches Some(error)
            ==> error.fatal,
{
}

} // verus!
