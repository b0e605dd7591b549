//! The kernel engine: command validation under capability-based access
//! control, commit of the runtime's delta under state invariants, clock
//! advancement, deterministic event materialisation, and ingestion of peer
//! events. Every mutation is all-or-nothing: a rejected command leaves the
//! state and both clocks exactly as they were.

use vstd::prelude::*;
use crate::types::AlgSuite;
use crate::primitives::{CID, CidBytes, ReplicaID, Capability, Command, Event, Entity, EntityHeader,
    EntityModel, copy_bytes};
use crate::vclock::{VClock, vc_merged, vc_entry, max_u64, canonical_entries};
use crate::crypto::{CryptoProvider, CryptoError, PlaceholderCryptoProvider};
use crate::command_traits::EncodedCmd;
use crate::error::{KernelError, msg_lamport_overflow, msg_signed_bytes_failure,
    msg_new_entity_exists, msg_version_monotonicity, msg_updated_entity_missing,
    msg_entity_lclock_mismatch, lamport_overflow_error, signed_bytes_failure_error,
    new_entity_exists_error, version_monotonicity_error, updated_entity_missing_error,
    entity_lclock_mismatch_error};
use crate::state::{StateDelta, SystemState};
use crate::runtime::{Runtime, DefaultRuntime};
use crate::digest::{get_event_hash_input, spec_event_hash_input};
use crate::ordering::cid_views;
use crate::rights;

verus! {

// ---------------------------------------------------------------------------
// Spec-level model of validation and commit.
// ---------------------------------------------------------------------------

/// Outcome of command validation: `Accepted`, or the first failing check in
/// the prescribed order.
pub enum ValidationOutcome {
    /// Every check passed.
    Accepted,
    /// The referenced capability is not in state.
    CapabilityNotFound,
    /// The command's suite tag denotes no known suite.
    UnsupportedSuite(u8),
    /// Command and capability disagree on the suite.
    SuiteMismatch,
    /// The capability's Lamport expiry has been reached.
    Expired,
    /// The payload's to-be-signed serialisation failed.
    SignedBytesFailed,
    /// The crypto provider rejected the signature.
    SignatureRejected(CryptoError),
    /// The capability's rights do not cover the payload's required rights.
    InsufficientRights,
    /// The command's proposed Lamport clock is behind the local clock.
    StaleLClock,
}

/// Validation of a command against the capability map and the current local
/// Lamport clock, check by check in the prescribed order: capability lookup,
/// suite-tag conversion, suite agreement, expiry, signature, rights, and
/// command clock.
pub open spec fn spec_validate<CP: CryptoProvider, C: EncodedCmd>(
    capabilities: Map<CidBytes, Capability>,
    provider: &CP,
    command: &Command<C>,
    current_lc: u64,
) -> ValidationOutcome {
    if !capabilities.contains_key(command.capability) {
        ValidationOutcome::CapabilityNotFound
    } else {
        let cap = capabilities[command.capability];
        match AlgSuite::spec_from_tag(command.alg_suite) {
            None => ValidationOutcome::UnsupportedSuite(command.alg_suite),
            Some(suite) => if command.alg_suite != cap.alg_suite {
                ValidationOutcome::SuiteMismatch
            } else if match cap.expiry_lc {
                Some(e) => current_lc >= e,
                None => false,
            } {
                ValidationOutcome::Expired
            } else {
                match command.payload.signed_bytes_spec(
                    command.id@,
                    suite,
                    command.replica@,
                    command.capability@,
                    command.lclock,
                ) {
                    None => ValidationOutcome::SignedBytesFailed,
                    Some(sb) => match provider.verify_spec(
                        sb,
                        command.signature@,
                        cap.holder@,
                        suite,
                    ) {
                        Err(ce) => ValidationOutcome::SignatureRejected(ce),
                        Ok(u) => if !rights::spec_sufficient(
                            cap.rights,
                            command.payload.required_rights_spec(),
                        ) {
                            ValidationOutcome::InsufficientRights
                        } else if command.lclock < current_lc {
                            ValidationOutcome::StaleLClock
                        } else {
                            ValidationOutcome::Accepted
                        },
                    },
                }
            },
        }
    }
}

/// The kernel error a validation outcome is reported as.
pub open spec fn outcome_error_matches(o: ValidationOutcome, e: KernelError) -> bool {
    match o {
        ValidationOutcome::Accepted => false,
        ValidationOutcome::CapabilityNotFound => e == KernelError::CapabilityNotFound,
        ValidationOutcome::UnsupportedSuite(t) => e == KernelError::Crypto(
            CryptoError::UnsupportedAlgorithmSuite(t),
        ),
        ValidationOutcome::SuiteMismatch => e == KernelError::AlgorithmSuiteMismatch,
        ValidationOutcome::Expired => e == KernelError::CapabilityExpired,
        ValidationOutcome::SignedBytesFailed => e matches KernelError::Other(m) && m@
            == msg_signed_bytes_failure(),
        ValidationOutcome::SignatureRejected(ce) => e == KernelError::Crypto(ce),
        ValidationOutcome::InsufficientRights => e == KernelError::InsufficientRights,
        ValidationOutcome::StaleLClock => e == KernelError::InvalidCommandLClock,
    }
}

/// The Lamport clock of the event a command commits:
/// `max(command.lclock, local + 1)`.
pub open spec fn spec_lclock_new(cmd_lclock: u64, local_lc: u64) -> u64
    recommends
        local_lc < u64::MAX,
{
    if cmd_lclock >= local_lc + 1 {
        cmd_lclock
    } else {
        (local_lc + 1) as u64
    }
}

/// The mathematical values of a delta's entities.
pub open spec fn delta_models(s: Seq<Entity<Vec<u8>>>) -> Seq<EntityModel> {
    s.map_values(|e: Entity<Vec<u8>>| e@)
}

/// Entity models with their Lamport stamp overwritten by the kernel.
pub open spec fn stamped_models(s: Seq<Entity<Vec<u8>>>, lclock_new: u64) -> Seq<EntityModel> {
    s.map_values(
        |e: Entity<Vec<u8>>|
            EntityModel {
                header: EntityHeader {
                    id: e.header.id,
                    version: e.header.version,
                    lclock: lclock_new,
                    parent: e.header.parent,
                },
                body: e.body@,
            },
    )
}

/// The identifiers of a sequence of entity models, in order.
pub open spec fn model_ids(s: Seq<EntityModel>) -> Seq<CidBytes> {
    s.map_values(|m: EntityModel| m.header.id)
}

/// The state invariant a delta can violate, in check order.
pub enum DeltaIssue {
    /// A new entity's identifier already exists in state.
    NewExists,
    /// An updated entity has no prior version in state.
    UpdatedMissing,
    /// An updated entity's version is not the prior version plus one.
    VersionSkew,
    /// A delta entity's Lamport stamp differs from the event's.
    LclockMismatch,
}

/// The first existence or version problem among the updated entities, in
/// order.
pub open spec fn first_upd_issue(
    entities: Map<CidBytes, EntityModel>,
    upds: Seq<EntityModel>,
) -> Option<DeltaIssue>
    decreases upds.len(),
{
    if upds.len() == 0 {
        None
    } else if !entities.contains_key(upds[0].header.id) {
        Some(DeltaIssue::UpdatedMissing)
    } else if upds[0].header.version != entities[upds[0].header.id].header.version + 1 {
        Some(DeltaIssue::VersionSkew)
    } else {
        first_upd_issue(entities, upds.drop_first())
    }
}

/// The first invariant a delta violates against the entity map, if any:
/// fresh identifiers for new entities, then existence and exact version
/// succession for updated entities, then agreement of every entity's
/// Lamport stamp with the event's.
pub open spec fn delta_issue(
    entities: Map<CidBytes, EntityModel>,
    news: Seq<EntityModel>,
    upds: Seq<EntityModel>,
    lclock_new: u64,
) -> Option<DeltaIssue> {
    if exists|i: int| 0 <= i < news.len() && entities.contains_key((#[trigger] news[i]).header.id) {
        Some(DeltaIssue::NewExists)
    } else if first_upd_issue(entities, upds) is Some {
        first_upd_issue(entities, upds)
    } else if exists|i: int| 0 <= i < news.len() && (#[trigger] news[i]).header.lclock != lclock_new {
        Some(DeltaIssue::LclockMismatch)
    } else if exists|i: int| 0 <= i < upds.len() && (#[trigger] upds[i]).header.lclock != lclock_new {
        Some(DeltaIssue::LclockMismatch)
    } else {
        None
    }
}

/// The message each delta issue is reported with.
pub open spec fn issue_msg(i: DeltaIssue) -> Seq<char> {
    match i {
        DeltaIssue::NewExists => msg_new_entity_exists(),
        DeltaIssue::UpdatedMissing => msg_updated_entity_missing(),
        DeltaIssue::VersionSkew => msg_version_monotonicity(),
        DeltaIssue::LclockMismatch => msg_entity_lclock_mismatch(),
    }
}

/// The entity map after materialising a delta: every entity inserted under
/// its identifier, new entities first, then updated entities, in order.
pub open spec fn insert_models(
    m: Map<CidBytes, EntityModel>,
    s: Seq<EntityModel>,
) -> Map<CidBytes, EntityModel>
    decreases s.len(),
{
    if s.len() == 0 {
        m
    } else {
        insert_models(m, s.drop_last()).insert(s.last().header.id, s.last())
    }
}

/// The vector clock stamped onto an event: the local clock, merged with the
/// command's clock when it carries one, with the committing replica's entry
/// set to the event's Lamport clock.
pub open spec fn spec_event_vclock(
    local_vc: Map<crate::primitives::ReplicaIdBytes, u64>,
    cmd_vclock: Option<VClock>,
    replica: crate::primitives::ReplicaIdBytes,
    lclock_new: u64,
) -> Map<crate::primitives::ReplicaIdBytes, u64> {
    (match cmd_vclock {
        Some(cv) => vc_merged(local_vc, cv@),
        None => local_vc,
    }).insert(replica, lclock_new)
}

/// Which keys a fold of inserts adds, and what it leaves alone: a key not
/// among the inserted identifiers keeps its old binding, and a key among
/// them is bound to one of the inserted models.
proof fn lemma_insert_models_frame(m: Map<CidBytes, EntityModel>, s: Seq<EntityModel>, k: CidBytes)
    ensures
        insert_models(m, s).contains_key(k) <==> m.contains_key(k) || exists|i: int|
            0 <= i < s.len() && (#[trigger] s[i]).header.id == k,
        (forall|i: int| 0 <= i < s.len() ==> (#[trigger] s[i]).header.id != k) ==> (
        insert_models(m, s).contains_key(k) ==> m.contains_key(k) && insert_models(m, s)[k]
            == m[k]),
        (exists|i: int| 0 <= i < s.len() && (#[trigger] s[i]).header.id == k) ==> exists|i: int|
            0 <= i < s.len() && (#[trigger] s[i]).header.id == k && insert_models(m, s)[k] == s[i],
    decreases s.len(),
{
    if s.len() > 0 {
        lemma_insert_models_frame(m, s.drop_last(), k);
        assert forall|i: int| 0 <= i < s.drop_last().len() implies s.drop_last()[i] == s[i] by {}
        if s.last().header.id == k {
            assert(s[s.len() - 1].header.id == k && insert_models(m, s)[k] == s[s.len() - 1]);
        } else {
            if exists|i: int| 0 <= i < s.len() && (#[trigger] s[i]).header.id == k {
                let i = choose|i: int| 0 <= i < s.len() && (#[trigger] s[i]).header.id == k;
                assert(i < s.len() - 1);
                assert(s.drop_last()[i].header.id == k);
            }
        }
    }
}

/// Event-stamp coherence: after a delta whose entities all carry the
/// event's Lamport stamp is committed, every entity the event lists is
/// present in the state with exactly that stamp.
pub proof fn lemma_committed_entities_stamped(
    m: Map<CidBytes, EntityModel>,
    news: Seq<EntityModel>,
    upds: Seq<EntityModel>,
    lclock_new: u64,
)
    requires
        forall|i: int| 0 <= i < news.len() ==> (#[trigger] news[i]).header.lclock == lclock_new,
        forall|i: int| 0 <= i < upds.len() ==> (#[trigger] upds[i]).header.lclock == lclock_new,
    ensures
        forall|k: CidBytes| #![trigger insert_models(insert_models(m, news), upds).contains_key(k)]
            model_ids(news).contains(k) || model_ids(upds).contains(k) ==> {
                let committed = insert_models(insert_models(m, news), upds);
                &&& committed.contains_key(k)
                &&& committed[k].header.lclock == lclock_new
            },
{
    let mid = insert_models(m, news);
    let committed = insert_models(mid, upds);
    assert forall|k: CidBytes| model_ids(news).contains(k) || model_ids(upds).contains(k)
        implies #[trigger] committed.contains_key(k) && committed[k].header.lclock == lclock_new by {
        lemma_insert_models_frame(m, news, k);
        lemma_insert_models_frame(mid, upds, k);
        if exists|i: int| 0 <= i < upds.len() && (#[trigger] upds[i]).header.id == k {
            let i = choose|i: int|
                0 <= i < upds.len() && (#[trigger] upds[i]).header.id == k && committed[k]
                    == upds[i];
        } else {
            assert(model_ids(upds).contains(k) ==> exists|i: int|
                0 <= i < upds.len() && (#[trigger] upds[i]).header.id == k) by {
                if model_ids(upds).contains(k) {
                    let i = choose|i: int|
                        0 <= i < model_ids(upds).len() && model_ids(upds)[i] == k;
                    assert(upds[i].header.id == k);
                }
            }
            assert(model_ids(news).contains(k));
            let i = choose|i: int| 0 <= i < model_ids(news).len() && model_ids(news)[i] == k;
            assert(news[i].header.id == k);
            let j = choose|j: int|
                0 <= j < news.len() && (#[trigger] news[j]).header.id == k && mid[k] == news[j];
            assert(committed[k] == mid[k]);
        }
    }
}

/// Capability expiry: a command referencing a capability with Lamport
/// expiry `expiry` passes validation only while the local clock is below
/// it, and once the local clock has reached it (the earlier checks
/// passing), validation fails exactly with the expiry outcome.
pub proof fn lemma_capability_expiry<CP: CryptoProvider, C: EncodedCmd>(
    capabilities: Map<CidBytes, Capability>,
    provider: &CP,
    command: &Command<C>,
    current_lc: u64,
    expiry: u64,
)
    requires
        capabilities.contains_key(command.capability),
        capabilities[command.capability].expiry_lc == Some(expiry),
    ensures
        spec_validate(capabilities, provider, command, current_lc) is Accepted ==> current_lc
            < expiry,
        (current_lc >= expiry && AlgSuite::spec_from_tag(command.alg_suite) is Some
            && command.alg_suite == capabilities[command.capability].alg_suite) ==> spec_validate(
            capabilities,
            provider,
            command,
            current_lc,
        ) == ValidationOutcome::Expired,
{
}

/// Event-identifier determinism: under any one provider and suite, two
/// events built from the same identity fields, the same entity-identifier
/// multisets (in any order) and the same vector-clock value (however
/// assembled) hash to the same identifier.
pub proof fn lemma_event_id_deterministic<CP: CryptoProvider>(
    provider: &CP,
    suite: AlgSuite,
    caused_by_command_id: Seq<u8>,
    event_lclock: u64,
    event_replica_id: Seq<u8>,
    event_alg_suite_tag: u8,
    new1: Seq<Seq<u8>>,
    new2: Seq<Seq<u8>>,
    upd1: Seq<Seq<u8>>,
    upd2: Seq<Seq<u8>>,
    vc1: &VClock,
    vc2: &VClock,
    reserved_bytes: Seq<u8>,
)
    requires
        new1.to_multiset() == new2.to_multiset(),
        upd1.to_multiset() == upd2.to_multiset(),
        vc1.wf(),
        vc2.wf(),
        vc1@ == vc2@,
    ensures
        provider.hash_spec(
            spec_event_hash_input(
                caused_by_command_id,
                event_lclock,
                event_replica_id,
                event_alg_suite_tag,
                new1,
                upd1,
                vc1.spec_entries(),
                reserved_bytes,
            ),
            suite,
        ) == provider.hash_spec(
            spec_event_hash_input(
                caused_by_command_id,
                event_lclock,
                event_replica_id,
                event_alg_suite_tag,
                new2,
                upd2,
                vc2.spec_entries(),
                reserved_bytes,
            ),
            suite,
        ),
{
    crate::digest::lemma_event_hash_input_deterministic(
        caused_by_command_id,
        event_lclock,
        event_replica_id,
        event_alg_suite_tag,
        new1,
        new2,
        upd1,
        upd2,
        vc1,
        vc2,
        reserved_bytes,
    );
}

// ---------------------------------------------------------------------------
// The kernel.
// ---------------------------------------------------------------------------

/// A replica's kernel: the authoritative state, both logical clocks, the
/// replica identity, and the pluggable runtime and crypto provider.
#[derive(Debug, Clone)]
pub struct Kernel<CP, R> {
    /// The local Lamport clock.
    pub local_lc: u64,
    /// The local vector clock.
    pub local_vc: VClock,
    /// The authoritative state.
    pub state: SystemState,
    /// This kernel instance's replica identifier.
    pub replica_id: ReplicaID,
    /// The domain runtime.
    pub runtime: R,
    /// The cryptographic provider.
    pub crypto_provider: CP,
}

impl<CP: CryptoProvider, R> Kernel<CP, R> {
    /// Well-formed: the vector clock and both state maps keep their
    /// invariants, and the event log is ordered by Lamport clock, never
    /// ahead of the local clock.
    pub open spec fn wf(&self) -> bool {
        &&& self.local_vc.wf()
        &&& self.state.wf()
        &&& forall|i: int| 0 <= i < self.state.event_log@.len()
            ==> (#[trigger] self.state.event_log@[i]).lclock <= self.local_lc
        &&& forall|i: int, j: int| 0 <= i < j < self.state.event_log@.len()
            ==> (#[trigger] self.state.event_log@[i]).lclock <= (#[trigger] self.state.event_log@[j]).lclock
    }

    /// Creates a kernel with clocks at zero and an empty state.
    pub fn new(replica_id: ReplicaID, runtime: R, crypto_provider: CP) -> (r: Kernel<CP, R>)
        ensures
            r.wf(),
            r.local_lc == 0,
            r.local_vc@ == Map::<crate::primitives::ReplicaIdBytes, u64>::empty(),
            r.state.capabilities@ == Map::<CidBytes, Capability>::empty(),
            r.state.entities@ == Map::<CidBytes, EntityModel>::empty(),
            r.state.event_log@ == Seq::<Event>::empty(),
            r.replica_id == replica_id,
            r.runtime == runtime,
            r.crypto_provider == crypto_provider,
    {
        Kernel {
            local_lc: 0,
            local_vc: VClock::new(),
            state: SystemState::new(),
            replica_id,
            runtime,
            crypto_provider,
        }
    }

    /// Derives a content identifier by hashing the data under the suite the
    /// byte tag denotes.
    fn generate_cid(&self, data: &[u8], alg_suite_tag: u8) -> (r: Result<CID, KernelError>)
        ensures
            match AlgSuite::spec_from_tag(alg_suite_tag) {
                None => r == Result::<CID, KernelError>::Err(
                    KernelError::Crypto(CryptoError::UnsupportedAlgorithmSuite(alg_suite_tag)),
                ),
                Some(suite) => match self.crypto_provider.hash_spec(data@, suite) {
                    Ok(h) => r matches Ok(c) && c@ == h,
                    Err(ce) => r == Result::<CID, KernelError>::Err(KernelError::Crypto(ce)),
                },
            },
    {
        let suite = match AlgSuite::from_tag(alg_suite_tag) {
            Some(s) => s,
            None => {
                return Err(
                    KernelError::Crypto(CryptoError::UnsupportedAlgorithmSuite(alg_suite_tag)),
                );
            },
        };
        match self.crypto_provider.hash(data, suite) {
            Ok(h) => Ok(CidBytes(h)),
            Err(ce) => Err(KernelError::Crypto(ce)),
        }
    }

    /// Verifies the command's signature under the capability holder's key:
    /// the payload's to-be-signed bytes must verify under the declared
    /// suite.
    fn verify_signature<C: EncodedCmd>(
        &self,
        command: &Command<C>,
        cap: &Capability,
        suite: AlgSuite,
    ) -> (r: Result<(), KernelError>)
        ensures
            match command.payload.signed_bytes_spec(
                command.id@,
                suite,
                command.replica@,
                command.capability@,
                command.lclock,
            ) {
                None => r matches Err(e) && e matches KernelError::Other(m) && m@
                    == msg_signed_bytes_failure(),
                Some(sb) => match self.crypto_provider.verify_spec(
                    sb,
                    command.signature@,
                    cap.holder@,
                    suite,
                ) {
                    Ok(u) => r is Ok,
                    Err(ce) => r == Result::<(), KernelError>::Err(KernelError::Crypto(ce)),
                },
            },
    {
        let signed_bytes = match command.payload.to_signed_bytes(
            &command.id,
            suite,
            &command.replica,
            &command.capability,
            command.lclock,
        ) {
            Ok(b) => b,
            Err(_) => {
                return Err(signed_bytes_failure_error());
            },
        };
        match self.crypto_provider.verify(
            signed_bytes.as_slice(),
            &command.signature,
            &cap.holder,
            suite,
        ) {
            Ok(u) => Ok(()),
            Err(ce) => Err(KernelError::Crypto(ce)),
        }
    }

    /// Decides whether the capability's rights cover the payload's required
    /// rights.
    fn rights_sufficient<T: EncodedCmd>(&self, capability: &Capability, cmd_payload: &T) -> (r:
        Result<(), KernelError>)
        ensures
            r is Ok <==> rights::spec_sufficient(
                capability.rights,
                cmd_payload.required_rights_spec(),
            ),
            r is Err ==> r == Result::<(), KernelError>::Err(KernelError::InsufficientRights),
    {
        if rights::sufficient(capability.rights, cmd_payload.required_rights()) {
            Ok(())
        } else {
            Err(KernelError::InsufficientRights)
        }
    }

    /// Validates a command against the current state and the given Lamport
    /// clock, in the prescribed order; returns the error of the first
    /// failing check and succeeds exactly when every check passes.
    pub fn validate_command<C: EncodedCmd>(&self, command: &Command<C>, current_lc: u64) -> (r:
        Result<(), KernelError>)
        requires
            self.state.wf(),
        ensures
            r is Ok <==> spec_validate(
                self.state.capabilities@,
                &self.crypto_provider,
                command,
                current_lc,
            ) is Accepted,
            r matches Err(e) ==> outcome_error_matches(
                spec_validate(self.state.capabilities@, &self.crypto_provider, command, current_lc),
                e,
            ),
    {
        let cap = match self.state.capabilities.get(&command.capability) {
            Some(c) => *c,
            None => {
                return Err(KernelError::CapabilityNotFound);
            },
        };
        let suite = match AlgSuite::from_tag(command.alg_suite) {
            Some(s) => s,
            None => {
                return Err(
                    KernelError::Crypto(CryptoError::UnsupportedAlgorithmSuite(command.alg_suite)),
                );
            },
        };
        if command.alg_suite != cap.alg_suite {
            return Err(KernelError::AlgorithmSuiteMismatch);
        }
        match cap.expiry_lc {
            Some(expiry) => {
                if current_lc >= expiry {
                    return Err(KernelError::CapabilityExpired);
                }
            },
            None => {},
        }
        match self.verify_signature(command, &cap, suite) {
            Ok(u) => {},
            Err(e) => {
                return Err(e);
            },
        }
        match self.rights_sufficient(&cap, &command.payload) {
            Ok(u) => {},
            Err(e) => {
                return Err(e);
            },
        }
        if command.lclock < current_lc {
            return Err(KernelError::InvalidCommandLClock);
        }
        Ok(())
    }

    /// Checks a delta against the state invariants without mutating
    /// anything: new entities must be fresh, updated entities must step
    /// their version by exactly one, and every entity must carry the
    /// event's Lamport stamp. Reports the first violated invariant.
    fn check_delta(&self, delta: &StateDelta, lclock_new: u64) -> (r: Result<(), KernelError>)
        requires
            self.state.wf(),
        ensures
            ({
                let m = self.state.entities@;
                let news = delta_models(delta.new_entities@);
                let upds = delta_models(delta.updated_entities@);
                match delta_issue(m, news, upds, lclock_new) {
                    None => r is Ok,
                    Some(issue) => r matches Err(e) && (e matches KernelError::InvariantViolation(
                        msg,
                    ) && msg@ == issue_msg(issue)),
                }
            }),
    {
        let ghost m = self.state.entities@;
        let ghost news = delta_models(delta.new_entities@);
        let ghost upds = delta_models(delta.updated_entities@);
        let n_new = delta.new_entities.len();
        let n_upd = delta.updated_entities.len();

        // New entities must not already exist.
        let mut i: usize = 0;
        while i < n_new
            invariant
                0 <= i <= n_new,
                self.state.wf(),
                n_new == delta.new_entities@.len(),
                m == self.state.entities@,
                news == delta_models(delta.new_entities@),
                forall|k: int| 0 <= k < i ==> !m.contains_key((#[trigger] news[k]).header.id),
            decreases n_new - i,
        {
            if self.state.entities.contains_key(&delta.new_entities[i].header.id) {
                proof {
                    assert(news[i as int].header.id == delta.new_entities@[i as int].header.id);
                }
                return Err(new_entity_exists_error());
            }
            i = i + 1;
        }

        // Updated entities must exist with the successor version.
        proof {
            assert(upds.skip(0) =~= upds);
        }
        let mut j: usize = 0;
        while j < n_upd
            invariant
                0 <= j <= n_upd,
                self.state.wf(),
                n_upd == delta.updated_entities@.len(),
                m == self.state.entities@,
                news == delta_models(delta.new_entities@),
                upds == delta_models(delta.updated_entities@),
                forall|x: int| 0 <= x < news.len() ==> !m.contains_key(
                    (#[trigger] news[x]).header.id,
                ),
                first_upd_issue(m, upds.skip(j as int)) == first_upd_issue(m, upds),
            decreases n_upd - j,
        {
            let upd = &delta.updated_entities[j];
            proof {
                assert(upds.skip(j as int)[0] == upds[j as int]);
                assert(upds[j as int] == delta.updated_entities@[j as int]@);
            }
            match self.state.entities.get(&upd.header.id) {
                Some(prev) => {
                    if prev.header.version == u64::MAX || upd.header.version != prev.header.version
                        + 1 {
                        proof {
                            assert(first_upd_issue(m, upds.skip(j as int)) == Some(
                                DeltaIssue::VersionSkew,
                            ));
                        }
                        return Err(version_monotonicity_error());
                    }
                },
                None => {
                    proof {
                        assert(first_upd_issue(m, upds.skip(j as int)) == Some(
                            DeltaIssue::UpdatedMissing,
                        ));
                    }
                    return Err(updated_entity_missing_error());
                },
            }
            proof {
                assert(upds.skip(j as int).drop_first() =~= upds.skip(j + 1));
            }
            j = j + 1;
        }
        proof {
            assert(upds.skip(n_upd as int) =~= Seq::<EntityModel>::empty());
            assert(first_upd_issue(m, upds) is None);
        }

        // Every entity must carry the event's Lamport stamp.
        let mut k: usize = 0;
        while k < n_new
            invariant
                0 <= k <= n_new,
                self.state.wf(),
                n_new == delta.new_entities@.len(),
                m == self.state.entities@,
                news == delta_models(delta.new_entities@),
                upds == delta_models(delta.updated_entities@),
                forall|x: int| 0 <= x < news.len() ==> !m.contains_key(
                    (#[trigger] news[x]).header.id,
                ),
                first_upd_issue(m, upds) is None,
                forall|x: int| 0 <= x < k ==> (#[trigger] news[x]).header.lclock == lclock_new,
            decreases n_new - k,
        {
            if delta.new_entities[k].header.lclock != lclock_new {
                proof {
                    assert(news[k as int].header.lclock != lclock_new);
                }
                return Err(entity_lclock_mismatch_error());
            }
            k = k + 1;
        }
        let mut l: usize = 0;
        while l < n_upd
            invariant
                0 <= l <= n_upd,
                self.state.wf(),
                n_upd == delta.updated_entities@.len(),
                m == self.state.entities@,
                news == delta_models(delta.new_entities@),
                upds == delta_models(delta.updated_entities@),
                forall|x: int| 0 <= x < news.len() ==> !m.contains_key(
                    (#[trigger] news[x]).header.id,
                ),
                first_upd_issue(m, upds) is None,
                forall|x: int| 0 <= x < news.len() ==> (#[trigger] news[x]).header.lclock
                    == lclock_new,
                forall|x: int| 0 <= x < l ==> (#[trigger] upds[x]).header.lclock == lclock_new,
            decreases n_upd - l,
        {
            if delta.updated_entities[l].header.lclock != lclock_new {
                proof {
                    assert(upds[l as int].header.lclock != lclock_new);
                }
                return Err(entity_lclock_mismatch_error());
            }
            l = l + 1;
        }
        proof {
            assert(delta_issue(m, news, upds, lclock_new) is None);
        }
        Ok(())
    }

    /// Commits a delta into the state under the invariants: new entities
    /// must be fresh, updated entities must step their version by exactly
    /// one, and every entity must carry the event's Lamport stamp. On any
    /// violation the state is left untouched and the violated invariant is
    /// reported; on success every entity is inserted under its identifier.
    pub fn append_delta(&mut self, delta: &StateDelta, lclock_new: u64) -> (r: Result<
        (),
        KernelError,
    >)
        requires
            old(self).state.wf(),
        ensures
            final(self).state.wf(),
            final(self).local_lc == old(self).local_lc,
            final(self).local_vc == old(self).local_vc,
            final(self).replica_id == old(self).replica_id,
            final(self).runtime == old(self).runtime,
            final(self).crypto_provider == old(self).crypto_provider,
            final(self).state.capabilities == old(self).state.capabilities,
            final(self).state.event_log == old(self).state.event_log,
            ({
                let m = old(self).state.entities@;
                let news = delta_models(delta.new_entities@);
                let upds = delta_models(delta.updated_entities@);
                match delta_issue(m, news, upds, lclock_new) {
                    None => r is Ok && final(self).state.entities@ == insert_models(
                        insert_models(m, news),
                        upds,
                    ),
                    Some(issue) => {
                        &&& *final(self) == *old(self)
                        &&& r matches Err(e) && (e matches KernelError::InvariantViolation(msg)
                            && msg@ == issue_msg(issue))
                    },
                }
            }),
    {
        let ghost m = self.state.entities@;
        let ghost news = delta_models(delta.new_entities@);
        let ghost upds = delta_models(delta.updated_entities@);
        let n_new = delta.new_entities.len();
        let n_upd = delta.updated_entities.len();
        match self.check_delta(delta, lclock_new) {
            Ok(u) => {},
            Err(e) => {
                return Err(e);
            },
        }

        // All checks passed: materialise the delta into the state.
        let mut p: usize = 0;
        while p < n_new
            invariant
                0 <= p <= n_new,
                self.state.wf(),
                self.local_lc == old(self).local_lc,
                self.local_vc == old(self).local_vc,
                self.replica_id == old(self).replica_id,
                self.runtime == old(self).runtime,
                self.crypto_provider == old(self).crypto_provider,
                self.state.capabilities == old(self).state.capabilities,
                self.state.event_log == old(self).state.event_log,
                n_new == delta.new_entities@.len(),
                news == delta_models(delta.new_entities@),
                self.state.entities@ == insert_models(m, news.take(p as int)),
            decreases n_new - p,
        {
            let ent = &delta.new_entities[p];
            self.state.entities.insert(ent.header.id, ent.duplicate());
            proof {
                assert(news.take(p + 1).drop_last() =~= news.take(p as int));
                assert(news.take(p + 1).last() == news[p as int]);
                assert(news[p as int] == delta.new_entities@[p as int]@);
            }
            p = p + 1;
        }
        proof {
            assert(news.take(n_new as int) =~= news);
        }
        let mut q: usize = 0;
        while q < n_upd
            invariant
                0 <= q <= n_upd,
                self.state.wf(),
                self.local_lc == old(self).local_lc,
                self.local_vc == old(self).local_vc,
                self.replica_id == old(self).replica_id,
                self.runtime == old(self).runtime,
                self.crypto_provider == old(self).crypto_provider,
                self.state.capabilities == old(self).state.capabilities,
                self.state.event_log == old(self).state.event_log,
                n_upd == delta.updated_entities@.len(),
                upds == delta_models(delta.updated_entities@),
                self.state.entities@ == insert_models(insert_models(m, news), upds.take(q as int)),
            decreases n_upd - q,
        {
            let ent = &delta.updated_entities[q];
            self.state.entities.insert(ent.header.id, ent.duplicate());
            proof {
                assert(upds.take(q + 1).drop_last() =~= upds.take(q as int));
                assert(upds.take(q + 1).last() == upds[q as int]);
                assert(upds[q as int] == delta.updated_entities@[q as int]@);
            }
            q = q + 1;
        }
        proof {
            assert(upds.take(n_upd as int) =~= upds);
        }
        Ok(())
    }

    /// Builds the event for a committed delta: serialises the canonical
    /// hash-input layout, hashes it under the command's suite, and
    /// assembles the event with an empty reserved region.
    fn materialise_event<C: EncodedCmd>(
        &self,
        command: &Command<C>,
        delta: &StateDelta,
        lclock_new: u64,
        vc_new: VClock,
    ) -> (r: Result<Event, KernelError>)
        ensures
            ({
                let new_ids = model_ids(delta_models(delta.new_entities@));
                let upd_ids = model_ids(delta_models(delta.updated_entities@));
                let input = spec_event_hash_input(
                    command.id@,
                    lclock_new,
                    self.replica_id@,
                    command.alg_suite,
                    cid_views(new_ids),
                    cid_views(upd_ids),
                    vc_new.spec_entries(),
                    Seq::<u8>::empty(),
                );
                match AlgSuite::spec_from_tag(command.alg_suite) {
                    None => r == Result::<Event, KernelError>::Err(
                        KernelError::Crypto(
                            CryptoError::UnsupportedAlgorithmSuite(command.alg_suite),
                        ),
                    ),
                    Some(suite) => match self.crypto_provider.hash_spec(input, suite) {
                        Err(ce) => r == Result::<Event, KernelError>::Err(KernelError::Crypto(ce)),
                        Ok(h) => r matches Ok(e) && e.id@ == h && e.alg_suite == command.alg_suite
                            && e.replica == self.replica_id && e.caused_by == command.id && e.lclock
                            == lclock_new && e.vclock == vc_new && e.new_entities@ == new_ids
                            && e.updated_entities@ == upd_ids && e.reserved@ == Seq::<u8>::empty(),
                    },
                }
            }),
    {
        let mut new_cids: Vec<CID> = Vec::new();
        let n_new = delta.new_entities.len();
        let mut i: usize = 0;
        while i < n_new
            invariant
                0 <= i <= n_new,
                n_new == delta.new_entities@.len(),
                new_cids@ == model_ids(delta_models(delta.new_entities@)).take(i as int),
            decreases n_new - i,
        {
            new_cids.push(delta.new_entities[i].header.id);
            proof {
                assert(new_cids@ =~= model_ids(delta_models(delta.new_entities@)).take(i + 1));
            }
            i = i + 1;
        }
        let mut updated_cids: Vec<CID> = Vec::new();
        let n_upd = delta.updated_entities.len();
        let mut j: usize = 0;
        while j < n_upd
            invariant
                0 <= j <= n_upd,
                n_upd == delta.updated_entities@.len(),
                updated_cids@ == model_ids(delta_models(delta.updated_entities@)).take(j as int),
            decreases n_upd - j,
        {
            updated_cids.push(delta.updated_entities[j].header.id);
            proof {
                assert(updated_cids@ =~= model_ids(delta_models(delta.updated_entities@)).take(
                    j + 1,
                ));
            }
            j = j + 1;
        }
        proof {
            assert(new_cids@ =~= model_ids(delta_models(delta.new_entities@)));
            assert(updated_cids@ =~= model_ids(delta_models(delta.updated_entities@)));
        }

        // The reserved region of a freshly materialised event is empty.
        let reserved_for_new_event: Vec<u8> = Vec::new();
        proof {
            assert(reserved_for_new_event@ =~= Seq::<u8>::empty());
        }

        let input = get_event_hash_input(
            &command.id,
            lclock_new,
            &self.replica_id,
            command.alg_suite,
            new_cids.as_slice(),
            updated_cids.as_slice(),
            &vc_new,
            reserved_for_new_event.as_slice(),
        );
        let event_id = match self.generate_cid(input.as_slice(), command.alg_suite) {
            Ok(c) => c,
            Err(e) => {
                return Err(e);
            },
        };
        Ok(
            Event {
                id: event_id,
                alg_suite: command.alg_suite,
                replica: self.replica_id,
                caused_by: command.id,
                lclock: lclock_new,
                vclock: vc_new,
                new_entities: new_cids,
                updated_entities: updated_cids,
                reserved: reserved_for_new_event,
            },
        )
    }

    /// Applies a command: validates it, runs the runtime, commits the delta
    /// under the invariants, advances both clocks, and appends the
    /// materialised event to the log. All-or-nothing: on any error the
    /// state and both clocks are exactly as before the call.
    pub fn apply<C: EncodedCmd>(&mut self, command: &Command<C>) -> (r: Result<Event, KernelError>)
        where R: Runtime<CP, C>
        requires
            old(self).wf(),
            command.vclock matches Some(cv) ==> cv.wf(),
        ensures
            final(self).wf(),
            final(self).replica_id == old(self).replica_id,
            final(self).runtime == old(self).runtime,
            final(self).crypto_provider == old(self).crypto_provider,
            r is Err ==> *final(self) == *old(self),
            old(self).local_lc == u64::MAX ==> (r matches Err(e) && (e matches KernelError::Other(
                m,
            ) && m@ == msg_lamport_overflow())),
            old(self).local_lc < u64::MAX ==> ({
                let k = *old(self);
                let outcome = spec_validate(
                    k.state.capabilities@,
                    &k.crypto_provider,
                    command,
                    k.local_lc,
                );
                if !(outcome is Accepted) {
                    r matches Err(e) && outcome_error_matches(outcome, e)
                } else {
                    let lclock_new = spec_lclock_new(command.lclock, k.local_lc);
                    match k.runtime.execute_spec(&k.state, command) {
                        Err(re) => r == Result::<Event, KernelError>::Err(re),
                        Ok(p) => {
                            let news = stamped_models(p.0, lclock_new);
                            let upds = stamped_models(p.1, lclock_new);
                            let vc_map = spec_event_vclock(
                                k.local_vc@,
                                command.vclock,
                                k.replica_id,
                                lclock_new,
                            );
                            match delta_issue(k.state.entities@, news, upds, lclock_new) {
                                Some(issue) => r matches Err(e) && e matches
                                    KernelError::InvariantViolation(msg) && msg@ == issue_msg(
                                    issue,
                                ),
                                None => {
                                    let suite = AlgSuite::spec_from_tag(command.alg_suite)->Some_0;
                                    match k.crypto_provider.hash_spec(
                                        spec_event_hash_input(
                                            command.id@,
                                            lclock_new,
                                            k.replica_id@,
                                            command.alg_suite,
                                            cid_views(model_ids(news)),
                                            cid_views(model_ids(upds)),
                                            canonical_entries(vc_map),
                                            Seq::<u8>::empty(),
                                        ),
                                        suite,
                                    ) {
                                        Err(ce) => r == Result::<Event, KernelError>::Err(
                                            KernelError::Crypto(ce),
                                        ),
                                        Ok(h) => {
                                            &&& r matches Ok(e)
                                            &&& r->Ok_0.id@ == h
                                            &&& r->Ok_0.alg_suite == command.alg_suite
                                            &&& r->Ok_0.replica == k.replica_id
                                            &&& r->Ok_0.caused_by == command.id
                                            &&& r->Ok_0.lclock == lclock_new
                                            &&& r->Ok_0.vclock.wf()
                                            &&& r->Ok_0.vclock@ == vc_map
                                            &&& r->Ok_0.vclock.spec_entries() == canonical_entries(
                                                vc_map,
                                            )
                                            &&& vc_entry(vc_map, k.replica_id) == lclock_new
                                            &&& r->Ok_0.new_entities@ == model_ids(news)
                                            &&& r->Ok_0.updated_entities@ == model_ids(upds)
                                            &&& r->Ok_0.reserved@ == Seq::<u8>::empty()
                                            &&& final(self).local_lc == lclock_new
                                            &&& final(self).local_vc.wf()
                                            &&& final(self).local_vc@ == vc_map
                                            &&& final(self).state.entities@ == insert_models(
                                                insert_models(k.state.entities@, news),
                                                upds,
                                            )
                                            &&& final(self).state.capabilities@
                                                == k.state.capabilities@
                                            &&& final(self).state.event_log@.len()
                                                == k.state.event_log@.len() + 1
                                            &&& final(self).state.event_log@.drop_last()
                                                == k.state.event_log@
                                            &&& ({
                                                let le = final(self).state.event_log@.last();
                                                let e = r->Ok_0;
                                                &&& le.id == e.id
                                                &&& le.alg_suite == e.alg_suite
                                                &&& le.replica == e.replica
                                                &&& le.caused_by == e.caused_by
                                                &&& le.lclock == e.lclock
                                                &&& le.vclock@ == e.vclock@
                                                &&& le.new_entities@ == e.new_entities@
                                                &&& le.updated_entities@ == e.updated_entities@
                                                &&& le.reserved@ == e.reserved@
                                            })
                                        },
                                    }
                                },
                            }
                        },
                    }
                }
            }),
    {
        // A saturated Lamport clock wedges the replica.
        if self.local_lc == u64::MAX {
            return Err(lamport_overflow_error());
        }

        // Validate against the current state and clock; nothing mutated yet.
        match self.validate_command(command, self.local_lc) {
            Ok(u) => {},
            Err(e) => {
                return Err(e);
            },
        }

        // The event's Lamport clock.
        let lclock_new = if command.lclock >= self.local_lc + 1 {
            command.lclock
        } else {
            self.local_lc + 1
        };

        // Run the domain runtime against a read-only view of the state.
        let delta = match self.runtime.execute(&self.state, command) {
            Ok(d) => d,
            Err(e) => {
                return Err(e);
            },
        };

        // Overwrite every delta entity's Lamport stamp: kernel authority.
        let ghost p = self.runtime.execute_spec(&self.state, command)->Ok_0;
        let mut stamped_new: Vec<Entity<Vec<u8>>> = Vec::new();
        let n_new = delta.new_entities.len();
        let mut i: usize = 0;
        while i < n_new
            invariant
                0 <= i <= n_new,
                n_new == delta.new_entities@.len(),
                delta_models(stamped_new@) == stamped_models(delta.new_entities@, lclock_new).take(
                    i as int,
                ),
                stamped_new@.len() == i,
            decreases n_new - i,
        {
            let e = &delta.new_entities[i];
            stamped_new.push(
                Entity {
                    header: EntityHeader {
                        id: e.header.id,
                        version: e.header.version,
                        lclock: lclock_new,
                        parent: e.header.parent,
                    },
                    body: copy_bytes(&e.body),
                },
            );
            proof {
                assert(delta_models(stamped_new@) =~= stamped_models(
                    delta.new_entities@,
                    lclock_new,
                ).take(i + 1));
            }
            i = i + 1;
        }
        let mut stamped_upd: Vec<Entity<Vec<u8>>> = Vec::new();
        let n_upd = delta.updated_entities.len();
        let mut j: usize = 0;
        while j < n_upd
            invariant
                0 <= j <= n_upd,
                n_upd == delta.updated_entities@.len(),
                delta_models(stamped_upd@) == stamped_models(
                    delta.updated_entities@,
                    lclock_new,
                ).take(j as int),
                stamped_upd@.len() == j,
            decreases n_upd - j,
        {
            let e = &delta.updated_entities[j];
            stamped_upd.push(
                Entity {
                    header: EntityHeader {
                        id: e.header.id,
                        version: e.header.version,
                        lclock: lclock_new,
                        parent: e.header.parent,
                    },
                    body: copy_bytes(&e.body),
                },
            );
            proof {
                assert(delta_models(stamped_upd@) =~= stamped_models(
                    delta.updated_entities@,
                    lclock_new,
                ).take(j + 1));
            }
            j = j + 1;
        }
        let stamped_delta = StateDelta { new_entities: stamped_new, updated_entities: stamped_upd };
        proof {
            assert(stamped_models(delta.new_entities@, lclock_new).take(n_new as int)
                =~= stamped_models(delta.new_entities@, lclock_new));
            assert(stamped_models(delta.updated_entities@, lclock_new).take(n_upd as int)
                =~= stamped_models(delta.updated_entities@, lclock_new));
            assert(stamped_models(delta.new_entities@, lclock_new) =~= stamped_models(
                p.0,
                lclock_new,
            ));
            assert(stamped_models(delta.updated_entities@, lclock_new) =~= stamped_models(
                p.1,
                lclock_new,
            ));
        }

        // First failure wins: a delta that breaks the invariants is
        // reported before anything else can go wrong, and nothing has been
        // mutated yet.
        match self.check_delta(&stamped_delta, lclock_new) {
            Ok(u) => {},
            Err(e) => {
                return Err(e);
            },
        }

        // The event's vector clock: local, merged with the command's, own
        // entry set to the event clock.
        let mut vc_for_event = self.local_vc.duplicate();
        match &command.vclock {
            Some(cmd_vc) => {
                vc_for_event.merge_into(cmd_vc);
            },
            None => {},
        }
        vc_for_event.insert(self.replica_id, lclock_new);
        let vc_local = vc_for_event.duplicate();
        proof {
            let k = *old(self);
            let vc_map = spec_event_vclock(k.local_vc@, command.vclock, k.replica_id, lclock_new);
            assert(vc_for_event@ == vc_map);
            vc_for_event.lemma_spec_entries_canonical();
            let news = stamped_models(p.0, lclock_new);
            let upds = stamped_models(p.1, lclock_new);
            assert(delta_models(stamped_delta.new_entities@) == news);
            assert(delta_models(stamped_delta.updated_entities@) == upds);
        }

        // Materialise the event first: nothing is mutated until every
        // fallible step has succeeded.
        let event = match self.materialise_event(command, &stamped_delta, lclock_new, vc_for_event)
        {
            Ok(e) => e,
            Err(e) => {
                return Err(e);
            },
        };

        // Commit the delta under the invariants.
        match self.append_delta(&stamped_delta, lclock_new) {
            Ok(u) => {},
            Err(e) => {
                return Err(e);
            },
        }

        // Advance the clocks and append the event to the log.
        self.local_lc = lclock_new;
        self.local_vc = vc_local;
        let ghost old_log = self.state.event_log@;
        self.state.event_log.push(event.duplicate());
        proof {
            assert(self.state.event_log@.drop_last() =~= old_log);
            let k = *old(self);
            let vc_map = spec_event_vclock(k.local_vc@, command.vclock, k.replica_id, lclock_new);
            event.vclock.lemma_spec_entries_canonical();
            let news = stamped_models(p.0, lclock_new);
            let upds = stamped_models(p.1, lclock_new);
            assert(delta_models(stamped_delta.new_entities@) == news);
            assert(delta_models(stamped_delta.updated_entities@) == upds);
            assert(model_ids(delta_models(stamped_delta.new_entities@)) == model_ids(news));
            assert(model_ids(delta_models(stamped_delta.updated_entities@)) == model_ids(upds));
            // The log stays ordered by Lamport clock and behind the local
            // clock.
            let log = self.state.event_log@;
            assert forall|i: int| 0 <= i < log.len() implies (#[trigger] log[i]).lclock
                <= self.local_lc by {
                if i < old_log.len() {
                    assert(old_log[i].lclock <= k.local_lc);
                } else {
                    assert(log[i].lclock == lclock_new);
                }
            }
            assert forall|i: int, j: int| 0 <= i < j < log.len() implies (#[trigger] log[i]).lclock
                <= (#[trigger] log[j]).lclock by {
                if j < old_log.len() {
                    assert(old_log[i].lclock <= old_log[j].lclock);
                } else {
                    assert(old_log[i].lclock <= k.local_lc);
                    assert(log[j].lclock == lclock_new);
                }
            }
        }
        Ok(event)
    }

    /// Absorbs a peer event's clocks: the local Lamport clock rises to the
    /// event's, and the local vector clock merges the event's. State and
    /// log are untouched; no validation occurs here.
    pub fn process_incoming_event(&mut self, evt: &Event) -> (r: Result<(), KernelError>)
        requires
            old(self).wf(),
            evt.vclock.wf(),
        ensures
            final(self).wf(),
            r is Ok,
            final(self).local_lc == max_u64(old(self).local_lc, evt.lclock),
            final(self).local_vc@ == vc_merged(old(self).local_vc@, evt.vclock@),
            final(self).state == old(self).state,
            final(self).replica_id == old(self).replica_id,
            final(self).runtime == old(self).runtime,
            final(self).crypto_provider == old(self).crypto_provider,
    {
        if evt.lclock > self.local_lc {
            self.local_lc = evt.lclock;
        }
        self.local_vc.merge_into(&evt.vclock);
        Ok(())
    }

    /// Exposes the canonical event hash-input serialisation for inspection
    /// and tests.
    pub fn get_event_hash_input_for_test(
        &self,
        caused_by_command_id: &CID,
        event_lclock: u64,
        event_replica_id: &ReplicaID,
        event_alg_suite_tag: u8,
        new_entities_cids: &[CID],
        updated_entities_cids: &[CID],
        vector_clock: &VClock,
        reserved_bytes: &[u8],
    ) -> (r: Vec<u8>)
        ensures
            r@ == spec_event_hash_input(
                caused_by_command_id@,
                event_lclock,
                event_replica_id@,
                event_alg_suite_tag,
                cid_views(new_entities_cids@),
                cid_views(updated_entities_cids@),
                vector_clock.spec_entries(),
                reserved_bytes@,
            ),
    {
        get_event_hash_input(
            caused_by_command_id,
            event_lclock,
            event_replica_id,
            event_alg_suite_tag,
            new_entities_cids,
            updated_entities_cids,
            vector_clock,
            reserved_bytes,
        )
    }
}

impl Kernel<PlaceholderCryptoProvider, DefaultRuntime> {
    /// Convenience constructor with the placeholder crypto provider and the
    /// identity runtime.
    pub fn new_with_default_crypto(replica_id: ReplicaID) -> (r: Kernel<
        PlaceholderCryptoProvider,
        DefaultRuntime,
    >)
        ensures
            r.wf(),
            r.local_lc == 0,
            r.local_vc@ == Map::<crate::primitives::ReplicaIdBytes, u64>::empty(),
            r.state.capabilities@ == Map::<CidBytes, Capability>::empty(),
            r.state.entities@ == Map::<CidBytes, EntityModel>::empty(),
            r.state.event_log@ == Seq::<Event>::empty(),
            r.replica_id == replica_id,
    {
        Kernel::new(replica_id, DefaultRuntime, PlaceholderCryptoProvider)
    }
}

} // verus!
