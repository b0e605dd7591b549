use amulet_core::kernel::Kernel;
use amulet_core::error::KernelError;
use amulet_core::primitives::{ReplicaIdBytes, ReplicaID, Command, CidBytes, SignatureBytes,
    Capability, PublicKeyBytes};
use amulet_core::vclock::VClock;
use amulet_core::types::AlgSuite;
use amulet_core::command_traits::EncodedCmd;
use amulet_core::state::{StateDelta, SystemState};
use amulet_core::crypto::{CryptoProvider, PlaceholderCryptoProvider};
use amulet_core::runtime::Runtime;

// --- Mock command payload ---
#[derive(Clone, Debug, PartialEq, Eq)]
struct MockCmdPayload(Vec<u8>);

#[derive(Debug)]
struct MockCmdPayloadError(String);

impl EncodedCmd for MockCmdPayload {
    type Error = MockCmdPayloadError;

    // The spec-level items of the trait are proof-only; they are erased
    // from compiled code and never called at runtime.
    fn encode_spec(&self) -> vstd::seq::Seq<u8> {
        unreachable!()
    }

    fn required_rights_spec(&self) -> u32 {
        unreachable!()
    }

    fn signed_bytes_spec(
        &self,
        _: vstd::seq::Seq<u8>,
        _: AlgSuite,
        _: vstd::seq::Seq<u8>,
        _: vstd::seq::Seq<u8>,
        _: u64,
    ) -> Option<vstd::seq::Seq<u8>> {
        unreachable!()
    }

    fn encode(&self) -> Vec<u8> {
        self.0.clone()
    }

    fn decode(bytes: &[u8]) -> Result<Self, MockCmdPayloadError> {
        Ok(MockCmdPayload(bytes.to_vec()))
    }

    fn required_rights(&self) -> u32 {
        0
    }

    fn to_signed_bytes(
        &self,
        command_id: &CidBytes,
        alg_suite: AlgSuite,
        replica: &ReplicaID,
        capability: &CidBytes,
        lclock: u64,
    ) -> Result<Vec<u8>, MockCmdPayloadError> {
        let mut bytes = Vec::new();
        bytes.extend_from_slice(&command_id.0);
        bytes.extend_from_slice(&alg_suite.tag().to_le_bytes());
        bytes.extend_from_slice(&replica.0);
        bytes.extend_from_slice(&capability.0);
        bytes.extend_from_slice(&lclock.to_le_bytes());
        bytes.extend_from_slice(&self.0);
        Ok(bytes)
    }
}

fn create_placeholder_capability() -> Capability {
    Capability {
        id: CidBytes([1u8; 32]),
        alg_suite: AlgSuite::CLASSIC.tag(),
        holder: PublicKeyBytes([0u8; 32]),
        target_entity: CidBytes([0u8; 32]),
        rights: u32::MAX,
        nonce: 0,
        expiry_lc: None,
        kind: 0,
        signature: SignatureBytes([0u8; 64]),
    }
}

#[derive(Clone, Debug)]
struct MockRuntime;

impl<CP: CryptoProvider> Runtime<CP, MockCmdPayload> for MockRuntime {
    fn execute_spec(
        &self,
        _: &SystemState,
        _: &Command<MockCmdPayload>,
    ) -> Result<
        (vstd::seq::Seq<amulet_core::primitives::Entity<Vec<u8>>>,
         vstd::seq::Seq<amulet_core::primitives::Entity<Vec<u8>>>),
        KernelError,
    > {
        unreachable!()
    }

    fn execute(
        &self,
        _state: &SystemState,
        _command: &Command<MockCmdPayload>,
    ) -> Result<StateDelta, KernelError> {
        Ok(StateDelta { new_entities: Vec::new(), updated_entities: Vec::new() })
    }
}

fn create_kernel_for_test(replica_id: ReplicaID) -> Kernel<PlaceholderCryptoProvider, MockRuntime> {
    Kernel::new(replica_id, MockRuntime, PlaceholderCryptoProvider)
}

fn create_test_command_for_conformance(
    payload_bytes: Vec<u8>,
    vclock_opt: Option<VClock>,
    replica_id: ReplicaID,
    lclock: u64,
) -> Command<MockCmdPayload> {
    Command {
        id: CidBytes([0u8; 32]),
        alg_suite: AlgSuite::CLASSIC.tag(),
        replica: replica_id,
        capability: CidBytes([1u8; 32]),
        lclock,
        vclock: vclock_opt,
        payload: MockCmdPayload(payload_bytes),
        signature: SignatureBytes([0u8; 64]),
    }
}

fn vclock_of(entries: &[(ReplicaID, u64)]) -> VClock {
    let mut vc = VClock::new();
    for (r, t) in entries {
        vc.insert(*r, *t);
    }
    vc
}

#[test]
fn test_vclock_increment_local_component() {
    let replica_id = ReplicaIdBytes([1u8; 16]);
    let mut kernel = create_kernel_for_test(replica_id);

    let placeholder_cap = create_placeholder_capability();
    kernel.state.capabilities.insert(placeholder_cap.id, placeholder_cap);

    let initial_lc = kernel.local_vc.get(&replica_id).unwrap_or(0);

    let command = create_test_command_for_conformance(vec![1, 2, 3], None, replica_id, 1);
    let event_result = kernel.apply(&command);
    assert!(event_result.is_ok(), "apply command failed: {:?}", event_result.err());
    let event = event_result.unwrap();

    let new_lc = event.vclock.get(&replica_id).expect("Local replica ID should be in VClock");
    assert_eq!(new_lc, initial_lc + 1, "Local component of VClock should increment by 1.");
}

#[test]
fn test_vclock_increment_other_components_unchanged() {
    let local_replica_id = ReplicaIdBytes([1u8; 16]);
    let other_replica_id = ReplicaIdBytes([2u8; 16]);
    let other_replica_initial_lc = 5;

    let mut kernel = create_kernel_for_test(local_replica_id);

    let placeholder_cap = create_placeholder_capability();
    kernel.state.capabilities.insert(placeholder_cap.id, placeholder_cap);

    // Initialise the kernel's VClock to include another replica's clock.
    kernel.local_vc.insert(other_replica_id, other_replica_initial_lc);

    let command = create_test_command_for_conformance(vec![4, 5, 6], None, local_replica_id, 1);
    let event_result = kernel.apply(&command);
    assert!(event_result.is_ok(), "apply command failed: {:?}", event_result.err());
    let event = event_result.unwrap();

    let other_lc_after_event = event.vclock.get(&other_replica_id).expect("Other replica ID should be in VClock");
    assert_eq!(other_lc_after_event, other_replica_initial_lc, "Other components of VClock should remain unchanged.");

    let local_lc_after_event = event.vclock.get(&local_replica_id).expect("Local replica ID should be in VClock");
    assert_eq!(local_lc_after_event, 1, "Local component should increment even with other components present.");
}

#[test]
fn test_vclock_merge_command_vclock_none() {
    let replica_id = ReplicaIdBytes([1u8; 16]);
    let mut kernel = create_kernel_for_test(replica_id);

    let placeholder_cap = create_placeholder_capability();
    kernel.state.capabilities.insert(placeholder_cap.id, placeholder_cap);

    // Event 1: establish initial clock for replica_id.
    let cmd1 = create_test_command_for_conformance(vec![1], None, replica_id, 1);
    let event1_result = kernel.apply(&cmd1);
    assert!(event1_result.is_ok(), "apply command failed: {:?}", event1_result.err());
    let event1 = event1_result.unwrap();
    assert_eq!(event1.vclock.get(&replica_id).unwrap(), 1);

    // Event 2: command has no vclock, event vclock is the kernel's advanced clock.
    let cmd2 = create_test_command_for_conformance(vec![2], None, replica_id, 2);
    let event2_result = kernel.apply(&cmd2);
    assert!(event2_result.is_ok(), "apply command failed: {:?}", event2_result.err());
    let event2 = event2_result.unwrap();
    assert_eq!(event2.vclock.get(&replica_id).unwrap(), 2);
    assert_eq!(event2.vclock.len(), 1, "VClock should only contain the local replica ID");
}

#[test]
fn test_vclock_merge_command_vclock_present_no_overlap() {
    let local_replica_id = ReplicaIdBytes([1u8; 16]);
    let mut kernel = create_kernel_for_test(local_replica_id);

    let placeholder_cap = create_placeholder_capability();
    kernel.state.capabilities.insert(placeholder_cap.id, placeholder_cap);

    let cmd_replica_id = ReplicaIdBytes([2u8; 16]);
    let cmd_vclock = vclock_of(&[(cmd_replica_id, 5)]);

    let command = create_test_command_for_conformance(vec![1, 2, 3], Some(cmd_vclock), local_replica_id, 1);
    let event_result = kernel.apply(&command);
    assert!(event_result.is_ok(), "apply command failed: {:?}", event_result.err());
    let event = event_result.unwrap();

    assert_eq!(event.vclock.get(&local_replica_id).unwrap(), 1, "Local component should increment.");
    assert_eq!(event.vclock.get(&cmd_replica_id).unwrap(), 5, "Command's VClock component should be merged.");
    assert_eq!(event.vclock.len(), 2, "Event VClock should have two entries.");
}

#[test]
fn test_vclock_merge_command_vclock_present_kernel_ahead() {
    let local_replica_id = ReplicaIdBytes([1u8; 16]);
    let shared_replica_id = ReplicaIdBytes([3u8; 16]);

    let mut kernel = create_kernel_for_test(local_replica_id);

    let placeholder_cap = create_placeholder_capability();
    kernel.state.capabilities.insert(placeholder_cap.id, placeholder_cap);

    kernel.local_vc.insert(shared_replica_id, 10);

    let cmd_vclock = vclock_of(&[(shared_replica_id, 5)]);

    let command = create_test_command_for_conformance(vec![1], Some(cmd_vclock), local_replica_id, 1);
    let event_result = kernel.apply(&command);
    assert!(event_result.is_ok(), "apply command failed: {:?}", event_result.err());
    let event = event_result.unwrap();

    assert_eq!(event.vclock.get(&local_replica_id).unwrap(), 1, "Local component increments.");
    assert_eq!(event.vclock.get(&shared_replica_id).unwrap(), 10, "Kernel's higher value for shared ID should be kept.");
    assert_eq!(event.vclock.len(), 2);
}

#[test]
fn test_vclock_merge_command_vclock_present_command_ahead() {
    let local_replica_id = ReplicaIdBytes([1u8; 16]);
    let shared_replica_id = ReplicaIdBytes([3u8; 16]);

    let mut kernel = create_kernel_for_test(local_replica_id);

    let placeholder_cap = create_placeholder_capability();
    kernel.state.capabilities.insert(placeholder_cap.id, placeholder_cap);

    kernel.local_vc.insert(shared_replica_id, 5);

    let cmd_vclock = vclock_of(&[(shared_replica_id, 10)]);

    let command = create_test_command_for_conformance(vec![1], Some(cmd_vclock), local_replica_id, 1);
    let event_result = kernel.apply(&command);
    assert!(event_result.is_ok(), "apply command failed: {:?}", event_result.err());
    let event = event_result.unwrap();

    assert_eq!(event.vclock.get(&local_replica_id).unwrap(), 1, "Local component increments.");
    assert_eq!(event.vclock.get(&shared_replica_id).unwrap(), 10, "Command's higher value for shared ID should be taken.");
    assert_eq!(event.vclock.len(), 2);
}

#[test]
fn test_vclock_merge_command_vclock_present_mixed_ahead() {
    let local_replica_id = ReplicaIdBytes([1u8; 16]);
    let replica_a = ReplicaIdBytes([10u8; 16]);
    let replica_b = ReplicaIdBytes([11u8; 16]);

    let mut kernel = create_kernel_for_test(local_replica_id);

    let placeholder_cap = create_placeholder_capability();
    kernel.state.capabilities.insert(placeholder_cap.id, placeholder_cap);

    kernel.local_vc.insert(replica_a, 20);
    kernel.local_vc.insert(replica_b, 20);

    let cmd_vclock = vclock_of(&[(replica_a, 15), (replica_b, 25)]);

    let command = create_test_command_for_conformance(vec![1], Some(cmd_vclock), local_replica_id, 1);
    let event_result = kernel.apply(&command);
    assert!(event_result.is_ok(), "apply command failed: {:?}", event_result.err());
    let event = event_result.unwrap();

    assert_eq!(event.vclock.get(&local_replica_id).unwrap(), 1, "Local component increments.");
    assert_eq!(event.vclock.get(&replica_a).unwrap(), 20, "Kernel's higher value for replica_a should be kept.");
    assert_eq!(event.vclock.get(&replica_b).unwrap(), 25, "Command's higher value for replica_b should be taken.");
    assert_eq!(event.vclock.len(), 3);
}

#[test]
fn test_vclock_merge_updates_kernel_local_vc() {
    let local_replica_id = ReplicaIdBytes([1u8; 16]);
    let cmd_replica_id = ReplicaIdBytes([2u8; 16]);

    let mut kernel = create_kernel_for_test(local_replica_id);

    let placeholder_cap = create_placeholder_capability();
    kernel.state.capabilities.insert(placeholder_cap.id, placeholder_cap);

    let cmd_vclock = vclock_of(&[(cmd_replica_id, 5), (local_replica_id, 0)]);

    let command = create_test_command_for_conformance(vec![1], Some(cmd_vclock), local_replica_id, 1);
    let event_result = kernel.apply(&command);
    assert!(event_result.is_ok(), "apply command failed: {:?}", event_result.err());
    let _event = event_result.unwrap();

    // Check the kernel's internal VClock state.
    assert_eq!(kernel.local_vc.get(&local_replica_id).unwrap(), 1, "Kernel's local_vc: Local component should be incremented.");
    assert_eq!(kernel.local_vc.get(&cmd_replica_id).unwrap(), 5, "Kernel's local_vc: Command's component should be merged.");
    assert_eq!(kernel.local_vc.len(), 2, "Kernel's local_vc should have two entries.");
}

#[test]
fn test_vclock_causality_exact() {
    // local_vc = {self:2, R2:5}; command carries {R2:3, R3:7}; the apply
    // commits at lclock 3 and the event clock is {self:3, R2:5, R3:7},
    // which also becomes the kernel's clock.
    let self_id = ReplicaIdBytes([1u8; 16]);
    let r2 = ReplicaIdBytes([2u8; 16]);
    let r3 = ReplicaIdBytes([3u8; 16]);

    let mut kernel = create_kernel_for_test(self_id);
    let placeholder_cap = create_placeholder_capability();
    kernel.state.capabilities.insert(placeholder_cap.id, placeholder_cap);
    kernel.local_lc = 2;
    kernel.local_vc.insert(self_id, 2);
    kernel.local_vc.insert(r2, 5);

    let cmd_vclock = vclock_of(&[(r2, 3), (r3, 7)]);
    let command = create_test_command_for_conformance(vec![1], Some(cmd_vclock), self_id, 3);
    let event = kernel.apply(&command).expect("apply failed");

    assert_eq!(event.lclock, 3);
    assert_eq!(event.vclock.get(&self_id), Some(3));
    assert_eq!(event.vclock.get(&r2), Some(5));
    assert_eq!(event.vclock.get(&r3), Some(7));
    assert_eq!(event.vclock.len(), 3);
    assert_eq!(kernel.local_vc, event.vclock);
}
