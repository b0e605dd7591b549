//! The runtime abstraction: the pluggable, pure domain logic that turns a
//! command and a read-only view of the state into a state delta. The kernel
//! stays generic over it; determinism is part of the contract.

use vstd::prelude::*;
use crate::crypto::CryptoProvider;
use crate::command_traits::EncodedCmd;
use crate::primitives::{Command, Entity};
use crate::state::{StateDelta, SystemState};
use crate::error::KernelError;

verus! {

/// A pluggable runtime for payloads of type `C`. `execute` must be
/// deterministic and side-effect free: each implementation fixes through
/// `execute_spec` the entity sequences (new, updated) or the error that
/// every call returns. Entity Lamport stamps in the delta are irrelevant;
/// the kernel overwrites them.
pub trait Runtime<CP: CryptoProvider, C: EncodedCmd>: Sized {
    /// What `execute` returns: the new and updated entity sequences of the
    /// produced delta, or the error.
    spec fn execute_spec(&self, state: &SystemState, cmd: &Command<C>) -> Result<
        (Seq<Entity<Vec<u8>>>, Seq<Entity<Vec<u8>>>),
        KernelError,
    >;

    /// Executes the command against a read-only view of the state,
    /// producing a delta.
    fn execute(&self, state: &SystemState, cmd: &Command<C>) -> (r: Result<
        StateDelta,
        KernelError,
    >)
        ensures
            match r {
                Ok(d) => self.execute_spec(state, cmd) matches Ok(p) && d.new_entities@ == p.0
                    && d.updated_entities@ == p.1,
                Err(e) => self.execute_spec(state, cmd) == Result::<
                    (Seq<Entity<Vec<u8>>>, Seq<Entity<Vec<u8>>>),
                    KernelError,
                >::Err(e),
            },
    ;
}

/// The trivial identity runtime: every command produces an empty delta.
#[derive(Default, Debug, Clone)]
pub struct DefaultRuntime;

impl<CP: CryptoProvider, C: EncodedCmd> Runtime<CP, C> for DefaultRuntime {
    open spec fn execute_spec(&self, state: &SystemState, cmd: &Command<C>) -> Result<
        (Seq<Entity<Vec<u8>>>, Seq<Entity<Vec<u8>>>),
        KernelError,
    > {
        Ok((Seq::empty(), Seq::empty()))
    }

    fn execute(&self, state: &SystemState, cmd: &Command<C>) -> (r: Result<
        StateDelta,
        KernelError,
    >) {
        let d = StateDelta { new_entities: Vec::new(), updated_entities: Vec::new() };
        proof {
            assert(d.new_entities@ =~= Seq::<Entity<Vec<u8>>>::empty());
            assert(d.updated_entities@ =~= Seq::<Entity<Vec<u8>>>::empty());
        }
        Ok(d)
    }
}

} // verus!
