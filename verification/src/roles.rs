//! The administrative role kinds that the external agent registry
//! distinguishes when it grants or transfers authority over validator agents.
//! The staking engine itself enforces no role checks; the host names one of
//! these kinds when it talks to that registry.

use vstd::prelude::*;

verus! {

/// One kind of administrative authority of the external agent registry.
#[derive(Debug, Clone, Copy, PartialEq, Eq, Structural)]
pub enum RoleType {
    /// May register a new validator agent.
    AddAgent,
    /// May change the weights of the registered agents.
    UpdateAgents,
    /// May strike an agent from the register.
    RemoveAgent,
}

} // verus!
