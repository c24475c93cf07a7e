//! The agent's standing instructions.
//!
//! The workspace files that shape the agent — its persona, identity,
//! skills, playbooks and memory — are read by the caller; the assembled
//! record of their contents lives here.

use vstd::prelude::*;
use vstd::string::*;

verus! {

/// The loaded instruction files, one field per document.
pub struct AgentOS {
    pub soul: String,
    pub identity: String,
    pub skills: String,
    pub playbooks: String,
    pub memory: String,
}

impl AgentOS {
    /// Assembles the record from the five documents' contents.
    pub fn load(
        soul: String,
        identity: String,
        skills: String,
        playbooks: String,
        memory: String,
    ) -> (r: AgentOS)
        ensures
            r.soul@ == soul@,
            r.identity@ == identity@,
            r.skills@ == skills@,
            r.playbooks@ == playbooks@,
            r.memory@ == memory@,
    {
        AgentOS { soul, identity, skills, playbooks, memory }
    }
}

} // verus!
