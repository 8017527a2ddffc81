//! Relations of the direct protocol, their security states, relation maps and
//! the fail-closed error type.

use vstd::prelude::*;
use vstd::string::StringExecFns;

use crate::text::{dec, decimal_usize, text};

verus! {

/// A relation which must eventually be verified by the direct recursive path.
#[derive(Clone, Copy, Debug, PartialEq, Eq, Structural, PartialOrd, Ord, Hash)]
pub enum DirectRelation {
    Lookup,
    Register,
    Ram,
    Cpu,
    Pcs,
}

/// Security status carried explicitly by a partial direct statement.
#[derive(Clone, Copy, Debug, PartialEq, Eq, Structural, Hash)]
pub enum DirectRelationState {
    /// The relation is constrained and verified by the recursive path.
    Proven,
    /// The relation produced a folded obligation which must be closed later.
    Deferred,
    /// No cryptographic relation exists yet. Production proving must fail.
    Unsupported,
}

/// All relations, in protocol order.
pub open spec fn all_relations() -> Seq<DirectRelation> {
    seq![
        DirectRelation::Lookup,
        DirectRelation::Register,
        DirectRelation::Ram,
        DirectRelation::Cpu,
        DirectRelation::Pcs,
    ]
}

impl DirectRelation {
    /// All relations, in protocol order.
    pub fn all() -> (r: [DirectRelation; 5])
        ensures
            r@ == all_relations(),
    {
        let r = [
            DirectRelation::Lookup,
            DirectRelation::Register,
            DirectRelation::Ram,
            DirectRelation::Cpu,
            DirectRelation::Pcs,
        ];
        assert(r@ =~= all_relations());
        r
    }

    /// Human-readable name of the relation.
    pub open spec fn spec_name(self) -> Seq<char> {
        match self {
            DirectRelation::Lookup => "lookup"@,
            DirectRelation::Register => "register"@,
            DirectRelation::Ram => "RAM"@,
            DirectRelation::Cpu => "CPU/R1CS"@,
            DirectRelation::Pcs => "PCS"@,
        }
    }

    /// Human-readable name of the relation.
    pub fn name(&self) -> (s: String)
        ensures
            s@ == self.spec_name(),
    {
        match self {
            DirectRelation::Lookup => text("lookup"),
            DirectRelation::Register => text("register"),
            DirectRelation::Ram => text("RAM"),
            DirectRelation::Cpu => text("CPU/R1CS"),
            DirectRelation::Pcs => text("PCS"),
        }
    }
}

impl DirectRelationState {
    /// Name of the state, as its debug rendering spells it.
    pub open spec fn spec_name(self) -> Seq<char> {
        match self {
            DirectRelationState::Proven => "Proven"@,
            DirectRelationState::Deferred => "Deferred"@,
            DirectRelationState::Unsupported => "Unsupported"@,
        }
    }

    /// Name of the state, as its debug rendering spells it.
    pub fn name(&self) -> (s: String)
        ensures
            s@ == self.spec_name(),
    {
        match self {
            DirectRelationState::Proven => text("Proven"),
            DirectRelationState::Deferred => text("Deferred"),
            DirectRelationState::Unsupported => text("Unsupported"),
        }
    }
}

/// Ordered association of relations to their states. A relation that does
/// not occur is read as unsupported.
#[derive(Clone, Debug, PartialEq, Eq)]
pub struct RelationMap {
    pub entries: Vec<(DirectRelation, DirectRelationState)>,
}

/// No relation occurs twice in the entries of a relation map.
pub open spec fn relation_map_wf(entries: Seq<(DirectRelation, DirectRelationState)>) -> bool {
    forall|i: int, j: int|
        0 <= i < j < entries.len() ==> (#[trigger] entries[i]).0 != (#[trigger] entries[j]).0
}

/// State of the first entry for `r` in `entries`, if there is one.
pub open spec fn lookup_state(
    entries: Seq<(DirectRelation, DirectRelationState)>,
    r: DirectRelation,
) -> Option<DirectRelationState>
    decreases entries.len(),
{
    if entries.len() == 0 {
        None
    } else if entries[0].0 == r {
        Some(entries[0].1)
    } else {
        lookup_state(entries.drop_first(), r)
    }
}

/// The state a relation map assigns to `r`, unsupported when absent.
pub open spec fn state_of(entries: Seq<(DirectRelation, DirectRelationState)>, r: DirectRelation) -> DirectRelationState {
    match lookup_state(entries, r) {
        Some(s) => s,
        None => DirectRelationState::Unsupported,
    }
}

/// The relation map assigning `f(r)` to every relation, in protocol order.
pub open spec fn uniform_entries(
    f: spec_fn(DirectRelation) -> DirectRelationState,
) -> Seq<(DirectRelation, DirectRelationState)> {
    all_relations().map_values(|r: DirectRelation| (r, f(r)))
}

impl RelationMap {
    /// The state recorded for `relation`, if any.
    pub fn get(&self, relation: DirectRelation) -> (r: Option<DirectRelationState>)
        ensures
            r == lookup_state(self.entries@, relation),
    {
        let mut i: usize = 0;
        assert(self.entries@.skip(0) =~= self.entries@);
        while i < self.entries.len()
            invariant
                0 <= i <= self.entries@.len(),
                lookup_state(self.entries@, relation) == lookup_state(
                    self.entries@.skip(i as int),
                    relation,
                ),
            decreases self.entries@.len() - i,
        {
            let ghost rest = self.entries@.skip(i as int);
            assert(rest.drop_first() =~= self.entries@.skip(i + 1));
            if self.entries[i].0 == relation {
                return Some(self.entries[i].1);
            }
            i = i + 1;
        }
        None
    }

    /// Every relation mapped to `Unsupported`.
    pub fn all_unsupported() -> (m: RelationMap)
        ensures
            relation_map_wf(m.entries@),
            m.entries@ == uniform_entries(|r: DirectRelation| DirectRelationState::Unsupported),
    {
        Self::from_states(
            DirectRelationState::Unsupported,
            DirectRelationState::Unsupported,
            DirectRelationState::Unsupported,
            DirectRelationState::Unsupported,
            DirectRelationState::Unsupported,
        )
    }

    /// Every relation mapped to `Proven`.
    pub fn all_proven() -> (m: RelationMap)
        ensures
            relation_map_wf(m.entries@),
            m.entries@ == uniform_entries(|r: DirectRelation| DirectRelationState::Proven),
    {
        Self::from_states(
            DirectRelationState::Proven,
            DirectRelationState::Proven,
            DirectRelationState::Proven,
            DirectRelationState::Proven,
            DirectRelationState::Proven,
        )
    }

    /// Every relation proven except the PCS opening, which is deferred.
    pub fn cpu_stage() -> (m: RelationMap)
        ensures
            relation_map_wf(m.entries@),
            m.entries@ == uniform_entries(
                |r: DirectRelation|
                    if r == DirectRelation::Pcs {
                        DirectRelationState::Deferred
                    } else {
                        DirectRelationState::Proven
                    },
            ),
    {
        Self::from_states(
            DirectRelationState::Proven,
            DirectRelationState::Proven,
            DirectRelationState::Proven,
            DirectRelationState::Proven,
            DirectRelationState::Deferred,
        )
    }

    /// The map with the given states for the five relations, in protocol order.
    pub fn from_states(
        lookup: DirectRelationState,
        register: DirectRelationState,
        ram: DirectRelationState,
        cpu: DirectRelationState,
        pcs: DirectRelationState,
    ) -> (m: RelationMap)
        ensures
            m.entries@ == seq![
                (DirectRelation::Lookup, lookup),
                (DirectRelation::Register, register),
                (DirectRelation::Ram, ram),
                (DirectRelation::Cpu, cpu),
                (DirectRelation::Pcs, pcs),
            ],
            relation_map_wf(m.entries@),
    {
        let entries = vec![
            (DirectRelation::Lookup, lookup),
            (DirectRelation::Register, register),
            (DirectRelation::Ram, ram),
            (DirectRelation::Cpu, cpu),
            (DirectRelation::Pcs, pcs),
        ];
        RelationMap { entries }
    }
}

/// Fail-closed errors for the direct architecture.
#[derive(Clone, Debug, PartialEq, Eq)]
pub enum DirectChunkedError {
    InvalidConfiguration(String),
    EmptyTrace,
    TraceTooLong { observed: usize, maximum: usize },
    InvalidBlock { block_index: usize, reason: String },
    DiscontinuousBlocks { previous_block: usize, next_block: usize, reason: String },
    UnsupportedRelation { relation: DirectRelation, audited_blocks: usize },
    UnclosedRelation { relation: DirectRelation, state: DirectRelationState },
    InvalidProofShape(String),
}

/// Mathematical model of [`DirectChunkedError`]: the same variants, with
/// character sequences in place of strings.
pub ghost enum ErrorModel {
    InvalidConfiguration(Seq<char>),
    EmptyTrace,
    TraceTooLong { observed: nat, maximum: nat },
    InvalidBlock { block_index: nat, reason: Seq<char> },
    DiscontinuousBlocks { previous_block: nat, next_block: nat, reason: Seq<char> },
    UnsupportedRelation { relation: DirectRelation, audited_blocks: nat },
    UnclosedRelation { relation: DirectRelation, state: DirectRelationState },
    InvalidProofShape(Seq<char>),
}

impl View for DirectChunkedError {
    type V = ErrorModel;

    open spec fn view(&self) -> ErrorModel {
        match self {
            DirectChunkedError::InvalidConfiguration(r) => ErrorModel::InvalidConfiguration(r@),
            DirectChunkedError::EmptyTrace => ErrorModel::EmptyTrace,
            DirectChunkedError::TraceTooLong { observed, maximum } => ErrorModel::TraceTooLong {
                observed: *observed as nat,
                maximum: *maximum as nat,
            },
            DirectChunkedError::InvalidBlock { block_index, reason } => ErrorModel::InvalidBlock {
                block_index: *block_index as nat,
                reason: reason@,
            },
            DirectChunkedError::DiscontinuousBlocks { previous_block, next_block, reason } =>
                ErrorModel::DiscontinuousBlocks {
                previous_block: *previous_block as nat,
                next_block: *next_block as nat,
                reason: reason@,
            },
            DirectChunkedError::UnsupportedRelation { relation, audited_blocks } =>
                ErrorModel::UnsupportedRelation {
                relation: *relation,
                audited_blocks: *audited_blocks as nat,
            },
            DirectChunkedError::UnclosedRelation { relation, state } =>
                ErrorModel::UnclosedRelation { relation: *relation, state: *state },
            DirectChunkedError::InvalidProofShape(r) => ErrorModel::InvalidProofShape(r@),
        }
    }
}

/// The model of a result whose error is a [`DirectChunkedError`].
pub open spec fn result_model<T>(r: Result<T, DirectChunkedError>) -> Result<T, ErrorModel> {
    match r {
        Ok(v) => Ok(v),
        Err(e) => Err(e@),
    }
}

/// The message that describes an error.
pub open spec fn error_message(e: ErrorModel) -> Seq<char> {
    match e {
        ErrorModel::InvalidConfiguration(r) => "invalid direct configuration: "@ + r,
        ErrorModel::EmptyTrace => "direct proving requires at least one trace block"@,
        ErrorModel::TraceTooLong { observed, maximum } => "direct trace has "@ + dec(observed)
            + " cycles, exceeding configured preprocessing maximum "@ + dec(maximum),
        ErrorModel::InvalidBlock { block_index, reason } => "invalid direct block "@ + dec(
            block_index,
        ) + ": "@ + reason,
        ErrorModel::DiscontinuousBlocks { previous_block, next_block, reason } => "direct blocks "@
            + dec(previous_block) + " and "@ + dec(next_block) + " are discontinuous: "@ + reason,
        ErrorModel::UnsupportedRelation { relation, audited_blocks } => "direct relation "@
            + relation.spec_name() + " is not internalized after auditing "@ + dec(audited_blocks)
            + " blocks"@,
        ErrorModel::UnclosedRelation { relation, state } => "direct relation "@
            + relation.spec_name() + " is not closed: "@ + state.spec_name(),
        ErrorModel::InvalidProofShape(r) => "invalid direct proof shape: "@ + r,
    }
}

impl DirectChunkedError {
    /// The message that describes this error.
    pub fn to_string(&self) -> (s: String)
        ensures
            s@ == error_message(self@),
    {
        match self {
            DirectChunkedError::InvalidConfiguration(r) => text(
                "invalid direct configuration: ",
            ).concat(r.as_str()),
            DirectChunkedError::EmptyTrace => text(
                "direct proving requires at least one trace block",
            ),
            DirectChunkedError::TraceTooLong { observed, maximum } => {
                let s = text("direct trace has ").concat(decimal_usize(*observed).as_str());
                let s = s.concat(" cycles, exceeding configured preprocessing maximum ");
                s.concat(decimal_usize(*maximum).as_str())
            },
            DirectChunkedError::InvalidBlock { block_index, reason } => {
                let s = text("invalid direct block ").concat(decimal_usize(*block_index).as_str());
                s.concat(": ").concat(reason.as_str())
            },
            DirectChunkedError::DiscontinuousBlocks { previous_block, next_block, reason } => {
                let s = text("direct blocks ").concat(decimal_usize(*previous_block).as_str());
                let s = s.concat(" and ").concat(decimal_usize(*next_block).as_str());
                s.concat(" are discontinuous: ").concat(reason.as_str())
            },
            DirectChunkedError::UnsupportedRelation { relation, audited_blocks } => {
                let s = text("direct relation ").concat(relation.name().as_str());
                let s = s.concat(" is not internalized after auditing ");
                s.concat(decimal_usize(*audited_blocks).as_str()).concat(" blocks")
            },
            DirectChunkedError::UnclosedRelation { relation, state } => {
                let s = text("direct relation ").concat(relation.name().as_str());
                s.concat(" is not closed: ").concat(state.name().as_str())
            },
            DirectChunkedError::InvalidProofShape(r) => text("invalid direct proof shape: ").concat(
                r.as_str(),
            ),
        }
    }
}

} // verus!
