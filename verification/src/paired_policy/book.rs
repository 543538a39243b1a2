//! The paired placement policy's own state: the last exchange mode and one
//! record per staged pair, and the commands that act on them.

use vstd::prelude::*;
use vstd::string::StringSliceAdditionalSpecFns;
use crate::digest::{blake3_digest, blake3_hash, digest_domain, digest_eq, domain_digest, le_bytes, push_le, seq_canon, Canonical};
use super::rules::{
    abortable, authorization_check, authorization_denial, authorized, expire_legs, expired_record, expires_now,
    fresh_record, grant, hedge_leg, hedge_of, issue_permit, leg_observation_check, leg_observed, mark_aborted,
    may_abort, mode_check, new_policy_record, observe_leg, observe_mode, permit_for, resealed,
};
use super::types::{
    ExchangeMode, policy_decision_digest_spec, Error, LegRole, LegState, ModeObservation, PairPermit, PairPermitId, PairPolicyRecord,
    PairStageId, PairedPolicyCommandId, PairedPolicyDecision, PairedPolicyReason, PairedPolicyStatus, StageView,
};

verus! {

broadcast use vstd::string::to_string_from_display_ensures_for_str;

/// The commands the policy decides itself; funding and staging capital belong
/// to the staging runtime, whose outcome `record_staged` takes.
#[derive(Clone, Debug)]
pub enum PairedPolicyCommand {
    ObserveMode { command_id: PairedPolicyCommandId, observation: ModeObservation, recorded_at_ns: i64 },
    AuthorizeFirst {
        command_id: PairedPolicyCommandId,
        stage_id: PairStageId,
        leg_index: u8,
        max_mode_age_ns: i64,
        valid_until_ns: i64,
        recorded_at_ns: i64,
    },
    AuthorizeHedge {
        command_id: PairedPolicyCommandId,
        stage_id: PairStageId,
        max_mode_age_ns: i64,
        valid_until_ns: i64,
        recorded_at_ns: i64,
    },
    ObserveLeg {
        command_id: PairedPolicyCommandId,
        stage_id: PairStageId,
        leg_index: u8,
        permit_id: PairPermitId,
        state: LegState,
        source_sequence: u64,
        observed_at_ns: i64,
        recorded_at_ns: i64,
    },
    Expire { command_id: PairedPolicyCommandId, stage_id: PairStageId, recorded_at_ns: i64 },
    AbortSafe { command_id: PairedPolicyCommandId, stage_id: PairStageId, recorded_at_ns: i64 },
}

impl PairedPolicyCommand {
    pub open spec fn recorded_at(&self) -> i64 {
        match self {
            PairedPolicyCommand::ObserveMode { recorded_at_ns, .. } => *recorded_at_ns,
            PairedPolicyCommand::AuthorizeFirst { recorded_at_ns, .. } => *recorded_at_ns,
            PairedPolicyCommand::AuthorizeHedge { recorded_at_ns, .. } => *recorded_at_ns,
            PairedPolicyCommand::ObserveLeg { recorded_at_ns, .. } => *recorded_at_ns,
            PairedPolicyCommand::Expire { recorded_at_ns, .. } => *recorded_at_ns,
            PairedPolicyCommand::AbortSafe { recorded_at_ns, .. } => *recorded_at_ns,
        }
    }

    pub fn recorded_at_ns(&self) -> (r: i64)
        ensures
            r == self.recorded_at(),
    {
        match self {
            PairedPolicyCommand::ObserveMode { recorded_at_ns, .. } => *recorded_at_ns,
            PairedPolicyCommand::AuthorizeFirst { recorded_at_ns, .. } => *recorded_at_ns,
            PairedPolicyCommand::AuthorizeHedge { recorded_at_ns, .. } => *recorded_at_ns,
            PairedPolicyCommand::ObserveLeg { recorded_at_ns, .. } => *recorded_at_ns,
            PairedPolicyCommand::Expire { recorded_at_ns, .. } => *recorded_at_ns,
            PairedPolicyCommand::AbortSafe { recorded_at_ns, .. } => *recorded_at_ns,
        }
    }
}

impl Canonical for PairedPolicyCommand {
    open spec fn canon(&self) -> Seq<u8> {
        match self {
            PairedPolicyCommand::ObserveMode { command_id, observation, recorded_at_ns } => seq![0u8] + command_id.canon() + observation.canon() + recorded_at_ns.canon(),
            PairedPolicyCommand::AuthorizeFirst { command_id, stage_id, leg_index, max_mode_age_ns, valid_until_ns, recorded_at_ns } => seq![1u8] + command_id.canon() + stage_id.canon() + leg_index.canon() + max_mode_age_ns.canon() + valid_until_ns.canon() + recorded_at_ns.canon(),
            PairedPolicyCommand::AuthorizeHedge { command_id, stage_id, max_mode_age_ns, valid_until_ns, recorded_at_ns } => seq![2u8] + command_id.canon() + stage_id.canon() + max_mode_age_ns.canon() + valid_until_ns.canon() + recorded_at_ns.canon(),
            PairedPolicyCommand::ObserveLeg { command_id, stage_id, leg_index, permit_id, state, source_sequence, observed_at_ns, recorded_at_ns } => seq![3u8] + command_id.canon() + stage_id.canon() + leg_index.canon() + permit_id.canon() + state.canon() + source_sequence.canon() + observed_at_ns.canon() + recorded_at_ns.canon(),
            PairedPolicyCommand::Expire { command_id, stage_id, recorded_at_ns } => seq![4u8] + command_id.canon() + stage_id.canon() + recorded_at_ns.canon(),
            PairedPolicyCommand::AbortSafe { command_id, stage_id, recorded_at_ns } => seq![5u8] + command_id.canon() + stage_id.canon() + recorded_at_ns.canon(),
        }
    }

    fn encode_into(&self, out: &mut Vec<u8>) {
        let ghost start = out@;
        match self {
            PairedPolicyCommand::ObserveMode { command_id, observation, recorded_at_ns } => {
                out.push(0u8);
                command_id.encode_into(out);
                observation.encode_into(out);
                recorded_at_ns.encode_into(out);
            },
            PairedPolicyCommand::AuthorizeFirst { command_id, stage_id, leg_index, max_mode_age_ns, valid_until_ns, recorded_at_ns } => {
                out.push(1u8);
                command_id.encode_into(out);
                stage_id.encode_into(out);
                leg_index.encode_into(out);
                max_mode_age_ns.encode_into(out);
                valid_until_ns.encode_into(out);
                recorded_at_ns.encode_into(out);
            },
            PairedPolicyCommand::AuthorizeHedge { command_id, stage_id, max_mode_age_ns, valid_until_ns, recorded_at_ns } => {
                out.push(2u8);
                command_id.encode_into(out);
                stage_id.encode_into(out);
                max_mode_age_ns.encode_into(out);
                valid_until_ns.encode_into(out);
                recorded_at_ns.encode_into(out);
            },
            PairedPolicyCommand::ObserveLeg { command_id, stage_id, leg_index, permit_id, state, source_sequence, observed_at_ns, recorded_at_ns } => {
                out.push(3u8);
                command_id.encode_into(out);
                stage_id.encode_into(out);
                leg_index.encode_into(out);
                permit_id.encode_into(out);
                state.encode_into(out);
                source_sequence.encode_into(out);
                observed_at_ns.encode_into(out);
                recorded_at_ns.encode_into(out);
            },
            PairedPolicyCommand::Expire { command_id, stage_id, recorded_at_ns } => {
                out.push(4u8);
                command_id.encode_into(out);
                stage_id.encode_into(out);
                recorded_at_ns.encode_into(out);
            },
            PairedPolicyCommand::AbortSafe { command_id, stage_id, recorded_at_ns } => {
                out.push(5u8);
                command_id.encode_into(out);
                stage_id.encode_into(out);
                recorded_at_ns.encode_into(out);
            },
        }
        assert(out@ =~= start + self.canon());
    }
}

impl PairedPolicyCommand {
    pub open spec fn id_of(&self) -> PairedPolicyCommandId {
        match self {
            PairedPolicyCommand::ObserveMode { command_id, .. } => *command_id,
            PairedPolicyCommand::AuthorizeFirst { command_id, .. } => *command_id,
            PairedPolicyCommand::AuthorizeHedge { command_id, .. } => *command_id,
            PairedPolicyCommand::ObserveLeg { command_id, .. } => *command_id,
            PairedPolicyCommand::Expire { command_id, .. } => *command_id,
            PairedPolicyCommand::AbortSafe { command_id, .. } => *command_id,
        }
    }

    pub fn command_id(&self) -> (r: PairedPolicyCommandId)
        ensures
            r == self.id_of(),
    {
        match self {
            PairedPolicyCommand::ObserveMode { command_id, .. } => *command_id,
            PairedPolicyCommand::AuthorizeFirst { command_id, .. } => *command_id,
            PairedPolicyCommand::AuthorizeHedge { command_id, .. } => *command_id,
            PairedPolicyCommand::ObserveLeg { command_id, .. } => *command_id,
            PairedPolicyCommand::Expire { command_id, .. } => *command_id,
            PairedPolicyCommand::AbortSafe { command_id, .. } => *command_id,
        }
    }
}

/// Largest encoded command accepted.
pub const MAX_COMMAND_BYTES: usize = 1048576;

/// Version of the command encoding.
pub const WIRE_VERSION: u16 = 1;

/// A command's timestamps are non-negative and no observation is from after
/// the command was recorded.
pub open spec fn command_timestamps_ok(cmd: PairedPolicyCommand) -> bool {
    &&& cmd.recorded_at() >= 0
    &&& match cmd {
        PairedPolicyCommand::ObserveMode { observation, recorded_at_ns, .. } => observation.observed_at_ns <= recorded_at_ns,
        PairedPolicyCommand::ObserveLeg { observed_at_ns, recorded_at_ns, .. } => observed_at_ns <= recorded_at_ns,
        _ => true,
    }
}

/// The versioned encoding of a command.
pub open spec fn wire_bytes(cmd: PairedPolicyCommand) -> Seq<u8> {
    le_bytes(WIRE_VERSION as nat, 2) + cmd.canon()
}

/// The content digest under which a command id is remembered.
pub open spec fn command_digest(cmd: PairedPolicyCommand) -> Seq<u8> {
    blake3_hash(wire_bytes(cmd))
}

/// Encodes one versioned command after checking its timestamps and size.
pub fn encode_command(cmd: &PairedPolicyCommand) -> (r: Result<Vec<u8>, Error>)
    ensures
        match r {
            Err(e) => if !command_timestamps_ok(*cmd) {
                e == Error::Timestamp
            } else {
                e == Error::CommandBound && wire_bytes(*cmd).len() > MAX_COMMAND_BYTES
            },
            Ok(b) => command_timestamps_ok(*cmd) && b@ == wire_bytes(*cmd) && b@.len() <= MAX_COMMAND_BYTES,
        },
{
    let at = cmd.recorded_at_ns();
    let ok = at >= 0 && match cmd {
        PairedPolicyCommand::ObserveMode { observation, recorded_at_ns, .. } => observation.observed_at_ns <= *recorded_at_ns,
        PairedPolicyCommand::ObserveLeg { observed_at_ns, recorded_at_ns, .. } => *observed_at_ns <= *recorded_at_ns,
        _ => true,
    };
    if !ok {
        return Err(Error::Timestamp);
    }
    let mut bytes: Vec<u8> = Vec::new();
    push_le(&mut bytes, 1u128, 2);
    cmd.encode_into(&mut bytes);
    if bytes.len() > MAX_COMMAND_BYTES {
        return Err(Error::CommandBound);
    }
    Ok(bytes)
}

/// One remembered command: its id, its content digest and its decision.
#[derive(Debug)]
pub struct PolicyEntry {
    pub command_id: PairedPolicyCommandId,
    pub content_digest: [u8; 32],
    pub decision: PairedPolicyDecision,
}

/// What the policy remembers of the commands it accepted, and whether it halted.
pub struct PolicyBook {
    pub processed: Seq<PolicyEntry>,
    pub accepted_commands: u64,
    pub last_recorded_at_ns: Option<i64>,
    pub last_decision: Option<PairedPolicyDecision>,
    pub halted: Option<Seq<char>>,
}

pub open spec fn entry_ids_unique(ps: Seq<PolicyEntry>) -> bool {
    forall|i: int, j: int| 0 <= i < j < ps.len() ==> (#[trigger] ps[i]).command_id.0@ != (#[trigger] ps[j]).command_id.0@
}

pub open spec fn remembers(ps: Seq<PolicyEntry>, id: PairedPolicyCommandId) -> bool {
    exists|i: int| 0 <= i < ps.len() && (#[trigger] ps[i]).command_id.0@ == id.0@
}

pub open spec fn entry_for(ps: Seq<PolicyEntry>, id: PairedPolicyCommandId) -> PolicyEntry {
    ps[choose|i: int| 0 <= i < ps.len() && (#[trigger] ps[i]).command_id.0@ == id.0@]
}

/// The reason text a halting error leaves.
pub open spec fn halt_text(e: Error) -> Seq<char> {
    match e {
        Error::Timestamp => "paired policy command timestamp is invalid"@,
        Error::CommandBound => "paired policy command exceeds its canonical bound"@,
        Error::Json(_) => "paired policy command JSON is invalid"@,
        Error::Version(_) => "unsupported paired policy command version"@,
        Error::IdempotencyConflict => "paired policy command id was reused for different content"@,
        Error::ClockRegression => "paired policy clock regressed"@,
        Error::ModeHistory => "exchange-mode history regressed or equivocated"@,
        Error::Boundary => "paired policy child or subject boundary was substituted"@,
        Error::Overflow => "paired policy arithmetic or counter overflow"@,
        Error::Staging(_) => "paired staging child failed"@,
        Error::Halted(_) => "paired policy is halted"@,
    }
}

fn halt_message(e: &Error) -> (s: String)
    ensures
        s@ == halt_text(*e),
{
    match e {
        Error::Timestamp => "paired policy command timestamp is invalid".to_string(),
        Error::CommandBound => "paired policy command exceeds its canonical bound".to_string(),
        Error::Json(_) => "paired policy command JSON is invalid".to_string(),
        Error::Version(_) => "unsupported paired policy command version".to_string(),
        Error::IdempotencyConflict => "paired policy command id was reused for different content".to_string(),
        Error::ClockRegression => "paired policy clock regressed".to_string(),
        Error::ModeHistory => "exchange-mode history regressed or equivocated".to_string(),
        Error::Boundary => "paired policy child or subject boundary was substituted".to_string(),
        Error::Overflow => "paired policy arithmetic or counter overflow".to_string(),
        Error::Staging(_) => "paired staging child failed".to_string(),
        Error::Halted(_) => "paired policy is halted".to_string(),
    }
}

/// `b2` is `b` halted with the reason of `e`.
pub open spec fn book_halted_with(b: PolicyBook, b2: PolicyBook, e: Error) -> bool {
    b2 == PolicyBook { halted: Some(halt_text(e)), ..b }
}

/// `b2` remembers decision `d` for command `cmd` on top of `b`.
pub open spec fn book_recorded(b: PolicyBook, cmd: PairedPolicyCommand, d: PairedPolicyDecision, b2: PolicyBook) -> bool {
    &&& b2.processed.len() == b.processed.len() + 1
    &&& b2.processed.drop_last() == b.processed
    &&& b2.processed.last().command_id == cmd.id_of()
    &&& b2.processed.last().content_digest@ == command_digest(cmd)
    &&& b2.processed.last().decision == d
    &&& b2.accepted_commands == b.accepted_commands + 1
    &&& b2.last_recorded_at_ns == Some(cmd.recorded_at())
    &&& b2.last_decision == Some(d)
    &&& b2.halted == b.halted
}

/// The complete effect of applying one command to the policy: a halted
/// policy refuses everything; a command with bad timestamps or over the size
/// bound is refused; a replayed command gets its remembered decision; a
/// reused id with other content, a clock regression, counter exhaustion and
/// any failure of a fresh command halt the policy, which then keeps its mode
/// and records; a fresh command otherwise takes its step and is remembered.
pub open spec fn apply_spec(
    mode: Option<ModeObservation>,
    rs: Seq<PairPolicyRecord>,
    b: PolicyBook,
    cmd: PairedPolicyCommand,
    stage: Option<StageView>,
    mode2: Option<ModeObservation>,
    rs2: Seq<PairPolicyRecord>,
    b2: PolicyBook,
    r: Result<PairedPolicyDecision, Error>,
) -> bool {
    let id = cmd.id_of();
    if b.halted is Some {
        mode2 == mode && rs2 == rs && b2 == b && (r matches Err(Error::Halted(s)) && s@ == b.halted->0)
    } else if !command_timestamps_ok(cmd) {
        mode2 == mode && rs2 == rs && b2 == b && r == Err::<PairedPolicyDecision, Error>(Error::Timestamp)
    } else if wire_bytes(cmd).len() > MAX_COMMAND_BYTES {
        mode2 == mode && rs2 == rs && b2 == b && r == Err::<PairedPolicyDecision, Error>(Error::CommandBound)
    } else if remembers(b.processed, id) {
        let e = entry_for(b.processed, id);
        if e.content_digest@ == command_digest(cmd) {
            mode2 == mode && rs2 == rs && b2 == b && r == Ok::<PairedPolicyDecision, Error>(e.decision)
        } else {
            mode2 == mode && rs2 == rs && book_halted_with(b, b2, Error::IdempotencyConflict)
                && r == Err::<PairedPolicyDecision, Error>(Error::IdempotencyConflict)
        }
    } else if b.last_recorded_at_ns matches Some(p) && cmd.recorded_at() < p {
        mode2 == mode && rs2 == rs && book_halted_with(b, b2, Error::ClockRegression)
            && r == Err::<PairedPolicyDecision, Error>(Error::ClockRegression)
    } else if b.accepted_commands == u64::MAX {
        mode2 == mode && rs2 == rs && book_halted_with(b, b2, Error::Overflow)
            && r == Err::<PairedPolicyDecision, Error>(Error::Overflow)
    } else {
        &&& fresh_step(mode, rs, cmd, stage, mode2, rs2, r)
        &&& match r {
            Ok(d) => book_recorded(b, cmd, d, b2),
            Err(e) => mode2 == mode && rs2 == rs && book_halted_with(b, b2, e),
        }
    }
}

/// Two stage ids name the same pair.
pub open spec fn same_stage(a: PairStageId, b: PairStageId) -> bool {
    a.0@ == b.0@
}

pub open spec fn stage_ids_unique(rs: Seq<PairPolicyRecord>) -> bool {
    forall|i: int, j: int| 0 <= i < j < rs.len() ==> !same_stage(#[trigger] rs[i].stage_id, #[trigger] rs[j].stage_id)
}

pub open spec fn has_stage(rs: Seq<PairPolicyRecord>, id: PairStageId) -> bool {
    exists|i: int| 0 <= i < rs.len() && same_stage(#[trigger] rs[i].stage_id, id)
}

/// Where the record of pair `id` stands, if the policy has one.
pub open spec fn index_of(rs: Seq<PairPolicyRecord>, id: PairStageId) -> Option<int> {
    if has_stage(rs, id) {
        Some(choose|i: int| 0 <= i < rs.len() && same_stage(#[trigger] rs[i].stage_id, id))
    } else {
        None
    }
}

pub open spec fn lookup(rs: Seq<PairPolicyRecord>, id: PairStageId) -> Option<PairPolicyRecord> {
    match index_of(rs, id) {
        Some(i) => Some(rs[i]),
        None => None,
    }
}

/// `d` answers `command_id` with these values, under its own digest.
pub open spec fn decided(
    d: PairedPolicyDecision,
    command_id: PairedPolicyCommandId,
    status: PairedPolicyStatus,
    reason: PairedPolicyReason,
    stage_id: Option<PairStageId>,
    permit: Option<PairPermit>,
) -> bool {
    &&& d.command_id == command_id
    &&& d.status == status
    &&& d.reason == reason
    &&& d.stage_id == stage_id
    &&& d.permit == permit
    &&& d.decision_digest@ == policy_decision_digest_spec(d)
}

/// One authorization: refused, denied with a reason, or a permit issued and
/// recorded on its leg.
pub open spec fn authorize_step(
    mode: Option<ModeObservation>,
    rs: Seq<PairPolicyRecord>,
    command_id: PairedPolicyCommandId,
    stage_id: PairStageId,
    leg: u8,
    role: LegRole,
    max_mode_age_ns: i64,
    valid_until_ns: i64,
    at: i64,
    stage: Option<StageView>,
    rs2: Seq<PairPolicyRecord>,
    r: Result<PairedPolicyDecision, Error>,
) -> bool {
    if stage matches Some(s) && !same_stage(s.stage_id, stage_id) {
        r == Err::<PairedPolicyDecision, Error>(Error::Boundary) && rs2 == rs
    } else {
        match authorization_check(stage, lookup(rs, stage_id), mode, leg, role, max_mode_age_ns, valid_until_ns, at) {
            Err(e) => r == Err::<PairedPolicyDecision, Error>(e) && rs2 == rs,
            Ok(Some(reason)) => rs2 == rs && (r matches Ok(d)
                && decided(d, command_id, PairedPolicyStatus::Denied, reason, Some(stage_id), None)),
            Ok(None) => {
                let i = index_of(rs, stage_id)->0;
                &&& r matches Ok(d) && d.permit matches Some(p)
                    && decided(d, command_id, PairedPolicyStatus::Accepted, PairedPolicyReason::PermissionIssued, Some(stage_id), Some(p))
                    && permit_for(p, stage->0, mode->0, leg, role, valid_until_ns, at)
                    && authorized(rs[i], leg, role, p, rs2[i])
                &&& rs2 == rs.update(i, rs2[i])
            },
        }
    }
}

/// What one command does to the policy's mode and records, and what it answers.
pub open spec fn fresh_step(
    mode: Option<ModeObservation>,
    rs: Seq<PairPolicyRecord>,
    cmd: PairedPolicyCommand,
    stage: Option<StageView>,
    mode2: Option<ModeObservation>,
    rs2: Seq<PairPolicyRecord>,
    r: Result<PairedPolicyDecision, Error>,
) -> bool {
    match cmd {
        PairedPolicyCommand::ObserveMode { command_id, observation, .. } => rs2 == rs && match mode_check(mode, observation) {
            Err(e) => r == Err::<PairedPolicyDecision, Error>(e) && mode2 == mode,
            Ok(_) => mode2 == Some(observation) && (r matches Ok(d)
                && decided(d, command_id, PairedPolicyStatus::Accepted, PairedPolicyReason::ModeAccepted, None, None)),
        },
        PairedPolicyCommand::AuthorizeFirst { command_id, stage_id, leg_index, max_mode_age_ns, valid_until_ns, recorded_at_ns } => {
            mode2 == mode && authorize_step(mode, rs, command_id, stage_id, leg_index, LegRole::First, max_mode_age_ns,
                valid_until_ns, recorded_at_ns, stage, rs2, r)
        },
        PairedPolicyCommand::AuthorizeHedge { command_id, stage_id, max_mode_age_ns, valid_until_ns, recorded_at_ns } => {
            mode2 == mode && match lookup(rs, stage_id) {
                None => r == Err::<PairedPolicyDecision, Error>(Error::Boundary) && rs2 == rs,
                Some(rec) => match hedge_of(rec) {
                    Err(e) => r == Err::<PairedPolicyDecision, Error>(e) && rs2 == rs,
                    Ok(h) => authorize_step(mode, rs, command_id, stage_id, h, LegRole::Hedge, max_mode_age_ns,
                        valid_until_ns, recorded_at_ns, stage, rs2, r),
                },
            }
        },
        PairedPolicyCommand::ObserveLeg {
            command_id,
            stage_id,
            leg_index,
            permit_id,
            state,
            source_sequence,
            observed_at_ns,
            recorded_at_ns,
        } => {
            &&& mode2 == mode
            &&& if leg_index > 1 || observed_at_ns < 0 || observed_at_ns > recorded_at_ns {
                r == Err::<PairedPolicyDecision, Error>(Error::Timestamp) && rs2 == rs
            } else {
                match index_of(rs, stage_id) {
                    None => r == Err::<PairedPolicyDecision, Error>(Error::Boundary) && rs2 == rs,
                    Some(i) => match leg_observation_check(rs[i], leg_index, permit_id, state, source_sequence,
                        observed_at_ns, recorded_at_ns) {
                        Err(e) => r == Err::<PairedPolicyDecision, Error>(e) && rs2 == rs,
                        Ok(_) => {
                            &&& rs2 == rs.update(i, rs2[i])
                            &&& leg_observed(rs[i], leg_index, state, source_sequence, observed_at_ns, rs2[i])
                            &&& r matches Ok(d) && decided(d, command_id, PairedPolicyStatus::Accepted,
                                PairedPolicyReason::LifecycleAccepted, Some(stage_id), None)
                        },
                    },
                }
            }
        },
        PairedPolicyCommand::Expire { command_id, stage_id, recorded_at_ns } => {
            &&& mode2 == mode
            &&& match index_of(rs, stage_id) {
                None => r == Err::<PairedPolicyDecision, Error>(Error::Boundary) && rs2 == rs,
                Some(i) => {
                    let any = expires_now(rs[i], 0, recorded_at_ns) || expires_now(rs[i], 1, recorded_at_ns);
                    &&& rs2 == rs.update(i, rs2[i])
                    &&& expired_record(rs[i], recorded_at_ns, rs2[i])
                    &&& r matches Ok(d) && decided(d, command_id, PairedPolicyStatus::Accepted,
                        if any { PairedPolicyReason::PermissionExpired } else { PairedPolicyReason::NothingExpired },
                        Some(stage_id), None)
                },
            }
        },
        PairedPolicyCommand::AbortSafe { command_id, stage_id, .. } => {
            &&& mode2 == mode
            &&& if lookup(rs, stage_id) matches Some(rec) && abortable(rec) {
                let i = index_of(rs, stage_id)->0;
                &&& rs2 == rs.update(i, rs2[i])
                &&& rs2[i] == (PairPolicyRecord { aborted: true, record_digest: rs2[i].record_digest, ..rs[i] })
                &&& resealed(rs2[i])
                &&& r matches Ok(d) && decided(d, command_id, PairedPolicyStatus::Accepted, PairedPolicyReason::Aborted,
                    Some(stage_id), None)
            } else {
                rs2 == rs && (r matches Ok(d) && decided(d, command_id, PairedPolicyStatus::Denied,
                    PairedPolicyReason::UnsafeAbort, Some(stage_id), None))
            }
        },
    }
}

/// What the staging runtime's answer does to the records: no trade changes
/// nothing; a fully reserved stage whose boundary checked out and that has no
/// record yet gets a fresh one; any other stage is refused.
pub open spec fn staging_recorded(
    rs: Seq<PairPolicyRecord>,
    command_id: PairedPolicyCommandId,
    staged: Option<StageView>,
    rs2: Seq<PairPolicyRecord>,
    r: Result<PairedPolicyDecision, Error>,
) -> bool {
    match staged {
        None => rs2 == rs && (r matches Ok(d)
            && decided(d, command_id, PairedPolicyStatus::Denied, PairedPolicyReason::PairNoTrade, None, None)),
        Some(s) => if !s.boundary_ok || !s.fully_reserved || has_stage(rs, s.stage_id) {
            r == Err::<PairedPolicyDecision, Error>(Error::Boundary) && rs2 == rs
        } else {
            &&& rs2 == rs.push(rs2.last())
            &&& fresh_record(s, rs2.last())
            &&& r matches Ok(d) && decided(d, command_id, PairedPolicyStatus::Accepted, PairedPolicyReason::Staged,
                Some(s.stage_id), None)
        },
    }
}

impl Canonical for PolicyEntry {
    open spec fn canon(&self) -> Seq<u8> {
        self.command_id.canon() + self.content_digest.canon() + self.decision.canon()
    }

    fn encode_into(&self, out: &mut Vec<u8>) {
        let ghost start = out@;
        self.command_id.encode_into(out);
        self.content_digest.encode_into(out);
        self.decision.encode_into(out);
        assert(out@ =~= start + self.canon());
    }
}

/// The canonical encoding of an optional text.
pub open spec fn text_canon(t: Option<Seq<char>>) -> Seq<u8> {
    match t {
        None => seq![0u8],
        Some(s) => seq![1u8] + le_bytes(vstd::utf8::encode_utf8(s).len(), 8) + vstd::utf8::encode_utf8(s),
    }
}

/// The canonical encoding of the policy's state.
pub open spec fn state_canon(mode: Option<ModeObservation>, rs: Seq<PairPolicyRecord>, b: PolicyBook) -> Seq<u8> {
    mode.canon() + le_bytes(rs.len(), 8) + seq_canon(rs) + le_bytes(b.processed.len(), 8) + seq_canon(b.processed)
        + le_bytes(b.accepted_commands as nat, 8) + b.last_recorded_at_ns.canon() + b.last_decision.canon()
        + text_canon(b.halted)
}

/// Domain of the policy state digest.
pub open spec fn state_domain() -> Seq<u8> {
    "paired-placement-policy-state-v1".spec_bytes()
}

pub open spec fn state_digest_spec(mode: Option<ModeObservation>, rs: Seq<PairPolicyRecord>, b: PolicyBook) -> Seq<u8> {
    domain_digest(state_domain(), state_canon(mode, rs, b))
}

/// How many staged pairs are not aborted.
pub open spec fn active_pairs(rs: Seq<PairPolicyRecord>) -> nat
    decreases rs.len(),
{
    if rs.len() == 0 {
        0
    } else {
        active_pairs(rs.drop_last()) + (if rs.last().aborted { 0nat } else { 1nat })
    }
}

/// How many legs, over all pairs, may have traded.
pub open spec fn exposure_legs(rs: Seq<PairPolicyRecord>) -> nat
    decreases rs.len(),
{
    if rs.len() == 0 {
        0
    } else {
        exposure_legs(rs.drop_last()) + (if rs.last().legs[0].fill_possible() { 1nat } else { 0nat })
            + (if rs.last().legs[1].fill_possible() { 1nat } else { 0nat })
    }
}

/// `n` capped at `usize::MAX`.
pub open spec fn capped(n: nat) -> usize {
    if n > usize::MAX { usize::MAX } else { n as usize }
}

/// The observable state of the policy, with its digest.
#[derive(Debug)]
pub struct PairedPolicySnapshot {
    pub accepted_commands: u64,
    pub mode: ExchangeMode,
    pub mode_sequence: Option<u64>,
    pub pair_records: Vec<PairPolicyRecord>,
    pub active_reservation_count: usize,
    pub possible_exposure_legs: usize,
    pub halted: bool,
    pub halt_reason: Option<String>,
    pub digest: [u8; 32],
}

/// The text an optional string holds.
pub open spec fn text_view(t: Option<String>) -> Option<Seq<char>> {
    match t {
        Some(x) => Some(x@),
        None => None,
    }
}

/// A copy of a record with the same fields.
pub fn copy_record(r: &PairPolicyRecord) -> (c: PairPolicyRecord)
    ensures
        c == *r,
{
    let first = match &r.permits[0] {
        Some(p) => Some(p.duplicate()),
        None => None,
    };
    let second = match &r.permits[1] {
        Some(p) => Some(p.duplicate()),
        None => None,
    };
    let c = PairPolicyRecord {
        stage_id: r.stage_id,
        stage_record_digest: r.stage_record_digest,
        first_leg: r.first_leg,
        legs: r.legs,
        permits: [first, second],
        source_sequences: r.source_sequences,
        source_observed_at_ns: r.source_observed_at_ns,
        ever_partially_matched: r.ever_partially_matched,
        aborted: r.aborted,
        record_digest: r.record_digest,
    };
    assert(c.permits =~= r.permits);
    c
}

/// A copy of a decision with the same fields.
pub fn copy_decision(d: &PairedPolicyDecision) -> (r: PairedPolicyDecision)
    ensures
        r == *d,
{
    PairedPolicyDecision {
        command_id: d.command_id,
        status: d.status,
        reason: d.reason,
        stage_id: d.stage_id,
        permit: match &d.permit {
            Some(p) => Some(p.duplicate()),
            None => None,
        },
        decision_digest: d.decision_digest,
    }
}

/// The paired placement policy: the last exchange mode it accepted and one
/// record per staged pair.
pub struct PairedPlacementPolicy {
    mode: Option<ModeObservation>,
    records: Vec<PairPolicyRecord>,
    processed: Vec<PolicyEntry>,
    accepted_commands: u64,
    last_recorded_at_ns: Option<i64>,
    last_decision: Option<PairedPolicyDecision>,
    halted: Option<String>,
}

fn decide(
    command_id: PairedPolicyCommandId,
    status: PairedPolicyStatus,
    reason: PairedPolicyReason,
    stage_id: Option<PairStageId>,
    permit: Option<PairPermit>,
) -> (d: PairedPolicyDecision)
    ensures
        decided(d, command_id, status, reason, stage_id, permit),
{
    PairedPolicyDecision { command_id, status, reason, stage_id, permit, decision_digest: [0u8; 32] }.sealed()
}

impl PairedPlacementPolicy {
    pub closed spec fn mode_view(&self) -> Option<ModeObservation> {
        self.mode
    }

    pub closed spec fn records_view(&self) -> Seq<PairPolicyRecord> {
        self.records@
    }

    /// Each staged pair has one record.
    pub closed spec fn book_view(&self) -> PolicyBook {
        PolicyBook {
            processed: self.processed@,
            accepted_commands: self.accepted_commands,
            last_recorded_at_ns: self.last_recorded_at_ns,
            last_decision: self.last_decision,
            halted: match self.halted {
                Some(s) => Some(s@),
                None => None,
            },
        }
    }

    /// Each staged pair has one record and each remembered command one entry.
    pub open spec fn wf(&self) -> bool {
        stage_ids_unique(self.records_view()) && entry_ids_unique(self.book_view().processed)
    }

    pub fn new() -> (p: Self)
        ensures
            p.wf(),
            p.mode_view() is None,
            p.records_view().len() == 0,
            p.book_view().processed.len() == 0,
            p.book_view().accepted_commands == 0,
            p.book_view().last_recorded_at_ns is None,
            p.book_view().last_decision is None,
            p.book_view().halted is None,
    {
        PairedPlacementPolicy {
            mode: None,
            records: Vec::new(),
            processed: Vec::new(),
            accepted_commands: 0,
            last_recorded_at_ns: None,
            last_decision: None,
            halted: None,
        }
    }

    pub fn mode(&self) -> (r: Option<ModeObservation>)
        ensures
            r == self.mode_view(),
    {
        self.mode
    }

    fn find(&self, id: &PairStageId) -> (r: Option<usize>)
        requires
            self.wf(),
        ensures
            match r {
                Some(i) => index_of(self.records_view(), *id) == Some(i as int) && i < self.records_view().len(),
                None => index_of(self.records_view(), *id) is None,
            },
    {
        let mut i: usize = 0;
        while i < self.records.len()
            invariant
                i <= self.records@.len(),
                stage_ids_unique(self.records@),
                forall|k: int| 0 <= k < i ==> !same_stage(#[trigger] self.records@[k].stage_id, *id),
            decreases self.records@.len() - i,
        {
            if digest_eq(&self.records[i].stage_id.0, &id.0) {
                let ghost rs = self.records@;
                assert(has_stage(rs, *id));
                let ghost c = choose|j: int| 0 <= j < rs.len() && same_stage(#[trigger] rs[j].stage_id, *id);
                assert(c == i as int) by {
                    if c > i as int {
                        assert(same_stage(rs[i as int].stage_id, rs[c].stage_id));
                    }
                }
                return Some(i);
            }
            i = i + 1;
        }
        None
    }

    /// The record of pair `id`, if the policy has one.
    pub fn record(&self, id: &PairStageId) -> (r: Option<&PairPolicyRecord>)
        requires
            self.wf(),
        ensures
            match r {
                Some(x) => lookup(self.records_view(), *id) == Some(*x),
                None => lookup(self.records_view(), *id) is None,
            },
    {
        match self.find(id) {
            Some(i) => Some(&self.records[i]),
            None => None,
        }
    }

    fn authorize(
        &mut self,
        command_id: PairedPolicyCommandId,
        stage_id: PairStageId,
        leg: u8,
        role: LegRole,
        max_mode_age_ns: i64,
        valid_until_ns: i64,
        at: i64,
        stage: Option<&StageView>,
    ) -> (r: Result<PairedPolicyDecision, Error>)
        requires
            old(self).wf(),
        ensures
            final(self).wf(),
            final(self).mode_view() == old(self).mode_view(),
            authorize_step(old(self).mode_view(), old(self).records_view(), command_id, stage_id, leg, role,
                max_mode_age_ns, valid_until_ns, at, match stage { Some(s) => Some(*s), None => None },
                final(self).records_view(), r),
            final(self).book_view() == old(self).book_view(),
    {
        match stage {
            Some(s) => if !digest_eq(&s.stage_id.0, &stage_id.0) {
                return Err(Error::Boundary);
            },
            None => {},
        }
        let found = self.find(&stage_id);
        let denial = match found {
            Some(i) => authorization_denial(stage, Some(&self.records[i]), self.mode, leg, role, max_mode_age_ns, valid_until_ns, at),
            None => authorization_denial(stage, None, self.mode, leg, role, max_mode_age_ns, valid_until_ns, at),
        };
        match denial? {
            Some(reason) => {
                return Ok(decide(command_id, PairedPolicyStatus::Denied, reason, Some(stage_id), None));
            },
            None => {},
        }
        let s = match stage {
            Some(s) => s,
            None => {
                return Err(Error::Boundary);
            },
        };
        let m = match self.mode {
            Some(m) => m,
            None => {
                return Err(Error::Boundary);
            },
        };
        let i = match found {
            Some(i) => i,
            None => {
                return Err(Error::Boundary);
            },
        };
        let permit = issue_permit(s, &m, leg, role, valid_until_ns, at);
        let ghost before = self.records@;
        let mut rec = self.records.remove(i);
        grant(&mut rec, leg, role, permit.duplicate());
        self.records.insert(i, rec);
        proof {
            assert(self.records@ =~= before.update(i as int, self.records@[i as int]));
            lemma_update_keeps_unique(before, i as int, self.records@[i as int]);
        }
        Ok(decide(command_id, PairedPolicyStatus::Accepted, PairedPolicyReason::PermissionIssued, Some(stage_id), Some(permit)))
    }

    /// Applies one command the policy decides itself. `stage` is what the
    /// staging runtime holds for the pair an authorization names.
    #[verifier::rlimit(40)]
    pub fn apply_fresh(&mut self, cmd: &PairedPolicyCommand, stage: Option<&StageView>) -> (r: Result<PairedPolicyDecision, Error>)
        requires
            old(self).wf(),
        ensures
            final(self).wf(),
            fresh_step(old(self).mode_view(), old(self).records_view(), *cmd, match stage { Some(s) => Some(*s), None => None },
                final(self).mode_view(), final(self).records_view(), r),
            final(self).book_view() == old(self).book_view(),
    {
        match cmd {
            PairedPolicyCommand::ObserveMode { command_id, observation, .. } => {
                observe_mode(&mut self.mode, *observation)?;
                Ok(decide(*command_id, PairedPolicyStatus::Accepted, PairedPolicyReason::ModeAccepted, None, None))
            },
            PairedPolicyCommand::AuthorizeFirst { command_id, stage_id, leg_index, max_mode_age_ns, valid_until_ns, recorded_at_ns } => {
                self.authorize(*command_id, *stage_id, *leg_index, LegRole::First, *max_mode_age_ns, *valid_until_ns,
                    *recorded_at_ns, stage)
            },
            PairedPolicyCommand::AuthorizeHedge { command_id, stage_id, max_mode_age_ns, valid_until_ns, recorded_at_ns } => {
                let i = match self.find(stage_id) {
                    Some(i) => i,
                    None => {
                        return Err(Error::Boundary);
                    },
                };
                let hedge = hedge_leg(&self.records[i])?;
                self.authorize(*command_id, *stage_id, hedge, LegRole::Hedge, *max_mode_age_ns, *valid_until_ns,
                    *recorded_at_ns, stage)
            },
            PairedPolicyCommand::ObserveLeg {
                command_id,
                stage_id,
                leg_index,
                permit_id,
                state,
                source_sequence,
                observed_at_ns,
                recorded_at_ns,
            } => {
                if *leg_index > 1 || *observed_at_ns < 0 || *observed_at_ns > *recorded_at_ns {
                    return Err(Error::Timestamp);
                }
                let i = match self.find(stage_id) {
                    Some(i) => i,
                    None => {
                        return Err(Error::Boundary);
                    },
                };
                let ghost before = self.records@;
                let mut rec = self.records.remove(i);
                let outcome = observe_leg(&mut rec, *leg_index, *permit_id, *state, *source_sequence, *observed_at_ns,
                    *recorded_at_ns);
                self.records.insert(i, rec);
                proof {
                    assert(self.records@ =~= before.update(i as int, self.records@[i as int]));
                    lemma_update_keeps_unique(before, i as int, self.records@[i as int]);
                }
                match outcome {
                    Ok(_) => Ok(decide(*command_id, PairedPolicyStatus::Accepted, PairedPolicyReason::LifecycleAccepted,
                        Some(*stage_id), None)),
                    Err(e) => {
                        assert(self.records@ =~= before);
                        Err(e)
                    },
                }
            },
            PairedPolicyCommand::Expire { command_id, stage_id, recorded_at_ns } => {
                let i = match self.find(stage_id) {
                    Some(i) => i,
                    None => {
                        return Err(Error::Boundary);
                    },
                };
                let ghost before = self.records@;
                let mut rec = self.records.remove(i);
                let expired = expire_legs(&mut rec, *recorded_at_ns);
                self.records.insert(i, rec);
                proof {
                    assert(self.records@ =~= before.update(i as int, self.records@[i as int]));
                    lemma_update_keeps_unique(before, i as int, self.records@[i as int]);
                }
                let reason = if expired { PairedPolicyReason::PermissionExpired } else { PairedPolicyReason::NothingExpired };
                Ok(decide(*command_id, PairedPolicyStatus::Accepted, reason, Some(*stage_id), None))
            },
            PairedPolicyCommand::AbortSafe { command_id, stage_id, .. } => {
                let found = self.find(stage_id);
                let i = match found {
                    Some(i) => if may_abort(&self.records[i]) { i } else {
                        return Ok(decide(*command_id, PairedPolicyStatus::Denied, PairedPolicyReason::UnsafeAbort,
                            Some(*stage_id), None));
                    },
                    None => {
                        return Ok(decide(*command_id, PairedPolicyStatus::Denied, PairedPolicyReason::UnsafeAbort,
                            Some(*stage_id), None));
                    },
                };
                let ghost before = self.records@;
                let mut rec = self.records.remove(i);
                mark_aborted(&mut rec);
                self.records.insert(i, rec);
                proof {
                    assert(self.records@ =~= before.update(i as int, self.records@[i as int]));
                    lemma_update_keeps_unique(before, i as int, self.records@[i as int]);
                }
                Ok(decide(*command_id, PairedPolicyStatus::Accepted, PairedPolicyReason::Aborted, Some(*stage_id), None))
            },
        }
    }

    /// Whether an integrity failure has halted the policy.
    pub fn is_halted(&self) -> (r: bool)
        ensures
            r == (self.book_view().halted is Some),
    {
        self.halted.is_some()
    }

    fn lookup_entry(&self, id: &PairedPolicyCommandId) -> (r: Option<usize>)
        requires
            self.wf(),
        ensures
            match r {
                Some(i) => i < self.book_view().processed.len()
                    && self.book_view().processed[i as int] == entry_for(self.book_view().processed, *id)
                    && remembers(self.book_view().processed, *id),
                None => !remembers(self.book_view().processed, *id),
            },
    {
        let mut i: usize = 0;
        while i < self.processed.len()
            invariant
                i <= self.processed@.len(),
                entry_ids_unique(self.processed@),
                forall|j: int| 0 <= j < i ==> (#[trigger] self.processed@[j]).command_id.0@ != id.0@,
            decreases self.processed@.len() - i,
        {
            if digest_eq(&self.processed[i].command_id.0, &id.0) {
                proof {
                    let ps = self.processed@;
                    let k = choose|k: int| 0 <= k < ps.len() && (#[trigger] ps[k]).command_id.0@ == id.0@;
                    if k > i {
                        assert(ps[i as int].command_id.0@ != ps[k].command_id.0@);
                    }
                }
                return Some(i);
            }
            i = i + 1;
        }
        None
    }

    fn install_halt(&mut self, error: Error) -> (r: Result<PairedPolicyDecision, Error>)
        requires
            old(self).wf(),
        ensures
            final(self).wf(),
            r == Err::<PairedPolicyDecision, Error>(error),
            book_halted_with(old(self).book_view(), final(self).book_view(), error),
            final(self).mode_view() == old(self).mode_view(),
            final(self).records_view() == old(self).records_view(),
    {
        self.halted = Some(halt_message(&error));
        Err(error)
    }

    /// Applies one command: a halted policy refuses everything; a replayed
    /// command gets its remembered decision; a reused id with other content,
    /// a clock regression and any failure of a fresh command halt the policy.
    /// `stage` is what the staging runtime holds for the pair an
    /// authorization names.
    #[verifier::rlimit(60)]
    pub fn apply(&mut self, cmd: &PairedPolicyCommand, stage: Option<&StageView>) -> (r: Result<PairedPolicyDecision, Error>)
        requires
            old(self).wf(),
        ensures
            final(self).wf(),
            apply_spec(old(self).mode_view(), old(self).records_view(), old(self).book_view(), *cmd,
                match stage { Some(s) => Some(*s), None => None }, final(self).mode_view(), final(self).records_view(),
                final(self).book_view(), r),
    {
        if let Some(reason) = &self.halted {
            return Err(Error::Halted(reason.clone()));
        }
        let bytes = encode_command(cmd)?;
        let digest = blake3_digest(bytes.as_slice());
        let id = cmd.command_id();
        if let Some(i) = self.lookup_entry(&id) {
            if digest_eq(&self.processed[i].content_digest, &digest) {
                return Ok(copy_decision(&self.processed[i].decision));
            }
            return self.install_halt(Error::IdempotencyConflict);
        }
        let at = cmd.recorded_at_ns();
        if let Some(previous) = self.last_recorded_at_ns {
            if at < previous {
                return self.install_halt(Error::ClockRegression);
            }
        }
        if self.accepted_commands == u64::MAX {
            return self.install_halt(Error::Overflow);
        }
        let ghost before_book = self.book_view();
        let decision = match self.apply_fresh(cmd, stage) {
            Ok(d) => d,
            Err(e) => {
                return self.install_halt(e);
            },
        };
        let entry = PolicyEntry { command_id: id, content_digest: digest, decision: copy_decision(&decision) };
        proof {
            let ps = self.processed@;
            assert forall|a: int, b: int| 0 <= a < b < ps.push(entry).len() implies
                (#[trigger] ps.push(entry)[a]).command_id.0@ != (#[trigger] ps.push(entry)[b]).command_id.0@ by {
                assert(ps.push(entry)[a] == ps[a]);
                if b < ps.len() {
                    assert(ps.push(entry)[b] == ps[b]);
                }
            }
        }
        self.processed.push(entry);
        self.accepted_commands = self.accepted_commands + 1;
        self.last_recorded_at_ns = Some(at);
        self.last_decision = Some(copy_decision(&decision));
        assert(self.book_view().processed.drop_last() =~= before_book.processed);
        Ok(decision)
    }

    fn state_digest(&self) -> (r: [u8; 32])
        ensures
            r@ == state_digest_spec(self.mode_view(), self.records_view(), self.book_view()),
    {
        let mut body: Vec<u8> = Vec::new();
        let ghost b = self.book_view();
        self.mode.encode_into(&mut body);
        self.records.encode_into(&mut body);
        let ghost a1 = self.mode.canon() + le_bytes(self.records@.len(), 8) + seq_canon(self.records@);
        assert(body@ =~= a1);
        self.processed.encode_into(&mut body);
        let ghost a2 = a1 + le_bytes(b.processed.len(), 8) + seq_canon(b.processed);
        assert(body@ =~= a2);
        push_le(&mut body, self.accepted_commands as u128, 8);
        self.last_recorded_at_ns.encode_into(&mut body);
        self.last_decision.encode_into(&mut body);
        self.halted.encode_into(&mut body);
        assert(self.halted.canon() == text_canon(b.halted));
        assert(body@ =~= a2 + le_bytes(b.accepted_commands as nat, 8) + b.last_recorded_at_ns.canon()
            + b.last_decision.canon() + text_canon(b.halted));
        assert(body@ =~= state_canon(self.mode_view(), self.records_view(), b));
        digest_domain("paired-placement-policy-state-v1".as_bytes(), body.as_slice())
    }

    /// The observable state of the policy, with its digest. The counts are
    /// capped at `usize::MAX`.
    pub fn snapshot(&self) -> (s: PairedPolicySnapshot)
        ensures
            s.accepted_commands == self.book_view().accepted_commands,
            s.mode == (match self.mode_view() {
                Some(m) => m.mode,
                None => ExchangeMode::Unknown,
            }),
            s.mode_sequence == (match self.mode_view() {
                Some(m) => Some(m.sequence),
                None => None::<u64>,
            }),
            s.pair_records@.len() == self.records_view().len(),
            forall|i: int| 0 <= i < s.pair_records@.len() ==> #[trigger] s.pair_records@[i] == self.records_view()[i],
            s.active_reservation_count == capped(2 * active_pairs(self.records_view())),
            s.possible_exposure_legs == capped(exposure_legs(self.records_view())),
            s.halted == (self.book_view().halted is Some),
            text_view(s.halt_reason) == self.book_view().halted,
            s.digest@ == state_digest_spec(self.mode_view(), self.records_view(), self.book_view()),
    {
        let mut records: Vec<PairPolicyRecord> = Vec::new();
        let mut active: usize = 0;
        let mut legs: usize = 0;
        let mut i: usize = 0;
        while i < self.records.len()
            invariant
                i <= self.records@.len(),
                records@.len() == i,
                forall|k: int| 0 <= k < i ==> #[trigger] records@[k] == self.records@[k],
                active == capped(2 * active_pairs(self.records@.take(i as int))),
                legs == capped(exposure_legs(self.records@.take(i as int))),
            decreases self.records@.len() - i,
        {
            let ghost t = self.records@.take(i as int + 1);
            assert(t.drop_last() =~= self.records@.take(i as int));
            let r = &self.records[i];
            if !r.aborted {
                active = active.saturating_add(2);
            }
            if r.legs[0].possible_fill() {
                legs = legs.saturating_add(1);
            }
            if r.legs[1].possible_fill() {
                legs = legs.saturating_add(1);
            }
            records.push(copy_record(r));
            i = i + 1;
        }
        assert(self.records@.take(self.records@.len() as int) =~= self.records@);
        PairedPolicySnapshot {
            accepted_commands: self.accepted_commands,
            mode: match self.mode {
                Some(m) => m.mode,
                None => ExchangeMode::Unknown,
            },
            mode_sequence: match self.mode {
                Some(m) => Some(m.sequence),
                None => None,
            },
            pair_records: records,
            active_reservation_count: active,
            possible_exposure_legs: legs,
            halted: self.halted.is_some(),
            halt_reason: match &self.halted {
                Some(h) => Some(h.clone()),
                None => None,
            },
            digest: self.state_digest(),
        }
    }

    /// Takes the staging runtime's answer to a staging request: `None` when
    /// the pair was not traded, else the fully reserved stage, which gets a
    /// fresh record.
    pub fn record_staged(&mut self, command_id: PairedPolicyCommandId, staged: Option<&StageView>) -> (r: Result<PairedPolicyDecision, Error>)
        requires
            old(self).wf(),
        ensures
            final(self).wf(),
            final(self).mode_view() == old(self).mode_view(),
            staging_recorded(old(self).records_view(), command_id, match staged { Some(s) => Some(*s), None => None },
                final(self).records_view(), r),
            final(self).book_view() == old(self).book_view(),
    {
        let s = match staged {
            None => {
                return Ok(decide(command_id, PairedPolicyStatus::Denied, PairedPolicyReason::PairNoTrade, None, None));
            },
            Some(s) => s,
        };
        if !s.boundary_ok || !s.fully_reserved {
            return Err(Error::Boundary);
        }
        match self.find(&s.stage_id) {
            Some(_) => {
                return Err(Error::Boundary);
            },
            None => {},
        }
        let ghost before = self.records@;
        let rec = new_policy_record(s);
        self.records.push(rec);
        proof {
            assert forall|a: int, b: int| 0 <= a < b < self.records@.len() implies !same_stage(
                #[trigger] self.records@[a].stage_id, #[trigger] self.records@[b].stage_id) by {
                if b == before.len() {
                    assert(self.records@[a] == before[a]);
                    if same_stage(before[a].stage_id, s.stage_id) {
                        assert(has_stage(before, s.stage_id));
                    }
                }
            }
        }
        Ok(decide(command_id, PairedPolicyStatus::Accepted, PairedPolicyReason::Staged, Some(s.stage_id), None))
    }
}

proof fn lemma_update_keeps_unique(rs: Seq<PairPolicyRecord>, i: int, n: PairPolicyRecord)
    requires
        stage_ids_unique(rs),
        0 <= i < rs.len(),
        n.stage_id == rs[i].stage_id,
    ensures
        stage_ids_unique(rs.update(i, n)),
{
    let u = rs.update(i, n);
    assert forall|a: int, b: int| 0 <= a < b < u.len() implies !same_stage(#[trigger] u[a].stage_id, #[trigger] u[b].stage_id) by {
        assert(u[a].stage_id == rs[a].stage_id);
        assert(u[b].stage_id == rs[b].stage_id);
    }
}

/// A halted policy is absorbing: every further command is refused with the
/// recorded halt reason and changes nothing.
pub proof fn law_halted_policy_absorbs(
    mode: Option<ModeObservation>,
    rs: Seq<PairPolicyRecord>,
    b: PolicyBook,
    cmd: PairedPolicyCommand,
    stage: Option<StageView>,
    mode2: Option<ModeObservation>,
    rs2: Seq<PairPolicyRecord>,
    b2: PolicyBook,
    r: Result<PairedPolicyDecision, Error>,
)
    requires
        apply_spec(mode, rs, b, cmd, stage, mode2, rs2, b2, r),
        b.halted is Some,
    ensures
        mode2 == mode && rs2 == rs && b2 == b,
        r matches Err(Error::Halted(s)) && s@ == b.halted->0,
{
}

/// Applying an accepted command a second time returns the same decision and
/// changes nothing.
pub proof fn law_policy_replay_is_idempotent(
    mode: Option<ModeObservation>,
    rs: Seq<PairPolicyRecord>,
    b: PolicyBook,
    cmd: PairedPolicyCommand,
    stage: Option<StageView>,
    mode2: Option<ModeObservation>,
    rs2: Seq<PairPolicyRecord>,
    b2: PolicyBook,
    d: PairedPolicyDecision,
    stage2: Option<StageView>,
    mode3: Option<ModeObservation>,
    rs3: Seq<PairPolicyRecord>,
    b3: PolicyBook,
    r3: Result<PairedPolicyDecision, Error>,
)
    requires
        entry_ids_unique(b.processed),
        apply_spec(mode, rs, b, cmd, stage, mode2, rs2, b2, Ok(d)),
        apply_spec(mode2, rs2, b2, cmd, stage2, mode3, rs3, b3, r3),
    ensures
        mode3 == mode2 && rs3 == rs2 && b3 == b2,
        r3 == Ok::<PairedPolicyDecision, Error>(d),
{
    let id = cmd.id_of();
    if !remembers(b.processed, id) {
        let ps = b2.processed;
        let last = ps.len() - 1;
        assert(ps[last] == ps.last());
        assert(remembers(ps, id));
        let k = choose|k: int| 0 <= k < ps.len() && (#[trigger] ps[k]).command_id.0@ == id.0@;
        if k != last {
            assert(ps[k] == b.processed[k]);
            assert(remembers(b.processed, id));
        }
    }
}
} // verus!
