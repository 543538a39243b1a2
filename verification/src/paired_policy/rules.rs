//! The rules of the paired placement policy: exchange-mode history, when a
//! leg may be authorized, how its permit is bound, which lifecycle moves a
//! leg may make, and when a pair may be released.

use vstd::prelude::*;
use vstd::string::StringSliceAdditionalSpecFns;
use crate::digest::{blake3_digest, blake3_hash, digest_eq, push_bytes, Canonical};
use crate::risk::types::OrderExposure;
use super::types::{
    permit_digest_spec, policy_record_digest_spec, Error, ExchangeMode, LegRole, LegState, ModeObservation,
    PairPermit, PairPermitId, PairPolicyRecord, PairStageId, PairedPolicyReason, StageView, MAX_PERMISSION_NS,
};

verus! {

/// The lifecycle moves a leg may make; a leg that was ever partially matched
/// can no longer end unfilled, and only such a leg can end partially matched.
pub open spec fn transition_allowed(current: LegState, next: LegState, ever_partial: bool) -> bool {
    match current {
        LegState::Authorized => next is Submitted || next is Unknown || next is NoFillTerminal,
        LegState::Submitted => next is Delayed || next is Live || next is PartiallyMatched || next is Unknown
            || next is FullyMatched || next is NoFillTerminal,
        LegState::Delayed => next is Live || next is PartiallyMatched || next is Unknown || next is FullyMatched
            || next is NoFillTerminal,
        LegState::Live => next is Live || next is PartiallyMatched || next is Unknown || next is FullyMatched
            || next is NoFillTerminal,
        LegState::PartiallyMatched => next is PartiallyMatched || next is Unknown || next is FullyMatched
            || next is PartiallyMatchedTerminal,
        LegState::Unknown => {
            &&& !(next is NotAuthorized || next is Authorized || next is Expired)
            &&& !(ever_partial && next is NoFillTerminal)
            &&& (next is PartiallyMatchedTerminal ==> ever_partial)
        },
        _ => false,
    }
}

pub fn valid_transition(current: LegState, next: LegState, ever_partial: bool) -> (r: bool)
    ensures
        r == transition_allowed(current, next, ever_partial),
{
    match current {
        LegState::Authorized => match next {
            LegState::Submitted | LegState::Unknown | LegState::NoFillTerminal => true,
            _ => false,
        },
        LegState::Submitted => match next {
            LegState::Delayed | LegState::Live | LegState::PartiallyMatched | LegState::Unknown
            | LegState::FullyMatched | LegState::NoFillTerminal => true,
            _ => false,
        },
        LegState::Delayed | LegState::Live => match next {
            LegState::Live | LegState::PartiallyMatched | LegState::Unknown | LegState::FullyMatched
            | LegState::NoFillTerminal => true,
            _ => false,
        },
        LegState::PartiallyMatched => match next {
            LegState::PartiallyMatched | LegState::Unknown | LegState::FullyMatched
            | LegState::PartiallyMatchedTerminal => true,
            _ => false,
        },
        LegState::Unknown => match next {
            LegState::NotAuthorized | LegState::Authorized | LegState::Expired => false,
            LegState::NoFillTerminal => !ever_partial,
            LegState::PartiallyMatchedTerminal => ever_partial,
            _ => true,
        },
        _ => false,
    }
}

/// The verdict on a new exchange-mode observation: well-formed in time, never
/// behind the last one, and never a different observation under the same sequence.
pub open spec fn mode_check(previous: Option<ModeObservation>, obs: ModeObservation) -> Result<(), Error> {
    if obs.observed_at_ns < 0 || obs.valid_until_ns < obs.observed_at_ns {
        Err(Error::Timestamp)
    } else if previous matches Some(p) && (obs.sequence < p.sequence || (obs.sequence == p.sequence && obs != p)
        || obs.observed_at_ns < p.observed_at_ns) {
        Err(Error::ModeHistory)
    } else {
        Ok(())
    }
}

/// Records a new exchange-mode observation, or refuses it and keeps the last one.
pub fn observe_mode(mode: &mut Option<ModeObservation>, obs: ModeObservation) -> (r: Result<(), Error>)
    ensures
        match mode_check(*old(mode), obs) {
            Ok(_) => r is Ok && *final(mode) == Some(obs),
            Err(e) => r == Err::<(), Error>(e) && *final(mode) == *old(mode),
        },
{
    if obs.observed_at_ns < 0 || obs.valid_until_ns < obs.observed_at_ns {
        return Err(Error::Timestamp);
    }
    match mode {
        Some(p) => {
            if obs.sequence < p.sequence || (obs.sequence == p.sequence && obs != *p)
                || obs.observed_at_ns < p.observed_at_ns {
                return Err(Error::ModeHistory);
            }
        },
        None => {},
    }
    *mode = Some(obs);
    Ok(())
}

/// The last instant at which a pair staged at `staged_at_ns` may be authorized.
pub open spec fn window_end(staged_at_ns: i64) -> int {
    staged_at_ns + MAX_PERMISSION_NS
}

/// Why a leg may not be authorized now, if it may not; an error where the
/// stage or record handed in does not hold together.
pub open spec fn authorization_check(
    stage: Option<StageView>,
    record: Option<PairPolicyRecord>,
    mode: Option<ModeObservation>,
    leg: u8,
    role: LegRole,
    max_mode_age_ns: i64,
    valid_until_ns: i64,
    at: i64,
) -> Result<Option<PairedPolicyReason>, Error> {
    if leg > 1 {
        Ok(Some(PairedPolicyReason::InvalidLeg))
    } else {
        match stage {
            None => Ok(Some(PairedPolicyReason::StageUnknown)),
            Some(s) => if !s.boundary_ok {
                Err(Error::Boundary)
            } else if !s.fully_reserved {
                Ok(Some(PairedPolicyReason::StageInactive))
            } else {
                match record {
                    None => Err(Error::Boundary),
                    Some(rec) => {
                        let expires = s.candidate_expires_at_ns[leg as int];
                        if rec.aborted {
                            Ok(Some(PairedPolicyReason::StageInactive))
                        } else if window_end(s.staged_at_ns) > i64::MAX {
                            Err(Error::Overflow)
                        } else if at > window_end(s.staged_at_ns) || at >= expires {
                            Ok(Some(PairedPolicyReason::StageStale))
                        } else if max_mode_age_ns < 0 || valid_until_ns <= at || valid_until_ns - at > MAX_PERMISSION_NS
                            || valid_until_ns > window_end(s.staged_at_ns) || valid_until_ns > expires {
                            Ok(Some(PairedPolicyReason::InvalidValidity))
                        } else {
                            match mode {
                                None => Ok(Some(PairedPolicyReason::ModeUnavailable)),
                                Some(m) => if m.mode != ExchangeMode::Normal {
                                    Ok(Some(PairedPolicyReason::ModeUnavailable))
                                } else if at < m.observed_at_ns || at > m.valid_until_ns
                                    || at - m.observed_at_ns > max_mode_age_ns {
                                    Ok(Some(PairedPolicyReason::ModeStale))
                                } else if rec.legs[leg as int] != LegState::NotAuthorized {
                                    Ok(Some(PairedPolicyReason::LegAlreadyAuthorized))
                                } else {
                                    match role {
                                        LegRole::First => if rec.first_leg is Some {
                                            Ok(Some(PairedPolicyReason::FirstAlreadySelected))
                                        } else {
                                            Ok(None)
                                        },
                                        LegRole::Hedge => if rec.first_leg matches Some(f) && f < 2 && f != leg
                                            && rec.legs[f as int] == LegState::FullyMatched {
                                            Ok(None)
                                        } else {
                                            Ok(Some(PairedPolicyReason::HedgeNotReady))
                                        },
                                    }
                                },
                            }
                        }
                    },
                }
            },
        }
    }
}

fn mode_fresh(m: &ModeObservation, max_mode_age_ns: i64, at: i64) -> (r: bool)
    ensures
        r == !(at < m.observed_at_ns || at > m.valid_until_ns || at - m.observed_at_ns > max_mode_age_ns),
{
    !(at < m.observed_at_ns || at > m.valid_until_ns || (at as i128) - (m.observed_at_ns as i128) > max_mode_age_ns as i128)
}

#[verifier::rlimit(40)]
pub fn authorization_denial(
    stage: Option<&StageView>,
    record: Option<&PairPolicyRecord>,
    mode: Option<ModeObservation>,
    leg: u8,
    role: LegRole,
    max_mode_age_ns: i64,
    valid_until_ns: i64,
    at: i64,
) -> (r: Result<Option<PairedPolicyReason>, Error>)
    ensures
        r == authorization_check(
            match stage { Some(s) => Some(*s), None => None },
            match record { Some(x) => Some(*x), None => None },
            mode, leg, role, max_mode_age_ns, valid_until_ns, at,
        ),
{
    if leg > 1 {
        return Ok(Some(PairedPolicyReason::InvalidLeg));
    }
    let s = match stage {
        None => {
            return Ok(Some(PairedPolicyReason::StageUnknown));
        },
        Some(s) => s,
    };
    if !s.boundary_ok {
        return Err(Error::Boundary);
    }
    if !s.fully_reserved {
        return Ok(Some(PairedPolicyReason::StageInactive));
    }
    let rec = match record {
        None => {
            return Err(Error::Boundary);
        },
        Some(x) => x,
    };
    let index = leg as usize;
    let expires = s.candidate_expires_at_ns[index];
    if rec.aborted {
        return Ok(Some(PairedPolicyReason::StageInactive));
    }
    let end: i128 = s.staged_at_ns as i128 + 1000000000i128;
    if end > 0x7fff_ffff_ffff_ffffi128 {
        return Err(Error::Overflow);
    }
    if (at as i128) > end || at >= expires {
        return Ok(Some(PairedPolicyReason::StageStale));
    }
    if max_mode_age_ns < 0 || valid_until_ns <= at || (valid_until_ns as i128) - (at as i128) > 1000000000i128
        || (valid_until_ns as i128) > end || valid_until_ns > expires {
        return Ok(Some(PairedPolicyReason::InvalidValidity));
    }
    let m = match mode {
        None => {
            return Ok(Some(PairedPolicyReason::ModeUnavailable));
        },
        Some(m) => m,
    };
    if m.mode != ExchangeMode::Normal {
        return Ok(Some(PairedPolicyReason::ModeUnavailable));
    }
    if !mode_fresh(&m, max_mode_age_ns, at) {
        return Ok(Some(PairedPolicyReason::ModeStale));
    }
    if rec.legs[index] != LegState::NotAuthorized {
        return Ok(Some(PairedPolicyReason::LegAlreadyAuthorized));
    }
    match role {
        LegRole::First => if rec.first_leg.is_some() {
            Ok(Some(PairedPolicyReason::FirstAlreadySelected))
        } else {
            Ok(None)
        },
        LegRole::Hedge => match rec.first_leg {
            Some(f) => if f < 2 && f != leg && rec.legs[f as usize] == LegState::FullyMatched {
                Ok(None)
            } else {
                Ok(Some(PairedPolicyReason::HedgeNotReady))
            },
            None => Ok(Some(PairedPolicyReason::HedgeNotReady)),
        },
    }
}

/// Domain of a permit's identity.
pub open spec fn permit_id_domain() -> Seq<u8> {
    "paired-paper-permit-id-v1".spec_bytes()
}

/// A permit's identity: the stage, the leg and its role, nothing else.
pub open spec fn permit_id_spec(stage_id: PairStageId, leg: u8, role: LegRole) -> Seq<u8> {
    blake3_hash(permit_id_domain() + stage_id.0@ + seq![leg] + role.canon())
}

pub fn derive_permit_id(stage_id: PairStageId, leg: u8, role: LegRole) -> (r: PairPermitId)
    ensures
        r.0@ == permit_id_spec(stage_id, leg, role),
{
    let mut bytes: Vec<u8> = Vec::new();
    push_bytes(&mut bytes, "paired-paper-permit-id-v1".as_bytes());
    push_bytes(&mut bytes, stage_id.0.as_slice());
    bytes.push(leg);
    role.encode_into(&mut bytes);
    assert(bytes@ =~= permit_id_domain() + stage_id.0@ + seq![leg] + role.canon());
    PairPermitId(blake3_digest(bytes.as_slice()))
}

/// `p` is the permit for leg `leg` of the staged pair, issued at `at` under `mode`.
pub open spec fn permit_for(p: PairPermit, stage: StageView, mode: ModeObservation, leg: u8, role: LegRole, valid_until_ns: i64, at: i64) -> bool {
    &&& p.permit_id.0@ == permit_id_spec(stage.stage_id, leg, role)
    &&& p.stage_id == stage.stage_id
    &&& p.stage_record_digest == stage.record_digest
    &&& p.leg_index == leg
    &&& p.role == role
    &&& p.order == stage.candidates[leg as int]
    &&& p.candidate_digest == stage.candidate_digests[leg as int]
    &&& p.reservation_id == stage.reservation_ids[leg as int]
    &&& p.mode_sequence == mode.sequence
    &&& p.valid_from_ns == at
    &&& p.valid_until_ns == valid_until_ns
    &&& p.permit_digest@ == permit_digest_spec(p)
}

/// Issues the sealed permit for one leg.
pub fn issue_permit(stage: &StageView, mode: &ModeObservation, leg: u8, role: LegRole, valid_until_ns: i64, at: i64) -> (p: PairPermit)
    requires
        leg < 2,
    ensures
        permit_for(p, *stage, *mode, leg, role, valid_until_ns, at),
{
    let index = leg as usize;
    let p = PairPermit {
        permit_id: derive_permit_id(stage.stage_id, leg, role),
        stage_id: stage.stage_id,
        stage_record_digest: stage.record_digest,
        leg_index: leg,
        role,
        order: stage.candidates[index].duplicate(),
        candidate_digest: stage.candidate_digests[index],
        reservation_id: stage.reservation_ids[index],
        mode_sequence: mode.sequence,
        valid_from_ns: at,
        valid_until_ns,
        permit_digest: [0u8; 32],
    };
    p.sealed()
}

/// `n` is `rec` with its digest refreshed and nothing else changed but what
/// the named fields say.
pub open spec fn resealed(n: PairPolicyRecord) -> bool {
    n.record_digest@ == policy_record_digest_spec(n)
}

/// `n` is `rec` once leg `leg` holds permit `p`.
pub open spec fn authorized(rec: PairPolicyRecord, leg: u8, role: LegRole, p: PairPermit, n: PairPolicyRecord) -> bool {
    &&& n.stage_id == rec.stage_id
    &&& n.stage_record_digest == rec.stage_record_digest
    &&& n.first_leg == (if role == LegRole::First { Some(leg) } else { rec.first_leg })
    &&& n.legs@ == rec.legs@.update(leg as int, LegState::Authorized)
    &&& n.permits@ == rec.permits@.update(leg as int, Some(p))
    &&& n.source_sequences == rec.source_sequences
    &&& n.source_observed_at_ns == rec.source_observed_at_ns
    &&& n.ever_partially_matched == rec.ever_partially_matched
    &&& n.aborted == rec.aborted
    &&& resealed(n)
}

fn reseal(rec: &mut PairPolicyRecord)
    ensures
        *final(rec) == (PairPolicyRecord { record_digest: final(rec).record_digest, ..*old(rec) }),
        resealed(*final(rec)),
{
    let r = rec.clone_sealed();
    *rec = r;
}

fn copy_permit(p: &Option<PairPermit>) -> (r: Option<PairPermit>)
    ensures
        r == *p,
{
    match p {
        Some(x) => Some(x.duplicate()),
        None => None,
    }
}

impl PairPermit {
    /// A copy with the same fields.
    pub fn duplicate(&self) -> (r: PairPermit)
        ensures
            r == *self,
    {
        PairPermit {
            permit_id: self.permit_id,
            stage_id: self.stage_id,
            stage_record_digest: self.stage_record_digest,
            leg_index: self.leg_index,
            role: self.role,
            order: self.order.duplicate(),
            candidate_digest: self.candidate_digest,
            reservation_id: self.reservation_id,
            mode_sequence: self.mode_sequence,
            valid_from_ns: self.valid_from_ns,
            valid_until_ns: self.valid_until_ns,
            permit_digest: self.permit_digest,
        }
    }
}

impl PairPolicyRecord {
    /// A copy of the record with its digest refreshed.
    pub fn clone_sealed(&self) -> (r: PairPolicyRecord)
        ensures
            r == (PairPolicyRecord { record_digest: r.record_digest, ..*self }),
            r.record_digest@ == policy_record_digest_spec(r),
    {
        let copy = PairPolicyRecord {
            stage_id: self.stage_id,
            stage_record_digest: self.stage_record_digest,
            first_leg: self.first_leg,
            legs: self.legs,
            permits: [copy_permit(&self.permits[0]), copy_permit(&self.permits[1])],
            source_sequences: self.source_sequences,
            source_observed_at_ns: self.source_observed_at_ns,
            ever_partially_matched: self.ever_partially_matched,
            aborted: self.aborted,
            record_digest: self.record_digest,
        };
        assert(copy.permits =~= self.permits);
        assert(copy == *self);
        copy.sealed()
    }
}

/// Gives leg `leg` its permit.
pub fn grant(rec: &mut PairPolicyRecord, leg: u8, role: LegRole, p: PairPermit)
    requires
        leg < 2,
    ensures
        authorized(*old(rec), leg, role, p, *final(rec)),
{
    let index = leg as usize;
    if role == LegRole::First {
        rec.first_leg = Some(leg);
    }
    rec.legs[index] = LegState::Authorized;
    rec.permits[index] = Some(p);
    reseal(rec);
}

/// The verdict on one reported lifecycle state of one leg: it must come under
/// the leg's own authentic permit, move the leg's source strictly forward and
/// never back in time, and be a move the leg may make.
pub open spec fn leg_observation_check(
    rec: PairPolicyRecord,
    leg: u8,
    permit_id: PairPermitId,
    state: LegState,
    source_sequence: u64,
    observed_at_ns: i64,
    at: i64,
) -> Result<(), Error> {
    if leg > 1 || observed_at_ns < 0 || observed_at_ns > at {
        Err(Error::Timestamp)
    } else {
        let i = leg as int;
        match rec.permits[i] {
            None => Err(Error::Boundary),
            Some(p) => if p.permit_digest@ != permit_digest_spec(p) || p.permit_id.0@ != permit_id.0@ {
                Err(Error::Boundary)
            } else if rec.source_sequences[i] matches Some(prev) && source_sequence <= prev {
                Err(Error::Boundary)
            } else if rec.source_observed_at_ns[i] matches Some(prev) && observed_at_ns < prev {
                Err(Error::Boundary)
            } else if !transition_allowed(rec.legs[i], state, rec.ever_partially_matched[i]) {
                Err(Error::Boundary)
            } else {
                Ok(())
            },
        }
    }
}

/// `n` is `rec` once leg `leg` reported `state` at source position
/// (`source_sequence`, `observed_at_ns`).
pub open spec fn leg_observed(rec: PairPolicyRecord, leg: u8, state: LegState, source_sequence: u64, observed_at_ns: i64, n: PairPolicyRecord) -> bool {
    let i = leg as int;
    &&& n.stage_id == rec.stage_id
    &&& n.stage_record_digest == rec.stage_record_digest
    &&& n.first_leg == rec.first_leg
    &&& n.legs@ == rec.legs@.update(i, state)
    &&& n.permits == rec.permits
    &&& n.source_sequences@ == rec.source_sequences@.update(i, Some(source_sequence))
    &&& n.source_observed_at_ns@ == rec.source_observed_at_ns@.update(i, Some(observed_at_ns))
    &&& n.ever_partially_matched@ == (if state == LegState::PartiallyMatched {
        rec.ever_partially_matched@.update(i, true)
    } else {
        rec.ever_partially_matched@
    })
    &&& n.aborted == rec.aborted
    &&& resealed(n)
}

/// Applies one reported lifecycle state of one leg, or refuses it and leaves
/// the record as it was.
pub fn observe_leg(
    rec: &mut PairPolicyRecord,
    leg: u8,
    permit_id: PairPermitId,
    state: LegState,
    source_sequence: u64,
    observed_at_ns: i64,
    at: i64,
) -> (r: Result<(), Error>)
    ensures
        match leg_observation_check(*old(rec), leg, permit_id, state, source_sequence, observed_at_ns, at) {
            Ok(_) => r is Ok && leg_observed(*old(rec), leg, state, source_sequence, observed_at_ns, *final(rec)),
            Err(e) => r == Err::<(), Error>(e) && *final(rec) == *old(rec),
        },
{
    if leg > 1 || observed_at_ns < 0 || observed_at_ns > at {
        return Err(Error::Timestamp);
    }
    let i = leg as usize;
    match &rec.permits[i] {
        None => {
            return Err(Error::Boundary);
        },
        Some(p) => {
            if !p.verify_digest() || !digest_eq(&p.permit_id.0, &permit_id.0) {
                return Err(Error::Boundary);
            }
        },
    }
    match rec.source_sequences[i] {
        Some(prev) => if source_sequence <= prev {
            return Err(Error::Boundary);
        },
        None => {},
    }
    match rec.source_observed_at_ns[i] {
        Some(prev) => if observed_at_ns < prev {
            return Err(Error::Boundary);
        },
        None => {},
    }
    if !valid_transition(rec.legs[i], state, rec.ever_partially_matched[i]) {
        return Err(Error::Boundary);
    }
    rec.legs[i] = state;
    rec.source_sequences[i] = Some(source_sequence);
    rec.source_observed_at_ns[i] = Some(observed_at_ns);
    if state == LegState::PartiallyMatched {
        rec.ever_partially_matched[i] = true;
    }
    reseal(rec);
    Ok(())
}

/// Leg `i` holds an authorized permit that has run out at `at`.
pub open spec fn expires_now(rec: PairPolicyRecord, i: int, at: i64) -> bool {
    &&& rec.legs[i] == LegState::Authorized
    &&& rec.permits[i] matches Some(p) && at >= p.valid_until_ns
}

/// `n` is `rec` with every authorized leg whose permit has run out expired.
pub open spec fn expired_record(rec: PairPolicyRecord, at: i64, n: PairPolicyRecord) -> bool {
    &&& n.legs[0] == (if expires_now(rec, 0, at) { LegState::Expired } else { rec.legs[0] })
    &&& n.legs[1] == (if expires_now(rec, 1, at) { LegState::Expired } else { rec.legs[1] })
    &&& n == (PairPolicyRecord { legs: n.legs, record_digest: n.record_digest, ..rec })
    &&& resealed(n)
}

fn expire_leg(rec: &mut PairPolicyRecord, i: usize, at: i64) -> (expired: bool)
    requires
        i < 2,
    ensures
        expired == expires_now(*old(rec), i as int, at),
        final(rec).legs@ == (if expired { old(rec).legs@.update(i as int, LegState::Expired) } else { old(rec).legs@ }),
        *final(rec) == (PairPolicyRecord { legs: final(rec).legs, ..*old(rec) }),
{
    let due = match &rec.permits[i] {
        Some(p) => at >= p.valid_until_ns,
        None => false,
    };
    if rec.legs[i] == LegState::Authorized && due {
        rec.legs[i] = LegState::Expired;
        true
    } else {
        false
    }
}

/// Expires every authorized leg whose permit has run out; reservations stay
/// in place.
pub fn expire_legs(rec: &mut PairPolicyRecord, at: i64) -> (expired: bool)
    ensures
        expired == (expires_now(*old(rec), 0, at) || expires_now(*old(rec), 1, at)),
        expired_record(*old(rec), at, *final(rec)),
{
    let first = expire_leg(rec, 0, at);
    let second = expire_leg(rec, 1, at);
    reseal(rec);
    first || second
}

/// A pair may be released only while neither leg can have traded.
pub open spec fn abortable(rec: PairPolicyRecord) -> bool {
    !rec.aborted && rec.legs[0].ended_unfilled() && rec.legs[1].ended_unfilled()
}

pub fn may_abort(rec: &PairPolicyRecord) -> (r: bool)
    ensures
        r == abortable(*rec),
{
    !rec.aborted && rec.legs[0].safe_terminal() && rec.legs[1].safe_terminal()
}

/// Marks the pair released.
pub fn mark_aborted(rec: &mut PairPolicyRecord)
    ensures
        *final(rec) == (PairPolicyRecord { aborted: true, record_digest: final(rec).record_digest, ..*old(rec) }),
        resealed(*final(rec)),
{
    rec.aborted = true;
    reseal(rec);
}

/// The record of a freshly staged pair: no leg authorized, nothing observed.
pub open spec fn fresh_record(stage: StageView, n: PairPolicyRecord) -> bool {
    &&& n.stage_id == stage.stage_id
    &&& n.stage_record_digest == stage.record_digest
    &&& n.first_leg is None
    &&& n.legs@ == seq![LegState::NotAuthorized, LegState::NotAuthorized]
    &&& n.permits@ == seq![None::<PairPermit>, None::<PairPermit>]
    &&& n.source_sequences@ == seq![None::<u64>, None::<u64>]
    &&& n.source_observed_at_ns@ == seq![None::<i64>, None::<i64>]
    &&& n.ever_partially_matched@ == seq![false, false]
    &&& !n.aborted
    &&& resealed(n)
}

pub fn new_policy_record(stage: &StageView) -> (r: PairPolicyRecord)
    ensures
        fresh_record(*stage, r),
{
    let rec = PairPolicyRecord {
        stage_id: stage.stage_id,
        stage_record_digest: stage.record_digest,
        first_leg: None,
        legs: [LegState::NotAuthorized, LegState::NotAuthorized],
        permits: [None, None],
        source_sequences: [None, None],
        source_observed_at_ns: [None, None],
        ever_partially_matched: [false, false],
        aborted: false,
        record_digest: [0u8; 32],
    };
    let r = rec.sealed();
    assert(r.legs@ =~= seq![LegState::NotAuthorized, LegState::NotAuthorized]);
    assert(r.permits@ =~= seq![None::<PairPermit>, None::<PairPermit>]);
    assert(r.source_sequences@ =~= seq![None::<u64>, None::<u64>]);
    assert(r.source_observed_at_ns@ =~= seq![None::<i64>, None::<i64>]);
    assert(r.ever_partially_matched@ =~= seq![false, false]);
    r
}

/// The leg a hedge must use: the one the first leg is not.
pub open spec fn hedge_of(rec: PairPolicyRecord) -> Result<u8, Error> {
    match rec.first_leg {
        Some(f) => if f <= 1 { Ok((1 - f) as u8) } else { Err(Error::Boundary) },
        None => Err(Error::Boundary),
    }
}

pub fn hedge_leg(rec: &PairPolicyRecord) -> (r: Result<u8, Error>)
    ensures
        r == hedge_of(*rec),
{
    match rec.first_leg {
        Some(f) => if f <= 1 { Ok(1 - f) } else { Err(Error::Boundary) },
        None => Err(Error::Boundary),
    }
}

/// A pair whose legs may have traded is never released.
pub proof fn law_possible_fill_prevents_release(rec: PairPolicyRecord)
    requires
        rec.legs[0].fill_possible() || rec.legs[1].fill_possible(),
    ensures
        !abortable(rec),
{
}

/// A hedge is authorized only for the other leg of a pair whose first leg has
/// fully matched.
pub proof fn law_hedge_needs_filled_first(
    stage: Option<StageView>,
    rec: PairPolicyRecord,
    mode: Option<ModeObservation>,
    leg: u8,
    max_mode_age_ns: i64,
    valid_until_ns: i64,
    at: i64,
)
    requires
        authorization_check(stage, Some(rec), mode, leg, LegRole::Hedge, max_mode_age_ns, valid_until_ns, at) == Ok::<Option<PairedPolicyReason>, Error>(None),
    ensures
        rec.first_leg matches Some(f) && f < 2 && f != leg && rec.legs[f as int] == LegState::FullyMatched,
{
}

/// A permission is issued once: after a leg has been authorized, no further
/// authorization of that leg, in either role, is granted.
pub proof fn law_permit_single_issue(
    rec: PairPolicyRecord,
    leg: u8,
    role: LegRole,
    p: PairPermit,
    n: PairPolicyRecord,
    stage: Option<StageView>,
    mode: Option<ModeObservation>,
    role2: LegRole,
    max_mode_age_ns: i64,
    valid_until_ns: i64,
    at: i64,
)
    requires
        leg < 2,
        authorized(rec, leg, role, p, n),
    ensures
        authorization_check(stage, Some(n), mode, leg, role2, max_mode_age_ns, valid_until_ns, at) != Ok::<Option<PairedPolicyReason>, Error>(None),
{
    assert(n.legs[leg as int] == LegState::Authorized);
}

/// A leg that was ever partially matched and is now partially matched or of
/// unknown state never ends as unfilled, and keeps that mark.
pub proof fn law_partial_leg_never_ends_unfilled(
    rec: PairPolicyRecord,
    leg: u8,
    permit_id: PairPermitId,
    state: LegState,
    source_sequence: u64,
    observed_at_ns: i64,
    at: i64,
    n: PairPolicyRecord,
)
    requires
        leg_observation_check(rec, leg, permit_id, state, source_sequence, observed_at_ns, at) is Ok,
        leg_observed(rec, leg, state, source_sequence, observed_at_ns, n),
        rec.ever_partially_matched[leg as int],
        rec.legs[leg as int] is PartiallyMatched || rec.legs[leg as int] is Unknown,
    ensures
        n.legs[leg as int] != LegState::NoFillTerminal,
        n.ever_partially_matched[leg as int],
{
}

/// An accepted lifecycle report never returns a leg to an unauthorized,
/// authorized or expired state.
pub proof fn law_observed_leg_never_returns(
    rec: PairPolicyRecord,
    leg: u8,
    permit_id: PairPermitId,
    state: LegState,
    source_sequence: u64,
    observed_at_ns: i64,
    at: i64,
)
    requires
        leg_observation_check(rec, leg, permit_id, state, source_sequence, observed_at_ns, at) is Ok,
    ensures
        !(state is NotAuthorized || state is Authorized || state is Expired),
{
}

/// Expiry changes only leg states: the pair is not released and its permits stay.
pub proof fn law_expiry_keeps_reservations(rec: PairPolicyRecord, at: i64, n: PairPolicyRecord)
    requires
        expired_record(rec, at, n),
    ensures
        n.aborted == rec.aborted,
        n.permits == rec.permits,
        n.stage_id == rec.stage_id,
{
}
} // verus!
