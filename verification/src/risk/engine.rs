//! The risk engine: idempotent per command id, history-checked, and
//! absorbing once an integrity failure has halted it.

use vstd::prelude::*;
use vstd::string::StringSliceAdditionalSpecFns;
use crate::digest::{blake3_digest, blake3_hash, digest_domain, digest_eq, domain_digest, le_bytes, push_le, Canonical};
use super::evaluate::{evaluate, evaluation};
use super::types::{Error, RiskCommand, RiskCommandId, RiskDecision, RiskRequest, ScenarioWitness};

verus! {

broadcast use vstd::string::to_string_from_display_ensures_for_str;

/// Largest encoded command accepted.
pub const MAX_COMMAND_BYTES: usize = 524288;

/// Version of the command encoding.
pub const WIRE_VERSION: u16 = 2;

/// Timestamps of a command are non-negative and recorded no earlier than evaluated.
pub open spec fn command_timestamps_ok(cmd: RiskCommand) -> bool {
    let RiskCommand::Evaluate { request, recorded_at_ns, .. } = cmd;
    recorded_at_ns >= 0 && request.evaluated_at_ns >= 0 && recorded_at_ns >= request.evaluated_at_ns
}

/// The versioned encoding of a command.
pub open spec fn wire_bytes(cmd: RiskCommand) -> Seq<u8> {
    le_bytes(WIRE_VERSION as nat, 2) + cmd.canon()
}

/// Encodes one versioned command after checking its timestamps and size.
pub fn encode_command(cmd: &RiskCommand) -> (r: Result<Vec<u8>, Error>)
    ensures
        match r {
            Err(e) => if !command_timestamps_ok(*cmd) {
                e == Error::Timestamp
            } else {
                e == Error::CommandBound && wire_bytes(*cmd).len() > MAX_COMMAND_BYTES
            },
            Ok(b) => command_timestamps_ok(*cmd) && b@ == wire_bytes(*cmd) && b@.len() <= MAX_COMMAND_BYTES,
        },
{
    let RiskCommand::Evaluate { request, recorded_at_ns, .. } = cmd;
    if *recorded_at_ns < 0 || request.evaluated_at_ns < 0 || *recorded_at_ns < request.evaluated_at_ns {
        return Err(Error::Timestamp);
    }
    let mut bytes: Vec<u8> = Vec::new();
    push_le(&mut bytes, 2u128, 2);
    cmd.encode_into(&mut bytes);
    if bytes.len() > MAX_COMMAND_BYTES {
        return Err(Error::CommandBound);
    }
    Ok(bytes)
}

/// The content digest under which a command id is remembered.
pub open spec fn command_digest(cmd: RiskCommand) -> Seq<u8> {
    blake3_hash(wire_bytes(cmd))
}

/// One remembered evaluation.
#[derive(Clone, Debug)]
pub struct ProcessedEntry {
    pub command_id: RiskCommandId,
    pub content_digest: [u8; 32],
    pub decision: RiskDecision,
}

impl Canonical for ProcessedEntry {
    open spec fn canon(&self) -> Seq<u8> {
        self.command_id.canon() + self.content_digest.canon() + self.decision.canon()
    }

    fn encode_into(&self, out: &mut Vec<u8>) {
        let ghost start = out@;
        self.command_id.encode_into(out);
        self.content_digest.encode_into(out);
        self.decision.encode_into(out);
        assert(out@ =~= start + self.canon());
    }
}

/// Two witnesses hold the same values.
pub open spec fn same_witness(a: ScenarioWitness, b: ScenarioWitness) -> bool {
    &&& a.fill_quantities_micros@ == b.fill_quantities_micros@
    &&& a.outcome_bits@ == b.outcome_bits@
    &&& a.shock_id@ == b.shock_id@
    &&& a.terminal_wealth_micros == b.terminal_wealth_micros
    &&& a.gross_exposure_micros == b.gross_exposure_micros
    &&& a.max_condition_exposure_micros == b.max_condition_exposure_micros
    &&& a.max_group_exposure_micros == b.max_group_exposure_micros
}

/// Two decisions hold the same values.
pub open spec fn same_decision(a: RiskDecision, b: RiskDecision) -> bool {
    &&& a.command_id == b.command_id
    &&& a.evaluated_at_ns == b.evaluated_at_ns
    &&& a.status == b.status
    &&& a.reason == b.reason
    &&& a.minimum_terminal_wealth_micros == b.minimum_terminal_wealth_micros
    &&& a.scenario_count == b.scenario_count
    &&& a.witness is Some == b.witness is Some
    &&& (a.witness is Some ==> same_witness(a.witness->0, b.witness->0))
    &&& a.reconciliation_digest == b.reconciliation_digest
    &&& a.ledger_digest == b.ledger_digest
    &&& a.candidate_order_digest == b.candidate_order_digest
    &&& a.decision_digest == b.decision_digest
}

fn copy_vec<T: Copy>(v: &Vec<T>) -> (r: Vec<T>)
    ensures
        r@ == v@,
{
    let mut r: Vec<T> = Vec::new();
    let mut i: usize = 0;
    while i < v.len()
        invariant
            i <= v@.len(),
            r@ == v@.take(i as int),
        decreases v@.len() - i,
    {
        r.push(v[i]);
        assert(v@.take(i + 1) =~= v@.take(i as int).push(v@[i as int]));
        i = i + 1;
    }
    assert(v@.take(v@.len() as int) =~= v@);
    r
}

fn copy_witness(w: &ScenarioWitness) -> (r: ScenarioWitness)
    ensures
        same_witness(r, *w),
        r.canon() == w.canon(),
{
    let r = ScenarioWitness {
        fill_quantities_micros: copy_vec(&w.fill_quantities_micros),
        outcome_bits: copy_vec(&w.outcome_bits),
        shock_id: w.shock_id.clone(),
        terminal_wealth_micros: w.terminal_wealth_micros,
        gross_exposure_micros: w.gross_exposure_micros,
        max_condition_exposure_micros: w.max_condition_exposure_micros,
        max_group_exposure_micros: w.max_group_exposure_micros,
    };
    assert(r.fill_quantities_micros.canon() == w.fill_quantities_micros.canon());
    assert(r.outcome_bits.canon() == w.outcome_bits.canon());
    r
}

/// A value-for-value copy of a decision.
pub fn copy_decision(d: &RiskDecision) -> (r: RiskDecision)
    ensures
        same_decision(r, *d),
        r.canon() == d.canon(),
        decision_sealed(*d) ==> decision_sealed(r),
{
    let witness = match &d.witness {
        Some(w) => Some(copy_witness(w)),
        None => None,
    };
    let r = RiskDecision {
        command_id: d.command_id,
        evaluated_at_ns: d.evaluated_at_ns,
        status: d.status,
        reason: d.reason,
        minimum_terminal_wealth_micros: d.minimum_terminal_wealth_micros,
        scenario_count: d.scenario_count,
        witness,
        reconciliation_digest: d.reconciliation_digest,
        ledger_digest: d.ledger_digest,
        candidate_order_digest: d.candidate_order_digest,
        decision_digest: d.decision_digest,
    };
    assert(r.body_canon() == d.body_canon());
    r
}

/// A decision whose digest matches its content.
pub open spec fn decision_sealed(d: RiskDecision) -> bool {
    d.decision_digest@ == d.digest_spec()
}

/// Every remembered decision is sealed.
pub open spec fn decisions_sealed(ps: Seq<ProcessedEntry>) -> bool {
    forall|i: int| 0 <= i < ps.len() ==> decision_sealed(#[trigger] ps[i].decision)
}

/// The observable state of a risk engine.
#[derive(Debug)]
pub struct RiskSnapshot {
    pub accepted_commands: u64,
    pub last_evaluated_at_ns: Option<i64>,
    pub last_reconciled_at_ns: Option<i64>,
    pub last_reconciliation_digest: Option<[u8; 32]>,
    pub last_decision: Option<RiskDecision>,
    pub halted: bool,
    pub halt_reason: Option<String>,
    pub digest: [u8; 32],
}

/// Deterministic evaluation authority over risk commands.
#[derive(Debug)]
pub struct PortfolioRiskEngine {
    processed: Vec<ProcessedEntry>,
    accepted_commands: u64,
    last_evaluated_at_ns: Option<i64>,
    last_reconciled_at_ns: Option<i64>,
    last_reconciliation_digest: Option<[u8; 32]>,
    last_decision: Option<RiskDecision>,
    halted: Option<String>,
}

/// What a risk engine holds, as values.
pub struct RiskEngineView {
    pub processed: Seq<ProcessedEntry>,
    pub accepted_commands: u64,
    pub last_evaluated_at_ns: Option<i64>,
    pub last_reconciled_at_ns: Option<i64>,
    pub last_reconciliation_digest: Option<[u8; 32]>,
    pub last_decision: Option<RiskDecision>,
    pub halted: Option<Seq<char>>,
}

/// The text of an optional string, as a view.
pub open spec fn text_view(s: Option<String>) -> Option<Seq<char>> {
    match s {
        Some(t) => Some(t@),
        None => None,
    }
}

impl View for PortfolioRiskEngine {
    type V = RiskEngineView;

    closed spec fn view(&self) -> RiskEngineView {
        RiskEngineView {
            processed: self.processed@,
            accepted_commands: self.accepted_commands,
            last_evaluated_at_ns: self.last_evaluated_at_ns,
            last_reconciled_at_ns: self.last_reconciled_at_ns,
            last_reconciliation_digest: self.last_reconciliation_digest,
            last_decision: self.last_decision,
            halted: text_view(self.halted),
        }
    }
}

/// Remembered command ids are distinct.
pub open spec fn ids_unique(ps: Seq<ProcessedEntry>) -> bool {
    forall|i: int, j: int|
        0 <= i < ps.len() && 0 <= j < ps.len() && i != j ==> (#[trigger] ps[i]).command_id.0@ != (#[trigger] ps[j]).command_id.0@
}

/// Some remembered entry carries `id`.
pub open spec fn remembers(ps: Seq<ProcessedEntry>, id: RiskCommandId) -> bool {
    exists|i: int| 0 <= i < ps.len() && (#[trigger] ps[i]).command_id.0@ == id.0@
}

/// The remembered entry that carries `id`.
pub open spec fn entry_for(ps: Seq<ProcessedEntry>, id: RiskCommandId) -> ProcessedEntry {
    ps[choose|i: int| 0 <= i < ps.len() && (#[trigger] ps[i]).command_id.0@ == id.0@]
}

/// The reconciliation history of a request regresses or equivocates.
pub open spec fn history_regressed(v: RiskEngineView, req: RiskRequest) -> bool {
    let obs = req.reconciliation.evaluated_at_ns;
    ||| v.last_evaluated_at_ns matches Some(prev) && req.evaluated_at_ns < prev
    ||| v.last_reconciled_at_ns matches Some(prev) && obs matches Some(at) && (at < prev || (at == prev
        && (v.last_reconciliation_digest is None || (v.last_reconciliation_digest->0)@
        != req.reconciliation.reconciliation_digest@)))
}

/// The errors that halt an engine.
pub open spec fn halting(e: Error) -> bool {
    e is IdempotencyConflict || e is ReconciliationHistory || e is Overflow
}

/// The halt reason recorded for an integrity failure: the error's message.
pub open spec fn halt_text(e: Error) -> Seq<char> {
    match e {
        Error::IdempotencyConflict => "risk command id was reused for different content"@,
        Error::ReconciliationHistory => "reconciliation history regressed or equivocated"@,
        _ => "risk arithmetic overflow"@,
    }
}

/// `new` is `old` halted with the reason of `e`.
pub open spec fn halted_with(old: RiskEngineView, new: RiskEngineView, e: Error) -> bool {
    new == RiskEngineView { halted: Some(halt_text(e)), ..old }
}

/// `new` records decision `d` for command `cmd` on top of `old`.
pub open spec fn recorded(old: RiskEngineView, new: RiskEngineView, cmd: RiskCommand, d: RiskDecision) -> bool {
    let RiskCommand::Evaluate { command_id, request, .. } = cmd;
    &&& new.processed.len() == old.processed.len() + 1
    &&& new.processed.take(old.processed.len() as int) == old.processed
    &&& new.processed.last().command_id == command_id
    &&& new.processed.last().content_digest@ == command_digest(cmd)
    &&& same_decision(new.processed.last().decision, d)
    &&& new.accepted_commands == old.accepted_commands + 1
    &&& new.last_evaluated_at_ns == Some(request.evaluated_at_ns)
    &&& new.last_reconciled_at_ns == if request.reconciliation.evaluated_at_ns is Some {
        request.reconciliation.evaluated_at_ns
    } else {
        old.last_reconciled_at_ns
    }
    &&& new.last_reconciliation_digest == Some(request.reconciliation.reconciliation_digest)
    &&& new.last_decision matches Some(ld) && same_decision(ld, d)
    &&& new.halted == old.halted
}

/// The complete effect of applying one command to an engine in state `old`.
pub open spec fn apply_spec(old: RiskEngineView, cmd: RiskCommand, new: RiskEngineView, r: Result<RiskDecision, Error>) -> bool {
    let RiskCommand::Evaluate { command_id, request, .. } = cmd;
    if old.halted is Some {
        new == old && (r matches Err(Error::Halted(s)) && s@ == old.halted->0)
    } else if !command_timestamps_ok(cmd) {
        new == old && r == Err::<RiskDecision, Error>(Error::Timestamp)
    } else if wire_bytes(cmd).len() > MAX_COMMAND_BYTES {
        new == old && r == Err::<RiskDecision, Error>(Error::CommandBound)
    } else if remembers(old.processed, command_id) {
        let e = entry_for(old.processed, command_id);
        if e.content_digest@ == command_digest(cmd) {
            new == old && (r matches Ok(d) && same_decision(d, e.decision))
        } else {
            r == Err::<RiskDecision, Error>(Error::IdempotencyConflict) && halted_with(old, new, Error::IdempotencyConflict)
        }
    } else if history_regressed(old, request) {
        r == Err::<RiskDecision, Error>(Error::ReconciliationHistory) && halted_with(old, new, Error::ReconciliationHistory)
    } else {
        match r {
            Ok(d) => evaluation(Ok(d), command_id, request) && old.accepted_commands < u64::MAX
                && recorded(old, new, cmd, d),
            Err(e) => e == Error::Overflow && halted_with(old, new, Error::Overflow)
                && (evaluation(Err(Error::Overflow), command_id, request) || old.accepted_commands == u64::MAX),
        }
    }
}

/// Domain of the engine state digest.
pub open spec fn state_domain() -> Seq<u8> {
    "portfolio-risk-state-v1".spec_bytes()
}

/// The canonical encoding of an optional text.
pub open spec fn text_canon(t: Option<Seq<char>>) -> Seq<u8> {
    match t {
        None => seq![0u8],
        Some(s) => seq![1u8] + le_bytes(vstd::utf8::encode_utf8(s).len(), 8) + vstd::utf8::encode_utf8(s),
    }
}

/// The canonical encoding of an engine state.
pub open spec fn state_canon(v: RiskEngineView) -> Seq<u8> {
    le_bytes(v.accepted_commands as nat, 8) + v.last_evaluated_at_ns.canon() + v.last_reconciled_at_ns.canon()
        + v.last_reconciliation_digest.canon() + v.last_decision.canon()
        + le_bytes(v.processed.len(), 8) + crate::digest::seq_canon(v.processed) + text_canon(v.halted)
}

/// The digest of an engine state.
pub open spec fn state_digest_spec(v: RiskEngineView) -> Seq<u8> {
    domain_digest(state_domain(), state_canon(v))
}

impl PortfolioRiskEngine {
    #[verifier::type_invariant]
    spec fn inv(&self) -> bool {
        &&& ids_unique(self.processed@)
        &&& decisions_sealed(self.processed@)
    }

    /// Whether an integrity failure has halted the engine.
    pub fn is_halted(&self) -> (r: bool)
        ensures
            r == (self@.halted is Some),
    {
        self.halted.is_some()
    }

    fn state_digest(&self) -> (r: [u8; 32])
        ensures
            r@ == state_digest_spec(self@),
    {
        let mut body: Vec<u8> = Vec::new();
        push_le(&mut body, self.accepted_commands as u128, 8);
        self.last_evaluated_at_ns.encode_into(&mut body);
        self.last_reconciled_at_ns.encode_into(&mut body);
        self.last_reconciliation_digest.encode_into(&mut body);
        self.last_decision.encode_into(&mut body);
        self.processed.encode_into(&mut body);
        self.halted.encode_into(&mut body);
        assert(self.halted.canon() == text_canon(self@.halted));
        assert(body@ =~= state_canon(self@));
        digest_domain("portfolio-risk-state-v1".as_bytes(), body.as_slice())
    }

    /// The observable state, with its digest.
    pub fn snapshot(&self) -> (s: RiskSnapshot)
        ensures
            s.accepted_commands == self@.accepted_commands,
            s.last_evaluated_at_ns == self@.last_evaluated_at_ns,
            s.last_reconciled_at_ns == self@.last_reconciled_at_ns,
            s.last_reconciliation_digest == self@.last_reconciliation_digest,
            s.last_decision is Some == self@.last_decision is Some,
            s.last_decision is Some ==> same_decision(s.last_decision->0, self@.last_decision->0),
            s.halted == (self@.halted is Some),
            text_view(s.halt_reason) == self@.halted,
            s.digest@ == state_digest_spec(self@),
    {
        RiskSnapshot {
            accepted_commands: self.accepted_commands,
            last_evaluated_at_ns: self.last_evaluated_at_ns,
            last_reconciled_at_ns: self.last_reconciled_at_ns,
            last_reconciliation_digest: self.last_reconciliation_digest,
            last_decision: match &self.last_decision {
                Some(d) => Some(copy_decision(d)),
                None => None,
            },
            halted: self.halted.is_some(),
            halt_reason: self.halted.clone(),
            digest: self.state_digest(),
        }
    }

    fn lookup(&self, id: &RiskCommandId) -> (r: Option<usize>)
        ensures
            match r {
                Some(i) => i < self@.processed.len() && self@.processed[i as int] == entry_for(self@.processed, *id)
                    && remembers(self@.processed, *id),
                None => !remembers(self@.processed, *id),
            },
    {
        proof { use_type_invariant(self); }
        let mut i: usize = 0;
        while i < self.processed.len()
            invariant
                i <= self.processed@.len(),
                ids_unique(self.processed@),
                forall|j: int| 0 <= j < i ==> (#[trigger] self.processed@[j]).command_id.0@ != id.0@,
            decreases self.processed@.len() - i,
        {
            if digest_eq(&self.processed[i].command_id.0, &id.0) {
                proof {
                    let ps = self.processed@;
                    assert(ps[i as int].command_id.0@ == id.0@);
                    let k = choose|k: int| 0 <= k < ps.len() && (#[trigger] ps[k]).command_id.0@ == id.0@;
                    assert(ids_unique(ps));
                    if k != i {
                        assert(ps[k].command_id.0@ != ps[i as int].command_id.0@);
                    }
                }
                return Some(i);
            }
            i = i + 1;
        }
        None
    }

    fn history_ok(&self, request: &RiskRequest) -> (r: bool)
        ensures
            r == !history_regressed(self@, *request),
    {
        if let Some(previous_at) = self.last_evaluated_at_ns {
            if request.evaluated_at_ns < previous_at {
                return false;
            }
        }
        if let (Some(previous_at), Some(observed_at)) = (self.last_reconciled_at_ns, request.reconciliation.evaluated_at_ns) {
            let same_digest = match &self.last_reconciliation_digest {
                Some(d) => digest_eq(d, &request.reconciliation.reconciliation_digest),
                None => false,
            };
            if observed_at < previous_at || (observed_at == previous_at && !same_digest) {
                return false;
            }
        }
        true
    }

    fn record(&mut self, command: &RiskCommand, digest: [u8; 32], decision: &RiskDecision)
        requires
            !remembers(old(self)@.processed, command->command_id),
            old(self)@.accepted_commands < u64::MAX,
            digest@ == command_digest(*command),
            decision_sealed(*decision),
        ensures
            recorded(old(self)@, final(self)@, *command, *decision),
            ids_unique(final(self)@.processed),
            decisions_sealed(final(self)@.processed),
    {
        proof { use_type_invariant(&*self); }
        let RiskCommand::Evaluate { command_id, request, .. } = command;
        let entry = ProcessedEntry { command_id: *command_id, content_digest: digest, decision: copy_decision(decision) };
        let mut ps: Vec<ProcessedEntry> = Vec::new();
        std::mem::swap(&mut ps, &mut self.processed);
        proof {
            let old_ps = ps@;
            assert forall|i: int, j: int|
                0 <= i < old_ps.push(entry).len() && 0 <= j < old_ps.push(entry).len() && i != j
                implies (#[trigger] old_ps.push(entry)[i]).command_id.0@ != (#[trigger] old_ps.push(entry)[j]).command_id.0@ by {
                if i < old_ps.len() && j < old_ps.len() {
                    assert(old_ps.push(entry)[i] == old_ps[i]);
                    assert(old_ps.push(entry)[j] == old_ps[j]);
                } else if i < old_ps.len() {
                    assert(old_ps.push(entry)[i] == old_ps[i]);
                    assert(old_ps[i].command_id.0@ != command_id.0@);
                } else {
                    assert(old_ps.push(entry)[j] == old_ps[j]);
                    assert(old_ps[j].command_id.0@ != command_id.0@);
                }
            }
        }
        ps.push(entry);
        self.processed = ps;
        self.accepted_commands = self.accepted_commands + 1;
        self.last_evaluated_at_ns = Some(request.evaluated_at_ns);
        if request.reconciliation.evaluated_at_ns.is_some() {
            self.last_reconciled_at_ns = request.reconciliation.evaluated_at_ns;
        }
        self.last_reconciliation_digest = Some(request.reconciliation.reconciliation_digest);
        self.last_decision = Some(copy_decision(decision));
        assert(self@.processed.take(old(self)@.processed.len() as int) =~= old(self)@.processed);
        proof { use_type_invariant(&*self); }
    }

    fn install_halt(&mut self, error: Error) -> (r: Result<RiskDecision, Error>)
        requires
            halting(error),
        ensures
            r == Err::<RiskDecision, Error>(error),
            halted_with(old(self)@, final(self)@, error),
            ids_unique(final(self)@.processed),
            decisions_sealed(final(self)@.processed),
    {
        proof { use_type_invariant(&*self); }
        let reason = match error {
            Error::IdempotencyConflict => "risk command id was reused for different content".to_string(),
            Error::ReconciliationHistory => "reconciliation history regressed or equivocated".to_string(),
            _ => "risk arithmetic overflow".to_string(),
        };
        self.halted = Some(reason);
        Err(error)
    }

    /// Evaluates and records one candidate. A refused candidate is a sealed
    /// `NO_TRADE`; a replay returns the remembered decision; a reused id with
    /// other content, regressed history or overflow halts the engine.
    pub fn apply(&mut self, command: &RiskCommand) -> (r: Result<RiskDecision, Error>)
        ensures
            apply_spec(old(self)@, *command, final(self)@, r),
            r matches Ok(d) ==> decision_sealed(d),
            ids_unique(final(self)@.processed),
            decisions_sealed(final(self)@.processed),
    {
        proof { use_type_invariant(&*self); }
        if let Some(reason) = &self.halted {
            return Err(Error::Halted(reason.clone()));
        }
        let bytes = match encode_command(command) {
            Ok(b) => b,
            Err(e) => {
                return Err(e);
            },
        };
        let digest = blake3_digest(bytes.as_slice());
        let id = command.command_id();
        if let Some(i) = self.lookup(&id) {
            if digest_eq(&self.processed[i].content_digest, &digest) {
                return Ok(copy_decision(&self.processed[i].decision));
            }
            return self.install_halt(Error::IdempotencyConflict);
        }
        let RiskCommand::Evaluate { request, .. } = command;
        if !self.history_ok(request) {
            return self.install_halt(Error::ReconciliationHistory);
        }
        let decision = match evaluate(id, request) {
            Ok(d) => d,
            Err(e) => {
                return self.install_halt(e);
            },
        };
        if self.accepted_commands == u64::MAX {
            return self.install_halt(Error::Overflow);
        }
        self.record(command, digest, &decision);
        Ok(decision)
    }
}

impl Default for PortfolioRiskEngine {
    /// An engine that has processed nothing.
    fn default() -> (e: Self)
        ensures
            e@.processed.len() == 0,
            e@.accepted_commands == 0,
            e@.last_evaluated_at_ns is None,
            e@.last_reconciled_at_ns is None,
            e@.last_reconciliation_digest is None,
            e@.last_decision is None,
            e@.halted is None,
    {
        PortfolioRiskEngine {
            processed: Vec::new(),
            accepted_commands: 0,
            last_evaluated_at_ns: None,
            last_reconciled_at_ns: None,
            last_reconciliation_digest: None,
            last_decision: None,
            halted: None,
        }
    }
}

/// A halted engine is absorbing: every further command is refused with the
/// recorded halt reason and changes nothing.
pub proof fn law_halted_engine_absorbs(old: RiskEngineView, cmd: RiskCommand, new: RiskEngineView, r: Result<RiskDecision, Error>)
    requires
        apply_spec(old, cmd, new, r),
        old.halted is Some,
    ensures
        new == old,
        r matches Err(Error::Halted(s)) && s@ == old.halted->0,
{
}

/// Replaying an accepted command returns the same decision and leaves the
/// engine unchanged.
pub proof fn law_replay_is_idempotent(
    s0: RiskEngineView,
    cmd: RiskCommand,
    s1: RiskEngineView,
    d1: RiskDecision,
    s2: RiskEngineView,
    r2: Result<RiskDecision, Error>,
)
    requires
        ids_unique(s1.processed),
        apply_spec(s0, cmd, s1, Ok(d1)),
        apply_spec(s1, cmd, s2, r2),
    ensures
        s2 == s1,
        r2 matches Ok(d2) && same_decision(d2, d1),
{
    let id = cmd->command_id;
    if !remembers(s0.processed, id) {
        let last = s1.processed.len() - 1;
        assert(s1.processed[last].command_id.0@ == id.0@);
        assert(remembers(s1.processed, id));
        let k = choose|k: int| 0 <= k < s1.processed.len() && (#[trigger] s1.processed[k]).command_id.0@ == id.0@;
        if k != last {
            assert(s1.processed[k].command_id.0@ != s1.processed[last].command_id.0@);
        }
    }
}

/// Applying a command never forgets or rewrites a remembered command: what
/// was remembered before the call is a prefix of what is remembered after it.
pub proof fn law_engine_remembers_forever(old: RiskEngineView, cmd: RiskCommand, new: RiskEngineView, r: Result<RiskDecision, Error>)
    requires
        apply_spec(old, cmd, new, r),
    ensures
        old.processed.len() <= new.processed.len(),
        new.processed.take(old.processed.len() as int) == old.processed,
{
    assert(old.processed.take(old.processed.len() as int) =~= old.processed);
}

/// A command id is answered from memory for as long as the engine runs: once
/// a call of `first` has returned `d1`, a later call with the same id on any
/// later running state that still remembers what was remembered then (see
/// `law_engine_remembers_forever`) returns the same decision and changes
/// nothing when its content digest is the same, and halts on an idempotency
/// conflict when it is not.
pub proof fn law_engine_answers_from_memory(
    s0: RiskEngineView,
    first: RiskCommand,
    s1: RiskEngineView,
    d1: RiskDecision,
    later: RiskEngineView,
    cmd: RiskCommand,
    s2: RiskEngineView,
    r2: Result<RiskDecision, Error>,
)
    requires
        apply_spec(s0, first, s1, Ok(d1)),
        s1.processed.len() <= later.processed.len(),
        later.processed.take(s1.processed.len() as int) == s1.processed,
        ids_unique(later.processed),
        later.halted is None,
        cmd->command_id == first->command_id,
        command_timestamps_ok(cmd),
        wire_bytes(cmd).len() <= MAX_COMMAND_BYTES,
        apply_spec(later, cmd, s2, r2),
    ensures
        command_digest(cmd) == command_digest(first) ==> s2 == later && (r2 matches Ok(d2) && same_decision(d2, d1)),
        wire_bytes(cmd) == wire_bytes(first) ==> s2 == later && (r2 matches Ok(d2) && same_decision(d2, d1)),
        command_digest(cmd) != command_digest(first) ==> r2 == Err::<RiskDecision, Error>(Error::IdempotencyConflict)
            && halted_with(later, s2, Error::IdempotencyConflict),
{
    let k = lemma_answer_is_remembered(s0, first, s1, d1);
    let id = first->command_id;
    assert(later.processed[k] == s1.processed[k]);
    assert(remembers(later.processed, id));
    let j = choose|j: int| 0 <= j < later.processed.len() && (#[trigger] later.processed[j]).command_id.0@ == id.0@;
    if j != k {
        assert(later.processed[j].command_id.0@ != later.processed[k].command_id.0@);
    }
}

/// Where the answer to an accepted call is remembered.
proof fn lemma_answer_is_remembered(s0: RiskEngineView, first: RiskCommand, s1: RiskEngineView, d1: RiskDecision) -> (k: int)
    requires
        apply_spec(s0, first, s1, Ok(d1)),
    ensures
        0 <= k < s1.processed.len(),
        s1.processed[k].command_id.0@ == first->command_id.0@,
        s1.processed[k].content_digest@ == command_digest(first),
        same_decision(d1, s1.processed[k].decision),
{
    let id = first->command_id;
    if remembers(s0.processed, id) {
        choose|k: int| 0 <= k < s0.processed.len() && (#[trigger] s0.processed[k]).command_id.0@ == id.0@
    } else {
        s1.processed.len() - 1
    }
}

/// Changing only the digest of a sealed decision breaks its seal, so a stored
/// or replayed decision whose digest was altered no longer verifies.
pub proof fn law_decision_seal_detects_a_changed_digest(d: RiskDecision, forged: [u8; 32])
    requires
        decision_sealed(d),
        forged@ != d.decision_digest@,
    ensures
        !decision_sealed(RiskDecision { decision_digest: forged, ..d }),
{
    let f = RiskDecision { decision_digest: forged, ..d };
    assert(f.body_canon() == d.body_canon());
}

/// A command that fails either changes nothing or halts the engine with the
/// reason of its error; only integrity failures halt.
pub proof fn law_failure_leaves_state_or_halts(old: RiskEngineView, cmd: RiskCommand, new: RiskEngineView, e: Error)
    requires
        apply_spec(old, cmd, new, Err(e)),
    ensures
        new == old || (halting(e) && halted_with(old, new, e)),
        halting(e) ==> new.halted is Some,
{
}

/// Every accepted decision advances the command count by exactly one, and a
/// replay or refusal leaves it alone.
pub proof fn law_accepted_count(old: RiskEngineView, cmd: RiskCommand, new: RiskEngineView, r: Result<RiskDecision, Error>)
    requires
        apply_spec(old, cmd, new, r),
    ensures
        new.accepted_commands == old.accepted_commands || new.accepted_commands == old.accepted_commands + 1,
        new.accepted_commands == old.accepted_commands + 1 ==> r is Ok,
        new.processed.len() >= old.processed.len(),
{
}

} // verus!
