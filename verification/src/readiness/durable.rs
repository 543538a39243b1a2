//! Journaled production-change readiness: a command is appended and synced
//! before its outcome is installed, a failure after the append poisons the
//! owner, and recovery replays a gap-free journal under one policy, stopping at
//! nothing after a halt and checking the checkpointed digest where the journal
//! reaches it.

use vstd::prelude::*;
use vstd::string::StringExecFns;
use crate::checkpoint::ReadinessCheckpoint;
use crate::digest::digest_eq;
use super::engine::{apply_spec, encode_command, state_digest_spec, wire_bytes, ProductionChangeReadiness, ReadinessView};
use super::types::{Error as ReadinessError, ProductionReadinessPolicy, ReadinessCommand, ReadinessOutcome};
use super::validate::policy_valid;

verus! {

broadcast use vstd::string::to_string_from_display_ensures_for_str;

/// The recorded reason of an owner poisoned by a journal failure `e`.
pub open spec fn journal_failure_text(e: Seq<char>) -> Seq<char> {
    "production readiness journal error: "@ + e
}

fn journal_failure_message(e: &String) -> (s: String)
    ensures
        s@ == journal_failure_text(e@),
{
    let prefix = "production readiness journal error: ".to_string();
    prefix.concat(e.as_str())
}


#[derive(Clone, Debug, PartialEq, Eq)]
pub enum ReadinessStorageError {
    Readiness(ReadinessError),
    Schema(String),
    Journal(String),
    Segment(String),
    Io(String),
    Sequence { expected: u64, actual: u64 },
    SequenceExhausted,
    EnvelopeIdentity,
    EnvelopeTimestamp,
    RecoveryMismatch,
    PostHaltEvent,
    CheckpointMismatch,
    CheckpointSequenceMissing,
    CheckpointLength,
    CheckpointMagic,
    CheckpointVersion(u16),
    CheckpointReserved,
    CheckpointChecksum,
    Halted(String),
}

/// The owner a journal replays to, and the last sequence it held.
#[derive(Debug)]
pub struct ReadinessRecovery {
    pub readiness: ProductionChangeReadiness,
    pub last_sequence: Option<u64>,
}

/// The sequence the next appended command takes.
pub open spec fn next_sequence(last: Option<u64>) -> Option<u64> {
    match last {
        None => Some(0),
        Some(v) => if v == u64::MAX { None } else { Some((v + 1) as u64) },
    }
}

/// Why a command cannot be encoded for the journal, if it cannot.
pub open spec fn encode_failure(cmd: ReadinessCommand) -> Option<ReadinessError> {
    if wire_bytes(cmd).len() > super::engine::MAX_COMMAND_BYTES {
        Some(ReadinessError::CommandBound)
    } else {
        None
    }
}

/// What a replay reports for an engine failure that did not halt the engine.
pub open spec fn replay_failure(e: ReadinessError) -> ReadinessStorageError {
    ReadinessStorageError::Readiness(e)
}

/// A command ready to be appended: its journal sequence and its payload.
pub struct PreparedAppend {
    pub sequence: u64,
    pub payload: Vec<u8>,
}

/// Production-change readiness whose every command is journaled first.
#[derive(Debug)]
pub struct DurableProductionReadiness {
    readiness: ProductionChangeReadiness,
    last_sequence: Option<u64>,
    poisoned: Option<String>,
}

impl DurableProductionReadiness {
    pub closed spec fn engine_view(&self) -> ReadinessView {
        self.readiness@
    }

    pub closed spec fn last_sequence_view(&self) -> Option<u64> {
        self.last_sequence
    }

    pub closed spec fn poison_view(&self) -> Option<Seq<char>> {
        match self.poisoned {
            Some(s) => Some(s@),
            None => None,
        }
    }

    /// Aligns the recovered state with the journal writer's last sequence.
    pub fn new(journal_last_sequence: Option<u64>, recovery: ReadinessRecovery) -> (r: Result<Self, ReadinessStorageError>)
        ensures
            match r {
                Ok(d) => journal_last_sequence == recovery.last_sequence && d.engine_view() == recovery.readiness@
                    && d.last_sequence_view() == recovery.last_sequence && d.poison_view() is None,
                Err(e) => journal_last_sequence != recovery.last_sequence && e == ReadinessStorageError::RecoveryMismatch,
            },
    {
        if journal_last_sequence != recovery.last_sequence {
            return Err(ReadinessStorageError::RecoveryMismatch);
        }
        Ok(DurableProductionReadiness { readiness: recovery.readiness, last_sequence: recovery.last_sequence, poisoned: None })
    }

    pub fn readiness(&self) -> (r: &ProductionChangeReadiness)
        ensures
            r@ == self.engine_view(),
    {
        &self.readiness
    }

    pub fn last_sequence(&self) -> (r: Option<u64>)
        ensures
            r == self.last_sequence_view(),
    {
        self.last_sequence
    }

    /// The durable owner refuses everything once poisoned.
    pub fn sync(&self) -> (r: Result<(), ReadinessStorageError>)
        ensures
            match self.poison_view() {
                Some(reason) => r matches Err(ReadinessStorageError::Halted(s)) && s@ == reason,
                None => r is Ok,
            },
    {
        match &self.poisoned {
            Some(reason) => Err(ReadinessStorageError::Halted(reason.clone())),
            None => Ok(()),
        }
    }

    /// What goes into the journal for `command`, before anything is appended.
    pub fn prepare(&self, command: &ReadinessCommand) -> (r: Result<PreparedAppend, ReadinessStorageError>)
        ensures
            match self.poison_view() {
                Some(reason) => r matches Err(ReadinessStorageError::Halted(s)) && s@ == reason,
                None => match encode_failure(*command) {
                    Some(e) => r == Err::<PreparedAppend, ReadinessStorageError>(ReadinessStorageError::Readiness(e)),
                    None => match next_sequence(self.last_sequence_view()) {
                        Some(n) => r matches Ok(p) && p.sequence == n && p.payload@ == wire_bytes(*command)
                            && wire_bytes(*command).len() <= super::engine::MAX_COMMAND_BYTES,
                        None => r == Err::<PreparedAppend, ReadinessStorageError>(ReadinessStorageError::SequenceExhausted),
                    },
                },
            },
    {
        match &self.poisoned {
            Some(reason) => {
                return Err(ReadinessStorageError::Halted(reason.clone()));
            },
            None => {},
        }
        let payload = match encode_command(command) {
            Ok(b) => b,
            Err(e) => {
                return Err(ReadinessStorageError::Readiness(e));
            },
        };
        let sequence = match self.last_sequence {
            None => 0,
            Some(v) => match v.checked_add(1) {
                Some(n) => n,
                None => {
                    return Err(ReadinessStorageError::SequenceExhausted);
                },
            },
        };
        Ok(PreparedAppend { sequence, payload })
    }

    /// Takes the journal's answer to the append of `sequence`: on success the
    /// owner holds `sequence` as its last; a failure poisons the owner, which
    /// then refuses every later command and sync and does no journal work.
    pub fn append_answered(&mut self, sequence: u64, answer: Result<(), String>) -> (r: Result<(), ReadinessStorageError>)
        ensures
            final(self).engine_view() == old(self).engine_view(),
            match answer {
                Ok(_) => r is Ok && final(self).last_sequence_view() == Some(sequence)
                    && final(self).poison_view() == old(self).poison_view(),
                Err(e) => r == Err::<(), ReadinessStorageError>(ReadinessStorageError::Journal(e))
                    && final(self).poison_view() == Some(journal_failure_text(e@))
                    && final(self).last_sequence_view() == old(self).last_sequence_view(),
            },
    {
        match answer {
            Ok(_) => {
                self.last_sequence = Some(sequence);
                Ok(())
            },
            Err(e) => {
                self.poisoned = Some(journal_failure_message(&e));
                Err(ReadinessStorageError::Journal(e))
            },
        }
    }

    /// Takes the journal's answer to a sync: a failure poisons the owner.
    pub fn sync_answered(&mut self, answer: Result<(), String>) -> (r: Result<(), ReadinessStorageError>)
        ensures
            final(self).engine_view() == old(self).engine_view(),
            final(self).last_sequence_view() == old(self).last_sequence_view(),
            match answer {
                Ok(_) => r is Ok && final(self).poison_view() == old(self).poison_view(),
                Err(e) => r == Err::<(), ReadinessStorageError>(ReadinessStorageError::Journal(e))
                    && final(self).poison_view() == Some(journal_failure_text(e@)),
            },
    {
        match answer {
            Ok(_) => Ok(()),
            Err(e) => {
                self.poisoned = Some(journal_failure_message(&e));
                Err(ReadinessStorageError::Journal(e))
            },
        }
    }

    /// Installs the outcome of a command whose append has been synced.
    #[verifier::rlimit(60)]
    pub fn install(&mut self, command: &ReadinessCommand) -> (r: Result<ReadinessOutcome, ReadinessStorageError>)
        ensures
            exists|res: Result<ReadinessOutcome, ReadinessError>| {
                &&& apply_spec(old(self).engine_view(), *command, final(self).engine_view(), res)
                &&& match res {
                    Ok(d) => r == Ok::<ReadinessOutcome, ReadinessStorageError>(d),
                    Err(e) => r == Err::<ReadinessOutcome, ReadinessStorageError>(ReadinessStorageError::Readiness(e)),
                }
            },
            final(self).last_sequence_view() == old(self).last_sequence_view(),
            final(self).poison_view() == old(self).poison_view(),
    {
        let ghost before = self.readiness@;
        let res = self.readiness.apply(command);
        let ghost after = self.readiness@;
        assert(apply_spec(before, *command, after, res));
        match res {
            Ok(d) => Ok(d),
            Err(e) => Err(ReadinessStorageError::Readiness(e)),
        }
    }
}

/// The checkpoint names sequence `sequence`.
pub open spec fn checkpoint_at(c: Option<ReadinessCheckpoint>, sequence: u64) -> bool {
    c matches Some(x) && x.sequence == sequence
}

/// The checkpoint names sequence `sequence` with a digest other than `digest`.
pub open spec fn checkpoint_disagrees(c: Option<ReadinessCheckpoint>, sequence: u64, digest: Seq<u8>) -> bool {
    c matches Some(x) && x.sequence == sequence && x.readiness_digest@ != digest
}

/// Strict replay of a journal, one envelope at a time.
pub struct ReadinessReplay {
    engine: ProductionChangeReadiness,
    expected: u64,
    last_sequence: Option<u64>,
    checkpoint: Option<ReadinessCheckpoint>,
    checkpoint_verified: bool,
    halted: bool,
}

impl ReadinessReplay {
    pub closed spec fn engine_view(&self) -> ReadinessView {
        self.engine@
    }

    pub closed spec fn expected_view(&self) -> u64 {
        self.expected
    }

    pub closed spec fn halted_view(&self) -> bool {
        self.halted
    }

    pub closed spec fn last_sequence_view(&self) -> Option<u64> {
        self.last_sequence
    }

    pub closed spec fn checkpoint_view(&self) -> Option<ReadinessCheckpoint> {
        self.checkpoint
    }

    pub closed spec fn verified_view(&self) -> bool {
        self.checkpoint_verified
    }

    /// A replay that has read nothing under `policy`, checking `checkpoint`
    /// if one is given; the policy must be valid.
    pub fn start(policy: ProductionReadinessPolicy, checkpoint: Option<ReadinessCheckpoint>) -> (r: Result<Self, ReadinessStorageError>)
        ensures
            match r {
                Ok(s) => {
                    &&& policy_valid(policy)
                    &&& s.expected_view() == 0
                    &&& !s.halted_view()
                    &&& s.last_sequence_view() is None
                    &&& s.checkpoint_view() == checkpoint
                    &&& s.verified_view() == (checkpoint is None)
                    &&& s.engine_view().policy == policy
                    &&& s.engine_view().processed.len() == 0
                    &&& s.engine_view().accepted_commands == 0
                    &&& s.engine_view().halted is None
                },
                Err(e) => !policy_valid(policy) && e == ReadinessStorageError::Readiness(ReadinessError::Config),
            },
    {
        let engine = match ProductionChangeReadiness::new(policy) {
            Ok(g) => g,
            Err(e) => {
                return Err(ReadinessStorageError::Readiness(e));
            },
        };
        Ok(ReadinessReplay {
            engine,
            expected: 0,
            last_sequence: None,
            checkpoint,
            checkpoint_verified: checkpoint.is_none(),
            halted: false,
        })
    }

    /// Replays one journaled envelope: its sequence must be the next one, it
    /// must be an envelope of this stream whose times are its command's,
    /// nothing may follow a halt, an engine failure other than a halt is
    /// corruption, and a checkpoint at this sequence must name this state.
    #[verifier::rlimit(80)]
    pub fn step(
        &mut self,
        sequence: u64,
        identity_ok: bool,
        event_time_ns: i64,
        received_time_ns: i64,
        command: &ReadinessCommand,
    ) -> (r: Result<(), ReadinessStorageError>)
        ensures
            old(self).halted_view() ==> r == Err::<(), ReadinessStorageError>(ReadinessStorageError::PostHaltEvent),
            !old(self).halted_view() && sequence != old(self).expected_view() ==> r == Err::<(), ReadinessStorageError>(
                ReadinessStorageError::Sequence { expected: old(self).expected_view(), actual: sequence }),
            !old(self).halted_view() && sequence == old(self).expected_view() && sequence == u64::MAX
                ==> r == Err::<(), ReadinessStorageError>(ReadinessStorageError::SequenceExhausted),
            !old(self).halted_view() && sequence == old(self).expected_view() && sequence < u64::MAX && !identity_ok
                ==> r == Err::<(), ReadinessStorageError>(ReadinessStorageError::EnvelopeIdentity),
            !old(self).halted_view() && sequence == old(self).expected_view() && sequence < u64::MAX && identity_ok
                && (event_time_ns != command.recorded_at() || received_time_ns != command.recorded_at())
                ==> r == Err::<(), ReadinessStorageError>(ReadinessStorageError::EnvelopeTimestamp),
            !old(self).halted_view() && sequence == old(self).expected_view() && sequence < u64::MAX && identity_ok
                && event_time_ns == command.recorded_at() && received_time_ns == command.recorded_at() ==> exists|res: Result<ReadinessOutcome, ReadinessError>| {
                &&& apply_spec(old(self).engine_view(), *command, final(self).engine_view(), res)
                &&& match res {
                    Err(e) => if final(self).engine_view().halted is None {
                        r == Err::<(), ReadinessStorageError>(replay_failure(e))
                    } else if checkpoint_disagrees(old(self).checkpoint_view(), sequence, state_digest_spec(final(self).engine_view())) {
                        r == Err::<(), ReadinessStorageError>(ReadinessStorageError::CheckpointMismatch)
                    } else {
                        r is Ok && final(self).halted_view()
                    },
                    Ok(_) => if checkpoint_disagrees(old(self).checkpoint_view(), sequence, state_digest_spec(final(self).engine_view())) {
                        r == Err::<(), ReadinessStorageError>(ReadinessStorageError::CheckpointMismatch)
                    } else {
                        r is Ok && !final(self).halted_view()
                    },
                }
            },
            r is Ok ==> {
                &&& final(self).expected_view() == sequence + 1
                &&& final(self).last_sequence_view() == Some(sequence)
                &&& final(self).checkpoint_view() == old(self).checkpoint_view()
                &&& final(self).verified_view() == (old(self).verified_view() || checkpoint_at(old(self).checkpoint_view(), sequence))
            },
    {
        if self.halted {
            return Err(ReadinessStorageError::PostHaltEvent);
        }
        if sequence != self.expected {
            return Err(ReadinessStorageError::Sequence { expected: self.expected, actual: sequence });
        }
        if self.expected == u64::MAX {
            return Err(ReadinessStorageError::SequenceExhausted);
        }
        self.expected = self.expected + 1;
        if !identity_ok {
            return Err(ReadinessStorageError::EnvelopeIdentity);
        }
        let at = command.recorded_at_ns();
        if event_time_ns != at || received_time_ns != at {
            return Err(ReadinessStorageError::EnvelopeTimestamp);
        }
        let ghost before = self.engine@;
        let result = self.engine.apply(command);
        let ghost after = self.engine@;
        assert(apply_spec(before, *command, after, result));
        match result {
            Ok(_) => {},
            Err(e) => {
                if !self.engine.is_halted() {
                    return Err(ReadinessStorageError::Readiness(e));
                }
                self.halted = true;
            },
        }
        self.last_sequence = Some(sequence);
        match self.checkpoint {
            Some(c) => if c.sequence == sequence {
                let snapshot = self.engine.snapshot();
                if !digest_eq(&snapshot.digest, &c.readiness_digest) {
                    return Err(ReadinessStorageError::CheckpointMismatch);
                }
                self.checkpoint_verified = true;
            },
            None => {},
        }
        Ok(())
    }

    /// Ends the replay: the checkpoint, if any, must have been reached.
    pub fn finish(self) -> (r: Result<ReadinessRecovery, ReadinessStorageError>)
        ensures
            match r {
                Ok(rec) => self.verified_view() && rec.readiness@ == self.engine_view() && rec.last_sequence == self.last_sequence_view(),
                Err(e) => !self.verified_view() && e == ReadinessStorageError::CheckpointSequenceMissing,
            },
    {
        if !self.checkpoint_verified {
            return Err(ReadinessStorageError::CheckpointSequenceMissing);
        }
        Ok(ReadinessRecovery { readiness: self.engine, last_sequence: self.last_sequence })
    }
}
} // verus!
