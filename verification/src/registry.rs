//! The verifier registry: which check decides a task's completion, what the
//! check concludes from the evidence, and what the conclusion does to the
//! store.

use vstd::prelude::*;
use crate::task::{Task, TaskView};
use crate::error::{QuestError, ErrorView, code_of};
use crate::store::{TaskStore, StoreModel, found, with_completion};
use crate::completion::has_completion;

verus! {

/// A check that decides whether an address has completed a task.
#[derive(Debug, PartialEq, Eq, Clone, Copy, Structural)]
pub enum Check {
    /// The claimant was redirected to the task's destination; nothing more
    /// is asked.
    Redirect,
    /// The claimant has played at least one game.
    HasPlayed,
    /// The claimant's best score is greater than the threshold.
    ScoreAbove(u64),
    /// The claimant owns at least one domain.
    HasDomain,
}

/// What the outside service reported for one claimant.
#[derive(Debug)]
pub enum Evidence {
    /// No service was asked.
    Absent,
    /// The number that the service reported: a score, or a count of games
    /// or domains.
    Measured(u64),
    /// The service could not be asked, and why.
    Unavailable(String),
}

/// The mathematical value of an [`Evidence`].
pub enum EvidenceView {
    Absent,
    Measured(u64),
    Unavailable(Seq<char>),
}

impl View for Evidence {
    type V = EvidenceView;

    open spec fn view(&self) -> EvidenceView {
        match self {
            Evidence::Absent => EvidenceView::Absent,
            Evidence::Measured(n) => EvidenceView::Measured(*n),
            Evidence::Unavailable(reason) => EvidenceView::Unavailable(reason@),
        }
    }
}

/// What a check concluded.
#[derive(Debug)]
pub enum Decision {
    Verified,
    NotYetSatisfied,
    ExternalCheckFailed(String),
}

/// The mathematical value of a [`Decision`].
pub enum DecisionView {
    Verified,
    NotYetSatisfied,
    ExternalCheckFailed(Seq<char>),
}

impl View for Decision {
    type V = DecisionView;

    open spec fn view(&self) -> DecisionView {
        match self {
            Decision::Verified => DecisionView::Verified,
            Decision::NotYetSatisfied => DecisionView::NotYetSatisfied,
            Decision::ExternalCheckFailed(reason) => DecisionView::ExternalCheckFailed(reason@),
        }
    }
}

/// Whether a check reads evidence from an outside service.
pub open spec fn needs_evidence(check: Check) -> bool {
    !(check is Redirect)
}

/// The number that the measured value must exceed for a check to pass.
pub open spec fn threshold_of(check: Check) -> u64 {
    match check {
        Check::ScoreAbove(t) => t,
        _ => 0,
    }
}

/// The reason given where a check needs evidence and got none.
pub open spec fn missing_evidence_text() -> Seq<char> {
    "no evidence"@
}

/// What `check` concludes from `evidence`. A redirect is verified as it
/// stands. Every other check is verified where the measured number exceeds
/// its threshold, not yet satisfied where it does not, and failed where the
/// service gave no number.
pub open spec fn decision_of(check: Check, evidence: EvidenceView) -> DecisionView {
    if !needs_evidence(check) {
        DecisionView::Verified
    } else {
        match evidence {
            EvidenceView::Measured(n) => if n > threshold_of(check) {
                DecisionView::Verified
            } else {
                DecisionView::NotYetSatisfied
            },
            EvidenceView::Unavailable(reason) => DecisionView::ExternalCheckFailed(reason),
            EvidenceView::Absent => DecisionView::ExternalCheckFailed(missing_evidence_text()),
        }
    }
}

impl Check {
    /// Whether the check reads evidence from an outside service.
    pub fn needs_evidence(&self) -> (yes: bool)
        ensures
            yes == needs_evidence(*self),
    {
        match self {
            Check::Redirect => false,
            _ => true,
        }
    }

    /// The number that the measured value must exceed.
    pub fn threshold(&self) -> (t: u64)
        ensures
            t == threshold_of(*self),
    {
        match self {
            Check::ScoreAbove(t) => *t,
            _ => 0,
        }
    }

    /// Concludes from the evidence whether the task is completed.
    pub fn decide(&self, evidence: &Evidence) -> (out: Decision)
        ensures
            out@ == decision_of(*self, evidence@),
    {
        if !self.needs_evidence() {
            Decision::Verified
        } else {
            match evidence {
                Evidence::Measured(n) => {
                    if *n > self.threshold() {
                        Decision::Verified
                    } else {
                        Decision::NotYetSatisfied
                    }
                },
                Evidence::Unavailable(reason) => Decision::ExternalCheckFailed(reason.clone()),
                Evidence::Absent => Decision::ExternalCheckFailed("no evidence".to_owned()),
            }
        }
    }
}

/// One registration: the strategy key and the check it selects.
#[derive(Debug)]
pub struct Registration {
    key: String,
    check: Check,
}

/// Maps a task's `verify_endpoint_type` to the check that decides it.
#[derive(Debug)]
pub struct VerifierRegistry {
    entries: Vec<Registration>,
}

/// The check registered under `key`, if any. No check is ever registered
/// under the empty key.
pub open spec fn registered(entries: Seq<(Seq<char>, Check)>, key: Seq<char>) -> Option<Check>
    decreases entries.len(),
{
    if entries.len() == 0 {
        None
    } else if entries.last().0 == key {
        Some(entries.last().1)
    } else {
        registered(entries.drop_last(), key)
    }
}

/// The entries after the registration of `check` under `key`: unchanged
/// where the key is empty or taken, else with the new entry.
pub open spec fn with_registration(entries: Seq<(Seq<char>, Check)>, key: Seq<char>, check: Check) -> Seq<
    (Seq<char>, Check),
> {
    if key.len() == 0 || registered(entries, key) is Some {
        entries
    } else {
        entries.push((key, check))
    }
}

/// No registration stands under the empty key.
pub open spec fn keys_nonempty(entries: Seq<(Seq<char>, Check)>) -> bool {
    forall|i: int| 0 <= i < entries.len() ==> (#[trigger] entries[i]).0.len() > 0
}

/// Where no registration stands under the empty key, the empty key selects
/// no check.
pub proof fn lemma_empty_key_unregistered(entries: Seq<(Seq<char>, Check)>)
    requires
        keys_nonempty(entries),
    ensures
        registered(entries, Seq::empty()) is None,
    decreases entries.len(),
{
    if entries.len() > 0 {
        let front = entries.drop_last();
        assert(entries[entries.len() - 1].0.len() > 0);
        assert forall|i: int| 0 <= i < front.len() implies (#[trigger] front[i]).0.len() > 0 by {
            assert(front[i] == entries[i]);
        }
        lemma_empty_key_unregistered(front);
    }
}

/// The registrations that every registry starts from.
pub open spec fn standard_entries() -> Seq<(Seq<char>, Check)> {
    seq![
        ("default"@, Check::Redirect),
        ("has_played"@, Check::HasPlayed),
        ("score_gt_50"@, Check::ScoreAbove(50)),
        ("score_gt_100"@, Check::ScoreAbove(100)),
        ("has_domain"@, Check::HasDomain),
    ]
}

impl View for VerifierRegistry {
    type V = Seq<(Seq<char>, Check)>;

    closed spec fn view(&self) -> Seq<(Seq<char>, Check)> {
        self.entries@.map_values(|e: Registration| (e.key@, e.check))
    }
}

impl VerifierRegistry {
    /// The registry without registrations.
    pub fn new() -> (out: VerifierRegistry)
        ensures
            out@.len() == 0,
            keys_nonempty(out@),
    {
        VerifierRegistry { entries: Vec::new() }
    }

    /// The registry with the standard checks: redirect confirmation under
    /// "default", and the game and domain checks under their own keys.
    pub fn standard() -> (out: VerifierRegistry)
        ensures
            out@ == standard_entries(),
            keys_nonempty(out@),
    {
        let mut entries: Vec<Registration> = Vec::new();
        entries.push(Registration { key: "default".to_owned(), check: Check::Redirect });
        entries.push(Registration { key: "has_played".to_owned(), check: Check::HasPlayed });
        entries.push(Registration { key: "score_gt_50".to_owned(), check: Check::ScoreAbove(50) });
        entries.push(Registration { key: "score_gt_100".to_owned(), check: Check::ScoreAbove(100) });
        entries.push(Registration { key: "has_domain".to_owned(), check: Check::HasDomain });
        let out = VerifierRegistry { entries };
        assert(out@ =~= standard_entries());
        proof {
            reveal_strlit("default");
            reveal_strlit("has_played");
            reveal_strlit("score_gt_50");
            reveal_strlit("score_gt_100");
            reveal_strlit("has_domain");
        }
        out
    }

    /// The check registered under `key`, by exact match.
    pub fn lookup(&self, key: &str) -> (out: Option<Check>)
        ensures
            out == registered(self@, key@),
    {
        let wanted = key.to_owned();
        let mut i: usize = self.entries.len();
        assert(self@.take(i as int) =~= self@);
        while i > 0
            invariant
                0 <= i <= self.entries@.len(),
                wanted@ == key@,
                registered(self@, key@) == registered(self@.take(i as int), key@),
            decreases i,
        {
            proof {
                let part = self@.take(i as int);
                assert(part.last() == self@[i - 1]);
                assert(part.drop_last() =~= self@.take(i - 1));
            }
            if self.entries[i - 1].key == wanted {
                return Some(self.entries[i - 1].check);
            }
            i = i - 1;
        }
        None
    }

    /// Registers `check` under `key`. The empty key and a key that is taken
    /// are refused: the registry then stays as it is, and the result is
    /// `false`.
    pub fn register(&mut self, key: &str, check: Check) -> (accepted: bool)
        ensures
            final(self)@ == with_registration(old(self)@, key@, check),
            accepted <==> key@.len() > 0 && registered(old(self)@, key@) is None,
            accepted ==> registered(final(self)@, key@) == Some(check),
            keys_nonempty(old(self)@) ==> keys_nonempty(final(self)@),
    {
        if key.unicode_len() == 0 {
            return false;
        }
        match self.lookup(key) {
            Some(_) => false,
            None => {
                let entry = Registration { key: key.to_owned(), check };
                assert(self.entries@.push(entry).map_values(|e: Registration| (e.key@, e.check))
                    =~= self@.push((key@, check)));
                self.entries.push(entry);
                true
            },
        }
    }
}

/// What a verification request returns: whether the task is verified, or
/// the error that kept it from being decided.
pub open spec fn outcome_of(decision: DecisionView) -> Result<bool, ErrorView> {
    match decision {
        DecisionView::Verified => Ok(true),
        DecisionView::NotYetSatisfied => Ok(false),
        DecisionView::ExternalCheckFailed(reason) => Err(ErrorView::ExternalCheckFailed(reason)),
    }
}

/// The result of a request that was refused with the error `e`.
pub open spec fn refused(e: ErrorView) -> Result<bool, ErrorView> {
    Err(e)
}

/// The value of a verification result.
pub open spec fn outcome_view(out: Result<bool, QuestError>) -> Result<bool, ErrorView> {
    match out {
        Ok(v) => Ok(v),
        Err(e) => Err(e@),
    }
}

/// The store after a decision on the completion of `task_id` by `address`:
/// with the completion recorded where the decision is `Verified`, untouched
/// otherwise.
pub open spec fn concluded(store: StoreModel, task_id: u32, address: Seq<char>, decision: DecisionView) -> StoreModel {
    if decision is Verified {
        StoreModel { tasks: store.tasks, records: with_completion(store.records, task_id, address) }
    } else {
        store
    }
}

/// The decision on a verification request: the unknown task and the
/// unregistered strategy are errors, everything else is what the
/// registered check concludes from the evidence.
pub open spec fn verdict(
    tasks: Seq<TaskView>,
    entries: Seq<(Seq<char>, Check)>,
    task_id: u32,
    evidence: EvidenceView,
) -> Result<DecisionView, ErrorView> {
    match found(tasks, task_id) {
        None => Err(ErrorView::NotFound),
        Some(task) => match registered(entries, task.verify_endpoint_type) {
            None => Err(ErrorView::UnsupportedVerificationType),
            Some(check) => Ok(decision_of(check, evidence)),
        },
    }
}

/// A task with an empty strategy type is never verified: with no
/// registration under the empty key, the request is refused as unsupported.
pub proof fn lemma_empty_type_unsupported(
    tasks: Seq<TaskView>,
    entries: Seq<(Seq<char>, Check)>,
    task_id: u32,
    evidence: EvidenceView,
)
    requires
        keys_nonempty(entries),
        found(tasks, task_id) matches Some(task) && task.verify_endpoint_type.len() == 0,
    ensures
        verdict(tasks, entries, task_id, evidence) matches Err(e) && e
            is UnsupportedVerificationType,
{
    lemma_empty_key_unregistered(entries);
    assert(found(tasks, task_id).unwrap().verify_endpoint_type =~= Seq::empty());
}

/// Selects the check for `task` by exact match on its strategy type. A type
/// that is not registered is an error.
pub fn select_check(registry: &VerifierRegistry, task: &Task) -> (out: Result<Check, QuestError>)
    ensures
        match registered(registry@, task@.verify_endpoint_type) {
            Some(check) => out matches Ok(c) && c == check,
            None => out matches Err(e) && e@ is UnsupportedVerificationType,
        },
{
    match registry.lookup(task.verify_endpoint_type.as_str()) {
        Some(check) => Ok(check),
        None => Err(QuestError::UnsupportedVerificationType),
    }
}

/// Whether a decision asks for a completion record: true of `Verified` only.
pub fn should_record(decision: &Decision) -> (yes: bool)
    ensures
        yes == (decision@ is Verified),
{
    match decision {
        Decision::Verified => true,
        _ => false,
    }
}

/// What the caller is told of a decision: verified or not, or a retryable
/// error where the outside check failed.
pub fn outcome(decision: &Decision) -> (out: Result<bool, QuestError>)
    ensures
        outcome_view(out) == outcome_of(decision@),
{
    match decision {
        Decision::Verified => Ok(true),
        Decision::NotYetSatisfied => Ok(false),
        Decision::ExternalCheckFailed(reason) => Err(QuestError::ExternalCheckFailed(reason.clone())),
    }
}

/// What the caller of a verification request is shown: whether the task is
/// verified and, where the request failed, the code of the error and
/// whether to try again. It carries no text of the error.
#[derive(Debug, PartialEq, Eq, Clone, Copy, Structural)]
pub struct VerifyReply {
    pub verified: bool,
    pub code: Option<u16>,
    pub retryable: bool,
}

/// The reply to a verification result: the verdict where there is one, and
/// the neutral "not verified" with the error's code where there is none.
pub open spec fn reply_of(out: Result<bool, ErrorView>) -> VerifyReply {
    match out {
        Ok(verified) => VerifyReply { verified, code: None, retryable: false },
        Err(e) => VerifyReply {
            verified: false,
            code: Some(code_of(e)),
            retryable: e is ExternalCheckFailed,
        },
    }
}

/// Turns a verification result into what the caller is shown.
pub fn reply(out: &Result<bool, QuestError>) -> (shown: VerifyReply)
    ensures
        shown == reply_of(outcome_view(*out)),
{
    match out {
        Ok(verified) => VerifyReply { verified: *verified, code: None, retryable: false },
        Err(e) => VerifyReply { verified: false, code: Some(e.code()), retryable: e.is_retryable() },
    }
}

/// Carries out a decision: records the completion where the decision is
/// `Verified` (a record that exists already counts as success and is not
/// written again), and leaves the store untouched otherwise.
pub fn conclude(store: &mut TaskStore, task_id: u32, address: &str, decision: &Decision) -> (out: Result<
    bool,
    QuestError,
>)
    requires
        old(store).wf(),
    ensures
        final(store).wf(),
        final(store)@ == concluded(old(store)@, task_id, address@, decision@),
        outcome_view(out) == outcome_of(decision@),
{
    if should_record(decision) {
        store.record_completion(task_id, address);
    }
    outcome(decision)
}

/// Verifies the completion of `task_id` by `address`: finds the task,
/// selects its check, lets the check conclude from the evidence, and
/// records the completion where it is verified. The store changes in that
/// one case only.
pub fn verify(
    store: &mut TaskStore,
    registry: &VerifierRegistry,
    task_id: u32,
    address: &str,
    evidence: &Evidence,
) -> (out: Result<bool, QuestError>)
    requires
        old(store).wf(),
    ensures
        final(store).wf(),
        match verdict(old(store)@.tasks, registry@, task_id, evidence@) {
            Ok(decision) => outcome_view(out) == outcome_of(decision) && final(store)@ == concluded(
                old(store)@,
                task_id,
                address@,
                decision,
            ),
            Err(e) => outcome_view(out) == refused(e) && final(store)@ == old(store)@,
        },
{
    match store.find_task(task_id) {
        None => Err(QuestError::NotFound),
        Some(task) => match select_check(registry, &task) {
            Err(e) => Err(e),
            Ok(check) => {
                let decision = check.decide(evidence);
                conclude(store, task_id, address, &decision)
            },
        },
    }
}

/// Verifying twice with evidence that verifies leaves exactly what
/// verifying once leaves: one record of the completion.
pub proof fn lemma_verify_twice(store: StoreModel, task_id: u32, address: Seq<char>)
    requires
        crate::store::valid_store(store),
    ensures
        concluded(
            concluded(store, task_id, address, DecisionView::Verified),
            task_id,
            address,
            DecisionView::Verified,
        ) == concluded(store, task_id, address, DecisionView::Verified),
        crate::store::completion_count(
            concluded(store, task_id, address, DecisionView::Verified).records,
            task_id,
            address,
        ) == 1,
        has_completion(
            concluded(store, task_id, address, DecisionView::Verified).records,
            task_id,
            address,
        ),
{
    crate::store::lemma_record_twice(store.records, task_id, address);
    crate::store::lemma_completion_count(
        with_completion(store.records, task_id, address),
        task_id,
        address,
    );
}

} // verus!
