//! Log-claim evaluation for transport smoke scenarios: claims state which
//! patterns a scenario's log files must (or must not) contain, and evaluation
//! counts the non-overlapping matches of each pattern in the named file.

use vstd::prelude::*;
use vstd::string::StringExecFns;

verus! {

/// Whether a claim demands that its pattern appear, or that it not appear.
#[derive(Clone, Copy, Debug, PartialEq, Eq, Structural)]
pub enum ClaimKind {
    MustMatch,
    MustNotMatch,
}

/// What a claim is evidence of.
#[derive(Clone, Copy, Debug, PartialEq, Eq, Structural)]
pub enum ClaimCategory {
    EndpointCommunication,
    StreamerEgress,
    ForbiddenSignature,
    Readiness,
}

/// How a claim's minimum match count is chosen.
#[derive(Clone, Copy, Debug, PartialEq, Eq, Structural)]
pub enum ThresholdSelector {
    EndpointCommunication,
    EgressSendAttempt,
    EgressSendOk,
    EgressWorkerCreateOrReuse,
    Fixed(usize),
}

/// A claim as scenarios declare it: static identifiers and a threshold
/// selector still to be resolved.
#[derive(Clone, Copy, Debug)]
pub struct ClaimTemplate {
    pub claim_id: &'static str,
    pub category: ClaimCategory,
    pub kind: ClaimKind,
    pub file: &'static str,
    pub pattern: &'static str,
    pub threshold: ThresholdSelector,
}

impl ClaimTemplate {
    /// A claim that `file` must hold at least the threshold's number of
    /// matches of `pattern`.
    pub fn must_match(
        claim_id: &'static str,
        category: ClaimCategory,
        file: &'static str,
        pattern: &'static str,
        threshold: ThresholdSelector,
    ) -> (r: ClaimTemplate)
        ensures
            r.claim_id@ == claim_id@,
            r.category == category,
            r.kind == ClaimKind::MustMatch,
            r.file@ == file@,
            r.pattern@ == pattern@,
            r.threshold == threshold,
    {
        ClaimTemplate { claim_id, category, kind: ClaimKind::MustMatch, file, pattern, threshold }
    }

    /// A claim that `file` must hold no match of `pattern` at all.
    pub fn must_not_match(
        claim_id: &'static str,
        category: ClaimCategory,
        file: &'static str,
        pattern: &'static str,
    ) -> (r: ClaimTemplate)
        ensures
            r.claim_id@ == claim_id@,
            r.category == category,
            r.kind == ClaimKind::MustNotMatch,
            r.file@ == file@,
            r.pattern@ == pattern@,
            r.threshold == ThresholdSelector::Fixed(0),
    {
        ClaimTemplate {
            claim_id,
            category,
            kind: ClaimKind::MustNotMatch,
            file,
            pattern,
            threshold: ThresholdSelector::Fixed(0),
        }
    }
}

/// Default minimum count of endpoint-communication evidence lines.
pub const DEFAULT_ENDPOINT_CLAIM_MIN_COUNT: usize = 1;

/// Default minimum count of egress send attempts.
pub const DEFAULT_EGRESS_SEND_ATTEMPT_MIN_COUNT: usize = 1;

/// Default minimum count of successful egress sends.
pub const DEFAULT_EGRESS_SEND_OK_MIN_COUNT: usize = 1;

/// Default minimum count of egress worker create-or-reuse events.
pub const DEFAULT_EGRESS_WORKER_MIN_COUNT: usize = 1;

/// The resolved minimum counts for each threshold selector.
#[derive(Clone, Copy, Debug)]
pub struct Thresholds {
    pub endpoint_communication_min_count: usize,
    pub egress_send_attempt_min_count: usize,
    pub egress_send_ok_min_count: usize,
    pub egress_worker_create_or_reuse_min_count: usize,
}

impl Default for Thresholds {
    /// The default minimum counts.
    fn default() -> (r: Thresholds)
        ensures
            r.endpoint_communication_min_count == DEFAULT_ENDPOINT_CLAIM_MIN_COUNT,
            r.egress_send_attempt_min_count == DEFAULT_EGRESS_SEND_ATTEMPT_MIN_COUNT,
            r.egress_send_ok_min_count == DEFAULT_EGRESS_SEND_OK_MIN_COUNT,
            r.egress_worker_create_or_reuse_min_count == DEFAULT_EGRESS_WORKER_MIN_COUNT,
    {
        Thresholds {
            endpoint_communication_min_count: DEFAULT_ENDPOINT_CLAIM_MIN_COUNT,
            egress_send_attempt_min_count: DEFAULT_EGRESS_SEND_ATTEMPT_MIN_COUNT,
            egress_send_ok_min_count: DEFAULT_EGRESS_SEND_OK_MIN_COUNT,
            egress_worker_create_or_reuse_min_count: DEFAULT_EGRESS_WORKER_MIN_COUNT,
        }
    }
}

/// A claim ready for evaluation: owned identifiers and a resolved minimum.
#[derive(Debug)]
pub struct ClaimSpec {
    pub claim_id: String,
    pub category: ClaimCategory,
    pub kind: ClaimKind,
    pub file: String,
    pub pattern: String,
    pub min_count: usize,
}

/// The evaluation of one claim against one file.
#[derive(Debug)]
pub struct ClaimOutcome {
    pub claim_id: String,
    pub category: ClaimCategory,
    pub kind: ClaimKind,
    pub file: String,
    pub pattern: String,
    pub min_count: usize,
    pub observed_count: usize,
    pub pass: bool,
    pub first_match: Option<String>,
    pub error: Option<String>,
}

impl Clone for ClaimOutcome {
    /// A clone is the same outcome.
    fn clone(&self) -> (r: ClaimOutcome)
        ensures
            r == *self,
    {
        let first_match = match &self.first_match {
            Some(m) => Some(m.clone()),
            None => None,
        };
        let error = match &self.error {
            Some(e) => Some(e.clone()),
            None => None,
        };
        ClaimOutcome {
            claim_id: self.claim_id.clone(),
            category: self.category,
            kind: self.kind,
            file: self.file.clone(),
            pattern: self.pattern.clone(),
            min_count: self.min_count,
            observed_count: self.observed_count,
            pass: self.pass,
            first_match,
            error,
        }
    }
}

/// The minimum count a selector resolves to.
pub open spec fn resolved_threshold(selector: ThresholdSelector, thresholds: Thresholds) -> usize {
    match selector {
        ThresholdSelector::EndpointCommunication => thresholds.endpoint_communication_min_count,
        ThresholdSelector::EgressSendAttempt => thresholds.egress_send_attempt_min_count,
        ThresholdSelector::EgressSendOk => thresholds.egress_send_ok_min_count,
        ThresholdSelector::EgressWorkerCreateOrReuse => thresholds.egress_worker_create_or_reuse_min_count,
        ThresholdSelector::Fixed(value) => value,
    }
}

/// Resolves a threshold selector against the configured minimum counts.
pub fn resolve_threshold(selector: ThresholdSelector, thresholds: Thresholds) -> (r: usize)
    ensures
        r == resolved_threshold(selector, thresholds),
{
    match selector {
        ThresholdSelector::EndpointCommunication => thresholds.endpoint_communication_min_count,
        ThresholdSelector::EgressSendAttempt => thresholds.egress_send_attempt_min_count,
        ThresholdSelector::EgressSendOk => thresholds.egress_send_ok_min_count,
        ThresholdSelector::EgressWorkerCreateOrReuse => thresholds.egress_worker_create_or_reuse_min_count,
        ThresholdSelector::Fixed(value) => value,
    }
}

/// Whether `spec` is `template` materialized under `thresholds`.
pub open spec fn materialized_claim(template: ClaimTemplate, thresholds: Thresholds, spec: ClaimSpec) -> bool {
    &&& spec.claim_id@ == template.claim_id@
    &&& spec.category == template.category
    &&& spec.kind == template.kind
    &&& spec.file@ == template.file@
    &&& spec.pattern@ == template.pattern@
    &&& spec.min_count == resolved_threshold(template.threshold, thresholds)
}

/// Turns claim templates into evaluable claims by owning their identifiers
/// and resolving each threshold.
pub fn materialize_claims(claim_templates: &[ClaimTemplate], thresholds: Thresholds) -> (r: Vec<
    ClaimSpec,
>)
    ensures
        r@.len() == claim_templates@.len(),
        forall|i: int|
            0 <= i < r@.len() ==> #[trigger] materialized_claim(
                claim_templates@[i],
                thresholds,
                r@[i],
            ),
{
    let mut result: Vec<ClaimSpec> = Vec::new();
    let n = claim_templates.len();
    for i in 0..n
        invariant
            n == claim_templates@.len(),
            result@.len() == i,
            forall|j: int|
                0 <= j < i ==> #[trigger] materialized_claim(
                    claim_templates@[j],
                    thresholds,
                    result@[j],
                ),
    {
        let template = claim_templates[i];
        let min_count = resolve_threshold(template.threshold, thresholds);
        result.push(
            ClaimSpec {
                claim_id: template.claim_id.to_owned(),
                category: template.category,
                kind: template.kind,
                file: template.file.to_owned(),
                pattern: template.pattern.to_owned(),
                min_count,
            },
        );
    }
    result
}

/// One log file of a scenario run, by name.
pub struct ArtifactFile {
    pub name: String,
    pub contents: String,
}

/// The log files a scenario run produced, held as plain values. The embedding
/// program reads them from wherever the run put them.
pub struct ArtifactStore {
    files: Vec<ArtifactFile>,
}

/// The ghost image of an artifact store: each file's name with its contents.
pub open spec fn artifact_views(s: Seq<ArtifactFile>) -> Seq<(Seq<char>, Seq<char>)> {
    s.map_values(|f: ArtifactFile| (f.name@, f.contents@))
}

/// The contents of the first file named `name`, if any.
pub open spec fn artifact_lookup(files: Seq<(Seq<char>, Seq<char>)>, name: Seq<char>) -> Option<
    Seq<char>,
>
    decreases files.len(),
{
    if files.len() == 0 {
        None
    } else if files.first().0 == name {
        Some(files.first().1)
    } else {
        artifact_lookup(files.drop_first(), name)
    }
}

impl ArtifactStore {
    /// The store's ghost image.
    pub closed spec fn view_files(&self) -> Seq<(Seq<char>, Seq<char>)> {
        artifact_views(self.files@)
    }

    /// An empty store.
    pub fn new() -> (r: ArtifactStore)
        ensures
            r.view_files() == Seq::<(Seq<char>, Seq<char>)>::empty(),
    {
        let r = ArtifactStore { files: Vec::new() };
        proof {
            assert(r.view_files() =~= Seq::<(Seq<char>, Seq<char>)>::empty());
        }
        r
    }

    /// Adds one file.
    pub fn add_file(&mut self, name: String, contents: String)
        ensures
            final(self).view_files() == old(self).view_files().push((name@, contents@)),
    {
        let ghost old_files = self.view_files();
        self.files.push(ArtifactFile { name, contents });
        proof {
            assert(self.view_files().drop_last() =~= old_files);
            assert(self.view_files() =~= old_files.push(
                (self.files@.last().name@, self.files@.last().contents@),
            ));
        }
    }

    /// The contents of the first file with this name.
    pub fn read(&self, name: &str) -> (r: Option<String>)
        ensures
            match r {
                Some(contents) => artifact_lookup(self.view_files(), name@) == Some(contents@),
                None => artifact_lookup(self.view_files(), name@) is None,
            },
    {
        let n = self.files.len();
        proof {
            assert(self.view_files().skip(0) =~= self.view_files());
        }
        for i in 0..n
            invariant
                n == self.files.len(),
                artifact_lookup(self.view_files(), name@) == artifact_lookup(
                    self.view_files().skip(i as int),
                    name@,
                ),
        {
            proof {
                assert(self.view_files().skip(i as int).first() == (
                    self.files@[i as int].name@,
                    self.files@[i as int].contents@,
                ));
                assert(self.view_files().skip(i as int).drop_first() =~= self.view_files().skip(
                    i + 1,
                ));
            }
            if crate::uri::str_eq(self.files[i].name.as_str(), name) {
                return Some(self.files[i].contents.clone());
            }
        }
        None
    }
}

/// Whether the text compiled from `pattern` is a usable regular expression;
/// what the outside regular-expression engine accepts.
pub uninterp spec fn regex_is_valid(pattern: Seq<char>) -> bool;

/// The number of non-overlapping matches of `pattern` in `text`, as the
/// outside regular-expression engine counts them.
pub uninterp spec fn regex_match_count(pattern: Seq<char>, text: Seq<char>) -> nat;

/// The first match of `pattern` in `text`, as the outside engine finds it;
/// meaningful only when the match count is positive.
pub uninterp spec fn regex_first_match(pattern: Seq<char>, text: Seq<char>) -> Seq<char>;

/// Relies on `regex::Regex::new` and `regex::Regex::find_iter`: whether a
/// pattern compiles, how many non-overlapping matches it has in a text and
/// what the first match is are functions of the pattern and the text alone.
#[verifier::external_body]
fn scan_pattern(pattern: &str, text: &str) -> (r: Option<(usize, Option<String>)>)
    ensures
        (r is Some) == regex_is_valid(pattern@),
        r matches Some(scan) ==> {
            &&& scan.0 == regex_match_count(pattern@, text@)
            &&& (scan.1 is Some) == (scan.0 > 0)
            &&& (scan.1 matches Some(m) ==> m@ == regex_first_match(pattern@, text@))
        },
{
    match regex::Regex::new(pattern) {
        Ok(re) => {
            let mut match_iter = re.find_iter(text);
            let first = match_iter.next().map(|m| m.as_str().to_string());
            let observed: usize = if first.is_some() { 1 + match_iter.count() } else { 0 };
            Some((observed, first))
        },
        Err(_) => None,
    }
}

/// What an outcome must say of one claim under one artifact store.
pub open spec fn claim_outcome_ok(
    files: Seq<(Seq<char>, Seq<char>)>,
    claim: ClaimSpec,
    outcome: ClaimOutcome,
) -> bool {
    &&& outcome.claim_id@ == claim.claim_id@
    &&& outcome.category == claim.category
    &&& outcome.kind == claim.kind
    &&& outcome.file@ == claim.file@
    &&& outcome.pattern@ == claim.pattern@
    &&& outcome.min_count == claim.min_count
    &&& match artifact_lookup(files, claim.file@) {
        None => {
            &&& outcome.observed_count == 0
            &&& !outcome.pass
            &&& outcome.first_match is None
            &&& outcome.error is Some
        },
        Some(contents) => {
            if regex_is_valid(claim.pattern@) {
                &&& outcome.observed_count == regex_match_count(claim.pattern@, contents)
                &&& (outcome.first_match is Some) == (outcome.observed_count > 0)
                &&& (outcome.first_match matches Some(m) ==> m@ == regex_first_match(
                    claim.pattern@,
                    contents,
                ))
                &&& outcome.error is None
                &&& outcome.pass == if claim.kind is MustMatch {
                    outcome.observed_count >= claim.min_count
                } else {
                    outcome.observed_count == 0
                }
            } else {
                &&& outcome.observed_count == 0
                &&& !outcome.pass
                &&& outcome.first_match is None
                &&& outcome.error is Some
            }
        },
    }
}

/// Evaluates one claim against the artifact store: an unreadable file or an
/// unusable pattern is a hard failure; otherwise the matches are counted and
/// held against the claim's kind and minimum.
fn evaluate_claim(artifacts: &ArtifactStore, claim: &ClaimSpec) -> (r: ClaimOutcome)
    ensures
        claim_outcome_ok(artifacts.view_files(), *claim, r),
{
    let contents = match artifacts.read(claim.file.as_str()) {
        Some(contents) => contents,
        None => {
            let mut reason = "unable to read ".to_owned();
            reason.append(claim.file.as_str());
            return ClaimOutcome {
                claim_id: claim.claim_id.clone(),
                category: claim.category,
                kind: claim.kind,
                file: claim.file.clone(),
                pattern: claim.pattern.clone(),
                min_count: claim.min_count,
                observed_count: 0,
                pass: false,
                first_match: None,
                error: Some(reason),
            };
        },
    };
    let scan = match scan_pattern(claim.pattern.as_str(), contents.as_str()) {
        Some(scan) => scan,
        None => {
            let mut reason = "invalid regex ".to_owned();
            reason.append(claim.pattern.as_str());
            return ClaimOutcome {
                claim_id: claim.claim_id.clone(),
                category: claim.category,
                kind: claim.kind,
                file: claim.file.clone(),
                pattern: claim.pattern.clone(),
                min_count: claim.min_count,
                observed_count: 0,
                pass: false,
                first_match: None,
                error: Some(reason),
            };
        },
    };
    let (observed_count, first_match) = scan;
    let pass = match claim.kind {
        ClaimKind::MustMatch => observed_count >= claim.min_count,
        ClaimKind::MustNotMatch => observed_count == 0,
    };
    ClaimOutcome {
        claim_id: claim.claim_id.clone(),
        category: claim.category,
        kind: claim.kind,
        file: claim.file.clone(),
        pattern: claim.pattern.clone(),
        min_count: claim.min_count,
        observed_count,
        pass,
        first_match,
        error: None,
    }
}

/// Evaluates every claim against the artifact store, in order.
pub fn evaluate_claims(artifacts: &ArtifactStore, claims: &[ClaimSpec]) -> (r: Vec<ClaimOutcome>)
    ensures
        r@.len() == claims@.len(),
        forall|i: int|
            0 <= i < r@.len() ==> #[trigger] claim_outcome_ok(
                artifacts.view_files(),
                claims@[i],
                r@[i],
            ),
{
    let mut outcomes: Vec<ClaimOutcome> = Vec::new();
    let n = claims.len();
    for i in 0..n
        invariant
            n == claims@.len(),
            outcomes@.len() == i,
            forall|j: int|
                0 <= j < i ==> #[trigger] claim_outcome_ok(
                    artifacts.view_files(),
                    claims@[j],
                    outcomes@[j],
                ),
    {
        let outcome = evaluate_claim(artifacts, &claims[i]);
        outcomes.push(outcome);
    }
    outcomes
}

/// The outcomes of must-match claims, in order.
pub open spec fn must_outcomes_of(s: Seq<ClaimOutcome>) -> Seq<ClaimOutcome>
    decreases s.len(),
{
    if s.len() == 0 {
        Seq::empty()
    } else {
        let rest = must_outcomes_of(s.drop_last());
        if s.last().kind is MustNotMatch {
            rest
        } else {
            rest.push(s.last())
        }
    }
}

/// The outcomes of must-not-match claims, in order.
pub open spec fn forbidden_outcomes_of(s: Seq<ClaimOutcome>) -> Seq<ClaimOutcome>
    decreases s.len(),
{
    if s.len() == 0 {
        Seq::empty()
    } else {
        let rest = forbidden_outcomes_of(s.drop_last());
        if s.last().kind is MustNotMatch {
            rest.push(s.last())
        } else {
            rest
        }
    }
}

/// The first failing outcome, if any.
pub open spec fn first_failure(s: Seq<ClaimOutcome>) -> Option<ClaimOutcome>
    decreases s.len(),
{
    if s.len() == 0 {
        None
    } else if !s.first().pass {
        Some(s.first())
    } else {
        first_failure(s.drop_first())
    }
}

/// The description of a failing claim.
pub open spec fn failure_reason(outcome: ClaimOutcome) -> Seq<char> {
    "claim "@ + outcome.claim_id@ + " failed in file "@ + outcome.file@ + " on pattern "@
        + outcome.pattern@
}

/// Appending an outcome leaves an earlier first failure in place; otherwise
/// the appended outcome is the first failure exactly when it fails.
proof fn lemma_first_failure_push(s: Seq<ClaimOutcome>, x: ClaimOutcome)
    ensures
        first_failure(s.push(x)) == if first_failure(s) is Some {
            first_failure(s)
        } else if !x.pass {
            Some(x)
        } else {
            None::<ClaimOutcome>
        },
    decreases s.len(),
{
    if s.len() == 0 {
        assert(s.push(x).len() == 1);
        assert(s.push(x).first() == x);
        if x.pass {
            assert(s.push(x).drop_first() =~= Seq::<ClaimOutcome>::empty());
        }
    } else {
        assert(s.push(x).first() == s.first());
        assert(s.push(x).drop_first() =~= s.drop_first().push(x));
        lemma_first_failure_push(s.drop_first(), x);
    }
}

/// Splits outcomes into must-match and must-not-match groups, in order, and
/// reports the first failing claim, if any.
pub fn split_claim_outcomes(outcomes: Vec<ClaimOutcome>) -> (r: (
    Vec<ClaimOutcome>,
    Vec<ClaimOutcome>,
    Option<String>,
))
    ensures
        r.0@ == must_outcomes_of(outcomes@),
        r.1@ == forbidden_outcomes_of(outcomes@),
        match first_failure(outcomes@) {
            None => r.2 is None,
            Some(failing) => r.2 matches Some(reason) && reason@ == failure_reason(failing),
        },
{
    let mut must_outcomes: Vec<ClaimOutcome> = Vec::new();
    let mut forbidden_outcomes: Vec<ClaimOutcome> = Vec::new();
    let mut first_failure_reason: Option<String> = None;
    let n = outcomes.len();
    for i in 0..n
        invariant
            n == outcomes@.len(),
            must_outcomes@ == must_outcomes_of(outcomes@.take(i as int)),
            forbidden_outcomes@ == forbidden_outcomes_of(outcomes@.take(i as int)),
            match first_failure(outcomes@.take(i as int)) {
                None => first_failure_reason is None,
                Some(failing) => first_failure_reason matches Some(reason) && reason@
                    == failure_reason(failing),
            },
    {
        proof {
            assert(outcomes@.take(i + 1 as int).drop_last() =~= outcomes@.take(i as int));
            assert(outcomes@.take(i + 1 as int) =~= outcomes@.take(i as int).push(
                outcomes@[i as int],
            ));
            lemma_first_failure_push(outcomes@.take(i as int), outcomes@[i as int]);
        }
        let outcome = outcomes[i].clone();
        if !outcome.pass && first_failure_reason.is_none() {
            let mut reason = "claim ".to_owned();
            reason.append(outcome.claim_id.as_str());
            reason.append(" failed in file ");
            reason.append(outcome.file.as_str());
            reason.append(" on pattern ");
            reason.append(outcome.pattern.as_str());
            proof {
                assert(reason@ =~= failure_reason(outcomes@[i as int]));
            }
            first_failure_reason = Some(reason);
        }
        if let ClaimKind::MustNotMatch = outcome.kind {
            forbidden_outcomes.push(outcome);
        } else {
            must_outcomes.push(outcome);
        }
        proof {
            assert(must_outcomes@ =~= must_outcomes_of(outcomes@.take(i + 1 as int)));
            assert(forbidden_outcomes@ =~= forbidden_outcomes_of(outcomes@.take(i + 1 as int)));
        }
    }
    proof {
        assert(outcomes@.take(n as int) =~= outcomes@);
    }
    (must_outcomes, forbidden_outcomes, first_failure_reason)
}

} // verus!
