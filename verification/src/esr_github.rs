//! A repository of the source-hosting service: its record, what is derived
//! from it, and its score.

use vstd::prelude::*;
use vstd::string::*;

use crate::esr_errors::EsrError;
use crate::esr_fixed::{
    pow15_of_months, spec_pow15_of_months, spec_sqrt_of_count, spec_sqrt_of_months, sqrt_of_count,
    sqrt_of_months, MAX_MONTHS,
};
use crate::esr_from::{spec_with_token, string_views, EsrFrom};
use crate::esr_macros::{
    score_add, spec_gain, spec_loss, spec_term, table_view, ScoreTerm, ScoreTermView, MAX_SCORE,
};
use crate::esr_util::{
    age_in_months, opt_view, span_in_months, spec_age_in_months, spec_span_in_months,
};

verus! {

// ---------------------------------------------------------------------------
// Records
// ---------------------------------------------------------------------------

/// A pull request: when it was merged, if it was.
pub struct PullRequestView {
    pub merged_at: Option<Seq<char>>,
    pub number: nat,
}

/// A pull request: when it was merged, if it was.
#[derive(Debug)]
pub struct PullRequestInfo {
    merged_at: Option<String>,
    number: usize,
}

impl View for PullRequestInfo {
    type V = PullRequestView;

    closed spec fn view(&self) -> PullRequestView {
        PullRequestView { merged_at: opt_view(self.merged_at), number: self.number as nat }
    }
}

impl PullRequestInfo {
    pub fn new(merged_at: Option<String>, number: usize) -> (r: Self)
        ensures
            r@ == (PullRequestView { merged_at: opt_view(merged_at), number: number as nat }),
    {
        PullRequestInfo { merged_at, number }
    }
}

/// A closed issue: when it was closed.
pub struct IssueView {
    pub closed_at: Option<Seq<char>>,
    pub number: nat,
}

/// A closed issue: when it was closed.
#[derive(Debug)]
pub struct IssueInfo {
    closed_at: Option<String>,
    number: usize,
}

impl View for IssueInfo {
    type V = IssueView;

    closed spec fn view(&self) -> IssueView {
        IssueView { closed_at: opt_view(self.closed_at), number: self.number as nat }
    }
}

impl IssueInfo {
    pub fn new(closed_at: Option<String>, number: usize) -> (r: Self)
        ensures
            r@ == (IssueView { closed_at: opt_view(closed_at), number: number as nat }),
    {
        IssueInfo { closed_at, number }
    }
}

/// A contributor, by the number of contributions.
#[derive(Debug)]
pub struct ContributorInfo {
    contributions: usize,
}

impl View for ContributorInfo {
    type V = nat;

    closed spec fn view(&self) -> nat {
        self.contributions as nat
    }
}

impl ContributorInfo {
    pub fn new(contributions: usize) -> (r: Self)
        ensures
            r@ == contributions as nat,
    {
        ContributorInfo { contributions }
    }
}

pub type RepoPullRequests = Vec<PullRequestInfo>;

impl EsrFrom for RepoPullRequests {
    open spec fn spec_url_from_id(id: Seq<char>) -> Seq<char> {
        "https://api.github.com/repos/"@ + id + "/pulls?state=all&per_page=100"@
    }

    fn url_from_id(id: &str) -> (url: String) {
        String::from_str("https://api.github.com/repos/").concat(id).concat(
            "/pulls?state=all&per_page=100",
        )
    }
}

pub type RepoClosedIssues = Vec<IssueInfo>;

impl EsrFrom for RepoClosedIssues {
    open spec fn spec_url_from_id(id: Seq<char>) -> Seq<char> {
        "https://api.github.com/repos/"@ + id + "/issues?state=closed&per_page=1"@
    }

    fn url_from_id(id: &str) -> (url: String) {
        String::from_str("https://api.github.com/repos/").concat(id).concat(
            "/issues?state=closed&per_page=1",
        )
    }
}

pub type RepoContributors = Vec<ContributorInfo>;

impl EsrFrom for RepoContributors {
    open spec fn spec_url_from_id(id: Seq<char>) -> Seq<char> {
        "https://api.github.com/repos/"@ + id + "/contributors?per_page=100"@
    }

    fn url_from_id(id: &str) -> (url: String) {
        String::from_str("https://api.github.com/repos/").concat(id).concat(
            "/contributors?per_page=100",
        )
    }
}

/// What the service says of the repository itself.
pub struct RepoGeneralInfoView {
    pub subscribers_count: nat,
    pub created_at: Seq<char>,
    pub pushed_at: Seq<char>,
}

/// What the service says of the repository itself.
#[derive(Debug)]
pub struct RepoGeneralInfo {
    subscribers_count: usize,
    created_at: String,
    // the same as created_at where the repository is empty
    pushed_at: String,
}

impl View for RepoGeneralInfo {
    type V = RepoGeneralInfoView;

    closed spec fn view(&self) -> RepoGeneralInfoView {
        RepoGeneralInfoView {
            subscribers_count: self.subscribers_count as nat,
            created_at: self.created_at@,
            pushed_at: self.pushed_at@,
        }
    }
}

impl RepoGeneralInfo {
    pub fn new(subscribers_count: usize, created_at: String, pushed_at: String) -> (r: Self)
        ensures
            r@ == (RepoGeneralInfoView {
                subscribers_count: subscribers_count as nat,
                created_at: created_at@,
                pushed_at: pushed_at@,
            }),
    {
        RepoGeneralInfo { subscribers_count, created_at, pushed_at }
    }
}

impl EsrFrom for RepoGeneralInfo {
    open spec fn spec_url_from_id(id: Seq<char>) -> Seq<char> {
        "https://api.github.com/repos/"@ + id
    }

    fn url_from_id(id: &str) -> (url: String) {
        String::from_str("https://api.github.com/repos/").concat(id)
    }
}

/// The issues behind a list of them, one for one.
pub open spec fn issue_views(s: Seq<IssueInfo>) -> Seq<IssueView> {
    Seq::new(s.len(), |i: int| s[i]@)
}

/// The pull requests behind a list of them, one for one.
pub open spec fn pull_request_views(s: Seq<PullRequestInfo>) -> Seq<PullRequestView> {
    Seq::new(s.len(), |i: int| s[i]@)
}

/// The contributions behind a list of contributors, one for one.
pub open spec fn contributor_views(s: Seq<ContributorInfo>) -> Seq<nat> {
    Seq::new(s.len(), |i: int| s[i]@)
}

/// The first hundred items of a list, or all where it has no more.
pub open spec fn first_100<A>(s: Seq<A>) -> Seq<A> {
    if s.len() > 100 {
        s.take(100)
    } else {
        s
    }
}

/// A repository: what the service says of it, its closed issues and its pull
/// requests, the newest first, and its contributors, the busiest first. Each
/// list holds 100 items at most.
pub struct RepoInfoView {
    pub general_info: RepoGeneralInfoView,
    pub last_100_closed_issues: Seq<IssueView>,
    pub last_100_pull_requests: Seq<PullRequestView>,
    pub top_100_contributors: Seq<nat>,
}

/// The record of a repository.
#[derive(Debug)]
pub struct RepoInfo {
    general_info: RepoGeneralInfo,
    last_100_closed_issues: RepoClosedIssues,
    last_100_pull_requests: RepoPullRequests,
    top_100_contributors: RepoContributors,
}

impl View for RepoInfo {
    type V = RepoInfoView;

    closed spec fn view(&self) -> RepoInfoView {
        RepoInfoView {
            general_info: self.general_info@,
            last_100_closed_issues: issue_views(self.last_100_closed_issues@),
            last_100_pull_requests: pull_request_views(self.last_100_pull_requests@),
            top_100_contributors: contributor_views(self.top_100_contributors@),
        }
    }
}

/// The four addresses under which the parts of a repository's record are
/// found: the repository itself, its closed issues, its pull requests, its
/// contributors. Each carries the access token.
pub open spec fn spec_request_urls(id: Seq<char>, token: Seq<char>) -> Seq<Seq<char>> {
    seq![
        spec_with_token(RepoGeneralInfo::spec_url_from_id(id), token),
        spec_with_token(RepoClosedIssues::spec_url_from_id(id), token),
        spec_with_token(RepoPullRequests::spec_url_from_id(id), token),
        spec_with_token(RepoContributors::spec_url_from_id(id), token),
    ]
}

/// The first of the four parts that failed, if any did.
pub open spec fn spec_first_failed_part(
    general_info: Result<RepoGeneralInfo, EsrError>,
    closed_issues: Result<RepoClosedIssues, EsrError>,
    pull_requests: Result<RepoPullRequests, EsrError>,
    contributors: Result<RepoContributors, EsrError>,
) -> Option<EsrError> {
    if general_info is Err {
        Some(general_info->Err_0)
    } else if closed_issues is Err {
        Some(closed_issues->Err_0)
    } else if pull_requests is Err {
        Some(pull_requests->Err_0)
    } else if contributors is Err {
        Some(contributors->Err_0)
    } else {
        None
    }
}

impl RepoInfo {
    #[verifier::type_invariant]
    spec fn bounded(self) -> bool {
        &&& self.last_100_closed_issues@.len() <= 100
        &&& self.last_100_pull_requests@.len() <= 100
        &&& self.top_100_contributors@.len() <= 100
    }

    /// The record of a repository from its parts. Of each list the first 100
    /// items are kept.
    pub fn new(
        general_info: RepoGeneralInfo,
        closed_issues: RepoClosedIssues,
        pull_requests: RepoPullRequests,
        contributors: RepoContributors,
    ) -> (r: Self)
        ensures
            r@ == (RepoInfoView {
                general_info: general_info@,
                last_100_closed_issues: first_100(issue_views(closed_issues@)),
                last_100_pull_requests: first_100(pull_request_views(pull_requests@)),
                top_100_contributors: first_100(contributor_views(contributors@)),
            }),
    {
        let mut last_100_closed_issues = closed_issues;
        let mut last_100_pull_requests = pull_requests;
        let mut top_100_contributors = contributors;
        last_100_closed_issues.truncate(100);
        last_100_pull_requests.truncate(100);
        top_100_contributors.truncate(100);
        assert(issue_views(last_100_closed_issues@) =~= first_100(issue_views(closed_issues@)));
        assert(pull_request_views(last_100_pull_requests@) =~= first_100(
            pull_request_views(pull_requests@),
        ));
        assert(contributor_views(top_100_contributors@) =~= first_100(
            contributor_views(contributors@),
        ));
        RepoInfo {
            general_info,
            last_100_closed_issues,
            last_100_pull_requests,
            top_100_contributors,
        }
    }

    /// A record cannot be had without an access token: always an error.
    pub fn from_id(_id: &str) -> (r: Result<Self, EsrError>)
        ensures
            r is Err,
            r->Err_0 is Other,
            r->Err_0->Other_0@ == "Unimplemented: use  from_id_with_token()"@,
    {
        Err(EsrError::other("Unimplemented: use  from_id_with_token()"))
    }

    /// The four addresses to fetch for the repository `id`.
    pub fn request_urls(id: &str, token: &str) -> (urls: Vec<String>)
        ensures
            string_views(urls@) == spec_request_urls(id@, token@),
    {
        let mut urls: Vec<String> = Vec::new();
        urls.push(RepoGeneralInfo::url_from_id_and_token(id, token));
        urls.push(RepoClosedIssues::url_from_id_and_token(id, token));
        urls.push(RepoPullRequests::url_from_id_and_token(id, token));
        urls.push(RepoContributors::url_from_id_and_token(id, token));
        assert(string_views(urls@) =~= spec_request_urls(id@, token@));
        urls
    }

    /// The record of a repository from what came of fetching its four parts:
    /// whole where all four were had, else the error of the first that failed.
    pub fn from_parts(
        general_info: Result<RepoGeneralInfo, EsrError>,
        closed_issues: Result<RepoClosedIssues, EsrError>,
        pull_requests: Result<RepoPullRequests, EsrError>,
        contributors: Result<RepoContributors, EsrError>,
    ) -> (r: Result<Self, EsrError>)
        ensures
            match spec_first_failed_part(general_info, closed_issues, pull_requests, contributors) {
                Some(e) => r == Err::<Self, EsrError>(e),
                None => r is Ok && r->Ok_0@ == (RepoInfoView {
                    general_info: general_info->Ok_0@,
                    last_100_closed_issues: first_100(issue_views(closed_issues->Ok_0@)),
                    last_100_pull_requests: first_100(pull_request_views(pull_requests->Ok_0@)),
                    top_100_contributors: first_100(contributor_views(contributors->Ok_0@)),
                }),
            },
    {
        let general_info = match general_info {
            Ok(part) => part,
            Err(e) => {
                return Err(e);
            },
        };
        let closed_issues = match closed_issues {
            Ok(part) => part,
            Err(e) => {
                return Err(e);
            },
        };
        let pull_requests = match pull_requests {
            Ok(part) => part,
            Err(e) => {
                return Err(e);
            },
        };
        let contributors = match contributors {
            Ok(part) => part,
            Err(e) => {
                return Err(e);
            },
        };
        Ok(Self::new(general_info, closed_issues, pull_requests, contributors))
    }
}

// ---------------------------------------------------------------------------
// What a repository is scored by
// ---------------------------------------------------------------------------

/// Why a repository cannot be scored.
pub enum RepoFault {
    /// A date cannot be read.
    Unreadable,
    /// The repository has no contributor.
    NoContributors,
    /// The newest closed issue has no date of closing.
    NotClosed,
}

/// The error that reports a fault: `TimeParse` for a date, `MissingData` for
/// the contributors, `Other` for the issue.
pub open spec fn is_repo_fault(e: EsrError, fault: RepoFault) -> bool {
    match fault {
        RepoFault::Unreadable => e is TimeParse,
        RepoFault::NoContributors => e is MissingData && e->MissingData_0@
            == "Empty contributors list"@,
        RepoFault::NotClosed => e is Other && e->Other_0@ == "Impossible"@,
    }
}

/// The sum of all contributions.
pub open spec fn spec_commits(contributors: Seq<nat>) -> nat
    decreases contributors.len(),
{
    if contributors.len() == 0 {
        0
    } else {
        spec_commits(contributors.drop_last()) + contributors.last()
    }
}

/// `part` in hundredths of `whole`, rounded up; zero where `whole` is zero.
pub open spec fn spec_pct(part: nat, whole: nat) -> nat {
    if whole == 0 {
        0
    } else {
        (100 * part + whole - 1) as nat / whole
    }
}

/// The contributions of the second contributor, zero where there is none.
pub open spec fn spec_second(contributors: Seq<nat>) -> nat {
    if contributors.len() > 1 {
        contributors[1]
    } else {
        0
    }
}

/// The share of all contributors but the first, in percent and rounded up.
pub open spec fn spec_secondary_pct(contributors: Seq<nat>) -> nat {
    spec_pct((spec_commits(contributors) - contributors[0]) as nat, spec_commits(contributors))
}

/// The share of all contributors but the first two, in percent and rounded
/// up.
pub open spec fn spec_tertiary_pct(contributors: Seq<nat>) -> nat {
    spec_pct(
        (spec_commits(contributors) - contributors[0] - spec_second(contributors)) as nat,
        spec_commits(contributors),
    )
}

/// A pull request that was merged.
pub open spec fn is_merged(pr: PullRequestView) -> bool {
    pr.merged_at is Some
}

pub open spec fn merged_pred() -> spec_fn(PullRequestView) -> bool {
    |pr: PullRequestView| is_merged(pr)
}

/// The pull requests that were merged, in their order.
pub open spec fn spec_merged(prs: Seq<PullRequestView>) -> Seq<PullRequestView> {
    prs.filter(merged_pred())
}

/// The age of a date that may not be readable.
pub open spec fn spec_age(date: Seq<char>, now: int) -> Result<nat, RepoFault> {
    match spec_age_in_months(date, now) {
        Some(age) => Ok(age),
        None => Err(RepoFault::Unreadable),
    }
}

/// How long ago the newest merged pull request was merged; the age of the
/// repository where none was.
pub open spec fn spec_last_merge_age(info: RepoInfoView, now: int) -> Result<nat, RepoFault> {
    let merged = spec_merged(info.last_100_pull_requests);
    if merged.len() > 0 {
        spec_age(merged[0].merged_at->Some_0, now)
    } else {
        spec_age(info.general_info.created_at, now)
    }
}

/// How long ago the newest closed issue was closed; the age of the repository
/// where there is none.
pub open spec fn spec_last_close_age(info: RepoInfoView, now: int) -> Result<nat, RepoFault> {
    if info.last_100_closed_issues.len() > 0 {
        match info.last_100_closed_issues[0].closed_at {
            Some(date) => spec_age(date, now),
            None => Err(RepoFault::NotClosed),
        }
    } else {
        spec_age(info.general_info.created_at, now)
    }
}

/// What a repository is scored by. Times are in billionths of a month.
pub struct RepoScoreInfoView {
    pub subscribers: nat,
    pub contributors_up_to_100: nat,
    pub commits_from_upto_100_contributors: nat,
    pub secondary_contribution_pct: nat,
    pub tertiary_contribution_pct: nat,
    pub merged_pull_requests_in_last_100: nat,
    pub months_since_last_pr_merged: nat,
    pub months_since_last_issue_closed: nat,
    pub push_span_in_months: nat,
    pub months_since_last_push: nat,
}

/// What a repository is scored by at `now`. The checks are made in this
/// order: the span from creation to the last push, the age of the last push,
/// the contributors, the last merge, the last closing. The first fault is
/// the result.
pub open spec fn spec_repo_score_info(info: RepoInfoView, now: int) -> Result<
    RepoScoreInfoView,
    RepoFault,
> {
    match spec_span_in_months(info.general_info.created_at, info.general_info.pushed_at) {
        None => Err(RepoFault::Unreadable),
        Some(push_span) => match spec_age(info.general_info.pushed_at, now) {
            Err(fault) => Err(fault),
            Ok(push_age) => if info.top_100_contributors.len() == 0 {
                Err(RepoFault::NoContributors)
            } else {
                match spec_last_merge_age(info, now) {
                    Err(fault) => Err(fault),
                    Ok(merge_age) => match spec_last_close_age(info, now) {
                        Err(fault) => Err(fault),
                        Ok(close_age) => Ok(
                            RepoScoreInfoView {
                                subscribers: info.general_info.subscribers_count,
                                contributors_up_to_100: info.top_100_contributors.len(),
                                commits_from_upto_100_contributors: spec_commits(
                                    info.top_100_contributors,
                                ),
                                secondary_contribution_pct: spec_secondary_pct(
                                    info.top_100_contributors,
                                ),
                                tertiary_contribution_pct: spec_tertiary_pct(
                                    info.top_100_contributors,
                                ),
                                merged_pull_requests_in_last_100: spec_merged(
                                    info.last_100_pull_requests,
                                ).len(),
                                months_since_last_pr_merged: merge_age,
                                months_since_last_issue_closed: close_age,
                                push_span_in_months: push_span,
                                months_since_last_push: push_age,
                            },
                        ),
                    },
                }
            },
        },
    }
}

/// What each thing counts for, in thousandths of a point.
pub const WEIGHT_SUBSCRIBERS: i64 = 8_000;

pub const WEIGHT_CONTRIBUTORS: i64 = 3_000;

pub const WEIGHT_COMMITS: i64 = 2_000;

pub const WEIGHT_SECONDARY_PCT: i64 = 2_500;

pub const WEIGHT_TERTIARY_PCT: i64 = 5_000;

pub const WEIGHT_PUSH_SPAN: i64 = 5_000;

pub const WEIGHT_MERGED_PULL_REQUESTS: i64 = 2_500;

pub const WEIGHT_SINCE_LAST_PR_MERGED: i64 = -1_000;

pub const WEIGHT_SINCE_LAST_ISSUE_CLOSED: i64 = -1_000;

pub const WEIGHT_SINCE_LAST_PUSH: i64 = -4_000;

/// The least number of contributions from which the shares of the second and
/// later contributors count.
pub const MIN_COMMITS_FOR_SHARES: u128 = 50;

/// Whether the shares of the second and later contributors count.
pub open spec fn counts_shares(v: RepoScoreInfoView) -> bool {
    v.commits_from_upto_100_contributors >= MIN_COMMITS_FOR_SHARES
}

/// The first lines of a repository's score table.
pub open spec fn spec_repo_head_terms(v: RepoScoreInfoView) -> Seq<ScoreTermView> {
    seq![
        spec_term(
            "subscribers.powf(0.5)"@,
            spec_sqrt_of_count(v.subscribers),
            WEIGHT_SUBSCRIBERS as int,
        ),
        spec_term(
            "contributors_up_to_100"@,
            v.contributors_up_to_100 * 1_000_000,
            WEIGHT_CONTRIBUTORS as int,
        ),
        spec_term(
            "commits_from_upto_100_contributors.powf(0.5)"@,
            spec_sqrt_of_count(v.commits_from_upto_100_contributors),
            WEIGHT_COMMITS as int,
        ),
    ]
}

/// The two lines for the shares of the second and later contributors.
pub open spec fn spec_repo_share_terms(v: RepoScoreInfoView) -> Seq<ScoreTermView> {
    seq![
        spec_term(
            "secondary_contribution_pct"@,
            v.secondary_contribution_pct * 1_000_000,
            WEIGHT_SECONDARY_PCT as int,
        ),
        spec_term(
            "tertiary_contribution_pct"@,
            v.tertiary_contribution_pct * 1_000_000,
            WEIGHT_TERTIARY_PCT as int,
        ),
    ]
}

/// The lines of a repository's score table after the shares.
pub open spec fn spec_repo_tail_terms(v: RepoScoreInfoView) -> Seq<ScoreTermView> {
    seq![
        spec_term(
            "push_span_in_months.powf(0.5)"@,
            spec_sqrt_of_months(v.push_span_in_months),
            WEIGHT_PUSH_SPAN as int,
        ),
        spec_term(
            "merged_pull_requests_in_last_100"@,
            v.merged_pull_requests_in_last_100 * 1_000_000,
            WEIGHT_MERGED_PULL_REQUESTS as int,
        ),
        spec_term(
            "months_since_last_pr_merged.powf(1.5)"@,
            spec_pow15_of_months(v.months_since_last_pr_merged),
            WEIGHT_SINCE_LAST_PR_MERGED as int,
        ),
        spec_term(
            "months_since_last_issue_closed.powf(1.5)"@,
            spec_pow15_of_months(v.months_since_last_issue_closed),
            WEIGHT_SINCE_LAST_ISSUE_CLOSED as int,
        ),
        spec_term(
            "months_since_last_push.powf(1.5)"@,
            spec_pow15_of_months(v.months_since_last_push),
            WEIGHT_SINCE_LAST_PUSH as int,
        ),
    ]
}

/// The score table of a repository. The two lines for the shares of the
/// second and later contributors stand in it only from 50 contributions on.
pub open spec fn spec_repo_table(v: RepoScoreInfoView) -> Seq<ScoreTermView> {
    if counts_shares(v) {
        spec_repo_head_terms(v) + spec_repo_share_terms(v) + spec_repo_tail_terms(v)
    } else {
        spec_repo_head_terms(v) + spec_repo_tail_terms(v)
    }
}

/// What the shares of the second and later contributors add to the score:
/// nothing below 50 contributions.
pub open spec fn spec_repo_shares_score(v: RepoScoreInfoView) -> int {
    if counts_shares(v) {
        v.secondary_contribution_pct * 1_000_000 * WEIGHT_SECONDARY_PCT + v.tertiary_contribution_pct
            * 1_000_000 * WEIGHT_TERTIARY_PCT
    } else {
        0
    }
}

/// The positive score of a repository, in billionths.
pub open spec fn spec_repo_positive(v: RepoScoreInfoView) -> int {
    spec_sqrt_of_count(v.subscribers) * WEIGHT_SUBSCRIBERS + v.contributors_up_to_100 * 1_000_000
        * WEIGHT_CONTRIBUTORS + spec_sqrt_of_count(v.commits_from_upto_100_contributors)
        * WEIGHT_COMMITS + spec_repo_shares_score(v) + spec_sqrt_of_months(v.push_span_in_months)
        * WEIGHT_PUSH_SPAN + v.merged_pull_requests_in_last_100 * 1_000_000
        * WEIGHT_MERGED_PULL_REQUESTS
}

/// The negative score of a repository, in billionths: never above zero.
pub open spec fn spec_repo_negative(v: RepoScoreInfoView) -> int {
    spec_pow15_of_months(v.months_since_last_pr_merged) * WEIGHT_SINCE_LAST_PR_MERGED
        + spec_pow15_of_months(v.months_since_last_issue_closed) * WEIGHT_SINCE_LAST_ISSUE_CLOSED
        + spec_pow15_of_months(v.months_since_last_push) * WEIGHT_SINCE_LAST_PUSH
}

/// What a repository is scored by. Times are in billionths of a month.
#[derive(Debug)]
pub struct RepoScoreInfo {
    subscribers: usize,
    contributors_up_to_100: usize,
    commits_from_upto_100_contributors: u128,
    secondary_contribution_pct: usize,
    tertiary_contribution_pct: usize,
    merged_pull_requests_in_last_100: usize,
    months_since_last_pr_merged: u128,
    months_since_last_issue_closed: u128,
    push_span_in_months: u128,
    months_since_last_push: u128,
}

impl View for RepoScoreInfo {
    type V = RepoScoreInfoView;

    closed spec fn view(&self) -> RepoScoreInfoView {
        RepoScoreInfoView {
            subscribers: self.subscribers as nat,
            contributors_up_to_100: self.contributors_up_to_100 as nat,
            commits_from_upto_100_contributors: self.commits_from_upto_100_contributors as nat,
            secondary_contribution_pct: self.secondary_contribution_pct as nat,
            tertiary_contribution_pct: self.tertiary_contribution_pct as nat,
            merged_pull_requests_in_last_100: self.merged_pull_requests_in_last_100 as nat,
            months_since_last_pr_merged: self.months_since_last_pr_merged as nat,
            months_since_last_issue_closed: self.months_since_last_issue_closed as nat,
            push_span_in_months: self.push_span_in_months as nat,
            months_since_last_push: self.months_since_last_push as nat,
        }
    }
}

/// The sum of the contributions is at least what the first two made.
pub proof fn lemma_commits_hold_first_two(contributors: Seq<nat>)
    requires
        contributors.len() > 0,
    ensures
        spec_commits(contributors) >= contributors[0] + spec_second(contributors),
    decreases contributors.len(),
{
    let front = contributors.drop_last();
    if contributors.len() == 1 {
        assert(front.len() == 0);
        assert(spec_commits(front) == 0);
        assert(contributors.last() == contributors[0]);
    } else if contributors.len() == 2 {
        assert(front.len() == 1);
        assert(front.drop_last().len() == 0);
        assert(spec_commits(front.drop_last()) == 0);
        assert(front.last() == contributors[0]);
        assert(spec_commits(front) == contributors[0]);
        assert(contributors.last() == contributors[1]);
    } else {
        lemma_commits_hold_first_two(front);
        assert(front[0] == contributors[0]);
        assert(front[1] == contributors[1]);
        assert(spec_second(front) == spec_second(contributors));
    }
}

fn pct(part: u128, whole: u128) -> (r: usize)
    requires
        part <= whole,
        whole <= 100 * 0xffff_ffff_ffff_ffff,
    ensures
        r as nat == spec_pct(part as nat, whole as nat),
        r <= 100,
{
    if whole == 0 {
        0
    } else {
        let r: u128 = (100 * part + whole - 1) / whole;
        assert(r <= 100) by {
            assert(100 * part + whole - 1 < 101 * whole);
            assert((100 * part + whole - 1) / (whole as int) < 101) by (nonlinear_arith)
                requires
                    100 * part + whole - 1 < 101 * whole,
                    whole > 0,
            ;
        }
        r as usize
    }
}

impl RepoScoreInfo {
    #[verifier::type_invariant]
    spec fn in_reach(self) -> bool {
        &&& self.commits_from_upto_100_contributors <= 100 * 0xffff_ffff_ffff_ffff
        &&& self.months_since_last_pr_merged <= MAX_MONTHS
        &&& self.months_since_last_issue_closed <= MAX_MONTHS
        &&& self.push_span_in_months <= MAX_MONTHS
        &&& self.months_since_last_push <= MAX_MONTHS
    }

    fn commits(contributors: &RepoContributors) -> (sum: u128)
        requires
            contributors@.len() <= 100,
        ensures
            sum as nat == spec_commits(contributor_views(contributors@)),
            sum <= 100 * 0xffff_ffff_ffff_ffff,
    {
        let ghost views = contributor_views(contributors@);
        let mut sum: u128 = 0;
        let mut i: usize = 0;
        while i < contributors.len()
            invariant
                i <= contributors.len(),
                contributors@.len() <= 100,
                views == contributor_views(contributors@),
                sum as nat == spec_commits(views.take(i as int)),
                sum <= i * 0xffff_ffff_ffff_ffff,
            decreases contributors.len() - i,
        {
            assert(views.take(i as int + 1).drop_last() =~= views.take(i as int));
            assert(views.take(i as int + 1).last() == contributors@[i as int]@);
            sum = sum + contributors[i].contributions as u128;
            i += 1;
        }
        assert(views.take(i as int) =~= views);
        sum
    }

    /// Gathers what a repository is scored by at `now`, in seconds since the
    /// epoch.
    pub fn from_repo_info(repo_info: &RepoInfo, now: i64) -> (r: Result<Self, EsrError>)
        ensures
            match r {
                Ok(score_info) => spec_repo_score_info(repo_info@, now as int) == Ok::<
                    RepoScoreInfoView,
                    RepoFault,
                >(score_info@),
                Err(e) => spec_repo_score_info(repo_info@, now as int) is Err && is_repo_fault(
                    e,
                    spec_repo_score_info(repo_info@, now as int)->Err_0,
                ),
            },
    {
        proof {
            use_type_invariant(repo_info);
        }
        let general_info = &repo_info.general_info;

        // days active, months since the last push
        let push_span_in_months = match span_in_months(
            general_info.created_at.as_str(),
            general_info.pushed_at.as_str(),
        ) {
            Ok(span) => span,
            Err(e) => {
                return Err(e);
            },
        };
        let months_since_last_push = match age_in_months(general_info.pushed_at.as_str(), now) {
            Ok(age) => age,
            Err(e) => {
                return Err(e);
            },
        };

        let subscribers = general_info.subscribers_count;

        // contributors and their contributions
        if repo_info.top_100_contributors.len() == 0 {
            return Err(EsrError::MissingData(String::from_str("Empty contributors list")));
        }
        let contributors_up_to_100 = repo_info.top_100_contributors.len();
        let commits = Self::commits(&repo_info.top_100_contributors);

        // the shares of the second and of the later contributors
        let ghost views = contributor_views(repo_info.top_100_contributors@);
        proof {
            lemma_commits_hold_first_two(views);
        }
        let top = repo_info.top_100_contributors[0].contributions as u128;
        let second = if repo_info.top_100_contributors.len() > 1 {
            repo_info.top_100_contributors[1].contributions as u128
        } else {
            0
        };
        assert(views[0] == top);
        assert(spec_second(views) == second);
        let secondary_contribution_pct = pct(commits - top, commits);
        let tertiary_contribution_pct = pct(commits - top - second, commits);

        // merged pull requests, months since the last merge
        let ghost prs = pull_request_views(repo_info.last_100_pull_requests@);
        let mut merged_pull_requests_in_last_100: usize = 0;
        let mut last_merged: Option<&str> = None;
        let mut i: usize = 0;
        assert(prs.take(0).filter(merged_pred()) =~= Seq::<PullRequestView>::empty()) by {
            reveal(Seq::filter);
        }
        while i < repo_info.last_100_pull_requests.len()
            invariant
                i <= repo_info.last_100_pull_requests.len(),
                prs == pull_request_views(repo_info.last_100_pull_requests@),
                merged_pull_requests_in_last_100 <= i,
                merged_pull_requests_in_last_100 as nat == spec_merged(prs.take(i as int)).len(),
                match last_merged {
                    Some(date) => spec_merged(prs.take(i as int)).len() > 0 && spec_merged(
                        prs.take(i as int),
                    )[0].merged_at == Some(date@),
                    None => spec_merged(prs.take(i as int)).len() == 0,
                },
            decreases repo_info.last_100_pull_requests.len() - i,
        {
            let pr = &repo_info.last_100_pull_requests[i];
            proof {
                assert(prs.take(i as int + 1) =~= prs.take(i as int).push(pr@));
                prs.take(i as int).lemma_filter_push(pr@, merged_pred());
            }
            match &pr.merged_at {
                Some(date) => {
                    merged_pull_requests_in_last_100 += 1;
                    if last_merged.is_none() {
                        last_merged = Some(date.as_str());
                    }
                },
                None => {},
            }
            i += 1;
        }
        assert(prs.take(i as int) =~= prs);
        let last_merge_date = match last_merged {
            Some(date) => date,
            None => general_info.created_at.as_str(),
        };
        let months_since_last_pr_merged = match age_in_months(last_merge_date, now) {
            Ok(age) => age,
            Err(e) => {
                return Err(e);
            },
        };

        // months since the last closing
        let ghost issues = issue_views(repo_info.last_100_closed_issues@);
        let last_close_date = if repo_info.last_100_closed_issues.len() > 0 {
            assert(issues[0] == repo_info.last_100_closed_issues@[0]@);
            match &repo_info.last_100_closed_issues[0].closed_at {
                Some(date) => date.as_str(),
                None => {
                    return Err(EsrError::other("Impossible"));
                },
            }
        } else {
            general_info.created_at.as_str()
        };
        let months_since_last_issue_closed = match age_in_months(last_close_date, now) {
            Ok(age) => age,
            Err(e) => {
                return Err(e);
            },
        };

        Ok(
            RepoScoreInfo {
                subscribers,
                contributors_up_to_100,
                commits_from_upto_100_contributors: commits,
                secondary_contribution_pct,
                tertiary_contribution_pct,
                push_span_in_months,
                merged_pull_requests_in_last_100,
                months_since_last_pr_merged,
                months_since_last_issue_closed,
                months_since_last_push,
            },
        )
    }

    /// The score table of the repository with its positive and its negative
    /// score, both in billionths.
    pub fn mk_score(&self) -> (r: (Vec<ScoreTerm>, i128, i128))
        ensures
            table_view(r.0@) == spec_repo_table(self@),
            r.1 == spec_repo_positive(self@),
            r.2 == spec_repo_negative(self@),
            r.1 == spec_gain(table_view(r.0@)),
            r.2 == spec_loss(table_view(r.0@)),
            0 <= r.1 <= MAX_SCORE,
            -MAX_SCORE <= r.2 <= 0,
    {
        proof {
            use_type_invariant(self);
        }
        let mut positive_score: i128 = 0;
        let mut negative_score: i128 = 0;
        let mut table: Vec<ScoreTerm> = Vec::new();
        assert(table_view(table@) =~= Seq::<ScoreTermView>::empty());

        // what adds to the score
        score_add(
            &mut table,
            &mut positive_score,
            "subscribers.powf(0.5)",
            sqrt_of_count(self.subscribers as u128),
            WEIGHT_SUBSCRIBERS,
        );
        score_add(
            &mut table,
            &mut positive_score,
            "contributors_up_to_100",
            self.contributors_up_to_100 as u128 * 1_000_000,
            WEIGHT_CONTRIBUTORS,
        );
        score_add(
            &mut table,
            &mut positive_score,
            "commits_from_upto_100_contributors.powf(0.5)",
            sqrt_of_count(self.commits_from_upto_100_contributors),
            WEIGHT_COMMITS,
        );
        assert(table_view(table@) =~= spec_repo_head_terms(self@));

        // the shares count only for a repository with 50 contributions or more
        if self.commits_from_upto_100_contributors >= MIN_COMMITS_FOR_SHARES {
            score_add(
                &mut table,
                &mut positive_score,
                "secondary_contribution_pct",
                self.secondary_contribution_pct as u128 * 1_000_000,
                WEIGHT_SECONDARY_PCT,
            );
            score_add(
                &mut table,
                &mut positive_score,
                "tertiary_contribution_pct",
                self.tertiary_contribution_pct as u128 * 1_000_000,
                WEIGHT_TERTIARY_PCT,
            );
            assert(table_view(table@) =~= spec_repo_head_terms(self@) + spec_repo_share_terms(
                self@,
            ));
        }
        let ghost front = table_view(table@);

        score_add(
            &mut table,
            &mut positive_score,
            "push_span_in_months.powf(0.5)",
            sqrt_of_months(self.push_span_in_months),
            WEIGHT_PUSH_SPAN,
        );
        score_add(
            &mut table,
            &mut positive_score,
            "merged_pull_requests_in_last_100",
            self.merged_pull_requests_in_last_100 as u128 * 1_000_000,
            WEIGHT_MERGED_PULL_REQUESTS,
        );

        // what takes from it
        score_add(
            &mut table,
            &mut negative_score,
            "months_since_last_pr_merged.powf(1.5)",
            pow15_of_months(self.months_since_last_pr_merged),
            WEIGHT_SINCE_LAST_PR_MERGED,
        );
        score_add(
            &mut table,
            &mut negative_score,
            "months_since_last_issue_closed.powf(1.5)",
            pow15_of_months(self.months_since_last_issue_closed),
            WEIGHT_SINCE_LAST_ISSUE_CLOSED,
        );
        score_add(
            &mut table,
            &mut negative_score,
            "months_since_last_push.powf(1.5)",
            pow15_of_months(self.months_since_last_push),
            WEIGHT_SINCE_LAST_PUSH,
        );
        assert(table_view(table@) =~= front + spec_repo_tail_terms(self@));

        (table, positive_score, negative_score)
    }
}

// ---------------------------------------------------------------------------
// A repository with its score
// ---------------------------------------------------------------------------

/// A repository with what it is scored by and its score.
pub struct RepoInfoWithScoreView {
    pub repo_info: RepoInfoView,
    pub repo_score_info: RepoScoreInfoView,
    /// In billionths.
    pub score_positive: int,
    /// In billionths.
    pub score_negative: int,
    pub score_table: Seq<ScoreTermView>,
}

/// A repository with the score that follows from what it is scored by.
pub open spec fn spec_scored_repo(
    repo_info: RepoInfoView,
    repo_score_info: RepoScoreInfoView,
) -> RepoInfoWithScoreView {
    RepoInfoWithScoreView {
        repo_info,
        repo_score_info,
        score_positive: spec_repo_positive(repo_score_info),
        score_negative: spec_repo_negative(repo_score_info),
        score_table: spec_repo_table(repo_score_info),
    }
}

/// A repository with what it is scored by and its score.
#[derive(Debug)]
pub struct RepoInfoWithScore {
    repo_info: RepoInfo,
    repo_score_info: RepoScoreInfo,
    score_positive: i128,
    score_negative: i128,
    score_table: Vec<ScoreTerm>,
}

impl View for RepoInfoWithScore {
    type V = RepoInfoWithScoreView;

    closed spec fn view(&self) -> RepoInfoWithScoreView {
        RepoInfoWithScoreView {
            repo_info: self.repo_info@,
            repo_score_info: self.repo_score_info@,
            score_positive: self.score_positive as int,
            score_negative: self.score_negative as int,
            score_table: table_view(self.score_table@),
        }
    }
}

impl RepoInfoWithScore {
    #[verifier::type_invariant]
    spec fn scored(self) -> bool {
        &&& self@ == spec_scored_repo(self.repo_info@, self.repo_score_info@)
        &&& self.score_positive == spec_gain(table_view(self.score_table@))
        &&& self.score_negative == spec_loss(table_view(self.score_table@))
        &&& 0 <= self.score_positive <= MAX_SCORE
        &&& -MAX_SCORE <= self.score_negative <= 0
    }

    /// Scores a repository at `now`, in seconds since the epoch.
    pub fn from_info(repo_info: RepoInfo, now: i64) -> (r: Result<Self, EsrError>)
        ensures
            match r {
                Ok(scored) => spec_repo_score_info(repo_info@, now as int) is Ok && scored@
                    == spec_scored_repo(
                    repo_info@,
                    spec_repo_score_info(repo_info@, now as int)->Ok_0,
                ),
                Err(e) => spec_repo_score_info(repo_info@, now as int) is Err && is_repo_fault(
                    e,
                    spec_repo_score_info(repo_info@, now as int)->Err_0,
                ),
            },
    {
        let repo_score_info = match RepoScoreInfo::from_repo_info(&repo_info, now) {
            Ok(score_info) => score_info,
            Err(e) => {
                return Err(e);
            },
        };
        let (score_table, score_positive, score_negative) = repo_score_info.mk_score();

        Ok(
            RepoInfoWithScore {
                repo_info,
                repo_score_info,
                score_positive,
                score_negative,
                score_table,
            },
        )
    }

    pub fn get_info(&self) -> (r: &RepoInfo)
        ensures
            r@ == self@.repo_info,
    {
        &self.repo_info
    }

    pub fn get_score_info(&self) -> (r: &RepoScoreInfo)
        ensures
            r@ == self@.repo_score_info,
    {
        &self.repo_score_info
    }

    /// The positive and the negative score, in billionths.
    pub fn get_score_tuple(&self) -> (r: (i128, i128))
        ensures
            r.0 == self@.score_positive,
            r.1 == self@.score_negative,
            self@ == spec_scored_repo(self@.repo_info, self@.repo_score_info),
            r.0 == spec_gain(self@.score_table),
            r.1 == spec_loss(self@.score_table),
            0 <= r.0 <= MAX_SCORE,
            -MAX_SCORE <= r.1 <= 0,
    {
        proof {
            use_type_invariant(self);
        }
        (self.score_positive, self.score_negative)
    }

    pub fn get_score_table(&self) -> (r: &[ScoreTerm])
        ensures
            table_view(r@) == self@.score_table,
            self@.score_table == spec_repo_table(self@.repo_score_info),
    {
        proof {
            use_type_invariant(self);
        }
        self.score_table.as_slice()
    }
}


// ---------------------------------------------------------------------------
// What holds of every repository
// ---------------------------------------------------------------------------

/// The shares of the second and later contributors count from 50
/// contributions on, and not below: below, they add nothing to the positive
/// score and have no line in the table; from 50 on, they add their weighted
/// percentages and have the fourth and the fifth line.
pub proof fn lemma_shares_count_from_50(v: RepoScoreInfoView)
    ensures
        counts_shares(v) <==> v.commits_from_upto_100_contributors >= 50,
        !counts_shares(v) ==> {
            &&& spec_repo_shares_score(v) == 0
            &&& spec_repo_table(v).len() == 8
            &&& forall|i: int|
                0 <= i < 8 ==> (#[trigger] spec_repo_table(v)[i]).label
                    != "secondary_contribution_pct"@ && spec_repo_table(v)[i].label
                    != "tertiary_contribution_pct"@
        },
        counts_shares(v) ==> {
            &&& spec_repo_shares_score(v) == v.secondary_contribution_pct * 2_500_000_000
                + v.tertiary_contribution_pct * 5_000_000_000
            &&& spec_repo_table(v).len() == 10
            &&& spec_repo_table(v)[3] == spec_term(
                "secondary_contribution_pct"@,
                v.secondary_contribution_pct * 1_000_000,
                2_500,
            )
            &&& spec_repo_table(v)[4] == spec_term(
                "tertiary_contribution_pct"@,
                v.tertiary_contribution_pct * 1_000_000,
                5_000,
            )
        },
        spec_repo_positive(v) - spec_repo_shares_score(v) == spec_sqrt_of_count(v.subscribers)
            * 8_000 + v.contributors_up_to_100 * 3_000_000_000 + spec_sqrt_of_count(
            v.commits_from_upto_100_contributors,
        ) * 2_000 + spec_sqrt_of_months(v.push_span_in_months) * 5_000
            + v.merged_pull_requests_in_last_100 * 2_500_000_000,
{
    reveal_strlit("secondary_contribution_pct");
    reveal_strlit("tertiary_contribution_pct");
    reveal_strlit("subscribers.powf(0.5)");
    reveal_strlit("contributors_up_to_100");
    reveal_strlit("commits_from_upto_100_contributors.powf(0.5)");
    reveal_strlit("push_span_in_months.powf(0.5)");
    reveal_strlit("merged_pull_requests_in_last_100");
    reveal_strlit("months_since_last_pr_merged.powf(1.5)");
    reveal_strlit("months_since_last_issue_closed.powf(1.5)");
    reveal_strlit("months_since_last_push.powf(1.5)");
    if !counts_shares(v) {
        let table = spec_repo_table(v);
        assert(table.len() == 8);
        assert forall|i: int| 0 <= i < 8 implies (#[trigger] table[i]).label
            != "secondary_contribution_pct"@ && table[i].label != "tertiary_contribution_pct"@ by {
            assert(table[i].label.len() != 26 || table[i].label[0] != 's');
            assert(table[i].label.len() != 25 || table[i].label[0] != 't');
            assert("secondary_contribution_pct"@.len() == 26);
            assert("secondary_contribution_pct"@[0] == 's');
            assert("tertiary_contribution_pct"@.len() == 25);
            assert("tertiary_contribution_pct"@[0] == 't');
        }
    }
}

/// The score of a repository follows from its record and the time alone:
/// whoever scores the same again has the same table and the same scores.
pub proof fn lemma_repo_score_repeatable(
    info: RepoInfoView,
    now: int,
    first: RepoInfoWithScoreView,
    second: RepoInfoWithScoreView,
)
    requires
        spec_repo_score_info(info, now) is Ok,
        first == spec_scored_repo(info, spec_repo_score_info(info, now)->Ok_0),
        second == spec_scored_repo(info, spec_repo_score_info(info, now)->Ok_0),
    ensures
        first.score_table == second.score_table,
        first.score_positive == second.score_positive,
        first.score_negative == second.score_negative,
        first == second,
{
}

} // verus!
