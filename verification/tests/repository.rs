use cargo_esr::esr_errors::EsrError;
use cargo_esr::esr_from::EsrFrom;
use cargo_esr::esr_github::{
    ContributorInfo, IssueInfo, PullRequestInfo, RepoClosedIssues, RepoContributors,
    RepoGeneralInfo, RepoInfo, RepoInfoWithScore, RepoPullRequests, RepoScoreInfo,
};

const NOW: i64 = 1_600_000_000;

fn text(s: &str) -> String {
    String::from(s)
}

fn general() -> RepoGeneralInfo {
    RepoGeneralInfo::new(100, text("2015-01-01T00:00:00Z"), text("2020-09-01T00:00:00Z"))
}

fn contributors(contributions: &[usize]) -> RepoContributors {
    contributions.iter().map(|c| ContributorInfo::new(*c)).collect()
}

fn pulls() -> RepoPullRequests {
    vec![
        PullRequestInfo::new(None, 12),
        PullRequestInfo::new(Some(text("2020-08-01T00:00:00Z")), 11),
        PullRequestInfo::new(Some(text("2020-07-01T00:00:00Z")), 10),
    ]
}

fn issues() -> RepoClosedIssues {
    vec![IssueInfo::new(Some(text("2020-08-15T00:00:00Z")), 9)]
}

fn repo(contributions: &[usize]) -> RepoInfo {
    RepoInfo::new(general(), issues(), pulls(), contributors(contributions))
}

#[test]
fn a_record_cannot_be_had_without_a_token() {
    match RepoInfo::from_id("owner/repo") {
        Err(EsrError::Other(msg)) => assert_eq!(msg, "Unimplemented: use  from_id_with_token()"),
        _ => panic!("an error was due"),
    }
}

#[test]
fn addresses_of_a_repository() {
    assert_eq!(RepoGeneralInfo::url_from_id("o/r"), "https://api.github.com/repos/o/r");
    assert_eq!(
        RepoClosedIssues::url_from_id("o/r"),
        "https://api.github.com/repos/o/r/issues?state=closed&per_page=1"
    );
    assert_eq!(
        RepoPullRequests::url_from_id("o/r"),
        "https://api.github.com/repos/o/r/pulls?state=all&per_page=100"
    );
    assert_eq!(
        RepoContributors::url_from_id("o/r"),
        "https://api.github.com/repos/o/r/contributors?per_page=100"
    );
}

#[test]
fn the_four_addresses_carry_the_token() {
    assert_eq!(
        RepoInfo::request_urls("o/r", "t0k"),
        vec![
            "https://api.github.com/repos/o/r?access_token=t0k",
            "https://api.github.com/repos/o/r/issues?state=closed&per_page=1&access_token=t0k",
            "https://api.github.com/repos/o/r/pulls?state=all&per_page=100&access_token=t0k",
            "https://api.github.com/repos/o/r/contributors?per_page=100&access_token=t0k",
        ]
    );
}

#[test]
fn a_record_is_whole_or_not_at_all() {
    let whole = RepoInfo::from_parts(Ok(general()), Ok(issues()), Ok(pulls()), Ok(contributors(&[1])));
    assert!(whole.is_ok());
    let failed = RepoInfo::from_parts(
        Ok(general()),
        Err(EsrError::HttpStatus(404)),
        Ok(pulls()),
        Err(EsrError::Transport(text("reset"))),
    );
    assert!(matches!(failed, Err(EsrError::HttpStatus(404))));
    let first = RepoInfo::from_parts(
        Err(EsrError::Decode(text("eof"))),
        Err(EsrError::HttpStatus(404)),
        Ok(pulls()),
        Ok(contributors(&[1])),
    );
    assert!(matches!(first, Err(EsrError::Decode(_))));
    let last = RepoInfo::from_parts(
        Ok(general()),
        Ok(issues()),
        Ok(pulls()),
        Err(EsrError::Transport(text("reset"))),
    );
    assert!(matches!(last, Err(EsrError::Transport(_))));
    let third = RepoInfo::from_parts(
        Ok(general()),
        Ok(issues()),
        Err(EsrError::HttpStatus(500)),
        Ok(contributors(&[1])),
    );
    assert!(matches!(third, Err(EsrError::HttpStatus(500))));
}

#[test]
fn score_table_of_a_repository() {
    let score_info = RepoScoreInfo::from_repo_info(&repo(&[60, 30, 10]), NOW).unwrap();
    let (table, positive, negative) = score_info.mk_score();
    let expected: Vec<(&str, u128, i64, i128)> = vec![
        ("subscribers.powf(0.5)", 10_000_000, 8000, 80_000_000_000),
        ("contributors_up_to_100", 3_000_000, 3000, 9_000_000_000),
        ("commits_from_upto_100_contributors.powf(0.5)", 10_000_000, 2000, 20_000_000_000),
        ("secondary_contribution_pct", 40_000_000, 2500, 100_000_000_000),
        ("tertiary_contribution_pct", 10_000_000, 5000, 50_000_000_000),
        ("push_span_in_months.powf(0.5)", 8_238_255, 5000, 41_191_275_000),
        ("merged_pull_requests_in_last_100", 2_000_000, 2500, 5_000_000_000),
        ("months_since_last_pr_merged.powf(1.5)", 1_704_360, -1000, -1_704_360_000),
        ("months_since_last_issue_closed.powf(1.5)", 952_120, -1000, -952_120_000),
        ("months_since_last_push.powf(1.5)", 262_953, -4000, -1_051_812_000),
    ];
    assert_eq!(table.len(), expected.len());
    for (term, (label, count, weight, contribution)) in table.iter().zip(expected.iter()) {
        assert_eq!(term.get_label(), *label);
        assert_eq!(term.get_count(), *count);
        assert_eq!(term.get_weight(), *weight);
        assert_eq!(term.get_contribution(), *contribution);
    }
    assert_eq!(positive, 305_191_275_000);
    assert_eq!(negative, -3_708_292_000);
}

#[test]
fn shares_do_not_count_below_fifty_contributions() {
    let scored = RepoInfoWithScore::from_info(repo(&[30, 10, 9]), NOW).unwrap();
    let table = scored.get_score_table();
    assert_eq!(table.len(), 8);
    for term in table.iter() {
        assert_ne!(term.get_label(), "secondary_contribution_pct");
        assert_ne!(term.get_label(), "tertiary_contribution_pct");
    }
    assert_eq!(table[2].get_count(), 7_000_000);
    assert_eq!(table[3].get_label(), "push_span_in_months.powf(0.5)");
    assert_eq!(scored.get_score_tuple().0, 149_191_275_000);
}

#[test]
fn shares_count_from_fifty_contributions_on() {
    let scored = RepoInfoWithScore::from_info(repo(&[30, 10, 10]), NOW).unwrap();
    let table = scored.get_score_table();
    assert_eq!(table.len(), 10);
    assert_eq!(table[2].get_count(), 7_071_067);
    assert_eq!(table[3].get_label(), "secondary_contribution_pct");
    assert_eq!(table[3].get_count(), 40_000_000);
    assert_eq!(table[4].get_label(), "tertiary_contribution_pct");
    assert_eq!(table[4].get_count(), 20_000_000);
    assert_eq!(scored.get_score_tuple().0, 349_333_409_000);
}

#[test]
fn shares_are_rounded_up() {
    // 3 contributions: the others made 2 of 3, which is 66.7 percent
    let scored = RepoInfoWithScore::from_info(repo(&[100, 100, 100]), NOW).unwrap();
    let table = scored.get_score_table();
    assert_eq!(table[3].get_count(), 67_000_000);
    assert_eq!(table[4].get_count(), 34_000_000);
}

#[test]
fn a_single_contributor_has_all_shares() {
    let scored = RepoInfoWithScore::from_info(repo(&[50]), NOW).unwrap();
    let table = scored.get_score_table();
    assert_eq!(table.len(), 10);
    assert_eq!(table[1].get_count(), 1_000_000);
    assert_eq!(table[3].get_count(), 0);
    assert_eq!(table[4].get_count(), 0);
}

#[test]
fn no_contributors_is_an_error() {
    match RepoScoreInfo::from_repo_info(&repo(&[]), NOW) {
        Err(EsrError::MissingData(msg)) => assert_eq!(msg, "Empty contributors list"),
        _ => panic!("an error was due"),
    }
    assert!(matches!(
        RepoInfoWithScore::from_info(repo(&[]), NOW),
        Err(EsrError::MissingData(_))
    ));
}

#[test]
fn contributors_without_contributions_are_no_error() {
    let scored = RepoInfoWithScore::from_info(repo(&[0, 0]), NOW).unwrap();
    let table = scored.get_score_table();
    assert_eq!(table.len(), 8);
    assert_eq!(table[1].get_count(), 2_000_000);
    assert_eq!(table[2].get_count(), 0);
}

#[test]
fn a_date_that_cannot_be_read_is_an_error() {
    let info = RepoInfo::new(
        RepoGeneralInfo::new(1, text("2015-01-01T00:00:00Z"), text("just now")),
        issues(),
        pulls(),
        contributors(&[1]),
    );
    assert!(matches!(RepoScoreInfo::from_repo_info(&info, NOW), Err(EsrError::TimeParse(_))));
    let merged = RepoInfo::new(
        general(),
        issues(),
        vec![PullRequestInfo::new(Some(text("merged")), 1)],
        contributors(&[1]),
    );
    assert!(matches!(RepoScoreInfo::from_repo_info(&merged, NOW), Err(EsrError::TimeParse(_))));
}

#[test]
fn a_closed_issue_without_a_date_is_an_error() {
    let info = RepoInfo::new(
        general(),
        vec![IssueInfo::new(None, 3), IssueInfo::new(Some(text("2020-08-15T00:00:00Z")), 2)],
        pulls(),
        contributors(&[1]),
    );
    match RepoScoreInfo::from_repo_info(&info, NOW) {
        Err(EsrError::Other(msg)) => assert_eq!(msg, "Impossible"),
        _ => panic!("an error was due"),
    }
}

#[test]
fn the_age_of_the_repository_stands_in_for_what_never_happened() {
    let info = RepoInfo::new(
        general(),
        Vec::new(),
        vec![PullRequestInfo::new(None, 1)],
        contributors(&[1]),
    );
    let (table, _, _) = RepoScoreInfo::from_repo_info(&info, NOW).unwrap().mk_score();
    assert_eq!(table.len(), 8);
    assert_eq!(table[4].get_label(), "merged_pull_requests_in_last_100");
    assert_eq!(table[4].get_count(), 0);
    // from 2015-01-01 to the time of scoring: 68.279 months
    assert_eq!(table[5].get_count(), 564_200_606);
    assert_eq!(table[6].get_count(), 564_200_606);
}

#[test]
fn only_the_first_hundred_contributors_count() {
    let many: Vec<usize> = (0..150).map(|_| 2).collect();
    let scored = RepoInfoWithScore::from_info(repo(&many), NOW).unwrap();
    let table = scored.get_score_table();
    assert_eq!(table[1].get_label(), "contributors_up_to_100");
    assert_eq!(table[1].get_count(), 100_000_000);
    // 200 contributions
    assert_eq!(table[2].get_count(), 14_142_135);
}

#[test]
fn scoring_a_repository_twice_gives_the_same() {
    let first = RepoInfoWithScore::from_info(repo(&[60, 30, 10]), NOW).unwrap();
    let second = RepoInfoWithScore::from_info(repo(&[60, 30, 10]), NOW).unwrap();
    assert_eq!(first.get_score_tuple(), second.get_score_tuple());
    assert_eq!(
        format!("{:?}", first.get_score_table()),
        format!("{:?}", second.get_score_table())
    );
    assert_eq!(format!("{:?}", first.get_score_info()), format!("{:?}", second.get_score_info()));
}
