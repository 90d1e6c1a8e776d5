use cargo_esr::esr_crate::{
    CrateGeneralInfo, CrateInfo, CrateInfoWithScore, CrateOwners, CrateReleaseInfo, CrateScoreInfo,
    CrateSearch, Dependant, IndexCrate, IndexDependency,
};
use cargo_esr::esr_errors::EsrError;
use cargo_esr::esr_from::{EsrFrom, EsrFromMulti, Meta};

const NOW: i64 = 1_600_000_000;

fn text(s: &str) -> String {
    String::from(s)
}

fn general(id: &str, max_version: &str) -> CrateGeneralInfo {
    CrateGeneralInfo::new(
        text(id),
        text("2019-01-01T00:00:00.000000+00:00"),
        text("2020-09-01T00:00:00.000000+00:00"),
        text(max_version),
        Some(text("A package.")),
        Some(text("https://github.com/owner/foo")),
        None,
    )
}

fn release(created_at: &str, downloads: usize, num: &str, yanked: bool) -> CrateReleaseInfo {
    CrateReleaseInfo::new(text(created_at), downloads, text(num), yanked, Some(text("MIT")))
}

fn sample_releases() -> Vec<CrateReleaseInfo> {
    vec![
        release("2020-09-01T00:00:00.000000+00:00", 400, "1.1.0", false),
        release("2020-06-01T00:00:00.000000+00:00", 500, "1.1.0-beta.1", false),
        release("2020-01-01T00:00:00.000000+00:00", 1000, "1.0.1", true),
        release("2019-01-01T00:00:00.000000+00:00", 2000, "1.0.0", false),
    ]
}

fn sample() -> CrateInfo {
    CrateInfo::new(general("foo", "1.1.0"), sample_releases())
}

fn sample_dependants() -> Vec<Dependant> {
    vec![
        Dependant::new(text("bar"), true, false, text("^1.0")),
        Dependant::new(text("baz"), false, true, text("^2")),
        Dependant::new(text("owned"), true, false, text("=1.1.0")),
    ]
}

fn sample_owner_crates() -> Vec<CrateSearch> {
    vec![CrateSearch::new(
        vec![general("foo", "1.1.0"), general("owned", "0.1.0")],
        Meta { total: 2 },
    )]
}

fn nums(releases: &[&CrateReleaseInfo]) -> Vec<String> {
    releases.iter().map(|r| text(r.get_num())).collect()
}

#[test]
fn getters_hand_out_the_record() {
    let info = sample();
    assert_eq!(info.get_id(), "foo");
    assert_eq!(info.get_general_info().get_id(), "foo");
    assert_eq!(info.get_max_version(), "1.1.0");
    assert_eq!(info.all_releases().len(), 4);
    assert_eq!(info.all_releases()[2].get_num(), "1.0.1");
    assert_eq!(info.get_description(), Some("A package."));
    assert_eq!(info.get_repository(), Some("https://github.com/owner/foo"));
    assert_eq!(info.get_documentation(), None);
}

#[test]
fn releases_that_were_not_withdrawn() {
    let info = sample();
    assert_eq!(nums(&info.non_yanked_releases()), vec!["1.1.0", "1.1.0-beta.1", "1.0.0"]);
}

#[test]
fn stable_releases_have_no_pre_release_part() {
    let info = sample();
    assert_eq!(nums(&info.stable_releases()), vec!["1.1.0", "1.0.0"]);
    assert_eq!(info.last_stable_version(), Some("1.1.0"));
}

#[test]
fn a_release_whose_version_is_none_is_not_stable() {
    let info = CrateInfo::new(
        general("foo", "one"),
        vec![release("2020-09-01T00:00:00+00:00", 1, "one", false)],
    );
    assert_eq!(info.non_yanked_releases().len(), 1);
    assert_eq!(info.stable_releases().len(), 0);
    assert_eq!(info.last_stable_version(), None);
}

#[test]
fn license_is_that_of_the_declared_latest_release() {
    let releases = vec![
        CrateReleaseInfo::new(text("2020-09-01T00:00:00+00:00"), 1, text("2.0.0"), false, None),
        CrateReleaseInfo::new(
            text("2020-08-01T00:00:00+00:00"),
            1,
            text("1.0.0"),
            false,
            Some(text("Apache-2.0")),
        ),
    ];
    let info = CrateInfo::new(general("foo", "1.0.0"), releases);
    assert_eq!(info.get_license(), Some("Apache-2.0"));
}

#[test]
fn no_license_without_the_declared_latest_release() {
    let info = CrateInfo::new(general("foo", "3.0.0"), sample_releases());
    assert_eq!(info.get_license(), None);
    let bare = CrateInfo::new(
        general("foo", "2.0.0"),
        vec![CrateReleaseInfo::new(text("2020-09-01T00:00:00+00:00"), 1, text("2.0.0"), false, None)],
    );
    assert_eq!(bare.get_license(), None);
}

#[test]
fn repository_path_of_a_package() {
    assert_eq!(sample().github_id(), Some(text("owner/foo")));
    let elsewhere = CrateInfo::new(
        CrateGeneralInfo::new(
            text("foo"),
            text("2019-01-01T00:00:00+00:00"),
            text("2019-01-01T00:00:00+00:00"),
            text("1.0.0"),
            None,
            Some(text("https://example.org/foo")),
            None,
        ),
        Vec::new(),
    );
    assert_eq!(elsewhere.github_id(), None);
    let nowhere = CrateInfo::new(
        CrateGeneralInfo::new(
            text("foo"),
            text("2019-01-01T00:00:00+00:00"),
            text("2019-01-01T00:00:00+00:00"),
            text("1.0.0"),
            None,
            None,
            None,
        ),
        Vec::new(),
    );
    assert_eq!(nowhere.github_id(), None);
}

#[test]
fn a_package_with_releases_is_not_degenerate() {
    assert!(!sample().empty_or_all_yanked());
}

#[test]
fn a_package_without_releases_is_degenerate() {
    let info = CrateInfo::new(general("foo", "1.0.0"), Vec::new());
    assert!(info.empty_or_all_yanked());
}

#[test]
fn a_package_at_version_zero_is_degenerate() {
    let info = CrateInfo::new(general("foo", "0.0.0"), sample_releases());
    assert!(info.empty_or_all_yanked());
}

#[test]
fn a_package_with_all_releases_withdrawn_is_degenerate() {
    let info = CrateInfo::new(
        general("foo", "1.0.0"),
        vec![
            release("2020-09-01T00:00:00+00:00", 1, "1.0.0", true),
            release("2020-08-01T00:00:00+00:00", 1, "0.9.0", true),
        ],
    );
    assert!(info.empty_or_all_yanked());
}

#[test]
fn current_versions_of_the_sample() {
    assert_eq!(sample().get_current_versions(NOW).unwrap(), vec!["1.1.0"]);
}

#[test]
fn current_versions_hold_the_declared_latest_even_without_a_release() {
    let info = CrateInfo::new(general("foo", "9.9.9"), sample_releases());
    assert_eq!(info.get_current_versions(NOW).unwrap(), vec!["1.1.0", "9.9.9"]);
    let empty = CrateInfo::new(general("foo", "9.9.9"), Vec::new());
    assert_eq!(empty.get_current_versions(NOW).unwrap(), vec!["9.9.9"]);
}

#[test]
fn current_versions_are_sorted_without_repeats() {
    let info = CrateInfo::new(
        general("foo", "0.3.0"),
        vec![
            release("2020-09-10T00:00:00+00:00", 1, "0.5.0-rc.1", false),
            release("2020-09-05T00:00:00+00:00", 1, "0.4.1", false),
            release("2020-09-01T00:00:00+00:00", 1, "0.4.0", true),
            release("2020-08-20T00:00:00+00:00", 1, "0.3.0", false),
            release("2020-01-01T00:00:00+00:00", 1, "0.2.0", false),
            release("2020-09-12T00:00:00+00:00", 1, "0.1.9", false),
        ],
    );
    let versions = info.get_current_versions(NOW).unwrap();
    assert_eq!(versions, vec!["0.1.9", "0.3.0", "0.4.1", "0.5.0-rc.1"]);
    let mut expected = versions.clone();
    expected.sort();
    expected.dedup();
    assert_eq!(versions, expected);
}

#[test]
fn a_release_of_exactly_one_month_is_current() {
    // 1_600_000_000 - 2_635_200 = 1_597_364_800 = 2020-08-14T00:26:40Z
    let info = CrateInfo::new(
        general("foo", "2.0.0"),
        vec![
            release("2020-09-13T00:00:00+00:00", 1, "2.0.0", false),
            release("2020-08-14T00:26:40+00:00", 1, "1.9.0", false),
            release("2020-08-14T00:26:39+00:00", 1, "1.8.0", false),
        ],
    );
    assert_eq!(info.get_current_versions(NOW).unwrap(), vec!["1.9.0", "2.0.0"]);
}

#[test]
fn current_versions_fail_on_a_date_in_no_format_of_the_registry() {
    let info = CrateInfo::new(
        general("foo", "1.0.0"),
        vec![release("2020-09-10", 1, "1.0.0", false)],
    );
    assert!(matches!(info.get_current_versions(NOW), Err(EsrError::Other(_))));
}

#[test]
fn current_versions_fail_on_a_date_that_cannot_be_read() {
    let info = CrateInfo::new(
        general("foo", "1.0.0"),
        vec![release("today+00:00", 1, "1.0.0", false)],
    );
    assert!(matches!(info.get_current_versions(NOW), Err(EsrError::TimeParse(_))));
}

#[test]
fn a_young_release_after_an_old_one_is_current() {
    let info = CrateInfo::new(
        general("foo", "1.0.0"),
        vec![
            release("2020-01-01T00:00:00+00:00", 1, "1.0.0", false),
            release("2020-09-10T00:00:00+00:00", 1, "0.9.5", false),
            release("2019-01-01T00:00:00+00:00", 1, "0.9.0", false),
            release("2020-09-12T00:00:00+00:00", 1, "0.8.7", false),
        ],
    );
    assert_eq!(info.get_current_versions(NOW).unwrap(), vec!["0.8.7", "0.9.5", "1.0.0"]);
}

#[test]
fn a_young_release_that_was_withdrawn_is_not_current() {
    let info = CrateInfo::new(
        general("foo", "1.0.0"),
        vec![
            release("2020-01-01T00:00:00+00:00", 1, "1.0.0", false),
            release("2020-09-10T00:00:00+00:00", 1, "0.9.5", true),
        ],
    );
    assert_eq!(info.get_current_versions(NOW).unwrap(), vec!["1.0.0"]);
}

#[test]
fn the_date_of_every_release_that_was_not_withdrawn_is_read() {
    let info = CrateInfo::new(
        general("foo", "1.0.0"),
        vec![
            release("2020-01-01T00:00:00+00:00", 1, "1.0.0", false),
            release("long ago", 1, "0.1.0", false),
        ],
    );
    assert!(matches!(info.get_current_versions(NOW), Err(EsrError::Other(_))));
    let withdrawn = CrateInfo::new(
        general("foo", "1.0.0"),
        vec![
            release("2020-01-01T00:00:00+00:00", 1, "1.0.0", false),
            release("long ago", 1, "0.1.0", true),
        ],
    );
    assert_eq!(withdrawn.get_current_versions(NOW).unwrap(), vec!["1.0.0"]);
}

#[test]
fn the_first_faulty_date_gives_the_error() {
    let info = CrateInfo::new(
        general("foo", "1.0.0"),
        vec![
            release("2020-01-01T00:00:00+00:00", 1, "1.0.0", false),
            release("once+00:00", 1, "0.2.0", false),
            release("long ago", 1, "0.1.0", false),
        ],
    );
    assert!(matches!(info.get_current_versions(NOW), Err(EsrError::TimeParse(_))));
}

#[test]
fn addresses_of_the_registry() {
    assert_eq!(CrateInfo::url_from_id("foo"), "https://crates.io/api/v1/crates/foo");
    assert_eq!(CrateOwners::url_from_id("foo"), "https://crates.io/api/v1/crates/foo/owners");
    assert_eq!(
        CrateSearch::url_from_id("user_id=7"),
        "https://crates.io/api/v1/crates?per_page=100&user_id=7"
    );
    assert_eq!(
        CrateSearch::url_single_page("per_page=25&q=json"),
        "https://crates.io/api/v1/crates?per_page=25&q=json"
    );
    assert_eq!(
        CrateInfo::url_from_id_and_token("foo", "secret"),
        "https://crates.io/api/v1/crates/foo?access_token=secret"
    );
    assert_eq!(
        CrateSearch::url_from_id_and_token("q=x", "secret"),
        "https://crates.io/api/v1/crates?per_page=100&q=x&access_token=secret"
    );
}

#[test]
fn one_search_for_each_owner() {
    let owners = CrateOwners::new(vec![7, 4242, 0]);
    assert_eq!(owners.owner_queries(), vec!["user_id=7", "user_id=4242", "user_id=0"]);
    assert_eq!(CrateOwners::new(Vec::new()).owner_queries(), Vec::<String>::new());
}

#[test]
fn a_search_hands_out_its_packages() {
    let search = CrateSearch::new(vec![general("a", "1.0.0"), general("b", "1.0.0")], Meta { total: 7 });
    assert_eq!(search.get_crates().len(), 2);
    assert_eq!(search.get_crates()[1].get_id(), "b");
    assert_eq!(search.get_inner().len(), 2);
    assert_eq!(search.get_meta().total, 7);
    assert_eq!(search.total_from_meta(), 7);
}

fn index_entry(name: &str, yanked: bool, deps: Vec<IndexDependency>) -> IndexCrate {
    IndexCrate::new(text(name), yanked, deps)
}

fn dep(name: &str, default_features: bool, optional: bool, req: &str) -> IndexDependency {
    IndexDependency::new(text(name), default_features, optional, text(req))
}

#[test]
fn dependants_are_found_in_the_index() {
    let index = vec![
        index_entry("bar", false, vec![dep("serde", true, false, "^1"), dep("foo", true, false, "^1.0")]),
        index_entry("unrelated", false, vec![dep("serde", true, false, "^1")]),
        index_entry("withdrawn", true, vec![dep("foo", true, false, "^1.0")]),
        index_entry("baz", false, vec![dep("foo", true, true, "^2"), dep("foo", true, false, "^3")]),
        index_entry("plain", false, vec![dep("foo", false, false, "*")]),
        index_entry("bare", false, Vec::new()),
    ];
    let dependants = Dependant::dependants_from_id("foo", &index);
    let score_info = CrateScoreInfo::from_crate_info(&sample(), &dependants, &Vec::new(), NOW).unwrap();
    assert_eq!(dependants.len(), 3);
    assert_eq!(score_info.get_dependants(), 3);
    // "bar" alone needs the package: "baz" has it as an option, "plain"
    // without its default features.
    let (table, _, _) = score_info.mk_score();
    assert_eq!(table[9].get_label(), "hard_dependants");
    assert_eq!(table[9].get_count(), 1_000_000);
    // "bar" with ^1.0 and "plain" with * admit 1.1.0, "baz" with ^2 (its
    // first dependency on the package) does not.
    assert_eq!(table[10].get_label(), "dependants_on_current_versions");
    assert_eq!(table[10].get_count(), 2_000_000);
}

#[test]
fn no_dependants_in_an_empty_index() {
    assert_eq!(Dependant::dependants_from_id("foo", &Vec::new()).len(), 0);
}

#[test]
fn what_the_sample_is_scored_by() {
    let score_info = CrateScoreInfo::from_crate_info(
        &sample(),
        &sample_dependants(),
        &sample_owner_crates(),
        NOW,
    )
    .unwrap();
    assert_eq!(score_info.get_releases(), 4);
    assert_eq!(score_info.get_non_yanked_releases(), 3);
    assert_eq!(score_info.get_stable_releases(), 2);
    assert_eq!(score_info.get_dependants(), 3);
    assert_eq!(score_info.get_dependants_from_non_owners(), 2);
    // two stable releases, one pre-release, one withdrawn
    assert_eq!(score_info.release_counts(), (2, 1, 1));
    assert_eq!(score_info.get_months_since_last_release(), 410_443_230);
}

#[test]
fn score_table_of_the_sample() {
    let score_info = CrateScoreInfo::from_crate_info(
        &sample(),
        &sample_dependants(),
        &sample_owner_crates(),
        NOW,
    )
    .unwrap();
    let (table, positive, negative) = score_info.mk_score();
    let expected: Vec<(&str, u128, i64, i128)> = vec![
        ("has_desc", 1_000_000, 5000, 5_000_000_000),
        ("has_license", 1_000_000, 5000, 5_000_000_000),
        ("has_docs", 0, 15000, 0),
        ("activity_span_in_months.powf(0.5)", 4_468_468, 6000, 26_810_808_000),
        ("releases", 4_000_000, 500, 2_000_000_000),
        ("non_yanked_releases", 3_000_000, 500, 1_500_000_000),
        ("stable_releases", 2_000_000, 500, 1_000_000_000),
        ("last_2_non_yanked_releases_downloads.powf(0.5)", 30_000_000, 100, 3_000_000_000),
        ("dependants", 3_000_000, 500, 1_500_000_000),
        ("hard_dependants", 2_000_000, 750, 1_500_000_000),
        ("dependants_on_current_versions", 2_000_000, 750, 1_500_000_000),
        ("dependants_from_non_owners", 2_000_000, 2500, 5_000_000_000),
        ("months_since_last_release.powf(1.5)", 262_953, -2000, -525_906_000),
        ("empty_or_all_yanked", 0, -5_000_000, 0),
    ];
    assert_eq!(table.len(), expected.len());
    for (term, (label, count, weight, contribution)) in table.iter().zip(expected.iter()) {
        assert_eq!(term.get_label(), *label);
        assert_eq!(term.get_count(), *count);
        assert_eq!(term.get_weight(), *weight);
        assert_eq!(term.get_contribution(), *contribution);
    }
    assert_eq!(positive, 53_810_808_000);
    assert_eq!(negative, -525_906_000);
}

#[test]
fn scores_are_the_sums_of_their_terms() {
    let scored =
        CrateInfoWithScore::from_info(sample(), &sample_dependants(), &sample_owner_crates(), NOW)
            .unwrap();
    let (positive, negative) = scored.get_score_tuple();
    let gains: i128 = scored
        .get_score_table()
        .iter()
        .filter(|t| t.get_weight() > 0)
        .map(|t| t.get_contribution())
        .sum();
    let losses: i128 = scored
        .get_score_table()
        .iter()
        .filter(|t| t.get_weight() < 0)
        .map(|t| t.get_contribution())
        .sum();
    assert_eq!(positive, gains);
    assert_eq!(negative, losses);
    assert_eq!(scored.get_info().get_id(), "foo");
    assert_eq!(scored.get_score_info().get_releases(), 4);
}

#[test]
fn a_degenerate_package_pays_five_thousand_points() {
    let degenerate = CrateInfo::new(general("foo", "0.0.0"), sample_releases());
    let scored =
        CrateInfoWithScore::from_info(degenerate, &sample_dependants(), &sample_owner_crates(), NOW)
            .unwrap();
    let (positive, negative) = scored.get_score_tuple();
    let table = scored.get_score_table();
    assert_eq!(table[13].get_label(), "empty_or_all_yanked");
    assert_eq!(table[13].get_count(), 1_000_000);
    assert_eq!(table[13].get_contribution(), -5_000_000_000_000);
    assert_eq!(negative, -5_000_525_906_000);
    // no release has the declared latest version, so there is no license
    assert_eq!(positive, 48_810_808_000);
    let sound =
        CrateInfoWithScore::from_info(sample(), &sample_dependants(), &sample_owner_crates(), NOW)
            .unwrap();
    let (sound_positive, sound_negative) = sound.get_score_tuple();
    assert!(positive + negative < sound_positive + sound_negative);
}

#[test]
fn a_package_without_releases_is_scored_by_its_own_age() {
    let empty = CrateInfo::new(general("foo", "1.0.0"), Vec::new());
    let score_info = CrateScoreInfo::from_crate_info(&empty, &Vec::new(), &Vec::new(), NOW).unwrap();
    // from 2019-01-01 to the time of scoring
    assert_eq!(score_info.get_months_since_last_release(), 20_377_656_344);
    let (table, positive, negative) = score_info.mk_score();
    assert_eq!(table[13].get_count(), 1_000_000);
    assert_eq!(positive, 5_000_000_000 + 26_810_808_000);
    assert_eq!(negative, -2000 * 91_988_036 - 5_000_000_000_000);
}

#[test]
fn scoring_fails_on_a_date_that_cannot_be_read() {
    let info = CrateInfo::new(
        CrateGeneralInfo::new(
            text("foo"),
            text("once+00:00"),
            text("2020-09-01T00:00:00+00:00"),
            text("1.0.0"),
            None,
            None,
            None,
        ),
        sample_releases(),
    );
    assert!(matches!(
        CrateScoreInfo::from_crate_info(&info, &Vec::new(), &Vec::new(), NOW),
        Err(EsrError::TimeParse(_))
    ));
}

#[test]
fn scoring_fails_on_a_date_in_no_format_of_the_registry() {
    let info = CrateInfo::new(
        CrateGeneralInfo::new(
            text("foo"),
            text("2019-01-01T00:00:00+00:00"),
            text("2020-09-01"),
            text("1.0.0"),
            None,
            None,
            None,
        ),
        sample_releases(),
    );
    assert!(matches!(
        CrateInfoWithScore::from_info(info, &Vec::new(), &Vec::new(), NOW),
        Err(EsrError::Other(_))
    ));
}

#[test]
fn scoring_twice_gives_the_same() {
    let first =
        CrateInfoWithScore::from_info(sample(), &sample_dependants(), &sample_owner_crates(), NOW)
            .unwrap();
    let second =
        CrateInfoWithScore::from_info(sample(), &sample_dependants(), &sample_owner_crates(), NOW)
            .unwrap();
    assert_eq!(first.get_score_tuple(), second.get_score_tuple());
    assert_eq!(
        format!("{:?}", first.get_score_table()),
        format!("{:?}", second.get_score_table())
    );
}
