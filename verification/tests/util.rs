use cargo_esr::esr_errors::EsrError;
use cargo_esr::esr_util::{
    age_in_months, age_seconds, contains_char, crate_age_in_months, crate_age_in_seconds, crate_date_sec,
    crate_span_in_months, crate_to_iso8601, date_sec, decimal, github_repo, has_repo_path_shape,
    insert_sorted, is_iso8601_convertible, rfind_char, seconds_of_fields, sort_dedup,
    span_in_months, span_seconds, str_chars, str_eq, str_lt, strip_git,
};

#[test]
fn chars_of_a_string() {
    assert_eq!(str_chars("aé1"), vec!['a', 'é', '1']);
    assert_eq!(str_chars(""), Vec::<char>::new());
}

#[test]
fn equal_strings() {
    assert!(str_eq("1.0.0", "1.0.0"));
    assert!(!str_eq("1.0.0", "1.0.1"));
    assert!(!str_eq("1.0", "1.0.0"));
    assert!(str_eq("", ""));
}

#[test]
fn order_of_strings_is_that_of_str() {
    let samples = ["", "0.1.0", "0.10.0", "0.2.0", "1.0.0", "1.0.0-alpha", "a", "ab", "b", "é"];
    for a in samples.iter() {
        for b in samples.iter() {
            assert_eq!(str_lt(a, b), a < b);
        }
    }
}

#[test]
fn last_place_of_a_character() {
    assert_eq!(rfind_char("a.b.c", '.'), Some(3));
    assert_eq!(rfind_char("abc", '.'), None);
    assert_eq!(rfind_char("é.x", '.'), Some(1));
    assert!(contains_char("a?b", '?'));
    assert!(!contains_char("ab", '?'));
}

#[test]
fn decimal_numbers() {
    assert_eq!(decimal(0), "0");
    assert_eq!(decimal(7), "7");
    assert_eq!(decimal(10), "10");
    assert_eq!(decimal(250), "250");
    assert_eq!(decimal(1_234_567_890), "1234567890");
}

#[test]
fn sorted_insertion_keeps_order_and_drops_repeats() {
    let mut v: Vec<&str> = Vec::new();
    insert_sorted(&mut v, "1.0.0");
    insert_sorted(&mut v, "0.9.0");
    insert_sorted(&mut v, "1.0.0");
    insert_sorted(&mut v, "2.0.0");
    insert_sorted(&mut v, "1.5.0");
    assert_eq!(v, vec!["0.9.0", "1.0.0", "1.5.0", "2.0.0"]);
}

#[test]
fn sort_dedup_is_sort_then_dedup() {
    let items = vec!["b", "a", "c", "a", "b", "b"];
    let mut expected = items.clone();
    expected.sort();
    expected.dedup();
    assert_eq!(sort_dedup(&items), expected);
    assert_eq!(sort_dedup(&Vec::new()), Vec::<&str>::new());
}

#[test]
fn iso8601_is_left_alone() {
    assert!(is_iso8601_convertible("2017-01-01T00:00:00Z"));
    assert_eq!(crate_to_iso8601("2017-01-01T00:00:00Z"), "2017-01-01T00:00:00Z");
}

#[test]
fn offset_is_cut_off() {
    assert!(is_iso8601_convertible("2017-01-01T00:00:00+00:00"));
    assert_eq!(crate_to_iso8601("2017-01-01T00:00:00+00:00"), "2017-01-01T00:00:00Z");
}

#[test]
fn fraction_is_cut_off() {
    assert!(is_iso8601_convertible("2017-01-01T00:00:00.123456+00:00"));
    assert_eq!(crate_to_iso8601("2017-01-01T00:00:00.123456+00:00"), "2017-01-01T00:00:00Z");
}

#[test]
fn other_date_formats_are_not_convertible() {
    assert!(!is_iso8601_convertible("2017-01-01T00:00:00"));
    assert!(!is_iso8601_convertible("2017-01-01T00:00:00.123"));
    assert!(!is_iso8601_convertible("2017-01-01T00:00:00.123Z"));
    assert!(!is_iso8601_convertible(""));
}

#[test]
fn seconds_of_a_date() {
    assert_eq!(date_sec("1970-01-01T00:00:00Z").unwrap(), 0);
    assert_eq!(date_sec("1970-01-02T00:00:00Z").unwrap(), 86_400);
    assert_eq!(date_sec("2017-01-01T00:00:00Z").unwrap(), 1_483_228_800);
    assert_eq!(date_sec("2020-09-13T12:26:40Z").unwrap(), 1_600_000_000);
}

#[test]
fn a_date_that_cannot_be_read() {
    assert!(matches!(date_sec("yesterday"), Err(EsrError::TimeParse(_))));
    assert!(matches!(date_sec("2017-13-01T00:00:00Z"), Err(EsrError::TimeParse(_))));
    assert!(matches!(date_sec(""), Err(EsrError::TimeParse(_))));
}

#[test]
fn age_of_a_date() {
    assert_eq!(age_in_months("2020-09-01T00:00:00Z", 1_600_000_000).unwrap(), 410_443_230);
    assert_eq!(age_in_months("2020-09-13T12:26:40Z", 1_600_000_000).unwrap(), 0);
    assert!(matches!(age_in_months("soon", 1_600_000_000), Err(EsrError::TimeParse(_))));
}

#[test]
fn a_date_ahead_has_no_age() {
    assert_eq!(age_in_months("2030-01-01T00:00:00Z", 1_600_000_000).unwrap(), 0);
}

#[test]
fn span_between_two_dates_whichever_is_first() {
    let forth = span_in_months("2019-01-01T00:00:00Z", "2020-09-01T00:00:00Z").unwrap();
    let back = span_in_months("2020-09-01T00:00:00Z", "2019-01-01T00:00:00Z").unwrap();
    assert_eq!(forth, 19_967_213_114);
    assert_eq!(back, 19_967_213_114);
    assert!(matches!(
        span_in_months("2019-01-01T00:00:00Z", "later"),
        Err(EsrError::TimeParse(_))
    ));
}

#[test]
fn dates_of_the_registry() {
    assert_eq!(crate_date_sec("2017-01-01T00:00:00.123456+00:00").unwrap(), 1_483_228_800);
    assert_eq!(
        crate_age_in_seconds("2020-09-01T00:00:00.000000+00:00", 1_600_000_000).unwrap(),
        1_081_600
    );
    assert_eq!(
        crate_age_in_months("2020-09-01T00:00:00.000000+00:00", 1_600_000_000).unwrap(),
        410_443_230
    );
    assert_eq!(
        crate_span_in_months("2019-01-01T00:00:00+00:00", "2020-09-01T00:00:00.5+00:00").unwrap(),
        19_967_213_114
    );
}

#[test]
fn faults_of_registry_dates() {
    match crate_date_sec("2017-01-01T00:00:00") {
        Err(EsrError::Other(msg)) => assert_eq!(msg, "unexpected date format"),
        _ => panic!("an error was due"),
    }
    assert!(matches!(crate_date_sec("never+00:00"), Err(EsrError::TimeParse(_))));
    assert!(matches!(
        crate_span_in_months("2019-01-01T00:00:00+00:00", "2020"),
        Err(EsrError::Other(_))
    ));
    assert!(matches!(
        crate_span_in_months("2019-01-01T00:00:00+00:00", "never+00:00"),
        Err(EsrError::TimeParse(_))
    ));
    assert!(matches!(crate_age_in_months("x.y", 0), Err(EsrError::Other(_))));
}

#[test]
fn repository_path_of_an_address() {
    assert_eq!(
        github_repo("https://github.com/rust-alt/cargo-esr"),
        Some(String::from("rust-alt/cargo-esr"))
    );
    assert_eq!(
        github_repo("https://github.com/rust-alt/cargo-esr.git"),
        Some(String::from("rust-alt/cargo-esr"))
    );
    assert_eq!(
        github_repo("https://github.com/rust-alt/cargo-esr/tree/master/src"),
        Some(String::from("rust-alt/cargo-esr"))
    );
    assert_eq!(
        github_repo("git@github.com:rust-alt/cargo-esr.git"),
        Some(String::from("rust-alt/cargo-esr"))
    );
    assert_eq!(
        github_repo("http://www.github.com/owner/repo/"),
        Some(String::from("owner/repo"))
    );
}

#[test]
fn addresses_without_a_repository_path() {
    assert_eq!(github_repo("https://gitlab.com/owner/repo"), None);
    assert_eq!(github_repo("https://github.com/owner"), None);
    assert_eq!(github_repo("https://github.com/"), None);
    assert_eq!(github_repo("owner/repo"), None);
    assert_eq!(github_repo(""), None);
}

#[test]
fn seconds_from_then_to_now() {
    assert_eq!(age_seconds(100, 160), 60);
    assert_eq!(age_seconds(160, 160), 0);
    assert_eq!(age_seconds(-40, 60), 100);
    assert_eq!(age_seconds(i64::MIN, i64::MAX), u64::MAX);
}

#[test]
fn no_seconds_to_a_moment_ahead() {
    assert_eq!(age_seconds(161, 160), 0);
    assert_eq!(age_seconds(i64::MAX, i64::MIN), 0);
}

#[test]
fn seconds_between_two_moments() {
    assert_eq!(span_seconds(100, 160), 60);
    assert_eq!(span_seconds(160, 100), 60);
    assert_eq!(span_seconds(7, 7), 0);
    assert_eq!(span_seconds(i64::MIN, i64::MAX), u64::MAX);
    assert_eq!(span_seconds(i64::MAX, i64::MIN), u64::MAX);
}

#[test]
fn shape_of_a_repository_path() {
    assert!(has_repo_path_shape("owner/repo"));
    assert!(has_repo_path_shape("é/ü"));
    assert!(!has_repo_path_shape("owner"));
    assert!(!has_repo_path_shape("owner/"));
    assert!(!has_repo_path_shape("/repo"));
    assert!(!has_repo_path_shape("/"));
    assert!(!has_repo_path_shape(""));
    assert!(!has_repo_path_shape("a/b/c"));
    assert!(!has_repo_path_shape("https://github.com/owner/repo"));
    assert!(!has_repo_path_shape("git@github.com:owner/repo"));
}

#[test]
fn seconds_of_the_fields_of_a_time() {
    // the year is counted from 1900, the month from 0
    assert_eq!(seconds_of_fields(70, 0, 1, 0, 0, 0), 0);
    assert_eq!(seconds_of_fields(70, 0, 2, 0, 0, 0), 86_400);
    assert_eq!(seconds_of_fields(69, 11, 31, 23, 59, 59), -1);
    assert_eq!(seconds_of_fields(117, 0, 1, 0, 0, 0), 1_483_228_800);
    assert_eq!(seconds_of_fields(120, 8, 13, 12, 26, 40), 1_600_000_000);
    assert_eq!(seconds_of_fields(138, 0, 19, 3, 14, 8), 2_147_483_648);
    assert_eq!(seconds_of_fields(8099, 11, 31, 23, 59, 59), 253_402_300_799);
}

#[test]
fn leap_years_of_the_calendar() {
    // the first of March follows the 29th of February in 1600 and 2000,
    // the 28th in 1900
    assert_eq!(seconds_of_fields(-300, 2, 1, 0, 0, 0), -11_670_912_000);
    assert_eq!(seconds_of_fields(-300, 1, 29, 0, 0, 0), -11_670_912_000 - 86_400);
    assert_eq!(seconds_of_fields(0, 2, 1, 0, 0, 0), -2_203_891_200);
    assert_eq!(seconds_of_fields(0, 1, 29, 0, 0, 0), -2_203_891_200);
    assert_eq!(seconds_of_fields(100, 2, 1, 0, 0, 0), 951_868_800);
    assert_eq!(seconds_of_fields(100, 1, 29, 0, 0, 0), 951_868_800 - 86_400);
}

#[test]
fn fields_past_their_range_run_on() {
    // the 30th of February is the 2nd of March
    assert_eq!(seconds_of_fields(117, 1, 30, 0, 0, 0), 1_488_412_800);
    // the 60th second is the first of the next minute
    assert_eq!(seconds_of_fields(117, 0, 1, 0, 0, 60), 1_483_228_860);
    // the month after December is January
    assert_eq!(seconds_of_fields(117, 12, 1, 0, 0, 0), 1_514_764_800);
    assert_eq!(seconds_of_fields(118, -12, 1, 0, 0, 0), 1_483_228_800);
    // the year before the year 1
    assert_eq!(seconds_of_fields(-1900, 0, 1, 0, 0, 0), -62_167_219_200);
}

#[test]
fn no_fields_are_too_large() {
    let greatest = seconds_of_fields(i32::MAX, i32::MAX, i32::MAX, i32::MAX, i32::MAX, i32::MAX);
    let least = seconds_of_fields(i32::MIN, i32::MIN, i32::MIN, i32::MIN, i32::MIN, i32::MIN);
    assert!(least < 0 && 0 < greatest);
}

#[test]
fn dates_that_the_calendar_lacks_are_read_on() {
    assert_eq!(date_sec("2017-02-30T00:00:00Z").unwrap(), 1_488_412_800);
    assert_eq!(date_sec("2017-01-01T00:00:60Z").unwrap(), 1_483_228_860);
    assert_eq!(date_sec("0000-01-01T00:00:00Z").unwrap(), -62_167_219_200);
    assert_eq!(date_sec("9999-12-31T23:59:59Z").unwrap(), 253_402_300_799);
}

#[test]
fn a_path_without_its_git_ending() {
    assert_eq!(strip_git("owner/repo.git"), "owner/repo");
    assert_eq!(strip_git("owner/repo"), "owner/repo");
    assert_eq!(strip_git("owner/.git"), "owner/.git");
    assert_eq!(strip_git(".git"), ".git");
    assert_eq!(strip_git("git"), "git");
    assert_eq!(strip_git("é/ü.git"), "é/ü");
}
