use cargo_esr::esr_crate::{CrateGeneralInfo, CrateSearch};
use cargo_esr::esr_errors::EsrError;
use cargo_esr::esr_from::{
    check_status, merge_pages, more_page_urls, num_pages, with_token, EsrFromMulti, Meta, PER_PAGE,
};

fn package(n: usize) -> CrateGeneralInfo {
    CrateGeneralInfo::new(
        format!("package-{}", n),
        String::from("2019-01-01T00:00:00+00:00"),
        String::from("2019-01-01T00:00:00+00:00"),
        String::from("1.0.0"),
        None,
        None,
        None,
    )
}

fn page(from: usize, count: usize, total: usize) -> CrateSearch {
    CrateSearch::new((from..from + count).map(package).collect(), Meta { total })
}

fn ids(search: &CrateSearch) -> Vec<String> {
    search.get_crates().iter().map(|c| String::from(c.get_id())).collect()
}

#[test]
fn success_is_a_status_from_200_to_299() {
    assert!(check_status(200).is_ok());
    assert!(check_status(204).is_ok());
    assert!(check_status(299).is_ok());
    assert!(matches!(check_status(199), Err(EsrError::HttpStatus(199))));
    assert!(matches!(check_status(300), Err(EsrError::HttpStatus(300))));
    assert!(matches!(check_status(404), Err(EsrError::HttpStatus(404))));
    assert!(matches!(check_status(500), Err(EsrError::HttpStatus(500))));
}

#[test]
fn token_follows_a_question_mark_or_an_ampersand() {
    assert_eq!(
        with_token(String::from("https://host/path"), "abc"),
        "https://host/path?access_token=abc"
    );
    assert_eq!(
        with_token(String::from("https://host/path?per_page=100"), "abc"),
        "https://host/path?per_page=100&access_token=abc"
    );
}

#[test]
fn number_of_pages() {
    assert_eq!(PER_PAGE, 100);
    assert_eq!(num_pages(0), 0);
    assert_eq!(num_pages(1), 1);
    assert_eq!(num_pages(100), 1);
    assert_eq!(num_pages(101), 2);
    assert_eq!(num_pages(250), 3);
    assert_eq!(num_pages(300), 3);
}

#[test]
fn a_total_of_250_takes_three_pages() {
    // the first page is fetched before the total is known; two are left
    let urls = more_page_urls("https://host/list?per_page=100", 250);
    assert_eq!(
        urls,
        vec!["https://host/list?per_page=100&page=2", "https://host/list?per_page=100&page=3"]
    );
}

#[test]
fn a_single_page_leaves_nothing_to_fetch() {
    assert_eq!(more_page_urls("u", 0).len(), 0);
    assert_eq!(more_page_urls("u", 99).len(), 0);
    assert_eq!(more_page_urls("u", 100).len(), 0);
    assert_eq!(more_page_urls("u", 101), vec!["u&page=2"]);
    assert_eq!(more_page_urls("u", 1001).len(), 10);
    assert_eq!(more_page_urls("u", 1001)[9], "u&page=11");
}

#[test]
fn pages_are_put_together_in_their_order() {
    let merged = merge_pages(
        page(0, 100, 250),
        vec![Ok(page(100, 100, 250)), Ok(page(200, 50, 250))],
        true,
    )
    .unwrap();
    assert_eq!(merged.get_inner().len(), 250);
    assert_eq!(merged.total_from_meta(), 250);
    let expected: Vec<String> = (0..250).map(|n| format!("package-{}", n)).collect();
    assert_eq!(ids(&merged), expected);
}

#[test]
fn a_short_page_is_a_consistency_error() {
    let merged = merge_pages(
        page(0, 100, 250),
        vec![Ok(page(100, 100, 250)), Ok(page(200, 49, 250))],
        true,
    );
    assert!(matches!(merged, Err(EsrError::PaginationConsistency)));
}

#[test]
fn a_long_page_is_a_consistency_error() {
    let merged = merge_pages(
        page(0, 100, 250),
        vec![Ok(page(100, 100, 250)), Ok(page(200, 51, 250))],
        true,
    );
    assert!(matches!(merged, Err(EsrError::PaginationConsistency)));
}

#[test]
fn a_missing_page_is_a_consistency_error() {
    let merged = merge_pages(page(0, 100, 250), vec![Ok(page(100, 100, 250))], true);
    assert!(matches!(merged, Err(EsrError::PaginationConsistency)));
}

#[test]
fn the_first_failed_page_gives_its_error() {
    let merged = merge_pages(
        page(0, 100, 350),
        vec![
            Ok(page(100, 100, 350)),
            Err(EsrError::HttpStatus(502)),
            Err(EsrError::Transport(String::from("reset"))),
        ],
        true,
    );
    assert!(matches!(merged, Err(EsrError::HttpStatus(502))));
}

#[test]
fn a_first_page_that_holds_all_is_handed_back_as_it_is() {
    let merged = merge_pages(page(0, 30, 30), Vec::new(), true).unwrap();
    assert_eq!(merged.get_inner().len(), 30);
    // further pages are not looked at where the first holds all
    let ignored = merge_pages(page(0, 30, 30), vec![Err(EsrError::HttpStatus(500))], true).unwrap();
    assert_eq!(ignored.get_inner().len(), 30);
    let full = merge_pages(page(0, 100, 100), Vec::new(), true).unwrap();
    assert_eq!(full.get_inner().len(), 100);
    let short = merge_pages(page(0, 29, 30), Vec::new(), true).unwrap();
    assert_eq!(short.get_inner().len(), 29);
    assert_eq!(short.total_from_meta(), 30);
}

#[test]
fn a_total_just_above_one_page_is_checked() {
    let whole = merge_pages(page(0, 100, 101), vec![Ok(page(100, 1, 101))], true).unwrap();
    assert_eq!(whole.get_inner().len(), 101);
    let short = merge_pages(page(0, 100, 101), vec![Ok(page(100, 0, 101))], true);
    assert!(matches!(short, Err(EsrError::PaginationConsistency)));
    let unfetched = merge_pages(page(0, 100, 101), Vec::new(), true);
    assert!(matches!(unfetched, Err(EsrError::PaginationConsistency)));
}

#[test]
fn a_single_page_on_request_is_not_checked() {
    let first = merge_pages(page(0, 25, 4000), Vec::new(), false).unwrap();
    assert_eq!(first.get_inner().len(), 25);
    assert_eq!(first.total_from_meta(), 4000);
    assert_eq!(first.get_meta().total, 4000);
}

#[test]
fn the_inner_list_can_be_added_to() {
    let mut search = page(0, 2, 3);
    search.get_inner_mut().push(package(2));
    assert_eq!(ids(&search), vec!["package-0", "package-1", "package-2"]);
}
