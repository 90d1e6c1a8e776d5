//! What can be fetched from a service: how its address is built, and how the
//! pages of a collection are put together and checked against the total that
//! the service reports.

use vstd::prelude::*;
use vstd::string::*;

use crate::esr_errors::EsrError;
use crate::esr_util::{contains_char, decimal, spec_decimal};

verus! {

/// The most items that a service hands out in one page.
pub const PER_PAGE: usize = 100;

/// What a service reports about a collection.
#[derive(Debug)]
pub struct Meta {
    pub total: usize,
}

/// Whether a status code reports success.
pub open spec fn is_success(status: u16) -> bool {
    200 <= status <= 299
}

/// Accepts the status codes 200 to 299, and reports any other as an error.
pub fn check_status(status: u16) -> (r: Result<(), EsrError>)
    ensures
        r is Ok <==> is_success(status),
        r is Err ==> r->Err_0 == EsrError::HttpStatus(status),
{
    if 200 <= status && status <= 299 {
        Ok(())
    } else {
        Err(EsrError::HttpStatus(status))
    }
}

/// An address with an access token as a further query parameter: after a `&`
/// where the address has a query already, after a `?` where it has none.
pub open spec fn spec_with_token(url: Seq<char>, token: Seq<char>) -> Seq<char> {
    if url.contains('?') {
        url + "&access_token="@ + token
    } else {
        url + "?access_token="@ + token
    }
}

/// Appends the access token to an address.
pub fn with_token(url: String, token: &str) -> (r: String)
    ensures
        r@ == spec_with_token(url@, token@),
{
    if contains_char(url.as_str(), '?') {
        url.concat("&access_token=").concat(token)
    } else {
        url.concat("?access_token=").concat(token)
    }
}

/// A record that a service hands out under an address built from an id.
pub trait EsrFrom: Sized {
    /// The address of the record with the given id.
    spec fn spec_url_from_id(id: Seq<char>) -> Seq<char>;

    fn url_from_id(id: &str) -> (url: String)
        ensures
            url@ == Self::spec_url_from_id(id@),
    ;

    fn url_from_id_and_token(id: &str, token: &str) -> (url: String)
        ensures
            url@ == spec_with_token(Self::spec_url_from_id(id@), token@),
    {
        with_token(Self::url_from_id(id), token)
    }
}

/// A record that holds one page of a collection, with the total that the
/// service reports for the whole of it.
pub trait EsrFromMulti: EsrFrom {
    type Inner;

    /// The total that the service reports.
    spec fn spec_total(&self) -> nat;

    /// The items that the record holds.
    spec fn spec_inner(&self) -> Seq<Self::Inner>;

    fn get_meta(&self) -> (meta: &Meta)
        ensures
            meta.total as nat == self.spec_total(),
    ;

    fn get_inner(&self) -> (inner: &Vec<Self::Inner>)
        ensures
            inner@ == self.spec_inner(),
    ;

    fn get_inner_mut(&mut self) -> (inner: &mut Vec<Self::Inner>)
        ensures
            inner@ == old(self).spec_inner(),
            final(self).spec_inner() == final(inner)@,
            final(self).spec_total() == old(self).spec_total(),
    ;

    fn total_from_meta(&self) -> (total: usize)
        ensures
            total as nat == self.spec_total(),
    {
        self.get_meta().total
    }
}

/// The number of pages that hold `total` items.
pub open spec fn spec_num_pages(total: nat) -> nat {
    (total + 99) / 100
}

/// The number of pages that hold `total` items.
pub fn num_pages(total: usize) -> (pages: usize)
    ensures
        pages as nat == spec_num_pages(total as nat),
{
    if total % PER_PAGE == 0 {
        total / PER_PAGE
    } else {
        total / PER_PAGE + 1
    }
}

/// The address of one further page of a collection.
pub open spec fn spec_page_url(url: Seq<char>, page: nat) -> Seq<char> {
    url + "&page="@ + spec_decimal(page)
}

/// The pages that are left to fetch once the first page has reported `total`
/// items: the pages from 2 to the last, none where the first page holds all.
pub open spec fn spec_more_page_urls(url: Seq<char>, total: nat) -> Seq<Seq<char>> {
    if total > 100 {
        Seq::new((spec_num_pages(total) - 1) as nat, |i: int| spec_page_url(url, (i + 2) as nat))
    } else {
        Seq::empty()
    }
}

/// The characters of each string of a list.
pub open spec fn string_views(v: Seq<String>) -> Seq<Seq<char>> {
    Seq::new(v.len(), |i: int| v[i]@)
}

/// The addresses of the pages that are left to fetch, in the order of the
/// pages.
pub fn more_page_urls(url: &str, total: usize) -> (urls: Vec<String>)
    ensures
        string_views(urls@) == spec_more_page_urls(url@, total as nat),
{
    let mut urls: Vec<String> = Vec::new();
    if total > PER_PAGE {
        let pages = num_pages(total);
        let mut page: usize = 2;
        while page <= pages
            invariant
                2 <= page <= pages + 1,
                pages as nat == spec_num_pages(total as nat),
                pages >= 2,
                urls@.len() == page - 2,
                forall|i: int|
                    0 <= i < urls@.len() ==> (#[trigger] urls@[i])@ == spec_page_url(
                        url@,
                        (i + 2) as nat,
                    ),
            decreases pages + 1 - page,
        {
            let page_url = String::from_str(url).concat("&page=").concat(decimal(page as u128).as_str());
            urls.push(page_url);
            page += 1;
        }
        assert(string_views(urls@) =~= spec_more_page_urls(url@, total as nat));
    } else {
        assert(string_views(urls@) =~= spec_more_page_urls(url@, total as nat));
    }
    urls
}

/// The items of the first page followed by those of the further pages, in
/// the order of the pages.
pub open spec fn spec_concat_pages<T: EsrFromMulti>(
    first: Seq<T::Inner>,
    more: Seq<Result<T, EsrError>>,
) -> Seq<T::Inner>
    decreases more.len(),
{
    if more.len() == 0 {
        first
    } else {
        match more.last() {
            Ok(page) => spec_concat_pages::<T>(first, more.drop_last()) + page.spec_inner(),
            Err(_) => spec_concat_pages::<T>(first, more.drop_last()),
        }
    }
}

/// The place of the first page that failed, if any did.
pub open spec fn spec_first_failure<T>(more: Seq<Result<T, EsrError>>) -> Option<int>
    decreases more.len(),
{
    if more.len() == 0 {
        None
    } else {
        match spec_first_failure(more.drop_last()) {
            Some(k) => Some(k),
            None => if more.last() is Err {
                Some(more.len() - 1)
            } else {
                None
            },
        }
    }
}

/// Whether the further pages are looked at: only where all pages were asked
/// for and the first page does not hold the whole collection.
pub open spec fn uses_more_pages(total: nat, multi_page: bool) -> bool {
    multi_page && total > 100
}

/// Puts the pages of a collection together. `initial` is the first page and
/// `more` holds what came of fetching the further pages, in the order of the
/// pages.
///
/// Where a single page was asked for, or the first page reports no more than
/// one page holds, the first page is handed back as it is. Else the first
/// further page that failed gives its error; without one, the further pages'
/// items are appended in the order of the pages, and the number of items must
/// then be the total that the first page reports, or the result is a
/// `PaginationConsistency` error.
pub fn merge_pages<T: EsrFromMulti>(
    initial: T,
    more: Vec<Result<T, EsrError>>,
    multi_page: bool,
) -> (r: Result<T, EsrError>)
    ensures
        !uses_more_pages(initial.spec_total(), multi_page) ==> r == Ok::<T, EsrError>(initial),
        uses_more_pages(initial.spec_total(), multi_page) ==> match spec_first_failure(more@) {
            Some(k) => r == Err::<T, EsrError>(more@[k]->Err_0),
            None => if spec_concat_pages::<T>(initial.spec_inner(), more@).len()
                == initial.spec_total() {
                r is Ok && r->Ok_0.spec_inner() == spec_concat_pages::<T>(
                    initial.spec_inner(),
                    more@,
                ) && r->Ok_0.spec_total() == initial.spec_total()
            } else {
                r == Err::<T, EsrError>(EsrError::PaginationConsistency)
            },
        },
{
    if !multi_page {
        return Ok(initial);
    }
    let total = initial.total_from_meta();
    if total <= PER_PAGE {
        return Ok(initial);
    }
    let mut merged = initial;
    let ghost pages = more@;
    for page_res in it: more
        invariant
            it.seq() == pages,
            pages == more@,
            multi_page,
            initial.spec_total() > 100,
            merged.spec_total() == initial.spec_total(),
            spec_first_failure(pages.take(it.index() as int)) is None,
            merged.spec_inner() == spec_concat_pages::<T>(
                initial.spec_inner(),
                pages.take(it.index() as int),
            ),
    {
        let ghost k = it.index() as int;
        assert(pages.take(k + 1).drop_last() =~= pages.take(k));
        assert(pages.take(k + 1).last() == pages[k]);
        match page_res {
            Ok(mut page) => {
                let inner = merged.get_inner_mut();
                let more_inner = page.get_inner_mut();
                inner.append(more_inner);
            },
            Err(e) => {
                proof {
                    lemma_first_failure_prefix(pages, k + 1);
                }
                return Err(e);
            },
        }
    }
    assert(pages.take(pages.len() as int) =~= pages);
    if merged.get_inner().len() != total {
        return Err(EsrError::PaginationConsistency);
    }
    Ok(merged)
}

/// A failure found among the first pages is the first failure of all.
pub proof fn lemma_first_failure_prefix<T>(more: Seq<Result<T, EsrError>>, n: int)
    requires
        0 <= n <= more.len(),
        spec_first_failure(more.take(n)) is Some,
    ensures
        spec_first_failure(more) == spec_first_failure(more.take(n)),
    decreases more.len() - n,
{
    if n < more.len() {
        assert(more.take(n + 1).drop_last() =~= more.take(n));
        lemma_first_failure_prefix(more, n + 1);
    } else {
        assert(more.take(n) =~= more);
    }
}


/// All or nothing: the values of a list of outcomes, in their order, where
/// none failed; else the error of the first that did.
pub fn all_or_first_error<T>(results: Vec<Result<T, EsrError>>) -> (r: Result<Vec<T>, EsrError>)
    ensures
        match spec_first_failure(results@) {
            Some(k) => r == Err::<Vec<T>, EsrError>(results@[k]->Err_0),
            None => r is Ok && r->Ok_0@.len() == results@.len() && forall|i: int|
                0 <= i < results@.len() ==> results@[i] == Ok::<T, EsrError>(
                    #[trigger] r->Ok_0@[i],
                ),
        },
{
    let ghost given = results@;
    let mut values: Vec<T> = Vec::new();
    for result in it: results
        invariant
            it.seq() == given,
            given == results@,
            spec_first_failure(given.take(it.index() as int)) is None,
            values@.len() == it.index(),
            forall|i: int|
                0 <= i < it.index() ==> given[i] == Ok::<T, EsrError>(#[trigger] values@[i]),
    {
        let ghost k = it.index() as int;
        assert(given.take(k + 1).drop_last() =~= given.take(k));
        assert(given.take(k + 1).last() == given[k]);
        match result {
            Ok(value) => {
                values.push(value);
            },
            Err(e) => {
                proof {
                    lemma_first_failure_prefix(given, k + 1);
                }
                return Err(e);
            },
        }
    }
    assert(given.take(given.len() as int) =~= given);
    Ok(values)
}

/// Two lists that a service hands out side by side, as one list of pairs.
/// They stay in step only where both are there and of one length: where one
/// of the two is missing, or one is longer than the other, the result is a
/// `PaginationConsistency` error. Where both are missing there is nothing to
/// pair.
pub fn zip_paired<A, B>(first: Option<Vec<A>>, second: Option<Vec<B>>) -> (r: Result<
    Vec<(A, B)>,
    EsrError,
>)
    ensures
        match (first, second) {
            (Some(a), Some(b)) => if a@.len() == b@.len() {
                r is Ok && r->Ok_0@.len() == a@.len() && forall|i: int|
                    0 <= i < a@.len() ==> (#[trigger] r->Ok_0@[i]) == (a@[i], b@[i])
            } else {
                r == Err::<Vec<(A, B)>, EsrError>(EsrError::PaginationConsistency)
            },
            (None, None) => r is Ok && r->Ok_0@.len() == 0,
            _ => r == Err::<Vec<(A, B)>, EsrError>(EsrError::PaginationConsistency),
        },
{
    match (first, second) {
        (Some(mut a), Some(mut b)) => {
            if a.len() != b.len() {
                return Err(EsrError::PaginationConsistency);
            }
            let ghost left = a@;
            let ghost right = b@;
            // taken from the end, then turned round
            let mut backwards: Vec<(A, B)> = Vec::new();
            while a.len() > 0
                invariant
                    a@.len() == b@.len(),
                    a@.len() <= left.len(),
                    left.len() == right.len(),
                    a@ == left.take(a@.len() as int),
                    b@ == right.take(b@.len() as int),
                    backwards@.len() == left.len() - a@.len(),
                    forall|i: int|
                        0 <= i < backwards@.len() ==> (#[trigger] backwards@[i]) == (
                            left[left.len() - 1 - i],
                            right[right.len() - 1 - i],
                        ),
                decreases a@.len(),
            {
                let x = a.pop().unwrap();
                let y = b.pop().unwrap();
                backwards.push((x, y));
            }
            let mut pairs: Vec<(A, B)> = Vec::new();
            let ghost turned = backwards@;
            while backwards.len() > 0
                invariant
                    turned.len() == left.len(),
                    left.len() == right.len(),
                    backwards@ == turned.take(backwards@.len() as int),
                    pairs@.len() == turned.len() - backwards@.len(),
                    forall|i: int|
                        0 <= i < turned.len() ==> (#[trigger] turned[i]) == (
                            left[left.len() - 1 - i],
                            right[right.len() - 1 - i],
                        ),
                    forall|i: int|
                        0 <= i < pairs@.len() ==> (#[trigger] pairs@[i]) == (left[i], right[i]),
                decreases backwards@.len(),
            {
                let pair = backwards.pop().unwrap();
                pairs.push(pair);
            }
            Ok(pairs)
        },
        (None, None) => Ok(Vec::new()),
        _ => Err(EsrError::PaginationConsistency),
    }
}

} // verus!
