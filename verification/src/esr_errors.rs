//! The error type shared by the whole library.

use vstd::prelude::*;
use vstd::string::*;

verus! {

#[verifier::external_type_specification]
#[verifier::external_body]
pub struct ExParseError(time::ParseError);

/// Everything that can go wrong while a score is put together.
#[derive(Debug)]
pub enum EsrError {
    /// The connection to a service failed: the text says how.
    Transport(String),
    /// A service answered with a status outside 200..=299.
    HttpStatus(u16),
    /// A body was not JSON, or not JSON of the expected shape.
    Decode(String),
    /// The pages of a collection do not add up to the total it reports.
    PaginationConsistency,
    /// A record lacks something that a score cannot do without.
    MissingData(String),
    /// A timestamp was not in the expected format.
    TimeParse(time::ParseError),
    /// The local package index could not be read.
    CratesIndex(String),
    /// A task of a batch ended without an outcome.
    TaskJoin(String),
    /// Any other failure.
    Other(String),
}

/// Writes a `time::ParseError` out through its `Display`. Nothing is claimed
/// of the text.
#[verifier::external_body]
fn parse_error_text(e: &time::ParseError) -> (r: String) {
    format!("{}", e)
}

/// The words for a status code.
pub open spec fn status_words(status: u16) -> Seq<char> {
    "HTTP status "@ + crate::esr_util::spec_decimal(status as nat)
}

impl EsrError {
    /// The words that name the kind of the error.
    pub open spec fn spec_kind_words(&self) -> Seq<char> {
        match self {
            EsrError::Transport(_) => "Transport Error: "@,
            EsrError::HttpStatus(_) => "HTTP Error: "@,
            EsrError::Decode(_) => "Deserialization Error: "@,
            EsrError::PaginationConsistency => "Pagination Error: "@,
            EsrError::MissingData(_) => "Missing Data Error: "@,
            EsrError::TimeParse(_) => "Time parsing Error: "@,
            EsrError::CratesIndex(_) => "CratesIndex Error: "@,
            EsrError::TaskJoin(_) => "Task join Error: "@,
            EsrError::Other(_) => "Error: "@,
        }
    }

    /// What is known of the error, in words. Of a date that could not be
    /// read the words are those of the `time` crate, which are not known
    /// here.
    pub open spec fn spec_detail_words(&self) -> Option<Seq<char>> {
        match self {
            EsrError::Transport(msg) => Some(msg@),
            EsrError::HttpStatus(status) => Some(status_words(*status)),
            EsrError::Decode(msg) => Some(msg@),
            EsrError::PaginationConsistency => Some(
                "Total no. of results does not match total reported"@,
            ),
            EsrError::MissingData(msg) => Some(msg@),
            EsrError::TimeParse(_) => None,
            EsrError::CratesIndex(msg) => Some(msg@),
            EsrError::TaskJoin(msg) => Some(msg@),
            EsrError::Other(msg) => Some(msg@),
        }
    }

    fn kind_text(&self) -> (r: &'static str)
        ensures
            r@ == self.spec_kind_words(),
    {
        match self {
            EsrError::Transport(_) => "Transport Error: ",
            EsrError::HttpStatus(_) => "HTTP Error: ",
            EsrError::Decode(_) => "Deserialization Error: ",
            EsrError::PaginationConsistency => "Pagination Error: ",
            EsrError::MissingData(_) => "Missing Data Error: ",
            EsrError::TimeParse(_) => "Time parsing Error: ",
            EsrError::CratesIndex(_) => "CratesIndex Error: ",
            EsrError::TaskJoin(_) => "Task join Error: ",
            EsrError::Other(_) => "Error: ",
        }
    }

    fn detail_text(&self) -> (r: String)
        ensures
            self.spec_detail_words() is Some ==> r@ == self.spec_detail_words()->Some_0,
    {
        match self {
            EsrError::Transport(msg) => msg.clone(),
            EsrError::HttpStatus(status) => String::from_str("HTTP status ").concat(
                crate::esr_util::decimal(*status as u128).as_str(),
            ),
            EsrError::Decode(msg) => msg.clone(),
            EsrError::PaginationConsistency => String::from_str(
                "Total no. of results does not match total reported",
            ),
            EsrError::MissingData(msg) => msg.clone(),
            EsrError::TimeParse(e) => parse_error_text(e),
            EsrError::CratesIndex(msg) => msg.clone(),
            EsrError::TaskJoin(msg) => msg.clone(),
            EsrError::Other(msg) => msg.clone(),
        }
    }

    /// The error in words: the kind of the error, then what is known of it.
    pub fn to_text(&self) -> (r: String)
        ensures
            r@.len() >= self.spec_kind_words().len(),
            r@.take(self.spec_kind_words().len() as int) == self.spec_kind_words(),
            self.spec_detail_words() is Some ==> r@ == self.spec_kind_words()
                + self.spec_detail_words()->Some_0,
    {
        let detail = self.detail_text();
        let r = String::from_str(self.kind_text()).concat(detail.as_str());
        assert(r@.take(self.spec_kind_words().len() as int) =~= self.spec_kind_words());
        r
    }

    /// An `Other` error with the given text.
    pub fn other(msg: &str) -> (e: EsrError)
        ensures
            e is Other,
            e->Other_0@ == msg@,
    {
        EsrError::Other(String::from_str(msg))
    }
}

} // verus!
