//! Rate-limit metadata, read from the headers of a response.

use crate::model::text_view;
use crate::model::views;
use crate::text::ascii_lowercase;
use crate::text::matches_keyword;
use crate::text::parse_usize;
use crate::text::parsed_usize;
use vstd::prelude::*;
use vstd::string::StringExecFns;

verus! {

/// One header of a response: its name, in letters of either case, and its
/// value where the value is text.
#[derive(Debug, Clone, PartialEq, Eq)]
pub struct Header {
    pub name: String,
    pub value: Option<String>,
}

/// A [`Header`] as contracts see it.
pub struct HeaderView {
    pub name: Seq<char>,
    pub value: Option<Seq<char>>,
}

impl View for Header {
    type V = HeaderView;

    open spec fn view(&self) -> HeaderView {
        HeaderView { name: self.name@, value: text_view(self.value) }
    }
}

/// A header that the response does not have; it holds the header's name.
#[derive(Debug, Clone, PartialEq, Eq)]
pub struct MissingHeader(pub String);

impl View for MissingHeader {
    type V = Seq<char>;

    open spec fn view(&self) -> Seq<char> {
        self.0@
    }
}

impl MissingHeader {
    /// A sentence that names the header.
    pub fn message(&self) -> (sentence: String)
        ensures
            sentence@ == "Missing header: '"@ + self@ + "'."@,
    {
        let mut sentence = String::from_str("Missing header: '");
        sentence.append(self.0.as_str());
        sentence.append("'.");
        sentence
    }
}

/// Why the metadata of a response cannot be had.
#[derive(Debug, Clone, PartialEq, Eq)]
pub enum HeaderError {
    /// The response has no header of this name.
    Missing(MissingHeader),
    /// The value of the header of this name is not text.
    NotText(String),
    /// The value of the header of this name is text but no number.
    NotNumber(String),
}

/// A [`HeaderError`] as contracts see it.
pub enum HeaderErrorView {
    Missing(Seq<char>),
    NotText(Seq<char>),
    NotNumber(Seq<char>),
}

impl View for HeaderError {
    type V = HeaderErrorView;

    open spec fn view(&self) -> HeaderErrorView {
        match self {
            HeaderError::Missing(header) => HeaderErrorView::Missing(header@),
            HeaderError::NotText(name) => HeaderErrorView::NotText(name@),
            HeaderError::NotNumber(name) => HeaderErrorView::NotNumber(name@),
        }
    }
}

/// What the service says about its limits, and about when to call again.
#[derive(Debug, Clone, PartialEq, Eq)]
pub struct RateLimitMetadata {
    /// In seconds.
    pub retry_after: usize,
    pub retry_after_ms: usize,
    pub ratelimit_limit_requests: usize,
    pub ratelimit_limit_tokens: usize,
    pub ratelimit_remaining_requests: usize,
    pub ratelimit_remaining_tokens: usize,
    pub ratelimit_reset_requests: String,
    pub ratelimit_reset_tokens: String,
}

/// A [`RateLimitMetadata`] as contracts see it.
pub struct RateLimitMetadataView {
    pub retry_after: usize,
    pub retry_after_ms: usize,
    pub ratelimit_limit_requests: usize,
    pub ratelimit_limit_tokens: usize,
    pub ratelimit_remaining_requests: usize,
    pub ratelimit_remaining_tokens: usize,
    pub ratelimit_reset_requests: Seq<char>,
    pub ratelimit_reset_tokens: Seq<char>,
}

impl View for RateLimitMetadata {
    type V = RateLimitMetadataView;

    open spec fn view(&self) -> RateLimitMetadataView {
        RateLimitMetadataView {
            retry_after: self.retry_after,
            retry_after_ms: self.retry_after_ms,
            ratelimit_limit_requests: self.ratelimit_limit_requests,
            ratelimit_limit_tokens: self.ratelimit_limit_tokens,
            ratelimit_remaining_requests: self.ratelimit_remaining_requests,
            ratelimit_remaining_tokens: self.ratelimit_remaining_tokens,
            ratelimit_reset_requests: self.ratelimit_reset_requests@,
            ratelimit_reset_tokens: self.ratelimit_reset_tokens@,
        }
    }
}

/// The value of the first header called `name`, a name in lower case:
/// `None` where there is no such header, `Some(None)` where its value is
/// not text. The case of the letters of a header's name does not matter.
pub open spec fn header_value(headers: Seq<HeaderView>, name: Seq<char>) -> Option<
    Option<Seq<char>>,
>
    decreases headers.len(),
{
    if headers.len() == 0 {
        None
    } else if ascii_lowercase(headers[0].name) == name {
        Some(headers[0].value)
    } else {
        header_value(headers.drop_first(), name)
    }
}

/// The text of the header called `name`; where it has none, an arbitrary text.
pub open spec fn header_text(headers: Seq<HeaderView>, name: Seq<char>) -> Seq<char> {
    header_value(headers, name).unwrap().unwrap()
}

/// The number in the header called `name`; where it has none, an arbitrary
/// number.
pub open spec fn header_number(headers: Seq<HeaderView>, name: Seq<char>) -> usize {
    parsed_usize(header_text(headers, name)).unwrap()
}

/// What is wrong with the header called `name` before its text is read as
/// anything: it is missing, or its value is not text.
pub open spec fn text_fault(headers: Seq<HeaderView>, name: Seq<char>) -> Option<HeaderErrorView> {
    match header_value(headers, name) {
        None => Some(HeaderErrorView::Missing(name)),
        Some(None) => Some(HeaderErrorView::NotText(name)),
        Some(Some(_)) => None,
    }
}

/// What is wrong with the text of the header called `name` as a number.
pub open spec fn number_fault(headers: Seq<HeaderView>, name: Seq<char>) -> Option<
    HeaderErrorView,
> {
    if parsed_usize(header_text(headers, name)) is None {
        Some(HeaderErrorView::NotNumber(name))
    } else {
        None
    }
}

/// The first fault in a row of findings.
pub open spec fn first_fault(findings: Seq<Option<HeaderErrorView>>) -> Option<HeaderErrorView>
    decreases findings.len(),
{
    if findings.len() == 0 {
        None
    } else if findings[0] is Some {
        findings[0]
    } else {
        first_fault(findings.drop_first())
    }
}

/// The findings on the headers that the metadata is read from, in the order
/// in which they are made: first that each of the eight headers is there and
/// is text, then that each of the six counts is a number.
pub open spec fn findings(headers: Seq<HeaderView>) -> Seq<Option<HeaderErrorView>> {
    seq![
        text_fault(headers, "retry-after"@),
        text_fault(headers, "retry-after-ms"@),
        text_fault(headers, "x-ratelimit-limit-requests"@),
        text_fault(headers, "x-ratelimit-limit-tokens"@),
        text_fault(headers, "x-ratelimit-remaining-requests"@),
        text_fault(headers, "x-ratelimit-remaining-tokens"@),
        text_fault(headers, "x-ratelimit-reset-requests"@),
        text_fault(headers, "x-ratelimit-reset-tokens"@),
        number_fault(headers, "retry-after"@),
        number_fault(headers, "retry-after-ms"@),
        number_fault(headers, "x-ratelimit-limit-requests"@),
        number_fault(headers, "x-ratelimit-limit-tokens"@),
        number_fault(headers, "x-ratelimit-remaining-requests"@),
        number_fault(headers, "x-ratelimit-remaining-tokens"@),
    ]
}

/// The metadata that a response with these headers carries: all of it where
/// nothing is wrong with any of the eight headers, and otherwise the first
/// fault.
pub open spec fn metadata_of(headers: Seq<HeaderView>) -> Result<
    RateLimitMetadataView,
    HeaderErrorView,
> {
    match first_fault(findings(headers)) {
        Some(fault) => Err(fault),
        None => Ok(
            RateLimitMetadataView {
                retry_after: header_number(headers, "retry-after"@),
                retry_after_ms: header_number(headers, "retry-after-ms"@),
                ratelimit_limit_requests: header_number(headers, "x-ratelimit-limit-requests"@),
                ratelimit_limit_tokens: header_number(headers, "x-ratelimit-limit-tokens"@),
                ratelimit_remaining_requests: header_number(
                    headers,
                    "x-ratelimit-remaining-requests"@,
                ),
                ratelimit_remaining_tokens: header_number(headers, "x-ratelimit-remaining-tokens"@),
                ratelimit_reset_requests: header_text(headers, "x-ratelimit-reset-requests"@),
                ratelimit_reset_tokens: header_text(headers, "x-ratelimit-reset-tokens"@),
            },
        ),
    }
}

/// The view of rate-limit metadata that may be absent.
pub open spec fn metadata_view(metadata: Option<RateLimitMetadata>) -> Option<
    RateLimitMetadataView,
> {
    match metadata {
        Some(m) => Some(m@),
        None => None,
    }
}

/// The rate-limit metadata that a response with these headers carries, where
/// it carries all of it.
pub open spec fn carried_metadata(headers: Seq<HeaderView>) -> Option<
    RateLimitMetadataView,
> {
    match metadata_of(headers) {
        Ok(metadata) => Some(metadata),
        Err(_) => None,
    }
}

/// The view of a reading: of the metadata, or of what stood in its way.
pub open spec fn reading_view(reading: Result<RateLimitMetadata, HeaderError>) -> Result<
    RateLimitMetadataView,
    HeaderErrorView,
> {
    match reading {
        Ok(metadata) => Ok(metadata@),
        Err(error) => Err(error@),
    }
}

/// Where every finding before the one at `at` is clean and that one is a
/// fault, it is the first fault.
pub proof fn lemma_first_fault_at(findings: Seq<Option<HeaderErrorView>>, at: int)
    requires
        0 <= at < findings.len(),
        forall|i: int| 0 <= i < at ==> findings[i] is None,
        findings[at] is Some,
    ensures
        first_fault(findings) == findings[at],
    decreases at,
{
    if at > 0 {
        lemma_first_fault_at(findings.drop_first(), at - 1);
    }
}

/// Where every finding is clean there is no first fault.
pub proof fn lemma_no_fault(findings: Seq<Option<HeaderErrorView>>)
    requires
        forall|i: int| 0 <= i < findings.len() ==> findings[i] is None,
    ensures
        first_fault(findings) is None,
    decreases findings.len(),
{
    if findings.len() > 0 {
        lemma_no_fault(findings.drop_first());
    }
}

/// A row of findings that holds a fault has a first fault.
pub proof fn lemma_some_fault(findings: Seq<Option<HeaderErrorView>>, at: int)
    requires
        0 <= at < findings.len(),
        findings[at] is Some,
    ensures
        first_fault(findings) is Some,
    decreases at,
{
    if at > 0 && findings[0] is None {
        lemma_some_fault(findings.drop_first(), at - 1);
    }
}

/// The names of the eight headers that the metadata is read from.
pub open spec fn metadata_headers() -> Seq<Seq<char>> {
    seq![
        "retry-after"@,
        "retry-after-ms"@,
        "x-ratelimit-limit-requests"@,
        "x-ratelimit-limit-tokens"@,
        "x-ratelimit-remaining-requests"@,
        "x-ratelimit-remaining-tokens"@,
        "x-ratelimit-reset-requests"@,
        "x-ratelimit-reset-tokens"@,
    ]
}

/// The metadata is had whole or not at all: where one of the eight headers
/// is missing, or its value is not text, there is no metadata.
pub proof fn lemma_all_or_nothing(headers: Seq<HeaderView>, which: int)
    requires
        0 <= which < 8,
        !(header_value(headers, metadata_headers()[which]) matches Some(Some(_))),
    ensures
        metadata_of(headers) is Err,
{
    let found = findings(headers);
    lemma_some_fault(found, which);
}

/// The outcome of the reading is as the findings are: the metadata is had
/// exactly where every one of the eight headers is there and is text, and
/// every one of the six counts is a number.
pub proof fn lemma_metadata_had(headers: Seq<HeaderView>)
    ensures
        metadata_of(headers) is Ok <==> forall|i: int|
            0 <= i < findings(headers).len() ==> (#[trigger] findings(headers)[i]) is None,
{
    let found = findings(headers);
    if forall|i: int| 0 <= i < found.len() ==> (#[trigger] found[i]) is None {
        lemma_no_fault(found);
    } else {
        let at = choose|i: int| 0 <= i < found.len() && (#[trigger] found[i]) is Some;
        lemma_some_fault(found, at);
    }
}

/// Looks for the first header called `name`, a name in lower case.
pub fn find_header<'a>(headers: &'a Vec<Header>, name: &str) -> (found: Option<&'a Header>)
    ensures
        match found {
            Some(header) => header_value(views(headers@), name@) == Some(header@.value)
                && ascii_lowercase(header@.name) == name@,
            None => header_value(views(headers@), name@) is None,
        },
{
    let mut i: usize = 0;
    assert(views(headers@).skip(0) =~= views(headers@));
    while i < headers.len()
        invariant
            i <= headers.len(),
            header_value(views(headers@), name@) == header_value(
                views(headers@).skip(i as int),
                name@,
            ),
        decreases headers.len() - i,
    {
        let ghost rest = views(headers@).skip(i as int);
        if matches_keyword(headers[i].name.as_str(), name) {
            return Some(&headers[i]);
        }
        assert(rest.drop_first() =~= views(headers@).skip(i + 1));
        i += 1;
    }
    None
}

/// The text of the header called `name`, or what is wrong with that header.
pub fn read_text(headers: &Vec<Header>, name: &str) -> (text: Result<String, HeaderError>)
    ensures
        match text {
            Ok(t) => text_fault(views(headers@), name@) is None && t@ == header_text(
                views(headers@),
                name@,
            ),
            Err(error) => text_fault(views(headers@), name@) == Some(error@),
        },
{
    match find_header(headers, name) {
        None => Err(HeaderError::Missing(MissingHeader(String::from_str(name)))),
        Some(header) => match &header.value {
            None => Err(HeaderError::NotText(String::from_str(name))),
            Some(value) => Ok(value.clone()),
        },
    }
}

/// The number that `text`, the text of the header called `name`, spells, or
/// the fault that it does not spell one.
pub fn read_number(text: &String, name: &str) -> (number: Result<usize, HeaderError>)
    ensures
        match number {
            Ok(n) => parsed_usize(text@) == Some(n),
            Err(error) => parsed_usize(text@) is None && error@ == HeaderErrorView::NotNumber(
                name@,
            ),
        },
{
    match parse_usize(text.as_str()) {
        Some(n) => Ok(n),
        None => Err(HeaderError::NotNumber(String::from_str(name))),
    }
}

impl RateLimitMetadata {
    /// Reads the metadata from the headers of a response. It is had whole or
    /// not at all: the first header that is missing, is not text, or does
    /// not spell the number it should, ends the reading.
    pub fn from_headers(headers: &Vec<Header>) -> (reading: Result<RateLimitMetadata, HeaderError>)
        ensures
            reading_view(reading) == metadata_of(views(headers@)),
    {
        let ghost h = views(headers@);
        let ghost found = findings(h);
        let retry_after = match read_text(headers, "retry-after") {
            Ok(t) => t,
            Err(e) => {
                proof {
                    lemma_first_fault_at(found, 0);
                }
                return Err(e);
            },
        };
        let retry_after_ms = match read_text(headers, "retry-after-ms") {
            Ok(t) => t,
            Err(e) => {
                proof {
                    lemma_first_fault_at(found, 1);
                }
                return Err(e);
            },
        };
        let limit_requests = match read_text(headers, "x-ratelimit-limit-requests") {
            Ok(t) => t,
            Err(e) => {
                proof {
                    lemma_first_fault_at(found, 2);
                }
                return Err(e);
            },
        };
        let limit_tokens = match read_text(headers, "x-ratelimit-limit-tokens") {
            Ok(t) => t,
            Err(e) => {
                proof {
                    lemma_first_fault_at(found, 3);
                }
                return Err(e);
            },
        };
        let remaining_requests = match read_text(headers, "x-ratelimit-remaining-requests") {
            Ok(t) => t,
            Err(e) => {
                proof {
                    lemma_first_fault_at(found, 4);
                }
                return Err(e);
            },
        };
        let remaining_tokens = match read_text(headers, "x-ratelimit-remaining-tokens") {
            Ok(t) => t,
            Err(e) => {
                proof {
                    lemma_first_fault_at(found, 5);
                }
                return Err(e);
            },
        };
        let reset_requests = match read_text(headers, "x-ratelimit-reset-requests") {
            Ok(t) => t,
            Err(e) => {
                proof {
                    lemma_first_fault_at(found, 6);
                }
                return Err(e);
            },
        };
        let reset_tokens = match read_text(headers, "x-ratelimit-reset-tokens") {
            Ok(t) => t,
            Err(e) => {
                proof {
                    lemma_first_fault_at(found, 7);
                }
                return Err(e);
            },
        };
        let retry_after = match read_number(&retry_after, "retry-after") {
            Ok(n) => n,
            Err(e) => {
                proof {
                    lemma_first_fault_at(found, 8);
                }
                return Err(e);
            },
        };
        let retry_after_ms = match read_number(&retry_after_ms, "retry-after-ms") {
            Ok(n) => n,
            Err(e) => {
                proof {
                    lemma_first_fault_at(found, 9);
                }
                return Err(e);
            },
        };
        let limit_requests = match read_number(&limit_requests, "x-ratelimit-limit-requests") {
            Ok(n) => n,
            Err(e) => {
                proof {
                    lemma_first_fault_at(found, 10);
                }
                return Err(e);
            },
        };
        let limit_tokens = match read_number(&limit_tokens, "x-ratelimit-limit-tokens") {
            Ok(n) => n,
            Err(e) => {
                proof {
                    lemma_first_fault_at(found, 11);
                }
                return Err(e);
            },
        };
        let remaining_requests = match read_number(
            &remaining_requests,
            "x-ratelimit-remaining-requests",
        ) {
            Ok(n) => n,
            Err(e) => {
                proof {
                    lemma_first_fault_at(found, 12);
                }
                return Err(e);
            },
        };
        let remaining_tokens = match read_number(&remaining_tokens, "x-ratelimit-remaining-tokens") {
            Ok(n) => n,
            Err(e) => {
                proof {
                    lemma_first_fault_at(found, 13);
                }
                return Err(e);
            },
        };
        proof {
            lemma_no_fault(found);
        }
        Ok(
            RateLimitMetadata {
                retry_after,
                retry_after_ms,
                ratelimit_limit_requests: limit_requests,
                ratelimit_limit_tokens: limit_tokens,
                ratelimit_remaining_requests: remaining_requests,
                ratelimit_remaining_tokens: remaining_tokens,
                ratelimit_reset_requests: reset_requests,
                ratelimit_reset_tokens: reset_tokens,
            },
        )
    }

    /// The metadata of a response, where all of it can be had.
    pub fn extract(headers: &Vec<Header>) -> (metadata: Option<RateLimitMetadata>)
        ensures
            match metadata {
                Some(m) => metadata_of(views(headers@)) == Ok::<
                    RateLimitMetadataView,
                    HeaderErrorView,
                >(m@),
                None => metadata_of(views(headers@)) is Err,
            },
    {
        match RateLimitMetadata::from_headers(headers) {
            Ok(metadata) => Some(metadata),
            Err(_) => None,
        }
    }
}

} // verus!
