//! The search for pickup dates over a list of search strings, as a machine
//! that says what to retrieve next and takes in what was retrieved.

use vstd::prelude::*;
use crate::address::{address_in_response, address_search_url, get_address_id, search_url};
use crate::error::{PipelineError, PipelineErrorView};
use crate::response::Response;
use crate::record::{Address, AddressView, ResultRecord, ResultRecordView};
use crate::schedule::{get_pickup_date, pickup_in_response, pickup_schedule_url, schedule_url};

verus! {

/// The progress of a search for pickup dates.
///
/// The search strings are worked through in order. For each, the address is
/// resolved first and then, if there is one, its schedule is read. `position`
/// is the index of the search string that is being worked on, `pending` the
/// address whose schedule is awaited, and `results` what has been found for
/// the search strings before `position`.
#[derive(Debug)]
pub struct DateSearch {
    pub searches: Vec<String>,
    pub position: usize,
    pub pending: Option<Address>,
    pub results: Vec<ResultRecord>,
}

/// A [`DateSearch`] as mathematical values.
pub struct DateSearchView {
    pub searches: Seq<Seq<char>>,
    pub position: nat,
    pub pending: Option<AddressView>,
    pub results: Seq<ResultRecordView>,
}

impl DeepView for DateSearch {
    type V = DateSearchView;

    open spec fn deep_view(&self) -> DateSearchView {
        DateSearchView {
            searches: self.searches.deep_view(),
            position: self.position as nat,
            pending: self.pending.deep_view(),
            results: self.results.deep_view(),
        }
    }
}

/// What a search asks its driver to retrieve.
#[derive(Clone, Debug, PartialEq, Eq)]
pub enum Request {
    /// The address search at `url`.
    Address { url: String },
    /// The schedule at `url`.
    Schedule { url: String },
    /// Nothing: the search is over.
    Done,
}

/// A [`Request`] as mathematical values.
pub enum RequestView {
    Address { url: Seq<char> },
    Schedule { url: Seq<char> },
    Done,
}

impl DeepView for Request {
    type V = RequestView;

    open spec fn deep_view(&self) -> RequestView {
        match self {
            Request::Address { url } => RequestView::Address { url: url@ },
            Request::Schedule { url } => RequestView::Schedule { url: url@ },
            Request::Done => RequestView::Done,
        }
    }
}

impl DateSearchView {
    /// A search that has not begun.
    pub open spec fn start(searches: Seq<Seq<char>>) -> DateSearchView {
        DateSearchView { searches, position: 0, pending: None, results: Seq::empty() }
    }

    /// Every search string has been worked through.
    pub open spec fn done(self) -> bool {
        self.position >= self.searches.len()
    }

    /// What the search waits for: the schedule of the pending address, else
    /// the address of the current search string, else nothing.
    pub open spec fn request(self) -> RequestView {
        if self.done() {
            RequestView::Done
        } else {
            match self.pending {
                Some(address) => RequestView::Schedule { url: schedule_url(address.id) },
                None => RequestView::Address {
                    url: search_url(self.searches[self.position as int]),
                },
            }
        }
    }

    /// The search with the current search string left behind.
    pub open spec fn advanced(self) -> DateSearchView {
        DateSearchView { position: self.position + 1, pending: None, ..self }
    }

    /// The search after a failure: over, with nothing found.
    pub open spec fn aborted(self) -> DateSearchView {
        DateSearchView {
            position: self.searches.len(),
            pending: None,
            results: Seq::empty(),
            ..self
        }
    }

    /// The search after the response with `status` and `body` to its request,
    /// or the failure that the response amounts to.
    ///
    /// An address that is found becomes pending. A pickup date that is found
    /// adds a record of the pending address and that date. Where the address
    /// or the date is not found, the search goes on with the next search
    /// string and records nothing. A search that is over stays as it is.
    pub open spec fn after(self, status: u16, body: Seq<char>) -> Result<
        DateSearchView,
        PipelineErrorView,
    > {
        if self.done() {
            Ok(self)
        } else {
            match self.pending {
                None => match address_in_response(status, body) {
                    Err(e) => Err(e),
                    Ok(None) => Ok(self.advanced()),
                    Ok(Some(address)) => Ok(DateSearchView { pending: Some(address), ..self }),
                },
                Some(address) => match pickup_in_response(status, body) {
                    Err(e) => Err(e),
                    Ok(None) => Ok(self.advanced()),
                    Ok(Some(date)) => Ok(
                        DateSearchView {
                            results: self.results.push(ResultRecordView { address, date }),
                            ..self.advanced()
                        },
                    ),
                },
            }
        }
    }
}

impl DateSearchView {
    /// How many search strings are still to be worked through.
    pub open spec fn remaining(self) -> nat {
        if self.done() {
            0
        } else {
            (self.searches.len() - self.position) as nat
        }
    }

    /// The search after a whole sequence of responses, each given as status
    /// and body and taken in by [`Self::after`] in turn; the first failure
    /// ends it.
    pub open spec fn after_all(self, responses: Seq<(u16, Seq<char>)>) -> Result<
        DateSearchView,
        PipelineErrorView,
    >
        decreases responses.len(),
    {
        if responses.len() == 0 {
            Ok(self)
        } else {
            match self.after(responses.first().0, responses.first().1) {
                Err(e) => Err(e),
                Ok(next) => next.after_all(responses.drop_first()),
            }
        }
    }
}

/// The records that a sequence of responses yields for `remaining` search
/// strings, in the order of the search strings.
///
/// Each search string takes the response of the address search and, where
/// that holds an address, the response of the schedule next; `pending` is
/// the address whose schedule comes first in `responses`, if the sequence
/// begins in the middle of a search string. A search string yields a record
/// where both an address and a date are found, and nothing where either is
/// not found. A failure in any response is the outcome of the whole, and
/// responses beyond the last search string count for nothing.
pub open spec fn records_found(
    pending: Option<AddressView>,
    remaining: nat,
    responses: Seq<(u16, Seq<char>)>,
) -> Result<Seq<ResultRecordView>, PipelineErrorView>
    decreases responses.len(),
{
    if remaining == 0 || responses.len() == 0 {
        Ok(Seq::empty())
    } else {
        let rest = responses.drop_first();
        let left = (remaining - 1) as nat;
        match pending {
            None => match address_in_response(responses.first().0, responses.first().1) {
                Err(e) => Err(e),
                Ok(None) => records_found(None, left, rest),
                Ok(Some(address)) => records_found(Some(address), remaining, rest),
            },
            Some(address) => match pickup_in_response(responses.first().0, responses.first().1) {
                Err(e) => Err(e),
                Ok(None) => records_found(None, left, rest),
                Ok(Some(date)) => match records_found(None, left, rest) {
                    Err(e) => Err(e),
                    Ok(found) => Ok(seq![ResultRecordView { address, date }] + found),
                },
            },
        }
    }
}

/// Over a whole sequence of responses a search adds to its results exactly
/// the records that the responses yield for the search strings still to be
/// worked through, in their order, and fails exactly where one of the
/// responses that it takes in amounts to a failure.
pub proof fn lemma_search_finds_in_order(search: DateSearchView, responses: Seq<(u16, Seq<char>)>)
    ensures
        match search.after_all(responses) {
            Ok(end) => {
                &&& end.searches == search.searches
                &&& records_found(search.pending, search.remaining(), responses) matches Ok(found)
                &&& end.results == search.results + found
            },
            Err(e) => records_found(search.pending, search.remaining(), responses) == Err::<
                Seq<ResultRecordView>,
                PipelineErrorView,
            >(e),
        },
    decreases responses.len(),
{
    if responses.len() == 0 {
        assert(search.results + Seq::<ResultRecordView>::empty() =~= search.results);
    } else {
        let rest = responses.drop_first();
        match search.after(responses.first().0, responses.first().1) {
            Err(_) => {},
            Ok(next) => {
                lemma_search_finds_in_order(next, rest);
                if search.done() {
                    match search.after_all(rest) {
                        Ok(end) => {
                            assert(search.results + Seq::<ResultRecordView>::empty()
                                =~= search.results);
                        },
                        Err(_) => {},
                    }
                } else {
                    match next.after_all(rest) {
                        Ok(end) => {
                            let tail = records_found(next.pending, next.remaining(), rest)->Ok_0;
                            if next.results.len() > search.results.len() {
                                let record = next.results.last();
                                assert(search.results + (seq![record] + tail)
                                    =~= search.results.push(record) + tail);
                            }
                        },
                        Err(_) => {},
                    }
                }
            },
        }
    }
}

/// A run over `searches` that takes in `responses` from the start ends with
/// the records that the responses yield, in the order of the search strings,
/// or in the failure that they amount to.
pub proof fn lemma_run_finds_in_order(searches: Seq<Seq<char>>, responses: Seq<(u16, Seq<char>)>)
    ensures
        match DateSearchView::start(searches).after_all(responses) {
            Ok(end) => Ok::<Seq<ResultRecordView>, PipelineErrorView>(end.results)
                == records_found(None, searches.len(), responses),
            Err(e) => records_found(None, searches.len(), responses) == Err::<
                Seq<ResultRecordView>,
                PipelineErrorView,
            >(e),
        },
{
    let start = DateSearchView::start(searches);
    lemma_search_finds_in_order(start, responses);
    match start.after_all(responses) {
        Ok(end) => {
            let found = records_found(None, searches.len(), responses)->Ok_0;
            assert(Seq::<ResultRecordView>::empty() + found =~= found);
        },
        Err(_) => {},
    }
}

/// A response that is taken in neither loses nor reorders what was found
/// before, adds one record at most, and never leads back to an earlier
/// search string.
pub proof fn lemma_step_keeps_results(search: DateSearchView, status: u16, body: Seq<char>)
    ensures
        match search.after(status, body) {
            Ok(next) => {
                &&& next.searches == search.searches
                &&& next.position >= search.position
                &&& search.results.is_prefix_of(next.results)
                &&& next.results.len() <= search.results.len() + 1
            },
            Err(_) => true,
        },
{
}

impl DateSearch {
    /// Begins a search over `searches`.
    pub fn new(searches: Vec<String>) -> (search: DateSearch)
        ensures
            search.deep_view() == DateSearchView::start(searches.deep_view()),
    {
        let search = DateSearch { searches, position: 0, pending: None, results: Vec::new() };
        assert(search.results.deep_view() =~= Seq::empty());
        search
    }

    /// Whether every search string has been worked through.
    pub fn is_done(&self) -> (r: bool)
        ensures
            r == self.deep_view().done(),
    {
        self.position >= self.searches.len()
    }

    /// What has to be retrieved next.
    pub fn request(&self) -> (r: Request)
        ensures
            r.deep_view() == self.deep_view().request(),
    {
        if self.position >= self.searches.len() {
            Request::Done
        } else {
            match &self.pending {
                Some(address) => Request::Schedule { url: pickup_schedule_url(address.id.as_str()) },
                None => {
                    assert(self.searches.deep_view()[self.position as int]
                        == self.searches[self.position as int]@);
                    Request::Address {
                        url: address_search_url(self.searches[self.position].as_str()),
                    }
                },
            }
        }
    }

    /// Ends the search in failure.
    fn abort(&mut self)
        ensures
            final(self).deep_view() == old(self).deep_view().aborted(),
            final(self).results.len() == 0,
    {
        self.position = self.searches.len();
        self.pending = None;
        self.results.clear();
        assert(self.results.deep_view() =~= Seq::empty());
    }

    /// Takes in the response to the last request and returns the next one.
    ///
    /// On a failure the search is over and holds no results. A record that
    /// is added carries a day of the calendar.
    pub fn step(&mut self, response: &Response) -> (r: Result<Request, PipelineError>)
        ensures
            match old(self).deep_view().after(response.status, response.body@) {
                Ok(next) => final(self).deep_view() == next && r is Ok
                    && r.unwrap().deep_view() == next.request(),
                Err(e) => final(self).deep_view() == old(self).deep_view().aborted() && r is Err
                    && r.unwrap_err()@ == e,
            },
            forall|k: int|
                old(self).results.len() <= k < final(self).results.len() ==> (
                #[trigger] final(self).results[k]).date.is_calendar_date(),
    {
        if self.position >= self.searches.len() {
            return Ok(Request::Done);
        }
        let pending = self.pending.take();
        match pending {
            None => {
                match get_address_id(response) {
                    Err(e) => {
                        self.abort();
                        return Err(e);
                    },
                    Ok(None) => {
                        self.position = self.position + 1;
                    },
                    Ok(Some(address)) => {
                        self.pending = Some(address);
                    },
                }
            },
            Some(address) => {
                match get_pickup_date(response) {
                    Err(e) => {
                        self.abort();
                        return Err(e);
                    },
                    Ok(None) => {
                        self.position = self.position + 1;
                    },
                    Ok(Some(date)) => {
                        let ghost before = self.results.deep_view();
                        self.results.push(ResultRecord { address, date });
                        assert(self.results.deep_view() =~= before.push(
                            ResultRecordView { address: address@, date },
                        ));
                        self.position = self.position + 1;
                    },
                }
            },
        }
        Ok(self.request())
    }

    /// Ends the search and hands out what was found, in the order of the
    /// search strings.
    pub fn into_results(self) -> (results: Vec<ResultRecord>)
        ensures
            results.deep_view() == self.deep_view().results,
    {
        self.results
    }
}

} // verus!
