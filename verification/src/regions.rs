//! Enumeration of regions and of the streets of a region from the pages of
//! the street directory.

use vstd::prelude::*;
use vstd::string::StringExecFns;
use crate::error::{PipelineError, PipelineErrorView};
use crate::response::{Response, is_success, success_status};
use crate::html::{select_links, select_texts, selected_links, selected_texts};
use crate::text::lowercase;

verus! {

/// The directory page that lists the regions.
pub const DIRECTORY_URL: &'static str =
    "https://australia-streets.openalfa.com/shire-of-yarra-ranges";

/// The origin against which the paths of the directory are resolved.
pub const BASE_URL: &'static str = "https://australia-streets.openalfa.com";

/// The pattern of a region's anchor on the directory page.
pub const REGION_PATTERN: &'static str = ".columns > ul > li > a";

/// The pattern of a street's label on a region page.
pub const STREET_PATTERN: &'static str = ".street-columns > ul > li > label";

/// The attribute that holds an anchor's path.
pub const HREF: &'static str = "href";

/// The number of streets per region that the light variant of a run asks
/// about.
pub const STREETS_PER_REGION: usize = 5;

/// A region of the jurisdiction and the page that lists its streets.
#[derive(Clone, Debug, PartialEq, Eq)]
pub struct Region {
    pub name: String,
    pub source_url: String,
}

/// A [`Region`] as mathematical values.
pub struct RegionView {
    pub name: Seq<char>,
    pub source_url: Seq<char>,
}

impl DeepView for Region {
    type V = RegionView;

    open spec fn deep_view(&self) -> RegionView {
        RegionView { name: self.name@, source_url: self.source_url@ }
    }
}

/// The region that an anchor with text `name` and path `href` stands for.
pub open spec fn region_of_link(name: Seq<char>, href: Seq<char>) -> RegionView {
    RegionView { name, source_url: BASE_URL@ + href }
}

/// The regions that a list of anchors stands for, in the order of the
/// anchors; a failure where an anchor has no path.
pub open spec fn regions_of_links(links: Seq<(Seq<char>, Option<Seq<char>>)>) -> Result<
    Seq<RegionView>,
    PipelineErrorView,
> {
    if forall|i: int| 0 <= i < links.len() ==> (#[trigger] links[i]).1 is Some {
        Ok(Seq::new(links.len(), |i: int| region_of_link(links[i].0, links[i].1.unwrap())))
    } else {
        Err(PipelineErrorView::MissingAttribute)
    }
}

/// The outcome of reading the directory, given the status and the body of
/// its response.
pub open spec fn regions_in_response(status: u16, body: Seq<char>) -> Result<
    Seq<RegionView>,
    PipelineErrorView,
> {
    if !success_status(status) {
        Err(PipelineErrorView::Fetch { status })
    } else {
        match selected_links(body, REGION_PATTERN@, HREF@) {
            None => Err(PipelineErrorView::Pattern),
            Some(links) => regions_of_links(links),
        }
    }
}

/// The view of an executable list of regions or failure.
pub open spec fn regions_outcome(r: Result<Vec<Region>, PipelineError>) -> Result<
    Seq<RegionView>,
    PipelineErrorView,
> {
    match r {
        Ok(regions) => Ok(regions.deep_view()),
        Err(e) => Err(e@),
    }
}

/// Turns the anchors of the directory page, each with its text and its path,
/// into regions.
pub fn regions_from_links(links: &Vec<(String, Option<String>)>) -> (r: Result<
    Vec<Region>,
    PipelineError,
>)
    ensures
        regions_outcome(r) == regions_of_links(links.deep_view()),
{
    let ghost all = links.deep_view();
    let mut regions: Vec<Region> = Vec::new();
    let mut i: usize = 0;
    while i < links.len()
        invariant
            0 <= i <= links.len(),
            all == links.deep_view(),
            all.len() == links.len(),
            regions.len() == i,
            forall|k: int| 0 <= k < i ==> (#[trigger] all[k]).1 is Some,
            forall|k: int|
                0 <= k < i ==> (#[trigger] regions[k]).deep_view() == region_of_link(
                    all[k].0,
                    all[k].1.unwrap(),
                ),
        decreases links.len() - i,
    {
        assert(all[i as int] == links[i as int].deep_view());
        match &links[i].1 {
            None => {
                return Err(PipelineError::MissingAttribute);
            },
            Some(href) => {
                let name = links[i].0.clone();
                let source_url = String::from_str(BASE_URL).concat(href.as_str());
                regions.push(Region { name, source_url });
            },
        }
        i += 1;
    }
    assert(regions.deep_view() =~= Seq::new(
        all.len(),
        |i: int| region_of_link(all[i].0, all[i].1.unwrap()),
    ));
    Ok(regions)
}

/// Lists the regions that the response to the directory request names, in
/// the order of the page.
pub fn get_regions(response: &Response) -> (r: Result<Vec<Region>, PipelineError>)
    ensures
        regions_outcome(r) == regions_in_response(response.status, response.body@),
{
    if !is_success(response.status) {
        return Err(PipelineError::Fetch { status: response.status });
    }
    match select_links(response.body.as_str(), REGION_PATTERN, HREF) {
        None => Err(PipelineError::Pattern),
        Some(links) => regions_from_links(&links),
    }
}

/// The search string for the street `label` of the region `region`: both
/// joined by a space, in lowercase.
pub open spec fn search_of(label: Seq<char>, region: Seq<char>) -> Seq<char> {
    lowercase(label + seq![' '] + region)
}

/// How many of `count` streets a run asks about under the limit `cap`.
pub open spec fn capped(count: nat, cap: Option<usize>) -> nat {
    match cap {
        Some(limit) => if limit < count {
            limit as nat
        } else {
            count
        },
        None => count,
    }
}

/// The search strings for the street labels of a region, in the order of the
/// labels, for as many labels as the limit admits.
pub open spec fn searches_of_labels(
    labels: Seq<Seq<char>>,
    region: Seq<char>,
    cap: Option<usize>,
) -> Seq<Seq<char>> {
    Seq::new(capped(labels.len(), cap), |i: int| search_of(labels[i], region))
}

/// The outcome of reading a region page, given the status and the body of
/// its response.
pub open spec fn searches_in_response(
    region: Seq<char>,
    status: u16,
    body: Seq<char>,
    cap: Option<usize>,
) -> Result<Seq<Seq<char>>, PipelineErrorView> {
    if !success_status(status) {
        Err(PipelineErrorView::Fetch { status })
    } else {
        match selected_texts(body, STREET_PATTERN@) {
            None => Err(PipelineErrorView::Pattern),
            Some(labels) => Ok(searches_of_labels(labels, region, cap)),
        }
    }
}

/// The view of an executable list of search strings or failure.
pub open spec fn searches_outcome(r: Result<Vec<String>, PipelineError>) -> Result<
    Seq<Seq<char>>,
    PipelineErrorView,
> {
    match r {
        Ok(searches) => Ok(searches.deep_view()),
        Err(e) => Err(e@),
    }
}

/// Builds the search string for one street of a region.
pub fn address_search(label: &str, region: &str) -> (search: String)
    ensures
        search@ == search_of(label@, region@),
{
    let mut joined = String::from_str(label);
    joined.append(" ");
    joined.append(region);
    proof {
        reveal_strlit(" ");
        assert(" "@ =~= seq![' ']);
    }
    joined.as_str().to_lowercase()
}

/// Builds the search strings for the street labels of a region, at most
/// `cap` of them where a limit is given.
pub fn searches_from_labels(labels: &Vec<String>, region: &str, cap: Option<usize>) -> (searches:
    Vec<String>)
    ensures
        searches.deep_view() == searches_of_labels(labels.deep_view(), region@, cap),
{
    let ghost all = labels.deep_view();
    let count = match cap {
        Some(limit) => if limit < labels.len() {
            limit
        } else {
            labels.len()
        },
        None => labels.len(),
    };
    let mut searches: Vec<String> = Vec::new();
    let mut i: usize = 0;
    while i < count
        invariant
            0 <= i <= count <= labels.len(),
            all == labels.deep_view(),
            searches.len() == i,
            forall|k: int| 0 <= k < i ==> (#[trigger] searches[k])@ == search_of(all[k], region@),
        decreases count - i,
    {
        assert(all[i as int] == labels[i as int]@);
        searches.push(address_search(labels[i].as_str(), region));
        i += 1;
    }
    assert(searches.deep_view() =~= searches_of_labels(all, region@, cap));
    searches
}

/// Lists the search strings for the streets that the response to a region's
/// page request names, in the order of the page.
pub fn get_region_address_searches(region: &Region, response: &Response, cap: Option<usize>) -> (r:
    Result<Vec<String>, PipelineError>)
    ensures
        searches_outcome(r) == searches_in_response(
            region.name@,
            response.status,
            response.body@,
            cap,
        ),
{
    if !is_success(response.status) {
        return Err(PipelineError::Fetch { status: response.status });
    }
    match select_texts(response.body.as_str(), STREET_PATTERN) {
        None => Err(PipelineError::Pattern),
        Some(labels) => Ok(searches_from_labels(&labels, region.name.as_str(), cap)),
    }
}


/// The enumeration of streets over a list of regions, as a machine that says
/// which page to retrieve next and takes in what was retrieved.
///
/// The regions are worked through in order. `position` is the index of the
/// region whose page is awaited, and `searches` holds the search strings of
/// the regions before it.
#[derive(Debug)]
pub struct StreetSearch {
    pub regions: Vec<Region>,
    pub cap: Option<usize>,
    pub position: usize,
    pub searches: Vec<String>,
}

/// A [`StreetSearch`] as mathematical values.
pub struct StreetSearchView {
    pub regions: Seq<RegionView>,
    pub cap: Option<usize>,
    pub position: nat,
    pub searches: Seq<Seq<char>>,
}

impl DeepView for StreetSearch {
    type V = StreetSearchView;

    open spec fn deep_view(&self) -> StreetSearchView {
        StreetSearchView {
            regions: self.regions.deep_view(),
            cap: self.cap,
            position: self.position as nat,
            searches: self.searches.deep_view(),
        }
    }
}

impl StreetSearchView {
    /// An enumeration that has not begun.
    pub open spec fn start(regions: Seq<RegionView>, cap: Option<usize>) -> StreetSearchView {
        StreetSearchView { regions, cap, position: 0, searches: Seq::empty() }
    }

    /// Every region has been worked through.
    pub open spec fn done(self) -> bool {
        self.position >= self.regions.len()
    }

    /// The page that the enumeration waits for, if any.
    pub open spec fn request(self) -> Option<Seq<char>> {
        if self.done() {
            None
        } else {
            Some(self.regions[self.position as int].source_url)
        }
    }

    /// The enumeration after a failure: over, with nothing found.
    pub open spec fn aborted(self) -> StreetSearchView {
        StreetSearchView { position: self.regions.len(), searches: Seq::empty(), ..self }
    }

    /// The enumeration after the response with `status` and `body` to its
    /// request, or the failure that the response amounts to: the search
    /// strings of the current region follow those of the regions before it.
    /// An enumeration that is over stays as it is.
    pub open spec fn after(self, status: u16, body: Seq<char>) -> Result<
        StreetSearchView,
        PipelineErrorView,
    > {
        if self.done() {
            Ok(self)
        } else {
            match searches_in_response(
                self.regions[self.position as int].name,
                status,
                body,
                self.cap,
            ) {
                Err(e) => Err(e),
                Ok(found) => Ok(
                    StreetSearchView {
                        position: self.position + 1,
                        searches: self.searches + found,
                        ..self
                    },
                ),
            }
        }
    }
}

impl StreetSearchView {
    /// The regions that are still to be worked through.
    pub open spec fn remaining(self) -> Seq<RegionView> {
        if self.done() {
            Seq::empty()
        } else {
            self.regions.skip(self.position as int)
        }
    }

    /// The enumeration after a whole sequence of responses, each given as
    /// status and body and taken in by [`Self::after`] in turn; the first
    /// failure ends it.
    pub open spec fn after_all(self, responses: Seq<(u16, Seq<char>)>) -> Result<
        StreetSearchView,
        PipelineErrorView,
    >
        decreases responses.len(),
    {
        if responses.len() == 0 {
            Ok(self)
        } else {
            match self.after(responses.first().0, responses.first().1) {
                Err(e) => Err(e),
                Ok(next) => next.after_all(responses.drop_first()),
            }
        }
    }
}

/// The search strings that a sequence of responses yields for `regions`, one
/// response per region: those of the first region, then those of the second,
/// and so on, within a region in the order of its page. A failure in any
/// response is the outcome of the whole, and responses beyond the last
/// region count for nothing.
pub open spec fn searches_found(
    regions: Seq<RegionView>,
    cap: Option<usize>,
    responses: Seq<(u16, Seq<char>)>,
) -> Result<Seq<Seq<char>>, PipelineErrorView>
    decreases responses.len(),
{
    if regions.len() == 0 || responses.len() == 0 {
        Ok(Seq::empty())
    } else {
        match searches_in_response(
            regions.first().name,
            responses.first().0,
            responses.first().1,
            cap,
        ) {
            Err(e) => Err(e),
            Ok(found) => match searches_found(
                regions.drop_first(),
                cap,
                responses.drop_first(),
            ) {
                Err(e) => Err(e),
                Ok(rest) => Ok(found + rest),
            },
        }
    }
}

/// Over a whole sequence of responses an enumeration adds to its search
/// strings exactly those that the responses yield for the regions still to
/// be worked through, region by region, and fails exactly where one of the
/// responses that it takes in amounts to a failure.
pub proof fn lemma_enumeration_goes_by_region(
    search: StreetSearchView,
    responses: Seq<(u16, Seq<char>)>,
)
    ensures
        match search.after_all(responses) {
            Ok(end) => {
                &&& end.regions == search.regions
                &&& searches_found(search.remaining(), search.cap, responses) matches Ok(found)
                &&& end.searches == search.searches + found
            },
            Err(e) => searches_found(search.remaining(), search.cap, responses) == Err::<
                Seq<Seq<char>>,
                PipelineErrorView,
            >(e),
        },
    decreases responses.len(),
{
    if responses.len() == 0 {
        assert(search.searches + Seq::<Seq<char>>::empty() =~= search.searches);
    } else {
        let rest = responses.drop_first();
        match search.after(responses.first().0, responses.first().1) {
            Err(_) => {
                assert(search.remaining().first() == search.regions[search.position as int]);
            },
            Ok(next) => {
                lemma_enumeration_goes_by_region(next, rest);
                if search.done() {
                    assert(search.searches + Seq::<Seq<char>>::empty() =~= search.searches);
                } else {
                    assert(search.remaining().first() == search.regions[search.position as int]);
                    assert(search.remaining().drop_first() =~= next.remaining());
                    let found = searches_in_response(
                        search.regions[search.position as int].name,
                        responses.first().0,
                        responses.first().1,
                        search.cap,
                    )->Ok_0;
                    match next.after_all(rest) {
                        Ok(end) => {
                            let tail = searches_found(next.remaining(), next.cap, rest)->Ok_0;
                            assert(search.searches + (found + tail) =~= (search.searches + found)
                                + tail);
                        },
                        Err(_) => {},
                    }
                }
            },
        }
    }
}

/// An enumeration over `regions` that takes in `responses` from the start
/// ends with the search strings that the responses yield, region by region,
/// or in the failure that they amount to.
pub proof fn lemma_run_goes_by_region(
    regions: Seq<RegionView>,
    cap: Option<usize>,
    responses: Seq<(u16, Seq<char>)>,
)
    ensures
        match StreetSearchView::start(regions, cap).after_all(responses) {
            Ok(end) => Ok::<Seq<Seq<char>>, PipelineErrorView>(end.searches) == searches_found(
                regions,
                cap,
                responses,
            ),
            Err(e) => searches_found(regions, cap, responses) == Err::<
                Seq<Seq<char>>,
                PipelineErrorView,
            >(e),
        },
{
    let start = StreetSearchView::start(regions, cap);
    lemma_enumeration_goes_by_region(start, responses);
    assert(start.remaining() =~= regions);
    match start.after_all(responses) {
        Ok(end) => {
            let found = searches_found(regions, cap, responses)->Ok_0;
            assert(Seq::<Seq<char>>::empty() + found =~= found);
        },
        Err(_) => {},
    }
}

impl StreetSearch {
    /// Begins an enumeration over `regions` that asks about at most `cap`
    /// streets of each, where a limit is given.
    pub fn new(regions: Vec<Region>, cap: Option<usize>) -> (search: StreetSearch)
        ensures
            search.deep_view() == StreetSearchView::start(regions.deep_view(), cap),
    {
        let search = StreetSearch { regions, cap, position: 0, searches: Vec::new() };
        assert(search.searches.deep_view() =~= Seq::empty());
        search
    }

    /// Whether every region has been worked through.
    pub fn is_done(&self) -> (r: bool)
        ensures
            r == self.deep_view().done(),
    {
        self.position >= self.regions.len()
    }

    /// The URL of the page that has to be retrieved next, if any.
    pub fn request(&self) -> (r: Option<String>)
        ensures
            r.deep_view() == self.deep_view().request(),
    {
        if self.position >= self.regions.len() {
            None
        } else {
            assert(self.regions.deep_view()[self.position as int]
                == self.regions[self.position as int].deep_view());
            Some(self.regions[self.position].source_url.clone())
        }
    }

    /// Takes in the response to the last request and returns the URL of the
    /// next page, if any.
    ///
    /// On a failure the enumeration is over and holds no search strings.
    pub fn step(&mut self, response: &Response) -> (r: Result<Option<String>, PipelineError>)
        ensures
            match old(self).deep_view().after(response.status, response.body@) {
                Ok(next) => final(self).deep_view() == next && r is Ok
                    && r.unwrap().deep_view() == next.request(),
                Err(e) => final(self).deep_view() == old(self).deep_view().aborted() && r is Err
                    && r.unwrap_err()@ == e,
            },
    {
        if self.position >= self.regions.len() {
            return Ok(None);
        }
        assert(self.regions.deep_view()[self.position as int]
            == self.regions[self.position as int].deep_view());
        match get_region_address_searches(&self.regions[self.position], response, self.cap) {
            Err(e) => {
                self.position = self.regions.len();
                self.searches.clear();
                assert(self.searches.deep_view() =~= Seq::empty());
                Err(e)
            },
            Ok(mut found) => {
                let ghost before = self.searches.deep_view();
                let ghost added = found.deep_view();
                self.searches.append(&mut found);
                assert(self.searches.deep_view() =~= before + added);
                self.position = self.position + 1;
                Ok(self.request())
            },
        }
    }

    /// Ends the enumeration and hands out the search strings, region by
    /// region and within a region in the order of its page.
    pub fn into_searches(self) -> (searches: Vec<String>)
        ensures
            searches.deep_view() == self.deep_view().searches,
    {
        self.searches
    }
}

} // verus!
