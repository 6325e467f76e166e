//! Reading the next pickup date out of a waste-schedule fragment.

use vstd::prelude::*;
use vstd::string::StringExecFns;
use crate::date::{PickupDate, first_parsed, parse_pickup_date, pickup_formats};
use crate::error::{JsonField, PipelineError, PipelineErrorView, SchemaFault};
use crate::response::{Response, is_success, success_status};
use crate::json::{Json, JsonValue, document_value, parse_json};
use crate::html::{select_articles, selected_articles};
use crate::text::{same_text, trimmed};

verus! {

/// The waste-schedule endpoint, up to the value of its `geolocationid`
/// parameter.
pub const SCHEDULE_ENDPOINT: &'static str =
    "https://www.yarraranges.vic.gov.au/ocapi/Public/myarea/wasteservices?ocsvclang=en-AU&pageLink=/Our-services/Waste/Find-your-waste-collection-and-burning-off-dates&geolocationid=";

/// The key of the HTML fragment in a schedule response.
pub const CONTENT_KEY: &'static str = "responseContent";

/// The heading of the waste category whose pickups are looked for.
pub const TARGET_CATEGORY: &'static str = "Hard waste, bundled branches and metals";

/// What the schedule says where no pickup is planned for an address.
pub const NOT_AVAILABLE: &'static str = "Not available at this address";

/// The pattern of a category block in a schedule fragment.
pub const ARTICLE_PATTERN: &'static str = "article";

/// The pattern of a block's heading.
pub const HEADING_PATTERN: &'static str = "h3";

/// The pattern of the element that holds a block's next pickup.
pub const NEXT_SERVICE_PATTERN: &'static str = ".next-service";

/// One category block of a schedule fragment: the texts of its headings and
/// of its next-service elements, each in document order.
#[derive(Clone, Debug, PartialEq, Eq)]
pub struct Article {
    pub headings: Vec<String>,
    pub services: Vec<String>,
}

/// An [`Article`] as mathematical values.
pub struct ArticleView {
    pub headings: Seq<Seq<char>>,
    pub services: Seq<Seq<char>>,
}

impl DeepView for Article {
    type V = ArticleView;

    open spec fn deep_view(&self) -> ArticleView {
        ArticleView { headings: self.headings.deep_view(), services: self.services.deep_view() }
    }
}

/// The outcome of looking for a pickup date: a date, the expected absence of
/// one, or a failure.
pub type PickupOutcome = Result<Option<PickupDate>, PipelineErrorView>;

/// The view of an executable outcome.
pub open spec fn pickup_outcome(r: Result<Option<PickupDate>, PipelineError>) -> PickupOutcome {
    match r {
        Ok(found) => Ok(found),
        Err(e) => Err(e@),
    }
}

/// What a pickup-date text means, given the date that was read from it or
/// that none was: the date; no pickup where the text is the notice that none
/// is available; a failure that carries the text otherwise.
pub open spec fn pickup_of_text(text: Seq<char>, parsed: Option<PickupDate>) -> PickupOutcome {
    match parsed {
        Some(date) => Ok(Some(date)),
        None => if text == NOT_AVAILABLE@ {
            Ok(None)
        } else {
            Err(PipelineErrorView::UnexpectedContent { text })
        },
    }
}

/// The block's first heading is the target category. A block without a
/// heading is of no category.
pub open spec fn of_target_category(article: ArticleView) -> bool {
    article.headings.len() > 0 && article.headings.first() == TARGET_CATEGORY@
}

/// The pickup date that a sequence of category blocks holds: the blocks are
/// read in order up to the first of the target category, and that block's
/// first next-service text, trimmed, is the pickup-date text. Blocks of
/// another category and blocks without a heading are passed over, and no
/// block of the target category means no pickup.
pub open spec fn pickup_in_articles(articles: Seq<ArticleView>) -> PickupOutcome
    decreases articles.len(),
{
    if articles.len() == 0 {
        Ok(None)
    } else if !of_target_category(articles.first()) {
        pickup_in_articles(articles.drop_first())
    } else if articles.first().services.len() == 0 {
        Err(PipelineErrorView::MissingElement)
    } else {
        let text = trimmed(articles.first().services.first());
        pickup_of_text(text, first_parsed(text, pickup_formats()))
    }
}

/// The pickup date that the schedule fragment `content` holds.
pub open spec fn pickup_in_content(content: Seq<char>) -> PickupOutcome {
    match selected_articles(content, ARTICLE_PATTERN@, HEADING_PATTERN@, NEXT_SERVICE_PATTERN@) {
        None => Err(PipelineErrorView::Pattern),
        Some(articles) => pickup_in_articles(articles),
    }
}

/// Decides what a pickup-date text means once the attempt to read a date
/// from it has been made: `parsed` is the date that was read, if any.
pub fn classify_pickup_text(text: &str, parsed: Option<PickupDate>) -> (r: Result<
    Option<PickupDate>,
    PipelineError,
>)
    ensures
        pickup_outcome(r) == pickup_of_text(text@, parsed),
{
    match parsed {
        Some(date) => Ok(Some(date)),
        None => {
            if same_text(text, NOT_AVAILABLE) {
                Ok(None)
            } else {
                Err(PipelineError::UnexpectedContent { text: text.to_owned() })
            }
        },
    }
}

/// Looks through category blocks for the target category and reads its next
/// pickup date.
pub fn find_date_in_articles(articles: &Vec<Article>) -> (r: Result<
    Option<PickupDate>,
    PipelineError,
>)
    ensures
        pickup_outcome(r) == pickup_in_articles(articles.deep_view()),
        r matches Ok(Some(date)) ==> date.is_calendar_date(),
{
    let ghost all = articles.deep_view();
    let mut i: usize = 0;
    assert(all.skip(0) =~= all);
    while i < articles.len()
        invariant
            0 <= i <= articles.len(),
            all == articles.deep_view(),
            all.len() == articles.len(),
            pickup_in_articles(all) == pickup_in_articles(all.skip(i as int)),
        decreases articles.len() - i,
    {
        let article = &articles[i];
        proof {
            assert(all.skip(i as int).first() == article.deep_view());
            assert(all.skip(i as int).drop_first() =~= all.skip(i + 1));
            assert(article.headings.deep_view().len() == article.headings.len());
            assert(article.services.deep_view().len() == article.services.len());
            if article.headings.len() > 0 {
                assert(article.headings.deep_view().first() == article.headings[0]@);
            }
        }
        if article.headings.len() > 0 && same_text(
            article.headings[0].as_str(),
            TARGET_CATEGORY,
        ) {
            if article.services.len() == 0 {
                return Err(PipelineError::MissingElement);
            }
            assert(article.services.deep_view().first() == article.services[0]@);
            let text = article.services[0].as_str().trim();
            let parsed = parse_pickup_date(text);
            return classify_pickup_text(text, parsed);
        }
        i += 1;
    }
    Ok(None::<PickupDate>)
}

/// Finds the next pickup date in the HTML fragment of a schedule response.
pub fn find_date_in_content(content: &str) -> (r: Result<Option<PickupDate>, PipelineError>)
    ensures
        pickup_outcome(r) == pickup_in_content(content@),
        r matches Ok(Some(date)) ==> date.is_calendar_date(),
{
    match select_articles(content, ARTICLE_PATTERN, HEADING_PATTERN, NEXT_SERVICE_PATTERN) {
        None => Err(PipelineError::Pattern),
        Some(articles) => find_date_in_articles(&articles),
    }
}


/// The URL of the schedule of the address with identifier `id`.
pub open spec fn schedule_url(id: Seq<char>) -> Seq<char> {
    SCHEDULE_ENDPOINT@ + id
}

/// Builds the URL of the schedule of the address with identifier `id`.
pub fn pickup_schedule_url(id: &str) -> (url: String)
    ensures
        url@ == schedule_url(id@),
{
    String::from_str(SCHEDULE_ENDPOINT).concat(id)
}

/// The pickup date that a schedule response holds: that of the fragment
/// under the content key. A response without that key, or with a value there
/// that is no string, is a failure.
pub open spec fn pickup_in_document(document: JsonValue) -> PickupOutcome {
    match document.member(CONTENT_KEY@) {
        None => Err(
            PipelineErrorView::Schema {
                field: JsonField::ResponseContent,
                fault: SchemaFault::Missing,
            },
        ),
        Some(content) => match content.text() {
            None => Err(
                PipelineErrorView::Schema {
                    field: JsonField::ResponseContent,
                    fault: SchemaFault::WrongType,
                },
            ),
            Some(fragment) => pickup_in_content(fragment),
        },
    }
}

/// The outcome of a schedule query, given the status and the body of its
/// response.
pub open spec fn pickup_in_response(status: u16, body: Seq<char>) -> PickupOutcome {
    if !success_status(status) {
        Err(PipelineErrorView::Fetch { status })
    } else {
        match document_value(body) {
            None => Err(
                PipelineErrorView::Schema {
                    field: JsonField::Document,
                    fault: SchemaFault::Malformed,
                },
            ),
            Some(document) => pickup_in_document(document),
        }
    }
}

/// Reads the next pickup date out of a schedule response that has been
/// parsed.
pub fn pickup_from_json(document: &Json) -> (r: Result<Option<PickupDate>, PipelineError>)
    ensures
        pickup_outcome(r) == pickup_in_document(document.deep_view()),
        r matches Ok(Some(date)) ==> date.is_calendar_date(),
{
    match document.get(CONTENT_KEY) {
        None => Err(
            PipelineError::Schema {
                field: JsonField::ResponseContent,
                fault: SchemaFault::Missing,
            },
        ),
        Some(content) => match content.as_str() {
            None => Err(
                PipelineError::Schema {
                    field: JsonField::ResponseContent,
                    fault: SchemaFault::WrongType,
                },
            ),
            Some(fragment) => find_date_in_content(fragment),
        },
    }
}

/// Finds the next pickup date in the response to a schedule query.
///
/// A status other than success is a fetch failure; a body that is not JSON
/// or lacks the fragment is a schema failure; a fragment without the target
/// category, or with the notice that no pickup is available, is no date.
pub fn get_pickup_date(response: &Response) -> (r: Result<Option<PickupDate>, PipelineError>)
    ensures
        pickup_outcome(r) == pickup_in_response(response.status, response.body@),
        r matches Ok(Some(date)) ==> date.is_calendar_date(),
{
    if !is_success(response.status) {
        return Err(PipelineError::Fetch { status: response.status });
    }
    match parse_json(response.body.as_str()) {
        None => Err(
            PipelineError::Schema { field: JsonField::Document, fault: SchemaFault::Malformed },
        ),
        Some(document) => pickup_from_json(&document),
    }
}

} // verus!
