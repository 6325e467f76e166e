use hard_waste::aggregate::remove_duplicate_dates;
use hard_waste::date::PickupDate;
use hard_waste::error::{JsonField, PipelineError, SchemaFault};
use hard_waste::response::Response;
use hard_waste::regions::{get_regions, StreetSearch};
use hard_waste::search::{DateSearch, Request};

const TARGET: &str = "Hard waste, bundled branches and metals";
const SEARCH: &str = "https://www.yarraranges.vic.gov.au/api/v1/myarea/search?keywords=";
const SCHEDULE: &str = "https://www.yarraranges.vic.gov.au/ocapi/Public/myarea/wasteservices?ocsvclang=en-AU&pageLink=/Our-services/Waste/Find-your-waste-collection-and-burning-off-dates&geolocationid=";

fn ok(body: &str) -> Response {
    Response { status: 200, body: body.to_string() }
}

fn found(id: &str, line: &str) -> Response {
    ok(&format!(
        r#"{{"Items":[{{"Id":"{}","AddressSingleLine":"{}","LatLon":[-37.8,145.3]}}]}}"#,
        id, line
    ))
}

fn no_match() -> Response {
    ok(r#"{"Items": []}"#)
}

fn schedule(service: &str) -> Response {
    let content = format!(
        "<article><h3>Rubbish</h3><div class=\"next-service\">Mon 14/07/2025</div></article>\
         <article><h3>{}</h3><div class=\"next-service\"> {} </div></article>",
        TARGET, service
    );
    let body = serde_json::Value::Object(
        [("responseContent".to_string(), serde_json::Value::String(content))].into_iter().collect(),
    );
    ok(&body.to_string())
}

fn address_request(search: &str) -> Request {
    Request::Address { url: format!("{}{}", SEARCH, search) }
}

fn schedule_request(id: &str) -> Request {
    Request::Schedule { url: format!("{}{}", SCHEDULE, id) }
}

#[test]
fn search_asks_for_address_then_schedule() {
    let mut search = DateSearch::new(vec!["a st emerald".to_string(), "b st emerald".to_string()]);
    assert_eq!(search.request(), address_request("a%20st%20emerald"));
    assert_eq!(search.step(&found("id-1", "1 A St")), Ok(schedule_request("id-1")));
    assert_eq!(search.pending.as_ref().map(|a| a.line.as_str()), Some("1 A St"));
    assert_eq!(search.step(&schedule("15 July 2025")), Ok(address_request("b%20st%20emerald")));
    assert_eq!(search.pending, None);
    assert_eq!(search.results.len(), 1);
    assert_eq!(search.step(&found("id-2", "2 B St")), Ok(schedule_request("id-2")));
    assert_eq!(search.step(&schedule("Tue 22/07/2025")), Ok(Request::Done));
    assert!(search.is_done());
    let results = search.into_results();
    assert_eq!(results.len(), 2);
    assert_eq!(results[0].address.id, "id-1");
    assert_eq!(results[0].date, PickupDate { year: 2025, month: 7, day: 15 });
    assert_eq!(results[1].address.id, "id-2");
    assert_eq!(results[1].date, PickupDate { year: 2025, month: 7, day: 22 });
}

#[test]
fn search_skips_what_is_not_found() {
    let mut search = DateSearch::new(vec!["a".to_string(), "b".to_string(), "c".to_string()]);
    assert_eq!(search.step(&no_match()), Ok(address_request("b")));
    assert_eq!(search.step(&found("id-b", "B")), Ok(schedule_request("id-b")));
    assert_eq!(search.step(&schedule("Not available at this address")), Ok(address_request("c")));
    assert_eq!(search.step(&no_match()), Ok(Request::Done));
    assert!(search.into_results().is_empty());
}

#[test]
fn search_ends_on_a_failure_with_nothing() {
    let mut search = DateSearch::new(vec!["a".to_string(), "b".to_string(), "c".to_string()]);
    assert!(search.step(&found("id-a", "A")).is_ok());
    assert!(search.step(&schedule("15 July 2025")).is_ok());
    assert_eq!(search.results.len(), 1);
    assert!(search.step(&found("id-b", "B")).is_ok());
    assert_eq!(
        search.step(&schedule("garbage text")),
        Err(PipelineError::UnexpectedContent { text: "garbage text".to_string() })
    );
    assert!(search.is_done());
    assert_eq!(search.request(), Request::Done);
    assert!(search.into_results().is_empty());
}

#[test]
fn search_fails_on_each_kind_of_bad_response() {
    let mut search = DateSearch::new(vec!["a".to_string()]);
    assert_eq!(
        search.step(&Response { status: 429, body: String::new() }),
        Err(PipelineError::Fetch { status: 429 })
    );
    let mut search = DateSearch::new(vec!["a".to_string()]);
    assert_eq!(
        search.step(&ok("{}")),
        Err(PipelineError::Schema { field: JsonField::Items, fault: SchemaFault::Missing })
    );
    let mut search = DateSearch::new(vec!["a".to_string()]);
    assert!(search.step(&found("id-a", "A")).is_ok());
    assert_eq!(
        search.step(&ok("{}")),
        Err(PipelineError::Schema { field: JsonField::ResponseContent, fault: SchemaFault::Missing })
    );
}

#[test]
fn search_over_nothing_is_over() {
    let mut search = DateSearch::new(Vec::new());
    assert!(search.is_done());
    assert_eq!(search.request(), Request::Done);
    assert_eq!(search.step(&no_match()), Ok(Request::Done));
    assert!(search.into_results().is_empty());
}

#[test]
fn search_that_is_over_takes_in_nothing_more() {
    let mut search = DateSearch::new(vec!["a".to_string()]);
    assert_eq!(search.step(&found("id-a", "A")), Ok(schedule_request("id-a")));
    assert_eq!(search.step(&schedule("15 July 2025")), Ok(Request::Done));
    assert_eq!(search.step(&Response { status: 500, body: String::new() }), Ok(Request::Done));
    assert_eq!(search.step(&found("id-z", "Z")), Ok(Request::Done));
    assert_eq!(search.into_results().len(), 1);
}

#[test]
fn two_regions_of_two_streets_end_in_one_record() {
    let directory = ok(
        "<div class=\"columns\"><ul>\
         <li><a href=\"/emerald\">Emerald</a></li>\
         <li><a href=\"/olinda\">Olinda</a></li></ul></div>",
    );
    let regions = get_regions(&directory).unwrap();
    assert_eq!(regions.len(), 2);

    let mut streets = StreetSearch::new(regions, Some(5));
    let page = |a: &str, b: &str| {
        ok(&format!(
            "<div class=\"street-columns\"><ul><li><label>{}</label></li><li><label>{}</label></li></ul></div>",
            a, b
        ))
    };
    assert_eq!(streets.request(), Some("https://australia-streets.openalfa.com/emerald".to_string()));
    assert!(streets.step(&page("Main Street", "High Street")).is_ok());
    assert_eq!(streets.step(&page("Ridge Road", "Falls Road")), Ok(None));
    let searches = streets.into_searches();
    assert_eq!(
        searches,
        vec!["main street emerald", "high street emerald", "ridge road olinda", "falls road olinda"]
    );

    let mut search = DateSearch::new(searches);
    assert_eq!(search.request(), address_request("main%20street%20emerald"));
    // first search: no address
    assert_eq!(search.step(&no_match()), Ok(address_request("high%20street%20emerald")));
    // second: address and date
    assert_eq!(search.step(&found("id-high", "1 High Street Emerald")), Ok(schedule_request("id-high")));
    assert_eq!(search.step(&schedule("15 July 2025")), Ok(address_request("ridge%20road%20olinda")));
    // third: address, no pickup planned
    assert_eq!(search.step(&found("id-ridge", "2 Ridge Road Olinda")), Ok(schedule_request("id-ridge")));
    assert_eq!(
        search.step(&schedule("Not available at this address")),
        Ok(address_request("falls%20road%20olinda"))
    );
    // fourth: address and the same date, written in the other format
    assert_eq!(search.step(&found("id-falls", "3 Falls Road Olinda")), Ok(schedule_request("id-falls")));
    assert_eq!(search.step(&schedule("Tue 15/07/2025")), Ok(Request::Done));

    let mut results = search.into_results();
    assert_eq!(results.len(), 2);
    remove_duplicate_dates(&mut results);
    assert_eq!(results.len(), 1);
    assert_eq!(results[0].address.id, "id-high");
    assert_eq!(results[0].address.line, "1 High Street Emerald");
    assert_eq!(results[0].date, PickupDate { year: 2025, month: 7, day: 15 });
}
