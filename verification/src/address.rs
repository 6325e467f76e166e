//! Resolution of a search string to a canonical address.

use vstd::prelude::*;
use vstd::string::StringExecFns;
use crate::error::{JsonField, PipelineError, PipelineErrorView, SchemaFault};
use crate::response::{Response, is_success, success_status};
use crate::json::{Json, JsonValue, document_value, parse_json};
use crate::record::{Address, AddressView};
use crate::text::{append_space_encoded, space_encoded};

verus! {

/// The address-search endpoint, up to the value of its `keywords` parameter.
pub const SEARCH_ENDPOINT: &'static str =
    "https://www.yarraranges.vic.gov.au/api/v1/myarea/search?keywords=";

/// The key of the list of matches in a search response.
pub const ITEMS_KEY: &'static str = "Items";

/// The key of a match's identifier.
pub const ID_KEY: &'static str = "Id";

/// The key of a match's display line.
pub const LINE_KEY: &'static str = "AddressSingleLine";

/// The key of a match's coordinates: latitude, then longitude.
pub const LAT_LON_KEY: &'static str = "LatLon";

/// The URL that searches for `search`: the endpoint followed by the search
/// string with its spaces encoded.
pub open spec fn search_url(search: Seq<char>) -> Seq<char> {
    SEARCH_ENDPOINT@ + space_encoded(search)
}

/// Builds the URL of the address search for `search`.
pub fn address_search_url(search: &str) -> (url: String)
    ensures
        url@ == search_url(search@),
{
    let mut url = String::from_str(SEARCH_ENDPOINT);
    append_space_encoded(&mut url, search);
    url
}

/// The outcome of a resolution: an address, the expected absence of a match,
/// or a failure.
pub type AddressOutcome = Result<Option<AddressView>, PipelineErrorView>;

/// The view of an executable outcome.
pub open spec fn address_outcome(r: Result<Option<Address>, PipelineError>) -> AddressOutcome {
    match r {
        Ok(Some(address)) => Ok(Some(address@)),
        Ok(None) => Ok(None),
        Err(e) => Err(e@),
    }
}

/// The failure that names `field` and `fault`.
pub open spec fn schema_failure(field: JsonField, fault: SchemaFault) -> PipelineErrorView {
    PipelineErrorView::Schema { field, fault }
}

/// The string that `value` holds under `key`; a failure naming `field`
/// where the key is absent or its value is no string.
pub open spec fn text_member(value: JsonValue, key: Seq<char>, field: JsonField) -> Result<
    Seq<char>,
    PipelineErrorView,
> {
    match value.member(key) {
        None => Err(schema_failure(field, SchemaFault::Missing)),
        Some(member) => match member.text() {
            None => Err(schema_failure(field, SchemaFault::WrongType)),
            Some(text) => Ok(text),
        },
    }
}

/// The number at `index` of the coordinates `pair`; a failure where there is
/// no such item or it is no number.
pub open spec fn coordinate(pair: JsonValue, index: int) -> Result<u64, PipelineErrorView> {
    match pair.item(index) {
        None => Err(schema_failure(JsonField::LatLon, SchemaFault::MissingItem)),
        Some(item) => match item.number_bits() {
            None => Err(schema_failure(JsonField::LatLon, SchemaFault::WrongType)),
            Some(bits) => Ok(bits),
        },
    }
}

/// Latitude and longitude of the match `found`; a failure where the key is
/// absent, its value is no array, or one of the first two items is absent or
/// no number.
pub open spec fn coordinates(found: JsonValue) -> Result<(u64, u64), PipelineErrorView> {
    match found.member(LAT_LON_KEY@) {
        None => Err(schema_failure(JsonField::LatLon, SchemaFault::Missing)),
        Some(pair) => if !(pair is Array) {
            Err(schema_failure(JsonField::LatLon, SchemaFault::WrongType))
        } else {
            match coordinate(pair, 0) {
                Err(e) => Err(e),
                Ok(lat) => match coordinate(pair, 1) {
                    Err(e) => Err(e),
                    Ok(lon) => Ok((lat, lon)),
                },
            }
        },
    }
}

/// The address that the match `found` describes. Identifier, display line
/// and coordinates are read in this order, and the first that cannot be read
/// decides the failure.
pub open spec fn address_of_match(found: JsonValue) -> Result<AddressView, PipelineErrorView> {
    match text_member(found, ID_KEY@, JsonField::Id) {
        Err(e) => Err(e),
        Ok(id) => match text_member(found, LINE_KEY@, JsonField::AddressSingleLine) {
            Err(e) => Err(e),
            Ok(line) => match coordinates(found) {
                Err(e) => Err(e),
                Ok((lat_bits, lon_bits)) => Ok(AddressView { id, line, lat_bits, lon_bits }),
            },
        },
    }
}

/// The address that a search response holds: that of the first match. No
/// match is no address; a response without an array of matches is a failure.
pub open spec fn address_in_document(document: JsonValue) -> AddressOutcome {
    match document.member(ITEMS_KEY@) {
        None => Err(schema_failure(JsonField::Items, SchemaFault::Missing)),
        Some(items) => if !(items is Array) {
            Err(schema_failure(JsonField::Items, SchemaFault::WrongType))
        } else {
            match items.item(0) {
                None => Ok(None),
                Some(found) => match address_of_match(found) {
                    Err(e) => Err(e),
                    Ok(address) => Ok(Some(address)),
                },
            }
        },
    }
}

/// The address that the body of a search response holds.
pub open spec fn address_in_body(body: Seq<char>) -> AddressOutcome {
    match document_value(body) {
        None => Err(schema_failure(JsonField::Document, SchemaFault::Malformed)),
        Some(document) => address_in_document(document),
    }
}

/// The outcome of a search, given the status and the body of its response.
pub open spec fn address_in_response(status: u16, body: Seq<char>) -> AddressOutcome {
    if success_status(status) {
        address_in_body(body)
    } else {
        Err(PipelineErrorView::Fetch { status })
    }
}

/// Reads the string under `key`.
fn read_text_member(value: &Json, key: &str, field: JsonField) -> (r: Result<String, PipelineError>)
    ensures
        match r {
            Ok(text) => text_member(value.deep_view(), key@, field) == Ok::<
                Seq<char>,
                PipelineErrorView,
            >(text@),
            Err(e) => text_member(value.deep_view(), key@, field) == Err::<
                Seq<char>,
                PipelineErrorView,
            >(e@),
        },
{
    match value.get(key) {
        None => Err(PipelineError::Schema { field, fault: SchemaFault::Missing }),
        Some(member) => match member.as_str() {
            None => Err(PipelineError::Schema { field, fault: SchemaFault::WrongType }),
            Some(text) => Ok(text.to_owned()),
        },
    }
}

/// Reads the number at `index` of a pair of coordinates.
fn read_coordinate(pair: &Json, index: usize) -> (r: Result<u64, PipelineError>)
    ensures
        match r {
            Ok(bits) => coordinate(pair.deep_view(), index as int) == Ok::<u64, PipelineErrorView>(
                bits,
            ),
            Err(e) => coordinate(pair.deep_view(), index as int) == Err::<u64, PipelineErrorView>(
                e@,
            ),
        },
{
    match pair.at(index) {
        None => Err(
            PipelineError::Schema { field: JsonField::LatLon, fault: SchemaFault::MissingItem },
        ),
        Some(item) => match item.as_number_bits() {
            None => Err(
                PipelineError::Schema { field: JsonField::LatLon, fault: SchemaFault::WrongType },
            ),
            Some(bits) => Ok(bits),
        },
    }
}

/// Reads latitude and longitude of a match.
fn read_coordinates(found: &Json) -> (r: Result<(u64, u64), PipelineError>)
    ensures
        match r {
            Ok(pair) => coordinates(found.deep_view()) == Ok::<(u64, u64), PipelineErrorView>(pair),
            Err(e) => coordinates(found.deep_view()) == Err::<(u64, u64), PipelineErrorView>(e@),
        },
{
    match found.get(LAT_LON_KEY) {
        None => Err(
            PipelineError::Schema { field: JsonField::LatLon, fault: SchemaFault::Missing },
        ),
        Some(pair) => {
            if !pair.is_array() {
                return Err(
                    PipelineError::Schema {
                        field: JsonField::LatLon,
                        fault: SchemaFault::WrongType,
                    },
                );
            }
            let lat = match read_coordinate(pair, 0) {
                Ok(lat) => lat,
                Err(e) => { return Err(e); },
            };
            let lon = match read_coordinate(pair, 1) {
                Ok(lon) => lon,
                Err(e) => { return Err(e); },
            };
            Ok((lat, lon))
        },
    }
}

/// Reads the address that one match of a search describes.
pub fn address_from_match(found: &Json) -> (r: Result<Address, PipelineError>)
    ensures
        match r {
            Ok(address) => address_of_match(found.deep_view()) == Ok::<
                AddressView,
                PipelineErrorView,
            >(address@),
            Err(e) => address_of_match(found.deep_view()) == Err::<AddressView, PipelineErrorView>(
                e@,
            ),
        },
{
    let id = match read_text_member(found, ID_KEY, JsonField::Id) {
        Ok(id) => id,
        Err(e) => { return Err(e); },
    };
    let line = match read_text_member(found, LINE_KEY, JsonField::AddressSingleLine) {
        Ok(line) => line,
        Err(e) => { return Err(e); },
    };
    let (lat_bits, lon_bits) = match read_coordinates(found) {
        Ok(pair) => pair,
        Err(e) => { return Err(e); },
    };
    Ok(Address { id, line, lat_bits, lon_bits })
}

/// Reads the address of the first match out of a search response that has
/// been parsed.
pub fn address_from_json(document: &Json) -> (r: Result<Option<Address>, PipelineError>)
    ensures
        address_outcome(r) == address_in_document(document.deep_view()),
{
    match document.get(ITEMS_KEY) {
        None => Err(PipelineError::Schema { field: JsonField::Items, fault: SchemaFault::Missing }),
        Some(items) => {
            if !items.is_array() {
                return Err(
                    PipelineError::Schema {
                        field: JsonField::Items,
                        fault: SchemaFault::WrongType,
                    },
                );
            }
            match items.at(0) {
                None => Ok(None),
                Some(found) => match address_from_match(found) {
                    Ok(address) => Ok(Some(address)),
                    Err(e) => Err(e),
                },
            }
        },
    }
}

/// Resolves an address from the response to an address search.
///
/// A status other than success is a fetch failure; a body that is not JSON
/// or lacks what has to be read is a schema failure; an empty list of matches
/// is no address.
pub fn get_address_id(response: &Response) -> (r: Result<Option<Address>, PipelineError>)
    ensures
        address_outcome(r) == address_in_response(response.status, response.body@),
{
    if !is_success(response.status) {
        return Err(PipelineError::Fetch { status: response.status });
    }
    match parse_json(response.body.as_str()) {
        None => Err(
            PipelineError::Schema { field: JsonField::Document, fault: SchemaFault::Malformed },
        ),
        Some(document) => address_from_json(&document),
    }
}

} // verus!
