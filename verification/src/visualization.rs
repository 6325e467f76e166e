//! What the map of a run shows: one point per result, coloured by pickup
//! date and labelled with it.

use vstd::prelude::*;
use crate::aggregate::{
    date_occurs,
    first_per_date,
    lemma_first_per_date_keeps_dates,
    lemma_first_per_date_is_distinct,
};
use crate::date::{LABEL_FORMAT, PickupDate, date_label, formatted_date};
use crate::record::ResultRecord;

verus! {

/// The number of colours that the map has.
pub const PALETTE_SIZE: usize = 9;

/// The colours of the map, in the order in which they are given out.
pub open spec fn palette() -> Seq<Seq<char>> {
    seq![
        "#ff0000"@,
        "#0000ff"@,
        "#ff00ff"@,
        "#880000"@,
        "#000088"@,
        "#880088"@,
        "#008888"@,
        "#008800"@,
        "#000000"@,
    ]
}

/// The colour at place `slot` of the palette.
pub fn palette_color(slot: usize) -> (color: &'static str)
    requires
        slot < PALETTE_SIZE,
    ensures
        color@ == palette()[slot as int],
{
    let colors: [&'static str; 9] = [
        "#ff0000",
        "#0000ff",
        "#ff00ff",
        "#880000",
        "#000088",
        "#880088",
        "#008888",
        "#008800",
        "#000000",
    ];
    colors[slot]
}

/// A point of the map: where it lies, its colour and its label.
///
/// The coordinates are bit patterns of double-precision numbers, as in an
/// address.
#[derive(Clone, Debug, PartialEq, Eq)]
pub struct MapPoint {
    pub lon_bits: u64,
    pub lat_bits: u64,
    pub color: String,
    pub label: String,
}

/// A [`MapPoint`] as mathematical values.
pub struct MapPointView {
    pub lon_bits: u64,
    pub lat_bits: u64,
    pub color: Seq<char>,
    pub label: Seq<char>,
}

impl DeepView for MapPoint {
    type V = MapPointView;

    open spec fn deep_view(&self) -> MapPointView {
        MapPointView {
            lon_bits: self.lon_bits,
            lat_bits: self.lat_bits,
            color: self.color@,
            label: self.label@,
        }
    }
}

/// Why a list of results has no map.
#[derive(Clone, Copy, Debug, PartialEq, Eq, Structural)]
pub enum MapError {
    /// The results hold more dates than the palette has colours.
    PaletteExhausted,
    /// A result carries a date that is no day of the calendar.
    NotADate,
}

/// The place of `date` among the dates of `s`, counted in the order in which
/// the dates first appear.
pub open spec fn date_rank(s: Seq<ResultRecord>, date: PickupDate) -> int {
    choose|k: int| 0 <= k < first_per_date(s).len() && #[trigger] first_per_date(s)[k].date == date
}

/// The point that stands for the record at index `i` of `s`.
pub open spec fn point_of(s: Seq<ResultRecord>, i: int) -> MapPointView {
    MapPointView {
        lon_bits: s[i].address.lon_bits,
        lat_bits: s[i].address.lat_bits,
        color: palette()[date_rank(s, s[i].date)],
        label: formatted_date(s[i].date, LABEL_FORMAT@).unwrap(),
    }
}

/// The points of the map of `s`, one per record and in the order of the
/// records. Each date has the colour that stands in the palette at the
/// date's rank, so that records of one date share a colour. There is no map
/// where the palette is too small for the dates, nor where a date cannot be
/// labelled.
pub open spec fn map_of(s: Seq<ResultRecord>) -> Result<Seq<MapPointView>, MapError> {
    if first_per_date(s).len() > PALETTE_SIZE {
        Err(MapError::PaletteExhausted)
    } else if exists|i: int|
        0 <= i < s.len() && formatted_date(#[trigger] s[i].date, LABEL_FORMAT@) is None {
        Err(MapError::NotADate)
    } else {
        Ok(Seq::new(s.len(), |i: int| point_of(s, i)))
    }
}

/// The view of an executable map or failure.
pub open spec fn map_outcome(r: Result<Vec<MapPoint>, MapError>) -> Result<
    Seq<MapPointView>,
    MapError,
> {
    match r {
        Ok(points) => Ok(points.deep_view()),
        Err(e) => Err(e),
    }
}

/// The index of the first occurrence of `date` in `dates`, or the length of
/// `dates` where it does not occur.
fn position_of(dates: &Vec<PickupDate>, date: &PickupDate) -> (k: usize)
    ensures
        k <= dates.len(),
        k < dates.len() ==> dates[k as int] == *date,
        forall|m: int| 0 <= m < k ==> dates[m] != *date,
{
    let mut k: usize = 0;
    while k < dates.len() && !dates[k].same_day(date)
        invariant
            0 <= k <= dates.len(),
            forall|m: int| 0 <= m < k ==> dates[m] != *date,
        decreases dates.len() - k,
    {
        k += 1;
    }
    k
}

/// The dates of the results in the order in which they first appear.
pub fn dates_in_order_seen(results: &Vec<ResultRecord>) -> (dates: Vec<PickupDate>)
    ensures
        dates.len() == first_per_date(results@).len(),
        forall|k: int| 0 <= k < dates.len() ==> dates[k] == #[trigger] first_per_date(results@)[k].date,
{
    let mut dates: Vec<PickupDate> = Vec::new();
    let mut i: usize = 0;
    assert(results@.take(0) =~= Seq::empty());
    while i < results.len()
        invariant
            0 <= i <= results.len(),
            dates.len() == first_per_date(results@.take(i as int)).len(),
            forall|k: int|
                0 <= k < dates.len() ==> dates[k] == #[trigger] first_per_date(
                    results@.take(i as int),
                )[k].date,
        decreases results.len() - i,
    {
        let ghost seen = results@.take(i as int);
        let ghost kept = first_per_date(seen);
        let date = results[i].date;
        let found = position_of(&dates, &date);
        proof {
            lemma_first_per_date_keeps_dates(seen, date);
            assert(results@.take(i + 1).drop_last() =~= seen);
            assert(results@.take(i + 1).last() == results@[i as int]);
            if found < dates.len() {
                assert(kept[found as int].date == date);
            } else if date_occurs(kept, date) {
                let k = choose|k: int| 0 <= k < kept.len() && #[trigger] kept[k].date == date;
                assert(dates[k] == date);
            }
        }
        if found == dates.len() {
            dates.push(date);
        }
        i += 1;
    }
    assert(results@.take(i as int) =~= results@);
    dates
}

/// Works out the points of the map for the results of a run. Results whose
/// dates are all days of the calendar never lack a label.
pub fn map_points(results: &Vec<ResultRecord>) -> (r: Result<Vec<MapPoint>, MapError>)
    ensures
        map_outcome(r) == map_of(results@),
        r == Err::<Vec<MapPoint>, MapError>(MapError::NotADate) ==> exists|i: int|
            0 <= i < results.len() && !(#[trigger] results[i]).date.is_calendar_date(),
{
    let ghost s = results@;
    let dates = dates_in_order_seen(results);
    if dates.len() > PALETTE_SIZE {
        return Err(MapError::PaletteExhausted);
    }
    let mut points: Vec<MapPoint> = Vec::new();
    let mut i: usize = 0;
    while i < results.len()
        invariant
            0 <= i <= results.len(),
            s == results@,
            dates.len() == first_per_date(s).len(),
            dates.len() <= PALETTE_SIZE,
            forall|k: int| 0 <= k < dates.len() ==> dates[k] == #[trigger] first_per_date(s)[k].date,
            points.len() == i,
            forall|k: int| 0 <= k < i ==> formatted_date(#[trigger] s[k].date, LABEL_FORMAT@) is Some,
            forall|k: int| 0 <= k < i ==> (#[trigger] points[k]).deep_view() == point_of(s, k),
        decreases results.len() - i,
    {
        let record = &results[i];
        let label = match date_label(record.date) {
            Some(label) => label,
            None => {
                return Err(MapError::NotADate);
            },
        };
        let slot = position_of(&dates, &record.date);
        proof {
            let kept = first_per_date(s);
            lemma_first_per_date_keeps_dates(s, record.date);
            lemma_first_per_date_is_distinct(s);
            assert(s[i as int].date == record.date);
            let rank = date_rank(s, record.date);
            assert(dates[rank] == record.date);
            assert(kept[slot as int].date == record.date);
            assert(0 <= rank < kept.len() && kept[rank].date == record.date);
            if rank != slot {
                if rank < slot {
                    assert(kept[rank].date != kept[slot as int].date);
                } else {
                    assert(kept[slot as int].date != kept[rank].date);
                }
            }
        }
        let color = palette_color(slot).to_owned();
        points.push(
            MapPoint {
                lon_bits: record.address.lon_bits,
                lat_bits: record.address.lat_bits,
                color,
                label,
            },
        );
        i += 1;
    }
    assert(points.deep_view() =~= Seq::new(s.len(), |i: int| point_of(s, i)));
    Ok(points)
}

} // verus!
