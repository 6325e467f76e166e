//! The facts that a run produces: resolved addresses and their pickup dates.

use vstd::prelude::*;
use crate::date::PickupDate;

verus! {

/// A canonical address as the council's search service reports it.
///
/// `id` is the service's own identifier and means something only to the
/// schedule service. The coordinates are kept as the bit patterns of the
/// IEEE 754 double-precision numbers that the service sent, so that they pass
/// through unchanged.
#[derive(Clone, Debug, PartialEq, Eq)]
pub struct Address {
    pub id: String,
    pub line: String,
    pub lat_bits: u64,
    pub lon_bits: u64,
}

/// What an [`Address`] holds, as mathematical values.
pub struct AddressView {
    pub id: Seq<char>,
    pub line: Seq<char>,
    pub lat_bits: u64,
    pub lon_bits: u64,
}

impl View for Address {
    type V = AddressView;

    open spec fn view(&self) -> AddressView {
        AddressView { id: self.id@, line: self.line@, lat_bits: self.lat_bits, lon_bits: self.lon_bits }
    }
}

impl DeepView for Address {
    type V = AddressView;

    open spec fn deep_view(&self) -> AddressView {
        self@
    }
}

/// One resolved address together with its next pickup date.
#[derive(Clone, Debug, PartialEq, Eq)]
pub struct ResultRecord {
    pub address: Address,
    pub date: PickupDate,
}

/// What a [`ResultRecord`] holds, as mathematical values.
pub struct ResultRecordView {
    pub address: AddressView,
    pub date: PickupDate,
}

impl View for ResultRecord {
    type V = ResultRecordView;

    open spec fn view(&self) -> ResultRecordView {
        ResultRecordView { address: self.address@, date: self.date }
    }
}

impl DeepView for ResultRecord {
    type V = ResultRecordView;

    open spec fn deep_view(&self) -> ResultRecordView {
        self@
    }
}

} // verus!
