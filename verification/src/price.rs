use vstd::prelude::*;

verus! {

/// Where the closing price of a block comes from: the prices already
/// stored, or the exchanges' one-minute candles, looked up by the start of
/// the block's minute.
#[derive(Debug, Clone, Copy, PartialEq, Eq, Structural)]
pub enum HeightPriceSource {
    Stored,
    Fetch { minute_timestamp: u32 },
}

/// The start of the UTC minute that contains `timestamp`.
pub fn minute_timestamp(timestamp: u32) -> (start: u32)
    ensures
        start == timestamp - timestamp % 60,
        start % 60 == 0,
        start <= timestamp < start + 60,
{
    timestamp - timestamp % 60
}

/// Where to take the price of the block at `height` from, when
/// `stored_count` prices are held: every stored price but the last is
/// reused; the last one, and any later block, is fetched again for the
/// block's minute.
pub fn height_price_source(height: usize, stored_count: usize, timestamp: u32) -> (source:
    HeightPriceSource)
    requires
        stored_count >= 1,
    ensures
        source == (if height < stored_count - 1 {
            HeightPriceSource::Stored
        } else {
            HeightPriceSource::Fetch { minute_timestamp: (timestamp - timestamp % 60) as u32 }
        }),
{
    if height < stored_count - 1 {
        HeightPriceSource::Stored
    } else {
        HeightPriceSource::Fetch { minute_timestamp: minute_timestamp(timestamp) }
    }
}

} // verus!
