//! Shape checks of columnar OHLCV market data.
use vstd::prelude::*;

verus! {

#[derive(Debug, Clone, PartialEq)]
pub enum DataError {
    Empty,
    LengthMismatch { field: &'static str, expected: usize, actual: usize },
    NonFinite { field: &'static str, index: usize },
    InvalidOhlc { index: usize },
}

/// Index of the first column whose length differs from `expected`, if any.
pub open spec fn first_mismatch(expected: usize, columns: Seq<(&'static str, usize)>, from: int) -> Option<int>
    decreases columns.len() - from,
{
    if from < 0 || from >= columns.len() {
        None
    } else if columns[from].1 != expected {
        Some(from)
    } else {
        first_mismatch(expected, columns, from + 1)
    }
}

/// The column `first_mismatch` reports from `from` on is the first column at
/// or after `from` whose length is not `expected`; it reports none exactly
/// when every such column has the expected length.
pub proof fn first_mismatch_is_first_wrong_column(expected: usize, columns: Seq<(&'static str, usize)>, from: int)
    requires
        0 <= from,
    ensures
        first_mismatch(expected, columns, from) matches Some(k) ==> from <= k < columns.len() && columns[k].1
            != expected && forall|j: int| from <= j < k ==> #[trigger] columns[j].1 == expected,
        first_mismatch(expected, columns, from) is None <==> forall|j: int|
            from <= j < columns.len() ==> #[trigger] columns[j].1 == expected,
    decreases columns.len() - from,
{
    if from < columns.len() && columns[from].1 == expected {
        first_mismatch_is_first_wrong_column(expected, columns, from + 1);
    }
}

/// Each named column must hold `expected` values; the first one that does not
/// is reported with its length.
pub fn check_lengths(expected: usize, columns: &[(&'static str, usize)]) -> (r: Result<(), DataError>)
    ensures
        match first_mismatch(expected, columns@, 0) {
            None => r == Ok::<(), DataError>(()),
            Some(k) => r == Err::<(), DataError>(
                DataError::LengthMismatch { field: columns@[k].0, expected, actual: columns@[k].1 },
            ),
        },
{
    let mut i: usize = 0;
    while i < columns.len()
        invariant
            0 <= i <= columns@.len(),
            first_mismatch(expected, columns@, 0) == first_mismatch(expected, columns@, i as int),
        decreases columns@.len() - i,
    {
        let (field, len) = columns[i];
        if len != expected {
            return Err(DataError::LengthMismatch { field, expected, actual: len });
        }
        i += 1;
    }
    Ok(())
}

/// The OHLCV columns of one data set: `open` fixes the bar count, which must
/// be positive; then timestamp, high, low, close and volume must match it, in
/// that order.
pub fn check_ohlcv_shape(
    open_len: usize,
    timestamp_len: usize,
    high_len: usize,
    low_len: usize,
    close_len: usize,
    volume_len: usize,
) -> (r: Result<(), DataError>)
    ensures
        open_len == 0 ==> r == Err::<(), DataError>(DataError::Empty),
        open_len != 0 ==> r == (if timestamp_len != open_len {
            Err(DataError::LengthMismatch { field: "timestamp", expected: open_len, actual: timestamp_len })
        } else if high_len != open_len {
            Err(DataError::LengthMismatch { field: "high", expected: open_len, actual: high_len })
        } else if low_len != open_len {
            Err(DataError::LengthMismatch { field: "low", expected: open_len, actual: low_len })
        } else if close_len != open_len {
            Err(DataError::LengthMismatch { field: "close", expected: open_len, actual: close_len })
        } else if volume_len != open_len {
            Err(DataError::LengthMismatch { field: "volume", expected: open_len, actual: volume_len })
        } else {
            Ok(())
        }),
{
    if open_len == 0 {
        return Err(DataError::Empty);
    }
    let columns = [
        ("timestamp", timestamp_len),
        ("high", high_len),
        ("low", low_len),
        ("close", close_len),
        ("volume", volume_len),
    ];
    let cols: &[(&'static str, usize)] = &columns;
    assert(cols@.len() == 5);
    assert(cols@[0] == ("timestamp", timestamp_len));
    assert(cols@[1] == ("high", high_len));
    assert(cols@[2] == ("low", low_len));
    assert(cols@[3] == ("close", close_len));
    assert(cols@[4] == ("volume", volume_len));
    let ghost c = cols@;
    assert(first_mismatch(open_len, c, 5) == None::<int>);
    assert(first_mismatch(open_len, c, 4) == if volume_len != open_len { Some(4int) } else { None });
    assert(first_mismatch(open_len, c, 3) == if close_len != open_len { Some(3int) } else {
        first_mismatch(open_len, c, 4)
    });
    assert(first_mismatch(open_len, c, 2) == if low_len != open_len { Some(2int) } else {
        first_mismatch(open_len, c, 3)
    });
    assert(first_mismatch(open_len, c, 1) == if high_len != open_len { Some(1int) } else {
        first_mismatch(open_len, c, 2)
    });
    assert(first_mismatch(open_len, c, 0) == if timestamp_len != open_len { Some(0int) } else {
        first_mismatch(open_len, c, 1)
    });
    check_lengths(open_len, cols)
}


/// Number of bars a causal prefix ending at `end` keeps: `end` cut to the
/// data length, and at least one bar.
pub fn prefix_end(end: usize, len: usize) -> (r: usize)
    ensures
        r == (if end <= len { if end >= 1 { end } else { 1 } } else { if len >= 1 { len } else { 1 } }),
{
    let capped = if end <= len { end } else { len };
    if capped >= 1 { capped } else { 1 }
}

} // verus!
