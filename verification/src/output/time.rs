//! How timestamps are formatted.

use vstd::prelude::*;

verus! {

/// Every timestamp can be printed in one of these styles.
#[derive(PartialEq, Eq, Debug, Copy, Clone)]
pub enum TimeFormat {
    /// The **default format** uses the user's locale to print month names,
    /// and specifies the timestamp down to the minute for recent times, and
    /// day for older times.
    DefaultFormat,
    /// Use the **ISO format**, which specifies the timestamp down to the
    /// minute for recent times, and day for older times. It uses a number
    /// for the month so it doesn't use the locale.
    ISOFormat,
    /// Use the **long ISO format**, which specifies the timestamp down to the
    /// minute using only numbers, without needing the locale or year.
    LongISO,
    /// Use the **full ISO format**, which specifies the timestamp down to the
    /// millisecond and includes its offset down to the minute.
    FullISO,
}

} // verus!
