use vstd::prelude::*;

verus! {

// Days are counted as chrono counts them from the common era: 0001-01-01 is
// day 1.

/// First day of the historical sync: 2011-01-01.
pub const SYNC_START_DAY: i32 = 734138;

/// End of the historical sync, excluded: 2025-04-01.
pub const SYNC_END_DAY: i32 = 739342;

/// Windows starting before this day (2015-01-01) span `COARSE_SPAN` days;
/// later ones span one day.
pub const THRESHOLD_DAY: i32 = 735599;

/// Span in days of a window that starts before `THRESHOLD_DAY`.
pub const COARSE_SPAN: i32 = 60;

/// A half-open range of days `[start_day, end_day)` that one search sync
/// covers.
#[derive(Clone, Copy, Debug, PartialEq, Eq, Structural)]
pub struct SyncWindow {
    pub start_day: i32,
    pub end_day: i32,
}

/// Span in days of the window that starts on `start`.
pub open spec fn window_span(start: int) -> int {
    if start < THRESHOLD_DAY {
        COARSE_SPAN as int
    } else {
        1
    }
}

/// Start of the window that follows the one starting on `start`.
pub fn next_window_start(start: i32) -> (r: i32)
    requires
        start <= i32::MAX - COARSE_SPAN,
    ensures
        r == start + window_span(start as int),
{
    if start < THRESHOLD_DAY {
        start + COARSE_SPAN
    } else {
        start + 1
    }
}

/// The windows of a full run: they start on `SYNC_START_DAY`, follow one
/// another with no gap or overlap, each spans `window_span` of its start, and
/// the last one ends on `SYNC_END_DAY`.
pub open spec fn full_run(r: Seq<SyncWindow>) -> bool {
    &&& r.len() > 0
    &&& r[0].start_day == SYNC_START_DAY
    &&& forall|i: int|
        0 <= i < r.len() ==> #[trigger] r[i].end_day == r[i].start_day + window_span(
            r[i].start_day as int,
        )
    &&& forall|i: int| 0 <= i < r.len() - 1 ==> #[trigger] r[i + 1].start_day == r[i].end_day
    &&& r.last().end_day == SYNC_END_DAY
}

/// The partition of the historical range `[SYNC_START_DAY, SYNC_END_DAY)`
/// into sync windows; no window ends after `SYNC_END_DAY`.
pub fn plan_windows() -> (r: Vec<SyncWindow>)
    ensures
        full_run(r@),
        forall|i: int| 0 <= i < r@.len() ==> #[trigger] r@[i].end_day <= SYNC_END_DAY,
{
    let mut r: Vec<SyncWindow> = Vec::new();
    let mut day: i32 = SYNC_START_DAY;
    while day < SYNC_END_DAY
        invariant
            SYNC_START_DAY <= day <= SYNC_END_DAY,
            r@.len() == 0 ==> day == SYNC_START_DAY,
            r@.len() > 0 ==> r@[0].start_day == SYNC_START_DAY,
            r@.len() > 0 ==> r@.last().end_day == day,
            forall|i: int|
                0 <= i < r@.len() ==> #[trigger] r@[i].end_day == r@[i].start_day + window_span(
                    r@[i].start_day as int,
                ),
            forall|i: int| 0 <= i < r@.len() - 1 ==> #[trigger] r@[i + 1].start_day == r@[i].end_day,
            forall|i: int| 0 <= i < r@.len() ==> #[trigger] r@[i].end_day <= day,
        decreases SYNC_END_DAY - day,
    {
        let next = next_window_start(day);
        r.push(SyncWindow { start_day: day, end_day: next });
        day = next;
    }
    r
}

/// First day of year 1 in chrono's numbering.
pub const FIRST_FOUR_DIGIT_DAY: i32 = 1;

/// Last day of year 9999 in chrono's numbering.
pub const LAST_FOUR_DIGIT_DAY: i32 = 3652059;

/// The `YYYY-MM-DD` text of a day number.
pub uninterp spec fn iso_date_of(day: int) -> Seq<char>;

/// Relies on chrono's `NaiveDate::from_num_days_from_ce_opt`, which gives no
/// date only for a day number out of chrono's range (far wider than years 1
/// to 9999), and on the `%Y-%m-%d` format of the date, which pads the year to
/// four digits for years 0 to 9999: the text depends on the day number alone.
#[verifier::external_body]
fn iso_date(day: i32) -> (r: Option<String>)
    ensures
        r matches Some(s) ==> s@ == iso_date_of(day as int),
        FIRST_FOUR_DIGIT_DAY <= day <= LAST_FOUR_DIGIT_DAY ==> r is Some,
        r matches Some(s) ==> (FIRST_FOUR_DIGIT_DAY <= day <= LAST_FOUR_DIGIT_DAY ==> s@.len() == 10),
{
    match chrono::NaiveDate::from_num_days_from_ce_opt(day) {
        Some(d) => Some(d.format("%Y-%m-%d").to_string()),
        None => None,
    }
}

impl SyncWindow {
    /// The window's bounds as `YYYY-MM-DD` text, start then end, as the
    /// search query and the progress records write them.
    pub fn dates(&self) -> (r: Option<(String, String)>)
        ensures
            r matches Some((a, b)) ==> a@ == iso_date_of(self.start_day as int) && b@
                == iso_date_of(self.end_day as int),
            FIRST_FOUR_DIGIT_DAY <= self.start_day <= LAST_FOUR_DIGIT_DAY && FIRST_FOUR_DIGIT_DAY
                <= self.end_day <= LAST_FOUR_DIGIT_DAY ==> (r matches Some((a, b)) && a@.len()
                == 10 && b@.len() == 10),
    {
        match iso_date(self.start_day) {
            Some(a) => match iso_date(self.end_day) {
                Some(b) => Some((a, b)),
                None => None,
            },
            None => None,
        }
    }
}

} // verus!
