use vstd::prelude::*;
use vstd::string::StringSliceAdditionalSpecFns;
use crate::calendar::CalendarDate;
use crate::clock::TimeOfDay;
use crate::error::DecodeError;
use crate::record::{fix_of, header_of, line_of, parse_line, FixRecord, HeaderType, LatLng, RecordType};

verus! {

/// A fix together with the day of the flight: one point of the track.
#[derive(Debug, Clone, Copy, PartialEq, Eq)]
pub struct TrackPoint {
    pub date: CalendarDate,
    pub time: TimeOfDay,
    pub pos: LatLng,
    pub alt_baro: i32,
    pub alt_gps: i32,
}

/// What one line does to a conversion: the flight date that holds after it,
/// and the track point that it adds, if it adds one.
#[derive(Debug, Clone, Copy, PartialEq, Eq)]
pub struct Step {
    pub date: Option<CalendarDate>,
    pub point: Option<TrackPoint>,
}

/// The fix `fix` as a point of the track of the day `date`.
pub open spec fn point_of(date: CalendarDate, fix: FixRecord) -> TrackPoint {
    TrackPoint {
        date,
        time: fix.timestamp,
        pos: fix.pos,
        alt_baro: fix.alt_baro,
        alt_gps: fix.alt_gps,
    }
}

/// What a decoded line does when the flight date before it is `date`. A date
/// header sets the flight date, replacing an earlier one. A fix takes its day
/// from the flight date and is refused where there is none yet. Every other
/// line changes nothing.
pub open spec fn step_of(date: Option<CalendarDate>, record: RecordType) -> Result<
    Step,
    DecodeError,
> {
    match record {
        RecordType::Header(HeaderType::Date(day)) => Ok(Step { date: Some(day), point: None }),
        RecordType::Header(HeaderType::Other) => Ok(Step { date, point: None }),
        RecordType::Other => Ok(Step { date, point: None }),
        RecordType::FixRecord(fix) => match date {
            Some(day) => Ok(Step { date, point: Some(point_of(day, fix)) }),
            None => Err(DecodeError::MissingDate),
        },
    }
}

/// What a line of the log does when the flight date before it is `date`: it is
/// decoded, and then does what the decoded line does.
pub open spec fn line_step_of(date: Option<CalendarDate>, line: Seq<u8>) -> Result<
    Step,
    DecodeError,
> {
    match line_of(line) {
        Ok(record) => step_of(date, record),
        Err(e) => Err(e),
    }
}

/// Whether a flight date, where there is one, is a day of the calendar.
pub open spec fn known_date(date: Option<CalendarDate>) -> bool {
    date matches Some(day) ==> day.wf()
}

impl TrackPoint {
    /// Whether the day is one of the calendar and the time one of the day.
    pub open spec fn wf(self) -> bool {
        self.date.wf() && self.time.wf()
    }
}

impl Step {
    /// Whether the flight date is one of the calendar, and the point, where
    /// there is one, is of that day.
    pub open spec fn wf(self) -> bool {
        &&& known_date(self.date)
        &&& self.point matches Some(point) ==> point.wf() && self.date == Some(point.date)
    }
}

/// Takes a decoded line into a conversion whose flight date so far is `date`.
pub fn advance(date: Option<CalendarDate>, record: RecordType) -> (r: Result<Step, DecodeError>)
    ensures
        r == step_of(date, record),
{
    match record {
        RecordType::Header(HeaderType::Date(day)) => Ok(Step { date: Some(day), point: None }),
        RecordType::Header(HeaderType::Other) => Ok(Step { date, point: None }),
        RecordType::Other => Ok(Step { date, point: None }),
        RecordType::FixRecord(fix) => match date {
            Some(day) => Ok(
                Step {
                    date,
                    point: Some(
                        TrackPoint {
                            date: day,
                            time: fix.timestamp,
                            pos: fix.pos,
                            alt_baro: fix.alt_baro,
                            alt_gps: fix.alt_gps,
                        },
                    ),
                },
            ),
            None => Err(DecodeError::MissingDate),
        },
    }
}

/// Takes one line of the log into a conversion whose flight date so far is
/// `date`.
pub fn advance_line(date: Option<CalendarDate>, line: &str) -> (r: Result<Step, DecodeError>)
    ensures
        r == line_step_of(date, line.spec_bytes()),
        known_date(date) ==> (r matches Ok(step) ==> step.wf()),
{
    match parse_line(line) {
        Ok(record) => advance(date, record),
        Err(e) => Err(e),
    }
}

/// A fix that comes before any date header is refused, whatever it holds.
pub proof fn lemma_fix_needs_date(line: Seq<u8>)
    requires
        line.len() > 0,
        line[0] == 0x42,
    ensures
        line_step_of(None, line) is Err,
        fix_of(line) is Ok ==> line_step_of(None, line) == Err::<Step, DecodeError>(
            DecodeError::MissingDate,
        ),
{
}

/// A line that begins with neither `H` nor `B` adds no point and leaves the
/// flight date as it was.
pub proof fn lemma_other_line_changes_nothing(date: Option<CalendarDate>, line: Seq<u8>)
    requires
        line.len() == 0 || (line[0] != 0x48 && line[0] != 0x42),
    ensures
        line_step_of(date, line) == Ok::<Step, DecodeError>(Step { date, point: None }),
{
}

/// A date header followed by a fix gives one point, of the day that the header
/// names and of the time that the fix names, whatever the flight date was
/// before the header.
pub proof fn lemma_header_dates_fix(before: Option<CalendarDate>, header: Seq<u8>, fix: Seq<u8>)
    requires
        header.len() > 0 && header[0] == 0x48,
        header_of(header) matches Ok(HeaderType::Date(_)),
        fix.len() > 0 && fix[0] == 0x42,
        fix_of(fix) is Ok,
    ensures
        ({
            let day = header_of(header)->Ok_0->Date_0;
            let sample = fix_of(fix)->Ok_0;
            &&& line_step_of(before, header) == Ok::<Step, DecodeError>(
                Step { date: Some(day), point: None },
            )
            &&& line_step_of(Some(day), fix) == Ok::<Step, DecodeError>(
                Step { date: Some(day), point: Some(point_of(day, sample)) },
            )
            &&& point_of(day, sample).date == day
            &&& point_of(day, sample).time == sample.timestamp
        }),
{
}

} // verus!
