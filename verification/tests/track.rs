use igc2csv::{
    advance, advance_line, CalendarDate, DecodeError, FixRecord, HeaderType, LatLng, RecordType,
    Step, TimeOfDay, TrackPoint,
};

const HEADER: &str = "HFDTE161119";
const FIX: &str = "B2311514647828N12025941WA0083900950";

fn flight_day() -> CalendarDate {
    CalendarDate {
        year: 2019,
        month: 11,
        day: 16,
    }
}

fn sample_point(date: CalendarDate) -> TrackPoint {
    TrackPoint {
        date,
        time: TimeOfDay {
            hour: 23,
            minute: 11,
            second: 51,
        },
        pos: LatLng {
            lat: 2_807_828,
            lng: 7_225_941,
        },
        alt_baro: 839,
        alt_gps: 950,
    }
}

fn run(lines: &[&str]) -> Result<(Option<CalendarDate>, Vec<TrackPoint>), DecodeError> {
    let mut date = None;
    let mut points = Vec::new();
    for line in lines {
        let step = advance_line(date, line)?;
        date = step.date;
        if let Some(point) = step.point {
            points.push(point);
        }
    }
    Ok((date, points))
}

#[test]
fn header_then_fix_gives_one_dated_point() {
    let (date, points) = run(&[HEADER, FIX]).unwrap();
    assert_eq!(date, Some(flight_day()));
    assert_eq!(points, vec![sample_point(flight_day())]);
    assert_eq!(points[0].date, flight_day());
    assert_eq!(
        points[0].time,
        TimeOfDay {
            hour: 23,
            minute: 11,
            second: 51
        }
    );
}

#[test]
fn fix_before_any_header_is_refused() {
    assert_eq!(advance_line(None, FIX), Err(DecodeError::MissingDate));
    assert_eq!(run(&[FIX]), Err(DecodeError::MissingDate));
    assert_eq!(run(&[FIX, HEADER]), Err(DecodeError::MissingDate));
    assert_eq!(
        run(&["AXXX001", "HFPLTPILOT:x", "", FIX, HEADER]),
        Err(DecodeError::MissingDate)
    );
}

#[test]
fn broken_fix_before_any_header_gives_its_own_error() {
    assert_eq!(advance_line(None, "B"), Err(DecodeError::TooShort));
    assert_eq!(
        advance_line(None, "B2511514647828N12025941WA0083900950"),
        Err(DecodeError::InvalidTime)
    );
}

#[test]
fn other_lines_add_nothing_and_change_nothing() {
    let lines = ["L comment", "", "AXXX001", "HFPLTPILOT:x", "\u{e9}", "G00"];
    for line in lines {
        assert_eq!(
            advance_line(None, line),
            Ok(Step {
                date: None,
                point: None
            }),
            "{:?}",
            line
        );
        assert_eq!(
            advance_line(Some(flight_day()), line),
            Ok(Step {
                date: Some(flight_day()),
                point: None
            }),
            "{:?}",
            line
        );
    }
    let (date, points) = run(&["L one", HEADER, "L two", FIX, "L three"]).unwrap();
    assert_eq!(date, Some(flight_day()));
    assert_eq!(points, vec![sample_point(flight_day())]);
}

#[test]
fn date_header_sets_the_date_and_adds_nothing() {
    assert_eq!(
        advance_line(None, HEADER),
        Ok(Step {
            date: Some(flight_day()),
            point: None
        })
    );
}

#[test]
fn last_date_header_wins() {
    let later = CalendarDate {
        year: 2019,
        month: 11,
        day: 17,
    };
    assert_eq!(
        advance_line(Some(flight_day()), "HFDTE171119"),
        Ok(Step {
            date: Some(later),
            point: None
        })
    );
    let (date, points) = run(&[HEADER, FIX, "HFDTE171119", FIX, FIX]).unwrap();
    assert_eq!(date, Some(later));
    assert_eq!(
        points,
        vec![
            sample_point(flight_day()),
            sample_point(later),
            sample_point(later)
        ]
    );
}

#[test]
fn errors_leave_the_run() {
    assert_eq!(
        run(&[HEADER, FIX, "HFDTE310219", FIX]),
        Err(DecodeError::InvalidDate)
    );
    assert_eq!(
        run(&[HEADER, "B2311514647828N12025941WA00839"]),
        Err(DecodeError::TooShort)
    );
    assert_eq!(
        advance_line(Some(flight_day()), "B2311514647828N12025941WA00839"),
        Err(DecodeError::TooShort)
    );
}

#[test]
fn advance_on_decoded_lines() {
    let fix = FixRecord {
        timestamp: TimeOfDay {
            hour: 23,
            minute: 11,
            second: 51,
        },
        pos: LatLng {
            lat: 2_807_828,
            lng: 7_225_941,
        },
        alt_baro: 839,
        alt_gps: 950,
    };
    assert_eq!(
        advance(None, RecordType::FixRecord(fix)),
        Err(DecodeError::MissingDate)
    );
    assert_eq!(
        advance(Some(flight_day()), RecordType::FixRecord(fix)),
        Ok(Step {
            date: Some(flight_day()),
            point: Some(sample_point(flight_day()))
        })
    );
    assert_eq!(
        advance(None, RecordType::Header(HeaderType::Date(flight_day()))),
        Ok(Step {
            date: Some(flight_day()),
            point: None
        })
    );
    assert_eq!(
        advance(Some(flight_day()), RecordType::Header(HeaderType::Other)),
        Ok(Step {
            date: Some(flight_day()),
            point: None
        })
    );
    assert_eq!(
        advance(None, RecordType::Other),
        Ok(Step {
            date: None,
            point: None
        })
    );
}
