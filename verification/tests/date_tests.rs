use camera_backup::date::{Date, DateError};

#[test]
fn new_rejects_months_outside_range() {
    assert_eq!(Date::new(2024, 0), Err(DateError::InvalidMonth));
    assert_eq!(Date::new(2024, 13), Err(DateError::InvalidMonth));
    assert_eq!(Date::new(2024, 1000), Err(DateError::InvalidMonth));
}

#[test]
fn new_accepts_every_month_in_range() {
    let mut month: u32 = 1;
    while month <= 12 {
        let d = Date::new(2024, month).unwrap();
        assert_eq!(d.year(), 2024);
        assert_eq!(d.month(), month as u8);
        month += 1;
    }
}

#[test]
fn new_rejects_years_outside_range() {
    assert_eq!(Date::new(-1, 6), Err(DateError::YearOutOfRange));
    assert_eq!(Date::new(65536, 6), Err(DateError::YearOutOfRange));
    assert_eq!(Date::new(65535, 6), Ok(Date::new(65535, 6).unwrap()));
}

#[test]
fn output_path_layout() {
    let d = Date::new(2024, 3).unwrap();
    let p = d.to_output_file(&String::from("root"), "a.jpg");
    assert_eq!(p, "root/2024/03/a.jpg");
    let d2 = Date::new(5, 12).unwrap();
    let p2 = d2.to_output_file(&String::from("/tmp/photos"), "IMG_6812.CR2");
    assert_eq!(p2, "/tmp/photos/5/12/IMG_6812.CR2");
}

#[test]
fn from_path_reads_parent_directories() {
    assert_eq!(Date::from_path("photos/2024/03/a.jpg"), Ok(Date::new(2024, 3).unwrap()));
    assert_eq!(Date::from_path("2024/03/a.jpg"), Ok(Date::new(2024, 3).unwrap()));
    assert_eq!(Date::from_path("/2024/03/a.jpg"), Ok(Date::new(2024, 3).unwrap()));
}

#[test]
fn from_path_failures() {
    assert_eq!(Date::from_path("a.jpg"), Err(DateError::MissingParent));
    assert_eq!(Date::from_path("03/a.jpg"), Err(DateError::MissingGrandparent));
    assert_eq!(Date::from_path("202x/03/a.jpg"), Err(DateError::UnparsableYear));
    assert_eq!(Date::from_path("2024/3x/a.jpg"), Err(DateError::UnparsableMonth));
    assert_eq!(Date::from_path("2024/00/a.jpg"), Err(DateError::InvalidMonth));
    assert_eq!(Date::from_path("2024/13/a.jpg"), Err(DateError::InvalidMonth));
    assert_eq!(Date::from_path("70000/01/a.jpg"), Err(DateError::YearOutOfRange));
}

#[test]
fn from_path_long_zero_padded_numbers() {
    // leading zeros are plain digits, however many of them
    assert_eq!(Date::from_path("0000002024/03/a.jpg"), Ok(Date::new(2024, 3).unwrap()));
    assert_eq!(Date::from_path("2024/0000000003/a.jpg"), Ok(Date::new(2024, 3).unwrap()));
    // a numeric year beyond the index's range is out of range, not unparsable
    assert_eq!(Date::from_path("4294967295/03/a.jpg"), Err(DateError::YearOutOfRange));
    // beyond what the parser's value type can carry at all
    assert_eq!(Date::from_path("99999999999/03/a.jpg"), Err(DateError::UnparsableYear));
}

#[test]
fn path_round_trip() {
    let roots = ["root", "/var/photos", "", "a/b/c", "trailing/"];
    let dates = [
        Date::new(2024, 3).unwrap(),
        Date::new(1969, 12).unwrap(),
        Date::new(7, 1).unwrap(),
        Date::new(65535, 10).unwrap(),
    ];
    for root in roots {
        for d in dates {
            let p = d.to_output_file(&String::from(root), "IMG_0001.jpg");
            assert_eq!(Date::from_path(&p), Ok(d));
        }
    }
}

#[test]
fn from_timestamp_epoch() {
    assert_eq!(Date::from_timestamp(0, 0), Ok(Date::new(1970, 1).unwrap()));
}

#[test]
fn from_timestamp_known_instants() {
    // 2023-11-14T22:13:20 UTC
    assert_eq!(Date::from_timestamp(1_700_000_000, 0), Ok(Date::new(2023, 11).unwrap()));
    // one day before the epoch
    assert_eq!(Date::from_timestamp(-86_400, 0), Ok(Date::new(1969, 12).unwrap()));
}

#[test]
fn from_timestamp_out_of_range() {
    assert_eq!(Date::from_timestamp(i64::MAX, 0), Err(DateError::BadTimestamp));
    // nanoseconds beyond what any second can carry
    assert_eq!(Date::from_timestamp(10, 2_000_000_000), Err(DateError::BadTimestamp));
}
