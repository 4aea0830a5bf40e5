use trip_analytics::dataset::{
    check_data_dir, expected_file_name, expected_file_names, missing_files, validate_data_dir,
};
use trip_analytics::error::Error;

#[test]
fn file_name_pads_the_month_to_two_digits() {
    assert_eq!(expected_file_name(2025, 1), "yellow_tripdata_2025-01.parquet");
    assert_eq!(expected_file_name(2025, 9), "yellow_tripdata_2025-09.parquet");
    assert_eq!(expected_file_name(2025, 10), "yellow_tripdata_2025-10.parquet");
    assert_eq!(expected_file_name(2025, 12), "yellow_tripdata_2025-12.parquet");
}

#[test]
fn file_name_writes_any_year_and_month() {
    assert_eq!(expected_file_name(0, 0), "yellow_tripdata_0-00.parquet");
    assert_eq!(expected_file_name(-5, 3), "yellow_tripdata_-5-03.parquet");
    assert_eq!(expected_file_name(7, 255), "yellow_tripdata_7-255.parquet");
    assert_eq!(
        expected_file_name(i32::MIN, 1),
        "yellow_tripdata_-2147483648-01.parquet"
    );
    assert_eq!(
        expected_file_name(i32::MAX, 1),
        "yellow_tripdata_2147483647-01.parquet"
    );
}

#[test]
fn file_name_agrees_with_the_standard_formatter() {
    for year in [1999, 2024, 2025, 12345] {
        for month in 1..=12u8 {
            assert_eq!(
                expected_file_name(year, month),
                format!("yellow_tripdata_{}-{:02}.parquet", year, month)
            );
        }
    }
}

#[test]
fn a_year_has_twelve_expected_files() {
    let names = expected_file_names(2025);
    assert_eq!(names.len(), 12);
    assert_eq!(names[0], "yellow_tripdata_2025-01.parquet");
    assert_eq!(names[11], "yellow_tripdata_2025-12.parquet");
    for (m, name) in names.iter().enumerate() {
        assert_eq!(*name, expected_file_name(2025, (m + 1) as u8));
    }
}

#[test]
fn missing_files_lists_absent_months_in_order() {
    let mut present = [true; 12];
    present[1] = false;
    present[10] = false;
    let missing = missing_files(2025, &present);
    assert_eq!(
        missing,
        vec![
            "yellow_tripdata_2025-02.parquet".to_string(),
            "yellow_tripdata_2025-11.parquet".to_string(),
        ]
    );
}

#[test]
fn missing_files_is_empty_for_a_full_year() {
    assert!(missing_files(2025, &[true; 12]).is_empty());
}

#[test]
fn missing_files_lists_all_for_an_empty_directory() {
    assert_eq!(missing_files(2025, &[false; 12]), expected_file_names(2025));
}

#[test]
fn a_missing_directory_is_not_found() {
    assert_eq!(check_data_dir(false, false), Err(Error::NotFound));
    assert_eq!(check_data_dir(false, true), Err(Error::NotFound));
    assert_eq!(
        validate_data_dir(false, false, 2025, &[false; 12]),
        Err(Error::NotFound)
    );
}

#[test]
fn a_file_is_not_a_directory() {
    assert_eq!(check_data_dir(true, false), Err(Error::NotADirectory));
    assert_eq!(
        validate_data_dir(true, false, 2025, &[true; 12]),
        Err(Error::NotADirectory)
    );
}

#[test]
fn a_directory_passes() {
    assert_eq!(check_data_dir(true, true), Ok(()));
}

#[test]
fn missing_months_only_warn() {
    let mut present = [false; 12];
    present[0] = true;
    let outcome = validate_data_dir(true, true, 2025, &present);
    let missing = outcome.expect("a partial year is accepted");
    assert_eq!(missing.len(), 11);
    assert_eq!(missing[0], "yellow_tripdata_2025-02.parquet");
    assert_eq!(validate_data_dir(true, true, 2025, &[true; 12]), Ok(vec![]));
}
