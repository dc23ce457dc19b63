use xlsx2json::{need_regenerate, Config, ExcelProcessor, FileStat, FileStep, XlsxError};

fn at(t: i128) -> FileStat {
    FileStat::Modified(t)
}

#[test]
fn current_outputs_are_kept() {
    assert_eq!(need_regenerate(&at(100), &at(100), &at(100)), Ok(false));
    assert_eq!(need_regenerate(&at(100), &at(101), &at(5_000)), Ok(false));
    assert_eq!(need_regenerate(&at(-50), &at(-50), &at(0)), Ok(false));
}

#[test]
fn current_outputs_mean_skip() {
    let processor = ExcelProcessor::new(Config::new(), "out".to_string(), false);
    assert_eq!(processor.next_step(&at(100), &at(100), &at(200)), Ok(FileStep::Skip));
    assert_eq!(processor.next_step(&at(100), &at(99), &at(200)), Ok(FileStep::Convert));
}

#[test]
fn an_older_output_is_stale() {
    assert_eq!(need_regenerate(&at(100), &at(99), &at(100)), Ok(true));
    assert_eq!(need_regenerate(&at(100), &at(100), &at(99)), Ok(true));
    assert_eq!(need_regenerate(&at(100), &at(1), &at(2)), Ok(true));
}

#[test]
fn a_missing_output_is_stale() {
    assert_eq!(need_regenerate(&at(100), &FileStat::Missing, &at(200)), Ok(true));
    assert_eq!(need_regenerate(&at(100), &at(200), &FileStat::Missing), Ok(true));
    assert_eq!(need_regenerate(&at(100), &FileStat::Missing, &FileStat::Missing), Ok(true));
}

#[test]
fn a_source_that_cannot_be_read_is_a_failure() {
    assert_eq!(
        need_regenerate(&FileStat::Missing, &at(1), &at(1)),
        Err(XlsxError::Io("source document not found".to_string()))
    );
    assert_eq!(
        need_regenerate(&FileStat::Unreadable("permission denied".to_string()), &at(1), &at(1)),
        Err(XlsxError::Io("permission denied".to_string()))
    );
}

#[test]
fn an_output_that_cannot_be_inspected_is_a_failure() {
    let broken = FileStat::Unreadable("input/output error".to_string());
    let other = FileStat::Unreadable("second".to_string());
    assert_eq!(
        need_regenerate(&at(100), &broken, &FileStat::Missing),
        Err(XlsxError::Io("input/output error".to_string()))
    );
    assert_eq!(
        need_regenerate(&at(100), &at(1), &broken),
        Err(XlsxError::Io("input/output error".to_string()))
    );
    assert_eq!(
        need_regenerate(&at(100), &broken, &other),
        Err(XlsxError::Io("input/output error".to_string()))
    );
    assert_eq!(
        need_regenerate(&FileStat::Missing, &broken, &other),
        Err(XlsxError::Io("source document not found".to_string()))
    );
}
