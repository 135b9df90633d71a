use ahoy_dtu_stats::crawler::{CsvSink, Dataset, Timestamp};
use ahoy_dtu_stats::{ErrorKind, Reading, UnitValue};
use std::cell::RefCell;
use std::io::Write;
use std::rc::Rc;

/// A byte sink that keeps what it gets where the test can see it, and
/// refuses whatever would take it beyond `limit` bytes.
#[derive(Clone)]
struct Shared {
    bytes: Rc<RefCell<Vec<u8>>>,
    limit: usize,
}

impl Shared {
    fn new() -> Shared {
        Shared { bytes: Rc::new(RefCell::new(Vec::new())), limit: usize::MAX }
    }

    fn with_limit(limit: usize) -> Shared {
        Shared { bytes: Rc::new(RefCell::new(Vec::new())), limit }
    }

    fn text(&self) -> String {
        String::from_utf8(self.bytes.borrow().clone()).unwrap()
    }
}

impl Write for Shared {
    fn write(&mut self, buf: &[u8]) -> std::io::Result<usize> {
        let mut bytes = self.bytes.borrow_mut();
        if bytes.len() + buf.len() > self.limit {
            return Err(std::io::Error::new(std::io::ErrorKind::Other, "sink is full"));
        }
        bytes.extend_from_slice(buf);
        Ok(buf.len())
    }

    fn flush(&mut self) -> std::io::Result<()> {
        Ok(())
    }
}

fn strings(items: &[&str]) -> Vec<String> {
    items.iter().map(|s| s.to_string()).collect()
}

fn reading(items: &[(&str, f32, &str)]) -> Reading {
    let mut reading = Reading::new();
    for (name, value, unit) in items {
        reading.insert(name.to_string(), UnitValue::new(value.to_string(), unit.to_string()));
    }
    reading
}

fn at(secs: i64) -> Timestamp {
    Timestamp::from_secs(secs).unwrap()
}

const T0: i64 = 1705817096;

#[test]
fn rows_are_written_in_insertion_order() {
    let mut dataset = Dataset::new(&strings(&["U_AC", "P_AC"]), &strings(&["V", "W"]));
    dataset.insert_row(&reading(&[("U_AC", 230.0, "V"), ("P_AC", 500.0, "W")]), &at(T0 + 60));
    dataset.insert_row(&reading(&[("U_AC", 231.5, "V"), ("P_AC", 480.0, "W")]), &at(T0));
    dataset.insert_row(&reading(&[("P_AC", 1.0, "W"), ("U_AC", 2.0, "V")]), &at(T0 + 120));
    assert_eq!(dataset.len(), 3);

    let target = Shared::new();
    let mut sink = CsvSink::from_writer(target.clone());
    assert!(dataset.save_to_csv(&mut sink, 0).is_ok());
    drop(sink);

    assert_eq!(dataset.len(), 0);
    assert_eq!(
        target.text(),
        "timestamp,U_AC,P_AC\n\
         2024-01-21 06:05:56,230,500\n\
         2024-01-21 06:04:56,231.5,480\n\
         2024-01-21 06:06:56,2,1\n"
    );
}

#[test]
fn empty_buffer_still_gets_a_new_file_its_header() {
    let mut dataset = Dataset::new(&strings(&["U_DC", "P_DC"]), &strings(&["V", "W"]));
    let target = Shared::new();
    let mut sink = CsvSink::from_writer(target.clone());
    assert!(dataset.save_to_csv(&mut sink, 0).is_ok());
    drop(sink);
    assert_eq!(target.text(), "timestamp,U_DC,P_DC\n");
    assert_eq!(dataset.len(), 0);
}

#[test]
fn empty_buffer_adds_nothing_to_a_file_that_has_content() {
    let mut dataset = Dataset::new(&strings(&["U_DC", "P_DC"]), &strings(&["V", "W"]));
    let target = Shared::new();
    let mut sink = CsvSink::from_writer(target.clone());
    assert!(dataset.save_to_csv(&mut sink, 20).is_ok());
    drop(sink);
    assert_eq!(target.text(), "");
}

#[test]
fn header_is_not_repeated_on_the_second_flush() {
    let mut dataset = Dataset::new(&strings(&["U_DC"]), &strings(&["V"]));
    let file = Shared::new();

    dataset.insert_row(&reading(&[("U_DC", 40.0, "V")]), &at(T0));
    let mut sink = CsvSink::from_writer(file.clone());
    let len = file.bytes.borrow().len() as u64;
    assert!(dataset.save_to_csv(&mut sink, len).is_ok());
    drop(sink);

    dataset.insert_row(&reading(&[("U_DC", 41.0, "V")]), &at(T0 + 30));
    let mut sink = CsvSink::from_writer(file.clone());
    let len = file.bytes.borrow().len() as u64;
    assert!(len > 0);
    assert!(dataset.save_to_csv(&mut sink, len).is_ok());
    drop(sink);

    assert_eq!(
        file.text(),
        "timestamp,U_DC\n2024-01-21 06:04:56,40\n2024-01-21 06:05:26,41\n"
    );
}

#[test]
fn missing_field_becomes_an_empty_cell() {
    let mut dataset = Dataset::new(&strings(&["U_DC", "P_DC"]), &strings(&["V", "W"]));
    dataset.insert_row(&reading(&[("U_DC", 39.5, "V")]), &at(T0));
    let target = Shared::new();
    let mut sink = CsvSink::from_writer(target.clone());
    assert!(dataset.save_to_csv(&mut sink, 1).is_ok());
    drop(sink);
    assert_eq!(target.text(), "2024-01-21 06:04:56,39.5,\n");
}

#[test]
fn unknown_field_in_the_reading_is_ignored() {
    let mut dataset = Dataset::new(&strings(&["U_DC"]), &strings(&["V"]));
    dataset.insert_row(&reading(&[("Temp", 21.0, "C"), ("U_DC", 39.5, "V")]), &at(T0));
    let target = Shared::new();
    let mut sink = CsvSink::from_writer(target.clone());
    assert!(dataset.save_to_csv(&mut sink, 1).is_ok());
    drop(sink);
    assert_eq!(target.text(), "2024-01-21 06:04:56,39.5\n");
}

#[test]
fn later_value_of_a_name_replaces_the_earlier_one() {
    let mut data = Reading::new();
    data.insert("U_DC".to_string(), UnitValue::new("1".to_string(), "V".to_string()));
    data.insert("U_DC".to_string(), UnitValue::new("2".to_string(), "V".to_string()));
    assert_eq!(data.get(&"U_DC".to_string()).unwrap().value, "2");
    assert!(data.get(&"P_DC".to_string()).is_none());
}

#[test]
fn failed_write_keeps_the_row_and_all_later_ones() {
    // One cell of 9000 characters makes every row larger than the writer's
    // buffer, so each row reaches the byte sink while the next is written.
    let big = "7".repeat(9000);
    let mut dataset = Dataset::new(&strings(&["U_DC"]), &strings(&["V"]));
    for i in 0..5 {
        let mut data = Reading::new();
        data.insert("U_DC".to_string(), UnitValue::new(big.clone(), "V".to_string()));
        dataset.insert_row(&data, &at(T0 + i));
    }
    let target = Shared::with_limit(20000);
    let mut sink = CsvSink::from_writer(target.clone());
    let res = dataset.save_to_csv(&mut sink, 0);
    drop(sink);

    assert!(matches!(res, Err(ErrorKind::CouldNotWriteToCsv(_))));
    // Rows one and two were taken; the third met the full sink.
    assert_eq!(dataset.len(), 3);
    let written = target.text();
    assert!(written.starts_with("timestamp,U_DC\n2024-01-21 06:04:56,7777"));
    assert!(written.contains("\n2024-01-21 06:04:57,7777"));
    assert!(!written.contains("2024-01-21 06:04:59"));

    // The rows that stayed go out, in order, once the sink takes them.
    let retry = Shared::new();
    let mut sink = CsvSink::from_writer(retry.clone());
    assert!(dataset.save_to_csv(&mut sink, 1).is_ok());
    drop(sink);
    assert_eq!(dataset.len(), 0);
    let rest = retry.text();
    let lines: Vec<&str> = rest.lines().collect();
    assert_eq!(lines.len(), 3);
    assert!(lines[0].starts_with("2024-01-21 06:04:58,"));
    assert!(lines[1].starts_with("2024-01-21 06:04:59,"));
    assert!(lines[2].starts_with("2024-01-21 06:05:00,"));
}

#[test]
fn failed_save_and_retry_write_every_row_once() {
    let mut dataset = Dataset::new(&strings(&["U_DC"]), &strings(&["V"]));
    for i in 0..5 {
        dataset.insert_row(&reading(&[("U_DC", i as f32, "V")]), &at(T0 + i));
    }
    // Room for the header and two rows, not for a third.
    let header = "timestamp,U_DC\n";
    let row = "2024-01-21 06:04:56,0\n";
    let file = Shared::with_limit(header.len() + 2 * row.len() + 10);
    let mut sink = CsvSink::from_writer(file.clone());
    let res = dataset.save_to_csv(&mut sink, 0);
    drop(sink);

    assert!(matches!(res, Err(ErrorKind::CouldNotWriteToCsv(_))));
    assert_eq!(
        file.text(),
        "timestamp,U_DC\n2024-01-21 06:04:56,0\n2024-01-21 06:04:57,1\n"
    );
    assert_eq!(dataset.len(), 3);
    assert_eq!(dataset.front_record(), strings(&["2024-01-21 06:04:58", "2"]));

    // The same file, with room again.
    let roomy = Shared { bytes: file.bytes.clone(), limit: usize::MAX };
    let len = roomy.bytes.borrow().len() as u64;
    let mut sink = CsvSink::from_writer(roomy.clone());
    assert!(dataset.save_to_csv(&mut sink, len).is_ok());
    drop(sink);
    assert_eq!(dataset.len(), 0);
    assert_eq!(
        roomy.text(),
        "timestamp,U_DC\n\
         2024-01-21 06:04:56,0\n\
         2024-01-21 06:04:57,1\n\
         2024-01-21 06:04:58,2\n\
         2024-01-21 06:04:59,3\n\
         2024-01-21 06:05:00,4\n"
    );
}

#[test]
fn failed_header_keeps_every_row() {
    let mut dataset = Dataset::new(&strings(&["U_DC"]), &strings(&["V"]));
    dataset.insert_row(&reading(&[("U_DC", 1.0, "V")]), &at(T0));
    let file = Shared::with_limit(3);
    let mut sink = CsvSink::from_writer(file.clone());
    let res = dataset.save_to_csv(&mut sink, 0);
    drop(sink);
    assert!(matches!(res, Err(ErrorKind::CouldNotWriteToCsv(_))));
    assert_eq!(file.text(), "");
    assert_eq!(dataset.len(), 1);
}

#[test]
fn every_record_reaches_the_file_at_once() {
    let mut dataset = Dataset::new(&strings(&["U_DC"]), &strings(&["V"]));
    dataset.insert_row(&reading(&[("U_DC", 1.0, "V")]), &at(T0));
    let file = Shared::new();
    let mut sink = CsvSink::from_writer(file.clone());
    assert!(dataset.save_to_csv(&mut sink, 0).is_ok());
    // The sink is still open: nothing waits in the writer.
    assert_eq!(file.text(), "timestamp,U_DC\n2024-01-21 06:04:56,1\n");
    assert!(sink.put(&strings(&["2024-01-21 06:05:56", "2"])).is_ok());
    assert_eq!(
        file.text(),
        "timestamp,U_DC\n2024-01-21 06:04:56,1\n2024-01-21 06:05:56,2\n"
    );
}

#[test]
fn settle_write_removes_only_a_written_row() {
    let mut dataset = Dataset::new(&strings(&["U_DC"]), &strings(&["V"]));
    dataset.insert_row(&reading(&[("U_DC", 1.0, "V")]), &at(T0));
    dataset.insert_row(&reading(&[("U_DC", 2.0, "V")]), &at(T0 + 1));

    let res = dataset.settle_write(Err("disk full".to_string()));
    assert!(matches!(res, Err(ErrorKind::CouldNotWriteToCsv(ref m)) if m == "disk full"));
    assert_eq!(dataset.len(), 2);

    assert!(dataset.settle_write(Ok(())).is_ok());
    assert_eq!(dataset.len(), 1);
    assert_eq!(dataset.front_record(), strings(&["2024-01-21 06:04:57", "2"]));
}

#[test]
fn header_and_front_record() {
    let mut dataset = Dataset::new(&strings(&["a", "b", "c"]), &strings(&["V", "W", "A", "x"]));
    assert_eq!(dataset.header(), strings(&["timestamp", "a", "b", "c"]));
    dataset.insert_row(&reading(&[("b", 0.25, "W")]), &at(0));
    assert_eq!(dataset.front_record(), strings(&["1970-01-01 00:00:00", "", "0.25", ""]));
}

#[test]
fn timestamps_outside_the_calendar_are_refused() {
    assert!(Timestamp::from_secs(i64::MAX).is_none());
    assert!(Timestamp::from_secs(i64::MIN).is_none());
    assert_eq!(Timestamp::from_secs(-1).unwrap().to_text(), "1969-12-31 23:59:59");
    assert_eq!(at(T0).secs(), T0);
    assert_eq!(at(T0).to_text(), "2024-01-21 06:04:56");
}
