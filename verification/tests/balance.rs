use mapreduce::balance::{balance, Write};
use mapreduce::error::Error;
use mapreduce::text::frame;

fn records_numbered(count: usize) -> Vec<String> {
    (0..count).map(|i| format!("record {}", i)).collect()
}

fn count_of(writes: &[Write], worker: usize) -> usize {
    writes.iter().filter(|w| w.worker == worker).count()
}

#[test]
fn frame_appends_one_line_feed() {
    assert_eq!(frame("abc"), "abc\n");
    assert_eq!(frame(""), "\n");
    assert_eq!(frame("x y\tz"), "x y\tz\n");
}

#[test]
fn frame_keeps_characters_beyond_ascii() {
    assert_eq!(frame("gr\u{fc}n \u{1f600}"), "gr\u{fc}n \u{1f600}\n");
}

#[test]
fn seven_records_over_three_workers() {
    let records = records_numbered(7);
    let writes = balance(&records, 3).unwrap();
    let workers: Vec<usize> = writes.iter().map(|w| w.worker).collect();
    assert_eq!(workers, vec![0, 1, 2, 0, 1, 2, 0]);
    for (i, write) in writes.iter().enumerate() {
        assert_eq!(write.text, format!("record {}\n", i));
    }
    assert_eq!(count_of(&writes, 0), 3);
    assert_eq!(count_of(&writes, 1), 2);
    assert_eq!(count_of(&writes, 2), 2);
}

#[test]
fn record_i_goes_to_worker_i_mod_n() {
    for workers in 1..=9usize {
        for total in 0..=40usize {
            let records = records_numbered(total);
            let writes = balance(&records, workers).unwrap();
            assert_eq!(writes.len(), total);
            for (i, write) in writes.iter().enumerate() {
                assert_eq!(write.worker, i % workers);
                assert_eq!(write.text, format!("{}\n", records[i]));
            }
        }
    }
}

#[test]
fn shares_are_floor_or_ceiling_and_add_up() {
    for workers in 1..=9usize {
        for total in 0..=40usize {
            let writes = balance(&records_numbered(total), workers).unwrap();
            let floor = total / workers;
            let ceiling = (total + workers - 1) / workers;
            let mut sum = 0;
            for worker in 0..workers {
                let share = count_of(&writes, worker);
                let expected = floor + if worker < total % workers { 1 } else { 0 };
                assert_eq!(share, expected);
                assert!(share == floor || share == ceiling);
                sum += share;
            }
            assert_eq!(sum, total);
        }
    }
}

#[test]
fn one_worker_receives_everything_in_order() {
    let records = vec!["b".to_string(), "a".to_string(), "c".to_string()];
    let writes = balance(&records, 1).unwrap();
    let texts: Vec<&str> = writes.iter().map(|w| w.text.as_str()).collect();
    assert_eq!(texts, vec!["b\n", "a\n", "c\n"]);
    assert!(writes.iter().all(|w| w.worker == 0));
}

#[test]
fn more_workers_than_records() {
    let writes = balance(&records_numbered(2), 5).unwrap();
    assert_eq!(writes.len(), 2);
    assert_eq!(writes[0].worker, 0);
    assert_eq!(writes[1].worker, 1);
    assert_eq!(count_of(&writes, 4), 0);
}

#[test]
fn no_records_no_writes() {
    let writes = balance(&Vec::new(), 4).unwrap();
    assert!(writes.is_empty());
}

#[test]
fn zero_workers_is_a_configuration_error() {
    assert_eq!(balance(&records_numbered(3), 0).unwrap_err(), Error::NoWorkers);
}

#[test]
fn zero_workers_is_an_error_even_without_records() {
    assert_eq!(balance(&Vec::new(), 0).unwrap_err(), Error::NoWorkers);
}
