use std::cell::RefCell;

use opendal::buffer::Buffer;
use opendal::error::{Error, ErrorKind};
use opendal::tasks::{ConcurrentTasks, Task};
use opendal::types::decimal_string;

struct Doubler {
    started: RefCell<Vec<u32>>,
    fail_on: RefCell<Vec<(u32, bool)>>,
}

impl Doubler {
    fn new() -> Self {
        Doubler {
            started: RefCell::new(Vec::new()),
            fail_on: RefCell::new(Vec::new()),
        }
    }
}

impl Task<u32, u32> for Doubler {
    fn run(&self, input: &u32) -> Result<u32, Error> {
        self.started.borrow_mut().push(*input);
        let mut fails = self.fail_on.borrow_mut();
        if let Some(pos) = fails.iter().position(|(i, _)| i == input) {
            let (_, temporary) = fails.remove(pos);
            let e = Error::new(ErrorKind::Unexpected, "task failed");
            return Err(if temporary { e.set_temporary() } else { e });
        }
        Ok(input * 2)
    }
}

#[test]
fn results_come_out_in_submission_order() {
    let t = Doubler::new();
    let mut pool: ConcurrentTasks<u32, u32> = ConcurrentTasks::new(4);
    for i in 0..10u32 {
        pool.execute(&t, i).unwrap();
    }
    let mut out = Vec::new();
    while let Some(r) = pool.next(&t) {
        out.push(r.unwrap());
    }
    assert_eq!(out, (0..10u32).map(|i| i * 2).collect::<Vec<_>>());
    assert_eq!(*t.started.borrow(), (0..10u32).collect::<Vec<_>>());
    assert!(pool.is_idle());
}

#[test]
fn temporary_failure_is_retried_in_place() {
    let t = Doubler::new();
    t.fail_on.borrow_mut().push((1, true));
    let mut pool: ConcurrentTasks<u32, u32> = ConcurrentTasks::new(1);
    pool.execute(&t, 0).unwrap();
    pool.execute(&t, 1).unwrap();
    let err = pool.execute(&t, 2).unwrap_err();
    assert!(err.is_temporary());
    pool.execute(&t, 2).unwrap();
    let mut out = Vec::new();
    while let Some(r) = pool.next(&t) {
        out.push(r.unwrap());
    }
    assert_eq!(out, vec![0, 2, 4]);
}

#[test]
fn permanent_failure_stops_the_pool() {
    let t = Doubler::new();
    t.fail_on.borrow_mut().push((0, false));
    let mut pool: ConcurrentTasks<u32, u32> = ConcurrentTasks::new(2);
    pool.execute(&t, 0).unwrap();
    pool.execute(&t, 1).unwrap();
    let err = pool.next(&t).unwrap().unwrap_err();
    assert!(!err.is_temporary());
    assert!(pool.next(&t).is_none());
    let err = pool.execute(&t, 3).unwrap_err();
    assert_eq!(err.kind(), ErrorKind::Unexpected);
}

#[test]
fn clear_drops_everything() {
    let t = Doubler::new();
    let mut pool: ConcurrentTasks<u32, u32> = ConcurrentTasks::new(3);
    pool.execute(&t, 5).unwrap();
    pool.execute(&t, 6).unwrap();
    pool.clear();
    assert!(pool.is_idle());
    assert!(pool.next(&t).is_none());
    assert!(t.started.borrow().is_empty());
}

#[test]
fn error_builders_keep_fields() {
    let e = Error::new(ErrorKind::RateLimited, "slow down")
        .with_context("upload_id", "abc".to_string())
        .with_context("part_number", "3".to_string())
        .set_temporary();
    assert_eq!(e.kind(), ErrorKind::RateLimited);
    assert_eq!(e.message(), "slow down");
    assert!(e.is_temporary());
    assert_eq!(e.context_len(), 2);
    assert_eq!(e.context_at(0), ("upload_id", "abc"));
    assert_eq!(e.context_at(1), ("part_number", "3"));
}

#[test]
fn buffer_basics() {
    let b = Buffer::from_vec(vec![1, 2, 3]);
    assert_eq!(b.len(), 3);
    assert!(!b.is_empty());
    assert_eq!(b.duplicate().to_vec(), vec![1, 2, 3]);
    assert!(Buffer::new().is_empty());
}

#[test]
fn decimal_text_of_numbers() {
    assert_eq!(decimal_string(0), "0");
    assert_eq!(decimal_string(7), "7");
    assert_eq!(decimal_string(42), "42");
    assert_eq!(decimal_string(1000), "1000");
    assert_eq!(decimal_string(u64::MAX), "18446744073709551615");
}

#[test]
fn part_timeout_error_names_upload_and_part() {
    let e = opendal::multipart::part_timeout_error("up-1", 42);
    assert_eq!(e.kind(), ErrorKind::Unexpected);
    assert!(e.is_temporary());
    assert_eq!(e.message(), "write part timeout");
    assert_eq!(e.context_len(), 2);
    assert_eq!(e.context_at(0), ("upload_id", "up-1"));
    assert_eq!(e.context_at(1), ("part_number", "42"));
}
