use callback_cell::{CallbackCell, CallbackCellArgs};
use std::ops::Add;
use std::sync::atomic::{AtomicU32, Ordering};
use std::sync::Arc;

type Action = Box<dyn FnOnce() + Send>;
type Transform = Box<dyn FnOnce(Thing) -> Thing + Send>;

struct DropGuardThing(Arc<AtomicU32>);

impl Drop for DropGuardThing {
    fn drop(&mut self) {
        self.0.fetch_add(100, Ordering::Relaxed);
    }
}

#[derive(Debug)]
struct Thing(i32, &'static AtomicU32);

impl From<i32> for Thing {
    fn from(n: i32) -> Self {
        Thing(n, Box::leak(Box::new(AtomicU32::new(0))))
    }
}

impl Drop for Thing {
    fn drop(&mut self) {
        // panic on double free
        assert_eq!(self.1.fetch_add(1, Ordering::Relaxed), 0);
    }
}

impl Add<i32> for Thing {
    type Output = Self;
    fn add(self, rhs: i32) -> Self {
        Self::from(self.0 + rhs)
    }
}

fn adder(counter: &Arc<AtomicU32>, n: u32) -> Action {
    let counter = Arc::clone(counter);
    Box::new(move || {
        counter.fetch_add(n, Ordering::Relaxed);
    })
}

#[test]
fn without_args_test() {
    let counter = Arc::new(AtomicU32::new(0));
    let mut cell: CallbackCell<Action> = CallbackCell::new();
    assert_eq!(counter.load(Ordering::Relaxed), 0);
    assert!(!cell.take_call());
    assert_eq!(counter.load(Ordering::Relaxed), 0);
    cell.put({
        let counter = Arc::clone(&counter);
        Box::new(move || {
            counter.fetch_add(1, Ordering::Relaxed);
        })
    });
    assert_eq!(counter.load(Ordering::Relaxed), 0);
    assert!(cell.take_call());
    assert_eq!(counter.load(Ordering::Relaxed), 1);
    assert!(!cell.take_call());
    assert_eq!(counter.load(Ordering::Relaxed), 1);
    cell.put({
        let dgt = DropGuardThing(Arc::clone(&counter));
        Box::new(move || {
            dgt.0.fetch_add(2, Ordering::Relaxed);
        })
    });
    assert_eq!(counter.load(Ordering::Relaxed), 1);
    cell.put({
        let counter = Arc::clone(&counter);
        Box::new(move || {
            counter.fetch_add(3, Ordering::Relaxed);
        })
    });
    assert_eq!(counter.load(Ordering::Relaxed), 101);
    assert!(cell.take_call());
    assert_eq!(counter.load(Ordering::Relaxed), 104);
    assert!(!cell.take_call());
    assert_eq!(counter.load(Ordering::Relaxed), 104);
}

#[test]
fn with_args_test() {
    let counter = Arc::new(AtomicU32::new(0));
    let mut cell: CallbackCellArgs<Thing, Thing, Transform> = CallbackCellArgs::new();
    assert_eq!(counter.load(Ordering::Relaxed), 0);
    assert_eq!(cell.take_call(Thing::from(10000)).unwrap_err().0, 10000);
    assert_eq!(counter.load(Ordering::Relaxed), 0);
    cell.put({
        let counter = Arc::clone(&counter);
        Box::new(move |i| {
            counter.fetch_add(1, Ordering::Relaxed);
            i + 1000
        })
    });
    assert_eq!(counter.load(Ordering::Relaxed), 0);
    assert_eq!(cell.take_call(Thing::from(20000)).unwrap().0, 21000);
    assert_eq!(counter.load(Ordering::Relaxed), 1);
    assert_eq!(cell.take_call(Thing::from(30000)).unwrap_err().0, 30000);
    assert_eq!(counter.load(Ordering::Relaxed), 1);
    cell.put({
        let dgt = DropGuardThing(Arc::clone(&counter));
        Box::new(move |i| {
            dgt.0.fetch_add(2, Ordering::Relaxed);
            i + 2000
        })
    });
    assert_eq!(counter.load(Ordering::Relaxed), 1);
    cell.put({
        let counter = Arc::clone(&counter);
        Box::new(move |i| {
            counter.fetch_add(3, Ordering::Relaxed);
            i + 3000
        })
    });
    assert_eq!(counter.load(Ordering::Relaxed), 101);
    assert_eq!(cell.take_call(Thing::from(40000)).unwrap().0, 43000);
    assert_eq!(counter.load(Ordering::Relaxed), 104);
    assert_eq!(cell.take_call(Thing::from(50000)).unwrap_err().0, 50000);
    assert_eq!(counter.load(Ordering::Relaxed), 104);
}

#[test]
fn take_runs_most_recent_put() {
    let counter = Arc::new(AtomicU32::new(0));
    let mut cell: CallbackCell<Action> = CallbackCell::new();
    cell.put(adder(&counter, 1));
    cell.put(adder(&counter, 10));
    cell.put(adder(&counter, 100));
    assert!(cell.take_call());
    assert_eq!(counter.load(Ordering::Relaxed), 100);
    assert!(!cell.take_call());
    assert_eq!(counter.load(Ordering::Relaxed), 100);
}

#[test]
fn failed_take_does_not_clear_later_put() {
    let counter = Arc::new(AtomicU32::new(0));
    let mut cell: CallbackCell<Action> = CallbackCell::new();
    assert!(!cell.take_call());
    assert!(!cell.take_call());
    cell.put(adder(&counter, 5));
    assert!(cell.take_call());
    assert_eq!(counter.load(Ordering::Relaxed), 5);
}

#[test]
fn displaced_callback_dropped_once_never_run() {
    let counter = Arc::new(AtomicU32::new(0));
    let mut cell: CallbackCell<Action> = CallbackCell::new();
    let dgt = DropGuardThing(Arc::clone(&counter));
    cell.put(Box::new(move || {
        dgt.0.fetch_add(2, Ordering::Relaxed);
    }));
    cell.put(adder(&counter, 0));
    assert_eq!(counter.load(Ordering::Relaxed), 100);
    assert!(cell.take_call());
    assert_eq!(counter.load(Ordering::Relaxed), 100);
}

#[test]
fn dropping_occupied_cell_discards_callback() {
    let counter = Arc::new(AtomicU32::new(0));
    {
        let mut cell: CallbackCell<Action> = CallbackCell::new();
        let dgt = DropGuardThing(Arc::clone(&counter));
        cell.put(Box::new(move || {
            dgt.0.fetch_add(2, Ordering::Relaxed);
        }));
        assert_eq!(counter.load(Ordering::Relaxed), 0);
    }
    assert_eq!(counter.load(Ordering::Relaxed), 100);
}

#[test]
fn dropping_occupied_args_cell_discards_callback() {
    let counter = Arc::new(AtomicU32::new(0));
    {
        let mut cell: CallbackCellArgs<Thing, Thing, Transform> = CallbackCellArgs::new();
        let dgt = DropGuardThing(Arc::clone(&counter));
        cell.put(Box::new(move |i| {
            dgt.0.fetch_add(2, Ordering::Relaxed);
            i + 2000
        }));
    }
    assert_eq!(counter.load(Ordering::Relaxed), 100);
}

#[test]
fn empty_args_take_returns_same_input() {
    let mut cell: CallbackCellArgs<Vec<u8>, usize, Box<dyn FnOnce(Vec<u8>) -> usize>> =
        CallbackCellArgs::new();
    let input = vec![1u8, 2, 3];
    let ptr = input.as_ptr();
    let back = cell.take_call(input).unwrap_err();
    assert_eq!(back, vec![1u8, 2, 3]);
    assert_eq!(back.as_ptr(), ptr);
}

#[test]
fn args_take_applies_transform_to_input() {
    let mut cell: CallbackCellArgs<u64, u64, Box<dyn FnOnce(u64) -> u64>> = CallbackCellArgs::new();
    cell.put(Box::new(|x| x * 3 + 1));
    assert_eq!(cell.take_call(7), Ok(22));
    assert_eq!(cell.take_call(7), Err(7));
}

#[test]
fn debug_string_reports_occupancy() {
    let mut cell: CallbackCell<Action> = CallbackCell::default();
    assert_eq!(cell.debug_string(), "CallbackCell(NULL)");
    cell.put(Box::new(|| {}));
    assert_eq!(cell.debug_string(), "CallbackCell(NOT NULL)");
    assert!(cell.take_call());
    assert_eq!(cell.debug_string(), "CallbackCell(NULL)");

    let mut args: CallbackCellArgs<u8, u8, fn(u8) -> u8> = CallbackCellArgs::default();
    assert_eq!(args.debug_string(), "CallbackCellArgs(NULL)");
    args.put(|x| x);
    assert_eq!(args.debug_string(), "CallbackCellArgs(NOT NULL)");
    assert_eq!(args.take_call(9), Ok(9));
    assert_eq!(args.debug_string(), "CallbackCellArgs(NULL)");
}
