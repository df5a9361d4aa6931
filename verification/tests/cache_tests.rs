use std::cell::RefCell;
use std::collections::HashSet;

use sharded_cache::{Cache, CacheStrategy, KeyHasher};

/// Maps small keys to spelled-out strings and counts how many loads ran.
#[derive(Default, Clone)]
struct TestStrategy {
    count: u32,
}

impl TestStrategy {
    fn count(&self) -> u32 {
        self.count
    }
}

impl CacheStrategy for TestStrategy {
    type Key = u32;
    type Val = String;
    type Err = ();

    fn spec_match(key: u32, val: String) -> bool {
        val.starts_with(&key.to_string())
    }

    fn load(&mut self, key: &u32) -> Result<String, ()> {
        self.count += 1;
        Ok(match key {
            1 => "1one",
            2 => "2two",
            3 => "3three",
            4 => "4four",
            5 => "5five",
            _ => "unknown",
        }
        .into())
    }

    fn match_kv(key: &u32, val: &String) -> bool {
        val.starts_with(&key.to_string())
    }
}

/// The identity hash: key `k` addresses slot `k % capacity`.
#[derive(Default)]
struct TestHashBuilder;

impl KeyHasher<u32> for TestHashBuilder {
    fn hash_of(key: u32) -> u64 {
        key as u64
    }

    fn hash(key: &u32) -> u64 {
        *key as u64
    }

    fn key_eq(a: &u32, b: &u32) -> bool {
        a == b
    }
}

/// Fails every load for key 0, succeeds (and counts) otherwise.
#[derive(Default, Clone)]
struct FlakyStrategy {
    count: u32,
}

impl CacheStrategy for FlakyStrategy {
    type Key = u32;
    type Val = String;
    type Err = String;

    fn spec_match(key: u32, val: String) -> bool {
        val.starts_with(&key.to_string())
    }

    fn load(&mut self, key: &u32) -> Result<String, String> {
        self.count += 1;
        if *key == 0 {
            Err("load refused".to_string())
        } else {
            Ok(format!("{key}!"))
        }
    }

    fn match_kv(key: &u32, val: &String) -> bool {
        val.starts_with(&key.to_string())
    }
}

#[test]
fn test_multiple_readers_same_key() {
    let s = TestStrategy::default();
    let c = Cache::<TestStrategy, TestHashBuilder>::new::<4>(s);

    let s1 = c.read(&1).unwrap();
    assert_eq!(c.clone_strategy().count, 1);
    let s2 = c.read(&1).unwrap();
    assert_eq!(c.clone_strategy().count, 1);

    assert_eq!(s1.get(), s2.get());
    s1.release();
    s2.release();
}

#[test]
fn test_read_and_write_same_key() {
    let s = TestStrategy::default();
    let c = Cache::<TestStrategy, TestHashBuilder>::new::<4>(s);

    {
        let data = c.read(&1).unwrap();
        assert_eq!(c.clone_strategy().count, 1);
        assert_eq!(data.get(), "1one");
        data.release();
    }
    {
        let mut data = c.write(&1).unwrap();
        assert_eq!(c.clone_strategy().count, 1);
        let modified = data.get().clone() + "-mod";
        data.set(modified);
        data.release();
    }
    {
        let data = c.read(&1).unwrap();
        assert_eq!(c.clone_strategy().count, 1);
        assert_eq!(data.get(), "1one-mod");
        data.release();
    }
}

#[test]
fn test_read_diff_keys() {
    let s = TestStrategy::default();
    let c = Cache::<TestStrategy, TestHashBuilder>::new::<4>(s);

    let s1 = c.write(&1).unwrap();
    assert_eq!(c.clone_strategy().count, 1);
    let s2 = c.write(&2).unwrap();
    assert_eq!(c.clone_strategy().count, 2);

    assert_ne!(s1.get(), s2.get());
    s1.release();
    s2.release();
}

#[test]
fn test_collision() {
    let s = TestStrategy::default();
    let c = Cache::<TestStrategy, TestHashBuilder>::new::<4>(s);

    {
        let s1 = c.read(&1).unwrap();
        assert_eq!(c.clone_strategy().count, 1);
        assert_eq!(s1.get(), "1one");
        s1.release();
    }
    {
        // won't change here
        let s1 = c.read(&1).unwrap();
        assert_eq!(c.clone_strategy().count, 1);
        assert_eq!(s1.get(), "1one");
        s1.release();
    }
    {
        // will change here since `5 % 4 = 1`
        let s2 = c.read(&5).unwrap();
        assert_eq!(c.clone_strategy().count, 2);
        assert_eq!(s2.get(), "5five");
        s2.release();
    }
    {
        // hence, third load
        let s1 = c.read(&1).unwrap();
        assert_eq!(c.clone_strategy().count, 3);
        assert_eq!(s1.get(), "1one");
        s1.release();
    }
}

#[test]
fn test_grouped_flush() {
    let s = TestStrategy::default();
    let c = Cache::<TestStrategy, TestHashBuilder>::new::<4>(s);

    assert_eq!(c.clone_strategy().count(), 0);

    {
        let data = c.read(&1).unwrap();
        assert_eq!(data.get(), "1one");
        assert_eq!(c.clone_strategy().count(), 1);
        data.release();
    }

    let mut wb = c.write_batch();

    wb.write(&1, |val: &String| (val.clone() + "-mod", ())).unwrap();
    assert_eq!(c.clone_strategy().count(), 1);

    wb.write(&2, |val: &String| (val.clone() + "-mod", ())).unwrap();
    assert_eq!(c.clone_strategy().count(), 2);

    wb.write(&1, |val: &String| (val.clone() + "-mod", ())).unwrap();
    assert_eq!(c.clone_strategy().count(), 2);

    let hs = RefCell::new(HashSet::from(["1one-mod-mod", "2two-mod"]));
    wb.flush_all(|val: &String| {
        assert!(hs.borrow_mut().remove(val.as_str()));
        Ok::<_, ()>(())
    })
    .unwrap();
    assert!(hs.borrow().is_empty());

    {
        let data = c.read(&1).unwrap();
        assert_eq!(data.get(), "1one-mod-mod");
        assert_eq!(c.clone_strategy().count(), 2);
        data.release();
    }
}

#[test]
fn test_load_error_is_propagated() {
    let s = FlakyStrategy::default();
    let c = Cache::<FlakyStrategy, TestHashBuilder>::new::<4>(s);

    let e = match c.read(&0) {
        Err(e) => e,
        Ok(_) => panic!("expected a load error"),
    };
    assert_eq!(e, "load refused");
    assert_eq!(c.clone_strategy().count, 1);

    // The slot stayed empty, so the next read tries to load again.
    assert!(c.read(&0).is_err());
    assert_eq!(c.clone_strategy().count, 2);

    let e = match c.write(&0) {
        Err(e) => e,
        Ok(_) => panic!("expected a load error"),
    };
    assert_eq!(e, "load refused");
    assert_eq!(c.clone_strategy().count, 3);
}

#[test]
fn test_failed_reload_keeps_previous_value() {
    let s = FlakyStrategy::default();
    let c = Cache::<FlakyStrategy, TestHashBuilder>::new::<4>(s);

    {
        let g = c.read(&4).unwrap();
        assert_eq!(g.get(), "4!");
        assert_eq!(c.clone_strategy().count, 1);
        g.release();
    }

    // Key 0 collides with key 4 (`0 % 4 == 4 % 4`), and its load fails: the
    // slot must keep key 4's value untouched.
    assert!(c.write(&0).is_err());
    assert_eq!(c.clone_strategy().count, 2);

    {
        let g = c.read(&4).unwrap();
        assert_eq!(g.get(), "4!");
        assert_eq!(c.clone_strategy().count, 2);
        g.release();
    }
}

#[test]
fn test_capacity_one_collisions() {
    let s = TestStrategy::default();
    let c = Cache::<TestStrategy, TestHashBuilder>::new::<1>(s);

    {
        let g = c.read(&1).unwrap();
        assert_eq!(g.get(), "1one");
        g.release();
    }
    {
        let g = c.read(&2).unwrap();
        assert_eq!(g.get(), "2two");
        g.release();
    }
    {
        let g = c.read(&1).unwrap();
        assert_eq!(g.get(), "1one");
        g.release();
    }
    assert_eq!(c.clone_strategy().count, 3);
}

#[test]
fn test_empty_batch_flush() {
    let s = TestStrategy::default();
    let c = Cache::<TestStrategy, TestHashBuilder>::new::<4>(s);

    let wb = c.write_batch();
    let calls = RefCell::new(0u32);
    wb.flush_all(|_val: &String| {
        *calls.borrow_mut() += 1;
        Ok::<_, ()>(())
    })
    .unwrap();
    assert_eq!(*calls.borrow(), 0);
}

#[test]
fn test_flush_error_aborts_and_releases() {
    let s = TestStrategy::default();
    let c = Cache::<TestStrategy, TestHashBuilder>::new::<4>(s);

    let mut wb = c.write_batch();
    wb.write(&1, |val: &String| (val.clone() + "-mod", ())).unwrap();
    wb.write(&2, |val: &String| (val.clone() + "-mod", ())).unwrap();

    let calls = RefCell::new(0u32);
    let r = wb.flush_all(|_val: &String| {
        *calls.borrow_mut() += 1;
        Err::<(), u32>(7)
    });
    assert_eq!(r.unwrap_err(), 7);
    // The first delivery failed and aborted the drain.
    assert_eq!(*calls.borrow(), 1);

    // Every guard was released, delivered or not: both slots are reachable
    // again, and the batch's modifications were stored.
    {
        let g = c.read(&1).unwrap();
        assert_eq!(g.get(), "1one-mod");
        g.release();
    }
    {
        let g = c.read(&2).unwrap();
        assert_eq!(g.get(), "2two-mod");
        g.release();
    }
}

#[test]
fn test_batch_result_passthrough() {
    let s = TestStrategy::default();
    let c = Cache::<TestStrategy, TestHashBuilder>::new::<4>(s);

    let mut wb = c.write_batch();
    let len = wb.write(&3, |val: &String| (val.clone(), val.len())).unwrap();
    assert_eq!(len, "3three".len());
    wb.flush_all(|_val: &String| Ok::<_, ()>(())).unwrap();
}

#[test]
fn test_into_strategy() {
    let s = TestStrategy::default();
    let c = Cache::<TestStrategy, TestHashBuilder>::new::<4>(s);

    {
        let g = c.read(&2).unwrap();
        assert_eq!(g.get(), "2two");
        g.release();
    }
    let s = c.into_strategy();
    assert_eq!(s.count, 1);
}
