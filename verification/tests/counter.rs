use habibi_coin::counter::Operation::{Increment, Read};
use habibi_coin::counter::{Counter, Operation};

fn serve(counter: &mut Counter, operations: &[Operation]) -> Vec<u32> {
    let mut seen = Vec::new();
    for operation in operations {
        match operation {
            Operation::Increment => seen.push(counter.increment()),
            Operation::Read => seen.push(counter.read()),
        }
    }
    seen
}

#[test]
fn a_fresh_counter_holds_nothing() {
    let counter = Counter::new();
    assert_eq!(counter.read(), 0);
    assert!(!counter.is_full());
}

#[test]
fn increment_adds_one_and_returns_the_new_count() {
    let mut counter = Counter::new();
    assert_eq!(counter.increment(), 1);
    assert_eq!(counter.read(), 1);
    assert_eq!(counter.increment(), 2);
    assert_eq!(counter.increment(), 3);
    assert_eq!(counter.read(), 3);
}

#[test]
fn n_increments_from_zero_leave_n() {
    for n in [0u32, 1, 2, 17, 1000, 100_000] {
        let mut counter = Counter::new();
        for expected in 1..=n {
            assert_eq!(counter.increment(), expected);
        }
        assert_eq!(counter.read(), n);
    }
}

#[test]
fn increments_count_in_whatever_order_they_are_served_among_reads() {
    let orders: [&[Operation]; 4] = [
        &[Increment, Increment, Increment, Read, Read],
        &[Read, Increment, Read, Increment, Increment],
        &[Increment, Read, Increment, Read, Increment],
        &[Read, Read, Increment, Increment, Increment],
    ];
    for order in orders {
        let mut counter = Counter::new();
        serve(&mut counter, order);
        assert_eq!(counter.read(), 3);
    }
}

#[test]
fn each_increment_sees_its_own_place_in_the_order() {
    let mut counter = Counter::new();
    let seen = serve(&mut counter, &[Read, Increment, Read, Increment, Increment, Read]);
    assert_eq!(seen, vec![0, 1, 1, 2, 3, 3]);
}

#[test]
fn reads_leave_the_count_as_it_was() {
    let mut counter = Counter::new();
    counter.increment();
    counter.increment();
    for _ in 0..100 {
        assert_eq!(counter.read(), 2);
    }
    assert_eq!(counter.read(), 2);
}
