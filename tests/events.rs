use rogue_sim::euclid::{euclid, modulo};
use rogue_sim::events::{EventQueue, Time};

#[test]
pub fn test_euclid() {
    assert_eq!(euclid(5, 7), 1);
    assert_eq!(euclid(12, 4), 4);
    assert_eq!(euclid(18, 60), 6);
    assert_eq!(euclid(8, 8), 8);
    assert_eq!(euclid(0, 17), 17);
    assert_eq!(euclid(-4, 8), 4);
    assert_eq!(euclid(-2, 1), 1);
    assert_eq!(euclid(1, 0), 1);
}

#[test]
fn modulo_is_never_negative() {
    assert_eq!(modulo(-4, 8), 4);
    assert_eq!(modulo(4, -8), 4);
    assert_eq!(modulo(-4, -8), 4);
    assert_eq!(modulo(7, 3), 1);
    assert_eq!(modulo(-9, 3), 0);
}

#[test]
pub fn test_queue() {
    let mut q = EventQueue::new();
    q.add(Time::default() + 1, "b");
    q.add(Time::default(), "a");
    q.add(Time::default(), "a2");

    assert!(q.has_next());
    assert_eq!(q.len(), 3);
    assert_eq!(q.peek(), Some((&Time::default(), &"a")));
    assert_eq!(q.next(), Some((Time::default(), "a")));
    assert_eq!(q.next(), Some((Time::default(), "a2")));
    assert_eq!(q.next(), Some((Time::default() + 1, "b")));
    assert_eq!(q.next(), None);
    assert_eq!(q.has_next(), false);
}

#[test]
pub fn test_display_time() {
    let t = Time::new(1, 1000);

    assert_eq!(t.to_string(), "1.001000");
    assert_eq!(t.to_string_with_precision(0), "1");
    assert_eq!(t.to_string_with_precision(3), "1.001");
    assert_eq!(t.to_string_with_precision(6), "1.001000");
}

#[test]
fn time_text_caps_precision_and_pads() {
    let t = Time::new(12, 5);
    assert_eq!(t.to_string_with_precision(9), "12.000005");
    assert_eq!(t.to_string_with_precision(2), "12.00");
    assert_eq!(Time::new(0, 999_999).to_string_with_precision(1), "0.9");
}

#[test]
fn time_new_normalises_sub_ticks() {
    let t = Time::new(2, 3_500_000);
    assert_eq!(t, Time { ticks: 5, micro_ticks: 500_000 });
    assert!(t.micro_ticks < 1_000_000);
    let u = Time::new(0, 999_999);
    assert_eq!(u, Time { ticks: 0, micro_ticks: 999_999 });
}

#[test]
fn time_addition_carries_sub_ticks() {
    let a = Time { ticks: 0, micro_ticks: 999_999 };
    let b = Time { ticks: 0, micro_ticks: 2 };
    assert_eq!(a + b, Time { ticks: 1, micro_ticks: 1 });
    assert_eq!(a.plus(b), Time { ticks: 1, micro_ticks: 1 });
    assert_eq!(b + a, a + b);
    let c = Time::new(3, 400_000);
    assert_eq!((a + b) + c, a + (b + c));
    assert_eq!(Time::new(4, 7) + 2, Time::new(6, 7));
}

#[test]
fn time_addition_saturates_at_the_end_of_time() {
    let last = Time { ticks: u32::MAX, micro_ticks: 999_999 };
    assert_eq!(last + 1, last);
    assert_eq!(last + Time::new(0, 1), last);
}

#[test]
fn equal_times_fire_in_insertion_order() {
    let mut q = EventQueue::new();
    q.add(Time::new(0, 0), 1);
    q.add(Time::new(0, 0), 2);
    q.add(Time::new(1, 0), 3);
    assert_eq!(q.next(), Some((Time::new(0, 0), 1)));
    assert_eq!(q.next(), Some((Time::new(0, 0), 2)));
    assert_eq!(q.next(), Some((Time::new(1, 0), 3)));
    assert_eq!(q.next(), None);
}

#[test]
fn events_pop_in_time_order_whatever_the_insertion_order() {
    let mut q = EventQueue::new();
    q.add(Time::new(5, 0), "e");
    q.add(Time::new(1, 500), "b");
    q.add(Time::new(1, 499), "a");
    q.add(Time::new(3, 0), "c");
    q.add(Time::new(3, 0), "d");
    let mut order = vec![];
    while let Some((_, x)) = q.next() {
        order.push(x);
    }
    assert_eq!(order, vec!["a", "b", "c", "d", "e"]);
    assert!(q.can_add());
}
