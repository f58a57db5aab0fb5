use lispvm::{LispHeap, LispRecord, LispValue};

fn key(s: &str) -> String {
    s.to_string()
}

#[test]
fn disjoint_properties_are_united() {
    let mut heap = LispHeap::new();
    let mut r1 = LispRecord::from_number(1);
    r1.set_property(key("a"), LispValue::Number(10));
    let mut r2 = LispRecord::from_number(2);
    r2.set_property(key("b"), LispValue::Number(20));
    heap.insert(key("s"), r1);
    heap.insert(key("s"), r2);
    let got = heap.get(&key("s")).unwrap();
    assert_eq!(got.to_number().unwrap(), 2);
    assert!(got.property(&key("a")).unwrap().equals(&LispValue::Number(10)));
    assert!(got.property(&key("b")).unwrap().equals(&LispValue::Number(20)));
    assert!(got.property(&key("c")).is_none());
}

#[test]
fn overlapping_property_is_overwritten_only() {
    let mut heap = LispHeap::new();
    let mut r1 = LispRecord::from_number(1);
    r1.set_property(key("a"), LispValue::Number(10));
    r1.set_property(key("b"), LispValue::Number(11));
    let mut r2 = LispRecord::from_char('z');
    r2.set_property(key("a"), LispValue::Number(99));
    heap.insert(key("s"), r1);
    heap.insert(key("s"), r2);
    let got = heap.get(&key("s")).unwrap();
    assert_eq!(got.to_char().unwrap(), 'z');
    assert!(got.property(&key("a")).unwrap().equals(&LispValue::Number(99)));
    assert!(got.property(&key("b")).unwrap().equals(&LispValue::Number(11)));
}

#[test]
fn get_returns_a_snapshot() {
    let mut heap = LispHeap::new();
    heap.insert(key("s"), LispRecord::from_number(1));
    let mut copy = heap.get(&key("s")).unwrap();
    copy.set_property(key("p"), LispValue::Number(3));
    assert!(heap.get(&key("s")).unwrap().property(&key("p")).is_none());
    assert!(heap.get(&key("t")).is_none());
}
