use orga::collections::{Deque, OrderedMap};

fn contents(deque: &Deque<u32>) -> Vec<u32> {
    deque.as_slice().to_vec()
}

#[test]
fn deque_u32_push_front() {
    let mut deque: Deque<u32> = Deque::new();

    deque.push_front(42).unwrap();
    assert_eq!(deque.len(), 1);
}

#[test]
fn deque_u32_push_back() {
    let mut deque: Deque<u32> = Deque::new();

    deque.push_back(42).unwrap();
    assert_eq!(deque.len(), 1);
}

#[test]
fn deque_u32_pop_front_empty() {
    let mut deque: Deque<u32> = Deque::new();

    assert!(deque.pop_front().unwrap().is_none());
}

#[test]
fn deque_u32_pop_front() {
    let mut deque: Deque<u32> = Deque::new();

    deque.push_front(42).unwrap();
    assert_eq!(deque.pop_front().unwrap().unwrap(), 42);
    assert!(deque.is_empty());
}

#[test]
fn deque_u32_pop_back_empty() {
    let mut deque: Deque<u32> = Deque::new();

    assert!(deque.pop_back().unwrap().is_none());
}

#[test]
fn deque_u32_pop_back() {
    let mut deque: Deque<u32> = Deque::new();

    deque.push_back(42).unwrap();
    assert_eq!(deque.pop_back().unwrap().unwrap(), 42);
    assert!(deque.is_empty());
}

#[test]
fn deque_u32_get() {
    let mut deque: Deque<u32> = Deque::new();

    deque.push_front(12).unwrap();
    deque.push_back(13).unwrap();
    deque.push_front(1).unwrap();

    assert_eq!(*deque.get(0).unwrap(), 1);
    assert_eq!(*deque.get(1).unwrap(), 12);
    assert_eq!(*deque.get(2).unwrap(), 13);
}

#[test]
fn deque_u32_get_iob() {
    let mut deque: Deque<u32> = Deque::new();

    deque.push_front(12).unwrap();
    deque.push_back(13).unwrap();
    deque.push_front(1).unwrap();

    assert!(deque.get(3).is_none());
}

#[test]
fn deque_u32_front() {
    let mut deque: Deque<u32> = Deque::new();

    deque.push_front(42).unwrap();
    assert_eq!(*deque.front().unwrap(), 42)
}

#[test]
fn deque_u32_back() {
    let mut deque: Deque<u32> = Deque::new();

    deque.push_back(42).unwrap();
    assert_eq!(*deque.back().unwrap(), 42)
}

#[test]
fn deque_u32_front_back() {
    let mut deque: Deque<u32> = Deque::new();

    deque.push_back(42).unwrap();

    assert_eq!(*deque.front().unwrap(), *deque.back().unwrap())
}

#[test]
fn deque_u32_get_mut() {
    let mut deque: Deque<u32> = Deque::new();

    deque.push_front(42).unwrap();
    assert_eq!(*deque.get_mut(0).unwrap(), 42)
}

#[test]
fn deque_complex_types() {
    let mut deque: Deque<OrderedMap<u32, u32>> = Deque::new();

    deque.push_front(OrderedMap::new()).unwrap();

    let map = deque.pop_front().unwrap().unwrap();

    assert!(map.get(&1).is_none());
}

#[test]
fn deque_u32_iter() {
    let mut deque: Deque<u32> = Deque::new();

    deque.push_front(42).unwrap();
    deque.push_back(43).unwrap();
    deque.push_front(1).unwrap();

    let mut iter = deque.as_slice().iter();

    assert_eq!(*iter.next().unwrap(), 1);
    assert_eq!(*iter.next().unwrap(), 42);
    assert_eq!(*iter.next().unwrap(), 43);
    assert!(iter.next().is_none());
}

#[test]
fn deque_iter_rev() {
    let mut deque: Deque<u32> = Deque::new();

    deque.push_back(1).unwrap();
    deque.push_back(2).unwrap();
    deque.push_back(3).unwrap();

    let mut iter = deque.as_slice().iter().rev();
    assert_eq!(*iter.next().unwrap(), 3);
    assert_eq!(*iter.next().unwrap(), 2);
    assert_eq!(*iter.next().unwrap(), 1);
    assert!(iter.next().is_none());
}

#[test]
fn deque_iter_rev_noflush() {
    let mut deque: Deque<u32> = Deque::new();

    deque.push_back(1).unwrap();
    deque.push_back(2).unwrap();
    deque.push_back(3).unwrap();

    let mut iter = deque.as_slice().iter().rev();
    assert_eq!(*iter.next().unwrap(), 3);
    assert_eq!(*iter.next().unwrap(), 2);
    assert_eq!(*iter.next().unwrap(), 1);
    assert!(iter.next().is_none());
}

#[test]
fn deque_swap() {
    let mut deque: Deque<u32> = Deque::new();

    deque.push_front(42).unwrap();
    deque.push_back(43).unwrap();
    deque.push_front(1).unwrap();

    deque.swap(0, 1).unwrap();

    assert_eq!(contents(&deque), vec![42, 1, 43]);
}

#[test]
fn deque_swap_remove_front() {
    let mut deque: Deque<u32> = Deque::new();

    deque.push_back(42).unwrap();
    deque.push_back(43).unwrap();
    deque.push_back(1).unwrap();

    deque.swap_remove_front(1).unwrap();

    assert_eq!(contents(&deque), vec![42, 1]);
}

#[test]
fn deque_swap_remove_back() {
    let mut deque: Deque<u32> = Deque::new();

    deque.push_back(42).unwrap();
    deque.push_back(43).unwrap();
    deque.push_back(1).unwrap();

    deque.swap_remove_back(0).unwrap();

    assert_eq!(contents(&deque), vec![1, 43]);
}

#[test]
fn deque_retain() {
    let mut deque: Deque<u32> = Deque::new();

    deque.push_back(42).unwrap();
    deque.push_back(43).unwrap();
    deque.push_back(1).unwrap();

    deque.retain(|x| Ok(*x != 43)).unwrap();

    assert_eq!(contents(&deque), vec![42, 1]);
}

#[test]
fn deque_retain_order_preservation() {
    let mut deque: Deque<u32> = Deque::new();

    for i in 1..=6 {
        deque.push_back(i).unwrap();
    }

    deque.retain(|x| Ok(*x != 3 && *x != 4)).unwrap();

    assert_eq!(contents(&deque), vec![1, 2, 5, 6]);
}

#[test]
fn deque_retained_with_popped_element() {
    let mut deque: Deque<u32> = Deque::new();

    for i in 1..=6 {
        deque.push_back(i).unwrap();
    }

    deque.pop_front().unwrap().unwrap();

    deque.retain(|x| Ok(*x != 1)).unwrap();

    assert_eq!(contents(&deque), vec![2, 3, 4, 5, 6]);
}

#[test]
fn deque_retain_empty() {
    let mut deque: Deque<u32> = Deque::new();
    deque.retain(|_| Ok(true)).unwrap();

    let mut iter = deque.as_slice().iter();
    assert!(iter.next().is_none());
}

#[test]
fn deque_retain_unordered() {
    let mut deque: Deque<u32> = Deque::new();

    for i in 1..=6 {
        deque.push_back(i).unwrap();
    }

    deque.retain_unordered(|x| Ok(*x != 3 && *x != 4)).unwrap();

    assert_eq!(contents(&deque), vec![1, 2, 6, 5]);
}

#[test]
fn deque_retain_unordered_overlap() {
    let mut deque: Deque<u32> = Deque::new();

    for i in 1..=6 {
        deque.push_back(i).unwrap();
    }

    deque
        .retain_unordered(|x| Ok(*x != 3 && *x != 4 && *x != 6))
        .unwrap();

    assert_eq!(contents(&deque), vec![1, 2, 5]);
}

#[test]
fn deque_retain_unordered_single() {
    let mut deque: Deque<u32> = Deque::new();

    deque.push_back(1).unwrap();

    deque.retain_unordered(|x| Ok(*x != 1)).unwrap();

    let mut iter = deque.as_slice().iter();

    assert!(iter.next().is_none());
}

#[test]
fn deque_retain_unordered_none() {
    let mut deque: Deque<u32> = Deque::new();
    deque.retain_unordered(|_| Ok(true)).unwrap();

    let mut iter = deque.as_slice().iter();
    assert!(iter.next().is_none());
}

#[test]
fn deque_push_pop_roundtrip_restores_contents() {
    let mut deque: Deque<u32> = Deque::new();
    deque.push_back(7).unwrap();
    deque.push_back(8).unwrap();
    let before = contents(&deque);
    let meta_before = deque.meta;
    deque.push_front(1).unwrap();
    assert_eq!(deque.pop_front().unwrap(), Some(1));
    assert_eq!(contents(&deque), before);
    assert_eq!(deque.meta, meta_before);
}
