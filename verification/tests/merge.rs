use orga::collections::merge::{merge_next, MergeStep};

fn collect(
    map: &Vec<(Vec<u8>, Option<Vec<u8>>)>,
    store: &Vec<(Vec<u8>, Vec<u8>)>,
    forward: bool,
) -> Vec<(Vec<u8>, Vec<u8>)> {
    let (mut mi, mut si) = if forward { (0, 0) } else { (map.len(), store.len()) };
    let mut out = vec![];
    loop {
        match merge_next(map, mi, store, si, forward) {
            MergeStep::End => return out,
            MergeStep::Item { key, value, map_pos, store_pos } => {
                out.push((key, value));
                mi = map_pos;
                si = store_pos;
            }
        }
    }
}

#[test]
fn merge_overlays_writes_on_store() {
    let map = vec![
        (vec![1], Some(vec![10])),
        (vec![3], None),
        (vec![5], Some(vec![50])),
    ];
    let store = vec![
        (vec![1], vec![0]),
        (vec![2], vec![20]),
        (vec![3], vec![30]),
        (vec![4], vec![40]),
    ];
    assert_eq!(
        collect(&map, &store, true),
        vec![(vec![1], vec![10]), (vec![2], vec![20]), (vec![4], vec![40]), (vec![5], vec![50])]
    );
    assert_eq!(
        collect(&map, &store, false),
        vec![(vec![5], vec![50]), (vec![4], vec![40]), (vec![2], vec![20]), (vec![1], vec![10])]
    );
}

#[test]
fn merge_orders_prefix_first() {
    let map = vec![(vec![1, 2], Some(vec![7]))];
    let store = vec![(vec![1], vec![6]), (vec![1, 3], vec![8])];
    assert_eq!(
        collect(&map, &store, true),
        vec![(vec![1], vec![6]), (vec![1, 2], vec![7]), (vec![1, 3], vec![8])]
    );
}

#[test]
fn merge_of_deletions_only_is_empty() {
    let map = vec![(vec![1], None), (vec![2], None)];
    let store = vec![(vec![1], vec![1]), (vec![2], vec![2])];
    assert!(collect(&map, &store, true).is_empty());
}
