use media_pipeline::cover_ids::{cover_ids_by_owner, entity_cover_ids};

const MAGIC: i32 = -1;

fn relations() -> Vec<(i32, i32)> {
    // owner 1 owns files 10, 11, 12; owner 2 owns files 12 and 13
    vec![(1, 10), (1, 11), (1, 12), (2, 12), (2, 13)]
}

fn files() -> Vec<(i32, Option<i32>)> {
    // file 10 and 12 share cover 100; file 11 carries the magic placeholder;
    // file 13 has no cover at all
    vec![(10, Some(100)), (11, Some(MAGIC)), (12, Some(100)), (13, None)]
}

#[test]
fn entity_cover_ids_deduplicates() {
    let ids = entity_cover_ids(1, &relations(), &files(), MAGIC);
    assert_eq!(ids, vec![100]);
}

#[test]
fn entity_cover_ids_excludes_magic_and_missing() {
    let ids = entity_cover_ids(2, &relations(), &files(), MAGIC);
    assert_eq!(ids, vec![100]);
    let none = entity_cover_ids(99, &relations(), &files(), MAGIC);
    assert!(none.is_empty());
}

#[test]
fn cover_ids_by_owner_keeps_requested_order() {
    let owners = vec![2, 1, 7];
    let joined = cover_ids_by_owner(&owners, &relations(), &files(), MAGIC);
    assert_eq!(joined.len(), 3);
    assert_eq!(joined[0], (2, vec![100]));
    assert_eq!(joined[1], (1, vec![100]));
    assert_eq!(joined[2], (7, vec![]));
}
