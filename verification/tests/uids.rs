use gbackup::uids::{chunk_len, cut, difference, list_uids, pick, write_numerals, write_uid_set};
use std::collections::HashSet;

fn set(uids: &[u32]) -> HashSet<u32> {
    uids.iter().copied().collect()
}

#[test]
fn cutting_keeps_order_and_loses_nothing() {
    let list = vec![1, 2, 3, 4, 5];
    let pieces = cut(&list, 3);
    assert_eq!(pieces, vec![vec![1, 2, 3], vec![4, 5]]);
    assert_eq!(pieces.concat(), list);
    assert_eq!(cut(&vec![], 3), Vec::<Vec<u32>>::new());
    assert_eq!(cut(&vec![7, 8], 1), vec![vec![7], vec![8]]);
}

#[test]
fn share_of_a_worker() {
    assert_eq!(chunk_len(0, 1), 1);
    assert_eq!(chunk_len(5, 2), 3);
    assert_eq!(chunk_len(10, 10), 2);
    assert_eq!(chunk_len(3, 10), 1);
}

#[test]
fn never_more_pieces_than_workers() {
    for total in 0..40usize {
        for workers in 1..12usize {
            let list: Vec<u32> = (0..total as u32).collect();
            let pieces = cut(&list, chunk_len(total, workers));
            assert!(pieces.len() <= workers);
            assert!(pieces.iter().all(|piece| !piece.is_empty()));
        }
    }
}

#[test]
fn only_unknown_uids_are_left() {
    assert_eq!(difference(&set(&[1, 2, 3, 4]), &set(&[2, 4, 9])), set(&[1, 3]));
    assert_eq!(difference(&set(&[1]), &set(&[1])), set(&[]));
    assert_eq!(difference(&set(&[]), &set(&[1])), set(&[]));
}

#[test]
fn picks_as_many_as_asked() {
    let all = set(&[10, 20, 30]);
    let picked = pick(&all, 2);
    assert_eq!(picked.len(), 2);
    assert!(picked.is_subset(&all));
    assert_eq!(pick(&all, 5), all);
    assert_eq!(pick(&all, 0), set(&[]));
}

#[test]
fn lists_each_member_once() {
    let mut list = list_uids(&set(&[3, 1, 2]));
    list.sort();
    assert_eq!(list, vec![1, 2, 3]);
}

#[test]
fn uid_set_has_commas_between_numerals() {
    assert_eq!(write_uid_set(&vec![7]), "7");
    assert_eq!(write_uid_set(&vec![1, 20, 4294967295]), "1,20,4294967295");
    assert_eq!(write_uid_set(&vec![]), "");
    let read: Vec<u32> =
        write_uid_set(&vec![10, 0, 305]).split(',').map(|n| n.parse().unwrap()).collect();
    assert_eq!(read, vec![10, 0, 305]);
    assert_eq!(write_numerals(&vec![90, 9]), vec!["90".to_string(), "9".to_string()]);
}

#[test]
fn enough_messages_for_every_worker() {
    for workers in 1..8usize {
        for total in workers * workers..workers * workers + 20 {
            let list: Vec<u32> = (0..total as u32).collect();
            assert_eq!(cut(&list, chunk_len(total, workers)).len(), workers);
        }
    }
}

#[test]
fn all_pieces_but_the_last_are_full() {
    let list: Vec<u32> = (0..11).collect();
    let lengths: Vec<usize> = cut(&list, 4).iter().map(|piece| piece.len()).collect();
    assert_eq!(lengths, vec![4, 4, 3]);
}
