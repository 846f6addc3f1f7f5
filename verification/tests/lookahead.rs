use std::cell::Cell;
use std::rc::Rc;
use utf8_reader::lookahead::Lookahead;

/// An iterator over `0..limit` that counts how often it was asked.
struct Counting {
    next: u32,
    limit: u32,
    pulls: Rc<Cell<usize>>,
}

impl Iterator for Counting {
    type Item = u32;

    fn next(&mut self) -> Option<u32> {
        self.pulls.set(self.pulls.get() + 1);
        if self.next < self.limit {
            self.next += 1;
            Some(self.next - 1)
        } else {
            None
        }
    }
}

fn counting(limit: u32) -> (Counting, Rc<Cell<usize>>) {
    let pulls = Rc::new(Cell::new(0));
    (Counting { next: 0, limit, pulls: pulls.clone() }, pulls)
}

#[test]
fn peek_then_consume_in_order() {
    let mut la = Lookahead::new(vec![1, 2, 3, 4].into_iter());
    assert_eq!(la.lookahead(2), Some(&3));
    assert_eq!(la.consume(), Some(1));
    assert_eq!(la.consume(), Some(2));
    assert_eq!(la.lookahead(0), Some(&3));
}

#[test]
fn peek_beyond_the_end_is_absent_and_keeps_order() {
    let mut la = Lookahead::new(vec![1, 2, 3].into_iter());
    assert_eq!(la.lookahead(3), None);
    assert_eq!(la.lookahead(10), None);
    assert_eq!(la.consume(), Some(1));
    assert_eq!(la.lookahead(1), Some(&3));
    assert_eq!(la.lookahead(2), None);
    assert_eq!(la.consume(), Some(2));
    assert_eq!(la.consume(), Some(3));
    assert_eq!(la.consume(), None);
    assert_eq!(la.lookahead(0), None);
}

#[test]
fn consume_without_peeking_drains_the_producer() {
    let mut la = Lookahead::new(vec!['a', 'b'].into_iter());
    assert_eq!(la.consume(), Some('a'));
    assert_eq!(la.consume(), Some('b'));
    assert_eq!(la.consume(), None);
    assert_eq!(la.consume(), None);
}

#[test]
fn peeking_twice_gives_the_same_item() {
    let mut la = Lookahead::new(10u8..20u8);
    assert_eq!(la.lookahead(4), Some(&14));
    assert_eq!(la.lookahead(4), Some(&14));
    assert_eq!(la.lookahead(0), Some(&10));
    assert_eq!(la.lookahead(9), Some(&19));
    assert_eq!(la.lookahead(10), None);
}

#[test]
fn empty_producer_has_nothing_to_peek() {
    let mut la = Lookahead::new(Vec::<i64>::new().into_iter());
    assert_eq!(la.lookahead(0), None);
    assert_eq!(la.consume(), None);
}

#[test]
fn largest_index_is_absent_on_a_finite_producer() {
    let mut la = Lookahead::new(vec![7u8, 8u8].into_iter());
    assert_eq!(la.lookahead(usize::MAX), None);
    assert_eq!(la.consume(), Some(7));
    assert_eq!(la.consume(), Some(8));
    assert_eq!(la.consume(), None);
}

#[test]
fn interleaving_matches_plain_draining() {
    let items: Vec<u32> = (0..50).collect();
    let mut la = Lookahead::new(items.clone().into_iter());
    let mut seen = Vec::new();
    let mut k: usize = 0;
    loop {
        let ahead = (k * 7) % 5;
        let expected = items.get(seen.len() + ahead);
        assert_eq!(la.lookahead(ahead), expected);
        match la.consume() {
            Some(x) => seen.push(x),
            None => break,
        }
        k += 1;
    }
    assert_eq!(seen, items);
}

#[test]
fn pulls_only_what_the_peek_needs() {
    let (source, pulls) = counting(10);
    let mut la = Lookahead::new(source);
    assert_eq!(pulls.get(), 0);
    assert_eq!(la.lookahead(2), Some(&2));
    assert_eq!(pulls.get(), 3);
    assert_eq!(la.lookahead(1), Some(&1));
    assert_eq!(pulls.get(), 3);
    assert_eq!(la.consume(), Some(0));
    assert_eq!(pulls.get(), 3);
    assert_eq!(la.lookahead(2), Some(&3));
    assert_eq!(pulls.get(), 4);
}

#[test]
fn consume_takes_from_the_queue_before_the_producer() {
    let (source, pulls) = counting(3);
    let mut la = Lookahead::new(source);
    assert_eq!(la.lookahead(0), Some(&0));
    assert_eq!(pulls.get(), 1);
    assert_eq!(la.consume(), Some(0));
    assert_eq!(pulls.get(), 1);
    assert_eq!(la.consume(), Some(1));
    assert_eq!(pulls.get(), 2);
}

#[test]
fn failed_peek_keeps_what_it_pulled() {
    let (source, pulls) = counting(2);
    let mut la = Lookahead::new(source);
    assert_eq!(la.lookahead(5), None);
    assert_eq!(pulls.get(), 3);
    assert_eq!(la.consume(), Some(0));
    assert_eq!(la.consume(), Some(1));
    assert_eq!(pulls.get(), 3);
    assert_eq!(la.consume(), None);
}

#[test]
fn works_over_decoded_characters() {
    let mut la = Lookahead::new("a\u{E9}\u{20AC}".chars());
    assert_eq!(la.lookahead(1), Some(&'\u{E9}'));
    assert_eq!(la.consume(), Some('a'));
    assert_eq!(la.lookahead(1), Some(&'\u{20AC}'));
    assert_eq!(la.lookahead(2), None);
    assert_eq!(la.consume(), Some('\u{E9}'));
    assert_eq!(la.consume(), Some('\u{20AC}'));
    assert_eq!(la.consume(), None);
}
