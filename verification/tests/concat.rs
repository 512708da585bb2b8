use typeslice::Concat;

fn joined<'a>(left: &'a Concat<'a>, right: &'a Concat<'a>) -> Concat<'a> {
    match Concat::join(left, right) {
        Some(tree) => tree,
        None => panic!("the two trees together are too long"),
    }
}

fn doubled_len(tree: &Concat<'_>, times: u32) -> Option<usize> {
    if times == 0 {
        return Some(tree.len());
    }
    match Concat::join(tree, tree) {
        Some(twice) => doubled_len(&twice, times - 1),
        None => None,
    }
}

#[test]
fn len_is_fixed_by_shape() {
    let a = Concat::byte(b'A');
    let b = Concat::byte(b'B');
    let ab = joined(&a, &b);
    let none = Concat::empty();
    let padded = joined(&none, &ab);
    assert_eq!(none.len(), 0);
    assert_eq!(a.len(), 1);
    assert_eq!(ab.len(), 2);
    assert_eq!(padded.len(), 2);
}

#[test]
fn grouping_does_not_change_the_bytes() {
    let a = Concat::byte(b'A');
    let b = Concat::byte(b'B');
    let c = Concat::byte(b'C');
    let ab = joined(&a, &b);
    let bc = joined(&b, &c);
    let left_first = joined(&ab, &c);
    let right_first = joined(&a, &bc);
    assert_eq!(left_first.to_owned_bytes(), b"ABC");
    assert_eq!(right_first.to_owned_bytes(), b"ABC");
    assert_eq!(left_first.to_owned_bytes().len(), left_first.len());
    assert_eq!(right_first.to_owned_bytes().len(), right_first.len());
}

#[test]
fn empty_leaves_add_nothing() {
    let none = Concat::empty();
    assert_eq!(none.to_owned_bytes(), b"");
    let x = Concat::byte(b'x');
    let left = joined(&none, &x);
    let both = joined(&left, &none);
    assert_eq!(both.to_owned_bytes(), b"x");
    assert_eq!(both.len(), 1);
    let nothing = joined(&none, &none);
    assert_eq!(nothing.len(), 0);
    assert_eq!(nothing.to_owned_bytes(), b"");
}

#[test]
fn a_shared_subtree_is_written_every_time() {
    let a = Concat::byte(b'a');
    let b = Concat::byte(b'b');
    let ab = joined(&a, &b);
    let twice = joined(&ab, &ab);
    assert_eq!(twice.len(), 4);
    assert_eq!(twice.to_owned_bytes(), b"abab");
}

#[test]
fn join_counts_what_it_joins() {
    let a = Concat::byte(b'a');
    assert_eq!(doubled_len(&a, 0), Some(1));
    assert_eq!(doubled_len(&a, 1), Some(2));
    assert_eq!(doubled_len(&a, 10), Some(1024));
    assert_eq!(doubled_len(&a, usize::BITS - 1), Some(1 << (usize::BITS - 1)));
}

#[test]
fn join_refuses_a_length_beyond_usize() {
    let a = Concat::byte(b'a');
    assert_eq!(doubled_len(&a, usize::BITS), None);
    let none = Concat::empty();
    assert_eq!(doubled_len(&none, usize::BITS), Some(0));
}

#[test]
fn write_into_fills_the_front_and_returns_the_rest() {
    let h = Concat::byte(b'h');
    let i = Concat::byte(b'i');
    let hi = joined(&h, &i);
    let mut buffer = [b'.'; 5];
    {
        let rest = hi.write_into(&mut buffer);
        assert_eq!(rest.len(), 3);
        assert_eq!(rest, b"...");
        let rest = hi.write_into(rest);
        assert_eq!(rest.len(), 1);
        rest[0] = b'!';
    }
    assert_eq!(&buffer, b"hihi!");
}

#[test]
fn write_into_a_buffer_of_exactly_the_length() {
    let a = Concat::byte(1);
    let b = Concat::byte(2);
    let c = Concat::byte(3);
    let bc = joined(&b, &c);
    let abc = joined(&a, &bc);
    let mut buffer = [0u8; 3];
    let rest_len = abc.write_into(&mut buffer).len();
    assert_eq!(rest_len, 0);
    assert_eq!(buffer, [1, 2, 3]);
    let none = Concat::empty();
    let mut nothing = [0u8; 0];
    assert_eq!(none.write_into(&mut nothing).len(), 0);
}

#[test]
fn write_into_a_pair_of_bytes_is_as_any_join() {
    let a = Concat::byte(b'a');
    let b = Concat::byte(b'b');
    let none = Concat::empty();
    let pair = joined(&a, &b);
    let a_padded = joined(&a, &none);
    let long_way = joined(&a_padded, &b);
    let mut direct = [0u8; 2];
    let mut stepwise = [0u8; 2];
    assert_eq!(pair.write_into(&mut direct).len(), 0);
    assert_eq!(long_way.write_into(&mut stepwise).len(), 0);
    assert_eq!(direct, *b"ab");
    assert_eq!(direct, stepwise);
}

#[test]
fn bytes_walks_left_to_right() {
    let a = Concat::byte(b'A');
    let b = Concat::byte(b'B');
    let c = Concat::byte(b'C');
    let none = Concat::empty();
    let ab = joined(&a, &b);
    let nc = joined(&none, &c);
    let abc = joined(&ab, &nc);
    let mut walk = abc.bytes();
    assert_eq!(walk.size_hint(), (3, Some(3)));
    assert_eq!(walk.next(), Some(b'A'));
    assert_eq!(walk.next(), Some(b'B'));
    assert_eq!(walk.size_hint(), (1, Some(1)));
    assert_eq!(walk.next(), Some(b'C'));
    assert_eq!(walk.next(), None);
    assert_eq!(walk.next(), None);
    assert_eq!(walk.size_hint(), (0, Some(0)));

    let mut again = abc.bytes();
    assert_eq!(again.next(), Some(b'A'));
}

#[test]
fn bytes_and_buffer_agree() {
    let a = Concat::byte(10);
    let b = Concat::byte(20);
    let c = Concat::byte(30);
    let ab = joined(&a, &b);
    let abc = joined(&ab, &c);
    let mut walked = Vec::new();
    let mut walk = abc.bytes();
    while let Some(byte) = walk.next() {
        walked.push(byte);
    }
    assert_eq!(walked, abc.to_owned_bytes());
    assert_eq!(walked, vec![10, 20, 30]);
}

#[test]
fn equal_len_compares_lengths_only() {
    let a = Concat::byte(b'a');
    let b = Concat::byte(b'b');
    let ab = joined(&a, &b);
    assert!(ab.equal_len(b"ab"));
    assert!(ab.equal_len(b"zz"));
    assert!(!ab.equal_len(b"a"));
    assert!(!ab.equal_len(b"abc"));
    assert!(Concat::empty().equal_len(b""));
    assert!(!Concat::empty().equal_len(b"a"));
}
