use code_context_graph::hash::digest_of;
use code_context_graph::merkle::MerkleBuilder;

#[test]
fn merkle_builds_root_and_diff() {
    // v1
    let mut b1 = MerkleBuilder::new().fanout(16);
    b1.add("a.txt", b"aaa");
    b1.add("b.txt", b"bbb");
    let t1 = b1.build();
    let r1 = t1.root();

    // v2 modify one file
    let mut b2 = MerkleBuilder::new().fanout(16);
    b2.add("a.txt", b"xxx");
    b2.add("b.txt", b"bbb");
    let t2 = b2.build();
    let r2 = t2.root();

    assert_ne!(r1, r2, "root must change when content changes");

    let diff = t1.diff(&t2);
    assert_eq!(diff.changed_paths, vec!["a.txt".to_string()]);
}

#[test]
fn empty_tree_has_the_digest_of_nothing_as_root() {
    let t = MerkleBuilder::new().build();
    assert_eq!(t.root(), digest_of(b""));
    assert_eq!(t.leaf_count(), 0);
}

#[test]
fn single_leaf_is_its_own_root() {
    let mut b = MerkleBuilder::new();
    b.add("a.py", b"print('a')\n");
    let t = b.build();
    assert_eq!(t.root(), digest_of(b"print('a')\n"));
}

#[test]
fn two_leaves_root_is_digest_of_concatenated_hex() {
    let mut b = MerkleBuilder::new();
    b.add("b", b"2");
    b.add("a", b"1");
    let t = b.build();
    let joined = format!("{}{}", digest_of(b"1"), digest_of(b"2"));
    assert_eq!(t.root(), digest_of(joined.as_bytes()));
}

#[test]
fn fanout_groups_consecutive_digests() {
    // Three leaves with fanout 2: (a,b) and (c) collapse, then the two collapse.
    let mut b = MerkleBuilder::new().fanout(2);
    b.add("a", b"1");
    b.add("b", b"2");
    b.add("c", b"3");
    let t = b.build();
    let left = digest_of(format!("{}{}", digest_of(b"1"), digest_of(b"2")).as_bytes());
    let right = digest_of(digest_of(b"3").as_bytes());
    assert_eq!(t.root(), digest_of(format!("{}{}", left, right).as_bytes()));

    // With fanout 3 the three leaves collapse at once.
    let mut b = MerkleBuilder::new().fanout(3);
    b.add("a", b"1");
    b.add("b", b"2");
    b.add("c", b"3");
    let all = format!("{}{}{}", digest_of(b"1"), digest_of(b"2"), digest_of(b"3"));
    assert_eq!(b.build().root(), digest_of(all.as_bytes()));
}

#[test]
fn fanout_below_two_is_ignored() {
    let mut a = MerkleBuilder::new().fanout(1);
    let mut b = MerkleBuilder::new();
    for (p, c) in [("x", "1"), ("y", "2"), ("z", "3")] {
        a.add(p, c.as_bytes());
        b.add(p, c.as_bytes());
    }
    assert_eq!(a.build().root(), b.build().root());
}

#[test]
fn root_does_not_depend_on_insertion_order() {
    let files = [("src/a.py", "A"), ("b.py", "B"), ("src/z/c.py", "C"), ("a.py", "D")];
    let mut forward = MerkleBuilder::new().fanout(2);
    for (p, c) in files.iter() {
        forward.add(p, c.as_bytes());
    }
    let mut backward = MerkleBuilder::new().fanout(2);
    for (p, c) in files.iter().rev() {
        backward.add(p, c.as_bytes());
    }
    assert_eq!(forward.build().root(), backward.build().root());
}

#[test]
fn adding_a_path_again_replaces_its_bytes() {
    let mut a = MerkleBuilder::new();
    a.add("a", b"old");
    a.add("a", b"new");
    let mut b = MerkleBuilder::new();
    b.add("a", b"new");
    let (ta, tb) = (a.build(), b.build());
    assert_eq!(ta.leaf_count(), 1);
    assert_eq!(ta.root(), tb.root());
}

#[test]
fn diff_reports_paths_on_one_side_and_changed_paths_in_merge_order() {
    let mut a = MerkleBuilder::new();
    a.add("a", b"1");
    a.add("c", b"3");
    a.add("d", b"4");
    let mut b = MerkleBuilder::new();
    b.add("b", b"2");
    b.add("c", b"3");
    b.add("d", b"changed");
    b.add("e", b"5");
    let d = a.build().diff(&b.build());
    assert_eq!(
        d.changed_paths,
        vec!["a".to_string(), "b".to_string(), "d".to_string(), "e".to_string()]
    );
}

#[test]
fn root_is_sixty_four_lowercase_hex_characters_whatever_the_leaves() {
    let is_digest = |root: &str| {
        root.len() == 64 && root.chars().all(|c| c.is_ascii_digit() || ('a'..='f').contains(&c))
    };
    let empty = MerkleBuilder::new().build();
    assert!(is_digest(&empty.root()));

    let mut one = MerkleBuilder::new();
    one.add("a.py", b"print('a')\n");
    let one = one.build();
    assert!(is_digest(&one.root()));
    assert_eq!(one.root(), digest_of(b"print('a')\n"));

    let mut many = MerkleBuilder::new();
    for i in 0..40u8 {
        many.add(&format!("dir/file{}.py", i), &[i]);
    }
    let many = many.build();
    assert!(is_digest(&many.root()));
    assert_eq!(many.root(), many.root());
}
