use storm::{ApplyLog, HashTable, Log, OneToMany, State, Table, MAX_BUCKET_KEY, MAX_KEY};

#[derive(Debug, Clone, PartialEq, Eq)]
struct Post {
    author: usize,
}

#[test]
fn linked_children_are_found_under_their_parent() {
    let mut index = OneToMany::new();
    assert_eq!(index.parents(), Vec::<usize>::new());
    assert_eq!(index.children(1), None);
    index.link(10, 1);
    index.link(11, 1);
    index.link(12, 2);
    assert_eq!(index.children(1), Some(&vec![10, 11]));
    assert_eq!(index.children(2), Some(&vec![12]));
    assert_eq!(index.children(3), None);
    assert_eq!(index.parent(10), Some(1));
    assert_eq!(index.parent(13), None);
    assert_eq!(index.parents(), vec![1, 2]);
}

#[test]
fn relinking_moves_the_child_between_buckets() {
    let mut index = OneToMany::new();
    index.link(10, 1);
    index.link(11, 1);
    index.link(10, 2);
    assert_eq!(index.children(1), Some(&vec![11]));
    assert_eq!(index.children(2), Some(&vec![10]));
    index.link(10, 2);
    assert_eq!(index.children(2), Some(&vec![10]));
    assert_eq!(index.parent(10), Some(2));
}

#[test]
fn bucket_that_becomes_empty_is_removed() {
    let mut index = OneToMany::new();
    index.link(10, 1);
    index.link(11, 5);
    assert_eq!(index.unlink(10), Some(1));
    assert_eq!(index.unlink(10), None);
    assert_eq!(index.children(1), None);
    assert_eq!(index.parents(), vec![5]);
    index.link(11, 6);
    assert_eq!(index.parents(), vec![6]);
}

#[test]
fn parent_of_any_size_is_indexed() {
    let mut index = OneToMany::new();
    let great = MAX_BUCKET_KEY + 1;
    index.link(1, great);
    index.link(2, usize::MAX);
    index.link(3, MAX_BUCKET_KEY);
    index.link(4, great);
    index.link(usize::MAX, 0);
    assert_eq!(index.parent(1), Some(great));
    assert_eq!(index.children(great), Some(&vec![1, 4]));
    assert_eq!(index.children(usize::MAX), Some(&vec![2]));
    assert_eq!(index.children(MAX_BUCKET_KEY), Some(&vec![3]));
    assert_eq!(index.children(0), Some(&vec![usize::MAX]));
    assert_eq!(index.children(great + 1), None);
    assert_eq!(index.parents(), vec![0, MAX_BUCKET_KEY, great, usize::MAX]);
}

#[test]
fn child_moves_between_a_small_and_a_great_parent() {
    let mut index = OneToMany::new();
    let great = 1 << 40;
    index.link(1, 7);
    index.link(1, great);
    assert_eq!(index.children(7), None);
    assert_eq!(index.children(great), Some(&vec![1]));
    assert_eq!(index.parents(), vec![great]);
    index.link(1, 7);
    assert_eq!(index.children(great), None);
    assert_eq!(index.parents(), vec![7]);
    index.link(2, great);
    index.link(3, great + 5);
    index.link(4, great - 5);
    assert_eq!(index.parents(), vec![7, great - 5, great, great + 5]);
    assert_eq!(index.unlink(2), Some(great));
    assert_eq!(index.parents(), vec![7, great - 5, great + 5]);
}

#[test]
fn apply_makes_the_changes_in_order() {
    let mut index = OneToMany::new();
    index.link(1, 7);
    let changes = vec![(2, Some(7)), (1, None), (3, Some(8)), (2, Some(8))];
    index.apply(&changes);
    assert_eq!(index.children(7), None);
    assert_eq!(index.children(8), Some(&vec![3, 2]));
    let great = vec![(4, Some(9)), (5, Some(MAX_BUCKET_KEY + 1))];
    index.apply(&great);
    assert_eq!(index.parent(4), Some(9));
    assert_eq!(index.parent(5), Some(MAX_BUCKET_KEY + 1));
    assert_eq!(index.parents(), vec![8, 9, MAX_BUCKET_KEY + 1]);
    index.apply(&Vec::new());
    assert_eq!(index.parents(), vec![8, 9, MAX_BUCKET_KEY + 1]);
}

#[test]
fn changes_of_a_log_name_each_child_once() {
    let mut log: Log<Post> = Log::new();
    assert_eq!(log.record(1, State::Update(Post { author: 200 })), Ok(()));
    assert_eq!(log.record(2, State::Remove), Ok(()));
    assert_eq!(log.record(3, State::Insert(Post { author: 200 })), Ok(()));
    let mut changes = OneToMany::changes_of(&log, |post: &Post| post.author);
    changes.sort();
    assert_eq!(changes, vec![(1, Some(200)), (2, None), (3, Some(200))]);
}

fn children_in_table(table: &HashTable<Post>, parent: usize) -> Option<Vec<usize>> {
    let mut children: Vec<usize> =
        table.entries().into_iter().filter(|(_, post)| post.author == parent).map(|(k, _)| k).collect();
    children.sort();
    if children.is_empty() {
        None
    } else {
        Some(children)
    }
}

fn children_in_index(index: &OneToMany, parent: usize) -> Option<Vec<usize>> {
    index.children(parent).map(|children| {
        let mut children = children.clone();
        children.sort();
        children
    })
}

#[test]
fn index_follows_the_log_of_the_child_table() {
    let great = usize::MAX - 3;
    let mut table: HashTable<Post> = HashTable::new();
    let mut index = OneToMany::new();
    let mut first: Log<Post> = Log::new();
    assert_eq!(first.record(1, State::Insert(Post { author: 100 })), Ok(()));
    assert_eq!(first.record(2, State::Insert(Post { author: 100 })), Ok(()));
    assert_eq!(first.record(4, State::Insert(Post { author: great })), Ok(()));
    index.apply_log(&first, |post: &Post| post.author);
    table.apply_log(first);
    let mut second: Log<Post> = Log::new();
    assert_eq!(second.record(1, State::Update(Post { author: great })), Ok(()));
    assert_eq!(second.record(2, State::Remove), Ok(()));
    assert_eq!(second.record(3, State::Insert(Post { author: 200 })), Ok(()));
    assert_eq!(second.record(9, State::Remove), Ok(()));
    assert_eq!(second.record(MAX_KEY, State::Insert(Post { author: 200 })), Ok(()));
    index.apply_log(&second, |post: &Post| post.author);
    table.apply_log(second);
    for parent in [100, 200, great, 300] {
        assert_eq!(children_in_index(&index, parent), children_in_table(&table, parent));
    }
    assert_eq!(index.children(100), None);
    assert_eq!(children_in_index(&index, 200), Some(vec![3, MAX_KEY]));
    assert_eq!(children_in_index(&index, great), Some(vec![1, 4]));
    assert_eq!(index.parents(), vec![200, great]);
    assert_eq!(index.parent(2), None);
    assert_eq!(index.parent(1), Some(great));
}
