use lemmynator::comment_path::{ancestor_chain, parse_path};
use std::collections::BTreeMap;

use lemmynator::comment_tree::{Author, LemmynatorComment, LemmynatorPostComments};

fn comment(id: i32, path: &str) -> LemmynatorComment {
    LemmynatorComment {
        id,
        content: format!("text {}", id),
        author: Author { name: format!("user{}", id), avatar_url: None },
        path: path.to_string(),
        replies: BTreeMap::new(),
    }
}

type Nodes = BTreeMap<i32, LemmynatorComment>;

fn ids(nodes: &Nodes) -> Vec<i32> {
    nodes.keys().copied().collect()
}

fn find(nodes: &Nodes, id: i32) -> Option<&LemmynatorComment> {
    for n in nodes.values() {
        if n.id == id {
            return Some(n);
        }
        if let Some(found) = find(&n.replies, id) {
            return Some(found);
        }
    }
    None
}

fn first(nodes: &Nodes) -> &LemmynatorComment {
    nodes.values().next().unwrap()
}

fn count(nodes: &Nodes) -> usize {
    nodes.values().map(|n| 1 + count(&n.replies)).sum()
}

fn shape(nodes: &Nodes) -> String {
    let parts: Vec<String> = nodes
        .values()
        .map(|n| format!("{}:{}:{}[{}]", n.id, n.content, n.author.name, shape(&n.replies)))
        .collect();
    parts.join(",")
}

#[test]
fn nested_reply_goes_under_parent() {
    let flat = vec![comment(1, "0.1"), comment(2, "0.1.2"), comment(3, "0.2")];
    let tree = LemmynatorPostComments::from_comments(&flat);
    assert_eq!(ids(&tree.comments), vec![1, 3]);
    assert_eq!(ids(&first(&tree.comments).replies), vec![2]);
    assert!(tree.comments[&3].replies.is_empty());
    assert!(first(&first(&tree.comments).replies).replies.is_empty());
}

#[test]
fn orphan_is_dropped() {
    let flat = vec![comment(5, "0.99.5")];
    let tree = LemmynatorPostComments::from_comments(&flat);
    assert!(tree.comments.is_empty());
    assert!(find(&tree.comments, 5).is_none());
}

#[test]
fn orphan_dropped_beside_others() {
    let flat = vec![comment(1, "0.1"), comment(5, "0.99.5"), comment(6, "0.1.6")];
    let tree = LemmynatorPostComments::from_comments(&flat);
    assert!(find(&tree.comments, 5).is_none());
    assert_eq!(ids(&tree.comments), vec![1]);
    assert_eq!(ids(&first(&tree.comments).replies), vec![6]);
}

#[test]
fn replies_before_parents_are_placed() {
    let flat = vec![
        comment(40, "0.10.20.30.40"),
        comment(30, "0.10.20.30"),
        comment(20, "0.10.20"),
        comment(10, "0.10"),
    ];
    let tree = LemmynatorPostComments::from_comments(&flat);
    assert_eq!(ids(&tree.comments), vec![10]);
    let n20 = &first(&first(&tree.comments).replies);
    assert_eq!(n20.id, 20);
    assert_eq!(first(&n20.replies).id, 30);
    assert_eq!(first(&first(&n20.replies).replies).id, 40);
    assert_eq!(count(&tree.comments), 4);
}

#[test]
fn children_in_ascending_id_order() {
    let flat = vec![
        comment(9, "0.9"),
        comment(3, "0.3"),
        comment(7, "0.7"),
        comment(12, "0.3.12"),
        comment(4, "0.3.4"),
        comment(8, "0.3.8"),
    ];
    let tree = LemmynatorPostComments::from_comments(&flat);
    assert_eq!(ids(&tree.comments), vec![3, 7, 9]);
    assert_eq!(ids(&first(&tree.comments).replies), vec![4, 8, 12]);
}

#[test]
fn node_keeps_record_data() {
    let flat = vec![comment(1, "0.1"), comment(2, "0.1.2")];
    let tree = LemmynatorPostComments::from_comments(&flat);
    let n2 = &first(&first(&tree.comments).replies);
    assert_eq!(n2.content, "text 2");
    assert_eq!(n2.author.name, "user2");
    assert_eq!(n2.path, "0.1.2");
}

#[test]
fn malformed_paths_dropped() {
    let flat = vec![
        comment(1, "0.1"),
        comment(2, "0.1.x"),
        comment(3, "0..3"),
        comment(4, "4"),
        comment(5, ""),
        comment(6, "0.1.6."),
        comment(7, "0.1.7"),
    ];
    let tree = LemmynatorPostComments::from_comments(&flat);
    assert_eq!(ids(&tree.comments), vec![1]);
    assert_eq!(ids(&first(&tree.comments).replies), vec![7]);
    assert_eq!(count(&tree.comments), 2);
}

#[test]
fn repeated_id_keeps_last() {
    let mut second = comment(1, "0.1");
    second.content = "second".to_string();
    let flat = vec![comment(1, "0.1"), second];
    let tree = LemmynatorPostComments::from_comments(&flat);
    assert_eq!(tree.comments.len(), 1);
    assert_eq!(first(&tree.comments).content, "second");
}

#[test]
fn empty_list_gives_empty_tree() {
    let tree = LemmynatorPostComments::from_comments(&Vec::new());
    assert!(tree.comments.is_empty());
}

#[test]
fn complete_list_places_every_comment_once() {
    let flat = vec![
        comment(1, "0.1"),
        comment(2, "0.1.2"),
        comment(3, "0.1.2.3"),
        comment(4, "0.4"),
        comment(5, "0.4.5"),
        comment(6, "0.1.6"),
    ];
    let tree = LemmynatorPostComments::from_comments(&flat);
    assert_eq!(count(&tree.comments), flat.len());
    for c in &flat {
        let node = find(&tree.comments, c.id).unwrap();
        assert_eq!(node.path, c.path);
    }
    // depth of 3 is its path's depth: three levels down
    assert_eq!(first(&first(&first(&tree.comments).replies).replies).id, 3);
}

#[test]
fn building_twice_gives_same_tree() {
    let flat = vec![comment(2, "0.1.2"), comment(1, "0.1"), comment(3, "0.3"), comment(8, "0.3.8")];
    let a = LemmynatorPostComments::from_comments(&flat);
    let b = LemmynatorPostComments::from_comments(&flat);
    assert_eq!(shape(&a.comments), shape(&b.comments));
    assert_eq!(shape(&a.comments), "1:text 1:user1[2:text 2:user2[]],3:text 3:user3[8:text 8:user8[]]");
}

#[test]
fn parse_path_reads_ids() {
    assert_eq!(parse_path("0.55.203"), Some(vec![0, 55, 203]));
    assert_eq!(parse_path("7"), Some(vec![7]));
    assert_eq!(parse_path("2147483647"), Some(vec![2147483647]));
    assert_eq!(parse_path("2147483648"), None);
    assert_eq!(parse_path(""), None);
    assert_eq!(parse_path("0.a"), None);
    assert_eq!(parse_path("0."), None);
    assert_eq!(parse_path(".1"), None);
    assert_eq!(parse_path("-1.2"), None);
}

#[test]
fn ancestor_chain_drops_root_and_self() {
    assert_eq!(ancestor_chain("0.55.203"), Some(vec![55]));
    assert_eq!(ancestor_chain("0.1"), Some(vec![]));
    assert_eq!(ancestor_chain("0.1.2.3"), Some(vec![1, 2]));
    assert_eq!(ancestor_chain("0"), None);
    assert_eq!(ancestor_chain("0.x"), None);
}
