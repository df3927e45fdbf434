use lemmynator::post::{LemmynatorCounts, LemmynatorPost};

fn post(body: &str, dims: Option<(u32, u32)>, my_vote: Option<i16>) -> LemmynatorPost {
    LemmynatorPost {
        id: 1,
        community_id: 2,
        name: "title".to_string(),
        body: body.to_string(),
        author: "a".to_string(),
        community: "c".to_string(),
        counts: LemmynatorCounts { upvotes: 10, downvotes: 3, comments: 4 },
        my_vote,
        image_dimensions: dims,
    }
}

#[test]
fn first_upvote_counts() {
    let mut p = post("", None, None);
    assert_eq!(p.vote(1), 1);
    assert_eq!((p.counts.upvotes, p.counts.downvotes), (11, 3));
    assert_eq!(p.my_vote, Some(1));
}

#[test]
fn repeated_vote_is_taken_back() {
    let mut p = post("", None, Some(1));
    assert_eq!(p.vote(1), 0);
    assert_eq!((p.counts.upvotes, p.counts.downvotes), (9, 3));
    assert_eq!(p.my_vote, Some(0));
    let mut q = post("", None, Some(-1));
    assert_eq!(q.vote(-1), 0);
    assert_eq!((q.counts.upvotes, q.counts.downvotes), (10, 2));
}

#[test]
fn switching_vote_moves_count() {
    let mut p = post("", None, Some(-1));
    assert_eq!(p.vote(1), 1);
    assert_eq!((p.counts.upvotes, p.counts.downvotes), (11, 2));
    assert_eq!(p.vote(-1), -1);
    assert_eq!((p.counts.upvotes, p.counts.downvotes), (10, 3));
    let mut z = post("", None, Some(0));
    assert_eq!(z.vote(-1), -1);
    assert_eq!((z.counts.upvotes, z.counts.downvotes), (10, 4));
    assert_eq!(z.counts.comments, 4);
}

#[test]
fn heights_by_content() {
    assert_eq!(post("", None, None).height(), 5);
    assert_eq!(post("text", None, None).height(), 7);
    assert_eq!(post("text", Some((200, 100)), None).height(), 7);
    assert_eq!(post("text", Some((100, 200)), None).height(), 8);
    assert_eq!(post("", Some((100, 200)), None).height(), 8);
    assert!(post("", Some((1, 1)), None).is_image_only());
    assert!(!post("x", Some((1, 1)), None).is_image_only());
    assert_eq!(post("", Some((3, 3)), None).image_is_wide(), Some(false));
    assert_eq!(post("", None, None).image_is_wide(), None);
}
