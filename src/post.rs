//! A post of a feed: what the listing shows of it, and the user's vote on it
//! with the vote counts kept in step.
use vstd::prelude::*;

verus! {

/// A post's counts.
#[derive(Clone, Copy, Debug, PartialEq, Eq, Structural)]
pub struct LemmynatorCounts {
    pub upvotes: i64,
    pub downvotes: i64,
    pub comments: i64,
}

/// A post as the listing holds it. `my_vote` is the user's vote (`1` up,
/// `-1` down, `0` or none for no vote); `image_dimensions` the size of its
/// image once one has been loaded.
#[derive(Debug)]
pub struct LemmynatorPost {
    pub id: i32,
    pub community_id: i32,
    pub name: String,
    pub body: String,
    pub author: String,
    pub community: String,
    pub counts: LemmynatorCounts,
    pub my_vote: Option<i16>,
    pub image_dimensions: Option<(u32, u32)>,
}

/// Rows a post takes in the listing: five for a text-only title, seven
/// beside a wide image or where no image is loaded, eight beside a tall one.
pub open spec fn post_height_spec(body_empty: bool, image_only: bool, wide: Option<bool>) -> u16 {
    if body_empty && !image_only {
        5
    } else {
        match wide {
            Some(true) => 7,
            Some(false) => 8,
            None => 7,
        }
    }
}

pub open spec fn is_vote(v: i16) -> bool {
    v == 1 || v == -1 || v == 0
}

/// The score that a vote sends: voting the same way again takes the vote back.
pub open spec fn sent_score(prev: Option<i16>, new_score: i16) -> i16 {
    if prev == Some(new_score) {
        0
    } else {
        new_score
    }
}

pub open spec fn indicator(b: bool) -> int {
    if b {
        1
    } else {
        0
    }
}

impl LemmynatorPost {
    pub open spec fn wf(&self) -> bool {
        self.my_vote matches Some(v) ==> is_vote(v)
    }

    /// Whether the loaded image is wider than tall; `None` while there is none.
    pub fn image_is_wide(&self) -> (r: Option<bool>)
        ensures
            r == match self.image_dimensions {
                Some(d) => Some(d.0 > d.1),
                None => None,
            },
    {
        match self.image_dimensions {
            Some(d) => Some(d.0 > d.1),
            None => None,
        }
    }

    /// A post with no text and an image.
    pub fn is_image_only(&self) -> (r: bool)
        ensures
            r == (self.body@.len() == 0 && self.image_dimensions is Some),
    {
        self.body.unicode_len() == 0 && self.image_dimensions.is_some()
    }

    /// Rows the post takes in the listing.
    pub fn height(&self) -> (r: u16)
        ensures
            r == post_height_spec(
                self.body@.len() == 0,
                self.body@.len() == 0 && self.image_dimensions is Some,
                match self.image_dimensions {
                    Some(d) => Some(d.0 > d.1),
                    None => None,
                },
            ),
    {
        if self.body.unicode_len() == 0 && !self.is_image_only() {
            5
        } else {
            match self.image_is_wide() {
                Some(true) => 7,
                Some(false) => 8,
                None => 7,
            }
        }
    }

    /// Votes up (`1`) or down (`-1`) and returns the score to send: the
    /// counts drop the user's earlier vote and take the new one, and a
    /// repeated vote is taken back, sending `0`.
    pub fn vote(&mut self, new_score: i16) -> (sent: i16)
        requires
            old(self).wf(),
            new_score == 1 || new_score == -1,
            i64::MIN < old(self).counts.upvotes < i64::MAX,
            i64::MIN < old(self).counts.downvotes < i64::MAX,
        ensures
            final(self).wf(),
            sent == sent_score(old(self).my_vote, new_score),
            final(self).my_vote == Some(sent),
            final(self).counts.upvotes == old(self).counts.upvotes + indicator(sent == 1)
                - indicator(old(self).my_vote == Some(1i16)),
            final(self).counts.downvotes == old(self).counts.downvotes + indicator(sent == -1)
                - indicator(old(self).my_vote == Some(-1i16)),
            final(self).counts.comments == old(self).counts.comments,
    {
        let prev: i16 = match self.my_vote {
            Some(v) => v,
            None => 0,
        };
        let sent: i16 = if prev == new_score {
            0
        } else {
            new_score
        };
        if prev == 1 {
            self.counts.upvotes = self.counts.upvotes - 1;
        } else if prev == -1 {
            self.counts.downvotes = self.counts.downvotes - 1;
        }
        if sent == 1 {
            self.counts.upvotes = self.counts.upvotes + 1;
        } else if sent == -1 {
            self.counts.downvotes = self.counts.downvotes + 1;
        }
        self.my_vote = Some(sent);
        sent
    }
}

} // verus!
