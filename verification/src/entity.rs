//! Stories, comments and story pages.

use crate::instant::Timestamp;
use vstd::prelude::*;

verus! {

/// A post that starts a discussion.
#[derive(Debug, PartialEq)]
pub struct StoryItem {
    /// The story's identifier; it never changes once the story exists.
    pub id: i64,
    /// The headline.
    pub title: String,
    /// The page that the story links to; none for a story that is only text.
    pub url: Option<String>,
    /// The story's own text, if it has any.
    pub text: Option<String>,
    /// The author's handle; empty if the source gave none.
    pub by: String,
    /// The points that the story has; zero if the source gave none.
    pub score: i64,
    /// How many comments the source counts under the story, fetched or not.
    pub descendants: i64,
    /// When the story was posted.
    pub time: Timestamp,
    /// The identifiers of the top-level comments, in display order.
    pub kids: Vec<i64>,
    /// The source's tag for what sort of item this is, as it was given.
    pub kind: String,
}

/// One message in a discussion, with the replies that were found for it.
#[derive(Debug, PartialEq)]
pub struct Comment {
    /// The comment's identifier.
    pub id: i64,
    /// The author's handle; empty if the source gave none.
    pub by: String,
    /// The message; empty if the source gave none.
    pub text: String,
    /// When the comment was posted.
    pub time: Timestamp,
    /// The identifiers of the replies, in display order, as the source
    /// listed them.
    pub kids: Vec<i64>,
    /// The replies that were found, in display order. A reply that could
    /// not be found is left out, so this may be shorter than `kids`.
    pub sub_comments: Vec<Comment>,
    /// The source's tag for what sort of item this is, as it was given.
    pub kind: String,
}

/// A story together with the comment trees under it.
#[derive(Debug, PartialEq)]
pub struct StoryPageData {
    /// The story.
    pub item: StoryItem,
    /// The top-level comments that were found, in display order.
    pub comments: Vec<Comment>,
}

/// What a `StoryItem` holds, as mathematical values.
pub struct StoryItemView {
    pub id: i64,
    pub title: Seq<char>,
    pub url: Option<Seq<char>>,
    pub text: Option<Seq<char>>,
    pub by: Seq<char>,
    pub score: i64,
    pub descendants: i64,
    /// Seconds since the epoch.
    pub time: i64,
    pub kids: Seq<i64>,
    pub kind: Seq<char>,
}

/// What a `Comment` holds, as mathematical values.
pub struct CommentView {
    pub id: i64,
    pub by: Seq<char>,
    pub text: Seq<char>,
    /// Seconds since the epoch.
    pub time: i64,
    pub kids: Seq<i64>,
    pub sub_comments: Seq<CommentView>,
    pub kind: Seq<char>,
}

/// What a `StoryPageData` holds, as mathematical values.
pub struct StoryPageView {
    pub item: StoryItemView,
    pub comments: Seq<CommentView>,
}

/// The characters of a string that may be absent.
pub open spec fn optional_text(text: Option<String>) -> Option<Seq<char>> {
    match text {
        Some(t) => Some(t@),
        None => None,
    }
}

impl View for StoryItem {
    type V = StoryItemView;

    open spec fn view(&self) -> StoryItemView {
        StoryItemView {
            id: self.id,
            title: self.title@,
            url: optional_text(self.url),
            text: optional_text(self.text),
            by: self.by@,
            score: self.score,
            descendants: self.descendants,
            time: self.time@,
            kids: self.kids@,
            kind: self.kind@,
        }
    }
}

/// The views of a sequence of comments, in the same order.
pub open spec fn comment_views(comments: Seq<Comment>) -> Seq<CommentView>
    decreases comments,
{
    Seq::new(
        comments.len(),
        |i: int|
            if 0 <= i < comments.len() {
                comments[i].view()
            } else {
                arbitrary()
            },
    )
}

impl View for Comment {
    type V = CommentView;

    open spec fn view(&self) -> CommentView
        decreases self,
    {
        CommentView {
            id: self.id,
            by: self.by@,
            text: self.text@,
            time: self.time@,
            kids: self.kids@,
            sub_comments: comment_views(self.sub_comments@),
            kind: self.kind@,
        }
    }
}

impl View for StoryPageData {
    type V = StoryPageView;

    open spec fn view(&self) -> StoryPageView {
        StoryPageView { item: self.item@, comments: comment_views(self.comments@) }
    }
}

impl Clone for StoryItem {
    /// A copy that holds the same values.
    fn clone(&self) -> (copy: StoryItem)
        ensures
            copy@ == self@,
    {
        StoryItem {
            id: self.id,
            title: self.title.clone(),
            url: self.url.clone(),
            text: self.text.clone(),
            by: self.by.clone(),
            score: self.score,
            descendants: self.descendants,
            time: self.time,
            kids: self.kids.clone(),
            kind: self.kind.clone(),
        }
    }
}

/// Copies of `comments`, in the same order.
fn clone_comments(comments: &Vec<Comment>) -> (copies: Vec<Comment>)
    ensures
        comment_views(copies@) == comment_views(comments@),
    decreases comments,
{
    let mut copies: Vec<Comment> = Vec::new();
    let mut i: usize = 0;
    while i < comments.len()
        invariant
            i <= comments.len(),
            copies.len() == i,
            forall|j: int| 0 <= j < i ==> copies@[j]@ == comments@[j]@,
        decreases comments.len() - i,
    {
        let copy = comments[i].clone();
        copies.push(copy);
        i += 1;
    }
    copies
}

impl Clone for Comment {
    /// A copy that holds the same values, replies included.
    fn clone(&self) -> (copy: Comment)
        ensures
            copy@ == self@,
        decreases self,
    {
        Comment {
            id: self.id,
            by: self.by.clone(),
            text: self.text.clone(),
            time: self.time,
            kids: self.kids.clone(),
            sub_comments: clone_comments(&self.sub_comments),
            kind: self.kind.clone(),
        }
    }
}

impl Clone for StoryPageData {
    /// A copy that holds the same values, comments included.
    fn clone(&self) -> (copy: StoryPageData)
        ensures
            copy@ == self@,
    {
        StoryPageData { item: self.item.clone(), comments: clone_comments(&self.comments) }
    }
}

} // verus!
