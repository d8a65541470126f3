//! The text that a list shows for a story.
//!
//! Everything here is read off the story's current values; nothing is
//! changed and nothing can fail.

use crate::entity::{StoryItem, StoryItemView};
use crate::instant::{short_form, short_time_text};
use crate::text::{decimal_string, decimal_text, strip_leading, without_one_leading};
use vstd::prelude::*;

verus! {

/// The score with its unit: `1 point`, and `points` for every other number.
pub open spec fn score_text(score: i64) -> Seq<char> {
    decimal_text(score as int) + if score == 1 {
        " point"@
    } else {
        " points"@
    }
}

/// The link as it is given, or the empty text where there is none.
pub open spec fn link_text(url: Option<Seq<char>>) -> Seq<char> {
    match url {
        Some(u) => u,
        None => Seq::empty(),
    }
}

/// The link without its scheme and without `www.`: what remains when a
/// leading `https://` is taken off, then a leading `http://`, then a
/// leading `www.`, one copy of each at most. Whatever follows (a second
/// copy, a path, a trailing slash) stays.
pub open spec fn host_text(url: Option<Seq<char>>) -> Seq<char> {
    without_one_leading(
        without_one_leading(without_one_leading(link_text(url), "https://"@), "http://"@),
        "www."@,
    )
}

/// The text of one row in a list of stories.
#[derive(Debug, PartialEq, Eq)]
pub struct ListingText {
    /// The headline.
    pub title: String,
    /// Where the headline links to; empty for a story without a link.
    pub link: String,
    /// The site that the link goes to.
    pub hostname: String,
    /// The score with its unit.
    pub score: String,
    /// The author's handle.
    pub by: String,
    /// When the story was posted.
    pub time: String,
    /// How many top-level comments the source lists for the story.
    pub comments: usize,
}

/// What a `ListingText` holds, as mathematical values.
pub struct ListingTextView {
    pub title: Seq<char>,
    pub link: Seq<char>,
    pub hostname: Seq<char>,
    pub score: Seq<char>,
    pub by: Seq<char>,
    pub time: Seq<char>,
    pub comments: nat,
}

impl View for ListingText {
    type V = ListingTextView;

    open spec fn view(&self) -> ListingTextView {
        ListingTextView {
            title: self.title@,
            link: self.link@,
            hostname: self.hostname@,
            score: self.score@,
            by: self.by@,
            time: self.time@,
            comments: self.comments as nat,
        }
    }
}

/// The row that a list shows for a story with the values `story`.
pub open spec fn listing_of(story: StoryItemView) -> ListingTextView {
    ListingTextView {
        title: story.title,
        link: link_text(story.url),
        hostname: host_text(story.url),
        score: score_text(story.score),
        by: story.by,
        time: short_time_text(story.time),
        comments: story.kids.len(),
    }
}

impl StoryItem {
    /// The score with its unit: `1 point`, `0 points`, `2 points`.
    pub fn score_label(&self) -> (label: String)
        ensures
            label@ == score_text(self.score),
    {
        let mut label = decimal_string(self.score);
        if self.score == 1 {
            label.append(" point");
        } else {
            label.append(" points");
        }
        label
    }

    /// The link, or the empty text for a story without one.
    pub fn link(&self) -> (link: &str)
        ensures
            link@ == link_text(self@.url),
    {
        match &self.url {
            Some(url) => url.as_str(),
            None => {
                proof {
                    reveal_strlit("");
                }
                ""
            },
        }
    }

    /// The site that the story links to: the link without one `https://`,
    /// then one `http://`, then one `www.` in front. The empty text for a
    /// story without a link.
    pub fn hostname(&self) -> (host: &str)
        ensures
            host@ == host_text(self@.url),
    {
        strip_leading(strip_leading(strip_leading(self.link(), "https://"), "http://"), "www.")
    }

    /// When the story was posted, in the short form `mm/dd/yy hh:mm AM`.
    pub fn posted_at(&self) -> (text: String)
        ensures
            text@ == short_time_text(self.time@),
            short_form(text@),
    {
        self.time.short_text()
    }

    /// How many top-level comments the source lists for the story, whether
    /// or not they have been fetched.
    pub fn comment_count(&self) -> (count: usize)
        ensures
            count == self.kids@.len(),
    {
        self.kids.len()
    }

    /// The text of the story's row in a list.
    pub fn listing(&self) -> (row: ListingText)
        ensures
            row@ == listing_of(self@),
            short_form(row@.time),
    {
        ListingText {
            title: self.title.clone(),
            link: String::from_str(self.link()),
            hostname: String::from_str(self.hostname()),
            score: self.score_label(),
            by: self.by.clone(),
            time: self.posted_at(),
            comments: self.comment_count(),
        }
    }
}

/// Formatting has no memory: the row made for a story depends on the values
/// that the story holds and on nothing else. Two rows made from one story, or
/// from two stories that hold the same values, are the same text.
pub proof fn lemma_listing_is_repeatable(first: StoryItem, second: StoryItem)
    requires
        first@ == second@,
    ensures
        listing_of(first@) == listing_of(second@),
        score_text(first.score) == score_text(second.score),
        host_text(first@.url) == host_text(second@.url),
        short_time_text(first.time@) == short_time_text(second.time@),
        first.kids@.len() == second.kids@.len(),
{
}

} // verus!
