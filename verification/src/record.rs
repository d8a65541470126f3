//! Records as the source sends them, and the entities built from them.
//!
//! A record is the loose shape: every field may be missing. Building an
//! entity fills in the documented default for each field that may be left
//! out, and fails only where a field that has no default is missing or does
//! not name an instant.

use crate::entity::{
    comment_views, optional_text, Comment, CommentView, StoryItem, StoryItemView, StoryPageData,
    StoryPageView,
};
use crate::instant::{representable, Timestamp};
use vstd::prelude::*;

verus! {

/// Why no entity could be built.
#[derive(Clone, Copy, Debug, PartialEq, Eq, Structural)]
pub enum EntityError {
    /// A field that has no default is missing, or the timestamp is not an
    /// instant on the calendar.
    MalformedRecord,
}

/// A story as the source sends it.
#[derive(Debug, PartialEq)]
pub struct StoryRecord {
    pub id: Option<i64>,
    pub title: Option<String>,
    pub url: Option<String>,
    pub text: Option<String>,
    pub by: Option<String>,
    pub score: Option<i64>,
    pub descendants: Option<i64>,
    /// Seconds since the epoch.
    pub time: Option<i64>,
    pub kids: Option<Vec<i64>>,
    pub kind: Option<String>,
}

/// A comment as the source sends it.
#[derive(Debug, PartialEq)]
pub struct CommentRecord {
    pub id: Option<i64>,
    pub by: Option<String>,
    pub text: Option<String>,
    /// Seconds since the epoch.
    pub time: Option<i64>,
    pub kids: Option<Vec<i64>>,
    pub sub_comments: Option<Vec<CommentRecord>>,
    pub kind: Option<String>,
}

/// A story page as the source sends it: the story's own fields, and the
/// comments under it.
#[derive(Debug, PartialEq)]
pub struct StoryPageRecord {
    pub item: StoryRecord,
    pub comments: Option<Vec<CommentRecord>>,
}

/// What a `StoryRecord` holds, as mathematical values.
pub struct StoryRecordView {
    pub id: Option<i64>,
    pub title: Option<Seq<char>>,
    pub url: Option<Seq<char>>,
    pub text: Option<Seq<char>>,
    pub by: Option<Seq<char>>,
    pub score: Option<i64>,
    pub descendants: Option<i64>,
    pub time: Option<i64>,
    pub kids: Option<Seq<i64>>,
    pub kind: Option<Seq<char>>,
}

/// What a `CommentRecord` holds, as mathematical values.
pub struct CommentRecordView {
    pub id: Option<i64>,
    pub by: Option<Seq<char>>,
    pub text: Option<Seq<char>>,
    pub time: Option<i64>,
    pub kids: Option<Seq<i64>>,
    pub sub_comments: Option<Seq<CommentRecordView>>,
    pub kind: Option<Seq<char>>,
}

/// What a `StoryPageRecord` holds, as mathematical values.
pub struct StoryPageRecordView {
    pub item: StoryRecordView,
    pub comments: Option<Seq<CommentRecordView>>,
}

/// The identifiers in a list that may be absent.
pub open spec fn optional_ids(ids: Option<Vec<i64>>) -> Option<Seq<i64>> {
    match ids {
        Some(v) => Some(v@),
        None => None,
    }
}

/// The views of a sequence of comment records, in the same order.
pub open spec fn record_views(records: Seq<CommentRecord>) -> Seq<CommentRecordView>
    decreases records,
{
    Seq::new(
        records.len(),
        |i: int|
            if 0 <= i < records.len() {
                records[i].view()
            } else {
                arbitrary()
            },
    )
}

/// The views of a list of comment records that may be absent.
pub open spec fn optional_record_views(records: Option<Vec<CommentRecord>>) -> Option<
    Seq<CommentRecordView>,
>
    decreases records,
{
    match records {
        Some(v) => Some(record_views(v@)),
        None => None,
    }
}

impl View for StoryRecord {
    type V = StoryRecordView;

    open spec fn view(&self) -> StoryRecordView {
        StoryRecordView {
            id: self.id,
            title: optional_text(self.title),
            url: optional_text(self.url),
            text: optional_text(self.text),
            by: optional_text(self.by),
            score: self.score,
            descendants: self.descendants,
            time: self.time,
            kids: optional_ids(self.kids),
            kind: optional_text(self.kind),
        }
    }
}

impl View for CommentRecord {
    type V = CommentRecordView;

    open spec fn view(&self) -> CommentRecordView
        decreases self,
    {
        CommentRecordView {
            id: self.id,
            by: optional_text(self.by),
            text: optional_text(self.text),
            time: self.time,
            kids: optional_ids(self.kids),
            sub_comments: optional_record_views(self.sub_comments),
            kind: optional_text(self.kind),
        }
    }
}

impl View for StoryPageRecord {
    type V = StoryPageRecordView;

    open spec fn view(&self) -> StoryPageRecordView {
        StoryPageRecordView {
            item: self.item@,
            comments: optional_record_views(self.comments),
        }
    }
}

/// The text, or the empty text where there is none.
pub open spec fn text_or_empty(text: Option<Seq<char>>) -> Seq<char> {
    match text {
        Some(t) => t,
        None => Seq::empty(),
    }
}

/// The number, or zero where there is none.
pub open spec fn number_or_zero(number: Option<i64>) -> i64 {
    match number {
        Some(n) => n,
        None => 0,
    }
}

/// The identifiers, or the empty sequence where there are none.
pub open spec fn ids_or_empty(ids: Option<Seq<i64>>) -> Seq<i64> {
    match ids {
        Some(s) => s,
        None => Seq::empty(),
    }
}

/// Whether the timestamp is there and names an instant on the calendar.
/// Zero and negative timestamps do.
pub open spec fn names_instant(time: Option<i64>) -> bool {
    time matches Some(seconds) && representable(seconds)
}

/// Whether a story can be built from the record: it has an identifier, a
/// title, a tag and a timestamp that names an instant.
pub open spec fn story_complete(record: StoryRecordView) -> bool {
    &&& record.id is Some
    &&& record.title is Some
    &&& record.kind is Some
    &&& names_instant(record.time)
}

/// The story that a complete record describes. The link and the text stay
/// absent where they are missing; the author, the score, the comment count
/// and the list of comments take their defaults.
pub open spec fn story_of(record: StoryRecordView) -> StoryItemView {
    StoryItemView {
        id: record.id.unwrap(),
        title: record.title.unwrap(),
        url: record.url,
        text: record.text,
        by: text_or_empty(record.by),
        score: number_or_zero(record.score),
        descendants: number_or_zero(record.descendants),
        time: record.time.unwrap(),
        kids: ids_or_empty(record.kids),
        kind: record.kind.unwrap(),
    }
}

/// Whether every record in the sequence is complete.
pub open spec fn comments_complete(records: Seq<CommentRecordView>) -> bool
    decreases records,
{
    forall|i: int| 0 <= i < records.len() ==> comment_complete(#[trigger] records[i])
}

/// Whether a comment can be built from the record: it has an identifier, a
/// tag and a timestamp that names an instant, and so has every reply that
/// it carries, at every depth.
pub open spec fn comment_complete(record: CommentRecordView) -> bool
    decreases record,
{
    &&& record.id is Some
    &&& record.kind is Some
    &&& names_instant(record.time)
    &&& record.sub_comments matches Some(replies) ==> comments_complete(replies)
}

/// The comments that a sequence of complete records describes, in the same
/// order.
pub open spec fn comments_of(records: Seq<CommentRecordView>) -> Seq<CommentView>
    decreases records,
{
    Seq::new(
        records.len(),
        |i: int|
            if 0 <= i < records.len() {
                comment_of(records[i])
            } else {
                arbitrary()
            },
    )
}

/// The comments that a list of complete records describes; none where the
/// list is absent.
pub open spec fn comments_or_empty(records: Option<Seq<CommentRecordView>>) -> Seq<CommentView>
    decreases records,
{
    match records {
        Some(replies) => comments_of(replies),
        None => Seq::empty(),
    }
}

/// The comment that a complete record describes. The author, the text, the
/// list of reply identifiers and the replies take their defaults where they
/// are missing.
pub open spec fn comment_of(record: CommentRecordView) -> CommentView
    decreases record,
{
    CommentView {
        id: record.id.unwrap(),
        by: text_or_empty(record.by),
        text: text_or_empty(record.text),
        time: record.time.unwrap(),
        kids: ids_or_empty(record.kids),
        sub_comments: comments_or_empty(record.sub_comments),
        kind: record.kind.unwrap(),
    }
}

/// Whether a story page can be built from the record: the story is complete
/// and so is every comment.
pub open spec fn page_complete(record: StoryPageRecordView) -> bool {
    &&& story_complete(record.item)
    &&& record.comments matches Some(comments) ==> comments_complete(comments)
}

/// The story page that a complete record describes.
pub open spec fn page_of(record: StoryPageRecordView) -> StoryPageView {
    StoryPageView { item: story_of(record.item), comments: comments_or_empty(record.comments) }
}

/// A copy of the text, or the empty text where there is none.
fn text_or_default(text: &Option<String>) -> (filled: String)
    ensures
        filled@ == text_or_empty(optional_text(*text)),
{
    match text {
        Some(t) => t.clone(),
        None => String::new(),
    }
}

/// A copy of the identifiers, or the empty list where there are none.
fn ids_or_default(ids: &Option<Vec<i64>>) -> (filled: Vec<i64>)
    ensures
        filled@ == ids_or_empty(optional_ids(*ids)),
{
    match ids {
        Some(v) => v.clone(),
        None => Vec::new(),
    }
}

/// The number, or zero where there is none.
fn number_or_default(number: Option<i64>) -> (filled: i64)
    ensures
        filled == number_or_zero(number),
{
    match number {
        Some(n) => n,
        None => 0,
    }
}

/// The instant that the timestamp names, if it is there and names one.
fn instant_of(time: Option<i64>) -> (instant: Option<Timestamp>)
    ensures
        instant is Some <==> names_instant(time),
        instant matches Some(t) ==> Some(t@) == time,
{
    match time {
        Some(seconds) => Timestamp::from_seconds(seconds),
        None => None,
    }
}

impl StoryItem {
    /// Builds the story that `record` describes.
    ///
    /// This succeeds exactly when the record has an identifier, a title, a
    /// tag and a timestamp that names an instant. No other field is needed:
    /// each takes its default where it is missing.
    pub fn from_record(record: &StoryRecord) -> (built: Result<StoryItem, EntityError>)
        ensures
            built is Ok <==> story_complete(record@),
            built matches Ok(story) ==> story@ == story_of(record@),
            built matches Err(e) ==> e == EntityError::MalformedRecord,
    {
        let id: i64 = match record.id {
            Some(id) => id,
            None => {
                return Err(EntityError::MalformedRecord);
            },
        };
        let title = match &record.title {
            Some(title) => title.clone(),
            None => {
                return Err(EntityError::MalformedRecord);
            },
        };
        let kind = match &record.kind {
            Some(kind) => kind.clone(),
            None => {
                return Err(EntityError::MalformedRecord);
            },
        };
        let time = match instant_of(record.time) {
            Some(time) => time,
            None => {
                return Err(EntityError::MalformedRecord);
            },
        };
        Ok(
            StoryItem {
                id,
                title,
                url: record.url.clone(),
                text: record.text.clone(),
                by: text_or_default(&record.by),
                score: number_or_default(record.score),
                descendants: number_or_default(record.descendants),
                time,
                kids: ids_or_default(&record.kids),
                kind,
            },
        )
    }
}

/// Builds the comments that `records` describe, in the same order.
///
/// This succeeds exactly when every record is complete.
pub fn comments_from_records(records: &Vec<CommentRecord>) -> (built: Result<
    Vec<Comment>,
    EntityError,
>)
    ensures
        built is Ok <==> comments_complete(record_views(records@)),
        built matches Ok(comments) ==> comment_views(comments@) == comments_of(
            record_views(records@),
        ),
        built matches Err(e) ==> e == EntityError::MalformedRecord,
    decreases records,
{
    let mut comments: Vec<Comment> = Vec::new();
    let mut i: usize = 0;
    while i < records.len()
        invariant
            i <= records.len(),
            comments.len() == i,
            forall|j: int| 0 <= j < i ==> comment_complete(#[trigger] records@[j]@),
            forall|j: int| 0 <= j < i ==> (#[trigger] comments@[j])@ == comment_of(records@[j]@),
        decreases records.len() - i,
    {
        match Comment::from_record(&records[i]) {
            Ok(comment) => {
                comments.push(comment);
            },
            Err(e) => {
                assert(!comment_complete(record_views(records@)[i as int]));
                return Err(e);
            },
        }
        i += 1;
    }
    assert forall|j: int| 0 <= j < records.len() implies comment_complete(
        #[trigger] record_views(records@)[j],
    ) by {
        assert(comment_complete(records@[j]@));
    }
    Ok(comments)
}

/// Builds the comments that `records` describe; none where the list is
/// absent.
fn comments_or_default(records: &Option<Vec<CommentRecord>>) -> (built: Result<
    Vec<Comment>,
    EntityError,
>)
    ensures
        built is Ok <==> (optional_record_views(*records) matches Some(replies)
            ==> comments_complete(replies)),
        built matches Ok(comments) ==> comment_views(comments@) == comments_or_empty(
            optional_record_views(*records),
        ),
        built matches Err(e) ==> e == EntityError::MalformedRecord,
    decreases records,
{
    match records {
        Some(replies) => comments_from_records(replies),
        None => Ok(Vec::new()),
    }
}

impl Comment {
    /// Builds the comment that `record` describes, with the replies that
    /// the record carries.
    ///
    /// This succeeds exactly when the record, and every reply in it at
    /// every depth, has an identifier, a tag and a timestamp that names an
    /// instant. No other field is needed: each takes its default where it
    /// is missing.
    pub fn from_record(record: &CommentRecord) -> (built: Result<Comment, EntityError>)
        ensures
            built is Ok <==> comment_complete(record@),
            built matches Ok(comment) ==> comment@ == comment_of(record@),
            built matches Err(e) ==> e == EntityError::MalformedRecord,
        decreases record,
    {
        let id: i64 = match record.id {
            Some(id) => id,
            None => {
                return Err(EntityError::MalformedRecord);
            },
        };
        let kind = match &record.kind {
            Some(kind) => kind.clone(),
            None => {
                return Err(EntityError::MalformedRecord);
            },
        };
        let time = match instant_of(record.time) {
            Some(time) => time,
            None => {
                return Err(EntityError::MalformedRecord);
            },
        };
        let sub_comments = match comments_or_default(&record.sub_comments) {
            Ok(replies) => replies,
            Err(e) => {
                return Err(e);
            },
        };
        Ok(
            Comment {
                id,
                by: text_or_default(&record.by),
                text: text_or_default(&record.text),
                time,
                kids: ids_or_default(&record.kids),
                sub_comments,
                kind,
            },
        )
    }
}

impl StoryPageData {
    /// Builds the story page that `record` describes.
    ///
    /// This succeeds exactly when the story's record is complete and so is
    /// every comment's. A record without a list of comments gives a page
    /// without comments.
    pub fn from_record(record: &StoryPageRecord) -> (built: Result<StoryPageData, EntityError>)
        ensures
            built is Ok <==> page_complete(record@),
            built matches Ok(page) ==> page@ == page_of(record@),
            built matches Err(e) ==> e == EntityError::MalformedRecord,
    {
        let item = match StoryItem::from_record(&record.item) {
            Ok(item) => item,
            Err(e) => {
                return Err(e);
            },
        };
        let comments = match comments_or_default(&record.comments) {
            Ok(comments) => comments,
            Err(e) => {
                return Err(e);
            },
        };
        Ok(StoryPageData { item, comments })
    }
}

/// Reading back what was left out: in a story built from a complete record,
/// each field that the record left out holds that field's default (no link,
/// no text, an empty author, a score of zero, no comments counted, an empty
/// list of comments), and each field that the record gave holds what was
/// given.
pub proof fn lemma_story_reads_back(record: StoryRecordView)
    requires
        story_complete(record),
    ensures
        ({
            let story = story_of(record);
            &&& story.id == record.id.unwrap()
            &&& story.title == record.title.unwrap()
            &&& story.kind == record.kind.unwrap()
            &&& story.time == record.time.unwrap()
            &&& story.url == record.url
            &&& story.text == record.text
            &&& story.by == if record.by is Some {
                record.by.unwrap()
            } else {
                Seq::<char>::empty()
            }
            &&& story.score == if record.score is Some {
                record.score.unwrap()
            } else {
                0i64
            }
            &&& story.descendants == if record.descendants is Some {
                record.descendants.unwrap()
            } else {
                0i64
            }
            &&& story.kids == if record.kids is Some {
                record.kids.unwrap()
            } else {
                Seq::<i64>::empty()
            }
        }),
{
}

/// Reading back what was left out: in a comment built from a complete
/// record, each field that the record left out holds that field's default
/// (an empty author, an empty text, an empty list of reply identifiers, no
/// replies), and each field that the record gave holds what was given.
pub proof fn lemma_comment_reads_back(record: CommentRecordView)
    requires
        comment_complete(record),
    ensures
        ({
            let comment = comment_of(record);
            &&& comment.id == record.id.unwrap()
            &&& comment.kind == record.kind.unwrap()
            &&& comment.time == record.time.unwrap()
            &&& comment.by == if record.by is Some {
                record.by.unwrap()
            } else {
                Seq::<char>::empty()
            }
            &&& comment.text == if record.text is Some {
                record.text.unwrap()
            } else {
                Seq::<char>::empty()
            }
            &&& comment.kids == if record.kids is Some {
                record.kids.unwrap()
            } else {
                Seq::<i64>::empty()
            }
            &&& comment.sub_comments.len() == if record.sub_comments is Some {
                record.sub_comments.unwrap().len()
            } else {
                0nat
            }
            &&& forall|i: int|
                0 <= i < comment.sub_comments.len() ==> #[trigger] comment.sub_comments[i]
                    == comment_of(record.sub_comments.unwrap()[i])
        }),
{
}

} // verus!
