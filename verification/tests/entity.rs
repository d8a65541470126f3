use story_thread::entity::{Comment, StoryItem, StoryPageData};
use story_thread::instant::Timestamp;

fn leaf(id: i64) -> Comment {
    Comment {
        id,
        by: "norvig".to_string(),
        text: "Aw shucks".to_string(),
        time: Timestamp::from_seconds(1_314_211_127).unwrap(),
        kids: vec![],
        sub_comments: vec![],
        kind: "comment".to_string(),
    }
}

fn nested() -> Comment {
    let mut middle = leaf(2);
    middle.kids = vec![3, 4];
    middle.sub_comments = vec![leaf(3), leaf(4)];
    let mut top = leaf(1);
    top.kids = vec![2, 5];
    top.sub_comments = vec![middle, leaf(5)];
    top
}

fn headline() -> StoryItem {
    StoryItem {
        id: 8863,
        title: "My YC app: Dropbox".to_string(),
        url: Some("http://www.getdropbox.com/u/2/screencast.html".to_string()),
        text: None,
        by: "dhouston".to_string(),
        score: 111,
        descendants: 71,
        time: Timestamp::from_seconds(1_175_714_200).unwrap(),
        kids: vec![8952, 9224],
        kind: "story".to_string(),
    }
}

#[test]
fn a_cloned_story_holds_the_same_values() {
    let story = headline();
    let copy = story.clone();
    assert_eq!(copy, story);
    assert_eq!(copy.url.as_deref(), Some("http://www.getdropbox.com/u/2/screencast.html"));
    assert_eq!(copy.kids, vec![8952, 9224]);
}

#[test]
fn a_cloned_comment_holds_the_same_replies() {
    let comment = nested();
    let copy = comment.clone();
    assert_eq!(copy, comment);
    assert_eq!(copy.sub_comments[0].sub_comments[1].id, 4);
}

#[test]
fn a_clone_is_a_value_of_its_own() {
    let comment = nested();
    let mut copy = comment.clone();
    copy.sub_comments[0].sub_comments.clear();
    copy.text.push('!');
    assert_eq!(comment, nested());
    assert_ne!(copy, comment);
}

#[test]
fn a_cloned_page_holds_the_same_story_and_comments() {
    let page = StoryPageData { item: headline(), comments: vec![nested(), leaf(9)] };
    let copy = page.clone();
    assert_eq!(copy, page);
    assert_eq!(copy.comments.len(), 2);
}

#[test]
fn entities_differ_when_a_field_differs() {
    let mut other = headline();
    other.score = 112;
    assert_ne!(other, headline());
    let mut other = nested();
    other.sub_comments[1].by = "pg".to_string();
    assert_ne!(other, nested());
}
