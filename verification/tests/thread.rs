use std::cell::RefCell;
use story_thread::entity::{Comment, StoryItem, StoryPageData};
use story_thread::instant::Timestamp;
use story_thread::thread::{resolve_thread, ThreadBuilder};

fn comment(id: i64, kids: Vec<i64>) -> Comment {
    Comment {
        id,
        by: format!("user{id}"),
        text: format!("comment {id}"),
        time: Timestamp::from_seconds(1_314_211_127).unwrap(),
        kids,
        sub_comments: vec![],
        kind: "comment".to_string(),
    }
}

fn resolved(id: i64, kids: Vec<i64>, sub_comments: Vec<Comment>) -> Comment {
    let mut node = comment(id, kids);
    node.sub_comments = sub_comments;
    node
}

/// Ten comments: 1 and 2 at the top; 3, 4 under 1; 5 under 3; 6 is missing;
/// 7, 8 under 2; 9 under 8; 10 under 9.
fn sample(id: i64) -> Option<Comment> {
    match id {
        1 => Some(comment(1, vec![3, 4])),
        2 => Some(comment(2, vec![6, 7, 8])),
        3 => Some(comment(3, vec![5])),
        4 => Some(comment(4, vec![])),
        5 => Some(comment(5, vec![])),
        7 => Some(comment(7, vec![])),
        8 => Some(comment(8, vec![9])),
        9 => Some(comment(9, vec![10])),
        10 => Some(comment(10, vec![])),
        _ => None,
    }
}

fn sample_thread() -> Vec<Comment> {
    vec![
        resolved(
            1,
            vec![3, 4],
            vec![resolved(3, vec![5], vec![comment(5, vec![])]), comment(4, vec![])],
        ),
        resolved(
            2,
            vec![6, 7, 8],
            vec![
                comment(7, vec![]),
                resolved(8, vec![9], vec![resolved(9, vec![10], vec![comment(10, vec![])])]),
            ],
        ),
    ]
}

fn chain(id: i64, depth: i64) -> Option<Comment> {
    if 1 <= id && id < depth {
        Some(comment(id, vec![id + 1]))
    } else if id == depth {
        Some(comment(id, vec![]))
    } else {
        None
    }
}

#[test]
fn a_missing_child_is_left_out_and_order_is_kept() {
    let fetch = |id: i64| if id == 3 { None } else { Some(comment(id, vec![])) };
    let thread = resolve_thread(vec![5, 3, 9], fetch, 100);
    assert_eq!(thread.len(), 2);
    assert_eq!(thread, vec![comment(5, vec![]), comment(9, vec![])]);
}

#[test]
fn a_missing_child_is_left_out_by_the_builder_too() {
    let builder = ThreadBuilder::new(vec![5, 3, 9]);
    assert_eq!(builder.awaiting(), Some(5));
    let builder = builder.supply(Some(comment(5, vec![])));
    assert_eq!(builder.awaiting(), Some(3));
    let builder = builder.supply(None);
    assert_eq!(builder.awaiting(), Some(9));
    let builder = builder.supply(Some(comment(9, vec![])));
    assert_eq!(builder.awaiting(), None);
    assert!(builder.is_complete());
    assert_eq!(builder.finish(), vec![comment(5, vec![]), comment(9, vec![])]);
}

#[test]
fn replies_are_resolved_under_their_comment() {
    let fetch = |id: i64| match id {
        1 => Some(comment(1, vec![7])),
        7 => Some(comment(7, vec![])),
        _ => None,
    };
    let thread = resolve_thread(vec![1], fetch, 100);
    assert_eq!(thread, vec![resolved(1, vec![7], vec![comment(7, vec![])])]);
}

#[test]
fn a_thread_is_resolved_at_every_depth() {
    assert_eq!(resolve_thread(vec![1, 2], sample, 100), sample_thread());
}

#[test]
fn comments_are_asked_for_depth_first_and_left_to_right() {
    let asked = RefCell::new(Vec::new());
    let fetch = |id: i64| {
        asked.borrow_mut().push(id);
        sample(id)
    };
    let thread = resolve_thread(vec![1, 2], fetch, 100);
    assert_eq!(thread, sample_thread());
    assert_eq!(*asked.borrow(), vec![1, 3, 5, 4, 2, 6, 7, 8, 9, 10]);
}

#[test]
fn the_builder_asks_in_the_same_order() {
    let mut builder = ThreadBuilder::new(vec![1, 2]);
    let mut asked = Vec::new();
    while let Some(id) = builder.awaiting() {
        asked.push(id);
        builder = builder.supply(sample(id));
    }
    assert_eq!(asked, vec![1, 3, 5, 4, 2, 6, 7, 8, 9, 10]);
    assert_eq!(builder.finish(), sample_thread());
}

#[test]
fn a_thread_a_thousand_deep_is_resolved() {
    let depth: i64 = 1000;
    let thread = resolve_thread(vec![1], |id| chain(id, depth), usize::MAX);
    assert_eq!(thread.len(), 1);
    let mut node = &thread[0];
    let mut level: i64 = 1;
    loop {
        assert_eq!(node.id, level);
        if level == depth {
            assert!(node.kids.is_empty());
            assert!(node.sub_comments.is_empty());
            break;
        }
        assert_eq!(node.kids, vec![level + 1]);
        assert_eq!(node.sub_comments.len(), 1);
        node = &node.sub_comments[0];
        level += 1;
    }
}

#[test]
fn a_deep_thread_is_resolved_by_the_builder() {
    let depth: i64 = 60;
    let mut builder = ThreadBuilder::new(vec![1]);
    let mut requests = 0;
    while let Some(id) = builder.awaiting() {
        assert_eq!(id, requests + 1);
        builder = builder.supply(chain(id, depth));
        requests += 1;
    }
    assert_eq!(requests, depth);
    let thread = builder.finish();
    let mut node = &thread[0];
    for level in 1..depth {
        assert_eq!(node.id, level);
        assert_eq!(node.sub_comments.len(), 1);
        node = &node.sub_comments[0];
    }
    assert_eq!(node.id, depth);
    assert!(node.sub_comments.is_empty());
}

#[test]
fn a_miss_deep_in_the_thread_spoils_nothing_else() {
    let fetch = |id: i64| if id == 9 { None } else { sample(id) };
    let thread = resolve_thread(vec![1, 2], fetch, 100);
    let mut expected = sample_thread();
    expected[1].sub_comments[1].sub_comments.clear();
    assert_eq!(thread, expected);
}

#[test]
fn nothing_found_gives_an_empty_thread() {
    let asked = RefCell::new(Vec::new());
    let fetch = |id: i64| {
        asked.borrow_mut().push(id);
        None
    };
    assert_eq!(resolve_thread(vec![4, 5, 6], fetch, 100), vec![]);
    assert_eq!(*asked.borrow(), vec![4, 5, 6]);
}

#[test]
fn no_children_need_no_request() {
    let asked = RefCell::new(0);
    let fetch = |_id: i64| {
        *asked.borrow_mut() += 1;
        None
    };
    assert_eq!(resolve_thread(vec![], fetch, 100), vec![]);
    assert_eq!(*asked.borrow(), 0);
    let builder = ThreadBuilder::new(vec![]);
    assert!(builder.is_complete());
    assert_eq!(builder.finish(), vec![]);
}

#[test]
fn the_same_identifier_twice_is_resolved_twice() {
    let asked = RefCell::new(Vec::new());
    let fetch = |id: i64| {
        asked.borrow_mut().push(id);
        Some(comment(id, vec![]))
    };
    let thread = resolve_thread(vec![7, 7], fetch, 100);
    assert_eq!(thread, vec![comment(7, vec![]), comment(7, vec![])]);
    assert_eq!(*asked.borrow(), vec![7, 7]);
}

#[test]
fn replies_that_a_comment_arrives_with_are_replaced() {
    let fetch = |id: i64| match id {
        1 => Some(resolved(1, vec![2], vec![comment(99, vec![])])),
        2 => Some(comment(2, vec![])),
        _ => None,
    };
    let thread = resolve_thread(vec![1], fetch, 100);
    assert_eq!(thread, vec![resolved(1, vec![2], vec![comment(2, vec![])])]);
    let fetch = |id: i64| match id {
        1 => Some(resolved(1, vec![], vec![comment(99, vec![])])),
        _ => None,
    };
    assert_eq!(resolve_thread(vec![1], fetch, 100), vec![comment(1, vec![])]);
}

#[test]
fn the_limit_bounds_the_number_of_requests() {
    let asked = RefCell::new(Vec::new());
    let fetch = |id: i64| {
        asked.borrow_mut().push(id);
        sample(id)
    };
    let thread = resolve_thread(vec![1, 2], fetch, 3);
    assert_eq!(*asked.borrow(), vec![1, 3, 5]);
    assert_eq!(
        thread,
        vec![resolved(1, vec![3, 4], vec![resolved(3, vec![5], vec![comment(5, vec![])])])]
    );
}

#[test]
fn a_limit_of_zero_asks_for_nothing() {
    let fetch = |id: i64| sample(id);
    assert_eq!(resolve_thread(vec![1, 2], fetch, 0), vec![]);
}

#[test]
fn a_thread_without_end_stops_at_the_limit() {
    let fetch = |id: i64| Some(comment(id, vec![id]));
    let thread = resolve_thread(vec![1], fetch, 25);
    let mut node = &thread[0];
    let mut depth = 1;
    while !node.sub_comments.is_empty() {
        node = &node.sub_comments[0];
        depth += 1;
    }
    assert_eq!(depth, 25);
}

#[test]
fn finishing_early_gives_what_was_found_so_far() {
    let builder = ThreadBuilder::new(vec![1, 2]);
    let builder = builder.supply(sample(1));
    let builder = builder.supply(sample(3));
    assert_eq!(builder.awaiting(), Some(5));
    assert!(!builder.is_complete());
    assert_eq!(
        builder.finish(),
        vec![resolved(1, vec![3, 4], vec![comment(3, vec![5])])]
    );
}

#[test]
fn finishing_at_once_gives_an_empty_thread() {
    assert_eq!(ThreadBuilder::new(vec![1, 2]).finish(), vec![]);
}

#[test]
fn an_answer_that_nobody_asked_for_is_dropped() {
    let builder = ThreadBuilder::new(vec![4]);
    let builder = builder.supply(Some(comment(4, vec![])));
    assert!(builder.is_complete());
    let builder = builder.supply(Some(comment(5, vec![])));
    let builder = builder.supply(None);
    assert!(builder.is_complete());
    assert_eq!(builder.finish(), vec![comment(4, vec![])]);
}

#[test]
fn the_builder_takes_whatever_comment_it_is_given() {
    let builder = ThreadBuilder::new(vec![4]);
    let builder = builder.supply(Some(comment(40, vec![41])));
    assert_eq!(builder.awaiting(), Some(41));
    let builder = builder.supply(None);
    assert_eq!(builder.awaiting(), None);
    assert_eq!(builder.finish(), vec![comment(40, vec![41])]);
}

#[test]
fn the_thread_may_be_shorter_than_the_list_of_children() {
    let fetch = |id: i64| if id % 2 == 0 { Some(comment(id, vec![])) } else { None };
    let kids = vec![1, 2, 3, 4, 5, 6, 7];
    let thread = resolve_thread(kids.clone(), fetch, 100);
    let ids: Vec<i64> = thread.iter().map(|c| c.id).collect();
    assert_eq!(ids, vec![2, 4, 6]);
    assert!(thread.len() <= kids.len());
}

#[test]
fn a_page_is_the_story_with_its_thread() {
    let item = StoryItem {
        id: 8863,
        title: "My YC app: Dropbox".to_string(),
        url: None,
        text: None,
        by: "dhouston".to_string(),
        score: 111,
        descendants: 10,
        time: Timestamp::from_seconds(1_175_714_200).unwrap(),
        kids: vec![1, 2],
        kind: "story".to_string(),
    };
    let page = StoryPageData::assemble(item.clone(), sample, 100);
    assert_eq!(page, StoryPageData { item, comments: sample_thread() });
}

#[test]
fn a_page_of_a_story_without_comments_has_none() {
    let item = StoryItem {
        id: 1,
        title: "quiet".to_string(),
        url: None,
        text: None,
        by: String::new(),
        score: 0,
        descendants: 0,
        time: Timestamp::from_seconds(0).unwrap(),
        kids: vec![],
        kind: "story".to_string(),
    };
    let page = StoryPageData::assemble(item.clone(), sample, 100);
    assert_eq!(page.item, item);
    assert!(page.comments.is_empty());
}
