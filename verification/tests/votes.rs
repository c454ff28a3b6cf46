use forum_core::store::{MainDatabase, VoteData, VoteError};

#[test]
fn first_upvote_increments() {
    let mut db = MainDatabase::new();
    let p = db.create_post().unwrap();
    assert_eq!(db.cast_vote(1, p, true, false), Ok(1));
    assert_eq!(db.get_post_votes(p), Some(1));
}

#[test]
fn first_downvote_decrements() {
    let mut db = MainDatabase::new();
    let p = db.create_post().unwrap();
    assert_eq!(db.cast_vote(1, p, false, false), Ok(-1));
    assert_eq!(db.get_post_votes(p), Some(-1));
}

#[test]
fn repeat_without_toggle_is_refused() {
    let mut db = MainDatabase::new();
    let p = db.create_post().unwrap();
    assert_eq!(db.cast_vote(1, p, true, false), Ok(1));
    assert_eq!(db.cast_vote(1, p, true, false), Err(VoteError::AlreadyVoted));
    assert_eq!(db.cast_vote(1, p, false, false), Err(VoteError::AlreadyVoted));
    // The refusals moved nothing.
    assert_eq!(db.get_post_votes(p), Some(1));
}

#[test]
fn toggle_flips_by_two() {
    let mut db = MainDatabase::new();
    let p = db.create_post().unwrap();
    assert_eq!(db.cast_vote(1, p, true, false), Ok(1));
    assert_eq!(db.cast_vote(1, p, false, true), Ok(-1));
    assert_eq!(db.get_post_votes(p), Some(-1));
}

#[test]
fn toggle_same_direction_is_refused() {
    let mut db = MainDatabase::new();
    let p = db.create_post().unwrap();
    assert_eq!(db.cast_vote(1, p, true, false), Ok(1));
    assert_eq!(db.cast_vote(1, p, true, true), Err(VoteError::AlreadyVoted));
    assert_eq!(db.get_post_votes(p), Some(1));
}

#[test]
fn missing_post_is_refused() {
    let mut db = MainDatabase::new();
    assert_eq!(db.cast_vote(1, 0, true, false), Err(VoteError::PostNotFound));
    let p = db.create_post().unwrap();
    assert_eq!(db.cast_vote(1, p + 1, true, false), Err(VoteError::PostNotFound));
}

#[test]
fn votes_on_one_post_do_not_touch_another() {
    let mut db = MainDatabase::new();
    let p0 = db.create_post().unwrap();
    let p1 = db.create_post().unwrap();
    assert_eq!(db.cast_vote(1, p0, true, false), Ok(1));
    assert_eq!(db.cast_vote(1, p1, false, false), Ok(-1));
    assert_eq!(db.get_post_votes(p0), Some(1));
    assert_eq!(db.get_post_votes(p1), Some(-1));
}

#[test]
fn many_distinct_voters_all_count() {
    let mut db = MainDatabase::new();
    let p = db.create_post().unwrap();
    for u in 0..50u32 {
        assert_eq!(db.cast_vote(u, p, true, false), Ok((u as i64) + 1));
    }
    assert_eq!(db.get_post_votes(p), Some(50));
}

#[test]
fn vote_takes_form_data() {
    let mut db = MainDatabase::new();
    let p = db.create_post().unwrap();
    let data = VoteData { allow_toggle: false, is_upvote: true, id: p };
    assert_eq!(db.vote(3, &data), Ok(1));
    assert_eq!(db.vote(3, &data), Err(VoteError::AlreadyVoted));
}

#[test]
fn example_sequence() {
    // Counter 0: A upvotes to 1, B upvotes to 2, A re-votes down with
    // toggling to 0, A re-votes without toggling and is refused; the
    // counter stays at 0.
    let mut db = MainDatabase::new();
    let p = db.create_post().unwrap();
    assert_eq!(db.cast_vote(1, p, true, false), Ok(1));
    assert_eq!(db.cast_vote(2, p, true, false), Ok(2));
    assert_eq!(db.cast_vote(1, p, false, true), Ok(0));
    assert_eq!(db.cast_vote(1, p, false, false), Err(VoteError::AlreadyVoted));
    assert_eq!(db.get_post_votes(p), Some(0));
}
