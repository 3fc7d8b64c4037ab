use buck::coalesce::coalesce;
use buck::messages::Reply;

#[test]
fn keeps_only_the_last_of_each_coalesced_kind() {
    let batch = vec![
        Reply::Pos(1),
        Reply::Paused(true),
        Reply::Vol(5),
        Reply::Pos(2),
        Reply::NewTrack(3),
        Reply::Paused(false),
        Reply::Pos(3),
    ];
    let out = coalesce(batch);
    assert_eq!(
        out,
        vec![Reply::Vol(5), Reply::NewTrack(3), Reply::Pos(3), Reply::Paused(false)]
    );
}

#[test]
fn coalescing_is_idempotent() {
    let batch = vec![
        Reply::Length(10),
        Reply::Pos(1),
        Reply::Paused(true),
        Reply::Pos(2),
        Reply::Length(20),
        Reply::CurrentTrack(0),
    ];
    let once = coalesce(batch);
    let twice = coalesce(once.clone());
    assert_eq!(once, twice);
}

#[test]
fn dropping_a_superseded_reply_changes_nothing() {
    let with_early = vec![Reply::Pos(1), Reply::Vol(9), Reply::Pos(7)];
    let without = vec![Reply::Vol(9), Reply::Pos(7)];
    assert_eq!(coalesce(with_early), coalesce(without));
}

#[test]
fn uncoalesced_kinds_keep_their_arrival_order() {
    let batch = vec![Reply::Vol(1), Reply::Pos(5), Reply::Vol(2), Reply::Vol(3)];
    let out = coalesce(batch);
    assert_eq!(
        out,
        vec![Reply::Vol(1), Reply::Vol(2), Reply::Vol(3), Reply::Pos(5)]
    );
}

#[test]
fn both_track_identity_kinds_share_one_bucket() {
    let batch = vec![Reply::CurrentTrack(1), Reply::NewTrack(2)];
    let out = coalesce(batch);
    assert_eq!(out, vec![Reply::NewTrack(2)]);
}

#[test]
fn an_empty_batch_coalesces_to_nothing() {
    let out = coalesce(Vec::new());
    assert!(out.is_empty());
}
