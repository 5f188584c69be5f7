use fitcore::leaderboard::{rank_leaderboard, UserVolume};

fn uv(user_id: u64, volume_cg: u64) -> UserVolume {
    UserVolume { user_id, volume_cg }
}

#[test]
fn tied_volumes_share_rank_and_next_skips() {
    let rows = vec![uv(1, 100), uv(2, 100), uv(3, 80)];
    let r = rank_leaderboard(&rows);
    let ranks: Vec<u64> = r.iter().map(|e| e.rank).collect();
    assert_eq!(ranks, vec![1, 1, 3]);
    let volumes: Vec<u64> = r.iter().map(|e| e.total_volume_cg).collect();
    assert_eq!(volumes, vec![100, 100, 80]);
    // Tied volumes keep their input order.
    let ids: Vec<u64> = r.iter().map(|e| e.user_id).collect();
    assert_eq!(ids, vec![1, 2, 3]);
}

#[test]
fn truncation_at_a_tie_keeps_earliest_entries() {
    let mut rows = Vec::new();
    for i in 0..11u64 {
        rows.push(uv(i, 500));
    }
    let r = rank_leaderboard(&rows);
    assert_eq!(r.len(), 10);
    let ids: Vec<u64> = r.iter().map(|e| e.user_id).collect();
    assert_eq!(ids, (0..10).collect::<Vec<u64>>());
    assert!(r.iter().all(|e| e.rank == 1));
}

#[test]
fn zero_volume_user_still_appears() {
    let r = rank_leaderboard(&vec![uv(5, 0)]);
    assert_eq!(r.len(), 1);
    assert_eq!(r[0].user_id, 5);
    assert_eq!(r[0].total_volume_cg, 0);
    assert_eq!(r[0].rank, 1);
}

#[test]
fn board_sorts_descending() {
    let rows = vec![uv(1, 50), uv(2, 300), uv(3, 200)];
    let r = rank_leaderboard(&rows);
    let ids: Vec<u64> = r.iter().map(|e| e.user_id).collect();
    assert_eq!(ids, vec![2, 3, 1]);
    let ranks: Vec<u64> = r.iter().map(|e| e.rank).collect();
    assert_eq!(ranks, vec![1, 2, 3]);
}

#[test]
fn board_is_capped_at_ten() {
    let mut rows = Vec::new();
    for i in 0..12u64 {
        rows.push(uv(i, 1000 - i));
    }
    let r = rank_leaderboard(&rows);
    assert_eq!(r.len(), 10);
    assert_eq!(r[0].total_volume_cg, 1000);
    assert_eq!(r[9].total_volume_cg, 991);
}

#[test]
fn empty_board() {
    assert_eq!(rank_leaderboard(&vec![]).len(), 0);
}

#[test]
fn all_tied_all_rank_one() {
    let rows = vec![uv(1, 7), uv(2, 7), uv(3, 7)];
    let r = rank_leaderboard(&rows);
    let ranks: Vec<u64> = r.iter().map(|e| e.rank).collect();
    assert_eq!(ranks, vec![1, 1, 1]);
}
