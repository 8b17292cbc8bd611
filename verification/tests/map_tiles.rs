use yoruk::message::TileResult;
use yoruk::tiles::{tile_fetch_step, tile_url, FetchAction, FetchEvent, TileBook, TileCoord, TileEpoch, TileRange};

fn tc(z: u32, x: i64, y: i64) -> TileCoord {
    TileCoord { z, x, y }
}

fn range(min_x: i64, min_y: i64, max_x: i64, max_y: i64) -> TileRange {
    TileRange { min_x, min_y, max_x, max_y }
}

#[test]
fn is_stale_after_the_generation_moves() {
    let e = TileEpoch { issued: 4 };
    assert!(!e.is_stale(4));
    assert!(e.is_stale(5));
}

#[test]
fn new_book() {
    let b: TileBook<String> = TileBook::new();
    assert_eq!(b.zoom(), 15);
    assert_eq!(b.revision(), 0);
    assert_eq!(b.epoch().issued, 0);
    assert!(!b.has_failures());
    assert!(b.tile(tc(15, 1, 1)).is_none());
}

#[test]
fn visible_tiles_stay_inside_the_world() {
    let mut b: TileBook<String> = TileBook::new();
    b.change_zoom(1);
    // At zoom 1 the world is 2 x 2 tiles; the range sticks out on every side.
    let v = b.visible_tiles(range(-1, -1, 3, 3));
    assert_eq!(v, vec![tc(1, 0, 0), tc(1, 0, 1), tc(1, 1, 0), tc(1, 1, 1)]);
    assert!(b.visible_tiles(range(2, 0, 2, 2)).is_empty());
}

#[test]
fn missing_tiles_are_requested_once() {
    let mut b: TileBook<String> = TileBook::new();
    let r = range(10, 20, 12, 21);
    let first = b.take_missing_tiles(r);
    assert_eq!(first, vec![tc(15, 10, 20), tc(15, 11, 20)]);
    // Still pending: not requested a second time.
    assert!(b.take_missing_tiles(r).is_empty());
    b.insert_tile(tc(15, 10, 20), "a".to_string());
    assert_eq!(b.tile(tc(15, 10, 20)), Some(&"a".to_string()));
    assert!(b.take_missing_tiles(r).is_empty());
}

#[test]
fn failed_tiles_are_asked_for_again() {
    let mut b: TileBook<String> = TileBook::new();
    let r = range(0, 0, 1, 1);
    assert_eq!(b.take_missing_tiles(r), vec![tc(15, 0, 0)]);
    b.drop_pending(tc(15, 0, 0));
    assert!(b.is_failed(tc(15, 0, 0)));
    assert!(b.has_failures());
    assert_eq!(b.take_missing_tiles(r), vec![tc(15, 0, 0)]);
    assert!(!b.is_failed(tc(15, 0, 0)));
}

#[test]
fn zoom_change_forgets_everything() {
    let mut b: TileBook<String> = TileBook::new();
    let r = range(0, 0, 2, 1);
    b.take_missing_tiles(r);
    b.insert_tile(tc(15, 0, 0), "a".to_string());
    let rev = b.revision();
    assert!(!b.change_zoom(15));
    assert_eq!(b.revision(), rev);
    assert!(b.change_zoom(40));
    assert_eq!(b.zoom(), 19);
    assert_eq!(b.epoch().issued, 1);
    assert!(b.tile(tc(15, 0, 0)).is_none());
    // A tile of the old zoom level that arrives late is not kept.
    b.insert_tile(tc(15, 1, 0), "late".to_string());
    assert!(b.tile(tc(15, 1, 0)).is_none());
    assert!(b.change_zoom(0));
    assert_eq!(b.zoom(), 1);
}

#[test]
fn far_tiles_are_pruned() {
    let mut b: TileBook<String> = TileBook::new();
    b.take_missing_tiles(range(0, 0, 1, 1));
    b.insert_tile(tc(15, 0, 0), "a".to_string());
    // Two rings around the visible range are kept.
    b.take_missing_tiles(range(2, 0, 3, 1));
    assert!(b.tile(tc(15, 0, 0)).is_some());
    b.take_missing_tiles(range(3, 0, 4, 1));
    assert!(b.tile(tc(15, 0, 0)).is_none());
}

#[test]
fn revision_moves_on_changes() {
    let mut b: TileBook<u8> = TileBook::new();
    b.touch();
    assert_eq!(b.revision(), 1);
    b.take_missing_tiles(range(0, 0, 1, 1));
    assert_eq!(b.revision(), 2);
    b.insert_tile(tc(15, 0, 0), 7);
    assert_eq!(b.revision(), 3);
    b.drop_pending(tc(14, 0, 0));
    assert_eq!(b.revision(), 3);
}

#[test]
fn tile_addresses() {
    assert_eq!(tile_url(tc(15, 19_456, 12_345)), "https://tile.openstreetmap.org/15/19456/12345.png");
    assert_eq!(tile_url(tc(0, 0, 0)), "https://tile.openstreetmap.org/0/0/0.png");
    assert_eq!(tile_url(tc(3, -1, 2)), "https://tile.openstreetmap.org/3/-1/2.png");
}

#[test]
fn requests_go_stale_after_a_zoom_change() {
    let mut b: TileBook<u8> = TileBook::new();
    let issued = b.epoch();
    b.touch();
    b.take_missing_tiles(range(0, 0, 1, 1));
    b.insert_tile(tc(15, 0, 0), 1);
    b.change_zoom(15);
    assert!(!issued.is_stale(b.epoch().issued));
    b.change_zoom(16);
    assert!(issued.is_stale(b.epoch().issued));
    let later = b.epoch();
    b.change_zoom(15);
    assert!(later.is_stale(b.epoch().issued));
}

#[test]
fn second_take_in_a_row_is_empty() {
    let mut b: TileBook<u8> = TileBook::new();
    b.change_zoom(2);
    let r = range(-2, -1, 5, 3);
    assert_eq!(b.take_missing_tiles(r).len(), 12);
    assert!(b.take_missing_tiles(r).is_empty());
}

#[test]
fn tile_fetch_decisions() {
    assert_eq!(tile_fetch_step(true, FetchEvent::Begin), FetchAction::Finish(TileResult::Stale));
    assert_eq!(tile_fetch_step(false, FetchEvent::Begin), FetchAction::WaitForSlot);
    assert_eq!(tile_fetch_step(true, FetchEvent::SlotGranted), FetchAction::Finish(TileResult::Stale));
    assert_eq!(tile_fetch_step(false, FetchEvent::SlotGranted), FetchAction::SendRequest);
    assert_eq!(tile_fetch_step(false, FetchEvent::QueueClosed), FetchAction::Finish(TileResult::Failed));
    assert_eq!(tile_fetch_step(false, FetchEvent::RequestFailed), FetchAction::Finish(TileResult::Failed));
    assert_eq!(tile_fetch_step(false, FetchEvent::Responded(200)), FetchAction::ReadBody);
    assert_eq!(tile_fetch_step(false, FetchEvent::Responded(299)), FetchAction::ReadBody);
    assert_eq!(tile_fetch_step(false, FetchEvent::Responded(304)), FetchAction::Finish(TileResult::Failed));
    assert_eq!(tile_fetch_step(false, FetchEvent::Responded(404)), FetchAction::Finish(TileResult::Failed));
    assert_eq!(tile_fetch_step(false, FetchEvent::BodyFailed), FetchAction::Finish(TileResult::Failed));
    assert_eq!(tile_fetch_step(false, FetchEvent::BodyRead), FetchAction::Decode);
    assert_eq!(tile_fetch_step(false, FetchEvent::DecodeFailed), FetchAction::Finish(TileResult::Failed));
    assert_eq!(tile_fetch_step(false, FetchEvent::Decoded), FetchAction::Finish(TileResult::Loaded));
}

#[test]
fn missing_tiles_are_fresh_and_distinct() {
    let mut b: TileBook<u8> = TileBook::new();
    b.change_zoom(3);
    b.take_missing_tiles(range(0, 0, 2, 2));
    b.insert_tile(tc(3, 1, 1), 9);
    let more = b.take_missing_tiles(range(0, 0, 3, 3));
    assert_eq!(more.len(), 5);
    for (i, c) in more.iter().enumerate() {
        assert!(c.x == 2 || c.y == 2);
        assert!(!more[i + 1..].contains(c));
    }
}
