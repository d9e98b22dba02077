use elleven::{
    complete_job, get_thumbnail_filename, index_paths, is_media_path, resolve_thumbnail, Catalog,
    CatalogError, CodecError, Status, ThumbnailLookup, next_idle_delay, FIRST_IDLE_DELAY_MS,
    MAX_IDLE_DELAY_MS, media_type, MediaType,
};

fn paths(v: &[&str]) -> Vec<String> {
    v.iter().map(|s| s.to_string()).collect()
}

#[test]
fn upsert_creates_pending_row() {
    let mut c = Catalog::new();
    let id = c.upsert_pending("/p/a.jpg", 7);
    assert_eq!(id, 0);
    let row = c.get_by_id(0).unwrap();
    assert_eq!(row.absolute_path, "/p/a.jpg");
    assert_eq!(row.cache_key, get_thumbnail_filename("/p/a.jpg"));
    assert_eq!(row.status, Status::Pending);
    assert_eq!(row.thumbnail_location, None);
    assert_eq!(row.last_error, None);
    assert_eq!((row.discovered_at, row.updated_at), (7, 7));
}

#[test]
fn upsert_same_path_twice_keeps_one_row() {
    let mut c = Catalog::new();
    let a = c.upsert_pending("/p/a.jpg", 1);
    let b = c.upsert_pending("/p/b.jpg", 1);
    let again = c.upsert_pending("/p/a.jpg", 2);
    assert_eq!((a, b, again), (0, 1, 0));
    assert_eq!(c.len(), 2);
    assert_eq!(c.get_by_id(0).unwrap().updated_at, 1);
}

#[test]
fn claims_are_exclusive_and_bounded() {
    let mut c = Catalog::new();
    for p in ["/a.jpg", "/b.jpg", "/c.jpg"] {
        c.upsert_pending(p, 0);
    }
    let mut ids = Vec::new();
    let mut nones = 0;
    for _ in 0..5 {
        match c.claim_next_pending(1) {
            Some(row) => {
                assert_eq!(row.status, Status::Generating);
                assert_eq!(row.updated_at, 1);
                ids.push(row.id);
            }
            None => nones += 1,
        }
    }
    ids.sort();
    ids.dedup();
    assert_eq!(ids, vec![0, 1, 2]);
    assert_eq!(nones, 2);
}

#[test]
fn claim_on_empty_catalog_is_none() {
    let mut c = Catalog::new();
    assert!(c.claim_next_pending(0).is_none());
}

#[test]
fn mark_ready_sets_location() {
    let mut c = Catalog::new();
    c.upsert_pending("/a.png", 0);
    let row = c.claim_next_pending(1).unwrap();
    assert_eq!(c.mark_ready(row.id, "/cache/x.webp".to_string(), 2), Ok(()));
    let row = c.get_by_path("/a.png").unwrap();
    assert_eq!(row.status, Status::Ready);
    assert_eq!(row.thumbnail_location, Some("/cache/x.webp".to_string()));
    assert_eq!(row.updated_at, 2);
}

#[test]
fn transitions_refused_outside_generating() {
    let mut c = Catalog::new();
    c.upsert_pending("/a.png", 0);
    assert_eq!(c.mark_ready(0, "x".to_string(), 1), Err(CatalogError::NotGenerating));
    assert_eq!(c.mark_failed(0, "x".to_string(), 1), Err(CatalogError::NotGenerating));
    assert_eq!(c.mark_ready(5, "x".to_string(), 1), Err(CatalogError::NotFound));
    assert_eq!(c.mark_failed(5, "x".to_string(), 1), Err(CatalogError::NotFound));
    assert_eq!(c.get_by_id(0).unwrap().status, Status::Pending);
}

#[test]
fn lookups_of_unknown_rows() {
    let c = Catalog::new();
    assert!(c.get_by_id(0).is_none());
    assert!(c.get_by_path("/nope.jpg").is_none());
}

#[test]
fn recover_interrupted_requeues_generating_only() {
    let mut c = Catalog::new();
    for p in ["/a.jpg", "/b.jpg", "/c.jpg"] {
        c.upsert_pending(p, 0);
    }
    let a = c.claim_next_pending(1).unwrap();
    let b = c.claim_next_pending(1).unwrap();
    c.mark_ready(a.id, "/cache/a.webp".to_string(), 2).unwrap();
    c.recover_interrupted(3);
    assert_eq!(c.get_by_id(a.id).unwrap().status, Status::Ready);
    let rb = c.get_by_id(b.id).unwrap();
    assert_eq!((rb.status, rb.updated_at), (Status::Pending, 3));
    assert_eq!(c.get_by_path("/c.jpg").unwrap().status, Status::Pending);
}

#[test]
fn unindexed_path_is_not_found_then_not_yet() {
    let mut c = Catalog::new();
    assert_eq!(resolve_thumbnail(&c, "/p/a.jpg"), ThumbnailLookup::NotFound);
    index_paths(&mut c, &paths(&["/p/a.jpg"]), 0);
    assert_eq!(resolve_thumbnail(&c, "/p/a.jpg"), ThumbnailLookup::NotYet);
    c.claim_next_pending(1).unwrap();
    assert_eq!(resolve_thumbnail(&c, "/p/a.jpg"), ThumbnailLookup::NotYet);
}

#[test]
fn resolver_ready_and_unavailable() {
    let mut c = Catalog::new();
    c.upsert_pending("/a.jpg", 0);
    c.upsert_pending("/b.jpg", 0);
    let a = c.claim_next_pending(1).unwrap();
    let b = c.claim_next_pending(1).unwrap();
    complete_job(&mut c, a.id, "/cache/a.webp".to_string(), &Ok(()), 2).unwrap();
    complete_job(&mut c, b.id, "/cache/b.webp".to_string(), &Err(CodecError::Decode("bad".to_string())), 2)
        .unwrap();
    assert_eq!(
        resolve_thumbnail(&c, &a.absolute_path),
        ThumbnailLookup::Ready("/cache/a.webp".to_string())
    );
    assert_eq!(resolve_thumbnail(&c, &b.absolute_path), ThumbnailLookup::Unavailable);
}

#[test]
fn failed_job_records_error_and_worker_moves_on() {
    let mut c = Catalog::new();
    index_paths(&mut c, &paths(&["/bad.jpg", "/good.jpg"]), 0);
    let first = c.claim_next_pending(1).unwrap();
    let outcome = elleven::render_thumbnail(b"corrupt", 256).map(|_| ());
    complete_job(&mut c, first.id, "/cache/bad.webp".to_string(), &outcome, 2).unwrap();
    let row = c.get_by_id(first.id).unwrap();
    assert_eq!(row.status, Status::Failed);
    assert!(row.last_error.as_ref().map_or(false, |e| e.starts_with("decode error: ")));
    assert_eq!(row.thumbnail_location, None);
    let second = c.claim_next_pending(3).unwrap();
    assert_ne!(second.id, first.id);
    complete_job(&mut c, second.id, "/cache/good.webp".to_string(), &Ok(()), 4).unwrap();
    assert_eq!(c.get_by_id(second.id).unwrap().status, Status::Ready);
}

#[test]
fn complete_job_refuses_unclaimed_row() {
    let mut c = Catalog::new();
    c.upsert_pending("/a.jpg", 0);
    assert_eq!(
        complete_job(&mut c, 0, "x".to_string(), &Ok(()), 1),
        Err(CatalogError::NotGenerating)
    );
    assert_eq!(complete_job(&mut c, 9, "x".to_string(), &Ok(()), 1), Err(CatalogError::NotFound));
}

#[test]
fn rescan_of_ready_rows_regresses_nothing() {
    let mut c = Catalog::new();
    let list = paths(&["/r/a.jpg", "/r/b.png"]);
    index_paths(&mut c, &list, 0);
    while let Some(row) = c.claim_next_pending(1) {
        c.mark_ready(row.id, format!("/cache/{}", row.cache_key), 2).unwrap();
    }
    let s = index_paths(&mut c, &list, 3);
    assert_eq!((s.discovered, s.skipped), (2, 0));
    assert_eq!(c.len(), 2);
    for id in 0..2 {
        let row = c.get_by_id(id).unwrap();
        assert_eq!((row.status, row.updated_at), (Status::Ready, 2));
    }
}

#[test]
fn rescan_keeps_failed_rows_failed() {
    let mut c = Catalog::new();
    index_paths(&mut c, &paths(&["/r/a.jpg"]), 0);
    let row = c.claim_next_pending(1).unwrap();
    c.mark_failed(row.id, "broken".to_string(), 2).unwrap();
    index_paths(&mut c, &paths(&["/r/a.jpg"]), 3);
    let row = c.get_by_id(0).unwrap();
    assert_eq!(row.status, Status::Failed);
    assert_eq!(row.last_error, Some("broken".to_string()));
}

#[test]
fn index_skips_non_media_files() {
    let mut c = Catalog::new();
    let s = index_paths(&mut c, &paths(&["/a.JPG", "/notes.txt", "/b.webp", "/c", "/d.jpeg.bak"]), 0);
    assert_eq!((s.discovered, s.skipped), (2, 3));
    assert_eq!(c.len(), 2);
    assert!(c.get_by_path("/notes.txt").is_none());
}

#[test]
fn index_empty_list() {
    let mut c = Catalog::new();
    let s = index_paths(&mut c, &Vec::new(), 0);
    assert_eq!((s.discovered, s.skipped), (0, 0));
    assert_eq!(c.len(), 0);
}

#[test]
fn media_extensions_any_case() {
    for p in ["a.jpg", "a.JPEG", "x/y.Png", "w.WEBP", "v.webp"] {
        assert!(is_media_path(p), "{}", p);
    }
    for p in ["", "jpg", "a.jpgx", "a.txt", "a.pn", ".jp", "z.gif", "b.bmp", "t.tiff"] {
        assert!(!is_media_path(p), "{}", p);
    }
}

#[test]
fn idle_delay_doubles_up_to_cap() {
    assert_eq!(next_idle_delay(FIRST_IDLE_DELAY_MS), 100);
    assert_eq!(next_idle_delay(100), 200);
    assert_eq!(next_idle_delay(1500), MAX_IDLE_DELAY_MS);
    assert_eq!(next_idle_delay(0), FIRST_IDLE_DELAY_MS);
    assert_eq!(next_idle_delay(u64::MAX), MAX_IDLE_DELAY_MS);
}

#[test]
fn media_types_by_extension() {
    assert_eq!(media_type("/a/b.JPG"), MediaType::Jpeg);
    assert_eq!(media_type("/a/b.jpeg"), MediaType::Jpeg);
    assert_eq!(media_type("x.png"), MediaType::Png);
    assert_eq!(media_type("x.WebP"), MediaType::Webp);
    assert_eq!(media_type("x.gif"), MediaType::Unknown);
    assert_eq!(media_type(""), MediaType::Unknown);
    assert_eq!(MediaType::Jpeg.mime(), "image/jpeg");
    assert_eq!(MediaType::Png.mime(), "image/png");
    assert_eq!(MediaType::Webp.mime(), "image/webp");
    assert_eq!(MediaType::Unknown.mime(), "application/octet-stream");
}
