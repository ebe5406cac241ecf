use conduit::ingest::{IngestError, IngestStore, PendingUpload, DEFAULT_MAX_UPLOAD_BYTES};

fn pending(handle: &str) -> PendingUpload {
    PendingUpload { handle: handle.into(), path: format!("/stage/{handle}") }
}

#[test]
fn staged_upload_is_taken_once() {
    let mut s = IngestStore::new("/stage".into(), 10, 60);
    let p = s.plan();
    assert!(p.handle.starts_with("up_"));
    assert_eq!(p.handle.len(), 35);
    assert_eq!(p.path, format!("/stage/{}", p.handle));
    let reply = s.stage(p, 3, 7, Ok(())).unwrap();
    assert_eq!(reply.size, 3);
    let staged = s.take(&reply.handle, 7).ok().unwrap();
    assert_eq!((staged.size, staged.user_id), (3, 7));
    assert_eq!(staged.path, format!("/stage/{}", reply.handle));
    assert_eq!(s.take(&reply.handle, 7).err(), Some(IngestError::NotFound));
}

#[test]
fn foreign_upload_is_left_alone() {
    let mut s = IngestStore::new("/stage".into(), 10, 60);
    s.stage(pending("h"), 3, 7, Ok(())).unwrap();
    assert_eq!(s.take("h", 8).err(), Some(IngestError::Forbidden));
    assert!(s.take("h", 7).is_ok());
}

#[test]
fn failed_write_stages_nothing() {
    let mut s = IngestStore::new("/stage".into(), 10, 60);
    let e = s.stage(pending("h"), 3, 7, Err("disk full".into())).unwrap_err();
    assert_eq!((e.status, e.message.as_str()), (500, "stage upload: disk full"));
    assert_eq!(s.take("h", 7).err(), Some(IngestError::NotFound));
}

#[test]
fn bodies_over_the_cap_are_refused() {
    let s = IngestStore::new("/stage".into(), 10, 60);
    assert_eq!(s.check_body(Some(10)).unwrap(), 10);
    for len in [None, Some(11)] {
        let e = s.check_body(len).unwrap_err();
        assert_eq!((e.status, e.message.as_str()), (413, "upload exceeds max of 10 bytes"));
    }
    assert_eq!(DEFAULT_MAX_UPLOAD_BYTES, 16 << 20);
}

#[test]
fn only_expired_uploads_are_swept() {
    let second: u128 = 1_000_000_000;
    let mut s = IngestStore::new("/stage".into(), 10, 60);
    s.stage_at(pending("old"), 1, 7, Ok(()), 0).unwrap();
    s.stage_at(pending("new"), 2, 7, Ok(()), 5 * second).unwrap();
    s.stage_at(pending("later"), 3, 7, Ok(()), 100 * second).unwrap();
    assert!(s.sweep_expired_at(60 * second).is_empty());
    let swept = s.sweep_expired_at(60 * second + 1);
    assert_eq!(swept.len(), 1);
    assert_eq!(swept[0].path, "/stage/old");
    assert_eq!(s.take("old", 7).err(), Some(IngestError::NotFound));
    assert!(s.take("new", 7).is_ok());
    assert!(s.take("later", 7).is_ok());
}

#[test]
fn expired_uploads_are_unknown() {
    let second: u128 = 1_000_000_000;
    let mut s = IngestStore::new("/stage".into(), 10, 60);
    s.stage_at(pending("h"), 3, 7, Ok(()), 0).unwrap();
    assert_eq!(s.take_at("h", 7, 60 * second + 1).err(), Some(IngestError::NotFound));
    assert_eq!(s.take_at("h", 8, 60 * second + 1).err(), Some(IngestError::NotFound));
    assert_eq!(s.take_at("h", 8, 60 * second).err(), Some(IngestError::Forbidden));
    assert_eq!(s.take_at("h", 7, 60 * second).ok().unwrap().size, 3);
    assert_eq!(s.take_at("h", 7, 60 * second).err(), Some(IngestError::NotFound));
}

#[test]
fn callers_are_answered_alike() {
    assert_eq!(IngestError::NotFound.to_string(), "unknown or expired upload_handle");
    assert_eq!(IngestError::Forbidden.to_string(), "upload_handle does not belong to token");
    assert_eq!(IngestError::NotFound.to_answer(), "unknown or expired upload_handle");
    assert_eq!(IngestError::Forbidden.to_answer(), "unknown or expired upload_handle");
}

#[test]
fn lifetimes_end_without_a_sweep() {
    let mut s = IngestStore::new("/stage".into(), 10, 0);
    s.stage_at(pending("h"), 3, 7, Ok(()), 0).unwrap();
    while s.take("h", 8).err() == Some(IngestError::Forbidden) {}
    assert_eq!(s.take("h", 7).err(), Some(IngestError::NotFound));
    let swept = s.sweep_expired();
    assert_eq!(swept.len(), 1);
    assert_eq!(swept[0].path, "/stage/h");
}

#[test]
fn fresh_uploads_survive_a_sweep() {
    let mut s = IngestStore::new("/stage".into(), 10, 3600);
    s.stage(pending("h"), 3, 7, Ok(())).unwrap();
    assert!(s.sweep_expired().is_empty());
    assert!(s.take("h", 7).is_ok());
}

#[test]
fn paths_are_joined_like_paths() {
    let p = IngestStore::new("/stage/".into(), 10, 60).plan();
    assert_eq!(p.path, format!("/stage/{}", p.handle));
    let p = IngestStore::new("".into(), 10, 60).plan();
    assert_eq!(p.path, p.handle);
}

#[test]
fn ingest_error_texts() {
    assert_eq!(IngestError::NotFound.to_string(), "unknown or expired upload_handle");
    assert_eq!(IngestError::Forbidden.to_string(), "upload_handle does not belong to token");
}

#[test]
fn taking_a_handle_leaves_the_others() {
    let mut s = IngestStore::new("/stage".into(), 10, 60);
    s.stage(pending("a"), 1, 7, Ok(())).unwrap();
    s.stage(pending("b"), 2, 8, Ok(())).unwrap();
    assert_eq!(s.take("a", 7).ok().unwrap().size, 1);
    assert_eq!(s.take("b", 8).ok().unwrap().size, 2);
}
