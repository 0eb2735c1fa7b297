use ferro_core::pop3::Pop3Error;
use ferro_core::sync::{
    after_fetch, after_handshake_error, after_uidl_error, content_uidl, finish_batch, is_disconnect, item_step,
    listing_mode, name_by_content, pending_messages, plan_fetch, sender_text, AfterFetch, FetchDecision, FetchRun,
    HandshakeStep, ItemStep, ListingMode, SyncError, SyncProgress, SyncSummary, UidlStep, MAX_RECONNECTS,
    RETR_BATCH_SIZE,
};

/// A fake server and store: what the server lists, what is stored, and how
/// the connections fail.
struct World {
    server: Vec<(u32, String)>,
    stored: Vec<String>,
    /// Connections that fail before the handshake completes.
    early_drops: u32,
    /// On the first connection, the connection breaks when this message is
    /// fetched.
    drop_at_retr: Option<u32>,
    connections: u32,
    /// The messages' bytes, one per server entry.
    raw: Vec<Vec<u8>>,
    /// Whether the server answers `UIDL`; one that does not drops the first
    /// connection at `UIDL` and answers `-ERR` afterwards.
    server_has_uidl: bool,
    uidl_calls: u32,
    /// The account's record of `UIDL` support.
    uidl_supported: Option<bool>,
}

/// Runs one sync call the way the caller's loop does, with the library's
/// decisions.
fn sync(world: &mut World, limit: Option<u32>) -> Result<SyncSummary, SyncError> {
    let mut progress = SyncProgress::start(limit);
    loop {
        world.connections += 1;
        if world.early_drops > 0 {
            world.early_drops -= 1;
            let err = Pop3Error::ConnectionClosed;
            match after_handshake_error(&mut progress, is_disconnect(&err)) {
                HandshakeStep::Retry => continue,
                HandshakeStep::Fail => return Err(SyncError::Pop3(err)),
            }
        }
        let listing: Vec<(u32, String)> = match listing_mode(world.uidl_supported) {
            ListingMode::Uidl => {
                world.uidl_calls += 1;
                if world.server_has_uidl {
                    if world.uidl_supported.is_none() {
                        world.uidl_supported = Some(true);
                    }
                    world.server.clone()
                } else {
                    let err = if world.connections == 1 {
                        Pop3Error::ConnectionClosed
                    } else {
                        Pop3Error::ServerError("-ERR not supported".to_string())
                    };
                    match after_uidl_error(&mut progress, world.uidl_supported, &err) {
                        UidlStep::FallBackHere => {
                            world.uidl_supported = Some(false);
                            list_by_content(world)
                        }
                        UidlStep::FallBackReconnect => {
                            world.uidl_supported = Some(false);
                            continue;
                        }
                        UidlStep::Retry => continue,
                        UidlStep::Fail => return Err(SyncError::Pop3(err)),
                    }
                }
            }
            ListingMode::ContentHash => list_by_content(world),
        };
        let stored: Vec<bool> = listing.iter().map(|(_, u)| world.stored.contains(u)).collect();
        let pending = pending_messages(&listing, &stored);
        let (take, target) = match plan_fetch(&progress, pending.len()) {
            FetchDecision::Done(summary) => return Ok(summary),
            FetchDecision::Fetch { take, target_total } => (take, target_total),
        };
        let mut run = FetchRun::new(progress.total_fetched, target);
        let mut broken = false;
        while let Some((start, end)) = run.next_batch(take) {
            let mut disconnected = false;
            for (num, uidl) in &pending[start..end] {
                let reply: Result<Vec<u8>, Pop3Error> =
                    if world.connections == 1 && world.drop_at_retr == Some(*num) {
                        Err(Pop3Error::Io("connection reset".to_string()))
                    } else {
                        Ok(uidl.clone().into_bytes())
                    };
                match item_step(&reply) {
                    ItemStep::Store => {
                        world.stored.push(uidl.clone());
                        run.record_stored(true);
                    }
                    ItemStep::EndBatch => {
                        disconnected = true;
                        break;
                    }
                    ItemStep::Fail => return Err(SyncError::Pop3(reply.unwrap_err())),
                }
            }
            let batch_end = finish_batch(&mut run, end, disconnected);
            if batch_end.flush_index {
                run.record_index_flushed();
            }
            if batch_end.stop {
                broken = true;
                break;
            }
        }
        match after_fetch(&mut progress, pending.len(), run.fetched, broken) {
            AfterFetch::Finished(summary) => return Ok(summary),
            AfterFetch::Reconnect => continue,
        }
    }
}

/// `LIST`, then every message fetched and named by its content.
fn list_by_content(world: &World) -> Vec<(u32, String)> {
    let listed: Vec<(u32, u64)> =
        world.server.iter().zip(&world.raw).map(|((num, _), raw)| (*num, raw.len() as u64)).collect();
    name_by_content(&listed, &world.raw)
}

fn world(uidls: &[&str]) -> World {
    World {
        server: uidls.iter().enumerate().map(|(i, u)| (i as u32 + 1, u.to_string())).collect(),
        stored: Vec::new(),
        early_drops: 0,
        drop_at_retr: None,
        connections: 0,
        raw: uidls.iter().map(|u| u.as_bytes().to_vec()).collect(),
        server_has_uidl: true,
        uidl_calls: 0,
        uidl_supported: None,
    }
}

#[test]
fn sync_respects_limit_and_resumes_next_call() {
    let mut w = world(&["u1", "u2", "u3"]);
    let summary = sync(&mut w, Some(2)).unwrap();
    assert_eq!(summary, SyncSummary { fetched: 2, remaining: 1, ended_early: false });
    assert_eq!(w.stored, vec!["u1".to_string(), "u2".to_string()]);

    let summary2 = sync(&mut w, None).unwrap();
    assert_eq!(summary2, SyncSummary { fetched: 1, remaining: 0, ended_early: false });
    assert!(w.stored.contains(&"u3".to_string()));
}

#[test]
fn sync_is_idempotent_when_nothing_new() {
    let mut w = world(&["u1"]);
    sync(&mut w, None).unwrap();
    let summary = sync(&mut w, None).unwrap();
    assert_eq!(summary, SyncSummary { fetched: 0, remaining: 0, ended_early: false });
}

#[test]
fn sync_reconnects_after_mid_pipeline_disconnect() {
    let mut w = world(&["u1", "u2"]);
    w.drop_at_retr = Some(2);
    let summary = sync(&mut w, None).unwrap();
    assert_eq!(summary.fetched, 2);
    assert_eq!(summary.remaining, 0);
    assert!(!summary.ended_early);
    assert_eq!(w.connections, 2);
}

#[test]
fn sync_reconnects_after_disconnect_during_initial_handshake() {
    let mut w = world(&["u1"]);
    w.early_drops = 2;
    let summary = sync(&mut w, None).unwrap();
    assert_eq!(summary, SyncSummary { fetched: 1, remaining: 0, ended_early: false });
    assert_eq!(w.stored, vec!["u1".to_string()]);
}

#[test]
fn sync_gives_up_after_exhausting_reconnects_during_initial_handshake() {
    let mut w = world(&[]);
    w.early_drops = 6;
    let result = sync(&mut w, None);
    assert!(matches!(result, Err(SyncError::Pop3(Pop3Error::ConnectionClosed))));
    assert_eq!(w.connections, MAX_RECONNECTS + 1);
}

#[test]
fn a_failure_other_than_a_lost_connection_is_not_retried() {
    let mut p = SyncProgress::start(None);
    assert_eq!(after_handshake_error(&mut p, false), HandshakeStep::Fail);
    assert_eq!(p.reconnects, 0);
    assert!(!is_disconnect(&Pop3Error::ServerError("auth".to_string())));
    assert!(is_disconnect(&Pop3Error::Io("reset".to_string())));
}

#[test]
fn a_broken_fetch_gives_up_after_the_reconnect_allowance() {
    let mut p = SyncProgress { total_fetched: 3, budget: Some(7), reconnects: MAX_RECONNECTS };
    let next = after_fetch(&mut p, 10, 2, true);
    assert_eq!(next, AfterFetch::Finished(SyncSummary { fetched: 5, remaining: 8, ended_early: true }));
    assert_eq!(p.budget, Some(5));
}

#[test]
fn batches_hold_at_most_the_batch_size() {
    let mut run = FetchRun::new(0, 45);
    let mut batches = Vec::new();
    while let Some((s, e)) = run.next_batch(45) {
        batches.push((s, e));
        finish_batch(&mut run, e, false);
    }
    assert_eq!(batches, vec![(0, 20), (20, 40), (40, 45)]);
    assert_eq!(RETR_BATCH_SIZE, 20);
}

#[test]
fn the_index_is_committed_once_enough_messages_wait() {
    let mut run = FetchRun::new(10, 1000);
    for _ in 0..500 {
        run.record_stored(true);
    }
    run.record_stored(false);
    let end = finish_batch(&mut run, 20, false);
    assert!(end.flush_index);
    assert_eq!((end.progress_fetched, end.progress_target), (511, 1000));
    assert_eq!(run.index_waiting, 500);
}

#[test]
fn pending_keeps_the_servers_order_and_skips_stored_ones() {
    let server = vec![(1, "a".to_string()), (2, "b".to_string()), (3, "c".to_string())];
    let pending = pending_messages(&server, &[false, true, false]);
    assert_eq!(pending, vec![(1, "a".to_string()), (3, "c".to_string())]);
}

#[test]
fn sender_text_joins_name_and_address() {
    assert_eq!(sender_text(Some("Alice"), Some("alice@example.com")), "Alice alice@example.com");
    assert_eq!(sender_text(None, Some("a@b")), " a@b");
    assert_eq!(sender_text(None, None), " ");
}

#[test]
fn sync_falls_back_to_content_hash_when_uidl_is_unsupported() {
    let mut w = world(&["unused-1", "unused-2"]);
    w.raw = vec![b"Subject: one\r\n\r\nbody1".to_vec(), b"Subject: two\r\n\r\nbody2".to_vec()];
    w.server_has_uidl = false;
    assert_eq!(w.uidl_supported, None);

    let summary = sync(&mut w, None).unwrap();
    assert_eq!(summary, SyncSummary { fetched: 2, remaining: 0, ended_early: false });
    assert_eq!(w.uidl_calls, 1, "UIDL should be tried exactly once before falling back");
    assert_eq!(w.uidl_supported, Some(false));
    assert_eq!(w.stored.len(), 2);
    assert!(w.stored.iter().all(|u| u.starts_with("ferro-hash-v1-")));

    let summary2 = sync(&mut w, None).unwrap();
    assert_eq!(summary2, SyncSummary { fetched: 0, remaining: 0, ended_early: false });
    assert_eq!(w.uidl_calls, 1, "second sync must not try UIDL again");
}

#[test]
fn a_refused_uidl_falls_back_on_the_same_connection() {
    let mut p = SyncProgress::start(None);
    let step = after_uidl_error(&mut p, None, &Pop3Error::ServerError("no".to_string()));
    assert_eq!(step, UidlStep::FallBackHere);
    assert_eq!(p.reconnects, 0);
    // Once the server is known to answer UIDL, a refusal fails the call.
    assert_eq!(after_uidl_error(&mut p, Some(true), &Pop3Error::ServerError("no".to_string())), UidlStep::Fail);
    assert_eq!(after_uidl_error(&mut p, Some(true), &Pop3Error::ConnectionClosed), UidlStep::Retry);
    assert_eq!(p.reconnects, 1);
    assert_eq!(listing_mode(Some(false)), ListingMode::ContentHash);
    assert_eq!(listing_mode(None), ListingMode::Uidl);
}

#[test]
fn content_names_carry_the_hash_and_the_length() {
    assert_eq!(content_uidl(b""), "ferro-hash-v1-14695981039346656037-0");
    assert_eq!(content_uidl(b"a"), "ferro-hash-v1-12638187200555641996-1");
    assert_ne!(content_uidl(b"ab"), content_uidl(b"ba"));
}
