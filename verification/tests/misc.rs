use ferro_core::search::index_marks_are_stale;
use ferro_core::message_actions::{select_expired, PurgeCandidate};
use ferro_core::bench::{
    bench_date, bench_sender, bench_subject, bench_uidl, body_for, last_cursor, middle_cursor, uidl_number,
};
use ferro_core::cli::{account_line, message_line};
use ferro_core::db::accounts::Account;
use ferro_core::search::{next_attempt, retry_delay_ms, MAX_COMMIT_ATTEMPTS};
use ferro_core::sync::{summary_text, SyncSummary};
use ferro_core::tui::background::{status_for, BackgroundEvent};

#[test]
fn bench_messages_follow_from_their_number() {
    assert_eq!(body_for(2000), "this is benchmark body 2000 containing the needle term");
    assert_eq!(body_for(7), "this is generic benchmark body content for message 7");
    assert_eq!(bench_uidl(12), "bench-12");
    assert_eq!(bench_subject(3), "Benchmark message 3");
    assert_eq!(bench_sender(3), "sender3@example.com");
    assert_eq!(bench_date(5), 2_000_000_000 - 5);
    assert_eq!(uidl_number("bench-42"), Some(42));
    assert_eq!(uidl_number("bench-bench-42"), Some(42));
    assert_eq!(uidl_number("other-1"), None);
    assert_eq!(middle_cursor(10), 2_000_000_000 - 5);
    assert_eq!(last_cursor(100), 2_000_000_000 - 100 + 20);
}

#[test]
fn commit_retries_back_off_and_stop_after_eight_attempts() {
    assert_eq!(retry_delay_ms(0), 0);
    assert_eq!(retry_delay_ms(3), 900);
    let mut total = 0;
    let mut attempt = 0;
    let mut attempts = 1;
    loop {
        total += retry_delay_ms(attempt);
        match next_attempt(attempt) {
            Some(a) => {
                attempt = a;
                attempts += 1;
            }
            None => break,
        }
    }
    assert_eq!(attempts, MAX_COMMIT_ATTEMPTS);
    assert_eq!(total, 8400);
}

#[test]
fn summaries_and_listings_print_as_before() {
    assert_eq!(
        summary_text(&SyncSummary { fetched: 3, remaining: 0, ended_early: false }),
        "fetched 3 message(s), 0 remaining"
    );
    assert_eq!(
        summary_text(&SyncSummary { fetched: 1, remaining: 9, ended_early: true }),
        "fetched 1 message(s), 9 remaining (stopped early after repeated disconnects; re-run to continue)"
    );
    assert_eq!(
        message_line(12, None, Some("Hello"), 1000),
        format!("#{:<6} {:<30} {:<40} {}", 12, "(unknown sender)", "Hello", 1000)
    );
    let a = Account {
        id: 2,
        name: "Work".to_string(),
        host: "pop.example.com".to_string(),
        port: 995,
        username: "bob".to_string(),
        use_tls: true,
        created_at: 0,
        uidl_supported: None,
    };
    assert_eq!(account_line(&a), format!("#{:<4} {:<20} {}@{}:{} (use_tls={})", 2, "Work", "bob", "pop.example.com", 995, true));
}

#[test]
fn background_reports_become_status_lines() {
    let (text, refresh) = status_for(&BackgroundEvent::SyncProgress { account_id: 1, fetched: 30, total: 1000 });
    assert_eq!(text, "account #1: syncing… 30/1000");
    assert!(!refresh);
    let (text, refresh) = status_for(&BackgroundEvent::SyncFinished {
        account_id: 2,
        result: Ok(SyncSummary { fetched: 5, remaining: 1, ended_early: false }),
    });
    assert_eq!(text, "account #2: fetched 5, 1 remaining");
    assert!(refresh);
    let (text, _) = status_for(&BackgroundEvent::SyncFinished { account_id: 2, result: Err("boom".to_string()) });
    assert_eq!(text, "account #2: error: boom");
    let (text, _) = status_for(&BackgroundEvent::ManualPurgeFinished { result: Ok(0) });
    assert_eq!(text, "保持期間が無期限のため、何も削除されませんでした");
    let (text, _) = status_for(&BackgroundEvent::ManualPurgeFinished { result: Ok(4) });
    assert_eq!(text, "4件を削除しました");
    let (text, refresh) = status_for(&BackgroundEvent::ReindexFinished { result: Ok(12) });
    assert_eq!(text, "12件を再構築しました");
    assert!(!refresh);
    let (text, _) = status_for(&BackgroundEvent::RetentionPurged { count: 3 });
    assert_eq!(text, "保持期間切れメッセージを3件削除しました");
}

#[test]
fn purge_selects_unstarred_expired_messages_up_to_the_limit() {
    let c = |id: i64, date_header: i64, is_flagged: bool| PurgeCandidate { id, date_header, is_flagged };
    let cs = vec![c(1, 10, false), c(2, 20, true), c(3, 30, false), c(4, 200, false), c(5, 40, false)];
    assert_eq!(select_expired(&cs, 100, 10), vec![1, 3, 5]);
    assert_eq!(select_expired(&cs, 100, 2), vec![1, 3]);
    assert_eq!(select_expired(&cs, 5, 10), Vec::<i64>::new());
}

#[test]
fn index_marks_are_stale_when_the_index_holds_fewer_documents() {
    assert!(index_marks_are_stale(10, 3));
    assert!(!index_marks_are_stale(3, 3));
    assert!(!index_marks_are_stale(0, 5));
    assert!(!index_marks_are_stale(-1, 0));
}
