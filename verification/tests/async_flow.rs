use std::sync::{Arc, Mutex};
use std::time::{Duration, Instant};

use guess_who::error::AppError;
use guess_who::game_manager::GameManager;
use guess_who::locale::Language;
use guess_who::messages::{Answer, Verdict};

fn yes_answer() -> Answer {
    let mut a = Answer::new();
    a.verdict = Some(Verdict::Yes);
    a.comment = Some("it is".to_string());
    a
}

#[test]
fn wait_unblocks_shortly_after_commit() {
    let rt = tokio::runtime::Runtime::new().unwrap();
    rt.block_on(async {
        let manager = Arc::new(Mutex::new(GameManager::new()));
        let token = {
            let mut m = manager.lock().unwrap();
            let t = m.new_game("Whale", Language::English);
            m.set_pending_question(&t, "Is it blue?").unwrap();
            t
        };
        let notifier = manager.lock().unwrap().get_notifier(&token).unwrap();

        let committer = {
            let manager = Arc::clone(&manager);
            tokio::spawn(async move {
                tokio::time::sleep(Duration::from_millis(10)).await;
                manager
                    .lock()
                    .unwrap()
                    .answer_pending_question(&token, &yes_answer())
                    .unwrap();
            })
        };

        let start = Instant::now();
        let woke = tokio::time::timeout(Duration::from_millis(100), notifier.notified()).await;
        let elapsed = start.elapsed();
        assert!(woke.is_ok(), "the waiter timed out instead of being woken");
        assert!(
            elapsed < Duration::from_millis(90),
            "woke only after {elapsed:?}"
        );
        committer.await.unwrap();
        // The waiter re-checks the store rather than trusting the wakeup.
        assert_eq!(manager.lock().unwrap().is_pending(&token), Ok(false));
    });
}

#[test]
fn wait_times_out_when_nothing_commits() {
    let rt = tokio::runtime::Runtime::new().unwrap();
    rt.block_on(async {
        let manager = Arc::new(Mutex::new(GameManager::new()));
        let token = {
            let mut m = manager.lock().unwrap();
            let t = m.new_game("Whale", Language::English);
            m.set_pending_question(&t, "Is it blue?").unwrap();
            t
        };
        let notifier = manager.lock().unwrap().get_notifier(&token).unwrap();
        let start = Instant::now();
        let woke = tokio::time::timeout(Duration::from_millis(100), notifier.notified()).await;
        assert!(woke.is_err(), "nothing fired, yet the wait returned");
        assert!(start.elapsed() >= Duration::from_millis(100));
    });
}

#[test]
fn delete_wakes_every_waiter() {
    let rt = tokio::runtime::Runtime::new().unwrap();
    rt.block_on(async {
        let manager = Arc::new(Mutex::new(GameManager::new()));
        let token = manager.lock().unwrap().new_game("Whale", Language::English);

        let mut waiters = Vec::new();
        for _ in 0..5 {
            let manager = Arc::clone(&manager);
            waiters.push(tokio::spawn(async move {
                let notifier = manager.lock().unwrap().get_notifier(&token).unwrap();
                let woke =
                    tokio::time::timeout(Duration::from_secs(2), notifier.notified()).await;
                assert!(woke.is_ok(), "a waiter slept through the deletion");
                // On wake the session is gone.
                manager.lock().unwrap().get_game_state(&token).unwrap_err()
            }));
        }

        tokio::time::sleep(Duration::from_millis(30)).await;
        let start = Instant::now();
        manager.lock().unwrap().delete_game(&token).unwrap();
        for w in waiters {
            assert_eq!(w.await.unwrap(), AppError::GameNotFound);
        }
        assert!(
            start.elapsed() < Duration::from_millis(500),
            "waiters woke too slowly"
        );
    });
}

#[test]
fn whale_scenario() {
    let rt = tokio::runtime::Runtime::new().unwrap();
    rt.block_on(async {
        let manager = Arc::new(Mutex::new(GameManager::new()));
        let token = manager.lock().unwrap().new_game("Whale", Language::English);

        // The first ask wins the slot; a concurrent second one is busy.
        assert_eq!(
            manager.lock().unwrap().set_pending_question(&token, "Is it blue?"),
            Ok(())
        );
        assert_eq!(
            manager.lock().unwrap().set_pending_question(&token, "Is it big?"),
            Err(AppError::Pending)
        );

        let notifier = manager.lock().unwrap().get_notifier(&token).unwrap();
        let resolver = {
            let manager = Arc::clone(&manager);
            tokio::spawn(async move {
                tokio::time::sleep(Duration::from_millis(10)).await;
                let answer = Answer::parse_from_string("YES; whales are blue enough");
                manager
                    .lock()
                    .unwrap()
                    .answer_pending_question(&token, &answer)
                    .unwrap();
            })
        };

        let woke = tokio::time::timeout(Duration::from_millis(200), notifier.notified()).await;
        assert!(woke.is_ok());
        resolver.await.unwrap();

        let g = manager.lock().unwrap().get_game_state(&token).unwrap();
        assert_eq!(g.records.len(), 1);
        assert_eq!(g.records[0].answers.as_ref().unwrap().verdict, Some(Verdict::Yes));
        // Now the slot is free again.
        assert_eq!(
            manager.lock().unwrap().set_pending_question(&token, "Is it big?"),
            Ok(())
        );
    });
}
