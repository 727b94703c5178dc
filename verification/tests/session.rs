use scripting_tool::script::{OutOfOrder, ScriptId, ScriptRecord, ScriptStatus};
use scripting_tool::session::{LookupError, ScriptSession, TaskError};

fn text(record: &ScriptRecord) -> String {
    record.script_text().to_string()
}

#[test]
fn a_new_session_knows_no_script() {
    let session = ScriptSession::create("project");
    assert_eq!(session.get(ScriptId(0)).unwrap_err(), LookupError { id: ScriptId(0) });
    assert_eq!(*session.project(), "project");
}

#[test]
fn submit_numbers_scripts_from_zero() {
    let mut session = ScriptSession::create(());
    let (first, first_handle) = session.submit("return 1".to_string(), 10);
    let (second, second_handle) = session.submit("return 2".to_string(), 11);
    let (third, third_handle) = session.submit("return 3".to_string(), 12);
    assert_eq!(first, ScriptId(0));
    assert_eq!(second, ScriptId(1));
    assert_eq!(third, ScriptId(2));
    assert_eq!(first_handle.id, first);
    assert_eq!(second_handle.id, second);
    assert_eq!(third_handle.id, third);
}

#[test]
fn submitted_ids_are_pairwise_distinct() {
    let mut session = ScriptSession::create(());
    let mut ids = Vec::new();
    for n in 0..50u64 {
        let (id, _) = session.submit(format!("return {}", n), n);
        if n % 3 == 0 {
            session.start(id).unwrap();
        }
        if n % 6 == 0 {
            session.finish(id, Ok(n.to_string())).unwrap();
        }
        ids.push(id);
    }
    for i in 0..ids.len() {
        for j in 0..ids.len() {
            assert_eq!(ids[i] == ids[j], i == j);
        }
    }
}

#[test]
fn the_same_text_submitted_twice_gets_two_ids() {
    let mut session = ScriptSession::create(());
    let (first, _) = session.submit("return 1".to_string(), 0);
    let (second, _) = session.submit("return 1".to_string(), 0);
    assert_ne!(first, second);
}

#[test]
fn a_submitted_script_is_pending() {
    let mut session = ScriptSession::create(());
    let (id, handle) = session.submit("print('hi')".to_string(), 1234);
    let record = session.get(id).unwrap();
    assert_eq!(record.id(), id);
    assert_eq!(record.script_text(), "print('hi')");
    assert_eq!(record.created_at(), 1234);
    assert!(matches!(record.status(), ScriptStatus::Pending));
    assert!(!record.is_terminal());
    assert!(!session.is_resolved(&handle));
}

#[test]
fn get_fails_on_an_id_that_was_not_issued() {
    let mut session = ScriptSession::create(());
    session.submit("return 1".to_string(), 0);
    assert!(session.get(ScriptId(0)).is_ok());
    assert_eq!(session.get(ScriptId(1)).unwrap_err(), LookupError { id: ScriptId(1) });
    assert_eq!(
        session.get(ScriptId(u64::MAX)).unwrap_err(),
        LookupError { id: ScriptId(u64::MAX) }
    );
}

#[test]
fn start_hands_out_the_script_text() {
    let mut session = ScriptSession::create(());
    let (id, handle) = session.submit("return 1+1".to_string(), 0);
    assert_eq!(session.start(id), Ok("return 1+1".to_string()));
    let record = session.get(id).unwrap();
    assert!(matches!(record.status(), ScriptStatus::Running));
    assert_eq!(record.script_text(), "return 1+1");
    assert!(!session.is_resolved(&handle));
}

#[test]
fn start_is_refused_on_an_unknown_id() {
    let mut session = ScriptSession::create(());
    assert_eq!(
        session.start(ScriptId(0)),
        Err(TaskError::Lookup(LookupError { id: ScriptId(0) }))
    );
    session.submit("return 1".to_string(), 0);
    assert_eq!(
        session.start(ScriptId(7)),
        Err(TaskError::Lookup(LookupError { id: ScriptId(7) }))
    );
    assert!(matches!(session.get(ScriptId(0)).unwrap().status(), ScriptStatus::Pending));
}

#[test]
fn a_script_is_started_once() {
    let mut session = ScriptSession::create(());
    let (id, _) = session.submit("return 1".to_string(), 0);
    assert!(session.start(id).is_ok());
    assert_eq!(session.start(id), Err(TaskError::OutOfOrder(OutOfOrder { id })));
    assert!(matches!(session.get(id).unwrap().status(), ScriptStatus::Running));
    session.finish(id, Ok("1".to_string())).unwrap();
    assert_eq!(session.start(id), Err(TaskError::OutOfOrder(OutOfOrder { id })));
    assert!(matches!(session.get(id).unwrap().status(), ScriptStatus::Succeeded(out) if out == "1"));
}

#[test]
fn finish_is_refused_before_start() {
    let mut session = ScriptSession::create(());
    let (id, handle) = session.submit("return 1".to_string(), 0);
    assert_eq!(
        session.finish(id, Ok("1".to_string())),
        Err(TaskError::OutOfOrder(OutOfOrder { id }))
    );
    assert!(matches!(session.get(id).unwrap().status(), ScriptStatus::Pending));
    assert!(!session.is_resolved(&handle));
}

#[test]
fn finish_is_refused_on_an_unknown_id() {
    let mut session = ScriptSession::create(());
    session.submit("return 1".to_string(), 0);
    assert_eq!(
        session.finish(ScriptId(1), Err("boom".to_string())),
        Err(TaskError::Lookup(LookupError { id: ScriptId(1) }))
    );
}

#[test]
fn finish_records_the_output_and_resolves_the_handle() {
    let mut session = ScriptSession::create(());
    let (id, handle) = session.submit("return 1+1".to_string(), 0);
    session.start(id).unwrap();
    let signal = session.finish(id, Ok("2".to_string())).unwrap();
    assert_eq!(signal, handle);
    assert_eq!(signal.id, id);
    assert!(session.is_resolved(&handle));
    let record = session.get(id).unwrap();
    assert!(record.is_terminal());
    assert!(matches!(record.status(), ScriptStatus::Succeeded(out) if out == "2"));
}

#[test]
fn finish_records_the_diagnostic_of_a_failure() {
    let mut session = ScriptSession::create(());
    let (id, handle) = session.submit("error('boom')".to_string(), 0);
    session.start(id).unwrap();
    session.finish(id, Err("boom".to_string())).unwrap();
    assert!(session.is_resolved(&handle));
    let record = session.get(id).unwrap();
    assert!(record.is_terminal());
    assert!(matches!(record.status(), ScriptStatus::Failed(why) if why == "boom"));
}

#[test]
fn a_terminal_record_never_changes() {
    let mut session = ScriptSession::create(());
    let (id, handle) = session.submit("return 1".to_string(), 5);
    session.start(id).unwrap();
    session.finish(id, Ok("1".to_string())).unwrap();
    assert_eq!(
        session.finish(id, Err("late".to_string())),
        Err(TaskError::OutOfOrder(OutOfOrder { id }))
    );
    assert_eq!(session.start(id), Err(TaskError::OutOfOrder(OutOfOrder { id })));
    let (other, _) = session.submit("return 2".to_string(), 6);
    session.start(other).unwrap();
    session.finish(other, Err("boom".to_string())).unwrap();
    assert!(session.is_resolved(&handle));
    let record = session.get(id).unwrap();
    assert_eq!(record.id(), id);
    assert_eq!(record.script_text(), "return 1");
    assert_eq!(record.created_at(), 5);
    assert!(matches!(record.status(), ScriptStatus::Succeeded(out) if out == "1"));
}

#[test]
fn records_stay_for_the_life_of_the_session() {
    let mut session = ScriptSession::create(());
    let mut ids = Vec::new();
    for n in 0..20u64 {
        let (id, _) = session.submit(format!("script {}", n), 100 + n);
        ids.push(id);
        for (k, earlier) in ids.iter().enumerate() {
            let record = session.get(*earlier).unwrap();
            assert_eq!(record.id(), *earlier);
            assert_eq!(text(record), format!("script {}", k));
            assert_eq!(record.created_at(), 100 + k as u64);
        }
    }
}

#[test]
fn interleaved_tasks_keep_their_records_apart() {
    let mut session = ScriptSession::create(());
    let n = 8u64;
    let mut ids = Vec::new();
    for k in 0..n {
        ids.push(session.submit(format!("return {}", k), k).0);
    }
    for k in (0..n).rev() {
        assert_eq!(session.start(ids[k as usize]), Ok(format!("return {}", k)));
    }
    for k in 0..n {
        let outcome = if k % 2 == 0 { Ok(format!("out {}", k)) } else { Err(format!("err {}", k)) };
        session.finish(ids[k as usize], outcome).unwrap();
        for j in 0..n {
            let record = session.get(ids[j as usize]).unwrap();
            assert_eq!(record.id(), ids[j as usize]);
            assert_eq!(text(record), format!("return {}", j));
            if j > k {
                assert!(matches!(record.status(), ScriptStatus::Running));
            } else if j % 2 == 0 {
                assert!(matches!(record.status(), ScriptStatus::Succeeded(out) if *out == format!("out {}", j)));
            } else {
                assert!(matches!(record.status(), ScriptStatus::Failed(why) if *why == format!("err {}", j)));
            }
        }
    }
}

#[test]
fn a_status_moves_forward_only() {
    let mut session = ScriptSession::create(());
    let (id, _) = session.submit("return 1".to_string(), 0);
    let rank = |session: &ScriptSession<()>| match session.get(id).unwrap().status() {
        ScriptStatus::Pending => 0,
        ScriptStatus::Running => 1,
        ScriptStatus::Succeeded(_) | ScriptStatus::Failed(_) => 2,
    };
    let mut seen = vec![rank(&session)];
    let _ = session.finish(id, Ok("early".to_string()));
    seen.push(rank(&session));
    let _ = session.start(id);
    seen.push(rank(&session));
    let _ = session.start(id);
    seen.push(rank(&session));
    let _ = session.finish(id, Err("boom".to_string()));
    seen.push(rank(&session));
    let _ = session.finish(id, Ok("late".to_string()));
    seen.push(rank(&session));
    let _ = session.start(id);
    seen.push(rank(&session));
    assert_eq!(seen, vec![0, 0, 1, 1, 2, 2, 2]);
    assert!(matches!(session.get(id).unwrap().status(), ScriptStatus::Failed(why) if why == "boom"));
}

#[test]
fn a_handle_of_another_session_is_not_resolved_here() {
    let mut busy = ScriptSession::create(());
    busy.submit("return 0".to_string(), 0);
    let (_, handle) = busy.submit("return 1".to_string(), 0);
    let mut fresh = ScriptSession::create(());
    assert!(!fresh.is_resolved(&handle));
    fresh.submit("return 2".to_string(), 0);
    assert!(!fresh.is_resolved(&handle));
}

#[test]
fn a_record_on_its_own_follows_the_same_steps() {
    let mut record = ScriptRecord::new(ScriptId(3), "return 1".to_string(), 9);
    assert_eq!(record.id(), ScriptId(3));
    assert_eq!(record.created_at(), 9);
    assert_eq!(record.finish(Ok("1".to_string())), Err(OutOfOrder { id: ScriptId(3) }));
    assert!(matches!(record.status(), ScriptStatus::Pending));
    assert_eq!(record.start(), Ok(()));
    assert_eq!(record.start(), Err(OutOfOrder { id: ScriptId(3) }));
    assert_eq!(record.finish(Err("boom".to_string())), Ok(()));
    assert_eq!(record.finish(Ok("1".to_string())), Err(OutOfOrder { id: ScriptId(3) }));
    assert!(matches!(record.status(), ScriptStatus::Failed(why) if why == "boom"));
    assert!(record.status().is_terminal());
}

#[test]
fn a_snapshot_does_not_follow_the_record() {
    let mut session = ScriptSession::create(());
    let (id, _) = session.submit("return 1".to_string(), 3);
    let snapshot = session.get(id).unwrap().clone();
    session.start(id).unwrap();
    session.finish(id, Ok("1".to_string())).unwrap();
    assert_eq!(snapshot.id(), id);
    assert_eq!(snapshot.script_text(), "return 1");
    assert_eq!(snapshot.created_at(), 3);
    assert!(matches!(snapshot.status(), ScriptStatus::Pending));
    assert!(matches!(session.get(id).unwrap().status(), ScriptStatus::Succeeded(_)));
    let copy = session.get(id).unwrap().status().clone();
    assert!(matches!(copy, ScriptStatus::Succeeded(out) if out == "1"));
}
