use er_commander::file_op::{
    closing_message, names_conflicting, paths_conflicting, shorten, slot_count, slot_of, sum_sizes,
    Ask, OpEffect, OpKind, OpMsg, OpProgress, Stage, Told, Turn, Worker, ERR_CANCEL, ERR_RETRY,
    ERR_SKIP, ERR_WAIT, OP_PAUSE, OP_RUN, OP_STOP,
};
use er_commander::path::DirPath;

fn unix(parts: &[&str]) -> DirPath {
    DirPath {
        root: "/".to_string(),
        parts: parts.iter().map(|p| p.to_string()).collect(),
        sep: '/',
    }
}

fn worker(kind: OpKind, overwrite: bool) -> Worker {
    Worker::new(kind, unix(&["home", "a.txt"]), None, overwrite, 5, 10, 1000)
}

fn started(kind: OpKind, overwrite: bool, size: u64) -> (Worker, Turn) {
    let mut w = worker(kind, overwrite);
    assert_eq!(w.ask(), Ask::ReadFlag);
    assert_eq!(w.step(Told::Flag(OP_RUN)).ask, Ask::ReadFlag);
    assert_eq!(w.step(Told::Flag(OP_RUN)).ask, Ask::ReadFlag);
    assert_eq!(w.step(Told::Flag(OP_RUN)).ask, Ask::Measure);
    let turn = w.step(Told::Size(size));
    (w, turn)
}

#[test]
fn slots_and_sums() {
    assert_eq!(slot_count(0), 1);
    assert_eq!(slot_count(3), 3);
    assert_eq!(slot_count(100), 4);
    assert_eq!(slot_of(5, 10), 1);
    assert_eq!(slot_of(0, 0), 0);
    assert_eq!(sum_sizes(&vec![1, 2, 3]), Some(6));
    assert_eq!(sum_sizes(&vec![u64::MAX, 1]), None);
}

#[test]
fn conflicts_by_name() {
    let files = vec![unix(&["a"]), unix(&["b"]), unix(&[])];
    assert_eq!(paths_conflicting(&files, &None, &vec![false, true, false]), ["b"]);
    assert!(paths_conflicting(&files, &None, &vec![false, false, false]).is_empty());
    let one = vec![unix(&["a"])];
    assert_eq!(paths_conflicting(&one, &Some("c".to_string()), &vec![true]), ["c"]);
    assert!(paths_conflicting(&one, &Some("c".to_string()), &vec![false]).is_empty());
    let names = vec!["x".to_string(), "y".to_string()];
    assert_eq!(names_conflicting(&names, &vec![true, true]), ["x", "y"]);
}

#[test]
fn copying_a_file() {
    let (mut w, turn) = started(OpKind::Copy, true, 300);
    assert_eq!(turn.ask, Ask::IsDir);
    assert!(matches!(
        &turn.send[0],
        OpMsg::SlotStart { thread_id: 1, file, file_size: 300 } if file == "a.txt"
    ));
    assert_eq!(w.step(Told::Yes(false)).ask, Ask::Open);
    assert_eq!(w.step(Told::Outcome(Ok(()))).ask, Ask::ReadFlag);
    assert_eq!(w.step(Told::Flag(OP_RUN)).ask, Ask::ReadFlag);
    assert_eq!(w.step(Told::Flag(OP_RUN)).ask, Ask::Read);
    assert_eq!(w.step(Told::Chunk(Ok(300))).ask, Ask::Write(300));
    assert_eq!(w.step(Told::Outcome(Ok(()))).ask, Ask::AddBytes(300));
    let turn = w.step(Told::Totals { done: 2, bytes: 500 });
    assert!(matches!(turn.send[0], OpMsg::SlotProgress { thread_id: 1, bytes_copied: 300 }));
    assert!(matches!(
        turn.send[1],
        OpMsg::Progress { done: 2, total: 10, bytes_done: 500, bytes_total: 1000 }
    ));
    w.step(Told::Flag(OP_RUN));
    w.step(Told::Flag(OP_RUN));
    assert_eq!(w.step(Told::Chunk(Ok(0))).ask, Ask::CountDone);
    let turn = w.step(Told::Totals { done: 3, bytes: 500 });
    assert!(matches!(turn.send[0], OpMsg::SlotDone { thread_id: 1 }));
    assert_eq!(turn.ask, Ask::End);
    assert!(w.step(Told::Done).send.is_empty());
}

#[test]
fn existing_files_are_spared() {
    let (mut w, turn) = started(OpKind::Copy, false, 1);
    assert_eq!(turn.ask, Ask::Probe);
    assert!(turn.send.is_empty());
    let turn = w.step(Told::Yes(true));
    assert!(matches!(turn.send[0], OpMsg::Skipped));
    assert_eq!(turn.ask, Ask::End);
    let (mut w, _) = started(OpKind::Move, false, 1);
    assert_eq!(w.step(Told::Yes(false)).ask, Ask::Rename);
}

#[test]
fn moving_on_one_disk_and_across_disks() {
    let (mut w, turn) = started(OpKind::Move, true, 40);
    assert_eq!(turn.ask, Ask::Rename);
    assert_eq!(w.step(Told::Outcome(Ok(()))).ask, Ask::AddBytes(40));
    assert_eq!(w.step(Told::Totals { done: 0, bytes: 40 }).ask, Ask::CountDone);
    let (mut w, _) = started(OpKind::Move, true, 40);
    assert_eq!(w.step(Told::Outcome(Err("jiný disk".to_string()))).ask, Ask::IsDir);
    assert_eq!(w.step(Told::Yes(true)).ask, Ask::CopyTree);
    assert_eq!(w.step(Told::Outcome(Ok(()))).ask, Ask::RemoveTree);
    assert_eq!(w.step(Told::Outcome(Ok(()))).ask, Ask::CountDone);
    let (mut w, _) = started(OpKind::Move, true, 40);
    w.step(Told::Outcome(Err(String::new())));
    assert_eq!(w.step(Told::Yes(false)).ask, Ask::Open);
    w.step(Told::Outcome(Ok(())));
    w.step(Told::Flag(OP_RUN));
    w.step(Told::Flag(OP_RUN));
    assert_eq!(w.step(Told::Chunk(Ok(0))).ask, Ask::RemoveFile);
    assert_eq!(w.step(Told::Outcome(Ok(()))).ask, Ask::CountDone);
}

#[test]
fn deleting() {
    let (mut w, turn) = started(OpKind::Delete, false, 1);
    assert_eq!(turn.ask, Ask::IsDir);
    assert_eq!(w.step(Told::Yes(true)).ask, Ask::RemoveTree);
    assert_eq!(w.step(Told::Outcome(Ok(()))).ask, Ask::CountDone);
    let (mut w, _) = started(OpKind::Delete, true, 1);
    assert_eq!(w.step(Told::Yes(false)).ask, Ask::RemoveFile);
}

#[test]
fn errors_wait_for_an_answer() {
    for (answer, ask) in [(ERR_RETRY, Ask::IsDir), (ERR_SKIP, Ask::End), (ERR_CANCEL, Ask::SetStop), (ERR_WAIT, Ask::Sleep(50))] {
        let (mut w, _) = started(OpKind::Delete, true, 1);
        w.step(Told::Yes(false));
        assert_eq!(w.step(Told::Outcome(Err("odepřeno".to_string()))).ask, Ask::ResetAnswer);
        let turn = w.step(Told::Done);
        assert!(matches!(
            &turn.send[0],
            OpMsg::ErrorWait { file, error } if file == "a.txt" && error == "odepřeno"
        ));
        assert_eq!(turn.ask, Ask::Sleep(50));
        assert_eq!(w.step(Told::Done).ask, Ask::ReadAnswer);
        assert_eq!(w.step(Told::Answer(answer)).ask, ask);
    }
}

#[test]
fn a_retried_file_is_worked_on_again() {
    let (mut w, _) = started(OpKind::Copy, true, 1);
    w.step(Told::Yes(true));
    w.step(Told::Outcome(Err("plno".to_string())));
    w.step(Told::Done);
    w.step(Told::Done);
    assert_eq!(w.step(Told::Answer(ERR_RETRY)).ask, Ask::IsDir);
    assert_eq!(w.step(Told::Yes(true)).ask, Ask::CopyTree);
    assert_eq!(w.step(Told::Outcome(Ok(()))).ask, Ask::CountDone);
    let turn = w.step(Told::Totals { done: 1, bytes: 0 });
    assert!(matches!(turn.send[0], OpMsg::SlotDone { .. }));
    assert_eq!(turn.ask, Ask::End);
    let (mut w, _) = started(OpKind::Move, true, 1);
    w.step(Told::Outcome(Err(String::new())));
    w.step(Told::Yes(true));
    w.step(Told::Outcome(Err("plno".to_string())));
    w.step(Told::Done);
    w.step(Told::Done);
    assert_eq!(w.step(Told::Answer(ERR_RETRY)).ask, Ask::Rename);
}

#[test]
fn stopping_and_pausing() {
    let mut w = worker(OpKind::Copy, true);
    assert_eq!(w.step(Told::Flag(OP_STOP)).ask, Ask::End);
    let mut w = worker(OpKind::Copy, true);
    w.step(Told::Flag(OP_PAUSE));
    assert_eq!(w.step(Told::Flag(OP_PAUSE)).ask, Ask::Sleep(100));
    assert_eq!(w.step(Told::Done).ask, Ask::ReadFlag);
    w.step(Told::Flag(OP_RUN));
    assert_eq!(w.step(Told::Flag(OP_STOP)).ask, Ask::End);
    let mut w = worker(OpKind::Copy, true);
    assert_eq!(w.step(Told::Yes(true)).ask, Ask::ReadFlag);
    assert!(w.stage == Stage::FirstCheck);
    assert!(matches!(closing_message(OP_RUN), OpMsg::Finished));
    match closing_message(OP_STOP) {
        OpMsg::Error(e) => assert_eq!(e, "Operace zastavena uživatelem."),
        other => panic!("{:?}", other),
    }
}

#[test]
fn names_at_the_target() {
    assert_eq!(worker(OpKind::Copy, true).target_name(), "a.txt");
    let w = Worker::new(OpKind::Copy, unix(&["a"]), Some("b".to_string()), true, 0, 1, 0);
    assert_eq!(w.target_name(), "b");
}

#[test]
fn the_progress_window() {
    let mut p = OpProgress::new();
    assert!(!p.running && !p.show);
    p.start("Kopírování", 3);
    assert!(p.running && p.show && p.stoppable);
    assert_eq!(p.slots.len(), 3);
    assert_eq!(p.kind_label, "Kopírování");
    let msg = OpMsg::SlotStart { thread_id: 1, file: "x".to_string(), file_size: 9 };
    assert!(p.can_take(&msg));
    assert!(p.apply(msg) == OpEffect::Nothing);
    p.apply(OpMsg::SlotProgress { thread_id: 1, bytes_copied: 4 });
    assert_eq!(p.slots[1].as_ref().unwrap().copied, 4);
    p.apply(OpMsg::SlotProgress { thread_id: 7, bytes_copied: 4 });
    p.apply(OpMsg::SlotDone { thread_id: 1 });
    assert!(p.slots[1].is_none());
    p.apply(OpMsg::Progress { done: 1, total: 3, bytes_done: 5, bytes_total: 6 });
    assert_eq!((p.done, p.total, p.bytes_done, p.bytes_total), (1, 3, 5, 6));
    p.apply(OpMsg::Skipped);
    assert_eq!((p.done, p.skipped), (2, 1));
    p.apply(OpMsg::Skipped);
    p.apply(OpMsg::Skipped);
    assert_eq!((p.done, p.skipped), (3, 3));
    assert!(p.apply(OpMsg::Finished) == OpEffect::Over);
    p.end_poll(false);
    assert!(!p.running && !p.stoppable);
    assert_eq!(p.done, p.total);
    assert!(p.slots.is_empty());
    let overflow = OpMsg::SlotProgress { thread_id: 0, bytes_copied: 1 };
    p.start("x", 1);
    p.apply(OpMsg::SlotStart { thread_id: 0, file: "x".to_string(), file_size: 9 });
    p.apply(OpMsg::SlotProgress { thread_id: 0, bytes_copied: u64::MAX });
    assert!(!p.can_take(&overflow));
}

#[test]
fn answering_errors() {
    let mut p = OpProgress::new();
    p.start("Mazání", 1);
    let wait = OpMsg::ErrorWait { file: "f".to_string(), error: "e".to_string() };
    p.err_focus = 2;
    assert!(p.apply(wait) == OpEffect::Waiting);
    assert_eq!(p.err_focus, 0);
    assert_eq!(p.err_wait, Some(("f".to_string(), "e".to_string())));
    assert_eq!(p.resolve_op_error(), (ERR_RETRY, false));
    assert!(p.err_wait.is_none());
    p.err_focus = 1;
    assert_eq!(p.resolve_op_error(), (ERR_SKIP, false));
    p.err_focus = 2;
    assert_eq!(p.resolve_op_error(), (ERR_CANCEL, true));
    assert!(p.apply(OpMsg::Error("zle".to_string())) == OpEffect::Over);
    assert_eq!(p.errors, ["zle"]);
    p.end_poll(false);
    p.err_focus = 2;
    assert_eq!(p.resolve_op_error(), (ERR_CANCEL, false));
}

#[test]
fn long_names_are_shortened() {
    let short = "x".repeat(34);
    assert_eq!(shorten(&short), short);
    let long = format!("{}{}", "a".repeat(4), "č".repeat(31));
    assert_eq!(shorten(&long), format!("...{}", "č".repeat(31)));
}

fn calm_run(kind: OpKind, one_disk: bool, pieces: &[u64]) -> (Vec<Ask>, Vec<OpMsg>) {
    let mut w = worker(kind, true);
    let mut left: Vec<u64> = pieces.to_vec();
    let (mut asks, mut sent) = (Vec::new(), Vec::new());
    let mut ask = w.ask();
    while ask != Ask::End {
        let told = match ask {
            Ask::ReadFlag => Told::Flag(OP_RUN),
            Ask::Measure => Told::Size(pieces.iter().sum()),
            Ask::IsDir => Told::Yes(false),
            Ask::Rename if !one_disk => Told::Outcome(Err("jiný disk".to_string())),
            Ask::Read => Told::Chunk(Ok(left.first().copied().unwrap_or(0))),
            Ask::AddBytes(_) | Ask::CountDone => Told::Totals { done: 0, bytes: 0 },
            _ => Told::Outcome(Ok(())),
        };
        if ask != Ask::ReadFlag {
            asks.push(ask);
        }
        if matches!(ask, Ask::AddBytes(_)) && !left.is_empty() {
            left.remove(0);
        }
        let turn = w.step(told);
        sent.extend(turn.send);
        ask = turn.ask;
    }
    (asks, sent)
}

#[test]
fn whole_runs_where_nothing_fails() {
    let (asks, sent) = calm_run(OpKind::Copy, true, &[256, 44]);
    assert_eq!(
        asks,
        [
            Ask::Measure,
            Ask::IsDir,
            Ask::Open,
            Ask::Read,
            Ask::Write(256),
            Ask::AddBytes(256),
            Ask::Read,
            Ask::Write(44),
            Ask::AddBytes(44),
            Ask::Read,
            Ask::CountDone,
        ]
    );
    let told: u64 = sent
        .iter()
        .map(|m| match m {
            OpMsg::SlotProgress { bytes_copied, .. } => *bytes_copied,
            _ => 0,
        })
        .sum();
    assert_eq!(told, 300);
    assert!(matches!(sent[sent.len() - 2], OpMsg::SlotDone { thread_id: 1 }));
    let (asks, _) = calm_run(OpKind::Move, true, &[7]);
    assert_eq!(asks, [Ask::Measure, Ask::Rename, Ask::AddBytes(7), Ask::CountDone]);
    let (asks, _) = calm_run(OpKind::Move, false, &[7]);
    assert_eq!(asks[asks.len() - 2..], [Ask::RemoveFile, Ask::CountDone]);
    let (asks, _) = calm_run(OpKind::Delete, true, &[7]);
    assert_eq!(asks, [Ask::Measure, Ask::IsDir, Ask::RemoveFile, Ask::CountDone]);
}
