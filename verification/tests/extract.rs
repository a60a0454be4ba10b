use er_commander::archive::ZipItem;
use er_commander::extract::{
    complete_name, extract_target, suggest_name, zip_member_name, ExtractAsk, ExtractTold,
    Extraction, PackAsk, PackTold, Packing,
};
use er_commander::file_op::{OpMsg, ERR_CANCEL, ERR_RETRY, ERR_SKIP, OP_PAUSE, OP_RUN, OP_STOP};
use er_commander::path::DirPath;

fn unix(parts: &[&str]) -> DirPath {
    DirPath {
        root: "/".to_string(),
        parts: parts.iter().map(|p| p.to_string()).collect(),
        sep: '/',
    }
}

fn item(name: &str, size: u64) -> ZipItem {
    ZipItem { name: name.to_string(), size, is_dir: name.ends_with('/') }
}

fn run(overwrite: bool, total: usize) -> Extraction {
    let (e, turn) =
        Extraction::new("d/".to_string(), vec!["x".to_string(), "sub".to_string()], overwrite, total, 99);
    if total > 0 {
        assert_eq!(turn.ask, ExtractAsk::ReadFlag);
    }
    e
}

#[test]
fn what_is_taken_out() {
    let names = vec!["x".to_string(), "sub".to_string()];
    assert_eq!(extract_target("d/x", "d/", &names), Some("x".to_string()));
    assert_eq!(extract_target("d/sub/y", "d/", &names), Some("sub/y".to_string()));
    assert_eq!(extract_target("d\\sub\\y", "d/", &names), Some("sub/y".to_string()));
    assert_eq!(extract_target("d/xx", "d/", &names), None);
    assert_eq!(extract_target("e/x", "d/", &names), None);
    assert_eq!(extract_target("d/", "d/", &names), None);
}

#[test]
fn extracting_members() {
    let mut e = run(true, 3);
    e.step(ExtractTold::Flag(OP_RUN));
    assert_eq!(e.step(ExtractTold::Flag(OP_RUN)).ask, ExtractAsk::ReadEntry(0));
    assert_eq!(e.step(ExtractTold::Entry(Ok(item("d/x", 7)))).ask, ExtractAsk::MakeParent);
    assert_eq!(e.target, "x");
    assert_eq!(e.step(ExtractTold::Done).ask, ExtractAsk::Write(0));
    assert!(e.can_add());
    let turn = e.step(ExtractTold::Outcome(Ok(())));
    assert!(matches!(
        turn.send[0],
        OpMsg::Progress { done: 1, total: 3, bytes_done: 7, bytes_total: 99 }
    ));
    e.step(ExtractTold::Flag(OP_RUN));
    e.step(ExtractTold::Flag(OP_RUN));
    let turn = e.step(ExtractTold::Entry(Ok(item("other", 7))));
    assert_eq!(turn.ask, ExtractAsk::ReadFlag);
    e.step(ExtractTold::Flag(OP_PAUSE));
    assert_eq!(e.step(ExtractTold::Flag(OP_PAUSE)).ask, ExtractAsk::Sleep(100));
    e.step(ExtractTold::Done);
    e.step(ExtractTold::Flag(OP_RUN));
    assert_eq!(e.step(ExtractTold::Entry(Ok(item("d/sub/", 0)))).ask, ExtractAsk::MakeDir);
    let turn = e.step(ExtractTold::Done);
    assert!(matches!(turn.send[0], OpMsg::Finished));
    assert_eq!(turn.ask, ExtractAsk::End);
}

#[test]
fn existing_members_are_spared() {
    let mut e = run(false, 1);
    e.step(ExtractTold::Flag(OP_RUN));
    e.step(ExtractTold::Flag(OP_RUN));
    assert_eq!(e.step(ExtractTold::Entry(Ok(item("d/x", 7)))).ask, ExtractAsk::Probe);
    let turn = e.step(ExtractTold::Yes(true));
    assert!(matches!(turn.send[0], OpMsg::Skipped));
    assert!(matches!(turn.send[1], OpMsg::Finished));
}

#[test]
fn members_that_fail() {
    let mut e = run(true, 2);
    e.step(ExtractTold::Flag(OP_RUN));
    e.step(ExtractTold::Flag(OP_RUN));
    let turn = e.step(ExtractTold::Entry(Err("špatný".to_string())));
    assert!(matches!(&turn.send[0], OpMsg::Error(m) if m == "špatný"));
    e.step(ExtractTold::Flag(OP_RUN));
    e.step(ExtractTold::Flag(OP_RUN));
    e.step(ExtractTold::Entry(Ok(item("d/x", 7))));
    e.step(ExtractTold::Done);
    assert_eq!(e.step(ExtractTold::Outcome(Err("plno".to_string()))).ask, ExtractAsk::ResetAnswer);
    let turn = e.step(ExtractTold::Done);
    assert!(matches!(&turn.send[0], OpMsg::ErrorWait { file, error } if file == "x" && error == "plno"));
    e.step(ExtractTold::Done);
    assert_eq!(e.step(ExtractTold::Answer(ERR_RETRY)).ask, ExtractAsk::MakeParent);
    assert_eq!(e.target, "x");
    assert_eq!(e.step(ExtractTold::Done).ask, ExtractAsk::Write(1));
    e.step(ExtractTold::Outcome(Err("plno".to_string())));
    e.step(ExtractTold::Done);
    e.step(ExtractTold::Done);
    let turn = e.step(ExtractTold::Answer(ERR_SKIP));
    assert!(matches!(turn.send[0], OpMsg::Finished));
}

#[test]
fn extraction_stopped_and_empty() {
    let mut e = run(true, 5);
    let turn = e.step(ExtractTold::Flag(OP_STOP));
    assert!(matches!(turn.send[0], OpMsg::Finished));
    let (_, turn) = Extraction::new(String::new(), vec![], true, 0, 0);
    assert!(matches!(turn.send[0], OpMsg::Finished));
    assert_eq!(turn.ask, ExtractAsk::End);
    let mut e = run(true, 5);
    e.step(ExtractTold::Flag(OP_RUN));
    e.step(ExtractTold::Flag(OP_RUN));
    e.step(ExtractTold::Entry(Ok(item("d/x", 7))));
    e.step(ExtractTold::Done);
    e.step(ExtractTold::Outcome(Err(String::new())));
    e.step(ExtractTold::Done);
    e.step(ExtractTold::Done);
    assert_eq!(e.step(ExtractTold::Answer(ERR_CANCEL)).ask, ExtractAsk::SetStop);
    assert_eq!(e.step(ExtractTold::Done).ask, ExtractAsk::End);
}

#[test]
fn packing_files() {
    let mut p = Packing::new(2);
    assert_eq!(p.ask(), PackAsk::Create);
    assert_eq!(p.step(PackTold::Outcome(Ok(()))).ask, PackAsk::ReadFlag);
    let turn = p.step(PackTold::Flag(OP_RUN));
    assert!(matches!(turn.send[0], OpMsg::Progress { done: 0, total: 2, bytes_done: 0, bytes_total: 0 }));
    assert_eq!(turn.ask, PackAsk::IsDir(0));
    assert_eq!(p.step(PackTold::Yes(true)).ask, PackAsk::AddTree(0));
    p.step(PackTold::Outcome(Ok(())));
    p.step(PackTold::Flag(OP_RUN));
    assert_eq!(p.step(PackTold::Yes(false)).ask, PackAsk::AddFile(1));
    assert_eq!(p.step(PackTold::Outcome(Ok(()))).ask, PackAsk::Finish);
    let turn = p.step(PackTold::Outcome(Ok(())));
    assert!(matches!(turn.send[0], OpMsg::Finished));
    assert_eq!(turn.ask, PackAsk::End);
}

#[test]
fn packing_that_fails_or_is_stopped() {
    let mut p = Packing::new(2);
    let turn = p.step(PackTold::Outcome(Err("nelze".to_string())));
    assert!(matches!(&turn.send[0], OpMsg::Error(e) if e == "nelze"));
    assert_eq!(turn.ask, PackAsk::End);
    let mut p = Packing::new(2);
    p.step(PackTold::Outcome(Ok(())));
    assert_eq!(p.step(PackTold::Flag(OP_STOP)).ask, PackAsk::Finish);
    let mut p = Packing::new(0);
    assert_eq!(p.step(PackTold::Outcome(Ok(()))).ask, PackAsk::Finish);
}

#[test]
fn names_of_archives() {
    assert_eq!(complete_name(""), "archiv.zip");
    assert_eq!(complete_name("   "), "archiv.zip");
    assert_eq!(complete_name(" a "), "a.zip");
    assert_eq!(complete_name("a.zip"), "a.zip");
    assert_eq!(suggest_name(&vec![unix(&["x", "zpráva.txt"])]), "zpráva.zip");
    assert_eq!(suggest_name(&vec![unix(&["a"]), unix(&["b"])]), "archiv.zip");
    assert_eq!(zip_member_name("a\\b\\c"), "a/b/c");
}

#[test]
fn a_whole_extraction_where_nothing_fails() {
    let members = [
        (item("d/x", 7), false),
        (item("other", 9), false),
        (item("d/sub/", 0), false),
        (item("d/sub/y", 5), true),
        (item("d/sub/z", 3), false),
    ];
    let mut e = run(false, members.len());
    let mut ask = e.ask();
    let (mut done, mut sent) = (Vec::new(), Vec::new());
    let mut at = 0;
    while ask != ExtractAsk::End {
        let told = match ask {
            ExtractAsk::ReadFlag => ExtractTold::Flag(OP_RUN),
            ExtractAsk::ReadEntry(i) => {
                at = i;
                let (m, _) = &members[i];
                ExtractTold::Entry(Ok(item(&m.name, m.size)))
            }
            ExtractAsk::Probe => ExtractTold::Yes(members[at].1),
            ExtractAsk::Write(_) => ExtractTold::Outcome(Ok(())),
            _ => ExtractTold::Done,
        };
        match ask {
            ExtractAsk::MakeDir => done.push(format!("dir {}", e.target)),
            ExtractAsk::Write(i) => done.push(format!("{} {}", i, e.target)),
            _ => {}
        }
        let turn = e.step(told);
        sent.extend(turn.send);
        ask = turn.ask;
    }
    assert_eq!(done, ["0 x", "dir sub/", "4 sub/z"]);
    assert_eq!(sent.len(), 4);
    assert!(matches!(sent[0], OpMsg::Progress { done: 1, total: 5, bytes_done: 7, bytes_total: 99 }));
    assert!(matches!(sent[1], OpMsg::Skipped));
    assert!(matches!(sent[2], OpMsg::Progress { done: 5, total: 5, bytes_done: 10, bytes_total: 99 }));
    assert!(matches!(sent[3], OpMsg::Finished));
}
