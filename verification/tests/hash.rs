use er_commander::file_op::{OP_RUN, OP_STOP};
use er_commander::hash::{HashAsk, HashBox, HashMsg, HashTold, Hashing};
use er_commander::path::DirPath;

fn files(names: &[&str]) -> Vec<DirPath> {
    names
        .iter()
        .map(|n| DirPath { root: "/".to_string(), parts: vec![n.to_string()], sep: '/' })
        .collect()
}

fn count(pieces: &[&[u8]]) -> (String, String) {
    let (mut h, _) = Hashing::new(files(&["f"]));
    h.step(HashTold::Flag(OP_RUN));
    h.step(HashTold::Outcome(Ok(())));
    for piece in pieces {
        assert_eq!(h.step(HashTold::Flag(OP_RUN)).ask, HashAsk::Read);
        h.step(HashTold::Bytes(Ok(piece.to_vec())));
    }
    h.step(HashTold::Flag(OP_RUN));
    let turn = h.step(HashTold::Bytes(Ok(vec![])));
    assert!(matches!(turn.send[1], HashMsg::Finished));
    match &turn.send[0] {
        HashMsg::Result { name, md5, sha256 } => {
            assert_eq!(name, "f");
            (md5.clone(), sha256.clone())
        }
        other => panic!("{:?}", other),
    }
}

#[test]
fn known_checksums() {
    let (md5, sha256) = count(&[]);
    assert_eq!(md5, "d41d8cd98f00b204e9800998ecf8427e");
    assert_eq!(sha256, "e3b0c44298fc1c149afbf4c8996fb92427ae41e4649b934ca495991b7852b855");
    let (md5, sha256) = count(&[b"abc"]);
    assert_eq!(md5, "900150983cd24fb0d6963f7d28e17f72");
    assert_eq!(sha256, "ba7816bf8f01cfea414140de5dae2223b00361a396177a9cb410ff61f20015ad");
}

#[test]
fn pieces_count_as_the_whole() {
    assert_eq!(count(&[b"a", b"bc"]), count(&[b"abc"]));
}

#[test]
fn several_files_and_errors() {
    let (mut h, turn) = Hashing::new(files(&["a", "b"]));
    assert_eq!(turn.ask, HashAsk::ReadFlag);
    assert_eq!(h.ask(), HashAsk::ReadFlag);
    let turn = h.step(HashTold::Flag(OP_RUN));
    assert!(matches!(&turn.send[0], HashMsg::Progress { done: 0, total: 2, current } if current == "a"));
    assert_eq!(turn.ask, HashAsk::Open(0));
    let turn = h.step(HashTold::Outcome(Err("nelze".to_string())));
    assert!(matches!(&turn.send[0], HashMsg::Error { name, msg } if name == "a" && msg == "nelze"));
    assert_eq!(turn.ask, HashAsk::ReadFlag);
    h.step(HashTold::Flag(OP_RUN));
    h.step(HashTold::Outcome(Ok(())));
    h.step(HashTold::Flag(OP_RUN));
    let turn = h.step(HashTold::Bytes(Err("čtení".to_string())));
    assert!(matches!(&turn.send[0], HashMsg::Error { name, .. } if name == "b"));
    assert!(matches!(turn.send[1], HashMsg::Finished));
    assert_eq!(turn.ask, HashAsk::End);
}

#[test]
fn counting_is_stopped() {
    let (mut h, _) = Hashing::new(files(&["a", "b"]));
    let turn = h.step(HashTold::Flag(OP_STOP));
    assert!(matches!(turn.send[0], HashMsg::Finished));
    let (_, turn) = Hashing::new(vec![]);
    assert!(matches!(turn.send[0], HashMsg::Finished));
}

#[test]
fn the_checksum_window() {
    let mut b = HashBox::new();
    b.start(2);
    assert!(b.show && b.running && b.awaited && b.stoppable);
    assert_eq!(b.total, 2);
    assert!(!b.apply(HashMsg::Progress { done: 1, total: 2, current: "x".to_string() }));
    assert_eq!((b.done, b.current.as_str()), (1, "x"));
    b.apply(HashMsg::Result { name: "n".to_string(), md5: "m".to_string(), sha256: "s".to_string() });
    assert_eq!(b.results, [("n".to_string(), "m".to_string(), "s".to_string())]);
    b.apply(HashMsg::Error { name: "n".to_string(), msg: "e".to_string() });
    assert_eq!(b.errors, ["n: e"]);
    b.end_poll(true);
    assert!(b.running);
    assert!(b.apply(HashMsg::Finished));
    b.end_poll(false);
    assert!(!b.running && !b.awaited);
    assert!(b.close());
    assert!(!b.show && !b.stoppable);
    assert!(!b.close());
}
