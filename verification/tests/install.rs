use er_commander::install::{Install, InstallAsk, InstallTold};
use er_commander::path::DirPath;

fn exe(windows: bool) -> DirPath {
    if windows {
        DirPath {
            root: "C:\\".to_string(),
            parts: vec!["er".to_string(), "er.exe".to_string()],
            sep: '\\',
        }
    } else {
        DirPath {
            root: "/".to_string(),
            parts: vec!["opt".to_string(), "er".to_string()],
            sep: '/',
        }
    }
}

fn ok() -> InstallTold {
    InstallTold::Outcome(Ok(()))
}

fn found(windows: bool) -> Install {
    let mut i = Install::new(windows, if windows { '\\' } else { '/' });
    assert_eq!(i.ask(), InstallAsk::BuildClient);
    assert_eq!(i.step(ok()), InstallAsk::Fetch);
    assert_eq!(i.step(InstallTold::Status(Ok((true, "200 OK".to_string())))), InstallAsk::ReadBody);
    assert_eq!(i.step(ok()), InstallAsk::FindExe);
    i.step(InstallTold::Exe(Ok(exe(windows))));
    i
}

#[test]
fn installing_on_windows() {
    let mut i = found(true);
    assert_eq!(i.ask(), InstallAsk::WriteZip);
    assert_eq!(i.zip_path().text(), "C:\\er\\er.zip.update");
    assert_eq!(i.step(ok()), InstallAsk::OpenZip);
    assert_eq!(i.step(ok()), InstallAsk::ReadZip);
    assert_eq!(i.step(InstallTold::Count(Ok(3))), InstallAsk::ReadEntry(0));
    assert_eq!(i.step(InstallTold::Name(Ok("readme.txt".to_string()))), InstallAsk::ReadEntry(1));
    assert_eq!(i.step(InstallTold::Name(Ok("Er.EXE".to_string()))), InstallAsk::CreateExe);
    assert_eq!(i.new_exe().text(), "C:\\er\\er.exe.new");
    assert_eq!(i.step(ok()), InstallAsk::CopyExe(1));
    assert_eq!(i.step(ok()), InstallAsk::RemoveZip);
    assert_eq!(i.step(InstallTold::Done), InstallAsk::WriteBat);
    assert_eq!(i.bat_path().text(), "C:\\er\\er.update.bat");
    assert_eq!(
        i.bat_content(),
        "@echo off\r\ntimeout /t 2 /nobreak >nul\r\nmove /y \"C:\\er\\er.exe.new\" \"C:\\er\\er.exe\"\r\nstart \"\" \"C:\\er\\er.exe\"\r\ndel \"%~f0\""
    );
    assert_eq!(i.step(ok()), InstallAsk::RunBat);
    assert_eq!(i.step(ok()), InstallAsk::Exit);
}

#[test]
fn an_archive_without_a_program() {
    let mut i = found(true);
    i.step(ok());
    i.step(ok());
    assert_eq!(i.step(InstallTold::Count(Ok(0))), InstallAsk::RemoveZip);
    assert_eq!(i.step(InstallTold::Done), InstallAsk::Fail);
    assert_eq!(i.error, "V ZIP archivu nebyl nalezen .exe soubor");
}

#[test]
fn installing_elsewhere() {
    let mut i = found(false);
    assert_eq!(i.ask(), InstallAsk::RemoveTmp);
    assert_eq!(i.tmp_dir().unwrap().text(), "/opt/.er_commander_update_tmp");
    assert_eq!(i.archive_path().unwrap().text(), "/opt/.er_commander_update_tmp/update.tar.gz");
    assert_eq!(i.new_binary().unwrap().text(), "/opt/.er_commander_update_tmp/er");
    assert_eq!(i.step(InstallTold::Done), InstallAsk::MakeTmp);
    assert_eq!(i.step(ok()), InstallAsk::WriteArchive);
    assert_eq!(i.step(ok()), InstallAsk::RunTar);
    assert_eq!(i.step(InstallTold::Ran(Ok(true))), InstallAsk::ProbeBinary);
    assert_eq!(i.step(InstallTold::Yes(true)), InstallAsk::SetMode);
    assert_eq!(i.step(InstallTold::Done), InstallAsk::Replace);
    assert_eq!(i.step(ok()), InstallAsk::RemoveTmp);
    assert_eq!(i.step(InstallTold::Done), InstallAsk::Launch);
    assert_eq!(i.step(ok()), InstallAsk::Exit);
}

#[test]
fn every_failure_is_told() {
    let fail = |mut i: Install, told: InstallTold| {
        i.step(told);
        i.error
    };
    let e = || Err("x".to_string());
    let fresh = || Install::new(false, '/');
    assert_eq!(fail(fresh(), InstallTold::Outcome(e())), "HTTP klient: x");
    let mut i = fresh();
    i.step(ok());
    assert_eq!(fail(i, InstallTold::Status(Err("x".to_string()))), "Stahování: x");
    let mut i = fresh();
    i.step(ok());
    assert_eq!(fail(i, InstallTold::Status(Ok((false, "404".to_string())))), "HTTP 404");
    let mut i = fresh();
    i.step(ok());
    i.step(InstallTold::Status(Ok((true, String::new()))));
    assert_eq!(fail(i, InstallTold::Outcome(e())), "Čtení dat: x");
    let mut i = fresh();
    i.step(ok());
    i.step(InstallTold::Status(Ok((true, String::new()))));
    i.step(ok());
    assert_eq!(fail(i, InstallTold::Exe(Err("x".to_string()))), "Cesta k exe: x");
    let mut i = fresh();
    i.step(ok());
    i.step(InstallTold::Status(Ok((true, String::new()))));
    i.step(ok());
    let root = DirPath { root: "/".to_string(), parts: vec![], sep: '/' };
    assert_eq!(fail(i, InstallTold::Exe(Ok(root))), "Neznámý adresář aplikace");

    let mut windows = vec![
        ("Zápis staženého ZIP: x", vec![]),
        ("Otevření ZIP: x", vec![ok()]),
    ];
    for (message, before) in windows.drain(..) {
        let mut i = found(true);
        for told in before {
            i.step(told);
        }
        assert_eq!(fail(i, InstallTold::Outcome(e())), message);
    }
    let mut i = found(true);
    i.step(ok());
    i.step(ok());
    assert_eq!(fail(i, InstallTold::Count(Err("x".to_string()))), "Čtení ZIP: x");
    let mut i = found(true);
    i.step(ok());
    i.step(ok());
    i.step(InstallTold::Count(Ok(1)));
    assert_eq!(fail(i, InstallTold::Name(Err("x".to_string()))), "Čtení ZIP položky: x");
    for (steps, message) in [(0, "Zápis nového exe: x"), (1, "Rozbalení exe: x")] {
        let mut i = found(true);
        i.step(ok());
        i.step(ok());
        i.step(InstallTold::Count(Ok(1)));
        i.step(InstallTold::Name(Ok("a.exe".to_string())));
        for _ in 0..steps {
            i.step(ok());
        }
        assert_eq!(fail(i, InstallTold::Outcome(e())), message);
    }
    for (steps, message) in [(0, "Zápis bat skriptu: x"), (1, "Spuštění updatéru: x")] {
        let mut i = found(true);
        i.step(ok());
        i.step(ok());
        i.step(InstallTold::Count(Ok(1)));
        i.step(InstallTold::Name(Ok("a.exe".to_string())));
        i.step(ok());
        i.step(ok());
        i.step(InstallTold::Done);
        for _ in 0..steps {
            i.step(ok());
        }
        assert_eq!(fail(i, InstallTold::Outcome(e())), message);
    }
    let mut i = found(false);
    i.step(InstallTold::Done);
    assert_eq!(fail(i, InstallTold::Outcome(e())), "Vytvoření dočasného adresáře: x");
    let mut i = found(false);
    i.step(InstallTold::Done);
    i.step(ok());
    assert_eq!(fail(i, InstallTold::Outcome(e())), "Zápis archivu: x");
    let unpack = || {
        let mut i = found(false);
        i.step(InstallTold::Done);
        i.step(ok());
        i.step(ok());
        i
    };
    assert_eq!(fail(unpack(), InstallTold::Ran(Err("x".to_string()))), "Spuštění tar: x");
    let mut i = unpack();
    assert_eq!(i.step(InstallTold::Ran(Ok(false))), InstallAsk::RemoveTmp);
    assert_eq!(i.step(InstallTold::Done), InstallAsk::Fail);
    assert_eq!(i.error, "Rozbalení archivu selhalo");
    let mut i = unpack();
    i.step(InstallTold::Ran(Ok(true)));
    assert_eq!(i.step(InstallTold::Yes(false)), InstallAsk::RemoveTmp);
    assert_eq!(i.step(InstallTold::Done), InstallAsk::Fail);
    assert_eq!(i.error, "V archivu nebyla nalezena binárka");
    let placed = || {
        let mut i = unpack();
        i.step(InstallTold::Ran(Ok(true)));
        i.step(InstallTold::Yes(true));
        i.step(InstallTold::Done);
        i
    };
    assert_eq!(fail(placed(), InstallTold::Outcome(e())), "Nahrazení binárky: x");
    let mut i = placed();
    i.step(ok());
    i.step(InstallTold::Done);
    assert_eq!(fail(i, InstallTold::Outcome(e())), "Spuštění nové verze: x");
}

#[test]
fn a_program_without_a_name() {
    let mut i = Install::new(false, '/');
    i.step(ok());
    i.step(InstallTold::Status(Ok((true, String::new()))));
    i.step(ok());
    i.step(InstallTold::Exe(Ok(DirPath {
        root: "/".to_string(),
        parts: vec!["..".to_string()],
        sep: '/',
    })));
    i.step(InstallTold::Done);
    i.step(ok());
    i.step(ok());
    assert_eq!(i.step(InstallTold::Ran(Ok(true))), InstallAsk::Fail);
    assert_eq!(i.error, "Neznámý název binárky");
}
