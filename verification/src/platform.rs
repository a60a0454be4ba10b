//! What differs between systems: drives, the home directory, commands of the system.

use crate::number;
use crate::path::{DirPath, PathView};
use vstd::prelude::*;

verus! {

broadcast use vstd::string::group_string_axioms;

/// The system that the program runs on, as far as commands differ.
#[derive(Clone, Copy, Debug, PartialEq, Eq, Structural)]
pub enum Platform {
    Windows,
    Mac,
    Other,
}

// ---------------------------------------------------------------------------
// Drives
// ---------------------------------------------------------------------------

/// How many drive letters there are.
pub const LETTERS: usize = 26;

/// The root of the drive with the letter at a position of the alphabet.
pub open spec fn drive_root(i: int) -> Seq<char> {
    seq![(65 + i) as char, ':', '\\']
}

/// The roots of the first `n` drives that are there.
pub open spec fn drives_there(present: Seq<bool>, n: int) -> Seq<Seq<char>>
    decreases n,
{
    if n <= 0 {
        seq![]
    } else {
        let front = drives_there(present, n - 1);
        if present[n - 1] {
            front.push(drive_root(n - 1))
        } else {
            front
        }
    }
}

/// The drives of a system: the lettered ones on Windows, the one root elsewhere.
pub open spec fn drives_of(windows: bool, present: Seq<bool>) -> Seq<Seq<char>> {
    if windows {
        drives_there(present, LETTERS as int)
    } else {
        seq!["/"@]
    }
}

/// The root of the drive with the letter at a position of the alphabet.
pub fn drive_name(i: usize) -> (r: String)
    requires
        i < LETTERS,
    ensures
        r@ == drive_root(i as int),
{
    let mut s = String::new();
    s.push((65 + i as u8) as char);
    s.push(':');
    s.push('\\');
    assert(s@ =~= drive_root(i as int));
    s
}

/// The drives that are there. `present` holds, for each letter, whether its drive exists.
pub fn available_drives(windows: bool, present: &Vec<bool>) -> (r: Vec<String>)
    requires
        windows ==> present.len() == LETTERS,
    ensures
        r.deep_view() == drives_of(windows, present@),
{
    let mut out: Vec<String> = Vec::new();
    assert(out.deep_view() =~= seq![]);
    if windows {
        let mut i: usize = 0;
        while i < LETTERS
            invariant
                i <= LETTERS,
                present.len() == LETTERS,
                out.deep_view() == drives_there(present@, i as int),
            decreases LETTERS - i,
        {
            let ghost before = out.deep_view();
            if present[i] {
                let name = drive_name(i);
                out.push(name);
                assert(out.deep_view() =~= before.push(name@));
            }
            i += 1;
        }
    } else {
        out.push("/".to_owned());
        assert(out.deep_view() =~= seq!["/"@]);
    }
    out
}

// ---------------------------------------------------------------------------
// Directories and files of the program
// ---------------------------------------------------------------------------

/// The home directory where the system names none.
pub open spec fn root_dir(windows: bool) -> PathView {
    if windows {
        PathView { root: "C:\\"@, parts: seq![], sep: '\\' }
    } else {
        PathView { root: "/"@, parts: seq![], sep: '/' }
    }
}

/// The home directory: the one of the user's profile, else the one that the system calls
/// home, else a root.
pub fn dirs_home(profile: Option<DirPath>, home: Option<DirPath>, windows: bool) -> (r: DirPath)
    ensures
        r@ == match profile.deep_view() {
            Some(p) => p,
            None => match home.deep_view() {
                Some(p) => p,
                None => root_dir(windows),
            },
        },
{
    if let Some(p) = profile {
        return p;
    }
    if let Some(p) = home {
        return p;
    }
    let (root, sep) = if windows {
        ("C:\\", '\\')
    } else {
        ("/", '/')
    };
    let r = DirPath { root: root.to_owned(), parts: Vec::new(), sep };
    assert(r@.parts =~= seq![]);
    r
}

/// The file that keeps the state.
pub fn state_file_path(home: &DirPath) -> (r: DirPath)
    ensures
        r@ == home@.child(".er_commander_state.txt"@),
{
    home.join(".er_commander_state.txt")
}

/// The file that keeps the place and size of the window.
pub fn window_file_path(home: &DirPath) -> (r: DirPath)
    ensures
        r@ == home@.child(".er_commander_window.txt"@),
{
    home.join(".er_commander_window.txt")
}

// ---------------------------------------------------------------------------
// Disks
// ---------------------------------------------------------------------------

/// The free and the total bytes of a disk, from what the Windows call for them gave: a code
/// that is zero on failure, and the two numbers. Unknown on other systems.
pub fn disk_space(windows: bool, code: i32, free: u64, total: u64) -> (r: Option<(u64, u64)>)
    ensures
        r == if windows && code != 0 {
            Some((free, total))
        } else {
            None
        },
{
    if windows && code != 0 {
        Some((free, total))
    } else {
        None
    }
}

/// What is shown of a disk.
#[derive(Debug)]
pub struct DiskBar {
    pub used: u64,
    pub label: String,
    pub hint: String,
}

/// What is shown of a disk with some free and some total bytes; nothing of one without any.
pub fn disk_bar(free: u64, total: u64) -> (r: Option<DiskBar>)
    requires
        free <= total,
    ensures
        r is Some == (total > 0),
        r matches Some(bar) ==> {
            let used = (total - free) as nat;
            let (f, u, t) = (
                number::size_text(free as nat),
                number::size_text(used),
                number::size_text(total as nat),
            );
            &&& bar.used == used
            &&& bar.label@ == f + " / "@ + u + " / "@ + t
            &&& bar.hint@ == "Volné: "@ + f + "  |  Použité: "@ + u + "  |  Celkem: "@ + t
        },
{
    if total == 0 {
        return None;
    }
    let used: u64 = total - free;
    let f = number::format_size(free);
    let u = number::format_size(used);
    let t = number::format_size(total);
    let mut label = f.clone();
    label.append(" / ");
    label.append(u.as_str());
    label.append(" / ");
    label.append(t.as_str());
    let mut hint = "Volné: ".to_owned();
    hint.append(f.as_str());
    hint.append("  |  Použité: ");
    hint.append(u.as_str());
    hint.append("  |  Celkem: ");
    hint.append(t.as_str());
    Some(DiskBar { used, label, hint })
}

// ---------------------------------------------------------------------------
// Commands
// ---------------------------------------------------------------------------

/// A program and what is handed to it.
#[derive(Debug)]
pub struct SystemCommand {
    pub program: String,
    pub args: Vec<String>,
}

/// The program by which a system opens files.
pub open spec fn opener(platform: Platform) -> Seq<char> {
    match platform {
        Platform::Windows => "cmd"@,
        Platform::Mac => "open"@,
        Platform::Other => "xdg-open"@,
    }
}

/// What is handed to that program for a file.
pub open spec fn opener_args(platform: Platform, path: Seq<char>) -> Seq<Seq<char>> {
    match platform {
        Platform::Windows => seq!["/C"@, "start"@, ""@, path],
        _ => seq![path],
    }
}

/// The command by which a system opens a file with the application that it has for it.
pub fn open_with_system_app(platform: Platform, path: &str) -> (r: SystemCommand)
    ensures
        r.program@ == opener(platform),
        r.args.deep_view() == opener_args(platform, path@),
{
    let mut args: Vec<String> = Vec::new();
    let program = match platform {
        Platform::Windows => {
            args.push("/C".to_owned());
            args.push("start".to_owned());
            args.push("".to_owned());
            "cmd"
        },
        Platform::Mac => "open",
        Platform::Other => "xdg-open",
    };
    args.push(path.to_owned());
    assert(args.deep_view() =~= opener_args(platform, path@));
    SystemCommand { program: program.to_owned(), args }
}

/// The entry of the program for the menu of applications, for the path of the program.
pub fn desktop_entry(exe: &str) -> (r: String)
    ensures
        r@
            == "[Desktop Entry]\nType=Application\nName=eR Commander\nComment=Dvoupanelový správce souborů\nExec=\""@
            + exe@
            + "\"\nIcon=er-commander\nCategories=Utility;FileManager;System;\nTerminal=false\nStartupNotify=true\nStartupWMClass=eR_Commander\n"@,
{
    let mut s =
        "[Desktop Entry]\nType=Application\nName=eR Commander\nComment=Dvoupanelový správce souborů\nExec=\"".to_owned();
    s.append(exe);
    s.append(
        "\"\nIcon=er-commander\nCategories=Utility;FileManager;System;\nTerminal=false\nStartupNotify=true\nStartupWMClass=eR_Commander\n",
    );
    s
}

proof fn lemma_drives(present: Seq<bool>, n: int, root: Seq<char>)
    requires
        0 <= n <= LETTERS,
    ensures
        drives_there(present, n).contains(root) <==> exists|i: int|
            0 <= i < n && present[i] && root == #[trigger] drive_root(i),
    decreases n,
{
    if n > 0 {
        lemma_drives(present, n - 1, root);
        let front = drives_there(present, n - 1);
        let all = drives_there(present, n);
        if all.contains(root) {
            let k = choose|k: int| 0 <= k < all.len() && all[k] == root;
            if k < front.len() {
                assert(front[k] == root);
                assert(front.contains(root));
            } else {
                assert(root == drive_root(n - 1));
            }
        }
        if exists|i: int| 0 <= i < n && present[i] && root == #[trigger] drive_root(i) {
            let i = choose|i: int| 0 <= i < n && present[i] && root == #[trigger] drive_root(i);
            if i < n - 1 {
                assert(front.contains(root));
                let k = choose|k: int| 0 <= k < front.len() && front[k] == root;
                assert(all[k] == root);
            } else {
                assert(all[all.len() - 1] == root);
            }
        }
    }
}

/// The drives are those that are there, each letter from A to Z with a colon and a backslash;
/// where there are no drives, the one root stands for them.
pub proof fn drives_that_are_there(present: Seq<bool>, i: int)
    requires
        0 <= i < 26,
    ensures
        drives_of(true, present).contains(drive_root(i)) <==> present[i],
        drive_root(i).len() == 3,
        drive_root(i)[0] as int == 'A' as int + i,
        drive_root(i)[1] == ':',
        drive_root(i)[2] == '\\',
        drives_of(false, present) == seq!["/"@],
{
    lemma_drives(present, LETTERS as int, drive_root(i));
    if drives_of(true, present).contains(drive_root(i)) {
        let k = choose|k: int|
            0 <= k < LETTERS && present[k] && drive_root(i) == #[trigger] drive_root(k);
        assert(drive_root(i)[0] == drive_root(k)[0]);
        assert(i == k);
    }
}

/// Drives stand in the order of their letters.
pub proof fn drives_in_order(present: Seq<bool>, n: int, i: int, j: int)
    requires
        0 <= n <= 26,
        0 <= i < j < drives_there(present, n).len(),
    ensures
        drives_there(present, n)[i][0] < drives_there(present, n)[j][0],
    decreases n,
{
    let front = drives_there(present, n - 1);
    if j < front.len() {
        drives_in_order(present, n - 1, i, j);
    } else {
        lemma_drives(present, n - 1, front[i]);
        assert(front.contains(front[i]));
        let k = choose|k: int|
            0 <= k < n - 1 && present[k] && front[i] == #[trigger] drive_root(k);
        assert(drives_there(present, n)[j] == drive_root(n - 1));
    }
}

/// A file is handed to the program that the system opens files with, as its last argument.
pub proof fn opened_with_the_system(platform: Platform, path: Seq<char>)
    ensures
        opener_args(platform, path).last() == path,
        platform == Platform::Windows ==> opener(platform) == "cmd"@ && opener_args(
            platform,
            path,
        ).len() == 4,
        platform == Platform::Mac ==> opener(platform) == "open"@,
        platform == Platform::Other ==> opener(platform) == "xdg-open"@,
        platform != Platform::Windows ==> opener_args(platform, path) == seq![path],
        root_dir(true).parts.len() == 0 && root_dir(true).root == "C:\\"@ && root_dir(true).sep
            == '\\',
        root_dir(false).parts.len() == 0 && root_dir(false).root == "/"@ && root_dir(false).sep
            == '/',
{
}

} // verus!
