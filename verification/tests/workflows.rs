use std::collections::{HashMap, HashSet};
use std::path::Path;

use wirebox::audio::{device_from_node, is_pipewire_active, AudioDirection, NodeProperties};
use wirebox::bootstrap::{CachedInstaller, PRODUCT_MANAGER_URL};
use wirebox::catalog::Application;
use wirebox::dependencies::{ensure_asio_bridge, ensure_base_dependencies, join_verbs, Winetricks};
use wirebox::error::{ExitInfo, WireBoxError};
use wirebox::library::{
    AllStates, InstallProductManager, Launch, Library, ProductManagerProbe, Reset, SetUpAudio,
    StateProbe,
};
use wirebox::process::{located_path, path_from_text, which, DirEntry, EntryKind, Event, Next, Op};
use wirebox::search::{Matcher, Search, SearchRules};
use wirebox::wine::{DetectWine, InPrefix, PrefixInit, Wine, WinePrefix};

/// A pretend system: programs on `$PATH`, directory listings, files, and
/// which commands fail.
#[derive(Default)]
struct World {
    programs: HashMap<String, String>,
    dirs: HashMap<String, Vec<DirEntry>>,
    files: HashSet<String>,
    failing: HashSet<String>,
    unspawnable: HashSet<String>,
    uncreatable: HashSet<String>,
    after_run: HashMap<String, (String, Vec<DirEntry>)>,
    log: Vec<Op>,
}

fn entry(parent: &str, name: &str, kind: EntryKind) -> DirEntry {
    let path = format!("{parent}/{name}");
    let extension = Path::new(&path).extension().and_then(|e| e.to_str()).map(String::from);
    DirEntry { path, name: Some(name.to_string()), extension, kind }
}

fn file(parent: &str, name: &str) -> DirEntry {
    entry(parent, name, EntryKind::File)
}

fn dir(parent: &str, name: &str) -> DirEntry {
    entry(parent, name, EntryKind::Directory)
}

fn exit(success: bool) -> ExitInfo {
    ExitInfo { success, text: if success { "exit status: 0".into() } else { "exit status: 1".into() } }
}

impl World {
    fn add_dir(&mut self, path: &str, entries: Vec<DirEntry>) {
        for e in &entries {
            if e.kind == EntryKind::File {
                self.files.insert(e.path.clone());
            }
        }
        self.dirs.insert(path.to_string(), entries);
    }

    fn command_fails(&self, c: &wirebox::process::CommandSpec) -> bool {
        self.failing.contains(&c.program) || c.args.iter().any(|a| self.failing.contains(a))
    }

    fn perform(&mut self, op: &Op) -> Event {
        self.log.push(op.clone());
        match op {
            Op::Capture(c) => {
                if c.program == "sh" {
                    let bin = c.args[1].strip_prefix("command -v ").unwrap();
                    match self.programs.get(bin) {
                        Some(p) => Event::Output { success: true, stdout: format!("{p}\n").into_bytes() },
                        None => Event::Output { success: false, stdout: vec![] },
                    }
                } else {
                    Event::Failed("unknown program".into())
                }
            },
            Op::Run(c) => {
                if self.unspawnable.contains(&c.program) {
                    return Event::Failed("No such file or directory".into());
                }
                let key = c.args.last().cloned().unwrap_or_default();
                if let Some((path, entries)) = self.after_run.remove(&key) {
                    self.add_dir(&path, entries);
                }
                Event::Exited(exit(!self.command_fails(c)))
            },
            Op::Spawn(c) => {
                if self.unspawnable.contains(&c.program) {
                    Event::Failed("No such file or directory".into())
                } else {
                    Event::Started
                }
            },
            Op::CreateDirAll(p) => {
                if self.uncreatable.contains(p) {
                    Event::Failed("Permission denied".into())
                } else {
                    self.dirs.entry(p.clone()).or_default();
                    Event::Done
                }
            },
            Op::RemoveDirAll(p) => {
                if self.uncreatable.contains(p) {
                    Event::Failed("Permission denied".into())
                } else {
                    let inside = |q: &str| q == p || q.starts_with(&format!("{p}/"));
                    self.dirs.retain(|q, _| !inside(q));
                    self.files.retain(|q| !inside(q));
                    Event::Done
                }
            },
            Op::RemoveFile(p) => {
                self.files.remove(p);
                Event::Done
            },
            Op::IsFile(p) => Event::Answer(self.files.contains(p)),
            Op::IsDir(p) => Event::Answer(self.dirs.contains_key(p)),
            Op::ReadDir(p) => match self.dirs.get(p) {
                Some(v) => Event::Listing(v.clone()),
                None => Event::Failed("No such file or directory".into()),
            },
            Op::Warn(_) => Event::Done,
        }
    }

    fn read_dirs(&self) -> Vec<String> {
        self.log.iter().filter_map(|op| match op {
            Op::ReadDir(p) => Some(p.clone()),
            _ => None,
        }).collect()
    }
}

trait Machine: Sized {
    type Out;
    fn step(self, ev: Event) -> Next<Self, Self::Out>;
}

impl Machine for Search {
    type Out = Option<String>;
    fn step(self, ev: Event) -> Next<Self, Option<String>> {
        self.resume(ev)
    }
}

impl Machine for StateProbe {
    type Out = wirebox::library::AppState;
    fn step(self, ev: Event) -> Next<Self, wirebox::library::AppState> {
        self.resume(ev)
    }
}

impl Machine for AllStates {
    type Out = Vec<wirebox::library::AppState>;
    fn step(self, ev: Event) -> Next<Self, Vec<wirebox::library::AppState>> {
        self.resume(ev)
    }
}

impl Machine for ProductManagerProbe {
    type Out = bool;
    fn step(self, ev: Event) -> Next<Self, bool> {
        self.resume(ev)
    }
}

impl Machine for Launch {
    type Out = Result<(), WireBoxError>;
    fn step(self, ev: Event) -> Next<Self, Result<(), WireBoxError>> {
        self.resume(ev)
    }
}

impl Machine for SetUpAudio {
    type Out = Result<(), WireBoxError>;
    fn step(self, ev: Event) -> Next<Self, Result<(), WireBoxError>> {
        self.resume(ev)
    }
}

impl Machine for InstallProductManager {
    type Out = Result<(), WireBoxError>;
    fn step(self, ev: Event) -> Next<Self, Result<(), WireBoxError>> {
        self.resume(ev)
    }
}

impl Machine for Reset {
    type Out = Result<(), WireBoxError>;
    fn step(self, ev: Event) -> Next<Self, Result<(), WireBoxError>> {
        self.resume(ev)
    }
}

impl Machine for DetectWine {
    type Out = Result<Wine, WireBoxError>;
    fn step(self, ev: Event) -> Next<Self, Result<Wine, WireBoxError>> {
        self.resume(ev)
    }
}

impl Machine for PrefixInit {
    type Out = Result<(), WireBoxError>;
    fn step(self, ev: Event) -> Next<Self, Result<(), WireBoxError>> {
        self.resume(ev)
    }
}

impl Machine for InPrefix {
    type Out = Result<(), WireBoxError>;
    fn step(self, ev: Event) -> Next<Self, Result<(), WireBoxError>> {
        self.resume(ev)
    }
}

impl Machine for Winetricks {
    type Out = Result<(), WireBoxError>;
    fn step(self, ev: Event) -> Next<Self, Result<(), WireBoxError>> {
        self.resume(ev)
    }
}

impl Machine for CachedInstaller {
    type Out = Result<String, WireBoxError>;
    fn step(self, ev: Event) -> Next<Self, Result<String, WireBoxError>> {
        self.resume(ev)
    }
}

fn run<M: Machine>(world: &mut World, start: (M, Op)) -> M::Out {
    let (mut m, mut op) = start;
    loop {
        let ev = world.perform(&op);
        match m.step(ev) {
            Next::Continue(m2, op2) => {
                m = m2;
                op = op2;
            },
            Next::Done(r) => return r,
        }
    }
}

const HOME: &str = "/home/u";
const ROOT: &str = "/home/u/.local/share/wirebox";
const HUB: &str = "/home/u/.local/share/wirebox/hub";
const DRIVE_C: &str = "/home/u/.local/share/wirebox/hub/drive_c";

fn library() -> Library {
    Library::from_home(Some(HOME.to_string()))
}

/// A prefix where TONEX is installed under `Program Files`, and a decoy
/// copy sits inside `windows`.
fn world_with_tonex() -> World {
    let mut w = World::default();
    w.add_dir(HUB, vec![dir(HUB, "drive_c")]);
    w.add_dir(DRIVE_C, vec![dir(DRIVE_C, "windows"), dir(DRIVE_C, "Program Files")]);
    let windows = format!("{DRIVE_C}/windows");
    w.add_dir(&windows, vec![file(&windows, "TONEX.exe")]);
    let pf = format!("{DRIVE_C}/Program Files");
    w.add_dir(&pf, vec![dir(&pf, "IK Multimedia")]);
    let ik = format!("{pf}/IK Multimedia");
    w.add_dir(&ik, vec![file(&ik, "readme.txt"), file(&ik, "tonex.EXE")]);
    w
}

#[test]
fn library_layout() {
    let lib = library();
    assert_eq!(lib.root(), ROOT);
    assert_eq!(lib.prefix_path(), HUB);
    assert_eq!(Library::from_home(None).root(), "./.local/share/wirebox");
    assert!(Library::new().root().ends_with(".local/share/wirebox"));
}

#[test]
fn state_finds_executable_case_insensitively_outside_windows() {
    let mut w = world_with_tonex();
    let st = run(&mut w, library().state(Application::Tonex));
    assert_eq!(st.application, Application::Tonex);
    assert_eq!(st.executable.as_deref(), Some("/home/u/.local/share/wirebox/hub/drive_c/Program Files/IK Multimedia/tonex.EXE"));
    assert!(!w.read_dirs().contains(&format!("{DRIVE_C}/windows")));
}

#[test]
fn state_of_missing_application() {
    let mut w = world_with_tonex();
    let st = run(&mut w, library().state(Application::Amplitube5));
    assert_eq!(st.executable, None);
    let mut empty = World::default();
    let st = run(&mut empty, library().state(Application::Tonex));
    assert_eq!(st.executable, None);
}

#[test]
fn all_states_in_catalog_order() {
    let mut w = world_with_tonex();
    let states = run(&mut w, library().all_states());
    assert_eq!(states.len(), 2);
    assert_eq!(states[0].application, Application::Tonex);
    assert!(states[0].is_installed());
    assert_eq!(states[1].application, Application::Amplitube5);
    assert!(!states[1].is_installed());
}

/// A chain of nested directories `d1/d2/...` under `drive_c`, `levels`
/// deep, with `AmpliTube.exe` in the innermost one.
fn deep_world(levels: usize) -> World {
    let mut w = World::default();
    let mut path = DRIVE_C.to_string();
    for i in 1..=levels {
        let name = format!("d{i}");
        w.add_dir(&path, vec![dir(&path, &name)]);
        path = format!("{path}/{name}");
    }
    w.add_dir(&path, vec![file(&path, "AmpliTube.exe")]);
    w
}

#[test]
fn search_goes_eight_levels_deep_and_no_further() {
    let mut w = deep_world(8);
    assert!(run(&mut w, library().state(Application::Amplitube5)).is_installed());
    let mut w = deep_world(9);
    assert!(!run(&mut w, library().state(Application::Amplitube5)).is_installed());
}

/// The recursive depth-first search, written plainly.
fn reference_search(w: &World, path: &str, depth: usize, names: &[&str]) -> Option<String> {
    if depth > 8 {
        return None;
    }
    for e in w.dirs.get(path)? {
        let Some(name) = &e.name else { continue };
        match e.kind {
            EntryKind::File if names.iter().any(|n| name.eq_ignore_ascii_case(n)) => return Some(e.path.clone()),
            EntryKind::Directory if !name.eq_ignore_ascii_case("windows") => {
                if let Some(found) = reference_search(w, &e.path, depth + 1, names) {
                    return Some(found);
                }
            },
            _ => {},
        }
    }
    None
}

#[test]
fn machine_search_agrees_with_recursive_search() {
    // A tree where the first match in listing order sits in a directory
    // listed after a non-matching subtree, with a match in `WINDOWS` too.
    let mut w = World::default();
    w.add_dir(DRIVE_C, vec![dir(DRIVE_C, "a"), dir(DRIVE_C, "WINDOWS"), dir(DRIVE_C, "b"), file(DRIVE_C, "TONEXApp.exe")]);
    let a = format!("{DRIVE_C}/a");
    w.add_dir(&a, vec![dir(&a, "x"), file(&a, "other.exe")]);
    let ax = format!("{a}/x");
    w.add_dir(&ax, vec![]);
    let win = format!("{DRIVE_C}/WINDOWS");
    w.add_dir(&win, vec![file(&win, "TONEX.exe")]);
    let b = format!("{DRIVE_C}/b");
    w.add_dir(&b, vec![dir(&b, "unreadable"), file(&b, "TONEX.exe")]);
    let expected = reference_search(&w, DRIVE_C, 0, &["TONEX.exe", "TONEXApp.exe"]);
    let st = run(&mut w, library().state(Application::Tonex));
    assert_eq!(st.executable, expected);
    assert_eq!(st.executable.as_deref(), Some("/home/u/.local/share/wirebox/hub/drive_c/b/TONEX.exe"));
}

#[test]
fn search_rules_for_unnamed_directories() {
    let mut w = World::default();
    w.add_dir("/x", vec![DirEntry { path: "/x/\u{fffd}".into(), name: None, extension: None, kind: EntryKind::Directory }]);
    w.add_dir("/x/\u{fffd}", vec![file("/x/\u{fffd}", "Setup.Exe")]);
    let rules = SearchRules { matcher: Matcher::ExeExtension, max_depth: usize::MAX, skip_windows: false, descend_unnamed: true };
    assert_eq!(run(&mut w, Search::start("/x".into(), rules.clone())).as_deref(), Some("/x/\u{fffd}/Setup.Exe"));
    let rules = SearchRules { descend_unnamed: false, ..rules };
    assert_eq!(run(&mut w, Search::start("/x".into(), rules)), None);
}

#[test]
fn setup_found_by_extension_when_name_is_not_unicode() {
    // A file whose name is not valid Unicode but whose extension is `exe`.
    let mut w = World::default();
    let odd = DirEntry { path: "/y/\u{fffd}.exe".into(), name: None, extension: Some("exe".into()), kind: EntryKind::File };
    w.add_dir("/y", vec![odd]);
    let rules = SearchRules { matcher: Matcher::ExeExtension, max_depth: usize::MAX, skip_windows: false, descend_unnamed: true };
    assert_eq!(run(&mut w, Search::start("/y".into(), rules)).as_deref(), Some("/y/\u{fffd}.exe"));
    let rules = SearchRules { matcher: Matcher::AnyName(vec!["\u{fffd}.exe".into()]), max_depth: 8, skip_windows: true, descend_unnamed: false };
    assert_eq!(run(&mut w, Search::start("/y".into(), rules)), None);
}

#[test]
fn product_manager_detection() {
    let mut w = world_with_tonex();
    assert!(!run(&mut w, library().product_manager_installed()));
    let ik = format!("{DRIVE_C}/Program Files/IK Multimedia");
    w.add_dir(&ik, vec![file(&ik, "IK Product Manager.EXE")]);
    assert!(run(&mut w, library().product_manager_installed()));
    w.add_dir(&ik, vec![file(&ik, "product manager.txt")]);
    assert!(!run(&mut w, library().product_manager_installed()));
}

#[test]
fn which_lookup_command_and_answer() {
    let op = which("wine");
    match op {
        Op::Capture(c) => {
            assert_eq!(c.program, "sh");
            assert_eq!(c.args, vec!["-c", "command -v wine"]);
            assert!(c.env.is_empty());
        },
        _ => panic!("expected a capture"),
    }
    assert_eq!(located_path(Event::Output { success: true, stdout: b"  /usr/bin/wine\n".to_vec() }).as_deref(), Some("/usr/bin/wine"));
    assert_eq!(located_path(Event::Output { success: true, stdout: b"\n".to_vec() }), None);
    assert_eq!(located_path(Event::Output { success: false, stdout: b"/usr/bin/wine".to_vec() }), None);
    assert_eq!(located_path(Event::Failed("no sh".into())), None);
    // The shell's answer is read lossily, as text; the path is that text's bytes.
    let odd = located_path(Event::Output { success: true, stdout: b"/opt/w\xffne\n".to_vec() }).unwrap();
    assert_eq!(odd, "/opt/w%EF%BF%BDne");
    assert_eq!(wirebox::paths::path_bytes(&odd), Some("/opt/w\u{fffd}ne".as_bytes().to_vec()));
    assert_eq!(wirebox::paths::show_path(&odd), "/opt/w\u{fffd}ne");
    assert_eq!(path_from_text(" /a b "), Some("/a b".to_string()));
}

#[test]
fn wine_detection_prefers_wine_then_wine64() {
    let mut w = World::default();
    w.programs.insert("wine".into(), "/usr/bin/wine".into());
    w.programs.insert("wine64".into(), "/usr/bin/wine64".into());
    assert_eq!(run(&mut w, Wine::detect()).unwrap().executable(), "/usr/bin/wine");
    w.programs.remove("wine");
    assert_eq!(run(&mut w, Wine::detect()).unwrap().executable(), "/usr/bin/wine64");
    w.programs.clear();
    assert_eq!(run(&mut w, Wine::detect()).unwrap_err(), WireBoxError::WineNotInstalled);
}

fn prefix() -> WinePrefix {
    let mut w = World::default();
    w.programs.insert("wine".into(), "/usr/bin/wine".into());
    run(&mut w, Wine::detect()).unwrap().prefix(HUB.to_string())
}

#[test]
fn wine_commands_carry_the_prefix_environment() {
    let p = prefix();
    assert_eq!(p.path(), HUB);
    let c = p.command("winecfg".into());
    assert_eq!(c.program, "/usr/bin/wine");
    assert_eq!(c.args, vec!["winecfg"]);
    assert_eq!(
        c.env,
        vec![
            ("WINEPREFIX".to_string(), HUB.to_string()),
            ("WINEARCH".to_string(), "win64".to_string()),
            ("WINEDLLOVERRIDES".to_string(), "winemenubuilder.exe=d".to_string()),
        ]
    );
    assert_eq!(p.is_initialized().1, Op::IsDir(DRIVE_C.to_string()));
    assert!(p.is_initialized().0.finish(&Event::Answer(true)));
    assert!(!p.is_initialized().0.finish(&Event::Failed("x".into())));
}

#[test]
fn initialized_prefix_is_not_booted_again() {
    let mut w = world_with_tonex();
    assert_eq!(run(&mut w, prefix().ensure_initialized()), Ok(()));
    assert_eq!(w.log, vec![Op::IsDir(DRIVE_C.to_string())]);
}

#[test]
fn uninitialized_prefix_is_created_and_booted() {
    let mut w = World::default();
    assert_eq!(run(&mut w, prefix().ensure_initialized()), Ok(()));
    assert_eq!(w.log.len(), 3);
    assert_eq!(w.log[1], Op::CreateDirAll(HUB.to_string()));
    assert_eq!(w.log[2], Op::Run(prefix().command("wineboot".into())));
    let mut w = World::default();
    w.failing.insert("wineboot".into());
    assert_eq!(
        run(&mut w, prefix().ensure_initialized()),
        Err(WireBoxError::NonZeroExit { command: "wineboot".into(), status: exit(false) })
    );
    let mut w = World::default();
    w.uncreatable.insert(HUB.into());
    assert_eq!(
        run(&mut w, prefix().ensure_initialized()),
        Err(WireBoxError::CreateDir { path: HUB.into(), reason: "Permission denied".into() })
    );
    let mut w = World::default();
    w.unspawnable.insert("/usr/bin/wine".into());
    assert_eq!(
        run(&mut w, prefix().ensure_initialized()),
        Err(WireBoxError::Spawn { command: "wineboot".into(), reason: "No such file or directory".into() })
    );
}

#[test]
fn spawn_and_run_in_prefix() {
    let exe = format!("{DRIVE_C}/Program Files/IK Multimedia/tonex.EXE");
    let mut w = world_with_tonex();
    assert_eq!(run(&mut w, prefix().spawn_app(exe.clone())), Ok(()));
    assert_eq!(w.log.last(), Some(&Op::Spawn(prefix().command(exe.clone()))));
    let mut w = world_with_tonex();
    assert_eq!(run(&mut w, prefix().spawn_app("/nowhere.exe".into())), Err(WireBoxError::NotFound("/nowhere.exe".into())));
    assert_eq!(w.log.len(), 1);
    let mut w = world_with_tonex();
    w.failing.insert(exe.clone());
    assert_eq!(
        run(&mut w, prefix().run_to_completion(exe.clone())),
        Err(WireBoxError::NonZeroExit { command: exe.clone(), status: exit(false) })
    );
    let mut w = world_with_tonex();
    assert_eq!(run(&mut w, prefix().run_to_completion(exe.clone())), Ok(()));
    assert_eq!(w.log.last(), Some(&Op::Run(prefix().command(exe.clone()))));
    let mut w = world_with_tonex();
    w.unspawnable.insert("/usr/bin/wine".into());
    assert_eq!(
        run(&mut w, prefix().spawn_app(exe.clone())),
        Err(WireBoxError::Spawn { command: exe, reason: "No such file or directory".into() })
    );
}

#[test]
fn winecfg_needs_no_file() {
    let mut w = world_with_tonex();
    assert_eq!(run(&mut w, prefix().winecfg()), Ok(()));
    assert_eq!(w.log, vec![Op::IsDir(DRIVE_C.into()), Op::Spawn(prefix().command("winecfg".into()))]);
}

#[test]
fn winetricks_runs_unattended_with_prefix() {
    let mut w = World::default();
    w.programs.insert("winetricks".into(), "/usr/bin/winetricks".into());
    assert_eq!(run(&mut w, ensure_base_dependencies(HUB.into())), Ok(()));
    match w.log.last().unwrap() {
        Op::Run(c) => {
            assert_eq!(c.program, "/usr/bin/winetricks");
            assert_eq!(c.args, vec!["-q", "corefonts", "vcrun2019"]);
            assert_eq!(c.env, vec![("WINEPREFIX".to_string(), HUB.to_string()), ("WINEARCH".to_string(), "win64".to_string())]);
        },
        _ => panic!("expected winetricks to run"),
    }
    w.failing.insert("/usr/bin/winetricks".into());
    assert_eq!(
        run(&mut w, ensure_base_dependencies(HUB.into())),
        Err(WireBoxError::NonZeroExit { command: "winetricks corefonts vcrun2019".into(), status: exit(false) })
    );
    assert_eq!(
        run(&mut w, ensure_asio_bridge(HUB.into())),
        Err(WireBoxError::NonZeroExit { command: "winetricks wineasio".into(), status: exit(false) })
    );
    w.unspawnable.insert("/usr/bin/winetricks".into());
    assert_eq!(
        run(&mut w, ensure_asio_bridge(HUB.into())),
        Err(WireBoxError::Spawn { command: "winetricks".into(), reason: "No such file or directory".into() })
    );
    let mut w = World::default();
    assert_eq!(run(&mut w, ensure_asio_bridge(HUB.into())), Err(WireBoxError::WinetricksNotInstalled));
}

#[test]
fn verbs_are_joined_with_spaces() {
    assert_eq!(join_verbs(&vec![]), "");
    assert_eq!(join_verbs(&vec!["a".to_string()]), "a");
    assert_eq!(join_verbs(&vec!["a".to_string(), "b".to_string(), "c".to_string()]), "a b c");
}

#[test]
fn launch_installed_application() {
    let mut w = world_with_tonex();
    w.programs.insert("wine".into(), "/usr/bin/wine".into());
    assert_eq!(run(&mut w, library().launch(Application::Tonex)), Ok(()));
    let exe = format!("{DRIVE_C}/Program Files/IK Multimedia/tonex.EXE");
    assert_eq!(w.log.last(), Some(&Op::Spawn(prefix().command(exe))));
}

#[test]
fn launch_errors() {
    let mut w = world_with_tonex();
    w.programs.insert("wine".into(), "/usr/bin/wine".into());
    assert_eq!(run(&mut w, library().launch(Application::Amplitube5)), Err(WireBoxError::NotFound(HUB.into())));
    assert!(w.log.iter().all(|op| matches!(op, Op::ReadDir(_))));
    let mut w = world_with_tonex();
    assert_eq!(run(&mut w, library().launch(Application::Tonex)), Err(WireBoxError::WineNotInstalled));
}

#[test]
fn set_up_audio_registers_wineasio() {
    let mut w = World::default();
    w.programs.insert("wine".into(), "/usr/bin/wine".into());
    w.programs.insert("winetricks".into(), "/usr/bin/winetricks".into());
    assert_eq!(run(&mut w, library().set_up_audio()), Ok(()));
    assert!(w.log.contains(&Op::Run(prefix().command("wineboot".into()))));
    match w.log.last().unwrap() {
        Op::Run(c) => assert_eq!(c.args, vec!["-q", "wineasio"]),
        _ => panic!("expected winetricks"),
    }
    let mut w = World::default();
    w.programs.insert("wine".into(), "/usr/bin/wine".into());
    assert_eq!(run(&mut w, library().set_up_audio()), Err(WireBoxError::WinetricksNotInstalled));
    let mut w = World::default();
    assert_eq!(run(&mut w, library().set_up_audio()), Err(WireBoxError::WineNotInstalled));
}

#[test]
fn reset_wipes_and_recreates_prefix() {
    let mut w = world_with_tonex();
    assert_eq!(run(&mut w, library().reset()), Ok(()));
    assert_eq!(w.log, vec![Op::IsDir(HUB.into()), Op::RemoveDirAll(HUB.into()), Op::CreateDirAll(HUB.into())]);
    assert_eq!(w.dirs.get(HUB), Some(&vec![]));
    let mut w = World::default();
    assert_eq!(run(&mut w, library().reset()), Ok(()));
    assert_eq!(w.log, vec![Op::IsDir(HUB.into()), Op::CreateDirAll(HUB.into())]);
    let mut w = world_with_tonex();
    w.uncreatable.insert(HUB.into());
    assert_eq!(
        run(&mut w, library().reset()),
        Err(WireBoxError::RemoveDir { path: HUB.into(), reason: "Permission denied".into() })
    );
}

#[test]
fn ensure_ready_creates_prefix() {
    let (m, op) = library().ensure_ready();
    assert_eq!(op, Op::CreateDirAll(HUB.into()));
    assert_eq!(m.finish(Event::Done), Ok(()));
    let (m, _) = library().ensure_ready();
    assert_eq!(m.finish(Event::Failed("denied".into())), Err(WireBoxError::CreateDir { path: HUB.into(), reason: "denied".into() }));
}

const CACHE: &str = "/home/u/.cache/wirebox/product-manager";

fn pm_world() -> World {
    let mut w = world_with_tonex();
    w.programs.insert("wine".into(), "/usr/bin/wine".into());
    w.programs.insert("winetricks".into(), "/usr/bin/winetricks".into());
    w
}

fn installer() -> (InstallProductManager, Op) {
    library().install_product_manager_with_cache(CACHE.into())
}

#[test]
fn installed_product_manager_is_just_opened() {
    let mut w = pm_world();
    let ik = format!("{DRIVE_C}/Program Files/IK Multimedia");
    w.add_dir(&ik, vec![file(&ik, "IK Product Manager.exe")]);
    assert_eq!(run(&mut w, installer()), Ok(()));
    assert_eq!(w.log.last(), Some(&Op::Spawn(prefix().command(format!("{ik}/IK Product Manager.exe")))));
    assert!(!w.log.iter().any(|op| matches!(op, Op::Run(c) if c.program == "curl")));
}

#[test]
fn missing_winetricks_only_warns() {
    let mut w = pm_world();
    w.programs.remove("winetricks");
    let ik = format!("{DRIVE_C}/Program Files/IK Multimedia");
    w.add_dir(&ik, vec![file(&ik, "IK Product Manager.exe")]);
    assert_eq!(run(&mut w, installer()), Ok(()));
    assert!(w.log.contains(&Op::Warn(WireBoxError::WinetricksNotInstalled)));
}

#[test]
fn product_manager_is_downloaded_set_up_and_opened() {
    let mut w = pm_world();
    let extracted = format!("{CACHE}/extracted");
    let archive = format!("{CACHE}/ik_product_manager.zip");
    w.after_run.insert(extracted.clone(), (extracted.clone(), vec![dir(&extracted, "pm")]));
    let pm_dir = format!("{extracted}/pm");
    w.add_dir(&pm_dir, vec![file(&pm_dir, "setup.EXE")]);
    let setup = format!("{pm_dir}/setup.EXE");
    let ik = format!("{DRIVE_C}/Program Files/IK Multimedia");
    w.after_run.insert(setup.clone(), (ik.clone(), vec![file(&ik, "IK Product Manager.exe")]));
    assert_eq!(run(&mut w, installer()), Ok(()));
    let download = Op::Run(wirebox::process::CommandSpec {
        program: "curl".into(),
        args: vec!["-L".into(), "--fail".into(), "-o".into(), archive.clone(), PRODUCT_MANAGER_URL.into()],
        env: vec![],
    });
    assert!(w.log.contains(&download));
    let extract = Op::Run(wirebox::process::CommandSpec {
        program: "bsdtar".into(),
        args: vec!["-xf".into(), archive, "-C".into(), extracted],
        env: vec![],
    });
    assert!(w.log.contains(&extract));
    assert!(w.log.contains(&Op::Run(prefix().command(setup))));
    assert_eq!(w.log.last(), Some(&Op::Spawn(prefix().command(format!("{ik}/IK Product Manager.exe")))));
}

#[test]
fn product_manager_missing_after_setup() {
    let mut w = pm_world();
    let extracted = format!("{CACHE}/extracted");
    w.add_dir(&extracted, vec![file(&extracted, "setup.exe")]);
    w.files.insert(format!("{CACHE}/ik_product_manager.zip"));
    assert_eq!(run(&mut w, installer()), Err(WireBoxError::ProductManagerMissing));
    assert!(!w.log.iter().any(|op| matches!(op, Op::Run(c) if c.program == "curl" || c.program == "bsdtar")));
}

#[test]
fn install_stops_when_wine_is_missing() {
    let mut w = pm_world();
    w.programs.remove("wine");
    assert_eq!(run(&mut w, installer()), Err(WireBoxError::WineNotInstalled));
}

#[test]
fn failed_download_is_discarded() {
    let mut w = World::default();
    w.failing.insert("curl".into());
    let archive = format!("{CACHE}/ik_product_manager.zip");
    let r = run(&mut w, CachedInstaller::start(CACHE.into()));
    assert_eq!(
        r,
        Err(WireBoxError::NonZeroExit { command: format!("curl -L {PRODUCT_MANAGER_URL}"), status: exit(false) })
    );
    assert_eq!(w.log.last(), Some(&Op::RemoveFile(archive)));
    let mut w = World::default();
    w.unspawnable.insert("curl".into());
    assert_eq!(
        run(&mut w, CachedInstaller::start(CACHE.into())),
        Err(WireBoxError::Spawn { command: "curl".into(), reason: "No such file or directory".into() })
    );
}

#[test]
fn failed_extraction_is_cleaned_up() {
    let mut w = World::default();
    w.files.insert(format!("{CACHE}/ik_product_manager.zip"));
    w.failing.insert("bsdtar".into());
    let extracted = format!("{CACHE}/extracted");
    assert_eq!(
        run(&mut w, CachedInstaller::start(CACHE.into())),
        Err(WireBoxError::NonZeroExit { command: "bsdtar".into(), status: exit(false) })
    );
    assert_eq!(w.log.last(), Some(&Op::RemoveDirAll(extracted.clone())));
    assert!(!w.dirs.contains_key(&extracted));
    let mut w = World::default();
    w.files.insert(format!("{CACHE}/ik_product_manager.zip"));
    w.uncreatable.insert(extracted.clone());
    assert_eq!(
        run(&mut w, CachedInstaller::start(CACHE.into())),
        Err(WireBoxError::CreateDir { path: extracted, reason: "Permission denied".into() })
    );
}

#[test]
fn cached_installer_reuses_cache_and_reports_missing_exe() {
    let mut w = World::default();
    w.files.insert(format!("{CACHE}/ik_product_manager.zip"));
    let extracted = format!("{CACHE}/extracted");
    w.add_dir(&extracted, vec![file(&extracted, "notes.txt"), file(&extracted, ".exe"), file(&extracted, "Setup.eXe")]);
    assert_eq!(run(&mut w, CachedInstaller::start(CACHE.into())), Ok(format!("{extracted}/Setup.eXe")));
    assert!(!w.log.iter().any(|op| matches!(op, Op::Run(_))));
    w.add_dir(&extracted, vec![file(&extracted, "notes.txt")]);
    assert_eq!(run(&mut w, CachedInstaller::start(CACHE.into())), Err(WireBoxError::NoExecutableFound(extracted)));
    let mut w = World::default();
    w.uncreatable.insert(CACHE.into());
    assert_eq!(
        run(&mut w, CachedInstaller::start(CACHE.into())),
        Err(WireBoxError::CreateDir { path: CACHE.into(), reason: "Permission denied".into() })
    );
}

#[test]
fn pipewire_probe_reads_pactl_report() {
    let (probe, op) = is_pipewire_active();
    match op {
        Op::Capture(c) => {
            assert_eq!(c.program, "pactl");
            assert_eq!(c.args, vec!["info"]);
        },
        _ => panic!("expected a capture"),
    }
    assert!(probe.finish(Event::Output { success: true, stdout: b"Server Name: PulseAudio (on PipeWire 1.0.5)\n".to_vec() }));
    let (probe, _) = is_pipewire_active();
    assert!(!probe.finish(Event::Output { success: true, stdout: b"Server Name: pulseaudio\n".to_vec() }));
    let (probe, _) = is_pipewire_active();
    assert!(probe.finish(Event::Output { success: false, stdout: b"PipeWire".to_vec() }));
    let (probe, _) = is_pipewire_active();
    assert!(!probe.finish(Event::Failed("no pactl".into())));
    assert!(wirebox::audio::names_pipewire("Server Name: PulseAudio (on PipeWire 0.3.80)"));
    assert!(!wirebox::audio::names_pipewire("pipewire"));
}

fn props(class: Option<&str>, name: Option<&str>, desc: Option<&str>) -> Option<NodeProperties> {
    Some(NodeProperties {
        media_class: class.map(String::from),
        node_name: name.map(String::from),
        node_description: desc.map(String::from),
    })
}

#[test]
fn audio_devices_from_pipewire_nodes() {
    let d = device_from_node(true, props(Some("Audio/Sink"), Some("alsa_output"), Some("Speakers"))).unwrap();
    assert_eq!(d.direction, AudioDirection::Output);
    assert_eq!(d.name, "alsa_output");
    assert_eq!(d.description, "Speakers");
    let d = device_from_node(true, props(Some("Audio/Source/Virtual"), None, None)).unwrap();
    assert_eq!(d.direction, AudioDirection::Input);
    assert_eq!(d.name, "(unnamed)");
    assert_eq!(d.description, "(unnamed)");
    let d = device_from_node(true, props(Some("Audio/Source"), Some("mic"), None)).unwrap();
    assert_eq!(d.description, "mic");
    assert!(device_from_node(true, props(Some("Video/Source"), Some("cam"), None)).is_none());
    assert!(device_from_node(true, props(None, Some("x"), None)).is_none());
    assert!(device_from_node(true, None).is_none());
    assert!(device_from_node(false, props(Some("Audio/Sink"), Some("x"), None)).is_none());
}

#[test]
fn installer_cache_lives_under_user_cache() {
    assert_eq!(wirebox::bootstrap::cache_directory_in(Some("/home/u/.cache".into())), CACHE);
    assert_eq!(wirebox::bootstrap::cache_directory_in(None), "./wirebox/product-manager");
    match wirebox::bootstrap::cached_installer().1 {
        Op::CreateDirAll(p) => assert!(p.ends_with("/wirebox/product-manager")),
        _ => panic!("expected the cache to be created first"),
    }
    assert_eq!(library().install_product_manager().1, Op::CreateDirAll(HUB.into()));
}

#[test]
fn default_library_is_under_home() {
    assert_eq!(Library::default(), Library::new());
}

#[test]
fn all_states_are_the_separate_states() {
    let mut w = world_with_tonex();
    let amp = format!("{DRIVE_C}/Program Files/IK Multimedia");
    w.add_dir(&amp, vec![file(&amp, "readme.txt"), file(&amp, "tonex.EXE"), file(&amp, "AmpliTube 5.exe")]);
    let all = run(&mut w, library().all_states());
    let tonex = run(&mut w, library().state(Application::Tonex));
    let amplitube = run(&mut w, library().state(Application::Amplitube5));
    assert_eq!(all, vec![tonex, amplitube]);
    assert!(all.iter().all(|s| s.is_installed()));
}

#[test]
fn product_manager_search_ignores_needle_case() {
    let mut w = world_with_tonex();
    let ik = format!("{DRIVE_C}/Program Files/IK Multimedia");
    w.add_dir(&ik, vec![file(&ik, "IK Product Manager.EXE")]);
    let rules = |needle: &str| SearchRules {
        matcher: Matcher::ExeContaining(needle.into()),
        max_depth: 8,
        skip_windows: true,
        descend_unnamed: false,
    };
    let lower = run(&mut w, Search::start(DRIVE_C.into(), rules("product manager")));
    let mixed = run(&mut w, Search::start(DRIVE_C.into(), rules("Product MANAGER")));
    assert_eq!(lower, mixed);
    assert_eq!(lower, Some(format!("{ik}/IK Product Manager.EXE")));
}

#[test]
fn second_installer_run_over_complete_cache_runs_nothing() {
    let mut w = World::default();
    let archive = format!("{CACHE}/ik_product_manager.zip");
    let extracted = format!("{CACHE}/extracted");
    w.after_run.insert(PRODUCT_MANAGER_URL.into(), (CACHE.into(), vec![file(CACHE, "ik_product_manager.zip")]));
    w.after_run.insert(extracted.clone(), (extracted.clone(), vec![file(&extracted, "readme.txt"), file(&extracted, "Setup.exe")]));
    let first = run(&mut w, CachedInstaller::start(CACHE.into()));
    assert_eq!(first, Ok(format!("{extracted}/Setup.exe")));
    assert!(w.files.contains(&archive));
    assert_eq!(w.log.iter().filter(|op| matches!(op, Op::Run(_))).count(), 2);
    w.log.clear();
    let second = run(&mut w, CachedInstaller::start(CACHE.into()));
    assert_eq!(second, first);
    assert!(!w.log.iter().any(|op| matches!(op, Op::Run(_))));
}

#[test]
fn reset_leaves_an_empty_prefix() {
    let mut w = world_with_tonex();
    let ik = format!("{DRIVE_C}/Program Files/IK Multimedia");
    w.add_dir(&ik, vec![file(&ik, "tonex.EXE"), file(&ik, "IK Product Manager.exe")]);
    w.add_dir("/home/u/other", vec![file("/home/u/other", "keep.txt")]);
    assert!(run(&mut w, library().product_manager_installed()));
    assert_eq!(run(&mut w, library().reset()), Ok(()));
    assert_eq!(w.dirs.get(HUB), Some(&vec![]));
    assert!(!w.dirs.keys().any(|d| d.starts_with(&format!("{HUB}/"))));
    assert!(!w.files.iter().any(|f| f.starts_with(&format!("{HUB}/"))));
    assert!(w.files.contains("/home/u/other/keep.txt"));
    assert!(!run(&mut w, library().product_manager_installed()));
    let states = run(&mut w, library().all_states());
    assert!(states.iter().all(|s| s.executable.is_none()));
}

#[test]
fn launch_starts_only_the_found_executable() {
    // An uninitialized prefix: wineboot runs first, then exactly one start.
    let mut w = world_with_tonex();
    w.programs.insert("wine64".into(), "/opt/wine/bin/wine64".into());
    assert_eq!(run(&mut w, library().launch(Application::Tonex)), Ok(()));
    let exe = format!("{DRIVE_C}/Program Files/IK Multimedia/tonex.EXE");
    let mut lookup = World::default();
    lookup.programs.insert("wine64".into(), "/opt/wine/bin/wine64".into());
    let wine = run(&mut lookup, Wine::detect()).unwrap();
    let spawns: Vec<&Op> = w.log.iter().filter(|op| matches!(op, Op::Spawn(_))).collect();
    assert_eq!(spawns, vec![&Op::Spawn(wine.prefix(HUB.to_string()).command(exe))]);
    assert!(matches!(w.log.last(), Some(Op::Spawn(_))));
    // Nothing is started when the application is missing or Wine is absent.
    let mut w = world_with_tonex();
    w.programs.insert("wine".into(), "/usr/bin/wine".into());
    assert!(run(&mut w, library().launch(Application::Amplitube5)).is_err());
    assert!(!w.log.iter().any(|op| matches!(op, Op::Spawn(_))));
    let mut w = world_with_tonex();
    assert!(run(&mut w, library().launch(Application::Tonex)).is_err());
    assert!(!w.log.iter().any(|op| matches!(op, Op::Spawn(_))));
}
