use kimi_build::collect::{
    installer_actions, matching_names, plan_collection, tree_actions, BuildOutcome, CopyAction,
    TreeEntry,
};
use kimi_build::layout::{
    build_output_dir_name, choose_project_dir, install_args, package_manager, project_dir_name,
    release_dir_name, ProjectDirChoice,
};
use kimi_build::platform::{spells_token, Platform};
use kimi_build::session::{BuildSession, Step};

fn path(parts: &[&str]) -> Vec<String> {
    parts.iter().map(|s| s.to_string()).collect()
}

fn names(parts: &[&str]) -> Vec<String> {
    path(parts)
}

fn entry(parts: &[&str], is_dir: bool) -> TreeEntry {
    TreeEntry { path: path(parts), is_dir }
}

fn copy(from: &[&str], to: &[&str]) -> CopyAction {
    CopyAction::CopyFile { from: path(from), to: path(to) }
}

fn mkdir(to: &[&str]) -> CopyAction {
    CopyAction::MakeDir { to: path(to) }
}

/// Drives a session, answering each step from `answer`, and returns the steps.
fn drive(session: &mut BuildSession, answer: impl Fn(Step) -> bool) -> Vec<Step> {
    let mut steps = Vec::new();
    loop {
        let step = session.next_step();
        steps.push(step);
        if step == Step::Finished {
            return steps;
        }
        session.advance(answer(step));
    }
}

#[test]
fn synonyms_parse_to_their_canonical_platform() {
    for t in ["windows", "win", "Windows", "WIN", "wInDoWs"] {
        assert_eq!(Platform::from_string(t), Some(Platform::Windows), "{}", t);
    }
    for t in ["linux", "ubuntu", "debian", "Linux", "UBUNTU", "Debian"] {
        assert_eq!(Platform::from_string(t), Some(Platform::Linux), "{}", t);
    }
    for t in ["macos", "mac", "darwin", "MacOS", "MAC", "Darwin"] {
        assert_eq!(Platform::from_string(t), Some(Platform::MacOS), "{}", t);
    }
    for t in ["all", "ALL", "All"] {
        assert_eq!(Platform::from_string(t), Some(Platform::All), "{}", t);
    }
    assert_eq!(Platform::from_string("win"), Platform::from_string("Windows"));
}

#[test]
fn unknown_tokens_are_rejected() {
    for t in ["bogus", "", "windowsx", "wi", "mac os", "linux ", "freebsd", "\u{212A}"] {
        assert_eq!(Platform::from_string(t), None, "{:?}", t);
    }
}

#[test]
fn spelling_ignores_ascii_case_only() {
    assert!(spells_token("LiNuX", "linux"));
    assert!(!spells_token("linu", "linux"));
    assert!(!spells_token("l1nux", "linux"));
    assert!(!spells_token("\u{00C0}ll", "all"));
}

#[test]
fn missing_token_selects_all() {
    assert_eq!(Platform::from_arg(None), Some(Platform::All));
    assert_eq!(Platform::from_arg(Some("mac")), Some(Platform::MacOS));
    let s = BuildSession::start(None).ok().unwrap();
    assert_eq!(s.targets(), vec![Platform::Windows, Platform::Linux, Platform::MacOS]);
}

#[test]
fn bogus_token_starts_nothing() {
    match BuildSession::start(Some("bogus")) {
        Ok(_) => panic!("a session was started for an unknown token"),
        Err(e) => {
            assert_eq!(e.token, "bogus");
            let m = e.message();
            assert_eq!(
                m,
                "invalid platform argument: bogus; valid options: windows, linux, macos, all"
            );
        }
    }
}

#[test]
fn target_names() {
    assert_eq!(Platform::Windows.target_name(), "windows");
    assert_eq!(Platform::Linux.target_name(), "linux");
    assert_eq!(Platform::MacOS.target_name(), "mac");
    assert_eq!(Platform::All.target_name(), "all");
}

#[test]
fn all_expands_to_three_platforms_in_order() {
    assert_eq!(
        Platform::All.expand(),
        vec![Platform::Windows, Platform::Linux, Platform::MacOS]
    );
    assert_eq!(Platform::Linux.expand(), vec![Platform::Linux]);
    assert_eq!(Platform::MacOS.expand(), vec![Platform::MacOS]);
}

#[test]
fn build_arguments_per_platform() {
    assert_eq!(Platform::Windows.build_args(), path(&["run", "build", "--", "--win"]));
    assert_eq!(Platform::Linux.build_args(), path(&["run", "build", "--", "--linux"]));
    assert_eq!(Platform::MacOS.build_args(), path(&["run", "build", "--", "--mac"]));
    assert_eq!(Platform::All.build_args(), path(&["run", "build"]));
    assert_eq!(install_args(), path(&["install"]));
    assert_eq!(package_manager(), "npm");
}

#[test]
fn unpacked_paths_and_patterns() {
    assert_eq!(Platform::Windows.unpacked_path(), path(&["win-unpacked"]));
    assert_eq!(Platform::Linux.unpacked_path(), path(&["linux-unpacked"]));
    assert_eq!(Platform::MacOS.unpacked_path(), path(&["mac"]));
    assert_eq!(Platform::All.unpacked_path(), path(&[]));
    assert_eq!(Platform::Linux.installer_patterns(), path(&["*.AppImage", "*.deb"]));
    assert_eq!(
        Platform::All.installer_patterns(),
        path(&["*.exe", "*.AppImage", "*.deb", "*.dmg"])
    );
}

#[test]
fn layout_names() {
    assert_eq!(project_dir_name(), "kimi-electron-client");
    assert_eq!(release_dir_name(), "releases");
    assert_eq!(build_output_dir_name(), "dist");
}

#[test]
fn project_dir_search_order() {
    assert_eq!(choose_project_dir(true, true), ProjectDirChoice::Current);
    assert_eq!(choose_project_dir(false, true), ProjectDirChoice::Parent);
    assert_eq!(choose_project_dir(false, false), ProjectDirChoice::Fallback);
}

#[test]
fn single_platform_runs_install_build_collect() {
    let mut s = BuildSession::new(Platform::Linux);
    let steps = drive(&mut s, |_| true);
    assert_eq!(
        steps,
        vec![
            Step::Install(Platform::Linux),
            Step::Build(Platform::Linux),
            Step::Collect(Platform::Linux),
            Step::Finished
        ]
    );
    assert_eq!(s.results(), vec![true]);
    assert!(s.is_finished());
}

#[test]
fn install_failure_skips_build_and_collect() {
    let mut s = BuildSession::new(Platform::All);
    let steps = drive(&mut s, |step| step != Step::Install(Platform::Windows));
    assert!(!steps.contains(&Step::Build(Platform::Windows)));
    assert!(!steps.contains(&Step::Collect(Platform::Windows)));
    assert_eq!(steps[1], Step::Install(Platform::Linux));
    assert_eq!(s.results(), vec![false, true, true]);
}

#[test]
fn linux_build_failure_leaves_others_running() {
    let mut s = BuildSession::start(Some("all")).ok().unwrap();
    let steps = drive(&mut s, |step| step != Step::Build(Platform::Linux));
    assert_eq!(
        steps,
        vec![
            Step::Install(Platform::Windows),
            Step::Build(Platform::Windows),
            Step::Collect(Platform::Windows),
            Step::Install(Platform::Linux),
            Step::Build(Platform::Linux),
            Step::Install(Platform::MacOS),
            Step::Build(Platform::MacOS),
            Step::Collect(Platform::MacOS),
            Step::Finished
        ]
    );
    assert_eq!(s.results(), vec![true, false, true]);
}

#[test]
fn collect_failure_marks_platform_failed() {
    let mut s = BuildSession::new(Platform::MacOS);
    drive(&mut s, |step| step != Step::Collect(Platform::MacOS));
    assert_eq!(s.results(), vec![false]);
}

#[test]
fn installer_names_are_matched_by_suffix() {
    let found = matching_names(
        "*.deb",
        &names(&["a.deb", "b.debx", "deb", "x.DEB", ".deb", "linux-unpacked"]),
    );
    assert_eq!(found, names(&["a.deb", ".deb"]));
}

#[test]
fn installer_actions_follow_pattern_order() {
    let top = names(&["z.deb", "app.AppImage", "setup.exe"]);
    let acts = installer_actions(&path(&["*.AppImage", "*.deb"]), &top);
    assert_eq!(
        acts,
        vec![
            copy(&["app.AppImage"], &["app.AppImage"]),
            copy(&["z.deb"], &["z.deb"])
        ]
    );
}

#[test]
fn linux_collection_copies_tree_and_installers() {
    let outcome = BuildOutcome { platform: Platform::Linux, success: true };
    let tree = vec![entry(&["app.bin"], false)];
    let top = names(&["linux-unpacked", "pkg.AppImage", "builder-debug.yml"]);
    let acts = plan_collection(&outcome, &tree, &top);
    assert_eq!(
        acts,
        vec![
            mkdir(&[]),
            copy(&["linux-unpacked", "app.bin"], &["app.bin"]),
            copy(&["pkg.AppImage"], &["pkg.AppImage"])
        ]
    );
}

#[test]
fn failed_build_collects_nothing() {
    let outcome = BuildOutcome { platform: Platform::Linux, success: false };
    let tree = vec![entry(&["app.bin"], false)];
    let top = names(&["pkg.AppImage"]);
    assert!(plan_collection(&outcome, &tree, &top).is_empty());
}

#[test]
fn all_collection_copies_whole_output() {
    let outcome = BuildOutcome { platform: Platform::All, success: true };
    let tree = vec![entry(&["setup.exe"], false), entry(&["mac"], true)];
    let top = names(&["setup.exe", "mac", "img.dmg"]);
    let acts = plan_collection(&outcome, &tree, &top);
    assert_eq!(
        acts,
        vec![
            mkdir(&[]),
            copy(&["setup.exe"], &["setup.exe"]),
            mkdir(&["mac"]),
            copy(&["setup.exe"], &["setup.exe"]),
            copy(&["img.dmg"], &["img.dmg"])
        ]
    );
}

#[test]
fn nested_tree_copy_keeps_structure() {
    let tree = vec![
        entry(&["resources"], true),
        entry(&["resources", "app.asar"], false),
        entry(&["resources", "locales"], true),
        entry(&["resources", "locales", "en.pak"], false),
        entry(&["app.exe"], false),
    ];
    let acts = tree_actions(&path(&["win-unpacked"]), &tree);
    assert_eq!(
        acts,
        vec![
            mkdir(&[]),
            mkdir(&["resources"]),
            copy(&["win-unpacked", "resources", "app.asar"], &["resources", "app.asar"]),
            mkdir(&["resources", "locales"]),
            copy(
                &["win-unpacked", "resources", "locales", "en.pak"],
                &["resources", "locales", "en.pak"]
            ),
            copy(&["win-unpacked", "app.exe"], &["app.exe"])
        ]
    );
}

#[test]
fn planning_twice_gives_the_same_actions() {
    let outcome = BuildOutcome { platform: Platform::Windows, success: true };
    let tree = vec![entry(&["a"], true), entry(&["a", "b.dll"], false)];
    let top = names(&["setup.exe", "win-unpacked"]);
    let first = plan_collection(&outcome, &tree, &top);
    let second = plan_collection(&outcome, &tree, &top);
    assert_eq!(first, second);
}
