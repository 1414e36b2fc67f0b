use manage::fs_model::{FsEntry, FsState};
use manage::symbolic_link::{run_sym_vec, LinkError, SymLink};
use manage::walker::{get_symlink_vec, ConflictKind, DirEntry, TargetEntry};
use manage::{Action, MainApp};

fn s(x: &str) -> String {
    x.to_string()
}

fn app_for(action: Action, dry_run: bool) -> MainApp {
    MainApp {
        under_dir: s("/t/.under"),
        upper_dir: s("/t"),
        target_dirs: vec![s("/t/.under/app")],
        verbose_num: 0,
        dry_run,
        action,
        git_url: None,
    }
}

fn is_link_to(fs: &FsState, upper: &str, target: &str) -> bool {
    match fs.lookup(&s(upper)) {
        Some(FsEntry::Symlink { resolved: Some(r) }) => r == target,
        _ => false,
    }
}

#[test]
fn test_make_sym_zsh() {
    let mut fs = FsState::new();
    fs.add_entry(s("/t/zshrc.d"), FsEntry::Dir);
    let syms = vec![
        SymLink::new(&s("/t/zshrc"), &s("/t/.under/fake_zsh/zshrc"), false),
        SymLink::new(
            &s("/t/zshrc.d/zshrc_conf"),
            &s("/t/.under/fake_zsh/zshrc.d/zshrc_conf"),
            false,
        ),
    ];
    let main = app_for(Action::Make, false);
    let out = run_sym_vec(&mut fs, &syms, &main);
    assert!(out.is_ok(), "cant make symlink");
    let (work, _report) = out.unwrap();
    assert!(work);
    for sym in &syms {
        assert!(fs.lookup(&sym.upper_file).is_some(), "didn't make symlink");
        assert!(
            is_link_to(&fs, &sym.upper_file, &sym.target_file),
            "not pointing to right place"
        );
    }
}

#[test]
fn test_make_sym_i3() {
    let mut fs = FsState::new();
    fs.add_entry(s("/t/.config"), FsEntry::Dir);
    let syms = vec![SymLink::new(
        &s("/t/.config/i3"),
        &s("/t/.under/fake_i3/.config/i3"),
        false,
    )];
    let main = app_for(Action::Make, false);
    let out = run_sym_vec(&mut fs, &syms, &main);
    assert!(out.is_ok(), "cant make symlink");
    for sym in &syms {
        assert!(fs.lookup(&sym.upper_file).is_some(), "didnt make symlink");
        assert!(
            is_link_to(&fs, &sym.upper_file, &sym.target_file),
            "not pointing to right place"
        );
    }
}

#[test]
fn test_make_delete_symlink_zsh() {
    let mut fs = FsState::new();
    let syms = vec![
        SymLink::new(
            &s("/t/zshrc.d/zshrc_conf"),
            &s("/t/.under/fake_zsh/zshrc.d/zshrc_conf"),
            true,
        ),
        SymLink::new(&s("/t/zshrc"), &s("/t/.under/fake_zsh/zshrc"), true),
    ];
    for sym in &syms {
        assert!(fs.lookup(&sym.upper_file).is_none(), "file exists?");
        fs.add_entry(
            sym.upper_file.clone(),
            FsEntry::Symlink { resolved: Some(sym.target_file.clone()) },
        );
        assert!(fs.lookup(&sym.upper_file).is_some(), "didn't make sym");
    }
    let main = app_for(Action::Delete, false);
    let out = run_sym_vec(&mut fs, &syms, &main);
    assert!(out.is_ok(), "cant delete symlink");
    for sym in &syms {
        assert!(fs.lookup(&sym.upper_file).is_none(), "didn't remove symlink");
    }
}

// Target tree {a, sub/b} under .under/app, upper tree empty: Create makes
// the two links; a second Create does nothing and says so.
#[test]
fn scenario_create_two_links_then_noop() {
    let mut fs = FsState::new();
    fs.add_entry(s("/t/sub"), FsEntry::Dir);
    let entries = vec![
        DirEntry { name: s("a"), entry: TargetEntry::File },
        DirEntry {
            name: s("sub"),
            entry: TargetEntry::Dir(vec![DirEntry { name: s("b"), entry: TargetEntry::File }]),
        },
    ];
    let upper = s("/t");
    let target = s("/t/.under/app");
    let main = app_for(Action::Make, false);

    let (syms, confs) = get_symlink_vec(&fs, &upper, &target, &entries);
    assert_eq!(confs.len(), 0);
    assert_eq!(syms.len(), 2);
    let (work, report) = run_sym_vec(&mut fs, &syms, &main).unwrap();
    assert!(work);
    assert_eq!(
        report,
        "make /t/a -> /t/.under/app/a\nmake /t/sub/b -> /t/.under/app/sub/b"
    );
    assert!(is_link_to(&fs, "/t/a", "/t/.under/app/a"));
    assert!(is_link_to(&fs, "/t/sub/b", "/t/.under/app/sub/b"));

    // walk again: both links are found in place, and re-creating reports
    // that nothing was done
    let (syms2, confs2) = get_symlink_vec(&fs, &upper, &target, &entries);
    assert_eq!(confs2.len(), 0);
    assert_eq!(syms2.len(), 2);
    assert!(syms2.iter().all(|l| l.exists));
    let (work2, report2) = run_sym_vec(&mut fs, &syms2, &main).unwrap();
    assert!(!work2);
    assert!(report2.contains("did noting"));
    assert!(is_link_to(&fs, "/t/a", "/t/.under/app/a"));
    assert!(is_link_to(&fs, "/t/sub/b", "/t/.under/app/sub/b"));
}

// Create then Delete restores the empty upper tree.
#[test]
fn scenario_round_trip_restores_state() {
    let mut fs = FsState::new();
    let entries = vec![DirEntry { name: s("a"), entry: TargetEntry::File }];
    let upper = s("/t");
    let target = s("/t/.under/app");

    let (syms, _) = get_symlink_vec(&fs, &upper, &target, &entries);
    run_sym_vec(&mut fs, &syms, &app_for(Action::Make, false)).unwrap();
    assert!(is_link_to(&fs, "/t/a", "/t/.under/app/a"));

    let (syms2, _) = get_symlink_vec(&fs, &upper, &target, &entries);
    let (work, _) = run_sym_vec(&mut fs, &syms2, &app_for(Action::Delete, false)).unwrap();
    assert!(work);
    assert!(fs.lookup(&s("/t/a")).is_none(), "residual link");
}

// Upper tree has a plain file where a link is expected: the walk reports a
// conflict for it and no mode ever mutates it.
#[test]
fn scenario_conflict_plain_file_untouched() {
    let mut fs = FsState::new();
    fs.add_entry(s("/t/a"), FsEntry::File);
    let entries = vec![
        DirEntry { name: s("a"), entry: TargetEntry::File },
        DirEntry { name: s("c"), entry: TargetEntry::File },
    ];
    let (syms, confs) = get_symlink_vec(&fs, &s("/t"), &s("/t/.under/app"), &entries);
    assert_eq!(confs.len(), 1);
    assert_eq!(confs[0].path, "/t/a");
    assert!(matches!(confs[0].kind, ConflictKind::Unexpected));
    // the sibling is still classified
    assert_eq!(syms.len(), 1);
    assert_eq!(syms[0].upper_file, "/t/c");
    // the conflicting path survives every mode
    for action in [Action::Make, Action::Delete, Action::Remake] {
        let mut fs2 = FsState::new();
        fs2.add_entry(s("/t/a"), FsEntry::File);
        let (syms2, _) = get_symlink_vec(&fs2, &s("/t"), &s("/t/.under/app"), &entries);
        let _ = run_sym_vec(&mut fs2, &syms2, &app_for(action, false));
        assert!(matches!(fs2.lookup(&s("/t/a")), Some(FsEntry::File)));
    }
}

// A foreign link is reported and never touched, whatever the mode.
#[test]
fn scenario_foreign_link_untouched() {
    for action in [Action::Make, Action::Delete, Action::Remake] {
        let mut fs = FsState::new();
        fs.add_entry(
            s("/t/a"),
            FsEntry::Symlink { resolved: Some(s("/somewhere/else")) },
        );
        let entries = vec![DirEntry { name: s("a"), entry: TargetEntry::File }];
        let (syms, confs) = get_symlink_vec(&fs, &s("/t"), &s("/t/.under/app"), &entries);
        assert_eq!(syms.len(), 0);
        assert_eq!(confs.len(), 1);
        assert!(matches!(confs[0].kind, ConflictKind::Foreign));
        let _ = run_sym_vec(&mut fs, &syms, &app_for(action, false));
        match fs.lookup(&s("/t/a")) {
            Some(FsEntry::Symlink { resolved: Some(r) }) => assert_eq!(r, "/somewhere/else"),
            _ => panic!("foreign link was touched"),
        }
    }
}

// Dry runs report and change nothing, under every mode.
#[test]
fn dry_run_is_pure() {
    for action in [Action::Make, Action::Delete, Action::Remake] {
        let mut fs = FsState::new();
        fs.add_entry(s("/t/old"), FsEntry::Symlink { resolved: Some(s("/t/.under/app/old")) });
        let syms = vec![
            SymLink::new(&s("/t/a"), &s("/t/.under/app/a"), false),
            SymLink::new(&s("/t/old"), &s("/t/.under/app/old"), true),
        ];
        let out = run_sym_vec(&mut fs, &syms, &app_for(action, true));
        assert!(out.is_ok());
        assert!(fs.lookup(&s("/t/a")).is_none());
        assert!(is_link_to(&fs, "/t/old", "/t/.under/app/old"));
    }
}

#[test]
fn dry_run_reports() {
    let mut fs = FsState::new();
    let syms = vec![
        SymLink::new(&s("/t/a"), &s("/t/.u/a"), false),
        SymLink::new(&s("/t/b"), &s("/t/.u/b"), true),
    ];
    let (work, report) = run_sym_vec(&mut fs, &syms, &app_for(Action::Make, true)).unwrap();
    assert!(work);
    assert_eq!(report, "would make /t/a -> /t/.u/a\nalready made /t/b -> /t/.u/b");

    let (work, report) = run_sym_vec(&mut fs, &syms, &app_for(Action::Delete, true)).unwrap();
    assert!(work);
    assert_eq!(
        report,
        "already missing /t/a -> /t/.u/a\nwould delete /t/b -> /t/.u/b"
    );

    let (work, report) = run_sym_vec(&mut fs, &syms, &app_for(Action::Remake, true)).unwrap();
    assert!(work);
    assert_eq!(report, "would remake /t/a -> /t/.u/a\nwould remake /t/b -> /t/.u/b");
}

#[test]
fn executor_error_variants() {
    // creating over an occupied path
    let mut fs = FsState::new();
    fs.add_entry(s("/t/a"), FsEntry::File);
    let syms = vec![SymLink::new(&s("/t/a"), &s("/t/.u/a"), false)];
    let out = run_sym_vec(&mut fs, &syms, &app_for(Action::Make, false));
    assert!(matches!(out, Err(LinkError::CreateOccupied { .. })));
    assert!(matches!(fs.lookup(&s("/t/a")), Some(FsEntry::File)));

    // deleting where nothing sits
    let mut fs = FsState::new();
    let syms = vec![SymLink::new(&s("/t/a"), &s("/t/.u/a"), true)];
    let out = run_sym_vec(&mut fs, &syms, &app_for(Action::Delete, false));
    assert!(matches!(out, Err(LinkError::DeleteMissing { .. })));

    // deleting a directory
    let mut fs = FsState::new();
    fs.add_entry(s("/t/a"), FsEntry::Dir);
    let syms = vec![SymLink::new(&s("/t/a"), &s("/t/.u/a"), true)];
    let out = run_sym_vec(&mut fs, &syms, &app_for(Action::Delete, false));
    assert!(matches!(out, Err(LinkError::DeleteDir { .. })));
    assert!(matches!(fs.lookup(&s("/t/a")), Some(FsEntry::Dir)));

    // a descriptor pointing at itself is refused
    let mut fs = FsState::new();
    fs.add_entry(s("/t/a"), FsEntry::Symlink { resolved: Some(s("/t/a")) });
    let syms = vec![SymLink::new(&s("/t/a"), &s("/t/a"), true)];
    let out = run_sym_vec(&mut fs, &syms, &app_for(Action::Delete, false));
    assert!(matches!(out, Err(LinkError::SelfTarget { .. })));
    assert!(fs.lookup(&s("/t/a")).is_some());
}

#[test]
fn remake_refreshes_links() {
    let mut fs = FsState::new();
    fs.add_entry(s("/t/a"), FsEntry::Symlink { resolved: Some(s("/t/.u/a")) });
    let syms = vec![
        SymLink::new(&s("/t/a"), &s("/t/.u/a"), true),
        SymLink::new(&s("/t/b"), &s("/t/.u/b"), false),
    ];
    let (work, report) = run_sym_vec(&mut fs, &syms, &app_for(Action::Remake, false)).unwrap();
    assert!(work);
    assert!(report.starts_with("remake "));
    assert!(is_link_to(&fs, "/t/a", "/t/.u/a"));
    assert!(is_link_to(&fs, "/t/b", "/t/.u/b"));
}

#[test]
fn empty_descriptor_list_is_no_work() {
    let mut fs = FsState::new();
    let syms: Vec<SymLink> = vec![];
    let (work, report) = run_sym_vec(&mut fs, &syms, &app_for(Action::Make, false)).unwrap();
    assert!(!work);
    assert_eq!(report, "");
}

#[test]
fn link_error_messages() {
    let e = LinkError::CreateOccupied { path: s("/t/a") };
    assert_eq!(e.message(), "cant make symlink /t/a");
    let e = LinkError::SelfTarget { path: s("/t/a") };
    assert_eq!(e.message(), "upper_dir is pointing to target_dir /t/a");
}
