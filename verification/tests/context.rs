use manage::auto_filters::{FilterError, FilterType};
use manage::fs_model::{FsEntry, FsState};
use manage::my_utils::{file_name, make_then_check_path, path_join, str_to_path, vec_to_string};
use manage::user_config::{Conf, ConfError, Target};
use manage::{Action, AppError, CliArgs, MainApp};

fn s(x: &str) -> String {
    x.to_string()
}

fn cli(target: Option<&str>) -> CliArgs {
    CliArgs {
        verbose_num: 0,
        dry_run: false,
        target: target.map(|t| s(t)),
        upper: None,
        delete: false,
        remake: false,
        git_url: None,
    }
}

fn good_conf() -> Conf {
    Conf {
        under_dir: s(".dots"),
        upper_dir: s("/home/me"),
        filter_type: FilterType::Hostname,
        to_filter: vec![Target { name: s("box"), file_patterns: vec![s("*_all")] }],
        git_url: None,
    }
}

#[test]
fn main_app_from_cli_target() {
    let mut fs = FsState::new();
    fs.add_entry(s("/t/.under/app"), FsEntry::Dir);
    let args = cli(Some("/t/.under/app"));
    let app = MainApp::new(&fs, args, Err(ConfError::NeedBaseVars), None).expect("no app");
    // a command-line target is its own upper and under tree, and the only
    // target directory
    assert_eq!(app.upper_dir, "/t/.under/app");
    assert_eq!(app.under_dir, "/t/.under/app");
    assert_eq!(app.target_dirs, vec![s("/t/.under/app")]);
    assert!(matches!(app.action, Action::Make));
}

#[test]
fn main_app_from_config() {
    let mut fs = FsState::new();
    fs.add_entry(s("/home/me"), FsEntry::Dir);
    fs.add_entry(s("/home/me/.dots"), FsEntry::Dir);
    fs.add_entry(s("/home/me/.dots/app_all"), FsEntry::Dir);
    let host = s("box");
    let app = MainApp::new(&fs, cli(None), Ok(good_conf()), Some(&host)).expect("no app");
    assert_eq!(app.upper_dir, "/home/me");
    assert_eq!(app.under_dir, "/home/me/.dots");
    assert_eq!(app.target_dirs, vec![s("/home/me/.dots/app_all")]);
}

#[test]
fn main_app_action_selection() {
    let mut fs = FsState::new();
    fs.add_entry(s("/t/app"), FsEntry::Dir);
    let mut args = cli(Some("/t/app"));
    args.delete = true;
    args.remake = true;
    // deleting wins over remaking
    let app = MainApp::new(&fs, args, Err(ConfError::NeedBaseVars), None).unwrap();
    assert!(matches!(app.action, Action::Delete));

    let mut args = cli(Some("/t/app"));
    args.remake = true;
    let app = MainApp::new(&fs, args, Err(ConfError::NeedBaseVars), None).unwrap();
    assert!(matches!(app.action, Action::Remake));
}

#[test]
fn main_app_errors() {
    let fs = FsState::new();
    // a rejected config with no usable cli target is fatal
    let r = MainApp::new(&fs, cli(None), Err(ConfError::NeedBaseVars), None);
    assert!(matches!(r, Err(AppError::ConfigAndCli)));

    // a config whose upper directory does not exist
    let host = s("box");
    let r = MainApp::new(&fs, cli(None), Ok(good_conf()), Some(&host));
    assert!(matches!(r, Err(AppError::NoAutoUpper)));

    // a config that needs the host name, without one
    let mut fs = FsState::new();
    fs.add_entry(s("/home/me"), FsEntry::Dir);
    let r = MainApp::new(&fs, cli(None), Ok(good_conf()), None);
    assert!(matches!(r, Err(AppError::NoHostname)));

    // the host matches no filter target
    let mut fs = FsState::new();
    fs.add_entry(s("/home/me"), FsEntry::Dir);
    let other = s("elsewhere");
    let r = MainApp::new(&fs, cli(None), Ok(good_conf()), Some(&other));
    assert!(matches!(r, Err(AppError::Filter(FilterError::HostMatch))));
}

#[test]
fn main_app_git_url_prefers_config() {
    let mut fs = FsState::new();
    fs.add_entry(s("/t/app"), FsEntry::Dir);
    let mut args = cli(Some("/t/app"));
    args.git_url = Some(s("cli-url"));
    let mut conf = good_conf();
    conf.git_url = Some(s("conf-url"));
    let app = MainApp::new(&fs, args, Ok(conf), None).unwrap();
    assert_eq!(app.git_url, Some(s("conf-url")));

    let mut args = cli(Some("/t/app"));
    args.git_url = Some(s("cli-url"));
    let app = MainApp::new(&fs, args, Ok(good_conf()), None).unwrap();
    assert_eq!(app.git_url, Some(s("cli-url")));
}

#[test]
fn verbose_output_levels() {
    let mut app = MainApp {
        under_dir: s("/u"),
        upper_dir: s("/t"),
        target_dirs: vec![],
        verbose_num: 0,
        dry_run: false,
        action: Action::Make,
        git_url: None,
    };
    assert_eq!(app.verbose_ouput("hello", Some("!")), None);
    app.verbose_num = 1;
    assert_eq!(app.verbose_ouput("hello", Some("!")), Some(s("hello")));
    assert_eq!(app.verbose_ouput("", Some("!")), None);
    app.verbose_num = 2;
    assert_eq!(app.verbose_ouput("hello", Some(" there")), Some(s("hello there")));
    assert_eq!(app.verbose_ouput("hello", None), Some(s("hello")));
}

#[test]
fn action_names() {
    assert_eq!(Action::Make.to_str(), "make");
    assert_eq!(Action::Delete.to_str(), "delete");
    assert_eq!(Action::Remake.to_str(), "remake");
}

#[test]
fn str_to_path_joins_and_strips_quotes() {
    assert_eq!(str_to_path(&vec![s("/home/me"), s("\".dots\"")]), "/home/me/.dots");
    assert_eq!(str_to_path(&vec![s("solo")]), "solo");
    assert_eq!(str_to_path(&vec![]), "");
}

#[test]
fn make_then_check_path_checks_existence() {
    let mut fs = FsState::new();
    fs.add_entry(s("/home/me/.dots"), FsEntry::Dir);
    let r = make_then_check_path(&fs, &vec![s("/home/me"), s(".dots")]);
    assert_eq!(r, Some(s("/home/me/.dots")));
    let r = make_then_check_path(&fs, &vec![s("/nowhere")]);
    assert_eq!(r, None);
}

#[test]
fn vec_to_string_formats_lines() {
    let out = vec_to_string("make", &vec![s("a -> b"), s("c -> d")]);
    assert_eq!(out, "make a -> b\nmake c -> d");
    assert_eq!(vec_to_string("x", &vec![]), "");
}

#[test]
fn path_helpers() {
    assert_eq!(path_join(&s("/a/b"), &s("c")), "/a/b/c");
    assert_eq!(file_name(&s("/a/b/c.txt")), "c.txt");
    assert_eq!(file_name(&s("plain")), "plain");
}

#[test]
fn list_dir_lists_direct_children() {
    let mut fs = FsState::new();
    fs.add_entry(s("/u"), FsEntry::Dir);
    fs.add_entry(s("/u/a"), FsEntry::File);
    fs.add_entry(s("/u/b"), FsEntry::Dir);
    fs.add_entry(s("/u/b/deep"), FsEntry::File);
    fs.add_entry(s("/unrelated"), FsEntry::File);
    assert_eq!(fs.list_dir(&s("/u")), vec![s("/u/a"), s("/u/b")]);
}
