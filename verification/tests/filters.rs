use manage::auto_filters::{
    filter_target_dirs, get_dirs, hostname_filter, pattern_pred, FilterError, FilterType,
};
use manage::fs_model::{FsEntry, FsState};
use manage::user_config::{Conf, Target};

fn s(x: &str) -> String {
    x.to_string()
}

fn under_listing_end(temp: &str) -> Vec<String> {
    [
        "under_dir/fake_zsh_all",
        "under_dir/fake_i3_all",
        "under_dir/fake_polybar_M",
        "under_dir/fake_polybar_O",
        "under_dir/fake_termite_M",
        "under_dir/fake_termite_O",
    ]
    .iter()
    .map(|d| format!("{}/{}", temp, d))
    .collect()
}

fn under_listing_start(temp: &str) -> Vec<String> {
    [
        "under_dir/all_fake_zsh",
        "under_dir/all_fake_i3",
        "under_dir/O_fake_polybar",
        "under_dir/M_fake_polybar",
        "under_dir/O_fake_termite",
        "under_dir/M_fake_termite",
    ]
    .iter()
    .map(|d| format!("{}/{}", temp, d))
    .collect()
}

#[test]
fn test_get_dirs_end_pat() {
    let temp = "/tmp_model";
    let read_under = under_listing_end(temp);
    let hand_made_data: Vec<String> = [
        "under_dir/fake_zsh_all",
        "under_dir/fake_i3_all",
        "under_dir/fake_polybar_M",
        "under_dir/fake_termite_M",
    ]
    .iter()
    .map(|d| format!("{}/{}", temp, d))
    .collect();

    if let Ok(found_vec) = get_dirs(&read_under, &vec![s("*_all"), s("*_M")]) {
        assert!(found_vec.len() > 0);
        for found in found_vec {
            assert!(hand_made_data.contains(&found), "didn't find the right dirs");
        }
    } else {
        panic!("get_dirs failed");
    }
}

#[test]
fn test_get_dirs_start_pat() {
    let temp = "/tmp_model";
    let read_under = under_listing_start(temp);
    let hand_made_data: Vec<String> = [
        "under_dir/all_fake_zsh",
        "under_dir/all_fake_i3",
        "under_dir/O_fake_polybar",
        "under_dir/O_fake_termite",
    ]
    .iter()
    .map(|d| format!("{}/{}", temp, d))
    .collect();

    if let Ok(found_vec) = get_dirs(&read_under, &vec![s("all_*"), s("O_*")]) {
        assert!(found_vec.len() > 0);
        for found in found_vec {
            assert!(hand_made_data.contains(&found), "didn't find the right dirs");
        }
    } else {
        panic!("get_dirs failed");
    }
}

#[test]
fn pattern_pred_cases() {
    assert_eq!(pattern_pred(&s("fake_zsh_all"), &s("*_all")), Ok(true));
    assert_eq!(pattern_pred(&s("fake_zsh_all"), &s("*_M")), Ok(false));
    assert_eq!(pattern_pred(&s("all_fake_zsh"), &s("all_*")), Ok(true));
    assert_eq!(pattern_pred(&s("O_fake"), &s("all_*")), Ok(false));
    // the wildcard must come first or last
    assert_eq!(pattern_pred(&s("anything"), &s("no_star")), Err(FilterError::BadFilter));
    assert_eq!(pattern_pred(&s("anything"), &s("")), Err(FilterError::BadFilter));
}

#[test]
fn get_dirs_error_cases() {
    // nothing matches
    let out = get_dirs(&vec![s("/u/aaa")], &vec![s("*_zzz")]);
    assert_eq!(out, Err(FilterError::NoneFound));
    // a bad pattern is refused as soon as a directory is scanned
    let out = get_dirs(&vec![s("/u/aaa")], &vec![s("bad")]);
    assert_eq!(out, Err(FilterError::BadFilter));
    // an empty listing never reaches the patterns
    let out = get_dirs(&vec![], &vec![s("bad")]);
    assert_eq!(out, Err(FilterError::NoneFound));
}

#[test]
fn hostname_filter_selects_unique_host() {
    let read_under = vec![s("/u/d/app_all"), s("/u/d/other_X")];
    let to_filter = vec![
        Target { name: s("Monolith"), file_patterns: vec![s("*_all")] },
        Target { name: s("Odimm"), file_patterns: vec![s("*_X")] },
    ];
    let out = hostname_filter(&read_under, &to_filter, &s("Monolith"));
    assert_eq!(out, Ok(vec![s("/u/d/app_all")]));

    // an unknown host matches no target
    let out = hostname_filter(&read_under, &to_filter, &s("nowhere"));
    assert_eq!(out, Err(FilterError::HostMatch));

    // two targets for one host are refused
    let doubled = vec![
        Target { name: s("Monolith"), file_patterns: vec![s("*_all")] },
        Target { name: s("Monolith"), file_patterns: vec![s("*_X")] },
    ];
    let out = hostname_filter(&read_under, &doubled, &s("Monolith"));
    assert_eq!(out, Err(FilterError::HostMatch));
}

#[test]
fn filter_target_dirs_lists_under_tree() {
    let mut fs = FsState::new();
    fs.add_entry(s("/h/.dots"), FsEntry::Dir);
    fs.add_entry(s("/h/.dots/app_all"), FsEntry::Dir);
    fs.add_entry(s("/h/.dots/app_all/file"), FsEntry::File);
    fs.add_entry(s("/h/.dots/skip_me"), FsEntry::Dir);
    let conf = Conf {
        under_dir: s(".dots"),
        upper_dir: s("/h"),
        filter_type: FilterType::Hostname,
        to_filter: vec![Target { name: s("box"), file_patterns: vec![s("*_all")] }],
        git_url: None,
    };
    let out = filter_target_dirs(&fs, &s("/h/.dots"), &conf, &s("box"));
    assert_eq!(out, Ok(vec![s("/h/.dots/app_all")]));
}
