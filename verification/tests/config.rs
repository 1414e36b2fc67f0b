use manage::auto_filters::FilterType;
use manage::user_config::{Conf, ConfError, RawDoc, RawTable, RawValue};

fn s(x: &str) -> String {
    x.to_string()
}

fn to_raw_value(v: &toml::Value) -> RawValue {
    match v {
        toml::Value::String(st) => RawValue::Str(st.clone()),
        toml::Value::Array(arr) => {
            let mut items: Vec<String> = Vec::new();
            for e in arr {
                match e.as_str() {
                    Some(x) => items.push(x.to_string()),
                    None => return RawValue::Other,
                }
            }
            RawValue::StrArr(items)
        },
        _ => RawValue::Other,
    }
}

fn to_raw_doc(map: &toml::Table) -> RawDoc {
    let mut tables: Vec<RawTable> = Vec::new();
    for (k, val) in map.iter() {
        if let Some(t) = val.as_table() {
            let mut entries: Vec<(String, RawValue)> = Vec::new();
            for (ek, ev) in t.iter() {
                entries.push((ek.clone(), to_raw_value(ev)));
            }
            tables.push(RawTable { name: k.clone(), entries });
        }
    }
    RawDoc { tables }
}

fn parse_doc(text: &str) -> RawDoc {
    let table: toml::Table = text.parse().expect("broken config");
    to_raw_doc(&table)
}

#[test]
fn test_make_config() {
    let fake_config = r#"
        [base_vars]

        # no default
        under_dir = '.dots'

        [filter_rules]
        filter_type = 'hostname'

        [Monolith]
        file_patterns = ['*_all', '*_M']

        [Odimm]
        file_patterns = ['*_all', '*_O']
        "#;
    let doc = parse_doc(fake_config);
    let home = s("/home/me");
    if let Ok(conf) = Conf::new(&doc, Some(&home)) {
        assert!(!conf.under_dir.is_empty(), "didn't get under dir");
        assert!(!conf.to_filter.is_empty(), "didn't get to_filter");
    } else {
        panic!("broken config");
    }
}

#[test]
fn test_make_broken_config_under() {
    let fake_config = r#"
        [base_vars]

        # no default
        # under_dir = '.dots'

        [filter_rules]
        filter_type = 'hostname'

        [Test_Comp]
        file_patterns = ['*_all', '*_O']
        "#;
    let doc = parse_doc(fake_config);
    let home = s("/home/me");
    match Conf::new(&doc, Some(&home)) {
        Err(err) => assert_eq!(err, ConfError::NeedUnderDir, "need under_dir"),
        Ok(_) => panic!("made config"),
    }
}

#[test]
fn test_make_broken_config_filter_type() {
    let fake_config = r#"
        [base_vars]

        # no default
        under_dir = '.dots'

        # [filter_rules]
        # filter_type = 'hostname'

        # [Test_Comp]
        # file_patterns = ['*_all', '*_O']
        "#;
    let doc = parse_doc(fake_config);
    let home = s("/home/me");
    match Conf::new(&doc, Some(&home)) {
        Err(err) => assert_eq!(err, ConfError::NoFilters, "no filters given"),
        Ok(_) => panic!("made config"),
    }
}

#[test]
fn config_defaults_and_fields() {
    let text = r#"
        [base_vars]
        base = '/home/me'
        under_dir = '.dots'
        git_url = 'https://example.invalid/dots.git'

        [filter_rules]
        filter_type = 'hostname'

        [box]
        file_patterns = ['*_all']
        "#;
    let doc = parse_doc(text);
    let conf = Conf::new(&doc, None).expect("made config");
    // upper_dir falls back to base
    assert_eq!(conf.upper_dir, "/home/me");
    assert_eq!(conf.under_dir, ".dots");
    assert_eq!(conf.git_url, Some(s("https://example.invalid/dots.git")));
    assert!(matches!(conf.filter_type, FilterType::Hostname));
    assert_eq!(conf.to_filter.len(), 1);
    assert_eq!(conf.to_filter[0].name, "box");
    assert_eq!(conf.to_filter[0].file_patterns, vec![s("*_all")]);
}

#[test]
fn config_base_from_home() {
    let text = r#"
        [base_vars]
        under_dir = '.dots'

        [box]
        file_patterns = ['*_all']
        "#;
    let doc = parse_doc(text);
    let home = s("/home/other");
    let conf = Conf::new(&doc, Some(&home)).expect("made config");
    assert_eq!(conf.upper_dir, "/home/other");
    // without filter rules the filter type stays keyfile
    assert!(matches!(conf.filter_type, FilterType::Keyfile));
}

#[test]
fn config_errors() {
    // no base_vars table at all
    let doc = parse_doc("[box]\nfile_patterns = ['*_a']\n");
    assert!(matches!(Conf::new(&doc, None), Err(ConfError::NeedBaseVars)));

    // no base value and no home
    let doc = parse_doc("[base_vars]\nunder_dir = '.dots'\n[box]\nfile_patterns = ['*_a']\n");
    assert!(matches!(Conf::new(&doc, None), Err(ConfError::NoHome)));

    // file_patterns of the wrong shape
    let doc = parse_doc("[base_vars]\nunder_dir = '.dots'\n[box]\nfile_patterns = 'oops'\n");
    let home = s("/h");
    assert!(matches!(Conf::new(&doc, Some(&home)), Err(ConfError::BadPatterns)));

    // an array with a non-string member is refused too
    let doc = parse_doc("[base_vars]\nunder_dir = '.dots'\n[box]\nfile_patterns = ['*_a', 3]\n");
    assert!(matches!(Conf::new(&doc, Some(&home)), Err(ConfError::BadPatterns)));
}
