use rase::config::{
    config_from_settings, config_from_str, default_setting, get_config_param_arr, ConfigErrorKind, Setting,
};

#[test]
fn defaults_fill_in() {
    let c = config_from_str("static_dir = '/srv'\nstatic_url = '/files'\n").unwrap();
    assert_eq!(c.address, "127.0.0.1");
    assert_eq!(c.port, "8000");
    assert_eq!(c.address_full, "127.0.0.1:8000");
    assert_eq!(c.thread_count, 3);
    assert_eq!(c.static_dir, "/srv");
    assert_eq!(c.static_url, "/files/");
    assert_eq!(c.gzip_max_size, 1048576);
    assert_eq!(c.gzip_file_types, vec!["js", "txt", "html", "css"]);
}

#[test]
fn given_values_win() {
    let c = config_from_str(
        "address = '0.0.0.0'\nport = '9'\nthread_count = 8\nstatic_dir = 'd'\nstatic_url = '/s/'\ngzip_file_types = ['md']\n",
    )
    .unwrap();
    assert_eq!(c.address_full, "0.0.0.0:9");
    assert_eq!(c.thread_count, 8);
    assert_eq!(c.static_url, "/s/");
    assert_eq!(c.gzip_file_types, vec!["md"]);
}

#[test]
fn config_errors() {
    let e = config_from_str("static_url = '/s/'\n").unwrap_err();
    assert_eq!(e.kind, ConfigErrorKind::Required);
    assert_eq!(e.param, "static_dir");
    let e = config_from_str("static_dir = 'd'\nstatic_url = '/s/'\nthread_count = 'x'\n").unwrap_err();
    assert_eq!(e.kind, ConfigErrorKind::NotANumber);
    let e = config_from_str("static_dir = 'd'\nstatic_url = '/s/'\nthread_count = -1\n").unwrap_err();
    assert_eq!(e.kind, ConfigErrorKind::OutOfRange);
    let e = config_from_str("static_dir = 1\nstatic_url = '/s/'\n").unwrap_err();
    assert_eq!(e.kind, ConfigErrorKind::NotAString);
    let e = config_from_str("static_dir = 'd'\nstatic_url = '/s/'\ngzip_file_types = 'js'\n").unwrap_err();
    assert_eq!(e.kind, ConfigErrorKind::NotAnArray);
    let e = config_from_str("static_dir = 'd'\nstatic_url = '/s/'\ngzip_file_types = [1]\n").unwrap_err();
    assert_eq!(e.kind, ConfigErrorKind::NotStrings);
    let e = config_from_str("static_dir = 'd'\nstatic_url = '/s/'\ngzip_file_types = ['']\n").unwrap_err();
    assert_eq!(e.kind, ConfigErrorKind::EmptyString);
    let e = config_from_str("this is not toml").unwrap_err();
    assert_eq!(e.kind, ConfigErrorKind::Parse);
}

#[test]
fn only_required_settings_take_every_default() {
    let c = config_from_str("static_dir = '/srv/static'\nstatic_url = '/static'\n").unwrap();
    assert_eq!(c.address, "127.0.0.1");
    assert_eq!(c.port, "8000");
    assert_eq!(c.address_full, "127.0.0.1:8000");
    assert_eq!(c.thread_count, 3);
    assert_eq!(c.test_param, 5);
    assert_eq!(c.static_dir, "/srv/static");
    assert_eq!(c.static_url, "/static/");
    assert_eq!(c.gzip_min_size, 1024);
    assert_eq!(c.gzip_max_size, 1048576);
    assert_eq!(c.gzip_file_types, vec!["js", "txt", "html", "css"]);
}

#[test]
fn settings_read_directly() {
    let u = vec![
        ("static_url".to_string(), Setting::Str("/s".to_string())),
        ("static_dir".to_string(), Setting::Str("/d".to_string())),
        ("port".to_string(), Setting::Str("81".to_string())),
        ("gzip_min_size".to_string(), Setting::Int(7)),
    ];
    let c = config_from_settings(&u).unwrap();
    assert_eq!(c.address_full, "127.0.0.1:81");
    assert_eq!(c.static_url, "/s/");
    assert_eq!(c.gzip_min_size, 7);
    let items = Setting::Items(vec![Some("b".to_string()), Some("a".to_string())]);
    let d = default_setting("gzip_file_types");
    assert_eq!(get_config_param_arr(d.as_ref(), Some(&items), "t", false).unwrap(), vec!["b", "a"]);
    assert_eq!(get_config_param_arr(d.as_ref(), None, "t", false).unwrap(), vec!["js", "txt", "html", "css"]);
    let e = get_config_param_arr(d.as_ref(), None, "t", true).unwrap_err();
    assert_eq!(e.kind, ConfigErrorKind::Required);
    assert!(default_setting("nothing").is_none());
    let e = config_from_settings(&vec![("static_dir".to_string(), Setting::Other)]).unwrap_err();
    assert_eq!(e.kind, ConfigErrorKind::NotAString);
    assert_eq!(e.param, "static_dir");
}
