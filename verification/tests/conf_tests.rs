use nix_weather::nix_conf::{get_value, parse_line, GetValueError, Value};

#[test]
fn parse_assignment() {
    match parse_line("keep-outputs = true") {
        Ok(Some(Value::Assign { key, value })) => {
            assert_eq!(key, "keep-outputs");
            assert_eq!(value, "true");
        }
        _ => panic!("expected an assignment"),
    }
}

#[test]
fn parse_append_normalizes_the_extra_prefix() {
    match parse_line("extra-substituters = https://example.org") {
        Ok(Some(Value::Append { key, value })) => {
            assert_eq!(key, "substituters");
            assert_eq!(value, "https://example.org");
        }
        _ => panic!("expected an append"),
    }
}

#[test]
fn parse_include_lines() {
    match parse_line("include path/to/file") {
        Ok(Some(Value::Include { path })) => assert_eq!(path, "path/to/file"),
        _ => panic!("expected an include"),
    }
    match parse_line("!include path/to/file") {
        Ok(Some(Value::IncludeIfPresent { path })) => assert_eq!(path, "path/to/file"),
        _ => panic!("expected an optional include"),
    }
}

#[test]
fn parse_blank_and_comment_lines() {
    assert!(matches!(parse_line(""), Ok(None)));
    assert!(matches!(parse_line("   \t  "), Ok(None)));
    assert!(matches!(parse_line("# a comment"), Ok(None)));
    match parse_line("key = value # trailing comment") {
        Ok(Some(Value::Assign { key, value })) => {
            assert_eq!(key, "key");
            assert_eq!(value, "value");
        }
        _ => panic!("expected an assignment"),
    }
}

#[test]
fn parse_splits_at_the_first_equals_sign() {
    match parse_line("key = a=b") {
        Ok(Some(Value::Assign { key, value })) => {
            assert_eq!(key, "key");
            assert_eq!(value, "a=b");
        }
        _ => panic!("expected an assignment"),
    }
}

#[test]
fn parse_rejects_unrecognized_lines() {
    match parse_line("  not a setting  ") {
        Err(e) => {
            assert_eq!(e.invalid_line, "not a setting");
            assert_eq!(
                e.message(),
                "configuration contained an invalid line: `not a setting`"
            );
        }
        _ => panic!("expected an error"),
    }
    assert!(parse_line("word").is_err());
}

#[test]
fn get_value_merges_set_and_append() {
    let conf = "key = c\nextra-key = d";
    assert_eq!(get_value(conf, "key").unwrap(), "c d");
}

#[test]
fn get_value_takes_the_last_assignment_as_base() {
    let conf = "key = a\nkey = b\nextra-key = c";
    assert_eq!(get_value(conf, "key").unwrap(), "b c");
}

#[test]
fn get_value_appends_in_order_even_before_the_assignment() {
    let conf = "extra-key = b\nkey = a\nextra-key = c";
    assert_eq!(get_value(conf, "key").unwrap(), "a b c");
}

#[test]
fn get_value_of_a_missing_key_is_empty() {
    let conf = "other = x";
    assert_eq!(get_value(conf, "key").unwrap(), "");
}

#[test]
fn get_value_ignores_other_keys_and_comments() {
    let conf = "# global\nsubstituters = a b\nextra-substituters = c d\ntrusted-users = root";
    assert_eq!(get_value(conf, "substituters").unwrap(), "a b c d");
    assert_eq!(get_value(conf, "trusted-users").unwrap(), "root");
}

#[test]
fn get_value_fails_on_an_unresolved_include() {
    let conf = "key = a\nextra-key = b\ninclude file-2.conf";
    match get_value(conf, "key") {
        Err(GetValueError::UnresolvedInclude { path }) => {
            assert_eq!(path, "file-2.conf");
        }
        _ => panic!("expected an unresolved include"),
    }
    let conf = "!include maybe.conf";
    match get_value(conf, "key") {
        Err(GetValueError::UnresolvedInclude { path }) => {
            assert_eq!(path, "maybe.conf");
            let e = GetValueError::UnresolvedInclude { path };
            assert_eq!(
                e.message(),
                "configuration contained an include to maybe.conf which wasn't resolved"
            );
        }
        _ => panic!("expected an unresolved include"),
    }
}

#[test]
fn get_value_fails_on_an_invalid_line() {
    let conf = "key = a\nbroken line\nkey = b";
    match get_value(conf, "key") {
        Err(GetValueError::Invalid { line }) => {
            assert_eq!(line, "broken line");
        }
        _ => panic!("expected an invalid-line error"),
    }
}

#[test]
fn get_value_on_empty_text_is_empty() {
    assert_eq!(get_value("", "key").unwrap(), "");
}

#[test]
fn append_alone_has_no_leading_space() {
    let conf = "extra-key = x\nextra-key = y";
    assert_eq!(get_value(conf, "key").unwrap(), "x y");
}
