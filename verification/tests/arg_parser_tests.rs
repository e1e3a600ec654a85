use ledbadge::arg_parser::{App, Arg, ArgParseError, ArgValue};

#[test]
fn test_arg_is_matched() {
    let arg = Arg::new(0, 'a', None, "help".to_string());
    assert_eq!(arg.is_matched("-a"), true);
    assert_eq!(arg.is_matched("-b"), false);
}

#[test]
fn test_app_parse() {
    let options = vec![
        Arg::new(0, 'a', None, "option a".to_string()),
        Arg::new(1, 'b', Some("VAL".to_string()), "option b".to_string()),
    ];
    let app = App::new(options);
    let arguments: Vec<String> = vec!["-a", "-b", "B1", "-b", "B2", "-a", "VAL"]
        .into_iter()
        .map(|s| s.to_string())
        .collect();
    let matches = app.parse(&arguments).unwrap();
    assert_eq!(matches.len(), 5);
    assert_eq!(matches[0], ArgValue::Arg { id: 0, value: None });
    assert_eq!(
        matches[1],
        ArgValue::Arg {
            id: 1,
            value: Some("B1".to_string())
        }
    );
    assert_eq!(
        matches[2],
        ArgValue::Arg {
            id: 1,
            value: Some("B2".to_string())
        }
    );
    assert_eq!(matches[3], ArgValue::Arg { id: 0, value: None });
    assert_eq!(
        matches[4],
        ArgValue::Value {
            value: "VAL".to_string()
        }
    );

    let arguments: Vec<String> = vec!["-c", "-a", "-b"]
        .into_iter()
        .map(|s| s.to_string())
        .collect();
    let matches = app.parse(&arguments);
    assert_eq!(
        matches,
        Err(ArgParseError::ParseError {
            argument: "-c".to_string()
        })
    );

    let arguments: Vec<String> = vec!["-a", "-b"]
        .into_iter()
        .map(|s| s.to_string())
        .collect();
    let matches = app.parse(&arguments);
    assert_eq!(matches, Err(ArgParseError::ArgValueMissing { name: 'b' }));

    let arguments: Vec<String> = vec!["-b", "-a"]
        .into_iter()
        .map(|s| s.to_string())
        .collect();
    let matches = app.parse(&arguments).unwrap();
    assert_eq!(matches.len(), 1);
    assert_eq!(
        matches[0],
        ArgValue::Arg {
            id: 1,
            value: Some("-a".to_string())
        }
    ); // this is spec!
}

#[test]
fn test_find_arg() {
    let options = vec![
        Arg::new(0, 'a', None, "option a".to_string()),
        Arg::new(1, 'b', Some("VAL".to_string()), "option b".to_string()),
    ];
    let app = App::new(options);
    let found = app.find_arg(1).unwrap();
    assert_eq!(found.short_name, 'b');
    assert_eq!(found.value_name, Some("VAL".to_string()));
    assert!(app.find_arg(2).is_none());
}
