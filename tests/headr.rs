use linetools::headr::{head, lines_prefix_len, Config, ConfigError, DEFAULT_LINES};

#[test]
fn head_defaults() {
    let c = Config::new(vec![], None, None).unwrap();
    assert_eq!(c.lines, DEFAULT_LINES);
    assert_eq!(c.lines, 10);
    assert_eq!(c.bytes, None);
    assert_eq!(c.files, vec!["-".to_string()]);
}

#[test]
fn head_counts_are_parsed() {
    let c = Config::new(vec!["a".to_string()], Some("3"), Some("5")).unwrap();
    assert_eq!(c.lines, 3);
    assert_eq!(c.bytes, Some(5));
}

#[test]
fn head_invalid_lines_names_the_text() {
    assert_eq!(Config::new(vec![], Some("foo"), None).err(), Some(ConfigError::InvalidLines("foo".to_string())));
    assert_eq!(Config::new(vec![], Some("0"), Some("bar")).err(), Some(ConfigError::InvalidLines("0".to_string())));
}

#[test]
fn head_invalid_bytes_names_the_text() {
    assert_eq!(Config::new(vec![], None, Some("0")).err(), Some(ConfigError::InvalidBytes("0".to_string())));
    assert_eq!(Config::new(vec![], Some("2"), Some("x1")).err(), Some(ConfigError::InvalidBytes("x1".to_string())));
}

#[test]
fn head_takes_leading_lines() {
    let c = Config::new(vec![], Some("2"), None).unwrap();
    assert_eq!(head(&c, &b"one\ntwo\nthree\n".to_vec()), b"one\ntwo\n".to_vec());
    assert_eq!(head(&c, &b"one\n".to_vec()), b"one\n".to_vec());
    assert_eq!(head(&c, &b"one\n\nthree".to_vec()), b"one\n\n".to_vec());
    assert_eq!(head(&c, &b"no newline".to_vec()), b"no newline".to_vec());
    assert_eq!(head(&c, &Vec::new()), Vec::<u8>::new());
}

#[test]
fn head_bytes_take_precedence() {
    let c = Config::new(vec![], Some("1"), Some("5")).unwrap();
    assert_eq!(head(&c, &b"ab\ncdefg\n".to_vec()), b"ab\ncd".to_vec());
    assert_eq!(head(&c, &b"abc".to_vec()), b"abc".to_vec());
}

#[test]
fn lines_prefix_positions() {
    assert_eq!(lines_prefix_len(&b"a\nb\nc".to_vec(), 1), 2);
    assert_eq!(lines_prefix_len(&b"a\nb\nc".to_vec(), 2), 4);
    assert_eq!(lines_prefix_len(&b"a\nb\nc".to_vec(), 3), 5);
}
