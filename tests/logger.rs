use key_logger::logger::join_lines;
use key_logger::{Flush, Logger};

fn file<'a>(flush: &'a Flush, name: &str) -> Option<&'a str> {
    flush
        .files
        .iter()
        .find(|f| f.name == name)
        .map(|f| f.contents.as_str())
}

#[test]
fn scenario_two_keys_flushed() {
    let mut logger = Logger::new("/tmp/applogs");
    logger.log("net", "connected");
    logger.log("net", "disconnected");
    logger.log("db", "query ok");
    let flush = logger.save_logs();
    assert_eq!(flush.files.len(), 2);
    assert_eq!(file(&flush, "net.log.txt"), Some("connected\ndisconnected\n"));
    assert_eq!(file(&flush, "db.log.txt"), Some("query ok\n"));
    assert!(logger.is_empty());
    assert_eq!(logger.save_location(), "/tmp/applogs");
}

#[test]
fn single_key_keeps_append_order() {
    let mut logger = Logger::new("/tmp/applogs");
    for m in ["one", "two", "three", "four"] {
        logger.log("k", m);
    }
    let flush = logger.save_logs_internal("stamp".to_string());
    assert_eq!(flush.directory, "stamp");
    assert_eq!(flush.files.len(), 1);
    assert_eq!(flush.files[0].name, "k.log.txt");
    assert_eq!(flush.files[0].contents, "one\ntwo\nthree\nfour\n");
}

#[test]
fn interleaved_keys_get_separate_files() {
    let mut logger = Logger::new("logs");
    logger.log("a", "a1");
    logger.log("b", "b1");
    logger.log("a", "a2");
    logger.log("b", "b2");
    logger.log("a", "a3");
    let flush = logger.save_logs_internal("s".to_string());
    assert_eq!(flush.files.len(), 2);
    assert_eq!(flush.files[0].name, "a.log.txt");
    assert_eq!(flush.files[0].contents, "a1\na2\na3\n");
    assert_eq!(flush.files[1].name, "b.log.txt");
    assert_eq!(flush.files[1].contents, "b1\nb2\n");
}

#[test]
fn flush_does_not_repeat_lines() {
    let mut logger = Logger::new("logs");
    logger.log("k", "old");
    let first = logger.save_logs_internal("first".to_string());
    assert_eq!(file(&first, "k.log.txt"), Some("old\n"));
    logger.log("k", "new");
    let second = logger.save_logs_internal("second".to_string());
    assert_eq!(second.files.len(), 1);
    assert_eq!(file(&second, "k.log.txt"), Some("new\n"));
}

#[test]
fn flush_of_nothing_has_no_files() {
    let mut logger = Logger::new("logs");
    assert!(logger.is_empty());
    let flush = logger.save_logs_internal("empty".to_string());
    assert_eq!(flush.directory, "empty");
    assert!(flush.files.is_empty());
}

#[test]
fn back_to_back_flushes() {
    let mut logger = Logger::new("logs");
    logger.log("x", "1");
    logger.log("y", "2");
    let first = logger.save_logs_internal("t1".to_string());
    let second = logger.save_logs_internal("t2".to_string());
    assert_eq!(first.files.len(), 2);
    assert_eq!(file(&first, "x.log.txt"), Some("1\n"));
    assert_eq!(file(&first, "y.log.txt"), Some("2\n"));
    assert_eq!(second.directory, "t2");
    assert!(second.files.is_empty());
}

#[test]
fn log_internal_appends_whole_lines() {
    let mut logger = Logger::new("logs");
    logger.log_internal("k".to_string(), "raw".to_string());
    logger.log_internal("k".to_string(), "line\n".to_string());
    let flush = logger.save_logs_internal("s".to_string());
    assert_eq!(flush.files[0].contents, "rawline\n");
}

#[test]
fn empty_message_and_key() {
    let mut logger = Logger::new("logs");
    logger.log("", "");
    logger.log("", "x");
    let flush = logger.save_logs_internal("s".to_string());
    assert_eq!(flush.files.len(), 1);
    assert_eq!(flush.files[0].name, ".log.txt");
    assert_eq!(flush.files[0].contents, "\nx\n");
}

#[test]
fn unicode_lines_kept_verbatim() {
    let mut logger = Logger::new("logs");
    logger.log("ключ", "héllo wörld");
    let flush = logger.save_logs_internal("s".to_string());
    assert_eq!(flush.files[0].name, "ключ.log.txt");
    assert_eq!(flush.files[0].contents, "héllo wörld\n");
}

#[test]
fn many_lines_under_many_keys() {
    let mut logger = Logger::new("logs");
    for i in 0..200 {
        logger.log(&format!("k{}", i % 7), &format!("m{}", i));
    }
    let flush = logger.save_logs_internal("s".to_string());
    assert_eq!(flush.files.len(), 7);
    let k3 = file(&flush, "k3.log.txt").unwrap();
    let expected: String = (0..200)
        .filter(|i| i % 7 == 3)
        .map(|i| format!("m{}\n", i))
        .collect();
    assert_eq!(k3, expected);
    assert!(logger.is_empty());
}

#[test]
fn default_location_is_under_var_log() {
    let logger = Logger::new_default_location("myapp");
    assert_eq!(logger.save_location(), "/var/log/myapp");
    assert!(logger.is_empty());
}

#[test]
fn join_lines_concatenates() {
    let lines = vec!["a\n".to_string(), "bc\n".to_string(), "".to_string(), "d".to_string()];
    assert_eq!(join_lines(&lines), "a\nbc\nd");
    assert_eq!(join_lines(&Vec::new()), "");
}

#[test]
fn save_logs_names_directory_by_local_time() {
    let mut logger = Logger::new("logs");
    logger.log("k", "v");
    let flush = logger.save_logs();
    let d: Vec<char> = flush.directory.chars().collect();
    assert_eq!(d.len(), 19);
    for (i, c) in d.iter().enumerate() {
        match i {
            4 | 7 => assert_eq!(*c, '.'),
            10 => assert_eq!(*c, ' '),
            13 | 16 => assert_eq!(*c, '-'),
            _ => assert!(c.is_ascii_digit()),
        }
    }
    assert_eq!(file(&flush, "k.log.txt"), Some("v\n"));
    assert!(logger.is_empty());
}
