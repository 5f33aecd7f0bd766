use collector::compile::execute::stat_output::{
    classify_stat_line, is_self_profile_file, parse_stat_output, self_profile_source, yields_stats,
    StatLine,
};

#[test]
fn directive_lines() {
    assert_eq!(
        classify_stat_line("!self-profile-dir:/tmp/prof", false),
        StatLine::SelfProfileDir("/tmp/prof".to_string())
    );
    assert_eq!(
        classify_stat_line("!self-profile-crate:regex", true),
        StatLine::SelfProfileCrate("regex".to_string())
    );
    assert_eq!(
        classify_stat_line("!counters-file:/tmp/c.etl", true),
        StatLine::CountersFile("/tmp/c.etl".to_string())
    );
    assert_eq!(classify_stat_line("!wall-time:1.25", true), StatLine::WallTime("1.25".to_string()));
}

#[test]
fn perf_lines_only_when_asked() {
    assert_eq!(classify_stat_line("123;;instructions:u;1;100.00", false), StatLine::Skipped);
    assert_eq!(
        classify_stat_line("123;;instructions:u;1;100.00", true),
        StatLine::Counter { name: "instructions:u".to_string(), count: "123".to_string() }
    );
}

#[test]
fn perf_line_kinds() {
    assert_eq!(classify_stat_line("1;2;3", true), StatLine::Unhandled);
    assert_eq!(classify_stat_line("<not counted>;;cycles:u;0;0.00", true), StatLine::NotCounted);
    assert_eq!(classify_stat_line("<not supported>;;cycles:u;0;0.00", true), StatLine::NotCounted);
    assert_eq!(classify_stat_line(" ;;cycles:u;0;0.00", true), StatLine::NotCounted);
    assert_eq!(
        classify_stat_line("42;;cycles:u;0;75.50", true),
        StatLine::PartiallyActive { name: "cycles:u".to_string(), pct: "75.50".to_string() }
    );
    assert_eq!(
        classify_stat_line(" 99 ;; cpu_core/instructions:u/ ;1; 100.00 ", true),
        StatLine::Counter { name: "instructions:u".to_string(), count: "99".to_string() }
    );
}

#[test]
fn whole_output_in_order() {
    let out = "!wall-time:0.5\n10;;task-clock;1;100.00\r\n\n1;2\n";
    assert_eq!(
        parse_stat_output(out, true),
        vec![
            StatLine::WallTime("0.5".to_string()),
            StatLine::Counter { name: "task-clock".to_string(), count: "10".to_string() },
            StatLine::Unhandled,
            StatLine::Unhandled,
        ]
    );
    assert!(parse_stat_output("", true).is_empty());
}

#[test]
fn self_profile_source_takes_last_lines() {
    let lines = parse_stat_output(
        "!self-profile-dir:/a\n!self-profile-crate:x\n!self-profile-dir:/b\n1;;c;1;100.0\n",
        true,
    );
    assert_eq!(self_profile_source(&lines), (Some("/b".to_string()), Some("x".to_string())));
    assert_eq!(self_profile_source(&[]), (None, None));
    assert!(yields_stats(&lines));
    let no_stats = parse_stat_output("!self-profile-dir:/a\n<not counted>;;c;0;0\n", true);
    assert!(!yields_stats(&no_stats));
    assert!(yields_stats(&parse_stat_output("!wall-time:0.1", false)));
}

#[test]
fn self_profile_file_names() {
    assert!(is_self_profile_file("regex-12345.mm_profdata", "regex"));
    assert!(!is_self_profile_file("regex-12345.events", "regex"));
    assert!(!is_self_profile_file("syn-1.mm_profdata", "regex"));
}
