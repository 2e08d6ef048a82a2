use ultraman::decimal::{decimal_text, parse_u32, parse_u64, parse_usize, signed_decimal_text};
use ultraman::opts::{CheckOpts, Config, ConfigValues, RunOpts, StartOpts};
use ultraman::text::{compare_text, split_text, strip_white_space_text, TextOrder};

fn dotconfig() -> Config {
    Config::with_defaults(&ConfigValues {
        procfile_path: Some(String::from("./Procfile")),
        env_path: Some(String::from(".env")),
        formation: Some(String::from("app=1,web=2")),
        timeout: Some(5000),
        is_no_timestamp: Some(true),
        port: Some(6000),
        app: Some(String::from("app-for-runit")),
        log_path: Some(String::from("/var/app/log/ultraman.log")),
        run_path: Some(String::from("/tmp/pids/ultraman.pid")),
        template_path: Some(String::from("../../src/cmd/export/templates/supervisord")),
        user: Some(String::from("root")),
        root_path: Some(String::from("/home/app")),
    })
}

#[test]
fn start_test_merged_opts_when_prefer_dotconfig() {
    let input = StartOpts {
        formation: None,
        env_path: None,
        procfile_path: None,
        port: None,
        timeout: None,
        is_no_timestamp: None,
    };
    let result = input.merged_opts(&dotconfig());
    assert_eq!(result.formation.unwrap(), "app=1,web=2");
    assert_eq!(result.env_path.unwrap(), ".env");
    assert_eq!(result.procfile_path.unwrap(), "./Procfile");
    assert_eq!(result.port.unwrap(), "6000");
    assert_eq!(result.timeout.unwrap(), "5000");
    assert_eq!(result.is_no_timestamp.unwrap(), true);
}

#[test]
fn start_test_merged_opts_when_prefer_input_opts() {
    let input = StartOpts {
        formation: Some("app=2,web=2,server=2".to_string()),
        env_path: Some(String::from("./tmp/.env")),
        procfile_path: Some(String::from("./tmp/Procfile")),
        port: Some("9999".to_string()),
        timeout: Some("1".to_string()),
        is_no_timestamp: Some(false),
    };
    let result = input.merged_opts(&dotconfig());
    assert_eq!(result.formation.unwrap(), "app=2,web=2,server=2");
    assert_eq!(result.env_path.unwrap(), "./tmp/.env");
    assert_eq!(result.procfile_path.unwrap(), "./tmp/Procfile");
    assert_eq!(result.port.unwrap(), "9999");
    assert_eq!(result.timeout.unwrap(), "1");
    assert_eq!(result.is_no_timestamp.unwrap(), false);
}

#[test]
fn test_read_config_do_not_exist() {
    let values = ConfigValues {
        procfile_path: None,
        env_path: None,
        formation: None,
        timeout: None,
        is_no_timestamp: None,
        port: None,
        app: None,
        log_path: None,
        run_path: None,
        template_path: None,
        user: None,
        root_path: None,
    };
    let result = Config::with_defaults(&values);
    assert_eq!(result.procfile_path, "Procfile");
    assert_eq!(result.env_path, ".env");
    assert_eq!(result.formation, "all=1");
    assert_eq!(result.timeout, 5);
    assert_eq!(result.is_no_timestamp, false);
    assert_eq!(result.port, None);
    assert_eq!(result.app, None);
    assert_eq!(result.root_path, None);
}

fn tmp_dotconfig() -> Config {
    Config::with_defaults(&ConfigValues {
        procfile_path: Some(String::from("./tmp/Procfile")),
        env_path: Some(String::from("./tmp/.env")),
        formation: Some(String::from("app=1,web=2")),
        timeout: Some(5000),
        is_no_timestamp: Some(true),
        port: Some(6000),
        app: None,
        log_path: None,
        run_path: None,
        template_path: None,
        user: None,
        root_path: None,
    })
}

#[test]
fn check_test_merged_opts_when_prefer_dotconfig() {
    let result = CheckOpts { procfile_path: None }.merged_opts(&tmp_dotconfig());
    assert_eq!(result.procfile_path.unwrap(), "./tmp/Procfile");
}

#[test]
fn check_test_merged_opts_when_prefer_input_opts() {
    let input_opts = CheckOpts { procfile_path: Some(String::from("./test/Procfile")) };
    let result = input_opts.merged_opts(&tmp_dotconfig());
    assert_eq!(result.procfile_path.unwrap(), "./test/Procfile");
}

#[test]
fn run_test_merged_opts_when_prefer_dotconfig() {
    let input_opts = RunOpts { app_name: String::from("web"), env_path: None, procfile_path: None };
    let result = input_opts.merged_opts(&dotconfig());
    assert_eq!(result.app_name, String::from("web"));
    assert_eq!(result.env_path.unwrap(), ".env");
    assert_eq!(result.procfile_path.unwrap(), "./Procfile");
}

#[test]
fn run_test_merged_opts_when_prefer_input_opts() {
    let input_opts = RunOpts {
        app_name: String::from("web"),
        env_path: Some(String::from("./tmp/.env")),
        procfile_path: Some(String::from("./tmp/Procfile")),
    };
    let result = input_opts.merged_opts(&dotconfig());
    assert_eq!(result.app_name, String::from("web"));
    assert_eq!(result.env_path.unwrap(), "./tmp/.env");
    assert_eq!(result.procfile_path.unwrap(), "./tmp/Procfile");
}

#[test]
fn decimal_text_reads_and_writes_numbers() {
    assert_eq!(parse_u32("6000"), Some(6000));
    assert_eq!(parse_u32("+7"), Some(7));
    assert_eq!(parse_u32("4294967295"), Some(u32::MAX));
    assert_eq!(parse_u32("4294967296"), None);
    assert_eq!(parse_u32(""), None);
    assert_eq!(parse_u32("+"), None);
    assert_eq!(parse_u32("-1"), None);
    assert_eq!(parse_u32(" 1"), None);
    assert_eq!(parse_usize("10"), Some(10));
    assert_eq!(parse_u64("18446744073709551615"), Some(u64::MAX));
    assert_eq!(parse_u64("18446744073709551616"), None);
    assert_eq!(decimal_text(0), "0");
    assert_eq!(decimal_text(6001), "6001");
    assert_eq!(decimal_text(u64::MAX), "18446744073709551615");
    assert_eq!(signed_decimal_text(-42), "-42");
    assert_eq!(signed_decimal_text(i64::MIN), "-9223372036854775808");
}

#[test]
fn text_helpers_split_strip_and_order() {
    assert_eq!(split_text("a=1=2", '='), vec!["a", "1", "2"]);
    assert_eq!(split_text("", ','), vec![""]);
    assert_eq!(strip_white_space_text(" a=1,\t b=2\u{3000}"), "a=1,b=2");
    assert_eq!(compare_text("app", "web"), TextOrder::Less);
    assert_eq!(compare_text("web", "web"), TextOrder::Equal);
    assert_eq!(compare_text("web2", "web"), TextOrder::Greater);
}
