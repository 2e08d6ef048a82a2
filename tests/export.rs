use ultraman::export::{
    app_name, command_args, command_args_str, env_without_port, export_format, log_path,
    replace_env_for_supervisord, run_path, service_name, supervisord_environment, username,
    ExportFormat,
};
use ultraman::opts::{Config, ConfigValues, ExportOpts};

fn bare_opts(app: Option<&str>) -> ExportOpts {
    ExportOpts {
        format: String::from("upstart"),
        location: String::from("./test/location"),
        app: app.map(String::from),
        formation: None,
        log_path: None,
        run_path: None,
        port: None,
        template_path: None,
        user: None,
        env_path: None,
        procfile_path: None,
        root_path: None,
        timeout: None,
    }
}

fn dotconfig() -> Config {
    Config::with_defaults(&ConfigValues {
        procfile_path: Some(String::from("./tmp/Procfile")),
        env_path: Some(String::from("./tmp/.env")),
        formation: Some(String::from("app=1,web=2")),
        timeout: Some(5000),
        is_no_timestamp: Some(true),
        port: Some(6000),
        app: Some(String::from("app-for-runit")),
        log_path: Some(String::from("/var/app/log/ultraman.log")),
        run_path: Some(String::from("/tmp/pids/ultraman.pid")),
        template_path: Some(String::from("../../src/cmd/export/templates/supervisord")),
        user: Some(String::from("root")),
        root_path: Some(String::from("/home/app")),
    })
}

#[test]
fn mod_test_merged_opts_when_prefer_dotconfig() {
    let input_opts = bare_opts(None);
    let result = input_opts.merged_opts(&dotconfig());

    assert_eq!(result.format, "upstart");
    assert_eq!(result.location, "./test/location");
    assert_eq!(result.formation.unwrap(), "app=1,web=2");
    assert_eq!(result.env_path.unwrap(), "./tmp/.env");
    assert_eq!(result.procfile_path.unwrap(), "./tmp/Procfile");
    assert_eq!(result.port.unwrap(), "6000");
    assert_eq!(result.timeout.unwrap(), "5000");
    assert_eq!(result.app.unwrap(), "app-for-runit");
    assert_eq!(result.log_path.unwrap(), "/var/app/log/ultraman.log");
    assert_eq!(result.root_path.unwrap(), "/home/app");
    assert_eq!(result.run_path.unwrap(), "/tmp/pids/ultraman.pid");
    assert_eq!(result.template_path.unwrap(), "../../src/cmd/export/templates/supervisord");
    assert_eq!(result.user.unwrap(), "root");
}

#[test]
fn mod_test_merged_opts_when_prefer_input_opts() {
    let input_opts = ExportOpts {
        format: String::from("upstart"),
        location: String::from("./test/location"),
        formation: Some("app=2,web=2,server=2".to_string()),
        env_path: Some(String::from("./test/.env")),
        procfile_path: Some(String::from("./test/Procfile")),
        port: Some("9999".to_string()),
        timeout: Some("9999".to_string()),
        app: Some("app".to_string()),
        log_path: Some(String::from("./test/log")),
        root_path: Some(String::from("./test/root")),
        run_path: Some(String::from("./test/run")),
        template_path: Some(String::from("./test/template")),
        user: Some("user".to_string()),
    };
    let result = input_opts.merged_opts(&dotconfig());

    assert_eq!(result.format, "upstart");
    assert_eq!(result.location, "./test/location");
    assert_eq!(result.formation.unwrap(), "app=2,web=2,server=2");
    assert_eq!(result.env_path.unwrap(), "./test/.env");
    assert_eq!(result.procfile_path.unwrap(), "./test/Procfile");
    assert_eq!(result.port.unwrap(), "9999");
    assert_eq!(result.timeout.unwrap(), "9999");
    assert_eq!(result.app.unwrap(), "app");
    assert_eq!(result.log_path.unwrap(), "./test/log");
    assert_eq!(result.root_path.unwrap(), "./test/root");
    assert_eq!(result.run_path.unwrap(), "./test/run");
    assert_eq!(result.template_path.unwrap(), "./test/template");
    assert_eq!(result.user.unwrap(), "user");
}

#[test]
fn formats_are_recognised_by_name() {
    assert_eq!(export_format("upstart"), Some(ExportFormat::Upstart));
    assert_eq!(export_format("systemd"), Some(ExportFormat::Systemd));
    assert_eq!(export_format("supervisord"), Some(ExportFormat::Supervisord));
    assert_eq!(export_format("runit"), Some(ExportFormat::Runit));
    assert_eq!(export_format("launchd"), Some(ExportFormat::Launchd));
    assert_eq!(export_format("daemon"), Some(ExportFormat::Daemon));
    assert_eq!(export_format("initd"), None);
}

#[test]
fn paths_and_user_default_to_the_app_name() {
    let opts = bare_opts(None);
    assert_eq!(app_name(&opts), "app");
    assert_eq!(log_path(&opts), "/var/log/app");
    assert_eq!(run_path(&opts), "/var/run/app");
    assert_eq!(username(&opts), "app");
    let named = bare_opts(Some("shop"));
    assert_eq!(log_path(&named), "/var/log/shop");
    assert_eq!(username(&named), "shop");
    assert_eq!(service_name("shop", "web", 2), "shop-web-2");
}

#[test]
fn port_is_left_out_of_the_shared_environment() {
    let env = vec![
        (String::from("A"), String::from("1")),
        (String::from("PORT"), String::from("5000")),
        (String::from("B"), String::from("2")),
    ];
    let rest: Vec<(String, String)> = env_without_port(&env).into_iter().map(|p| (p.key, p.value)).collect();
    assert_eq!(rest, vec![(String::from("A"), String::from("1")), (String::from("B"), String::from("2"))]);
}

#[test]
fn commands_split_into_words() {
    assert_eq!(command_args("./app.sh -p 5000"), vec!["./app.sh", "-p", "5000"]);
    assert_eq!(command_args_str("./app.sh -p 5000"), " -- -p 5000");
    assert_eq!(command_args_str("./app.sh"), "");
}

#[test]
fn supervisord_reads_variables_in_its_own_form() {
    assert_eq!(
        replace_env_for_supervisord("rails s -p $PORT -e ${RAILS_ENV}"),
        "rails s -p %(ENV_PORT)s -e %(ENV_RAILS_ENV)s"
    );
    assert_eq!(replace_env_for_supervisord("cost $ 5 ${{X}}}!"), "cost $ 5 %(ENV_X)s!");
    assert_eq!(replace_env_for_supervisord("${}"), "${}");
}

#[test]
fn supervisord_environment_quotes_values() {
    let env = vec![
        (String::from("A"), String::from("b c")),
        (String::from("B"), String::new()),
        (String::from("PORT"), String::from("5000")),
    ];
    assert_eq!(supervisord_environment(&env), "A=\"b\\ c\",B=\"''\",PORT=\"5000\"");
}
