use ultraman::procfile::{parse_procfile, FormationError, Procfile};

fn create_procfile() -> Procfile {
    let mut pf = Procfile::new();
    pf.insert(String::from("app"), String::from("./app.sh"));
    pf.insert(String::from("web"), String::from("./app.sh"));
    pf
}

#[test]
fn test_padding() {
    let pf = create_procfile();
    let result = pf.padding();
    assert_eq!(result, 6);
}

#[test]
fn test_find_by() {
    let pf = create_procfile();
    let result = pf.find_by("web");
    assert_eq!(result.command, String::from("./app.sh"));
    assert_eq!(result.concurrency, 1);
}

#[test]
fn test_process_len() {
    let pf = create_procfile();
    let result = pf.process_len();
    assert_eq!(result, 2);
}

#[test]
fn test_set_concurrency() {
    let formation = "app=2, web=3";
    let mut pf = create_procfile();

    pf.set_concurrency(formation).unwrap();
    assert_eq!(pf.find_by("app").concurrency, 2);
    assert_eq!(pf.find_by("web").concurrency, 3);
}

#[test]
fn test_set_concurrency_all() {
    let formation = "all=10";
    let mut pf = create_procfile();

    pf.set_concurrency(formation).unwrap();
    assert_eq!(pf.find_by("app").concurrency, 10);
    assert_eq!(pf.find_by("web").concurrency, 10);
}

#[test]
#[should_panic(expected = "Do not support formation: hoge=1,fuga=2")]
fn test_set_concurrency_when_panic() {
    let formation = "hoge=1,fuga=2";
    let mut pf = create_procfile();
    if pf.set_concurrency(formation).is_err() {
        panic!("Do not support formation: {}", formation);
    }
}

#[test]
fn test_check_when_truethy() {
    let pf = create_procfile();
    assert_eq!(pf.check(), true);
}

#[test]
fn test_check_when_falsy() {
    let pf = Procfile::new();
    assert_eq!(pf.check(), false);
}

#[test]
fn test_process_names() {
    let pf = create_procfile();
    assert_eq!(pf.process_names(), "app, web");
}

#[test]
fn test_parse_procfile() {
    let text = "\napp: ./app.sh\nweb: ./web.sh\n      \n";
    let result = parse_procfile(text);

    assert!(result.contains("app"));
    assert!(result.contains("web"));
    assert_eq!(result.find_by("app").command, "./app.sh");
    assert_eq!(result.find_by("app").concurrency, 1);
    assert_eq!(result.find_by("web").command, "./web.sh");
    assert_eq!(result.find_by("web").concurrency, 1);
}

#[test]
fn unknown_process_in_formation_is_refused_and_nothing_changes() {
    let mut pf = create_procfile();
    assert_eq!(pf.set_concurrency("app=2,hoge=1"), Err(FormationError::UnknownProcess));
    assert_eq!(pf.find_by("app").concurrency, 1);
    assert_eq!(pf.find_by("web").concurrency, 1);
}

#[test]
fn malformed_formation_is_refused() {
    let mut pf = create_procfile();
    assert_eq!(pf.set_concurrency("app"), Err(FormationError::Malformed));
    assert_eq!(pf.set_concurrency("app=x"), Err(FormationError::Malformed));
    assert_eq!(pf.set_concurrency("app=1,"), Err(FormationError::Malformed));
    assert_eq!(pf.set_concurrency("all=two"), Err(FormationError::Malformed));
    assert_eq!(pf.find_by("app").concurrency, 1);
}

#[test]
fn formation_leaves_unnamed_types_with_zero_and_last_part_wins() {
    let mut pf = create_procfile();
    pf.set_concurrency("web=2,web=5").unwrap();
    assert_eq!(pf.find_by("web").concurrency, 5);
    assert_eq!(pf.find_by("app").concurrency, 0);
    assert_eq!(pf.process_len(), 5);
}

#[test]
fn default_formation_changes_nothing() {
    let mut pf = create_procfile();
    pf.set_concurrency("app=3").unwrap();
    pf.set_concurrency("all=1").unwrap();
    assert_eq!(pf.find_by("app").concurrency, 3);
    assert_eq!(pf.find_by("web").concurrency, 0);
}

#[test]
fn names_are_kept_in_order_and_replaced_in_place() {
    let mut pf = Procfile::new();
    pf.insert(String::from("worker"), String::from("./w.sh"));
    pf.insert(String::from("app"), String::from("./a.sh"));
    pf.insert(String::from("clock"), String::from("./c.sh"));
    pf.insert(String::from("app"), String::from("./b.sh"));
    assert_eq!(pf.process_names(), "app, clock, worker");
    assert_eq!(pf.find_by("app").command, "./b.sh");
    assert_eq!(pf.padding(), 9);
}

#[test]
fn manifest_lines_follow_the_grammar() {
    let text = "web:bundle exec rails s\r\nbad line\n# comment: no\nworker:   \nclock:\njob_1: run it  \n";
    let pf = parse_procfile(text);
    assert_eq!(pf.process_names(), "job_1, web, worker");
    assert_eq!(pf.find_by("web").command, "bundle exec rails s");
    assert_eq!(pf.find_by("worker").command, " ");
    assert_eq!(pf.find_by("job_1").command, "run it  ");
    assert!(!pf.contains("clock"));
}
