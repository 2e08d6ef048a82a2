use ultraman::log::{error, output, DisplayOpts, LogOpt};
use ultraman::output::{Output, Routed, StreamWatch};
use ultraman::stream::{frame_stream, LineAssembler, PipeError, PipedLine, ReadOutcome};

#[test]
fn test_new() {
    let events = frame_stream(&b"Test\n".to_vec());
    match &events[0] {
        Ok(PipedLine::Line(line)) => assert_eq!(line, "Test"),
        other => panic!("unexpected event {:?}", other),
    }
    assert!(matches!(events[1], Ok(PipedLine::EOF)));
}

#[test]
fn test_early_process_termination() {
    let events = frame_stream(&b"1\n2\n3\n".to_vec());
    let mut lines_received = 0;
    for event in events.iter() {
        match event {
            Ok(PipedLine::Line(_)) => lines_received += 1,
            Ok(PipedLine::EOF) => break,
            Err(_) => break,
        }
    }
    assert!(lines_received <= 3);
    assert_eq!(lines_received, 3);
}

#[test]
fn every_terminated_line_comes_out_once_in_order_then_one_end() {
    let events = frame_stream(&b"alpha\n\nbeta gamma\ntail".to_vec());
    assert_eq!(events.len(), 4);
    let texts: Vec<String> = events
        .iter()
        .filter_map(|e| match e {
            Ok(PipedLine::Line(s)) => Some(s.clone()),
            _ => None,
        })
        .collect();
    assert_eq!(texts, vec!["alpha", "", "beta gamma"]);
    assert!(matches!(events[3], Ok(PipedLine::EOF)));
}

#[test]
fn non_utf8_line_is_reported_and_stream_goes_on() {
    let events = frame_stream(&vec![0xff, 0xfe, b'\n', b'o', b'k', b'\n']);
    assert!(matches!(events[0], Err(PipeError::NotUtf8(_))));
    assert!(matches!(&events[1], Ok(PipedLine::Line(s)) if s == "ok"));
    assert!(matches!(events[2], Ok(PipedLine::EOF)));

    let router = Output::new(0, DisplayOpts { padding: 6, is_timestamp: false });
    let mut watch = StreamWatch::new();
    let mut printed = vec![];
    let mut reported = 0;
    for event in events {
        match watch.route(0, Some(event)) {
            Routed::Print(s) => printed.push(router.line("web.1", &s).text),
            Routed::Report(e) => {
                reported += 1;
                let text = match e {
                    PipeError::NotUtf8(inner) => format!("{:?}", inner),
                    PipeError::IO(inner) => format!("{:?}", inner),
                };
                printed.push(router.error_line("web.1", &text).text);
            }
            Routed::Closed => {}
        }
    }
    assert_eq!(reported, 1);
    assert!(printed[0].starts_with("web.1  | error: FromUtf8Error"));
    assert_eq!(printed[1], "web.1  | ok");
    assert!(!watch.stdout_open);
    assert!(watch.stderr_open);
    assert!(!watch.is_done());
    assert!(matches!(watch.route(1, None), Routed::Closed));
    assert!(watch.is_done());
}

#[test]
fn read_error_is_reported_once_then_the_stream_ends() {
    let mut framer = LineAssembler::new();
    assert!(framer.step(ReadOutcome::Byte(b'x')).is_empty());
    let failed = framer.step(ReadOutcome::Failed(std::io::Error::new(std::io::ErrorKind::Other, "broken")));
    assert_eq!(failed.len(), 2);
    assert!(matches!(failed[0], Err(PipeError::IO(_))));
    assert!(matches!(failed[1], Ok(PipedLine::EOF)));
    assert!(framer.is_ended());
    assert!(framer.step(ReadOutcome::Byte(b'\n')).is_empty());
    assert!(framer.step(ReadOutcome::End).is_empty());
}

#[test]
fn log_lines_are_padded_and_coloured_by_type() {
    let opt = LogOpt { is_color: true, padding: 10, is_timestamp: true };
    let line = output("output 1", "coloring", Some(13), &opt);
    assert_eq!(line.text, "output 1   | coloring");
    assert_eq!(line.color, Some(1));
    assert!(line.timestamp);

    let plain = LogOpt { is_color: false, padding: 3, is_timestamp: false };
    let line = output("system", "exit 0", None, &plain);
    assert_eq!(line.text, "system | exit 0");
    assert_eq!(line.color, None);

    let err = error("test_app", "test error", None, &plain);
    assert_eq!(err.text, "test_app  | error: test error");
    let err = error("app", "e", Some(5), &opt);
    assert_eq!(err.text, "app   | error: e");
    assert_eq!(err.color, Some(0));
}

#[test]
fn router_takes_the_options_of_its_type() {
    let defaults = DisplayOpts::default();
    assert_eq!(defaults.padding, 0);
    assert!(defaults.is_timestamp);
    let router = Output::new(4, DisplayOpts { padding: 8, is_timestamp: false });
    assert_eq!(router.index, 4);
    assert!(router.opts.is_color);
    assert_eq!(router.opts.padding, 8);
    assert!(!router.opts.is_timestamp);
    assert_eq!(router.line("web.1", "hi").color, Some(4));
}

#[test]
fn mod_test_output_when_coloring() {
    let opt = LogOpt { is_color: true, padding: 10, is_timestamp: true };
    let line = output("output 1", "coloring", Some(0), &opt);
    assert_eq!(line.text, "output 1   | coloring");
    assert_eq!(line.color, Some(0));
    assert!(line.timestamp);
}

#[test]
fn mod_test_output_when_not_coloring() {
    let opt = LogOpt { is_color: false, padding: 10, is_timestamp: true };
    let line = output("output 1", "not coloring", Some(0), &opt);
    assert_eq!(line.text, "output 1   | not coloring");
    assert_eq!(line.color, None);
}

#[test]
fn mod_test_error() {
    let router = Output::new(0, DisplayOpts { padding: 10, is_timestamp: true });
    let line = router.error_line("test_app", "TestError(\"test error\")");
    assert_eq!(line.text, "test_app   | error: TestError(\"test error\")");
    assert_eq!(line.color, Some(0));
}
