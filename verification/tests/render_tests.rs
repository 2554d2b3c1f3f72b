use logcfg::render::{render, Event, Field, Layout, ResolvedJson, Span};
use logcfg::timefmt::{ClockSample, FormatTime, TimePolicy};
use logcfg::{Format, Formatter, Json, Level, Timer};

fn sample_event() -> Event {
    Event {
        message: "connection established".to_string(),
        level: Level::Info,
        target: "my_app::net".to_string(),
        thread_id: 7,
        thread_name: "worker-1".to_string(),
        file: Some("src/net.rs".to_string()),
        line: Some(42),
        fields: vec![
            Field {
                name: "peer".to_string(),
                value: "10.0.0.1".to_string(),
            },
            Field {
                name: "attempt".to_string(),
                value: "3".to_string(),
            },
        ],
    }
}

fn sample_spans() -> Vec<Span> {
    vec![
        Span {
            name: "serve".to_string(),
            fields: vec![Field {
                name: "port".to_string(),
                value: "8080".to_string(),
            }],
        },
        Span {
            name: "accept".to_string(),
            fields: vec![],
        },
    ]
}

fn timestamp_for(timer: &Timer) -> Option<String> {
    let ft = FormatTime::from_timer(timer.clone());
    match ft.policy {
        // the host renders local civil time and custom patterns
        TimePolicy::LocalDefault
        | TimePolicy::LocalPattern(_)
        | TimePolicy::UtcPattern(_) => Some("2024-02-29T12:00:00.000000+01:00".to_string()),
        _ => ft.render(&ClockSample {
            epoch_secs: 1709208000,
            epoch_micros: 123456,
            uptime_secs: 2,
            uptime_micros: 26,
        }),
    }
}

/// Every layout crossed with every time policy: the output carries exactly
/// what the toggles ask for.
#[test]
fn all_layouts_and_time_policies_respect_toggles() {
    let formatters = [
        Formatter::Full,
        Formatter::Compact,
        Formatter::Pretty,
        Formatter::Json(None),
    ];
    let timers = [
        Timer::Disabled,
        Timer::Local(None),
        Timer::Utc(None),
        Timer::System,
        Timer::Uptime,
    ];
    let ev = sample_event();
    let spans = sample_spans();
    for formatter in &formatters {
        for timer in &timers {
            let ts = timestamp_for(timer);

            // target shown by default
            let on = Format {
                formatter: Some(formatter.clone()),
                timer: Some(timer.clone()),
                ansi: Some(false),
                ..Format::default()
            }
            .resolve();
            let shown = render(&on, &ts, &ev, &spans);
            assert!(
                shown.contains("my_app::net"),
                "{:?}/{:?}: missing target in {:?}",
                formatter,
                timer,
                shown
            );
            assert!(shown.contains("connection established"));
            assert!(shown.contains("peer"));
            assert!(shown.contains("10.0.0.1"));
            // thread metadata is hidden by default
            assert!(!shown.contains("worker-1"));
            if let Some(t) = &ts {
                assert!(shown.contains(t.as_str()));
            }

            // with target switched off, the target string never appears
            let off = Format {
                formatter: Some(formatter.clone()),
                timer: Some(timer.clone()),
                ansi: Some(false),
                target: Some(false),
                file: Some(false),
                line_number: Some(false),
                ..Format::default()
            }
            .resolve();
            let hidden = render(&off, &ts, &ev, &spans);
            assert!(
                !hidden.contains("my_app::net"),
                "{:?}/{:?}: unexpected target in {:?}",
                formatter,
                timer,
                hidden
            );

            // with the thread toggles on, both pieces appear
            let threads = Format {
                formatter: Some(formatter.clone()),
                timer: Some(timer.clone()),
                ansi: Some(false),
                thread_ids: Some(true),
                thread_names: Some(true),
                ..Format::default()
            }
            .resolve();
            let with_threads = render(&threads, &ts, &ev, &spans);
            assert!(with_threads.contains("worker-1"));
            assert!(with_threads.contains('7'));

            // every record is one newline-terminated unit
            assert!(shown.ends_with('\n'));
        }
    }
}

#[test]
fn level_toggle_and_padding() {
    let ev = sample_event();
    let spans = Vec::new();
    let full = Format {
        ansi: Some(false),
        timer: Some(Timer::Disabled),
        ..Format::default()
    }
    .resolve();
    let line = render(&full, &None, &ev, &spans);
    // the spacious layout pads the level to a fixed width
    assert!(line.starts_with(" INFO "), "got {:?}", line);

    let compact = Format {
        ansi: Some(false),
        timer: Some(Timer::Disabled),
        formatter: Some(Formatter::Compact),
        ..Format::default()
    }
    .resolve();
    let line = render(&compact, &None, &ev, &spans);
    assert!(line.starts_with("INFO "), "got {:?}", line);

    let unlevelled = Format {
        ansi: Some(false),
        timer: Some(Timer::Disabled),
        level: Some(false),
        ..Format::default()
    }
    .resolve();
    let line = render(&unlevelled, &None, &ev, &spans);
    assert!(!line.contains("INFO"));
}

#[test]
fn ansi_wraps_level_in_color() {
    let ev = sample_event();
    let spans = Vec::new();
    let colored = Format {
        ansi: Some(true),
        timer: Some(Timer::Disabled),
        ..Format::default()
    }
    .resolve();
    let line = render(&colored, &None, &ev, &spans);
    assert!(line.contains("\u{1b}[32m INFO\u{1b}[0m"), "got {:?}", line);
}

#[test]
fn full_line_exact() {
    let full = Format {
        ansi: Some(false),
        ..Format::default()
    }
    .resolve();
    assert_eq!(full.layout, Layout::Full);
    let ev = Event {
        message: "ready".to_string(),
        level: Level::Warn,
        target: "app".to_string(),
        thread_id: 1,
        thread_name: "main".to_string(),
        file: None,
        line: None,
        fields: vec![Field {
            name: "k".to_string(),
            value: "v".to_string(),
        }],
    };
    let ts = Some("2024-02-29T12:00:00.123456+00:00".to_string());
    let line = render(&full, &ts, &ev, &Vec::new());
    assert_eq!(
        line,
        "2024-02-29T12:00:00.123456+00:00  WARN app: ready k=v\n"
    );
}

#[test]
fn pretty_is_multi_line() {
    let pretty = Format {
        ansi: Some(false),
        formatter: Some(Formatter::Pretty),
        timer: Some(Timer::Disabled),
        ..Format::default()
    }
    .resolve();
    let ev = sample_event();
    let text = render(&pretty, &None, &ev, &Vec::new());
    let lines: Vec<&str> = text.lines().collect();
    assert_eq!(lines[0], "INFO connection established");
    assert_eq!(lines[1], "    target: my_app::net");
    assert_eq!(lines[2], "    peer=10.0.0.1");
    assert_eq!(lines[3], "    attempt=3");
    assert_eq!(lines[4], "    at src/net.rs:42");
}

/// A flattened structured record parses, and its top-level keys are the
/// event's own field names with no nested wrapper; without flattening the
/// fields sit under one `fields` key.
#[test]
fn json_flatten_round_trip() {
    let ev = sample_event();
    let spans = sample_spans();
    let flattened = Format {
        formatter: Some(Formatter::Json(Some(Json {
            flatten_event: Some(true),
            current_span: Some(true),
            span_list: Some(true),
        }))),
        timer: Some(Timer::Utc(None)),
        thread_ids: Some(true),
        thread_names: Some(true),
        file: Some(true),
        line_number: Some(true),
        ..Format::default()
    }
    .resolve();
    let ts = Some("2024-02-29T12:00:00.000000+00:00".to_string());
    let text = render(&flattened, &ts, &ev, &spans);
    assert!(text.ends_with('\n'));
    let value: serde_json::Value = serde_json::from_str(text.trim_end()).unwrap();
    let obj = value.as_object().unwrap();
    assert_eq!(obj["message"], "connection established");
    assert_eq!(obj["peer"], "10.0.0.1");
    assert_eq!(obj["attempt"], "3");
    assert!(!obj.contains_key("fields"));
    assert_eq!(obj["level"], "INFO");
    assert_eq!(obj["target"], "my_app::net");
    assert_eq!(obj["timestamp"], "2024-02-29T12:00:00.000000+00:00");
    assert_eq!(obj["threadId"], serde_json::Value::from(7u64));
    assert_eq!(obj["threadName"], "worker-1");
    assert_eq!(obj["filename"], "src/net.rs");
    assert_eq!(obj["line_number"], serde_json::Value::from(42u64));
    assert_eq!(obj["span"]["name"], "accept");
    let span_list = obj["spans"].as_array().unwrap();
    assert_eq!(span_list.len(), 2);
    assert_eq!(span_list[0]["name"], "serve");
    assert_eq!(span_list[0]["port"], "8080");

    let nested = Format {
        formatter: Some(Formatter::Json(Some(Json {
            flatten_event: Some(false),
            current_span: Some(false),
            span_list: Some(false),
        }))),
        timer: Some(Timer::Disabled),
        ..Format::default()
    }
    .resolve();
    let text = render(&nested, &None, &ev, &spans);
    let value: serde_json::Value = serde_json::from_str(text.trim_end()).unwrap();
    let obj = value.as_object().unwrap();
    assert!(!obj.contains_key("peer"));
    assert_eq!(obj["fields"]["message"], "connection established");
    assert_eq!(obj["fields"]["peer"], "10.0.0.1");
    assert!(!obj.contains_key("span"));
    assert!(!obj.contains_key("spans"));
}

#[test]
fn json_escapes_special_characters() {
    let cfg = Format {
        formatter: Some(Formatter::Json(Some(Json {
            flatten_event: Some(true),
            current_span: Some(false),
            span_list: Some(false),
        }))),
        timer: Some(Timer::Disabled),
        target: Some(false),
        ..Format::default()
    }
    .resolve();
    let ev = Event {
        message: "a \"quoted\" \\ back\nslash\ttab \u{1} control".to_string(),
        level: Level::Debug,
        target: String::new(),
        thread_id: 0,
        thread_name: String::new(),
        file: None,
        line: None,
        fields: vec![],
    };
    let text = render(&cfg, &None, &ev, &Vec::new());
    let value: serde_json::Value = serde_json::from_str(text.trim_end()).unwrap();
    assert_eq!(
        value["message"],
        "a \"quoted\" \\ back\nslash\ttab \u{1} control"
    );
}
