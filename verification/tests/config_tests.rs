use logcfg::{
    BackpressureBehaviour, Directive, FileOpenBehaviour, Filter, Format, Formatter, Json, Level,
    Rotation, Subscriber, Timer, Writer,
};
use logcfg::render::Layout;
use logcfg::timefmt::{FormatTime, TimePolicy};

#[test]
fn level_names_round_trip() {
    for name in ["off", "error", "warn", "info", "debug", "trace"] {
        let l = Level::from_str(name).unwrap();
        assert_eq!(l.as_str(), name);
    }
    let e = Level::from_str("verbose").unwrap_err();
    assert_eq!(e.message(), "expected <off|error|warn|info|debug|trace>");
}

#[test]
fn formatter_parses() {
    assert_eq!(Formatter::from_str("full").unwrap(), Formatter::Full);
    assert_eq!(Formatter::from_str("compact").unwrap(), Formatter::Compact);
    assert_eq!(Formatter::from_str("pretty").unwrap(), Formatter::Pretty);
    assert_eq!(Formatter::from_str("json").unwrap(), Formatter::Json(None));
    let e = Formatter::from_str("yaml").unwrap_err();
    assert_eq!(e.message(), "expected <full|compact|pretty|json>");
}

#[test]
fn timer_parses() {
    assert_eq!(Timer::from_str("none").unwrap(), Timer::Disabled);
    assert_eq!(Timer::from_str("system").unwrap(), Timer::System);
    assert_eq!(Timer::from_str("uptime").unwrap(), Timer::Uptime);
    assert_eq!(Timer::from_str("local").unwrap(), Timer::Local(None));
    assert_eq!(
        Timer::from_str("local=%H:%M").unwrap(),
        Timer::Local(Some("%H:%M".to_string()))
    );
    assert_eq!(Timer::from_str("utc").unwrap(), Timer::Utc(None));
    assert_eq!(
        Timer::from_str("utc=%s").unwrap(),
        Timer::Utc(Some("%s".to_string()))
    );
    assert!(Timer::from_str("sundial").is_err());
}

#[test]
fn writer_parses() {
    assert_eq!(Writer::from_str("null").unwrap(), Writer::Null);
    assert_eq!(Writer::from_str("none").unwrap(), Writer::Null);
    assert_eq!(Writer::from_str("stdout").unwrap(), Writer::Stdout);
    assert_eq!(Writer::from_str("stderr").unwrap(), Writer::Stderr);
    match Writer::from_str("file=/var/log/app.log").unwrap() {
        Writer::File(f) => {
            assert_eq!(f.path, "/var/log/app.log");
            assert_eq!(f.behaviour, FileOpenBehaviour::Truncate);
            assert!(f.non_blocking.is_none());
        }
        other => panic!("unexpected: {:?}", other),
    }
    match Writer::from_str("rolling=/var/log").unwrap() {
        Writer::Rolling(r) => {
            assert_eq!(r.directory, "/var/log");
            assert!(r.roll.is_none());
            assert!(r.non_blocking.is_none());
        }
        other => panic!("unexpected: {:?}", other),
    }
    // an empty file path is rejected before resolution
    assert!(Writer::from_str("file=").is_err());
    assert!(Writer::from_str("socket=1.2.3.4").is_err());
}

#[test]
fn rotation_and_behaviour_parse() {
    assert_eq!(Rotation::from_str("minutely").unwrap(), Rotation::Minutely);
    assert_eq!(Rotation::from_str("hourly").unwrap(), Rotation::Hourly);
    assert_eq!(Rotation::from_str("daily").unwrap(), Rotation::Daily);
    assert_eq!(Rotation::from_str("never").unwrap(), Rotation::Never);
    assert_eq!(Rotation::Daily.as_str(), "daily");
    assert!(Rotation::from_str("weekly").is_err());
    assert_eq!(
        BackpressureBehaviour::from_str("drop").unwrap(),
        BackpressureBehaviour::Drop
    );
    assert_eq!(
        BackpressureBehaviour::from_str("block").unwrap(),
        BackpressureBehaviour::Block
    );
    assert!(BackpressureBehaviour::from_str("panic").is_err());
    assert_eq!(
        FileOpenBehaviour::from_str("append").unwrap(),
        FileOpenBehaviour::Append
    );
    assert_eq!(
        FileOpenBehaviour::from_str("truncate").unwrap(),
        FileOpenBehaviour::Truncate
    );
    assert!(FileOpenBehaviour::from_str("create").is_err());
}

#[test]
fn directive_validation() {
    let d = Directive::from_str("info").unwrap();
    assert_eq!(d.as_str(), "info");
    let d = Directive::from_str("my_crate::module=debug").unwrap();
    assert_eq!(d.as_str(), "my_crate::module=debug");
    assert!(Directive::from_str("=====").is_err());
    // non-ASCII strings never reach the outside parser and are refused
    assert!(Directive::from_str(" \u{e9}=info").is_err());
    assert!(Directive::from_str("caf\u{e9}=debug").is_err());
}

#[test]
fn format_resolution_defaults() {
    let cfg = Format::default().resolve();
    assert_eq!(cfg.layout, Layout::Full);
    assert!(cfg.ansi);
    assert!(cfg.target);
    assert!(cfg.level);
    assert!(!cfg.thread_ids);
    assert!(!cfg.thread_names);
    assert!(!cfg.file);
    assert!(!cfg.line_number);

    // the human-oriented layout switches the call site on by default
    let pretty = Format {
        formatter: Some(Formatter::Pretty),
        ..Format::default()
    }
    .resolve();
    assert!(pretty.file);
    assert!(pretty.line_number);

    // the structured layout nests fields and embeds spans by default
    let json = Format {
        formatter: Some(Formatter::Json(None)),
        ..Format::default()
    }
    .resolve();
    match json.layout {
        Layout::Json(j) => {
            assert!(!j.flatten_event);
            assert!(j.current_span);
            assert!(j.span_list);
        }
        other => panic!("unexpected: {:?}", other),
    }

    // explicit toggles win over every default
    let custom = Format {
        target: Some(false),
        thread_ids: Some(true),
        formatter: Some(Formatter::Json(Some(Json {
            flatten_event: Some(true),
            current_span: Some(false),
            span_list: Some(false),
        }))),
        ..Format::default()
    }
    .resolve();
    assert!(!custom.target);
    assert!(custom.thread_ids);
    assert_eq!(
        custom.layout,
        Layout::Json(logcfg::render::ResolvedJson {
            flatten_event: true,
            current_span: false,
            span_list: false,
        })
    );
}

#[test]
fn subscriber_components_defaults() {
    let c = Subscriber::default().into_components();
    assert_eq!(c.format.layout, Layout::Full);
    assert_eq!(c.time.policy, TimePolicy::System);
    assert_eq!(c.writer, Writer::Stdout);
    assert_eq!(c.filter, Filter::default());

    let c = Subscriber {
        format: Some(Format {
            timer: Some(Timer::Utc(Some("%+".to_string()))),
            formatter: Some(Formatter::Compact),
            ..Format::default()
        }),
        writer: Some(Writer::Stderr),
        filter: None,
    }
    .into_components();
    assert_eq!(c.format.layout, Layout::Compact);
    assert_eq!(c.time.policy, TimePolicy::UtcDefault);
    assert_eq!(c.writer, Writer::Stderr);
}

#[test]
fn timer_resolution_sentinel() {
    assert_eq!(
        FormatTime::from_timer(Timer::Local(None)).policy,
        TimePolicy::LocalDefault
    );
    assert_eq!(
        FormatTime::from_timer(Timer::Local(Some("%+".to_string()))).policy,
        TimePolicy::LocalDefault
    );
    assert_eq!(
        FormatTime::from_timer(Timer::Local(Some("%H".to_string()))).policy,
        TimePolicy::LocalPattern("%H".to_string())
    );
    assert_eq!(
        FormatTime::from_timer(Timer::Utc(Some("%+".to_string()))).policy,
        TimePolicy::UtcDefault
    );
    assert_eq!(
        FormatTime::from_timer(Timer::Disabled).policy,
        TimePolicy::Omitted
    );
}
