use chrono::{DateTime, Utc};
use datadog_badges::datadog::{
    worst_of, MonitorGroupState, MonitorOptions, MonitorState, MonitorStateDetail, MonitorStatus,
};
use datadog_badges::filter::{filter_as_regexs, filter_tag_as_regex, key_tags};
use datadog_badges::string_map::StringMap;
use datadog_badges::timestamp::{latest, Timestamp};
use serde_json::Value;
use std::cmp::Ordering;

const SAMPLE: &str = r#"{
  "id": 91879,
  "message": "We may need to add web hosts if this is consistently high.",
  "name": "Bytes received on host0",
  "tags": ["app:webserver", "frontend"],
  "options": {
    "no_data_timeframe": 20,
    "notify_audit": false,
    "notify_no_data": false,
    "silenced": {}
  },
  "org_id": 1499,
  "query": "avg(last_5m):sum:system.net.bytes_rcvd{host:host0} > 100",
  "state": {
    "groups": {
      "host:host0": {
        "last_nodata_ts": null,
        "last_notified_ts": 1481909160,
        "last_resolved_ts": 1481908200,
        "last_triggered_ts": 1481909160,
        "name": "host:host0",
        "status": "Alert",
        "triggering_value": {
          "from_ts": 1481909037,
          "to_ts": 1481909097,
          "value": 1000
        }
      }
    }
  },
  "type": "metric alert",
  "multi": false,
  "created": "2015-12-18T16:34:14.014039+00:00",
  "modified": "2015-12-18T18:39:24.391207+00:00"
}"#;

fn instant(text: &str) -> Timestamp {
    let parsed = DateTime::parse_from_rfc3339(text).unwrap().with_timezone(&Utc);
    Timestamp { secs: parsed.timestamp(), nanos: parsed.timestamp_subsec_nanos() }
}

fn status_named(name: &str) -> MonitorStatus {
    match name {
        "Ignored" => MonitorStatus::Ignored,
        "Skipped" => MonitorStatus::Skipped,
        "OK" | "Ok" => MonitorStatus::OK,
        "No Data" => MonitorStatus::NoData,
        "Warn" => MonitorStatus::Warn,
        "Alert" => MonitorStatus::Alert,
        "Unknown" => MonitorStatus::Unknown,
        other => panic!("no status is named {}", other),
    }
}

fn posix(value: &Value) -> Option<Timestamp> {
    value.as_i64().map(Timestamp::from_secs)
}

fn rfc3339(value: Option<&Value>) -> Option<Timestamp> {
    value.and_then(Value::as_str).map(instant)
}

fn monitor_state(json: &str) -> MonitorState {
    let value: Value = serde_json::from_str(json).unwrap();
    let state = value.get("state").map(|state| {
        let groups = state.get("groups").and_then(Value::as_object).map(|groups| {
            let mut map = StringMap::new();
            for (key, group) in groups {
                map = map.insert(
                    key.clone(),
                    MonitorGroupState {
                        status: status_named(group["status"].as_str().unwrap()),
                        last_triggered_ts: posix(&group["last_triggered_ts"]),
                        last_nodata_ts: posix(&group["last_nodata_ts"]),
                        last_notified_ts: posix(&group["last_notified_ts"]),
                        last_resolved_ts: posix(&group["last_resolved_ts"]),
                    },
                );
            }
            map
        });
        MonitorStateDetail { groups }
    });
    let silenced = value
        .get("options")
        .and_then(|options| options.get("silenced"))
        .and_then(Value::as_object)
        .map(|scopes| scopes.keys().cloned().collect())
        .unwrap_or_default();
    MonitorState {
        overall_state: value
            .get("overall_state")
            .and_then(Value::as_str)
            .map(status_named)
            .unwrap_or_default(),
        overall_state_modified: rfc3339(value.get("overall_state_modified")),
        modified: rfc3339(value.get("modified")),
        options: MonitorOptions { silenced },
        state,
    }
}

fn at(secs: i64) -> Option<Timestamp> {
    Some(Timestamp::from_secs(secs))
}

fn group(status: MonitorStatus) -> MonitorGroupState {
    MonitorGroupState {
        status,
        last_triggered_ts: None,
        last_nodata_ts: None,
        last_notified_ts: None,
        last_resolved_ts: None,
    }
}

fn with_groups(groups: Vec<(&str, MonitorGroupState)>) -> MonitorState {
    let mut map = StringMap::new();
    for (key, state) in groups {
        map = map.insert(key.to_string(), state);
    }
    MonitorState { state: Some(MonitorStateDetail { groups: Some(map) }), ..MonitorState::default() }
}

const ALL: [MonitorStatus; 7] = [
    MonitorStatus::Ignored,
    MonitorStatus::Skipped,
    MonitorStatus::OK,
    MonitorStatus::NoData,
    MonitorStatus::Warn,
    MonitorStatus::Alert,
    MonitorStatus::Unknown,
];

#[test]
fn test_tag_to_regex() {
    assert_eq!(filter_tag_as_regex("env"), r"^env");
    assert_eq!(filter_tag_as_regex("env.foo*"), r"^env\.foo.*");
    assert_eq!(filter_tag_as_regex("env:*"), r"^env:.*");
}

#[test]
fn test_deserialize() {
    let v: MonitorState = monitor_state(SAMPLE);
    assert_eq!(
        v.status(None),
        (MonitorStatus::Alert, Some(instant("2016-12-16T17:26:00Z")))
    );
    assert_eq!(
        v.status(Some("host:host0")),
        (MonitorStatus::Alert, Some(instant("2016-12-16T17:26:00Z")))
    );
}

#[test]
fn sample_has_the_fields_of_the_report() {
    let v = monitor_state(SAMPLE);
    assert_eq!(v.overall_state, MonitorStatus::OK);
    assert_eq!(v.overall_state_modified, None);
    assert_eq!(v.modified, Some(Timestamp { secs: 1450463964, nanos: 391207000 }));
    assert!(!v.options.is_muted());
    let groups = v.state.unwrap().groups.unwrap();
    assert_eq!(groups.len(), 1);
    assert_eq!(groups.key(0), "host:host0");
    assert_eq!(groups.value(0).last_resolved_ts, at(1481908200));
}

#[test]
fn statuses_are_ordered_as_in_the_severity_table() {
    for (i, a) in ALL.iter().enumerate() {
        assert_eq!(a.rank() as usize, i);
        for (j, b) in ALL.iter().enumerate() {
            assert_eq!(a.cmp(b), i.cmp(&j));
            assert_eq!(a.partial_cmp(b), Some(i.cmp(&j)));
            assert_eq!(Ord::cmp(a, b), i.cmp(&j));
            assert_eq!(a < b, i < j);
            assert_eq!(a == b, i == j);
            assert_eq!(a > b, i > j);
            let holding = [a < b, a == b, a > b].iter().filter(|x| **x).count();
            assert_eq!(holding, 1);
        }
    }
    assert_eq!(MonitorStatus::Warn.cmp(&MonitorStatus::Alert), Ordering::Less);
    assert_eq!(MonitorStatus::Unknown.cmp(&MonitorStatus::Alert), Ordering::Greater);
}

#[test]
fn status_order_is_transitive() {
    for a in ALL.iter() {
        for b in ALL.iter() {
            for c in ALL.iter() {
                if a <= b && b <= c {
                    assert!(a <= c);
                }
            }
        }
    }
}

#[test]
fn default_status_is_ok() {
    assert_eq!(MonitorStatus::default(), MonitorStatus::OK);
    let state = MonitorState::default();
    assert_eq!(state.overall_state, MonitorStatus::OK);
    assert_eq!(state.overall_state_modified, None);
    assert_eq!(state.modified, None);
    assert!(state.options.silenced.is_empty());
    assert_eq!(state.state, None);
}

#[test]
fn without_groups_the_overall_status_is_returned_whatever_the_filter() {
    let state = MonitorState {
        overall_state: MonitorStatus::Warn,
        overall_state_modified: at(77),
        ..MonitorState::default()
    };
    assert_eq!(state.status(None), (MonitorStatus::Warn, at(77)));
    assert_eq!(state.status(Some("")), (MonitorStatus::Warn, at(77)));
    assert_eq!(state.status(Some("env:prod")), (MonitorStatus::Warn, at(77)));
    assert_eq!(state.status(Some("   ")), (MonitorStatus::Warn, at(77)));
    let detail_without_groups = MonitorState {
        state: Some(MonitorStateDetail { groups: None }),
        ..state.clone()
    };
    assert_eq!(detail_without_groups.status(Some("env:prod")), (MonitorStatus::Warn, at(77)));
}

#[test]
fn a_filter_that_matches_no_group_gives_no_data() {
    let mut alert = group(MonitorStatus::Alert);
    alert.last_triggered_ts = at(5);
    let state = MonitorState {
        overall_state: MonitorStatus::Alert,
        overall_state_modified: at(9),
        ..with_groups(vec![("host:a,env:prod", alert)])
    };
    assert_eq!(state.status(Some("env:staging")), (MonitorStatus::NoData, None));
    assert_eq!(state.status(Some("region")), (MonitorStatus::NoData, None));
}

#[test]
fn no_groups_at_all_give_no_data() {
    let state = with_groups(vec![]);
    assert_eq!(state.status(None), (MonitorStatus::NoData, None));
    assert_eq!(state.status(Some("env")), (MonitorStatus::NoData, None));
}

#[test]
fn a_blank_filter_keeps_nothing_and_an_empty_one_everything() {
    let mut alert = group(MonitorStatus::Alert);
    alert.last_triggered_ts = at(5);
    let state = with_groups(vec![("host:a", alert)]);
    assert_eq!(state.status(Some("")), (MonitorStatus::Alert, at(5)));
    assert_eq!(state.status(Some(" \t ")), (MonitorStatus::NoData, None));
}

#[test]
fn the_alert_wins_over_the_ok_group() {
    let mut ok = group(MonitorStatus::OK);
    ok.last_resolved_ts = at(100);
    let mut alert = group(MonitorStatus::Alert);
    alert.last_triggered_ts = at(200);
    let state = with_groups(vec![("host:a", ok), ("host:b", alert)]);
    assert_eq!(state.status(None), (MonitorStatus::Alert, at(200)));
    let other_order = with_groups(vec![("host:b", ok), ("host:a", alert)]);
    assert_eq!(other_order.status(None), (MonitorStatus::Alert, at(200)));
    assert_eq!(state.status(Some("host:a")), (MonitorStatus::OK, at(100)));
}

#[test]
fn a_group_without_data_takes_the_latest_of_three_instants() {
    for (t1, t2, t3) in [(1, 2, 3), (3, 1, 2), (2, 3, 1), (5, 5, 4), (7, 7, 7)] {
        let mut nodata = group(MonitorStatus::NoData);
        nodata.last_nodata_ts = at(t1);
        nodata.last_triggered_ts = at(t2);
        nodata.last_resolved_ts = at(1000);
        let state = MonitorState {
            overall_state_modified: at(t3),
            ..with_groups(vec![("host:a", nodata)])
        };
        assert_eq!(state.status(None), (MonitorStatus::NoData, at(t1.max(t2).max(t3))));
    }
}

#[test]
fn each_status_takes_its_own_instants() {
    let mut g = group(MonitorStatus::OK);
    g.last_triggered_ts = at(50);
    g.last_nodata_ts = at(60);
    g.last_notified_ts = at(90);
    g.last_resolved_ts = at(40);
    assert_eq!(g.status_since(None), (MonitorStatus::OK, at(40)));
    assert_eq!(g.status_since(at(45)), (MonitorStatus::OK, at(45)));
    assert_eq!(g.status_since(at(30)), (MonitorStatus::OK, at(40)));
    g.status = MonitorStatus::NoData;
    assert_eq!(g.status_since(None), (MonitorStatus::NoData, at(60)));
    assert_eq!(g.status_since(at(61)), (MonitorStatus::NoData, at(61)));
    for status in [
        MonitorStatus::Ignored,
        MonitorStatus::Skipped,
        MonitorStatus::Warn,
        MonitorStatus::Alert,
        MonitorStatus::Unknown,
    ] {
        g.status = status;
        assert_eq!(g.status_since(None), (status, at(50)));
        assert_eq!(g.status_since(at(55)), (status, at(55)));
    }
    let bare = group(MonitorStatus::Alert);
    assert_eq!(bare.status_since(None), (MonitorStatus::Alert, None));
    assert_eq!(bare.status_since(at(3)), (MonitorStatus::Alert, at(3)));
    let mut nodata = group(MonitorStatus::NoData);
    assert_eq!(nodata.status_since(None), (MonitorStatus::NoData, None));
    nodata.last_triggered_ts = at(8);
    assert_eq!(nodata.status_since(None), (MonitorStatus::NoData, at(8)));
}

#[test]
fn among_equally_severe_groups_the_first_key_wins() {
    let mut first = group(MonitorStatus::Warn);
    first.last_triggered_ts = at(10);
    let mut second = group(MonitorStatus::Warn);
    second.last_triggered_ts = at(20);
    let mut low = group(MonitorStatus::OK);
    low.last_resolved_ts = at(30);
    let state = with_groups(vec![("host:z", second), ("host:a", first), ("host:0", low)]);
    assert_eq!(state.status(None), (MonitorStatus::Warn, at(10)));
}

#[test]
fn worst_of_picks_the_first_of_the_most_severe() {
    assert_eq!(worst_of(&vec![]), (MonitorStatus::NoData, None));
    assert_eq!(worst_of(&vec![(MonitorStatus::Ignored, at(1))]), (MonitorStatus::Ignored, at(1)));
    assert_eq!(
        worst_of(&vec![
            (MonitorStatus::OK, at(1)),
            (MonitorStatus::Alert, at(2)),
            (MonitorStatus::Warn, at(3)),
            (MonitorStatus::Alert, at(4)),
        ]),
        (MonitorStatus::Alert, at(2))
    );
    assert_eq!(
        worst_of(&vec![(MonitorStatus::Unknown, None), (MonitorStatus::Alert, at(4))]),
        (MonitorStatus::Unknown, None)
    );
}

#[test]
fn any_tag_of_a_group_may_match_any_word_of_the_filter() {
    let mut alert = group(MonitorStatus::Alert);
    alert.last_triggered_ts = at(5);
    let mut ok = group(MonitorStatus::OK);
    ok.last_resolved_ts = at(6);
    let state = with_groups(vec![("env:prod,host:a", alert), ("env:dev,host:b", ok)]);
    assert_eq!(state.status(Some("host:b")), (MonitorStatus::OK, at(6)));
    assert_eq!(state.status(Some("host:a")), (MonitorStatus::Alert, at(5)));
    assert_eq!(state.status(Some("region:eu env:dev")), (MonitorStatus::OK, at(6)));
    assert_eq!(state.status(Some("env")), (MonitorStatus::Alert, at(5)));
    assert_eq!(state.status(Some("env:d*")), (MonitorStatus::OK, at(6)));
    assert_eq!(state.status(Some("env:?rod")), (MonitorStatus::Alert, at(5)));
    assert_eq!(state.status(Some("prod")), (MonitorStatus::NoData, None));
    assert_eq!(state.status(Some("host:b,env")), (MonitorStatus::NoData, None));
}

#[test]
fn patterns_are_anchored_at_the_start_of_a_tag() {
    let mut alert = group(MonitorStatus::Alert);
    alert.last_triggered_ts = at(5);
    let keeps = |key: &str, filter: &str| {
        with_groups(vec![(key, alert)]).status(Some(filter)).0 == MonitorStatus::Alert
    };
    assert!(keeps("env", "env"));
    assert!(keeps("environment:x", "env"));
    assert!(keeps("env:prod", "env"));
    assert!(!keeps("my-env", "env"));
    assert!(keeps("env:", "env:*"));
    assert!(keeps("env:prod", "env:*"));
    assert!(!keeps("env", "env:*"));
    assert!(!keeps("environment:prod", "env:*"));
    assert!(keeps("env.foo", "env.foo*"));
    assert!(keeps("env.foobar", "env.foo*"));
    assert!(!keeps("envXfoo", "env.foo*"));
    assert!(keeps("a+b:c", "a+b:c"));
    assert!(!keeps("aab:c", "a+b:c"));
    assert!(keeps("x:a\\b", "x:a\\*"));
    assert!(!keeps("x:a*b", "x:a\\*"));
    assert!(!keeps("x:a\\b", "x:a\\\\*"));
}

#[test]
fn words_of_a_filter_become_patterns() {
    assert_eq!(filter_as_regexs(""), None);
    assert_eq!(filter_as_regexs("   "), Some(vec![]));
    assert_eq!(
        filter_as_regexs("env  host:web-? \u{3000}a.b:c.d\n"),
        Some(vec![
            "^env".to_string(),
            "^host:web\\-.".to_string(),
            "^a\\.b:c\\.d".to_string()
        ])
    );
    assert_eq!(filter_as_regexs("x"), Some(vec!["^x".to_string()]));
    assert_eq!(filter_as_regexs(" x"), Some(vec!["^x".to_string()]));
    assert_eq!(filter_as_regexs("x\u{A0}y"), Some(vec!["^x".to_string(), "^y".to_string()]));
    assert_eq!(filter_as_regexs("x\u{200B}y"), Some(vec!["^x\u{200B}y".to_string()]));
}

#[test]
fn tag_patterns_escape_what_is_no_glob() {
    assert_eq!(filter_tag_as_regex(""), "^");
    assert_eq!(filter_tag_as_regex("*"), "^.*");
    assert_eq!(filter_tag_as_regex("?"), "^.");
    assert_eq!(filter_tag_as_regex("a*:b*"), "^a\\*:b.*");
    assert_eq!(filter_tag_as_regex("a?:b?"), "^a\\?:b.");
    assert_eq!(filter_tag_as_regex(":"), "^:");
    assert_eq!(filter_tag_as_regex("a:b:c"), "^a:b:c");
    assert_eq!(filter_tag_as_regex("\\*"), "^\\\\.*");
    assert_eq!(filter_tag_as_regex("\\"), "^\\\\");
    assert_eq!(filter_tag_as_regex("(x)[y]{z}"), "^\\(x\\)\\[y\\]\\{z\\}");
    assert_eq!(filter_tag_as_regex("^$|+#&-~"), "^\\^\\$\\|\\+\\#\\&\\-\\~");
    assert_eq!(filter_tag_as_regex("é/%!"), "^é/%!");
    for text in ["env", "env.foo*", "a?b", "\\*", "x\\?y*", "(a|b)*", "-~#&"] {
        let pattern = regex::escape(text).replace("\\*", ".*").replace("\\?", ".");
        assert_eq!(filter_tag_as_regex(text), format!("^{}", pattern));
    }
}

#[test]
fn keys_split_into_tags_at_commas() {
    assert_eq!(key_tags(""), vec!["".to_string()]);
    assert_eq!(key_tags("a"), vec!["a".to_string()]);
    assert_eq!(key_tags("a,b"), vec!["a".to_string(), "b".to_string()]);
    assert_eq!(key_tags("a,"), vec!["a".to_string(), "".to_string()]);
    assert_eq!(key_tags(",a,,b"), vec!["", "a", "", "b"]);
    for key in ["", ",", "host:a,env:b", "a,,b,"] {
        let expected: Vec<String> = key.split(',').map(str::to_string).collect();
        assert_eq!(key_tags(key), expected);
    }
}

#[test]
fn later_instants_win() {
    let early = Timestamp { secs: 5, nanos: 999_999_999 };
    let late = Timestamp { secs: 6, nanos: 0 };
    let later_still = Timestamp { secs: 6, nanos: 1 };
    assert_eq!(early.later(late), late);
    assert_eq!(late.later(early), late);
    assert_eq!(late.later(later_still), later_still);
    assert_eq!(late.later(late), late);
    assert!(early < late && late < later_still && late <= late);
    assert_eq!(late.partial_cmp(&early), Some(Ordering::Greater));
    assert_eq!(Ord::cmp(&late, &later_still), Ordering::Less);
    assert_eq!(latest(None, None), None);
    assert_eq!(latest(Some(early), None), Some(early));
    assert_eq!(latest(None, Some(early)), Some(early));
    assert_eq!(latest(Some(late), Some(early)), Some(late));
    let negative = Timestamp::from_secs(-1);
    assert_eq!(negative, Timestamp { secs: -1, nanos: 0 });
    assert_eq!(negative.later(Timestamp::from_secs(-2)), negative);
}

#[test]
fn words_are_separated_by_white_space_as_unicode_has_it() {
    for code in (0u32..0x3100).chain([0xFEFF, 0x1_0000, 0xE0020]) {
        if let Some(c) = char::from_u32(code) {
            if c == ':' {
                continue;
            }
            let filter = format!("a{}b", c);
            let expected: Vec<String> =
                filter.split_whitespace().map(filter_tag_as_regex).collect();
            assert_eq!(expected.len() == 2, c.is_whitespace());
            assert_eq!(filter_as_regexs(&filter), Some(expected));
        }
    }
}

#[test]
fn filters_are_split_as_the_standard_library_splits_them() {
    let filters = [
        " ", "a", " a", "a ", " a ", "a b", "a  b", "  a   b  ", "\ta\nb\r\nc\u{B}d\u{C}e",
        "env:prod host:web-* region:eu-?", "\u{2003}x\u{2028}y\u{205F}", "a\u{A0}\u{A0}b c",
    ];
    for filter in filters {
        let expected: Vec<String> = filter.split_whitespace().map(filter_tag_as_regex).collect();
        assert_eq!(filter_as_regexs(filter), Some(expected));
    }
}
