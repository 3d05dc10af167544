use chapchap::dbus_types::program_monitor::{
    Action as DBUSAction, Filter as DBUSFilter, NaiveTime, Payload, TimeSlice as DBUSTimeSlice,
};
use chapchap::dbus_types::{Module as DBUSModule, Rule as DBUSRule, RuleWithID as DBUSRuleWithID};
use chapchap::program_monitor;
use chapchap::program_monitor::{TimeLimit, TimeOfDay};
use chapchap::types::{Module, Rule, RuleWithID};

fn basic_rule() -> Rule {
    Rule {
        name: "Rule1".into(),
        is_active: true,
        module: Module::ProgramMonitor(program_monitor::Rule {
            filter: program_monitor::Filter::Basic,
            action: program_monitor::Action::BlockProgramExecution(100),
        }),
    }
}

#[test]
fn rule_into_and_from_dbus_type() {
    let rule = basic_rule();

    let dbus_rule: DBUSRule = DBUSRule::from(rule.clone());

    let value: Rule = Rule::try_from(dbus_rule).unwrap();
    assert_eq!(value, rule);
}

#[test]
fn rule_with_id_into_and_from_dbus_type() {
    let rule = RuleWithID {
        id: 0,
        rule: basic_rule(),
    };

    let dbus_rule: DBUSRuleWithID = DBUSRuleWithID::from(rule.clone());

    let value: RuleWithID = RuleWithID::try_from(dbus_rule).unwrap();
    assert_eq!(value, rule);
}

fn time(h: u8, m: u8, s: u8) -> TimeOfDay {
    TimeOfDay::new(h, m, s).unwrap()
}

#[test]
fn filter_envelope_tags() {
    let basic = DBUSFilter::from(program_monitor::Filter::Basic);
    assert_eq!(basic.case, 0);
    assert!(matches!(basic.inner, Payload::Empty));

    let limited = DBUSFilter::from(program_monitor::Filter::TimeLimited(TimeLimit {
        secs: 90,
        nanos: 5,
    }));
    assert_eq!(limited.case, 1);
    match limited.inner {
        Payload::Numbers(v) => assert_eq!(v, vec![90, 5]),
        _ => panic!("time limit written without its two numbers"),
    }

    let scheduled = DBUSFilter::from(program_monitor::Filter::Scheduled(vec![
        program_monitor::TimeSlice {
            start: time(9, 5, 0),
            end: time(17, 30, 59),
        },
    ]));
    assert_eq!(scheduled.case, 2);
    match scheduled.inner {
        Payload::Slices(v) => {
            assert_eq!(v.len(), 1);
            assert_eq!(v[0].start.0, "09:05:00");
            assert_eq!(v[0].end.0, "17:30:59");
        }
        _ => panic!("schedule written without its windows"),
    }
}

#[test]
fn filter_round_trip_all_cases() {
    let filters = vec![
        program_monitor::Filter::Basic,
        program_monitor::Filter::TimeLimited(TimeLimit {
            secs: 3600,
            nanos: 999_999_999,
        }),
        program_monitor::Filter::Scheduled(vec![
            program_monitor::TimeSlice {
                start: time(0, 0, 0),
                end: time(23, 59, 59),
            },
            program_monitor::TimeSlice {
                start: time(12, 0, 0),
                end: time(13, 0, 0),
            },
        ]),
    ];
    for f in filters {
        let back = program_monitor::Filter::try_from(DBUSFilter::from(f.clone())).unwrap();
        assert_eq!(back, f);
    }
}

#[test]
fn time_limited_nanos_over_u32_rejected() {
    let w = DBUSFilter {
        case: 1,
        inner: Payload::Numbers(vec![1, u32::MAX as u64 + 1]),
    };
    assert!(program_monitor::Filter::try_from(w).is_err());
}

#[test]
fn time_limited_nanos_at_u32_max_carried() {
    let w = DBUSFilter {
        case: 1,
        inner: Payload::Numbers(vec![1, u32::MAX as u64]),
    };
    let f = program_monitor::Filter::try_from(w).unwrap();
    assert_eq!(
        f,
        program_monitor::Filter::TimeLimited(TimeLimit {
            secs: 5,
            nanos: 294_967_295,
        })
    );
}

#[test]
fn time_limited_wrong_arity_rejected() {
    let w = DBUSFilter {
        case: 1,
        inner: Payload::Numbers(vec![1, 2, 3]),
    };
    assert!(program_monitor::Filter::try_from(w).is_err());
    let w = DBUSFilter {
        case: 1,
        inner: Payload::Slices(vec![]),
    };
    assert!(program_monitor::Filter::try_from(w).is_err());
}

#[test]
fn time_limited_seconds_overflow_rejected() {
    let w = DBUSFilter {
        case: 1,
        inner: Payload::Numbers(vec![u64::MAX, 1_000_000_000]),
    };
    assert!(program_monitor::Filter::try_from(w).is_err());
}

#[test]
fn unknown_filter_case_rejected() {
    let w = DBUSFilter {
        case: 3,
        inner: Payload::Empty,
    };
    assert!(program_monitor::Filter::try_from(w).is_err());
}

#[test]
fn basic_filter_ignores_payload() {
    let w = DBUSFilter {
        case: 0,
        inner: Payload::Numbers(vec![7]),
    };
    assert_eq!(
        program_monitor::Filter::try_from(w).unwrap(),
        program_monitor::Filter::Basic
    );
}

#[test]
fn scheduled_bad_time_rejected() {
    for text in ["24:00:00", "9:00:00", "09:60:00", "09:00:60", "09-00-00", "09:00:00.5", ""] {
        let w = DBUSFilter {
            case: 2,
            inner: Payload::Slices(vec![DBUSTimeSlice {
                start: NaiveTime("08:00:00".to_string()),
                end: NaiveTime(text.to_string()),
            }]),
        };
        assert!(program_monitor::Filter::try_from(w).is_err(), "{text}");
    }
}

#[test]
fn naive_time_text() {
    assert_eq!(NaiveTime::from(time(7, 3, 9)).0, "07:03:09");
    assert_eq!(
        TimeOfDay::try_from(NaiveTime("23:59:59".to_string())).unwrap(),
        time(23, 59, 59)
    );
    assert!(TimeOfDay::try_from(NaiveTime("ab:cd:ef".to_string())).is_err());
}

#[test]
fn action_envelope() {
    let a = DBUSAction::from(program_monitor::Action::BlockProgramExecution(12345));
    assert_eq!(a, DBUSAction { case: 0, inner: 12345 });
    assert!(program_monitor::Action::try_from(DBUSAction { case: 1, inner: 1 }).is_err());
}

#[test]
fn unknown_module_case_rejected() {
    let w = DBUSRule {
        name: "R".to_string(),
        is_active: true,
        module: DBUSModule {
            case: 1,
            inner: chapchap::dbus_types::program_monitor::Rule {
                filter: DBUSFilter {
                    case: 0,
                    inner: Payload::Empty,
                },
                action: DBUSAction { case: 0, inner: 1 },
            },
        },
    };
    assert!(Rule::try_from(w).is_err());
}

#[test]
fn validity_checks() {
    assert!(basic_rule().is_valid());
    let bad = program_monitor::Filter::Scheduled(vec![program_monitor::TimeSlice {
        start: TimeOfDay {
            hour: 25,
            minute: 0,
            second: 0,
        },
        end: time(1, 0, 0),
    }]);
    assert!(!bad.is_valid());
    assert!(TimeOfDay::new(24, 0, 0).is_none());
}
