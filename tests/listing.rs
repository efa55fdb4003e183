use sand::duration::{format_colon_separated, parse_duration_component};
use sand::message::{TimerInfo, TimerStateClient};
use sand::timer::TimerId;
use sand::ui::{partition_running, sort_for_listing, total_duration};

fn info(id: u64, state: TimerStateClient, remaining: u64) -> TimerInfo {
    TimerInfo { id: TimerId(id), state, remaining }
}

#[test]
fn listing_sorts_by_remaining_then_id() {
    let timers = vec![
        info(3, TimerStateClient::Running, 500),
        info(1, TimerStateClient::Paused, 900),
        info(4, TimerStateClient::Running, 100),
        info(2, TimerStateClient::Running, 500),
    ];
    let sorted = sort_for_listing(&timers);
    let ids: Vec<u64> = sorted.iter().map(|t| t.id.0).collect();
    assert_eq!(ids, vec![4, 2, 3, 1]);
}

#[test]
fn listing_of_nothing_is_empty() {
    assert!(sort_for_listing(&vec![]).is_empty());
}

#[test]
fn running_timers_are_split_from_the_rest() {
    let timers = vec![
        info(1, TimerStateClient::Paused, 10),
        info(2, TimerStateClient::Running, 20),
        info(3, TimerStateClient::Elapsed, 0),
        info(4, TimerStateClient::Running, 30),
    ];
    let (running, others) = partition_running(&timers);
    assert_eq!(running.iter().map(|t| t.id.0).collect::<Vec<_>>(), vec![2, 4]);
    assert_eq!(others.iter().map(|t| t.id.0).collect::<Vec<_>>(), vec![1, 3]);
}

#[test]
fn durations_add_up() {
    assert_eq!(total_duration(&vec![60000, 5000, 250]), Some(65250));
    assert_eq!(total_duration(&vec![]), Some(0));
    assert_eq!(total_duration(&vec![u64::MAX, 1]), None);
    assert_eq!(total_duration(&vec![u64::MAX]), Some(u64::MAX));
}

#[test]
fn durations_parse_with_units() {
    assert_eq!(parse_duration_component("10m"), Some(600000));
    assert_eq!(parse_duration_component("90s"), Some(90000));
    assert_eq!(parse_duration_component("2h"), Some(7200000));
    assert_eq!(parse_duration_component("250ms"), Some(250));
    assert_eq!(parse_duration_component("45"), Some(45000));
    assert_eq!(parse_duration_component("0s"), Some(0));
}

#[test]
fn malformed_durations_are_refused() {
    assert_eq!(parse_duration_component(""), None);
    assert_eq!(parse_duration_component("m"), None);
    assert_eq!(parse_duration_component("10x"), None);
    assert_eq!(parse_duration_component("10mss"), None);
    assert_eq!(parse_duration_component("1 m"), None);
    assert_eq!(parse_duration_component("-5s"), None);
}

#[test]
fn oversized_durations_are_refused() {
    assert_eq!(parse_duration_component("18446744073709551615ms"), Some(u64::MAX));
    assert_eq!(parse_duration_component("18446744073709551616ms"), None);
    assert_eq!(parse_duration_component("18446744073709551615h"), None);
    assert_eq!(parse_duration_component("99999999999999999999999s"), None);
}

#[test]
fn durations_format_with_colons() {
    assert_eq!(format_colon_separated(0), "0:00");
    assert_eq!(format_colon_separated(1500), "0:01");
    assert_eq!(format_colon_separated(65000), "1:05");
    assert_eq!(format_colon_separated(600000), "10:00");
    assert_eq!(format_colon_separated(3600000), "1:00:00");
    assert_eq!(format_colon_separated(3723000), "1:02:03");
    assert_eq!(format_colon_separated(36000000 * 10), "100:00:00");
}
