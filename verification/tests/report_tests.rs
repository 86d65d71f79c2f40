use patrol::hash;
use patrol::id::Id;
use patrol::models::{Config, Data, Mode};
use patrol::report::{recency, report, Recency};
use patrol::selector::Selector;
use patrol::table::Table;
use patrol::timestamp::{Duration, Timestamp};
use patrol::url::Url;

fn id(text: &str) -> Id {
    Id::parse(text.to_owned()).unwrap()
}

fn at(secs: i64) -> Timestamp {
    Timestamp::from_unix_secs(secs)
}

fn config(url: &str) -> Config {
    Config {
        url: Url::new(url.to_owned()).unwrap(),
        selector: Selector::new("p".to_owned()).unwrap(),
        mode: Mode::Full,
        wait_seconds: None,
    }
}

fn data(last_updated: Option<i64>, last_checked: i64) -> Data {
    Data {
        hash: Some(hash::Hash::new(b"x")),
        last_updated: last_updated.map(at),
        last_checked: at(last_checked),
    }
}

#[test]
fn recency_is_keyed_on_the_age_of_the_change() {
    let now = at(1_000_000);
    assert_eq!(recency(now, now), Recency::Fresh);
    assert_eq!(recency(now, now - Duration::from_hours(1)), Recency::Fresh);
    assert_eq!(
        recency(now, now - Duration::from_hours(1) - Duration::from_nanos(1)),
        Recency::Recent
    );
    assert_eq!(recency(now, now - Duration::from_days(1)), Recency::Recent);
    assert_eq!(
        recency(now, now - Duration::from_days(1) - Duration::from_nanos(1)),
        Recency::Stale
    );
    assert_eq!(recency(now, at(0)), Recency::Stale);
}

#[test]
fn recency_of_a_change_in_the_future_is_fresh() {
    assert_eq!(recency(at(0), at(1_000_000)), Recency::Fresh);
    assert_eq!(
        recency(Timestamp::from_unix_nanos(i64::MIN), Timestamp::from_unix_nanos(i64::MAX)),
        Recency::Fresh
    );
    assert_eq!(
        recency(Timestamp::from_unix_nanos(i64::MAX), Timestamp::from_unix_nanos(i64::MIN)),
        Recency::Stale
    );
}

#[test]
fn report_lists_changed_targets_oldest_first() {
    let mut table = Table::new();
    table.insert(id("c"), data(Some(300), 400));
    table.insert(id("never"), data(None, 400));
    table.insert(id("a"), data(Some(100), 400));
    table.insert(id("b"), data(Some(200), 400));
    let mut configs = Table::new();
    for key in ["a", "b", "c", "never"] {
        configs.insert(id(key), config(&format!("https://example.com/{}", key)));
    }
    let rows = report(&table, &configs, at(400));
    let ids: Vec<&str> = rows.iter().map(|row| row.id.as_str()).collect();
    assert_eq!(ids, vec!["a", "b", "c"]);
    let times: Vec<Timestamp> = rows.iter().map(|row| row.last_updated).collect();
    assert_eq!(times, vec![at(100), at(200), at(300)]);
    let urls: Vec<&str> = rows.iter().map(|row| row.url.as_ref().unwrap().as_str()).collect();
    assert_eq!(
        urls,
        vec!["https://example.com/a", "https://example.com/b", "https://example.com/c"]
    );
}

#[test]
fn report_gives_each_row_its_recency() {
    let now = 10 * 86_400;
    let mut table = Table::new();
    table.insert(id("fresh"), data(Some(now - 60), now));
    table.insert(id("recent"), data(Some(now - 7200), now));
    table.insert(id("stale"), data(Some(now - 2 * 86_400), now));
    let rows = report(&table, &Table::new(), at(now));
    let found: Vec<(&str, Recency)> =
        rows.iter().map(|row| (row.id.as_str(), row.recency)).collect();
    assert_eq!(
        found,
        vec![("stale", Recency::Stale), ("recent", Recency::Recent), ("fresh", Recency::Fresh)]
    );
}

#[test]
fn report_tolerates_targets_without_configuration() {
    let mut table = Table::new();
    table.insert(id("orphan"), data(Some(1), 2));
    let rows = report(&table, &Table::new(), at(3));
    assert_eq!(rows.len(), 1);
    assert_eq!(rows[0].id, id("orphan"));
    assert_eq!(rows[0].url, None);
}

#[test]
fn report_of_nothing_is_empty() {
    assert_eq!(report(&Table::new(), &Table::new(), at(0)).len(), 0);
    let mut table = Table::new();
    table.insert(id("never"), data(None, 1));
    assert_eq!(report(&table, &Table::new(), at(2)).len(), 0);
}

#[test]
fn report_keeps_targets_that_changed_at_the_same_instant() {
    let mut table = Table::new();
    table.insert(id("x"), data(Some(5), 9));
    table.insert(id("y"), data(Some(5), 9));
    table.insert(id("z"), data(Some(1), 9));
    let rows = report(&table, &Table::new(), at(9));
    assert_eq!(rows.len(), 3);
    assert_eq!(rows[0].id, id("z"));
    let mut rest = vec![rows[1].id.as_str(), rows[2].id.as_str()];
    rest.sort();
    assert_eq!(rest, vec!["x", "y"]);
}
