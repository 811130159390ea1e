use website_monitor::monitor::{Probe, WebsiteMonitor};
use website_monitor::probe::HttpReply;
use website_monitor::website::{Check, CheckStatus, ResponseDetails, Website};

fn ok_reply() -> HttpReply {
    HttpReply::Answered {
        status_code: 200,
        headers: vec![("content-type".to_string(), Some("text/html".to_string()))],
        content_length: Some(1256),
        body: None,
    }
}

fn error_reply(status_code: u16, body: &str) -> HttpReply {
    HttpReply::Answered {
        status_code,
        headers: Vec::new(),
        content_length: None,
        body: Some(body.to_string()),
    }
}

fn refused() -> HttpReply {
    HttpReply::Failed { message: "connection refused".to_string() }
}

fn probe(url: &str, reply: HttpReply, timestamp: u64) -> Probe {
    Probe { url: url.to_string(), reply, timestamp }
}

fn site<'a>(sites: &'a [Website], url: &str) -> &'a Website {
    let found: Vec<&Website> = sites.iter().filter(|s| s.url == url).collect();
    assert_eq!(found.len(), 1);
    found[0]
}

#[test]
fn test_add_website() {
    let mut monitor = WebsiteMonitor::default();
    monitor.add_website("https://www.example.com".to_string());
    assert_eq!(monitor.websites().len(), 1);
}

#[test]
fn test_check_website() {
    let monitor = WebsiteMonitor::default();
    let result = monitor.check_website(ok_reply());
    assert!(result.is_up());
}

#[test]
fn new_registry_is_empty() {
    let monitor = WebsiteMonitor::new(None);
    assert_eq!(monitor.len(), 0);
    assert!(monitor.websites().is_empty());
    assert!(monitor.get_status().is_empty());
    assert!(monitor.targets().is_empty());
}

#[test]
fn added_site_appears_once_with_empty_history() {
    let mut monitor = WebsiteMonitor::default();
    monitor.add_website("https://a.example".to_string());
    monitor.add_website("https://b.example".to_string());
    let snapshot = monitor.websites();
    assert_eq!(snapshot.len(), 2);
    let hits: Vec<&(String, Website)> =
        snapshot.iter().filter(|(url, _)| url == "https://b.example").collect();
    assert_eq!(hits.len(), 1);
    let state = &hits[0].1;
    assert_eq!(state.url, "https://b.example");
    assert!(state.total_checks.is_empty());
    assert!(!state.is_up);
    assert_eq!(state.successful_checks, 0);
    assert_eq!(state.last_check, None);
}

#[test]
fn snapshot_keeps_the_order_of_registration() {
    let mut monitor = WebsiteMonitor::default();
    monitor.add_website("https://a.example".to_string());
    monitor.add_website("https://b.example".to_string());
    monitor.add_website("https://c.example".to_string());
    assert_eq!(
        monitor.targets(),
        vec![
            "https://a.example".to_string(),
            "https://b.example".to_string(),
            "https://c.example".to_string()
        ]
    );
    let status = monitor.get_status();
    assert_eq!(status[0].url, "https://a.example");
    assert_eq!(status[2].url, "https://c.example");
    let keyed = monitor.websites();
    assert_eq!(keyed[1].0, "https://b.example");
    assert_eq!(keyed[1].1.url, "https://b.example");
}

#[test]
fn adding_again_resets_the_history() {
    let mut monitor = WebsiteMonitor::default();
    monitor.add_website("https://a.example".to_string());
    monitor.add_website("https://b.example".to_string());
    monitor.update_website_status(vec![
        probe("https://a.example", ok_reply(), 10),
        probe("https://b.example", ok_reply(), 11),
    ]);
    monitor.update_website_status(vec![probe("https://a.example", refused(), 20)]);
    assert_eq!(site(&monitor.get_status(), "https://a.example").total_checks.len(), 2);

    monitor.add_website("https://a.example".to_string());
    let status = monitor.get_status();
    assert_eq!(status.len(), 2);
    assert_eq!(status[0].url, "https://a.example");
    let a = site(&status, "https://a.example");
    assert!(a.total_checks.is_empty());
    assert_eq!(a.successful_checks, 0);
    assert_eq!(a.last_check, None);
    assert!(!a.is_up);
    let b = site(&status, "https://b.example");
    assert_eq!(b.total_checks.len(), 1);
    assert!(b.is_up);
}

#[test]
fn sweep_adds_one_check_to_every_site() {
    let mut monitor = WebsiteMonitor::default();
    monitor.add_website("https://up.example".to_string());
    monitor.add_website("https://down.example".to_string());
    monitor.add_website("https://gone.example".to_string());
    let reports = monitor.update_website_status(vec![
        probe("https://up.example", ok_reply(), 100),
        probe("https://down.example", error_reply(500, "oops"), 101),
        probe("https://gone.example", refused(), 102),
    ]);
    let status = monitor.get_status();
    let up = site(&status, "https://up.example");
    assert_eq!(up.total_checks.len(), 1);
    assert_eq!(up.successful_checks, 1);
    assert!(up.is_up);
    assert_eq!(up.last_check, Some(100));
    let down = site(&status, "https://down.example");
    assert_eq!(down.total_checks.len(), 1);
    assert_eq!(down.successful_checks, 0);
    assert!(!down.is_up);
    assert_eq!(down.last_check, Some(101));
    let gone = site(&status, "https://gone.example");
    assert_eq!(gone.total_checks.len(), 1);
    assert_eq!(gone.successful_checks, 0);
    assert!(!gone.is_up);
    assert_eq!(gone.last_check, Some(102));
    assert_eq!(reports.len(), 2);
}

#[test]
fn second_sweep_grows_history_by_one() {
    let mut monitor = WebsiteMonitor::default();
    monitor.add_website("https://a.example".to_string());
    monitor.update_website_status(vec![probe("https://a.example", ok_reply(), 1)]);
    monitor.update_website_status(vec![probe("https://a.example", error_reply(503, "busy"), 2)]);
    monitor.update_website_status(vec![probe("https://a.example", ok_reply(), 3)]);
    let status = monitor.get_status();
    let a = &status[0];
    assert_eq!(a.total_checks.len(), 3);
    assert_eq!(a.successful_checks, 2);
    assert!(a.is_up);
    assert_eq!(a.last_check, Some(3));
    let stamps: Vec<u64> = a.total_checks.iter().map(|c| c.timestamp).collect();
    assert_eq!(stamps, vec![1, 2, 3]);
    let ups: Vec<bool> = a.total_checks.iter().map(|c| c.status.is_up()).collect();
    assert_eq!(ups, vec![true, false, true]);
}

#[test]
fn is_up_follows_the_latest_check() {
    let mut monitor = WebsiteMonitor::default();
    monitor.add_website("https://a.example".to_string());
    let replies = vec![ok_reply(), refused(), refused(), ok_reply(), error_reply(404, "none")];
    let mut when: u64 = 0;
    for reply in replies {
        when += 1;
        monitor.update_website_status(vec![probe("https://a.example", reply, when)]);
        let status = monitor.get_status();
        let a = &status[0];
        let last: &Check = a.total_checks.last().unwrap();
        assert_eq!(a.is_up, last.status.is_up());
        assert_eq!(a.last_check, Some(last.timestamp));
        let ups = a.total_checks.iter().filter(|c| c.status.is_up()).count() as u64;
        assert_eq!(a.successful_checks, ups);
    }
}

#[test]
fn one_report_for_each_failed_probe() {
    let mut monitor = WebsiteMonitor::default();
    monitor.add_website("https://a.example".to_string());
    monitor.add_website("https://b.example".to_string());
    monitor.add_website("https://c.example".to_string());
    let reports = monitor.update_website_status(vec![
        probe("https://a.example", error_reply(500, "first"), 7),
        probe("https://b.example", ok_reply(), 8),
        probe("https://c.example", refused(), 9),
    ]);
    assert_eq!(reports.len(), 2);
    assert_eq!(reports[0].url, "https://a.example");
    assert_eq!(reports[0].status_code, 500);
    assert_eq!(reports[0].error_message, "first");
    assert_eq!(reports[0].timestamp, 7);
    assert_eq!(reports[1].url, "https://c.example");
    assert_eq!(reports[1].status_code, 0);
    assert_eq!(reports[1].error_message, "connection refused");
    assert_eq!(reports[1].timestamp, 9);

    let again = monitor.update_website_status(vec![
        probe("https://a.example", error_reply(500, "second"), 17),
        probe("https://b.example", ok_reply(), 18),
        probe("https://c.example", ok_reply(), 19),
    ]);
    assert_eq!(again.len(), 1);
    assert_eq!(again[0].error_message, "second");
}

#[test]
fn sweep_without_failures_reports_nothing() {
    let mut monitor = WebsiteMonitor::default();
    monitor.add_website("https://a.example".to_string());
    let reports = monitor.update_website_status(vec![probe("https://a.example", ok_reply(), 1)]);
    assert!(reports.is_empty());
    let none = monitor.update_website_status(Vec::new());
    assert!(none.is_empty());
    assert_eq!(monitor.get_status()[0].total_checks.len(), 1);
}

#[test]
fn probe_of_unregistered_url_is_dropped() {
    let mut monitor = WebsiteMonitor::default();
    monitor.add_website("https://a.example".to_string());
    let reports = monitor.update_website_status(vec![
        probe("https://stranger.example", refused(), 5),
        probe("https://a.example", ok_reply(), 6),
    ]);
    assert!(reports.is_empty());
    let status = monitor.get_status();
    assert_eq!(status.len(), 1);
    assert_eq!(status[0].total_checks.len(), 1);
}

#[test]
fn two_probes_of_one_site_are_both_recorded_in_order() {
    let mut monitor = WebsiteMonitor::default();
    monitor.add_website("https://a.example".to_string());
    let reports = monitor.update_website_status(vec![
        probe("https://a.example", refused(), 5),
        probe("https://a.example", ok_reply(), 6),
    ]);
    assert_eq!(reports.len(), 1);
    let status = monitor.get_status();
    assert_eq!(status[0].total_checks.len(), 2);
    assert!(!status[0].total_checks[0].status.is_up());
    assert!(status[0].total_checks[1].status.is_up());
    assert!(status[0].is_up);
    assert_eq!(status[0].successful_checks, 1);
}

#[test]
fn record_check_updates_one_site() {
    let mut monitor = WebsiteMonitor::default();
    monitor.add_website("https://a.example".to_string());
    monitor.add_website("https://b.example".to_string());
    let status = CheckStatus::Down { status_code: 502, error_message: "bad gateway".to_string() };
    let report = monitor.record_check("https://b.example", status, 44).unwrap();
    assert_eq!(report.url, "https://b.example");
    assert_eq!(report.status_code, 502);
    assert_eq!(report.error_message, "bad gateway");
    assert_eq!(report.timestamp, 44);
    let up = CheckStatus::Up(ResponseDetails {
        status_code: 204,
        headers: Vec::new(),
        content_length: None,
    });
    assert!(monitor.record_check("https://b.example", up, 45).is_none());
    let sites = monitor.get_status();
    assert!(site(&sites, "https://a.example").total_checks.is_empty());
    let b = site(&sites, "https://b.example");
    assert_eq!(b.total_checks.len(), 2);
    assert_eq!(b.successful_checks, 1);
    assert!(b.is_up);
    assert_eq!(b.last_check, Some(45));
}

#[test]
fn record_check_of_unregistered_url_changes_nothing() {
    let mut monitor = WebsiteMonitor::default();
    monitor.add_website("https://a.example".to_string());
    let status = CheckStatus::Down { status_code: 0, error_message: "timeout".to_string() };
    assert!(monitor.record_check("https://other.example", status, 3).is_none());
    let sites = monitor.get_status();
    assert_eq!(sites.len(), 1);
    assert!(sites[0].total_checks.is_empty());
}

#[test]
fn snapshot_is_a_copy() {
    let mut monitor = WebsiteMonitor::default();
    monitor.add_website("https://a.example".to_string());
    let before = monitor.get_status();
    monitor.update_website_status(vec![probe("https://a.example", ok_reply(), 1)]);
    assert!(before[0].total_checks.is_empty());
    assert_eq!(monitor.get_status()[0].total_checks.len(), 1);
}

#[test]
fn website_record_keeps_fields_in_step() {
    let mut state = Website::new("https://a.example".to_string());
    assert_eq!(state.last_check, None);
    state.record(CheckStatus::Down { status_code: 0, error_message: "dns".to_string() }, 9);
    assert!(!state.is_up);
    assert_eq!(state.successful_checks, 0);
    assert_eq!(state.last_check, Some(9));
    let details = ResponseDetails { status_code: 200, headers: Vec::new(), content_length: Some(3) };
    state.record(CheckStatus::Up(details), 12);
    assert!(state.is_up);
    assert_eq!(state.successful_checks, 1);
    assert_eq!(state.last_check, Some(12));
    assert_eq!(state.total_checks.len(), 2);
    let copy = state.clone();
    assert_eq!(copy.url, "https://a.example");
    assert_eq!(copy.total_checks.len(), 2);
    assert_eq!(copy.total_checks[1].timestamp, 12);
    match &copy.total_checks[1].status {
        CheckStatus::Up(d) => assert_eq!(d.content_length, Some(3)),
        CheckStatus::Down { .. } => panic!("the second check found the site up"),
    }
}

#[test]
fn start_monitoring_waits_one_interval() {
    let monitor = WebsiteMonitor::default();
    let schedule = monitor.start_monitoring(60, 1_000);
    assert_eq!(schedule.origin(), 1_000);
    assert_eq!(schedule.period(), 60);
    assert_eq!(schedule.next_due(), 1_060);
}
