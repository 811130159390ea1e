use website_monitor::email_config::EmailConfig;
use website_monitor::monitor::WebsiteMonitor;
use website_monitor::notify::{
    compose, compose_checked, push_decimal, write_body, write_subject, NotifyError,
};
use website_monitor::website::FailReport;

fn config(from: &str, to: &str) -> EmailConfig {
    EmailConfig {
        smtp_relay: "smtp.example.com".to_string(),
        smtp_username: "monitor".to_string(),
        smtp_password: "hunter2".to_string(),
        from_email: from.to_string(),
        to_email: to.to_string(),
        subject: "[uptime]".to_string(),
    }
}

fn report() -> FailReport {
    FailReport {
        url: "https://shop.example.com".to_string(),
        status_code: 503,
        error_message: "Service Unavailable".to_string(),
        timestamp: 1_700_000_000,
    }
}

fn decimal(n: u64) -> String {
    let mut out = String::new();
    push_decimal(&mut out, n);
    out
}

#[test]
fn decimal_digits() {
    assert_eq!(decimal(0), "0");
    assert_eq!(decimal(7), "7");
    assert_eq!(decimal(9), "9");
    assert_eq!(decimal(10), "10");
    assert_eq!(decimal(404), "404");
    assert_eq!(decimal(65535), "65535");
    assert_eq!(decimal(1_234_567_890), "1234567890");
    assert_eq!(decimal(u64::MAX), "18446744073709551615");
}

#[test]
fn decimal_is_appended() {
    let mut out = "code ".to_string();
    push_decimal(&mut out, 502);
    assert_eq!(out, "code 502");
}

#[test]
fn subject_names_the_site() {
    assert_eq!(write_subject("[uptime]", "https://a.example"), "[uptime] https://a.example is down!");
    assert_eq!(write_subject("", ""), "  is down!");
}

#[test]
fn body_tells_code_message_and_time() {
    assert_eq!(
        write_body(&report()),
        "The website https://shop.example.com is down with status code 503. \
         Error message: Service Unavailable At: 1700000000"
    );
}

#[test]
fn body_of_a_probe_without_response_tells_code_zero() {
    let report = FailReport {
        url: "https://a.example".to_string(),
        status_code: 0,
        error_message: "connection refused".to_string(),
        timestamp: 12,
    };
    assert_eq!(
        write_body(&report),
        "The website https://a.example is down with status code 0. \
         Error message: connection refused At: 12"
    );
}

#[test]
fn settings_can_be_printed() {
    let text = format!("{:?}", config("monitor@example.com", "ops@example.com"));
    assert!(text.starts_with("EmailConfig"));
    assert!(text.contains("smtp.example.com"));
}

#[test]
fn notice_for_valid_addresses() {
    let email = compose(&config("monitor@example.com", "Ops Team <ops@example.com>"), &report())
        .unwrap();
    assert_eq!(email.from, "monitor@example.com");
    assert_eq!(email.to, "Ops Team <ops@example.com>");
    assert_eq!(email.subject, "[uptime] https://shop.example.com is down!");
    assert_eq!(
        email.body,
        "The website https://shop.example.com is down with status code 503. \
         Error message: Service Unavailable At: 1700000000"
    );
}

#[test]
fn recipient_that_is_no_mailbox_is_refused() {
    let result = compose(&config("monitor@example.com", "not an address"), &report());
    assert_eq!(result.err(), Some(NotifyError::InvalidRecipient));
    let empty = compose(&config("monitor@example.com", ""), &report());
    assert_eq!(empty.err(), Some(NotifyError::InvalidRecipient));
}

#[test]
fn sender_that_is_no_mailbox_is_refused() {
    let result = compose(&config("nobody", "ops@example.com"), &report());
    assert_eq!(result.err(), Some(NotifyError::InvalidSender));
}

#[test]
fn recipient_is_looked_at_first() {
    let result = compose(&config("nobody", "nowhere"), &report());
    assert_eq!(result.err(), Some(NotifyError::InvalidRecipient));
}

#[test]
fn compose_checked_follows_the_two_answers() {
    let settings = config("a", "b");
    assert_eq!(
        compose_checked(&settings, &report(), false, true).err(),
        Some(NotifyError::InvalidRecipient)
    );
    assert_eq!(
        compose_checked(&settings, &report(), false, false).err(),
        Some(NotifyError::InvalidRecipient)
    );
    assert_eq!(
        compose_checked(&settings, &report(), true, false).err(),
        Some(NotifyError::InvalidSender)
    );
    let email = compose_checked(&settings, &report(), true, true).unwrap();
    assert_eq!(email.from, "a");
    assert_eq!(email.to, "b");
}

#[test]
fn monitor_without_settings_writes_no_notice() {
    let monitor = WebsiteMonitor::new(None);
    assert_eq!(monitor.send_email_notification(report()).unwrap().map(|e| e.subject), None);
}

#[test]
fn monitor_with_settings_writes_the_notice() {
    let monitor = WebsiteMonitor::new(Some(config("monitor@example.com", "ops@example.com")));
    let email = monitor.send_email_notification(report()).unwrap().unwrap();
    assert_eq!(email.to, "ops@example.com");
    assert_eq!(email.subject, "[uptime] https://shop.example.com is down!");
    let broken = WebsiteMonitor::new(Some(config("monitor@example.com", "@")));
    assert_eq!(
        broken.send_email_notification(report()).err(),
        Some(NotifyError::InvalidRecipient)
    );
}

#[test]
fn settings_are_copied_whole() {
    let copy = config("monitor@example.com", "ops@example.com").clone();
    assert_eq!(copy.smtp_relay, "smtp.example.com");
    assert_eq!(copy.smtp_username, "monitor");
    assert_eq!(copy.smtp_password, "hunter2");
    assert_eq!(copy.from_email, "monitor@example.com");
    assert_eq!(copy.to_email, "ops@example.com");
    assert_eq!(copy.subject, "[uptime]");
}
