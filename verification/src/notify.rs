//! The notification sink: the e-mail that tells of one failed probe.
//!
//! The library writes the notice and checks its two addresses; delivering it
//! is the caller's work, and a delivery that fails changes nothing here.

use crate::email_config::{EmailConfig, EmailConfigView};
use crate::website::{FailReport, FailReportView};
use vstd::prelude::*;

verus! {

/// A notice ready for delivery.
pub struct Email {
    pub from: String,
    pub to: String,
    pub subject: String,
    pub body: String,
}

pub struct EmailView {
    pub from: Seq<char>,
    pub to: Seq<char>,
    pub subject: Seq<char>,
    pub body: Seq<char>,
}

impl View for Email {
    type V = EmailView;

    open spec fn view(&self) -> EmailView {
        EmailView { from: self.from@, to: self.to@, subject: self.subject@, body: self.body@ }
    }
}

/// Why no notice could be written.
#[derive(Clone, Copy, Debug, PartialEq, Eq, Structural)]
pub enum NotifyError {
    /// The configured recipient is no mailbox.
    InvalidRecipient,
    /// The configured sender is no mailbox.
    InvalidSender,
}

/// Whether `lettre` reads a text as a mailbox: an address, or a display name
/// followed by an address in angle brackets.
pub uninterp spec fn mailbox_parses(text: Seq<char>) -> bool;

/// Whether a text is a mailbox. Calls the `FromStr` of
/// `lettre::message::Mailbox` and tells whether it returned `Ok`; the parser
/// reads nothing but the text, so the answer is named by [`mailbox_parses`].
#[verifier::external_body]
fn is_mailbox(text: &str) -> (ok: bool)
    ensures
        ok == mailbox_parses(text@),
{
    text.parse::<lettre::message::Mailbox>().is_ok()
}

/// The decimal digit for a number below ten.
pub open spec fn digit(d: nat) -> char {
    if d == 0 {
        '0'
    } else if d == 1 {
        '1'
    } else if d == 2 {
        '2'
    } else if d == 3 {
        '3'
    } else if d == 4 {
        '4'
    } else if d == 5 {
        '5'
    } else if d == 6 {
        '6'
    } else if d == 7 {
        '7'
    } else if d == 8 {
        '8'
    } else {
        '9'
    }
}

/// A number in decimal digits, without leading zeros.
pub open spec fn decimal(n: nat) -> Seq<char>
    decreases n,
{
    if n < 10 {
        seq![digit(n)]
    } else {
        decimal(n / 10).push(digit(n % 10))
    }
}

/// The subject line of a notice about `url`.
pub open spec fn subject_line(prefix: Seq<char>, url: Seq<char>) -> Seq<char> {
    prefix + " "@ + url + " is down!"@
}

/// The text of a notice.
pub open spec fn body_text(report: FailReportView) -> Seq<char> {
    "The website "@ + report.url + " is down with status code "@ + decimal(
        report.status_code as nat,
    ) + ". Error message: "@ + report.error_message + " At: "@ + decimal(report.timestamp as nat)
}

/// The notice about a report, given whether the recipient and the sender of
/// the configuration are mailboxes. The recipient is looked at first.
pub open spec fn composed(
    config: EmailConfigView,
    report: FailReportView,
    recipient_ok: bool,
    sender_ok: bool,
) -> Result<EmailView, NotifyError> {
    if !recipient_ok {
        Err(NotifyError::InvalidRecipient)
    } else if !sender_ok {
        Err(NotifyError::InvalidSender)
    } else {
        Ok(
            EmailView {
                from: config.from_email,
                to: config.to_email,
                subject: subject_line(config.subject, report.url),
                body: body_text(report),
            },
        )
    }
}

/// A notice, or the reason why there is none, as a mathematical value.
pub open spec fn composed_view(result: Result<Email, NotifyError>) -> Result<
    EmailView,
    NotifyError,
> {
    match result {
        Ok(email) => Ok(email@),
        Err(e) => Err(e),
    }
}

/// The text of one decimal digit.
fn digit_text(d: u64) -> (text: &'static str)
    requires
        d < 10,
    ensures
        text@ == seq![digit(d as nat)],
{
    proof {
        reveal_strlit("0");
        reveal_strlit("1");
        reveal_strlit("2");
        reveal_strlit("3");
        reveal_strlit("4");
        reveal_strlit("5");
        reveal_strlit("6");
        reveal_strlit("7");
        reveal_strlit("8");
        reveal_strlit("9");
    }
    let text = if d == 0 {
        "0"
    } else if d == 1 {
        "1"
    } else if d == 2 {
        "2"
    } else if d == 3 {
        "3"
    } else if d == 4 {
        "4"
    } else if d == 5 {
        "5"
    } else if d == 6 {
        "6"
    } else if d == 7 {
        "7"
    } else if d == 8 {
        "8"
    } else {
        "9"
    };
    assert(text@ =~= seq![digit(d as nat)]);
    text
}

/// Appends a number in decimal digits.
pub fn push_decimal(out: &mut String, n: u64)
    ensures
        final(out)@ == old(out)@ + decimal(n as nat),
    decreases n,
{
    if n < 10 {
        out.append(digit_text(n));
    } else {
        push_decimal(out, n / 10);
        out.append(digit_text(n % 10));
        assert(old(out)@ + decimal(n as nat / 10).push(digit(n as nat % 10)) =~= old(out)@
            + decimal(n as nat / 10) + seq![digit(n as nat % 10)]);
    }
}

/// The subject line of a notice about `url`.
pub fn write_subject(prefix: &str, url: &str) -> (subject: String)
    ensures
        subject@ == subject_line(prefix@, url@),
{
    let mut subject = prefix.to_owned();
    subject.append(" ");
    subject.append(url);
    subject.append(" is down!");
    subject
}

/// The text of a notice.
pub fn write_body(report: &FailReport) -> (body: String)
    ensures
        body@ == body_text(report@),
{
    let mut body = "The website ".to_owned();
    body.append(report.url.as_str());
    body.append(" is down with status code ");
    push_decimal(&mut body, report.status_code as u64);
    body.append(". Error message: ");
    body.append(report.error_message.as_str());
    body.append(" At: ");
    push_decimal(&mut body, report.timestamp);
    body
}

/// Writes the notice about a report, given whether the recipient and the
/// sender of the configuration are mailboxes.
pub fn compose_checked(
    config: &EmailConfig,
    report: &FailReport,
    recipient_ok: bool,
    sender_ok: bool,
) -> (result: Result<Email, NotifyError>)
    ensures
        composed_view(result) == composed(config@, report@, recipient_ok, sender_ok),
{
    if !recipient_ok {
        Err(NotifyError::InvalidRecipient)
    } else if !sender_ok {
        Err(NotifyError::InvalidSender)
    } else {
        Ok(
            Email {
                from: config.from_email.clone(),
                to: config.to_email.clone(),
                subject: write_subject(config.subject.as_str(), report.url.as_str()),
                body: write_body(report),
            },
        )
    }
}

/// Writes the notice about a report. There is none where the configured
/// recipient, or else the configured sender, is no mailbox.
pub fn compose(config: &EmailConfig, report: &FailReport) -> (result: Result<Email, NotifyError>)
    ensures
        composed_view(result) == composed(
            config@,
            report@,
            mailbox_parses(config.to_email@),
            mailbox_parses(config.from_email@),
        ),
{
    let recipient_ok = is_mailbox(config.to_email.as_str());
    let sender_ok = recipient_ok && is_mailbox(config.from_email.as_str());
    compose_checked(config, report, recipient_ok, sender_ok)
}

} // verus!
