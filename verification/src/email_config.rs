//! The settings of the e-mail notification: where to deliver, as whom, and
//! under which subject.

use vstd::prelude::*;

verus! {

/// The settings of the e-mail notification.
#[derive(Debug)]
pub struct EmailConfig {
    pub smtp_relay: String,
    pub smtp_username: String,
    pub smtp_password: String,
    pub from_email: String,
    pub to_email: String,
    /// What the subject line of every notice begins with.
    pub subject: String,
}

pub struct EmailConfigView {
    pub smtp_relay: Seq<char>,
    pub smtp_username: Seq<char>,
    pub smtp_password: Seq<char>,
    pub from_email: Seq<char>,
    pub to_email: Seq<char>,
    pub subject: Seq<char>,
}

impl View for EmailConfig {
    type V = EmailConfigView;

    open spec fn view(&self) -> EmailConfigView {
        EmailConfigView {
            smtp_relay: self.smtp_relay@,
            smtp_username: self.smtp_username@,
            smtp_password: self.smtp_password@,
            from_email: self.from_email@,
            to_email: self.to_email@,
            subject: self.subject@,
        }
    }
}

impl Clone for EmailConfig {
    fn clone(&self) -> (copy: Self)
        ensures
            copy@ == self@,
    {
        EmailConfig {
            smtp_relay: self.smtp_relay.clone(),
            smtp_username: self.smtp_username.clone(),
            smtp_password: self.smtp_password.clone(),
            from_email: self.from_email.clone(),
            to_email: self.to_email.clone(),
            subject: self.subject.clone(),
        }
    }
}

} // verus!
