//! The data that the monitor keeps about each site, and the mathematical
//! values that the contracts of this crate speak of.
//!
//! Every type here has a view (`@`): the same data with strings as `Seq<char>`
//! and vectors as `Seq`. A time is a reading of the caller's clock, a `u64` in
//! whatever unit that clock counts; the library stores and compares times and
//! never reads a clock itself.

use vstd::prelude::*;

verus! {

/// What a site answered when a probe found it up.
pub struct ResponseDetails {
    pub status_code: u16,
    /// Header names with their values. As a mapping: see [`names_distinct`].
    pub headers: Vec<(String, String)>,
    pub content_length: Option<u64>,
}

/// The classified result of one probe.
pub enum CheckStatus {
    Up(ResponseDetails),
    /// `status_code` is 0 where no response was received.
    Down { status_code: u16, error_message: String },
}

/// One completed probe: what it found, and when.
pub struct Check {
    pub status: CheckStatus,
    pub timestamp: u64,
}

/// The state of one monitored site.
pub struct Website {
    pub url: String,
    /// When the last probe completed; `None` until the first one has.
    pub last_check: Option<u64>,
    pub is_up: bool,
    /// Every probe of this site, oldest first.
    pub total_checks: Vec<Check>,
    pub successful_checks: u64,
}

/// What a notification says about one failed probe.
pub struct FailReport {
    pub url: String,
    pub status_code: u16,
    pub error_message: String,
    pub timestamp: u64,
}

pub struct ResponseDetailsView {
    pub status_code: u16,
    pub headers: Seq<(Seq<char>, Seq<char>)>,
    pub content_length: Option<u64>,
}

pub enum CheckStatusView {
    Up(ResponseDetailsView),
    Down { status_code: u16, error_message: Seq<char> },
}

pub struct CheckView {
    pub status: CheckStatusView,
    pub timestamp: u64,
}

pub struct WebsiteView {
    pub url: Seq<char>,
    pub last_check: Option<u64>,
    pub is_up: bool,
    pub total_checks: Seq<CheckView>,
    pub successful_checks: nat,
}

pub struct FailReportView {
    pub url: Seq<char>,
    pub status_code: u16,
    pub error_message: Seq<char>,
    pub timestamp: u64,
}

/// A list of string pairs, each string as its characters.
pub open spec fn pairs_view(pairs: Seq<(String, String)>) -> Seq<(Seq<char>, Seq<char>)> {
    Seq::new(pairs.len(), |i: int| (pairs[i].0@, pairs[i].1@))
}

/// A history, each check as its view.
pub open spec fn checks_view(checks: Seq<Check>) -> Seq<CheckView> {
    Seq::new(checks.len(), |i: int| checks[i]@)
}

/// How many checks of a history found the site up.
pub open spec fn count_up(history: Seq<CheckView>) -> nat
    decreases history.len(),
{
    if history.len() == 0 {
        0
    } else {
        count_up(history.drop_last()) + if history.last().status is Up {
            1nat
        } else {
            0nat
        }
    }
}

/// Whether the times of a history never go back.
pub open spec fn time_ordered(history: Seq<CheckView>) -> bool {
    forall|i: int, j: int|
        0 <= i <= j < history.len() ==> history[i].timestamp <= history[j].timestamp
}

/// Whether a header list is a mapping: no name occurs twice.
pub open spec fn names_distinct(headers: Seq<(Seq<char>, Seq<char>)>) -> bool {
    forall|i: int, j: int| 0 <= i < j < headers.len() ==> headers[i].0 != headers[j].0
}

impl CheckStatusView {
    /// The report that a failed probe of `url` at `timestamp` calls for; none
    /// for a probe that found the site up. The report repeats the outcome:
    /// its status code, 0 where no response was received, and its message.
    pub open spec fn report(self, url: Seq<char>, timestamp: u64) -> Option<FailReportView> {
        match self {
            CheckStatusView::Up(_) => None,
            CheckStatusView::Down { status_code, error_message } => Some(
                FailReportView { url, status_code, error_message, timestamp },
            ),
        }
    }
}

impl WebsiteView {
    /// The state of a site that was registered and not probed yet.
    pub open spec fn fresh(url: Seq<char>) -> WebsiteView {
        WebsiteView {
            url,
            last_check: None,
            is_up: false,
            total_checks: Seq::empty(),
            successful_checks: 0,
        }
    }

    /// Whether the derived fields say what the history says: the count of
    /// successes, and the result and time of the last check.
    pub open spec fn consistent(self) -> bool {
        &&& self.successful_checks == count_up(self.total_checks)
        &&& self.total_checks.len() == 0 ==> !self.is_up && self.last_check is None
        &&& self.total_checks.len() > 0 ==> {
            &&& self.is_up == (self.total_checks.last().status is Up)
            &&& self.last_check == Some(self.total_checks.last().timestamp)
        }
    }

    /// The state after one more check.
    pub open spec fn record(self, check: CheckView) -> WebsiteView {
        WebsiteView {
            url: self.url,
            last_check: Some(check.timestamp),
            is_up: check.status is Up,
            total_checks: self.total_checks.push(check),
            successful_checks: self.successful_checks + if check.status is Up {
                1nat
            } else {
                0nat
            },
        }
    }
}

impl View for ResponseDetails {
    type V = ResponseDetailsView;

    open spec fn view(&self) -> ResponseDetailsView {
        ResponseDetailsView {
            status_code: self.status_code,
            headers: pairs_view(self.headers@),
            content_length: self.content_length,
        }
    }
}

impl View for CheckStatus {
    type V = CheckStatusView;

    open spec fn view(&self) -> CheckStatusView {
        match self {
            CheckStatus::Up(details) => CheckStatusView::Up(details@),
            CheckStatus::Down { status_code, error_message } => CheckStatusView::Down {
                status_code: *status_code,
                error_message: error_message@,
            },
        }
    }
}

impl View for Check {
    type V = CheckView;

    open spec fn view(&self) -> CheckView {
        CheckView { status: self.status@, timestamp: self.timestamp }
    }
}

impl View for Website {
    type V = WebsiteView;

    open spec fn view(&self) -> WebsiteView {
        WebsiteView {
            url: self.url@,
            last_check: self.last_check,
            is_up: self.is_up,
            total_checks: checks_view(self.total_checks@),
            successful_checks: self.successful_checks as nat,
        }
    }
}

impl View for FailReport {
    type V = FailReportView;

    open spec fn view(&self) -> FailReportView {
        FailReportView {
            url: self.url@,
            status_code: self.status_code,
            error_message: self.error_message@,
            timestamp: self.timestamp,
        }
    }
}

/// A history holds no more successes than checks.
pub proof fn lemma_count_up_bounded(history: Seq<CheckView>)
    ensures
        count_up(history) <= history.len(),
    decreases history.len(),
{
    if history.len() > 0 {
        lemma_count_up_bounded(history.drop_last());
    }
}

/// One more check adds one to the successes if it found the site up, and
/// nothing otherwise.
pub proof fn lemma_count_up_push(history: Seq<CheckView>, check: CheckView)
    ensures
        count_up(history.push(check)) == count_up(history) + if check.status is Up {
            1nat
        } else {
            0nat
        },
{
    assert(history.push(check).drop_last() =~= history);
}

/// A copy of a list of string pairs.
pub fn clone_pairs(pairs: &Vec<(String, String)>) -> (copy: Vec<(String, String)>)
    ensures
        pairs_view(copy@) == pairs_view(pairs@),
{
    let mut copy: Vec<(String, String)> = Vec::new();
    let mut i: usize = 0;
    while i < pairs.len()
        invariant
            i <= pairs.len(),
            copy.len() == i,
            forall|k: int| 0 <= k < i ==> copy[k].0@ == pairs[k].0@ && copy[k].1@ == pairs[k].1@,
        decreases pairs.len() - i,
    {
        copy.push((pairs[i].0.clone(), pairs[i].1.clone()));
        i += 1;
    }
    assert(pairs_view(copy@) =~= pairs_view(pairs@));
    copy
}

/// A copy of a history.
pub fn clone_checks(checks: &Vec<Check>) -> (copy: Vec<Check>)
    ensures
        checks_view(copy@) == checks_view(checks@),
{
    let mut copy: Vec<Check> = Vec::new();
    let mut i: usize = 0;
    while i < checks.len()
        invariant
            i <= checks.len(),
            copy.len() == i,
            forall|k: int| 0 <= k < i ==> copy[k]@ == checks[k]@,
        decreases checks.len() - i,
    {
        copy.push(checks[i].clone());
        i += 1;
    }
    assert(checks_view(copy@) =~= checks_view(checks@));
    copy
}

impl Clone for ResponseDetails {
    fn clone(&self) -> (copy: Self)
        ensures
            copy@ == self@,
    {
        ResponseDetails {
            status_code: self.status_code,
            headers: clone_pairs(&self.headers),
            content_length: self.content_length,
        }
    }
}

impl Clone for CheckStatus {
    fn clone(&self) -> (copy: Self)
        ensures
            copy@ == self@,
    {
        match self {
            CheckStatus::Up(details) => CheckStatus::Up(details.clone()),
            CheckStatus::Down { status_code, error_message } => CheckStatus::Down {
                status_code: *status_code,
                error_message: error_message.clone(),
            },
        }
    }
}

impl Clone for Check {
    fn clone(&self) -> (copy: Self)
        ensures
            copy@ == self@,
    {
        Check { status: self.status.clone(), timestamp: self.timestamp }
    }
}

impl Clone for Website {
    fn clone(&self) -> (copy: Self)
        ensures
            copy@ == self@,
    {
        Website {
            url: self.url.clone(),
            last_check: self.last_check,
            is_up: self.is_up,
            total_checks: clone_checks(&self.total_checks),
            successful_checks: self.successful_checks,
        }
    }
}

impl Clone for FailReport {
    fn clone(&self) -> (copy: Self)
        ensures
            copy@ == self@,
    {
        FailReport {
            url: self.url.clone(),
            status_code: self.status_code,
            error_message: self.error_message.clone(),
            timestamp: self.timestamp,
        }
    }
}

impl ResponseDetails {
    /// Whether the headers are a mapping: no name occurs twice.
    pub open spec fn wf(&self) -> bool {
        names_distinct(self@.headers)
    }
}

impl CheckStatus {
    /// Whether the probe found the site up.
    pub fn is_up(&self) -> (up: bool)
        ensures
            up == (self@ is Up),
            up == (*self is Up),
    {
        match self {
            CheckStatus::Up(_) => true,
            CheckStatus::Down { .. } => false,
        }
    }

    /// The report that this result of a probe of `url` at `timestamp` calls
    /// for: one for each failed probe, none for a probe that found the site
    /// up. The report repeats the status code and the message of the result.
    pub fn report(&self, url: &str, timestamp: u64) -> (report: Option<FailReport>)
        ensures
            report is Some == (self@ is Down),
            report matches Some(r) ==> self@ == (CheckStatusView::Down {
                status_code: r.status_code,
                error_message: r.error_message@,
            }) && r.url@ == url@ && r.timestamp == timestamp,
            match report {
                Some(r) => Some(r@) == self@.report(url@, timestamp),
                None => self@.report(url@, timestamp) is None,
            },
    {
        match self {
            CheckStatus::Up(_) => None,
            CheckStatus::Down { status_code, error_message } => Some(
                FailReport {
                    url: url.to_owned(),
                    status_code: *status_code,
                    error_message: error_message.clone(),
                    timestamp,
                },
            ),
        }
    }
}

impl Website {
    /// Whether the derived fields say what the history says.
    pub open spec fn wf(&self) -> bool {
        self@.consistent()
    }

    /// The state of a site that was registered and not probed yet.
    pub fn new(url: String) -> (site: Website)
        ensures
            site@ == WebsiteView::fresh(url@),
            site.wf(),
    {
        let site = Website {
            url,
            last_check: None,
            is_up: false,
            total_checks: Vec::new(),
            successful_checks: 0,
        };
        assert(site@.total_checks =~= Seq::empty());
        site
    }

    /// Appends one check to the history and brings the derived fields up to
    /// date with it.
    pub fn record(&mut self, status: CheckStatus, timestamp: u64)
        requires
            old(self).wf(),
        ensures
            final(self)@ == old(self)@.record(CheckView { status: status@, timestamp }),
            final(self).wf(),
    {
        let up = status.is_up();
        let ghost before = self@;
        let ghost check = CheckView { status: status@, timestamp };
        self.total_checks.push(Check { status, timestamp });
        let checks: usize = self.total_checks.len();
        proof {
            assert(checks_view(self.total_checks@) =~= before.total_checks.push(check));
            lemma_count_up_bounded(before.total_checks);
            lemma_count_up_push(before.total_checks, check);
            assert(before.successful_checks < checks);
        }
        if up {
            self.successful_checks = self.successful_checks + 1;
        }
        self.is_up = up;
        self.last_check = Some(timestamp);
    }
}

} // verus!
