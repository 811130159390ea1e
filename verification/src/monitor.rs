//! The registry of monitored sites.
//!
//! The registry is a plain value: whoever shares it between tasks puts it
//! behind a lock. Every operation here takes it from one consistent state to
//! the next, so a reader that holds the lock between two operations sees no
//! site whose fields disagree with its history.
//!
//! The sites are kept in a list, in the order in which they were registered,
//! and that no URL stands in it twice is part of its well-formedness. A hash
//! map keyed by the URL would say the same by construction, but vstd gives
//! no model of hashing for `String` keys, so nothing could be proved of it.
//! The same holds of the header names of a response.
//!
//! A sweep is made in three steps. [`WebsiteMonitor::targets`] lists the
//! sites to probe. The caller probes them, in any order and all at once if
//! it likes, with the registry unlocked. [`WebsiteMonitor::update_website_status`]
//! then folds what was measured into the registry, one site after the other,
//! and hands back one report for each failed probe.

use crate::email_config::{EmailConfig, EmailConfigView};
use crate::notify::{compose, composed, mailbox_parses, Email, EmailView, NotifyError};
use crate::probe::{classify, outcome, HttpReply, HttpReplyView};
use crate::schedule::{Schedule, ScheduleView};
use crate::website::{
    count_up, lemma_count_up_bounded, lemma_count_up_push, time_ordered, CheckStatus,
    CheckView,
    FailReport, FailReportView, Website, WebsiteView,
};
use vstd::prelude::*;

verus! {

/// The registry: each monitored site once, with its state.
pub struct WebsiteMonitor {
    websites: Vec<Website>,
    email_config: Option<EmailConfig>,
}

/// What was measured for one site during a sweep.
pub struct Probe {
    pub url: String,
    pub reply: HttpReply,
    /// When the probe completed.
    pub timestamp: u64,
}

pub struct ProbeView {
    pub url: Seq<char>,
    pub reply: HttpReplyView,
    pub timestamp: u64,
}

impl View for Probe {
    type V = ProbeView;

    open spec fn view(&self) -> ProbeView {
        ProbeView { url: self.url@, reply: self.reply@, timestamp: self.timestamp }
    }
}

impl ProbeView {
    /// The check that this probe adds to the history of its site.
    pub open spec fn check(self) -> CheckView {
        CheckView { status: outcome(self.reply), timestamp: self.timestamp }
    }
}

/// Sites, each as its view.
pub open spec fn sites_view(sites: Seq<Website>) -> Seq<WebsiteView> {
    Seq::new(sites.len(), |i: int| sites[i]@)
}

/// Probes, each as its view.
pub open spec fn probes_view(probes: Seq<Probe>) -> Seq<ProbeView> {
    Seq::new(probes.len(), |i: int| probes[i]@)
}

/// Reports, each as its view.
pub open spec fn reports_view(reports: Seq<FailReport>) -> Seq<FailReportView> {
    Seq::new(reports.len(), |i: int| reports[i]@)
}

/// Whether no URL is registered twice.
pub open spec fn urls_distinct(sites: Seq<WebsiteView>) -> bool {
    forall|i: int, j: int| 0 <= i < j < sites.len() ==> sites[i].url != sites[j].url
}

/// Whether every site's fields say what its history says.
pub open spec fn all_consistent(sites: Seq<WebsiteView>) -> bool {
    forall|i: int| 0 <= i < sites.len() ==> (#[trigger] sites[i]).consistent()
}

/// Whether these sites are a registry: each URL once, each site consistent.
pub open spec fn registry_wf(sites: Seq<WebsiteView>) -> bool {
    urls_distinct(sites) && all_consistent(sites)
}

/// Whether a URL is registered.
pub open spec fn registered(sites: Seq<WebsiteView>, url: Seq<char>) -> bool {
    exists|i: int| 0 <= i < sites.len() && #[trigger] sites[i].url == url
}

/// The place of a registered URL.
pub open spec fn position(sites: Seq<WebsiteView>, url: Seq<char>) -> int {
    choose|i: int| 0 <= i < sites.len() && #[trigger] sites[i].url == url
}

/// The state of a registered site.
pub open spec fn site_of(sites: Seq<WebsiteView>, url: Seq<char>) -> WebsiteView {
    sites[position(sites, url)]
}

/// The registry after `url` was added: a fresh state in the place of the
/// state it had, or at the end if it was not registered.
pub open spec fn added(sites: Seq<WebsiteView>, url: Seq<char>) -> Seq<WebsiteView> {
    if registered(sites, url) {
        sites.update(position(sites, url), WebsiteView::fresh(url))
    } else {
        sites.push(WebsiteView::fresh(url))
    }
}

/// The registry after one check of `url`. A check of a URL that is not
/// registered changes nothing.
pub open spec fn recorded(sites: Seq<WebsiteView>, url: Seq<char>, check: CheckView) -> Seq<
    WebsiteView,
> {
    if registered(sites, url) {
        sites.update(position(sites, url), site_of(sites, url).record(check))
    } else {
        sites
    }
}

/// The registry after a sweep that measured `probes`, in this order.
pub open spec fn swept(sites: Seq<WebsiteView>, probes: Seq<ProbeView>) -> Seq<WebsiteView>
    decreases probes.len(),
{
    if probes.len() == 0 {
        sites
    } else {
        recorded(swept(sites, probes.drop_last()), probes.last().url, probes.last().check())
    }
}

/// The checks that a sweep adds to the history of `url`, oldest first.
pub open spec fn checks_for(url: Seq<char>, probes: Seq<ProbeView>) -> Seq<CheckView>
    decreases probes.len(),
{
    if probes.len() == 0 {
        Seq::empty()
    } else if probes.last().url == url {
        checks_for(url, probes.drop_last()).push(probes.last().check())
    } else {
        checks_for(url, probes.drop_last())
    }
}

/// Whether a probe leads to a report: its site is registered, and it found
/// the site down.
pub open spec fn fails(sites: Seq<WebsiteView>, probe: ProbeView) -> bool {
    registered(sites, probe.url) && outcome(probe.reply) is Down
}

/// The reports of a sweep: one for each probe that fails, in the order of the
/// probes.
pub open spec fn failures(sites: Seq<WebsiteView>, probes: Seq<ProbeView>) -> Seq<FailReportView>
    decreases probes.len(),
{
    if probes.len() == 0 {
        Seq::empty()
    } else if fails(sites, probes.last()) {
        failures(sites, probes.drop_last()).push(
            outcome(probes.last().reply).report(probes.last().url, probes.last().timestamp)->0,
        )
    } else {
        failures(sites, probes.drop_last())
    }
}

/// How many probes of a sweep fail.
pub open spec fn failed_probes(sites: Seq<WebsiteView>, probes: Seq<ProbeView>) -> nat
    decreases probes.len(),
{
    if probes.len() == 0 {
        0
    } else {
        failed_probes(sites, probes.drop_last()) + if fails(sites, probes.last()) {
            1nat
        } else {
            0nat
        }
    }
}

/// Whether the probe at `k` is the one probe of `url` in a sweep.
pub open spec fn sole_probe(url: Seq<char>, probes: Seq<ProbeView>, k: int) -> bool {
    &&& 0 <= k < probes.len()
    &&& probes[k].url == url
    &&& forall|j: int| 0 <= j < probes.len() && j != k ==> (#[trigger] probes[j]).url != url
}

/// Whether a sweep holds exactly one probe of `url`.
pub open spec fn probed_once(url: Seq<char>, probes: Seq<ProbeView>) -> bool {
    exists|k: int| sole_probe(url, probes, k)
}

/// The place of the one probe of `url` in a sweep.
pub open spec fn probe_of(url: Seq<char>, probes: Seq<ProbeView>) -> int {
    choose|k: int| sole_probe(url, probes, k)
}

/// Whether a sweep holds exactly one probe of every registered site, in
/// whatever order.
pub open spec fn complete(sites: Seq<WebsiteView>, probes: Seq<ProbeView>) -> bool {
    forall|i: int| 0 <= i < sites.len() ==> probed_once((#[trigger] sites[i]).url, probes)
}

/// How many checks of a history found the site down.
pub open spec fn down_checks(history: Seq<CheckView>) -> nat {
    (history.len() - count_up(history)) as nat
}

/// How many failures a sweep counts, site by site.
pub open spec fn failed_by_site(sites: Seq<WebsiteView>, probes: Seq<ProbeView>) -> nat
    decreases sites.len(),
{
    if sites.len() == 0 {
        0
    } else {
        failed_by_site(sites.drop_last(), probes) + down_checks(
            checks_for(sites.last().url, probes),
        )
    }
}

/// Whether every history is in the order of time.
pub open spec fn all_time_ordered(sites: Seq<WebsiteView>) -> bool {
    forall|i: int| 0 <= i < sites.len() ==> time_ordered((#[trigger] sites[i]).total_checks)
}

/// Whether a sweep holds a probe of `url` that completed at `t`.
pub open spec fn stamped(url: Seq<char>, probes: Seq<ProbeView>, t: u64) -> bool {
    exists|j: int|
        0 <= j < probes.len() && (#[trigger] probes[j]).url == url && probes[j].timestamp == t
}

/// Whether the probes of a sweep are in time: none is older than the last
/// check that its site had before the sweep, nor than an earlier probe of the
/// same site in the sweep.
pub open spec fn in_time(sites: Seq<WebsiteView>, probes: Seq<ProbeView>) -> bool {
    &&& forall|i: int, k: int|
        0 <= i < sites.len() && 0 <= k < probes.len() && (#[trigger] probes[k]).url == (
        #[trigger] sites[i]).url ==> (sites[i].last_check matches Some(last) ==> last
            <= probes[k].timestamp)
    &&& forall|j: int, k: int|
        0 <= j < k < probes.len() && (#[trigger] probes[j]).url == (#[trigger] probes[k]).url
            ==> probes[j].timestamp <= probes[k].timestamp
}

/// How many sites are down.
pub open spec fn down_sites(sites: Seq<WebsiteView>) -> nat
    decreases sites.len(),
{
    if sites.len() == 0 {
        0
    } else {
        down_sites(sites.drop_last()) + if sites.last().is_up {
            0nat
        } else {
            1nat
        }
    }
}

/// The notice that a report calls for, given whether the recipient and the
/// sender of the configuration are mailboxes: none where no notification is
/// configured.
pub open spec fn notice(
    config: Option<EmailConfigView>,
    report: FailReportView,
    recipient_ok: bool,
    sender_ok: bool,
) -> Result<Option<EmailView>, NotifyError> {
    match config {
        None => Ok(None),
        Some(c) => match composed(c, report, recipient_ok, sender_ok) {
            Ok(email) => Ok(Some(email)),
            Err(e) => Err(e),
        },
    }
}

/// A notice, the lack of one, or the reason why none could be written, as a
/// mathematical value.
pub open spec fn notice_view(result: Result<Option<Email>, NotifyError>) -> Result<
    Option<EmailView>,
    NotifyError,
> {
    match result {
        Ok(Some(email)) => Ok(Some(email@)),
        Ok(None) => Ok(None),
        Err(e) => Err(e),
    }
}

/// In a registry, a site's place is the place that its URL is found at.
pub proof fn lemma_position(sites: Seq<WebsiteView>, i: int)
    requires
        urls_distinct(sites),
        0 <= i < sites.len(),
    ensures
        registered(sites, sites[i].url),
        position(sites, sites[i].url) == i,
        site_of(sites, sites[i].url) == sites[i],
{
    let url = sites[i].url;
    assert(sites[i].url == url);
    let j = position(sites, url);
    assert(0 <= j < sites.len() && sites[j].url == url);
    if j < i {
        assert(sites[j].url != sites[i].url);
    } else if i < j {
        assert(sites[i].url != sites[j].url);
    }
}

/// After a URL was added, it is registered once, with an empty history and
/// not up; the registry is a registry still; and every other URL is
/// registered as before, in the state it had.
pub proof fn lemma_added(sites: Seq<WebsiteView>, url: Seq<char>, other: Seq<char>)
    requires
        registry_wf(sites),
    ensures
        registry_wf(added(sites, url)),
        registered(added(sites, url), url),
        site_of(added(sites, url), url) == WebsiteView::fresh(url),
        site_of(added(sites, url), url).total_checks.len() == 0,
        !site_of(added(sites, url), url).is_up,
        forall|i: int, j: int|
            0 <= i < added(sites, url).len() && 0 <= j < added(sites, url).len() && added(
                sites,
                url,
            )[i].url == url && added(sites, url)[j].url == url ==> i == j,
        added(sites, url).len() == sites.len() + if registered(sites, url) {
            0int
        } else {
            1int
        },
        other != url ==> registered(added(sites, url), other) == registered(sites, other),
        other != url && registered(sites, other) ==> site_of(added(sites, url), other) == site_of(
            sites,
            other,
        ),
{
    let after = added(sites, url);
    let at: int = if registered(sites, url) {
        position(sites, url)
    } else {
        sites.len() as int
    };
    assert(0 <= at < after.len() && after[at] == WebsiteView::fresh(url));
    assert forall|i: int| 0 <= i < after.len() && i != at implies after[i] == sites[i]
        && after[i].url != url by {
        if registered(sites, url) {
            lemma_position(sites, at);
            if i < at {
                assert(sites[i].url != sites[at].url);
            } else {
                assert(sites[at].url != sites[i].url);
            }
        } else {
            assert(sites[i].url != url);
        }
    }
    assert forall|i: int, j: int| 0 <= i < j < after.len() implies after[i].url
        != after[j].url by {
        if i != at && j != at {
            assert(sites[i].url != sites[j].url);
        }
    }
    assert forall|i: int| 0 <= i < after.len() implies (#[trigger] after[i]).consistent() by {
        if i != at {
            assert(sites[i].consistent());
        }
    }
    lemma_position(after, at);
    assert forall|i: int, j: int|
        0 <= i < after.len() && 0 <= j < after.len() && after[i].url == url && after[j].url
            == url implies i == j by {
        assert(i == at && j == at);
    }
    if other != url {
        if registered(sites, other) {
            let k = position(sites, other);
            assert(k != at);
            assert(after[k] == sites[k]);
            lemma_position(after, k);
        } else if registered(after, other) {
            let k = position(after, other);
            assert(k != at);
            assert(sites[k].url == other);
        }
    }
}

/// Adding a URL that is registered puts no second entry beside the first,
/// and leaves nothing of its history.
pub proof fn lemma_add_resets(sites: Seq<WebsiteView>, url: Seq<char>)
    requires
        registry_wf(sites),
        registered(sites, url),
    ensures
        added(sites, url).len() == sites.len(),
        site_of(added(sites, url), url).total_checks == Seq::<CheckView>::empty(),
        site_of(added(sites, url), url).successful_checks == 0,
        site_of(added(sites, url), url).last_check is None,
{
    lemma_added(sites, url, url);
}

/// One more check keeps a consistent site consistent.
pub proof fn lemma_record_consistent(site: WebsiteView, check: CheckView)
    requires
        site.consistent(),
    ensures
        site.record(check).consistent(),
        site.record(check).is_up == (check.status is Up),
        site.record(check).total_checks.len() == site.total_checks.len() + 1,
        site.record(check).total_checks.last() == check,
{
    lemma_count_up_push(site.total_checks, check);
}

/// A check that is not older than the last one keeps a history in the order
/// of time.
pub proof fn lemma_record_keeps_order(site: WebsiteView, check: CheckView)
    requires
        site.consistent(),
        time_ordered(site.total_checks),
        site.last_check matches Some(last) ==> last <= check.timestamp,
    ensures
        time_ordered(site.record(check).total_checks),
{
    let after = site.record(check).total_checks;
    assert forall|i: int, j: int| 0 <= i <= j < after.len() implies after[i].timestamp
        <= after[j].timestamp by {
        if j < site.total_checks.len() {
            assert(site.total_checks[i].timestamp <= site.total_checks[j].timestamp);
        } else if i < site.total_checks.len() {
            let n = site.total_checks.len() - 1;
            assert(site.total_checks[i].timestamp <= site.total_checks[n].timestamp);
        }
    }
}

/// A check changes the state of its site and of no other; no URL is gained,
/// lost or moved, and the registry is a registry still.
pub proof fn lemma_recorded(sites: Seq<WebsiteView>, url: Seq<char>, check: CheckView)
    requires
        registry_wf(sites),
    ensures
        registry_wf(recorded(sites, url, check)),
        recorded(sites, url, check).len() == sites.len(),
        forall|i: int|
            0 <= i < sites.len() ==> #[trigger] recorded(sites, url, check)[i] == if sites[i].url
                == url {
                sites[i].record(check)
            } else {
                sites[i]
            },
        forall|other: Seq<char>|
            registered(recorded(sites, url, check), other) == registered(sites, other),
{
    let after = recorded(sites, url, check);
    if registered(sites, url) {
        let at = position(sites, url);
        lemma_position(sites, at);
        lemma_record_consistent(sites[at], check);
        assert forall|i: int| 0 <= i < sites.len() implies #[trigger] after[i] == if sites[i].url
            == url {
            sites[i].record(check)
        } else {
            sites[i]
        } by {
            if i < at {
                assert(sites[i].url != sites[at].url);
            } else if at < i {
                assert(sites[at].url != sites[i].url);
            }
        }
    } else {
        assert forall|i: int| 0 <= i < sites.len() implies sites[i].url != url by {}
    }
    assert forall|i: int| 0 <= i < sites.len() implies after[i].url == sites[i].url by {}
    assert forall|i: int, j: int| 0 <= i < j < after.len() implies after[i].url
        != after[j].url by {
        assert(sites[i].url != sites[j].url);
    }
    assert forall|i: int| 0 <= i < after.len() implies (#[trigger] after[i]).consistent() by {
        assert(sites[i].consistent());
        lemma_record_consistent(sites[i], check);
    }
    assert forall|other: Seq<char>| registered(after, other) == registered(sites, other) by {
        if registered(sites, other) {
            let k = position(sites, other);
            assert(after[k].url == other);
        }
        if registered(after, other) {
            let k = position(after, other);
            assert(sites[k].url == other);
        }
    }
}

/// A sweep adds to the history of each site the checks of its own probes, in
/// their order, and nothing else. No URL is gained, lost or moved, and every
/// site stays consistent: its count of successes, its last result and the
/// time of its last check are those of its history.
pub proof fn lemma_swept(sites: Seq<WebsiteView>, probes: Seq<ProbeView>)
    requires
        registry_wf(sites),
    ensures
        registry_wf(swept(sites, probes)),
        swept(sites, probes).len() == sites.len(),
        forall|i: int|
            0 <= i < sites.len() ==> {
                &&& (#[trigger] swept(sites, probes)[i]).url == sites[i].url
                &&& swept(sites, probes)[i].total_checks == sites[i].total_checks + checks_for(
                    sites[i].url,
                    probes,
                )
            },
        forall|i: int|
            0 <= i < sites.len() && swept(sites, probes)[i].total_checks.len() > 0 ==> {
                &&& (#[trigger] swept(sites, probes)[i]).is_up == (swept(
                    sites,
                    probes,
                )[i].total_checks.last().status is Up)
                &&& swept(sites, probes)[i].last_check == Some(
                    swept(sites, probes)[i].total_checks.last().timestamp,
                )
                &&& swept(sites, probes)[i].successful_checks == count_up(
                    swept(sites, probes)[i].total_checks,
                )
            },
        forall|other: Seq<char>|
            registered(swept(sites, probes), other) == registered(sites, other),
    decreases probes.len(),
{
    if probes.len() == 0 {
        assert forall|i: int| 0 <= i < sites.len() implies sites[i].total_checks
            == sites[i].total_checks + checks_for(sites[i].url, probes) by {
            assert(sites[i].total_checks + Seq::<CheckView>::empty() =~= sites[i].total_checks);
        }
    } else {
        let before = swept(sites, probes.drop_last());
        let last = probes.last();
        lemma_swept(sites, probes.drop_last());
        lemma_recorded(before, last.url, last.check());
        let after = swept(sites, probes);
        assert forall|i: int| 0 <= i < sites.len() implies {
            &&& (#[trigger] after[i]).url == sites[i].url
            &&& after[i].total_checks == sites[i].total_checks + checks_for(sites[i].url, probes)
        } by {
            assert(before[i].url == sites[i].url);
            let earlier = checks_for(sites[i].url, probes.drop_last());
            if sites[i].url == last.url {
                assert((sites[i].total_checks + earlier).push(last.check())
                    =~= sites[i].total_checks + earlier.push(last.check()));
            }
        }
    }
}

/// A sweep that holds one probe of a site adds that probe's check to the
/// site's history and nothing else: the history grows by one, the count of
/// successes by one if the probe found the site up and by nothing otherwise,
/// and the site is up after the sweep if and only if the probe found it up.
pub proof fn lemma_swept_once(sites: Seq<WebsiteView>, probes: Seq<ProbeView>, i: int, k: int)
    requires
        registry_wf(sites),
        0 <= i < sites.len(),
        0 <= k < probes.len(),
        probes[k].url == sites[i].url,
        forall|j: int| 0 <= j < probes.len() && j != k ==> probes[j].url != sites[i].url,
    ensures
        swept(sites, probes)[i] == sites[i].record(probes[k].check()),
        swept(sites, probes)[i].total_checks.len() == sites[i].total_checks.len() + 1,
        swept(sites, probes)[i].total_checks.last() == probes[k].check(),
        swept(sites, probes)[i].successful_checks == sites[i].successful_checks + if outcome(
            probes[k].reply,
        ) is Up {
            1nat
        } else {
            0nat
        },
        swept(sites, probes)[i].is_up == (outcome(probes[k].reply) is Up),
        swept(sites, probes)[i].last_check == Some(probes[k].timestamp),
{
    lemma_swept(sites, probes);
    lemma_checks_for_once(sites[i].url, probes, k);
    let after = swept(sites, probes)[i];
    let check = probes[k].check();
    assert(sites[i].consistent());
    assert(after.consistent());
    assert(sites[i].total_checks + seq![check] =~= sites[i].total_checks.push(check));
    lemma_record_consistent(sites[i], check);
}

/// After a sweep that probed every registered site once, in whatever order,
/// every history has grown by exactly one check, the check of the site's own
/// probe; every count of successes has grown by one where that probe found
/// the site up and has stayed otherwise; and there are as many reports as
/// sites that are down.
pub proof fn lemma_swept_all(sites: Seq<WebsiteView>, probes: Seq<ProbeView>)
    requires
        registry_wf(sites),
        complete(sites, probes),
    ensures
        swept(sites, probes).len() == sites.len(),
        forall|i: int|
            0 <= i < sites.len() ==> {
                let own = probes[probe_of(sites[i].url, probes)];
                &&& own.url == sites[i].url
                &&& #[trigger] swept(sites, probes)[i] == sites[i].record(own.check())
                &&& swept(sites, probes)[i].total_checks.len() == sites[i].total_checks.len() + 1
                &&& swept(sites, probes)[i].successful_checks == sites[i].successful_checks
                    + if outcome(own.reply) is Up {
                    1nat
                } else {
                    0nat
                }
                &&& swept(sites, probes)[i].is_up == (outcome(own.reply) is Up)
            },
        failures(sites, probes).len() == down_sites(swept(sites, probes)),
{
    let after = swept(sites, probes);
    lemma_swept(sites, probes);
    assert forall|i: int| 0 <= i < sites.len() implies {
        let own = probes[probe_of(sites[i].url, probes)];
        &&& own.url == sites[i].url
        &&& #[trigger] after[i] == sites[i].record(own.check())
        &&& after[i].total_checks.len() == sites[i].total_checks.len() + 1
        &&& after[i].successful_checks == sites[i].successful_checks + if outcome(own.reply) is Up {
            1nat
        } else {
            0nat
        }
        &&& after[i].is_up == (outcome(own.reply) is Up)
        &&& (if after[i].is_up {
            0nat
        } else {
            1nat
        }) == down_checks(checks_for(sites[i].url, probes))
    } by {
        assert(probed_once(sites[i].url, probes));
        let k = probe_of(sites[i].url, probes);
        assert(sole_probe(sites[i].url, probes, k));
        lemma_swept_once(sites, probes, i, k);
        lemma_checks_for_once(sites[i].url, probes, k);
        lemma_count_up_push(Seq::empty(), probes[k].check());
        assert(Seq::<CheckView>::empty().push(probes[k].check()) =~= seq![probes[k].check()]);
    }
    lemma_one_report_per_failure(sites, probes);
    lemma_failed_by_site(sites, probes);
    lemma_down_sites_by_site(sites, probes, after, sites.len() as int);
    assert(sites.take(sites.len() as int) =~= sites);
    assert(after.take(sites.len() as int) =~= after);
}

/// What a sweep adds to one site's failures depends on its last probe alone.
proof fn lemma_failed_by_site_step(sites: Seq<WebsiteView>, probes: Seq<ProbeView>)
    requires
        urls_distinct(sites),
        probes.len() > 0,
    ensures
        failed_by_site(sites, probes) == failed_by_site(sites, probes.drop_last()) + if fails(
            sites,
            probes.last(),
        ) {
            1nat
        } else {
            0nat
        },
    decreases sites.len(),
{
    let last = probes.last();
    if sites.len() == 0 {
        assert(!registered(sites, last.url));
    } else {
        let rest = sites.drop_last();
        let url = sites.last().url;
        assert forall|i: int, j: int| 0 <= i < j < rest.len() implies rest[i].url
            != rest[j].url by {
            assert(sites[i].url != sites[j].url);
        }
        lemma_failed_by_site_step(rest, probes);
        let earlier = checks_for(url, probes.drop_last());
        lemma_count_up_bounded(earlier);
        lemma_count_up_push(earlier, last.check());
        if registered(rest, last.url) {
            let k = position(rest, last.url);
            assert(sites[k].url == last.url);
            assert(sites[k].url != sites[sites.len() - 1].url);
        }
        if registered(sites, last.url) {
            let k = position(sites, last.url);
            if k < rest.len() {
                assert(rest[k].url == last.url);
            }
        }
        if last.url == url {
            assert(sites[sites.len() - 1].url == last.url);
        }
    }
}

/// Probe by probe or site by site, a sweep counts the same failures.
proof fn lemma_failed_by_site(sites: Seq<WebsiteView>, probes: Seq<ProbeView>)
    requires
        urls_distinct(sites),
    ensures
        failed_probes(sites, probes) == failed_by_site(sites, probes),
    decreases probes.len(),
{
    if probes.len() == 0 {
        lemma_failed_by_site_none(sites, probes);
    } else {
        lemma_failed_by_site(sites, probes.drop_last());
        lemma_failed_by_site_step(sites, probes);
    }
}

/// A sweep without probes counts no failures.
proof fn lemma_failed_by_site_none(sites: Seq<WebsiteView>, probes: Seq<ProbeView>)
    requires
        probes.len() == 0,
    ensures
        failed_by_site(sites, probes) == 0,
    decreases sites.len(),
{
    if sites.len() > 0 {
        lemma_failed_by_site_none(sites.drop_last(), probes);
    }
}

/// Where each site is down after the sweep if and only if the sweep counts a
/// failure for it, as many of the first `n` sites are down as the sweep
/// counts failures for them.
proof fn lemma_down_sites_by_site(
    sites: Seq<WebsiteView>,
    probes: Seq<ProbeView>,
    after: Seq<WebsiteView>,
    n: int,
)
    requires
        after.len() == sites.len(),
        0 <= n <= sites.len(),
        forall|i: int|
            0 <= i < sites.len() ==> (if (#[trigger] after[i]).is_up {
                0nat
            } else {
                1nat
            }) == down_checks(checks_for(sites[i].url, probes)),
    ensures
        down_sites(after.take(n)) == failed_by_site(sites.take(n), probes),
    decreases n,
{
    if n > 0 {
        lemma_down_sites_by_site(sites, probes, after, n - 1);
        assert(sites.take(n).drop_last() =~= sites.take(n - 1));
        assert(after.take(n).drop_last() =~= after.take(n - 1));
        assert(sites.take(n).last() == sites[n - 1]);
        assert(after.take(n).last() == after[n - 1]);
    }
}

/// A sweep whose probes are in time keeps every history in the order of
/// time: no probe is older than the last check that its site had before the
/// sweep, nor than an earlier probe of the same site.
pub proof fn lemma_swept_keeps_order(sites: Seq<WebsiteView>, probes: Seq<ProbeView>)
    requires
        registry_wf(sites),
        all_time_ordered(sites),
        in_time(sites, probes),
    ensures
        all_time_ordered(swept(sites, probes)),
        forall|i: int|
            0 <= i < sites.len() ==> ((#[trigger] swept(sites, probes)[i]).last_check matches Some(
                t,
            ) ==> sites[i].last_check == Some(t) || stamped(sites[i].url, probes, t)),
    decreases probes.len(),
{
    lemma_swept(sites, probes);
    if probes.len() > 0 {
        let rest = probes.drop_last();
        let last = probes.last();
        let n = probes.len() - 1;
        let before = swept(sites, rest);
        let after = swept(sites, probes);
        assert(in_time(sites, rest)) by {
            assert forall|j: int| 0 <= j < rest.len() implies rest[j] == probes[j] by {}
        }
        lemma_swept_keeps_order(sites, rest);
        lemma_swept(sites, rest);
        lemma_recorded(before, last.url, last.check());
        assert forall|i: int| 0 <= i < sites.len() implies time_ordered(
            (#[trigger] after[i]).total_checks,
        ) && (after[i].last_check matches Some(t) ==> sites[i].last_check == Some(t) || stamped(
            sites[i].url,
            probes,
            t,
        )) by {
            assert(before[i].url == sites[i].url);
            assert(time_ordered(before[i].total_checks));
            if sites[i].url == last.url {
                assert(probes[n].url == sites[i].url);
                if before[i].last_check is Some {
                    let t = before[i].last_check->0;
                    if sites[i].last_check != Some(t) {
                        assert(stamped(sites[i].url, rest, t));
                        let j = choose|j: int|
                            0 <= j < rest.len() && (#[trigger] rest[j]).url == sites[i].url
                                && rest[j].timestamp == t;
                        assert(rest[j] == probes[j]);
                        assert(probes[j].url == probes[n].url);
                    }
                    assert(t <= last.timestamp);
                }
                assert(before[i].consistent());
                lemma_record_keeps_order(before[i], last.check());
                assert(after[i] == before[i].record(last.check()));
                assert(stamped(sites[i].url, probes, last.timestamp));
            } else {
                assert(after[i] == before[i]);
                if before[i].last_check is Some {
                    let t = before[i].last_check->0;
                    if sites[i].last_check != Some(t) {
                        assert(stamped(sites[i].url, rest, t));
                        let j = choose|j: int|
                            0 <= j < rest.len() && (#[trigger] rest[j]).url == sites[i].url
                                && rest[j].timestamp == t;
                        assert(probes[j] == rest[j]);
                        assert(stamped(sites[i].url, probes, t));
                    }
                }
            }
        }
    }
}

/// Where a sweep holds one probe of a URL, that probe's check is all that
/// the sweep adds to the URL's history.
pub proof fn lemma_checks_for_once(url: Seq<char>, probes: Seq<ProbeView>, k: int)
    requires
        0 <= k < probes.len(),
        probes[k].url == url,
        forall|j: int| 0 <= j < probes.len() && j != k ==> probes[j].url != url,
    ensures
        checks_for(url, probes) == seq![probes[k].check()],
    decreases probes.len(),
{
    let rest = probes.drop_last();
    if k == probes.len() - 1 {
        lemma_checks_for_none(url, rest);
        assert(Seq::<CheckView>::empty().push(probes[k].check()) =~= seq![probes[k].check()]);
    } else {
        assert(rest[k] == probes[k]);
        assert forall|j: int| 0 <= j < rest.len() && j != k implies rest[j].url != url by {
            assert(rest[j] == probes[j]);
        }
        lemma_checks_for_once(url, rest, k);
    }
}

/// Where a sweep holds no probe of a URL, it adds nothing to the URL's
/// history.
pub proof fn lemma_checks_for_none(url: Seq<char>, probes: Seq<ProbeView>)
    requires
        forall|j: int| 0 <= j < probes.len() ==> probes[j].url != url,
    ensures
        checks_for(url, probes) == Seq::<CheckView>::empty(),
    decreases probes.len(),
{
    if probes.len() > 0 {
        let rest = probes.drop_last();
        assert forall|j: int| 0 <= j < rest.len() implies rest[j].url != url by {
            assert(rest[j] == probes[j]);
        }
        lemma_checks_for_none(url, rest);
    }
}

/// A sweep hands back as many reports as probes fail: one for each probe of
/// a registered site that found the site down, and none besides.
pub proof fn lemma_one_report_per_failure(sites: Seq<WebsiteView>, probes: Seq<ProbeView>)
    ensures
        failures(sites, probes).len() == failed_probes(sites, probes),
    decreases probes.len(),
{
    if probes.len() > 0 {
        lemma_one_report_per_failure(sites, probes.drop_last());
    }
}

impl View for WebsiteMonitor {
    type V = Seq<WebsiteView>;

    closed spec fn view(&self) -> Seq<WebsiteView> {
        sites_view(self.websites@)
    }
}

impl WebsiteMonitor {
    /// The settings of the e-mail notification, if it is switched on.
    pub closed spec fn config(&self) -> Option<EmailConfigView> {
        match self.email_config {
            Some(c) => Some(c@),
            None => None,
        }
    }

    /// Whether each URL is registered once and each site is consistent.
    /// Every registry that this module hands out is.
    pub open spec fn wf(&self) -> bool {
        registry_wf(self@)
    }

    /// An empty registry. With settings, failed probes are notified by
    /// e-mail; without, they are not notified.
    pub fn new(email_config: Option<EmailConfig>) -> (monitor: WebsiteMonitor)
        ensures
            monitor@ == Seq::<WebsiteView>::empty(),
            monitor.config() == match email_config {
                Some(c) => Some(c@),
                None => None,
            },
            monitor.wf(),
    {
        let monitor = WebsiteMonitor { websites: Vec::new(), email_config };
        assert(monitor@ =~= Seq::empty());
        monitor
    }

    /// The settings of the e-mail notification, if it is switched on.
    pub fn email_config(&self) -> (settings: Option<&EmailConfig>)
        ensures
            match settings {
                Some(c) => self.config() == Some(c@),
                None => self.config() is None,
            },
    {
        self.email_config.as_ref()
    }

    /// The place of a URL in the registry.
    fn find(&self, url: &String) -> (found: Option<usize>)
        ensures
            match found {
                Some(i) => i < self@.len() && self@[i as int].url == url@,
                None => !registered(self@, url@),
            },
    {
        let mut i: usize = 0;
        while i < self.websites.len()
            invariant
                i <= self.websites.len(),
                self@.len() == self.websites.len(),
                forall|k: int| 0 <= k < i ==> self@[k].url != url@,
            decreases self.websites.len() - i,
        {
            if self.websites[i].url == *url {
                return Some(i);
            }
            i += 1;
        }
        None
    }

    /// How many sites are registered.
    pub fn len(&self) -> (n: usize)
        ensures
            n == self@.len(),
    {
        self.websites.len()
    }

    /// A copy of every site's state under its URL, as the registry holds
    /// them at this moment.
    pub fn websites(&self) -> (snapshot: Vec<(String, Website)>)
        requires
            self.wf(),
        ensures
            snapshot.len() == self@.len(),
            forall|i: int|
                0 <= i < snapshot.len() ==> {
                    &&& (#[trigger] snapshot[i]).0@ == self@[i].url
                    &&& snapshot[i].1@ == self@[i]
                    &&& snapshot[i].1.wf()
                },
    {
        let mut snapshot: Vec<(String, Website)> = Vec::new();
        let mut i: usize = 0;
        while i < self.websites.len()
            invariant
                i <= self.websites.len(),
                self@.len() == self.websites.len(),
                self.wf(),
                snapshot.len() == i,
                forall|k: int|
                    0 <= k < i ==> {
                        &&& (#[trigger] snapshot[k]).0@ == self@[k].url
                        &&& snapshot[k].1@ == self@[k]
                        &&& snapshot[k].1.wf()
                    },
            decreases self.websites.len() - i,
        {
            assert(self@[i as int].consistent());
            snapshot.push((self.websites[i].url.clone(), self.websites[i].clone()));
            i += 1;
        }
        snapshot
    }

    /// A copy of every site's state, as the registry holds them at this
    /// moment.
    pub fn get_status(&self) -> (status: Vec<Website>)
        requires
            self.wf(),
        ensures
            sites_view(status@) == self@,
            forall|i: int| 0 <= i < status.len() ==> (#[trigger] status[i]).wf(),
    {
        let mut status: Vec<Website> = Vec::new();
        let mut i: usize = 0;
        while i < self.websites.len()
            invariant
                i <= self.websites.len(),
                self@.len() == self.websites.len(),
                self.wf(),
                status.len() == i,
                forall|k: int| 0 <= k < i ==> (#[trigger] status[k])@ == self@[k],
            decreases self.websites.len() - i,
        {
            status.push(self.websites[i].clone());
            i += 1;
        }
        assert(sites_view(status@) =~= self@);
        assert forall|k: int| 0 <= k < status.len() implies (#[trigger] status[k]).wf() by {
            assert(self@[k].consistent());
        }
        status
    }

    /// The URLs to probe in a sweep: every registered URL once.
    pub fn targets(&self) -> (urls: Vec<String>)
        ensures
            urls.len() == self@.len(),
            forall|i: int| 0 <= i < urls.len() ==> (#[trigger] urls[i])@ == self@[i].url,
    {
        let mut urls: Vec<String> = Vec::new();
        let mut i: usize = 0;
        while i < self.websites.len()
            invariant
                i <= self.websites.len(),
                self@.len() == self.websites.len(),
                urls.len() == i,
                forall|k: int| 0 <= k < i ==> (#[trigger] urls[k])@ == self@[k].url,
            decreases self.websites.len() - i,
        {
            urls.push(self.websites[i].url.clone());
            i += 1;
        }
        urls
    }

    /// Registers a URL, with an empty history. A URL that is registered
    /// already starts over: its state is replaced, where it stands.
    pub fn add_website(&mut self, url: String)
        requires
            old(self).wf(),
        ensures
            final(self)@ == added(old(self)@, url@),
            final(self).config() == old(self).config(),
            final(self).wf(),
    {
        let ghost before = self@;
        proof {
            lemma_added(before, url@, url@);
        }
        match self.find(&url) {
            Some(at) => {
                proof {
                    lemma_position(before, at as int);
                }
                self.websites.set(at, Website::new(url));
                assert(self@ =~= added(before, url@));
            },
            None => {
                self.websites.push(Website::new(url));
                assert(self@ =~= added(before, url@));
            },
        }
    }

    /// What a reply says about the site that was probed.
    pub fn check_website(&self, reply: HttpReply) -> (status: CheckStatus)
        ensures
            status@ == outcome(reply@),
            status matches CheckStatus::Up(details) ==> details.wf(),
    {
        classify(reply)
    }

    /// Folds the result of one probe into the state of its site, and hands
    /// back the report that it calls for. The result of a probe of a URL
    /// that is not registered is dropped.
    pub fn record_check(&mut self, url: &str, status: CheckStatus, timestamp: u64) -> (report:
        Option<FailReport>)
        requires
            old(self).wf(),
        ensures
            final(self)@ == recorded(old(self)@, url@, CheckView { status: status@, timestamp }),
            final(self).config() == old(self).config(),
            final(self).wf(),
            report is Some == (registered(old(self)@, url@) && status@ is Down),
            report matches Some(r) ==> Some(r@) == status@.report(url@, timestamp),
    {
        let ghost before = self@;
        let ghost check = CheckView { status: status@, timestamp };
        proof {
            lemma_recorded(before, url@, check);
        }
        let key = url.to_owned();
        match self.find(&key) {
            Some(at) => {
                proof {
                    lemma_position(before, at as int);
                }
                let report = status.report(url, timestamp);
                self.websites[at].record(status, timestamp);
                assert(self@ =~= recorded(before, url@, check));
                report
            },
            None => None,
        }
    }

    /// Folds what a sweep measured into the registry, probe by probe in the
    /// order given, and hands back the reports to deliver: one for each
    /// probe of a registered site that found the site down.
    pub fn update_website_status(&mut self, probes: Vec<Probe>) -> (reports: Vec<FailReport>)
        requires
            old(self).wf(),
        ensures
            final(self)@ == swept(old(self)@, probes_view(probes@)),
            reports_view(reports@) == failures(old(self)@, probes_view(probes@)),
            reports.len() == failed_probes(old(self)@, probes_view(probes@)),
            final(self).config() == old(self).config(),
            final(self).wf(),
    {
        let ghost before = self@;
        let ghost measured = probes_view(probes@);
        let mut reports: Vec<FailReport> = Vec::new();
        let mut probes = probes;
        let mut i: usize = 0;
        assert(measured.take(0) =~= Seq::empty());
        assert(reports_view(reports@) =~= Seq::empty());
        while i < probes.len()
            invariant
                i <= probes.len(),
                probes.len() == measured.len(),
                forall|k: int| i <= k < probes.len() ==> (#[trigger] probes@[k])@ == measured[k],
                registry_wf(before),
                self.wf(),
                self.config() == old(self).config(),
                self@ == swept(before, measured.take(i as int)),
                reports_view(reports@) == failures(before, measured.take(i as int)),
            decreases probes.len() - i,
        {
            let ghost done = measured.take(i as int);
            let ghost probe = measured[i as int];
            proof {
                assert(measured.take(i + 1).drop_last() =~= done);
                assert(measured.take(i + 1).last() == probe);
                assert(probes@[i as int]@ == probe);
                lemma_swept(before, done);
            }
            let url = probes[i].url.clone();
            let timestamp = probes[i].timestamp;
            let reply = take_reply(&mut probes, i);
            let status = self.check_website(reply);
            let report = self.record_check(url.as_str(), status, timestamp);
            let ghost earlier = reports_view(reports@);
            match report {
                Some(r) => {
                    reports.push(r);
                    assert(reports_view(reports@) =~= earlier.push(r@));
                },
                None => {},
            }
            i += 1;
        }
        proof {
            assert(measured.take(i as int) =~= measured);
            lemma_one_report_per_failure(before, measured);
        }
        reports
    }

    /// Writes the notice about a failed probe, for the caller to deliver.
    /// There is none to deliver where no notification is configured.
    pub fn send_email_notification(&self, fail_report: FailReport) -> (result: Result<
        Option<Email>,
        NotifyError,
    >)
        ensures
            notice_view(result) == notice(
                self.config(),
                fail_report@,
                self.config() matches Some(c) && mailbox_parses(c.to_email),
                self.config() matches Some(c) && mailbox_parses(c.from_email),
            ),
    {
        match &self.email_config {
            None => Ok(None),
            Some(config) => match compose(config, &fail_report) {
                Ok(email) => Ok(Some(email)),
                Err(e) => Err(e),
            },
        }
    }

    /// Starts the schedule of the sweeps, on a clock that counts seconds: the
    /// first sweep is due `interval_secs` after `now`.
    pub fn start_monitoring(&self, interval_secs: u64, now: u64) -> (schedule: Schedule)
        requires
            interval_secs > 0,
        ensures
            schedule@ == ScheduleView::started(interval_secs, now),
            schedule.wf(),
    {
        Schedule::start(interval_secs, now)
    }
}

impl Default for WebsiteMonitor {
    /// An empty registry without notification.
    fn default() -> (monitor: WebsiteMonitor)
        ensures
            monitor@ == Seq::<WebsiteView>::empty(),
            monitor.config() is None,
            monitor.wf(),
    {
        WebsiteMonitor::new(None)
    }
}

/// Takes the reply out of the probe at `i`, and leaves the reply of a failed
/// transport without a message in its place.
fn take_reply(probes: &mut Vec<Probe>, i: usize) -> (reply: HttpReply)
    requires
        i < old(probes).len(),
    ensures
        reply == old(probes)[i as int].reply,
        final(probes).len() == old(probes).len(),
        forall|k: int| 0 <= k < old(probes).len() && k != i ==> final(probes)[k] == old(probes)[k],
        final(probes)[i as int].url == old(probes)[i as int].url,
        final(probes)[i as int].timestamp == old(probes)[i as int].timestamp,
{
    let mut reply = HttpReply::Failed { message: String::new() };
    std::mem::swap(&mut probes[i].reply, &mut reply);
    reply
}

} // verus!
