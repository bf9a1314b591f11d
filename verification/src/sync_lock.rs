//! Following screen locks: deciding, from the screensaver signals that
//! `dbus-monitor` prints line by line, when the local session got locked.
use vstd::prelude::*;
use vstd::string::StringSliceAdditionalSpecFns;

verus! {

/// Minimum time between two lock notifications, in nanoseconds.
pub const LOCK_DEBOUNCE_NS: u64 = 2_000_000_000;

/// `s` holds the bytes of `p` starting at offset `i`.
pub open spec fn occurs_at(s: Seq<u8>, p: Seq<u8>, i: int) -> bool {
    0 <= i && i + p.len() <= s.len() && s.subrange(i, i + p.len()) == p
}

/// `s` holds `p` as a contiguous run of bytes.
pub open spec fn has_subslice(s: Seq<u8>, p: Seq<u8>) -> bool {
    exists|i: int| #[trigger] occurs_at(s, p, i)
}

fn matches_at(hay: &[u8], needle: &[u8], i: usize) -> (r: bool)
    requires
        i + needle@.len() <= hay@.len(),
    ensures
        r == (hay@.subrange(i as int, i + needle@.len()) == needle@),
{
    let n = needle.len();
    let hl = hay.len();
    let mut k: usize = 0;
    while k < n
        invariant
            n == needle@.len(),
            hl == hay@.len(),
            i + n <= hay@.len(),
            k <= n,
            forall|j: int| 0 <= j < k ==> hay@[i + j] == needle@[j],
        decreases n - k,
    {
        if hay[i + k] != needle[k] {
            assert(hay@.subrange(i as int, i + n)[k as int] != needle@[k as int]);
            return false;
        }
        k = k + 1;
    }
    assert(hay@.subrange(i as int, i + n) =~= needle@);
    true
}

/// Whether `needle` occurs in `hay`, compared byte by byte as
/// `str::contains` does.
pub fn str_contains(hay: &str, needle: &str) -> (r: bool)
    ensures
        r == has_subslice(hay.spec_bytes(), needle.spec_bytes()),
{
    let h = hay.as_bytes();
    let n = needle.as_bytes();
    if n.len() > h.len() {
        return false;
    }
    let last = h.len() - n.len();
    let mut i: usize = 0;
    loop
        invariant
            h@ == hay.spec_bytes(),
            n@ == needle.spec_bytes(),
            last + n@.len() == h@.len(),
            i <= last,
            forall|j: int| 0 <= j < i ==> !#[trigger] occurs_at(h@, n@, j),
        decreases last - i,
    {
        if matches_at(h, n, i) {
            assert(occurs_at(h@, n@, i as int));
            return true;
        }
        if i == last {
            assert forall|j: int| !#[trigger] occurs_at(h@, n@, j) by {}
            return false;
        }
        i = i + 1;
    }
}

/// Screensaver signal that the session activity changed.
pub open spec fn pat_active_changed() -> Seq<u8> {
    "member=ActiveChanged".spec_bytes()
}

/// Screensaver signal that the session was locked.
pub open spec fn pat_session_locked_member() -> Seq<u8> {
    "member=SessionLocked".spec_bytes()
}

/// Name of the lock signal.
pub open spec fn pat_session_locked() -> Seq<u8> {
    "SessionLocked".spec_bytes()
}

/// Argument of an `ActiveChanged` signal that turned the screensaver on.
pub open spec fn pat_true() -> Seq<u8> {
    "boolean true".spec_bytes()
}

/// Argument of an `ActiveChanged` signal that turned the screensaver off.
pub open spec fn pat_false() -> Seq<u8> {
    "boolean false".spec_bytes()
}

/// What the monitor remembers between lines: whether an activity signal
/// awaits its argument, and when the last lock was reported (`None`
/// until the first report, which counts as long ago).
#[derive(Clone, Copy, Debug, PartialEq, Eq, Structural)]
pub struct ScreenLockWatch {
    pub active_changed: bool,
    pub last_report_ns: Option<u64>,
}

/// More than `LOCK_DEBOUNCE_NS` passed since the last report.
pub open spec fn debounce_passed(last: Option<u64>, now_ns: u64) -> bool {
    match last {
        None => true,
        Some(l) => now_ns >= l && now_ns - l > LOCK_DEBOUNCE_NS,
    }
}

/// The monitor's step on one line read at time `now_ns`: the next state
/// and whether to report a lock. An activity or lock signal arms the
/// watch and, for a lock signal, reports; a `boolean true` argument after
/// an activity signal reports, a `boolean false` one disarms. A report is
/// only made when the debounce time has passed, and then records the time.
pub open spec fn watch_step(st: ScreenLockWatch, line: Seq<u8>, now_ns: u64) -> (
    ScreenLockWatch,
    bool,
) {
    if has_subslice(line, pat_active_changed()) || has_subslice(line, pat_session_locked_member()) {
        if has_subslice(line, pat_session_locked()) && debounce_passed(st.last_report_ns, now_ns) {
            (ScreenLockWatch { active_changed: true, last_report_ns: Some(now_ns) }, true)
        } else {
            (ScreenLockWatch { active_changed: true, last_report_ns: st.last_report_ns }, false)
        }
    } else if st.active_changed && has_subslice(line, pat_true()) {
        if debounce_passed(st.last_report_ns, now_ns) {
            (ScreenLockWatch { active_changed: false, last_report_ns: Some(now_ns) }, true)
        } else {
            (ScreenLockWatch { active_changed: false, last_report_ns: st.last_report_ns }, false)
        }
    } else if st.active_changed && has_subslice(line, pat_false()) {
        (ScreenLockWatch { active_changed: false, last_report_ns: st.last_report_ns }, false)
    } else {
        (st, false)
    }
}

/// A lock is reported at most once per debounce period: when a step
/// reports at `now_ns` and the previous report was at `l`, more than
/// `LOCK_DEBOUNCE_NS` nanoseconds lie between them, and a line read no
/// later than `LOCK_DEBOUNCE_NS` after a report is never reported. A step
/// that does not report keeps the time of the previous report, and one
/// that reports records `now_ns`.
pub proof fn lemma_reports_are_debounced(st: ScreenLockWatch, line: Seq<u8>, now_ns: u64)
    ensures
        watch_step(st, line, now_ns).1 ==> watch_step(st, line, now_ns).0.last_report_ns == Some(
            now_ns,
        ),
        !watch_step(st, line, now_ns).1 ==> watch_step(st, line, now_ns).0.last_report_ns
            == st.last_report_ns,
        forall|l: u64|
            st.last_report_ns == Some(l) && #[trigger] watch_step(st, line, now_ns).1 ==> l <= now_ns
                && now_ns - l > LOCK_DEBOUNCE_NS,
        forall|l: u64|
            st.last_report_ns == Some(l) && l <= now_ns && now_ns - l <= LOCK_DEBOUNCE_NS
                ==> !#[trigger] watch_step(st, line, now_ns).1,
{
}

/// Two steps that both report are more than `LOCK_DEBOUNCE_NS` apart:
/// after a report at `t1`, a lock signal at `t2` is reported only when
/// `t2 - t1 > LOCK_DEBOUNCE_NS`.
pub proof fn lemma_two_reports_apart(
    st: ScreenLockWatch,
    line1: Seq<u8>,
    t1: u64,
    line2: Seq<u8>,
    t2: u64,
)
    ensures
        watch_step(st, line1, t1).1 && watch_step(watch_step(st, line1, t1).0, line2, t2).1 ==> t1
            <= t2 && t2 - t1 > LOCK_DEBOUNCE_NS,
{
}

impl ScreenLockWatch {
    /// A watch that is not armed and has reported nothing yet.
    pub fn new() -> (r: ScreenLockWatch)
        ensures
            r == (ScreenLockWatch { active_changed: false, last_report_ns: None }),
    {
        ScreenLockWatch { active_changed: false, last_report_ns: None }
    }

    fn debounce_passed(&self, now_ns: u64) -> (r: bool)
        ensures
            r == debounce_passed(self.last_report_ns, now_ns),
    {
        match self.last_report_ns {
            None => true,
            Some(l) => now_ns >= l && now_ns - l > LOCK_DEBOUNCE_NS,
        }
    }

    /// Takes in one line of monitor output, read at `now_ns` on a monotonic
    /// clock; returns whether a lock is to be reported. Two reports are
    /// always more than `LOCK_DEBOUNCE_NS` apart.
    pub fn observe_line(&mut self, line: &str, now_ns: u64) -> (report: bool)
        ensures
            (*final(self), report) == watch_step(*old(self), line.spec_bytes(), now_ns),
            report ==> debounce_passed(old(self).last_report_ns, now_ns) && final(self).last_report_ns
                == Some(now_ns),
            report ==> match old(self).last_report_ns {
                Some(l) => l <= now_ns && now_ns - l > LOCK_DEBOUNCE_NS,
                None => true,
            },
            match old(self).last_report_ns {
                Some(l) => l <= now_ns && now_ns - l <= LOCK_DEBOUNCE_NS ==> !report,
                None => true,
            },
            !report ==> final(self).last_report_ns == old(self).last_report_ns,
    {
        if str_contains(line, "member=ActiveChanged") || str_contains(line, "member=SessionLocked") {
            self.active_changed = true;
            if str_contains(line, "SessionLocked") && self.debounce_passed(now_ns) {
                self.last_report_ns = Some(now_ns);
                return true;
            }
            return false;
        }
        if self.active_changed && str_contains(line, "boolean true") {
            self.active_changed = false;
            if self.debounce_passed(now_ns) {
                self.last_report_ns = Some(now_ns);
                return true;
            }
            false
        } else if self.active_changed && str_contains(line, "boolean false") {
            self.active_changed = false;
            false
        } else {
            false
        }
    }
}

} // verus!
