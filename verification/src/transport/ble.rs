//! Decisions of the BLE transport that do not need the radio: how long a
//! printer that is not cached yet is scanned for, and how writes are cut.

use vstd::prelude::*;

verus! {

/// Default write chunk: the ATT default MTU (23) minus the 3-byte header.
pub const DEFAULT_CHUNK_SIZE: usize = 20;

/// Delay between two chunks of a buffer, in milliseconds.
pub const CHUNK_DELAY_MS: u64 = 20;

/// Longest scan for a printer that is not cached, in milliseconds.
pub const MAX_SCAN_MS: u64 = 5000;

/// Interval between two looks at the scanned devices, in milliseconds.
pub const SCAN_POLL_MS: u64 = 250;

/// The scan window for a connection timeout of `timeout_ms`: the timeout,
/// capped at `MAX_SCAN_MS`.
pub open spec fn scan_window_spec(timeout_ms: nat) -> nat {
    if timeout_ms < MAX_SCAN_MS {
        timeout_ms
    } else {
        MAX_SCAN_MS as nat
    }
}

/// The scan window for a connection timeout of `timeout_ms`.
pub fn scan_window_ms(timeout_ms: u64) -> (r: u64)
    ensures
        r == scan_window_spec(timeout_ms as nat),
{
    if timeout_ms < MAX_SCAN_MS {
        timeout_ms
    } else {
        MAX_SCAN_MS
    }
}

/// What the scan does after a look at the devices.
#[derive(Debug, Clone, Copy, PartialEq, Eq, Structural)]
pub enum ScanPoll {
    /// The printer was seen: stop scanning and connect.
    Found,
    /// The window is over without the printer: stop scanning.
    GiveUp,
    /// Wait `SCAN_POLL_MS` and look again.
    Wait,
}

/// A seen printer ends the scan; otherwise the scan ends once `elapsed_ms`
/// reaches the window.
pub open spec fn scan_poll_spec(found: bool, elapsed_ms: nat, window_ms: nat) -> ScanPoll {
    if found {
        ScanPoll::Found
    } else if elapsed_ms >= window_ms {
        ScanPoll::GiveUp
    } else {
        ScanPoll::Wait
    }
}

/// Decides what follows a look at the devices, `elapsed_ms` after the scan
/// started.
pub fn scan_poll(found: bool, elapsed_ms: u64, window_ms: u64) -> (p: ScanPoll)
    ensures
        p == scan_poll_spec(found, elapsed_ms as nat, window_ms as nat),
{
    if found {
        ScanPoll::Found
    } else if elapsed_ms >= window_ms {
        ScanPoll::GiveUp
    } else {
        ScanPoll::Wait
    }
}

/// A scan never outlasts `MAX_SCAN_MS`: at that point, or at the end of a
/// shorter window, it stops whether or not the printer was seen.
pub proof fn law_scan_is_bounded(found: bool, timeout_ms: nat, elapsed_ms: nat)
    requires
        elapsed_ms >= MAX_SCAN_MS || elapsed_ms >= timeout_ms,
    ensures
        scan_poll_spec(found, elapsed_ms, scan_window_spec(timeout_ms)) != ScanPoll::Wait,
{
}


/// The Unicode upper case of a string, as `str::to_uppercase` gives it; it
/// depends on the string alone.
pub uninterp spec fn upper_case(s: Seq<char>) -> Seq<char>;

/// `str::to_uppercase`.
#[verifier::external_body]
fn to_upper(s: &str) -> (r: String)
    ensures
        r@ == upper_case(s@),
{
    s.to_uppercase()
}

/// Whether `needle` occurs in `hay` as a run of consecutive characters.
pub open spec fn occurs_in(needle: Seq<char>, hay: Seq<char>) -> bool {
    exists|i: int| 0 <= i && i + needle.len() <= hay.len() && #[trigger] hay.subrange(i, i + needle.len()) == needle
}

/// The characters of `s`.
fn chars_of(s: &str) -> (v: Vec<char>)
    ensures
        v@ == s@,
{
    broadcast use vstd::string::axiom_spec_iter;
    let mut v: Vec<char> = Vec::new();
    for c in it: s.chars()
        invariant
            it.seq() == s@,
            v@ == it.seq().take(it.index() as int),
    {
        v.push(c);
    }
    v
}

/// Whether `needle` occurs in `hay`.
fn occurs(needle: &Vec<char>, hay: &Vec<char>) -> (r: bool)
    ensures
        r == occurs_in(needle@, hay@),
{
    let n = needle.len();
    if n > hay.len() {
        return false;
    }
    let last = hay.len() - n;
    let mut i: usize = 0;
    while i <= last
        invariant
            n == needle.len(),
            last + n == hay.len(),
            forall|k: int| 0 <= k < i ==> #[trigger] hay@.subrange(k, k + n) != needle@,
        decreases last + 1 - i,
    {
        let mut j: usize = 0;
        let mut same = true;
        while j < n && same
            invariant
                n == needle.len(),
                i <= last,
                last + n == hay.len(),
                j <= n,
                same ==> forall|k: int| 0 <= k < j ==> hay@[i + k] == needle@[k],
                !same ==> hay@[i + j - 1] != needle@[j - 1] && j >= 1,
            decreases n - j + (if same { 1int } else { 0int }),
        {
            if hay[i + j] != needle[j] {
                same = false;
            }
            j = j + 1;
        }
        if same {
            assert(hay@.subrange(i as int, i + n) =~= needle@);
            return true;
        }
        assert(hay@.subrange(i as int, i + n)[j - 1] != needle@[j - 1]);
        i = i + 1;
    }
    proof {
        assert forall|k: int| 0 <= k && k + n <= hay@.len() implies #[trigger] hay@.subrange(k, k + n) != needle@ by {
            assert(k < i);
        }
    }
    false
}

/// The key a printer address is searched by: its upper case.
pub fn address_key(address: &str) -> (r: String)
    ensures
        r@ == upper_case(address@),
{
    to_upper(address)
}

/// Whether a device whose identifier reads `id` is the printer searched by
/// `key` (see `address_key`): the upper-cased identifier contains the key.
pub fn peripheral_matches(id: &str, key: &str) -> (r: bool)
    ensures
        r == occurs_in(key@, upper_case(id@)),
{
    let upper = to_upper(id);
    let hay = chars_of(upper.as_str());
    let needle = chars_of(key);
    occurs(&needle, &hay)
}


/// A seen printer always ends the scan; an unseen one is waited for exactly
/// while the window is not over. The window is the timeout, never more than
/// `MAX_SCAN_MS`.
pub proof fn law_scan_poll(found: bool, elapsed_ms: nat, timeout_ms: nat)
    ensures
        found ==> scan_poll_spec(found, elapsed_ms, scan_window_spec(timeout_ms)) == ScanPoll::Found,
        !found ==> (scan_poll_spec(found, elapsed_ms, scan_window_spec(timeout_ms)) == ScanPoll::Wait
            <==> elapsed_ms < timeout_ms && elapsed_ms < MAX_SCAN_MS),
        !found ==> scan_poll_spec(found, elapsed_ms, scan_window_spec(timeout_ms)) != ScanPoll::Found,
        scan_window_spec(timeout_ms) <= timeout_ms,
        scan_window_spec(timeout_ms) <= MAX_SCAN_MS,
        timeout_ms <= MAX_SCAN_MS ==> scan_window_spec(timeout_ms) == timeout_ms,
{
}

} // verus!
