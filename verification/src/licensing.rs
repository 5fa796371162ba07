//! License lifecycle: tiers, the 7-day offline grace window, activation and
//! daily revalidation decisions.
//!
//! The licensing server, the OS credential store and the local key/value
//! table are reached by the caller; this module decides what a stored state
//! means, what an activation or validation reply leads to, and what gets
//! written back.

use vstd::prelude::*;
use vstd::string::{StringExecFns, StringSliceAdditionalSpecFns};

use crate::text::{
    ascii_upper, chars_of, decimal_int, decimal_nat, i64_to_decimal, is_ascii_alnum,
    lemma_decimal_round_trip, owned, parse_i64, parse_i64_spec, same_text, string_from_chars, to_ascii_upper, trim_seq, trim_str,
    u64_to_decimal, upper_seq,
};

verus! {

/// Worker endpoint that fronts the license API.
pub const API_BASE: &'static str = "https://licensing.smarthub.app";

/// How often (seconds) the license is revalidated: 24 h.
pub const REVALIDATE_INTERVAL_SECS: u64 = 24 * 60 * 60;

/// Offline grace window (seconds): 7 days.
pub const GRACE_PERIOD_SECS: i64 = 7 * 24 * 60 * 60;

/// Seconds in a day.
pub const DAY_SECS: i64 = 86_400;

/// Keys of the license state in the local key/value table.
pub const KEY_TIER: &'static str = "license.tier";
pub const KEY_MASKED: &'static str = "license.key_masked";
pub const KEY_INSTANCE: &'static str = "license.instance_id";
pub const KEY_LAST_VALIDATED: &'static str = "license.last_validated_at";

/// Shortest accepted license key, in bytes after trimming.
pub const MIN_KEY_LEN: usize = 12;

#[derive(Clone, Copy, Debug, PartialEq, Eq, Structural)]
pub enum Tier {
    Free,
    Pro,
}

/// What the UI shows of the license. Never holds the full key.
#[derive(Debug)]
pub struct LicenseInfo {
    pub tier: Tier,
    pub key_masked: Option<String>,
    /// True when the last validation lies within the grace window.
    pub grace_valid: bool,
    /// Days left of the offline window.
    pub grace_days_left: Option<i64>,
    pub instance_id: Option<String>,
    /// Unix time of the last successful validation.
    pub last_validated_at: Option<i64>,
}

pub struct LicenseView {
    pub tier: Tier,
    pub key_masked: Option<Seq<char>>,
    pub grace_valid: bool,
    pub grace_days_left: Option<i64>,
    pub instance_id: Option<Seq<char>>,
    pub last_validated_at: Option<i64>,
}

pub open spec fn opt_view(o: Option<String>) -> Option<Seq<char>> {
    match o {
        Some(s) => Some(s@),
        None => None,
    }
}

impl View for LicenseInfo {
    type V = LicenseView;

    open spec fn view(&self) -> LicenseView {
        LicenseView {
            tier: self.tier,
            key_masked: opt_view(self.key_masked),
            grace_valid: self.grace_valid,
            grace_days_left: self.grace_days_left,
            instance_id: opt_view(self.instance_id),
            last_validated_at: self.last_validated_at,
        }
    }
}

pub open spec fn default_view() -> LicenseView {
    LicenseView {
        tier: Tier::Free,
        key_masked: None,
        grace_valid: false,
        grace_days_left: None,
        instance_id: None,
        last_validated_at: None,
    }
}

impl Default for LicenseInfo {
    fn default() -> (s: Self)
        ensures
            s@ == default_view(),
    {
        LicenseInfo {
            tier: Tier::Free,
            key_masked: None,
            grace_valid: false,
            grace_days_left: None,
            instance_id: None,
            last_validated_at: None,
        }
    }
}

fn copy_opt(o: &Option<String>) -> (r: Option<String>)
    ensures
        opt_view(r) == opt_view(*o),
{
    match o {
        Some(s) => Some(s.clone()),
        None => None,
    }
}

impl LicenseInfo {
    /// A copy with the same view.
    pub fn duplicate(&self) -> (c: Self)
        ensures
            c@ == self@,
    {
        LicenseInfo {
            tier: self.tier,
            key_masked: copy_opt(&self.key_masked),
            grace_valid: self.grace_valid,
            grace_days_left: self.grace_days_left,
            instance_id: copy_opt(&self.instance_id),
            last_validated_at: self.last_validated_at,
        }
    }
}

// ---------------------------------------------------------------------------
// Masking
// ---------------------------------------------------------------------------

/// The ASCII letters and digits of `s`, in order.
pub open spec fn alnum_only(s: Seq<char>) -> Seq<char>
    decreases s.len(),
{
    if s.len() == 0 {
        Seq::empty()
    } else if is_ascii_alnum(s.last()) {
        alnum_only(s.drop_last()).push(s.last())
    } else {
        alnum_only(s.drop_last())
    }
}

/// `****-****-****-` then the last four letters or digits of the key, upper-cased.
pub open spec fn mask_spec(key: Seq<char>) -> Seq<char> {
    let a = alnum_only(key);
    let tail = a.skip(if a.len() < 4 { 0 } else { a.len() - 4 });
    "****-****-****-"@ + upper_seq(tail)
}

/// Shortens a full key to `****-****-****-9F3A` for display.
pub fn mask_key(key: &str) -> (m: String)
    ensures
        m@ == mask_spec(key@),
{
    let v = chars_of(key);
    let mut a: Vec<char> = Vec::new();
    let mut i: usize = 0;
    while i < v.len()
        invariant
            i <= v.len(),
            v@ == key@,
            a@ == alnum_only(v@.take(i as int)),
        decreases v.len() - i,
    {
        let c = v[i];
        assert(v@.take(i + 1).drop_last() =~= v@.take(i as int));
        if ('0' <= c && c <= '9') || ('a' <= c && c <= 'z') || ('A' <= c && c <= 'Z') {
            a.push(c);
        }
        i = i + 1;
    }
    assert(v@.take(v.len() as int) =~= v@);
    let start = if a.len() < 4 {
        0
    } else {
        a.len() - 4
    };
    let mut tail: Vec<char> = Vec::new();
    let mut j = start;
    while j < a.len()
        invariant
            start <= j <= a.len(),
            tail@ == upper_seq(a@.subrange(start as int, j as int)),
        decreases a.len() - j,
    {
        tail.push(to_ascii_upper(a[j]));
        j = j + 1;
        assert(upper_seq(a@.subrange(start as int, j as int)) =~= upper_seq(
            a@.subrange(start as int, j - 1),
        ).push(ascii_upper(a@[j - 1])));
    }
    assert(a@.subrange(start as int, a.len() as int) =~= a@.skip(start as int));
    String::from_str("****-****-****-").concat(string_from_chars(&tail).as_str())
}

// ---------------------------------------------------------------------------
// Grace window
// ---------------------------------------------------------------------------

/// The grace computation does not overflow an `i64`.
pub open spec fn grace_fits(last: Option<i64>, now: i64) -> bool {
    match last {
        Some(l) => i64::MIN <= l + GRACE_PERIOD_SECS - now <= i64::MAX,
        None => true,
    }
}

/// Seconds left of the grace window at `now`; `None` once it has expired or
/// when the license was never validated.
pub open spec fn grace_spec(last: Option<i64>, now: i64) -> Option<i64> {
    match last {
        Some(l) => if l + GRACE_PERIOD_SECS - now > 0 {
            Some((l + GRACE_PERIOD_SECS - now) as i64)
        } else {
            None
        },
        None => None,
    }
}

/// Seconds left in the grace window at time `now`.
pub fn grace_remaining_at(last_validated_at: Option<i64>, now: i64) -> (r: Option<i64>)
    requires
        grace_fits(last_validated_at, now),
    ensures
        r == grace_spec(last_validated_at, now),
{
    match last_validated_at {
        None => None,
        Some(last) => {
            let wide: i128 = last as i128 + GRACE_PERIOD_SECS as i128 - now as i128;
            if wide > 0 {
                Some(wide as i64)
            } else {
                None
            }
        },
    }
}

/// The grace window at `now`, or `None` where the arithmetic would overflow.
pub open spec fn grace_checked_spec(last: Option<i64>, now: i64) -> Option<i64> {
    if grace_fits(last, now) {
        grace_spec(last, now)
    } else {
        None
    }
}

/// Seconds left in the grace window at `now`; `None` where the difference
/// does not fit in an `i64`.
pub fn grace_remaining_checked(last_validated_at: Option<i64>, now: i64) -> (r: Option<i64>)
    ensures
        r == grace_checked_spec(last_validated_at, now),
{
    match last_validated_at {
        None => None,
        Some(last) => {
            let wide: i128 = last as i128 + GRACE_PERIOD_SECS as i128 - now as i128;
            if wide < i64::MIN as i128 || wide > i64::MAX as i128 {
                None
            } else {
                grace_remaining_at(last_validated_at, now)
            }
        },
    }
}

/// Seconds left in the grace window, by the system clock.
pub fn grace_remaining_secs(last_validated_at: Option<i64>) -> (r: Option<i64>)
    ensures
        exists|t: i64| t >= 0 && r == #[trigger] grace_checked_spec(last_validated_at, t),
{
    let t = crate::db::now();
    grace_remaining_checked(last_validated_at, t)
}

/// The tier in force: Pro only while the grace window is open.
pub open spec fn effective_tier_spec(tier: Tier, last: Option<i64>, now: i64) -> Tier {
    match tier {
        Tier::Free => Tier::Free,
        Tier::Pro => if grace_checked_spec(last, now) is Some {
            Tier::Pro
        } else {
            Tier::Free
        },
    }
}

/// The tier in force at `now`.
pub fn effective_tier_at(info: &LicenseInfo, now: i64) -> (t: Tier)
    ensures
        t == effective_tier_spec(info.tier, info.last_validated_at, now),
{
    match info.tier {
        Tier::Free => Tier::Free,
        Tier::Pro => {
            if grace_remaining_checked(info.last_validated_at, now).is_some() {
                Tier::Pro
            } else {
                Tier::Free
            }
        },
    }
}

/// The tier in force by the system clock: explicit Pro, validated recently
/// enough, even when the network is down.
pub fn effective_tier(info: &LicenseInfo) -> (t: Tier)
    ensures
        exists|n: i64|
            n >= 0 && t == #[trigger] effective_tier_spec(info.tier, info.last_validated_at, n),
        info.tier == Tier::Free ==> t == Tier::Free,
{
    let n = crate::db::now();
    effective_tier_at(info, n)
}

// ---------------------------------------------------------------------------
// Reading the stored state
// ---------------------------------------------------------------------------

pub open spec fn opt_parse(o: Option<Seq<char>>) -> Option<i64> {
    match o {
        Some(s) => parse_i64_spec(s),
        None => None,
    }
}

/// A stored text, where the empty text (what a deactivation writes) means
/// that nothing is stored.
pub open spec fn present(o: Option<Seq<char>>) -> Option<Seq<char>> {
    match o {
        Some(s) => if s.len() == 0 {
            None
        } else {
            Some(s)
        },
        None => None,
    }
}

/// Whole days left of a grace window of `s` seconds, rounded up.
pub open spec fn days_left(s: int) -> int {
    (s + 86399) / 86400
}

/// The license state the stored values describe at time `now`.
pub open spec fn local_state_spec(
    tier: Option<Seq<char>>,
    key_masked: Option<Seq<char>>,
    instance_id: Option<Seq<char>>,
    last_validated: Option<Seq<char>>,
    now: i64,
) -> LicenseView {
    let last = opt_parse(last_validated);
    let grace = grace_checked_spec(last, now);
    LicenseView {
        tier: if tier == Some("pro"@) {
            Tier::Pro
        } else {
            Tier::Free
        },
        key_masked: present(key_masked),
        grace_valid: grace is Some,
        grace_days_left: match grace {
            Some(s) => Some(days_left(s as int) as i64),
            None => None,
        },
        instance_id: present(instance_id),
        last_validated_at: last,
    }
}

fn present_text(o: Option<String>) -> (r: Option<String>)
    ensures
        opt_view(r) == present(opt_view(o)),
{
    match o {
        Some(s) => if s.as_str().is_empty() {
            None
        } else {
            Some(s)
        },
        None => None,
    }
}

fn is_pro_text(s: &Option<String>) -> (b: bool)
    ensures
        b == (opt_view(*s) == Some("pro"@)),
{
    match s {
        Some(t) => {
            let v = chars_of(t.as_str());
            same_text(&v, "pro")
        },
        None => false,
    }
}

/// Rebuilds the license state from the stored values (tier, masked key,
/// instance id, last validation time as text) at time `now`.
pub fn local_state_at(
    tier: Option<String>,
    key_masked: Option<String>,
    instance_id: Option<String>,
    last_validated: Option<String>,
    now: i64,
) -> (info: LicenseInfo)
    ensures
        info@ == local_state_spec(
            opt_view(tier),
            opt_view(key_masked),
            opt_view(instance_id),
            opt_view(last_validated),
            now,
        ),
{
    let last = match &last_validated {
        Some(s) => parse_i64(s.as_str()),
        None => None,
    };
    let grace = grace_remaining_checked(last, now);
    let days = match grace {
        Some(s) => {
            assert((s as int - 1) / 86400 + 1 == days_left(s as int)) by (nonlinear_arith)
                requires
                    s > 0,
            ;
            Some((s - 1) / DAY_SECS + 1)
        },
        None => None,
    };
    LicenseInfo {
        tier: if is_pro_text(&tier) {
            Tier::Pro
        } else {
            Tier::Free
        },
        key_masked: present_text(key_masked),
        grace_valid: grace.is_some(),
        grace_days_left: days,
        instance_id: present_text(instance_id),
        last_validated_at: last,
    }
}

/// Rebuilds the license state from the stored values, by the system clock.
pub fn load_local_state(
    tier: Option<String>,
    key_masked: Option<String>,
    instance_id: Option<String>,
    last_validated: Option<String>,
) -> (info: LicenseInfo)
    ensures
        exists|n: i64|
            n >= 0 && info@ == #[trigger] local_state_spec(
                opt_view(tier),
                opt_view(key_masked),
                opt_view(instance_id),
                opt_view(last_validated),
                n,
            ),
{
    let n = crate::db::now();
    local_state_at(tier, key_masked, instance_id, last_validated, n)
}

// ---------------------------------------------------------------------------
// Activation
// ---------------------------------------------------------------------------

#[derive(Debug, PartialEq, Eq)]
pub enum LicenseError {
    /// The text is too short to be a license key.
    NotALicenseKey,
    /// The licensing server could not be reached.
    Unreachable,
    /// The licensing server's answer could not be read.
    BadResponse,
    /// The server refused the activation, with its message.
    Rejected(String),
    /// The server accepted the key but named no instance.
    NoInstanceId,
}

/// The text shown for each license error.
pub open spec fn license_message(e: LicenseError) -> Seq<char> {
    match e {
        LicenseError::NotALicenseKey => "That doesn't look like a license key."@,
        LicenseError::Unreachable => "licensing server unreachable"@,
        LicenseError::BadResponse => "bad response from licensing server"@,
        LicenseError::Rejected(m) => m@,
        LicenseError::NoInstanceId => "licensing server returned no instance id"@,
    }
}

impl LicenseError {
    pub fn message(&self) -> (s: String)
        ensures
            s@ == license_message(*self),
    {
        match self {
            LicenseError::NotALicenseKey => owned("That doesn't look like a license key."),
            LicenseError::Unreachable => owned("licensing server unreachable"),
            LicenseError::BadResponse => owned("bad response from licensing server"),
            LicenseError::Rejected(m) => m.clone(),
            LicenseError::NoInstanceId => owned("licensing server returned no instance id"),
        }
    }
}

/// The license key object of an activation reply.
#[derive(Debug)]
pub struct LicenseKeyObj {
    pub id: u64,
}

/// The instance object of an activation reply.
#[derive(Debug)]
pub struct InstanceObj {
    pub id: String,
}

/// The licensing server's answer to an activation.
#[derive(Debug)]
pub struct ActivateResponse {
    pub activated: bool,
    pub license_key: Option<LicenseKeyObj>,
    pub instance: Option<InstanceObj>,
    pub error: Option<String>,
}

/// The key as sent: trimmed, and at least 12 bytes long.
pub fn check_key(license_key: &str) -> (r: Result<String, LicenseError>)
    ensures
        match r {
            Ok(k) => k@ == trim_seq(license_key@) && vstd::utf8::encode_utf8(k@).len() >= 12,
            Err(e) => e == LicenseError::NotALicenseKey && vstd::utf8::encode_utf8(
                trim_seq(license_key@),
            ).len() < 12,
        },
{
    let key = trim_str(license_key);
    if key.as_str().as_bytes().len() < MIN_KEY_LEN {
        Err(LicenseError::NotALicenseKey)
    } else {
        Ok(key)
    }
}

/// The rejection message: the server's, or a generic one.
pub open spec fn rejection_spec(error: Option<Seq<char>>) -> Seq<char> {
    match error {
        Some(m) => m,
        None => "License could not be activated"@,
    }
}

/// What came back from an activation request.
#[derive(Debug)]
pub enum ActivationReply {
    /// The request could not be sent or no answer came.
    Unreachable,
    /// An answer came that is not an activation reply.
    BadResponse,
    /// The server's answer.
    Answer(ActivateResponse),
}

/// The instance id an activation grants: the instance's id, else the license
/// key's numeric id; an error when the server could not be reached, answered
/// garbage, refused, or named no instance.
pub fn activation_instance_id(reply: ActivationReply) -> (r: Result<String, LicenseError>)
    ensures
        reply is Unreachable ==> r == Err::<String, LicenseError>(LicenseError::Unreachable),
        reply is BadResponse ==> r == Err::<String, LicenseError>(LicenseError::BadResponse),
        reply matches ActivationReply::Answer(resp) ==> {
            &&& !resp.activated ==> (r matches Err(LicenseError::Rejected(m)) && m@
                == rejection_spec(opt_view(resp.error)))
            &&& resp.activated ==> match (resp.instance, resp.license_key) {
                (Some(i), _) => (r matches Ok(id) && id@ == i.id@),
                (None, Some(k)) => (r matches Ok(id) && id@ == decimal_nat(k.id as nat)),
                (None, None) => r == Err::<String, LicenseError>(LicenseError::NoInstanceId),
            }
        },
{
    let resp = match reply {
        ActivationReply::Unreachable => return Err(LicenseError::Unreachable),
        ActivationReply::BadResponse => return Err(LicenseError::BadResponse),
        ActivationReply::Answer(resp) => resp,
    };
    if !resp.activated {
        let m = match resp.error {
            Some(m) => m,
            None => owned("License could not be activated"),
        };
        return Err(LicenseError::Rejected(m));
    }
    match resp.instance {
        Some(i) => Ok(i.id),
        None => match resp.license_key {
            Some(k) => Ok(u64_to_decimal(k.id)),
            None => Err(LicenseError::NoInstanceId),
        },
    }
}

fn pair(k: &str, v: String) -> (p: (String, String))
    ensures
        p.0@ == k@,
        p.1@ == v@,
{
    (owned(k), v)
}

/// The key/value writes that record a successful activation at `now`:
/// tier "pro", the masked key, the instance id, and the validation time.
pub fn stored_license(key: &str, instance_id: &str, now: i64) -> (w: Vec<(String, String)>)
    ensures
        w.len() == 4,
        w@[0].0@ == KEY_TIER@ && w@[0].1@ == "pro"@,
        w@[1].0@ == KEY_MASKED@ && w@[1].1@ == mask_spec(key@),
        w@[2].0@ == KEY_INSTANCE@ && w@[2].1@ == instance_id@,
        w@[3].0@ == KEY_LAST_VALIDATED@ && w@[3].1@ == decimal_int(now as int),
{
    let mut w: Vec<(String, String)> = Vec::new();
    w.push(pair(KEY_TIER, owned("pro")));
    w.push(pair(KEY_MASKED, mask_key(key)));
    w.push(pair(KEY_INSTANCE, owned(instance_id)));
    w.push(pair(KEY_LAST_VALIDATED, i64_to_decimal(now)));
    w
}

/// The key/value writes that remove the local activation: every license key
/// set to the empty text. The state shown afterwards is the default one.
pub fn deactivate() -> (r: (Vec<(String, String)>, LicenseInfo))
    ensures
        r.0.len() == 4,
        r.0@[0].0@ == KEY_TIER@,
        r.0@[1].0@ == KEY_MASKED@,
        r.0@[2].0@ == KEY_INSTANCE@,
        r.0@[3].0@ == KEY_LAST_VALIDATED@,
        forall|i: int| 0 <= i < 4 ==> (#[trigger] r.0@[i]).1@.len() == 0,
        r.1@ == default_view(),
{
    let mut w: Vec<(String, String)> = Vec::new();
    w.push(pair(KEY_TIER, String::new()));
    w.push(pair(KEY_MASKED, String::new()));
    w.push(pair(KEY_INSTANCE, String::new()));
    w.push(pair(KEY_LAST_VALIDATED, String::new()));
    (w, LicenseInfo::default())
}

// ---------------------------------------------------------------------------
// Validation
// ---------------------------------------------------------------------------

#[derive(Clone, Copy, Debug, PartialEq, Eq, Structural)]
pub enum ValidationOutcome {
    /// Server reachable and the license is valid.
    Valid,
    /// Server reachable and the license is definitively invalid (or no key is vaulted).
    Invalid,
    /// Couldn't reach the server: outcome unknown, the grace window decides.
    Unreachable,
}

/// The outcome of a validation and the key/value writes it makes. `reply`
/// is the server's `valid` flag, `None` when the server could not be reached
/// or answered garbage; without a vaulted key nothing is asked.
pub fn validation_result(has_key: bool, reply: Option<bool>, now: i64) -> (r: (
    ValidationOutcome,
    Vec<(String, String)>,
))
    ensures
        !has_key ==> r.0 == ValidationOutcome::Invalid && r.1.len() == 0,
        has_key && reply is None ==> r.0 == ValidationOutcome::Unreachable && r.1.len() == 0,
        has_key && reply == Some(true) ==> {
            &&& r.0 == ValidationOutcome::Valid
            &&& r.1.len() == 2
            &&& r.1@[0].0@ == KEY_TIER@ && r.1@[0].1@ == "pro"@
            &&& r.1@[1].0@ == KEY_LAST_VALIDATED@ && r.1@[1].1@ == decimal_int(now as int)
        },
        has_key && reply == Some(false) ==> {
            &&& r.0 == ValidationOutcome::Invalid
            &&& r.1.len() == 1
            &&& r.1@[0].0@ == KEY_TIER@ && r.1@[0].1@ == "free"@
        },
{
    let mut w: Vec<(String, String)> = Vec::new();
    if !has_key {
        return (ValidationOutcome::Invalid, w);
    }
    match reply {
        None => (ValidationOutcome::Unreachable, w),
        Some(true) => {
            w.push(pair(KEY_TIER, owned("pro")));
            w.push(pair(KEY_LAST_VALIDATED, i64_to_decimal(now)));
            (ValidationOutcome::Valid, w)
        },
        Some(false) => {
            w.push(pair(KEY_TIER, owned("free")));
            (ValidationOutcome::Invalid, w)
        },
    }
}

/// The locally known state as reported when the server is unreachable: a
/// Free tier never counts as within grace.
pub fn current(info: LicenseInfo) -> (r: LicenseInfo)
    ensures
        r@ == (LicenseView {
            grace_valid: if info.tier == Tier::Free {
                false
            } else {
                info.grace_valid
            },
            ..info@
        }),
{
    let mut info = info;
    if info.tier == Tier::Free {
        info.grace_valid = false;
    }
    info
}

/// The state published before a revalidation: the local state with its
/// tier filtered through the grace window at `now`.
pub fn effective_state(local: &LicenseInfo, now: i64) -> (r: LicenseInfo)
    ensures
        r@ == (LicenseView {
            tier: effective_tier_spec(local.tier, local.last_validated_at, now),
            ..local@
        }),
{
    let mut r = local.duplicate();
    r.tier = effective_tier_at(local, now);
    r
}

/// The state published after a revalidation: the validated state, except
/// that an unreachable server keeps the locally derived tier.
pub fn revalidated_state(outcome: ValidationOutcome, info: LicenseInfo, local: &LicenseInfo, now: i64) -> (r:
    LicenseInfo)
    ensures
        outcome == ValidationOutcome::Unreachable ==> r@ == (LicenseView {
            tier: effective_tier_spec(local.tier, local.last_validated_at, now),
            ..info@
        }),
        outcome != ValidationOutcome::Unreachable ==> r@ == info@,
{
    let mut info = info;
    if outcome == ValidationOutcome::Unreachable {
        info.tier = effective_tier_at(local, now);
    }
    info
}

/// Every Pro command requires the tier in force to be Pro.
pub fn require_pro(info: &LicenseInfo, now: i64) -> (r: Result<(), &'static str>)
    ensures
        r is Ok <==> effective_tier_spec(info.tier, info.last_validated_at, now) == Tier::Pro,
        r matches Err(m) ==> m@ == "pro_required"@,
{
    match effective_tier_at(info, now) {
        Tier::Pro => Ok(()),
        Tier::Free => Err("pro_required"),
    }
}

// ---------------------------------------------------------------------------
// Laws of the license lifecycle
// ---------------------------------------------------------------------------

/// A masked key shows nothing of the key but its last four letters or digits:
/// it is `****-****-****-` followed by at most four characters.
pub proof fn lemma_mask_hides_key(key: Seq<char>)
    ensures
        mask_spec(key).len() <= 19,
        mask_spec(key).take(15) == "****-****-****-"@,
{
    reveal_strlit("****-****-****-");
    let a = alnum_only(key);
    let tail = a.skip(if a.len() < 4 { 0 } else { a.len() - 4 });
    assert(upper_seq(tail).len() == tail.len());
    assert(mask_spec(key).take(15) =~= "****-****-****-"@);
}

proof fn lemma_alnum_only_chars(s: Seq<char>)
    ensures
        alnum_only(s).len() <= s.len(),
        forall|i: int| 0 <= i < alnum_only(s).len() ==> is_ascii_alnum(#[trigger] alnum_only(s)[i]),
    decreases s.len(),
{
    if s.len() > 0 {
        lemma_alnum_only_chars(s.drop_last());
    }
}

proof fn lemma_alnum_only_concat(a: Seq<char>, b: Seq<char>)
    ensures
        alnum_only(a + b) == alnum_only(a) + alnum_only(b),
    decreases b.len(),
{
    if b.len() == 0 {
        assert(a + b =~= a);
        assert(alnum_only(a) + alnum_only(b) =~= alnum_only(a));
    } else {
        lemma_alnum_only_concat(a, b.drop_last());
        assert((a + b).drop_last() =~= a + b.drop_last());
        assert((a + b).last() == b.last());
        if is_ascii_alnum(b.last()) {
            assert(alnum_only(a) + alnum_only(b) =~= (alnum_only(a) + alnum_only(b.drop_last())).push(
                b.last(),
            ));
        }
    }
}

proof fn lemma_alnum_only_keeps(s: Seq<char>)
    requires
        forall|i: int| 0 <= i < s.len() ==> is_ascii_alnum(#[trigger] s[i]),
    ensures
        alnum_only(s) == s,
    decreases s.len(),
{
    if s.len() > 0 {
        lemma_alnum_only_keeps(s.drop_last());
        assert(s.drop_last().push(s.last()) =~= s);
    }
}

proof fn lemma_alnum_only_drops(s: Seq<char>)
    requires
        forall|i: int| 0 <= i < s.len() ==> !is_ascii_alnum(#[trigger] s[i]),
    ensures
        alnum_only(s) == Seq::<char>::empty(),
    decreases s.len(),
{
    if s.len() > 0 {
        lemma_alnum_only_drops(s.drop_last());
    }
}

/// Masking a masked key gives it back unchanged.
pub proof fn lemma_mask_idempotent(key: Seq<char>)
    ensures
        mask_spec(mask_spec(key)) == mask_spec(key),
{
    reveal_strlit("****-****-****-");
    let p = "****-****-****-"@;
    let a = alnum_only(key);
    let tail = a.skip(if a.len() < 4 { 0 } else { a.len() - 4 });
    let u = upper_seq(tail);
    lemma_alnum_only_chars(key);
    assert forall|i: int| 0 <= i < u.len() implies is_ascii_alnum(#[trigger] u[i]) by {
        assert(tail[i] == a[i + (if a.len() < 4 { 0 } else { a.len() - 4 })]);
    }
    assert forall|i: int| 0 <= i < p.len() implies !is_ascii_alnum(#[trigger] p[i]) by {}
    lemma_alnum_only_drops(p);
    lemma_alnum_only_keeps(u);
    lemma_alnum_only_concat(p, u);
    assert(alnum_only(mask_spec(key)) =~= u);
    assert(u.skip(0) =~= u);
    assert(upper_seq(u) =~= u);
}

/// Pro keeps working until seven days after the last successful validation
/// and falls back to Free afterwards; a Free license stays Free at any time.
pub proof fn lemma_grace_window(tier: Tier, last: Option<i64>, now: i64)
    requires
        grace_fits(last, now),
    ensures
        (effective_tier_spec(tier, last, now) == Tier::Pro) <==> (tier == Tier::Pro && last is Some
            && now < last->0 + 7 * 86400),
{
}

/// While the grace window is open, and the clock does not read before the
/// last validation, the days shown are between 1 and 7: the seconds left
/// rounded up to whole days.
pub proof fn lemma_grace_days_in_window(last: Option<i64>, now: i64)
    requires
        grace_checked_spec(last, now) is Some,
        now >= last->0,
    ensures
        1 <= days_left(grace_checked_spec(last, now)->0 as int) <= 7,
{
    let s = grace_checked_spec(last, now)->0 as int;
    assert(0 < s <= GRACE_PERIOD_SECS);
    assert(1 <= (s + 86399) / 86400 <= 7) by (nonlinear_arith)
        requires
            0 < s <= 604800,
    ;
}

/// An activation just written (the values `stored_license` writes) reads
/// back at that moment as Pro, validated now, within the grace window with
/// seven days shown, under the masked key and the instance id.
pub proof fn lemma_stored_activation_reads_back(key: Seq<char>, instance_id: Seq<char>, now: i64)
    ensures
        ({
            let v = local_state_spec(
                Some("pro"@),
                Some(mask_spec(key)),
                Some(instance_id),
                Some(decimal_int(now as int)),
                now,
            );
            &&& v.tier == Tier::Pro
            &&& v.key_masked == Some(mask_spec(key))
            &&& v.instance_id == present(Some(instance_id))
            &&& v.last_validated_at == Some(now)
            &&& v.grace_valid
            &&& v.grace_days_left == Some(7i64)
            &&& effective_tier_spec(v.tier, v.last_validated_at, now) == Tier::Pro
        }),
{
    reveal_strlit("****-****-****-");
    assert(mask_spec(key).len() >= 15);
    lemma_decimal_round_trip(now);
}

/// After the server confirms the license (tier "pro" and the validation
/// time written), the stored state reads back at that moment as Pro within a
/// fresh seven-day grace window, whatever key and instance are stored.
pub proof fn lemma_valid_reply_reads_back_pro(
    key_masked: Option<Seq<char>>,
    instance_id: Option<Seq<char>>,
    now: i64,
)
    ensures
        ({
            let v = local_state_spec(
                Some("pro"@),
                key_masked,
                instance_id,
                Some(decimal_int(now as int)),
                now,
            );
            &&& v.tier == Tier::Pro
            &&& v.last_validated_at == Some(now)
            &&& v.grace_valid
            &&& v.grace_days_left == Some(7i64)
            &&& v.key_masked == present(key_masked)
            &&& v.instance_id == present(instance_id)
        }),
{
    lemma_decimal_round_trip(now);
}

/// After the server declares the license invalid (tier written as "free"),
/// the stored state reads back as Free, whatever else is stored.
pub proof fn lemma_invalid_reply_reads_back_free(
    key_masked: Option<Seq<char>>,
    instance_id: Option<Seq<char>>,
    last_validated: Option<Seq<char>>,
    now: i64,
)
    ensures
        local_state_spec(Some("free"@), key_masked, instance_id, last_validated, now).tier
            == Tier::Free,
        effective_tier_spec(
            local_state_spec(Some("free"@), key_masked, instance_id, last_validated, now).tier,
            opt_parse(last_validated),
            now,
        ) == Tier::Free,
{
    reveal_strlit("free");
    reveal_strlit("pro");
    assert("free"@.len() != "pro"@.len());
}

/// After a deactivation (every license value written empty) the stored
/// state reads back as exactly the state the deactivation reports: Free,
/// no key, no instance, never validated, outside any grace window.
pub proof fn lemma_deactivated_reads_back_free(now: i64)
    ensures
        local_state_spec(
            Some(Seq::empty()),
            Some(Seq::empty()),
            Some(Seq::empty()),
            Some(Seq::empty()),
            now,
        ) == default_view(),
{
    reveal_strlit("pro");
    assert(Seq::<char>::empty() != "pro"@) by {
        assert("pro"@.len() == 3);
    }
}

} // verus!
