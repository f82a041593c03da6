//! Admitting a child account to the pool from its latest quota observation.
use vstd::prelude::*;
use crate::text;
use crate::text::CharClass;
use crate::quota;
use crate::quota::QuotaSnapshot;
use crate::clock;

verus! {

/// A child account's place in the pool.
pub struct PoolMember {
    pub id: String,
    pub child_account_id: String,
    pub pool_status: String,
    pub admission_level: String,
    pub weight: i64,
    pub current_load: i64,
    pub cooldown_until: Option<String>,
    pub last_success_at: Option<String>,
    pub last_failure_at: Option<String>,
}

/// The pool member that an observation admits, and why.
pub struct AdmissionDecision {
    pub pool_member: PoolMember,
    pub reasons: Vec<String>,
}

/// The integer part of a decimal text (the digits before any `.`).
pub open spec fn integer_part(t: Seq<char>) -> nat {
    text::digits_value(text::take_while(t, CharClass::AsciiDigit))
}

/// The digits after the `.` that follows a decimal's integer digits (none without a `.`).
pub open spec fn fraction_digits(t: Seq<char>) -> Seq<char> {
    let k = text::take_while(t, CharClass::AsciiDigit).len();
    if k < t.len() && t[k as int] == '.' {
        text::take_while(t.skip(k + 1 as int), CharClass::AsciiDigit)
    } else {
        seq![]
    }
}

/// Digits with zeros added on the right up to `len`.
pub open spec fn padded(ds: Seq<char>, len: nat) -> Seq<char> {
    ds + Seq::new((len - ds.len()) as nat, |i: int| '0')
}

/// The fraction `0.a` is below the fraction `0.b` (both digit runs).
pub open spec fn fraction_below(a: Seq<char>, b: Seq<char>) -> bool {
    let len = if a.len() < b.len() { b.len() } else { a.len() };
    text::digits_value(padded(a, len)) < text::digits_value(padded(b, len))
}

/// The fraction digits of the point halfway between `n` and the `f64` just below it, for the
/// two thresholds that are graded against: `1 - 2^-51` for 5 (the `f64`s next to 5 are
/// `2^-50` apart), `1 - 2^-49` for 20 (they are `2^-48` apart there).
pub open spec fn f64_midpoint_fraction(n: nat) -> Seq<char> {
    if n == 5 {
        "999999999999999555910790149937383830547332763671875"@
    } else {
        "9999999999999982236431605997495353221893310546875"@
    }
}

/// A percentage, or 0 where none was read, is below `n` (5 or 20) as the `f64` that the
/// decimal reads as: that `f64` is the decimal rounded to the nearest `f64`, a tie going to
/// `n`, so it is below `n` exactly when the decimal is below the midpoint under `n`, that is
/// `n - 1` and the fraction `f64_midpoint_fraction(n)`.
pub open spec fn percent_below(p: Option<Seq<char>>, n: nat) -> bool {
    match p {
        None => 0 < n,
        Some(t) => {
            let i = integer_part(t);
            i + 1 < n || (i + 1 == n && fraction_below(fraction_digits(t), f64_midpoint_fraction(n)))
        },
    }
}

/// More than 200 requests were counted.
pub open spec fn request_rate_high(s: QuotaSnapshot) -> bool {
    match s.request_count {
        Some(v) => v > 200,
        None => false,
    }
}

pub open spec fn quota_below(s: QuotaSnapshot, n: nat) -> bool {
    percent_below(quota::opt_view(s.quota_5h_percent), n) || percent_below(
        quota::opt_view(s.quota_7d_percent),
        n,
    )
}

/// The three grades of admission.
pub enum AdmissionGrade {
    /// Not admitted: the quota could not be read or is nearly spent.
    Red,
    /// Admitted with a low weight: the quota runs low or the request rate is high.
    Yellow,
    /// Admitted with full weight.
    Green,
}

pub open spec fn grade_of(s: QuotaSnapshot) -> AdmissionGrade {
    if !s.read_ok || quota_below(s, 5) {
        AdmissionGrade::Red
    } else if quota_below(s, 20) || request_rate_high(s) {
        AdmissionGrade::Yellow
    } else {
        AdmissionGrade::Green
    }
}

pub open spec fn grade_rank(g: AdmissionGrade) -> int {
    match g {
        AdmissionGrade::Red => 0,
        AdmissionGrade::Yellow => 1,
        AdmissionGrade::Green => 2,
    }
}

pub open spec fn grade_status(g: AdmissionGrade) -> Seq<char> {
    match g {
        AdmissionGrade::Red => "cooling"@,
        _ => "active"@,
    }
}

pub open spec fn grade_level(g: AdmissionGrade) -> Seq<char> {
    match g {
        AdmissionGrade::Red => "red"@,
        AdmissionGrade::Yellow => "yellow"@,
        AdmissionGrade::Green => "green"@,
    }
}

pub open spec fn grade_weight(g: AdmissionGrade) -> i64 {
    match g {
        AdmissionGrade::Red => 0,
        AdmissionGrade::Yellow => 30,
        AdmissionGrade::Green => 100,
    }
}

/// Why an observation got its grade.
pub open spec fn admission_reasons(s: QuotaSnapshot) -> Seq<Seq<char>> {
    if !s.read_ok {
        seq!["quota_read_failed"@]
    } else if quota_below(s, 5) {
        seq!["quota_below_5_percent"@]
    } else if quota_below(s, 20) || request_rate_high(s) {
        (if quota_below(s, 20) { seq!["quota_low"@] } else { seq![] }) + (if request_rate_high(s) {
            seq!["request_rate_high"@]
        } else {
            seq![]
        })
    } else {
        seq!["quota_healthy"@]
    }
}

/// The decision for an observation, given the member's id, the current time and the time
/// the cool-down ends.
pub open spec fn decision_matches(
    d: AdmissionDecision,
    s: QuotaSnapshot,
    member_id: Seq<char>,
    now: Seq<char>,
    cooldown_until: Seq<char>,
) -> bool {
    let g = grade_of(s);
    let cooling = g is Red;
    let m = d.pool_member;
    &&& m.id@ == "pool-"@ + member_id
    &&& m.child_account_id@ == s.child_account_id@
    &&& m.pool_status@ == grade_status(g)
    &&& m.admission_level@ == grade_level(g)
    &&& m.weight == grade_weight(g)
    &&& m.current_load == 0
    &&& quota::opt_view(m.cooldown_until) == if cooling { Some(cooldown_until) } else { None::<Seq<char>> }
    &&& quota::opt_view(m.last_success_at) == if cooling { None::<Seq<char>> } else { Some(now) }
    &&& quota::opt_view(m.last_failure_at) == if cooling { Some(now) } else { None::<Seq<char>> }
    &&& quota::strings_view(d.reasons@) == admission_reasons(s)
}

/// Whether the fraction `0.s[from..to]` is below the fraction `0.b`, comparing the digits
/// from the left, each run padded with zeros to the longer one's length.
fn fraction_is_below(s: &Vec<char>, from: usize, to: usize, b: &Vec<char>) -> (r: bool)
    requires
        from <= to <= s@.len(),
        text::all_digits(s@.subrange(from as int, to as int)),
        text::all_digits(b@),
    ensures
        r == fraction_below(s@.subrange(from as int, to as int), b@),
{
    let la = to - from;
    let lb = b.len();
    let len = if la < lb { lb } else { la };
    let ghost pa = padded(s@.subrange(from as int, to as int), len as nat);
    let ghost pb = padded(b@, len as nat);
    let mut less = false;
    let mut greater = false;
    let mut j: usize = 0;
    assert(pa.take(0) =~= Seq::<char>::empty());
    assert(pb.take(0) =~= Seq::<char>::empty());
    while j < len
        invariant
            j <= len,
            la == to - from,
            lb == b@.len(),
            len == if la < lb { lb } else { la },
            from <= to <= s@.len(),
            text::all_digits(s@.subrange(from as int, to as int)),
            text::all_digits(b@),
            pa == padded(s@.subrange(from as int, to as int), len as nat),
            pb == padded(b@, len as nat),
            less == (text::digits_value(pa.take(j as int)) < text::digits_value(pb.take(j as int))),
            greater == (text::digits_value(pa.take(j as int)) > text::digits_value(pb.take(j as int))),
        decreases len - j,
    {
        let x = if j < la { s[from + j] } else { '0' };
        let y = if j < lb { b[j] } else { '0' };
        proof {
            assert(pa.take(j + 1).drop_last() =~= pa.take(j as int));
            assert(pb.take(j + 1).drop_last() =~= pb.take(j as int));
            if j < la {
                assert(s@.subrange(from as int, to as int)[j as int] == s@[from + j]);
                assert(text::is_ascii_digit(s@.subrange(from as int, to as int)[j as int]));
            }
            if j < lb {
                assert(text::is_ascii_digit(b@[j as int]));
            }
            assert(pa[j as int] == x);
            assert(pb[j as int] == y);
            assert('0' <= x <= '9');
            assert('0' <= y <= '9');
        }
        if !less && !greater {
            if x < y {
                less = true;
            } else if y < x {
                greater = true;
            }
        }
        j = j + 1;
    }
    assert(pa.take(len as int) =~= pa);
    assert(pb.take(len as int) =~= pb);
    less
}

/// Whether a percentage, or 0 where none was read, is below `n` (5 or 20), read as an `f64`.
fn percent_is_below(p: &Option<String>, n: u64) -> (r: bool)
    requires
        n == 5 || n == 20,
    ensures
        r == percent_below(quota::opt_view(*p), n as nat),
{
    match p {
        None => true,
        Some(t) => {
            let cs = text::chars_of(t.as_str());
            let k = text::run_len(&cs, 0, CharClass::AsciiDigit);
            assert(cs@.skip(0) =~= cs@);
            let ghost ds = cs@.subrange(0, k as int);
            assert(text::take_while(t@, CharClass::AsciiDigit) == ds);
            assert(text::all_digits(ds)) by {
                assert forall|i: int| 0 <= i < ds.len() implies text::is_ascii_digit(#[trigger] ds[i]) by {
                    assert(text::in_class(CharClass::AsciiDigit, cs@[i]));
                }
            }
            let i: u64 = if k == 0 {
                assert(ds.len() == 0);
                assert(text::digits_value(ds) == 0);
                0
            } else {
                match text::parse_digits(&cs, 0, k, n - 1) {
                    Some(v) => v,
                    None => {
                        return false;
                    },
                }
            };
            if i + 1 < n {
                return true;
            }
            let ghost frac = fraction_digits(t@);
            let (from, to) = if k < cs.len() && cs[k] == '.' {
                let f = text::run_len(&cs, k + 1, CharClass::AsciiDigit);
                assert(t@.skip(k + 1) =~= cs@.skip(k + 1));
                (k + 1, k + 1 + f)
            } else {
                (k, k)
            };
            assert(frac =~= cs@.subrange(from as int, to as int));
            assert(text::all_digits(frac)) by {
                assert forall|j: int| 0 <= j < frac.len() implies text::is_ascii_digit(#[trigger] frac[j]) by {
                    assert(frac[j] == cs@[from + j]);
                    assert(text::in_class(CharClass::AsciiDigit, cs@[from + j]));
                }
            }
            let mid = if n == 5 {
                text::chars_of("999999999999999555910790149937383830547332763671875")
            } else {
                text::chars_of("9999999999999982236431605997495353221893310546875")
            };
            proof {
                reveal_strlit("999999999999999555910790149937383830547332763671875");
                reveal_strlit("9999999999999982236431605997495353221893310546875");
                assert(mid@ == f64_midpoint_fraction(n as nat));
                assert(text::all_digits(mid@));
            }
            fraction_is_below(&cs, from, to, &mid)
        },
    }
}

fn quota_is_below(s: &QuotaSnapshot, n: u64) -> (r: bool)
    requires
        n == 5 || n == 20,
    ensures
        r == quota_below(*s, n as nat),
{
    percent_is_below(&s.quota_5h_percent, n) || percent_is_below(&s.quota_7d_percent, n)
}

fn push_reason(v: &mut Vec<String>, reason: &str)
    ensures
        quota::strings_view(final(v)@) == quota::strings_view(old(v)@).push(reason@),
{
    let ghost before = v@;
    v.push(String::from_str(reason));
    assert(quota::strings_view(v@) =~= quota::strings_view(before).push(reason@));
}

/// Grades an observation: an unread quota or one below 5% cools the member down (red,
/// weight 0); one below 20% or more than 200 requests keeps it active at weight 30
/// (yellow); else it is active at weight 100 (green).
pub fn admission_from_snapshot(
    snapshot: &QuotaSnapshot,
    member_id: &str,
    now: &str,
    cooldown_until: &str,
) -> (r: AdmissionDecision)
    ensures
        decision_matches(r, *snapshot, member_id@, now@, cooldown_until@),
{
    let mut reasons: Vec<String> = Vec::new();
    let ghost empty = quota::strings_view(reasons@);
    assert(empty =~= Seq::<Seq<char>>::empty());
    let below5 = quota_is_below(snapshot, 5);
    let below20 = quota_is_below(snapshot, 20);
    let high = match snapshot.request_count {
        Some(v) => v > 200,
        None => false,
    };
    let cooling;
    let status;
    let level;
    let weight: i64;
    if !snapshot.read_ok {
        push_reason(&mut reasons, "quota_read_failed");
        cooling = true;
        status = "cooling";
        level = "red";
        weight = 0;
    } else if below5 {
        push_reason(&mut reasons, "quota_below_5_percent");
        cooling = true;
        status = "cooling";
        level = "red";
        weight = 0;
    } else if below20 || high {
        if below20 {
            push_reason(&mut reasons, "quota_low");
        }
        if high {
            push_reason(&mut reasons, "request_rate_high");
        }
        proof {
            let a: Seq<Seq<char>> = if below20 { seq!["quota_low"@] } else { seq![] };
            let b: Seq<Seq<char>> = if high { seq!["request_rate_high"@] } else { seq![] };
            assert(quota::strings_view(reasons@) =~= a + b);
        }
        cooling = false;
        status = "active";
        level = "yellow";
        weight = 30;
    } else {
        push_reason(&mut reasons, "quota_healthy");
        cooling = false;
        status = "active";
        level = "green";
        weight = 100;
    }
    AdmissionDecision {
        pool_member: PoolMember {
            id: text::concat2("pool-", member_id),
            child_account_id: snapshot.child_account_id.clone(),
            pool_status: String::from_str(status),
            admission_level: String::from_str(level),
            weight,
            current_load: 0,
            cooldown_until: if cooling { Some(String::from_str(cooldown_until)) } else { None },
            last_success_at: if cooling { None } else { Some(String::from_str(now)) },
            last_failure_at: if cooling { Some(String::from_str(now)) } else { None },
        },
        reasons,
    }
}

/// Grades an observation with a fresh random member id, now, with a cool-down of 30
/// minutes from now.
pub fn decide_from_snapshot(snapshot: &QuotaSnapshot) -> (r: AdmissionDecision)
    ensures
        exists|id: Seq<char>, now: Seq<char>, until: Seq<char>|
            #[trigger] decision_matches(r, *snapshot, id, now, until),
        exists|id: Seq<char>, secs: i64, nanos: u32|
            clock::uuid_v4_text(id) && clock::valid_instant((secs, nanos)) && #[trigger] decision_matches(
                r,
                *snapshot,
                id,
                clock::text_of(secs as int, nanos as int),
                clock::text_after(secs as int, nanos as int, 1800),
            ),
{
    let id = clock::new_uuid_text();
    let (now, until) = clock::now_and_later_text(30 * 60);
    let r = admission_from_snapshot(snapshot, id.as_str(), now.as_str(), until.as_str());
    assert(decision_matches(r, *snapshot, id@, now@, until@));
    r
}

/// A member is cooled down exactly when it has no weight, and exactly when it is red.
pub proof fn lemma_cooling_iff_no_weight(s: QuotaSnapshot)
    ensures
        (grade_status(grade_of(s)) == "cooling"@) == (grade_weight(grade_of(s)) == 0),
        (grade_level(grade_of(s)) == "red"@) == (grade_weight(grade_of(s)) == 0),
        admission_reasons(s).len() > 0,
{
    reveal_strlit("cooling");
    reveal_strlit("active");
    reveal_strlit("red");
    reveal_strlit("yellow");
    reveal_strlit("green");
    assert("cooling"@.len() == 7 && "active"@.len() == 6);
    assert("red"@.len() == 3 && "yellow"@.len() == 6 && "green"@.len() == 5);
}

/// An observation that read at least as much quota left in both windows and counted no
/// more requests never gets a lower grade.
pub proof fn lemma_grade_monotone(a: QuotaSnapshot, b: QuotaSnapshot)
    requires
        a.read_ok ==> b.read_ok,
        forall|n: nat| percent_below(quota::opt_view(b.quota_5h_percent), n) ==> percent_below(
            quota::opt_view(a.quota_5h_percent),
            n,
        ),
        forall|n: nat| percent_below(quota::opt_view(b.quota_7d_percent), n) ==> percent_below(
            quota::opt_view(a.quota_7d_percent),
            n,
        ),
        request_rate_high(b) ==> request_rate_high(a),
    ensures
        grade_rank(grade_of(b)) >= grade_rank(grade_of(a)),
{
}

/// Either quota alone decides: with the quota read, a 5-hour or a 7-day percentage whose
/// whole part is below 4 (so below 5, however it is rounded), or one that was not read at
/// all, cools the member down (red, weight 0, `quota_below_5_percent`), whatever the other
/// quota; one whose whole part is below 19 keeps the member from green.
pub proof fn lemma_either_quota_grades_alone(
    d: AdmissionDecision,
    s: QuotaSnapshot,
    member_id: Seq<char>,
    now: Seq<char>,
    cooldown_until: Seq<char>,
)
    requires
        decision_matches(d, s, member_id, now, cooldown_until),
        s.read_ok,
    ensures
        s.quota_7d_percent is None ==> grade_of(s) is Red,
        s.quota_7d_percent matches Some(t) ==> (integer_part(t@) < 4 ==> grade_of(s) is Red),
        s.quota_7d_percent matches Some(t) ==> (integer_part(t@) < 19 ==> !(grade_of(s) is Green)),
        s.quota_5h_percent is None ==> grade_of(s) is Red,
        s.quota_5h_percent matches Some(t) ==> (integer_part(t@) < 4 ==> grade_of(s) is Red),
        s.quota_5h_percent matches Some(t) ==> (integer_part(t@) < 19 ==> !(grade_of(s) is Green)),
        grade_of(s) is Red ==> {
            &&& d.pool_member.pool_status@ == "cooling"@
            &&& d.pool_member.admission_level@ == "red"@
            &&& d.pool_member.weight == 0
            &&& quota::strings_view(d.reasons@) == seq!["quota_below_5_percent"@]
        },
        !(grade_of(s) is Green) ==> d.pool_member.weight <= 30 && d.pool_member.admission_level@ != "green"@,
{
    reveal_strlit("green");
    reveal_strlit("yellow");
    reveal_strlit("red");
    assert("yellow"@[0] != "green"@[0]);
    assert("red"@[0] != "green"@[0]);
}

/// Lowering only the 7-day quota (to a smaller whole part) never raises the grade.
pub proof fn lemma_lower_seven_day_quota_never_raises_grade(a: QuotaSnapshot, b: QuotaSnapshot)
    requires
        a.read_ok == b.read_ok,
        a.quota_5h_percent == b.quota_5h_percent,
        a.request_count == b.request_count,
        a.quota_7d_percent is Some,
        b.quota_7d_percent is Some,
        integer_part(b.quota_7d_percent.unwrap()@) < integer_part(a.quota_7d_percent.unwrap()@),
    ensures
        grade_rank(grade_of(b)) <= grade_rank(grade_of(a)),
{
    assert forall|n: nat| percent_below(quota::opt_view(a.quota_7d_percent), n) implies percent_below(
        quota::opt_view(b.quota_7d_percent),
        n,
    ) by {}
    lemma_grade_monotone(b, a);
}

} // verus!
