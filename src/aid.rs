//! Creation times embedded in legacy identifiers: the first eight characters
//! of such an identifier are a base-36 count of milliseconds since
//! 2000-01-01T00:00:00Z.

use vstd::prelude::*;
use vstd::string::*;

verus! {

/// Milliseconds from the Unix epoch to 2000-01-01T00:00:00Z.
pub const AID_EPOCH_MILLIS: i64 = 946_684_800_000;

/// How many leading characters of an identifier carry its creation time.
pub const AID_TIME_CHARS: usize = 8;

/// The last millisecond of the year 9999, well inside the range of instants
/// that chrono represents.
pub const LAST_MILLIS_OF_9999: i64 = 253_402_300_799_999;

/// The value of a base-36 digit (either case), if `c` is one.
pub open spec fn base36_digit(c: char) -> Option<nat> {
    let v = c as u32;
    if 48 <= v <= 57 {
        Some((v - 48) as nat)
    } else if 97 <= v <= 122 {
        Some((v - 87) as nat)
    } else if 65 <= v <= 90 {
        Some((v - 55) as nat)
    } else {
        None
    }
}

/// The number that a sequence of base-36 digits denotes, most significant first.
pub open spec fn base36_value(s: Seq<char>) -> nat
    decreases s.len(),
{
    if s.len() == 0 {
        0
    } else {
        base36_value(s.drop_last()) * 36 + base36_digit(s.last()).unwrap_or(0)
    }
}

/// 36 to the power `n`.
pub open spec fn pow36(n: nat) -> nat
    decreases n,
{
    if n == 0 {
        1
    } else {
        36 * pow36((n - 1) as nat)
    }
}

/// Whether `id` begins with a time part: eight base-36 digits.
pub open spec fn has_aid_time(id: Seq<char>) -> bool {
    &&& id.len() >= AID_TIME_CHARS
    &&& forall|i: int| 0 <= i < AID_TIME_CHARS ==> (#[trigger] base36_digit(id[i])) is Some
}

/// The creation time, in milliseconds since the Unix epoch, that `id` encodes.
pub open spec fn aid_millis(id: Seq<char>) -> int {
    base36_value(id.subrange(0, AID_TIME_CHARS as int)) + AID_EPOCH_MILLIS
}

/// Relies on chrono::DateTime::from_timestamp_millis: it gives an instant for
/// every millisecond count up to the end of the year 9999 (chrono's range
/// reaches far beyond it), and none outside its range.
#[verifier::external_body]
fn is_representable(ms: i64) -> (r: bool)
    ensures
        0 <= ms <= LAST_MILLIS_OF_9999 ==> r,
{
    chrono::DateTime::from_timestamp_millis(ms).is_some()
}

fn digit_value(c: char) -> (r: Option<u64>)
    ensures
        r matches Some(v) ==> base36_digit(c) == Some(v as nat),
        r is None ==> base36_digit(c) is None,
{
    let v = c as u32;
    if 48 <= v && v <= 57 {
        Some((v - 48) as u64)
    } else if 97 <= v && v <= 122 {
        Some((v - 87) as u64)
    } else if 65 <= v && v <= 90 {
        Some((v - 55) as u64)
    } else {
        None
    }
}

/// Decodes the creation time of a legacy identifier, in milliseconds since the
/// Unix epoch. `None` when the identifier does not begin with eight base-36
/// digits, or when the time it names is no point in time.
pub fn parse(id: &str) -> (r: Option<i64>)
    ensures
        r is Some <==> has_aid_time(id@),
        r matches Some(ms) ==> ms == aid_millis(id@) && ms >= AID_EPOCH_MILLIS,
{
    let n = id.unicode_len();
    if n < AID_TIME_CHARS {
        return None;
    }
    let mut acc: u64 = 0;
    let mut p: u64 = 1;
    let mut i: usize = 0;
    proof {
        reveal_with_fuel(pow36, 9);
        assert(id@.subrange(0, 0) =~= Seq::<char>::empty());
    }
    while i < AID_TIME_CHARS
        invariant
            n == id@.len(),
            n >= AID_TIME_CHARS,
            i <= AID_TIME_CHARS,
            p == pow36(i as nat),
            acc < p,
            acc == base36_value(id@.subrange(0, i as int)),
            forall|j: int| 0 <= j < i ==> (#[trigger] base36_digit(id@[j])) is Some,
            pow36(8) == 2821109907456,
        decreases AID_TIME_CHARS - i,
    {
        let c = id.get_char(i);
        match digit_value(c) {
            None => {
                return None;
            },
            Some(d) => {
                proof {
                    let s = id@.subrange(0, i as int + 1);
                    assert(s.drop_last() =~= id@.subrange(0, i as int));
                    assert(s.last() == c);
                    assert((acc + 1) * 36 <= p * 36) by (nonlinear_arith)
                        requires
                            acc < p,
                    ;
                    assert(pow36((i + 1) as nat) == 36 * pow36(i as nat));
                    assert(pow36((i + 1) as nat) <= pow36(8)) by {
                        lemma_pow36_monotonic((i + 1) as nat, 8);
                    }
                }
                acc = acc * 36 + d;
                p = p * 36;
                i = i + 1;
            },
        }
    }
    assert(id@.subrange(0, i as int) =~= id@.subrange(0, AID_TIME_CHARS as int));
    let ms = acc as i64 + AID_EPOCH_MILLIS;
    if is_representable(ms) {
        Some(ms)
    } else {
        None
    }
}

proof fn lemma_pow36_monotonic(a: nat, b: nat)
    requires
        a <= b,
    ensures
        pow36(a) <= pow36(b),
    decreases b - a,
{
    if a < b {
        lemma_pow36_monotonic(a, (b - 1) as nat);
    }
}

proof fn lemma_base36_bound(s: Seq<char>)
    ensures
        base36_value(s) < pow36(s.len()),
    decreases s.len(),
{
    if s.len() > 0 {
        lemma_base36_bound(s.drop_last());
        let v = base36_value(s.drop_last());
        let p = pow36((s.len() - 1) as nat);
        let d = base36_digit(s.last()).unwrap_or(0);
        assert(d < 36);
        assert(v * 36 + d < 36 * p) by (nonlinear_arith)
            requires
                v < p,
                d < 36,
        ;
    }
}

/// The creation time that an identifier encodes lies between 2000-01-01 and
/// 36^8 milliseconds later.
pub proof fn lemma_aid_millis_bounds(id: Seq<char>)
    requires
        id.len() >= AID_TIME_CHARS,
    ensures
        AID_EPOCH_MILLIS <= aid_millis(id) < AID_EPOCH_MILLIS + 2821109907456,
{
    reveal_with_fuel(pow36, 9);
    lemma_base36_bound(id.subrange(0, AID_TIME_CHARS as int));
}

} // verus!
