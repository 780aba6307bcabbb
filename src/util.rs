use vstd::prelude::*;
use vstd::string::*;

use crate::text::{decimal, digit_char, digit_str, push_decimal};

verus! {

/// Credentials of an account.
#[derive(Debug)]
pub struct Authentication {
    pub username: String,
    pub password: String,
}

/// How far an instance's setup has come: the current step (number and description) out of
/// `total_steps`.
#[derive(Debug)]
pub struct SetupProgress {
    pub current_step: (u8, String),
    pub total_steps: u8,
}

/// How far a download has come.
#[derive(Debug, Clone)]
pub struct DownloadProgress {
    pub total: Option<u64>,
    pub downloaded: u64,
    pub step: u64,
    pub download_name: String,
}

/// Where to fetch a generic instance from, and the answers to its setup questions (as JSON
/// text).
#[derive(Debug, Clone)]
pub struct GenericSetupConfig {
    pub url: String,
    pub setup_value: String,
}

/// `1024` to the power `k`.
pub open spec fn pow1024(k: nat) -> nat
    decreases k,
{
    if k == 0 {
        1
    } else {
        1024 * pow1024((k - 1) as nat)
    }
}

/// The unit a byte count is shown in: the number of times, at most 8, that the amount still
/// exceeds 1024 when divided by 1024 once more.
pub open spec fn unit_from(b: nat, k: nat) -> nat
    decreases 8 - k,
{
    if k < 8 && b > pow1024(k + 1) {
        unit_from(b, k + 1)
    } else {
        k
    }
}

pub open spec fn unit_name(k: nat) -> Seq<char> {
    if k == 0 {
        "B"@
    } else if k == 1 {
        "KB"@
    } else if k == 2 {
        "MB"@
    } else if k == 3 {
        "GB"@
    } else if k == 4 {
        "TB"@
    } else if k == 5 {
        "PB"@
    } else if k == 6 {
        "EB"@
    } else if k == 7 {
        "ZB"@
    } else {
        "YB"@
    }
}

/// `n / d` rounded to the nearest integer, halves to the even one.
pub open spec fn round_half_even(n: nat, d: nat) -> nat {
    let q = n / d;
    let r = n % d;
    if 2 * r > d {
        q + 1
    } else if 2 * r < d {
        q
    } else if q % 2 == 0 {
        q
    } else {
        q + 1
    }
}

/// `b / 1024^k` with one decimal: the number of tenths, rounded.
pub open spec fn tenths(b: nat, k: nat) -> nat {
    round_half_even(10 * b, pow1024(k))
}

/// A number of tenths written with one decimal.
pub open spec fn one_decimal(t: nat) -> Seq<char> {
    decimal(t / 10) + "."@ + seq![digit_char(t % 10)]
}

/// A byte count in the largest unit that keeps it above 1024, with one decimal.
pub open spec fn byte_text(b: nat) -> Seq<char> {
    one_decimal(tenths(b, unit_from(b, 0))) + " "@ + unit_name(unit_from(b, 0))
}

/// Download progress: both amounts in the unit that suits the downloaded one.
pub open spec fn download_text(b: nat, total: nat) -> Seq<char> {
    let k = unit_from(b, 0);
    one_decimal(tenths(b, k)) + " / "@ + one_decimal(tenths(total, k)) + " "@ + unit_name(k)
}

fn unit_str(k: u32) -> (r: &'static str)
    requires
        k <= 8,
    ensures
        r@ == unit_name(k as nat),
{
    if k == 0 {
        "B"
    } else if k == 1 {
        "KB"
    } else if k == 2 {
        "MB"
    } else if k == 3 {
        "GB"
    } else if k == 4 {
        "TB"
    } else if k == 5 {
        "PB"
    } else if k == 6 {
        "EB"
    } else if k == 7 {
        "ZB"
    } else {
        "YB"
    }
}

proof fn lemma_pow1024_bound(k: nat)
    requires
        k <= 9,
    ensures
        1 <= pow1024(k) <= pow1024(9),
        pow1024(9) == 1237940039285380274899124224,
    decreases k,
{
    reveal_with_fuel(pow1024, 10);
    if k > 0 {
        lemma_pow1024_bound((k - 1) as nat);
    }
}

/// The unit index for `b`, and `1024` to that power.
fn unit_of(b: u64) -> (r: (u32, u128))
    ensures
        r.0 == unit_from(b as nat, 0),
        r.0 <= 8,
        r.1 == pow1024(r.0 as nat),
        1 <= r.1 <= 1208925819614629174706176,
{
    let mut k: u32 = 0;
    let mut p: u128 = 1;
    proof {
        lemma_pow1024_bound(1);
    }
    while k < 8 && (b as u128) > p * 1024
        invariant
            k <= 8,
            p == pow1024(k as nat),
            1 <= p,
            p * 1024 <= 1237940039285380274899124224,
            unit_from(b as nat, 0) == unit_from(b as nat, k as nat),
        decreases 8 - k,
    {
        proof {
            lemma_pow1024_bound(k as nat + 1);
            lemma_pow1024_bound(k as nat + 2);
            reveal_with_fuel(pow1024, 2);
        }
        p = p * 1024;
        k = k + 1;
    }
    proof {
        lemma_pow1024_bound(k as nat);
        reveal_with_fuel(pow1024, 9);
    }
    (k, p)
}

/// Appends `b / d` with one decimal, rounded half to even.
fn push_one_decimal(out: &mut String, b: u64, d: u128)
    requires
        1 <= d <= 1208925819614629174706176,
    ensures
        final(out)@ == old(out)@ + one_decimal(round_half_even(10 * b as nat, d as nat)),
{
    let n: u128 = 10 * (b as u128);
    let q = n / d;
    let r = n % d;
    assert(r < d) by (nonlinear_arith)
        requires
            r == n % d,
            d >= 1,
    ;
    let t: u128 = if 2 * r > d {
        q + 1
    } else if 2 * r < d {
        q
    } else if q % 2 == 0 {
        q
    } else {
        q + 1
    };
    assert(q <= n) by (nonlinear_arith)
        requires
            q == n / d,
            d >= 1,
            n >= 0,
    ;
    push_decimal(out, (t / 10) as u64);
    out.append(".");
    out.append(digit_str((t % 10) as u64));
    assert(final(out)@ =~= old(out)@ + one_decimal(t as nat)) by {
        reveal_strlit(".");
    }
}

/// A byte count for people: in B, KB, ... up to YB, the largest unit in which the amount
/// still exceeds 1024 (`1536` is `1.5 KB`), with one decimal.
pub fn format_byte(bytes: u64) -> (r: String)
    ensures
        r@ == byte_text(bytes as nat),
{
    let (k, p) = unit_of(bytes);
    let mut r = String::new();
    push_one_decimal(&mut r, bytes, p);
    r.append(" ");
    r.append(unit_str(k));
    assert(r@ =~= byte_text(bytes as nat)) by {
        reveal_strlit("");
    }
    r
}

/// Download progress for people: `downloaded / total unit`, both in the unit that
/// `format_byte` picks for `bytes`.
pub fn format_byte_download(bytes: u64, total: u64) -> (r: String)
    ensures
        r@ == download_text(bytes as nat, total as nat),
{
    let (k, p) = unit_of(bytes);
    let mut r = String::new();
    push_one_decimal(&mut r, bytes, p);
    r.append(" / ");
    push_one_decimal(&mut r, total, p);
    r.append(" ");
    r.append(unit_str(k));
    r
}

} // verus!
