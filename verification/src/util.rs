//! Sizes for people, and where to keep the temporary store.
use vstd::prelude::*;

use crate::text;
use crate::text::decimal;

verus! {

/// `n / d`, rounded to the nearest integer, and to the even one where two are
/// equally near.
pub open spec fn round_half_even(n: nat, d: nat) -> nat {
    let q = n / d;
    let r = n % d;
    if 2 * r < d || 2 * r == d && q % 2 == 0 {
        q
    } else {
        q + 1
    }
}

/// How far apart double precision numbers of the size of `n` are, where they are
/// no closer than integers: they hold 53 binary digits.
pub open spec fn spacing(n: nat) -> nat
    decreases n,
{
    if n < 0x20_0000_0000_0000 {
        1
    } else {
        2 * spacing(n / 2)
    }
}

/// The double precision number nearest to `n`.
pub open spec fn nearest_double(n: nat) -> nat {
    round_half_even(n, spacing(n)) * spacing(n)
}

/// How many bytes the unit for `bytes` stands for.
pub open spec fn unit_size(bytes: nat) -> nat {
    if bytes < 0x400 {
        1
    } else if bytes < 0x10_0000 {
        0x400
    } else if bytes < 0x4000_0000 {
        0x10_0000
    } else if bytes < 0x100_0000_0000 {
        0x4000_0000
    } else {
        0x100_0000_0000
    }
}

/// The name of the unit for `bytes`.
pub open spec fn unit_name(bytes: nat) -> Seq<char> {
    if bytes < 0x400 {
        " B"@
    } else if bytes < 0x10_0000 {
        " KB"@
    } else if bytes < 0x4000_0000 {
        " MB"@
    } else if bytes < 0x100_0000_0000 {
        " GB"@
    } else {
        " TB"@
    }
}

/// The size in tenths of its unit. It is computed in double precision, which tells
/// sizes of eight petabytes and more apart only by their leading digits.
pub open spec fn tenths(bytes: nat) -> nat {
    round_half_even(10 * nearest_double(bytes), unit_size(bytes))
}

/// A size for people: in bytes, or with one decimal in the largest unit up to
/// terabytes of which there is at least one.
pub open spec fn human(bytes: nat) -> Seq<char> {
    if bytes < 0x400 {
        decimal(bytes) + unit_name(bytes)
    } else {
        decimal(tenths(bytes) / 10) + "."@ + decimal(tenths(bytes) % 10) + unit_name(bytes)
    }
}

fn rounded(n: u128, d: u128) -> (r: u128)
    requires
        0 < d < 0x1_0000_0000_0000_0000,
        n < 0x1_0000_0000_0000_0000_0000,
    ensures
        r == round_half_even(n as nat, d as nat),
        r <= n / d + 1,
{
    let q: u128 = n / d;
    let rest: u128 = n % d;
    proof {
        vstd::arithmetic::div_mod::lemma_div_is_ordered_by_denominator(n as int, 1, d as int);
        vstd::arithmetic::div_mod::lemma_div_basics(n as int);
    }
    if 2 * rest < d || 2 * rest == d && q % 2 == 0 {
        q
    } else {
        q + 1
    }
}

fn spacing_of(n: u64) -> (r: u64)
    ensures
        r == spacing(n as nat),
        0 < r,
        n < 0x20_0000_0000_0000 ==> r == 1,
        n >= 0x20_0000_0000_0000 ==> r * 0x10_0000_0000_0000 <= n,
    decreases n,
{
    if n < 0x20_0000_0000_0000 {
        1
    } else {
        2 * spacing_of(n / 2)
    }
}

/// A size for people: in bytes, or with one decimal in the largest unit up to
/// terabytes of which there is at least one.
pub fn human_bytes(bytes: u64) -> (r: String)
    ensures
        r@ == human(bytes as nat),
{
    if bytes < 0x400 {
        let mut r = text::decimal_of(bytes);
        r.append(" B");
        return r;
    }
    let (unit, name) = if bytes < 0x10_0000 {
        (0x400u64, " KB")
    } else if bytes < 0x4000_0000 {
        (0x10_0000u64, " MB")
    } else if bytes < 0x100_0000_0000 {
        (0x4000_0000u64, " GB")
    } else {
        (0x100_0000_0000u64, " TB")
    };
    let s: u64 = spacing_of(bytes);
    let q: u128 = rounded(bytes as u128, s as u128);
    assert(q * s <= bytes + s) by (nonlinear_arith)
        requires
            q <= (bytes as u128) / (s as u128) + 1,
            0 < s,
    ;
    let near: u128 = q * (s as u128);
    let t: u128 = rounded(10 * near, unit as u128);
    assert(near <= 0x2_0000_0000_0000_0000);
    assert((10 * near) / (unit as int) <= (10 * near) / 0x400) by (nonlinear_arith)
        requires
            unit >= 0x400,
            near >= 0,
    ;
    let tenths: u64 = t as u64;
    let mut r = text::decimal_of(tenths / 10);
    let last = text::decimal_of(tenths % 10);
    r.append(".");
    r.append(last.as_str());
    r.append(name);
    r
}

/// Up to eight petabytes, the size shown is within half of the last digit of the
/// true size.
pub proof fn shown_size_is_nearest(bytes: nat)
    requires
        0x400 <= bytes < 0x20_0000_0000_0000,
    ensures
        2 * tenths(bytes) * unit_size(bytes) <= 20 * bytes + unit_size(bytes),
        20 * bytes <= 2 * tenths(bytes) * unit_size(bytes) + unit_size(bytes),
{
    assert(spacing(bytes) == 1);
    assert(nearest_double(bytes) == bytes);
    rounding_is_near(10 * bytes, unit_size(bytes));
}

proof fn rounding_is_near(n: nat, d: nat)
    requires
        0 < d,
    ensures
        2 * round_half_even(n, d) * d <= 2 * n + d,
        2 * n <= 2 * round_half_even(n, d) * d + d,
{
    let q = n / d;
    let r = n % d;
    vstd::arithmetic::div_mod::lemma_fundamental_div_mod(n as int, d as int);
    vstd::arithmetic::div_mod::lemma_mod_bound(n as int, d as int);
    assert(2 * q * d == 2 * (d * q)) by (nonlinear_arith);
    assert(2 * (q + 1) * d == 2 * (d * q) + 2 * d) by (nonlinear_arith);
}

/// The root of the drive that a path is on.
#[derive(Debug)]
pub enum DriveRoot<T> {
    /// The path has no absolute form, or no root.
    Unresolved,
    /// The root does not exist.
    Missing(T),
    Present(T),
}

/// The first root that exists, or else `fallback`.
pub open spec fn first_present<T>(roots: Seq<DriveRoot<T>>, fallback: T) -> T
    decreases roots.len(),
{
    if roots.len() == 0 {
        fallback
    } else {
        match roots[0] {
            DriveRoot::Present(root) => root,
            _ => first_present(roots.drop_first(), fallback),
        }
    }
}

/// Pick a directory on the same drive as the given paths for the temp store, from
/// the roots of the paths in order.
///
/// The system temp dir is often too small for large transfers, so we prefer the
/// drive the data lives on, and fall back to the system temp dir if no path can be
/// resolved.
pub fn default_store_parent<T>(roots: Vec<DriveRoot<T>>, temp_dir: T) -> (r: T)
    ensures
        r == first_present(roots@, temp_dir),
{
    let ghost all = roots@;
    assert(all.skip(0) =~= all);
    for root in it: roots
        invariant
            it.seq() == all,
            first_present(all, temp_dir) == first_present(all.skip(it.index() as int), temp_dir),
    {
        assert(all.skip(it.index() as int).drop_first() =~= all.skip(it.index() + 1));
        match root {
            DriveRoot::Present(root) => {
                return root;
            },
            _ => {},
        }
    }
    temp_dir
}

/// The directory for the temp store: `dir` if it can be written to, or else (e.g. a
/// system drive root) the system temp dir.
pub fn writable_store_parent<T>(dir: T, temp_dir: T, writable: bool) -> (r: T)
    ensures
        r == if writable {
            dir
        } else {
            temp_dir
        },
{
    if writable {
        dir
    } else {
        temp_dir
    }
}

/// The warning where the temp store goes to the system temp dir.
pub fn store_warning(dir: &str, temp_dir: &str) -> (r: String)
    ensures
        r@ == "warning: "@ + dir@ + " is not writable, using "@ + temp_dir@
            + " for the temp store instead"@,
{
    let mut r: String = "warning: ".to_owned();
    r.append(dir);
    r.append(" is not writable, using ");
    r.append(temp_dir);
    r.append(" for the temp store instead");
    r
}

/// Rounding gives the nearest integer, and the even one where two are equally near.
pub proof fn rounding_goes_to_the_nearest(n: nat, d: nat)
    requires
        0 < d,
    ensures
        2 * round_half_even(n, d) * d <= 2 * n + d,
        2 * n <= 2 * round_half_even(n, d) * d + d,
        2 * round_half_even(n, d) * d == 2 * n + d || 2 * n == 2 * round_half_even(n, d) * d + d
            ==> round_half_even(n, d) % 2 == 0,
{
    rounding_is_near(n, d);
    let q = n / d;
    let r = n % d;
    vstd::arithmetic::div_mod::lemma_fundamental_div_mod(n as int, d as int);
    vstd::arithmetic::div_mod::lemma_mod_bound(n as int, d as int);
    assert(2 * q * d == 2 * (d * q)) by (nonlinear_arith);
    assert(2 * (q + 1) * d == 2 * (d * q) + 2 * d) by (nonlinear_arith);
}

/// Double precision numbers of the size of `n` are integers up to fifty-three binary
/// digits; from there on they are the multiples of a power of two of which `n` holds at
/// least half of as many as such digits can count, and fewer than all.
pub proof fn doubles_have_fifty_three_digits(n: nat)
    ensures
        n < 0x20_0000_0000_0000 ==> spacing(n) == 1,
        n >= 0x20_0000_0000_0000 ==> spacing(n) * 0x10_0000_0000_0000 <= n < spacing(n)
            * 0x20_0000_0000_0000,
        exists|k: nat| spacing(n) == #[trigger] vstd::arithmetic::power2::pow2(k),
    decreases n,
{
    if n < 0x20_0000_0000_0000 {
        vstd::arithmetic::power2::lemma2_to64();
        assert(spacing(n) == vstd::arithmetic::power2::pow2(0));
    } else {
        doubles_have_fifty_three_digits(n / 2);
        let k = choose|k: nat| spacing(n / 2) == #[trigger] vstd::arithmetic::power2::pow2(k);
        vstd::arithmetic::power2::lemma_pow2_unfold(k + 1);
        assert(spacing(n) == vstd::arithmetic::power2::pow2(k + 1));
    }
}

/// The nearest double precision number is one of them, and no more than half of their
/// distance away.
pub proof fn doubles_are_near(n: nat)
    ensures
        nearest_double(n) % spacing(n) == 0,
        2 * nearest_double(n) <= 2 * n + spacing(n),
        2 * n <= 2 * nearest_double(n) + spacing(n),
        nearest_double(n) == round_half_even(n, spacing(n)) * spacing(n),
{
    doubles_have_fifty_three_digits(n);
    let s = spacing(n);
    let k = choose|k: nat| spacing(n) == #[trigger] vstd::arithmetic::power2::pow2(k);
    vstd::arithmetic::power2::lemma_pow2_pos(k);
    rounding_is_near(n, s);
    let q = round_half_even(n, s);
    vstd::arithmetic::div_mod::lemma_mod_multiples_basic(q as int, s as int);
    assert(2 * q * s == 2 * (q * s)) by (nonlinear_arith);
}

/// The unit is the largest power of 1024 bytes, up to terabytes, of which there is at
/// least one; each has its name.
pub proof fn units_are_powers_of_1024(bytes: nat)
    ensures
        unit_size(bytes) == 1 || unit_size(bytes) == 1024 || unit_size(bytes) == 1024 * 1024
            || unit_size(bytes) == 1024 * 1024 * 1024 || unit_size(bytes) == 1024 * 1024 * 1024
            * 1024,
        bytes > 0 ==> unit_size(bytes) <= bytes,
        bytes == 0 ==> unit_size(bytes) == 1,
        unit_size(bytes) < 1024 * 1024 * 1024 * 1024 ==> bytes < 1024 * unit_size(bytes),
        unit_size(bytes) == 1 ==> unit_name(bytes) == " B"@,
        unit_size(bytes) == 1024 ==> unit_name(bytes) == " KB"@,
        unit_size(bytes) == 1024 * 1024 ==> unit_name(bytes) == " MB"@,
        unit_size(bytes) == 1024 * 1024 * 1024 ==> unit_name(bytes) == " GB"@,
        unit_size(bytes) == 1024 * 1024 * 1024 * 1024 ==> unit_name(bytes) == " TB"@,
{
}

/// Bytes are shown as they are; larger sizes as the nearest tenths of their unit, with a
/// point before the last digit.
pub proof fn sizes_are_shown_in_tenths(bytes: nat)
    ensures
        bytes < 1024 ==> human(bytes) == decimal(bytes) + " B"@,
        bytes >= 1024 ==> human(bytes) == decimal(tenths(bytes) / 10) + "."@ + decimal(
            tenths(bytes) % 10,
        ) + unit_name(bytes),
        2 * tenths(bytes) * unit_size(bytes) <= 20 * nearest_double(bytes) + unit_size(bytes),
        20 * nearest_double(bytes) <= 2 * tenths(bytes) * unit_size(bytes) + unit_size(bytes),
        tenths(bytes) == round_half_even(10 * nearest_double(bytes), unit_size(bytes)),
{
    rounding_is_near(10 * nearest_double(bytes), unit_size(bytes));
}

/// The first root that exists is picked, whatever comes after it; where none exists it
/// is the fallback.
pub proof fn the_first_existing_root_is_picked<T>(
    before: Seq<DriveRoot<T>>,
    root: T,
    after: Seq<DriveRoot<T>>,
    fallback: T,
)
    requires
        forall|i: int| 0 <= i < before.len() ==> !(#[trigger] before[i] is Present),
    ensures
        first_present(before, fallback) == fallback,
        first_present(before + seq![DriveRoot::Present(root)] + after, fallback) == root,
    decreases before.len(),
{
    let all = before + seq![DriveRoot::Present(root)] + after;
    if before.len() > 0 {
        let fewer = before.drop_first();
        assert forall|i: int| 0 <= i < fewer.len() implies !(#[trigger] fewer[i] is Present) by {
            assert(!(before[i + 1] is Present));
        }
        the_first_existing_root_is_picked(fewer, root, after, fallback);
        assert(all[0] == before[0]);
        assert(all.drop_first() =~= fewer + seq![DriveRoot::Present(root)] + after);
    } else {
        assert(all[0] == DriveRoot::Present(root));
    }
}

} // verus!
