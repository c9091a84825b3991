//! Keyframe curves over a particle's lifetime.
//!
//! A gradient is a list of keys, each a ratio of the lifetime between 0 and 1
//! and the value the curve has there. Between two keys the curve is the
//! straight line from one value to the other; before the first key and after
//! the last it is flat.

use vstd::prelude::*;
use vstd::arithmetic::div_mod::lemma_fundamental_div_mod;
use vstd::arithmetic::div_mod::lemma_fundamental_div_mod_converse;
use vstd::string::*;
use crate::blocks::balanced;
use crate::blocks::lemma_closes;
use crate::blocks::lemma_opens;
use crate::blocks::lemma_opens_and_closes;
use crate::blocks::lemma_plain_concat;
use crate::blocks::lemma_plain_runs;
use crate::blocks::lemma_runs_concat;
use crate::blocks::lemma_then_plain;
use crate::blocks::plain;
use crate::blocks::runs;
use crate::format::decimal_text;
use crate::format::lemma_numbers_are_plain;
use crate::format::whole_digits;
use crate::format::push_decimal;
use crate::format::push_index;
use crate::number::Fixed;
use crate::number::Vector4;
use crate::number::SCALE;

verus! {

/// One key of a gradient.
#[derive(Clone, Copy, Debug, PartialEq, Eq, Structural)]
pub struct GradientKey {
    /// Where the key stands, as a ratio of the lifetime from 0 to 1.
    pub ratio: Fixed,
    /// The value of the curve there.
    pub value: Vector4,
}

/// Why a gradient could not do what was asked.
#[derive(Clone, Copy, Debug, PartialEq, Eq, Structural)]
pub enum GradientError {
    /// The ratio of a key lies below 0 or above 1.
    RatioOutOfRange,
    /// A gradient without keys has no value anywhere.
    NoKeys,
}

/// The keys stand in the order of their ratios, and no two share a ratio.
pub open spec fn keys_sorted(keys: Seq<GradientKey>) -> bool {
    forall|i: int, j: int| 0 <= i < j < keys.len() ==> keys[i].ratio@ < keys[j].ratio@
}

/// Every ratio lies between 0 and 1.
pub open spec fn keys_in_unit(keys: Seq<GradientKey>) -> bool {
    forall|i: int| 0 <= i < keys.len() ==> 0 <= #[trigger] keys[i].ratio@ <= SCALE
}

/// Some key stands at `t`.
pub open spec fn has_key_at(keys: Seq<GradientKey>, t: int) -> bool {
    exists|i: int| 0 <= i < keys.len() && (#[trigger] keys[i]).ratio@ == t
}

/// The key lists a gradient can hold.
pub open spec fn keys_valid(keys: Seq<GradientKey>) -> bool {
    keys_sorted(keys) && keys_in_unit(keys)
}

/// The point that lies `num / den` of the way from `a` to `b`, rounded down
/// to a millionth.
pub open spec fn lerp(a: int, b: int, num: int, den: int) -> int {
    a + ((b - a) * num) / den
}

/// The value that lies `num / den` of the way from `a` to `b`, component by
/// component.
pub open spec fn mix(a: Vector4, b: Vector4, num: int, den: int) -> Vector4 {
    Vector4 {
        x: Fixed { micros: lerp(a.x@, b.x@, num, den) as i64 },
        y: Fixed { micros: lerp(a.y@, b.y@, num, den) as i64 },
        z: Fixed { micros: lerp(a.z@, b.z@, num, den) as i64 },
        w: Fixed { micros: lerp(a.w@, b.w@, num, den) as i64 },
    }
}

/// The key at or before `t` whose successor lies after `t`.
pub open spec fn segment_of(keys: Seq<GradientKey>, t: int) -> int {
    choose|i: int|
        0 <= i < keys.len() - 1 && (#[trigger] keys[i]).ratio@ <= t < keys[i + 1].ratio@
}

/// The value of the curve at `t`.
pub open spec fn sample_spec(keys: Seq<GradientKey>, t: int) -> Vector4
    recommends
        keys.len() > 0,
        keys_valid(keys),
{
    if t <= keys.first().ratio@ {
        keys.first().value
    } else if t >= keys.last().ratio@ {
        keys.last().value
    } else {
        let i = segment_of(keys, t);
        mix(
            keys[i].value,
            keys[i + 1].value,
            t - keys[i].ratio@,
            keys[i + 1].ratio@ - keys[i].ratio@,
        )
    }
}

/// A point on the way from `a` to `b` lies between them, and the ends of the
/// way are `a` and `b` themselves.
pub proof fn lemma_lerp_between(a: int, b: int, num: int, den: int)
    requires
        0 <= num <= den,
        0 < den,
    ensures
        a <= b ==> a <= lerp(a, b, num, den) <= b,
        b <= a ==> b <= lerp(a, b, num, den) <= a,
        num == 0 ==> lerp(a, b, num, den) == a,
        num == den ==> lerp(a, b, num, den) == b,
{
    let p = (b - a) * num;
    let q = p / den;
    lemma_fundamental_div_mod(p, den);
    assert(den * q == q * den) by (nonlinear_arith);
    if a <= b {
        assert(0 <= p <= (b - a) * den) by (nonlinear_arith)
            requires
                p == (b - a) * num,
                0 <= num <= den,
                a <= b,
        ;
        assert(0 <= q <= b - a) by (nonlinear_arith)
            requires
                0 <= p <= (b - a) * den,
                p == q * den + p % den,
                0 <= p % den < den,
        ;
    } else {
        assert((b - a) * den <= p <= 0) by (nonlinear_arith)
            requires
                p == (b - a) * num,
                0 <= num <= den,
                b < a,
        ;
        assert(b - a <= q <= 0) by (nonlinear_arith)
            requires
                (b - a) * den <= p <= 0,
                p == q * den + p % den,
                0 <= p % den < den,
        ;
    }
    if num == 0 {
        assert(p == 0) by (nonlinear_arith)
            requires
                p == (b - a) * num,
                num == 0,
        ;
    }
    if num == den {
        assert(p == (b - a) * den);
        lemma_fundamental_div_mod_converse(p, den, b - a, 0);
    }
}

/// Between two keys that hold the same value the curve holds it too, and at
/// the time of a key the curve has the value of that key.
pub proof fn lemma_sample_at_key(keys: Seq<GradientKey>, i: int)
    requires
        keys_valid(keys),
        0 <= i < keys.len(),
    ensures
        sample_spec(keys, keys[i].ratio@) == keys[i].value,
{
    let t = keys[i].ratio@;
    if t <= keys.first().ratio@ {
        assert(i == 0);
    } else if t >= keys.last().ratio@ {
        assert(i == keys.len() - 1);
    } else {
        assert(keys[i].ratio@ <= t < keys[i + 1].ratio@);
        let s = segment_of(keys, t);
        assert(s == i) by {
            if s < i {
                assert(keys[s + 1].ratio@ <= keys[i].ratio@);
            } else if s > i {
                assert(keys[i + 1].ratio@ <= keys[s].ratio@);
            }
        }
        lemma_lerp_between(keys[i].value.x@, keys[i + 1].value.x@, 0, keys[i + 1].ratio@ - t);
        lemma_lerp_between(keys[i].value.y@, keys[i + 1].value.y@, 0, keys[i + 1].ratio@ - t);
        lemma_lerp_between(keys[i].value.z@, keys[i + 1].value.z@, 0, keys[i + 1].ratio@ - t);
        lemma_lerp_between(keys[i].value.w@, keys[i + 1].value.w@, 0, keys[i + 1].ratio@ - t);
    }
}

/// A key list is known by its keys: two lists in order that hold the same
/// keys are the same list.
pub proof fn lemma_keys_determined(a: Seq<GradientKey>, b: Seq<GradientKey>)
    requires
        keys_sorted(a),
        keys_sorted(b),
        forall|k: GradientKey| a.contains(k) <==> b.contains(k),
    ensures
        a == b,
    decreases a.len(),
{
    if a.len() == 0 {
        if b.len() > 0 {
            assert(b.contains(b[0]));
        }
        assert(a =~= b);
    } else {
        assert(a.contains(a[0]));
        let j = choose|j: int| 0 <= j < b.len() && b[j] == a[0];
        assert(b.contains(b[0]));
        let i = choose|i: int| 0 <= i < a.len() && a[i] == b[0];
        if i > 0 {
            assert(a[0].ratio@ < a[i].ratio@);
        }
        if j > 0 {
            assert(b[0].ratio@ < b[j].ratio@);
        }
        assert(a[0] == b[0]);
        let ta = a.drop_first();
        let tb = b.drop_first();
        assert forall|k: GradientKey| ta.contains(k) <==> tb.contains(k) by {
            if ta.contains(k) {
                let n = choose|n: int| 0 <= n < ta.len() && ta[n] == k;
                assert(a[n + 1] == k);
                assert(a[0].ratio@ < a[n + 1].ratio@);
                assert(a.contains(k));
                let m = choose|m: int| 0 <= m < b.len() && b[m] == k;
                assert(m > 0);
                assert(tb[m - 1] == k);
            }
            if tb.contains(k) {
                let n = choose|n: int| 0 <= n < tb.len() && tb[n] == k;
                assert(b[n + 1] == k);
                assert(b[0].ratio@ < b[n + 1].ratio@);
                assert(b.contains(k));
                let m = choose|m: int| 0 <= m < a.len() && a[m] == k;
                assert(m > 0);
                assert(ta[m - 1] == k);
            }
        }
        assert(keys_sorted(ta)) by {
            assert forall|x: int, y: int| 0 <= x < y < ta.len() implies ta[x].ratio@
                < ta[y].ratio@ by {
                assert(a[x + 1].ratio@ < a[y + 1].ratio@);
            }
        }
        assert(keys_sorted(tb)) by {
            assert forall|x: int, y: int| 0 <= x < y < tb.len() implies tb[x].ratio@
                < tb[y].ratio@ by {
                assert(b[x + 1].ratio@ < b[y + 1].ratio@);
            }
        }
        lemma_keys_determined(ta, tb);
        assert(a =~= seq![a[0]] + ta);
        assert(b =~= seq![b[0]] + tb);
    }
}

/// Rounding a negative quotient down is rounding its opposite up.
proof fn lemma_floor_of_negative(p: int, d: int)
    requires
        p < 0,
        d > 0,
    ensures
        p / d == -((-p + d - 1) / d),
{
    let m = -p + d - 1;
    let c = m / d;
    lemma_fundamental_div_mod(m, d);
    assert(d * c == c * d) by (nonlinear_arith);
    assert((-c) * d == -(c * d)) by (nonlinear_arith);
    lemma_fundamental_div_mod_converse(p, d, -c, d - 1 - m % d);
}

/// The point `num / den` of the way from `a` to `b`.
fn lerp_exec(a: Fixed, b: Fixed, num: i64, den: i64) -> (r: Fixed)
    requires
        0 <= num <= den,
        0 < den <= SCALE,
    ensures
        r@ == lerp(a@, b@, num as int, den as int),
{
    let diff: i128 = (b.micros as i128) - (a.micros as i128);
    assert(-0x1_0000_0000_0000_0000 * 1_000_000 <= diff * num <= 0x1_0000_0000_0000_0000
        * 1_000_000) by (nonlinear_arith)
        requires
            -0x1_0000_0000_0000_0000 <= diff <= 0x1_0000_0000_0000_0000,
            0 <= num <= 1_000_000,
    ;
    let p: i128 = diff * (num as i128);
    let d: i128 = den as i128;
    let q: i128 = if p >= 0 {
        p / d
    } else {
        proof {
            lemma_floor_of_negative(p as int, d as int);
        }
        -((-p + d - 1) / d)
    };
    proof {
        lemma_lerp_between(a@, b@, num as int, den as int);
    }
    Fixed { micros: ((a.micros as i128) + q) as i64 }
}

/// The value `num / den` of the way from `a` to `b`.
fn mix_exec(a: Vector4, b: Vector4, num: i64, den: i64) -> (r: Vector4)
    requires
        0 <= num <= den,
        0 < den <= SCALE,
    ensures
        r == mix(a, b, num as int, den as int),
{
    Vector4 {
        x: lerp_exec(a.x, b.x, num, den),
        y: lerp_exec(a.y, b.y, num, den),
        z: lerp_exec(a.z, b.z, num, den),
        w: lerp_exec(a.w, b.w, num, den),
    }
}

/// The constructor of a value in generated source.
pub open spec fn vector4_text(v: Vector4) -> Seq<char> {
    "vec4<f32>("@ + decimal_text(v.x@, 6) + ", "@ + decimal_text(v.y@, 6) + ", "@ + decimal_text(
        v.z@,
        6,
    ) + ", "@ + decimal_text(v.w@, 6) + ")"@
}

/// The two declarations of key `i`: its ratio `t<i>` and its value `c<i>`.
pub open spec fn key_text(i: nat, key: GradientKey) -> Seq<char> {
    "    let t"@ + whole_digits(i) + " = "@ + decimal_text(key.ratio@, 6) + ";\n    let c"@
        + whole_digits(i) + " = "@ + vector4_text(key.value) + ";\n"@
}

/// The declarations of the first `n` keys.
pub open spec fn keys_text(keys: Seq<GradientKey>, n: nat) -> Seq<char>
    decreases n,
{
    if n == 0 {
        Seq::empty()
    } else {
        keys_text(keys, (n - 1) as nat) + key_text((n - 1) as nat, keys[n - 1])
    }
}

/// The branch that answers for the ratios from key `i - 1` up to key `i`.
pub open spec fn branch_text(i: nat) -> Seq<char> {
    "    if (ratio <= t"@ + whole_digits(i) + ") { return mix(c"@ + whole_digits((i - 1) as nat)
        + ", c"@ + whole_digits(i) + ", (ratio - t"@ + whole_digits((i - 1) as nat) + ") / (t"@
        + whole_digits(i) + " - t"@ + whole_digits((i - 1) as nat) + ")); }\n"@
}

/// The branches between the first `n` keys.
pub open spec fn branches_text(n: nat) -> Seq<char>
    decreases n,
{
    if n <= 1 {
        Seq::empty()
    } else {
        branches_text((n - 1) as nat) + branch_text((n - 1) as nat)
    }
}

/// The shader function `name` that computes the curve through `keys`: flat
/// up to the first key, a straight line between two keys, flat after the
/// last.
pub open spec fn gradient_code(name: Seq<char>, keys: Seq<GradientKey>) -> Seq<char>
    recommends
        keys.len() > 0,
{
    "fn "@ + name + "(ratio: f32) -> vec4<f32> {\n"@ + keys_text(keys, keys.len())
        + "    if (ratio <= t0) { return c0; }\n"@ + branches_text(keys.len()) + "    return c"@
        + whole_digits((keys.len() - 1) as nat) + ";\n}\n"@
}

/// The constructor of a value opens and closes no block.
pub proof fn lemma_vector4_is_plain(v: Vector4)
    ensures
        plain(vector4_text(v)),
{
    reveal_strlit("vec4<f32>(");
    reveal_strlit(", ");
    reveal_strlit(")");
    lemma_numbers_are_plain(v.x@, 6, 0);
    lemma_numbers_are_plain(v.y@, 6, 0);
    lemma_numbers_are_plain(v.z@, 6, 0);
    lemma_numbers_are_plain(v.w@, 6, 0);
    let t1 = "vec4<f32>("@ + decimal_text(v.x@, 6);
    lemma_plain_concat("vec4<f32>("@, decimal_text(v.x@, 6));
    let t2 = t1 + ", "@;
    lemma_plain_concat(t1, ", "@);
    let t3 = t2 + decimal_text(v.y@, 6);
    lemma_plain_concat(t2, decimal_text(v.y@, 6));
    let t4 = t3 + ", "@;
    lemma_plain_concat(t3, ", "@);
    let t5 = t4 + decimal_text(v.z@, 6);
    lemma_plain_concat(t4, decimal_text(v.z@, 6));
    let t6 = t5 + ", "@;
    lemma_plain_concat(t5, ", "@);
    let t7 = t6 + decimal_text(v.w@, 6);
    lemma_plain_concat(t6, decimal_text(v.w@, 6));
    lemma_plain_concat(t7, ")"@);
}

/// The declarations of a key open and close no block.
pub proof fn lemma_key_is_plain(i: nat, key: GradientKey)
    ensures
        plain(key_text(i, key)),
{
    reveal_strlit("    let t");
    reveal_strlit(" = ");
    reveal_strlit(";\n    let c");
    reveal_strlit(";\n");
    lemma_numbers_are_plain(key.ratio@, 6, i);
    lemma_vector4_is_plain(key.value);
    let t1 = "    let t"@ + whole_digits(i);
    lemma_plain_concat("    let t"@, whole_digits(i));
    let t2 = t1 + " = "@;
    lemma_plain_concat(t1, " = "@);
    let t3 = t2 + decimal_text(key.ratio@, 6);
    lemma_plain_concat(t2, decimal_text(key.ratio@, 6));
    let t4 = t3 + ";\n    let c"@;
    lemma_plain_concat(t3, ";\n    let c"@);
    let t5 = t4 + whole_digits(i);
    lemma_plain_concat(t4, whole_digits(i));
    let t6 = t5 + " = "@;
    lemma_plain_concat(t5, " = "@);
    let t7 = t6 + vector4_text(key.value);
    lemma_plain_concat(t6, vector4_text(key.value));
    lemma_plain_concat(t7, ";\n"@);
}

/// The declarations of the keys open and close no block.
pub proof fn lemma_keys_are_plain(keys: Seq<GradientKey>, n: nat)
    ensures
        plain(keys_text(keys, n)),
    decreases n,
{
    if n > 0 {
        lemma_keys_are_plain(keys, (n - 1) as nat);
        lemma_key_is_plain((n - 1) as nat, keys[n - 1]);
        lemma_plain_concat(
            keys_text(keys, (n - 1) as nat),
            key_text((n - 1) as nat, keys[n - 1]),
        );
    }
}

/// A branch opens one block and closes it.
pub proof fn lemma_branch_runs(i: nat, x: int)
    requires
        x >= 0,
    ensures
        runs(branch_text(i), x, x),
{
    reveal_strlit("    if (ratio <= t");
    reveal_strlit(") { return mix(c");
    reveal_strlit(", c");
    reveal_strlit(", (ratio - t");
    reveal_strlit(") / (t");
    reveal_strlit(" - t");
    reveal_strlit(")); }\n");
    lemma_numbers_are_plain(0, 0, i);
    lemma_numbers_are_plain(0, 0, (i - 1) as nat);
    let this = whole_digits(i);
    let last = whole_digits((i - 1) as nat);
    lemma_plain_runs("    if (ratio <= t"@, x);
    let t1 = "    if (ratio <= t"@ + this;
    lemma_then_plain("    if (ratio <= t"@, this, x, x);
    lemma_opens(") { return mix(c"@, 2, x);
    let t2 = t1 + ") { return mix(c"@;
    lemma_runs_concat(t1, ") { return mix(c"@, x, x, x + 1);
    let t3 = t2 + last;
    lemma_then_plain(t2, last, x, x + 1);
    let t4 = t3 + ", c"@;
    lemma_then_plain(t3, ", c"@, x, x + 1);
    let t5 = t4 + this;
    lemma_then_plain(t4, this, x, x + 1);
    let t6 = t5 + ", (ratio - t"@;
    lemma_then_plain(t5, ", (ratio - t"@, x, x + 1);
    let t7 = t6 + last;
    lemma_then_plain(t6, last, x, x + 1);
    let t8 = t7 + ") / (t"@;
    lemma_then_plain(t7, ") / (t"@, x, x + 1);
    let t9 = t8 + this;
    lemma_then_plain(t8, this, x, x + 1);
    let t10 = t9 + " - t"@;
    lemma_then_plain(t9, " - t"@, x, x + 1);
    let t11 = t10 + last;
    lemma_then_plain(t10, last, x, x + 1);
    lemma_closes(")); }\n"@, 4, x);
    lemma_runs_concat(t11, ")); }\n"@, x, x + 1, x);
}

/// The branches open and close their own blocks.
pub proof fn lemma_branches_run(n: nat, x: int)
    requires
        x >= 0,
    ensures
        runs(branches_text(n), x, x),
    decreases n,
{
    if n <= 1 {
        lemma_plain_runs(branches_text(n), x);
    } else {
        lemma_branches_run((n - 1) as nat, x);
        lemma_branch_runs((n - 1) as nat, x);
        lemma_runs_concat(branches_text((n - 1) as nat), branch_text((n - 1) as nat), x, x, x);
    }
}

/// The shader function of a gradient closes every block that it opens,
/// whatever the keys are, where its name opens and closes none.
pub proof fn lemma_gradient_code_is_balanced(name: Seq<char>, keys: Seq<GradientKey>)
    requires
        plain(name),
    ensures
        balanced(gradient_code(name, keys)),
{
    reveal_strlit("fn ");
    reveal_strlit("(ratio: f32) -> vec4<f32> {\n");
    reveal_strlit("    if (ratio <= t0) { return c0; }\n");
    reveal_strlit("    return c");
    reveal_strlit(";\n}\n");
    let n = keys.len();
    lemma_numbers_are_plain(0, 0, (n - 1) as nat);
    lemma_keys_are_plain(keys, n);
    lemma_branches_run(n, 1);
    lemma_plain_runs("fn "@, 0);
    let t1 = "fn "@ + name;
    lemma_then_plain("fn "@, name, 0, 0);
    lemma_opens("(ratio: f32) -> vec4<f32> {\n"@, 26, 0);
    let t2 = t1 + "(ratio: f32) -> vec4<f32> {\n"@;
    lemma_runs_concat(t1, "(ratio: f32) -> vec4<f32> {\n"@, 0, 0, 1);
    let t3 = t2 + keys_text(keys, n);
    lemma_then_plain(t2, keys_text(keys, n), 0, 1);
    lemma_opens_and_closes("    if (ratio <= t0) { return c0; }\n"@, 21, 34, 1);
    let t4 = t3 + "    if (ratio <= t0) { return c0; }\n"@;
    lemma_runs_concat(t3, "    if (ratio <= t0) { return c0; }\n"@, 0, 1, 1);
    let t5 = t4 + branches_text(n);
    lemma_runs_concat(t4, branches_text(n), 0, 1, 1);
    let t6 = t5 + "    return c"@;
    lemma_then_plain(t5, "    return c"@, 0, 1);
    let t7 = t6 + whole_digits((n - 1) as nat);
    lemma_then_plain(t6, whole_digits((n - 1) as nat), 0, 1);
    lemma_closes(";\n}\n"@, 2, 0);
    lemma_runs_concat(t7, ";\n}\n"@, 0, 1, 0);
}

/// Appends the constructor of `v` to `out`.
fn push_vector4(out: &mut String, v: Vector4)
    ensures
        final(out)@ == old(out)@ + vector4_text(v),
{
    out.append("vec4<f32>(");
    push_decimal(out, v.x);
    out.append(", ");
    push_decimal(out, v.y);
    out.append(", ");
    push_decimal(out, v.z);
    out.append(", ");
    push_decimal(out, v.w);
    out.append(")");
    assert(out@ =~= old(out)@ + vector4_text(v));
}

/// Appends the declarations of key `i` to `out`.
fn push_key(out: &mut String, i: usize, key: GradientKey)
    ensures
        final(out)@ == old(out)@ + key_text(i as nat, key),
{
    out.append("    let t");
    push_index(out, i);
    out.append(" = ");
    push_decimal(out, key.ratio);
    out.append(";\n    let c");
    push_index(out, i);
    out.append(" = ");
    push_vector4(out, key.value);
    out.append(";\n");
    assert(out@ =~= old(out)@ + key_text(i as nat, key));
}

/// Appends the branch of key `i` to `out`.
fn push_branch(out: &mut String, i: usize)
    requires
        i >= 1,
    ensures
        final(out)@ == old(out)@ + branch_text(i as nat),
{
    out.append("    if (ratio <= t");
    push_index(out, i);
    out.append(") { return mix(c");
    push_index(out, i - 1);
    out.append(", c");
    push_index(out, i);
    out.append(", (ratio - t");
    push_index(out, i - 1);
    out.append(") / (t");
    push_index(out, i);
    out.append(" - t");
    push_index(out, i - 1);
    out.append(")); }\n");
    assert(out@ =~= old(out)@ + branch_text(i as nat));
}

/// Appends the declarations of `keys` to `out`.
fn push_keys(out: &mut String, keys: &Vec<GradientKey>)
    ensures
        final(out)@ == old(out)@ + keys_text(keys@, keys@.len()),
{
    let n = keys.len();
    let mut i: usize = 0;
    assert(out@ =~= old(out)@ + keys_text(keys@, 0));
    while i < n
        invariant
            i <= n,
            n == keys@.len(),
            out@ == old(out)@ + keys_text(keys@, i as nat),
        decreases n - i,
    {
        let ghost before = out@;
        push_key(out, i, keys[i]);
        i = i + 1;
        assert(out@ =~= old(out)@ + keys_text(keys@, i as nat)) by {
            assert(keys_text(keys@, i as nat) == keys_text(keys@, (i - 1) as nat) + key_text(
                (i - 1) as nat,
                keys@[i - 1],
            ));
        }
    }
}

/// Appends the branches between `n` keys to `out`.
fn push_branches(out: &mut String, n: usize)
    ensures
        final(out)@ == old(out)@ + branches_text(n as nat),
{
    if n <= 1 {
        assert(out@ =~= old(out)@ + branches_text(n as nat));
        return ;
    }
    let mut j: usize = 1;
    assert(out@ =~= old(out)@ + branches_text(1));
    while j < n
        invariant
            1 <= j <= n,
            out@ == old(out)@ + branches_text(j as nat),
        decreases n - j,
    {
        push_branch(out, j);
        j = j + 1;
        assert(out@ =~= old(out)@ + branches_text(j as nat)) by {
            assert(branches_text(j as nat) == branches_text((j - 1) as nat) + branch_text(
                (j - 1) as nat,
            ));
        }
    }
}

/// A curve through keys, kept in the order of their ratios.
#[derive(Debug, PartialEq, Eq)]
pub struct Gradient {
    keys: Vec<GradientKey>,
}

impl View for Gradient {
    type V = Seq<GradientKey>;

    closed spec fn view(&self) -> Seq<GradientKey> {
        self.keys@
    }
}

impl Clone for Gradient {
    /// A gradient with the same keys.
    fn clone(&self) -> (g: Gradient)
        ensures
            g@ == self@,
    {
        proof {
            use_type_invariant(self);
        }
        let n = self.keys.len();
        let mut keys: Vec<GradientKey> = Vec::new();
        let mut i: usize = 0;
        while i < n
            invariant
                i <= n,
                n == self.keys@.len(),
                keys@ == self.keys@.take(i as int),
            decreases n - i,
        {
            keys.push(self.keys[i]);
            i = i + 1;
            assert(keys@ =~= self.keys@.take(i as int));
        }
        assert(keys@ =~= self.keys@);
        Gradient { keys }
    }
}

impl Gradient {
    /// The keys are in order, with ratios from 0 to 1.
    #[verifier::type_invariant]
    spec fn checked(self) -> bool {
        keys_valid(self.keys@)
    }

    /// The gradient without keys.
    pub fn new() -> (g: Gradient)
        ensures
            g@.len() == 0,
    {
        Gradient { keys: Vec::new() }
    }

    /// The number of keys.
    pub fn len(&self) -> (n: usize)
        ensures
            n == self@.len(),
            keys_valid(self@),
    {
        proof {
            use_type_invariant(self);
        }
        self.keys.len()
    }

    /// The keys, in the order of their ratios.
    pub fn keys(&self) -> (keys: &Vec<GradientKey>)
        ensures
            keys@ == self@,
            keys_valid(self@),
    {
        proof {
            use_type_invariant(self);
        }
        &self.keys
    }

    /// Puts a key at `ratio`. A key that stands there already is replaced;
    /// the other keys stay. A ratio below 0 or above 1 is refused, and the
    /// gradient is left as it was.
    pub fn add_key(&mut self, ratio: Fixed, value: Vector4) -> (r: Result<(), GradientError>)
        ensures
            keys_valid(old(self)@),
            keys_valid(final(self)@),
            !(0 <= ratio@ <= SCALE) ==> r == Err::<(), GradientError>(
                GradientError::RatioOutOfRange,
            ) && final(self)@ == old(self)@,
            0 <= ratio@ <= SCALE ==> r == Ok::<(), GradientError>(()),
            0 <= ratio@ <= SCALE ==> forall|k: GradientKey|
                final(self)@.contains(k) <==> (k == (GradientKey { ratio, value })
                    || (old(self)@.contains(k) && k.ratio@ != ratio@)),
            0 <= ratio@ <= SCALE ==> final(self)@.len() == old(self)@.len() + (if has_key_at(
                old(self)@,
                ratio@,
            ) {
                0int
            } else {
                1int
            }),
    {
        proof {
            use_type_invariant(&*self);
        }
        if ratio.micros < 0 || ratio.micros > SCALE {
            return Err(GradientError::RatioOutOfRange);
        }
        let key = GradientKey { ratio, value };
        let n = self.keys.len();
        let mut fresh: Vec<GradientKey> = Vec::new();
        let mut at: usize = 0;
        while at < n && self.keys[at].ratio.micros < ratio.micros
            invariant
                at <= n,
                n == self.keys@.len(),
                fresh@ == self.keys@.take(at as int),
                forall|j: int| 0 <= j < at ==> (#[trigger] self.keys@[j]).ratio@ < ratio@,
            decreases n - at,
        {
            fresh.push(self.keys[at]);
            at = at + 1;
            assert(fresh@ =~= self.keys@.take(at as int));
        }
        fresh.push(key);
        let replace = at < n && self.keys[at].ratio.micros == ratio.micros;
        let resume: usize = if replace {
            at + 1
        } else {
            at
        };
        let mut i: usize = resume;
        while i < n
            invariant
                resume <= i <= n,
                n == self.keys@.len(),
                at <= resume,
                fresh@ == self.keys@.take(at as int).push(key) + self.keys@.subrange(
                    resume as int,
                    i as int,
                ),
            decreases n - i,
        {
            fresh.push(self.keys[i]);
            i = i + 1;
            assert(fresh@ =~= self.keys@.take(at as int).push(key) + self.keys@.subrange(
                resume as int,
                i as int,
            ));
        }
        let ghost before = self.keys@;
        if replace {
            proof {
                let after = before.update(at as int, key);
                assert(fresh@ =~= after);
                assert(before[at as int].ratio@ == ratio@);
                assert(keys_valid(after)) by {
                    assert forall|i: int, j: int| 0 <= i < j < after.len() implies after[i].ratio@
                        < after[j].ratio@ by {
                        assert(before[i].ratio@ < before[j].ratio@);
                    }
                    assert forall|i: int| 0 <= i < after.len() implies 0
                        <= #[trigger] after[i].ratio@ <= SCALE by {
                        assert(0 <= before[i].ratio@ <= SCALE);
                    }
                }
                assert forall|k: GradientKey|
                    after.contains(k) <==> (k == key || (before.contains(k) && k.ratio@
                        != ratio@)) by {
                    if after.contains(k) {
                        let j = choose|j: int| 0 <= j < after.len() && after[j] == k;
                        if j != at {
                            assert(before[j] == k);
                            if j < at {
                                assert(before[j].ratio@ < before[at as int].ratio@);
                            } else {
                                assert(before[at as int].ratio@ < before[j].ratio@);
                            }
                        }
                    }
                    if k == key {
                        assert(after[at as int] == k);
                    }
                    if before.contains(k) && k.ratio@ != ratio@ {
                        let j = choose|j: int| 0 <= j < before.len() && before[j] == k;
                        assert(after[j] == k);
                    }
                }
            }
        } else {
            proof {
                let after = before.insert(at as int, key);
                assert(fresh@ =~= after);
                assert forall|i: int| 0 <= i < before.len() implies (
                #[trigger] before[i]).ratio@ != ratio@ by {
                    if i > at {
                        assert(before[at as int].ratio@ < before[i].ratio@);
                    }
                }
                assert(keys_valid(after)) by {
                    assert forall|i: int, j: int| 0 <= i < j < after.len() implies after[i].ratio@
                        < after[j].ratio@ by {
                        if j < at {
                            assert(before[i].ratio@ < before[j].ratio@);
                        } else if j == at {
                            assert(before[i].ratio@ < ratio@);
                        } else if i < at {
                            assert(before[i].ratio@ < ratio@);
                            assert(before[at as int].ratio@ <= before[j - 1].ratio@) by {
                                if at < j - 1 {
                                    assert(before[at as int].ratio@ < before[j - 1].ratio@);
                                }
                            }
                        } else if i == at {
                            assert(before[at as int].ratio@ <= before[j - 1].ratio@) by {
                                if at < j - 1 {
                                    assert(before[at as int].ratio@ < before[j - 1].ratio@);
                                }
                            }
                        } else {
                            assert(before[i - 1].ratio@ < before[j - 1].ratio@);
                        }
                    }
                    assert forall|i: int| 0 <= i < after.len() implies 0
                        <= #[trigger] after[i].ratio@ <= SCALE by {
                        if i < at {
                            assert(0 <= before[i].ratio@ <= SCALE);
                        } else if i > at {
                            assert(0 <= before[i - 1].ratio@ <= SCALE);
                        }
                    }
                }
                assert forall|k: GradientKey|
                    after.contains(k) <==> (k == key || (before.contains(k) && k.ratio@
                        != ratio@)) by {
                    if after.contains(k) {
                        let j = choose|j: int| 0 <= j < after.len() && after[j] == k;
                        if j < at {
                            assert(before[j] == k);
                        } else if j > at {
                            assert(before[j - 1] == k);
                            assert(before[at as int].ratio@ <= before[j - 1].ratio@) by {
                                if at < j - 1 {
                                    assert(before[at as int].ratio@ < before[j - 1].ratio@);
                                }
                            }
                        }
                    }
                    if k == key {
                        assert(after[at as int] == k);
                    }
                    if before.contains(k) && k.ratio@ != ratio@ {
                        let j = choose|j: int| 0 <= j < before.len() && before[j] == k;
                        if j < at {
                            assert(after[j] == k);
                        } else {
                            assert(after[j + 1] == k);
                        }
                    }
                }
            }
        }
        self.keys = fresh;
        Ok(())
    }

    /// The value of the curve at `ratio`: that of the first key before it,
    /// that of the last key after it, and between two keys the point on the
    /// line from one to the other. A gradient without keys has no value.
    pub fn sample(&self, ratio: Fixed) -> (r: Result<Vector4, GradientError>)
        ensures
            keys_valid(self@),
            self@.len() == 0 ==> r == Err::<Vector4, GradientError>(GradientError::NoKeys),
            self@.len() > 0 ==> r == Ok::<Vector4, GradientError>(sample_spec(self@, ratio@)),
            self@.len() > 0 && ratio@ <= self@.first().ratio@ ==> r == Ok::<Vector4, GradientError>(
                self@.first().value,
            ),
            self@.len() > 0 && ratio@ >= self@.last().ratio@ ==> r == Ok::<Vector4, GradientError>(
                self@.last().value,
            ),
    {
        proof {
            use_type_invariant(self);
        }
        let n = self.keys.len();
        if n == 0 {
            return Err(GradientError::NoKeys);
        }
        let t = ratio.micros;
        if t <= self.keys[0].ratio.micros {
            return Ok(self.keys[0].value);
        }
        if t >= self.keys[n - 1].ratio.micros {
            proof {
                if n > 1 {
                    assert(self.keys@[0].ratio@ < self.keys@[n - 1].ratio@);
                }
            }
            return Ok(self.keys[n - 1].value);
        }
        let mut i: usize = 0;
        while self.keys[i + 1].ratio.micros <= t
            invariant
                n == self.keys@.len(),
                keys_valid(self.keys@),
                0 <= i < n - 1,
                self.keys@[i as int].ratio@ <= t < self.keys@[n - 1].ratio@,
            decreases n - i,
        {
            i = i + 1;
        }
        let lo = self.keys[i];
        let hi = self.keys[i + 1];
        proof {
            let keys = self.keys@;
            let s = segment_of(keys, t as int);
            assert(keys[i as int].ratio@ <= t < keys[i + 1].ratio@);
            assert(s == i) by {
                if s < i {
                    assert(keys[s + 1].ratio@ <= keys[i as int].ratio@) by {
                        if s + 1 < i {
                            assert(keys[s + 1].ratio@ < keys[i as int].ratio@);
                        }
                    }
                } else if s > i {
                    assert(keys[i + 1].ratio@ <= keys[s].ratio@) by {
                        if i + 1 < s {
                            assert(keys[i + 1].ratio@ < keys[s].ratio@);
                        }
                    }
                }
            }
            assert(0 <= keys[i as int].ratio@ <= SCALE);
            assert(0 <= keys[i + 1].ratio@ <= SCALE);
        }
        Ok(mix_exec(lo.value, hi.value, t - lo.ratio.micros, hi.ratio.micros - lo.ratio.micros))
    }

    /// Appends the shader function `name` that computes this curve. A
    /// gradient without keys has no function, and `out` is left as it was.
    pub fn push_shader_code(&self, out: &mut String, name: &str) -> (r: Result<(), GradientError>)
        ensures
            keys_valid(self@),
            self@.len() == 0 ==> r == Err::<(), GradientError>(GradientError::NoKeys),
            self@.len() == 0 ==> final(out)@ == old(out)@,
            self@.len() > 0 ==> r == Ok::<(), GradientError>(()),
            self@.len() > 0 ==> final(out)@ == old(out)@ + gradient_code(name@, self@),
    {
        proof {
            use_type_invariant(self);
        }
        let n = self.keys.len();
        if n == 0 {
            return Err(GradientError::NoKeys);
        }
        out.append("fn ");
        out.append(name);
        out.append("(ratio: f32) -> vec4<f32> {\n");
        push_keys(out, &self.keys);
        out.append("    if (ratio <= t0) { return c0; }\n");
        push_branches(out, n);
        out.append("    return c");
        push_index(out, n - 1);
        out.append(";\n}\n");
        assert(out@ =~= old(out)@ + gradient_code(name@, self@));
        Ok(())
    }

    /// The shader function `name` that computes this curve.
    pub fn to_shader_code(&self, name: &str) -> (r: Result<String, GradientError>)
        ensures
            self@.len() == 0 ==> r is Err && r->Err_0 == GradientError::NoKeys,
            self@.len() > 0 ==> r is Ok && r->Ok_0@ == gradient_code(name@, self@),
    {
        let mut out = String::new();
        match self.push_shader_code(&mut out, name) {
            Ok(()) => {
                assert(out@ =~= gradient_code(name@, self@));
                Ok(out)
            },
            Err(e) => Err(e),
        }
    }
}

} // verus!
