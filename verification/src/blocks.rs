//! The block structure of generated source.
//!
//! Source is well formed, as far as its blocks go, when every brace that
//! opens a block is followed by one that closes it, and no brace closes a
//! block that was not opened.

use vstd::prelude::*;

verus! {

/// What a character does to the number of open blocks.
pub open spec fn step(c: char) -> int {
    if c == '{' {
        1
    } else if c == '}' {
        -1
    } else {
        0
    }
}

/// The blocks that `s` opens, less those that it closes.
pub open spec fn net(s: Seq<char>) -> int
    decreases s.len(),
{
    if s.len() == 0 {
        0
    } else {
        net(s.drop_last()) + step(s.last())
    }
}

/// Read with `from` blocks open, `s` never closes a block that is not open,
/// and leaves `to` blocks open.
pub open spec fn runs(s: Seq<char>, from: int, to: int) -> bool {
    &&& from + net(s) == to
    &&& forall|k: int| 0 <= k <= s.len() ==> from + net(#[trigger] s.take(k)) >= 0
}

/// Every block that `s` opens is closed in `s`, and `s` closes no other.
pub open spec fn balanced(s: Seq<char>) -> bool {
    runs(s, 0, 0)
}

/// No character of `s` opens or closes a block.
pub open spec fn plain(s: Seq<char>) -> bool {
    forall|i: int| 0 <= i < s.len() ==> step(#[trigger] s[i]) == 0
}

/// One more character adds its step.
pub proof fn lemma_net_take(s: Seq<char>, k: int)
    requires
        0 < k <= s.len(),
    ensures
        net(s.take(k)) == net(s.take(k - 1)) + step(s[k - 1]),
{
    assert(s.take(k).drop_last() =~= s.take(k - 1));
}

/// The net of two texts in a row is the sum of their nets.
pub proof fn lemma_net_concat(a: Seq<char>, b: Seq<char>)
    ensures
        net(a + b) == net(a) + net(b),
    decreases b.len(),
{
    if b.len() == 0 {
        assert(a + b =~= a);
    } else {
        assert((a + b).drop_last() =~= a + b.drop_last());
        lemma_net_concat(a, b.drop_last());
    }
}

/// Two texts that run one after the other run as one.
pub proof fn lemma_runs_concat(a: Seq<char>, b: Seq<char>, x: int, y: int, z: int)
    requires
        runs(a, x, y),
        runs(b, y, z),
    ensures
        runs(a + b, x, z),
{
    lemma_net_concat(a, b);
    assert forall|k: int| 0 <= k <= (a + b).len() implies x + net(#[trigger] (a + b).take(k))
        >= 0 by {
        if k <= a.len() {
            assert((a + b).take(k) =~= a.take(k));
        } else {
            assert((a + b).take(k) =~= a + b.take(k - a.len()));
            lemma_net_concat(a, b.take(k - a.len()));
        }
    }
}

/// The first `k` characters of a plain text open and close nothing.
proof fn lemma_plain_prefix(s: Seq<char>, k: int)
    requires
        plain(s),
        0 <= k <= s.len(),
    ensures
        net(s.take(k)) == 0,
    decreases k,
{
    if k > 0 {
        lemma_plain_prefix(s, k - 1);
        lemma_net_take(s, k);
    }
}

/// A plain text runs at any depth and leaves it as it was.
pub proof fn lemma_plain_runs(s: Seq<char>, x: int)
    requires
        plain(s),
        x >= 0,
    ensures
        runs(s, x, x),
{
    assert forall|k: int| 0 <= k <= s.len() implies x + net(#[trigger] s.take(k)) >= 0 by {
        lemma_plain_prefix(s, k);
    }
    lemma_plain_prefix(s, s.len() as int);
    assert(s.take(s.len() as int) =~= s);
}

/// A text whose one brace is at `at`: its first `k` characters.
proof fn lemma_one_brace_prefix(s: Seq<char>, at: int, k: int)
    requires
        0 <= at < s.len(),
        forall|i: int| 0 <= i < s.len() && i != at ==> step(#[trigger] s[i]) == 0,
        0 <= k <= s.len(),
    ensures
        net(s.take(k)) == (if k <= at {
            0
        } else {
            step(s[at])
        }),
    decreases k,
{
    if k > 0 {
        lemma_one_brace_prefix(s, at, k - 1);
        lemma_net_take(s, k);
    }
}

/// A text whose one brace opens a block leaves one more block open.
pub proof fn lemma_opens(s: Seq<char>, at: int, x: int)
    requires
        0 <= at < s.len(),
        s[at] == '{',
        forall|i: int| 0 <= i < s.len() && i != at ==> step(#[trigger] s[i]) == 0,
        x >= 0,
    ensures
        runs(s, x, x + 1),
{
    assert forall|k: int| 0 <= k <= s.len() implies x + net(#[trigger] s.take(k)) >= 0 by {
        lemma_one_brace_prefix(s, at, k);
    }
    lemma_one_brace_prefix(s, at, s.len() as int);
    assert(s.take(s.len() as int) =~= s);
}

/// A text whose one brace closes a block leaves one block less open.
pub proof fn lemma_closes(s: Seq<char>, at: int, x: int)
    requires
        0 <= at < s.len(),
        s[at] == '}',
        forall|i: int| 0 <= i < s.len() && i != at ==> step(#[trigger] s[i]) == 0,
        x >= 0,
    ensures
        runs(s, x + 1, x),
{
    assert forall|k: int| 0 <= k <= s.len() implies x + 1 + net(#[trigger] s.take(k)) >= 0 by {
        lemma_one_brace_prefix(s, at, k);
    }
    lemma_one_brace_prefix(s, at, s.len() as int);
    assert(s.take(s.len() as int) =~= s);
}

/// A text with two braces, the first opening and the second closing: its
/// first `k` characters.
proof fn lemma_two_braces_prefix(s: Seq<char>, open: int, close: int, k: int)
    requires
        0 <= open < close < s.len(),
        s[open] == '{',
        s[close] == '}',
        forall|i: int|
            0 <= i < s.len() && i != open && i != close ==> step(#[trigger] s[i]) == 0,
        0 <= k <= s.len(),
    ensures
        net(s.take(k)) == (if open < k <= close {
            1int
        } else {
            0int
        }),
    decreases k,
{
    if k > 0 {
        lemma_two_braces_prefix(s, open, close, k - 1);
        lemma_net_take(s, k);
    }
}

/// A text that opens one block and closes it leaves the depth as it was.
pub proof fn lemma_opens_and_closes(s: Seq<char>, open: int, close: int, x: int)
    requires
        0 <= open < close < s.len(),
        s[open] == '{',
        s[close] == '}',
        forall|i: int|
            0 <= i < s.len() && i != open && i != close ==> step(#[trigger] s[i]) == 0,
        x >= 0,
    ensures
        runs(s, x, x),
{
    assert forall|k: int| 0 <= k <= s.len() implies x + net(#[trigger] s.take(k)) >= 0 by {
        lemma_two_braces_prefix(s, open, close, k);
    }
    lemma_two_braces_prefix(s, open, close, s.len() as int);
    assert(s.take(s.len() as int) =~= s);
}

/// A plain text after a text that runs leaves the run as it was.
pub proof fn lemma_then_plain(a: Seq<char>, b: Seq<char>, x: int, y: int)
    requires
        runs(a, x, y),
        plain(b),
        y >= 0,
    ensures
        runs(a + b, x, y),
{
    lemma_plain_runs(b, y);
    lemma_runs_concat(a, b, x, y, y);
}

/// Two plain texts in a row are plain.
pub proof fn lemma_plain_concat(a: Seq<char>, b: Seq<char>)
    requires
        plain(a),
        plain(b),
    ensures
        plain(a + b),
{
    assert forall|i: int| 0 <= i < (a + b).len() implies step(#[trigger] (a + b)[i]) == 0 by {
        if i < a.len() {
            assert((a + b)[i] == a[i]);
        } else {
            assert((a + b)[i] == b[i - a.len()]);
        }
    }
}

} // verus!
