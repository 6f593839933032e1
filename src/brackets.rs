use vstd::prelude::*;
use crate::token::Token;

verus! {

/// How an instruction changes the bracket nesting depth.
pub open spec fn depth_change(t: Token) -> int {
    if t == Token::JUMP {
        1
    } else if t == Token::BACK {
        -1
    } else {
        0
    }
}

/// Nesting depth before index `n`: `[` seen minus `]` seen in `t[0..n]`.
pub open spec fn depth_at(t: Seq<Token>, n: int) -> int
    decreases n,
{
    if n <= 0 || n > t.len() {
        0
    } else {
        depth_at(t, n - 1) + depth_change(t[n - 1])
    }
}

/// Every `]` closes an earlier `[`, and every `[` is closed.
pub open spec fn balanced(t: Seq<Token>) -> bool {
    &&& depth_at(t, t.len() as int) == 0
    &&& forall|n: int| 0 <= n <= t.len() ==> depth_at(t, n) >= 0
}

/// Scans `t` forward from index `i` with running depth `depth`, counting up
/// on `[` and down on `]`; the index where the depth first goes negative.
pub open spec fn scan_forward(t: Seq<Token>, i: int, depth: int) -> Option<int>
    decreases t.len() - i,
{
    if 0 <= i < t.len() {
        let d = depth + depth_change(t[i]);
        if d < 0 {
            Some(i)
        } else {
            scan_forward(t, i + 1, d)
        }
    } else {
        None
    }
}

/// Scans `t` backward from just before index `i` with running depth
/// `depth`, counting up on `]` and down on `[`; the index where the depth
/// first goes negative.
pub open spec fn scan_backward(t: Seq<Token>, i: int, depth: int) -> Option<int>
    decreases i,
{
    if 0 < i <= t.len() {
        let d = depth - depth_change(t[i - 1]);
        if d < 0 {
            Some(i - 1)
        } else {
            scan_backward(t, i - 1, d)
        }
    } else {
        None
    }
}

/// The `]` that matches the `[` at `pc`, if there is one.
pub open spec fn closing_of(t: Seq<Token>, pc: int) -> Option<int> {
    scan_forward(t, pc + 1, 0)
}

/// The `[` that matches the `]` at `pc`, if there is one.
pub open spec fn opening_of(t: Seq<Token>, pc: int) -> Option<int> {
    scan_backward(t, pc, 0)
}

/// A forward scan stops at the first index after which the depth falls below
/// `c`, where `c` is the depth the scan counts from.
pub proof fn lemma_scan_forward(t: Seq<Token>, i: int, d: int, c: int)
    requires
        0 <= i <= t.len(),
        d == depth_at(t, i) - c,
    ensures
        match scan_forward(t, i, d) {
            Some(j) => {
                &&& i <= j < t.len()
                &&& depth_at(t, j + 1) < c
                &&& forall|m: int| i < m <= j ==> depth_at(t, m) >= c
            },
            None => forall|m: int| i < m <= t.len() ==> depth_at(t, m) >= c,
        },
    decreases t.len() - i,
{
    if i < t.len() {
        assert(depth_at(t, i + 1) == depth_at(t, i) + depth_change(t[i]));
        let d2 = d + depth_change(t[i]);
        if d2 >= 0 {
            lemma_scan_forward(t, i + 1, d2, c);
        }
    }
}

/// A backward scan stops at the last index before `i` at which the depth is
/// below `c`, where `c` is the depth at `i`.
pub proof fn lemma_scan_backward(t: Seq<Token>, i: int, d: int, c: int)
    requires
        0 <= i <= t.len(),
        d == depth_at(t, i) - c,
    ensures
        match scan_backward(t, i, d) {
            Some(j) => {
                &&& 0 <= j < i
                &&& depth_at(t, j) < c
                &&& forall|m: int| j < m < i ==> depth_at(t, m) >= c
            },
            None => forall|m: int| 0 <= m < i ==> depth_at(t, m) >= c,
        },
    decreases i,
{
    if i > 0 {
        assert(depth_at(t, i) == depth_at(t, i - 1) + depth_change(t[i - 1]));
        let d2 = d - depth_change(t[i - 1]);
        if d2 >= 0 {
            lemma_scan_backward(t, i - 1, d2, c);
        }
    }
}

/// In a balanced sequence every `[` has a matching `]` at the same nesting
/// depth, and that `]` matches back to it.
pub proof fn lemma_open_has_match(t: Seq<Token>, i: int)
    requires
        balanced(t),
        0 <= i < t.len(),
        t[i] == Token::JUMP,
    ensures
        closing_of(t, i) is Some,
        i < closing_of(t, i)->0 < t.len(),
        t[closing_of(t, i)->0] == Token::BACK,
        depth_at(t, closing_of(t, i)->0 + 1) == depth_at(t, i),
        opening_of(t, closing_of(t, i)->0) == Some(i),
{
    let c = depth_at(t, i + 1);
    assert(c == depth_at(t, i) + 1);
    lemma_scan_forward(t, i + 1, 0, c);
    let len = t.len() as int;
    if closing_of(t, i) is None {
        if i + 1 < len {
            assert(depth_at(t, len) >= c);
        }
        assert(false);
    }
    let j = closing_of(t, i)->0;
    assert(depth_at(t, j) >= c);
    assert(depth_at(t, j + 1) == depth_at(t, j) + depth_change(t[j]));
    lemma_scan_backward(t, j, 0, depth_at(t, j));
    let o = opening_of(t, j);
    if o is None {
        assert(depth_at(t, i) >= depth_at(t, j));
        assert(false);
    }
    let k = o->0;
    if k < i {
        assert(depth_at(t, i) >= depth_at(t, j));
        assert(false);
    }
    if k > i + 1 {
        assert(depth_at(t, k) >= c);
        assert(false);
    }
}

/// In a balanced sequence every `]` has a matching `[`, and that `[`
/// matches forward to it.
pub proof fn lemma_close_has_match(t: Seq<Token>, j: int)
    requires
        balanced(t),
        0 <= j < t.len(),
        t[j] == Token::BACK,
    ensures
        opening_of(t, j) is Some,
        0 <= opening_of(t, j)->0 < j,
        t[opening_of(t, j)->0] == Token::JUMP,
        closing_of(t, opening_of(t, j)->0) == Some(j),
{
    assert(depth_at(t, j + 1) == depth_at(t, j) - 1);
    assert(depth_at(t, j + 1) >= 0);
    let c = depth_at(t, j);
    lemma_scan_backward(t, j, 0, c);
    if opening_of(t, j) is None {
        assert(depth_at(t, 0) >= c);
        assert(false);
    }
    let i = opening_of(t, j)->0;
    if i + 1 < j {
        assert(depth_at(t, i + 1) >= c);
    }
    assert(depth_at(t, i + 1) == depth_at(t, i) + depth_change(t[i]));
    lemma_open_has_match(t, i);
    let k = closing_of(t, i)->0;
    lemma_scan_forward(t, i + 1, 0, depth_at(t, i + 1));
    if k < j {
        assert(depth_at(t, k + 1) >= c);
        assert(false);
    }
    if k > j {
        assert(false);
    }
}

} // verus!
