//! The bracket matcher: finds the partner of a loop bracket by scanning the
//! program text with a nesting counter.
use vstd::prelude::*;

verus! {

/// The opening loop bracket `[`.
pub const OPEN: u8 = 91;

/// The closing loop bracket `]`.
pub const CLOSE: u8 = 93;

/// How a byte changes the bracket nesting depth.
pub open spec fn bracket_delta(b: u8) -> int {
    if b == OPEN {
        1
    } else if b == CLOSE {
        -1
    } else {
        0
    }
}

/// The number of `[` minus the number of `]` in `p[lo..hi]`.
pub open spec fn balance(p: Seq<u8>, lo: int, hi: int) -> int
    decreases hi - lo,
{
    if lo >= hi {
        0
    } else {
        balance(p, lo, hi - 1) + bracket_delta(p[hi - 1])
    }
}

/// Whether the `]` at `close` matches the `[` at `open`: the first point
/// after `open` at which the brackets opened since `open` are all closed.
pub open spec fn is_matching_close(p: Seq<u8>, open: int, close: int) -> bool {
    &&& 0 <= open < close < p.len()
    &&& p[open] == OPEN
    &&& p[close] == CLOSE
    &&& balance(p, open, close + 1) == 0
    &&& forall|k: int| open < k <= close ==> #[trigger] balance(p, open, k) > 0
}

/// Whether the `[` at `open` matches the `]` at `close`: the first point
/// before `close` at which the brackets closed up to `close` are all opened.
pub open spec fn is_matching_open(p: Seq<u8>, open: int, close: int) -> bool {
    &&& 0 <= open < close < p.len()
    &&& p[open] == OPEN
    &&& p[close] == CLOSE
    &&& balance(p, open, close + 1) == 0
    &&& forall|k: int| open < k <= close ==> #[trigger] balance(p, k, close + 1) < 0
}

/// Scanning forward from `i` with `depth` brackets still open, the index of
/// the `]` that brings the depth to zero.
pub open spec fn match_forward(p: Seq<u8>, i: int, depth: int) -> Option<int>
    decreases p.len() - i,
{
    if i < 0 || i >= p.len() {
        None
    } else if p[i] == OPEN {
        match_forward(p, i + 1, depth + 1)
    } else if p[i] == CLOSE {
        if depth <= 1 {
            Some(i)
        } else {
            match_forward(p, i + 1, depth - 1)
        }
    } else {
        match_forward(p, i + 1, depth)
    }
}

/// Scanning backward from `i` with `depth` brackets still closed, the index
/// of the `[` that brings the depth to zero.
pub open spec fn match_backward(p: Seq<u8>, i: int, depth: int) -> Option<int>
    decreases i + 1,
{
    if i < 0 || i >= p.len() {
        None
    } else if p[i] == CLOSE {
        match_backward(p, i - 1, depth + 1)
    } else if p[i] == OPEN {
        if depth <= 1 {
            Some(i)
        } else {
            match_backward(p, i - 1, depth - 1)
        }
    } else {
        match_backward(p, i - 1, depth)
    }
}

/// The depth can also be counted from the left end of a range.
pub proof fn lemma_balance_from_left(p: Seq<u8>, lo: int, hi: int)
    requires
        0 <= lo < hi <= p.len(),
    ensures
        balance(p, lo, hi) == bracket_delta(p[lo]) + balance(p, lo + 1, hi),
    decreases hi - lo,
{
    assert(balance(p, lo, lo) == 0);
    assert(balance(p, hi, hi) == 0);
    if hi > lo + 1 {
        lemma_balance_from_left(p, lo, hi - 1);
    }
}

proof fn lemma_forward_scan(p: Seq<u8>, open: int, i: int, depth: int)
    requires
        0 <= open < i <= p.len(),
        p[open] == OPEN,
        depth == balance(p, open, i),
        forall|k: int| open < k <= i ==> #[trigger] balance(p, open, k) > 0,
    ensures
        match_forward(p, i, depth) matches Some(j) ==> is_matching_close(p, open, j),
        match_forward(p, i, depth) is None ==> forall|j: int| !is_matching_close(p, open, j),
    decreases p.len() - i,
{
    if i == p.len() {
        assert forall|j: int| !is_matching_close(p, open, j) by {
            if is_matching_close(p, open, j) {
                assert(balance(p, open, j + 1) > 0);
            }
        }
    } else {
        assert(balance(p, open, i + 1) == depth + bracket_delta(p[i]));
        assert(balance(p, open, i) > 0);
        if p[i] == CLOSE && depth <= 1 {
        } else {
            lemma_forward_scan(p, open, i + 1, balance(p, open, i + 1));
        }
    }
}

/// Scanning forward from just after a `[` finds exactly its matching `]`,
/// and finds nothing only when it has none.
pub proof fn lemma_match_forward(p: Seq<u8>, open: int)
    requires
        0 <= open < p.len(),
        p[open] == OPEN,
    ensures
        match_forward(p, open + 1, 1) matches Some(j) ==> is_matching_close(p, open, j),
        match_forward(p, open + 1, 1) is None ==> forall|j: int| !is_matching_close(p, open, j),
{
    assert(balance(p, open, open) == 0);
    assert(balance(p, open, open + 1) == 1);
    lemma_forward_scan(p, open, open + 1, 1);
}

/// A `[` has at most one matching `]`.
pub proof fn lemma_matching_close_unique(p: Seq<u8>, open: int, j1: int, j2: int)
    requires
        is_matching_close(p, open, j1),
        is_matching_close(p, open, j2),
    ensures
        j1 == j2,
{
    if j1 < j2 {
        assert(balance(p, open, j1 + 1) > 0);
    } else if j2 < j1 {
        assert(balance(p, open, j2 + 1) > 0);
    }
}

proof fn lemma_backward_scan(p: Seq<u8>, close: int, i: int, depth: int)
    requires
        -1 <= i < close < p.len(),
        p[close] == CLOSE,
        depth == -balance(p, i + 1, close + 1),
        forall|k: int| i < k <= close ==> #[trigger] balance(p, k, close + 1) < 0,
    ensures
        match_backward(p, i, depth) matches Some(j) ==> is_matching_open(p, j, close),
        match_backward(p, i, depth) is None ==> forall|j: int| !is_matching_open(p, j, close),
    decreases i + 1,
{
    if i < 0 {
        assert forall|j: int| !is_matching_open(p, j, close) by {
            if is_matching_open(p, j, close) {
                assert(balance(p, j, close + 1) < 0);
            }
        }
    } else {
        lemma_balance_from_left(p, i, close + 1);
        assert(balance(p, i + 1, close + 1) < 0);
        if p[i] == OPEN && depth <= 1 {
        } else {
            lemma_backward_scan(p, close, i - 1, -balance(p, i, close + 1));
        }
    }
}

/// Scanning backward from just before a `]` finds exactly its matching
/// `[`, and finds nothing only when it has none.
pub proof fn lemma_match_backward(p: Seq<u8>, close: int)
    requires
        0 <= close < p.len(),
        p[close] == CLOSE,
    ensures
        match_backward(p, close - 1, 1) matches Some(j) ==> is_matching_open(p, j, close),
        match_backward(p, close - 1, 1) is None ==> forall|j: int| !is_matching_open(p, j, close),
{
    assert(balance(p, close, close) == 0);
    assert(balance(p, close, close + 1) == -1);
    lemma_backward_scan(p, close, close - 1, 1);
}

/// A `]` has at most one matching `[`.
pub proof fn lemma_matching_open_unique(p: Seq<u8>, close: int, j1: int, j2: int)
    requires
        is_matching_open(p, j1, close),
        is_matching_open(p, j2, close),
    ensures
        j1 == j2,
{
    if j1 < j2 {
        assert(balance(p, j2, close + 1) < 0);
    } else if j2 < j1 {
        assert(balance(p, j1, close + 1) < 0);
    }
}

/// The index of the `]` matching the `[` at `at`, if the text has one.
pub fn find_matching_close(p: &[u8], at: usize) -> (r: Option<usize>)
    requires
        at < p@.len(),
    ensures
        r is Some <==> match_forward(p@, at + 1, 1) is Some,
        r matches Some(j) ==> match_forward(p@, at + 1, 1) == Some(j as int) && at < j < p@.len(),
{
    let n = p.len();
    let mut i = at + 1;
    let mut depth: usize = 1;
    while i < n
        invariant
            n == p@.len(),
            at < i <= p@.len(),
            1 <= depth <= i - at,
            match_forward(p@, at + 1, 1) == match_forward(p@, i as int, depth as int),
        decreases p@.len() - i,
    {
        if p[i] == OPEN {
            depth = depth + 1;
        } else if p[i] == CLOSE {
            if depth == 1 {
                return Some(i);
            }
            depth = depth - 1;
        }
        i = i + 1;
    }
    None
}

/// The index of the `[` matching the `]` at `at`, if the text has one.
pub fn find_matching_open(p: &[u8], at: usize) -> (r: Option<usize>)
    requires
        at < p@.len(),
    ensures
        r is Some <==> match_backward(p@, at - 1, 1) is Some,
        r matches Some(j) ==> match_backward(p@, at - 1, 1) == Some(j as int) && j < at,
{
    let mut i = at;
    let mut depth: usize = 1;
    while i > 0
        invariant
            i <= at < p@.len(),
            1 <= depth <= at + 1 - i,
            match_backward(p@, at - 1, 1) == match_backward(p@, i - 1, depth as int),
        decreases i,
    {
        let b = p[i - 1];
        if b == CLOSE {
            depth = depth + 1;
        } else if b == OPEN {
            if depth == 1 {
                return Some(i - 1);
            }
            depth = depth - 1;
        }
        i = i - 1;
    }
    None
}

} // verus!
