//! Raw-fallback diagnostics recorded while parsing.
use crate::text::{nat_decimal, push_decimal};
use vstd::prelude::*;

verus! {

/// Raw-fallback diagnostics recorded while parsing: how many items,
/// statements and expressions could not be mapped to the IR, and the
/// source line of each.
#[derive(Debug, Clone, Default, PartialEq, Eq)]
pub struct RawDiagnostics {
    pub items: usize,
    pub statements: usize,
    pub expressions: usize,
    /// 1-based source line numbers, in encounter order, may contain duplicates.
    pub lines: Vec<usize>,
}

/// The mathematical view of diagnostics.
pub struct DiagV {
    pub items: nat,
    pub statements: nat,
    pub expressions: nat,
    pub lines: Seq<usize>,
}

impl View for RawDiagnostics {
    type V = DiagV;

    open spec fn view(&self) -> DiagV {
        DiagV {
            items: self.items as nat,
            statements: self.statements as nat,
            expressions: self.expressions as nat,
            lines: self.lines@,
        }
    }
}

/// The kinds of IR node that can fall back to raw text.
pub enum RawKind {
    Item,
    Statement,
    Expression,
}

/// Diagnostics after one more raw node of the given kind, found on `line`.
pub open spec fn record(d: DiagV, kind: RawKind, line: usize) -> DiagV {
    match kind {
        RawKind::Item => DiagV { items: d.items + 1, lines: d.lines.push(line), ..d },
        RawKind::Statement => DiagV { statements: d.statements + 1, lines: d.lines.push(line), ..d },
        RawKind::Expression => DiagV {
            expressions: d.expressions + 1,
            lines: d.lines.push(line),
            ..d
        },
    }
}

/// The diagnostics of a parse with no raw fallback yet.
pub open spec fn empty_diag() -> DiagV {
    DiagV { items: 0, statements: 0, expressions: 0, lines: Seq::empty() }
}

/// Every recorded raw node contributed exactly one line.
pub open spec fn diag_consistent(d: DiagV) -> bool {
    d.items + d.statements + d.expressions == d.lines.len()
}

pub open spec fn strictly_increasing(s: Seq<usize>) -> bool {
    forall|i: int, j: int| 0 <= i < j < s.len() ==> s[i] < s[j]
}

/// Recording keeps the diagnostics consistent: whatever kind of raw node is
/// recorded, the total count and the number of recorded lines grow together.
pub proof fn lemma_record_consistent(d: DiagV, kind: RawKind, line: usize)
    requires
        diag_consistent(d),
    ensures
        diag_consistent(record(d, kind, line)),
        record(d, kind, line).lines.last() == line,
{
}

/// Diagnostics after recording each `(kind, line)` of `calls`, in order,
/// starting from `d`.
pub open spec fn record_all(d: DiagV, calls: Seq<(RawKind, usize)>) -> DiagV
    decreases calls.len(),
{
    if calls.len() == 0 {
        d
    } else {
        record(record_all(d, calls.drop_last()), calls.last().0, calls.last().1)
    }
}

/// How many of `calls` record a node of kind `k`.
pub open spec fn count_kind(calls: Seq<(RawKind, usize)>, k: RawKind) -> nat
    decreases calls.len(),
{
    if calls.len() == 0 {
        0
    } else {
        count_kind(calls.drop_last(), k) + if calls.last().0 == k {
            1nat
        } else {
            0nat
        }
    }
}

/// The lines of `calls`, in order.
pub open spec fn call_lines(calls: Seq<(RawKind, usize)>) -> Seq<usize>
    decreases calls.len(),
{
    if calls.len() == 0 {
        Seq::empty()
    } else {
        call_lines(calls.drop_last()).push(calls.last().1)
    }
}

/// Starting from no raw node, any sequence of recordings counts each kind
/// exactly as often as it was recorded, keeps the lines in the order of the
/// calls, and keeps the total equal to the number of lines.
pub proof fn lemma_record_sequence(calls: Seq<(RawKind, usize)>)
    ensures
        record_all(empty_diag(), calls).items == count_kind(calls, RawKind::Item),
        record_all(empty_diag(), calls).statements == count_kind(calls, RawKind::Statement),
        record_all(empty_diag(), calls).expressions == count_kind(calls, RawKind::Expression),
        record_all(empty_diag(), calls).lines == call_lines(calls),
        diag_consistent(record_all(empty_diag(), calls)),
    decreases calls.len(),
{
    if calls.len() > 0 {
        lemma_record_sequence(calls.drop_last());
    }
}

/// The recorded lines sorted, each once: the strictly increasing sequence
/// holding exactly the lines of `lines`.
pub open spec fn sorted_lines(lines: Seq<usize>) -> Seq<usize> {
    choose|s: Seq<usize>| strictly_increasing(s) && s.to_set() == lines.to_set()
}

/// Two strictly increasing sequences with the same elements are the same
/// sequence.
pub proof fn lemma_increasing_unique(a: Seq<usize>, b: Seq<usize>)
    requires
        strictly_increasing(a),
        strictly_increasing(b),
        a.to_set() == b.to_set(),
    ensures
        a == b,
    decreases a.len(),
{
    if a.len() == 0 {
        if b.len() > 0 {
            assert(b.to_set().contains(b[0]));
            assert(!a.to_set().contains(b[0]));
        }
        assert(a =~= b);
    } else {
        assert(a.to_set().contains(a[0]));
        if b.len() == 0 {
            assert(!b.to_set().contains(a[0]));
        }
        assert(b.to_set().contains(b[0]));
        assert(b.contains(a[0]));
        assert(a.contains(b[0]));
        let j = choose|j: int| 0 <= j < b.len() && b[j] == a[0];
        let k = choose|k: int| 0 <= k < a.len() && a[k] == b[0];
        assert(a[0] == b[0]) by {
            if j > 0 {
                assert(b[0] < b[j]);
            }
            if k > 0 {
                assert(a[0] < a[k]);
            }
        }
        let a1 = a.drop_first();
        let b1 = b.drop_first();
        assert forall|x: usize| a1.to_set().contains(x) <==> b1.to_set().contains(x) by {
            if a1.to_set().contains(x) {
                let i = choose|i: int| 0 <= i < a1.len() && a1[i] == x;
                assert(a[i + 1] == x);
                assert(a[0] < x);
                assert(a.to_set().contains(x));
                let m = choose|m: int| 0 <= m < b.len() && b[m] == x;
                assert(m != 0);
                assert(b1[m - 1] == x);
            }
            if b1.to_set().contains(x) {
                let i = choose|i: int| 0 <= i < b1.len() && b1[i] == x;
                assert(b[i + 1] == x);
                assert(b[0] < x);
                assert(b.to_set().contains(x));
                let m = choose|m: int| 0 <= m < a.len() && a[m] == x;
                assert(m != 0);
                assert(a1[m - 1] == x);
            }
        }
        assert(a1.to_set() =~= b1.to_set());
        lemma_increasing_unique(a1, b1);
        assert(a =~= b) by {
            assert forall|i: int| 0 <= i < a.len() implies a[i] == b[i] by {
                if i > 0 {
                    assert(a[i] == a1[i - 1]);
                    assert(b[i] == b1[i - 1]);
                }
            }
        }
    }
}

/// A strictly increasing sequence with the elements of `lines` is the sorted
/// form of `lines`.
pub proof fn lemma_sorted_lines(s: Seq<usize>, lines: Seq<usize>)
    requires
        strictly_increasing(s),
        s.to_set() == lines.to_set(),
    ensures
        sorted_lines(lines) == s,
{
    let t = sorted_lines(lines);
    assert(strictly_increasing(t) && t.to_set() == lines.to_set());
    lemma_increasing_unique(t, s);
}

impl RawDiagnostics {
    /// The diagnostics of a parse with no raw fallback yet.
    pub fn new() -> (d: Self)
        ensures
            d@ == empty_diag(),
    {
        RawDiagnostics { items: 0, statements: 0, expressions: 0, lines: Vec::new() }
    }

    /// The number of raw nodes of all kinds.
    pub fn total(&self) -> (n: usize)
        requires
            self.items + self.statements + self.expressions <= usize::MAX,
        ensures
            n == self.items + self.statements + self.expressions,
    {
        self.items + self.statements + self.expressions
    }

    pub fn record_item(&mut self, line: usize)
        requires
            old(self).items < usize::MAX,
        ensures
            final(self)@ == record(old(self)@, RawKind::Item, line),
    {
        self.items += 1;
        self.lines.push(line);
    }

    pub fn record_statement(&mut self, line: usize)
        requires
            old(self).statements < usize::MAX,
        ensures
            final(self)@ == record(old(self)@, RawKind::Statement, line),
    {
        self.statements += 1;
        self.lines.push(line);
    }

    pub fn record_expression(&mut self, line: usize)
        requires
            old(self).expressions < usize::MAX,
        ensures
            final(self)@ == record(old(self)@, RawKind::Expression, line),
    {
        self.expressions += 1;
        self.lines.push(line);
    }

    /// The recorded lines, sorted, each once.
    pub fn sorted_unique_lines(&self) -> (r: Vec<usize>)
        ensures
            r@ == sorted_lines(self.lines@),
            strictly_increasing(r@),
            r@.to_set() == self.lines@.to_set(),
    {
        let mut out: Vec<usize> = Vec::new();
        let mut i: usize = 0;
        while i < self.lines.len()
            invariant
                0 <= i <= self.lines.len(),
                strictly_increasing(out@),
                out@.to_set() == self.lines@.take(i as int).to_set(),
            decreases self.lines.len() - i,
        {
            let x = self.lines[i];
            let ghost before = out@;
            // find the insertion point
            let mut k: usize = 0;
            while k < out.len() && out[k] < x
                invariant
                    0 <= k <= out.len(),
                    out@ == before,
                    strictly_increasing(out@),
                    forall|j: int| 0 <= j < k ==> out@[j] < x,
                decreases out.len() - k,
            {
                k = k + 1;
            }
            if k < out.len() && out[k] == x {
                proof {
                    assert(self.lines@.take(i + 1) =~= self.lines@.take(i as int).push(x));
                    assert(out@.to_set().contains(x));
                    self.lines@.take(i as int).lemma_push_to_set_commute(x);
                    assert(out@.to_set() =~= self.lines@.take(i + 1).to_set());
                }
            } else {
                out.insert(k, x);
                proof {
                    assert(self.lines@.take(i + 1) =~= self.lines@.take(i as int).push(x));
                    assert(out@ =~= before.take(k as int).push(x) + before.skip(k as int));
                    assert forall|a: int, b: int| 0 <= a < b < out@.len() implies out@[a]
                        < out@[b] by {
                        if b < k {
                        } else if b == k {
                        } else if a < k {
                            assert(out@[b] == before[b - 1]);
                            assert(before[b - 1] >= x || b - 1 >= k);
                            if k < before.len() {
                                assert(before[k as int] > x);
                                assert(before[k as int] <= before[b - 1]);
                            }
                        } else if a == k {
                            assert(before[k as int] > x);
                            assert(before[k as int] <= before[b - 1]);
                        } else {
                        }
                    }
                    assert forall|y: usize| out@.to_set().contains(y) <==> before.to_set().insert(
                        x,
                    ).contains(y) by {
                        if out@.to_set().contains(y) {
                            let j = choose|j: int| 0 <= j < out@.len() && out@[j] == y;
                            if j < k {
                                assert(before[j] == y);
                            } else if j > k {
                                assert(before[j - 1] == y);
                            }
                        }
                        if before.to_set().contains(y) {
                            let j = choose|j: int| 0 <= j < before.len() && before[j] == y;
                            if j < k {
                                assert(out@[j] == y);
                            } else {
                                assert(out@[j + 1] == y);
                            }
                        }
                        if y == x {
                            assert(out@[k as int] == x);
                        }
                    }
                    self.lines@.take(i as int).lemma_push_to_set_commute(x);
                    assert(out@.to_set() =~= self.lines@.take(i + 1).to_set());
                }
            }
            i = i + 1;
        }
        assert(self.lines@.take(self.lines.len() as int) =~= self.lines@);
        proof {
            lemma_sorted_lines(out@, self.lines@);
        }
        out
    }
}

} // verus!
