//! Sorted, duplicate-free line collections: the fallback log path sorts and
//! deduplicates what it gathered before anything else happens to it.

use vstd::prelude::*;
use crate::strutil::{str_le, str_lt, str_eq, str_le_exec, lemma_str_le_total, lemma_str_le_antisymmetric};
use crate::textparse::views_of;

verus! {

/// Strictly ascending in lexicographic order, hence duplicate-free.
pub open spec fn strictly_sorted(s: Seq<Seq<char>>) -> bool {
    forall|i: int| 0 <= i < s.len() - 1 ==> str_lt(s[i], #[trigger] s[i + 1])
}

/// Whether some element of `s` is `x`.
pub open spec fn contains_line(s: Seq<Seq<char>>, x: Seq<char>) -> bool {
    exists|i: int| 0 <= i < s.len() && s[i] == x
}

/// Inserts `x` into an ascending sequence, keeping it ascending; inserting an
/// element already present changes nothing.
pub open spec fn insert_unique(s: Seq<Seq<char>>, x: Seq<char>) -> Seq<Seq<char>>
    decreases s.len(),
{
    if s.len() == 0 {
        seq![x]
    } else if str_lt(x, s[0]) {
        seq![x] + s
    } else if x == s[0] {
        s
    } else {
        seq![s[0]] + insert_unique(s.drop_first(), x)
    }
}

/// The ascending duplicate-free sequence holding exactly the elements of
/// `ls`.
pub open spec fn sorted_unique_of(ls: Seq<Seq<char>>) -> Seq<Seq<char>>
    decreases ls.len(),
{
    if ls.len() == 0 {
        Seq::empty()
    } else {
        insert_unique(sorted_unique_of(ls.drop_last()), ls.last())
    }
}

/// `insert_unique` keeps the sequence ascending and adds exactly `x` to its
/// elements.
pub proof fn lemma_insert_unique_props(s: Seq<Seq<char>>, x: Seq<char>)
    requires
        strictly_sorted(s),
    ensures
        strictly_sorted(insert_unique(s, x)),
        insert_unique(s, x).len() >= 1,
        insert_unique(s, x)[0] == x || (s.len() > 0 && insert_unique(s, x)[0] == s[0]),
        forall|y: Seq<char>|
            contains_line(insert_unique(s, x), y) <==> contains_line(s, y) || y == x,
    decreases s.len(),
{
    let r = insert_unique(s, x);
    if s.len() == 0 {
        assert(r[0] == x);
        assert forall|y: Seq<char>|
            contains_line(r, y) <==> contains_line(s, y) || y == x by {
            if y == x {
                assert(r[0] == y);
            }
        }
    } else if str_lt(x, s[0]) {
        assert(r[0] == x);
        assert forall|i: int| 0 <= i < r.len() - 1 implies str_lt(r[i], #[trigger] r[i + 1]) by {
            if i > 0 {
                assert(r[i] == s[i - 1]);
                assert(r[i + 1] == s[i]);
                assert(str_lt(s[i - 1], s[i - 1 + 1]));
            } else {
                assert(r[0] == x);
                assert(r[1] == s[0]);
            }
        }
        assert forall|y: Seq<char>|
            contains_line(r, y) <==> contains_line(s, y) || y == x by {
            if contains_line(r, y) {
                let i = choose|i: int| 0 <= i < r.len() && r[i] == y;
                if i > 0 {
                    assert(s[i - 1] == y);
                }
            }
            if contains_line(s, y) {
                let i = choose|i: int| 0 <= i < s.len() && s[i] == y;
                assert(r[i + 1] == y);
            }
            if y == x {
                assert(r[0] == y);
            }
        }
    } else if x == s[0] {
        assert forall|y: Seq<char>|
            contains_line(r, y) <==> contains_line(s, y) || y == x by {
            if y == x {
                assert(s[0] == y);
            }
        }
    } else {
        // x is neither below nor equal to the head, so it lies above it.
        lemma_str_le_total(x, s[0]);
        if str_le(x, s[0]) {
            assert(str_lt(x, s[0]));
        }
        assert(str_lt(s[0], x));
        let tail = s.drop_first();
        assert(strictly_sorted(tail)) by {
            assert forall|i: int| 0 <= i < tail.len() - 1 implies str_lt(tail[i], #[trigger] tail[i + 1]) by {
                assert(tail[i] == s[i + 1]);
                assert(tail[i + 1] == s[i + 2]);
            }
        }
        lemma_insert_unique_props(tail, x);
        let ins = insert_unique(tail, x);
        assert(r =~= seq![s[0]] + ins);
        assert(r[0] == s[0]);
        assert forall|i: int| 0 <= i < r.len() - 1 implies str_lt(r[i], #[trigger] r[i + 1]) by {
            if i == 0 {
                assert(r[1] == ins[0]);
                if ins[0] == x {
                } else {
                    assert(ins[0] == tail[0]);
                    assert(tail[0] == s[1]);
                    assert(str_lt(s[0int], s[0int + 1]));
                }
            } else {
                assert(r[i] == ins[i - 1]);
                assert(r[i + 1] == ins[i]);
                assert(str_lt(ins[i - 1], ins[i - 1 + 1]));
            }
        }
        assert forall|y: Seq<char>|
            contains_line(r, y) <==> contains_line(s, y) || y == x by {
            assert(contains_line(insert_unique(tail, x), y)
                <==> contains_line(tail, y) || y == x);
            if contains_line(r, y) {
                let i = choose|i: int| 0 <= i < r.len() && r[i] == y;
                if i == 0 {
                    assert(s[0] == y);
                } else {
                    assert(ins[i - 1] == y);
                    assert(contains_line(ins, y));
                    if contains_line(tail, y) {
                        let j = choose|j: int| 0 <= j < tail.len() && tail[j] == y;
                        assert(s[j + 1] == y);
                    }
                }
            }
            if contains_line(s, y) {
                let i = choose|i: int| 0 <= i < s.len() && s[i] == y;
                if i == 0 {
                    assert(r[0] == y);
                } else {
                    assert(tail[i - 1] == y);
                    assert(contains_line(tail, y));
                    assert(contains_line(ins, y));
                    let j = choose|j: int| 0 <= j < ins.len() && ins[j] == y;
                    assert(r[j + 1] == y);
                }
            }
            if y == x {
                assert(contains_line(ins, y));
                let j = choose|j: int| 0 <= j < ins.len() && ins[j] == y;
                assert(r[j + 1] == y);
            }
        }
    }
}

/// The collected elements of a sequence form an ascending duplicate-free
/// sequence with exactly the same elements.
pub proof fn lemma_sorted_unique_props(ls: Seq<Seq<char>>)
    ensures
        strictly_sorted(sorted_unique_of(ls)),
        forall|y: Seq<char>|
            contains_line(sorted_unique_of(ls), y) <==> contains_line(ls, y),
    decreases ls.len(),
{
    if ls.len() == 0 {
    } else {
        let head = sorted_unique_of(ls.drop_last());
        lemma_sorted_unique_props(ls.drop_last());
        lemma_insert_unique_props(head, ls.last());
        assert forall|y: Seq<char>|
            contains_line(sorted_unique_of(ls), y) <==> contains_line(ls, y) by {
            if contains_line(ls.drop_last(), y) {
                let i = choose|i: int| 0 <= i < ls.drop_last().len() && ls.drop_last()[i] == y;
                assert(ls[i] == y);
            }
            if y == ls.last() {
                assert(ls[ls.len() - 1] == y);
            }
            if contains_line(ls, y) && y != ls.last() {
                let i = choose|i: int| 0 <= i < ls.len() && ls[i] == y;
                assert(i < ls.len() - 1);
                assert(ls.drop_last()[i] == y);
            }
        }
    }
}

/// Where the scan stopped determines the result of `insert_unique`.
proof fn lemma_insert_unique_at(s: Seq<Seq<char>>, x: Seq<char>, j: int)
    requires
        strictly_sorted(s),
        0 <= j <= s.len(),
        forall|k: int| 0 <= k < j ==> str_lt(#[trigger] s[k], x),
        j < s.len() ==> !str_lt(s[j], x),
    ensures
        j < s.len() && s[j] == x ==> insert_unique(s, x) == s,
        !(j < s.len() && s[j] == x)
            ==> insert_unique(s, x) == s.take(j) + seq![x] + s.skip(j),
    decreases j,
{
    if j == 0 {
        if s.len() == 0 {
            assert(insert_unique(s, x) =~= s.take(0) + seq![x] + s.skip(0));
        } else if s[0] == x {
        } else {
            lemma_str_le_total(x, s[0]);
            if str_le(s[0], x) {
                assert(str_lt(s[0], x));
            }
            assert(str_lt(x, s[0]));
            assert(insert_unique(s, x) =~= s.take(0) + seq![x] + s.skip(0));
        }
    } else {
        assert(str_lt(s[0], x));
        assert(x != s[0]) by {
            if x == s[0] {
                assert(str_le(s[0], x) && str_le(x, s[0]));
            }
        }
        assert(!str_lt(x, s[0])) by {
            if str_lt(x, s[0]) {
                lemma_str_le_antisymmetric(x, s[0]);
            }
        }
        let tail = s.drop_first();
        assert(strictly_sorted(tail)) by {
            assert forall|i: int| 0 <= i < tail.len() - 1 implies str_lt(tail[i], #[trigger] tail[i + 1]) by {
                assert(tail[i] == s[i + 1]);
                assert(tail[i + 1] == s[i + 2]);
            }
        }
        assert forall|k: int| 0 <= k < j - 1 implies str_lt(#[trigger] tail[k], x) by {
            assert(tail[k] == s[k + 1]);
        }
        assert(j - 1 < tail.len() ==> !str_lt(tail[j - 1], x)) by {
            if j - 1 < tail.len() {
                assert(tail[j - 1] == s[j]);
            }
        }
        lemma_insert_unique_at(tail, x, j - 1);
        if j < s.len() && s[j] == x {
            assert(tail[j - 1] == x);
            assert(insert_unique(s, x) =~= seq![s[0]] + insert_unique(tail, x));
            assert(insert_unique(s, x) =~= s);
        } else {
            assert(insert_unique(tail, x) == tail.take(j - 1) + seq![x] + tail.skip(j - 1));
            assert(insert_unique(s, x) =~= seq![s[0]] + (tail.take(j - 1) + seq![x] + tail.skip(j - 1)));
            assert(insert_unique(s, x) =~= s.take(j) + seq![x] + s.skip(j));
        }
    }
}

/// Index of the first element not below `x` in an ascending vector.
fn lower_bound(out: &Vec<String>, x: &str) -> (j: usize)
    requires
        strictly_sorted(views_of(out@)),
    ensures
        j <= out@.len(),
        forall|k: int| 0 <= k < j ==> str_lt(#[trigger] views_of(out@)[k], x@),
        j < out@.len() ==> !str_lt(views_of(out@)[j as int], x@),
{
    let ghost s = views_of(out@);
    let n = out.len();
    let mut j: usize = 0;
    while j < n
        invariant
            n == out@.len(),
            s == views_of(out@),
            j <= n,
            forall|k: int| 0 <= k < j ==> str_lt(#[trigger] s[k], x@),
        decreases n - j,
    {
        proof {
            assert(views_of(out@)[j as int] == out@[j as int]@);
        }
        if str_le_exec(x, out[j].as_str()) {
            proof {
                assert(!str_lt(s[j as int], x@)) by {
                    if str_lt(s[j as int], x@) {
                        lemma_str_le_antisymmetric(s[j as int], x@);
                    }
                }
            }
            return j;
        }
        proof {
            lemma_str_le_total(x@, s[j as int]);
            assert(str_le(s[j as int], x@));
            assert(str_lt(s[j as int], x@));
        }
        j += 1;
    }
    j
}

/// Inserts a line into an ascending duplicate-free vector, in place.
pub fn insert_line_sorted(out: &mut Vec<String>, x: String)
    requires
        strictly_sorted(views_of(old(out)@)),
    ensures
        views_of(final(out)@) == insert_unique(views_of(old(out)@), x@),
        strictly_sorted(views_of(final(out)@)),
{
    let ghost s = views_of(out@);
    let ghost gx = x@;
    let n = out.len();
    let j = lower_bound(out, x.as_str());
    proof {
        lemma_insert_unique_at(s, gx, j as int);
        lemma_insert_unique_props(s, gx);
    }
    if j < n && str_eq(x.as_str(), out[j].as_str()) {
        proof {
            assert(out@[j as int]@ == s[j as int]);
            assert(s[j as int] == gx);
            assert(views_of(out@) == insert_unique(s, gx));
        }
        return;
    }
    proof {
        assert(j < n ==> s[j as int] != gx) by {
            if j < n {
                assert(out@[j as int]@ == s[j as int]);
            }
        }
    }
    let ghost before = out@;
    out.insert(j, x);
    proof {
        assert(out@ == before.insert(j as int, x));
        assert(views_of(out@) =~= s.take(j as int) + seq![gx] + s.skip(j as int));
    }
}

/// Sorts and deduplicates a batch of gathered lines.
pub fn sort_dedup_lines(lines: &Vec<String>) -> (r: Vec<String>)
    ensures
        views_of(r@) == sorted_unique_of(views_of(lines@)),
        strictly_sorted(views_of(r@)),
        forall|y: Seq<char>|
            contains_line(views_of(r@), y) <==> contains_line(views_of(lines@), y),
{
    let n = lines.len();
    let mut out: Vec<String> = Vec::new();
    let mut i: usize = 0;
    proof {
        assert(views_of(lines@).take(0) =~= Seq::<Seq<char>>::empty());
        assert(views_of(out@) =~= sorted_unique_of(views_of(lines@).take(0)));
    }
    while i < n
        invariant
            n == lines@.len(),
            i <= n,
            strictly_sorted(views_of(out@)),
            views_of(out@) == sorted_unique_of(views_of(lines@).take(i as int)),
        decreases n - i,
    {
        proof {
            assert(views_of(lines@)[i as int] == lines@[i as int]@);
        }
        insert_line_sorted(&mut out, lines[i].clone());
        proof {
            let t1 = views_of(lines@).take(i + 1);
            assert(t1.drop_last() =~= views_of(lines@).take(i as int));
            assert(t1.last() == views_of(lines@)[i as int]);
        }
        i += 1;
    }
    proof {
        assert(views_of(lines@).take(n as int) =~= views_of(lines@));
        lemma_sorted_unique_props(views_of(lines@));
    }
    out
}

} // verus!
