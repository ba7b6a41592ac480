//! The order of version numbers.

use crate::number::{leading_number, leading_value, leading_value_before, zero_is_zero};
use crate::text::{
    is_space, less_text, pieces, pieces_not_empty, split_char, text_less, text_order, texts, trim, trimmed, trimmed_end,
    trimmed_start,
};
use std::cmp::Ordering;
use vstd::prelude::*;

verus! {

/// The numbers between the dots of a version.
pub open spec fn fields(s: Seq<char>) -> Seq<nat> {
    pieces(trimmed(s), '.').map_values(|p: Seq<char>| leading_value(p))
}

/// Every number of the version fits.
pub open spec fn is_plain(s: Seq<char>) -> bool {
    forall|i: int| 0 <= i < fields(s).len() ==> #[trigger] fields(s)[i] <= u64::MAX
}

/// The number at position `i`; zero beyond the last.
pub open spec fn field_at(v: Seq<nat>, i: int) -> nat {
    if 0 <= i < v.len() {
        v[i]
    } else {
        0
    }
}

/// The order of two lists of numbers from position `i` on: the first that differ
/// decide, and a missing number counts as zero.
pub open spec fn field_order(a: Seq<nat>, b: Seq<nat>, i: int) -> int
    decreases (if a.len() > b.len() { a.len() } else { b.len() }) - i,
{
    if i >= a.len() && i >= b.len() {
        0
    } else if field_at(a, i) < field_at(b, i) {
        -1
    } else if field_at(a, i) > field_at(b, i) {
        1
    } else {
        field_order(a, b, i + 1)
    }
}

/// The order of two versions: less than zero, zero or more. Versions with a
/// number that does not fit are compared as texts.
pub open spec fn version_rank(a: Seq<char>, b: Seq<char>) -> int {
    if is_plain(a) && is_plain(b) {
        field_order(fields(a), fields(b), 0)
    } else if text_less(trimmed(a), trimmed(b)) {
        -1
    } else if text_less(trimmed(b), trimmed(a)) {
        1
    } else {
        0
    }
}

/// `a` is as high as `b` or higher.
pub open spec fn at_least(a: Seq<char>, b: Seq<char>) -> bool {
    version_rank(a, b) >= 0
}

/// The numbers of a version; nothing where one of them does not fit.
fn parse_version(s: &str) -> (r: Option<Vec<u64>>)
    ensures
        match r {
            Some(v) => is_plain(s@) && v@.len() == fields(s@).len() && forall|i: int|
                0 <= i < v@.len() ==> #[trigger] v@[i] == fields(s@)[i],
            None => !is_plain(s@),
        },
{
    let t = trim(s);
    let parts = split_char(t.as_str(), '.');
    let ghost all = fields(s@);
    let mut v: Vec<u64> = Vec::new();
    for i in 0..parts.len()
        invariant
            texts(parts@) == pieces(trimmed(s@), '.'),
            all == fields(s@),
            v@.len() == i,
            forall|j: int| 0 <= j < i ==> #[trigger] v@[j] == all[j],
    {
        assert(texts(parts@)[i as int] == parts@[i as int]@);
        assert(all[i as int] == leading_value(parts@[i as int]@));
        match leading_number(parts[i].as_str()) {
            Some(n) => {
                v.push(n);
            },
            None => {
                assert(all[i as int] > u64::MAX);
                return None;
            },
        }
    }
    proof {
        assert(all.len() == texts(parts@).len());
        assert forall|i: int| 0 <= i < all.len() implies #[trigger] all[i] <= u64::MAX by {
            assert(v@[i] == all[i]);
        }
    }
    Some(v)
}

fn number_at(v: &Vec<u64>, i: usize) -> (r: u64)
    ensures
        r == (if i < v@.len() { v@[i as int] } else { 0 }),
{
    if i < v.len() {
        v[i]
    } else {
        0
    }
}

/// The order of two versions: the numbers between the dots decide in turn, a
/// field without a number counts as zero, and versions that cannot be read as
/// numbers are compared as texts.
pub fn version_cmp(a: &str, b: &str) -> (r: Ordering)
    ensures
        match r {
            Ordering::Less => version_rank(a@, b@) == -1,
            Ordering::Equal => version_rank(a@, b@) == 0,
            Ordering::Greater => version_rank(a@, b@) == 1,
        },
{
    match (parse_version(a), parse_version(b)) {
        (Some(va), Some(vb)) => {
            let n: usize = if va.len() > vb.len() {
                va.len()
            } else {
                vb.len()
            };
            let ghost fa = fields(a@);
            let ghost fb = fields(b@);
            let mut i: usize = 0;
            while i < n
                invariant
                    i <= n,
                    n == (if va@.len() > vb@.len() { va@.len() } else { vb@.len() }),
                    fa == fields(a@),
                    fb == fields(b@),
                    va@.len() == fa.len(),
                    vb@.len() == fb.len(),
                    forall|j: int| 0 <= j < va@.len() ==> #[trigger] va@[j] == fa[j],
                    forall|j: int| 0 <= j < vb@.len() ==> #[trigger] vb@[j] == fb[j],
                    is_plain(a@) && is_plain(b@),
                    field_order(fa, fb, 0) == field_order(fa, fb, i + 0),
                decreases n - i,
            {
                let pa: u64 = number_at(&va, i);
                let pb: u64 = number_at(&vb, i);
                if pa < pb {
                    return Ordering::Less;
                }
                if pa > pb {
                    return Ordering::Greater;
                }
                i += 1;
            }
            Ordering::Equal
        },
        _ => {
            let ta = trim(a);
            let tb = trim(b);
            proof {
                text_order(ta@, tb@, ta@);
            }
            if less_text(ta.as_str(), tb.as_str()) {
                Ordering::Less
            } else if less_text(tb.as_str(), ta.as_str()) {
                Ordering::Greater
            } else {
                Ordering::Equal
            }
        },
    }
}

proof fn field_order_at(a: Seq<nat>, b: Seq<nat>, i: int)
    ensures
        field_order(a, b, i) == -field_order(b, a, i),
        field_order(a, b, i) == -1 || field_order(a, b, i) == 0 || field_order(a, b, i) == 1,
    decreases (if a.len() > b.len() { a.len() } else { b.len() }) - i,
{
    if !(i >= a.len() && i >= b.len()) {
        field_order_at(a, b, i + 1);
    }
}

proof fn field_order_past(a: Seq<nat>, b: Seq<nat>, i: int, n: int)
    requires
        0 <= i,
        forall|j: int| j >= n ==> field_at(a, j) == 0,
        forall|j: int| j >= n ==> field_at(b, j) == 0,
        i >= n,
    ensures
        field_order(a, b, i) == 0,
    decreases (if a.len() > b.len() { a.len() } else { b.len() }) - i,
{
    if !(i >= a.len() && i >= b.len()) {
        assert(field_at(a, i) == 0 && field_at(b, i) == 0);
        field_order_past(a, b, i + 1, n);
    }
}

proof fn field_order_chain(a: Seq<nat>, b: Seq<nat>, c: Seq<nat>, i: int)
    requires
        0 <= i,
        field_order(a, b, i) >= 0,
        field_order(b, c, i) >= 0,
    ensures
        field_order(a, c, i) >= 0,
    decreases a.len() + b.len() + c.len() - i,
{
    if i >= a.len() && i >= c.len() {
    } else {
        field_order_at(a, b, i);
        field_order_at(b, c, i);
        if i >= a.len() && i >= b.len() {
            assert(field_at(a, i) == field_at(b, i));
        }
        if i >= b.len() && i >= c.len() {
            assert(field_at(b, i) == field_at(c, i));
        }
        assert(field_at(a, i) >= field_at(b, i));
        assert(field_at(b, i) >= field_at(c, i));
        if field_at(a, i) == field_at(c, i) {
            if i >= a.len() && i >= b.len() {
                field_order_past(a, b, i + 1, i);
            }
            if i >= b.len() && i >= c.len() {
                field_order_past(b, c, i + 1, i);
            }
            field_order_chain(a, b, c, i + 1);
        }
    }
}

/// The order of versions goes one way only; a version is as high as itself; and
/// where the versions can be read as numbers, the order carries on from one to
/// the next.
pub proof fn version_order(a: Seq<char>, b: Seq<char>, c: Seq<char>)
    ensures
        version_rank(a, b) == -version_rank(b, a),
        at_least(a, a),
        at_least(a, b) || at_least(b, a),
        is_plain(a) && is_plain(b) && is_plain(c) && at_least(a, b) && at_least(b, c) ==> at_least(a, c),
{
    field_order_at(fields(a), fields(b), 0);
    field_order_at(fields(a), fields(a), 0);
    text_order(trimmed(a), trimmed(b), trimmed(a));
    text_order(trimmed(b), trimmed(a), trimmed(b));
    if is_plain(a) && is_plain(b) && is_plain(c) && at_least(a, b) && at_least(b, c) {
        field_order_chain(fields(a), fields(b), fields(c), 0);
    }
}

proof fn start_of_longer(a: Seq<char>, z: Seq<char>)
    requires
        z.len() > 0,
        !is_space(z[0]),
    ensures
        trimmed_start(a + z) == trimmed_start(a) + z,
    decreases a.len(),
{
    if a.len() == 0 {
        assert(a + z =~= z);
    } else {
        assert((a + z)[0] == a[0]);
        if is_space(a[0]) {
            assert((a + z).skip(1) =~= a.skip(1) + z);
            start_of_longer(a.skip(1), z);
        }
    }
}

/// The fields of a text that is trimmed at its start.
spec fn raw_fields(u: Seq<char>) -> Seq<nat> {
    pieces(u, '.').map_values(|p: Seq<char>| leading_value(p))
}

/// White space behind a version changes none of its numbers.
proof fn space_behind_is_nothing(u: Seq<char>)
    ensures
        raw_fields(trimmed_end(u)) == raw_fields(u),
    decreases u.len(),
{
    if u.len() > 0 && is_space(u.last()) {
        let v = u.drop_last();
        space_behind_is_nothing(v);
        pieces_not_empty(v, '.');
        let front = pieces(v, '.');
        leading_value_before(front.last(), u.last());
        assert(raw_fields(u) =~= raw_fields(v));
    }
}

proof fn fields_with_zero(a: Seq<char>)
    ensures
        fields(a + ".0"@) == fields(a).push(0),
{
    let z = ".0"@;
    reveal_strlit(".0");
    start_of_longer(a, z);
    let u = trimmed_start(a);
    let w = u + z;
    assert(w.last() == '0');
    assert(trimmed(a + z) == w);
    let dotted = w.drop_last();
    assert(dotted =~= u.push('.'));
    assert(dotted.drop_last() =~= u);
    assert(pieces(dotted, '.') == pieces(u, '.').push(Seq::<char>::empty()));
    let zero = Seq::<char>::empty().push('0');
    assert(pieces(dotted, '.').drop_last() =~= pieces(u, '.'));
    assert(pieces(w, '.') == pieces(u, '.').push(zero));
    zero_is_zero();
    space_behind_is_nothing(u);
    assert(raw_fields(w) =~= raw_fields(u).push(0));
}

proof fn field_order_with_zero(f: Seq<nat>, g: Seq<nat>, i: int)
    requires
        0 <= i,
    ensures
        field_order(f.push(0), g, i) == field_order(f, g, i),
    decreases f.len() + 1 + g.len() - i,
{
    let h = f.push(0);
    assert(field_at(h, i) == field_at(f, i));
    if !(i >= h.len() && i >= g.len()) {
        if i >= f.len() && i >= g.len() {
            field_order_past(h, g, i + 1, i);
        } else {
            field_order_with_zero(f, g, i + 1);
        }
    }
}

/// A further `.0` leaves a version that can be read as numbers where it is in the
/// order.
pub proof fn trailing_zero_changes_nothing(a: Seq<char>, b: Seq<char>)
    requires
        is_plain(a),
        is_plain(b),
    ensures
        is_plain(a + ".0"@),
        version_rank(a + ".0"@, a) == 0,
        version_rank(a + ".0"@, b) == version_rank(a, b),
        version_rank(b, a + ".0"@) == version_rank(b, a),
{
    let longer = a + ".0"@;
    fields_with_zero(a);
    assert forall|i: int| 0 <= i < fields(longer).len() implies #[trigger] fields(longer)[i] <= u64::MAX by {
        if i < fields(a).len() {
            assert(fields(longer)[i] == fields(a)[i]);
        }
    }
    field_order_with_zero(fields(a), fields(b), 0);
    field_order_with_zero(fields(a), fields(a), 0);
    field_order_at(fields(a), fields(a), 0);
    version_order(longer, b, b);
    version_order(a, b, b);
}

/// Whether `a` is as high as `b` or higher.
pub fn version_gte(a: &str, b: &str) -> (r: bool)
    ensures
        r == at_least(a@, b@),
{
    match version_cmp(a, b) {
        Ordering::Less => false,
        Ordering::Equal => true,
        Ordering::Greater => true,
    }
}

/// Whether `a` is higher than `b`.
pub fn version_higher(a: &str, b: &str) -> (r: bool)
    ensures
        r == (version_rank(a@, b@) > 0),
{
    match version_cmp(a, b) {
        Ordering::Less => false,
        Ordering::Equal => false,
        Ordering::Greater => true,
    }
}

/// Versions go by their numbers, from the first on: the first that differs decides, as
/// a number and not as a text, and what is missing counts as zero.
pub proof fn the_first_number_that_differs_decides(a: Seq<char>, b: Seq<char>, i: int)
    requires
        is_plain(a),
        is_plain(b),
        0 <= i,
        forall|j: int| 0 <= j < i ==> #[trigger] written_at(a, j) == written_at(b, j),
    ensures
        written_at(a, i) < written_at(b, i) ==> version_rank(a, b) < 0 && !at_least(a, b) && at_least(b, a),
        written_at(a, i) > written_at(b, i) ==> version_rank(a, b) > 0 && at_least(a, b),
        i >= pieces(trimmed(a), '.').len() && i >= pieces(trimmed(b), '.').len() ==> version_rank(a, b) == 0,
{
    let x = fields(a);
    let y = fields(b);
    version_order(a, b, a);
    assert forall|j: int| 0 <= j implies #[trigger] written_at(a, j) == field_at(x, j) by {}
    assert forall|j: int| 0 <= j implies #[trigger] written_at(b, j) == field_at(y, j) by {}
    assert forall|j: int| 0 <= j < i implies #[trigger] field_at(x, j) == field_at(y, j) by {
        assert(written_at(a, j) == written_at(b, j));
    }
    equal_fields_pass(x, y, 0, i);
}

/// The number at a place of a version: what stands between the full stops there, as far
/// as it is digits; zero where the version has ended.
pub open spec fn written_at(s: Seq<char>, i: int) -> nat {
    let ps = pieces(trimmed(s), '.');
    if 0 <= i < ps.len() {
        leading_value(ps[i])
    } else {
        0
    }
}

proof fn equal_fields_pass(a: Seq<nat>, b: Seq<nat>, from: int, to: int)
    requires
        0 <= from <= to,
        forall|j: int| from <= j < to ==> #[trigger] field_at(a, j) == field_at(b, j),
    ensures
        field_order(a, b, from) == field_order(a, b, to),
    decreases to - from,
{
    if from < to {
        assert(field_at(a, from) == field_at(b, from));
        if from >= a.len() && from >= b.len() {
            assert(field_order(a, b, from) == 0);
            assert(field_order(a, b, to) == 0);
        } else {
            equal_fields_pass(a, b, from + 1, to);
        }
    }
}

/// A version that cannot be read as numbers goes by its text.
pub proof fn other_versions_go_by_their_text(a: Seq<char>, b: Seq<char>)
    requires
        !is_plain(a),
    ensures
        at_least(a, b) <==> !text_less(trimmed(a), trimmed(b)),
        at_least(b, a) <==> !text_less(trimmed(b), trimmed(a)),
{
    text_order(trimmed(a), trimmed(b), trimmed(a));
}

} // verus!
