//! Names of cases and the machine-readable listing of a registry.

use vstd::prelude::*;

use crate::case::{Ignore, TestCase, TestKind};
use crate::outcome::owned;
use crate::text::chars_of;
use vstd::utf8::char_u32_cast;

verus! {

/// Which cases a listing shows.
#[derive(Debug, Clone, Copy, PartialEq, Eq, Structural)]
pub enum ListMode {
    /// Cases without an ignore marker.
    Default,
    /// Only cases that carry an ignore marker.
    IgnoredOnly,
}

/// The word a listing line gives for a kind.
pub open spec fn kind_word_spec(kind: TestKind) -> Seq<char> {
    match kind {
        TestKind::Unit => "test"@,
        TestKind::Benchmark => "benchmark"@,
    }
}

/// The identity of a case: `<module path>::<name>`.
pub open spec fn trial_name_spec<F>(case: TestCase<F>) -> Seq<char> {
    case.module@ + "::"@ + case.name@
}

/// The name shown to people: the identity, followed by the ignore reason when
/// there is one.
pub open spec fn display_name_spec<F>(case: TestCase<F>) -> Seq<char> {
    match case.ignore {
        Some(Ignore { reason: Some(r) }) => trial_name_spec(case) + " (ignored: "@ + r@ + ")"@,
        _ => trial_name_spec(case),
    }
}

/// The listing line of a case: `<module path>::<name>: <kind word>`.
pub open spec fn list_line_spec<F>(case: TestCase<F>) -> Seq<char> {
    trial_name_spec(case) + ": "@ + kind_word_spec(case.kind)
}

/// Whether a listing in `mode` shows the case.
pub open spec fn listed<F>(case: TestCase<F>, mode: ListMode) -> bool {
    match mode {
        ListMode::Default => case.ignore is None,
        ListMode::IgnoredOnly => case.ignore is Some,
    }
}

/// Lexicographic order of character sequences, by code point.
pub open spec fn seq_lt(a: Seq<char>, b: Seq<char>) -> bool
    decreases a.len(),
{
    if a.len() == 0 {
        b.len() > 0
    } else if b.len() == 0 {
        false
    } else if a[0] != b[0] {
        (a[0] as u32) < (b[0] as u32)
    } else {
        seq_lt(a.drop_first(), b.drop_first())
    }
}

/// `a` comes before `b` or equals it.
pub open spec fn seq_le(a: Seq<char>, b: Seq<char>) -> bool {
    a == b || seq_lt(a, b)
}

/// Case `x` sorts no later than case `y`: by module path, then by name.
pub open spec fn key_le<F>(x: TestCase<F>, y: TestCase<F>) -> bool {
    seq_lt(x.module@, y.module@) || (x.module@ == y.module@ && seq_le(x.name@, y.name@))
}

/// `order` lists, without repetition and sorted by module path and name, the
/// indices of exactly the cases that a listing in `mode` shows.
pub open spec fn is_listing_order<F>(cases: Seq<TestCase<F>>, mode: ListMode, order: Seq<usize>) -> bool {
    &&& forall|k: int| 0 <= k < order.len() ==> order[k] < cases.len() && listed(cases[order[k] as int], mode)
    &&& forall|j: int| 0 <= j < cases.len() && listed(cases[j], mode) ==> order.contains(j as usize)
    &&& forall|a: int, b: int| 0 <= a < b < order.len() ==> order[a] != order[b]
    &&& forall|a: int, b: int|
        0 <= a < b < order.len() ==> key_le(cases[order[a] as int], cases[order[b] as int])
}

proof fn lemma_seq_lt_irreflexive(a: Seq<char>)
    ensures
        !seq_lt(a, a),
    decreases a.len(),
{
    if a.len() > 0 {
        lemma_seq_lt_irreflexive(a.drop_first());
    }
}

proof fn lemma_seq_lt_total(a: Seq<char>, b: Seq<char>)
    ensures
        a == b || seq_lt(a, b) || seq_lt(b, a),
        !(seq_lt(a, b) && seq_lt(b, a)),
    decreases a.len(),
{
    if a.len() > 0 && b.len() > 0 {
        lemma_seq_lt_total(a.drop_first(), b.drop_first());
        if a[0] == b[0] && a.drop_first() == b.drop_first() {
            assert(a =~= seq![a[0]] + a.drop_first());
            assert(b =~= seq![b[0]] + b.drop_first());
        }
        if a[0] != b[0] && (a[0] as u32) == (b[0] as u32) {
            char_u32_cast(a[0], a[0] as u32);
            char_u32_cast(b[0], b[0] as u32);
        }
    } else if a.len() == 0 && b.len() == 0 {
        assert(a =~= b);
    }
}

proof fn lemma_seq_lt_transitive(a: Seq<char>, b: Seq<char>, c: Seq<char>)
    requires
        seq_lt(a, b),
        seq_lt(b, c),
    ensures
        seq_lt(a, c),
    decreases a.len(),
{
    if a.len() > 0 && b.len() > 0 && c.len() > 0 {
        if a[0] == b[0] && b[0] == c[0] {
            lemma_seq_lt_transitive(a.drop_first(), b.drop_first(), c.drop_first());
        }
    }
}

proof fn lemma_key_le_total<F>(x: TestCase<F>, y: TestCase<F>)
    ensures
        key_le(x, y) || key_le(y, x),
{
    lemma_seq_lt_total(x.module@, y.module@);
    lemma_seq_lt_total(x.name@, y.name@);
}

proof fn lemma_key_le_transitive<F>(x: TestCase<F>, y: TestCase<F>, z: TestCase<F>)
    requires
        key_le(x, y),
        key_le(y, z),
    ensures
        key_le(x, z),
{
    if seq_lt(x.module@, y.module@) && seq_lt(y.module@, z.module@) {
        lemma_seq_lt_transitive(x.module@, y.module@, z.module@);
    }
    if seq_lt(x.name@, y.name@) && seq_lt(y.name@, z.name@) {
        lemma_seq_lt_transitive(x.name@, y.name@, z.name@);
    }
}

/// The word a listing line gives for `kind`.
pub fn kind_word(kind: TestKind) -> (r: &'static str)
    ensures
        r@ == kind_word_spec(kind),
{
    match kind {
        TestKind::Unit => "test",
        TestKind::Benchmark => "benchmark",
    }
}

/// The identity of a case, `<module path>::<name>`, used for filtering and
/// selection.
pub fn trial_name<F>(case: &TestCase<F>) -> (r: String)
    ensures
        r@ == trial_name_spec(*case),
{
    let mut r = owned(case.module);
    r.append("::");
    r.append(case.name);
    r
}

/// The human-readable name of a case, decorated with its ignore reason.
pub fn display_name<F>(case: &TestCase<F>) -> (r: String)
    ensures
        r@ == display_name_spec(*case),
{
    let mut r = trial_name(case);
    match case.ignore {
        Some(Ignore { reason: Some(reason) }) => {
            r.append(" (ignored: ");
            r.append(reason);
            r.append(")");
        },
        _ => {},
    }
    r
}

/// The listing line of a case.
pub fn list_line<F>(case: &TestCase<F>) -> (r: String)
    ensures
        r@ == list_line_spec(*case),
{
    let mut r = trial_name(case);
    r.append(": ");
    r.append(kind_word(case.kind));
    r
}

/// Whether a listing in `mode` shows `case`.
pub fn is_listed<F>(case: &TestCase<F>, mode: ListMode) -> (r: bool)
    ensures
        r == listed(*case, mode),
{
    match mode {
        ListMode::Default => case.ignore.is_none(),
        ListMode::IgnoredOnly => case.ignore.is_some(),
    }
}

/// Whether `a` comes strictly before `b`.
fn chars_less(a: &Vec<char>, b: &Vec<char>) -> (r: bool)
    ensures
        r == seq_lt(a@, b@),
{
    let mut i: usize = 0;
    assert(a@.skip(0) =~= a@ && b@.skip(0) =~= b@);
    while i < a.len() && i < b.len()
        invariant
            i <= a@.len(),
            i <= b@.len(),
            seq_lt(a@, b@) == seq_lt(a@.skip(i as int), b@.skip(i as int)),
        decreases a@.len() - i,
    {
        if a[i] != b[i] {
            assert(a@.skip(i as int)[0] == a@[i as int]);
            assert(b@.skip(i as int)[0] == b@[i as int]);
            return (a[i] as u32) < (b[i] as u32);
        }
        assert(a@.skip(i as int).drop_first() =~= a@.skip(i + 1));
        assert(b@.skip(i as int).drop_first() =~= b@.skip(i + 1));
        i += 1;
    }
    a.len() == i && b.len() > i
}

/// Whether the case with keys `(ma, na)` sorts no later than the one with
/// keys `(mb, nb)`.
fn keys_le(ma: &Vec<char>, na: &Vec<char>, mb: &Vec<char>, nb: &Vec<char>) -> (r: bool)
    ensures
        r == (seq_lt(ma@, mb@) || (ma@ == mb@ && seq_le(na@, nb@))),
{
    if chars_less(ma, mb) {
        return true;
    }
    if chars_less(mb, ma) {
        proof {
            lemma_seq_lt_irreflexive(ma@);
        }
        return false;
    }
    proof {
        lemma_seq_lt_total(ma@, mb@);
        lemma_seq_lt_total(na@, nb@);
    }
    !chars_less(nb, na)
}

/// The indices of the cases that a listing in `mode` shows, sorted by module
/// path and name.
pub fn listing_order<F>(cases: &[TestCase<F>], mode: ListMode) -> (r: Vec<usize>)
    ensures
        is_listing_order(cases@, mode, r@),
{
    let ghost cs = cases@;
    let mut mods: Vec<Vec<char>> = Vec::new();
    let mut names: Vec<Vec<char>> = Vec::new();
    let mut i: usize = 0;
    while i < cases.len()
        invariant
            i <= cs.len(),
            cs == cases@,
            mods@.len() == i,
            names@.len() == i,
            forall|j: int| 0 <= j < i ==> mods@[j]@ == cs[j].module@ && names@[j]@ == cs[j].name@,
        decreases cs.len() - i,
    {
        mods.push(chars_of(cases[i].module));
        names.push(chars_of(cases[i].name));
        i += 1;
    }
    let mut order: Vec<usize> = Vec::new();
    let mut i: usize = 0;
    while i < cases.len()
        invariant
            i <= cs.len(),
            cs == cases@,
            mods@.len() == cs.len(),
            names@.len() == cs.len(),
            forall|j: int|
                0 <= j < cs.len() ==> mods@[j]@ == cs[j].module@ && names@[j]@ == cs[j].name@,
            forall|k: int| 0 <= k < order@.len() ==> order@[k] < i && listed(cs[order@[k] as int], mode),
            forall|j: int| 0 <= j < i && listed(cs[j], mode) ==> order@.contains(j as usize),
            forall|a: int, b: int| 0 <= a < b < order@.len() ==> order@[a] != order@[b],
            forall|a: int, b: int|
                0 <= a < b < order@.len() ==> key_le(cs[order@[a] as int], cs[order@[b] as int]),
        decreases cs.len() - i,
    {
        if is_listed(&cases[i], mode) {
            // the first position whose case sorts strictly after case i
            let mut p: usize = 0;
            while p < order.len() && keys_le(&mods[order[p]], &names[order[p]], &mods[i], &names[i])
                invariant
                    p <= order@.len(),
                    i < cs.len(),
                    mods@.len() == cs.len(),
                    names@.len() == cs.len(),
                    forall|k: int| 0 <= k < order@.len() ==> order@[k] < i,
                    forall|j: int|
                        0 <= j < cs.len() ==> mods@[j]@ == cs[j].module@ && names@[j]@ == cs[j].name@,
                    forall|k: int| 0 <= k < p ==> key_le(cs[order@[k] as int], cs[i as int]),
                decreases order@.len() - p,
            {
                p += 1;
            }
            let ghost old_order = order@;
            proof {
                if p < order@.len() {
                    lemma_key_le_total(cs[order@[p as int] as int], cs[i as int]);
                    assert forall|q: int| p <= q < old_order.len() implies key_le(
                        cs[i as int],
                        cs[old_order[q] as int],
                    ) by {
                        if q > p {
                            lemma_key_le_transitive(
                                cs[i as int],
                                cs[old_order[p as int] as int],
                                cs[old_order[q] as int],
                            );
                        }
                    }
                }
            }
            order.insert(p, i);
            assert forall|j: int| 0 <= j < i + 1 && listed(cs[j], mode) implies order@.contains(
                j as usize,
            ) by {
                if j == i {
                    assert(order@[p as int] == i);
                } else {
                    let k = choose|k: int| 0 <= k < old_order.len() && old_order[k] == j as usize;
                    if k < p {
                        assert(order@[k] == j as usize);
                    } else {
                        assert(order@[k + 1] == j as usize);
                    }
                }
            }
        }
        i += 1;
    }
    order
}

/// The listing of `cases` in `mode`: one line per shown case, sorted by module
/// path and name.
pub fn list_cases<F>(cases: &[TestCase<F>], mode: ListMode) -> (r: Vec<String>)
    ensures
        exists|order: Seq<usize>|
            is_listing_order(cases@, mode, order) && r@.len() == order.len() && forall|k: int|
                0 <= k < order.len() ==> #[trigger] r@[k]@ == list_line_spec(cases@[order[k] as int]),
{
    let order = listing_order(cases, mode);
    let mut lines: Vec<String> = Vec::new();
    let mut k: usize = 0;
    while k < order.len()
        invariant
            k <= order@.len(),
            is_listing_order(cases@, mode, order@),
            lines@.len() == k,
            forall|j: int| 0 <= j < k ==> #[trigger] lines@[j]@ == list_line_spec(cases@[order@[j] as int]),
        decreases order@.len() - k,
    {
        lines.push(list_line(&cases[order[k]]));
        k += 1;
    }
    lines
}

/// A listing in default mode shows no case that carries an ignore marker, and
/// shows every case without one; a listing in ignored-only mode shows exactly
/// the cases that carry one.
pub proof fn listing_respects_ignore_markers<F>(
    cases: Seq<TestCase<F>>,
    mode: ListMode,
    order: Seq<usize>,
)
    requires
        is_listing_order(cases, mode, order),
    ensures
        forall|k: int|
            0 <= k < order.len() ==> (mode == ListMode::Default ==> cases[order[k] as int].ignore is None)
                && (mode == ListMode::IgnoredOnly ==> cases[order[k] as int].ignore is Some),
        forall|j: int|
            0 <= j < cases.len() ==> (mode == ListMode::Default && cases[j].ignore is None
                ==> order.contains(j as usize)) && (mode == ListMode::IgnoredOnly
                && cases[j].ignore is Some ==> order.contains(j as usize)),
{
}

} // verus!
