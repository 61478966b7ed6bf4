//! Crate-scoped discovery over the registry of cases.

use vstd::prelude::*;

use crate::case::TestCase;
use crate::text::{chars_of, has_prefix, starts_with};

verus! {

/// Whether the path separator `::` starts at position `i` of `s`.
pub open spec fn separator_at(s: Seq<char>, i: int) -> bool {
    0 <= i && i + 1 < s.len() && s[i] == ':' && s[i + 1] == ':'
}

/// The position of the first separator of `s` at or after `i`, or the length
/// of `s` when there is none.
pub open spec fn first_separator_from(s: Seq<char>, i: int) -> int
    decreases s.len() - i,
{
    if i < 0 || i + 1 >= s.len() {
        s.len() as int
    } else if separator_at(s, i) {
        i
    } else {
        first_separator_from(s, i + 1)
    }
}

/// The crate name of a module path: everything before its first separator,
/// the whole path when it has none.
pub open spec fn crate_name_of(path: Seq<char>) -> Seq<char> {
    path.subrange(0, first_separator_from(path, 0))
}

/// A case belongs to the crate named by `prefix` when its module path starts
/// with that crate name (a plain prefix test, not a match of whole segments).
pub open spec fn belongs_to<F>(case: TestCase<F>, prefix: Seq<char>) -> bool {
    has_prefix(case.module@, crate_name_of(prefix))
}

/// The registered cases that discovery yields for `prefix`, in registry order.
pub open spec fn discovered<F>(registry: Seq<TestCase<F>>, prefix: Seq<char>) -> Seq<TestCase<F>> {
    registry.filter(|c: TestCase<F>| belongs_to(c, prefix))
}

/// The crate name of a module path: the part before the first `::`.
pub fn extract_crate_name(path: &str) -> (r: &str)
    ensures
        r@ == crate_name_of(path@),
{
    let cs = chars_of(path);
    let n = cs.len();
    let mut i: usize = 0;
    while n > 1 && i < n - 1
        invariant
            cs@ == path@,
            n == cs@.len(),
            i <= n,
            first_separator_from(path@, 0) == first_separator_from(path@, i as int),
        decreases n - i,
    {
        if cs[i] == ':' && cs[i + 1] == ':' {
            return path.substring_char(0, i);
        }
        i += 1;
    }
    assert(path@.subrange(0, n as int) =~= path@);
    path
}

/// The cases of `registry` that belong to the crate named by `crate_prefix`,
/// in registry order.
pub fn get_tests_for_crate<F: Copy>(registry: &[TestCase<F>], crate_prefix: &str) -> (r: Vec<
    TestCase<F>,
>)
    ensures
        r@ == discovered(registry@, crate_prefix@),
{
    let crate_name = extract_crate_name(crate_prefix);
    let mut r: Vec<TestCase<F>> = Vec::new();
    let mut i: usize = 0;
    while i < registry.len()
        invariant
            i <= registry@.len(),
            crate_name@ == crate_name_of(crate_prefix@),
            r@ == discovered(registry@.subrange(0, i as int), crate_prefix@),
        decreases registry@.len() - i,
    {
        let case = registry[i];
        let keep = starts_with(case.module, crate_name);
        proof {
            reveal(Seq::filter);
            assert(registry@.subrange(0, i + 1).drop_last() =~= registry@.subrange(0, i as int));
        }
        if keep {
            r.push(case);
        }
        i += 1;
    }
    assert(registry@.subrange(0, registry@.len() as int) =~= registry@);
    r
}

/// Discovery under `c::rest`, for a crate name `c` without `:`, keeps exactly
/// the cases whose module path starts with `c`.
pub proof fn discovery_scoped_to_crate_name<F>(
    registry: Seq<TestCase<F>>,
    c: Seq<char>,
    rest: Seq<char>,
)
    requires
        forall|i: int| 0 <= i < c.len() ==> c[i] != ':',
    ensures
        crate_name_of(c + seq![':', ':'] + rest) == c,
        discovered(registry, c + seq![':', ':'] + rest) == registry.filter(
            |x: TestCase<F>| has_prefix(x.module@, c),
        ),
{
    let s = c + seq![':', ':'] + rest;
    assert(s.subrange(0, c.len() as int) =~= c);
    assert(s[c.len() as int] == ':' && s[c.len() as int + 1] == ':');
    lemma_separator_after_name(s, c, 0);
    assert(discovered(registry, s) =~= registry.filter(|x: TestCase<F>| has_prefix(x.module@, c)))
        by {
        assert((|x: TestCase<F>| belongs_to(x, s)) =~= (|x: TestCase<F>| has_prefix(x.module@, c)));
    }
}

proof fn lemma_separator_after_name(s: Seq<char>, c: Seq<char>, i: int)
    requires
        0 <= i <= c.len(),
        c.len() + 2 <= s.len(),
        s.subrange(0, c.len() as int) == c,
        s[c.len() as int] == ':',
        s[c.len() as int + 1] == ':',
        forall|j: int| 0 <= j < c.len() ==> c[j] != ':',
    ensures
        first_separator_from(s, i) == c.len(),
    decreases c.len() - i,
{
    if i < c.len() {
        assert(s[i] == s.subrange(0, c.len() as int)[i]);
        lemma_separator_after_name(s, c, i + 1);
    }
}

} // verus!
