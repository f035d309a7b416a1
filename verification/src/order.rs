//! Alphabetical order of names: lexicographic order of their characters,
//! which is the order of `String` (byte order of UTF-8 agrees with the order
//! of code points), and an insertion sort that produces it.
use vstd::prelude::*;
use vstd::string::*;

verus! {

broadcast use vstd::seq_lib::group_seq_properties;

/// `a` comes no later than `b`: at the first position where they differ `a`
/// has the smaller character, or `a` is a prefix of `b`.
pub open spec fn chars_le(a: Seq<char>, b: Seq<char>) -> bool
    decreases a.len(),
{
    if a.len() == 0 {
        true
    } else if b.len() == 0 {
        false
    } else if a[0] != b[0] {
        (a[0] as int) < (b[0] as int)
    } else {
        chars_le(a.drop_first(), b.drop_first())
    }
}

/// The names are in alphabetical order.
pub open spec fn sorted_by_chars(names: Seq<String>) -> bool {
    forall|i: int, j: int| 0 <= i <= j < names.len() ==> chars_le(names[i]@, names[j]@)
}

/// Any two names are comparable.
pub proof fn law_chars_le_total(a: Seq<char>, b: Seq<char>)
    ensures
        chars_le(a, b) || chars_le(b, a),
    decreases a.len(),
{
    if a.len() > 0 && b.len() > 0 && a[0] == b[0] {
        law_chars_le_total(a.drop_first(), b.drop_first());
    }
}

/// The order is transitive.
pub proof fn law_chars_le_transitive(a: Seq<char>, b: Seq<char>, c: Seq<char>)
    requires
        chars_le(a, b),
        chars_le(b, c),
    ensures
        chars_le(a, c),
    decreases a.len(),
{
    if a.len() > 0 && b.len() > 0 && c.len() > 0 && a[0] == b[0] && b[0] == c[0] {
        law_chars_le_transitive(a.drop_first(), b.drop_first(), c.drop_first());
    }
}

/// Names that are each no later than the other are equal.
pub proof fn law_chars_le_antisymmetric(a: Seq<char>, b: Seq<char>)
    requires
        chars_le(a, b),
        chars_le(b, a),
    ensures
        a == b,
    decreases a.len(),
{
    if a.len() > 0 && b.len() > 0 {
        law_chars_le_antisymmetric(a.drop_first(), b.drop_first());
        assert(a =~= seq![a[0]] + a.drop_first());
        assert(b =~= seq![b[0]] + b.drop_first());
    }
}

/// The characters of `s`, one by one.
pub fn chars_of(s: &str) -> (chars: Vec<char>)
    ensures
        chars@ == s@,
{
    let n = s.unicode_len();
    let mut chars: Vec<char> = Vec::new();
    let mut i: usize = 0;
    while i < n
        invariant
            n == s@.len(),
            i <= n,
            chars@ == s@.take(i as int),
        decreases n - i,
    {
        let c = s.get_char(i);
        chars.push(c);
        i = i + 1;
        assert(chars@ =~= s@.take(i as int));
    }
    assert(chars@ =~= s@);
    chars
}

proof fn lemma_chars_le_skip(a: Seq<char>, b: Seq<char>, i: int)
    requires
        0 <= i < a.len(),
        i < b.len(),
        a[i] == b[i],
    ensures
        chars_le(a.skip(i), b.skip(i)) == chars_le(a.skip(i + 1), b.skip(i + 1)),
{
    assert(a.skip(i).drop_first() =~= a.skip(i + 1));
    assert(b.skip(i).drop_first() =~= b.skip(i + 1));
}

/// Compares two character sequences in alphabetical order.
pub fn chars_le_exec(a: &Vec<char>, b: &Vec<char>) -> (le: bool)
    ensures
        le == chars_le(a@, b@),
{
    let mut i: usize = 0;
    assert(a@.skip(0) =~= a@ && b@.skip(0) =~= b@);
    while i < a.len() && i < b.len()
        invariant
            i <= a.len(),
            i <= b.len(),
            chars_le(a@, b@) == chars_le(a@.skip(i as int), b@.skip(i as int)),
        decreases a.len() - i,
    {
        if a[i] != b[i] {
            assert(a@.skip(i as int)[0] == a@[i as int]);
            assert(b@.skip(i as int)[0] == b@[i as int]);
            return a[i] < b[i];
        }
        proof {
            lemma_chars_le_skip(a@, b@, i as int);
        }
        i = i + 1;
    }
    a.len() <= b.len()
}

/// Puts `names` in alphabetical order: the result is sorted and holds the
/// same names, each as often as before.
pub fn sort_by_chars(names: &Vec<String>) -> (sorted: Vec<String>)
    ensures
        sorted_by_chars(sorted@),
        sorted@.to_multiset() == names@.to_multiset(),
{
    let mut out: Vec<String> = Vec::new();
    let mut keys: Vec<Vec<char>> = Vec::new();
    let n = names.len();
    let mut i: usize = 0;
    while i < n
        invariant
            n == names.len(),
            i <= n,
            out.len() == keys.len(),
            forall|j: int| 0 <= j < keys.len() ==> #[trigger] keys@[j]@ == out@[j]@,
            sorted_by_chars(out@),
            out@.to_multiset() == names@.take(i as int).to_multiset(),
        decreases n - i,
    {
        let name = names[i].clone();
        let key = chars_of(name.as_str());
        let mut p: usize = 0;
        while p < out.len()
            invariant
                p <= out.len(),
                out.len() == keys.len(),
                key@ == name@,
                forall|j: int| 0 <= j < keys.len() ==> #[trigger] keys@[j]@ == out@[j]@,
                forall|j: int| 0 <= j < p ==> chars_le(#[trigger] out@[j]@, name@),
            ensures
                p <= out.len(),
                forall|j: int| 0 <= j < p ==> chars_le(#[trigger] out@[j]@, name@),
                p < out.len() ==> !chars_le(out@[p as int]@, name@),
            decreases out.len() - p,
        {
            if !chars_le_exec(&keys[p], &key) {
                break;
            }
            p = p + 1;
        }
        let ghost before = out@;
        proof {
            if p < before.len() {
                law_chars_le_total(before[p as int]@, name@);
            }
            assert forall|j: int| p <= j < before.len() implies chars_le(
                name@,
                #[trigger] before[j]@,
            ) by {
                law_chars_le_total(before[p as int]@, name@);
                law_chars_le_transitive(name@, before[p as int]@, before[j]@);
            }
        }
        out.insert(p, name);
        keys.insert(p, key);
        proof {
            let after = out@;
            assert(after == before.insert(p as int, names@[i as int]));
            assert forall|a: int, b: int| 0 <= a <= b < after.len() implies chars_le(
                after[a]@,
                after[b]@,
            ) by {
                if a < p && b > p {
                    law_chars_le_transitive(after[a]@, after[p as int]@, after[b]@);
                }
                if a == b {
                    law_chars_le_total(after[a]@, after[a]@);
                }
            }
            assert(names@.take(i + 1) =~= names@.take(i as int).push(names@[i as int]));
            vstd::seq_lib::to_multiset_insert(before, p as int, names@[i as int]);
            vstd::seq_lib::to_multiset_build(names@.take(i as int), names@[i as int]);
        }
        i = i + 1;
    }
    assert(names@.take(n as int) =~= names@);
    out
}

/// The order is the order of code points at the first difference: when `a`
/// and `b` agree on their first `k` characters and `a[k]` is a smaller code
/// point than `b[k]`, `a` comes before `b` and not the other way round.
pub proof fn law_chars_le_code_point_order(a: Seq<char>, b: Seq<char>, k: int)
    requires
        0 <= k < a.len(),
        k < b.len(),
        a.take(k) == b.take(k),
        (a[k] as int) < (b[k] as int),
    ensures
        chars_le(a, b),
        !chars_le(b, a),
    decreases k,
{
    if k > 0 {
        assert(a[0] == a.take(k)[0] && b[0] == b.take(k)[0]);
        assert(a.drop_first().take(k - 1) =~= a.take(k).drop_first());
        assert(b.drop_first().take(k - 1) =~= b.take(k).drop_first());
        law_chars_le_code_point_order(a.drop_first(), b.drop_first(), k - 1);
    }
}

/// A name comes no later than every name it is a prefix of.
pub proof fn law_chars_le_prefix(a: Seq<char>, b: Seq<char>)
    requires
        a.len() <= b.len(),
        b.take(a.len() as int) == a,
    ensures
        chars_le(a, b),
    decreases a.len(),
{
    if a.len() > 0 {
        assert(a[0] == b.take(a.len() as int)[0]);
        assert(b.drop_first().take(a.len() - 1) =~= a.drop_first());
        law_chars_le_prefix(a.drop_first(), b.drop_first());
    }
}

/// In a sorted list, at the first position where two names differ the
/// earlier name has the smaller code point, as `Vec<String>::sort` orders.
pub proof fn law_sorted_names_in_code_point_order(names: Seq<String>, i: int, j: int, k: int)
    requires
        sorted_by_chars(names),
        0 <= i < j < names.len(),
        0 <= k < names[i]@.len(),
        k < names[j]@.len(),
        names[i]@.take(k) == names[j]@.take(k),
        names[i]@[k] != names[j]@[k],
    ensures
        (names[i]@[k] as int) < (names[j]@[k] as int),
{
    let a = names[i]@;
    let b = names[j]@;
    assert(chars_le(a, b));
    if (b[k] as int) < (a[k] as int) {
        law_chars_le_code_point_order(b, a, k);
    }
}

} // verus!
