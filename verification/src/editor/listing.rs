use vstd::prelude::*;
use vstd::string::*;
use vstd::utf8::encode_utf8;

verus! {

/// `a` comes no later than `b` when byte strings are ordered lexicographically,
/// the order in which `str` values compare.
pub open spec fn bytes_le(a: Seq<u8>, b: Seq<u8>) -> bool
    decreases a.len(),
{
    if a.len() == 0 {
        true
    } else if b.len() == 0 {
        false
    } else if a[0] != b[0] {
        a[0] < b[0]
    } else {
        bytes_le(a.drop_first(), b.drop_first())
    }
}

/// The UTF-8 bytes of a name.
pub open spec fn name_bytes(name: Seq<char>) -> Seq<u8> {
    encode_utf8(name)
}

/// Name `i` of `names` comes no later than name `j`.
pub open spec fn name_le(names: Seq<String>, i: int, j: int) -> bool {
    bytes_le(name_bytes(names[i]@), name_bytes(names[j]@))
}

/// `order` lists every index of `names` exactly once.
pub open spec fn is_index_permutation(order: Seq<usize>, n: nat) -> bool {
    &&& order.len() == n
    &&& order.no_duplicates()
    &&& forall|i: int| 0 <= i < order.len() ==> #[trigger] order[i] < n
}

/// Going along `order`, the names never decrease, and names that compare equal
/// keep the order of their indices.
pub open spec fn sorted_stably(names: Seq<String>, order: Seq<usize>) -> bool {
    forall|a: int, b: int|
        0 <= a < b < order.len() ==> {
            &&& name_le(names, #[trigger] order[a] as int, #[trigger] order[b] as int)
            &&& (name_le(names, order[b] as int, order[a] as int) ==> order[a] < order[b])
        }
}

/// `a` and `b` hold the same bytes at every position below `i`.
pub open spec fn agree_below(a: Seq<u8>, b: Seq<u8>, i: int) -> bool {
    forall|k: int| 0 <= k < i ==> #[trigger] a[k] == b[k]
}

/// Byte strings are ordered lexicographically: `a` comes no later than `b`
/// exactly when `a` is a prefix of `b`, or at the first position where they
/// differ the byte of `a` is the smaller one.
pub proof fn lemma_bytes_le_is_lexicographic(a: Seq<u8>, b: Seq<u8>)
    ensures
        bytes_le(a, b) <==> ((a.len() <= b.len() && agree_below(a, b, a.len() as int)) || exists|
            i: int,
        |
            0 <= i < a.len() && i < b.len() && agree_below(a, b, i) && #[trigger] a[i] < b[i]),
    decreases a.len(),
{
    let rhs = (a.len() <= b.len() && agree_below(a, b, a.len() as int)) || exists|i: int|
        0 <= i < a.len() && i < b.len() && agree_below(a, b, i) && #[trigger] a[i] < b[i];
    if a.len() == 0 {
    } else if b.len() == 0 {
        assert(!rhs);
    } else if a[0] != b[0] {
        if a[0] < b[0] {
            assert(agree_below(a, b, 0));
            assert(0 < a.len() && 0 < b.len() && agree_below(a, b, 0) && a[0] < b[0]);
        } else {
            assert(!agree_below(a, b, a.len() as int));
            assert forall|i: int| 0 <= i < a.len() && i < b.len() && agree_below(a, b, i) implies !(
            #[trigger] a[i] < b[i]) by {
                if i > 0 {
                    assert(a[0] == b[0]);
                }
            }
        }
    } else {
        let a1 = a.drop_first();
        let b1 = b.drop_first();
        lemma_bytes_le_is_lexicographic(a1, b1);
        // positions shift by one; position 0 agrees
        assert forall|i: int| 0 <= i <= a1.len() && i <= b1.len() implies agree_below(a1, b1, i) == agree_below(
            a,
            b,
            i + 1,
        ) by {
            if agree_below(a1, b1, i) {
                assert forall|k: int| 0 <= k < i + 1 implies #[trigger] a[k] == b[k] by {
                    if k > 0 {
                        assert(a1[k - 1] == b1[k - 1]);
                    }
                }
            }
            if agree_below(a, b, i + 1) {
                assert forall|k: int| 0 <= k < i implies #[trigger] a1[k] == b1[k] by {
                    assert(a[k + 1] == b[k + 1]);
                }
            }
        }
        assert((a1.len() <= b1.len() && agree_below(a1, b1, a1.len() as int)) == (a.len() <= b.len()
            && agree_below(a, b, a.len() as int)));
        if exists|i: int|
            0 <= i < a1.len() && i < b1.len() && agree_below(a1, b1, i) && #[trigger] a1[i] < b1[i] {
            let i = choose|i: int|
                0 <= i < a1.len() && i < b1.len() && agree_below(a1, b1, i) && #[trigger] a1[i]
                    < b1[i];
            assert(a[i + 1] < b[i + 1]);
            assert(agree_below(a, b, i + 1));
        }
        if exists|i: int|
            0 <= i < a.len() && i < b.len() && agree_below(a, b, i) && #[trigger] a[i] < b[i] {
            let i = choose|i: int|
                0 <= i < a.len() && i < b.len() && agree_below(a, b, i) && #[trigger] a[i] < b[i];
            assert(i > 0);
            assert(agree_below(a1, b1, i - 1));
            assert(a1[i - 1] < b1[i - 1]);
        }
    }
}

/// Strings that differ in their first byte are ordered by that byte.
pub proof fn lemma_bytes_le_first_byte(a: Seq<u8>, b: Seq<u8>)
    requires
        a.len() > 0,
        b.len() > 0,
        a[0] != b[0],
    ensures
        bytes_le(a, b) == (a[0] < b[0]),
{
    lemma_bytes_le_is_lexicographic(a, b);
    if a[0] < b[0] {
        assert(agree_below(a, b, 0));
    } else {
        assert(!agree_below(a, b, a.len() as int));
        if exists|i: int|
            0 <= i < a.len() && i < b.len() && agree_below(a, b, i) && #[trigger] a[i] < b[i] {
            let i = choose|i: int|
                0 <= i < a.len() && i < b.len() && agree_below(a, b, i) && #[trigger] a[i] < b[i];
            if i > 0 {
                assert(a[0] == b[0]);
            }
        }
    }
}

pub proof fn lemma_bytes_le_total(a: Seq<u8>, b: Seq<u8>)
    ensures
        bytes_le(a, b) || bytes_le(b, a),
    decreases a.len(),
{
    if a.len() > 0 && b.len() > 0 && a[0] == b[0] {
        lemma_bytes_le_total(a.drop_first(), b.drop_first());
    }
}

pub proof fn lemma_bytes_le_transitive(a: Seq<u8>, b: Seq<u8>, c: Seq<u8>)
    requires
        bytes_le(a, b),
        bytes_le(b, c),
    ensures
        bytes_le(a, c),
    decreases a.len(),
{
    if a.len() > 0 && b.len() > 0 && c.len() > 0 && a[0] == b[0] && b[0] == c[0] {
        lemma_bytes_le_transitive(a.drop_first(), b.drop_first(), c.drop_first());
    }
}

/// Compares two strings byte by byte, as `str`'s `<=` does.
pub fn str_le(a: &str, b: &str) -> (r: bool)
    ensures
        r == bytes_le(name_bytes(a@), name_bytes(b@)),
{
    let x = a.as_bytes();
    let y = b.as_bytes();
    let mut i: usize = 0;
    assert(x@.skip(0) =~= x@ && y@.skip(0) =~= y@);
    while i < x.len() && i < y.len() && x[i] == y[i]
        invariant
            x@ == name_bytes(a@),
            y@ == name_bytes(b@),
            i <= x.len(),
            i <= y.len(),
            forall|k: int| 0 <= k < i ==> x@[k] == y@[k],
            bytes_le(x@, y@) == bytes_le(x@.skip(i as int), y@.skip(i as int)),
        decreases x.len() - i,
    {
        assert(x@.skip(i as int).drop_first() =~= x@.skip(i + 1));
        assert(y@.skip(i as int).drop_first() =~= y@.skip(i + 1));
        i += 1;
    }
    if i == x.len() {
        true
    } else if i == y.len() {
        false
    } else {
        x[i] < y[i]
    }
}

/// The order in which the inspector lists resources or assets: the indices of
/// `names`, sorted by name; names that compare equal keep their order.
pub fn sorted_by_name(names: &Vec<String>) -> (order: Vec<usize>)
    ensures
        is_index_permutation(order@, names.len() as nat),
        sorted_stably(names@, order@),
{
    let mut order: Vec<usize> = Vec::new();
    let n: usize = names.len();
    let mut k: usize = 0;
    while k < n
        invariant
            n == names.len(),
            k <= n,
            is_index_permutation(order@, k as nat),
            sorted_stably(names@, order@),
        decreases n - k,
    {
        // find the first position whose name comes strictly after name k
        let mut p: usize = 0;
        while p < order.len() && str_le(names[order[p]].as_str(), names[k].as_str())
            invariant
                n == names.len(),
                k < n,
                p <= order.len(),
                is_index_permutation(order@, k as nat),
                sorted_stably(names@, order@),
                forall|a: int| 0 <= a < p ==> name_le(names@, #[trigger] order@[a] as int, k as int),
            decreases order.len() - p,
        {
            p += 1;
        }
        let ghost old_order = order@;
        proof {
            if p < old_order.len() {
                assert(!name_le(names@, old_order[p as int] as int, k as int));
                lemma_bytes_le_total(
                    name_bytes(names@[old_order[p as int] as int]@),
                    name_bytes(names@[k as int]@),
                );
            }
        }
        order.insert(p, k);
        proof {
            let o = order@;
            assert(o =~= old_order.subrange(0, p as int).push(k as usize) + old_order.subrange(
                p as int,
                old_order.len() as int,
            ));
            assert forall|a: int| 0 <= a < o.len() implies #[trigger] o[a] < k + 1 by {
                if a < p {
                    assert(o[a] == old_order[a]);
                } else if a > p {
                    assert(o[a] == old_order[a - 1]);
                }
            }
            assert forall|a: int, b: int| 0 <= a < o.len() && 0 <= b < o.len() && a != b implies o[a]
                != o[b] by {
                if a != p && b != p {
                    let a2 = if a < p { a } else { a - 1 };
                    let b2 = if b < p { b } else { b - 1 };
                    assert(o[a] == old_order[a2] && o[b] == old_order[b2]);
                } else if a == p {
                    let b2 = if b < p { b } else { b - 1 };
                    assert(o[b] == old_order[b2]);
                } else {
                    let a2 = if a < p { a } else { a - 1 };
                    assert(o[a] == old_order[a2]);
                }
            }
            assert forall|a: int, b: int| 0 <= a < b < o.len() implies {
                &&& name_le(names@, #[trigger] o[a] as int, #[trigger] o[b] as int)
                &&& (name_le(names@, o[b] as int, o[a] as int) ==> o[a] < o[b])
            } by {
                if b < p {
                    assert(o[a] == old_order[a] && o[b] == old_order[b]);
                } else if a > p {
                    assert(o[a] == old_order[a - 1] && o[b] == old_order[b - 1]);
                } else if a == p {
                    // k against a later element, which comes strictly after name k
                    assert(o[b] == old_order[b - 1]);
                    let first: usize = old_order[p as int];
                    assert(!name_le(names@, first as int, k as int));
                    if b - 1 > p {
                        assert(name_le(names@, first as int, old_order[b - 1] as int));
                        lemma_bytes_le_transitive(
                            name_bytes(names@[k as int]@),
                            name_bytes(names@[first as int]@),
                            name_bytes(names@[old_order[b - 1] as int]@),
                        );
                    }
                    if name_le(names@, o[b] as int, k as int) {
                        if b - 1 > p {
                            lemma_bytes_le_transitive(
                                name_bytes(names@[first as int]@),
                                name_bytes(names@[old_order[b - 1] as int]@),
                                name_bytes(names@[k as int]@),
                            );
                        }
                        assert(false);
                    }
                } else if b == p {
                    assert(o[a] == old_order[a]);
                    assert(name_le(names@, old_order[a] as int, k as int));
                    assert(old_order[a] < k);
                } else {
                    // a < p < b
                    assert(o[a] == old_order[a] && o[b] == old_order[b - 1]);
                }
            }
        }
        k += 1;
    }
    order
}

/// The decimal digit character for `d`.
pub open spec fn digit_char(d: nat) -> char {
    if d == 0 {
        '0'
    } else if d == 1 {
        '1'
    } else if d == 2 {
        '2'
    } else if d == 3 {
        '3'
    } else if d == 4 {
        '4'
    } else if d == 5 {
        '5'
    } else if d == 6 {
        '6'
    } else if d == 7 {
        '7'
    } else if d == 8 {
        '8'
    } else {
        '9'
    }
}

/// The decimal writing of `n`, most significant digit first, with no leading zero.
pub open spec fn decimal(n: nat) -> Seq<char>
    decreases n,
{
    if n < 10 {
        seq![digit_char(n)]
    } else {
        decimal(n / 10).push(digit_char(n % 10))
    }
}

/// The number that a string of decimal digits stands for.
pub open spec fn digits_value(digits: Seq<char>) -> int
    decreases digits.len(),
{
    if digits.len() == 0 {
        0
    } else {
        10 * digits_value(digits.drop_last()) + (digits.last() as int - '0' as int)
    }
}

proof fn lemma_digit_char(d: nat)
    requires
        d < 10,
    ensures
        digit_char(d) as int - '0' as int == d,
        '0' <= digit_char(d) <= '9',
{
    assert('0' as int == 48);
    assert('9' as int == 57);
    if d == 0 { assert('0' as int == 48); }
    else if d == 1 { assert('1' as int == 49); }
    else if d == 2 { assert('2' as int == 50); }
    else if d == 3 { assert('3' as int == 51); }
    else if d == 4 { assert('4' as int == 52); }
    else if d == 5 { assert('5' as int == 53); }
    else if d == 6 { assert('6' as int == 54); }
    else if d == 7 { assert('7' as int == 55); }
    else if d == 8 { assert('8' as int == 56); }
    else { assert('9' as int == 57); }
}

/// `decimal(n)` is a true decimal writing of `n`: every character is a digit,
/// the digits stand for `n`, and only zero itself starts with `0`.
pub proof fn lemma_decimal_writes_n(n: nat)
    ensures
        forall|i: int| 0 <= i < decimal(n).len() ==> '0' <= #[trigger] decimal(n)[i] <= '9',
        digits_value(decimal(n)) == n,
        decimal(n).len() > 0,
        decimal(n)[0] == '0' ==> n == 0,
    decreases n,
{
    if n < 10 {
        lemma_digit_char(n);
        assert(decimal(n) == seq![digit_char(n)]);
        assert(seq![digit_char(n)].drop_last() =~= Seq::<char>::empty());
        assert(decimal(n)[0] == digit_char(n));
        assert(decimal(n).drop_last() =~= Seq::<char>::empty());
        assert(digits_value(Seq::<char>::empty()) == 0);
        assert(digits_value(decimal(n)) == 10 * digits_value(decimal(n).drop_last()) + (
        decimal(n).last() as int - '0' as int));
    } else {
        lemma_decimal_writes_n(n / 10);
        let front = decimal(n / 10);
        let d = n % 10;
        lemma_digit_char(d);
        assert(decimal(n) == front.push(digit_char(d)));
        assert(front.push(digit_char(d)).drop_last() =~= front);
        assert(n == 10 * (n / 10) + d);
        assert(decimal(n).drop_last() =~= front);
        assert(decimal(n).last() == digit_char(d));
        assert(digits_value(decimal(n)) == 10 * digits_value(decimal(n).drop_last()) + (
        decimal(n).last() as int - '0' as int));
        assert forall|i: int| 0 <= i < decimal(n).len() implies '0' <= #[trigger] decimal(n)[i]
            <= '9' by {
            if i < front.len() {
                assert(decimal(n)[i] == front[i]);
            } else {
                assert(decimal(n)[i] == digit_char(d));
            }
        }
        if front[0] == '0' {
            assert(n / 10 == 0);
        }
    }
}

fn digit_str(d: usize) -> (s: &'static str)
    requires
        d < 10,
    ensures
        s@ == seq![digit_char(d as nat)],
{
    proof {
        reveal_strlit("0");
        reveal_strlit("1");
        reveal_strlit("2");
        reveal_strlit("3");
        reveal_strlit("4");
        reveal_strlit("5");
        reveal_strlit("6");
        reveal_strlit("7");
        reveal_strlit("8");
        reveal_strlit("9");
    }
    match d {
        0 => "0",
        1 => "1",
        2 => "2",
        3 => "3",
        4 => "4",
        5 => "5",
        6 => "6",
        7 => "7",
        8 => "8",
        _ => "9",
    }
}

/// Appends the decimal writing of `n` to `out`, as `{}` formats an integer.
pub fn push_decimal(out: &mut String, n: usize)
    ensures
        final(out)@ == old(out)@ + decimal(n as nat),
    decreases n,
{
    if n < 10 {
        out.append(digit_str(n));
    } else {
        push_decimal(out, n / 10);
        out.append(digit_str(n % 10));
    }
}

/// The header of an asset type in the assets panel: its name and, in
/// brackets, how many assets of it exist (`"{name} ({count})"`).
pub fn asset_group_label(name: &str, count: usize) -> (label: String)
    ensures
        label@ == name@ + seq![' ', '('] + decimal(count as nat) + seq![')'],
{
    let mut label = String::from_str(name);
    proof {
        reveal_strlit(" (");
        reveal_strlit(")");
    }
    label.append(" (");
    push_decimal(&mut label, count);
    label.append(")");
    label
}

} // verus!
