use vstd::prelude::*;
use itertools::Itertools;
use vstd::multiset::Multiset;

verus! {

/// How many digits an expression is made of.
pub const NUMBERS: usize = 6;

/// How many threads share out the couples.
pub const N_THREADS: usize = 4;

/// What `itertools::Itertools::permutations(k)` yields for `items`, in order.
pub uninterp spec fn itertools_permutations(items: Seq<char>, k: usize) -> Seq<Seq<char>>;

/// What `itertools::Itertools::combinations_with_replacement(k)` yields for `items`, in order.
pub uninterp spec fn itertools_combinations_with_replacement(items: Seq<char>, k: usize) -> Seq<Seq<char>>;

/// `s` without the items that already occurred earlier in it; the first
/// occurrence of each item stays, in its place.
pub open spec fn first_occurrences<A>(s: Seq<A>) -> Seq<A>
    decreases s.len(),
{
    if s.len() == 0 {
        Seq::empty()
    } else if s.drop_last().contains(s.last()) {
        first_occurrences(s.drop_last())
    } else {
        first_occurrences(s.drop_last()).push(s.last())
    }
}

/// Calls `itertools::Itertools::permutations`: all `k`-permutations of `items`,
/// in the order in which the adaptor yields them (named, not stated).
#[verifier::external_body]
fn permutations(items: Vec<char>, k: usize) -> (r: Vec<Vec<char>>)
    ensures
        r.deep_view() == itertools_permutations(items@, k),
{
    items.into_iter().permutations(k).collect()
}

/// Calls `itertools::Itertools::combinations_with_replacement`: all `k`-long
/// combinations with repetition of `items`, in the order in which the adaptor
/// yields them (named, not stated).
#[verifier::external_body]
fn combinations_with_replacement(items: Vec<char>, k: usize) -> (r: Vec<Vec<char>>)
    ensures
        r.deep_view() == itertools_combinations_with_replacement(items@, k),
{
    items.into_iter().combinations_with_replacement(k).collect()
}

/// Calls `itertools::Itertools::unique`, documented as yielding the items that
/// did not occur before, in their order, the first of equal items being kept.
#[verifier::external_body]
fn unique(items: Vec<Vec<char>>) -> (r: Vec<Vec<char>>)
    ensures
        r.deep_view() == first_occurrences(items.deep_view()),
{
    items.into_iter().unique().collect()
}

/// Calls `String::push`, which appends one character.
#[verifier::external_body]
fn push_char(s: &mut String, c: char)
    ensures
        final(s)@ == old(s)@.push(c),
{
    s.push(c)
}

fn chars_of(s: &str) -> (r: Vec<char>)
    ensures
        r@ == s@,
{
    let n = s.unicode_len();
    let mut r: Vec<char> = Vec::new();
    let mut i: usize = 0;
    while i < n
        invariant
            n == s@.len(),
            i <= n,
            r@ == s@.take(i as int),
        decreases n - i,
    {
        r.push(s.get_char(i));
        i = i + 1;
        assert(r@ =~= s@.take(i as int));
    }
    assert(s@.take(n as int) =~= s@);
    r
}

/// The different orders of the operators of `ops`.
pub open spec fn operator_orders(ops: Seq<char>) -> Seq<Seq<char>> {
    first_occurrences(itertools_permutations(ops, ops.len() as usize))
}

/// Couples of `digits` with every order of the first `j` operator combinations.
pub open spec fn couples_with_combos(digits: Seq<char>, combos: Seq<Seq<char>>, j: int) -> Seq<(Seq<char>, Seq<char>)>
    decreases j,
{
    if j <= 0 {
        Seq::empty()
    } else {
        couples_with_combos(digits, combos, j - 1)
            + operator_orders(combos[j - 1]).map_values(|q: Seq<char>| (digits, q))
    }
}

/// Couples of the first `i` digit orders with every operator order.
pub open spec fn couples_upto(orders: Seq<Seq<char>>, combos: Seq<Seq<char>>, i: int) -> Seq<(Seq<char>, Seq<char>)>
    decreases i,
{
    if i <= 0 {
        Seq::empty()
    } else {
        couples_upto(orders, combos, i - 1) + couples_with_combos(orders[i - 1], combos, combos.len() as int)
    }
}

/// Every couple (order of the digits, order of `NUMBERS - 1` operators chosen with
/// repetition), digit orders outermost, then operator combinations, then their orders.
pub open spec fn all_couples_of(numbers: Seq<char>, operators: Seq<char>) -> Seq<(Seq<char>, Seq<char>)> {
    let orders = first_occurrences(itertools_permutations(numbers, NUMBERS));
    let combos = itertools_combinations_with_replacement(operators, (NUMBERS - 1) as usize);
    couples_upto(orders, combos, orders.len() as int)
}

proof fn lemma_clone_eq(a: Vec<char>, b: Vec<char>)
    requires
        a.len() == b.len(),
        forall|i: int| 0 <= i < a.len() ==> cloned::<char>(a[i], b[i]),
    ensures
        a@ == b@,
{
    assert forall|i: int| 0 <= i < a.len() implies a@[i] == b@[i] by {
        assert(cloned::<char>(a[i], b[i]));
    }
    assert(a@ =~= b@);
}

proof fn lemma_chars_deep_view(v: Vec<char>)
    ensures
        v.deep_view() == v@,
{
    assert(v.deep_view() =~= v@);
}

fn clone_chars(a: &Vec<char>) -> (r: Vec<char>)
    ensures
        r@ == a@,
{
    let r = a.clone();
    proof { lemma_clone_eq(*a, r); }
    r
}

/// Appends to `all_couples` every couple of an order of the digits of `numbers`
/// (each distinct order once) with an order of `NUMBERS - 1` operators taken
/// from `operators` with repetition (each distinct order once).
pub fn compute_all_couples(all_couples: &mut Vec<(Vec<char>, Vec<char>)>, numbers: &str, operators: &str)
    ensures
        final(all_couples).deep_view() == old(all_couples).deep_view() + all_couples_of(numbers@, operators@),
{
    let digits = chars_of(numbers);
    let ops = chars_of(operators);
    let orders = unique(permutations(digits, NUMBERS));
    let combos = combinations_with_replacement(ops, NUMBERS - 1);
    let ghost start = all_couples.deep_view();
    let ghost od = orders.deep_view();
    let ghost cd = combos.deep_view();
    let mut i: usize = 0;
    while i < orders.len()
        invariant
            i <= orders.len(),
            od == orders.deep_view(),
            cd == combos.deep_view(),
            all_couples.deep_view() == start + couples_upto(od, cd, i as int),
        decreases orders.len() - i,
    {
        let mut j: usize = 0;
        let ghost before_i = all_couples.deep_view();
        while j < combos.len()
            invariant
                i < orders.len(),
                j <= combos.len(),
                od == orders.deep_view(),
                cd == combos.deep_view(),
                all_couples.deep_view() == before_i + couples_with_combos(od[i as int], cd, j as int),
            decreases combos.len() - j,
        {
            let perm2 = clone_chars(&combos[j]);
            let k_len = perm2.len();
            let arrangements = unique(permutations(perm2, k_len));
            let ghost ad = arrangements.deep_view();
            proof {
                lemma_chars_deep_view(combos[j as int]);
            }
            assert(ad == operator_orders(cd[j as int]));
            let ghost before_j = all_couples.deep_view();
            let mut k: usize = 0;
            while k < arrangements.len()
                invariant
                    i < orders.len(),
                    j < combos.len(),
                    k <= arrangements.len(),
                    od == orders.deep_view(),
                    ad == arrangements.deep_view(),
                    all_couples.deep_view() == before_j + ad.take(k as int).map_values(|q: Seq<char>| (od[i as int], q)),
                decreases arrangements.len() - k,
            {
                let a = clone_chars(&orders[i]);
                let b = clone_chars(&arrangements[k]);
                let ghost prev = all_couples.deep_view();
                proof {
                    lemma_chars_deep_view(a);
                    lemma_chars_deep_view(b);
                    lemma_chars_deep_view(orders[i as int]);
                    lemma_chars_deep_view(arrangements[k as int]);
                }
                let ghost pair = (a, b);
                let ghost prev_v = all_couples@;
                all_couples.push((a, b));
                assert(all_couples@ == prev_v.push(pair));
                assert(all_couples.deep_view() =~= prev.push((od[i as int], ad[k as int])));
                k = k + 1;
                assert(all_couples.deep_view() =~= before_j + ad.take(k as int).map_values(|q: Seq<char>| (od[i as int], q)));
            }
            assert(ad.take(k as int) =~= ad);
            j = j + 1;
            assert(all_couples.deep_view() =~= before_i + couples_with_combos(od[i as int], cd, j as int));
        }
        i = i + 1;
        assert(all_couples.deep_view() =~= start + couples_upto(od, cd, i as int));
    }
}

/// The first `i` digits, each followed by its operator.
pub open spec fn digit_operator_pairs(digits: Seq<char>, ops: Seq<char>, i: int) -> Seq<char>
    decreases i,
{
    if i <= 0 {
        Seq::empty()
    } else {
        digit_operator_pairs(digits, ops, i - 1) + seq![digits[i - 1], ops[i - 1]]
    }
}

/// The text of the expression of a couple: every digit but the last followed by
/// its operator, then the last digit.
pub open spec fn expression_of(digits: Seq<char>, ops: Seq<char>) -> Seq<char> {
    digit_operator_pairs(digits, ops, digits.len() - 1).push(digits.last())
}

proof fn lemma_pairs_len(digits: Seq<char>, ops: Seq<char>, i: int)
    requires
        0 <= i,
    ensures
        digit_operator_pairs(digits, ops, i).len() == 2 * i,
    decreases i,
{
    if i > 0 {
        lemma_pairs_len(digits, ops, i - 1);
    }
}

proof fn lemma_pairs_at(digits: Seq<char>, ops: Seq<char>, i: int, j: int)
    requires
        0 <= j < i,
    ensures
        digit_operator_pairs(digits, ops, i)[2 * j] == digits[j],
        digit_operator_pairs(digits, ops, i)[2 * j + 1] == ops[j],
    decreases i,
{
    lemma_pairs_len(digits, ops, i - 1);
    if j < i - 1 {
        lemma_pairs_at(digits, ops, i - 1, j);
    }
}

/// The written expression alternates digits and operators, in the couple's
/// order: for `d` digits it has `2 * d - 1` characters, the `i`-th digit at
/// position `2 * i` and the `i`-th operator at position `2 * i + 1`.
pub proof fn lemma_expression_layout(digits: Seq<char>, ops: Seq<char>)
    requires
        digits.len() >= 1,
        ops.len() + 1 >= digits.len(),
    ensures
        expression_of(digits, ops).len() == 2 * digits.len() - 1,
        forall|i: int| 0 <= i < digits.len() ==> expression_of(digits, ops)[2 * i] == #[trigger] digits[i],
        forall|i: int| 0 <= i < digits.len() - 1 ==> expression_of(digits, ops)[2 * i + 1] == #[trigger] ops[i],
{
    let n = digits.len() as int;
    lemma_pairs_len(digits, ops, n - 1);
    assert forall|i: int| 0 <= i < n implies expression_of(digits, ops)[2 * i] == #[trigger] digits[i] by {
        if i < n - 1 {
            lemma_pairs_at(digits, ops, n - 1, i);
        }
    }
    assert forall|i: int| 0 <= i < n - 1 implies expression_of(digits, ops)[2 * i + 1] == #[trigger] ops[i] by {
        lemma_pairs_at(digits, ops, n - 1, i);
    }
}

/// A couple can be written out: at least one digit, and an operator between
/// each two digits.
pub open spec fn well_formed_couple(c: (Seq<char>, Seq<char>)) -> bool {
    c.0.len() >= 1 && c.1.len() + 1 >= c.0.len()
}

/// The expressions of the couples marked in `hits`, in order.
pub open spec fn expressions_of_hits(couples: Seq<(Seq<char>, Seq<char>)>, hits: Seq<bool>) -> Seq<Seq<char>>
    decreases couples.len(),
{
    if couples.len() == 0 {
        Seq::empty()
    } else {
        let rest = expressions_of_hits(couples.drop_last(), hits.take(couples.len() - 1));
        if hits[couples.len() - 1] {
            rest.push(expression_of(couples.last().0, couples.last().1))
        } else {
            rest
        }
    }
}

fn expression(digits: &Vec<char>, ops: &Vec<char>) -> (r: String)
    requires
        digits.len() >= 1,
        ops.len() + 1 >= digits.len(),
    ensures
        r@ == expression_of(digits@, ops@),
{
    let mut result = String::new();
    let n = digits.len();
    let mut i: usize = 0;
    while i < n
        invariant
            n == digits.len(),
            n >= 1,
            ops.len() + 1 >= n,
            i <= n,
            i < n ==> result@ == digit_operator_pairs(digits@, ops@, i as int),
            i == n ==> result@ == expression_of(digits@, ops@),
        decreases n - i,
    {
        if i < n - 1 {
            push_char(&mut result, digits[i]);
            push_char(&mut result, ops[i]);
            assert(result@ =~= digit_operator_pairs(digits@, ops@, (i + 1) as int));
        } else {
            push_char(&mut result, digits[i]);
        }
        i = i + 1;
    }
    result
}

/// Appends to `valid_couples` the expressions of the couples whose evaluation hit
/// the target (`hits[i]` tells it for `all_couples[i]`), in their order.
pub fn compute_valid_couples(
    all_couples: &Vec<(Vec<char>, Vec<char>)>,
    hits: &Vec<bool>,
    valid_couples: &mut Vec<String>,
)
    requires
        hits.len() == all_couples.len(),
        forall|i: int| 0 <= i < all_couples.len() ==> well_formed_couple(#[trigger] all_couples.deep_view()[i]),
    ensures
        final(valid_couples).deep_view() == old(valid_couples).deep_view()
            + expressions_of_hits(all_couples.deep_view(), hits@),
{
    let ghost cd = all_couples.deep_view();
    let ghost start = valid_couples.deep_view();
    let n = all_couples.len();
    let mut i: usize = 0;
    while i < n
        invariant
            n == all_couples.len(),
            n == hits.len(),
            i <= n,
            cd == all_couples.deep_view(),
            forall|j: int| 0 <= j < n ==> well_formed_couple(#[trigger] cd[j]),
            valid_couples.deep_view() == start + expressions_of_hits(cd.take(i as int), hits@.take(i as int)),
        decreases n - i,
    {
        proof {
            lemma_chars_deep_view(all_couples[i as int].0);
            lemma_chars_deep_view(all_couples[i as int].1);
            assert(well_formed_couple(cd[i as int]));
            assert(cd.take(i + 1).drop_last() =~= cd.take(i as int));
            assert(hits@.take(i + 1).take(i as int) =~= hits@.take(i as int));
        }
        if hits[i] {
            let e = expression(&all_couples[i].0, &all_couples[i].1);
            let ghost prev_v = valid_couples@;
            let ghost prev = valid_couples.deep_view();
            valid_couples.push(e);
            assert(valid_couples@ == prev_v.push(e));
            assert(valid_couples.deep_view() =~= prev.push(e@));
        }
        i = i + 1;
        assert(valid_couples.deep_view() =~= start + expressions_of_hits(cd.take(i as int), hits@.take(i as int)));
    }
    assert(cd.take(n as int) =~= cd);
    assert(hits@.take(n as int) =~= hits@);
}

/// The expressions of the couples whose evaluation hit the target, in order.
pub fn compute_final_result_without_threads(all_couples: &Vec<(Vec<char>, Vec<char>)>, hits: &Vec<bool>) -> (r: Vec<String>)
    requires
        hits.len() == all_couples.len(),
        forall|i: int| 0 <= i < all_couples.len() ==> well_formed_couple(#[trigger] all_couples.deep_view()[i]),
    ensures
        r.deep_view() == expressions_of_hits(all_couples.deep_view(), hits@),
{
    let mut valid_couples: Vec<String> = Vec::new();
    compute_valid_couples(all_couples, hits, &mut valid_couples);
    assert(Seq::<Seq<char>>::empty() + expressions_of_hits(all_couples.deep_view(), hits@)
        =~= expressions_of_hits(all_couples.deep_view(), hits@));
    valid_couples
}


/// How many of the indices below `len` are `i` more than a multiple of `n`.
pub open spec fn share_len(len: int, n: int, i: int) -> int {
    if i >= len {
        0
    } else {
        (len - 1 - i) / n + 1
    }
}

/// The items of `s` at the indices that are `i` more than a multiple of `n`, in
/// order: what thread `i` of `n` takes in the interleaved division.
pub open spec fn interleaved_share<A>(s: Seq<A>, n: int, i: int) -> Seq<A> {
    Seq::new(share_len(s.len() as int, n, i) as nat, |k: int| s[k * n + i])
}

/// The `i`-th of the consecutive chunks of `s.len() / n` items that the first
/// `n` threads take (the last `s.len() % n` items are in none of them).
pub open spec fn chunk_share<A>(s: Seq<A>, n: int, i: int) -> Seq<A> {
    s.subrange(i * (s.len() as int / n), (i + 1) * (s.len() as int / n))
}

proof fn lemma_share_len(len: int, n: int, i: int, k: int)
    requires
        0 < n,
        0 <= i,
        0 <= k,
        k * n + i >= len,
        k > 0 ==> (k - 1) * n + i < len,
    ensures
        share_len(len, n, i) == k,
{
    if k == 0 {
        assert(k * n == 0) by (nonlinear_arith)
            requires
                k == 0,
        ;
    } else {
        assert((k - 1) * n >= 0 && (k - 1) * n + n == k * n) by (nonlinear_arith)
            requires
                k >= 1,
                n > 0,
        ;
        vstd::arithmetic::div_mod::lemma_fundamental_div_mod_converse_div(
            len - 1 - i,
            n,
            k - 1,
            len - 1 - i - (k - 1) * n,
        );
    }
}

fn clone_couple(c: &(Vec<char>, Vec<char>)) -> (r: (Vec<char>, Vec<char>))
    ensures
        r.0@ == c.0@,
        r.1@ == c.1@,
{
    (clone_chars(&c.0), clone_chars(&c.1))
}

/// The couples that thread `i` of `n_threads` evaluates in the interleaved
/// division: those at the indices `j` with `j % n_threads == i`, in order.
pub fn interleaved_couples(all_couples: &Vec<(Vec<char>, Vec<char>)>, n_threads: usize, i: usize) -> (r: Vec<(Vec<char>, Vec<char>)>)
    requires
        0 < n_threads,
        i < n_threads,
    ensures
        r.deep_view() == interleaved_share(all_couples.deep_view(), n_threads as int, i as int),
{
    let len = all_couples.len();
    let ghost s = all_couples.deep_view();
    let ghost n = n_threads as int;
    let mut r: Vec<(Vec<char>, Vec<char>)> = Vec::new();
    let mut j: usize = i;
    while j < len
        invariant
            len == all_couples.len(),
            s == all_couples.deep_view(),
            n == n_threads,
            0 < n_threads,
            i < n_threads,
            j < len ==> j == r.len() * n + i,
            j >= len ==> r.len() * n + i >= len,
            r.len() > 0 ==> (r.len() - 1) * n + i < len,
            r.deep_view() =~= Seq::new(r.len() as nat, |k: int| s[k * n + i]),
        decreases len - j,
    {
        let c = clone_couple(&all_couples[j]);
        let ghost k = r.len() as int;
        let ghost prev = r.deep_view();
        proof {
            lemma_chars_deep_view(c.0);
            lemma_chars_deep_view(c.1);
            lemma_chars_deep_view(all_couples[j as int].0);
            lemma_chars_deep_view(all_couples[j as int].1);
            assert((k + 1) * n == k * n + n) by (nonlinear_arith);
        }
        r.push(c);
        assert(r.deep_view() =~= prev.push(s[k * n + i]));
        if len - j > n_threads {
            j = j + n_threads;
        } else {
            j = len;
        }
    }
    proof {
        lemma_share_len(len as int, n, i as int, r.len() as int);
    }
    r
}

/// The couples of the chunk that thread `i` of `n_threads` evaluates: the `i`-th
/// run of `all_couples.len() / n_threads` consecutive couples.
pub fn chunk_couples(all_couples: &Vec<(Vec<char>, Vec<char>)>, n_threads: usize, i: usize) -> (r: Vec<(Vec<char>, Vec<char>)>)
    requires
        0 < n_threads <= all_couples.len(),
        i < n_threads,
    ensures
        r.deep_view() == chunk_share(all_couples.deep_view(), n_threads as int, i as int),
{
    let ghost s = all_couples.deep_view();
    let size = all_couples.len() / n_threads;
    proof {
        assert(i * size + size <= n_threads * size && n_threads * size <= all_couples.len()
            && (i + 1) * size == i * size + size) by (nonlinear_arith)
            requires
                i < n_threads,
                size == all_couples.len() / n_threads,
                0 < n_threads,
        ;
    }
    let start = i * size;
    let end = start + size;
    let mut r: Vec<(Vec<char>, Vec<char>)> = Vec::new();
    let mut j: usize = start;
    while j < end
        invariant
            start <= j <= end,
            end <= all_couples.len(),
            s == all_couples.deep_view(),
            r.deep_view() =~= s.subrange(start as int, j as int),
        decreases end - j,
    {
        let c = clone_couple(&all_couples[j]);
        let ghost prev = r.deep_view();
        proof {
            lemma_chars_deep_view(c.0);
            lemma_chars_deep_view(c.1);
            lemma_chars_deep_view(all_couples[j as int].0);
            lemma_chars_deep_view(all_couples[j as int].1);
        }
        r.push(c);
        assert(r.deep_view() =~= prev.push(s[j as int]));
        j = j + 1;
    }
    r
}

/// In the interleaved division among `n` threads every item goes to a thread:
/// item `j` is item `j / n` of the share of thread `j % n`.
pub proof fn lemma_interleaved_covers<A>(s: Seq<A>, n: int, j: int)
    requires
        0 < n,
        0 <= j < s.len(),
    ensures
        j / n < share_len(s.len() as int, n, j % n),
        interleaved_share(s, n, j % n)[j / n] == s[j],
{
    let i = j % n;
    let k = j / n;
    vstd::arithmetic::div_mod::lemma_fundamental_div_mod(j, n);
    assert(k >= 0) by (nonlinear_arith)
        requires
            j >= 0,
            n > 0,
            k == j / n,
    ;
    assert(n * k == k * n) by (nonlinear_arith);
    assert(k * n + i == j);
    lemma_share_bound(s.len() as int, n, i, k);
}

/// In the interleaved division among `n` threads no item goes to two threads:
/// item `k` of the share of thread `i` is the item at index `k * n + i`, an
/// index below the length whose remainder by `n` is `i`, so no other thread has it.
pub proof fn lemma_interleaved_disjoint<A>(s: Seq<A>, n: int, i: int, k: int)
    requires
        0 <= i < n,
        0 <= k < share_len(s.len() as int, n, i),
    ensures
        0 <= k * n + i < s.len(),
        (k * n + i) % n == i,
        (k * n + i) / n == k,
        interleaved_share(s, n, i)[k] == s[k * n + i],
{
    lemma_share_bound(s.len() as int, n, i, k);
    vstd::arithmetic::div_mod::lemma_fundamental_div_mod_converse_div(k * n + i, n, k, i);
    vstd::arithmetic::div_mod::lemma_fundamental_div_mod_converse_mod(k * n + i, n, k, i);
}

/// The chunks of the first `n` threads hold each of the first `n * (s.len() / n)`
/// items once, item `j` being item `j % size` of chunk `j / size`; the other
/// `s.len() % n` items are in no chunk.
pub proof fn lemma_chunks_cover<A>(s: Seq<A>, n: int, j: int)
    requires
        0 < n <= s.len(),
        0 <= j < n * (s.len() as int / n),
    ensures
        0 <= j / (s.len() as int / n) < n,
        chunk_share(s, n, j / (s.len() as int / n))[j % (s.len() as int / n)] == s[j],
        s.len() - n * (s.len() as int / n) == s.len() as int % n,
{
    let len = s.len() as int;
    let size = len / n;
    vstd::arithmetic::div_mod::lemma_fundamental_div_mod(len, n);
    assert(size >= 1) by (nonlinear_arith)
        requires
            len >= n,
            n > 0,
            len == n * size + len % n,
            0 <= len % n < n,
    ;
    let q = j / size;
    let r = j % size;
    vstd::arithmetic::div_mod::lemma_fundamental_div_mod(j, size);
    assert(0 <= q < n && (q + 1) * size <= n * size && q * size + r == j && 0 <= r < size
        && (q + 1) * size == q * size + size && q * size >= 0) by (nonlinear_arith)
        requires
            j == size * q + r,
            0 <= r < size,
            size >= 1,
            0 <= j < n * size,
    ;
    assert(n * size <= len);
    assert(s.subrange(q * size, (q + 1) * size)[r] == s[q * size + r]);
}

/// The indices of a share are those below the length: `k * n + i < len` exactly
/// when `k < share_len(len, n, i)`.
proof fn lemma_share_bound(len: int, n: int, i: int, k: int)
    requires
        0 < n,
        0 <= i < n,
        0 <= k,
    ensures
        k < share_len(len, n, i) <==> k * n + i < len,
        k * n + i >= 0,
{
    assert(k * n >= 0) by (nonlinear_arith)
        requires
            k >= 0,
            n > 0,
    ;
    if i < len {
        let q = (len - 1 - i) / n;
        vstd::arithmetic::div_mod::lemma_fundamental_div_mod(len - 1 - i, n);
        assert(n * q == q * n) by (nonlinear_arith);
        let r = (len - 1 - i) % n;
        assert(0 <= r < n);
        assert(len - 1 - i == q * n + r);
        if k <= q {
            assert(k * n <= q * n) by (nonlinear_arith)
                requires
                    k <= q,
                    n > 0,
            ;
        } else {
            assert(k * n >= q * n + n) by (nonlinear_arith)
                requires
                    k >= q + 1,
                    n > 0,
            ;
        }
    }
}

/// The expressions found by threads `0..m` of the interleaved division among
/// `n` threads, all together, counted with multiplicity.
pub open spec fn interleaved_results(
    couples: Seq<(Seq<char>, Seq<char>)>,
    hits: Seq<bool>,
    n: int,
    m: int,
) -> Multiset<Seq<char>>
    decreases m,
{
    if m <= 0 {
        Multiset::empty()
    } else {
        interleaved_results(couples, hits, n, m - 1).add(
            expressions_of_hits(interleaved_share(couples, n, m - 1), interleaved_share(hits, n, m - 1)).to_multiset(),
        )
    }
}

proof fn lemma_share_push<A>(s: Seq<A>, x: A, n: int, i: int)
    requires
        0 <= i < n,
    ensures
        interleaved_share(s.push(x), n, i) == (if s.len() as int % n == i {
            interleaved_share(s, n, i).push(x)
        } else {
            interleaved_share(s, n, i)
        }),
{
    let len = s.len() as int;
    let k = share_len(len, n, i);
    assert(k >= 0);
    if k > 0 {
        lemma_share_bound(len, n, i, k - 1);
    }
    lemma_share_bound(len, n, i, k);
    lemma_share_bound(len + 1, n, i, k);
    if len % n == i {
        vstd::arithmetic::div_mod::lemma_fundamental_div_mod(len, n);
        assert(n * (len / n) == (len / n) * n) by (nonlinear_arith);
        lemma_share_bound(len, n, i, len / n);
        lemma_share_bound(len + 1, n, i, len / n);
        assert(k * n + i == len) by {
            if k * n + i != len {
                if k < len / n {
                    assert(k * n <= (len / n) * n - n) by (nonlinear_arith)
                        requires k < len / n, n > 0;
                } else {
                    assert(k * n >= (len / n) * n + n) by (nonlinear_arith)
                        requires k > len / n, n > 0;
                }
            }
        }
        lemma_share_bound(len + 1, n, i, k + 1);
        assert((k + 1) * n == k * n + n) by (nonlinear_arith);
        lemma_share_len(len + 1, n, i, k + 1);
        assert forall|t: int| 0 <= t < k implies interleaved_share(s.push(x), n, i)[t] == interleaved_share(s, n, i)[t] by {
            lemma_share_bound(len, n, i, t);
        }
        assert(interleaved_share(s.push(x), n, i)[k] == x);
        assert(interleaved_share(s.push(x), n, i) =~= interleaved_share(s, n, i).push(x));
    } else {
        assert(k * n + i != len) by {
            if k * n + i == len {
                vstd::arithmetic::div_mod::lemma_fundamental_div_mod_converse_mod(len, n, k, i);
            }
        }
        assert(share_len(len + 1, n, i) == k) by {
            if k > 0 {
                lemma_share_len(len + 1, n, i, k);
            } else {
                lemma_share_len(len + 1, n, i, 0);
            }
        }
        assert forall|t: int| 0 <= t < k implies interleaved_share(s.push(x), n, i)[t] == interleaved_share(s, n, i)[t] by {
            lemma_share_bound(len, n, i, t);
        }
        assert(interleaved_share(s.push(x), n, i) =~= interleaved_share(s, n, i));
    }
}

proof fn lemma_expressions_push(c: Seq<(Seq<char>, Seq<char>)>, h: Seq<bool>, x: (Seq<char>, Seq<char>), b: bool)
    requires
        h.len() == c.len(),
    ensures
        expressions_of_hits(c.push(x), h.push(b)) == (if b {
            expressions_of_hits(c, h).push(expression_of(x.0, x.1))
        } else {
            expressions_of_hits(c, h)
        }),
{
    assert(c.push(x).drop_last() =~= c);
    assert(h.push(b).take(c.len() as int) =~= h);
}

proof fn lemma_results_push(
    c: Seq<(Seq<char>, Seq<char>)>,
    h: Seq<bool>,
    x: (Seq<char>, Seq<char>),
    b: bool,
    n: int,
    m: int,
)
    requires
        h.len() == c.len(),
        0 < n,
        0 <= m <= n,
    ensures
        interleaved_results(c.push(x), h.push(b), n, m) == interleaved_results(c, h, n, m).add(
            if b && c.len() as int % n < m { Multiset::singleton(expression_of(x.0, x.1)) } else { Multiset::empty() },
        ),
    decreases m,
{
    broadcast use vstd::multiset::group_multiset_axioms;
    broadcast use vstd::seq_lib::to_multiset_build;
    if m > 0 {
        lemma_results_push(c, h, x, b, n, m - 1);
        let i = m - 1;
        lemma_share_push(c, x, n, i);
        lemma_share_push(h, b, n, i);
        let cs = interleaved_share(c, n, i);
        let hs = interleaved_share(h, n, i);
        assert(hs.len() == cs.len());
        if c.len() as int % n == i {
            lemma_expressions_push(cs, hs, x, b);
        }
        let before = interleaved_results(c, h, n, m - 1);
        let extra_prev = if b && c.len() as int % n < m - 1 { Multiset::singleton(expression_of(x.0, x.1)) } else { Multiset::<Seq<char>>::empty() };
        let extra = if b && c.len() as int % n < m { Multiset::singleton(expression_of(x.0, x.1)) } else { Multiset::<Seq<char>>::empty() };
        let mine = expressions_of_hits(cs, hs).to_multiset();
        assert(interleaved_results(c.push(x), h.push(b), n, m) =~= before.add(mine).add(extra));
    }
}

/// The interleaved division loses and duplicates nothing: whatever the number
/// of couples, the expressions found by the `n` threads together are exactly
/// those found by one thread going through all couples, with the same
/// multiplicities, whatever order the threads hand them in.
pub proof fn lemma_interleaved_results(couples: Seq<(Seq<char>, Seq<char>)>, hits: Seq<bool>, n: int)
    requires
        hits.len() == couples.len(),
        0 < n,
    ensures
        interleaved_results(couples, hits, n, n) == expressions_of_hits(couples, hits).to_multiset(),
    decreases couples.len(),
{
    broadcast use vstd::multiset::group_multiset_axioms;
    broadcast use vstd::seq_lib::to_multiset_build;
    if couples.len() == 0 {
        lemma_results_empty(couples, hits, n, n);
        assert(expressions_of_hits(couples, hits).to_multiset() =~= Multiset::empty());
    } else {
        let c = couples.drop_last();
        let h = hits.drop_last();
        let x = couples.last();
        let b = hits.last();
        assert(c.push(x) =~= couples);
        assert(h.push(b) =~= hits);
        lemma_interleaved_results(c, h, n);
        lemma_results_push(c, h, x, b, n, n);
        lemma_expressions_push(c, h, x, b);
        vstd::arithmetic::div_mod::lemma_mod_pos_bound(c.len() as int, n);
        let e = expression_of(x.0, x.1);
        if b {
            assert(expressions_of_hits(c, h).push(e).to_multiset() =~= expressions_of_hits(c, h).to_multiset().add(Multiset::singleton(e)));
        } else {
            assert(expressions_of_hits(c, h).to_multiset().add(Multiset::empty()) =~= expressions_of_hits(c, h).to_multiset());
        }
    }
}

proof fn lemma_results_empty(couples: Seq<(Seq<char>, Seq<char>)>, hits: Seq<bool>, n: int, m: int)
    requires
        couples.len() == 0,
        hits.len() == 0,
        0 < n,
        0 <= m <= n,
    ensures
        interleaved_results(couples, hits, n, m) =~= Multiset::empty(),
    decreases m,
{
    broadcast use vstd::multiset::group_multiset_axioms;
    if m > 0 {
        lemma_results_empty(couples, hits, n, m - 1);
        let cs = interleaved_share(couples, n, m - 1);
        assert(cs.len() == 0);
        assert(expressions_of_hits(cs, interleaved_share(hits, n, m - 1)) =~= Seq::empty());
        assert(Seq::<Seq<char>>::empty().to_multiset() =~= Multiset::empty()) by {
            broadcast use vstd::seq_lib::group_to_multiset_ensures;
        }
    }
}

/// The expressions found by chunks `0..m` of the chunked division among `n`
/// threads, one chunk after the other.
pub open spec fn chunk_results(
    couples: Seq<(Seq<char>, Seq<char>)>,
    hits: Seq<bool>,
    n: int,
    m: int,
) -> Seq<Seq<char>>
    decreases m,
{
    if m <= 0 {
        Seq::empty()
    } else {
        chunk_results(couples, hits, n, m - 1) + expressions_of_hits(
            chunk_share(couples, n, m - 1),
            chunk_share(hits, n, m - 1),
        )
    }
}

proof fn lemma_expressions_concat(
    c1: Seq<(Seq<char>, Seq<char>)>,
    h1: Seq<bool>,
    c2: Seq<(Seq<char>, Seq<char>)>,
    h2: Seq<bool>,
)
    requires
        h1.len() == c1.len(),
        h2.len() == c2.len(),
    ensures
        expressions_of_hits(c1 + c2, h1 + h2) == expressions_of_hits(c1, h1) + expressions_of_hits(c2, h2),
    decreases c2.len(),
{
    if c2.len() == 0 {
        assert(c1 + c2 =~= c1);
        assert(h1 + h2 =~= h1);
        assert(expressions_of_hits(c2, h2) =~= Seq::<Seq<char>>::empty());
        assert(expressions_of_hits(c1, h1) + Seq::<Seq<char>>::empty() =~= expressions_of_hits(c1, h1));
    } else {
        let c = c2.drop_last();
        let h = h2.drop_last();
        lemma_expressions_concat(c1, h1, c, h);
        assert(c1 + c2 =~= (c1 + c).push(c2.last()));
        assert(h1 + h2 =~= (h1 + h).push(h2.last()));
        assert(c2 =~= c.push(c2.last()));
        assert(h2 =~= h.push(h2.last()));
        lemma_expressions_push(c1 + c, h1 + h, c2.last(), h2.last());
        lemma_expressions_push(c, h, c2.last(), h2.last());
        if h2.last() {
            assert((expressions_of_hits(c1, h1) + expressions_of_hits(c, h)).push(expression_of(c2.last().0, c2.last().1))
                =~= expressions_of_hits(c1, h1) + expressions_of_hits(c, h).push(expression_of(c2.last().0, c2.last().1)));
        }
    }
}

proof fn lemma_chunk_prefix_results(couples: Seq<(Seq<char>, Seq<char>)>, hits: Seq<bool>, n: int, m: int)
    requires
        hits.len() == couples.len(),
        0 < n <= couples.len(),
        0 <= m <= n,
    ensures
        m * (couples.len() as int / n) <= couples.len(),
        chunk_results(couples, hits, n, m) == expressions_of_hits(
            couples.take(m * (couples.len() as int / n)),
            hits.take(m * (couples.len() as int / n)),
        ),
    decreases m,
{
    let len = couples.len() as int;
    let size = len / n;
    vstd::arithmetic::div_mod::lemma_fundamental_div_mod(len, n);
    assert(m * size <= n * size && n * size <= len && m * size >= 0 && size >= 1) by (nonlinear_arith)
        requires
            0 <= m <= n,
            0 < n <= len,
            len == n * size + len % n,
            0 <= len % n < n,
    ;
    if m == 0 {
        assert(m * size == 0) by (nonlinear_arith)
            requires
                m == 0,
        ;
        assert(couples.take(0) =~= Seq::<(Seq<char>, Seq<char>)>::empty());
        assert(hits.take(0) =~= Seq::<bool>::empty());
        assert(expressions_of_hits(couples.take(0), hits.take(0)) =~= Seq::<Seq<char>>::empty());
    } else {
        lemma_chunk_prefix_results(couples, hits, n, m - 1);
        assert((m - 1) * size + size == m * size) by (nonlinear_arith);
        let a = (m - 1) * size;
        let b = m * size;
        assert(couples.take(b) =~= couples.take(a) + chunk_share(couples, n, m - 1));
        assert(hits.take(b) =~= hits.take(a) + chunk_share(hits, n, m - 1));
        lemma_expressions_concat(couples.take(a), hits.take(a), chunk_share(couples, n, m - 1), chunk_share(hits, n, m - 1));
    }
}

/// The chunked division loses nothing but the last `len % n` couples and
/// keeps the order: the expressions found by the `n` chunks, one after the
/// other, are those of the first `n * (len / n)` couples; when `n` divides the
/// number of couples they are exactly those found by one thread going through
/// all couples.
pub proof fn lemma_chunk_results(couples: Seq<(Seq<char>, Seq<char>)>, hits: Seq<bool>, n: int)
    requires
        hits.len() == couples.len(),
        0 < n <= couples.len(),
    ensures
        chunk_results(couples, hits, n, n) == expressions_of_hits(
            couples.take(n * (couples.len() as int / n)),
            hits.take(n * (couples.len() as int / n)),
        ),
        couples.len() as int % n == 0 ==> chunk_results(couples, hits, n, n) == expressions_of_hits(couples, hits),
{
    lemma_chunk_prefix_results(couples, hits, n, n);
    let len = couples.len() as int;
    vstd::arithmetic::div_mod::lemma_fundamental_div_mod(len, n);
    if len % n == 0 {
        assert(couples.take(n * (len / n)) =~= couples);
        assert(hits.take(n * (len / n)) =~= hits);
    }
}

} // verus!
