use vstd::prelude::*;
use std::collections::HashMap;
use substring::Substring;
use vstd::std_specs::hash::obeys_key_model;

verus! {

broadcast use vstd::std_specs::hash::group_hash_axioms;

/// What `substring::Substring::substring(start, end)` returns: the characters
/// from index `start` up to index `end`, both cut down to the length of the
/// text, and nothing at all when `end <= start`.
pub open spec fn substring_of(s: Seq<char>, start: usize, end: usize) -> Seq<char> {
    if end <= start {
        Seq::empty()
    } else {
        let a = if start < s.len() { start as int } else { s.len() as int };
        let b = if end < s.len() { end as int } else { s.len() as int };
        s.subrange(a, b)
    }
}

/// Calls `substring::Substring::substring`, which slices by character index.
#[verifier::external_body]
fn substring<'a>(s: &'a str, start: usize, end: usize) -> (r: &'a str)
    ensures
        r@ == substring_of(s@, start, end),
{
    s.substring(start, end)
}

/// Whether `char::is_alphabetic` holds of `c` (the Unicode `Alphabetic` property).
pub uninterp spec fn char_is_alphabetic(c: char) -> bool;

/// Calls `char::is_alphabetic`.
#[verifier::external_body]
fn is_alphabetic(c: char) -> (b: bool)
    ensures
        b == char_is_alphabetic(c),
{
    c.is_alphabetic()
}

/// What `char::to_lowercase(c)` yields: the lowercase mapping of `c`, one or
/// more characters.
pub uninterp spec fn char_lowercase(c: char) -> Seq<char>;

/// Calls `char::to_lowercase`, documented as yielding the lowercase mapping of
/// `c` as one or more characters.
#[verifier::external_body]
fn to_lowercase(c: char) -> (r: Vec<char>)
    ensures
        r@ == char_lowercase(c),
        r@.len() >= 1,
{
    c.to_lowercase().collect()
}

/// The key under which a letter is counted: the code of the (first character
/// of the) lowercase form of `c`, so that a letter in upper and in lower case
/// is counted once, as the lowercase letter.
pub open spec fn lowercase_code(c: char) -> u32 {
    char_lowercase(c)[0] as u32
}

/// Number of bytes of the UTF-8 encoding of `s`.
pub open spec fn byte_len(s: Seq<char>) -> usize {
    vstd::utf8::encode_utf8(s).len() as usize
}

/// The `i`-th of `worker_count` chunks of a text of `len` bytes starts here.
pub open spec fn chunk_bound(i: int, len: int, worker_count: int) -> int {
    i * len / worker_count
}

/// Splits `input` into `worker_count` pieces; piece `i` is taken, by character
/// index, between the `i`-th and `(i+1)`-th fraction of the byte length.
pub fn create_chunks(input: &String, worker_count: usize) -> (r: Vec<&str>)
    requires
        worker_count * byte_len(input@) <= usize::MAX,
    ensures
        r.len() == worker_count,
        forall|i: int| 0 <= i < worker_count ==> (#[trigger] r[i])@ == substring_of(
            input@,
            chunk_bound(i, byte_len(input@) as int, worker_count as int) as usize,
            chunk_bound(i + 1, byte_len(input@) as int, worker_count as int) as usize,
        ),
{
    let s: &str = input.as_str();
    let len = s.len();
    assert(len == byte_len(input@));
    let mut v: Vec<&str> = Vec::new();
    let mut i: usize = 0;
    while i < worker_count
        invariant
            s@ == input@,
            len == byte_len(input@),
            worker_count * len <= usize::MAX,
            i <= worker_count,
            v.len() == i,
            forall|j: int| 0 <= j < i ==> (#[trigger] v[j])@ == substring_of(
                input@,
                chunk_bound(j, len as int, worker_count as int) as usize,
                chunk_bound(j + 1, len as int, worker_count as int) as usize,
            ),
        decreases worker_count - i,
    {
        proof {
            vstd::arithmetic::mul::lemma_mul_inequality((i + 1) as int, worker_count as int, len as int);
            vstd::arithmetic::mul::lemma_mul_inequality(i as int, (i + 1) as int, len as int);
            vstd::arithmetic::div_mod::lemma_div_pos_is_pos((i * len) as int, worker_count as int);
            vstd::arithmetic::div_mod::lemma_div_pos_is_pos(((i + 1) * len) as int, worker_count as int);
            vstd::arithmetic::div_mod::lemma_div_is_ordered_by_denominator((i * len) as int, 1, worker_count as int);
            vstd::arithmetic::div_mod::lemma_div_is_ordered_by_denominator(((i + 1) * len) as int, 1, worker_count as int);
        }
        let start = i * len / worker_count;
        let end = (i + 1) * len / worker_count;
        v.push(substring(s, start, end));
        i = i + 1;
    }
    v
}

/// `counts` after counting the letters of `s`, each as the code of its
/// lowercase form; characters that are not alphabetic are skipped.
pub open spec fn count_letters(counts: Map<u32, usize>, s: Seq<char>) -> Map<u32, usize>
    decreases s.len(),
{
    if s.len() == 0 {
        counts
    } else {
        let before = count_letters(counts, s.drop_last());
        let c = s.last();
        if char_is_alphabetic(c) {
            let k = lowercase_code(c);
            let n: int = if before.contains_key(k) { before[k] as int } else { 0 };
            before.insert(k, (n + 1) as usize)
        } else {
            before
        }
    }
}

proof fn lemma_count_bound(counts: Map<u32, usize>, s: Seq<char>)
    requires
        forall|k: u32| counts.contains_key(k) ==> counts[k] + s.len() <= usize::MAX,
        s.len() <= usize::MAX,
    ensures
        forall|k: u32| #[trigger] count_letters(counts, s).contains_key(k) && !counts.contains_key(k) ==> count_letters(counts, s)[k] <= s.len(),
        forall|k: u32| #[trigger] count_letters(counts, s).contains_key(k) && counts.contains_key(k) ==> count_letters(counts, s)[k] <= counts[k] + s.len(),
    decreases s.len(),
{
    if s.len() > 0 {
        lemma_count_bound(counts, s.drop_last());
        let before = count_letters(counts, s.drop_last());
        let after = count_letters(counts, s);
        let c = s.last();
        if char_is_alphabetic(c) {
            let kk = lowercase_code(c);
            assert forall|k: u32| #[trigger] after.contains_key(k) && !counts.contains_key(k) implies after[k] <= s.len() by {
                if k != kk {
                    assert(before.contains_key(k));
                }
            }
            assert forall|k: u32| #[trigger] after.contains_key(k) && counts.contains_key(k) implies after[k] <= counts[k] + s.len() by {
                if k != kk {
                    assert(before.contains_key(k));
                } else if before.contains_key(k) {
                    assert(before[k] <= counts[k] + s.len() - 1);
                }
            }
        }
    }
}

/// Adds to `result` the letters of `input`, counted by the code of their
/// lowercase form (an uppercase letter counts as its lowercase letter); digits, punctuation and other non-alphabetic characters are skipped.
pub fn compute_letter_count(input: &str, result: &mut HashMap<u32, usize>)
    requires
        input@.len() <= usize::MAX,
        forall|k: u32| old(result)@.contains_key(k) ==> old(result)@[k] + input@.len() <= usize::MAX,
    ensures
        final(result)@ == count_letters(old(result)@, input@),
{
    let ghost start = result@;
    broadcast use vstd::string::group_string_axioms;
    for c in it: input.chars()
        invariant
            it.seq() == input@,
            input@.len() <= usize::MAX,
            result@ == count_letters(start, input@.take(it.index())),
            forall|k: u32| start.contains_key(k) ==> start[k] + input@.len() <= usize::MAX,
    {
        let ghost i = it.index();
        proof {
            assert(input@.take(i + 1).drop_last() =~= input@.take(i));
            assert(input@[i] == c);
            lemma_count_bound(start, input@.take(i));
        }
        if is_alphabetic(c) {
            let lower = to_lowercase(c);
            let k = lower[0] as u32;
            let prev = match result.get(&k) {
                Some(v) => *v,
                None => 0,
            };
            proof {
                if result@.contains_key(k) {
                    if start.contains_key(k) {
                        assert(result@[k] <= start[k] + i);
                    } else {
                        assert(result@[k] <= i);
                    }
                }
            }
            result.insert(k, prev + 1);
        }
    }
    assert(input@.take(input@.len() as int) =~= input@);
}

/// The `i`-th chunk that `create_chunks` cuts out of `s` for `worker_count` workers.
pub open spec fn chunk_of(s: Seq<char>, worker_count: usize, i: int) -> Seq<char> {
    substring_of(
        s,
        chunk_bound(i, byte_len(s) as int, worker_count as int) as usize,
        chunk_bound(i + 1, byte_len(s) as int, worker_count as int) as usize,
    )
}

/// The first `k` chunks, one after the other.
pub open spec fn chunks_joined(s: Seq<char>, worker_count: usize, k: int) -> Seq<char>
    decreases k,
{
    if k <= 0 {
        Seq::empty()
    } else {
        chunks_joined(s, worker_count, k - 1) + chunk_of(s, worker_count, k - 1)
    }
}

proof fn lemma_encode_len_ge(s: Seq<char>)
    ensures
        vstd::utf8::encode_utf8(s).len() >= s.len(),
    decreases s.len(),
{
    if s.len() > 0 {
        lemma_encode_len_ge(s.drop_first());
    }
}

/// The chunks handed to the workers cover the input exactly once, in order,
/// whatever the characters and their encoding.
pub proof fn lemma_chunks_cover_input(s: Seq<char>, worker_count: usize)
    requires
        worker_count >= 1,
        vstd::utf8::encode_utf8(s).len() <= usize::MAX,
        worker_count * byte_len(s) <= usize::MAX,
    ensures
        chunks_joined(s, worker_count, worker_count as int) == s,
{
    let len = byte_len(s) as int;
    let w = worker_count as int;
    let n = s.len() as int;
    lemma_encode_len_ge(s);
    assert(len >= n);
    assert forall|k: int| 0 <= k <= w implies
        #[trigger] chunks_joined(s, worker_count, k) == s.subrange(0, if chunk_bound(k, len, w) < n { chunk_bound(k, len, w) } else { n })
        && 0 <= chunk_bound(k, len, w) <= len by {
        lemma_chunks_prefix(s, worker_count, k);
    }
    assert(chunk_bound(w, len, w) == len) by {
        vstd::arithmetic::div_mod::lemma_div_multiples_vanish(len, w);
        vstd::arithmetic::mul::lemma_mul_is_commutative(w, len);
    }
    assert(s.subrange(0, n) =~= s);
}

proof fn lemma_chunks_prefix(s: Seq<char>, worker_count: usize, k: int)
    requires
        worker_count >= 1,
        0 <= k <= worker_count,
        byte_len(s) >= s.len(),
        worker_count * byte_len(s) <= usize::MAX,
    ensures
        ({
            let len = byte_len(s) as int;
            let w = worker_count as int;
            let n = s.len() as int;
            let b = chunk_bound(k, len, w);
            &&& 0 <= b <= len
            &&& chunks_joined(s, worker_count, k) == s.subrange(0, if b < n { b } else { n })
        }),
    decreases k,
{
    let len = byte_len(s) as int;
    let w = worker_count as int;
    let n = s.len() as int;
    vstd::arithmetic::mul::lemma_mul_inequality(k, w, len);
    vstd::arithmetic::mul::lemma_mul_nonnegative(k, len);
    vstd::arithmetic::div_mod::lemma_div_pos_is_pos(k * len, w);
    vstd::arithmetic::div_mod::lemma_div_is_ordered(k * len, w * len, w);
    vstd::arithmetic::div_mod::lemma_div_multiples_vanish(len, w);
    vstd::arithmetic::mul::lemma_mul_is_commutative(w, len);
    if k == 0 {
        vstd::arithmetic::div_mod::lemma_fundamental_div_mod_converse(0, w, 0, 0);
        assert(0 * len == 0);
        assert((0 * len) / w == 0);
        assert(chunk_bound(0, len, w) == 0);
        assert(s.subrange(0, 0) =~= Seq::<char>::empty());
    } else {
        lemma_chunks_prefix(s, worker_count, k - 1);
        let a = chunk_bound(k - 1, len, w);
        let b = chunk_bound(k, len, w);
        vstd::arithmetic::mul::lemma_mul_inequality(k - 1, k, len);
        vstd::arithmetic::div_mod::lemma_div_is_ordered((k - 1) * len, k * len, w);
        assert(a <= b);
        let ca = if a < n { a } else { n };
        let cb = if b < n { b } else { n };
        assert(chunk_of(s, worker_count, k - 1) =~= s.subrange(ca, cb));
        assert(s.subrange(0, ca) + s.subrange(ca, cb) =~= s.subrange(0, cb));
    }
}

/// How many characters of `s` are letters counted under code `k`.
pub open spec fn letters_with_code(s: Seq<char>, k: u32) -> nat
    decreases s.len(),
{
    if s.len() == 0 {
        0
    } else {
        letters_with_code(s.drop_last(), k) + if char_is_alphabetic(s.last()) && lowercase_code(s.last()) == k { 1nat } else { 0nat }
    }
}

/// Counting `s` into `counts` adds to each code the number of its letters in `s`
/// and leaves the other codes alone.
pub proof fn lemma_count_letters_adds(counts: Map<u32, usize>, s: Seq<char>, k: u32)
    requires
        forall|j: u32| counts.contains_key(j) ==> counts[j] + s.len() <= usize::MAX,
        s.len() <= usize::MAX,
    ensures
        count_letters(counts, s).contains_key(k) <==> (counts.contains_key(k) || letters_with_code(s, k) > 0),
        count_letters(counts, s).contains_key(k) ==> count_letters(counts, s)[k]
            == (if counts.contains_key(k) { counts[k] as int } else { 0 }) + letters_with_code(s, k),
    decreases s.len(),
{
    if s.len() > 0 {
        lemma_count_letters_adds(counts, s.drop_last(), k);
        lemma_letters_bound(s.drop_last(), k);
    }
}

proof fn lemma_letters_bound(s: Seq<char>, k: u32)
    ensures
        letters_with_code(s, k) <= s.len(),
    decreases s.len(),
{
    if s.len() > 0 {
        lemma_letters_bound(s.drop_last(), k);
    }
}

proof fn lemma_letters_concat(a: Seq<char>, b: Seq<char>, k: u32)
    ensures
        letters_with_code(a + b, k) == letters_with_code(a, k) + letters_with_code(b, k),
    decreases b.len(),
{
    if b.len() == 0 {
        assert(a + b =~= a);
    } else {
        lemma_letters_concat(a, b.drop_last(), k);
        assert((a + b).drop_last() =~= a + b.drop_last());
        assert((a + b).last() == b.last());
    }
}

/// Counting two texts one after the other is counting their concatenation.
pub proof fn lemma_count_letters_concat(counts: Map<u32, usize>, a: Seq<char>, b: Seq<char>)
    requires
        forall|j: u32| counts.contains_key(j) ==> counts[j] + a.len() + b.len() <= usize::MAX,
        a.len() + b.len() <= usize::MAX,
    ensures
        count_letters(count_letters(counts, a), b) == count_letters(counts, a + b),
{
    let m1 = count_letters(counts, a);
    assert forall|j: u32| m1.contains_key(j) implies m1[j] + b.len() <= usize::MAX by {
        lemma_count_letters_adds(counts, a, j);
        lemma_letters_bound(a, j);
    }
    assert forall|k: u32| #![trigger count_letters(m1, b).contains_key(k)]
        count_letters(m1, b).contains_key(k) == count_letters(counts, a + b).contains_key(k)
        && (count_letters(m1, b).contains_key(k) ==> count_letters(m1, b)[k] == count_letters(counts, a + b)[k]) by {
        lemma_count_letters_adds(counts, a, k);
        lemma_count_letters_adds(m1, b, k);
        lemma_count_letters_adds(counts, a + b, k);
        lemma_letters_concat(a, b, k);
    }
    assert(count_letters(m1, b) =~= count_letters(counts, a + b));
}

/// The order in which two texts are counted does not matter: the workers may
/// take their chunks in any order.
pub proof fn lemma_count_letters_commute(counts: Map<u32, usize>, a: Seq<char>, b: Seq<char>)
    requires
        forall|j: u32| counts.contains_key(j) ==> counts[j] + a.len() + b.len() <= usize::MAX,
        a.len() + b.len() <= usize::MAX,
    ensures
        count_letters(count_letters(counts, a), b) == count_letters(count_letters(counts, b), a),
{
    lemma_count_letters_concat(counts, a, b);
    lemma_count_letters_concat(counts, b, a);
    assert forall|k: u32| #![trigger count_letters(counts, a + b).contains_key(k)]
        count_letters(counts, a + b).contains_key(k) == count_letters(counts, b + a).contains_key(k)
        && (count_letters(counts, a + b).contains_key(k) ==> count_letters(counts, a + b)[k] == count_letters(counts, b + a)[k]) by {
        lemma_count_letters_adds(counts, a + b, k);
        lemma_count_letters_adds(counts, b + a, k);
        lemma_letters_concat(a, b, k);
        lemma_letters_concat(b, a, k);
    }
    assert(count_letters(counts, a + b) =~= count_letters(counts, b + a));
}

} // verus!
