//! Arithmetic and lookup helpers shared across the game modules.
use vstd::prelude::*;

verus! {

/// Integer division rounding toward zero, as Rust's `/` does.
pub open spec fn trunc_div(a: int, b: int) -> int {
    if a >= 0 && b > 0 {
        a / b
    } else if a < 0 && b < 0 {
        (-a) / (-b)
    } else if a >= 0 && b < 0 {
        -(a / (-b))
    } else {
        -((-a) / b)
    }
}

/// `v` clamped to `[lo, hi]`.
pub open spec fn clamp(v: int, lo: int, hi: int) -> int {
    if v < lo {
        lo
    } else if v > hi {
        hi
    } else {
        v
    }
}

/// `v * 100 / max` (rounding toward zero) clamped to `[0, 100]`; 0 when `max` is 0.
pub open spec fn percent_of(v: int, max: int) -> int {
    if max == 0 {
        0
    } else {
        clamp(trunc_div(v * 100, max), 0, 100)
    }
}

/// `i` is the first position of `s` whose string is `k`.
pub open spec fn is_first_str(s: Seq<String>, k: Seq<char>, i: int) -> bool {
    0 <= i < s.len() && s[i]@ == k && forall|j: int| 0 <= j < i ==> s[j]@ != k
}

/// Some string of `s` is `k`.
pub open spec fn has_str(s: Seq<String>, k: Seq<char>) -> bool {
    exists|i: int| 0 <= i < s.len() && s[i]@ == k
}

/// The percentage `v * 100 / max`, rounded toward zero and clamped to `[0, 100]`.
pub fn percent_i32(v: i32, max: i32) -> (r: i32)
    requires
        -21474836 <= v <= 21474836,
    ensures
        r == percent_of(v as int, max as int),
        0 <= r <= 100,
{
    if max == 0 {
        return 0;
    }
    let a: i64 = (v as i64) * 100;
    let b: i64 = max as i64;
    let q: i64 = if a >= 0 && b > 0 {
        a / b
    } else if a < 0 && b < 0 {
        (-a) / (-b)
    } else if a >= 0 && b < 0 {
        -(a / (-b))
    } else {
        -((-a) / b)
    };
    assert(q == trunc_div(v * 100, max as int));
    if q < 0 {
        0
    } else if q > 100 {
        100
    } else {
        q as i32
    }
}

/// The percentage `v * 100 / max` of wide numbers, clamped to `[0, 100]`.
pub fn percent_i64(v: i64, max: i64) -> (r: i64)
    requires
        -92233720368547758 <= v <= 92233720368547758,
        max != i64::MIN,
    ensures
        r == percent_of(v as int, max as int),
        0 <= r <= 100,
{
    if max == 0 {
        return 0;
    }
    let a: i128 = (v as i128) * 100;
    let b: i128 = max as i128;
    let q: i128 = if a >= 0 && b > 0 {
        a / b
    } else if a < 0 && b < 0 {
        (-a) / (-b)
    } else if a >= 0 && b < 0 {
        -(a / (-b))
    } else {
        -((-a) / b)
    };
    assert(q == trunc_div(v * 100, max as int));
    if q < 0 {
        0
    } else if q > 100 {
        100
    } else {
        q as i64
    }
}

/// The first position of `k` in `v`, if any.
pub fn find_str(v: &Vec<String>, k: &str) -> (r: Option<usize>)
    ensures
        r matches Some(i) ==> is_first_str(v@, k@, i as int),
        r is None <==> !has_str(v@, k@),
{
    let key = String::from_str(k);
    let mut i: usize = 0;
    while i < v.len()
        invariant
            i <= v.len(),
            key@ == k@,
            forall|j: int| 0 <= j < i ==> v@[j]@ != k@,
        decreases v.len() - i,
    {
        if v[i] == key {
            return Some(i);
        }
        i = i + 1;
    }
    None
}

/// `s` without the strings equal to `k`, the others in order.
pub open spec fn without_str(s: Seq<String>, k: Seq<char>) -> Seq<String> {
    s.filter(|e: String| e@ != k)
}

/// The strings of `v` other than `k`, in order.
pub fn remove_all_str(v: &Vec<String>, k: &str) -> (r: Vec<String>)
    ensures
        r@ == without_str(v@, k@),
{
    let mut r: Vec<String> = Vec::new();
    let mut i: usize = 0;
    while i < v.len()
        invariant
            i <= v@.len(),
            r@ == without_str(v@.take(i as int), k@),
        decreases v.len() - i,
    {
        proof {
            assert(v@.take(i + 1) =~= v@.take(i as int).push(v@[i as int]));
            v@.take(i as int).lemma_filter_push(v@[i as int], |e: String| e@ != k@);
        }
        if !crate::text::str_eq(v[i].as_str(), k) {
            r.push(v[i].clone());
        }
        i = i + 1;
    }
    assert(v@.take(i as int) =~= v@);
    r
}

/// `k` is one of the strings of `v`.
pub fn contains_str(v: &Vec<String>, k: &str) -> (r: bool)
    ensures
        r == has_str(v@, k@),
{
    match find_str(v, k) {
        Some(_) => true,
        None => false,
    }
}

/// The smaller of two numbers.
pub fn min_i32(a: i32, b: i32) -> (r: i32)
    ensures
        r == if a <= b { a } else { b },
{
    if a <= b { a } else { b }
}

/// The larger of two numbers.
pub fn max_i32(a: i32, b: i32) -> (r: i32)
    ensures
        r == if a >= b { a } else { b },
{
    if a >= b { a } else { b }
}

/// Takes out the record with key `k`, if any: afterwards `k` finds nothing
/// and every other key finds what it found before.
pub fn take_key<T: Keyed>(v: &mut Vec<T>, k: &str) -> (r: Option<T>)
    requires
        keys_unique(old(v)@),
    ensures
        r == key_get(old(v)@, k@),
        keys_unique(final(v)@),
        key_get(final(v)@, k@) is None,
        forall|o: Seq<char>| o != k@ ==> #[trigger] key_get(final(v)@, o) == key_get(old(v)@, o),
        r is None ==> final(v)@ == old(v)@,
{
    let ghost v0 = v@;
    let r = remove_key(v, k);
    proof {
        if r is Some {
            let x = r->0;
            {
                let i = choose|i: int| key_pos(v0, k@, i) && x == v0[i] && v@ == v0.remove(i);
                lemma_key_get_at(v0, k@, i);
                lemma_key_get_removed(v0, k@, i);
                assert forall|o: Seq<char>| o != k@ implies #[trigger] key_get(v@, o) == key_get(v0, o) by {
                    lemma_key_get_after_remove(v0, k@, i, o);
                }
            }
        } else {
            lemma_key_get_none(v0, k@);
            lemma_key_get_none(v@, k@);
        }
    }
    r
}

} // verus!

verus! {

/// A record found by a string key (its id).
pub trait Keyed {
    /// The key of the record.
    spec fn key_view(&self) -> Seq<char>;

    /// The key of the record.
    fn key(&self) -> (r: &String)
        ensures
            r@ == self.key_view(),
    ;
}

/// `i` is the first position of `s` whose key is `k`.
pub open spec fn key_pos<T: Keyed>(s: Seq<T>, k: Seq<char>, i: int) -> bool {
    0 <= i < s.len() && s[i].key_view() == k && forall|j: int| 0 <= j < i ==> s[j].key_view() != k
}

/// Some record of `s` has key `k`.
pub open spec fn key_in<T: Keyed>(s: Seq<T>, k: Seq<char>) -> bool {
    exists|i: int| 0 <= i < s.len() && s[i].key_view() == k
}

/// No two records of `s` share a key.
pub open spec fn keys_unique<T: Keyed>(s: Seq<T>) -> bool {
    forall|i: int, j: int| 0 <= i < j < s.len() ==> s[i].key_view() != s[j].key_view()
}

/// The first position of a record with key `k`, if any.
pub fn find_key<T: Keyed>(v: &Vec<T>, k: &str) -> (r: Option<usize>)
    ensures
        r matches Some(i) ==> key_pos(v@, k@, i as int),
        r is None <==> !key_in(v@, k@),
{
    let key = String::from_str(k);
    let mut i: usize = 0;
    while i < v.len()
        invariant
            i <= v.len(),
            key@ == k@,
            forall|j: int| 0 <= j < i ==> v@[j].key_view() != k@,
        decreases v.len() - i,
    {
        if *v[i].key() == key {
            return Some(i);
        }
        i = i + 1;
    }
    None
}

/// In a list with unique keys, the record at `i` is the first with its key.
pub proof fn lemma_unique_pos<T: Keyed>(s: Seq<T>, i: int)
    requires
        keys_unique(s),
        0 <= i < s.len(),
    ensures
        key_pos(s, s[i].key_view(), i),
{
    assert forall|j: int| 0 <= j < i implies s[j].key_view() != s[i].key_view() by {
        assert(s[j].key_view() != s[i].key_view());
    }
}

impl Keyed for String {
    open spec fn key_view(&self) -> Seq<char> {
        self@
    }

    fn key(&self) -> (r: &String) {
        self
    }
}


/// Puts `x` in place of the first record with its key, or appends it.
pub fn upsert<T: Keyed>(v: &mut Vec<T>, x: T) -> (r: Option<usize>)
    ensures
        r matches Some(i) ==> key_pos(old(v)@, x.key_view(), i as int) && final(v)@ == old(v)@.update(i as int, x),
        r is None <==> !key_in(old(v)@, x.key_view()),
        r is None ==> final(v)@ == old(v)@.push(x),
        keys_unique(old(v)@) ==> keys_unique(final(v)@),
        key_pos(final(v)@, x.key_view(), match r { Some(i) => i as int, None => old(v)@.len() as int }),
{
    let k = x.key().clone();
    let ghost kv = x.key_view();
    let mut i: usize = 0;
    while i < v.len()
        invariant
            i <= v@.len(),
            v@ == old(v)@,
            k@ == kv,
            kv == x.key_view(),
            forall|j: int| 0 <= j < i ==> v@[j].key_view() != kv,
        decreases v.len() - i,
    {
        let same = *v[i].key() == k;
        if same {
            assert(v@[i as int].key_view() == kv);
            let ghost before = v@;
            let ghost xv = x;
            v.set(i, x);
            proof {
                assert(before == old(v)@);
                assert(key_pos(before, kv, i as int));
                assert(v@ == before.update(i as int, xv));
                assert(xv.key_view() == kv);
                assert(v@[i as int] == xv);
                assert forall|a: int, b: int| 0 <= a < b < v@.len() && keys_unique(before) implies v@[a].key_view() != v@[b].key_view() by {
                    if a != i as int && b != i as int {
                        assert(v@[a] == before[a] && v@[b] == before[b]);
                    } else if a == i as int {
                        assert(v@[b] == before[b]);
                        assert(before[a].key_view() != before[b].key_view());
                    } else {
                        assert(v@[a] == before[a]);
                        assert(before[a].key_view() != before[b].key_view());
                    }
                }
            }
            return Some(i);
        }
        i = i + 1;
    }
    let ghost before = v@;
    v.push(x);
    proof {
        assert forall|a: int, b: int| 0 <= a < b < v@.len() && keys_unique(before) implies v@[a].key_view() != v@[b].key_view() by {
            assert(v@[a] == before[a]);
            if b < before.len() {
                assert(v@[b] == before[b]);
            }
        }
        assert forall|j: int| 0 <= j < before.len() implies v@[j].key_view() != kv by {
            assert(v@[j] == before[j]);
        }
    }
    None
}

/// Removes the first record with key `k`.
pub fn remove_key<T: Keyed>(v: &mut Vec<T>, k: &str) -> (r: Option<T>)
    ensures
        r matches Some(x) ==> exists|i: int| key_pos(old(v)@, k@, i) && x == old(v)@[i] && final(v)@ == old(v)@.remove(i),
        r is None <==> !key_in(old(v)@, k@),
        r is None ==> final(v)@ == old(v)@,
        keys_unique(old(v)@) ==> keys_unique(final(v)@) && !key_in(final(v)@, k@),
{
    match find_key(v, k) {
        Some(i) => {
            let ghost before = v@;
            let x = v.remove(i);
            proof {
                assert forall|a: int, b: int| 0 <= a < b < v@.len() && keys_unique(before) implies v@[a].key_view() != v@[b].key_view() by {
                    let aa = if a < i { a } else { a + 1 };
                    let bb = if b < i { b } else { b + 1 };
                    assert(v@[a] == before[aa] && v@[b] == before[bb]);
                }
                if keys_unique(before) {
                    assert forall|j: int| 0 <= j < v@.len() implies v@[j].key_view() != k@ by {
                        let jj = if j < i { j } else { j + 1 };
                        assert(v@[j] == before[jj]);
                        if jj != i as int {
                            if jj < i {
                                assert(before[jj].key_view() != before[i as int].key_view());
                            } else {
                                assert(before[i as int].key_view() != before[jj].key_view());
                            }
                        }
                    }
                }
            }
            Some(x)
        },
        None => None,
    }
}


/// The first record with key `k`, if any.
pub open spec fn key_get<T: Keyed>(s: Seq<T>, k: Seq<char>) -> Option<T> {
    if exists|i: int| key_pos(s, k, i) {
        Some(s[choose|i: int| key_pos(s, k, i)])
    } else {
        None
    }
}

/// The first position of a key is unique, so `key_get` yields the record there.
pub proof fn lemma_key_get_at<T: Keyed>(s: Seq<T>, k: Seq<char>, i: int)
    requires
        key_pos(s, k, i),
    ensures
        key_get(s, k) == Some(s[i]),
{
    let j = choose|j: int| key_pos(s, k, j);
    if j < i {
        assert(s[j].key_view() != k);
    } else if j > i {
        assert(s[i].key_view() != k);
    }
}

/// Without the key, `key_get` yields nothing.
pub proof fn lemma_key_get_none<T: Keyed>(s: Seq<T>, k: Seq<char>)
    requires
        !key_in(s, k),
    ensures
        key_get(s, k) is None,
{
    if exists|i: int| key_pos(s, k, i) {
        let i = choose|i: int| key_pos(s, k, i);
        assert(0 <= i < s.len() && s[i].key_view() == k);
    }
}

/// The record with key `k`, if any.
pub fn get_key<'a, T: Keyed>(v: &'a Vec<T>, k: &str) -> (r: Option<&'a T>)
    ensures
        r matches Some(x) ==> key_get(v@, k@) == Some(*x),
        r is None <==> key_get(v@, k@) is None,
        r is None <==> !key_in(v@, k@),
{
    match find_key(v, k) {
        Some(i) => {
            proof {
                lemma_key_get_at(v@, k@, i as int);
            }
            Some(&v[i])
        },
        None => {
            proof {
                lemma_key_get_none(v@, k@);
            }
            None
        },
    }
}


/// A key that occurs has a first position, and `key_get` finds a record
/// with that key.
pub proof fn lemma_key_first<T: Keyed>(s: Seq<T>, k: Seq<char>)
    requires
        key_in(s, k),
    ensures
        exists|i: int| key_pos(s, k, i),
        key_get(s, k) matches Some(x) && x.key_view() == k,
    decreases s.len(),
{
    if key_in(s.drop_last(), k) {
        lemma_key_first(s.drop_last(), k);
        let i = choose|i: int| key_pos(s.drop_last(), k, i);
        assert forall|j: int| 0 <= j <= i implies s[j] == s.drop_last()[j] by {}
        assert(key_pos(s, k, i));
        lemma_key_get_at(s, k, i);
    } else {
        let n = s.len() - 1;
        assert forall|j: int| 0 <= j < n implies s[j].key_view() != k by {
            assert(s[j] == s.drop_last()[j]);
        }
        assert(key_pos(s, k, n));
        lemma_key_get_at(s, k, n);
    }
}

/// Writing a record at the place of its key, or appending it when the key is
/// new, leaves what every other key finds unchanged.
pub proof fn lemma_key_get_other<T: Keyed>(old: Seq<T>, new: Seq<T>, x: T, k: Seq<char>)
    requires
        (exists|i: int| key_pos(old, x.key_view(), i) && new == old.update(i, x)) || (!key_in(old, x.key_view()) && new == old.push(x)),
        k != x.key_view(),
    ensures
        key_get(new, k) == key_get(old, k),
{
    assert forall|j: int| 0 <= j < new.len() && new[j].key_view() == k implies j < old.len() && new[j] == old[j] by {
        if exists|i: int| key_pos(old, x.key_view(), i) && new == old.update(i, x) {
            let i = choose|i: int| key_pos(old, x.key_view(), i) && new == old.update(i, x);
            assert(j != i);
        }
    }
    assert forall|j: int| 0 <= j < old.len() && old[j].key_view() == k implies new[j] == old[j] by {
        if exists|i: int| key_pos(old, x.key_view(), i) && new == old.update(i, x) {
            let i = choose|i: int| key_pos(old, x.key_view(), i) && new == old.update(i, x);
            assert(j != i);
        }
    }
    if key_in(old, k) {
        lemma_key_first(old, k);
        let i = choose|i: int| key_pos(old, k, i);
        assert forall|j: int| 0 <= j < i implies new[j].key_view() != k by {
            if new[j].key_view() == k {
                assert(new[j] == old[j]);
            }
        }
        assert(key_pos(new, k, i));
        lemma_key_get_at(old, k, i);
        lemma_key_get_at(new, k, i);
    } else {
        lemma_key_get_none(old, k);
        assert forall|j: int| 0 <= j < new.len() implies new[j].key_view() != k by {
            if new[j].key_view() == k {
                assert(new[j] == old[j]);
            }
        }
        lemma_key_get_none(new, k);
    }
}

/// After an `upsert`, the key of the new record finds it.
pub proof fn lemma_key_get_self<T: Keyed>(old: Seq<T>, new: Seq<T>, x: T)
    requires
        (exists|i: int| key_pos(old, x.key_view(), i) && new == old.update(i, x)) || (!key_in(old, x.key_view()) && new == old.push(x)),
    ensures
        key_get(new, x.key_view()) == Some(x),
{
    if exists|i: int| key_pos(old, x.key_view(), i) && new == old.update(i, x) {
        let i = choose|i: int| key_pos(old, x.key_view(), i) && new == old.update(i, x);
        assert(key_pos(new, x.key_view(), i));
        lemma_key_get_at(new, x.key_view(), i);
    } else {
        assert(key_pos(new, x.key_view(), old.len() as int));
        lemma_key_get_at(new, x.key_view(), old.len() as int);
    }
}


/// What `key_get` finds is one of the records.
pub proof fn lemma_key_get_in<T: Keyed>(s: Seq<T>, k: Seq<char>)
    ensures
        key_get(s, k) matches Some(x) ==> exists|i: int| 0 <= i < s.len() && s[i] == x && x.key_view() == k,
{
    if exists|i: int| key_pos(s, k, i) {
        let i = choose|i: int| key_pos(s, k, i);
        assert(0 <= i < s.len() && s[i] == key_get(s, k).unwrap());
    }
}


/// A key occurs exactly when `key_get` finds a record for it.
pub proof fn lemma_key_in_get<T: Keyed>(s: Seq<T>, k: Seq<char>)
    ensures
        key_in(s, k) <==> key_get(s, k) is Some,
{
    if key_in(s, k) {
        lemma_key_first(s, k);
    } else {
        lemma_key_get_none(s, k);
    }
}

/// A string occurs in `s` with `x` appended when it occurs in `s` or is `x`.
pub proof fn lemma_has_str_push(s: Seq<String>, x: String, k: Seq<char>)
    ensures
        has_str(s.push(x), k) <==> has_str(s, k) || x@ == k,
{
    if has_str(s, k) {
        let i = choose|i: int| 0 <= i < s.len() && s[i]@ == k;
        assert(s.push(x)[i] == s[i]);
    }
    if x@ == k {
        assert(s.push(x)[s.len() as int] == x);
    }
    if has_str(s.push(x), k) {
        let i = choose|i: int| 0 <= i < s.push(x).len() && s.push(x)[i]@ == k;
        if i < s.len() {
            assert(s.push(x)[i] == s[i]);
        }
    }
}


/// Replacing the record at the first position of its key by one with the
/// same key keeps the keys distinct, makes the key find the new record and
/// leaves every other key as it was.
pub proof fn lemma_keyed_update<T: Keyed>(old: Seq<T>, i: int, x: T)
    requires
        key_pos(old, x.key_view(), i),
    ensures
        keys_unique(old) ==> keys_unique(old.update(i, x)),
        key_get(old.update(i, x), x.key_view()) == Some(x),
        forall|k: Seq<char>| k != x.key_view() ==> #[trigger] key_get(old.update(i, x), k) == key_get(old, k),
{
    let new = old.update(i, x);
    assert forall|a: int, b: int| 0 <= a < b < new.len() && keys_unique(old) implies new[a].key_view() != new[b].key_view() by {
        assert(old[a].key_view() != old[b].key_view());
    }
    lemma_key_get_self(old, new, x);
    assert forall|k: Seq<char>| k != x.key_view() implies #[trigger] key_get(new, k) == key_get(old, k) by {
        lemma_key_get_other(old, new, x, k);
    }
}

/// Stores `x` under its key: in place of the first record with that key,
/// or appended.
pub fn put_key<T: Keyed>(v: &mut Vec<T>, x: T)
    ensures
        key_get(final(v)@, x.key_view()) == Some(x),
        forall|k: Seq<char>| k != x.key_view() ==> #[trigger] key_get(final(v)@, k) == key_get(old(v)@, k),
        keys_unique(old(v)@) ==> keys_unique(final(v)@),
        key_in(old(v)@, x.key_view()) ==> final(v)@.len() == old(v)@.len(),
        !key_in(old(v)@, x.key_view()) ==> final(v)@ == old(v)@.push(x),
{
    let ghost v0 = v@;
    let ghost gx = x;
    let r = upsert(v, x);
    proof {
        match r {
            Some(j) => {
                assert(key_pos(v0, gx.key_view(), j as int) && v@ == v0.update(j as int, gx));
            },
            None => {},
        }
        lemma_key_get_self(v0, v@, gx);
        assert forall|k: Seq<char>| k != gx.key_view() implies #[trigger] key_get(v@, k) == key_get(v0, k) by {
            lemma_key_get_other(v0, v@, gx, k);
        }
    }
}

/// Removing the record at the first position of key `k` leaves what every
/// other key finds unchanged, provided keys are distinct.
pub proof fn lemma_key_get_after_remove<T: Keyed>(s: Seq<T>, k: Seq<char>, i: int, other: Seq<char>)
    requires
        keys_unique(s),
        key_pos(s, k, i),
        other != k,
    ensures
        key_get(s.remove(i), other) == key_get(s, other),
{
    let t = s.remove(i);
    if key_in(s, other) {
        lemma_key_first(s, other);
        let j = choose|j: int| key_pos(s, other, j);
        let jj = if j < i { j } else { j - 1 };
        assert(j != i);
        assert(t[jj] == s[j]);
        assert forall|m: int| 0 <= m < jj implies t[m].key_view() != other by {
            let mm = if m < i { m } else { m + 1 };
            assert(t[m] == s[mm]);
        }
        assert(key_pos(t, other, jj));
        lemma_key_get_at(s, other, j);
        lemma_key_get_at(t, other, jj);
    } else {
        lemma_key_get_none(s, other);
        assert forall|m: int| 0 <= m < t.len() implies t[m].key_view() != other by {
            let mm = if m < i { m } else { m + 1 };
            assert(t[m] == s[mm]);
        }
        lemma_key_get_none(t, other);
    }
}


/// Removes the record with key `k`, if any: afterwards `k` finds nothing
/// and every other key finds what it found before.
pub fn drop_key<T: Keyed>(v: &mut Vec<T>, k: &str)
    requires
        keys_unique(old(v)@),
    ensures
        keys_unique(final(v)@),
        key_get(final(v)@, k@) is None,
        forall|o: Seq<char>| o != k@ ==> #[trigger] key_get(final(v)@, o) == key_get(old(v)@, o),
        !key_in(old(v)@, k@) ==> final(v)@ == old(v)@,
{
    let ghost v0 = v@;
    match find_key(v, k) {
        Some(i) => {
            let x = v.remove(i);
            proof {
                assert(v@ == v0.remove(i as int));
                assert forall|a: int, b: int| 0 <= a < b < v@.len() implies v@[a].key_view() != v@[b].key_view() by {
                    let aa = if a < i { a } else { a + 1 };
                    let bb = if b < i { b } else { b + 1 };
                    assert(v@[a] == v0[aa] && v@[b] == v0[bb]);
                }
                assert forall|j: int| 0 <= j < v@.len() implies v@[j].key_view() != k@ by {
                    let jj = if j < i { j } else { j + 1 };
                    assert(v@[j] == v0[jj]);
                    if jj < i {
                        assert(v0[jj].key_view() != v0[i as int].key_view());
                    } else {
                        assert(v0[i as int].key_view() != v0[jj].key_view());
                    }
                }
                lemma_key_get_none(v@, k@);
                assert forall|o: Seq<char>| o != k@ implies #[trigger] key_get(v@, o) == key_get(v0, o) by {
                    lemma_key_get_after_remove(v0, k@, i as int, o);
                }
            }
        },
        None => {
            proof {
                lemma_key_get_none(v@, k@);
            }
        },
    }
}

/// Removing the record at the first position of `k` from a list with
/// distinct keys leaves no record with `k`.
pub proof fn lemma_key_get_removed<T: Keyed>(s: Seq<T>, k: Seq<char>, i: int)
    requires
        key_pos(s, k, i),
        keys_unique(s),
    ensures
        key_get(s.remove(i), k) is None,
{
    let t = s.remove(i);
    assert forall|j: int| 0 <= j < t.len() implies t[j].key_view() != k by {
        if j < i {
            assert(t[j] == s[j]);
        } else {
            assert(t[j] == s[j + 1]);
            assert(s[i].key_view() != s[j + 1].key_view());
        }
    }
    lemma_key_get_none(t, k);
}


/// The first record with key `k`, to be changed in place, if any: what is
/// written through it takes that record's place, and nothing else changes.
pub fn get_key_mut<'a, T: Keyed>(v: &'a mut Vec<T>, k: &str) -> (r: Option<&'a mut T>)
    ensures
        r is None <==> key_get(old(v)@, k@) is None,
        r is None ==> final(v)@ == old(v)@,
        r matches Some(x) ==> key_get(old(v)@, k@) == Some(*x) && (exists|i: int| key_pos(old(v)@, k@, i)
            && final(v)@ == old(v)@.update(i, *final(x))),
{
    match find_key(v, k) {
        Some(i) => {
            proof {
                lemma_key_get_at(v@, k@, i as int);
            }
            Some(&mut v[i])
        },
        None => {
            proof {
                lemma_key_get_none(v@, k@);
            }
            None
        },
    }
}

} // verus!
