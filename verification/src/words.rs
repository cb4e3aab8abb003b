//! Reading commands: splitting text into words at white space, reading
//! decimal numbers the way Rust's `str::parse` reads them, and padding
//! text to a width.
use vstd::prelude::*;
use crate::text::{chars_of, push_char, string_of};

verus! {

/// A white-space character (Unicode `White_Space`, as `char::is_whitespace`).
pub open spec fn is_ws(c: char) -> bool {
    c == ' ' || c == '\t' || c == '\n' || c == '\x0B' || c == '\x0C' || c == '\r' || c == '\u{85}' || c == '\u{A0}'
        || c == '\u{1680}' || ('\u{2000}' <= c && c <= '\u{200A}') || c == '\u{2028}' || c == '\u{2029}' || c == '\u{202F}'
        || c == '\u{205F}' || c == '\u{3000}'
}

pub fn is_ws_char(c: char) -> (r: bool)
    ensures
        r == is_ws(c),
{
    c == ' ' || c == '\t' || c == '\n' || c == '\x0B' || c == '\x0C' || c == '\r' || c == '\u{85}' || c == '\u{A0}'
        || c == '\u{1680}' || ('\u{2000}' <= c && c <= '\u{200A}') || c == '\u{2028}' || c == '\u{2029}' || c == '\u{202F}'
        || c == '\u{205F}' || c == '\u{3000}'
}

/// The words of `s`: its longest runs of characters other than white space,
/// in order.
pub open spec fn words(s: Seq<char>) -> Seq<Seq<char>>
    decreases s.len(),
{
    if s.len() == 0 {
        Seq::empty()
    } else {
        let w = words(s.drop_last());
        let c = s.last();
        if is_ws(c) {
            w
        } else if s.len() >= 2 && !is_ws(s[s.len() - 2]) {
            w.update(w.len() - 1, w.last().push(c))
        } else {
            w.push(seq![c])
        }
    }
}

proof fn lemma_words_last(s: Seq<char>)
    requires
        s.len() > 0,
        !is_ws(s.last()),
    ensures
        words(s).len() > 0,
    decreases s.len(),
{
    if s.len() >= 2 && !is_ws(s[s.len() - 2]) {
        assert(s.drop_last().last() == s[s.len() - 2]);
        lemma_words_last(s.drop_last());
    }
}

/// The words of `s`, split at white space (`str::split_whitespace`).
pub fn split_ws(s: &str) -> (r: Vec<String>)
    ensures
        r@.map_values(|w: String| w@) == words(s@),
{
    let cs = chars_of(s);
    let mut out: Vec<String> = Vec::new();
    let mut cur = String::new();
    let mut in_word = false;
    let mut i: usize = 0;
    while i < cs.len()
        invariant
            cs@ == s@,
            i <= cs@.len(),
            in_word == (i > 0 && !is_ws(cs@[i - 1])),
            !in_word ==> cur@.len() == 0 && out@.map_values(|w: String| w@) == words(cs@.take(i as int)),
            in_word ==> cur@.len() > 0 && out@.map_values(|w: String| w@).push(cur@) == words(cs@.take(i as int)),
        decreases cs.len() - i,
    {
        let c = cs[i];
        let ghost pre = cs@.take(i as int);
        let ghost post = cs@.take(i + 1);
        proof {
            assert(post.drop_last() =~= pre);
            assert(post.last() == c);
            if i > 0 {
                assert(post[post.len() - 2] == cs@[i - 1]);
            }
        }
        if is_ws_char(c) {
            if in_word {
                let w = cur;
                cur = String::new();
                let ghost o0 = out@.map_values(|w: String| w@);
                out.push(w);
                assert(out@.map_values(|w: String| w@) =~= o0.push(w@));
            }
            in_word = false;
        } else {
            let ghost o0 = out@.map_values(|w: String| w@);
            let ghost c0 = cur@;
            push_char(&mut cur, c);
            proof {
                if in_word {
                    assert(words(pre) == o0.push(c0));
                    assert(words(post) =~= o0.push(c0.push(c)));
                } else {
                    if i > 0 {
                        assert(is_ws(cs@[i - 1]));
                    }
                    assert(words(post) =~= o0.push(seq![c]));
                    assert(cur@ =~= seq![c]);
                }
            }
            in_word = true;
        }
        i = i + 1;
    }
    assert(cs@.take(i as int) =~= s@);
    if in_word {
        let ghost o0 = out@.map_values(|w: String| w@);
        let ghost c0 = cur@;
        out.push(cur);
        assert(out@.map_values(|w: String| w@) =~= o0.push(c0));
    }
    out
}

/// The value of a decimal digit, or -1.
pub open spec fn digit_value(c: char) -> int {
    if '0' <= c && c <= '9' {
        (c as int) - ('0' as int)
    } else {
        -1
    }
}

/// Every character is a decimal digit.
pub open spec fn all_digits(s: Seq<char>) -> bool {
    forall|i: int| 0 <= i < s.len() ==> '0' <= #[trigger] s[i] && s[i] <= '9'
}

/// The number that decimal digits `s` spell.
pub open spec fn digits_value(s: Seq<char>) -> int
    decreases s.len(),
{
    if s.len() == 0 {
        0
    } else {
        digits_value(s.drop_last()) * 10 + digit_value(s.last())
    }
}

/// The digits of an unsigned number, without an optional leading `+`.
pub open spec fn unsigned_digits(s: Seq<char>) -> Seq<char> {
    if s.len() > 0 && s[0] == '+' {
        s.skip(1)
    } else {
        s
    }
}

/// The unsigned number `s` spells, if it spells one no larger than `max`:
/// an optional `+` and at least one digit, nothing else.
pub open spec fn parse_unsigned(s: Seq<char>, max: int) -> Option<int> {
    let d = unsigned_digits(s);
    if d.len() > 0 && all_digits(d) && digits_value(d) <= max {
        Some(digits_value(d))
    } else {
        None
    }
}

/// The signed number `s` spells, if it spells one in `[min, max]`: an
/// optional `+` or `-` and at least one digit, nothing else.
pub open spec fn parse_signed(s: Seq<char>, min: int, max: int) -> Option<int> {
    if s.len() > 0 && s[0] == '-' {
        let d = s.skip(1);
        if d.len() > 0 && all_digits(d) && -digits_value(d) >= min {
            Some(-digits_value(d))
        } else {
            None
        }
    } else {
        let d = unsigned_digits(s);
        if d.len() > 0 && all_digits(d) && digits_value(d) <= max {
            Some(digits_value(d))
        } else {
            None
        }
    }
}

proof fn lemma_digits_value_nonneg(s: Seq<char>)
    requires
        all_digits(s),
    ensures
        digits_value(s) >= 0,
    decreases s.len(),
{
    if s.len() > 0 {
        assert(all_digits(s.drop_last())) by {
            assert forall|i: int| 0 <= i < s.drop_last().len() implies '0' <= #[trigger] s.drop_last()[i] && s.drop_last()[i] <= '9' by {
                assert(s.drop_last()[i] == s[i]);
            }
        }
        lemma_digits_value_nonneg(s.drop_last());
        assert('0' <= s[s.len() - 1] && s[s.len() - 1] <= '9');
    }
}

proof fn lemma_digits_value_mono(s: Seq<char>, n: int)
    requires
        all_digits(s),
        0 <= n <= s.len(),
    ensures
        digits_value(s.take(n)) <= digits_value(s),
    decreases s.len() - n,
{
    if n < s.len() {
        lemma_digits_value_mono(s, n + 1);
        assert(s.take(n + 1).drop_last() =~= s.take(n));
        assert(all_digits(s.take(n))) by {
            assert forall|i: int| 0 <= i < s.take(n).len() implies '0' <= #[trigger] s.take(n)[i] && s.take(n)[i] <= '9' by {
                assert(s.take(n)[i] == s[i]);
            }
        }
        lemma_digits_value_nonneg(s.take(n));
        assert(s.take(n + 1).last() == s[n]);
        assert('0' <= s[n] && s[n] <= '9');
        assert(digits_value(s.take(n + 1)) == digits_value(s.take(n)) * 10 + digit_value(s[n]));
    } else {
        assert(s.take(n) =~= s);
    }
}

/// Reads the digits `d[start..]` as a number no larger than `max`; none when
/// a character is not a digit, there are no digits, or the number is larger.
fn read_digits(d: &Vec<char>, start: usize, max: u64) -> (r: Option<u64>)
    requires
        start <= d@.len(),
    ensures
        ({
            let t = d@.skip(start as int);
            match r {
                Some(v) => t.len() > 0 && all_digits(t) && v == digits_value(t) && v <= max,
                None => !(t.len() > 0 && all_digits(t) && digits_value(t) <= max),
            }
        }),
{
    let ghost t = d@.skip(start as int);
    if start >= d.len() {
        return None;
    }
    let mut v: u64 = 0;
    let mut i: usize = start;
    while i < d.len()
        invariant
            start <= i <= d@.len(),
            t == d@.skip(start as int),
            all_digits(t.take(i - start)),
            v == digits_value(t.take(i - start)),
            v <= max,
        decreases d.len() - i,
    {
        let c = d[i];
        proof {
            assert(t[i - start] == c);
            assert(t.take(i - start + 1).drop_last() =~= t.take(i - start));
            assert(t.take(i - start + 1).last() == c);
        }
        if c < '0' || c > '9' {
            proof {
                assert(!all_digits(t)) by {
                    assert(!('0' <= t[i - start] && t[i - start] <= '9'));
                }
            }
            return None;
        }
        let dv = (c as u64) - ('0' as u64);
        if dv > max {
            proof {
                assert(digits_value(t.take(i - start + 1)) == v * 10 + dv);
                if all_digits(t) {
                    lemma_digits_value_mono(t, i - start + 1);
                    assert(all_digits(t.take(i - start))) by {
                        assert forall|j: int| 0 <= j < t.take(i - start).len() implies '0' <= #[trigger] t.take(i - start)[j] && t.take(i - start)[j] <= '9' by {
                            assert(t.take(i - start)[j] == t[j]);
                        }
                    }
                    lemma_digits_value_nonneg(t.take(i - start));
                }
            }
            return None;
        }
        if v > (max - dv) / 10 {
            proof {
                assert(digits_value(t.take(i - start + 1)) == v * 10 + dv);
                assert(v * 10 + dv > max) by (nonlinear_arith)
                    requires
                        v > (max - dv) / 10,
                        dv <= 9,
                        dv <= max || v * 10 + dv > max,
                ;
                assert(all_digits(t.take(i - start + 1))) by {
                    assert forall|j: int| 0 <= j < t.take(i - start + 1).len() implies '0' <= #[trigger] t.take(i - start + 1)[j] && t.take(i - start + 1)[j] <= '9' by {
                        if j < i - start {
                            assert(t.take(i - start + 1)[j] == t.take(i - start)[j]);
                        }
                    }
                }
                if all_digits(t) {
                    lemma_digits_value_mono(t, i - start + 1);
                }
            }
            return None;
        }
        proof {
            assert(v * 10 + dv <= max) by (nonlinear_arith)
                requires
                    v <= (max - dv) / 10,
                    dv <= max,
            ;
            assert(all_digits(t.take(i - start + 1))) by {
                assert forall|j: int| 0 <= j < t.take(i - start + 1).len() implies '0' <= #[trigger] t.take(i - start + 1)[j] && t.take(i - start + 1)[j] <= '9' by {
                    if j < i - start {
                        assert(t.take(i - start + 1)[j] == t.take(i - start)[j]);
                    }
                }
            }
        }
        v = v * 10 + dv;
        i = i + 1;
    }
    assert(t.take(i - start) =~= t);
    Some(v)
}

/// `str::parse::<usize>`: an optional `+` and decimal digits whose value
/// fits in `usize`.
pub fn parse_usize(s: &str) -> (r: Option<usize>)
    ensures
        match r {
            Some(v) => parse_unsigned(s@, usize::MAX as int) == Some(v as int),
            None => parse_unsigned(s@, usize::MAX as int) is None,
        },
{
    let cs = chars_of(s);
    let start: usize = if cs.len() > 0 && cs[0] == '+' { 1 } else { 0 };
    assert(cs@.skip(start as int) =~= unsigned_digits(s@));
    match read_digits(&cs, start, usize::MAX as u64) {
        Some(v) => Some(v as usize),
        None => None,
    }
}

/// `str::parse::<i32>`: an optional sign and decimal digits whose value
/// fits in `i32`.
pub fn parse_i32(s: &str) -> (r: Option<i32>)
    ensures
        match r {
            Some(v) => parse_signed(s@, i32::MIN as int, i32::MAX as int) == Some(v as int),
            None => parse_signed(s@, i32::MIN as int, i32::MAX as int) is None,
        },
{
    let cs = chars_of(s);
    if cs.len() > 0 && cs[0] == '-' {
        assert(cs@.skip(1) =~= s@.skip(1));
        match read_digits(&cs, 1, 2147483648) {
            Some(v) => {
                let n: i64 = -(v as i64);
                Some(n as i32)
            },
            None => None,
        }
    } else {
        let start: usize = if cs.len() > 0 && cs[0] == '+' { 1 } else { 0 };
        assert(cs@.skip(start as int) =~= unsigned_digits(s@));
        match read_digits(&cs, start, 2147483647) {
            Some(v) => Some(v as i32),
            None => None,
        }
    }
}

/// `n` spaces.
pub open spec fn spaces(n: int) -> Seq<char>
    decreases n,
{
    if n <= 0 {
        Seq::empty()
    } else {
        spaces(n - 1).push(' ')
    }
}

/// `s` padded with spaces on the right to `width` characters (`{:<width}`).
pub open spec fn pad_right(s: Seq<char>, width: int) -> Seq<char> {
    s + spaces(width - s.len())
}

/// Appends `t` padded with spaces on the right to `width` characters.
pub fn push_padded(out: &mut String, t: &str, width: usize)
    ensures
        final(out)@ == old(out)@ + pad_right(t@, width as int),
{
    crate::text::push_str(out, t);
    let n = t.unicode_len();
    let ghost base = out@;
    let mut i: usize = n;
    while i < width
        invariant
            n == t@.len(),
            n <= i,
            i <= width || n >= width,
            n >= width ==> i == n,
            out@ == base + spaces(i - n),
        decreases width - i,
    {
        push_char(out, ' ');
        i = i + 1;
    }
    proof {
        if n >= width {
            assert(i == n);
            assert(spaces(width - n) =~= Seq::<char>::empty());
            assert(spaces(i - n) =~= Seq::<char>::empty());
        } else {
            assert(i == width);
        }
    }
    assert(out@ =~= old(out)@ + pad_right(t@, width as int));
}


/// The characters `cs[lo..hi]` as a string.
pub fn chars_string(cs: &Vec<char>, lo: usize, hi: usize) -> (r: String)
    requires
        lo <= hi <= cs@.len(),
    ensures
        r@ == cs@.subrange(lo as int, hi as int),
{
    let mut out = String::new();
    let mut i: usize = lo;
    while i < hi
        invariant
            lo <= i <= hi,
            hi <= cs@.len(),
            out@ == cs@.subrange(lo as int, i as int),
        decreases hi - i,
    {
        push_char(&mut out, cs[i]);
        i = i + 1;
        assert(out@ =~= cs@.subrange(lo as int, i as int));
    }
    out
}

/// `i` is the first position of `c` in `s`.
pub open spec fn is_first_char(s: Seq<char>, c: char, i: int) -> bool {
    &&& 0 <= i < s.len()
    &&& s[i] == c
    &&& forall|j: int| 0 <= j < i ==> s[j] != c
}

/// What `str::split_once` with a character gives: the text before the
/// first `c` and the text after it, or nothing where `c` does not occur.
pub open spec fn split_at_char(s: Seq<char>, c: char) -> Option<(Seq<char>, Seq<char>)> {
    if exists|i: int| is_first_char(s, c, i) {
        let i = choose|i: int| is_first_char(s, c, i);
        Some((s.take(i), s.skip(i + 1)))
    } else {
        None
    }
}

/// A character has one first position.
pub proof fn lemma_first_char_unique(s: Seq<char>, c: char, i: int, k: int)
    requires
        is_first_char(s, c, i),
        is_first_char(s, c, k),
    ensures
        i == k,
{
    if k < i {
        assert(s[k] != c);
    } else if i < k {
        assert(s[i] != c);
    }
}

/// Splits `s` at the first `c` (`str::split_once`).
pub fn split_once(s: &str, c: char) -> (r: Option<(String, String)>)
    ensures
        match r {
            Some((a, b)) => split_at_char(s@, c) == Some((a@, b@)),
            None => split_at_char(s@, c) is None,
        },
{
    let cs = chars_of(s);
    let mut i: usize = 0;
    while i < cs.len()
        invariant
            cs@ == s@,
            i <= cs@.len(),
            forall|j: int| 0 <= j < i ==> cs@[j] != c,
        decreases cs.len() - i,
    {
        if cs[i] == c {
            let a = chars_string(&cs, 0, i);
            let b = chars_string(&cs, i + 1, cs.len());
            proof {
                assert(is_first_char(s@, c, i as int));
                let k = choose|k: int| is_first_char(s@, c, k);
                lemma_first_char_unique(s@, c, i as int, k);
                assert(a@ =~= s@.take(i as int));
                assert(b@ =~= s@.skip(i + 1));
            }
            return Some((a, b));
        }
        i = i + 1;
    }
    proof {
        assert forall|k: int| !is_first_char(s@, c, k) by {
            if is_first_char(s@, c, k) {
                assert(cs@[k] != c);
            }
        }
    }
    None
}

/// The pieces of `s` between the occurrences of `c` (`str::split` with a
/// character): one more piece than there are `c`s, empty pieces included.
pub open spec fn split_char(s: Seq<char>, c: char) -> Seq<Seq<char>>
    decreases s.len(),
{
    if exists|i: int| is_first_char(s, c, i) {
        let i = choose|i: int| is_first_char(s, c, i);
        seq![s.take(i)] + split_char(s.skip(i + 1), c)
    } else {
        seq![s]
    }
}

/// Splitting at the first `c` and then splitting the rest splits the whole.
pub proof fn lemma_split_step(s: Seq<char>, c: char)
    ensures
        match split_at_char(s, c) {
            Some((a, b)) => split_char(s, c) == seq![a] + split_char(b, c),
            None => split_char(s, c) == seq![s],
        },
{
}

/// `s.split(c)`, each piece as a string.
pub fn split_text(s: &str, c: char) -> (r: Vec<String>)
    ensures
        r@.map_values(|x: String| x@) == split_char(s@, c),
{
    let mut out: Vec<String> = Vec::new();
    let mut rest = string_of(s);
    loop
        invariant
            out@.map_values(|x: String| x@) + split_char(rest@, c) == split_char(s@, c),
        decreases rest@.len(),
    {
        let ghost r0 = rest@;
        let ghost o0 = out@.map_values(|x: String| x@);
        proof {
            lemma_split_step(r0, c);
        }
        match split_once(rest.as_str(), c) {
            Some((a, b)) => {
                proof {
                    let i = choose|i: int| is_first_char(r0, c, i);
                    assert(b@.len() < r0.len());
                }
                let ghost av = a@;
                out.push(a);
                rest = b;
                proof {
                    assert(out@.map_values(|x: String| x@) =~= o0.push(av));
                    assert(out@.map_values(|x: String| x@) + split_char(rest@, c) =~= o0 + split_char(r0, c));
                }
            },
            None => {
                out.push(rest);
                proof {
                    assert(out@.map_values(|x: String| x@) =~= o0 + split_char(r0, c));
                }
                return out;
            },
        }
    }
}

} // verus!
