//! Text as sequences of characters: searching, splitting, trimming and decimal numbers.
use vstd::prelude::*;
use vstd::utf8::{decode_utf8, valid_utf8};

verus! {

/// `String::push` appends one character.
pub assume_specification[ String::push ](s: &mut String, c: char)
    ensures
        final(s)@ == old(s)@.push(c),
;

/// `p` stands at index `i` of `s`.
pub open spec fn occurs_at(s: Seq<char>, p: Seq<char>, i: int) -> bool {
    0 <= i && i + p.len() <= s.len() && s.subrange(i, i + p.len()) == p
}

/// `p` stands somewhere in `s`.
pub open spec fn contains_text(s: Seq<char>, p: Seq<char>) -> bool {
    exists|i: int| occurs_at(s, p, i)
}

/// `s` begins with `p`.
pub open spec fn has_prefix(s: Seq<char>, p: Seq<char>) -> bool {
    occurs_at(s, p, 0)
}

/// `s` ends with `p`.
pub open spec fn has_suffix(s: Seq<char>, p: Seq<char>) -> bool {
    occurs_at(s, p, s.len() - p.len())
}

/// `s` without the prefix `p`, where it has it.
pub open spec fn without_prefix(s: Seq<char>, p: Seq<char>) -> Seq<char> {
    if has_prefix(s, p) {
        s.skip(p.len() as int)
    } else {
        s
    }
}

/// `s` without the suffix `p`, where it has it.
pub open spec fn without_suffix(s: Seq<char>, p: Seq<char>) -> Seq<char> {
    if has_suffix(s, p) {
        s.take(s.len() - p.len())
    } else {
        s
    }
}

/// Index of the first `c`, or the length where there is none.
pub open spec fn first_of(s: Seq<char>, c: char) -> int
    decreases s.len(),
{
    if s.len() == 0 {
        0
    } else if s[0] == c {
        0
    } else {
        1 + first_of(s.skip(1), c)
    }
}

/// Index of the last `c`, or -1 where there is none.
pub open spec fn last_of(s: Seq<char>, c: char) -> int
    decreases s.len(),
{
    if s.len() == 0 {
        -1
    } else if s.last() == c {
        s.len() - 1
    } else {
        last_of(s.drop_last(), c)
    }
}

/// The pieces of `s` between the characters that `sep` picks out; always at least one.
pub open spec fn pieces(s: Seq<char>, sep: spec_fn(char) -> bool) -> Seq<Seq<char>>
    decreases s.len(),
{
    if s.len() == 0 {
        seq![Seq::<char>::empty()]
    } else {
        let p = pieces(s.drop_last(), sep);
        if sep(s.last()) {
            p.push(Seq::empty())
        } else {
            p.drop_last().push(p.last().push(s.last()))
        }
    }
}

/// Unicode white space.
pub open spec fn is_white(c: char) -> bool {
    let u = c as u32;
    ||| 0x09 <= u <= 0x0D
    ||| u == 0x20
    ||| u == 0x85
    ||| u == 0xA0
    ||| u == 0x1680
    ||| 0x2000 <= u <= 0x200A
    ||| u == 0x2028
    ||| u == 0x2029
    ||| u == 0x202F
    ||| u == 0x205F
    ||| u == 0x3000
}

/// `s` without white space at either end.
pub open spec fn trimmed(s: Seq<char>) -> Seq<char>
    decreases s.len(),
{
    if s.len() == 0 {
        s
    } else if is_white(s[0]) {
        trimmed(s.skip(1))
    } else if is_white(s.last()) {
        trimmed(s.drop_last())
    } else {
        s
    }
}

/// An ASCII digit.
pub open spec fn is_digit(c: char) -> bool {
    '0' <= c && c <= '9'
}

/// The character of a decimal digit.
pub open spec fn digit_char(d: int) -> char {
    (48 + d) as char
}

/// Decimal notation of `n`.
pub open spec fn decimal(n: nat) -> Seq<char>
    decreases n,
{
    if n < 10 {
        seq![digit_char(n as int)]
    } else {
        decimal(n / 10).push(digit_char((n % 10) as int))
    }
}

/// Value of a run of digits.
pub open spec fn digits_value(s: Seq<char>) -> nat
    decreases s.len(),
{
    if s.len() == 0 {
        0
    } else {
        digits_value(s.drop_last()) * 10 + (s.last() as u32 - 48) as nat
    }
}

/// Every character is a digit.
pub open spec fn all_digits(s: Seq<char>) -> bool {
    forall|i: int| 0 <= i < s.len() ==> is_digit(#[trigger] s[i])
}

/// The number that `s` writes in decimal, with an optional plus sign, up to `max`.
pub open spec fn number_in(s: Seq<char>, max: nat) -> Option<nat> {
    let d = without_prefix(s, seq!['+']);
    if d.len() > 0 && all_digits(d) && digits_value(d) <= max {
        Some(digits_value(d))
    } else {
        None
    }
}

/// The digits at the front of `s`.
pub open spec fn leading_digits(s: Seq<char>) -> Seq<char>
    decreases s.len(),
{
    if s.len() > 0 && is_digit(s[0]) {
        seq![s[0]] + leading_digits(s.skip(1))
    } else {
        Seq::empty()
    }
}

/// The characters of each of several texts.
pub open spec fn views(v: Seq<Vec<char>>) -> Seq<Seq<char>> {
    v.map_values(|x: Vec<char>| x@)
}

/// The characters of a string.
pub fn chars_of(s: &str) -> (r: Vec<char>)
    ensures
        r@ == s@,
{
    let mut r: Vec<char> = Vec::new();
    for c in it: s.chars()
        invariant
            r@ == it.seq().take(it.index() as int),
            it.seq() == s@,
    {
        r.push(c);
    }
    proof {
        assert(s@.take(s@.len() as int) =~= s@);
    }
    r
}

/// A string of the given characters.
pub fn string_of(s: &[char]) -> (r: String)
    ensures
        r@ == s@,
{
    let mut r: String = String::new();
    let mut i: usize = 0;
    while i < s.len()
        invariant
            i <= s.len(),
            r@ == s@.take(i as int),
        decreases s.len() - i,
    {
        r.push(s[i]);
        i = i + 1;
        proof {
            assert(s@.take(i as int) =~= s@.take(i - 1).push(s@[i - 1]));
        }
    }
    proof {
        assert(s@.take(s@.len() as int) =~= s@);
    }
    r
}

/// Appends to a text.
pub fn push_chars(out: &mut Vec<char>, s: &[char])
    ensures
        final(out)@ == old(out)@ + s@,
{
    crate::seqs::extend_range(out, s, 0, s.len());
    proof {
        assert(s@.subrange(0, s@.len() as int) =~= s@);
    }
}

/// `p` stands at index `i` of `s`.
pub fn is_at(s: &[char], p: &[char], i: usize) -> (b: bool)
    requires
        i <= s.len(),
    ensures
        b == occurs_at(s@, p@, i as int),
{
    if p.len() > s.len() - i {
        return false;
    }
    let mut k: usize = 0;
    while k < p.len()
        invariant
            k <= p.len(),
            i + p.len() <= s.len(),
            s@.subrange(i as int, i + k) == p@.take(k as int),
        decreases p.len() - k,
    {
        if s[i + k] != p[k] {
            proof {
                assert(s@.subrange(i as int, i + p.len())[k as int] != p@[k as int]);
            }
            return false;
        }
        k = k + 1;
        proof {
            assert(s@.subrange(i as int, i + k) =~= s@.subrange(i as int, i + k - 1).push(
                s@[i + k - 1],
            ));
            assert(p@.take(k as int) =~= p@.take(k - 1).push(p@[k - 1]));
        }
    }
    proof {
        assert(p@.take(p@.len() as int) =~= p@);
    }
    true
}

/// The two texts are the same.
pub fn same_text(s: &[char], p: &str) -> (b: bool)
    ensures
        b == (s@ == p@),
{
    let q: Vec<char> = chars_of(p);
    let b: bool = s.len() == q.len() && is_at(s, q.as_slice(), 0);
    proof {
        if s@.len() == q@.len() {
            assert(s@.subrange(0, q@.len() as int) =~= s@);
        }
    }
    b
}

/// The texts are the same.
pub fn equal(a: &str, b: &str) -> (e: bool)
    ensures
        e == (a@ == b@),
{
    let c: Vec<char> = chars_of(a);
    same_text(c.as_slice(), b)
}

/// Appends to a string.
pub fn append(out: &mut String, s: &str)
    ensures
        final(out)@ == old(out)@ + s@,
{
    let ghost before = out@;
    let c: Vec<char> = chars_of(s);
    let mut i: usize = 0;
    while i < c.len()
        invariant
            i <= c.len(),
            c@ == s@,
            out@ == before + c@.take(i as int),
        decreases c.len() - i,
    {
        out.push(c[i]);
        i = i + 1;
        proof {
            assert(c@.take(i as int) =~= c@.take(i - 1).push(c@[i - 1]));
            assert(out@ =~= before + c@.take(i as int));
        }
    }
    proof {
        assert(c@.take(c@.len() as int) =~= c@);
    }
}

/// The characters of each of several strings.
pub open spec fn texts(v: Seq<String>) -> Seq<Seq<char>> {
    v.map_values(|x: String| x@)
}

/// `s` stands before `t` in the order of their characters.
pub open spec fn text_less(s: Seq<char>, t: Seq<char>) -> bool
    decreases s.len(),
{
    if t.len() == 0 {
        false
    } else if s.len() == 0 {
        true
    } else if s[0] != t[0] {
        (s[0] as u32) < (t[0] as u32)
    } else {
        text_less(s.skip(1), t.skip(1))
    }
}

proof fn lemma_text_less_at(s: Seq<char>, t: Seq<char>, i: int)
    requires
        0 <= i <= s.len(),
        i <= t.len(),
        s.take(i) == t.take(i),
    ensures
        text_less(s, t) == text_less(s.skip(i), t.skip(i)),
    decreases i,
{
    if i == 0 {
        assert(s.skip(0) =~= s);
        assert(t.skip(0) =~= t);
    } else {
        assert(s[0] == s.take(i)[0] && t[0] == t.take(i)[0]);
        let (a, b) = (s.skip(1), t.skip(1));
        assert(a.take(i - 1) =~= s.take(i).skip(1));
        assert(b.take(i - 1) =~= t.take(i).skip(1));
        lemma_text_less_at(a, b, i - 1);
        assert(a.skip(i - 1) =~= s.skip(i));
        assert(b.skip(i - 1) =~= t.skip(i));
    }
}

/// `s` stands before `t` in the order of their characters.
pub fn less(s: &[char], t: &[char]) -> (b: bool)
    ensures
        b == text_less(s@, t@),
{
    let mut i: usize = 0;
    while i < s.len() && i < t.len() && s[i] == t[i]
        invariant
            i <= s.len(),
            i <= t.len(),
            s@.take(i as int) == t@.take(i as int),
        decreases s.len() - i,
    {
        i = i + 1;
        proof {
            assert(s@.take(i as int) =~= s@.take(i - 1).push(s@[i - 1]));
            assert(t@.take(i as int) =~= t@.take(i - 1).push(t@[i - 1]));
        }
    }
    proof {
        lemma_text_less_at(s@, t@, i as int);
    }
    if i == t.len() {
        false
    } else if i == s.len() {
        true
    } else {
        (s[i] as u32) < (t[i] as u32)
    }
}

proof fn lemma_code(a: char, b: char)
    requires
        a != b,
    ensures
        a as u32 != b as u32,
{
}

/// The order of texts is strict.
pub proof fn lemma_text_less_strict(s: Seq<char>, t: Seq<char>)
    ensures
        !text_less(s, s),
        text_less(s, t) ==> !text_less(t, s),
        text_less(s, t) || text_less(t, s) || s == t,
    decreases s.len(),
{
    if s.len() > 0 {
        lemma_text_less_strict(s.skip(1), s.skip(1));
        if t.len() > 0 && s[0] == t[0] {
            lemma_text_less_strict(s.skip(1), t.skip(1));
            if s.skip(1) == t.skip(1) {
                assert forall|i: int| 0 <= i < s.len() implies s[i] == t[i] by {
                    if i > 0 {
                        assert(s.skip(1)[i - 1] == t.skip(1)[i - 1]);
                    }
                }
                assert(s.len() == s.skip(1).len() + 1 && t.len() == t.skip(1).len() + 1);
                assert(s =~= t);
            }
        } else if t.len() > 0 {
            lemma_code(s[0], t[0]);
        }
    } else if t.len() == 0 {
        assert(s =~= t);
    }
}

/// The order of texts is transitive.
pub proof fn lemma_text_less_transitive(a: Seq<char>, b: Seq<char>, c: Seq<char>)
    requires
        text_less(a, b),
        text_less(b, c),
    ensures
        text_less(a, c),
    decreases a.len(),
{
    if a.len() > 0 && a[0] == b[0] && b[0] == c[0] {
        lemma_text_less_transitive(a.skip(1), b.skip(1), c.skip(1));
    }
}

/// `s` begins with `p`.
pub fn begins_with(s: &[char], p: &str) -> (b: bool)
    ensures
        b == has_prefix(s@, p@),
{
    let q: Vec<char> = chars_of(p);
    is_at(s, q.as_slice(), 0)
}

/// `s` ends with `p`.
pub fn finishes_with(s: &[char], p: &str) -> (b: bool)
    ensures
        b == has_suffix(s@, p@),
{
    let q: Vec<char> = chars_of(p);
    if q.len() > s.len() {
        return false;
    }
    is_at(s, q.as_slice(), s.len() - q.len())
}

/// `p` stands somewhere in `s`.
pub fn contains(s: &[char], p: &str) -> (b: bool)
    ensures
        b == contains_text(s@, p@),
{
    let q: Vec<char> = chars_of(p);
    let mut i: usize = 0;
    while i < s.len()
        invariant
            i <= s.len(),
            q@ == p@,
            forall|k: int| 0 <= k < i ==> !occurs_at(s@, p@, k),
        decreases s.len() - i,
    {
        if is_at(s, q.as_slice(), i) {
            return true;
        }
        i = i + 1;
    }
    let last: bool = is_at(s, q.as_slice(), i);
    proof {
        if !last {
            assert forall|k: int| !occurs_at(s@, p@, k) by {}
        }
    }
    last
}

/// Index after the last occurrence of `p`.
pub fn after_last(s: &[char], p: &str) -> (r: Option<usize>)
    ensures
        match r {
            Some(j) => j <= s.len() && occurs_at(s@, p@, j - p@.len()) && forall|k: int|
                k > j - p@.len() ==> !occurs_at(s@, p@, k),
            None => forall|k: int| !occurs_at(s@, p@, k),
        },
{
    let q: Vec<char> = chars_of(p);
    let mut i: usize = s.len();
    loop
        invariant
            i <= s.len(),
            q@ == p@,
            forall|k: int| k > i ==> !occurs_at(s@, p@, k),
        decreases i,
    {
        if is_at(s, q.as_slice(), i) {
            return Some(i + q.len());
        }
        if i == 0 {
            return None;
        }
        i = i - 1;
    }
}

/// Copy of `s` from `from` on.
pub fn tail(s: &[char], from: usize) -> (r: Vec<char>)
    requires
        from <= s.len(),
    ensures
        r@ == s@.skip(from as int),
{
    crate::seqs::slice_copy(s, from, s.len())
}

/// `s` without the prefix `p`, where it has it.
pub fn strip_front(s: &[char], p: &str) -> (r: Vec<char>)
    ensures
        r@ == without_prefix(s@, p@),
{
    let q: Vec<char> = chars_of(p);
    if is_at(s, q.as_slice(), 0) {
        tail(s, q.len())
    } else {
        let r: Vec<char> = tail(s, 0);
        proof {
            assert(s@.skip(0) =~= s@);
        }
        r
    }
}

/// `s` without the suffix `p`, where it has it.
pub fn strip_back(s: &[char], p: &str) -> (r: Vec<char>)
    ensures
        r@ == without_suffix(s@, p@),
{
    let q: Vec<char> = chars_of(p);
    if q.len() <= s.len() && is_at(s, q.as_slice(), s.len() - q.len()) {
        crate::seqs::prefix(s, s.len() - q.len())
    } else {
        let r: Vec<char> = tail(s, 0);
        proof {
            assert(s@.skip(0) =~= s@);
        }
        r
    }
}

/// What `first_of` finds.
pub proof fn lemma_first_of(s: Seq<char>, c: char)
    ensures
        0 <= first_of(s, c) <= s.len(),
        first_of(s, c) < s.len() ==> s[first_of(s, c)] == c,
        forall|i: int| 0 <= i < first_of(s, c) ==> s[i] != c,
    decreases s.len(),
{
    if s.len() > 0 && s[0] != c {
        let t = s.skip(1);
        lemma_first_of(t, c);
        assert forall|i: int| 0 <= i < first_of(s, c) implies s[i] != c by {
            if i > 0 {
                assert(t[i - 1] == s[i]);
            }
        }
    }
}

proof fn lemma_first_of_is(s: Seq<char>, c: char, k: int)
    requires
        0 <= k <= s.len(),
        k < s.len() ==> s[k] == c,
        forall|i: int| 0 <= i < k ==> s[i] != c,
    ensures
        first_of(s, c) == k,
{
    lemma_first_of(s, c);
    let f = first_of(s, c);
    if f < k {
        assert(s[f] != c);
    }
    if k < f {
        assert(s[k] != c);
    }
}

/// Index of the first `c`.
pub fn find_char(s: &[char], c: char) -> (k: usize)
    ensures
        k == first_of(s@, c),
        k <= s.len(),
{
    let mut k: usize = 0;
    while k < s.len() && s[k] != c
        invariant
            k <= s.len(),
            forall|i: int| 0 <= i < k ==> s@[i] != c,
        decreases s.len() - k,
    {
        k = k + 1;
    }
    proof {
        lemma_first_of_is(s@, c, k as int);
    }
    k
}

/// What `last_of` finds.
pub proof fn lemma_last_of(s: Seq<char>, c: char)
    ensures
        -1 <= last_of(s, c) < s.len(),
        last_of(s, c) >= 0 ==> s[last_of(s, c)] == c,
        forall|i: int| last_of(s, c) < i < s.len() ==> s[i] != c,
    decreases s.len(),
{
    if s.len() > 0 && s.last() != c {
        let t = s.drop_last();
        lemma_last_of(t, c);
        assert forall|i: int| last_of(s, c) < i < s.len() implies s[i] != c by {
            if i < s.len() - 1 {
                assert(t[i] == s[i]);
            }
        }
    }
}

/// Index of the last `c`.
pub fn rfind_char(s: &[char], c: char) -> (r: Option<usize>)
    ensures
        match r {
            Some(k) => k == last_of(s@, c) && k < s.len(),
            None => last_of(s@, c) == -1,
        },
{
    let mut k: usize = s.len();
    while k > 0 && s[k - 1] != c
        invariant
            k <= s.len(),
            forall|i: int| k <= i < s.len() ==> s@[i] != c,
        decreases k,
    {
        k = k - 1;
    }
    proof {
        lemma_last_of(s@, c);
        let l = last_of(s@, c);
        if l >= k {
            assert(s@[l] != c);
        }
        if l < k - 1 {
            assert(s@[k - 1] != c);
        }
    }
    if k > 0 {
        Some(k - 1)
    } else {
        None
    }
}

/// White space.
pub fn white(c: char) -> (b: bool)
    ensures
        b == is_white(c),
{
    let u: u32 = c as u32;
    (0x09 <= u && u <= 0x0D) || u == 0x20 || u == 0x85 || u == 0xA0 || u == 0x1680 || (0x2000 <= u
        && u <= 0x200A) || u == 0x2028 || u == 0x2029 || u == 0x202F || u == 0x205F || u == 0x3000
}

/// `s` without white space at either end.
pub fn trim(s: &[char]) -> (r: Vec<char>)
    ensures
        r@ == trimmed(s@),
{
    let mut a: usize = 0;
    let mut b: usize = s.len();
    proof {
        assert(s@.subrange(0, s@.len() as int) =~= s@);
    }
    while a < b
        invariant_except_break
            a <= b <= s.len(),
            trimmed(s@) == trimmed(s@.subrange(a as int, b as int)),
        ensures
            a <= b <= s.len(),
            trimmed(s@) == s@.subrange(a as int, b as int),
        decreases b - a,
    {
        let ghost cur = s@.subrange(a as int, b as int);
        if white(s[a]) {
            proof {
                assert(cur.skip(1) =~= s@.subrange(a + 1, b as int));
            }
            a = a + 1;
        } else if white(s[b - 1]) {
            proof {
                assert(cur.drop_last() =~= s@.subrange(a as int, b - 1));
            }
            b = b - 1;
        } else {
            break;
        }
    }
    crate::seqs::slice_copy(s, a, b)
}

/// The pieces of `s` between the characters that `sep` or `alt` matches.
pub fn split(s: &[char], sep: char, alt: char) -> (r: Vec<Vec<char>>)
    ensures
        views(r@) == pieces(s@, |c: char| c == sep || c == alt),
        r@.len() >= 1,
{
    let ghost by = |c: char| c == sep || c == alt;
    let mut r: Vec<Vec<char>> = Vec::new();
    let mut cur: Vec<char> = Vec::new();
    let mut i: usize = 0;
    proof {
        assert(s@.take(0) =~= Seq::<char>::empty());
        assert(views(r@).push(cur@) =~= pieces(s@.take(0), by));
    }
    while i < s.len()
        invariant
            i <= s.len(),
            by == (|c: char| c == sep || c == alt),
            views(r@).push(cur@) == pieces(s@.take(i as int), by),
        decreases s.len() - i,
    {
        let c: char = s[i];
        let ghost r0 = r@;
        let ghost cur0 = cur@;
        proof {
            assert(s@.take(i + 1).drop_last() =~= s@.take(i as int));
            assert(s@.take(i + 1).last() == c);
        }
        if c == sep || c == alt {
            let done: Vec<char> = cur;
            r.push(done);
            cur = Vec::new();
            proof {
                assert(views(r@) =~= views(r0).push(cur0));
            }
        } else {
            cur.push(c);
            proof {
                let p = views(r0).push(cur0);
                assert(p.drop_last() =~= views(r0));
                assert(views(r0).push(cur@) =~= p.drop_last().push(p.last().push(c)));
            }
        }
        i = i + 1;
    }
    let ghost r0 = r@;
    r.push(cur);
    proof {
        assert(s@.take(s@.len() as int) =~= s@);
        assert(views(r@) =~= views(r0).push(cur@));
    }
    r
}

/// An ASCII digit.
pub fn digit(c: char) -> (b: bool)
    ensures
        b == is_digit(c),
{
    '0' <= c && c <= '9'
}

/// The digits at the front of `s`.
pub fn front_digits(s: &[char]) -> (r: Vec<char>)
    ensures
        r@ == leading_digits(s@),
{
    let mut r: Vec<char> = Vec::new();
    let mut i: usize = 0;
    proof {
        assert(s@.skip(0) =~= s@);
        assert(r@ + leading_digits(s@) =~= leading_digits(s@));
    }
    while i < s.len() && digit(s[i])
        invariant
            i <= s.len(),
            r@ + leading_digits(s@.skip(i as int)) == leading_digits(s@),
        decreases s.len() - i,
    {
        let ghost r0 = r@;
        r.push(s[i]);
        proof {
            let t = s@.skip(i as int);
            assert(t.skip(1) =~= s@.skip(i + 1));
            assert(r0 + (seq![s@[i as int]] + leading_digits(t.skip(1))) =~= r@ + leading_digits(
                s@.skip(i + 1),
            ));
        }
        i = i + 1;
    }
    proof {
        assert(leading_digits(s@.skip(i as int)) =~= Seq::<char>::empty());
        assert(r@ + Seq::<char>::empty() =~= r@);
    }
    r
}

proof fn lemma_prefix_value(s: Seq<char>, k: int)
    requires
        0 <= k <= s.len(),
        all_digits(s),
    ensures
        digits_value(s.take(k)) <= digits_value(s),
    decreases s.len() - k,
{
    if k < s.len() {
        lemma_prefix_value(s, k + 1);
        assert(s.take(k + 1).drop_last() =~= s.take(k));
        assert(s.take(k + 1).last() == s[k]);
        assert(is_digit(s[k]));
        assert(digits_value(s.take(k + 1)) >= digits_value(s.take(k)));
    } else {
        assert(s.take(k) =~= s);
    }
}

/// The number that `s` writes in decimal, where it fits under `max`.
pub fn parse_number(s: &[char], max: u64) -> (r: Option<u64>)
    ensures
        match r {
            Some(v) => number_in(s@, max as nat) == Some(v as nat),
            None => number_in(s@, max as nat) is None,
        },
{
    let d: Vec<char> = strip_front(s, "+");
    proof {
        reveal_strlit("+");
        assert("+"@ =~= seq!['+']);
    }
    if d.len() == 0 {
        return None;
    }
    let mut v: u64 = 0;
    let mut i: usize = 0;
    while i < d.len()
        invariant
            i <= d.len(),
            d@ == without_prefix(s@, seq!['+']),
            d@.len() > 0,
            forall|k: int| 0 <= k < i ==> is_digit(#[trigger] d@[k]),
            v == digits_value(d@.take(i as int)),
            v <= max,
        decreases d.len() - i,
    {
        let c: char = d[i];
        if !digit(c) {
            proof {
                assert(!is_digit(d@[i as int]));
            }
            return None;
        }
        let x: u64 = (c as u32 - 48) as u64;
        proof {
            assert(d@.take(i + 1).drop_last() =~= d@.take(i as int));
            assert(d@.take(i + 1).last() == c);
            assert(digits_value(d@.take(i + 1)) == v * 10 + x);
        }
        if x > max || v > max / 10 || v * 10 > max - x {
            proof {
                if all_digits(d@) {
                    lemma_prefix_value(d@, i + 1);
                    assert(v * 10 + x > max);
                }
            }
            return None;
        }
        v = v * 10 + x;
        i = i + 1;
    }
    proof {
        assert(d@.take(d@.len() as int) =~= d@);
    }
    Some(v)
}

/// Decimal notation of `n`.
pub fn to_decimal(n: u64) -> (r: Vec<char>)
    ensures
        r@ == decimal(n as nat),
    decreases n,
{
    let d: u8 = (n % 10) as u8;
    let c: char = (48 + d) as char;
    if n < 10 {
        vec![c]
    } else {
        let mut r: Vec<char> = to_decimal(n / 10);
        r.push(c);
        r
    }
}

/// Decimal notation is faithful: parsing it gives the number back.
pub proof fn law_decimal_round_trips(n: nat)
    ensures
        all_digits(decimal(n)),
        decimal(n).len() >= 1,
        digits_value(decimal(n)) == n,
        number_in(decimal(n), n) == Some(n),
    decreases n,
{
    let s = decimal(n);
    if n >= 10 {
        law_decimal_round_trips(n / 10);
        let t = decimal(n / 10);
        assert(s.drop_last() =~= t);
        assert forall|i: int| 0 <= i < s.len() implies is_digit(#[trigger] s[i]) by {
            if i < t.len() {
                assert(is_digit(t[i]));
            }
        }
    } else {
        assert(s.drop_last() =~= Seq::<char>::empty());
        assert(digits_value(s.drop_last()) == 0);
    }
    assert(is_digit(s[0]));
    if has_prefix(s, seq!['+']) {
        assert(s.subrange(0, 1)[0] == '+');
    }
}

/// What the `Debug` of `str` writes for a text: in quotes, with escapes.
pub uninterp spec fn debug_quoted(text: Seq<char>) -> Seq<char>;

/// A text in quotes, for a message.
///
/// Calls the `Debug` of `str`. The result is a function of the text alone.
#[verifier::external_body]
pub(crate) fn quoted(text: &str) -> (r: String)
    ensures
        r@ == debug_quoted(text@),
{
    format!("{:?}", text)
}

/// Reads bytes as text.
///
/// Calls `std::str::from_utf8`, which succeeds exactly on valid UTF-8 and gives the text it encodes.
#[verifier::external_body]
pub(crate) fn text_of(bytes: &[u8]) -> (r: Option<&str>)
    ensures
        match r {
            Some(s) => valid_utf8(bytes@) && s@ == decode_utf8(bytes@),
            None => !valid_utf8(bytes@),
        },
{
    std::str::from_utf8(bytes).ok()
}

} // verus!
