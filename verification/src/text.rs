use vstd::prelude::*;
use vstd::string::StrSliceExecFns;

verus! {

/// `String::push` from std: appends one character to the end of the string.
#[verifier::external_body]
pub(crate) fn push_char(s: &mut String, c: char)
    ensures
        final(s)@ == old(s)@.push(c),
{
    s.push(c);
}

/// The characters of `s`, in order.
pub fn chars_of(s: &str) -> (v: Vec<char>)
    ensures
        v@ == s@,
{
    let n = s.unicode_len();
    let mut v: Vec<char> = Vec::new();
    let mut i: usize = 0;
    while i < n
        invariant
            n == s@.len(),
            i <= n,
            v@ == s@.take(i as int),
        decreases n - i,
    {
        let c = s.get_char(i);
        v.push(c);
        i = i + 1;
        assert(v@ =~= s@.take(i as int));
    }
    assert(v@ =~= s@);
    v
}

pub open spec fn is_ascii_alpha(c: char) -> bool {
    ('a' <= c && c <= 'z') || ('A' <= c && c <= 'Z')
}

pub fn ascii_alpha(c: char) -> (b: bool)
    ensures b == is_ascii_alpha(c),
{
    ('a' <= c && c <= 'z') || ('A' <= c && c <= 'Z')
}

pub open spec fn is_ascii_digit(c: char) -> bool {
    '0' <= c && c <= '9'
}

pub open spec fn is_ascii_alnum(c: char) -> bool {
    is_ascii_alpha(c) || is_ascii_digit(c)
}

pub fn ascii_alnum(c: char) -> (b: bool)
    ensures
        b == is_ascii_alnum(c),
{
    ascii_alpha(c) || ('0' <= c && c <= '9')
}

/// Whether `w` is exactly the characters of `t` from `lo` up to `hi`.
pub fn chars_equal_at(t: &Vec<char>, w: &Vec<char>, lo: usize, hi: usize) -> (b: bool)
    requires
        lo <= hi <= t@.len(),
    ensures
        b == (w@ == t@.subrange(lo as int, hi as int)),
{
    if w.len() != hi - lo {
        return false;
    }
    let mut k: usize = 0;
    while k < w.len()
        invariant
            lo <= hi <= t@.len(),
            w@.len() == hi - lo,
            k <= w@.len(),
            forall|q: int| 0 <= q < k ==> w@[q] == t@[lo + q],
        decreases w@.len() - k,
    {
        if w[k] != t[lo + k] {
            assert(w@[k as int] != t@.subrange(lo as int, hi as int)[k as int]);
            return false;
        }
        k = k + 1;
    }
    assert(w@ =~= t@.subrange(lo as int, hi as int));
    true
}

/// Unicode `White_Space`, the characters that `str::trim` removes.
pub open spec fn is_white_space(c: char) -> bool {
    ('\u{9}' <= c && c <= '\u{d}') || c == ' ' || c == '\u{85}' || c == '\u{a0}' || c == '\u{1680}'
        || ('\u{2000}' <= c && c <= '\u{200a}') || c == '\u{2028}' || c == '\u{2029}'
        || c == '\u{202f}' || c == '\u{205f}' || c == '\u{3000}'
}

pub fn white_space(c: char) -> (b: bool)
    ensures
        b == is_white_space(c),
{
    ('\u{9}' <= c && c <= '\u{d}') || c == ' ' || c == '\u{85}' || c == '\u{a0}' || c == '\u{1680}'
        || ('\u{2000}' <= c && c <= '\u{200a}') || c == '\u{2028}' || c == '\u{2029}'
        || c == '\u{202f}' || c == '\u{205f}' || c == '\u{3000}'
}

/// `s` without its leading white space.
pub open spec fn trim_start(s: Seq<char>) -> Seq<char>
    decreases s.len(),
{
    if s.len() > 0 && is_white_space(s[0]) {
        trim_start(s.drop_first())
    } else {
        s
    }
}

/// `s` without its trailing white space.
pub open spec fn trim_end(s: Seq<char>) -> Seq<char>
    decreases s.len(),
{
    if s.len() > 0 && is_white_space(s.last()) {
        trim_end(s.drop_last())
    } else {
        s
    }
}

/// `s` without leading and trailing white space.
pub open spec fn trim(s: Seq<char>) -> Seq<char> {
    trim_end(trim_start(s))
}

pub proof fn lemma_trim_start_at(s: Seq<char>, i: int)
    requires
        0 <= i <= s.len(),
        forall|k: int| 0 <= k < i ==> is_white_space(#[trigger] s[k]),
        i < s.len() ==> !is_white_space(s[i]),
    ensures
        trim_start(s) == s.skip(i),
    decreases i,
{
    if i == 0 {
        assert(s.skip(0) =~= s);
    } else {
        assert forall|k: int| 0 <= k < i - 1 implies is_white_space(#[trigger] s.drop_first()[k]) by {
            assert(s.drop_first()[k] == s[k + 1]);
        }
        lemma_trim_start_at(s.drop_first(), i - 1);
        assert(s.drop_first().skip(i - 1) =~= s.skip(i));
    }
}

pub proof fn lemma_trim_end_at(s: Seq<char>, j: int)
    requires
        0 <= j <= s.len(),
        forall|k: int| j <= k < s.len() ==> is_white_space(#[trigger] s[k]),
        j > 0 ==> !is_white_space(s[j - 1]),
    ensures
        trim_end(s) == s.take(j),
    decreases s.len() - j,
{
    if j == s.len() {
        assert(s.take(j) =~= s);
    } else {
        assert forall|k: int| j <= k < s.drop_last().len() implies is_white_space(#[trigger] s.drop_last()[k]) by {
            assert(s.drop_last()[k] == s[k]);
        }
        lemma_trim_end_at(s.drop_last(), j);
        assert(s.drop_last().take(j) =~= s.take(j));
    }
}

/// The bounds `(start, end)` of `v` without leading and trailing white space.
pub fn trim_bounds(v: &Vec<char>) -> (r: (usize, usize))
    ensures
        r.0 <= r.1 <= v@.len(),
        trim(v@) == v@.subrange(r.0 as int, r.1 as int),
{
    let n = v.len();
    let mut i: usize = 0;
    while i < n && white_space(v[i])
        invariant
            i <= n,
            n == v@.len(),
            forall|k: int| 0 <= k < i ==> is_white_space(#[trigger] v@[k]),
        decreases n - i,
    {
        i = i + 1;
    }
    proof {
        lemma_trim_start_at(v@, i as int);
    }
    let mut j: usize = n;
    while j > i && white_space(v[j - 1])
        invariant
            i <= j <= n,
            n == v@.len(),
            forall|k: int| j <= k < n ==> is_white_space(#[trigger] v@[k]),
        decreases j,
    {
        j = j - 1;
    }
    proof {
        let st = v@.skip(i as int);
        assert forall|k: int| j - i <= k < st.len() implies is_white_space(#[trigger] st[k]) by {
            assert(st[k] == v@[k + i]);
        }
        if j > i {
            assert(st[j - i - 1] == v@[j - 1]);
        }
        lemma_trim_end_at(st, j - i);
        assert(st.take(j - i) =~= v@.subrange(i as int, j as int));
    }
    (i, j)
}

/// Builds a string from the characters of `v` from `lo` up to `hi`.
pub fn string_from_chars(v: &Vec<char>, lo: usize, hi: usize) -> (s: String)
    requires
        lo <= hi <= v@.len(),
    ensures
        s@ == v@.subrange(lo as int, hi as int),
{
    let mut s = String::new();
    let mut k = lo;
    while k < hi
        invariant
            lo <= k <= hi <= v@.len(),
            s@ == v@.subrange(lo as int, k as int),
        decreases hi - k,
    {
        push_char(&mut s, v[k]);
        k = k + 1;
        assert(s@ =~= v@.subrange(lo as int, k as int));
    }
    s
}

/// Appends the characters of `t` to `s`.
pub fn append_str(s: &mut String, t: &str)
    ensures
        final(s)@ == old(s)@ + t@,
{
    let v = chars_of(t);
    let mut k: usize = 0;
    while k < v.len()
        invariant
            v@ == t@,
            k <= v@.len(),
            s@ == old(s)@ + v@.take(k as int),
        decreases v@.len() - k,
    {
        push_char(s, v[k]);
        k = k + 1;
        assert(s@ =~= old(s)@ + v@.take(k as int));
    }
    assert(v@.take(v@.len() as int) =~= v@);
}

/// Whether two strings hold the same characters.
pub fn str_eq(a: &str, b: &str) -> (r: bool)
    ensures
        r == (a@ == b@),
{
    let av = chars_of(a);
    let bv = chars_of(b);
    let r = chars_equal_at(&av, &bv, 0, av.len());
    assert(av@.subrange(0, av@.len() as int) =~= av@);
    r
}

/// The character of a decimal digit.
pub open spec fn digit_char(d: nat) -> char {
    ((d + 48) as u32) as char
}

/// The decimal digits of `n`, without leading zeros.
pub open spec fn digits(n: nat) -> Seq<char>
    decreases n,
{
    if n < 10 {
        seq![digit_char(n)]
    } else {
        digits(n / 10).push(digit_char(n % 10))
    }
}

/// The decimal text of `n`, with a `-` in front when it is negative.
pub open spec fn decimal(n: int) -> Seq<char> {
    if n < 0 {
        seq!['-'] + digits((-n) as nat)
    } else {
        digits(n as nat)
    }
}

fn push_digits(s: &mut String, n: u64)
    ensures
        final(s)@ == old(s)@ + digits(n as nat),
    decreases n,
{
    if n >= 10 {
        push_digits(s, n / 10);
    }
    let d = (n % 10) as u32;
    let c = (((d + 48) as u8) as char);
    assert(c == digit_char((n % 10) as nat));
    push_char(s, c);
    proof {
        if n >= 10 {
            assert(final(s)@ =~= old(s)@ + digits(n as nat));
        } else {
            assert(final(s)@ =~= old(s)@ + digits(n as nat));
        }
    }
}

/// The decimal text of a signed integer.
pub fn decimal_i64(n: i64) -> (s: String)
    ensures
        s@ == decimal(n as int),
{
    let mut s = String::new();
    if n < 0 {
        push_char(&mut s, '-');
        let magnitude: u64 = if n == i64::MIN {
            9223372036854775808u64
        } else {
            (-n) as u64
        };
        push_digits(&mut s, magnitude);
        assert(s@ =~= decimal(n as int));
    } else {
        push_digits(&mut s, n as u64);
        assert(s@ =~= decimal(n as int));
    }
    s
}

/// The decimal text of an unsigned integer.
pub fn decimal_u64(n: u64) -> (s: String)
    ensures
        s@ == decimal(n as int),
{
    let mut s = String::new();
    push_digits(&mut s, n);
    assert(s@ =~= decimal(n as int));
    s
}

/// ASCII lower case; every other character is kept.
pub open spec fn ascii_lower(c: char) -> char {
    if 'A' <= c && c <= 'Z' {
        ((c as u32) + 32) as char
    } else {
        c
    }
}

/// The character with the ASCII code `code`.
pub fn char_from_ascii(code: u32) -> (c: char)
    requires
        code < 128,
    ensures
        c == code as char,
{
    (code as u8) as char
}

pub fn lower_ascii_char(c: char) -> (r: char)
    ensures
        r == ascii_lower(c),
{
    if 'A' <= c && c <= 'Z' {
        let code = c as u32;
        char_from_ascii(code + 32)
    } else {
        c
    }
}

/// `str::to_ascii_lowercase`: ASCII letters in lower case, everything else kept.
pub fn to_ascii_lowercase(s: &str) -> (r: String)
    ensures
        r@ == s@.map_values(|c: char| ascii_lower(c)),
{
    let v = chars_of(s);
    let mut r = String::new();
    let mut i: usize = 0;
    while i < v.len()
        invariant
            v@ == s@,
            i <= v@.len(),
            r@ == v@.take(i as int).map_values(|c: char| ascii_lower(c)),
        decreases v@.len() - i,
    {
        push_char(&mut r, lower_ascii_char(v[i]));
        i = i + 1;
        assert(r@ =~= v@.take(i as int).map_values(|c: char| ascii_lower(c)));
    }
    assert(v@.take(v@.len() as int) =~= v@);
    r
}

/// `s` with every non-overlapping occurrence of `pat`, from left to right, replaced by `rep`.
pub open spec fn replace_all(s: Seq<char>, pat: Seq<char>, rep: Seq<char>) -> Seq<char>
    recommends
        pat.len() > 0,
    decreases s.len(),
{
    if pat.len() == 0 || s.len() < pat.len() {
        s
    } else if s.take(pat.len() as int) == pat {
        rep + replace_all(s.skip(pat.len() as int), pat, rep)
    } else {
        seq![s[0]] + replace_all(s.drop_first(), pat, rep)
    }
}

/// `str::replace` for a non-empty pattern.
pub fn replace_str(s: &str, pat: &str, rep: &str) -> (r: String)
    requires
        pat@.len() > 0,
    ensures
        r@ == replace_all(s@, pat@, rep@),
{
    let v = chars_of(s);
    let p = chars_of(pat);
    let n = v.len();
    let m = p.len();
    let mut out = String::new();
    let mut i: usize = 0;
    assert(v@.skip(0) =~= v@);
    assert(out@ + replace_all(v@.skip(0), p@, rep@) =~= replace_all(v@, p@, rep@));
    while i < n
        invariant
            v@ == s@,
            p@ == pat@,
            n == v@.len(),
            m == p@.len(),
            m > 0,
            i <= n,
            out@ + replace_all(v@.skip(i as int), p@, rep@) == replace_all(v@, p@, rep@),
        decreases n - i,
    {
        let ghost rest = v@.skip(i as int);
        let ghost before = out@;
        if n - i >= m && chars_equal_at(&v, &p, i, i + m) {
            proof {
                assert(rest.take(m as int) =~= v@.subrange(i as int, i + m));
                assert(rest.skip(m as int) =~= v@.skip(i + m));
            }
            vstd::string::StringExecFns::append(&mut out, rep);
            i = i + m;
            assert(out@ + replace_all(v@.skip(i as int), p@, rep@) =~= before + replace_all(rest, p@, rep@));
        } else {
            proof {
                if n - i >= m {
                    assert(rest.take(m as int) =~= v@.subrange(i as int, i + m));
                }
                assert(rest.drop_first() =~= v@.skip(i + 1));
            }
            push_char(&mut out, v[i]);
            i = i + 1;
            assert(out@ + replace_all(v@.skip(i as int), p@, rep@) =~= before + replace_all(rest, p@, rep@));
        }
    }
    assert(v@.skip(n as int) =~= Seq::<char>::empty());
    assert(out@ + Seq::<char>::empty() =~= out@);
    out
}

/// The index of the first `c` in `s`.
pub open spec fn first_index_of(s: Seq<char>, c: char) -> Option<int>
    decreases s.len(),
{
    if s.len() == 0 {
        None
    } else if s[0] == c {
        Some(0)
    } else {
        match first_index_of(s.drop_first(), c) {
            Some(j) => Some(j + 1),
            None => None,
        }
    }
}

pub proof fn lemma_first_index_of(s: Seq<char>, c: char)
    ensures
        match first_index_of(s, c) {
            Some(j) => 0 <= j < s.len() && s[j] == c && forall|k: int| 0 <= k < j ==> s[k] != c,
            None => forall|k: int| 0 <= k < s.len() ==> s[k] != c,
        },
    decreases s.len(),
{
    if s.len() > 0 && s[0] != c {
        lemma_first_index_of(s.drop_first(), c);
        assert forall|k: int| 1 <= k < s.len() implies s[k] == s.drop_first()[k - 1] by {}
    }
}

/// The index of the first `c` at or after `from`, or the length.
pub fn find_char_from(v: &Vec<char>, from: usize, c: char) -> (r: usize)
    requires
        from <= v@.len(),
    ensures
        from <= r <= v@.len(),
        first_index_of(v@.skip(from as int), c) == if r < v@.len() {
            Some(r - from)
        } else {
            None::<int>
        },
{
    let mut j = from;
    while j < v.len() && v[j] != c
        invariant
            from <= j <= v@.len(),
            forall|k: int| from <= k < j ==> v@[k] != c,
        decreases v@.len() - j,
    {
        j = j + 1;
    }
    proof {
        let rest = v@.skip(from as int);
        lemma_first_index_of(rest, c);
        match first_index_of(rest, c) {
            Some(i) => {
                if i < j - from {
                    assert(rest[i] == v@[from + i]);
                } else if j < v@.len() && i > j - from {
                    assert(rest[j - from] == v@[j as int]);
                }
                if j == v@.len() {
                    assert(rest[i] == v@[from + i]);
                }
            },
            None => {
                if j < v@.len() {
                    assert(rest[j - from] == v@[j as int]);
                }
            },
        }
    }
    j
}

/// The parts of `s` between the separators `sep` (`str::split` with one character):
/// one more part than there are separators, empty parts included.
pub open spec fn split_on(s: Seq<char>, sep: char) -> Seq<Seq<char>>
    decreases s.len(),
{
    match first_index_of(s, sep) {
        None => seq![s],
        Some(i) => {
            proof {
                lemma_first_index_of(s, sep);
            }
            seq![s.take(i)] + split_on(s.skip(i + 1), sep)
        },
    }
}

/// `str::split` on one character, the parts as character lists.
pub fn split_chars(v: &Vec<char>, sep: char) -> (r: Vec<Vec<char>>)
    ensures
        r@.len() == split_on(v@, sep).len(),
        forall|k: int| 0 <= k < r@.len() ==> (#[trigger] r@[k])@ == split_on(v@, sep)[k],
{
    let n = v.len();
    let mut out: Vec<Vec<char>> = Vec::new();
    let ghost mut done: Seq<Seq<char>> = Seq::empty();
    let mut pos: usize = 0;
    assert(v@.skip(0) =~= v@);
    loop
        invariant
            n == v@.len(),
            pos <= n,
            out@.len() == done.len(),
            forall|k: int| 0 <= k < out@.len() ==> (#[trigger] out@[k])@ == done[k],
            split_on(v@, sep) == done + split_on(v@.skip(pos as int), sep),
        decreases n - pos,
    {
        let ghost rest = v@.skip(pos as int);
        let j = find_char_from(v, pos, sep);
        let mut part: Vec<char> = Vec::new();
        let mut k = pos;
        while k < j
            invariant
                pos <= k <= j <= v@.len(),
                part@ == v@.subrange(pos as int, k as int),
            decreases j - k,
        {
            part.push(v[k]);
            k = k + 1;
            assert(part@ =~= v@.subrange(pos as int, k as int));
        }
        out.push(part);
        if j == n {
            proof {
                assert(rest =~= v@.subrange(pos as int, j as int));
                done = done.push(rest);
                assert(split_on(v@, sep) =~= done);
            }
            return out;
        }
        proof {
            assert(rest.take(j - pos) =~= v@.subrange(pos as int, j as int));
            assert(rest.skip(j - pos + 1) =~= v@.skip(j + 1));
            let old_done = done;
            done = done.push(rest.take(j - pos));
            assert(old_done + split_on(rest, sep) =~= done + split_on(v@.skip(j + 1), sep));
        }
        pos = j + 1;
    }
}

/// `s` with every leading copy of `p` removed (`str::trim_start_matches`).
pub open spec fn strip_all_prefix(s: Seq<char>, p: Seq<char>) -> Seq<char>
    decreases s.len(),
{
    if p.len() > 0 && p.len() <= s.len() && s.take(p.len() as int) == p {
        strip_all_prefix(s.skip(p.len() as int), p)
    } else {
        s
    }
}

/// `s` with every trailing copy of `p` removed (`str::trim_end_matches`).
pub open spec fn strip_all_suffix(s: Seq<char>, p: Seq<char>) -> Seq<char>
    decreases s.len(),
{
    if p.len() > 0 && p.len() <= s.len() && s.skip(s.len() - p.len()) == p {
        strip_all_suffix(s.take(s.len() - p.len()), p)
    } else {
        s
    }
}

/// The bounds of `v[lo..hi]` without its leading copies of `p`.
pub fn strip_prefix_bounds(v: &Vec<char>, lo: usize, hi: usize, p: &Vec<char>) -> (r: usize)
    requires
        lo <= hi <= v@.len(),
    ensures
        lo <= r <= hi,
        strip_all_prefix(v@.subrange(lo as int, hi as int), p@) == v@.subrange(r as int, hi as int),
{
    let m = p.len();
    let mut a = lo;
    while m > 0 && hi - a >= m && chars_equal_at(v, p, a, a + m)
        invariant
            lo <= a <= hi <= v@.len(),
            m == p@.len(),
            strip_all_prefix(v@.subrange(lo as int, hi as int), p@) == strip_all_prefix(
                v@.subrange(a as int, hi as int),
                p@,
            ),
        decreases hi - a,
    {
        proof {
            let w = v@.subrange(a as int, hi as int);
            assert(w.take(m as int) =~= v@.subrange(a as int, a + m));
            assert(w.skip(m as int) =~= v@.subrange(a + m, hi as int));
        }
        a = a + m;
    }
    proof {
        let w = v@.subrange(a as int, hi as int);
        if m > 0 && hi - a >= m {
            assert(w.take(m as int) =~= v@.subrange(a as int, a + m));
        }
    }
    a
}

/// The bounds of `v[lo..hi]` without its trailing copies of `p`.
pub fn strip_suffix_bounds(v: &Vec<char>, lo: usize, hi: usize, p: &Vec<char>) -> (r: usize)
    requires
        lo <= hi <= v@.len(),
    ensures
        lo <= r <= hi,
        strip_all_suffix(v@.subrange(lo as int, hi as int), p@) == v@.subrange(lo as int, r as int),
{
    let m = p.len();
    let mut b = hi;
    while m > 0 && b - lo >= m && chars_equal_at(v, p, b - m, b)
        invariant
            lo <= b <= hi <= v@.len(),
            m == p@.len(),
            strip_all_suffix(v@.subrange(lo as int, hi as int), p@) == strip_all_suffix(
                v@.subrange(lo as int, b as int),
                p@,
            ),
        decreases b - lo,
    {
        proof {
            let w = v@.subrange(lo as int, b as int);
            assert(w.skip(w.len() - m) =~= v@.subrange(b - m, b as int));
            assert(w.take(w.len() - m) =~= v@.subrange(lo as int, b - m));
        }
        b = b - m;
    }
    proof {
        let w = v@.subrange(lo as int, b as int);
        if m > 0 && b - lo >= m {
            assert(w.skip(w.len() - m) =~= v@.subrange(b - m, b as int));
        }
    }
    b
}

} // verus!
