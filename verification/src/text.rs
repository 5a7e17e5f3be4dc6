//! Character-level text handling: whitespace, trimming, line and word splitting,
//! UTF-8 widths and decimal rendering, each stated over `Seq<char>`.
use vstd::prelude::*;

verus! {

/// `String::push` appends one character.
pub assume_specification[ String::push ](s: &mut String, ch: char)
    ensures
        final(s)@ == old(s)@.push(ch),
;

/// Unicode `White_Space` property (the set `char::is_whitespace` and `str::trim` use).
pub open spec fn is_white_space(c: char) -> bool {
    let u = c as u32;
    (0x09 <= u && u <= 0x0d) || u == 0x20 || u == 0x85 || u == 0xa0 || u == 0x1680 || (0x2000
        <= u && u <= 0x200a) || u == 0x2028 || u == 0x2029 || u == 0x202f || u == 0x205f || u
        == 0x3000
}

pub fn white_space(c: char) -> (r: bool)
    ensures
        r == is_white_space(c),
{
    let u = c as u32;
    (0x09 <= u && u <= 0x0d) || u == 0x20 || u == 0x85 || u == 0xa0 || u == 0x1680 || (0x2000
        <= u && u <= 0x200a) || u == 0x2028 || u == 0x2029 || u == 0x202f || u == 0x205f || u
        == 0x3000
}

/// `s` without its leading whitespace.
pub open spec fn trim_start(s: Seq<char>) -> Seq<char>
    decreases s.len(),
{
    if s.len() > 0 && is_white_space(s[0]) {
        trim_start(s.drop_first())
    } else {
        s
    }
}

/// `s` without its trailing whitespace.
pub open spec fn trim_end(s: Seq<char>) -> Seq<char>
    decreases s.len(),
{
    if s.len() > 0 && is_white_space(s.last()) {
        trim_end(s.drop_last())
    } else {
        s
    }
}

/// `s` without leading and trailing whitespace, as `str::trim` gives it.
pub open spec fn trim(s: Seq<char>) -> Seq<char> {
    trim_end(trim_start(s))
}

pub proof fn lemma_trim_start(s: Seq<char>, a: int)
    requires
        0 <= a <= s.len(),
        forall|i: int| 0 <= i < a ==> is_white_space(#[trigger] s[i]),
        a < s.len() ==> !is_white_space(s[a]),
    ensures
        trim_start(s) == s.subrange(a, s.len() as int),
    decreases a,
{
    if a > 0 {
        let t = s.drop_first();
        assert forall|i: int| 0 <= i < a - 1 implies is_white_space(#[trigger] t[i]) by {
            assert(t[i] == s[i + 1]);
        }
        lemma_trim_start(t, a - 1);
        assert(t.subrange(a - 1, t.len() as int) =~= s.subrange(a, s.len() as int));
    } else {
        assert(s.subrange(0, s.len() as int) =~= s);
    }
}

pub proof fn lemma_trim_end(s: Seq<char>, b: int)
    requires
        0 <= b <= s.len(),
        forall|i: int| b <= i < s.len() ==> is_white_space(#[trigger] s[i]),
        b > 0 ==> !is_white_space(s[b - 1]),
    ensures
        trim_end(s) == s.subrange(0, b),
    decreases s.len() - b,
{
    if b < s.len() {
        let t = s.drop_last();
        assert forall|i: int| b <= i < t.len() implies is_white_space(#[trigger] t[i]) by {
            assert(t[i] == s[i]);
        }
        lemma_trim_end(t, b);
        assert(t.subrange(0, b) =~= s.subrange(0, b));
    } else {
        assert(s.subrange(0, b) =~= s);
    }
}

/// The characters of `s`.
pub fn chars_of(s: &str) -> (v: Vec<char>)
    ensures
        v@ == s@,
{
    let n = s.unicode_len();
    let mut v: Vec<char> = Vec::new();
    let mut i: usize = 0;
    while i < n
        invariant
            n == s@.len(),
            i <= n,
            v@ == s@.subrange(0, i as int),
        decreases n - i,
    {
        let c = s.get_char(i);
        v.push(c);
        i = i + 1;
        assert(v@ =~= s@.subrange(0, i as int));
    }
    assert(v@ =~= s@);
    v
}

/// The string made of the characters `v[lo..hi]`.
pub fn string_of_range(v: &Vec<char>, lo: usize, hi: usize) -> (s: String)
    requires
        lo <= hi <= v@.len(),
    ensures
        s@ == v@.subrange(lo as int, hi as int),
{
    let mut s = String::new();
    let mut i = lo;
    while i < hi
        invariant
            lo <= i <= hi <= v@.len(),
            s@ == v@.subrange(lo as int, i as int),
        decreases hi - i,
    {
        s.push(v[i]);
        i = i + 1;
        assert(s@ =~= v@.subrange(lo as int, i as int));
    }
    s
}

/// The string made of the characters of `v`.
pub fn string_of(v: &Vec<char>) -> (s: String)
    ensures
        s@ == v@,
{
    let s = string_of_range(v, 0, v.len());
    assert(v@.subrange(0, v@.len() as int) =~= v@);
    s
}

/// Appends the characters of `t` to `s`.
pub fn append(s: &mut String, t: &str)
    ensures
        final(s)@ == old(s)@ + t@,
{
    s.append(t);
}

/// The bounds `(a, b)` such that `v[a..b]` is `v` trimmed.
pub fn trim_bounds(v: &Vec<char>) -> (r: (usize, usize))
    ensures
        r.0 <= r.1 <= v@.len(),
        trim(v@) == v@.subrange(r.0 as int, r.1 as int),
{
    let n = v.len();
    let mut a: usize = 0;
    while a < n && white_space(v[a])
        invariant
            a <= n == v@.len(),
            forall|i: int| 0 <= i < a ==> is_white_space(#[trigger] v@[i]),
        decreases n - a,
    {
        a = a + 1;
    }
    proof {
        lemma_trim_start(v@, a as int);
    }
    let mut b: usize = n;
    while b > a && white_space(v[b - 1])
        invariant
            a <= b <= n == v@.len(),
            forall|i: int| b <= i < n ==> is_white_space(#[trigger] v@[i]),
        decreases b,
    {
        b = b - 1;
    }
    proof {
        let t = v@.subrange(a as int, n as int);
        assert forall|i: int| (b - a) <= i < t.len() implies is_white_space(#[trigger] t[i]) by {
            assert(t[i] == v@[i + a]);
        }
        if b > a {
            assert(t[b - a - 1] == v@[b - 1]);
        }
        lemma_trim_end(t, b - a);
        assert(t.subrange(0, b - a) =~= v@.subrange(a as int, b as int));
    }
    (a, b)
}

/// `s` trimmed of leading and trailing whitespace.
pub fn trim_str(s: &str) -> (r: String)
    ensures
        r@ == trim(s@),
{
    let v = chars_of(s);
    let (a, b) = trim_bounds(&v);
    string_of_range(&v, a, b)
}

/// Number of bytes of the UTF-8 encoding of `c`.
pub open spec fn utf8_width(c: char) -> nat {
    let u = c as u32;
    if u < 0x80 {
        1
    } else if u < 0x800 {
        2
    } else if u < 0x10000 {
        3
    } else {
        4
    }
}

/// Number of bytes of the UTF-8 encoding of `s` (what `str::len` reports).
pub open spec fn utf8_len(s: Seq<char>) -> nat
    decreases s.len(),
{
    if s.len() == 0 {
        0
    } else {
        utf8_len(s.drop_last()) + utf8_width(s.last())
    }
}

pub fn width_of(c: char) -> (r: usize)
    ensures
        r == utf8_width(c),
{
    let u = c as u32;
    if u < 0x80 {
        1
    } else if u < 0x800 {
        2
    } else if u < 0x10000 {
        3
    } else {
        4
    }
}

pub proof fn lemma_utf8_len_bounds(s: Seq<char>)
    ensures
        s.len() <= utf8_len(s) <= 4 * s.len(),
    decreases s.len(),
{
    if s.len() > 0 {
        lemma_utf8_len_bounds(s.drop_last());
    }
}

pub proof fn lemma_utf8_len_concat(s: Seq<char>, t: Seq<char>)
    ensures
        utf8_len(s + t) == utf8_len(s) + utf8_len(t),
    decreases t.len(),
{
    if t.len() == 0 {
        assert(s + t =~= s);
    } else {
        lemma_utf8_len_concat(s, t.drop_last());
        assert((s + t).drop_last() =~= s + t.drop_last());
    }
}

proof fn lemma_trim_start_suffix(s: Seq<char>)
    ensures
        trim_start(s).len() <= s.len(),
        trim_start(s) == s.subrange(s.len() - trim_start(s).len(), s.len() as int),
    decreases s.len(),
{
    if s.len() > 0 && is_white_space(s[0]) {
        lemma_trim_start_suffix(s.drop_first());
        assert(s.drop_first().subrange(
            s.drop_first().len() - trim_start(s).len(),
            s.drop_first().len() as int,
        ) =~= s.subrange(s.len() - trim_start(s).len(), s.len() as int));
    } else {
        assert(s.subrange(0, s.len() as int) =~= s);
    }
}

proof fn lemma_trim_end_prefix(s: Seq<char>)
    ensures
        trim_end(s).len() <= s.len(),
        trim_end(s) == s.subrange(0, trim_end(s).len() as int),
    decreases s.len(),
{
    if s.len() > 0 && is_white_space(s.last()) {
        lemma_trim_end_prefix(s.drop_last());
        assert(s.drop_last().subrange(0, trim_end(s).len() as int) =~= s.subrange(
            0,
            trim_end(s).len() as int,
        ));
    } else {
        assert(s.subrange(0, s.len() as int) =~= s);
    }
}

/// Trimming never lengthens the UTF-8 encoding.
pub proof fn lemma_utf8_len_trim(s: Seq<char>)
    ensures
        utf8_len(trim(s)) <= utf8_len(s),
{
    let t = trim_start(s);
    lemma_trim_start_suffix(s);
    lemma_trim_end_prefix(t);
    let a = s.len() - t.len();
    assert(s.subrange(0, a) + t =~= s);
    lemma_utf8_len_concat(s.subrange(0, a), t);
    let b = trim_end(t).len();
    assert(trim_end(t) + t.subrange(b as int, t.len() as int) =~= t);
    lemma_utf8_len_concat(trim_end(t), t.subrange(b as int, t.len() as int));
}

/// Number of bytes of the UTF-8 encoding of `v[0..k]`.
pub fn byte_count_prefix(v: &Vec<char>, k: usize) -> (n: u128)
    requires
        k <= v@.len(),
    ensures
        n == utf8_len(v@.subrange(0, k as int)),
{
    let mut total: u128 = 0;
    let mut i: usize = 0;
    while i < k
        invariant
            i <= k <= v@.len(),
            total == utf8_len(v@.subrange(0, i as int)),
            total <= 4 * i,
        decreases k - i,
    {
        assert(v@.subrange(0, i + 1).drop_last() =~= v@.subrange(0, i as int));
        total = total + width_of(v[i]) as u128;
        i = i + 1;
    }
    total
}

/// Number of bytes of the UTF-8 encoding of `v` (what `str::len` reports).
pub fn byte_count(v: &Vec<char>) -> (n: u128)
    ensures
        n == utf8_len(v@),
{
    let n = byte_count_prefix(v, v.len());
    assert(v@.subrange(0, v@.len() as int) =~= v@);
    n
}

/// The ASCII decimal digit for `d < 10`.
pub open spec fn digit_char(d: nat) -> char {
    ((d + 48) as u8) as char
}

/// Decimal rendering of `n`, as `Display` for integers gives it.
pub open spec fn decimal(n: nat) -> Seq<char>
    decreases n,
{
    if n < 10 {
        seq![digit_char(n)]
    } else {
        decimal(n / 10).push(digit_char(n % 10))
    }
}

/// The decimal rendering of `n`.
pub fn decimal_string(n: u128) -> (s: String)
    ensures
        s@ == decimal(n as nat),
    decreases n,
{
    if n < 10 {
        let mut s = String::new();
        s.push(((n as u8) + 48) as char);
        assert(s@ =~= decimal(n as nat));
        s
    } else {
        let mut s = decimal_string(n / 10);
        s.push((((n % 10) as u8) + 48) as char);
        s
    }
}

/// `s` begins with `p`.
pub open spec fn has_prefix(s: Seq<char>, p: Seq<char>) -> bool {
    p.len() <= s.len() && s.subrange(0, p.len() as int) == p
}

/// `needle` occurs in `s` at index `i`.
pub open spec fn occurs_at(s: Seq<char>, needle: Seq<char>, i: int) -> bool {
    0 <= i && i + needle.len() <= s.len() && s.subrange(i, i + needle.len()) == needle
}

/// `needle` occurs somewhere in `s` (`str::contains`).
pub open spec fn contains_seq(s: Seq<char>, needle: Seq<char>) -> bool {
    exists|i: int| occurs_at(s, needle, i)
}

/// Whether `needle` occurs in `v` at index `i`.
pub fn occurs_at_exec(v: &Vec<char>, needle: &Vec<char>, i: usize) -> (r: bool)
    ensures
        r == occurs_at(v@, needle@, i as int),
{
    let n = needle.len();
    let vl = v.len();
    if n > vl || i > vl - n {
        return false;
    }
    let mut j: usize = 0;
    while j < n
        invariant
            n == needle@.len(),
            vl == v@.len(),
            i + n <= vl,
            j <= n,
            forall|k: int| 0 <= k < j ==> v@[i + k] == needle@[k],
        decreases n - j,
    {
        if v[i + j] != needle[j] {
            proof {
                assert(v@.subrange(i as int, i + n)[j as int] != needle@[j as int]);
            }
            return false;
        }
        j = j + 1;
    }
    assert(v@.subrange(i as int, i + n) =~= needle@);
    true
}

/// The first index at which `needle` occurs in `v`, if any.
pub fn find_seq(v: &Vec<char>, needle: &Vec<char>) -> (r: Option<usize>)
    ensures
        match r {
            Some(i) => occurs_at(v@, needle@, i as int) && forall|k: int|
                0 <= k < i ==> !occurs_at(v@, needle@, k),
            None => !contains_seq(v@, needle@),
        },
{
    let n = v.len();
    let mut i: usize = 0;
    while i < n
        invariant
            n == v@.len(),
            i <= n,
            forall|k: int| 0 <= k < i ==> !occurs_at(v@, needle@, k),
        decreases n - i,
    {
        if occurs_at_exec(v, needle, i) {
            return Some(i);
        }
        i = i + 1;
    }
    if occurs_at_exec(v, needle, n) {
        return Some(n);
    }
    assert forall|k: int| !occurs_at(v@, needle@, k) by {
        if 0 <= k < n {
        } else if k > n {
        } else {
        }
    }
    None
}

/// Whether `needle` occurs in `s`.
pub fn contains_str(s: &str, needle: &str) -> (r: bool)
    ensures
        r == contains_seq(s@, needle@),
{
    let v = chars_of(s);
    let n = chars_of(needle);
    find_seq(&v, &n).is_some()
}

/// Whether `a` and `b` hold the same characters.
pub fn same_text(a: &str, b: &str) -> (r: bool)
    ensures
        r == (a@ == b@),
{
    let va = chars_of(a);
    let vb = chars_of(b);
    if va.len() != vb.len() {
        return false;
    }
    let r = occurs_at_exec(&va, &vb, 0);
    proof {
        if r {
            assert(va@.subrange(0, vb@.len() as int) =~= va@);
        } else {
            assert(va@.subrange(0, vb@.len() as int) =~= va@);
        }
    }
    r
}

/// Whether `v` starts with `p`.
pub fn starts_with(v: &Vec<char>, p: &Vec<char>) -> (r: bool)
    ensures
        r == has_prefix(v@, p@),
{
    occurs_at_exec(v, p, 0)
}

/// The segments of `s` between characters satisfying `is_sep` (as `str::split` with a
/// character predicate gives them); never empty.
pub open spec fn split_by(s: Seq<char>, is_sep: spec_fn(char) -> bool) -> Seq<Seq<char>>
    decreases s.len(),
{
    if s.len() == 0 {
        seq![Seq::<char>::empty()]
    } else {
        let prev = split_by(s.drop_last(), is_sep);
        if is_sep(s.last()) {
            prev.push(Seq::<char>::empty())
        } else {
            prev.update(prev.len() - 1, prev.last().push(s.last()))
        }
    }
}

pub open spec fn is_newline(c: char) -> bool {
    c == '\n'
}

/// The trimmed forms of the segments that are not blank.
pub open spec fn keep_nonblank(segs: Seq<Seq<char>>) -> Seq<Seq<char>>
    decreases segs.len(),
{
    if segs.len() == 0 {
        seq![]
    } else {
        let rest = keep_nonblank(segs.drop_last());
        if trim(segs.last()).len() == 0 {
            rest
        } else {
            rest.push(trim(segs.last()))
        }
    }
}

/// The trimmed lines of `s` that are not blank, in order: what iterating
/// `str::lines`, trimming each line and skipping empty ones yields.
pub open spec fn nonblank_lines(s: Seq<char>) -> Seq<Seq<char>> {
    keep_nonblank(split_by(s, |c: char| is_newline(c)))
}

/// The segments that are not empty.
pub open spec fn keep_nonempty(segs: Seq<Seq<char>>) -> Seq<Seq<char>>
    decreases segs.len(),
{
    if segs.len() == 0 {
        seq![]
    } else {
        let rest = keep_nonempty(segs.drop_last());
        if segs.last().len() == 0 {
            rest
        } else {
            rest.push(segs.last())
        }
    }
}

/// The whitespace-separated words of `s` (`str::split_whitespace`).
pub open spec fn words(s: Seq<char>) -> Seq<Seq<char>> {
    keep_nonempty(split_by(s, |c: char| is_white_space(c)))
}

proof fn lemma_split_step(s: Seq<char>, i: int, is_sep: spec_fn(char) -> bool, done: Seq<Seq<char>>, cur: Seq<char>)
    requires
        0 <= i < s.len(),
        split_by(s.subrange(0, i), is_sep) == done.push(cur),
    ensures
        is_sep(s[i]) ==> split_by(s.subrange(0, i + 1), is_sep) == done.push(cur).push(Seq::<char>::empty()),
        !is_sep(s[i]) ==> split_by(s.subrange(0, i + 1), is_sep) == done.push(cur.push(s[i])),
{
    let post = s.subrange(0, i + 1);
    assert(post.drop_last() =~= s.subrange(0, i));
    assert(post.last() == s[i]);
    if !is_sep(s[i]) {
        assert(done.push(cur).update(done.len() as int, cur.push(s[i])) =~= done.push(cur.push(s[i])));
    }
}

/// The non-blank lines of `s`, each trimmed (see `nonblank_lines`).
pub fn nonblank_lines_of(s: &str) -> (r: Vec<String>)
    ensures
        r@.map_values(|x: String| x@) == nonblank_lines(s@),
{
    let v = chars_of(s);
    let ghost is_sep = |c: char| is_newline(c);
    let ghost mut done: Seq<Seq<char>> = seq![];
    let mut r: Vec<String> = Vec::new();
    let mut cur: Vec<char> = Vec::new();
    let mut i: usize = 0;
    proof {
        assert(v@.subrange(0, 0) =~= Seq::<char>::empty());
        assert(done.push(cur@) =~= seq![Seq::<char>::empty()]);
    }
    while i < v.len()
        invariant
            i <= v@.len(),
            is_sep == (|c: char| is_newline(c)),
            split_by(v@.subrange(0, i as int), is_sep) == done.push(cur@),
            r@.map_values(|x: String| x@) == keep_nonblank(done),
        decreases v@.len() - i,
    {
        proof {
            lemma_split_step(v@, i as int, is_sep, done, cur@);
        }
        let c = v[i];
        if c == '\n' {
            let seg = string_of(&cur);
            let t = trim_str(seg.as_str());
            proof {
                assert(done.push(cur@).drop_last() =~= done);
            }
            if t.unicode_len() > 0 {
                let ghost before = r@;
                r.push(t);
                proof {
                    assert(r@.map_values(|x: String| x@) =~= before.map_values(|x: String| x@).push(t@));
                }
            }
            proof {
                done = done.push(cur@);
            }
            cur = Vec::new();
            proof {
                assert(done.push(cur@) =~= done.push(Seq::<char>::empty()));
            }
        } else {
            cur.push(c);
        }
        i = i + 1;
    }
    proof {
        assert(v@.subrange(0, v@.len() as int) =~= v@);
        assert(done.push(cur@).drop_last() =~= done);
    }
    let seg = string_of(&cur);
    let t = trim_str(seg.as_str());
    if t.unicode_len() > 0 {
        let ghost before = r@;
        r.push(t);
        proof {
            assert(r@.map_values(|x: String| x@) =~= before.map_values(|x: String| x@).push(t@));
        }
    }
    r
}

/// The whitespace-separated words of `s`.
pub fn words_of(s: &str) -> (r: Vec<String>)
    ensures
        r@.map_values(|x: String| x@) == words(s@),
{
    let v = chars_of(s);
    let ghost is_sep = |c: char| is_white_space(c);
    let ghost mut done: Seq<Seq<char>> = seq![];
    let mut r: Vec<String> = Vec::new();
    let mut cur: Vec<char> = Vec::new();
    let mut i: usize = 0;
    proof {
        assert(v@.subrange(0, 0) =~= Seq::<char>::empty());
        assert(done.push(cur@) =~= seq![Seq::<char>::empty()]);
    }
    while i < v.len()
        invariant
            i <= v@.len(),
            is_sep == (|c: char| is_white_space(c)),
            split_by(v@.subrange(0, i as int), is_sep) == done.push(cur@),
            r@.map_values(|x: String| x@) == keep_nonempty(done),
        decreases v@.len() - i,
    {
        proof {
            lemma_split_step(v@, i as int, is_sep, done, cur@);
        }
        let c = v[i];
        if white_space(c) {
            proof {
                assert(done.push(cur@).drop_last() =~= done);
            }
            if cur.len() > 0 {
                let ghost before = r@;
                let word = string_of(&cur);
                r.push(word);
                proof {
                    assert(r@.map_values(|x: String| x@) =~= before.map_values(|x: String| x@).push(word@));
                }
            }
            proof {
                done = done.push(cur@);
            }
            cur = Vec::new();
            proof {
                assert(done.push(cur@) =~= done.push(Seq::<char>::empty()));
            }
        } else {
            cur.push(c);
        }
        i = i + 1;
    }
    proof {
        assert(v@.subrange(0, v@.len() as int) =~= v@);
        assert(done.push(cur@).drop_last() =~= done);
    }
    if cur.len() > 0 {
        let ghost before = r@;
        let word = string_of(&cur);
        r.push(word);
        proof {
            assert(r@.map_values(|x: String| x@) =~= before.map_values(|x: String| x@).push(word@));
        }
    }
    r
}

} // verus!
