//! Character-level text operations used by the bot, each proved against a
//! direct specification over `Seq<char>`.

use vstd::prelude::*;

verus! {

/// A character with the Unicode `White_Space` property.
pub open spec fn is_white_space(c: char) -> bool {
    let n = c as int;
    ||| 0x09 <= n <= 0x0D
    ||| n == 0x20
    ||| n == 0x85
    ||| n == 0xA0
    ||| n == 0x1680
    ||| 0x2000 <= n <= 0x200A
    ||| n == 0x2028
    ||| n == 0x2029
    ||| n == 0x202F
    ||| n == 0x205F
    ||| n == 0x3000
}

/// `s` with its leading white space removed.
pub open spec fn trim_start(s: Seq<char>) -> Seq<char>
    decreases s.len(),
{
    if s.len() > 0 && is_white_space(s[0]) {
        trim_start(s.drop_first())
    } else {
        s
    }
}

/// `s` with its trailing white space removed.
pub open spec fn trim_end(s: Seq<char>) -> Seq<char>
    decreases s.len(),
{
    if s.len() > 0 && is_white_space(s.last()) {
        trim_end(s.drop_last())
    } else {
        s
    }
}

/// `s` with leading and trailing white space removed.
pub open spec fn trim(s: Seq<char>) -> Seq<char> {
    trim_end(trim_start(s))
}

/// Scans `s` from the left: the words completed so far, and the word that is
/// still open at the end of `s`.
pub open spec fn split_scan(s: Seq<char>) -> (Seq<Seq<char>>, Seq<char>)
    decreases s.len(),
{
    if s.len() == 0 {
        (seq![], seq![])
    } else {
        let (done, cur) = split_scan(s.drop_last());
        if is_white_space(s.last()) {
            if cur.len() > 0 {
                (done.push(cur), seq![])
            } else {
                (done, cur)
            }
        } else {
            (done, cur.push(s.last()))
        }
    }
}

/// The maximal runs of non-white-space characters of `s`, in order.
pub open spec fn split_whitespace(s: Seq<char>) -> Seq<Seq<char>> {
    let (done, cur) = split_scan(s);
    if cur.len() > 0 {
        done.push(cur)
    } else {
        done
    }
}

/// The pieces of `list` with `sep` between each two neighbours.
pub open spec fn join(list: Seq<Seq<char>>, sep: Seq<char>) -> Seq<char>
    decreases list.len(),
{
    if list.len() == 0 {
        seq![]
    } else if list.len() == 1 {
        list[0]
    } else {
        join(list.drop_last(), sep) + sep + list.last()
    }
}

/// `p` occurs in `s` starting at position `i`.
pub open spec fn occurs_at(s: Seq<char>, p: Seq<char>, i: int) -> bool {
    0 <= i && i + p.len() <= s.len() && s.subrange(i, i + p.len()) == p
}

/// `p` occurs somewhere in `s`.
pub open spec fn contains(s: Seq<char>, p: Seq<char>) -> bool {
    exists|i: int| occurs_at(s, p, i)
}

/// `s` begins with `p`.
pub open spec fn starts_with(s: Seq<char>, p: Seq<char>) -> bool {
    occurs_at(s, p, 0)
}

/// `s` with every occurrence of the non-empty `p`, scanned from the left
/// without overlap, replaced by `r`.
pub open spec fn replace_all(s: Seq<char>, p: Seq<char>, r: Seq<char>) -> Seq<char>
    decreases s.len(),
{
    if p.len() == 0 || s.len() == 0 {
        s
    } else if occurs_at(s, p, 0) {
        r + replace_all(s.skip(p.len() as int), p, r)
    } else {
        seq![s[0]] + replace_all(s.drop_first(), p, r)
    }
}

/// The code of `c` with ASCII upper-case letters mapped to lower case.
pub open spec fn ascii_lower_code(c: char) -> int {
    let n = c as int;
    if 0x41 <= n <= 0x5A {
        n + 0x20
    } else {
        n
    }
}

/// `a` and `b` are equal up to the case of ASCII letters.
pub open spec fn eq_ignore_ascii_case(a: Seq<char>, b: Seq<char>) -> bool {
    &&& a.len() == b.len()
    &&& forall|i: int| 0 <= i < a.len() ==> ascii_lower_code(a[i]) == ascii_lower_code(b[i])
}

/// The decimal digit character for `d < 10`.
pub open spec fn digit_char(d: nat) -> char {
    if d == 0 {
        '0'
    } else if d == 1 {
        '1'
    } else if d == 2 {
        '2'
    } else if d == 3 {
        '3'
    } else if d == 4 {
        '4'
    } else if d == 5 {
        '5'
    } else if d == 6 {
        '6'
    } else if d == 7 {
        '7'
    } else if d == 8 {
        '8'
    } else {
        '9'
    }
}

/// The decimal notation of `n`, without leading zeros.
pub open spec fn decimal(n: nat) -> Seq<char>
    decreases n,
{
    if n < 10 {
        seq![digit_char(n)]
    } else {
        decimal(n / 10).push(digit_char(n % 10))
    }
}

/// The Unicode lower-case form of `s`, as `str::to_lowercase` computes it.
pub uninterp spec fn lowercase(s: Seq<char>) -> Seq<char>;

/// Calls `str::to_lowercase`; its result is named `lowercase`, since the full
/// Unicode case mapping is not restated here.
#[verifier::external_body]
pub(crate) fn to_lowercase(s: &str) -> (r: String)
    ensures
        r@ == lowercase(s@),
{
    s.to_lowercase()
}

/// Calls `FromIterator<&char>` for `String`: the string made of the characters
/// of `v`, in order.
#[verifier::external_body]
pub(crate) fn string_of(v: &[char]) -> (s: String)
    ensures
        s@ == v@,
{
    v.iter().collect()
}

/// Whether `c` is a Unicode white-space character.
pub fn is_whitespace(c: char) -> (b: bool)
    ensures
        b == is_white_space(c),
{
    let n = c as u32;
    (0x09 <= n && n <= 0x0D) || n == 0x20 || n == 0x85 || n == 0xA0 || n == 0x1680 || (0x2000
        <= n && n <= 0x200A) || n == 0x2028 || n == 0x2029 || n == 0x202F || n == 0x205F || n
        == 0x3000
}

/// The characters of `s`, in order.
pub fn chars_of(s: &str) -> (v: Vec<char>)
    ensures
        v@ == s@,
{
    let mut v: Vec<char> = Vec::new();
    for c in it: s.chars()
        invariant
            v@ == it.seq().take(it.index() as int),
    {
        v.push(c);
    }
    v
}

/// The elements of `s` from position `lo` up to `hi`.
pub fn subrange_copy<T: Copy>(s: &[T], lo: usize, hi: usize) -> (v: Vec<T>)
    requires
        lo <= hi <= s@.len(),
    ensures
        v@ == s@.subrange(lo as int, hi as int),
{
    let mut v: Vec<T> = Vec::new();
    let mut k = lo;
    while k < hi
        invariant
            lo <= k <= hi <= s@.len(),
            v@ == s@.subrange(lo as int, k as int),
        decreases hi - k,
    {
        v.push(s[k]);
        k = k + 1;
    }
    v
}

proof fn lemma_trim_start_skip(s: Seq<char>, i: int)
    requires
        0 <= i <= s.len(),
        forall|k: int| 0 <= k < i ==> is_white_space(#[trigger] s[k]),
    ensures
        trim_start(s) == trim_start(s.skip(i)),
    decreases i,
{
    if i > 0 {
        lemma_trim_start_skip(s.drop_first(), i - 1);
        assert(s.drop_first().skip(i - 1) =~= s.skip(i));
    } else {
        assert(s.skip(0) =~= s);
    }
}

proof fn lemma_trim_end_take(s: Seq<char>, j: int)
    requires
        0 <= j <= s.len(),
        forall|k: int| j <= k < s.len() ==> is_white_space(#[trigger] s[k]),
    ensures
        trim_end(s) == trim_end(s.take(j)),
    decreases s.len() - j,
{
    if j < s.len() {
        lemma_trim_end_take(s.drop_last(), j);
        assert(s.drop_last().take(j) =~= s.take(j));
    } else {
        assert(s.take(j) =~= s);
    }
}

/// `s` with leading and trailing white space removed.
pub fn trim_chars(s: &[char]) -> (r: Vec<char>)
    ensures
        r@ == trim(s@),
{
    let n = s.len();
    let mut i: usize = 0;
    while i < n && is_whitespace(s[i])
        invariant
            i <= n == s@.len(),
            forall|k: int| 0 <= k < i ==> is_white_space(#[trigger] s@[k]),
        decreases n - i,
    {
        i = i + 1;
    }
    proof {
        lemma_trim_start_skip(s@, i as int);
    }
    let ghost t = s@.skip(i as int);
    assert(trim_start(s@) == t);
    let mut j: usize = n;
    while j > i && is_whitespace(s[j - 1])
        invariant
            i <= j <= n == s@.len(),
            t == s@.skip(i as int),
            forall|k: int| j - i <= k < t.len() ==> is_white_space(#[trigger] t[k]),
        decreases j,
    {
        j = j - 1;
    }
    proof {
        lemma_trim_end_take(t, j - i);
        assert(t.take(j - i) =~= s@.subrange(i as int, j as int));
    }
    subrange_copy(s, i, j)
}

/// `s` with leading and trailing white space removed, as `str::trim` does.
pub fn trim_str(s: &str) -> (r: String)
    ensures
        r@ == trim(s@),
{
    let v = chars_of(s);
    let t = trim_chars(v.as_slice());
    string_of(t.as_slice())
}

/// The views of a list of strings.
pub open spec fn views(list: Seq<String>) -> Seq<Seq<char>> {
    list.map_values(|w: String| w@)
}

/// The white-space separated words of `s`, in order, as `str::split_whitespace`
/// yields them.
pub fn split_words(s: &str) -> (words: Vec<String>)
    ensures
        views(words@) == split_whitespace(s@),
{
    let v = chars_of(s);
    let n = v.len();
    let mut words: Vec<String> = Vec::new();
    let mut cur: Vec<char> = Vec::new();
    let mut i: usize = 0;
    while i < n
        invariant
            i <= n == v@.len(),
            v@ == s@,
            (views(words@), cur@) == split_scan(v@.take(i as int)),
        decreases n - i,
    {
        let c = v[i];
        proof {
            assert(v@.take(i + 1).drop_last() =~= v@.take(i as int));
            assert(v@.take(i + 1).last() == c);
        }
        let ghost before = views(words@);
        if is_whitespace(c) {
            if cur.len() > 0 {
                let w = string_of(cur.as_slice());
                words.push(w);
                cur = Vec::new();
                assert(views(words@) =~= before.push(w@));
            }
        } else {
            cur.push(c);
        }
        i = i + 1;
    }
    assert(v@.take(n as int) =~= v@);
    if cur.len() > 0 {
        let ghost before = views(words@);
        let w = string_of(cur.as_slice());
        words.push(w);
        assert(views(words@) =~= before.push(w@));
    }
    words
}

/// The strings of `list` with `sep` between each two neighbours, as
/// `[String]::join` builds it.
pub fn join_strings(list: &[String], sep: &str) -> (r: String)
    ensures
        r@ == join(views(list@), sep@),
{
    let mut r = String::new();
    let n = list.len();
    let mut i: usize = 0;
    while i < n
        invariant
            i <= n == list@.len(),
            r@ == join(views(list@).take(i as int), sep@),
        decreases n - i,
    {
        assert(views(list@).take(i + 1).drop_last() =~= views(list@).take(i as int));
        if i == 0 {
            assert(r@ =~= seq![]);
            r.append(list[i].as_str());
            assert(r@ =~= list@[0]@);
        } else {
            r.append(sep);
            r.append(list[i].as_str());
        }
        i = i + 1;
    }
    assert(views(list@).take(n as int) =~= views(list@));
    r
}

/// Whether `p` occurs in `s` starting at position `i`.
pub fn occurs_at_exec(s: &[char], p: &[char], i: usize) -> (b: bool)
    ensures
        b == occurs_at(s@, p@, i as int),
{
    if i > s.len() || p.len() > s.len() - i {
        return false;
    }
    let m = p.len();
    let mut k: usize = 0;
    while k < m
        invariant
            k <= m == p@.len(),
            i + m <= s.len(),
            forall|j: int| 0 <= j < k ==> s@[i + j] == p@[j],
        decreases m - k,
    {
        if s[i + k] != p[k] {
            assert(s@.subrange(i as int, i + m)[k as int] != p@[k as int]);
            return false;
        }
        k = k + 1;
    }
    assert(s@.subrange(i as int, i + m) =~= p@);
    true
}

/// Whether `p` occurs anywhere in `s`, as `str::contains` tests.
pub fn contains_chars(s: &[char], p: &[char]) -> (b: bool)
    ensures
        b == contains(s@, p@),
{
    if p.len() > s.len() {
        assert(!contains(s@, p@));
        return false;
    }
    let last = s.len() - p.len();
    for i in 0..last
        invariant
            last + p@.len() == s@.len(),
            forall|j: int| 0 <= j < i ==> !occurs_at(s@, p@, j),
    {
        if occurs_at_exec(s, p, i) {
            return true;
        }
    }
    if occurs_at_exec(s, p, last) {
        return true;
    }
    assert forall|j: int| !occurs_at(s@, p@, j) by {
        if 0 <= j < last {
        }
    }
    false
}

/// Whether `s` contains `p`.
pub fn str_contains(s: &str, p: &str) -> (b: bool)
    ensures
        b == contains(s@, p@),
{
    let sv = chars_of(s);
    let pv = chars_of(p);
    contains_chars(sv.as_slice(), pv.as_slice())
}

/// Whether `s` begins with `p`, as `str::starts_with` tests.
pub fn str_starts_with(s: &str, p: &str) -> (b: bool)
    ensures
        b == starts_with(s@, p@),
{
    let sv = chars_of(s);
    let pv = chars_of(p);
    occurs_at_exec(sv.as_slice(), pv.as_slice(), 0)
}

/// Whether `a` and `b` hold the same characters.
pub fn str_eq(a: &str, b: &str) -> (r: bool)
    ensures
        r == (a@ == b@),
{
    let av = chars_of(a);
    let bv = chars_of(b);
    if av.len() != bv.len() {
        return false;
    }
    let r = occurs_at_exec(av.as_slice(), bv.as_slice(), 0);
    assert(av@.subrange(0, bv@.len() as int) =~= av@);
    r
}

/// `s` with every occurrence of `p` replaced by `r`, as `str::replace` builds it.
pub fn replace_str(s: &str, p: &str, r: &str) -> (out: String)
    requires
        p@.len() > 0,
    ensures
        out@ == replace_all(s@, p@, r@),
{
    let sv = chars_of(s);
    let pv = chars_of(p);
    let rv = chars_of(r);
    let n = sv.len();
    let m = pv.len();
    let mut out: Vec<char> = Vec::new();
    let mut i: usize = 0;
    assert(s@.skip(0) =~= s@);
    assert(out@ + replace_all(s@, p@, r@) =~= replace_all(s@, p@, r@));
    while i < n
        invariant
            i <= n == sv@.len(),
            m == pv@.len() > 0,
            sv@ == s@,
            pv@ == p@,
            rv@ == r@,
            replace_all(s@, p@, r@) == out@ + replace_all(s@.skip(i as int), p@, r@),
        decreases n - i,
    {
        let ghost rest = s@.skip(i as int);
        let hit = occurs_at_exec(sv.as_slice(), pv.as_slice(), i);
        assert(hit == occurs_at(rest, p@, 0)) by {
            if i + m <= n {
                assert(rest.subrange(0, m as int) =~= s@.subrange(i as int, i + m));
            }
        }
        if hit {
            assert(rest.skip(m as int) =~= s@.skip(i + m));
            let ghost o = out@;
            let mut k: usize = 0;
            while k < rv.len()
                invariant
                    k <= rv@.len(),
                    out@ == o + rv@.take(k as int),
                decreases rv@.len() - k,
            {
                out.push(rv[k]);
                k = k + 1;
                assert(out@ =~= o + rv@.take(k as int));
            }
            assert(rv@.take(rv@.len() as int) =~= rv@);
            assert(out@ + replace_all(s@.skip(i + m), p@, r@) =~= o + (rv@ + replace_all(
                rest.skip(m as int),
                p@,
                r@,
            )));
            i = i + m;
        } else {
            assert(rest.drop_first() =~= s@.skip(i + 1));
            let ghost o = out@;
            out.push(sv[i]);
            assert(out@ + replace_all(s@.skip(i + 1), p@, r@) =~= o + (seq![rest[0]]
                + replace_all(rest.drop_first(), p@, r@)));
            i = i + 1;
        }
    }
    assert(s@.skip(i as int) =~= seq![]);
    assert(out@ + seq![] =~= out@);
    string_of(out.as_slice())
}

/// The code of `c` with ASCII upper-case letters mapped to lower case.
fn ascii_lower(c: char) -> (n: u32)
    ensures
        n == ascii_lower_code(c),
{
    let n = c as u32;
    if 0x41 <= n && n <= 0x5A {
        n + 0x20
    } else {
        n
    }
}

/// Whether `a` and `b` are equal up to the case of ASCII letters, as
/// `str::eq_ignore_ascii_case` tests.
pub fn str_eq_ignore_ascii_case(a: &str, b: &str) -> (r: bool)
    ensures
        r == eq_ignore_ascii_case(a@, b@),
{
    let av = chars_of(a);
    let bv = chars_of(b);
    if av.len() != bv.len() {
        return false;
    }
    let n = av.len();
    let mut i: usize = 0;
    while i < n
        invariant
            i <= n == av@.len() == bv@.len(),
            av@ == a@,
            bv@ == b@,
            forall|k: int| 0 <= k < i ==> ascii_lower_code(a@[k]) == ascii_lower_code(b@[k]),
        decreases n - i,
    {
        if ascii_lower(av[i]) != ascii_lower(bv[i]) {
            return false;
        }
        i = i + 1;
    }
    true
}

fn digit(d: u64) -> (c: char)
    requires
        d < 10,
    ensures
        c == digit_char(d as nat),
{
    if d == 0 {
        '0'
    } else if d == 1 {
        '1'
    } else if d == 2 {
        '2'
    } else if d == 3 {
        '3'
    } else if d == 4 {
        '4'
    } else if d == 5 {
        '5'
    } else if d == 6 {
        '6'
    } else if d == 7 {
        '7'
    } else if d == 8 {
        '8'
    } else {
        '9'
    }
}

fn push_decimal(n: u64, out: &mut Vec<char>)
    ensures
        final(out)@ == old(out)@ + decimal(n as nat),
    decreases n,
{
    if n >= 10 {
        push_decimal(n / 10, out);
    }
    out.push(digit(n % 10));
    proof {
        if n >= 10 {
            assert(decimal(n as nat) == decimal((n / 10) as nat).push(digit_char((n % 10) as nat)));
        }
    }
}

/// The decimal notation of `n`, as `u64`'s `Display` writes it.
pub fn decimal_string(n: u64) -> (s: String)
    ensures
        s@ == decimal(n as nat),
{
    let mut v: Vec<char> = Vec::new();
    push_decimal(n, &mut v);
    string_of(v.as_slice())
}

/// Every word of `split_scan` is non-empty and holds no white space, and
/// neither does the open word.
proof fn lemma_split_scan_words(s: Seq<char>)
    ensures
        forall|i: int|
            0 <= i < split_scan(s).0.len() ==> #[trigger] split_scan(s).0[i].len() > 0,
        forall|i: int, k: int|
            0 <= i < split_scan(s).0.len() && 0 <= k < split_scan(s).0[i].len()
                ==> !is_white_space(#[trigger] split_scan(s).0[i][k]),
        forall|k: int|
            0 <= k < split_scan(s).1.len() ==> !is_white_space(#[trigger] split_scan(s).1[k]),
    decreases s.len(),
{
    if s.len() > 0 {
        lemma_split_scan_words(s.drop_last());
        let done = split_scan(s.drop_last()).0;
        let cur = split_scan(s.drop_last()).1;
        let d2 = split_scan(s).0;
        if is_white_space(s.last()) && cur.len() > 0 {
            assert(d2 == done.push(cur));
            assert forall|i: int| 0 <= i < d2.len() implies #[trigger] d2[i].len() > 0 by {
                if i < done.len() {
                    assert(d2[i] == done[i]);
                }
            }
            assert forall|i: int, k: int| 0 <= i < d2.len() && 0 <= k < d2[i].len()
                implies !is_white_space(#[trigger] d2[i][k]) by {
                if i < done.len() {
                    assert(d2[i] == done[i]);
                } else {
                    assert(d2[i] == cur);
                }
            }
        } else {
            assert(d2 == done);
        }
    }
}

/// The words `str::split_whitespace` yields are non-empty and hold no white
/// space.
pub proof fn lemma_words_nonempty_without_white_space(s: Seq<char>)
    ensures
        forall|i: int|
            0 <= i < split_whitespace(s).len() ==> #[trigger] split_whitespace(s)[i].len() > 0,
        forall|i: int, k: int|
            0 <= i < split_whitespace(s).len() && 0 <= k < split_whitespace(s)[i].len()
                ==> !is_white_space(#[trigger] split_whitespace(s)[i][k]),
{
    lemma_split_scan_words(s);
}

proof fn lemma_trim_start_shape(s: Seq<char>)
    ensures
        trim_start(s).len() == 0 || !is_white_space(trim_start(s)[0]),
        exists|i: int| 0 <= i <= s.len() && trim_start(s) == s.skip(i),
    decreases s.len(),
{
    if s.len() > 0 && is_white_space(s[0]) {
        lemma_trim_start_shape(s.drop_first());
        let i = choose|i: int|
            0 <= i <= s.drop_first().len() && trim_start(s.drop_first()) == s.drop_first().skip(i);
        assert(s.drop_first().skip(i) =~= s.skip(i + 1));
    } else {
        assert(s.skip(0) =~= s);
    }
}

proof fn lemma_trim_end_shape(s: Seq<char>)
    ensures
        trim_end(s).len() == 0 || !is_white_space(trim_end(s).last()),
        trim_end(s).len() <= s.len(),
        forall|k: int| 0 <= k < trim_end(s).len() ==> #[trigger] trim_end(s)[k] == s[k],
    decreases s.len(),
{
    if s.len() > 0 && is_white_space(s.last()) {
        lemma_trim_end_shape(s.drop_last());
    }
}

/// A trimmed text is empty or begins and ends with a character that is no
/// white space; trimming it again changes nothing.
pub proof fn lemma_trim_shape(s: Seq<char>)
    ensures
        trim(s).len() == 0 || (!is_white_space(trim(s)[0]) && !is_white_space(trim(s).last())),
        trim(trim(s)) == trim(s),
{
    let t = trim_start(s);
    lemma_trim_start_shape(s);
    lemma_trim_end_shape(t);
    let u = trim_end(t);
    if u.len() > 0 {
        assert(u[0] == t[0]);
    }
    // trimming again removes nothing at either end
    assert(trim_start(u) == u);
    assert(trim_end(u) == u);
}

/// Scanning `p + q`, where the scan of `p` ends outside a word, gives the
/// words of `p` followed by those of `q`.
proof fn lemma_split_scan_concat(p: Seq<char>, q: Seq<char>)
    requires
        split_scan(p).1.len() == 0,
    ensures
        split_scan(p + q) == (split_scan(p).0 + split_scan(q).0, split_scan(q).1),
    decreases q.len(),
{
    if q.len() == 0 {
        assert(p + q =~= p);
        assert(split_scan(p).0 + split_scan(q).0 =~= split_scan(p).0);
    } else {
        lemma_split_scan_concat(p, q.drop_last());
        assert((p + q).drop_last() =~= p + q.drop_last());
        assert((p + q).last() == q.last());
        let d = split_scan(p).0;
        let d2 = split_scan(q.drop_last()).0;
        let c2 = split_scan(q.drop_last()).1;
        assert((d + d2).push(c2) =~= d + d2.push(c2));
    }
}

/// A text without white space scans as one open word.
proof fn lemma_split_scan_word(w: Seq<char>)
    requires
        forall|i: int| 0 <= i < w.len() ==> !is_white_space(#[trigger] w[i]),
    ensures
        split_scan(w) == (Seq::<Seq<char>>::empty(), w),
    decreases w.len(),
{
    if w.len() > 0 {
        lemma_split_scan_word(w.drop_last());
        assert(w.drop_last().push(w.last()) =~= w);
    } else {
        assert(w =~= seq![]);
    }
}

/// Splitting a non-empty word without white space, a white-space character
/// and then any text gives the word followed by the words of the text.
pub proof fn lemma_split_first_word(w: Seq<char>, sep: char, rest: Seq<char>)
    requires
        w.len() > 0,
        forall|i: int| 0 <= i < w.len() ==> !is_white_space(#[trigger] w[i]),
        is_white_space(sep),
    ensures
        split_whitespace(w.push(sep) + rest) == seq![w] + split_whitespace(rest),
{
    lemma_split_scan_word(w);
    assert(w.push(sep).drop_last() =~= w);
    assert(split_scan(w.push(sep)) == (seq![w], Seq::<char>::empty()));
    lemma_split_scan_concat(w.push(sep), rest);
    let (d, c) = split_scan(rest);
    if c.len() > 0 {
        assert((seq![w] + d).push(c) =~= seq![w] + d.push(c));
    }
}

/// A non-empty text without white space is a single word.
pub proof fn lemma_split_single_word(w: Seq<char>)
    requires
        w.len() > 0,
        forall|i: int| 0 <= i < w.len() ==> !is_white_space(#[trigger] w[i]),
    ensures
        split_whitespace(w) == seq![w],
{
    lemma_split_scan_word(w);
}

} // verus!
