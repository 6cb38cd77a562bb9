//! Character-level text handling: the string operations that the chat logic
//! performs (trimming, splitting, prefix tests, joining), each specified over
//! `Seq<char>`.
use vstd::prelude::*;

verus! {

// ───────────────────────────── specifications ─────────────────────────────

/// The Unicode `White_Space` property, which `char::is_whitespace` and
/// `str::trim` go by.
pub open spec fn is_white(c: char) -> bool {
    let n = c as u32;
    ||| 0x9 <= n <= 0xd
    ||| n == 0x20
    ||| n == 0x85
    ||| n == 0xa0
    ||| n == 0x1680
    ||| 0x2000 <= n <= 0x200a
    ||| n == 0x2028
    ||| n == 0x2029
    ||| n == 0x202f
    ||| n == 0x205f
    ||| n == 0x3000
}

/// The status characters that a NAMES reply may put in front of a nickname.
pub open spec fn is_nick_prefix(c: char) -> bool {
    c == '@' || c == '+' || c == '%' || c == '&' || c == '~'
}

/// Which characters a front or back strip removes.
#[derive(Clone, Copy)]
pub enum CharClass {
    White,
    NickPrefix,
}

pub open spec fn in_class(k: CharClass, c: char) -> bool {
    match k {
        CharClass::White => is_white(c),
        CharClass::NickPrefix => is_nick_prefix(c),
    }
}

/// `s` without its leading characters of class `k`.
pub open spec fn strip_front(s: Seq<char>, k: CharClass) -> Seq<char>
    decreases s.len(),
{
    if s.len() > 0 && in_class(k, s[0]) {
        strip_front(s.drop_first(), k)
    } else {
        s
    }
}

/// `s` without its trailing characters of class `k`.
pub open spec fn strip_back(s: Seq<char>, k: CharClass) -> Seq<char>
    decreases s.len(),
{
    if s.len() > 0 && in_class(k, s.last()) {
        strip_back(s.drop_last(), k)
    } else {
        s
    }
}

/// What `str::trim` returns.
pub open spec fn trim(s: Seq<char>) -> Seq<char> {
    strip_back(strip_front(s, CharClass::White), CharClass::White)
}

/// Index of the first `c` in `s`, or `s.len()` when there is none.
pub open spec fn find_char(s: Seq<char>, c: char) -> nat
    decreases s.len(),
{
    if s.len() == 0 {
        0
    } else if s[0] == c {
        0
    } else {
        1 + find_char(s.drop_first(), c)
    }
}

/// The text before the first `c`, and the text after it if there is one:
/// the first step of `str::splitn`.
pub open spec fn split_once(s: Seq<char>, c: char) -> (Seq<char>, Option<Seq<char>>) {
    let i = find_char(s, c) as int;
    if i < s.len() {
        (s.subrange(0, i), Some(s.subrange(i + 1, s.len() as int)))
    } else {
        (s, None)
    }
}

/// What `str::split(c)` yields: the pieces between the occurrences of `c`.
pub open spec fn split_all(s: Seq<char>, c: char) -> Seq<Seq<char>>
    decreases s.len(),
{
    let i = find_char(s, c) as int;
    if i < s.len() {
        proof {
            lemma_find_char_bound(s, c);
        }
        seq![s.subrange(0, i)] + split_all(s.subrange(i + 1, s.len() as int), c)
    } else {
        seq![s]
    }
}

/// The non-empty pieces of `ps`, in order.
pub open spec fn keep_nonempty(ps: Seq<Seq<char>>) -> Seq<Seq<char>>
    decreases ps.len(),
{
    if ps.len() == 0 {
        seq![]
    } else if ps.last().len() > 0 {
        keep_nonempty(ps.drop_last()).push(ps.last())
    } else {
        keep_nonempty(ps.drop_last())
    }
}

/// What `[String]::join(sep)` returns.
pub open spec fn join_with(ps: Seq<Seq<char>>, sep: Seq<char>) -> Seq<char>
    decreases ps.len(),
{
    if ps.len() == 0 {
        seq![]
    } else if ps.len() == 1 {
        ps[0]
    } else {
        join_with(ps.drop_last(), sep) + sep + ps.last()
    }
}

/// `p` is a prefix of `s` (`str::starts_with`).
pub open spec fn has_prefix(s: Seq<char>, p: Seq<char>) -> bool {
    p.len() <= s.len() && s.subrange(0, p.len() as int) == p
}

/// The views of a sequence of strings.
pub open spec fn strs_view(v: Seq<String>) -> Seq<Seq<char>> {
    v.map_values(|s: String| s@)
}

/// The views of a sequence of character vectors.
pub open spec fn vecs_view(v: Seq<Vec<char>>) -> Seq<Seq<char>> {
    v.map_values(|s: Vec<char>| s@)
}

/// The view of an optional string.
pub open spec fn opt_view(o: Option<String>) -> Option<Seq<char>> {
    match o {
        Some(s) => Some(s@),
        None => None,
    }
}

// ───────────────────────────── lemmas ─────────────────────────────

pub proof fn lemma_find_char_bound(s: Seq<char>, c: char)
    ensures
        find_char(s, c) <= s.len(),
        find_char(s, c) < s.len() ==> s[find_char(s, c) as int] == c,
        forall|j: int| 0 <= j < find_char(s, c) ==> s[j] != c,
    decreases s.len(),
{
    if s.len() > 0 && s[0] != c {
        lemma_find_char_bound(s.drop_first(), c);
        assert forall|j: int| 0 <= j < find_char(s, c) implies s[j] != c by {
            if j > 0 {
                assert(s[j] == s.drop_first()[j - 1]);
            }
        }
    }
}

/// `find_char` is the first position holding `c`.
pub proof fn lemma_find_char_at(s: Seq<char>, c: char, k: int)
    requires
        0 <= k <= s.len(),
        forall|j: int| 0 <= j < k ==> s[j] != c,
        k == s.len() || s[k] == c,
    ensures
        find_char(s, c) == k,
    decreases s.len(),
{
    if s.len() > 0 && k > 0 {
        assert forall|j: int| 0 <= j < k - 1 implies s.drop_first()[j] != c by {
            assert(s.drop_first()[j] == s[j + 1]);
        }
        lemma_find_char_at(s.drop_first(), c, k - 1);
    }
}

// ───────────────────────────── executable operations ─────────────────────────────

/// Appends one character to a string (`String::push`).
#[verifier::external_body]
pub(crate) fn push_char(s: &mut String, c: char)
    ensures
        final(s)@ == old(s)@.push(c),
{
    s.push(c);
}

/// The characters of `s`.
pub fn chars_of(s: &str) -> (v: Vec<char>)
    ensures
        v@ == s@,
{
    let mut v: Vec<char> = Vec::new();
    for c in it: s.chars()
        invariant
            v@ == it.seq().take(it.index() as int),
    {
        v.push(c);
    }
    v
}

/// The string made of the characters of `v`.
pub fn string_of(v: &[char]) -> (s: String)
    ensures
        s@ == v@,
{
    let mut s = String::new();
    let mut i: usize = 0;
    while i < v.len()
        invariant
            i <= v.len(),
            s@ == v@.take(i as int),
        decreases v.len() - i,
    {
        push_char(&mut s, v[i]);
        assert(v@.take(i as int).push(v@[i as int]) =~= v@.take(i + 1));
        i = i + 1;
    }
    assert(v@.take(v.len() as int) =~= v@);
    s
}

/// A copy of a string, with its characters.
pub fn copy_string(s: &String) -> (r: String)
    ensures
        r@ == s@,
{
    s.clone()
}

/// A copy of an optional string.
pub fn copy_opt(o: &Option<String>) -> (r: Option<String>)
    ensures
        opt_view(r) == opt_view(*o),
{
    match o {
        Some(s) => Some(s.clone()),
        None => None,
    }
}

/// A copy of a list of strings.
pub fn copy_strings(v: &Vec<String>) -> (r: Vec<String>)
    ensures
        strs_view(r@) == strs_view(v@),
{
    let mut r: Vec<String> = Vec::new();
    let mut i: usize = 0;
    while i < v.len()
        invariant
            i <= v.len(),
            strs_view(r@) == strs_view(v@).take(i as int),
        decreases v.len() - i,
    {
        let ghost before = strs_view(r@);
        let t = v[i].clone();
        r.push(t);
        assert(strs_view(r@) =~= before.push(v@[i as int]@));
        assert(strs_view(r@) =~= strs_view(v@).take(i + 1));
        i = i + 1;
    }
    assert(strs_view(v@).take(v.len() as int) =~= strs_view(v@));
    r
}

/// `char::is_whitespace`.
pub fn char_is_white(c: char) -> (b: bool)
    ensures
        b == is_white(c),
{
    let n = c as u32;
    (0x9 <= n && n <= 0xd) || n == 0x20 || n == 0x85 || n == 0xa0 || n == 0x1680 || (0x2000 <= n
        && n <= 0x200a) || n == 0x2028 || n == 0x2029 || n == 0x202f || n == 0x205f || n == 0x3000
}

fn char_in_class(k: CharClass, c: char) -> (b: bool)
    ensures
        b == in_class(k, c),
{
    match k {
        CharClass::White => char_is_white(c),
        CharClass::NickPrefix => c == '@' || c == '+' || c == '%' || c == '&' || c == '~',
    }
}

/// `s` with its leading characters of class `k` removed.
pub fn strip_front_exec(s: &[char], k: CharClass) -> (r: Vec<char>)
    ensures
        r@ == strip_front(s@, k),
{
    let n = s.len();
    let mut i: usize = 0;
    assert(s@.subrange(0, n as int) =~= s@);
    while i < n && char_in_class(k, s[i])
        invariant
            i <= n,
            n == s@.len(),
            strip_front(s@, k) == strip_front(s@.subrange(i as int, n as int), k),
        decreases n - i,
    {
        assert(s@.subrange(i as int, n as int).drop_first() =~= s@.subrange(i + 1, n as int));
        i = i + 1;
    }
    let mut r: Vec<char> = Vec::new();
    let mut j: usize = i;
    while j < n
        invariant
            i <= j <= n,
            n == s@.len(),
            r@ == s@.subrange(i as int, j as int),
        decreases n - j,
    {
        r.push(s[j]);
        assert(r@ =~= s@.subrange(i as int, j + 1));
        j = j + 1;
    }
    r
}

/// `s` with its trailing characters of class `k` removed.
pub fn strip_back_exec(s: &[char], k: CharClass) -> (r: Vec<char>)
    ensures
        r@ == strip_back(s@, k),
{
    let mut e: usize = s.len();
    assert(s@.subrange(0, e as int) =~= s@);
    while e > 0 && char_in_class(k, s[e - 1])
        invariant
            e <= s@.len(),
            strip_back(s@, k) == strip_back(s@.subrange(0, e as int), k),
        decreases e,
    {
        assert(s@.subrange(0, e as int).drop_last() =~= s@.subrange(0, e - 1));
        e = e - 1;
    }
    let mut r: Vec<char> = Vec::new();
    let mut j: usize = 0;
    while j < e
        invariant
            j <= e <= s@.len(),
            r@ == s@.subrange(0, j as int),
        decreases e - j,
    {
        r.push(s[j]);
        assert(r@ =~= s@.subrange(0, j + 1));
        j = j + 1;
    }
    r
}

/// `str::trim`.
pub fn trim_exec(s: &[char]) -> (r: Vec<char>)
    ensures
        r@ == trim(s@),
{
    let f = strip_front_exec(s, CharClass::White);
    strip_back_exec(&f, CharClass::White)
}

/// Whether `p` is a prefix of `s`.
pub fn has_prefix_exec(s: &[char], p: &[char]) -> (b: bool)
    ensures
        b == has_prefix(s@, p@),
{
    if p.len() > s.len() {
        return false;
    }
    let mut i: usize = 0;
    while i < p.len()
        invariant
            i <= p.len() <= s.len(),
            s@.subrange(0, i as int) == p@.subrange(0, i as int),
        decreases p.len() - i,
    {
        if s[i] != p[i] {
            assert(s@.subrange(0, p.len() as int)[i as int] != p@[i as int]);
            return false;
        }
        assert(s@.subrange(0, i + 1) =~= s@.subrange(0, i as int).push(s@[i as int]));
        assert(p@.subrange(0, i + 1) =~= p@.subrange(0, i as int).push(p@[i as int]));
        i = i + 1;
    }
    assert(p@.subrange(0, p.len() as int) =~= p@);
    true
}

/// Whether `a` and `b` hold the same characters.
pub fn same_chars(a: &[char], b: &[char]) -> (r: bool)
    ensures
        r == (a@ == b@),
{
    if a.len() != b.len() {
        return false;
    }
    let r = has_prefix_exec(a, b);
    proof {
        if r {
            assert(a@.subrange(0, a@.len() as int) =~= a@);
        } else {
            assert(a@.subrange(0, b@.len() as int) =~= a@);
        }
    }
    r
}

/// Whether the string `s` reads exactly `lit`.
pub fn is_word(s: &[char], lit: &str) -> (r: bool)
    ensures
        r == (s@ == lit@),
{
    let l = chars_of(lit);
    same_chars(s, &l)
}

/// The copy of `s[from..to]`.
pub fn slice_chars(s: &[char], from: usize, to: usize) -> (r: Vec<char>)
    requires
        from <= to <= s@.len(),
    ensures
        r@ == s@.subrange(from as int, to as int),
{
    let mut r: Vec<char> = Vec::new();
    let mut j: usize = from;
    while j < to
        invariant
            from <= j <= to <= s@.len(),
            r@ == s@.subrange(from as int, j as int),
        decreases to - j,
    {
        r.push(s[j]);
        assert(r@ =~= s@.subrange(from as int, j + 1));
        j = j + 1;
    }
    r
}

/// The first `c` in `s`, if any.
pub fn find_char_exec(s: &[char], c: char) -> (i: usize)
    ensures
        i == find_char(s@, c),
{
    let mut i: usize = 0;
    while i < s.len() && s[i] != c
        invariant
            i <= s@.len(),
            forall|j: int| 0 <= j < i ==> s@[j] != c,
        decreases s.len() - i,
    {
        i = i + 1;
    }
    proof {
        lemma_find_char_at(s@, c, i as int);
    }
    i
}

/// `str::split_once`-like first step of `splitn`: the text before the
/// first `c`, and the text after it if there is one.
pub fn split_once_exec(s: &[char], c: char) -> (r: (Vec<char>, Option<Vec<char>>))
    ensures
        r.0@ == split_once(s@, c).0,
        r.1 is Some <==> split_once(s@, c).1 is Some,
        r.1 matches Some(t) ==> t@ == split_once(s@, c).1->0,
{
    let i = find_char_exec(s, c);
    if i < s.len() {
        (slice_chars(s, 0, i), Some(slice_chars(s, i + 1, s.len())))
    } else {
        proof {
            assert(s@.subrange(0, s@.len() as int) =~= s@);
        }
        (slice_chars(s, 0, s.len()), None)
    }
}

/// `str::split(c)`, each piece as a character vector.
pub fn split_all_exec(s: &[char], c: char) -> (r: Vec<Vec<char>>)
    ensures
        vecs_view(r@) == split_all(s@, c),
{
    let n = s.len();
    let mut out: Vec<Vec<char>> = Vec::new();
    let mut cur: Vec<char> = Vec::new();
    let mut st: usize = 0;
    let mut i: usize = 0;
    assert(s@.subrange(0, n as int) =~= s@);
    assert(vecs_view(out@) =~= Seq::<Seq<char>>::empty());
    while i < n
        invariant
            st <= i <= n,
            n == s@.len(),
            cur@ == s@.subrange(st as int, i as int),
            forall|j: int| st <= j < i ==> s@[j] != c,
            split_all(s@, c) == vecs_view(out@) + split_all(s@.subrange(st as int, n as int), c),
        decreases n - i,
    {
        let ghost rest = s@.subrange(st as int, n as int);
        if s[i] == c {
            proof {
                lemma_find_char_at(rest, c, i - st);
                assert(rest.subrange(0, i - st) =~= cur@);
                assert(rest.subrange(i - st + 1, rest.len() as int) =~= s@.subrange(
                    i + 1,
                    n as int,
                ));
            }
            let ghost old_out = vecs_view(out@);
            out.push(cur);
            proof {
                assert(vecs_view(out@) =~= old_out.push(cur@));
                assert(seq![cur@] + split_all(s@.subrange(i + 1, n as int), c) =~= split_all(
                    rest,
                    c,
                ));
                assert(old_out + split_all(rest, c) =~= vecs_view(out@) + split_all(
                    s@.subrange(i + 1, n as int),
                    c,
                ));
            }
            cur = Vec::new();
            st = i + 1;
            assert(cur@ =~= s@.subrange(st as int, st as int));
        } else {
            cur.push(s[i]);
            assert(cur@ =~= s@.subrange(st as int, i + 1));
        }
        i = i + 1;
    }
    let ghost rest = s@.subrange(st as int, n as int);
    proof {
        lemma_find_char_at(rest, c, rest.len() as int);
        assert(cur@ =~= rest);
    }
    let ghost old_out = vecs_view(out@);
    out.push(cur);
    proof {
        assert(vecs_view(out@) =~= old_out.push(rest));
        assert(old_out + split_all(rest, c) =~= vecs_view(out@));
    }
    out
}

/// The non-empty pieces of `ps`, in order.
pub fn keep_nonempty_exec(ps: Vec<Vec<char>>) -> (r: Vec<Vec<char>>)
    ensures
        vecs_view(r@) == keep_nonempty(vecs_view(ps@)),
{
    let mut r: Vec<Vec<char>> = Vec::new();
    let mut i: usize = 0;
    let ghost all = vecs_view(ps@);
    let mut ps = ps;
    let ghost orig = ps@;
    // Walk the pieces from the front; the spec is stated from the back.
    while i < ps.len()
        invariant
            i <= ps.len(),
            ps@ == orig,
            all == vecs_view(orig),
            vecs_view(r@) == keep_nonempty(all.take(i as int)),
        decreases ps.len() - i,
    {
        let p = slice_chars(&ps[i], 0, ps[i].len());
        proof {
            assert(ps[i as int]@.subrange(0, ps[i as int]@.len() as int) =~= ps[i as int]@);
            assert(all.take(i + 1).drop_last() =~= all.take(i as int));
            assert(all.take(i + 1).last() == all[i as int]);
        }
        if p.len() > 0 {
            let ghost before = vecs_view(r@);
            r.push(p);
            assert(vecs_view(r@) =~= before.push(p@));
        }
        i = i + 1;
    }
    assert(all.take(ps.len() as int) =~= all);
    r
}

/// `s` with each piece passed through `strip_front(_, NickPrefix)`.
pub open spec fn strip_each(ps: Seq<Seq<char>>) -> Seq<Seq<char>> {
    ps.map_values(|p: Seq<char>| strip_front(p, CharClass::NickPrefix))
}

pub fn strip_each_exec(ps: &Vec<Vec<char>>) -> (r: Vec<Vec<char>>)
    ensures
        vecs_view(r@) == strip_each(vecs_view(ps@)),
{
    let mut r: Vec<Vec<char>> = Vec::new();
    let mut i: usize = 0;
    while i < ps.len()
        invariant
            i <= ps.len(),
            vecs_view(r@) == strip_each(vecs_view(ps@)).take(i as int),
        decreases ps.len() - i,
    {
        let q = strip_front_exec(&ps[i], CharClass::NickPrefix);
        let ghost before = vecs_view(r@);
        r.push(q);
        assert(vecs_view(r@) =~= before.push(q@));
        assert(vecs_view(r@) =~= strip_each(vecs_view(ps@)).take(i + 1));
        i = i + 1;
    }
    assert(strip_each(vecs_view(ps@)).take(ps.len() as int) =~= strip_each(vecs_view(ps@)));
    r
}

/// `ps.join(sep)` with a one-character separator.
pub fn join_exec(ps: &Vec<Vec<char>>, sep: char) -> (r: Vec<char>)
    ensures
        r@ == join_with(vecs_view(ps@), seq![sep]),
{
    let mut r: Vec<char> = Vec::new();
    let mut i: usize = 0;
    let ghost all = vecs_view(ps@);
    while i < ps.len()
        invariant
            i <= ps.len(),
            all == vecs_view(ps@),
            r@ == join_with(all.take(i as int), seq![sep]),
        decreases ps.len() - i,
    {
        let ghost before = r@;
        if i > 0 {
            r.push(sep);
        }
        let mut j: usize = 0;
        let ghost mid = r@;
        while j < ps[i].len()
            invariant
                i < ps.len(),
                j <= ps[i as int]@.len(),
                r@ == mid + ps[i as int]@.subrange(0, j as int),
            decreases ps[i as int]@.len() - j,
        {
            r.push(ps[i][j]);
            assert(r@ =~= mid + ps[i as int]@.subrange(0, j + 1));
            j = j + 1;
        }
        proof {
            assert(ps[i as int]@.subrange(0, ps[i as int]@.len() as int) =~= ps[i as int]@);
            let t = all.take(i + 1);
            assert(t.drop_last() =~= all.take(i as int));
            assert(t.last() == ps[i as int]@);
            if i == 0 {
                assert(t.len() == 1);
                assert(r@ =~= t[0]);
            } else {
                assert(r@ =~= before + seq![sep] + ps[i as int]@);
            }
        }
        i = i + 1;
    }
    assert(all.take(ps.len() as int) =~= all);
    r
}

} // verus!
