//! Character-level string utilities.
//!
//! All manipulation is done on `Vec<char>` values, whose view is the same
//! `Seq<char>` as the view of the `&str` they came from, so contracts can
//! speak of one model throughout the crate.

use vstd::prelude::*;
use vstd::string::StrSliceExecFns;

verus! {

/// Whitespace recognized by the trimming helpers.
pub open spec fn is_ws(c: char) -> bool {
    c == ' ' || c == '\t' || c == '\n' || c == '\r'
}

pub open spec fn trim_front(s: Seq<char>) -> Seq<char>
    decreases s.len(),
{
    if s.len() > 0 && is_ws(s[0]) {
        trim_front(s.drop_first())
    } else {
        s
    }
}

pub open spec fn trim_back(s: Seq<char>) -> Seq<char>
    decreases s.len(),
{
    if s.len() > 0 && is_ws(s.last()) {
        trim_back(s.drop_last())
    } else {
        s
    }
}

/// Leading and trailing whitespace removed.
pub open spec fn spec_trim(s: Seq<char>) -> Seq<char> {
    trim_back(trim_front(s))
}

proof fn lemma_trim_front_skip(s: Seq<char>, i: int)
    requires
        0 <= i <= s.len(),
        forall|k: int| 0 <= k < i ==> is_ws(s[k]),
        i == s.len() || !is_ws(s[i]),
    ensures
        trim_front(s) == s.skip(i),
    decreases i,
{
    if i == 0 {
        assert(s.skip(0) =~= s);
    } else {
        lemma_trim_front_skip(s.drop_first(), i - 1);
        assert(s.drop_first().skip(i - 1) =~= s.skip(i));
    }
}

proof fn lemma_trim_back_take(s: Seq<char>, j: int)
    requires
        0 <= j <= s.len(),
        forall|k: int| j <= k < s.len() ==> is_ws(s[k]),
        j == 0 || !is_ws(s[j - 1]),
    ensures
        trim_back(s) == s.take(j),
    decreases s.len() - j,
{
    if j == s.len() {
        assert(s.take(j) =~= s);
    } else {
        lemma_trim_back_take(s.drop_last(), j);
        assert(s.drop_last().take(j) =~= s.take(j));
    }
}

pub proof fn lemma_trim_front_first(s: Seq<char>)
    ensures
        trim_front(s).len() > 0 ==> !is_ws(trim_front(s)[0]),
    decreases s.len(),
{
    if s.len() > 0 && is_ws(s[0]) {
        lemma_trim_front_first(s.drop_first());
    }
}

proof fn lemma_trim_back_prefix(s: Seq<char>)
    ensures
        trim_back(s).len() > 0 ==> !is_ws(trim_back(s).last()),
        forall|k: int| 0 <= k < trim_back(s).len() ==> trim_back(s)[k] == s[k],
        trim_back(s).len() <= s.len(),
    decreases s.len(),
{
    if s.len() > 0 && is_ws(s.last()) {
        lemma_trim_back_prefix(s.drop_last());
        assert forall|k: int| 0 <= k < trim_back(s).len() implies trim_back(s)[k] == s[k] by {
            assert(trim_back(s) == trim_back(s.drop_last()));
            assert(s.drop_last()[k] == s[k]);
        }
    }
}

/// The deep view of a vector of characters is its plain view.
pub proof fn lemma_chars_deep_view(v: &Vec<char>)
    ensures
        v.deep_view() == v@,
{
    assert(v.deep_view() =~= v@);
}

/// The boundary characters of a trimmed string are not whitespace.
pub proof fn lemma_trim_bounds(s: Seq<char>)
    ensures
        spec_trim(s).len() > 0 ==> !is_ws(spec_trim(s)[0]),
        spec_trim(s).len() > 0 ==> !is_ws(spec_trim(s).last()),
{
    lemma_trim_front_first(s);
    lemma_trim_back_prefix(trim_front(s));
}

/// A string whose boundary characters are not whitespace trims to itself.
pub proof fn lemma_trim_noop(s: Seq<char>)
    requires
        s.len() > 0 ==> !is_ws(s[0]),
        s.len() > 0 ==> !is_ws(s.last()),
    ensures
        spec_trim(s) == s,
{
    assert(trim_front(s) == s);
    assert(trim_back(s) == s);
}

/// Trimming is idempotent.
pub proof fn lemma_trim_idempotent(s: Seq<char>)
    ensures
        spec_trim(spec_trim(s)) == spec_trim(s),
{
    lemma_trim_bounds(s);
    lemma_trim_noop(spec_trim(s));
}

pub fn is_ws_exec(c: char) -> (r: bool)
    ensures
        r == is_ws(c),
{
    c == ' ' || c == '\t' || c == '\n' || c == '\r'
}

/// The characters of a string slice, in order.
pub fn chars_of(s: &str) -> (r: Vec<char>)
    ensures
        r@ == s@,
{
    let n = s.unicode_len();
    let mut r: Vec<char> = Vec::new();
    let mut i: usize = 0;
    while i < n
        invariant
            0 <= i <= n,
            n == s@.len(),
            r@ == s@.take(i as int),
        decreases n - i,
    {
        let c = s.get_char(i);
        r.push(c);
        i += 1;
        proof {
            assert(r@ =~= s@.take(i as int));
        }
    }
    proof {
        assert(s@.take(n as int) =~= s@);
    }
    r
}

/// Relies on `String: FromIterator<char>`: collecting characters yields the
/// string of exactly those characters, in order.
#[verifier::external_body]
pub(crate) fn string_from_chars(cs: &Vec<char>) -> (r: String)
    ensures
        r@ == cs@,
{
    cs.iter().collect()
}

pub fn trim_chars(s: &Vec<char>) -> (r: Vec<char>)
    ensures
        r@ == spec_trim(s@),
{
    let n = s.len();
    let mut i: usize = 0;
    loop
        invariant
            0 <= i <= n,
            n == s@.len(),
            forall|k: int| 0 <= k < i ==> is_ws(s@[k]),
        ensures
            0 <= i <= n,
            forall|k: int| 0 <= k < i ==> is_ws(s@[k]),
            i == n || !is_ws(s@[i as int]),
        decreases n - i,
    {
        if i < n {
            if is_ws_exec(s[i]) {
                i += 1;
            } else {
                break;
            }
        } else {
            break;
        }
    }
    proof {
        lemma_trim_front_skip(s@, i as int);
    }
    let mut j: usize = n;
    loop
        invariant
            i <= j <= n,
            n == s@.len(),
            forall|k: int| j <= k < n ==> is_ws(s@[k]),
        ensures
            i <= j <= n,
            forall|k: int| j <= k < n ==> is_ws(s@[k]),
            j == i || !is_ws(s@[j - 1]),
        decreases j,
    {
        if j > i {
            if is_ws_exec(s[j - 1]) {
                j -= 1;
            } else {
                break;
            }
        } else {
            break;
        }
    }
    proof {
        let front = s@.skip(i as int);
        assert(forall|k: int| j - i <= k < front.len() ==> is_ws(front[k]));
        lemma_trim_back_take(front, j - i as int);
        assert(trim_back(front) == front.take(j - i as int));
    }
    let mut r: Vec<char> = Vec::new();
    let mut k: usize = i;
    while k < j
        invariant
            i <= k <= j <= n,
            n == s@.len(),
            r@ == s@.skip(i as int).take(k - i as int),
        decreases j - k,
    {
        r.push(s[k]);
        k += 1;
        proof {
            assert(r@ =~= s@.skip(i as int).take(k - i as int));
        }
    }
    r
}

/// A convenience wrapper: the trimmed characters of a string slice.
pub fn trim_str(s: &str) -> (r: Vec<char>)
    ensures
        r@ == spec_trim(s@),
{
    let cs = chars_of(s);
    trim_chars(&cs)
}

pub open spec fn spec_contains_char(s: Seq<char>, c: char) -> bool {
    exists|i: int| 0 <= i < s.len() && s[i] == c
}

pub fn contains_char(s: &Vec<char>, c: char) -> (r: bool)
    ensures
        r == spec_contains_char(s@, c),
{
    let n = s.len();
    let mut i: usize = 0;
    while i < n
        invariant
            0 <= i <= n,
            n == s@.len(),
            forall|k: int| 0 <= k < i ==> s@[k] != c,
        decreases n - i,
    {
        if s[i] == c {
            return true;
        }
        i += 1;
    }
    false
}

pub fn chars_eq(a: &Vec<char>, b: &Vec<char>) -> (r: bool)
    ensures
        r == (a@ == b@),
{
    if a.len() != b.len() {
        proof {
            assert(a@ != b@);
        }
        return false;
    }
    let n = a.len();
    let mut i: usize = 0;
    while i < n
        invariant
            0 <= i <= n,
            n == a@.len(),
            a@.len() == b@.len(),
            forall|k: int| 0 <= k < i ==> a@[k] == b@[k],
        decreases n - i,
    {
        if a[i] != b[i] {
            proof {
                assert(a@ != b@);
            }
            return false;
        }
        i += 1;
    }
    proof {
        assert(a@ =~= b@);
    }
    true
}

/// Whether the characters equal those of a (usually literal) string slice.
pub fn chars_eq_str(a: &Vec<char>, s: &str) -> (r: bool)
    ensures
        r == (a@ == s@),
{
    let b = chars_of(s);
    chars_eq(a, &b)
}

pub open spec fn spec_starts_with(s: Seq<char>, p: Seq<char>) -> bool {
    s.len() >= p.len() && s.take(p.len() as int) == p
}

pub fn starts_with_str(s: &Vec<char>, p: &str) -> (r: bool)
    ensures
        r == spec_starts_with(s@, p@),
{
    let pc = chars_of(p);
    let m = pc.len();
    if s.len() < m {
        proof {
            assert(!spec_starts_with(s@, p@));
        }
        return false;
    }
    let mut i: usize = 0;
    while i < m
        invariant
            0 <= i <= m,
            m == pc@.len(),
            pc@ == p@,
            s@.len() >= m,
            forall|k: int| 0 <= k < i ==> s@[k] == pc@[k],
        decreases m - i,
    {
        if s[i] != pc[i] {
            proof {
                assert(s@.take(m as int)[i as int] != p@[i as int]);
            }
            return false;
        }
        i += 1;
    }
    proof {
        assert(s@.take(m as int) =~= p@);
    }
    true
}

pub fn append_chars(dst: &mut Vec<char>, src: &Vec<char>)
    ensures
        final(dst)@ == old(dst)@ + src@,
{
    let n = src.len();
    let mut i: usize = 0;
    while i < n
        invariant
            0 <= i <= n,
            n == src@.len(),
            dst@ == old(dst)@ + src@.take(i as int),
        decreases n - i,
    {
        dst.push(src[i]);
        i += 1;
        proof {
            assert(old(dst)@ + src@.take(i as int) =~= (old(dst)@ + src@.take(
                i - 1,
            )).push(src@[i - 1]));
        }
    }
    proof {
        assert(src@.take(n as int) =~= src@);
    }
}

pub fn append_str(dst: &mut Vec<char>, src: &str)
    ensures
        final(dst)@ == old(dst)@ + src@,
{
    let cs = chars_of(src);
    append_chars(dst, &cs);
}

/// Every occurrence of `from` replaced by `to`.
pub open spec fn spec_replace_char(s: Seq<char>, from: char, to: char) -> Seq<char> {
    Seq::new(s.len(), |i: int| if s[i] == from { to } else { s[i] })
}

pub fn replace_char(s: &Vec<char>, from: char, to: char) -> (r: Vec<char>)
    ensures
        r@ == spec_replace_char(s@, from, to),
{
    let n = s.len();
    let mut r: Vec<char> = Vec::new();
    let mut i: usize = 0;
    while i < n
        invariant
            0 <= i <= n,
            n == s@.len(),
            r@ == spec_replace_char(s@, from, to).take(i as int),
        decreases n - i,
    {
        if s[i] == from {
            r.push(to);
        } else {
            r.push(s[i]);
        }
        i += 1;
        proof {
            assert(r@ =~= spec_replace_char(s@, from, to).take(i as int));
        }
    }
    proof {
        assert(spec_replace_char(s@, from, to).take(n as int) =~= spec_replace_char(s@, from, to));
    }
    r
}

pub open spec fn split_rec(s: Seq<char>, sep: char, cur: Seq<char>) -> Seq<Seq<char>>
    decreases s.len(),
{
    if s.len() == 0 {
        seq![cur]
    } else if s[0] == sep {
        seq![cur] + split_rec(s.drop_first(), sep, Seq::empty())
    } else {
        split_rec(s.drop_first(), sep, cur.push(s[0]))
    }
}

/// The pieces of `s` between occurrences of `sep`; an empty string gives one
/// empty piece, and a separator at either end gives an empty piece there.
pub open spec fn spec_split(s: Seq<char>, sep: char) -> Seq<Seq<char>> {
    split_rec(s, sep, Seq::empty())
}

pub fn split_char(s: &Vec<char>, sep: char) -> (r: Vec<Vec<char>>)
    ensures
        r.deep_view() == spec_split(s@, sep),
        r@.len() >= 1,
{
    let n = s.len();
    let mut pieces: Vec<Vec<char>> = Vec::new();
    let mut cur: Vec<char> = Vec::new();
    let mut i: usize = 0;
    proof {
        assert(s@.skip(0) =~= s@);
        assert(pieces.deep_view() + split_rec(s@, sep, cur@) =~= split_rec(s@, sep, cur@));
    }
    while i < n
        invariant
            0 <= i <= n,
            n == s@.len(),
            spec_split(s@, sep) == pieces.deep_view() + split_rec(s@.skip(i as int), sep, cur@),
        decreases n - i,
    {
        proof {
            assert(s@.skip(i as int).drop_first() =~= s@.skip(i + 1));
            assert(s@.skip(i as int)[0] == s@[i as int]);
        }
        let ghost old_pieces = pieces.deep_view();
        let ghost old_cur = cur@;
        if s[i] == sep {
            proof {
                lemma_chars_deep_view(&cur);
            }
            pieces.push(cur);
            cur = Vec::new();
            proof {
                assert(pieces.deep_view() =~= old_pieces.push(old_cur));
                assert(split_rec(s@.skip(i as int), sep, old_cur) == seq![old_cur] + split_rec(
                    s@.skip(i + 1),
                    sep,
                    Seq::empty(),
                ));
                assert(old_pieces.push(old_cur) + split_rec(s@.skip(i + 1), sep, Seq::empty())
                    =~= old_pieces + (seq![old_cur] + split_rec(s@.skip(i + 1), sep, Seq::empty())));
            }
        } else {
            cur.push(s[i]);
            proof {
                assert(split_rec(s@.skip(i as int), sep, old_cur) == split_rec(
                    s@.skip(i + 1),
                    sep,
                    old_cur.push(s@[i as int]),
                ));
            }
        }
        i += 1;
    }
    proof {
        assert(s@.skip(n as int) =~= Seq::<char>::empty());
        assert(split_rec(Seq::empty(), sep, cur@) == seq![cur@]);
    }
    let ghost old_pieces = pieces.deep_view();
    let ghost last_cur = cur@;
    proof {
        lemma_chars_deep_view(&cur);
    }
    pieces.push(cur);
    proof {
        assert(pieces.deep_view() =~= old_pieces.push(last_cur));
        assert(old_pieces.push(last_cur) =~= old_pieces + seq![last_cur]);
    }
    pieces
}

/// The parts joined with `sep` between consecutive parts.
pub open spec fn spec_join(parts: Seq<Seq<char>>, sep: char) -> Seq<char>
    decreases parts.len(),
{
    if parts.len() == 0 {
        Seq::empty()
    } else if parts.len() == 1 {
        parts[0]
    } else {
        parts[0] + seq![sep] + spec_join(parts.drop_first(), sep)
    }
}

pub proof fn lemma_join_push(parts: Seq<Seq<char>>, sep: char, x: Seq<char>)
    ensures
        spec_join(parts.push(x), sep) == if parts.len() == 0 {
            x
        } else {
            spec_join(parts, sep) + seq![sep] + x
        },
    decreases parts.len(),
{
    if parts.len() == 0 {
        assert(parts.push(x)[0] =~= x);
        assert(spec_join(parts.push(x), sep) == x);
    } else {
        lemma_join_push(parts.drop_first(), sep, x);
        assert(parts.push(x).drop_first() =~= parts.drop_first().push(x));
        if parts.len() == 1 {
            assert(parts.drop_first().len() == 0);
            assert(spec_join(parts, sep) == parts[0]);
        }
    }
}

pub fn join_chars(parts: &Vec<Vec<char>>, sep: char) -> (r: Vec<char>)
    ensures
        r@ == spec_join(parts.deep_view(), sep),
{
    let n = parts.len();
    let mut r: Vec<char> = Vec::new();
    let mut i: usize = 0;
    while i < n
        invariant
            0 <= i <= n,
            n == parts@.len(),
            parts.deep_view().len() == n,
            r@ == spec_join(parts.deep_view().take(i as int), sep),
        decreases n - i,
    {
        if i > 0 {
            r.push(sep);
        }
        append_chars(&mut r, &parts[i]);
        i += 1;
        proof {
            assert(parts.deep_view().take(i as int).drop_last() =~= parts.deep_view().take(i - 1));
            assert(parts.deep_view().take(i as int).last() == parts.deep_view()[i - 1]);
            lemma_join_push(parts.deep_view().take(i - 1), sep, parts.deep_view()[i - 1]);
            assert(parts.deep_view().take(i as int) =~= parts.deep_view().take(i - 1).push(
                parts.deep_view()[i - 1],
            ));
        }
    }
    proof {
        assert(parts.deep_view().take(n as int) =~= parts.deep_view());
    }
    r
}

/// The characters from `from` (inclusive) to `to` (exclusive).
pub fn subrange_chars(s: &Vec<char>, from: usize, to: usize) -> (r: Vec<char>)
    requires
        from <= to <= s@.len(),
    ensures
        r@ == s@.subrange(from as int, to as int),
{
    let mut r: Vec<char> = Vec::new();
    let mut i: usize = from;
    while i < to
        invariant
            from <= i <= to <= s@.len(),
            r@ == s@.subrange(from as int, i as int),
        decreases to - i,
    {
        r.push(s[i]);
        i += 1;
        proof {
            assert(r@ =~= s@.subrange(from as int, i as int));
        }
    }
    r
}

/// All characters but the first.
pub fn tail_chars(s: &Vec<char>) -> (r: Vec<char>)
    requires
        s@.len() > 0,
    ensures
        r@ == s@.drop_first(),
{
    let n = s.len();
    let mut r: Vec<char> = Vec::new();
    let mut i: usize = 1;
    while i < n
        invariant
            1 <= i <= n,
            n == s@.len(),
            r@ == s@.subrange(1, i as int),
        decreases n - i,
    {
        r.push(s[i]);
        i += 1;
        proof {
            assert(r@ =~= s@.subrange(1, i as int));
        }
    }
    proof {
        assert(s@.subrange(1, n as int) =~= s@.drop_first());
    }
    r
}

/// The parts joined with the separator string between consecutive parts.
pub open spec fn spec_join_str(parts: Seq<Seq<char>>, sep: Seq<char>) -> Seq<char>
    decreases parts.len(),
{
    if parts.len() == 0 {
        Seq::empty()
    } else if parts.len() == 1 {
        parts[0]
    } else {
        parts[0] + sep + spec_join_str(parts.drop_first(), sep)
    }
}

pub proof fn lemma_join_str_push(parts: Seq<Seq<char>>, sep: Seq<char>, x: Seq<char>)
    ensures
        spec_join_str(parts.push(x), sep) == if parts.len() == 0 {
            x
        } else {
            spec_join_str(parts, sep) + sep + x
        },
    decreases parts.len(),
{
    if parts.len() == 0 {
        assert(parts.push(x)[0] =~= x);
        assert(spec_join_str(parts.push(x), sep) == x);
    } else {
        lemma_join_str_push(parts.drop_first(), sep, x);
        assert(parts.push(x).drop_first() =~= parts.drop_first().push(x));
        if parts.len() == 1 {
            assert(parts.drop_first().len() == 0);
            assert(spec_join_str(parts, sep) == parts[0]);
        }
    }
}

pub fn join_chars_str(parts: &Vec<Vec<char>>, sep: &str) -> (r: Vec<char>)
    ensures
        r@ == spec_join_str(parts.deep_view(), sep@),
{
    let n = parts.len();
    let mut r: Vec<char> = Vec::new();
    let mut i: usize = 0;
    while i < n
        invariant
            0 <= i <= n,
            n == parts@.len(),
            parts.deep_view().len() == n,
            r@ == spec_join_str(parts.deep_view().take(i as int), sep@),
        decreases n - i,
    {
        if i > 0 {
            append_str(&mut r, sep);
        }
        append_chars(&mut r, &parts[i]);
        i += 1;
        proof {
            lemma_join_str_push(parts.deep_view().take(i - 1), sep@, parts.deep_view()[i - 1]);
            assert(parts.deep_view().take(i as int) =~= parts.deep_view().take(i - 1).push(
                parts.deep_view()[i - 1],
            ));
        }
    }
    proof {
        assert(parts.deep_view().take(n as int) =~= parts.deep_view());
    }
    r
}

/// ASCII uppercase letters folded to lowercase; other characters unchanged.
pub open spec fn spec_lower_char(c: char) -> char {
    if 'A' <= c && c <= 'Z' {
        (((c as u8) + 32) as char)
    } else {
        c
    }
}

pub open spec fn spec_lower(s: Seq<char>) -> Seq<char> {
    Seq::new(s.len(), |i: int| spec_lower_char(s[i]))
}

pub fn lower_char(c: char) -> (r: char)
    ensures
        r == spec_lower_char(c),
{
    if 'A' <= c && c <= 'Z' {
        let b = c as u8;
        (b + 32) as char
    } else {
        c
    }
}

pub fn lower_chars(s: &Vec<char>) -> (r: Vec<char>)
    ensures
        r@ == spec_lower(s@),
{
    let n = s.len();
    let mut r: Vec<char> = Vec::new();
    let mut i: usize = 0;
    while i < n
        invariant
            0 <= i <= n,
            n == s@.len(),
            r@ == spec_lower(s@).take(i as int),
        decreases n - i,
    {
        r.push(lower_char(s[i]));
        i += 1;
        proof {
            assert(r@ =~= spec_lower(s@).take(i as int));
        }
    }
    proof {
        assert(spec_lower(s@).take(n as int) =~= spec_lower(s@));
    }
    r
}

pub open spec fn spec_digit_char(d: u64) -> char {
    if d == 0 {
        '0'
    } else if d == 1 {
        '1'
    } else if d == 2 {
        '2'
    } else if d == 3 {
        '3'
    } else if d == 4 {
        '4'
    } else if d == 5 {
        '5'
    } else if d == 6 {
        '6'
    } else if d == 7 {
        '7'
    } else if d == 8 {
        '8'
    } else {
        '9'
    }
}

/// The decimal digits of `n`, most significant first.
pub open spec fn spec_u64_str(n: u64) -> Seq<char>
    decreases n,
{
    if n < 10 {
        seq![spec_digit_char(n)]
    } else {
        spec_u64_str(n / 10).push(spec_digit_char(n % 10))
    }
}

fn digit_char(d: u64) -> (r: char)
    requires
        d < 10,
    ensures
        r == spec_digit_char(d),
{
    if d == 0 {
        '0'
    } else if d == 1 {
        '1'
    } else if d == 2 {
        '2'
    } else if d == 3 {
        '3'
    } else if d == 4 {
        '4'
    } else if d == 5 {
        '5'
    } else if d == 6 {
        '6'
    } else if d == 7 {
        '7'
    } else if d == 8 {
        '8'
    } else {
        '9'
    }
}

pub fn u64_to_chars(n: u64) -> (r: Vec<char>)
    ensures
        r@ == spec_u64_str(n),
    decreases n,
{
    if n < 10 {
        let mut r: Vec<char> = Vec::new();
        r.push(digit_char(n));
        proof {
            assert(r@ =~= spec_u64_str(n));
        }
        r
    } else {
        let mut r = u64_to_chars(n / 10);
        r.push(digit_char(n % 10));
        r
    }
}

/// Release components written in decimal, joined with dots, as PEP 440
/// displays a release-only version.
pub open spec fn spec_format_release(rel: Seq<u64>) -> Seq<char> {
    spec_join(rel.map_values(|n: u64| spec_u64_str(n)), '.')
}

pub fn format_release(rel: &Vec<u64>) -> (r: Vec<char>)
    ensures
        r@ == spec_format_release(rel@),
{
    let n = rel.len();
    let mut parts: Vec<Vec<char>> = Vec::new();
    let mut i: usize = 0;
    while i < n
        invariant
            0 <= i <= n,
            n == rel@.len(),
            parts.deep_view() == rel@.take(i as int).map_values(|m: u64| spec_u64_str(m)),
        decreases n - i,
    {
        let d = u64_to_chars(rel[i]);
        proof {
            lemma_chars_deep_view(&d);
        }
        let ghost old_parts = parts.deep_view();
        parts.push(d);
        i += 1;
        proof {
            assert(parts.deep_view() =~= old_parts.push(spec_u64_str(rel@[i - 1])));
            assert(parts.deep_view() =~= rel@.take(i as int).map_values(
                |m: u64| spec_u64_str(m),
            ));
        }
    }
    proof {
        assert(rel@.take(n as int) =~= rel@);
        assert(parts.deep_view() =~= Seq::<Seq<char>>::empty() || true);
    }
    join_chars(&parts, '.')
}

/// Occurrences of `pat` (scanned left to right, without overlap) replaced by
/// `rep`, as `str::replace` does.
pub open spec fn spec_replace_seq(s: Seq<char>, pat: Seq<char>, rep: Seq<char>) -> Seq<char>
    decreases s.len(),
{
    if pat.len() == 0 || s.len() < pat.len() {
        s
    } else if s.take(pat.len() as int) == pat {
        rep + spec_replace_seq(s.skip(pat.len() as int), pat, rep)
    } else {
        seq![s[0]] + spec_replace_seq(s.drop_first(), pat, rep)
    }
}

fn match_at(s: &Vec<char>, i: usize, pat: &Vec<char>) -> (r: bool)
    requires
        i <= s@.len(),
    ensures
        r == (s@.skip(i as int).len() >= pat@.len() && s@.skip(i as int).take(pat@.len() as int)
            == pat@),
{
    if s.len() - i < pat.len() {
        return false;
    }
    let sn = s.len();
    let m = pat.len();
    let mut k: usize = 0;
    while k < m
        invariant
            0 <= k <= m,
            m == pat@.len(),
            sn == s@.len(),
            i + m <= sn,
            forall|t: int| 0 <= t < k ==> s@[i + t] == pat@[t],
        decreases m - k,
    {
        if s[i + k] != pat[k] {
            proof {
                assert(s@.skip(i as int).take(m as int)[k as int] != pat@[k as int]);
            }
            return false;
        }
        k += 1;
    }
    proof {
        assert(s@.skip(i as int).take(m as int) =~= pat@);
    }
    true
}

pub fn replace_seq(s: &Vec<char>, pat: &Vec<char>, rep: &Vec<char>) -> (r: Vec<char>)
    requires
        pat@.len() > 0,
    ensures
        r@ == spec_replace_seq(s@, pat@, rep@),
{
    let n = s.len();
    let m = pat.len();
    let mut r: Vec<char> = Vec::new();
    let mut i: usize = 0;
    proof {
        assert(s@.skip(0) =~= s@);
    }
    while i < n
        invariant
            0 <= i <= n,
            n == s@.len(),
            m == pat@.len(),
            m > 0,
            spec_replace_seq(s@, pat@, rep@) == r@ + spec_replace_seq(s@.skip(i as int), pat@, rep@),
        decreases n - i,
    {
        let ghost old_r = r@;
        let ghost rest = s@.skip(i as int);
        if match_at(s, i, pat) {
            append_chars(&mut r, rep);
            i += m;
            proof {
                assert(rest.skip(m as int) =~= s@.skip(i as int));
                assert(spec_replace_seq(rest, pat@, rep@) == rep@ + spec_replace_seq(
                    s@.skip(i as int),
                    pat@,
                    rep@,
                ));
                assert(old_r + (rep@ + spec_replace_seq(s@.skip(i as int), pat@, rep@)) =~= (old_r
                    + rep@) + spec_replace_seq(s@.skip(i as int), pat@, rep@));
            }
        } else {
            r.push(s[i]);
            i += 1;
            proof {
                assert(rest.drop_first() =~= s@.skip(i as int));
                assert(rest[0] == s@[i - 1]);
                assert(spec_replace_seq(rest, pat@, rep@) == seq![s@[i - 1]] + spec_replace_seq(
                    s@.skip(i as int),
                    pat@,
                    rep@,
                ));
                assert(old_r + (seq![s@[i - 1]] + spec_replace_seq(s@.skip(i as int), pat@, rep@))
                    =~= old_r.push(s@[i - 1]) + spec_replace_seq(s@.skip(i as int), pat@, rep@));
            }
        }
    }
    proof {
        assert(s@.skip(n as int) =~= Seq::<char>::empty());
        assert(r@ + Seq::<char>::empty() =~= r@);
    }
    r
}

/// One trailing carriage return removed, if present.
pub open spec fn spec_strip_cr(s: Seq<char>) -> Seq<char> {
    if s.len() > 0 && s.last() == '\r' {
        s.drop_last()
    } else {
        s
    }
}

/// The lines of a string, as `str::lines` yields them: pieces between newline
/// characters, without a final empty piece, each with one trailing carriage
/// return removed.
pub open spec fn spec_lines(s: Seq<char>) -> Seq<Seq<char>> {
    let pieces = spec_split(s, '\n');
    let kept = if pieces.last().len() == 0 {
        pieces.drop_last()
    } else {
        pieces
    };
    kept.map_values(|p: Seq<char>| spec_strip_cr(p))
}

pub fn split_lines(s: &Vec<char>) -> (r: Vec<Vec<char>>)
    ensures
        r.deep_view() == spec_lines(s@),
{
    let pieces = split_char(s, '\n');
    let ghost pv = pieces.deep_view();
    let n = pieces.len();
    proof {
        assert(pv.len() == n);
        assert(pv.last() == pieces@[n - 1].deep_view());
        lemma_chars_deep_view(&pieces@[n - 1]);
    }
    let keep = if pieces[n - 1].len() == 0 {
        n - 1
    } else {
        n
    };
    let mut r: Vec<Vec<char>> = Vec::new();
    let ghost kept = if pv.last().len() == 0 {
        pv.drop_last()
    } else {
        pv
    };
    proof {
        assert(kept.len() == keep);
        assert(forall|k: int| 0 <= k < keep ==> kept[k] == pv[k]);
    }
    let mut i: usize = 0;
    while i < keep
        invariant
            0 <= i <= keep,
            keep <= n,
            n == pieces@.len(),
            pv == pieces.deep_view(),
            kept.len() == keep,
            forall|k: int| 0 <= k < keep ==> kept[k] == pv[k],
            r.deep_view() == kept.take(i as int).map_values(|p: Seq<char>| spec_strip_cr(p)),
        decreases keep - i,
    {
        let piece = &pieces[i];
        proof {
            lemma_chars_deep_view(piece);
        }
        let m = piece.len();
        let stripped: Vec<char> = if m > 0 && piece[m - 1] == '\r' {
            let mut t: Vec<char> = Vec::new();
            let mut k: usize = 0;
            while k < m - 1
                invariant
                    0 <= k <= m - 1,
                    m == piece@.len(),
                    m > 0,
                    t@ == piece@.take(k as int),
                decreases m - 1 - k,
            {
                t.push(piece[k]);
                k += 1;
                proof {
                    assert(t@ =~= piece@.take(k as int));
                }
            }
            proof {
                assert(piece@.take(m - 1) =~= piece@.drop_last());
            }
            t
        } else {
            let mut t: Vec<char> = Vec::new();
            let mut k: usize = 0;
            while k < m
                invariant
                    0 <= k <= m,
                    m == piece@.len(),
                    t@ == piece@.take(k as int),
                decreases m - k,
            {
                t.push(piece[k]);
                k += 1;
                proof {
                    assert(t@ =~= piece@.take(k as int));
                }
            }
            proof {
                assert(piece@.take(m as int) =~= piece@);
            }
            t
        };
        proof {
            assert(stripped@ == spec_strip_cr(pv[i as int]));
            lemma_chars_deep_view(&stripped);
        }
        let ghost old_r = r.deep_view();
        r.push(stripped);
        i += 1;
        proof {
            assert(r.deep_view() =~= old_r.push(spec_strip_cr(kept[i - 1])));
            assert(r.deep_view() =~= kept.take(i as int).map_values(
                |p: Seq<char>| spec_strip_cr(p),
            ));
        }
    }
    proof {
        assert(kept.take(keep as int) =~= kept);
        assert(r.deep_view() =~= spec_lines(s@));
    }
    r
}

} // verus!
