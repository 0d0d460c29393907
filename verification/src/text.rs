//! Character-level text handling shared by the parsers and formatters.

use vstd::prelude::*;

verus! {

/// Concatenation of two string slices into a new `String`.
/// Calls `<[&str]>::concat`; claims that the result's characters are those of
/// `a` followed by those of `b`.
#[verifier::external_body]
pub(crate) fn concat_str(a: &str, b: &str) -> (r: String)
    ensures
        r@ == a@ + b@,
{
    [a, b].concat()
}

/// A `String` holding exactly the characters of `v`.
/// Collects the characters with `FromIterator<&char> for String`; claims the
/// result's characters are `v`'s, in order.
#[verifier::external_body]
pub(crate) fn string_from_chars(v: &Vec<char>) -> (r: String)
    ensures
        r@ == v@,
{
    v.iter().collect()
}

/// The characters of `s`, in order.
pub fn chars_of(s: &str) -> (v: Vec<char>)
    ensures
        v@ == s@,
{
    let mut v: Vec<char> = Vec::new();
    for c in it: s.chars()
        invariant
            v@ == it.seq().subrange(0, it.index() as int),
            it.seq() == s@,
    {
        v.push(c);
    }
    v
}

/// ASCII lowercase of one character; other characters are unchanged.
pub open spec fn ascii_lower(c: char) -> char {
    if 'A' <= c && c <= 'Z' {
        ((c as int) + 32) as char
    } else {
        c
    }
}

/// ASCII uppercase of one character; other characters are unchanged.
pub open spec fn ascii_upper(c: char) -> char {
    if 'a' <= c && c <= 'z' {
        ((c as int) - 32) as char
    } else {
        c
    }
}

/// Two texts are equal up to ASCII case: their ASCII-lowercased forms are equal.
pub open spec fn eq_ignore_ascii_case(a: Seq<char>, b: Seq<char>) -> bool {
    &&& a.len() == b.len()
    &&& forall|i: int| 0 <= i < a.len() ==> ascii_lower(#[trigger] a[i]) == ascii_lower(b[i])
}

pub fn ascii_lower_exec(c: char) -> (r: char)
    ensures
        r == ascii_lower(c),
{
    if 'A' <= c && c <= 'Z' {
        ((c as u32) + 32) as u8 as char
    } else {
        c
    }
}

/// Compares two character sequences up to ASCII case.
pub fn chars_eq_ignore_ascii_case(a: &Vec<char>, b: &Vec<char>) -> (r: bool)
    ensures
        r == eq_ignore_ascii_case(a@, b@),
{
    if a.len() != b.len() {
        return false;
    }
    let n = a.len();
    for i in 0..n
        invariant
            n == a@.len(),
            n == b@.len(),
            forall|j: int| 0 <= j < i ==> ascii_lower(#[trigger] a@[j]) == ascii_lower(b@[j]),
    {
        if ascii_lower_exec(a[i]) != ascii_lower_exec(b[i]) {
            return false;
        }
    }
    true
}

/// Compares two strings up to ASCII case.
pub fn str_eq_ignore_ascii_case(a: &str, b: &str) -> (r: bool)
    ensures
        r == eq_ignore_ascii_case(a@, b@),
{
    let ca = chars_of(a);
    let cb = chars_of(b);
    chars_eq_ignore_ascii_case(&ca, &cb)
}

/// Unicode `White_Space`, the set `char::is_whitespace` recognises.
pub open spec fn is_ws(c: char) -> bool {
    let u = c as u32;
    ||| (0x09 <= u && u <= 0x0d)
    ||| u == 0x20
    ||| u == 0x85
    ||| u == 0xa0
    ||| u == 0x1680
    ||| (0x2000 <= u && u <= 0x200a)
    ||| u == 0x2028
    ||| u == 0x2029
    ||| u == 0x202f
    ||| u == 0x205f
    ||| u == 0x3000
}

pub fn is_ws_exec(c: char) -> (r: bool)
    ensures
        r == is_ws(c),
{
    let u = c as u32;
    (0x09 <= u && u <= 0x0d) || u == 0x20 || u == 0x85 || u == 0xa0 || u == 0x1680 || (0x2000 <= u
        && u <= 0x200a) || u == 0x2028 || u == 0x2029 || u == 0x202f || u == 0x205f || u == 0x3000
}

/// `s` without its leading whitespace.
pub open spec fn trim_start(s: Seq<char>) -> Seq<char>
    decreases s.len(),
{
    if s.len() > 0 && is_ws(s[0]) {
        trim_start(s.drop_first())
    } else {
        s
    }
}

/// `s` without its trailing whitespace.
pub open spec fn trim_end(s: Seq<char>) -> Seq<char>
    decreases s.len(),
{
    if s.len() > 0 && is_ws(s.last()) {
        trim_end(s.drop_last())
    } else {
        s
    }
}

/// `s` without leading and trailing whitespace (`str::trim`).
pub open spec fn trim(s: Seq<char>) -> Seq<char> {
    trim_end(trim_start(s))
}

/// `p` is a prefix of `s`.
pub open spec fn starts_with(s: Seq<char>, p: Seq<char>) -> bool {
    p.len() <= s.len() && s.subrange(0, p.len() as int) == p
}

/// `p` occurs in `s` at position `i`.
pub open spec fn occurs_at(s: Seq<char>, p: Seq<char>, i: int) -> bool {
    0 <= i && i + p.len() <= s.len() && s.subrange(i, i + p.len()) == p
}

/// `p` occurs somewhere in `s`.
pub open spec fn contains(s: Seq<char>, p: Seq<char>) -> bool {
    exists|i: int| occurs_at(s, p, i)
}

proof fn lemma_trim_start_step(s: Seq<char>, i: int)
    requires
        0 <= i < s.len(),
        is_ws(s[i]),
    ensures
        trim_start(s.subrange(i, s.len() as int)) == trim_start(s.subrange(i + 1, s.len() as int)),
{
    let t = s.subrange(i, s.len() as int);
    assert(t.drop_first() =~= s.subrange(i + 1, s.len() as int));
}

proof fn lemma_trim_end_step(s: Seq<char>, j: int)
    requires
        0 < j <= s.len(),
        is_ws(s[j - 1]),
    ensures
        trim_end(s.subrange(0, j)) == trim_end(s.subrange(0, j - 1)),
{
    let t = s.subrange(0, j);
    assert(t.drop_last() =~= s.subrange(0, j - 1));
}

/// The characters of `s` at positions `from..to`.
pub fn sub_chars(s: &Vec<char>, from: usize, to: usize) -> (r: Vec<char>)
    requires
        from <= to <= s@.len(),
    ensures
        r@ == s@.subrange(from as int, to as int),
{
    let mut r: Vec<char> = Vec::new();
    let mut i = from;
    while i < to
        invariant
            from <= i <= to <= s@.len(),
            r@ == s@.subrange(from as int, i as int),
        decreases to - i,
    {
        r.push(s[i]);
        i = i + 1;
        assert(r@ =~= s@.subrange(from as int, i as int));
    }
    r
}

/// `s` with leading and trailing whitespace removed.
pub fn trim_chars(s: &Vec<char>) -> (r: Vec<char>)
    ensures
        r@ == trim(s@),
{
    let n = s.len();
    let mut i: usize = 0;
    assert(s@.subrange(0, n as int) =~= s@);
    while i < n && is_ws_exec(s[i])
        invariant
            n == s@.len(),
            i <= n,
            trim_start(s@) == trim_start(s@.subrange(i as int, n as int)),
        decreases n - i,
    {
        proof {
            lemma_trim_start_step(s@, i as int);
        }
        i = i + 1;
    }
    let ghost mid = s@.subrange(i as int, n as int);
    assert(trim_start(mid) == mid);
    let mut j: usize = n;
    assert(mid.subrange(0, (j - i) as int) =~= mid);
    while j > i && is_ws_exec(s[j - 1])
        invariant
            n == s@.len(),
            i <= j <= n,
            mid == s@.subrange(i as int, n as int),
            trim_end(mid) == trim_end(mid.subrange(0, (j - i) as int)),
        decreases j,
    {
        proof {
            lemma_trim_end_step(mid, (j - i) as int);
            assert(mid.subrange(0, (j - i - 1) as int) =~= mid.subrange(0, (j - 1 - i) as int));
        }
        j = j - 1;
    }
    let r = sub_chars(s, i, j);
    assert(r@ =~= mid.subrange(0, (j - i) as int));
    r
}

/// Whether `p` is a prefix of `s`.
pub fn chars_start_with(s: &Vec<char>, p: &Vec<char>) -> (r: bool)
    ensures
        r == starts_with(s@, p@),
{
    if p.len() > s.len() {
        return false;
    }
    let n = p.len();
    for i in 0..n
        invariant
            n == p@.len(),
            n <= s@.len(),
            forall|j: int| 0 <= j < i ==> s@[j] == p@[j],
    {
        if s[i] != p[i] {
            assert(s@.subrange(0, n as int)[i as int] != p@[i as int]);
            return false;
        }
    }
    assert(s@.subrange(0, n as int) =~= p@);
    true
}

/// Whether `p` occurs in `s` at position `at`.
pub fn chars_occur_at(s: &Vec<char>, p: &Vec<char>, at: usize) -> (r: bool)
    ensures
        r == occurs_at(s@, p@, at as int),
{
    let sl = s.len();
    if at > sl || p.len() > sl - at {
        return false;
    }
    let n = p.len();
    for i in 0..n
        invariant
            n == p@.len(),
            sl == s@.len(),
            at + n <= sl,
            forall|j: int| 0 <= j < i ==> s@[at + j] == p@[j],
    {
        if s[at + i] != p[i] {
            assert(s@.subrange(at as int, at + n)[i as int] != p@[i as int]);
            return false;
        }
    }
    assert(s@.subrange(at as int, at + n) =~= p@);
    true
}

/// Whether `p` occurs anywhere in `s`.
pub fn chars_contain(s: &Vec<char>, p: &Vec<char>) -> (r: bool)
    ensures
        r == contains(s@, p@),
{
    if p.len() > s.len() {
        assert(forall|i: int| !occurs_at(s@, p@, i));
        return false;
    }
    let last = s.len() - p.len();
    let mut i: usize = 0;
    while i < last
        invariant
            last == s@.len() - p@.len(),
            i <= last,
            forall|j: int| 0 <= j < i ==> !occurs_at(s@, p@, j),
        decreases last - i,
    {
        if chars_occur_at(s, p, i) {
            return true;
        }
        i = i + 1;
    }
    if chars_occur_at(s, p, last) {
        return true;
    }
    assert(forall|j: int| !occurs_at(s@, p@, j)) by {
        assert forall|j: int| !occurs_at(s@, p@, j) by {
            if 0 <= j && j < i {
            }
        }
    }
    false
}

/// `s` without one trailing carriage return.
pub open spec fn strip_cr(s: Seq<char>) -> Seq<char> {
    if s.len() > 0 && s.last() == '\r' {
        s.drop_last()
    } else {
        s
    }
}

/// Scanning `s` for lines: the lines finished so far and the unfinished one.
pub open spec fn lines_scan(s: Seq<char>) -> (Seq<Seq<char>>, Seq<char>)
    decreases s.len(),
{
    if s.len() == 0 {
        (Seq::empty(), Seq::empty())
    } else {
        let (done, cur) = lines_scan(s.drop_last());
        if s.last() == '\n' {
            (done.push(strip_cr(cur)), Seq::empty())
        } else {
            (done, cur.push(s.last()))
        }
    }
}

/// The lines of `s` (`str::lines`): split at each line feed, a carriage
/// return right before the line feed dropped; a final line feed ends the
/// last line rather than starting an empty one.
pub open spec fn lines(s: Seq<char>) -> Seq<Seq<char>> {
    let (done, cur) = lines_scan(s);
    if cur.len() > 0 {
        done.push(cur)
    } else {
        done
    }
}

/// Scanning `s` for whitespace-separated words.
pub open spec fn words_scan(s: Seq<char>) -> (Seq<Seq<char>>, Seq<char>)
    decreases s.len(),
{
    if s.len() == 0 {
        (Seq::empty(), Seq::empty())
    } else {
        let (done, cur) = words_scan(s.drop_last());
        if is_ws(s.last()) {
            if cur.len() > 0 {
                (done.push(cur), Seq::empty())
            } else {
                (done, cur)
            }
        } else {
            (done, cur.push(s.last()))
        }
    }
}

/// The maximal runs of non-whitespace characters of `s`
/// (`str::split_whitespace`).
pub open spec fn words(s: Seq<char>) -> Seq<Seq<char>> {
    let (done, cur) = words_scan(s);
    if cur.len() > 0 {
        done.push(cur)
    } else {
        done
    }
}

/// Scanning `s` for the pieces between occurrences of `sep`.
pub open spec fn split_scan(s: Seq<char>, sep: char) -> (Seq<Seq<char>>, Seq<char>)
    decreases s.len(),
{
    if s.len() == 0 {
        (Seq::empty(), Seq::empty())
    } else {
        let (done, cur) = split_scan(s.drop_last(), sep);
        if s.last() == sep {
            (done.push(cur), Seq::empty())
        } else {
            (done, cur.push(s.last()))
        }
    }
}

/// The pieces of `s` between occurrences of `sep` (`str::split` by a char),
/// always ending with the piece after the last separator.
pub open spec fn split_pieces(s: Seq<char>, sep: char) -> Seq<Seq<char>> {
    let (done, cur) = split_scan(s, sep);
    done.push(cur)
}

/// The piece after the first `sep` and before the next one, or the empty text
/// when `sep` does not occur (`s.split(sep).nth(1).unwrap_or("")`).
pub open spec fn second_piece(s: Seq<char>, sep: char) -> Seq<char> {
    let p = split_pieces(s, sep);
    if p.len() > 1 {
        p[1]
    } else {
        Seq::empty()
    }
}

/// The views of a vector of character vectors.
pub open spec fn views(v: Seq<Vec<char>>) -> Seq<Seq<char>> {
    v.map_values(|l: Vec<char>| l@)
}

/// Splits `s` into lines, as `lines` describes.
pub fn lines_of(s: &Vec<char>) -> (r: Vec<Vec<char>>)
    ensures
        views(r@) == lines(s@),
{
    let mut done: Vec<Vec<char>> = Vec::new();
    let mut cur: Vec<char> = Vec::new();
    let n = s.len();
    assert(views(done@) =~= Seq::<Seq<char>>::empty());
    for i in 0..n
        invariant
            n == s@.len(),
            (views(done@), cur@) == lines_scan(s@.subrange(0, i as int)),
    {
        let c = s[i];
        assert(s@.subrange(0, i + 1).drop_last() =~= s@.subrange(0, i as int));
        if c == '\n' {
            let ghost prev = views(done@);
            let line = if cur.len() > 0 && cur[cur.len() - 1] == '\r' {
                let k = cur.len() - 1;
                let l = sub_chars(&cur, 0, k);
                assert(l@ =~= cur@.drop_last());
                l
            } else {
                cur
            };
            done.push(line);
            cur = Vec::new();
            assert(views(done@) =~= prev.push(line@));
        } else {
            cur.push(c);
        }
    }
    assert(s@.subrange(0, n as int) =~= s@);
    if cur.len() > 0 {
        let ghost prev = views(done@);
        let ghost last = cur@;
        done.push(cur);
        assert(views(done@) =~= prev.push(last));
    }
    done
}

/// Splits `s` into whitespace-separated words, as `words` describes.
pub fn words_of(s: &Vec<char>) -> (r: Vec<Vec<char>>)
    ensures
        views(r@) == words(s@),
{
    let mut done: Vec<Vec<char>> = Vec::new();
    let mut cur: Vec<char> = Vec::new();
    let n = s.len();
    assert(views(done@) =~= Seq::<Seq<char>>::empty());
    for i in 0..n
        invariant
            n == s@.len(),
            (views(done@), cur@) == words_scan(s@.subrange(0, i as int)),
    {
        let c = s[i];
        assert(s@.subrange(0, i + 1).drop_last() =~= s@.subrange(0, i as int));
        if is_ws_exec(c) {
            if cur.len() > 0 {
                let ghost prev = views(done@);
                let ghost last = cur@;
                done.push(cur);
                cur = Vec::new();
                assert(views(done@) =~= prev.push(last));
            }
        } else {
            cur.push(c);
        }
    }
    assert(s@.subrange(0, n as int) =~= s@);
    if cur.len() > 0 {
        let ghost prev = views(done@);
        let ghost last = cur@;
        done.push(cur);
        assert(views(done@) =~= prev.push(last));
    }
    done
}

/// Splits `s` at each `sep`, as `split_pieces` describes.
pub fn split_at_char(s: &Vec<char>, sep: char) -> (r: Vec<Vec<char>>)
    ensures
        views(r@) == split_pieces(s@, sep),
{
    let mut done: Vec<Vec<char>> = Vec::new();
    let mut cur: Vec<char> = Vec::new();
    let n = s.len();
    assert(views(done@) =~= Seq::<Seq<char>>::empty());
    for i in 0..n
        invariant
            n == s@.len(),
            (views(done@), cur@) == split_scan(s@.subrange(0, i as int), sep),
    {
        let c = s[i];
        assert(s@.subrange(0, i + 1).drop_last() =~= s@.subrange(0, i as int));
        if c == sep {
            let ghost prev = views(done@);
            let ghost last = cur@;
            done.push(cur);
            cur = Vec::new();
            assert(views(done@) =~= prev.push(last));
        } else {
            cur.push(c);
        }
    }
    assert(s@.subrange(0, n as int) =~= s@);
    let ghost prev = views(done@);
    let ghost last = cur@;
    done.push(cur);
    assert(views(done@) =~= prev.push(last));
    done
}

/// The piece of `s` after the first `sep`, as `second_piece` describes.
pub fn second_piece_of(s: &Vec<char>, sep: char) -> (r: Vec<char>)
    ensures
        r@ == second_piece(s@, sep),
{
    let pieces = split_at_char(s, sep);
    if pieces.len() > 1 {
        assert(views(pieces@)[1] == pieces@[1]@);
        sub_chars(&pieces[1], 0, pieces[1].len())
    } else {
        Vec::new()
    }
}

/// `c` is an ASCII decimal digit.
pub open spec fn is_digit(c: char) -> bool {
    '0' <= c && c <= '9'
}

/// The number written by a string of decimal digits.
pub open spec fn digits_value(s: Seq<char>) -> nat
    decreases s.len(),
{
    if s.len() == 0 {
        0
    } else {
        digits_value(s.drop_last()) * 10 + ((s.last() as int) - ('0' as int)) as nat
    }
}

/// `s` is a non-empty string of decimal digits.
pub open spec fn all_digits(s: Seq<char>) -> bool {
    s.len() > 0 && forall|i: int| 0 <= i < s.len() ==> is_digit(#[trigger] s[i])
}

/// `s` without one leading `+`.
pub open spec fn unsigned_body(s: Seq<char>) -> Seq<char> {
    if s.len() > 0 && s[0] == '+' {
        s.drop_first()
    } else {
        s
    }
}

/// `str::parse::<u64>`: an optional `+` then decimal digits whose value fits
/// in a `u64`; `None` on anything else.
pub open spec fn parse_u64(s: Seq<char>) -> Option<u64> {
    let body = unsigned_body(s);
    if all_digits(body) && digits_value(body) <= u64::MAX {
        Some(digits_value(body) as u64)
    } else {
        None
    }
}

proof fn lemma_digits_value_grows(s: Seq<char>, i: int)
    requires
        0 <= i <= s.len(),
        forall|k: int| 0 <= k < s.len() ==> is_digit(#[trigger] s[k]),
    ensures
        digits_value(s.subrange(0, i)) <= digits_value(s),
    decreases s.len() - i,
{
    if i < s.len() {
        lemma_digits_value_grows(s, i + 1);
        let p = s.subrange(0, i + 1);
        assert(p.drop_last() =~= s.subrange(0, i));
    } else {
        assert(s.subrange(0, i) =~= s);
    }
}

/// Parses `s` as `parse_u64` describes.
pub fn parse_u64_chars(s: &Vec<char>) -> (r: Option<u64>)
    ensures
        r == parse_u64(s@),
{
    let n = s.len();
    let start: usize = if n > 0 && s[0] == '+' {
        1
    } else {
        0
    };
    let ghost body = s@.subrange(start as int, n as int);
    assert(body =~= unsigned_body(s@));
    if start == n {
        return None;
    }
    let mut acc: u64 = 0;
    let mut i = start;
    while i < n
        invariant
            n == s@.len(),
            start < n,
            start <= i <= n,
            body == s@.subrange(start as int, n as int),
            body == unsigned_body(s@),
            acc == digits_value(s@.subrange(start as int, i as int)),
            forall|k: int| start <= k < i ==> is_digit(#[trigger] s@[k]),
        decreases n - i,
    {
        let c = s[i];
        let ghost pre = s@.subrange(start as int, i + 1);
        assert(pre.drop_last() =~= s@.subrange(start as int, i as int));
        if c < '0' || c > '9' {
            assert(body[i - start] == c);
            assert(!is_digit(body[i - start]));
            return None;
        }
        let d = (c as u32 - '0' as u32) as u64;
        assert(pre.last() == c);
        assert(digits_value(pre) == acc * 10 + d);
        if acc > (u64::MAX - d) / 10 {
            proof {
                assert(acc * 10 + d > u64::MAX) by (nonlinear_arith)
                    requires
                        acc > (u64::MAX - d) / 10,
                        d <= 9,
                ;
                if all_digits(body) {
                    lemma_digits_value_grows(body, i + 1 - start);
                    assert(body.subrange(0, i + 1 - start) =~= pre);
                }
            }
            return None;
        }
        acc = acc * 10 + d;
        i = i + 1;
    }
    assert(s@.subrange(start as int, n as int) =~= body);
    Some(acc)
}

/// Appends the characters of `b` to `a`.
pub fn push_chars(a: &mut Vec<char>, b: &Vec<char>)
    ensures
        final(a)@ == old(a)@ + b@,
{
    let n = b.len();
    for i in 0..n
        invariant
            n == b@.len(),
            a@ == old(a)@ + b@.subrange(0, i as int),
    {
        a.push(b[i]);
        assert(a@ =~= old(a)@ + b@.subrange(0, i + 1));
    }
    assert(b@.subrange(0, n as int) =~= b@);
}

/// The characters of `a` followed by those of `b`.
pub fn join_chars(a: &Vec<char>, b: &Vec<char>) -> (r: Vec<char>)
    ensures
        r@ == a@ + b@,
{
    let mut r = sub_chars(a, 0, a.len());
    assert(r@ =~= a@);
    push_chars(&mut r, b);
    r
}

/// The decimal digit for a value below 10.
pub open spec fn digit_char(d: int) -> char {
    ((('0' as int) + d) as char)
}

/// The decimal text of `n`, without leading zeros.
pub open spec fn decimal(n: nat) -> Seq<char>
    decreases n,
{
    if n < 10 {
        seq![digit_char(n as int)]
    } else {
        decimal(n / 10) + seq![digit_char((n % 10) as int)]
    }
}

/// The decimal text of `n`.
pub fn decimal_chars(n: u64) -> (r: Vec<char>)
    ensures
        r@ == decimal(n as nat),
    decreases n,
{
    let d = (n % 10) as u8;
    let c = ('0' as u8 + d) as char;
    if n < 10 {
        let mut r: Vec<char> = Vec::new();
        r.push(c);
        assert(r@ =~= seq![digit_char(n as int)]);
        r
    } else {
        let mut r = decimal_chars(n / 10);
        r.push(c);
        assert(r@ =~= decimal((n / 10) as nat) + seq![digit_char((n % 10) as int)]);
        r
    }
}

/// `s` with every non-overlapping occurrence of `p`, found from the left,
/// replaced by `r` (`str::replace`).
pub open spec fn replace_all(s: Seq<char>, p: Seq<char>, r: Seq<char>) -> Seq<char>
    recommends
        p.len() > 0,
    decreases s.len(),
{
    if s.len() == 0 || p.len() == 0 {
        s
    } else if starts_with(s, p) {
        r + replace_all(s.subrange(p.len() as int, s.len() as int), p, r)
    } else {
        seq![s[0]] + replace_all(s.drop_first(), p, r)
    }
}

/// Replaces every occurrence of the non-empty `p` in `s` by `r`, as
/// `replace_all` describes.
pub fn replace_all_chars(s: &Vec<char>, p: &Vec<char>, r: &Vec<char>) -> (out: Vec<char>)
    requires
        p@.len() > 0,
    ensures
        out@ == replace_all(s@, p@, r@),
{
    let n = s.len();
    let mut out: Vec<char> = Vec::new();
    let mut i: usize = 0;
    assert(s@.subrange(0, n as int) =~= s@);
    while i < n
        invariant
            n == s@.len(),
            p@.len() > 0,
            i <= n,
            out@ + replace_all(s@.subrange(i as int, n as int), p@, r@) == replace_all(s@, p@, r@),
        decreases n - i,
    {
        let ghost rest = s@.subrange(i as int, n as int);
        if chars_occur_at(s, p, i) {
            assert(starts_with(rest, p@)) by {
                assert(rest.subrange(0, p@.len() as int) =~= s@.subrange(i as int, i + p@.len()));
            }
            assert(rest.subrange(p@.len() as int, rest.len() as int) =~= s@.subrange(
                i + p@.len(),
                n as int,
            ));
            let ghost before = out@;
            push_chars(&mut out, r);
            assert(before + (r@ + replace_all(s@.subrange(i + p@.len(), n as int), p@, r@)) =~= out@
                + replace_all(s@.subrange(i + p@.len(), n as int), p@, r@));
            i = i + p.len();
        } else {
            assert(!starts_with(rest, p@)) by {
                if starts_with(rest, p@) {
                    assert(rest.subrange(0, p@.len() as int) =~= s@.subrange(i as int, i + p@.len()));
                }
            }
            assert(rest.drop_first() =~= s@.subrange(i + 1, n as int));
            let ghost before = out@;
            out.push(s[i]);
            assert(before + (seq![rest[0]] + replace_all(rest.drop_first(), p@, r@)) =~= out@
                + replace_all(s@.subrange(i + 1, n as int), p@, r@));
            i = i + 1;
        }
    }
    assert(s@.subrange(n as int, n as int) =~= Seq::<char>::empty());
    assert(out@ + Seq::<char>::empty() =~= out@);
    out
}

/// Whether two character sequences are equal.
pub fn chars_eq(a: &Vec<char>, b: &Vec<char>) -> (r: bool)
    ensures
        r == (a@ == b@),
{
    let r = a.len() == b.len() && chars_start_with(a, b);
    assert(r == (a@ == b@)) by {
        if r {
            assert(a@ =~= a@.subrange(0, b@.len() as int));
        }
        if a@ == b@ {
            assert(a@.subrange(0, b@.len() as int) =~= a@);
        }
    }
    r
}

/// The characters `String::from_utf8_lossy` decodes from `bytes`.
pub uninterp spec fn utf8_lossy(bytes: Seq<u8>) -> Seq<char>;

/// The characters `String::from_utf16_lossy` decodes from `units`.
pub uninterp spec fn utf16_lossy(units: Seq<u16>) -> Seq<char>;

/// The characters of `str::to_uppercase` applied to `s`.
pub uninterp spec fn unicode_upper(s: Seq<char>) -> Seq<char>;

/// `String::from_utf8_lossy`, made owned. Claims the result is the named
/// lossy decoding of `bytes`, and that valid UTF-8 decodes to exactly the
/// characters it encodes. How invalid sequences are replaced is left unsaid.
#[verifier::external_body]
pub(crate) fn string_from_utf8_lossy(bytes: &[u8]) -> (r: String)
    ensures
        r@ == utf8_lossy(bytes@),
        vstd::utf8::valid_utf8(bytes@) ==> r@ == vstd::utf8::decode_utf8(bytes@),
{
    String::from_utf8_lossy(bytes).into_owned()
}

/// `String::from_utf16_lossy`. Claims the result is the named lossy decoding
/// of `units`, and that units outside the surrogate range each decode to the
/// character with that code. How surrogates are paired or replaced is left
/// unsaid.
#[verifier::external_body]
pub(crate) fn string_from_utf16_lossy(units: &[u16]) -> (r: String)
    ensures
        r@ == utf16_lossy(units@),
        (forall|i: int| 0 <= i < units@.len() ==> !(0xD800 <= #[trigger] units@[i] && units@[i] <= 0xDFFF))
            ==> r@ == units@.map_values(|u: u16| u as char),
{
    String::from_utf16_lossy(units)
}

/// `str::to_uppercase`. Claims the result is the named Unicode uppercase of
/// `s`, and that text made of ASCII characters is uppercased character by
/// character in the ASCII way. Other mappings are left unsaid.
#[verifier::external_body]
pub(crate) fn to_uppercase(s: &str) -> (r: String)
    ensures
        r@ == unicode_upper(s@),
        (forall|i: int| 0 <= i < s@.len() ==> (#[trigger] s@[i] as u32) < 128) ==> r@ == s@.map_values(
            |c: char| ascii_upper(c),
        ),
{
    s.to_uppercase()
}

} // verus!
