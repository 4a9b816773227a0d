//! Text as a sequence of characters: white space, words, lines, searching and numbers.

use vstd::prelude::*;
use vstd::string::*;
use vstd::utf8::*;

verus! {

/// `String::push` of the standard library appends one character at the end.
pub assume_specification[ String::push ](s: &mut String, ch: char)
    ensures
        final(s)@ == old(s)@.push(ch),
;

/// What `str::to_lowercase` makes of a text.
pub uninterp spec fn lowercase(s: Seq<char>) -> Seq<char>;

/// What `String::from_utf8_lossy` makes of some bytes.
pub uninterp spec fn lossy(bytes: Seq<u8>) -> Seq<char>;

/// The lower case of an ASCII letter; any other character unchanged.
pub open spec fn ascii_lower(c: char) -> char {
    if 'A' <= c <= 'Z' {
        ((c as int) + 32) as char
    } else {
        c
    }
}

/// The lower case of an ASCII text is its letter-by-letter mapping.
pub open spec fn plain_case(s: Seq<char>) -> bool {
    is_ascii_chars(s) ==> lowercase(s) == s.map_values(|c: char| ascii_lower(c))
}

/// Calls `str::to_lowercase`. The result is named by [`lowercase`]; on ASCII text it is the
/// letter-by-letter mapping of `A`-`Z` to `a`-`z`.
#[verifier::external_body]
pub(crate) fn to_lowercase(s: &str) -> (r: String)
    ensures
        r@ == lowercase(s@),
        is_ascii_chars(s@) ==> r@ == s@.map_values(|c: char| ascii_lower(c)),
{
    s.to_lowercase()
}

/// Calls `String::from_utf8_lossy`. The result is named by [`lossy`]; bytes that are valid UTF-8
/// come out as the text that they encode.
#[verifier::external_body]
pub(crate) fn lossy_text(bytes: &[u8]) -> (r: String)
    ensures
        r@ == lossy(bytes@),
        valid_utf8(bytes@) ==> r@ == decode_utf8(bytes@),
{
    String::from_utf8_lossy(bytes).into_owned()
}

/// The texts that some strings hold.
pub open spec fn texts(v: Seq<String>) -> Seq<Seq<char>> {
    v.map_values(|s: String| s@)
}

/// The text that an optional string holds.
pub open spec fn opt_text(o: Option<String>) -> Option<Seq<char>> {
    match o {
        Some(s) => Some(s@),
        None => None,
    }
}

/// The text that a string or an error message holds.
pub open spec fn result_text(r: Result<String, String>) -> Result<Seq<char>, Seq<char>> {
    match r {
        Ok(s) => Ok(s@),
        Err(e) => Err(e@),
    }
}

/// The characters that Unicode calls white space.
pub open spec fn is_white(c: char) -> bool {
    ||| '\u{9}' <= c <= '\u{d}'
    ||| c == ' '
    ||| c == '\u{85}'
    ||| c == '\u{a0}'
    ||| c == '\u{1680}'
    ||| '\u{2000}' <= c <= '\u{200a}'
    ||| c == '\u{2028}'
    ||| c == '\u{2029}'
    ||| c == '\u{202f}'
    ||| c == '\u{205f}'
    ||| c == '\u{3000}'
}

/// `s` without its leading white space.
pub open spec fn trim_start(s: Seq<char>) -> Seq<char>
    decreases s.len(),
{
    if s.len() > 0 && is_white(s[0]) {
        trim_start(s.drop_first())
    } else {
        s
    }
}

/// `s` without its trailing white space.
pub open spec fn trim_end(s: Seq<char>) -> Seq<char>
    decreases s.len(),
{
    if s.len() > 0 && is_white(s.last()) {
        trim_end(s.drop_last())
    } else {
        s
    }
}

/// `s` without the white space at both ends.
pub open spec fn trimmed(s: Seq<char>) -> Seq<char> {
    trim_end(trim_start(s))
}

/// `s` without the leading characters equal to `c`.
pub open spec fn strip_leading(s: Seq<char>, c: char) -> Seq<char>
    decreases s.len(),
{
    if s.len() > 0 && s[0] == c {
        strip_leading(s.drop_first(), c)
    } else {
        s
    }
}

/// `s` without the trailing characters equal to `c`.
pub open spec fn strip_trailing(s: Seq<char>, c: char) -> Seq<char>
    decreases s.len(),
{
    if s.len() > 0 && s.last() == c {
        strip_trailing(s.drop_last(), c)
    } else {
        s
    }
}

/// The maximal runs of characters that are not white space, in order.
pub open spec fn words(s: Seq<char>) -> Seq<Seq<char>>
    decreases s.len(),
{
    if s.len() == 0 {
        Seq::empty()
    } else {
        let before = s.drop_last();
        let c = s.last();
        if is_white(c) {
            words(before)
        } else if before.len() > 0 && !is_white(before.last()) {
            words(before).drop_last().push(words(before).last().push(c))
        } else {
            words(before).push(seq![c])
        }
    }
}

/// What follows the last `c` in `s`: all of `s` where it has none.
pub open spec fn after_last(s: Seq<char>, c: char) -> Seq<char>
    decreases s.len(),
{
    if s.len() == 0 || s.last() == c {
        Seq::empty()
    } else {
        after_last(s.drop_last(), c).push(s.last())
    }
}

/// `s` without one carriage return at its end.
pub open spec fn without_cr(s: Seq<char>) -> Seq<char> {
    if s.len() > 0 && s.last() == '\r' {
        s.drop_last()
    } else {
        s
    }
}

/// The lines of `s` that a line feed ends.
pub open spec fn ended_lines(s: Seq<char>) -> Seq<Seq<char>>
    decreases s.len(),
{
    if s.len() == 0 {
        Seq::empty()
    } else if s.last() == '\n' {
        ended_lines(s.drop_last()).push(without_cr(after_last(s.drop_last(), '\n')))
    } else {
        ended_lines(s.drop_last())
    }
}

/// The lines of `s`: those that a line feed ends, and the rest if there is any.
pub open spec fn lines(s: Seq<char>) -> Seq<Seq<char>> {
    if after_last(s, '\n').len() == 0 {
        ended_lines(s)
    } else {
        ended_lines(s).push(after_last(s, '\n'))
    }
}

/// `p` stands in `s` at position `i`.
pub open spec fn occurs_at(s: Seq<char>, p: Seq<char>, i: int) -> bool {
    0 <= i && i + p.len() <= s.len() && s.subrange(i, i + p.len()) == p
}

/// `p` stands somewhere in `s`.
pub open spec fn occurs(s: Seq<char>, p: Seq<char>) -> bool {
    exists|i: int| occurs_at(s, p, i)
}

/// Where `p` stands in `s` for the first time.
pub open spec fn first_at(s: Seq<char>, p: Seq<char>) -> Option<int>
    decreases s.len(),
{
    if occurs_at(s, p, 0) {
        Some(0)
    } else if s.len() == 0 {
        None
    } else {
        match first_at(s.drop_first(), p) {
            Some(i) => Some(i + 1),
            None => None,
        }
    }
}

/// The piece of `s` between the first and the second `p`, or after the first where it is alone.
pub open spec fn second_piece(s: Seq<char>, p: Seq<char>) -> Option<Seq<char>> {
    match first_at(s, p) {
        None => None,
        Some(i) => {
            let rest = s.skip(i + p.len());
            match first_at(rest, p) {
                None => Some(rest),
                Some(j) => Some(rest.take(j)),
            }
        },
    }
}

/// The character of a decimal digit.
pub open spec fn digit(d: int) -> char {
    (48 + d) as char
}

/// `n` in decimal.
pub open spec fn decimal(n: nat) -> Seq<char>
    decreases n,
{
    if n < 10 {
        seq![digit(n as int)]
    } else {
        decimal(n / 10).push(digit((n % 10) as int))
    }
}

/// `n` in decimal, with a minus sign where it is negative.
pub open spec fn signed_decimal(n: int) -> Seq<char> {
    if n < 0 {
        seq!['-'] + decimal((-n) as nat)
    } else {
        decimal(n as nat)
    }
}

/// `c` is a decimal digit.
pub open spec fn is_digit(c: char) -> bool {
    '0' <= c <= '9'
}

/// The number that a run of decimal digits writes.
pub open spec fn digits_value(s: Seq<char>) -> nat
    decreases s.len(),
{
    if s.len() == 0 {
        0
    } else {
        (10 * digits_value(s.drop_last()) + (s.last() as int - 48)) as nat
    }
}

/// `s` without one plus sign in front.
pub open spec fn without_plus(s: Seq<char>) -> Seq<char> {
    if s.len() > 0 && s[0] == '+' {
        s.drop_first()
    } else {
        s
    }
}

/// The 64-bit number that `s` writes: decimal digits, at least one, after an optional plus sign.
pub open spec fn parsed_u64(s: Seq<char>) -> Option<u64> {
    let d = without_plus(s);
    if d.len() > 0 && (forall|i: int| 0 <= i < d.len() ==> is_digit(#[trigger] d[i]))
        && digits_value(d) <= u64::MAX {
        Some(digits_value(d) as u64)
    } else {
        None
    }
}

/// Whether `c` is white space.
pub fn white(c: char) -> (b: bool)
    ensures
        b == is_white(c),
{
    ('\u{9}' <= c && c <= '\u{d}') || c == ' ' || c == '\u{85}' || c == '\u{a0}' || c == '\u{1680}'
        || ('\u{2000}' <= c && c <= '\u{200a}') || c == '\u{2028}' || c == '\u{2029}'
        || c == '\u{202f}' || c == '\u{205f}' || c == '\u{3000}'
}

/// The characters of `s`, in order.
pub fn chars_of(s: &str) -> (v: Vec<char>)
    ensures
        v@ == s@,
{
    let mut v: Vec<char> = Vec::new();
    for c in it: s.chars()
        invariant
            v@ == it.seq().take(it.index()),
            it.seq() == s@,
    {
        v.push(c);
    }
    v
}

/// The text of `v` from `from` up to `to`.
pub fn text_of(v: &Vec<char>, from: usize, to: usize) -> (s: String)
    requires
        from <= to <= v@.len(),
    ensures
        s@ == v@.subrange(from as int, to as int),
{
    let mut s: String = String::new();
    let mut i: usize = from;
    while i < to
        invariant
            from <= i <= to <= v@.len(),
            s@ == v@.subrange(from as int, i as int),
        decreases to - i,
    {
        s.push(v[i]);
        i = i + 1;
    }
    s
}

/// Whether two texts are the same.
pub fn same_text(a: &str, b: &str) -> (r: bool)
    ensures
        r == (a@ == b@),
{
    let x = a.as_bytes();
    let y = b.as_bytes();
    proof {
        encode_utf8_decode_utf8(a@);
        encode_utf8_decode_utf8(b@);
    }
    if x.len() != y.len() {
        return false;
    }
    let mut i: usize = 0;
    while i < x.len()
        invariant
            x@ == encode_utf8(a@),
            y@ == encode_utf8(b@),
            x@.len() == y@.len(),
            i <= x@.len(),
            forall|k: int| 0 <= k < i ==> x@[k] == y@[k],
        decreases x@.len() - i,
    {
        if x[i] != y[i] {
            return false;
        }
        i = i + 1;
    }
    assert(x@ =~= y@);
    true
}

/// Dropping `i` leading white characters of a text drops a part of what trimming drops.
proof fn lemma_trim_start(s: Seq<char>, i: int)
    requires
        0 <= i <= s.len(),
        forall|k: int| 0 <= k < i ==> is_white(#[trigger] s[k]),
    ensures
        trim_start(s) == trim_start(s.skip(i)),
    decreases i,
{
    if i > 0 {
        lemma_trim_start(s.drop_first(), i - 1);
        assert(s.drop_first().skip(i - 1) =~= s.skip(i));
    } else {
        assert(s.skip(0) =~= s);
    }
}

proof fn lemma_trim_end(s: Seq<char>, j: int)
    requires
        0 <= j <= s.len(),
        forall|k: int| j <= k < s.len() ==> is_white(#[trigger] s[k]),
    ensures
        trim_end(s) == trim_end(s.take(j)),
    decreases s.len() - j,
{
    if j < s.len() {
        lemma_trim_end(s.drop_last(), j);
        assert(s.drop_last().take(j) =~= s.take(j));
    } else {
        assert(s.take(j) =~= s);
    }
}

proof fn lemma_strip_leading(s: Seq<char>, c: char, i: int)
    requires
        0 <= i <= s.len(),
        forall|k: int| 0 <= k < i ==> #[trigger] s[k] == c,
    ensures
        strip_leading(s, c) == strip_leading(s.skip(i), c),
    decreases i,
{
    if i > 0 {
        lemma_strip_leading(s.drop_first(), c, i - 1);
        assert(s.drop_first().skip(i - 1) =~= s.skip(i));
    } else {
        assert(s.skip(0) =~= s);
    }
}

proof fn lemma_strip_trailing(s: Seq<char>, c: char, j: int)
    requires
        0 <= j <= s.len(),
        forall|k: int| j <= k < s.len() ==> #[trigger] s[k] == c,
    ensures
        strip_trailing(s, c) == strip_trailing(s.take(j), c),
    decreases s.len() - j,
{
    if j < s.len() {
        lemma_strip_trailing(s.drop_last(), c, j);
        assert(s.drop_last().take(j) =~= s.take(j));
    } else {
        assert(s.take(j) =~= s);
    }
}

/// The position of the first character of `v` that is not white space.
fn first_ink(v: &Vec<char>) -> (i: usize)
    ensures
        i <= v@.len(),
        trim_start(v@) == v@.skip(i as int),
{
    let mut i: usize = 0;
    while i < v.len() && white(v[i])
        invariant
            i <= v@.len(),
            forall|k: int| 0 <= k < i ==> is_white(#[trigger] v@[k]),
        decreases v@.len() - i,
    {
        i = i + 1;
    }
    proof {
        lemma_trim_start(v@, i as int);
    }
    i
}

/// `s` without its leading white space.
pub fn trim_front(s: &str) -> (r: String)
    ensures
        r@ == trim_start(s@),
{
    let v = chars_of(s);
    let i = first_ink(&v);
    text_of(&v, i, v.len())
}

/// `s` without the white space at both ends.
pub fn trim(s: &str) -> (r: String)
    ensures
        r@ == trimmed(s@),
{
    let v = chars_of(s);
    let i = first_ink(&v);
    let mut j: usize = v.len();
    let ghost t = v@.skip(i as int);
    while j > i && white(v[j - 1])
        invariant
            i <= j <= v@.len(),
            forall|k: int| j <= k < v@.len() ==> is_white(#[trigger] v@[k]),
        decreases j,
    {
        j = j - 1;
    }
    proof {
        lemma_trim_end(t, j - i);
        assert(t.take(j - i) =~= v@.subrange(i as int, j as int));
    }
    text_of(&v, i, j)
}

/// Whether `s` holds nothing but white space.
pub fn blank(s: &str) -> (r: bool)
    ensures
        r == (trimmed(s@).len() == 0),
{
    trim(s).as_str().is_empty()
}

/// `s` without the characters equal to `c` at both ends.
pub fn trim_char(s: &str, c: char) -> (r: String)
    ensures
        r@ == strip_trailing(strip_leading(s@, c), c),
{
    let v = chars_of(s);
    let mut i: usize = 0;
    while i < v.len() && v[i] == c
        invariant
            i <= v@.len(),
            forall|k: int| 0 <= k < i ==> #[trigger] v@[k] == c,
        decreases v@.len() - i,
    {
        i = i + 1;
    }
    let mut j: usize = v.len();
    let ghost t = v@.skip(i as int);
    while j > i && v[j - 1] == c
        invariant
            i <= j <= v@.len(),
            forall|k: int| j <= k < v@.len() ==> #[trigger] v@[k] == c,
        decreases j,
    {
        j = j - 1;
    }
    proof {
        lemma_strip_leading(v@, c, i as int);
        lemma_strip_trailing(t, c, j - i);
        assert(t.take(j - i) =~= v@.subrange(i as int, j as int));
    }
    text_of(&v, i, j)
}

/// The words of `s`: the runs of characters between white space.
pub fn split_words(s: &str) -> (out: Vec<String>)
    ensures
        texts(out@) == words(s@),
{
    let v = chars_of(s);
    let mut out: Vec<String> = Vec::new();
    let mut cur: String = String::new();
    let mut inside: bool = false;
    let mut i: usize = 0;
    assert(texts(out@) =~= Seq::empty());
    while i < v.len()
        invariant
            i <= v@.len(),
            inside == (i > 0 && !is_white(v@[i - 1])),
            inside ==> texts(out@).push(cur@) == words(v@.take(i as int)),
            !inside ==> texts(out@) == words(v@.take(i as int)) && cur@.len() == 0,
        decreases v@.len() - i,
    {
        let c = v[i];
        let ghost next = v@.take(i + 1);
        assert(next.drop_last() =~= v@.take(i as int));
        assert(next.last() == c);
        if white(c) {
            if inside {
                proof {
                    assert(texts(out@.push(cur)) =~= texts(out@).push(cur@));
                }
                out.push(cur);
                cur = String::new();
            }
            inside = false;
        } else {
            let ghost before = words(v@.take(i as int));
            if inside {
                assert(before.drop_last() =~= texts(out@));
                assert(before.last() == cur@);
            } else {
                assert(cur@ =~= Seq::empty());
                assert(cur@.push(c) =~= seq![c]);
            }
            cur.push(c);
            inside = true;
        }
        i = i + 1;
    }
    assert(v@.take(i as int) =~= v@);
    if inside {
        proof {
            assert(texts(out@.push(cur)) =~= texts(out@).push(cur@));
        }
        out.push(cur);
    }
    out
}

/// What follows the last `c` in `s`.
pub fn tail_after(s: &str, c: char) -> (r: String)
    ensures
        r@ == after_last(s@, c),
{
    let v = chars_of(s);
    let mut r: String = String::new();
    let mut i: usize = 0;
    while i < v.len()
        invariant
            i <= v@.len(),
            r@ == after_last(v@.take(i as int), c),
        decreases v@.len() - i,
    {
        let ghost next = v@.take(i + 1);
        assert(next.drop_last() =~= v@.take(i as int));
        assert(next.last() == v@[i as int]);
        if v[i] == c {
            r = String::new();
        } else {
            r.push(v[i]);
        }
        i = i + 1;
    }
    assert(v@.take(i as int) =~= v@);
    r
}

/// `s` without one carriage return at its end.
fn drop_cr(s: String) -> (r: String)
    ensures
        r@ == without_cr(s@),
{
    let v = chars_of(s.as_str());
    if v.len() > 0 && v[v.len() - 1] == '\r' {
        assert(v@.subrange(0, v@.len() - 1) =~= v@.drop_last());
        text_of(&v, 0, v.len() - 1)
    } else {
        s
    }
}

/// The lines of `s`.
pub fn split_lines(s: &str) -> (out: Vec<String>)
    ensures
        texts(out@) == lines(s@),
{
    let v = chars_of(s);
    let mut out: Vec<String> = Vec::new();
    let mut cur: String = String::new();
    let mut i: usize = 0;
    assert(texts(out@) =~= Seq::empty());
    while i < v.len()
        invariant
            i <= v@.len(),
            cur@ == after_last(v@.take(i as int), '\n'),
            texts(out@) == ended_lines(v@.take(i as int)),
        decreases v@.len() - i,
    {
        let c = v[i];
        let ghost next = v@.take(i + 1);
        assert(next.drop_last() =~= v@.take(i as int));
        assert(next.last() == c);
        if c == '\n' {
            let line = drop_cr(cur);
            proof {
                assert(texts(out@.push(line)) =~= texts(out@).push(line@));
            }
            out.push(line);
            cur = String::new();
        } else {
            cur.push(c);
        }
        i = i + 1;
    }
    assert(v@.take(i as int) =~= v@);
    if !cur.as_str().is_empty() {
        proof {
            assert(texts(out@.push(cur)) =~= texts(out@).push(cur@));
        }
        out.push(cur);
    }
    out
}

/// Whether `p` stands in `v` at position `i`.
fn stands_at(v: &Vec<char>, p: &Vec<char>, i: usize) -> (r: bool)
    requires
        i <= v@.len(),
    ensures
        r == occurs_at(v@, p@, i as int),
{
    if p.len() > v.len() - i {
        return false;
    }
    let mut k: usize = 0;
    while k < p.len()
        invariant
            k <= p@.len(),
            i + p.len() <= v.len(),
            forall|m: int| 0 <= m < k ==> v@[i + m] == p@[m],
        decreases p@.len() - k,
    {
        if v[i + k] != p[k] {
            assert(v@.subrange(i as int, i + p@.len())[k as int] != p@[k as int]);
            return false;
        }
        k = k + 1;
    }
    assert(v@.subrange(i as int, i + p@.len()) =~= p@);
    true
}

/// Where `p` first stands is `k`, counted from `from`, if it stands nowhere before.
proof fn lemma_first_at(s: Seq<char>, p: Seq<char>, from: int, k: int)
    requires
        0 <= from <= k <= s.len(),
        forall|m: int| from <= m < k ==> !occurs_at(s, p, m),
    ensures
        occurs_at(s, p, k) ==> first_at(s.skip(from), p) == Some(k - from),
        k == s.len() && !occurs_at(s, p, k) ==> first_at(s.skip(from), p) is None,
    decreases k - from,
{
    let t = s.skip(from);
    if from + p.len() <= s.len() {
        assert(t.subrange(0, p.len() as int) =~= s.subrange(from, from + p.len()));
    }
    assert(occurs_at(t, p, 0) == occurs_at(s, p, from));
    if from < k {
        lemma_first_at(s, p, from + 1, k);
        assert(t.drop_first() =~= s.skip(from + 1));
    }
}

/// Where `p` stands in `v` for the first time at or after `from`.
fn find_from(v: &Vec<char>, p: &Vec<char>, from: usize) -> (r: Option<usize>)
    requires
        from <= v@.len(),
    ensures
        match r {
            Some(i) => from <= i && i + p@.len() <= v@.len() && first_at(v@.skip(from as int), p@)
                == Some(i - from),
            None => first_at(v@.skip(from as int), p@) is None,
        },
{
    let mut i: usize = from;
    while i < v.len()
        invariant
            from <= i <= v@.len(),
            forall|m: int| from <= m < i ==> !occurs_at(v@, p@, m),
        decreases v@.len() - i,
    {
        if stands_at(v, p, i) {
            proof {
                lemma_first_at(v@, p@, from as int, i as int);
            }
            return Some(i);
        }
        i = i + 1;
    }
    proof {
        lemma_first_at(v@, p@, from as int, i as int);
    }
    if stands_at(v, p, i) {
        Some(i)
    } else {
        None
    }
}

/// A text holds `p` exactly where it has a first position of it.
pub proof fn lemma_occurs_first(s: Seq<char>, p: Seq<char>)
    ensures
        occurs(s, p) <==> first_at(s, p) is Some,
    decreases s.len(),
{
    if occurs_at(s, p, 0) {
    } else if s.len() == 0 {
    } else {
        let t = s.drop_first();
        lemma_occurs_first(t, p);
        assert forall|i: int| #[trigger] occurs_at(s, p, i) implies occurs_at(t, p, i - 1) by {
            assert(t.subrange(i - 1, i - 1 + p.len()) =~= s.subrange(i, i + p.len()));
        }
        assert forall|i: int| #[trigger] occurs_at(t, p, i) implies occurs_at(s, p, i + 1) by {
            assert(t.subrange(i, i + p.len()) =~= s.subrange(i + 1, i + 1 + p.len()));
        }
        if occurs(s, p) {
            let i = choose|i: int| occurs_at(s, p, i);
            assert(occurs_at(t, p, i - 1));
        }
        if occurs(t, p) {
            let i = choose|i: int| occurs_at(t, p, i);
            assert(occurs_at(s, p, i + 1));
        }
    }
}

/// Whether `p` stands somewhere in `s`.
pub fn contains(s: &str, p: &str) -> (r: bool)
    ensures
        r == occurs(s@, p@),
{
    let v = chars_of(s);
    let w = chars_of(p);
    proof {
        lemma_occurs_first(s@, p@);
        assert(v@.skip(0) =~= v@);
    }
    find_from(&v, &w, 0).is_some()
}

/// The piece of `s` between the first and the second `p`.
pub fn piece_after(s: &str, p: &str) -> (r: Option<String>)
    ensures
        match r {
            Some(t) => second_piece(s@, p@) == Some(t@),
            None => second_piece(s@, p@) is None,
        },
{
    let v = chars_of(s);
    let w = chars_of(p);
    assert(v@.skip(0) =~= v@);
    match find_from(&v, &w, 0) {
        None => None,
        Some(i) => {
            assert(i + w.len() <= v.len());
            let from: usize = i + w.len();
            let ghost rest = v@.skip(from as int);
            match find_from(&v, &w, from) {
                None => {
                    assert(v@.subrange(from as int, v@.len() as int) =~= rest);
                    Some(text_of(&v, from, v.len()))
                },
                Some(j) => {
                    assert(v@.subrange(from as int, j as int) =~= rest.take(j - from));
                    Some(text_of(&v, from, j))
                },
            }
        },
    }
}

/// Whether `s` ends with `p`.
pub fn ends_with(s: &str, p: &str) -> (r: bool)
    ensures
        r == p@.is_suffix_of(s@),
{
    let v = chars_of(s);
    let w = chars_of(p);
    if w.len() > v.len() {
        false
    } else {
        stands_at(&v, &w, v.len() - w.len())
    }
}

/// What follows `p` at the start of `s`, where `s` starts with it.
pub fn after_prefix(s: &str, p: &str) -> (r: Option<String>)
    ensures
        match r {
            Some(t) => p@.is_prefix_of(s@) && t@ == s@.skip(p@.len() as int),
            None => !p@.is_prefix_of(s@),
        },
{
    let v = chars_of(s);
    let w = chars_of(p);
    if stands_at(&v, &w, 0) {
        Some(text_of(&v, w.len(), v.len()))
    } else {
        None
    }
}

/// The first character of `s`.
pub fn first_char(s: &str) -> (r: Option<char>)
    ensures
        r == (if s@.len() > 0 {
            Some(s@[0])
        } else {
            None
        }),
{
    let v = chars_of(s);
    if v.len() > 0 {
        Some(v[0])
    } else {
        None
    }
}

fn digit_char(d: u64) -> (c: char)
    requires
        d < 10,
    ensures
        c == digit(d as int),
{
    if d == 0 {
        '0'
    } else if d == 1 {
        '1'
    } else if d == 2 {
        '2'
    } else if d == 3 {
        '3'
    } else if d == 4 {
        '4'
    } else if d == 5 {
        '5'
    } else if d == 6 {
        '6'
    } else if d == 7 {
        '7'
    } else if d == 8 {
        '8'
    } else {
        '9'
    }
}

/// `n` in decimal.
pub fn decimal_text(n: u64) -> (r: String)
    ensures
        r@ == decimal(n as nat),
    decreases n,
{
    if n < 10 {
        let mut r: String = String::new();
        r.push(digit_char(n));
        assert(r@ =~= seq![digit(n as int)]);
        r
    } else {
        let mut r: String = decimal_text(n / 10);
        r.push(digit_char(n % 10));
        r
    }
}

/// `n` in decimal, with its sign.
pub fn signed_text(n: i32) -> (r: String)
    ensures
        r@ == signed_decimal(n as int),
{
    if n < 0 {
        let m: u64 = (0 - (n as i64)) as u64;
        let mut r: String = String::new();
        r.push('-');
        assert(r@ =~= seq!['-']);
        r.append(decimal_text(m).as_str());
        r
    } else {
        decimal_text(n as u64)
    }
}

/// A run of digits writes at least what its front writes.
proof fn lemma_digits_grow(s: Seq<char>, i: int)
    requires
        0 <= i <= s.len(),
        forall|k: int| 0 <= k < s.len() ==> is_digit(#[trigger] s[k]),
    ensures
        digits_value(s.take(i)) <= digits_value(s),
    decreases s.len(),
{
    if i < s.len() {
        lemma_digits_grow(s.drop_last(), i);
        assert(s.drop_last().take(i) =~= s.take(i));
        assert(is_digit(s.last()));
    } else {
        assert(s.take(i) =~= s);
    }
}

/// The 64-bit number that `s` writes.
pub fn parse_u64(s: &str) -> (r: Option<u64>)
    ensures
        r == parsed_u64(s@),
{
    let v = chars_of(s);
    let start: usize = if v.len() > 0 && v[0] == '+' {
        1
    } else {
        0
    };
    let ghost d = without_plus(s@);
    assert(d =~= v@.skip(start as int));
    if v.len() == start {
        return None;
    }
    let mut value: u64 = 0;
    let mut i: usize = start;
    while i < v.len()
        invariant
            start <= i <= v@.len(),
            d == v@.skip(start as int),
            d == without_plus(s@),
            forall|k: int| 0 <= k < i - start ==> is_digit(#[trigger] d[k]),
            value == digits_value(d.take(i - start)),
        decreases v@.len() - i,
    {
        let c = v[i];
        assert(d[i - start] == c);
        if !('0' <= c && c <= '9') {
            return None;
        }
        let ghost next = d.take(i - start + 1);
        let add: u64 = (c as u32 - 48) as u64;
        proof {
            assert(next.drop_last() =~= d.take(i - start));
            assert(next.last() == c);
            assert(digits_value(next) == 10 * value + add);
            if parsed_u64(s@) is Some {
                lemma_digits_grow(d, i - start + 1);
            }
        }
        if value > (u64::MAX - add) / 10 {
            return None;
        }
        value = value * 10 + add;
        i = i + 1;
    }
    assert(d.take(i - start) =~= d);
    Some(value)
}

/// `s` holds nothing but white space.
pub open spec fn all_white(s: Seq<char>) -> bool {
    forall|i: int| 0 <= i < s.len() ==> is_white(#[trigger] s[i])
}

/// `s` holds no white space.
pub open spec fn all_ink(s: Seq<char>) -> bool {
    forall|i: int| 0 <= i < s.len() ==> !is_white(#[trigger] s[i])
}

/// `s` is empty, or starts and ends with a character that is not white space.
pub open spec fn ink_at_ends(s: Seq<char>) -> bool {
    s.len() > 0 ==> !is_white(s[0]) && !is_white(s.last())
}

/// The blank, the tabulator and the characters that end lines are white space; the characters that
/// ASCII prints are not.
pub proof fn law_ascii_white_space(c: char)
    ensures
        c == ' ' || c == '\t' || c == '\n' || c == '\r' ==> is_white(c),
        '!' <= c <= '~' ==> !is_white(c),
{
}

/// Trimming gives back what stands between white space: whatever white space is put around a text
/// that has none at its ends, trimming takes off that and nothing else.
pub proof fn law_trim_undoes_padding(a: Seq<char>, s: Seq<char>, b: Seq<char>)
    requires
        all_white(a),
        all_white(b),
        ink_at_ends(s),
    ensures
        trimmed(a + s + b) == s,
        trim_start(a + s) == s,
{
    let whole = a + s + b;
    lemma_trim_start(whole, a.len() as int);
    assert(whole.skip(a.len() as int) =~= s + b);
    lemma_trim_start(a + s, a.len() as int);
    assert((a + s).skip(a.len() as int) =~= s);
    if s.len() == 0 {
        assert(s + b =~= b);
        lemma_trim_start(b, b.len() as int);
        assert(b.skip(b.len() as int) =~= s);
    } else {
        lemma_trim_end(s + b, s.len() as int);
        assert((s + b).take(s.len() as int) =~= s);
    }
}

/// Trimming the front gives back what follows white space, whatever that is.
pub proof fn law_trim_front_undoes_padding(a: Seq<char>, s: Seq<char>)
    requires
        all_white(a),
        s.len() > 0 ==> !is_white(s[0]),
    ensures
        trim_start(a + s) == s,
{
    lemma_trim_start(a + s, a.len() as int);
    assert((a + s).skip(a.len() as int) =~= s);
}

/// Taking off a character at both ends gives back what stands between: whatever run of that
/// character is put around a text that neither starts nor ends with it.
pub proof fn law_strip_undoes_padding(a: Seq<char>, s: Seq<char>, b: Seq<char>, c: char)
    requires
        forall|i: int| 0 <= i < a.len() ==> #[trigger] a[i] == c,
        forall|i: int| 0 <= i < b.len() ==> #[trigger] b[i] == c,
        s.len() > 0 ==> s[0] != c && s.last() != c,
    ensures
        strip_trailing(strip_leading(a + s + b, c), c) == s,
{
    let whole = a + s + b;
    lemma_strip_leading(whole, c, a.len() as int);
    assert(whole.skip(a.len() as int) =~= s + b);
    if s.len() == 0 {
        assert(s + b =~= b);
        lemma_strip_leading(b, c, b.len() as int);
        assert(b.skip(b.len() as int) =~= s);
    } else {
        lemma_strip_trailing(s + b, c, s.len() as int);
        assert((s + b).take(s.len() as int) =~= s);
    }
}

/// A text that ends in a word has a word.
proof fn lemma_some_word(s: Seq<char>)
    requires
        s.len() > 0,
        !is_white(s.last()),
    ensures
        words(s).len() > 0,
    decreases s.len(),
{
}

/// The words of two texts with white space between them are those of the first and then those of the
/// second.
pub proof fn law_words_of_both(a: Seq<char>, b: Seq<char>)
    requires
        a.len() == 0 || b.len() == 0 || is_white(a.last()) || is_white(b[0]),
    ensures
        words(a + b) == words(a) + words(b),
    decreases b.len(),
{
    if b.len() == 0 {
        assert(a + b =~= a);
        assert(words(a) + words(b) =~= words(a));
    } else {
        let front = b.drop_last();
        let c = b.last();
        let whole = a + b;
        assert(whole.drop_last() =~= a + front);
        assert(whole.last() == c);
        law_words_of_both(a, front);
        if is_white(c) {
        } else if front.len() > 0 && !is_white(front.last()) {
            lemma_some_word(front);
            assert((a + front).last() == front.last());
            assert((words(a) + words(front)).drop_last() =~= words(a) + words(front).drop_last());
            assert((words(a) + words(front)).last() == words(front).last());
            assert(words(whole) =~= words(a) + words(b));
        } else {
            if front.len() > 0 {
                assert((a + front).last() == front.last());
            } else {
                assert(a + front =~= a);
            }
            assert(words(whole) =~= words(a) + words(b));
        }
    }
}

/// A run of characters that are not white space is one word, and white space holds no word.
pub proof fn law_one_word(w: Seq<char>)
    ensures
        all_ink(w) && w.len() > 0 ==> words(w) == seq![w],
        all_white(w) ==> words(w) == Seq::<Seq<char>>::empty(),
    decreases w.len(),
{
    if w.len() > 0 {
        let front = w.drop_last();
        assert(all_ink(w) ==> all_ink(front));
        assert(all_white(w) ==> all_white(front));
        law_one_word(front);
        if all_ink(w) {
            if front.len() > 0 {
                assert(!is_white(front.last()));
                assert(front.push(w.last()) =~= w);
                assert(seq![front].drop_last().push(w) =~= seq![w]);
                assert(seq![front].last() == front);
            } else {
                assert(seq![w.last()] =~= w);
                assert(words(front).push(w) =~= seq![w]);
            }
        }
    }
}

/// What follows the last `c`: nothing before that `c` counts.
proof fn lemma_after_last(a: Seq<char>, b: Seq<char>, c: char)
    requires
        a.len() > 0 ==> a.last() == c,
    ensures
        after_last(a + b, c) == after_last(b, c),
    decreases b.len(),
{
    if b.len() == 0 {
        assert(a + b =~= a);
    } else {
        lemma_after_last(a, b.drop_last(), c);
        assert((a + b).drop_last() =~= a + b.drop_last());
    }
}

proof fn lemma_no_last(s: Seq<char>, c: char)
    requires
        !s.contains(c),
    ensures
        after_last(s, c) == s,
    decreases s.len(),
{
    if s.len() > 0 {
        let front = s.drop_last();
        assert(s.contains(s.last()));
        assert forall|x: char| front.contains(x) implies s.contains(x) by {
            let k = choose|k: int| 0 <= k < front.len() && front[k] == x;
            assert(s[k] == x);
        }
        lemma_no_last(front, c);
        assert(front.push(s.last()) =~= s);
    }
}

/// What follows the last separator is what is put after one, where that has none itself.
pub proof fn law_what_follows_the_last(a: Seq<char>, b: Seq<char>, c: char)
    requires
        !b.contains(c),
    ensures
        after_last(a.push(c) + b, c) == b,
        after_last(b, c) == b,
{
    lemma_after_last(a.push(c), b, c);
    lemma_no_last(b, c);
}

proof fn lemma_ended_lines(a: Seq<char>, b: Seq<char>)
    requires
        a.len() > 0 ==> a.last() == '\n',
    ensures
        ended_lines(a + b) == ended_lines(a) + ended_lines(b),
    decreases b.len(),
{
    if b.len() == 0 {
        assert(a + b =~= a);
        assert(ended_lines(a) + ended_lines(b) =~= ended_lines(a));
    } else {
        let front = b.drop_last();
        lemma_ended_lines(a, front);
        assert((a + b).drop_last() =~= a + front);
        lemma_after_last(a, front, '\n');
        assert(ended_lines(a + b) =~= ended_lines(a) + ended_lines(b));
    }
}

/// The lines of two texts, of which the first ends a line, are those of the first and then those of
/// the second.
pub proof fn law_lines_of_both(a: Seq<char>, b: Seq<char>)
    requires
        a.len() > 0 ==> a.last() == '\n',
    ensures
        lines(a + b) == lines(a) + lines(b),
{
    lemma_ended_lines(a, b);
    lemma_after_last(a, b, '\n');
    assert(after_last(a, '\n').len() == 0);
    assert(lines(a + b) =~= lines(a) + lines(b));
}

proof fn lemma_no_ended_line(s: Seq<char>)
    requires
        !s.contains('\n'),
    ensures
        ended_lines(s) == Seq::<Seq<char>>::empty(),
    decreases s.len(),
{
    if s.len() > 0 {
        let front = s.drop_last();
        assert(s.contains(s.last()));
        assert forall|x: char| front.contains(x) implies s.contains(x) by {
            let k = choose|k: int| 0 <= k < front.len() && front[k] == x;
            assert(s[k] == x);
        }
        lemma_no_ended_line(front);
    }
}

/// A line is read back as it was written, whether a line feed or a carriage return and a line feed
/// ends it, and what follows is read on its own. The last line needs no end.
pub proof fn law_line_is_read_back(line: Seq<char>, rest: Seq<char>)
    requires
        !line.contains('\n'),
    ensures
        line.len() == 0 || line.last() != '\r' ==> lines(line.push('\n') + rest) == seq![line]
            + lines(rest),
        lines(line.push('\r').push('\n') + rest) == seq![line] + lines(rest),
        lines(line) == (if line.len() > 0 {
            seq![line]
        } else {
            Seq::empty()
        }),
{
    let ended = line.push('\n');
    let with_cr = line.push('\r');
    lemma_no_last(line, '\n');
    lemma_no_ended_line(line);
    assert(ended.drop_last() =~= line);
    law_lines_of_both(ended, rest);
    assert(!with_cr.contains('\n')) by {
        assert forall|k: int| 0 <= k < with_cr.len() implies with_cr[k] != '\n' by {
            if k < line.len() {
                assert(line.contains(line[k]));
            }
        }
    }
    lemma_no_last(with_cr, '\n');
    lemma_no_ended_line(with_cr);
    let both = with_cr.push('\n');
    assert(both.drop_last() =~= with_cr);
    assert(with_cr.drop_last() =~= line);
    law_lines_of_both(both, rest);
    assert(lines(both) =~= seq![line]);
    if line.len() == 0 || line.last() != '\r' {
        assert(lines(ended) =~= seq![line]);
    }
    assert(lines(line) =~= (if line.len() > 0 {
        seq![line]
    } else {
        Seq::empty()
    }));
}

/// A text is found exactly where the whole is something before it, the text, and something after it.
pub proof fn law_found_between(s: Seq<char>, p: Seq<char>)
    ensures
        occurs(s, p) <==> exists|a: Seq<char>, b: Seq<char>| s == #[trigger] (a + p + b),
{
    if occurs(s, p) {
        let i = choose|i: int| occurs_at(s, p, i);
        let a = s.take(i);
        let b = s.skip(i + p.len());
        assert(p =~= s.subrange(i, i + p.len()));
        assert(s =~= a + p + b);
    }
    if exists|a: Seq<char>, b: Seq<char>| s == #[trigger] (a + p + b) {
        let (a, b) = choose|a: Seq<char>, b: Seq<char>| s == #[trigger] (a + p + b);
        let i = a.len() as int;
        assert(s.subrange(i, i + p.len()) =~= p);
        assert(occurs_at(s, p, i));
    }
}

/// The piece after the first mark is all that follows it where no other mark does, and otherwise what
/// stands before the next one; without a mark there is no such piece.
pub proof fn law_piece_after_the_mark(a: Seq<char>, p: Seq<char>, b: Seq<char>, rest: Seq<char>)
    requires
        forall|i: int| 0 <= i < a.len() ==> !occurs_at(a + p + b, p, i),
    ensures
        !occurs(b, p) ==> second_piece(a + p + b, p) == Some(b),
        forall|m: Seq<char>|
            b == #[trigger] (m + p + rest) && (forall|i: int|
                0 <= i < m.len() ==> !occurs_at(b, p, i)) ==> second_piece(a + p + b, p) == Some(m),
        !occurs(a, p) ==> second_piece(a, p) is None,
{
    let s = a + p + b;
    let k = a.len() as int;
    assert(s.subrange(k, k + p.len()) =~= p);
    assert(s.skip(0) =~= s);
    lemma_first_at(s, p, 0, k);
    assert(s.skip(k + p.len()) =~= b);
    lemma_occurs_first(b, p);
    lemma_occurs_first(a, p);
    assert forall|m: Seq<char>|
        b == #[trigger] (m + p + rest) && (forall|i: int|
            0 <= i < m.len() ==> !occurs_at(b, p, i)) implies second_piece(a + p + b, p) == Some(
        m,
    ) by {
        let j = m.len() as int;
        assert(b.subrange(j, j + p.len()) =~= p);
        assert(b.skip(0) =~= b);
        lemma_first_at(b, p, 0, j);
        assert(b.take(j) =~= m);
    }
}

/// The piece after the first mark starts with what stands right after that mark, as far as no other
/// mark begins there.
pub proof fn law_piece_starts_after_the_mark(
    a: Seq<char>,
    p: Seq<char>,
    b: Seq<char>,
    k: int,
)
    requires
        forall|i: int| 0 <= i < a.len() ==> !occurs_at(a + p + b, p, i),
        0 <= k <= b.len(),
        forall|i: int| 0 <= i < k ==> !occurs_at(b, p, i),
    ensures
        second_piece(a + p + b, p) matches Some(piece) && piece.len() >= k && piece.take(k)
            == b.take(k),
{
    let s = a + p + b;
    let n = a.len() as int;
    assert(s.subrange(n, n + p.len()) =~= p);
    assert(s.skip(0) =~= s);
    lemma_first_at(s, p, 0, n);
    assert(s.skip(n + p.len()) =~= b);
    lemma_first_at_occurs(b, p);
    if let Some(j) = first_at(b, p) {
        assert(j >= k);
        assert(b.take(j).take(k) =~= b.take(k));
    }
}

proof fn lemma_first_at_occurs(s: Seq<char>, p: Seq<char>)
    ensures
        first_at(s, p) matches Some(j) ==> occurs_at(s, p, j) && 0 <= j <= s.len(),
    decreases s.len(),
{
    if !occurs_at(s, p, 0) && s.len() > 0 {
        let t = s.drop_first();
        lemma_first_at_occurs(t, p);
        if let Some(j) = first_at(t, p) {
            assert(t.subrange(j, j + p.len()) =~= s.subrange(j + 1, j + 1 + p.len()));
        }
    }
}

/// Each further digit of a number counts what it writes, and all before it ten times as much.
pub proof fn law_digit_by_digit(s: Seq<char>, d: int)
    requires
        0 <= d < 10,
    ensures
        digits_value(s.push(digit(d))) == 10 * digits_value(s) + d,
        digit(d) as int == '0' as int + d,
{
    assert(s.push(digit(d)).drop_last() =~= s);
}

/// A number that is written in decimal reads back as that number, also with a plus sign in front. It
/// is written with digits alone and without a leading zero.
pub proof fn law_decimal_reads_back(n: nat)
    ensures
        digits_value(decimal(n)) == n,
        decimal(n).len() > 0,
        forall|i: int| 0 <= i < decimal(n).len() ==> '0' <= #[trigger] decimal(n)[i] <= '9',
        n > 0 ==> decimal(n)[0] != '0',
        n <= u64::MAX ==> parsed_u64(decimal(n)) == Some(n as u64) && parsed_u64(
            seq!['+'] + decimal(n),
        ) == Some(n as u64),
        n > u64::MAX ==> parsed_u64(decimal(n)) is None,
    decreases n,
{
    if n < 10 {
        law_digit_by_digit(Seq::empty(), n as int);
        assert(decimal(n) =~= Seq::empty().push(digit(n as int)));
    } else {
        law_decimal_reads_back(n / 10);
        law_digit_by_digit(decimal(n / 10), (n % 10) as int);
    }
    assert(forall|i: int| 0 <= i < decimal(n).len() ==> is_digit(#[trigger] decimal(n)[i]));
    assert((seq!['+'] + decimal(n)).drop_first() =~= decimal(n));
}

/// Every run of digits writes a number, leading zeros included, as long as the number is not too
/// large; a plus sign in front changes nothing.
pub proof fn law_digits_write_a_number(s: Seq<char>)
    requires
        s.len() > 0,
        forall|i: int| 0 <= i < s.len() ==> '0' <= #[trigger] s[i] <= '9',
    ensures
        digits_value(s) <= u64::MAX ==> parsed_u64(s) == Some(digits_value(s) as u64),
        digits_value(s) > u64::MAX ==> parsed_u64(s) is None,
        parsed_u64(seq!['+'] + s) == parsed_u64(s),
{
    assert((seq!['+'] + s).drop_first() =~= s);
    assert(forall|i: int| 0 <= i < s.len() ==> is_digit(#[trigger] s[i]));
}

/// A text that is no run of digits writes no number: an empty one, or one with anything else in it
/// but a plus sign in front.
pub proof fn law_other_text_is_no_number(s: Seq<char>, i: int)
    requires
        s.len() == 0 || (0 < i < s.len() && !('0' <= s[i] <= '9')) || (i == 0 && s[0] != '+' && !('0'
            <= s[0] <= '9')),
    ensures
        parsed_u64(s) is None,
{
    let d = without_plus(s);
    if s.len() > 0 {
        if s[0] == '+' {
            assert(d[i - 1] == s[i]);
        } else {
            assert(d[i] == s[i]);
        }
    }
}

/// A negative number is written as its opposite behind a minus sign, any other one as it is.
pub proof fn law_sign_comes_first(n: int)
    ensures
        n < 0 ==> signed_decimal(n) == seq!['-'] + signed_decimal(-n),
        n >= 0 ==> digits_value(signed_decimal(n)) == n,
{
    if n >= 0 {
        law_decimal_reads_back(n as nat);
    }
}

/// Capital letters become small ones and nothing else changes: a text without capital letters is its
/// own lower case.
pub proof fn law_lower_case_of_ascii(s: Seq<char>, i: int)
    requires
        plain_case(s),
        is_ascii_chars(s),
        0 <= i < s.len(),
    ensures
        lowercase(s).len() == s.len(),
        'A' <= s[i] <= 'Z' ==> lowercase(s)[i] as int - 'a' as int == s[i] as int - 'A' as int,
        !('A' <= s[i] <= 'Z') ==> lowercase(s)[i] == s[i],
        (forall|k: int| 0 <= k < s.len() ==> !('A' <= #[trigger] s[k] <= 'Z')) ==> lowercase(s) == s,
{
    if forall|k: int| 0 <= k < s.len() ==> !('A' <= #[trigger] s[k] <= 'Z') {
        assert(lowercase(s) =~= s);
    }
}

} // verus!
