use vstd::prelude::*;
use vstd::string::StringExecFns;
use vstd::std_specs::iter::IteratorSpec;

verus! {

/// Lexicographic order on character sequences, comparing characters by code point.
/// For UTF-8 strings this is the same order as the byte-wise order of `str`'s `Ord`.
pub open spec fn chars_lt(a: Seq<char>, b: Seq<char>) -> bool
    decreases a.len(),
{
    if a.len() == 0 {
        b.len() > 0
    } else if b.len() == 0 {
        false
    } else if a[0] < b[0] {
        true
    } else if a[0] > b[0] {
        false
    } else {
        chars_lt(a.drop_first(), b.drop_first())
    }
}

/// Removes leading characters that satisfy `unicode_white_space`.
pub open spec fn trim_start(s: Seq<char>) -> Seq<char>
    decreases s.len(),
{
    if s.len() > 0 && unicode_white_space(s[0]) {
        trim_start(s.drop_first())
    } else {
        s
    }
}

/// Removes trailing characters that satisfy `unicode_white_space`.
pub open spec fn trim_end(s: Seq<char>) -> Seq<char>
    decreases s.len(),
{
    if s.len() > 0 && unicode_white_space(s.last()) {
        trim_end(s.drop_last())
    } else {
        s
    }
}

/// What `str::trim` leaves of `s`.
pub open spec fn trimmed(s: Seq<char>) -> Seq<char> {
    trim_end(trim_start(s))
}

/// The ASCII-lowercase form of a character (non-ASCII-uppercase characters are unchanged).
pub open spec fn lower_char(c: char) -> char {
    if 'A' <= c && c <= 'Z' {
        ((c as u32) + 32) as char
    } else {
        c
    }
}

pub open spec fn ascii_lowercase(s: Seq<char>) -> Seq<char> {
    s.map_values(|c: char| lower_char(c))
}

/// The decimal digit for `d < 10`.
pub open spec fn digit_char(d: nat) -> char {
    ((d + 48) as u32) as char
}

/// Decimal representation of a natural number, without leading zeros ("0" for zero).
pub open spec fn decimal(n: nat) -> Seq<char>
    decreases n,
{
    if n < 10 {
        seq![digit_char(n)]
    } else {
        decimal(n / 10).push(digit_char(n % 10))
    }
}

/// `s` with every trailing `c` removed (what `str::trim_end_matches(c)` gives for a char).
pub open spec fn trim_end_char(s: Seq<char>, c: char) -> Seq<char>
    decreases s.len(),
{
    if s.len() > 0 && s.last() == c {
        trim_end_char(s.drop_last(), c)
    } else {
        s
    }
}

/// Whether `c` has the Unicode `White_Space` property, which is what `char::is_whitespace`
/// tests: tab, line feed, vertical tab, form feed, carriage return, space, next line,
/// no-break space, ogham space mark, the spaces U+2000 to U+200A, line and paragraph
/// separators, narrow no-break space, medium mathematical space and ideographic space.
pub open spec fn unicode_white_space(c: char) -> bool {
    let n = c as u32;
    (0x9 <= n && n <= 0xD) || n == 0x20 || n == 0x85 || n == 0xA0 || n == 0x1680 || (0x2000 <= n && n
        <= 0x200A) || n == 0x2028 || n == 0x2029 || n == 0x202F || n == 0x205F || n == 0x3000
}

/// Whether `c` is white space (see `unicode_white_space`).
pub fn char_is_whitespace(c: char) -> (r: bool)
    ensures
        r == unicode_white_space(c),
{
    let n = c as u32;
    (0x9 <= n && n <= 0xD) || n == 0x20 || n == 0x85 || n == 0xA0 || n == 0x1680 || (0x2000 <= n && n
        <= 0x200A) || n == 0x2028 || n == 0x2029 || n == 0x202F || n == 0x205F || n == 0x3000
}

/// Appends one character; `String::push` is documented to append the character to the end.
#[verifier::external_body]
pub(crate) fn push_char(s: &mut String, c: char)
    ensures
        final(s)@ == old(s)@.push(c),
{
    s.push(c);
}

/// Appends a string slice.
pub fn push_str(s: &mut String, t: &str)
    ensures
        final(s)@ == old(s)@ + t@,
{
    s.append(t);
}

/// A fresh owned copy of a string slice.
pub fn owned(s: &str) -> (r: String)
    ensures
        r@ == s@,
{
    s.to_owned()
}

/// The characters of a string slice, in order.
pub fn chars_of(s: &str) -> (r: Vec<char>)
    ensures
        r@ == s@,
{
    let mut out: Vec<char> = Vec::new();
    for c in it: s.chars()
        invariant
            out@ == it.seq().take(it.index() as int),
            it.seq() == s@,
    {
        out.push(c);
    }
    out
}

/// The string made of `chars[lo..hi]`.
pub fn string_of_range(chars: &Vec<char>, lo: usize, hi: usize) -> (r: String)
    requires
        lo <= hi <= chars.len(),
    ensures
        r@ == chars@.subrange(lo as int, hi as int),
{
    let mut out = String::new();
    let mut i = lo;
    while i < hi
        invariant
            lo <= i <= hi <= chars.len(),
            out@ == chars@.subrange(lo as int, i as int),
        decreases hi - i,
    {
        push_char(&mut out, chars[i]);
        i += 1;
    }
    out
}

/// Equality of two string slices.
pub fn text_eq(a: &str, b: &str) -> (r: bool)
    ensures
        r == (a@ == b@),
{
    let ac = chars_of(a);
    let bc = chars_of(b);
    if ac.len() != bc.len() {
        return false;
    }
    let mut i: usize = 0;
    while i < ac.len()
        invariant
            ac@ == a@,
            bc@ == b@,
            ac.len() == bc.len(),
            i <= ac.len(),
            forall|j: int| 0 <= j < i ==> ac@[j] == bc@[j],
        decreases ac.len() - i,
    {
        if ac[i] != bc[i] {
            return false;
        }
        i += 1;
    }
    assert(a@ =~= b@);
    true
}

proof fn lemma_chars_lt_skip(a: Seq<char>, b: Seq<char>, i: int)
    requires
        0 <= i <= a.len(),
        i <= b.len(),
        a.take(i) == b.take(i),
    ensures
        chars_lt(a, b) == chars_lt(a.skip(i), b.skip(i)),
    decreases i,
{
    if i > 0 {
        assert(a[0] == a.take(i)[0]);
        assert(b[0] == b.take(i)[0]);
        assert(a.drop_first().take(i - 1) =~= a.take(i).drop_first());
        assert(b.drop_first().take(i - 1) =~= b.take(i).drop_first());
        lemma_chars_lt_skip(a.drop_first(), b.drop_first(), i - 1);
        assert(a.drop_first().skip(i - 1) =~= a.skip(i));
        assert(b.drop_first().skip(i - 1) =~= b.skip(i));
    } else {
        assert(a.skip(0) =~= a);
        assert(b.skip(0) =~= b);
    }
}

/// Whether `a` comes strictly before `b` in the order of `chars_lt`.
pub fn text_lt(a: &str, b: &str) -> (r: bool)
    ensures
        r == chars_lt(a@, b@),
{
    let ac = chars_of(a);
    let bc = chars_of(b);
    let mut i: usize = 0;
    while i < ac.len() && i < bc.len()
        invariant
            ac@ == a@,
            bc@ == b@,
            i <= ac.len(),
            i <= bc.len(),
            ac@.take(i as int) == bc@.take(i as int),
        decreases ac.len() - i,
    {
        let x = ac[i];
        let y = bc[i];
        if x != y {
            proof {
                lemma_chars_lt_skip(ac@, bc@, i as int);
            }
            return x < y;
        }
        assert(ac@.take(i + 1) =~= ac@.take(i as int).push(x));
        assert(bc@.take(i + 1) =~= bc@.take(i as int).push(y));
        i += 1;
    }
    proof {
        lemma_chars_lt_skip(ac@, bc@, i as int);
    }
    i < bc.len()
}

/// `str::trim` on the characters of `s`: the text without leading and trailing white space.
pub fn trim_text(s: &str) -> (r: String)
    ensures
        r@ == trimmed(s@),
{
    let c = chars_of(s);
    let n = c.len();
    let mut i: usize = 0;
    assert(s@.skip(0) =~= s@);
    while i < n && char_is_whitespace(c[i])
        invariant
            c@ == s@,
            n == c.len(),
            i <= n,
            trim_start(s@) == trim_start(s@.skip(i as int)),
        decreases n - i,
    {
        assert(s@.skip(i as int).drop_first() =~= s@.skip(i + 1));
        i += 1;
    }
    assert(trim_start(s@.skip(i as int)) == s@.skip(i as int));
    let mut j: usize = n;
    while j > i && char_is_whitespace(c[j - 1])
        invariant
            c@ == s@,
            n == c.len(),
            i <= j <= n,
            trim_end(s@.skip(i as int)) == trim_end(s@.subrange(i as int, j as int)),
        decreases j,
    {
        assert(s@.subrange(i as int, j as int).drop_last() =~= s@.subrange(i as int, j - 1));
        j -= 1;
    }
    assert(s@.subrange(i as int, n as int) =~= s@.skip(i as int));
    string_of_range(&c, i, j)
}

/// Whether `s` is empty once trimmed, i.e. made only of white space.
pub fn is_blank(s: &str) -> (r: bool)
    ensures
        r == (trimmed(s@).len() == 0),
{
    let t = trim_text(s);
    t.as_str().is_empty()
}

/// `str::to_ascii_lowercase`.
pub fn lowercase_ascii(s: &str) -> (r: String)
    ensures
        r@ == ascii_lowercase(s@),
{
    let c = chars_of(s);
    let mut out = String::new();
    let mut i: usize = 0;
    while i < c.len()
        invariant
            c@ == s@,
            i <= c.len(),
            out@ == ascii_lowercase(s@.take(i as int)),
        decreases c.len() - i,
    {
        let ch = c[i];
        let low = if 'A' <= ch && ch <= 'Z' {
            char_from_u32_ascii((ch as u32) + 32)
        } else {
            ch
        };
        push_char(&mut out, low);
        assert(ascii_lowercase(s@.take(i + 1)) =~= ascii_lowercase(s@.take(i as int)).push(lower_char(ch)));
        i += 1;
    }
    assert(s@.take(c.len() as int) =~= s@);
    out
}

fn char_from_u32_ascii(v: u32) -> (r: char)
    requires
        v < 128,
    ensures
        r == v as char,
{
    let b: u8 = v as u8;
    b as char
}

/// Decimal text of an unsigned integer, as `u64::to_string` writes it.
pub fn u64_to_text(n: u64) -> (r: String)
    ensures
        r@ == decimal(n as nat),
    decreases n,
{
    if n < 10 {
        let mut out = String::new();
        push_char(&mut out, char_from_u32_ascii((n as u32) + 48));
        assert(out@ =~= seq![digit_char(n as nat)]);
        out
    } else {
        let mut out = u64_to_text(n / 10);
        push_char(&mut out, char_from_u32_ascii(((n % 10) as u32) + 48));
        out
    }
}

/// `s.trim_end_matches(c)` for a character pattern.
pub fn trim_end_matching(s: &str, c: char) -> (r: String)
    ensures
        r@ == trim_end_char(s@, c),
{
    let cs = chars_of(s);
    let mut j: usize = cs.len();
    assert(s@.take(j as int) =~= s@);
    while j > 0 && cs[j - 1] == c
        invariant
            cs@ == s@,
            j <= cs.len(),
            trim_end_char(s@, c) == trim_end_char(s@.take(j as int), c),
        decreases j,
    {
        assert(s@.take(j as int).drop_last() =~= s@.take(j - 1));
        j -= 1;
    }
    string_of_range(&cs, 0, j)
}

/// Index of the first occurrence of `c` in `s`, if any.
pub open spec fn first_index(s: Seq<char>, c: char) -> Option<int>
    decreases s.len(),
{
    if s.len() == 0 {
        None
    } else if s[0] == c {
        Some(0)
    } else {
        match first_index(s.drop_first(), c) {
            Some(i) => Some(i + 1),
            None => None,
        }
    }
}

pub proof fn lemma_first_index(s: Seq<char>, c: char)
    ensures
        match first_index(s, c) {
            Some(i) => 0 <= i < s.len() && s[i] == c && forall|j: int| 0 <= j < i ==> s[j] != c,
            None => forall|j: int| 0 <= j < s.len() ==> s[j] != c,
        },
    decreases s.len(),
{
    if s.len() > 0 && s[0] != c {
        lemma_first_index(s.drop_first(), c);
        match first_index(s.drop_first(), c) {
            Some(i) => {
                assert forall|j: int| 0 <= j < i + 1 implies s[j] != c by {
                    if j > 0 {
                        assert(s[j] == s.drop_first()[j - 1]);
                    }
                }
            },
            None => {
                assert forall|j: int| 0 <= j < s.len() implies s[j] != c by {
                    if j > 0 {
                        assert(s[j] == s.drop_first()[j - 1]);
                    }
                }
            },
        }
    }
}

proof fn lemma_first_index_unique(s: Seq<char>, c: char, i: int)
    requires
        0 <= i < s.len(),
        s[i] == c,
        forall|j: int| 0 <= j < i ==> s[j] != c,
    ensures
        first_index(s, c) == Some(i),
    decreases s.len(),
{
    if i > 0 {
        assert forall|j: int| 0 <= j < i - 1 implies s.drop_first()[j] != c by {
            assert(s.drop_first()[j] == s[j + 1]);
        }
        lemma_first_index_unique(s.drop_first(), c, i - 1);
    }
}

proof fn lemma_first_index_none(s: Seq<char>, c: char)
    requires
        forall|j: int| 0 <= j < s.len() ==> s[j] != c,
    ensures
        first_index(s, c) is None,
    decreases s.len(),
{
    if s.len() > 0 {
        assert forall|j: int| 0 <= j < s.drop_first().len() implies s.drop_first()[j] != c by {
            assert(s.drop_first()[j] == s[j + 1]);
        }
        lemma_first_index_none(s.drop_first(), c);
    }
}

/// Whether `s` begins with `prefix`; reads no further into `s` than `prefix`'s length.
pub fn has_prefix(s: &str, prefix: &str) -> (r: bool)
    ensures
        r == (prefix@.len() <= s@.len() && s@.take(prefix@.len() as int) == prefix@),
{
    broadcast use vstd::string::group_string_axioms;
    let pc = chars_of(prefix);
    let mut it = s.chars();
    let mut k: usize = 0;
    while k < pc.len()
        invariant
            pc@ == prefix@,
            k <= pc.len(),
            k <= s@.len(),
            it.remaining() == s@.skip(k as int),
            s@.take(k as int) == prefix@.take(k as int),
        decreases pc.len() - k,
    {
        let ghost before = it.remaining();
        match it.next() {
            Some(ch) => {
                assert(before[0] == s@[k as int]);
                if ch != pc[k] {
                    return false;
                }
                assert(s@.take(k + 1) =~= s@.take(k as int).push(ch));
                assert(prefix@.take(k + 1) =~= prefix@.take(k as int).push(pc@[k as int]));
                assert(s@.skip(k as int).drop_first() =~= s@.skip(k + 1));
                k += 1;
            },
            None => {
                return false;
            },
        }
    }
    assert(prefix@.take(k as int) =~= prefix@);
    true
}

/// The characters an iterator over a string has yet to give, collected.
fn collect_rest(chars: std::str::Chars, Ghost(start): Ghost<Seq<char>>) -> (r: String)
    requires
        chars.remaining() == start,
    ensures
        r@ == start,
{
    broadcast use vstd::string::group_string_axioms;
    let ghost total = start.len();
    let mut it = chars;
    let mut out = String::new();
    loop
        invariant
            start == out@ + it.remaining(),
            start.len() == total,
        decreases total - out@.len(),
    {
        let ghost rem = it.remaining();
        match it.next() {
            Some(ch) => {
                push_char(&mut out, ch);
                assert(start =~= out@ + it.remaining());
            },
            None => {
                assert(rem.len() == 0);
                assert(out@ =~= start);
                return out;
            },
        }
    }
}

/// `s.split_once(c)`: the text before and after the first `c`, if there is one.
pub fn split_once_char(s: &str, c: char) -> (r: Option<(String, String)>)
    ensures
        match first_index(s@, c) {
            Some(i) => r matches Some(p) && p.0@ == s@.take(i) && p.1@ == s@.skip(i + 1),
            None => r is None,
        },
{
    broadcast use vstd::string::group_string_axioms;
    let mut it = s.chars();
    let mut before = String::new();
    let ghost mut k: int = 0;
    loop
        invariant
            0 <= k <= s@.len(),
            it.remaining() == s@.skip(k),
            before@ == s@.take(k),
            forall|j: int| 0 <= j < k ==> s@[j] != c,
        decreases s@.len() - k,
    {
        let ghost rem = it.remaining();
        match it.next() {
            Some(ch) => {
                assert(rem[0] == s@[k]);
                if ch == c {
                    proof {
                        lemma_first_index_unique(s@, c, k);
                    }
                    assert(s@.skip(k).drop_first() =~= s@.skip(k + 1));
                    let after = collect_rest(it, Ghost(s@.skip(k + 1)));
                    return Some((before, after));
                }
                push_char(&mut before, ch);
                assert(before@ =~= s@.take(k + 1));
                assert(s@.skip(k).drop_first() =~= s@.skip(k + 1));
                proof {
                    k = k + 1;
                }
            },
            None => {
                assert(k == s@.len());
                proof {
                    lemma_first_index_none(s@, c);
                }
                return None;
            },
        }
    }
}

/// Whether `s` ends with `suffix`.
pub fn has_suffix(s: &str, suffix: &str) -> (r: bool)
    ensures
        r == (suffix@.len() <= s@.len() && s@.skip(s@.len() - suffix@.len()) == suffix@),
{
    let sc = chars_of(s);
    let pc = chars_of(suffix);
    if pc.len() > sc.len() {
        return false;
    }
    let off = sc.len() - pc.len();
    let mut i: usize = 0;
    while i < pc.len()
        invariant
            sc@ == s@,
            pc@ == suffix@,
            off == sc.len() - pc.len(),
            i <= pc.len(),
            forall|k: int| 0 <= k < i ==> sc@[off + k] == pc@[k],
        decreases pc.len() - i,
    {
        if sc[off + i] != pc[i] {
            assert(s@.skip(off as int)[i as int] == sc@[off + i]);
            return false;
        }
        i += 1;
    }
    assert(s@.skip(off as int) =~= suffix@);
    true
}

pub proof fn lemma_chars_lt_irreflexive(a: Seq<char>)
    ensures
        !chars_lt(a, a),
    decreases a.len(),
{
    if a.len() > 0 {
        lemma_chars_lt_irreflexive(a.drop_first());
    }
}

pub proof fn lemma_chars_lt_transitive(a: Seq<char>, b: Seq<char>, c: Seq<char>)
    requires
        chars_lt(a, b),
        chars_lt(b, c),
    ensures
        chars_lt(a, c),
    decreases a.len(),
{
    if a.len() > 0 && b.len() > 0 && c.len() > 0 && a[0] == b[0] && b[0] == c[0] {
        lemma_chars_lt_transitive(a.drop_first(), b.drop_first(), c.drop_first());
    }
}

pub proof fn lemma_chars_lt_total(a: Seq<char>, b: Seq<char>)
    requires
        a != b,
    ensures
        chars_lt(a, b) || chars_lt(b, a),
    decreases a.len(),
{
    if a.len() > 0 && b.len() > 0 && a[0] == b[0] {
        if a.drop_first() == b.drop_first() {
            assert(a =~= seq![a[0]] + a.drop_first());
            assert(b =~= seq![b[0]] + b.drop_first());
        }
        lemma_chars_lt_total(a.drop_first(), b.drop_first());
    } else if a.len() == 0 && b.len() == 0 {
        assert(a =~= b);
    }
}

} // verus!
