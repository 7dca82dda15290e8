use vstd::prelude::*;
use vstd::string::*;

verus! {

/// Unicode white space, as `char::is_whitespace` defines it: the
/// characters with the `White_Space` property.
pub open spec fn is_space(c: char) -> bool {
    let u = c as u32;
    (0x9 <= u && u <= 0xd) || u == 0x20 || u == 0x85 || u == 0xa0 || u == 0x1680
        || (0x2000 <= u && u <= 0x200a) || u == 0x2028 || u == 0x2029 || u == 0x202f
        || u == 0x205f || u == 0x3000
}

pub fn is_space_char(c: char) -> (b: bool)
    ensures
        b == is_space(c),
{
    let u = c as u32;
    (0x9 <= u && u <= 0xd) || u == 0x20 || u == 0x85 || u == 0xa0 || u == 0x1680
        || (0x2000 <= u && u <= 0x200a) || u == 0x2028 || u == 0x2029 || u == 0x202f
        || u == 0x205f || u == 0x3000
}

/// ASCII lowercasing of one character: `A`..`Z` map to `a`..`z`,
/// everything else is unchanged.
pub open spec fn lower_char(c: char) -> char {
    if 'A' <= c && c <= 'Z' {
        ((c as u8) + 32) as char
    } else {
        c
    }
}

pub fn lower_char_exec(c: char) -> (r: char)
    ensures
        r == lower_char(c),
{
    let u = c as u32;
    if 65 <= u && u <= 90 {
        ((u + 32) as u8) as char
    } else {
        c
    }
}

/// Relies on `String::push`: appends the given character to the end
/// of the string.
#[verifier::external_body]
pub fn push_char(s: &mut String, c: char)
    ensures
        final(s)@ == old(s)@.push(c),
{
    s.push(c);
}

/// `s` with every `/` replaced by `\`.
pub open spec fn repl_char(c: char) -> char {
    if c == '/' {
        '\\'
    } else {
        c
    }
}

pub open spec fn repl_seq(s: Seq<char>) -> Seq<char> {
    s.map_values(|c: char| repl_char(c))
}

pub open spec fn lower_seq(s: Seq<char>) -> Seq<char> {
    s.map_values(|c: char| lower_char(c))
}

/// `s` without its leading white space.
pub open spec fn trim_left(s: Seq<char>) -> Seq<char>
    decreases s.len(),
{
    if s.len() > 0 && is_space(s[0]) {
        trim_left(s.drop_first())
    } else {
        s
    }
}

/// `s` without its trailing white space.
pub open spec fn trim_right(s: Seq<char>) -> Seq<char>
    decreases s.len(),
{
    if s.len() > 0 && is_space(s[s.len() - 1]) {
        trim_right(s.drop_last())
    } else {
        s
    }
}

/// `s` without leading and trailing white space.
pub open spec fn trim_seq(s: Seq<char>) -> Seq<char> {
    trim_right(trim_left(s))
}

pub proof fn lemma_trim_left_subrange(s: Seq<char>, i: int)
    requires
        0 <= i <= s.len(),
        forall|k: int| 0 <= k < i ==> is_space(s[k]),
        i < s.len() ==> !is_space(s[i]),
    ensures
        trim_left(s) == s.subrange(i, s.len() as int),
    decreases i,
{
    if i == 0 {
        assert(s.subrange(0, s.len() as int) =~= s);
    } else {
        lemma_trim_left_subrange(s.drop_first(), i - 1);
        assert(s.drop_first().subrange(i - 1, s.drop_first().len() as int) =~= s.subrange(
            i,
            s.len() as int,
        ));
    }
}

pub proof fn lemma_trim_right_subrange(s: Seq<char>, j: int)
    requires
        0 <= j <= s.len(),
        forall|k: int| j <= k < s.len() ==> is_space(s[k]),
        j > 0 ==> !is_space(s[j - 1]),
    ensures
        trim_right(s) == s.subrange(0, j),
    decreases s.len() - j,
{
    if j == s.len() {
        if s.len() > 0 && is_space(s[s.len() - 1]) {
            assert(!is_space(s[j - 1]));
            assert(false);
        }
        assert(s.subrange(0, j) =~= s);
    } else {
        assert(is_space(s[s.len() - 1]));
        lemma_trim_right_subrange(s.drop_last(), j);
        assert(s.drop_last().subrange(0, j) =~= s.subrange(0, j));
    }
}

/// Trims white space from both ends, as `str::trim` does.
pub fn trim_str<'a>(s: &'a str) -> (r: &'a str)
    ensures
        r@ == trim_seq(s@),
{
    let len = s.unicode_len();
    let mut i: usize = 0;
    while i < len && is_space_char(s.get_char(i))
        invariant
            len == s@.len(),
            i <= len,
            forall|k: int| 0 <= k < i ==> is_space(s@[k]),
        decreases len - i,
    {
        i += 1;
    }
    let mut j: usize = len;
    while j > i && is_space_char(s.get_char(j - 1))
        invariant
            len == s@.len(),
            i <= j <= len,
            forall|k: int| j <= k < len ==> is_space(s@[k]),
        decreases j,
    {
        j -= 1;
    }
    proof {
        lemma_trim_left_subrange(s@, i as int);
        let t = s@.subrange(i as int, s@.len() as int);
        lemma_trim_right_subrange(t, j - i);
        assert(t.subrange(0, j - i) =~= s@.subrange(i as int, j as int));
        if j > i {
            assert(t[j - i - 1] == s@[j - 1]);
        }
    }
    s.substring_char(i, j)
}

/// Replaces every forward slash with a backslash.
pub fn replace_slashes(s: &str) -> (r: String)
    ensures
        r@ == repl_seq(s@),
{
    let len = s.unicode_len();
    let mut out = String::new();
    let mut i: usize = 0;
    while i < len
        invariant
            len == s@.len(),
            i <= len,
            out@ == repl_seq(s@.subrange(0, i as int)),
        decreases len - i,
    {
        let c = s.get_char(i);
        let rc = if c == '/' {
            '\\'
        } else {
            c
        };
        push_char(&mut out, rc);
        proof {
            assert(s@.subrange(0, i + 1).drop_last() =~= s@.subrange(0, i as int));
            assert(repl_seq(s@.subrange(0, i + 1)) =~= repl_seq(s@.subrange(0, i as int)).push(
                repl_char(s@[i as int]),
            ));
        }
        i += 1;
    }
    proof {
        assert(s@.subrange(0, len as int) =~= s@);
    }
    out
}

/// ASCII-lowercases the whole string.
pub fn lower_str(s: &str) -> (r: String)
    ensures
        r@ == lower_seq(s@),
{
    let len = s.unicode_len();
    let mut out = String::new();
    let mut i: usize = 0;
    while i < len
        invariant
            len == s@.len(),
            i <= len,
            out@ == lower_seq(s@.subrange(0, i as int)),
        decreases len - i,
    {
        let c = s.get_char(i);
        let lc = lower_char_exec(c);
        push_char(&mut out, lc);
        proof {
            assert(s@.subrange(0, i + 1).drop_last() =~= s@.subrange(0, i as int));
            assert(lower_seq(s@.subrange(0, i + 1)) =~= lower_seq(s@.subrange(0, i as int)).push(
                lower_char(s@[i as int]),
            ));
        }
        i += 1;
    }
    proof {
        assert(s@.subrange(0, len as int) =~= s@);
    }
    out
}

/// True when `n` occurs in `h` starting at position `i`.
pub open spec fn contains_at(h: Seq<char>, n: Seq<char>, i: int) -> bool {
    0 <= i && i + n.len() <= h.len() && h.subrange(i, i + n.len()) == n
}

/// True when `n` occurs somewhere in `h`.
pub open spec fn str_contains(h: Seq<char>, n: Seq<char>) -> bool {
    exists|i: int| contains_at(h, n, i)
}

/// Substring search, as `str::contains` decides it.
pub fn contains_str(hay: &str, needle: &str) -> (r: bool)
    ensures
        r == str_contains(hay@, needle@),
{
    let hlen = hay.unicode_len();
    let nlen = needle.unicode_len();
    if nlen > hlen {
        assert(!str_contains(hay@, needle@)) by {
            assert(forall|i: int| !contains_at(hay@, needle@, i));
        }
        return false;
    }
    if nlen == 0 {
        assert(hay@.subrange(0, 0) =~= needle@);
        assert(contains_at(hay@, needle@, 0));
        return true;
    }
    let mut i: usize = 0;
    while i <= hlen - nlen
        invariant
            hlen == hay@.len(),
            nlen == needle@.len(),
            0 < nlen <= hlen,
            i <= hlen - nlen + 1,
            forall|k: int| 0 <= k < i ==> !contains_at(hay@, needle@, k),
        decreases hlen - nlen + 1 - i,
    {
        let mut j: usize = 0;
        let mut matched = true;
        while j < nlen && matched
            invariant
                hlen == hay@.len(),
                nlen == needle@.len(),
                i + nlen <= hlen,
                j <= nlen,
                matched ==> forall|k: int| 0 <= k < j ==> hay@[i + k] == needle@[k],
                !matched ==> !contains_at(hay@, needle@, i as int),
            decreases nlen - j + (if matched {
                1int
            } else {
                0int
            }),
        {
            if hay.get_char(i + j) != needle.get_char(j) {
                matched = false;
                proof {
                    assert(hay@.subrange(i as int, i + nlen)[j as int] != needle@[j as int]);
                }
                assert(!contains_at(hay@, needle@, i as int));
            } else {
                j += 1;
            }
        }
        if matched {
            assert(j == nlen);
            proof {
                assert(hay@.subrange(i as int, i + nlen) =~= needle@);
                assert(contains_at(hay@, needle@, i as int));
            }
            return true;
        }
        assert(!contains_at(hay@, needle@, i as int));
        i += 1;
    }
    assert(forall|k: int| !#[trigger] contains_at(hay@, needle@, k)) by {
        assert forall|k: int| #[trigger] contains_at(hay@, needle@, k) implies false by {
            assert(0 <= k < i);
        }
    }
    false
}

/// The decimal rendering of `n`, most significant digit first.
pub open spec fn dec_str(n: nat) -> Seq<char>
    decreases n,
{
    if n < 10 {
        seq![((48 + n) as u8) as char]
    } else {
        dec_str(n / 10).push(((48 + n % 10) as u8) as char)
    }
}

/// Writes `n` in decimal, as `format!` renders an unsigned integer.
pub fn dec_string(n: usize) -> (r: String)
    ensures
        r@ == dec_str(n as nat),
    decreases n,
{
    if n < 10 {
        let mut out = String::new();
        push_char(&mut out, ((48 + n as u32) as u8) as char);
        assert(out@ =~= dec_str(n as nat));
        out
    } else {
        let mut out = dec_string(n / 10);
        push_char(&mut out, ((48 + (n % 10) as u32) as u8) as char);
        out
    }
}

/// The fragments joined with a single space between neighbours.
pub open spec fn join_spaced(parts: Seq<Seq<char>>) -> Seq<char>
    decreases parts.len(),
{
    if parts.len() == 0 {
        Seq::empty()
    } else if parts.len() == 1 {
        parts[0]
    } else {
        join_spaced(parts.drop_last()) + seq![' '] + parts.last()
    }
}

/// Character-for-character equality of two string slices.
pub fn str_eq(a: &str, b: &str) -> (r: bool)
    ensures
        r == (a@ == b@),
{
    let alen = a.unicode_len();
    let blen = b.unicode_len();
    if alen != blen {
        assert(a@ != b@) by {
            assert(a@.len() != b@.len());
        }
        return false;
    }
    let mut i: usize = 0;
    while i < alen
        invariant
            alen == a@.len(),
            blen == b@.len(),
            alen == blen,
            i <= alen,
            forall|j: int| 0 <= j < i ==> a@[j] == b@[j],
        decreases alen - i,
    {
        if a.get_char(i) != b.get_char(i) {
            return false;
        }
        i += 1;
    }
    assert(a@ =~= b@);
    true
}

} // verus!
