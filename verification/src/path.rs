use vstd::prelude::*;
use vstd::string::*;
use crate::chars::{
    is_space, lower_char, lower_seq, lower_str, repl_char, repl_seq, replace_slashes, trim_left,
    trim_right, trim_seq, trim_str,
};

verus! {

/// The Windows long-path prefix `\\?\`.
pub open spec fn long_prefix() -> Seq<char> {
    seq!['\\', '\\', '?', '\\']
}

pub open spec fn has_long_prefix(s: Seq<char>) -> bool {
    s.len() >= 4 && s[0] == '\\' && s[1] == '\\' && s[2] == '?' && s[3] == '\\'
}

pub open spec fn strip_long_prefix(s: Seq<char>) -> Seq<char> {
    if has_long_prefix(s) {
        s.subrange(4, s.len() as int)
    } else {
        s
    }
}

/// The canonical form of a workspace path: surrounding white space
/// trimmed, forward slashes turned into backslashes, a leading `\\?\`
/// removed, and everything ASCII-lowercased, in that order.
pub open spec fn norm_path(s: Seq<char>) -> Seq<char> {
    lower_seq(strip_long_prefix(repl_seq(trim_seq(s))))
}

/// Canonicalizes a workspace path string for equality comparison
/// across separator and case conventions.
pub fn normalize_windows_path(path: &str) -> (r: String)
    ensures
        r@ == norm_path(path@),
{
    let trimmed = trim_str(path);
    let rep = replace_slashes(trimmed);
    let rs = rep.as_str();
    let rlen = rs.unicode_len();
    let stripped: &str = if rlen >= 4 && rs.get_char(0) == '\\' && rs.get_char(1) == '\\'
        && rs.get_char(2) == '?' && rs.get_char(3) == '\\' {
        rs.substring_char(4, rlen)
    } else {
        rs
    };
    assert(stripped@ == strip_long_prefix(rep@));
    lower_str(stripped)
}

proof fn lemma_trim_left_first(s: Seq<char>)
    ensures
        trim_left(s).len() > 0 ==> !is_space(trim_left(s)[0]),
    decreases s.len(),
{
    if s.len() > 0 && is_space(s[0]) {
        lemma_trim_left_first(s.drop_first());
    }
}

proof fn lemma_trim_right_last(s: Seq<char>)
    ensures
        trim_right(s).len() > 0 ==> !is_space(trim_right(s).last()),
    decreases s.len(),
{
    if s.len() > 0 && is_space(s[s.len() - 1]) {
        lemma_trim_right_last(s.drop_last());
    }
}

proof fn lemma_trim_right_first(s: Seq<char>)
    ensures
        trim_right(s).len() > 0 ==> trim_right(s)[0] == s[0],
    decreases s.len(),
{
    if s.len() > 0 && is_space(s[s.len() - 1]) {
        lemma_trim_right_first(s.drop_last());
    }
}

/// A trimmed string starts and ends with something other than white
/// space.
proof fn lemma_trim_edges(s: Seq<char>)
    ensures
        trim_seq(s).len() > 0 ==> !is_space(trim_seq(s)[0]),
        trim_seq(s).len() > 0 ==> !is_space(trim_seq(s).last()),
{
    let u = trim_left(s);
    lemma_trim_left_first(s);
    lemma_trim_right_last(u);
    lemma_trim_right_first(u);
}

/// Trimming does nothing when both edges are already clean.
proof fn lemma_trim_noop(s: Seq<char>)
    requires
        s.len() > 0 ==> !is_space(s[0]),
        s.len() > 0 ==> !is_space(s.last()),
    ensures
        trim_seq(s) == s,
{
    assert(trim_left(s) == s);
    assert(trim_right(s) == s);
}

/// Trimming commutes with a character map that keeps the white-space
/// status of every character.
proof fn lemma_trim_left_map(s: Seq<char>, f: spec_fn(char) -> char)
    requires
        forall|c: char| is_space(#[trigger] f(c)) == is_space(c),
    ensures
        trim_left(s.map_values(f)) == trim_left(s).map_values(f),
    decreases s.len(),
{
    let m = s.map_values(f);
    if s.len() > 0 && is_space(s[0]) {
        lemma_trim_left_map(s.drop_first(), f);
        assert(m.drop_first() =~= s.drop_first().map_values(f));
    } else {
        if s.len() > 0 {
            assert(!is_space(m[0]));
        }
    }
}

proof fn lemma_trim_right_map(s: Seq<char>, f: spec_fn(char) -> char)
    requires
        forall|c: char| is_space(#[trigger] f(c)) == is_space(c),
    ensures
        trim_right(s.map_values(f)) == trim_right(s).map_values(f),
    decreases s.len(),
{
    let m = s.map_values(f);
    if s.len() > 0 && is_space(s[s.len() - 1]) {
        lemma_trim_right_map(s.drop_last(), f);
        assert(m.drop_last() =~= s.drop_last().map_values(f));
    } else {
        if s.len() > 0 {
            assert(!is_space(m[m.len() - 1]));
        }
    }
}

proof fn lemma_trim_map(s: Seq<char>, f: spec_fn(char) -> char)
    requires
        forall|c: char| is_space(#[trigger] f(c)) == is_space(c),
    ensures
        trim_seq(s.map_values(f)) == trim_seq(s).map_values(f),
{
    lemma_trim_left_map(s, f);
    lemma_trim_right_map(trim_left(s), f);
}

proof fn lemma_space_preserved()
    ensures
        forall|c: char| is_space(#[trigger] repl_char(c)) == is_space(c),
        forall|c: char| is_space(#[trigger] lower_char(c)) == is_space(c),
{
}

/// Stripping the long-path prefix commutes with lowercasing.
proof fn lemma_strip_lower(s: Seq<char>)
    ensures
        strip_long_prefix(lower_seq(s)) == lower_seq(strip_long_prefix(s)),
{
    let m = lower_seq(s);
    assert(has_long_prefix(m) == has_long_prefix(s));
    if has_long_prefix(s) {
        assert(m.subrange(4, m.len() as int) =~= lower_seq(s.subrange(4, s.len() as int)));
    }
}

proof fn lemma_lower_repl_comm(s: Seq<char>)
    ensures
        lower_seq(repl_seq(s)) == repl_seq(lower_seq(s)),
{
    assert(lower_seq(repl_seq(s)) =~= repl_seq(lower_seq(s)));
}

/// Normalization is idempotent, as long as the normalized form does
/// not itself begin with white space or another long-path prefix
/// (which only adversarial inputs such as `\\?\ x` or `\\?\\\?\x`
/// produce).
pub proof fn lemma_normalize_idempotent(s: Seq<char>)
    requires
        !has_long_prefix(norm_path(s)),
        norm_path(s).len() > 0 ==> !is_space(norm_path(s)[0]),
    ensures
        norm_path(norm_path(s)) == norm_path(s),
{
    let t0 = trim_seq(s);
    let t1 = repl_seq(t0);
    let t2 = strip_long_prefix(t1);
    let t = lower_seq(t2);
    lemma_trim_edges(s);
    // the last character of t keeps the white-space status of t0's last
    if t.len() > 0 {
        if has_long_prefix(t1) {
            assert(t2.last() == t1.last());
        }
        assert(t1.last() == repl_char(t0.last()));
        assert(t.last() == lower_char(t2.last()));
        assert(!is_space(t.last()));
    }
    lemma_trim_noop(t);
    // t holds no forward slash, so replacing slashes does nothing
    assert(repl_seq(t) =~= t) by {
        assert forall|i: int| 0 <= i < t.len() implies repl_char(t[i]) == t[i] by {
            assert(t[i] == lower_char(t2[i]));
            if has_long_prefix(t1) {
                assert(t2[i] == t1[i + 4]);
            }
        }
    }
    assert(strip_long_prefix(t) == t);
    // t is already lowercase
    assert(lower_seq(t) =~= t) by {
        assert forall|i: int| 0 <= i < t.len() implies lower_char(t[i]) == t[i] by {
            assert(t[i] == lower_char(t2[i]));
        }
    }
}

/// Two paths that agree once their forward slashes are turned into
/// backslashes normalize to the same canonical form.
pub proof fn lemma_normalize_slash_insensitive(a: Seq<char>, b: Seq<char>)
    requires
        repl_seq(a) == repl_seq(b),
    ensures
        norm_path(a) == norm_path(b),
{
    lemma_space_preserved();
    lemma_trim_map(a, |c: char| repl_char(c));
    lemma_trim_map(b, |c: char| repl_char(c));
    assert(repl_seq(trim_seq(a)) =~= trim_seq(a).map_values(|c: char| repl_char(c)));
    assert(repl_seq(trim_seq(b)) =~= trim_seq(b).map_values(|c: char| repl_char(c)));
    assert(trim_left(a.map_values(|c: char| repl_char(c))) == trim_left(
        b.map_values(|c: char| repl_char(c)),
    )) by {
        assert(a.map_values(|c: char| repl_char(c)) =~= repl_seq(a));
        assert(b.map_values(|c: char| repl_char(c)) =~= repl_seq(b));
    }
    assert(trim_seq(a.map_values(|c: char| repl_char(c))) == trim_seq(
        b.map_values(|c: char| repl_char(c)),
    )) by {
        assert(a.map_values(|c: char| repl_char(c)) =~= repl_seq(a));
        assert(b.map_values(|c: char| repl_char(c)) =~= repl_seq(b));
    }
    assert(repl_seq(trim_seq(a)) == repl_seq(trim_seq(b)));
}

/// Two paths that agree once lowercased normalize to the same
/// canonical form.
pub proof fn lemma_normalize_case_insensitive(a: Seq<char>, b: Seq<char>)
    requires
        lower_seq(a) == lower_seq(b),
    ensures
        norm_path(a) == norm_path(b),
{
    lemma_space_preserved();
    lemma_push_lower_inside(a);
    lemma_push_lower_inside(b);
}

/// `norm_path(s)` equals the same pipeline run on the lowercased
/// input, which lets case differences be discharged up front.
proof fn lemma_push_lower_inside(s: Seq<char>)
    ensures
        norm_path(s) == strip_long_prefix(repl_seq(trim_seq(lower_seq(s)))),
{
    lemma_space_preserved();
    lemma_strip_lower(repl_seq(trim_seq(s)));
    lemma_lower_repl_comm(trim_seq(s));
    lemma_trim_map(s, |c: char| lower_char(c));
    assert(trim_seq(s).map_values(|c: char| lower_char(c)) =~= lower_seq(trim_seq(s)));
    assert(trim_seq(lower_seq(s)) == lower_seq(trim_seq(s))) by {
        assert(s.map_values(|c: char| lower_char(c)) =~= lower_seq(s));
    }
    assert(repl_seq(lower_seq(trim_seq(s))) =~= lower_seq(repl_seq(trim_seq(s))));
}

/// Prepending the long-path prefix to a clean path does not change
/// its canonical form.
pub proof fn lemma_normalize_strips_long_prefix(a: Seq<char>)
    requires
        trim_seq(a) == a,
        !has_long_prefix(repl_seq(a)),
    ensures
        norm_path(long_prefix() + a) == norm_path(a),
{
    let p = long_prefix();
    let b = p + a;
    lemma_trim_edges(a);
    assert(b[0] == '\\');
    if a.len() > 0 {
        assert(b.last() == a.last());
    } else {
        assert(b.last() == '\\');
    }
    lemma_trim_noop(b);
    assert(repl_seq(b) =~= p + repl_seq(a));
    assert(has_long_prefix(p + repl_seq(a))) by {
        assert((p + repl_seq(a))[0] == '\\');
        assert((p + repl_seq(a))[1] == '\\');
        assert((p + repl_seq(a))[2] == '?');
        assert((p + repl_seq(a))[3] == '\\');
    }
    assert(strip_long_prefix(p + repl_seq(a)) =~= repl_seq(a));
    assert(norm_path(a) == lower_seq(repl_seq(a)));
}

} // verus!
