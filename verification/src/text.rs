//! Character-level helpers shared by the protocol modules.

use vstd::prelude::*;
use vstd::string::*;

verus! {

/// The character of a decimal digit `d` (`0 <= d < 10`).
pub open spec fn digit_char(d: nat) -> char {
    (48 + d) as char
}

/// The decimal representation of `n`, most significant digit first, without
/// sign or leading zeros (`0` is written `"0"`).
pub open spec fn decimal(n: nat) -> Seq<char>
    decreases n,
{
    if n < 10 {
        seq![digit_char(n)]
    } else {
        decimal(n / 10).push(digit_char(n % 10))
    }
}

/// Appends one character to a string (`String::push`).
#[verifier::external_body]
pub(crate) fn push_char(s: &mut String, c: char)
    ensures
        final(s)@ == old(s)@.push(c),
{
    s.push(c);
}

/// Appends the decimal representation of `n` to `out`.
pub fn push_decimal(out: &mut String, n: u64)
    ensures
        final(out)@ == old(out)@ + decimal(n as nat),
    decreases n,
{
    if n >= 10 {
        push_decimal(out, n / 10);
    }
    let d: u8 = (n % 10) as u8;
    let c: char = (48u8 + d) as char;
    let ghost before = out@;
    push_char(out, c);
    assert(out@ =~= old(out)@ + decimal(n as nat));
}


/// Whether `pat` occurs in `u` starting at index `i`.
pub open spec fn occurs_at(u: Seq<char>, pat: Seq<char>, i: int) -> bool {
    &&& 0 <= i
    &&& i + pat.len() <= u.len()
    &&& u.subrange(i, i + pat.len()) == pat
}

/// The first index `>= from` at which `pat` occurs in `u`, if any.
pub open spec fn find_from(u: Seq<char>, pat: Seq<char>, from: int) -> Option<int>
    decreases u.len() + 1 - from,
{
    if from < 0 || from + pat.len() > u.len() {
        None
    } else if occurs_at(u, pat, from) {
        Some(from)
    } else {
        find_from(u, pat, from + 1)
    }
}

/// Whether `u` begins with `pat`.
pub open spec fn has_prefix(u: Seq<char>, pat: Seq<char>) -> bool {
    pat.len() <= u.len() && u.subrange(0, pat.len() as int) == pat
}

/// What a successful search tells about the index it found.
pub proof fn lemma_find_from_found(u: Seq<char>, pat: Seq<char>, from: int)
    requires
        find_from(u, pat, from) is Some,
    ensures
        from <= find_from(u, pat, from)->0,
        occurs_at(u, pat, find_from(u, pat, from)->0),
        forall|j: int| from <= j < find_from(u, pat, from)->0 ==> !occurs_at(u, pat, j),
    decreases u.len() + 1 - from,
{
    if from < 0 || from + pat.len() > u.len() {
    } else if occurs_at(u, pat, from) {
    } else {
        lemma_find_from_found(u, pat, from + 1);
    }
}

/// A failed search rules out every index from where it started.
pub proof fn lemma_find_from_none(u: Seq<char>, pat: Seq<char>, from: int, j: int)
    requires
        0 <= from <= j,
        find_from(u, pat, from) is None,
    ensures
        !occurs_at(u, pat, j),
    decreases j - from,
{
    if from + pat.len() > u.len() {
    } else if j > from {
        lemma_find_from_none(u, pat, from + 1, j);
    }
}

/// The search finds the first index at which the pattern occurs.
pub proof fn lemma_find_from_first(u: Seq<char>, pat: Seq<char>, from: int, k: int)
    requires
        0 <= from <= k,
        occurs_at(u, pat, k),
        forall|j: int| from <= j < k ==> !occurs_at(u, pat, j),
    ensures
        find_from(u, pat, from) == Some(k),
    decreases k - from,
{
    if from < k {
        lemma_find_from_first(u, pat, from + 1, k);
    }
}

/// Occurrences that lie inside `u` are the same in any extension of `u`.
pub proof fn lemma_occurs_in_extension(u: Seq<char>, w: Seq<char>, pat: Seq<char>, j: int)
    requires
        0 <= j,
        j + pat.len() <= u.len(),
    ensures
        occurs_at(u + w, pat, j) == occurs_at(u, pat, j),
{
    assert((u + w).subrange(j, j + pat.len()) =~= u.subrange(j, j + pat.len()));
}

/// The characters of a string slice.
pub fn chars_of(s: &str) -> (res: Vec<char>)
    ensures
        res@ == s@,
{
    let n: usize = s.unicode_len();
    let mut res: Vec<char> = Vec::new();
    let mut i: usize = 0;
    while i < n
        invariant
            n == s@.len(),
            i <= n,
            res@ == s@.subrange(0, i as int),
        decreases n - i,
    {
        res.push(s.get_char(i));
        i = i + 1;
        assert(res@ =~= s@.subrange(0, i as int));
    }
    assert(res@ =~= s@);
    res
}

/// The string made of the characters `v[from..]`, appended to `out`.
pub fn push_chars_from(out: &mut String, v: &Vec<char>, from: usize)
    requires
        from <= v@.len(),
    ensures
        final(out)@ == old(out)@ + v@.subrange(from as int, v@.len() as int),
{
    let mut i: usize = from;
    while i < v.len()
        invariant
            from <= i <= v@.len(),
            out@ == old(out)@ + v@.subrange(from as int, i as int),
        decreases v@.len() - i,
    {
        push_char(out, v[i]);
        i = i + 1;
        assert(out@ =~= old(out)@ + v@.subrange(from as int, i as int));
    }
}

/// The string made of the characters of `v`.
pub fn string_of(v: &Vec<char>) -> (res: String)
    ensures
        res@ == v@,
{
    let mut res = String::new();
    push_chars_from(&mut res, v, 0);
    assert(res@ =~= v@);
    res
}

/// Whether `pat` occurs in `u` at index `i` (computed).
pub fn occurs_at_exec(u: &Vec<char>, pat: &Vec<char>, i: usize) -> (res: bool)
    ensures
        res == occurs_at(u@, pat@, i as int),
{
    if pat.len() > u.len() || i > u.len() - pat.len() {
        return false;
    }
    let ulen: usize = u.len();
    let mut k: usize = 0;
    while k < pat.len()
        invariant
            ulen == u@.len(),
            i <= u@.len(),
            i + pat@.len() <= u@.len(),
            k <= pat@.len(),
            forall|j: int| 0 <= j < k ==> u@[i + j] == pat@[j],
        decreases pat@.len() - k,
    {
        if u[i + k] != pat[k] {
            assert(u@.subrange(i as int, i + pat@.len())[k as int] != pat@[k as int]);
            return false;
        }
        k = k + 1;
    }
    assert(u@.subrange(i as int, i + pat@.len()) =~= pat@);
    true
}

/// The first index `>= from` at which `pat` occurs in `u` (`str::find`).
pub fn find_exec(u: &Vec<char>, pat: &Vec<char>, from: usize) -> (res: Option<usize>)
    ensures
        match res {
            Some(i) => find_from(u@, pat@, from as int) == Some(i as int),
            None => find_from(u@, pat@, from as int) is None,
        },
{
    let mut i: usize = from;
    loop
        invariant
            from <= i,
            find_from(u@, pat@, from as int) == find_from(u@, pat@, i as int),
        decreases u@.len() + 1 - i,
    {
        if pat.len() > u.len() || i > u.len() - pat.len() {
            return None;
        }
        if occurs_at_exec(u, pat, i) {
            return Some(i);
        }
        proof {
            if pat@.len() == 0 {
                assert(u@.subrange(i as int, i as int) =~= pat@);
            }
        }
        i = i + 1;
    }
}

/// Appends the characters `src[from..]` to `dst`.
pub fn extend_from(dst: &mut Vec<char>, src: &Vec<char>, from: usize)
    requires
        from <= src@.len(),
    ensures
        final(dst)@ == old(dst)@ + src@.subrange(from as int, src@.len() as int),
{
    let mut i: usize = from;
    while i < src.len()
        invariant
            from <= i <= src@.len(),
            dst@ == old(dst)@ + src@.subrange(from as int, i as int),
        decreases src@.len() - i,
    {
        dst.push(src[i]);
        i = i + 1;
        assert(dst@ =~= old(dst)@ + src@.subrange(from as int, i as int));
    }
}

/// Whether `u` begins with `pat` (computed).
pub fn has_prefix_exec(u: &Vec<char>, pat: &Vec<char>) -> (res: bool)
    ensures
        res == has_prefix(u@, pat@),
{
    occurs_at_exec(u, pat, 0)
}

} // verus!
