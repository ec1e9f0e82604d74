//! Plain-text helpers for file identity: the base name of a path, the file
//! extension, and parsing a page number from a command-line argument.

use vstd::prelude::*;

verus! {

/// Index of the last occurrence of `c` in `s`, or -1 if `s` does not contain it.
pub open spec fn last_index_of(s: Seq<char>, c: char) -> int
    decreases s.len(),
{
    if s.len() == 0 {
        -1
    } else if s.last() == c {
        s.len() - 1
    } else {
        last_index_of(s.drop_last(), c)
    }
}

/// `last_index_of` points at the last occurrence: the character there is `c`
/// and no later character is.
pub proof fn lemma_last_index_of(s: Seq<char>, c: char)
    ensures
        -1 <= last_index_of(s, c) < s.len(),
        last_index_of(s, c) >= 0 ==> s[last_index_of(s, c)] == c,
        forall|j: int| last_index_of(s, c) < j < s.len() ==> s[j] != c,
    decreases s.len(),
{
    if s.len() > 0 && s.last() != c {
        lemma_last_index_of(s.drop_last(), c);
        assert(forall|j: int| 0 <= j < s.len() - 1 ==> s[j] == s.drop_last()[j]);
    }
}

/// The base name of a path: everything after the last `/`, or the whole
/// path when it has no `/`. This is the identity key of the progress table.
pub open spec fn spec_base_name(s: Seq<char>) -> Seq<char> {
    s.subrange(last_index_of(s, '/') + 1, s.len() as int)
}

/// Returns the base name of `path` (the part after the last `/`).
pub fn base_name(path: &str) -> (r: String)
    ensures
        r@ == spec_base_name(path@),
{
    let n = path.unicode_len();
    let mut cut: usize = 0;
    let mut i: usize = 0;
    while i < n
        invariant
            i <= n,
            n == path@.len(),
            cut <= i,
            cut > 0 ==> path@[cut - 1] == '/',
            forall|j: int| cut <= j < i ==> path@[j] != '/',
        decreases n - i,
    {
        if path.get_char(i) == '/' {
            cut = i + 1;
        }
        i = i + 1;
    }
    proof {
        lemma_last_index_of(path@, '/');
        assert(last_index_of(path@, '/') == cut - 1);
    }
    let tail = path.substring_char(cut, n);
    tail.to_owned()
}

/// The extension of a path: the part of the base name after its last `.`,
/// or nothing when the base name has no `.` past its first character.
pub open spec fn spec_extension(s: Seq<char>) -> Option<Seq<char>> {
    let b = spec_base_name(s);
    let i = last_index_of(b, '.');
    if i <= 0 {
        Option::None
    } else {
        Option::Some(b.subrange(i + 1, b.len() as int))
    }
}

/// Returns the extension of `path`, used to decide whether a dropped or
/// requested file is a document the reader can open.
pub fn extension_of(path: &str) -> (r: Option<String>)
    ensures
        ({
            let e = spec_extension(path@);
            match r {
                Option::Some(x) => e == Option::Some(x@),
                Option::None => e is None,
            }
        }),
{
    let base = base_name(path);
    let b = base.as_str();
    let n = b.unicode_len();
    let mut cut: usize = 0;
    let mut i: usize = 0;
    while i < n
        invariant
            i <= n,
            n == b@.len(),
            cut <= i,
            cut > 0 ==> b@[cut - 1] == '.',
            forall|j: int| cut <= j < i ==> b@[j] != '.',
        decreases n - i,
    {
        if b.get_char(i) == '.' {
            cut = i + 1;
        }
        i = i + 1;
    }
    proof {
        lemma_last_index_of(b@, '.');
        assert(last_index_of(b@, '.') == cut - 1);
    }
    if cut <= 1 {
        Option::None
    } else {
        let tail = b.substring_char(cut, n);
        Option::Some(tail.to_owned())
    }
}

/// `s` with every occurrence of `pat` struck out, scanning left to right
/// and never matching across a removal.
pub open spec fn spec_remove_all(s: Seq<char>, pat: Seq<char>) -> Seq<char>
    decreases s.len(),
{
    if pat.len() == 0 || s.len() < pat.len() {
        s
    } else if s.take(pat.len() as int) == pat {
        spec_remove_all(s.skip(pat.len() as int), pat)
    } else {
        seq![s[0]] + spec_remove_all(s.skip(1), pat)
    }
}

/// Whether `pat` occurs in `s` starting at position `i`.
fn starts_with_at(s: &str, pat: &str, i: usize) -> (r: bool)
    requires
        i + pat@.len() <= s@.len(),
    ensures
        r == (s@.subrange(i as int, i + pat@.len()) == pat@),
{
    let n = s.unicode_len();
    let m = pat.unicode_len();
    let mut j: usize = 0;
    while j < m
        invariant
            j <= m,
            n == s@.len(),
            m == pat@.len(),
            i + m <= n,
            forall|k: int| 0 <= k < j ==> s@[i + k] == pat@[k],
        decreases m - j,
    {
        if s.get_char(i + j) != pat.get_char(j) {
            proof {
                assert(s@.subrange(i as int, i + pat@.len())[j as int] != pat@[j as int]);
            }
            return false;
        }
        j = j + 1;
    }
    proof {
        assert(s@.subrange(i as int, i + pat@.len()) =~= pat@);
    }
    true
}

/// Returns `s` with every occurrence of `pat` removed.
pub fn remove_all(s: &str, pat: &str) -> (r: String)
    requires
        pat@.len() > 0,
    ensures
        r@ == spec_remove_all(s@, pat@),
{
    let n = s.unicode_len();
    let m = pat.unicode_len();
    let mut out = String::new();
    let mut i: usize = 0;
    proof {
        assert(s@.skip(0) =~= s@);
        assert(out@ + spec_remove_all(s@, pat@) =~= spec_remove_all(s@, pat@));
    }
    while i < n
        invariant
            i <= n,
            n == s@.len(),
            m == pat@.len(),
            m > 0,
            spec_remove_all(s@, pat@) == out@ + spec_remove_all(s@.skip(i as int), pat@),
        decreases n - i,
    {
        if n - i >= m && starts_with_at(s, pat, i) {
            proof {
                assert(s@.skip(i as int).take(m as int) =~= s@.subrange(i as int, i + m));
                assert(s@.skip(i as int).skip(m as int) =~= s@.skip(i + m));
            }
            i = i + m;
        } else {
            let c = s.substring_char(i, i + 1);
            out.append(c);
            proof {
                let tail = s@.skip(i as int);
                if n - i >= m {
                    assert(tail.take(m as int) =~= s@.subrange(i as int, i + m));
                    assert(tail.take(m as int) != pat@);
                }
                assert(tail[0] == s@[i as int]);
                assert(c@ =~= seq![tail[0]]);
                assert(tail.skip(1) =~= s@.skip(i + 1));
                assert(out@ + spec_remove_all(s@.skip(i + 1), pat@) =~= spec_remove_all(
                    s@,
                    pat@,
                ));
            }
            i = i + 1;
        }
    }
    proof {
        assert(s@.skip(n as int).len() == 0);
        assert(out@ + spec_remove_all(s@.skip(n as int), pat@) =~= out@);
    }
    out
}

/// Prettifies a chapter's resource path for display by striking the
/// container directories out of it, the way the reader header shows it.
pub fn chapter_file_name(resource_path: &str) -> (r: String)
    ensures
        r@ == spec_remove_all(spec_remove_all(resource_path@, "EPUB/"@), "OEBPS/"@),
{
    proof {
        reveal_strlit("EPUB/");
        reveal_strlit("OEBPS/");
    }
    let once = remove_all(resource_path, "EPUB/");
    remove_all(once.as_str(), "OEBPS/")
}

/// Whether two string slices hold the same characters.
pub fn str_eq(a: &str, b: &str) -> (r: bool)
    ensures
        r == (a@ == b@),
{
    let n = a.unicode_len();
    let m = b.unicode_len();
    if n != m {
        return false;
    }
    let mut i: usize = 0;
    while i < n
        invariant
            i <= n,
            n == a@.len(),
            n == b@.len(),
            forall|j: int| 0 <= j < i ==> a@[j] == b@[j],
        decreases n - i,
    {
        if a.get_char(i) != b.get_char(i) {
            return false;
        }
        i = i + 1;
    }
    proof {
        assert(a@ =~= b@);
    }
    true
}

/// Whether every character of `s` is a decimal digit.
pub open spec fn is_digits(s: Seq<char>) -> bool {
    forall|j: int| 0 <= j < s.len() ==> 48 <= #[trigger] (s[j] as u32) <= 57
}

/// The number written in decimal by `s`, read most significant digit first.
pub open spec fn digits_value(s: Seq<char>) -> int
    decreases s.len(),
{
    if s.len() == 0 {
        0
    } else {
        digits_value(s.drop_last()) * 10 + (s.last() as u32 - 48)
    }
}

/// A string of digits denotes a non-negative number.
pub proof fn lemma_digits_value_nonneg(s: Seq<char>)
    requires
        is_digits(s),
    ensures
        digits_value(s) >= 0,
    decreases s.len(),
{
    if s.len() > 0 {
        assert(is_digits(s.drop_last()));
        lemma_digits_value_nonneg(s.drop_last());
    }
}

/// Reading more digits never decreases the denoted number.
pub proof fn lemma_digits_value_prefix(s: Seq<char>, k: int)
    requires
        is_digits(s),
        0 <= k <= s.len(),
    ensures
        digits_value(s.take(k)) <= digits_value(s),
    decreases s.len(),
{
    if k < s.len() {
        assert(is_digits(s.drop_last()));
        assert(s.take(k) =~= s.drop_last().take(k));
        lemma_digits_value_prefix(s.drop_last(), k);
        lemma_digits_value_nonneg(s.drop_last());
    } else {
        assert(s.take(k) =~= s);
    }
}

/// Parses a page number given on the command line. A non-empty string of
/// digits whose value fits in `usize` yields that value; anything else
/// falls back to page 1, as the command-line surface always has.
pub fn parse_page_number(s: &str) -> (r: usize)
    ensures
        ({
            let v = digits_value(s@);
            if s@.len() > 0 && is_digits(s@) && v <= usize::MAX {
                r == v
            } else {
                r == 1
            }
        }),
{
    let n = s.unicode_len();
    if n == 0 {
        return 1;
    }
    let mut val: usize = 0;
    let mut i: usize = 0;
    while i < n
        invariant
            i <= n,
            n == s@.len(),
            is_digits(s@.take(i as int)),
            val == digits_value(s@.take(i as int)),
        decreases n - i,
    {
        let c = s.get_char(i);
        let u: u32 = c as u32;
        if u < 48 || u > 57 {
            assert(!is_digits(s@));
            return 1;
        }
        let d: usize = (u - 48) as usize;
        proof {
            assert(s@.take(i + 1).drop_last() =~= s@.take(i as int));
            assert(s@.take(i + 1).last() == s@[i as int]);
        }
        let scaled = match val.checked_mul(10) {
            Option::Some(v) => v,
            Option::None => {
                proof {
                    overflow_means_fallback(s@, i as int, val, d);
                }
                return 1;
            },
        };
        val = match scaled.checked_add(d) {
            Option::Some(v) => v,
            Option::None => {
                proof {
                    overflow_means_fallback(s@, i as int, val, d);
                }
                return 1;
            },
        };
        i = i + 1;
    }
    proof {
        assert(s@.take(n as int) =~= s@);
    }
    val
}

/// If the digits read so far already exceed `usize`, the whole string does too.
proof fn overflow_means_fallback(s: Seq<char>, i: int, val: usize, d: usize)
    requires
        0 <= i < s.len(),
        is_digits(s.take(i)),
        val == digits_value(s.take(i)),
        48 <= s[i] as u32 <= 57,
        d == s[i] as u32 - 48,
        val * 10 + d > usize::MAX,
    ensures
        is_digits(s) ==> digits_value(s) > usize::MAX,
{
    if is_digits(s) {
        assert(s.take(i + 1).drop_last() =~= s.take(i));
        assert(s.take(i + 1).last() == s[i]);
        assert(digits_value(s.take(i + 1)) == val * 10 + d);
        lemma_digits_value_prefix(s, i + 1);
    }
}

} // verus!
