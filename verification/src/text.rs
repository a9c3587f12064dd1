//! Character-level helpers on string views: copying, comparing, searching
//! and splitting, each specified over `Seq<char>`.

use vstd::prelude::*;
use vstd::utf8::{decode_utf8, encode_utf8, valid_utf8};

verus! {

broadcast use vstd::string::group_string_axioms;

/// Whether `pat` occurs in `s` at position `i`.
pub open spec fn occurs_at(s: Seq<char>, pat: Seq<char>, i: int) -> bool {
    0 <= i && i + pat.len() <= s.len() && s.subrange(i, i + pat.len()) =~= pat
}

/// The first position at or after `start` where `pat` occurs in `s`.
pub open spec fn find_from(s: Seq<char>, pat: Seq<char>, start: int) -> Option<int>
    decreases s.len() - start,
{
    if start < 0 || start + pat.len() > s.len() {
        None
    } else if occurs_at(s, pat, start) {
        Some(start)
    } else {
        find_from(s, pat, start + 1)
    }
}

/// The first position where `pat` occurs in `s`.
pub open spec fn find(s: Seq<char>, pat: Seq<char>) -> Option<int> {
    find_from(s, pat, 0)
}

/// What `str::split_once` gives: the text before the first occurrence of
/// `pat` and the text after it.
pub open spec fn split_once(s: Seq<char>, pat: Seq<char>) -> Option<(Seq<char>, Seq<char>)> {
    match find(s, pat) {
        Some(i) => Some((s.take(i), s.skip(i + pat.len()))),
        None => None,
    }
}

/// The last position where `c` occurs in `s`.
pub open spec fn rfind_char(s: Seq<char>, c: char) -> Option<int>
    decreases s.len(),
{
    if s.len() == 0 {
        None
    } else if s.last() == c {
        Some(s.len() - 1)
    } else {
        rfind_char(s.drop_last(), c)
    }
}

/// The pieces of `s[start..]` between the `sep` characters, as `str::split`
/// gives them.
pub open spec fn split_from(s: Seq<char>, sep: char, start: int) -> Seq<Seq<char>>
    decreases s.len() - start,
{
    if start < 0 || start > s.len() {
        seq![]
    } else {
        match find_from(s, seq![sep], start) {
            Some(i) => {
                proof {
                    lemma_find_from_bounds(s, seq![sep], start);
                }
                seq![s.subrange(start, i)] + split_from(s, sep, i + 1)
            },
            None => seq![s.subrange(start, s.len() as int)],
        }
    }
}

/// The pieces of `s` between the `sep` characters, as `str::split` gives them.
pub open spec fn split(s: Seq<char>, sep: char) -> Seq<Seq<char>> {
    split_from(s, sep, 0)
}

pub proof fn lemma_find_from_bounds(s: Seq<char>, pat: Seq<char>, start: int)
    requires
        0 <= start,
    ensures
        find_from(s, pat, start) matches Some(i) ==> start <= i && occurs_at(s, pat, i) && (
        forall|j: int| start <= j < i ==> !occurs_at(s, pat, j)),
        find_from(s, pat, start) is None ==> forall|j: int|
            start <= j ==> !occurs_at(s, pat, j),
    decreases s.len() - start,
{
    if start < 0 || start + pat.len() > s.len() {
    } else if occurs_at(s, pat, start) {
    } else {
        lemma_find_from_bounds(s, pat, start + 1);
    }
}

pub proof fn lemma_rfind_char(s: Seq<char>, c: char)
    ensures
        rfind_char(s, c) matches Some(i) ==> 0 <= i < s.len() && s[i] == c && forall|j: int|
            i < j < s.len() ==> s[j] != c,
        rfind_char(s, c) is None ==> forall|j: int| 0 <= j < s.len() ==> s[j] != c,
    decreases s.len(),
{
    if s.len() > 0 && s.last() != c {
        lemma_rfind_char(s.drop_last(), c);
        assert forall|j: int| 0 <= j < s.len() - 1 implies s[j] == s.drop_last()[j] by {}
    }
}

proof fn lemma_find_from_skip(s: Seq<char>, pat: Seq<char>, k: int, j: int)
    requires
        0 <= k <= s.len(),
        0 <= j,
    ensures
        find_from(s.skip(k), pat, j) == match find_from(s, pat, j + k) {
            Some(i) => Some(i - k),
            None => None::<int>,
        },
    decreases s.len() - k - j,
{
    if j + pat.len() <= s.len() - k {
        assert(s.skip(k).subrange(j, j + pat.len()) =~= s.subrange(j + k, j + k + pat.len()));
        if !occurs_at(s, pat, j + k) {
            lemma_find_from_skip(s, pat, k, j + 1);
        }
    }
}

proof fn lemma_find_pair_after(x: Seq<char>, c: char, a: Seq<char>, start: int)
    requires
        0 <= start <= x.len(),
        forall|i: int| 0 <= i < x.len() ==> x[i] != c,
    ensures
        find_from(x + seq![c, c] + a, seq![c, c], start) == Some(x.len() as int),
    decreases x.len() - start,
{
    let s = x + seq![c, c] + a;
    if start < x.len() {
        assert(s[start] == x[start]);
        assert(s.subrange(start, start + 2)[0] == s[start]);
        lemma_find_pair_after(x, c, a, start + 1);
    } else {
        assert(s.subrange(start, start + 2) =~= seq![c, c]);
    }
}

/// Splitting `x`, the pair `cc` and `a` once at `cc` gives `x` and `a`
/// back, when `x` holds no `c`.
pub proof fn lemma_split_once_pair(x: Seq<char>, c: char, a: Seq<char>)
    requires
        forall|i: int| 0 <= i < x.len() ==> x[i] != c,
    ensures
        split_once(x + seq![c, c] + a, seq![c, c]) == Some((x, a)),
{
    lemma_find_pair_after(x, c, a, 0);
    let s = x + seq![c, c] + a;
    assert(s.take(x.len() as int) =~= x);
    assert(s.skip(x.len() + 2int) =~= a);
}

/// The last `c` of `x + y` is the last one of `y`, or else the last one of `x`.
pub proof fn lemma_rfind_char_concat(x: Seq<char>, y: Seq<char>, c: char)
    ensures
        rfind_char(x + y, c) == match rfind_char(y, c) {
            Some(j) => Some(x.len() + j),
            None => rfind_char(x, c),
        },
    decreases y.len(),
{
    if y.len() == 0 {
        assert(x + y =~= x);
    } else {
        assert((x + y).drop_last() =~= x + y.drop_last());
        lemma_rfind_char_concat(x, y.drop_last(), c);
    }
}

/// Searching `x + z` for `c` from inside `x` finds what the search of `x`
/// finds, or else goes on at the end of `x`.
proof fn lemma_find_from_prefix(x: Seq<char>, z: Seq<char>, c: char, start: int)
    requires
        0 <= start <= x.len(),
    ensures
        find_from(x + z, seq![c], start) == match find_from(x, seq![c], start) {
            Some(i) => Some(i),
            None => find_from(x + z, seq![c], x.len() as int),
        },
    decreases x.len() - start,
{
    if start < x.len() {
        assert((x + z).subrange(start, start + 1) =~= x.subrange(start, start + 1));
        lemma_find_from_prefix(x, z, c, start + 1);
    }
}

/// Splitting a suffix of `s` is splitting `s` from where the suffix starts.
proof fn lemma_split_from_skip(s: Seq<char>, c: char, k: int, j: int)
    requires
        0 <= k <= s.len(),
        0 <= j,
    ensures
        split_from(s.skip(k), c, j) == split_from(s, c, j + k),
    decreases s.len() - k - j,
{
    lemma_find_from_skip(s, seq![c], k, j);
    if j <= s.len() - k {
        match find_from(s, seq![c], j + k) {
            Some(i) => {
                lemma_find_from_bounds(s, seq![c], j + k);
                assert(s.skip(k).subrange(j, i - k) =~= s.subrange(j + k, i));
                lemma_split_from_skip(s, c, k, i - k + 1);
            },
            None => {
                assert(s.skip(k).subrange(j, s.len() - k) =~= s.subrange(j + k, s.len() as int));
            },
        }
    }
}

proof fn lemma_split_from_concat(x: Seq<char>, y: Seq<char>, c: char, start: int)
    requires
        0 <= start <= x.len(),
    ensures
        split_from(x + seq![c] + y, c, start) == split_from(x, c, start) + split(y, c),
    decreases x.len() - start,
{
    let s = x + seq![c] + y;
    assert(s =~= x + (seq![c] + y));
    lemma_find_from_prefix(x, seq![c] + y, c, start);
    lemma_find_from_bounds(x, seq![c], start);
    match find_from(x, seq![c], start) {
        Some(i) => {
            assert(s.subrange(start, i) =~= x.subrange(start, i));
            lemma_split_from_concat(x, y, c, i + 1);
            assert(split_from(s, c, start) =~= seq![x.subrange(start, i)] + (split_from(x, c, i + 1)
                + split(y, c)));
        },
        None => {
            assert(s.subrange(x.len() as int, x.len() + 1int) =~= seq![c]);
            assert(s.subrange(start, x.len() as int) =~= x.subrange(start, x.len() as int));
            lemma_split_from_skip(s, c, x.len() + 1int, 0);
            assert(s.skip(x.len() + 1int) =~= y);
        },
    }
}

/// Splitting at a separator between `x` and `y` splits `x` and `y` apart.
pub proof fn lemma_split_concat(x: Seq<char>, y: Seq<char>, c: char)
    ensures
        split(x + seq![c] + y, c) == split(x, c) + split(y, c),
{
    lemma_split_from_concat(x, y, c, 0);
}

/// The encoding of two character sequences put together is the two
/// encodings put together.
pub proof fn lemma_encode_utf8_concat(x: Seq<char>, y: Seq<char>)
    ensures
        encode_utf8(x + y) == encode_utf8(x) + encode_utf8(y),
    decreases x.len(),
{
    if x.len() == 0 {
        assert(x + y =~= y);
        assert(encode_utf8(x) + encode_utf8(y) =~= encode_utf8(y));
    } else {
        assert((x + y).drop_first() =~= x.drop_first() + y);
        lemma_encode_utf8_concat(x.drop_first(), y);
        assert(encode_utf8(x + y) =~= encode_utf8(x) + encode_utf8(y));
    }
}

/// Decoding two valid encodings put together decodes each.
pub proof fn lemma_decode_utf8_concat(a: Seq<u8>, b: Seq<u8>)
    requires
        valid_utf8(a),
        valid_utf8(b),
    ensures
        valid_utf8(a + b),
        decode_utf8(a + b) == decode_utf8(a) + decode_utf8(b),
{
    vstd::utf8::decode_utf8_encode_utf8(a);
    vstd::utf8::decode_utf8_encode_utf8(b);
    lemma_encode_utf8_concat(decode_utf8(a), decode_utf8(b));
    vstd::utf8::encode_utf8_decode_utf8(decode_utf8(a) + decode_utf8(b));
    vstd::utf8::encode_utf8_valid_utf8(decode_utf8(a) + decode_utf8(b));
}

/// Copies the characters of `s` into a vector.
pub fn chars_of(s: &str) -> (r: Vec<char>)
    ensures
        r@ == s@,
{
    let mut r: Vec<char> = Vec::new();
    for c in it: s.chars()
        invariant
            r@ == it.seq().take(it.index() as int),
            it.seq() == s@,
    {
        r.push(c);
    }
    r
}

/// Whether two character sequences are equal.
pub fn chars_eq(a: &[char], b: &[char]) -> (r: bool)
    ensures
        r == (a@ == b@),
{
    if a.len() != b.len() {
        return false;
    }
    let mut i: usize = 0;
    while i < a.len()
        invariant
            a@.len() == b@.len(),
            i <= a@.len(),
            forall|j: int| 0 <= j < i ==> a@[j] == b@[j],
        decreases a.len() - i,
    {
        if a[i] != b[i] {
            return false;
        }
        i = i + 1;
    }
    assert(a@ =~= b@);
    true
}

/// Whether the characters `a` spell the string `b`.
pub fn chars_eq_str(a: &[char], b: &str) -> (r: bool)
    ensures
        r == (a@ == b@),
{
    let bc = chars_of(b);
    chars_eq(a, bc.as_slice())
}

/// Whether `pat` occurs in `s` at position `i`.
pub fn occurs_at_exec(s: &[char], pat: &[char], i: usize) -> (r: bool)
    ensures
        r == occurs_at(s@, pat@, i as int),
{
    if i > s.len() || pat.len() > s.len() - i {
        return false;
    }
    let mut k: usize = 0;
    while k < pat.len()
        invariant
            i + pat@.len() <= s@.len(),
            s@.len() == s.len(),
            k <= pat@.len(),
            forall|j: int| 0 <= j < k ==> s@[i + j] == pat@[j],
        decreases pat.len() - k,
    {
        if s[i + k] != pat[k] {
            assert(s@.subrange(i as int, i + pat@.len())[k as int] != pat@[k as int]);
            return false;
        }
        k = k + 1;
    }
    assert(s@.subrange(i as int, i + pat@.len()) =~= pat@);
    true
}

/// The first position at or after `start` where `pat` occurs in `s`.
pub fn find_from_exec(s: &[char], pat: &[char], start: usize) -> (r: Option<usize>)
    ensures
        r matches Some(i) ==> find_from(s@, pat@, start as int) == Some(i as int),
        r is None ==> find_from(s@, pat@, start as int) is None,
{
    let mut i = start;
    while i <= s.len() && pat.len() <= s.len() - i
        invariant
            start <= i,
            find_from(s@, pat@, start as int) == find_from(s@, pat@, i as int),
        decreases s.len() + 1 - i,
    {
        if occurs_at_exec(s, pat, i) {
            return Some(i);
        }
        i = i + 1;
    }
    None
}

/// The last position where `c` occurs in `s`.
pub fn rfind_char_exec(s: &[char], c: char) -> (r: Option<usize>)
    ensures
        r matches Some(i) ==> rfind_char(s@, c) == Some(i as int),
        r is None ==> rfind_char(s@, c) is None,
{
    let mut i = s.len();
    assert(s@.take(i as int) =~= s@);
    while i > 0
        invariant
            i <= s@.len(),
            forall|j: int| i <= j < s@.len() ==> s@[j] != c,
            rfind_char(s@, c) == rfind_char(s@.take(i as int), c),
        decreases i,
    {
        if s[i - 1] == c {
            assert(s@.take(i as int).last() == c);
            return Some(i - 1);
        }
        assert(s@.take(i as int).drop_last() =~= s@.take(i - 1));
        i = i - 1;
    }
    None
}

/// Splits the tail `s[start..]` at the first occurrence of `pat`, giving the
/// position of that occurrence in `s`.
pub fn split_tail_once(s: &[char], start: usize, pat: &[char]) -> (r: Option<usize>)
    requires
        start <= s@.len(),
    ensures
        match split_once(s@.skip(start as int), pat@) {
            Some((a, b)) => r matches Some(i) && start <= i && i + pat@.len() <= s.len() && a
                == s@.subrange(start as int, i as int) && b == s@.skip(i + pat@.len()),
            None => r is None,
        },
{
    let r = find_from_exec(s, pat, start);
    proof {
        lemma_find_from_skip(s@, pat@, start as int, 0);
        lemma_find_from_bounds(s@, pat@, start as int);
        if let Some(i) = r {
            assert(s@.skip(start as int).take(i - start) =~= s@.subrange(start as int, i as int));
            assert(s@.skip(start as int).skip(i - start + pat@.len()) =~= s@.skip(i + pat@.len()));
        }
    }
    r
}

/// The positions that delimit the pieces of `s` between `sep` characters:
/// piece `k` runs from `r[k].0` to `r[k].1`.
pub fn split_positions(s: &[char], sep: char) -> (r: Vec<(usize, usize)>)
    ensures
        r@.len() == split(s@, sep).len(),
        forall|k: int| 0 <= k < r@.len() ==> #[trigger] r@[k].0 <= r@[k].1 <= s@.len(),
        forall|k: int|
            0 <= k < r@.len() ==> s@.subrange(r@[k].0 as int, r@[k].1 as int) == #[trigger] split(
                s@,
                sep,
            )[k],
{
    let pat: [char; 1] = [sep];
    assert(pat@ =~= seq![sep]);
    let mut r: Vec<(usize, usize)> = Vec::new();
    let mut pos: usize = 0;
    loop
        invariant_except_break
            split(s@, sep) =~= Seq::new(r@.len() as nat, |k: int| s@.subrange(r@[k].0 as int, r@[k].1 as int))
                + split_from(s@, sep, pos as int),
        invariant
            pos <= s@.len(),
            s@.len() == s.len(),
            pat@ == seq![sep],
            forall|k: int| 0 <= k < r@.len() ==> #[trigger] r@[k].0 <= r@[k].1 <= s@.len(),
        ensures
            split(s@, sep) =~= Seq::new(r@.len() as nat, |k: int| s@.subrange(r@[k].0 as int, r@[k].1 as int)),
        decreases s@.len() - pos,
    {
        let ghost before = r@;
        match find_from_exec(s, pat.as_slice(), pos) {
            Some(i) => {
                proof {
                    lemma_find_from_bounds(s@, seq![sep], pos as int);
                }
                r.push((pos, i));
                assert(split_from(s@, sep, pos as int) == seq![s@.subrange(pos as int, i as int)]
                    + split_from(s@, sep, i + 1));
                pos = i + 1;
            },
            None => {
                r.push((pos, s.len()));
                assert(split_from(s@, sep, pos as int) == seq![s@.subrange(pos as int, s@.len() as int)]);
                break;
            },
        }
    }
    let ghost pieces = Seq::new(r@.len() as nat, |k: int| s@.subrange(r@[k].0 as int, r@[k].1 as int));
    assert(split(s@, sep) == pieces);
    assert forall|k: int| 0 <= k < r@.len() implies s@.subrange(r@[k].0 as int, r@[k].1 as int)
        == #[trigger] split(s@, sep)[k] by {
        assert(pieces[k] == s@.subrange(r@[k].0 as int, r@[k].1 as int));
    }
    r
}

/// Splits the tail `s[start..]` at the first `c`, giving the position of that
/// `c` in `s`.
pub fn split_tail_at_char(s: &[char], start: usize, c: char) -> (r: Option<usize>)
    requires
        start <= s@.len(),
    ensures
        match split_once(s@.skip(start as int), seq![c]) {
            Some((a, b)) => r matches Some(i) && start <= i && i < s.len() && a == s@.subrange(
                start as int,
                i as int,
            ) && b == s@.skip(i + 1),
            None => r is None,
        },
{
    let pat: [char; 1] = [c];
    assert(pat@ =~= seq![c]);
    split_tail_once(s, start, pat.as_slice())
}

/// The characters of `s` from `from` to `to`.
pub fn slice_of(s: &[char], from: usize, to: usize) -> (r: &[char])
    requires
        from <= to <= s@.len(),
    ensures
        r@ == s@.subrange(from as int, to as int),
{
    &s[from..to]
}

/// Appends `c` to `s`.
///
/// Trusted: `String::push` appends the given `char` to the end of the string,
/// as its documentation states; that is all this contract claims.
#[verifier::external_body]
pub(crate) fn push_char(s: &mut String, c: char)
    ensures
        final(s)@ == old(s)@.push(c),
{
    s.push(c)
}

/// Appends `bytes` to `out`.
pub fn extend_bytes(out: &mut Vec<u8>, bytes: &[u8])
    ensures
        final(out)@ == old(out)@ + bytes@,
{
    let mut i: usize = 0;
    while i < bytes.len()
        invariant
            i <= bytes@.len(),
            out@ == old(out)@ + bytes@.take(i as int),
        decreases bytes.len() - i,
    {
        out.push(bytes[i]);
        assert(bytes@.take(i + 1) =~= bytes@.take(i as int).push(bytes@[i as int]));
        i = i + 1;
    }
    assert(bytes@.take(i as int) =~= bytes@);
}

/// The string that the bytes `bytes` encode in UTF-8, if they are UTF-8.
///
/// Trusted: `String::from_utf8` returns `Ok` exactly when `bytes` is valid
/// UTF-8, and the string then holds the characters that the bytes encode, as
/// its documentation states; `valid_utf8` and `decode_utf8` are vstd's
/// statement of that encoding.
#[verifier::external_body]
pub(crate) fn string_from_utf8(bytes: Vec<u8>) -> (r: Option<String>)
    ensures
        r is Some <==> valid_utf8(bytes@),
        r matches Some(s) ==> s@ == decode_utf8(bytes@),
{
    String::from_utf8(bytes).ok()
}

/// The string made of the characters of `s` from `from` to `to`.
pub fn substring(s: &str, from: usize, to: usize) -> (r: String)
    requires
        from <= to <= s@.len(),
    ensures
        r@ == s@.subrange(from as int, to as int),
{
    s.substring_char(from, to).to_owned()
}

/// The string of the characters `s`.
pub fn string_from_chars(s: &[char]) -> (r: String)
    ensures
        r@ == s@,
{
    let mut out = String::new();
    let mut j: usize = 0;
    while j < s.len()
        invariant
            j <= s@.len(),
            out@ == s@.take(j as int),
        decreases s.len() - j,
    {
        push_char(&mut out, s[j]);
        assert(out@ =~= s@.take(j + 1));
        j = j + 1;
    }
    assert(out@ =~= s@);
    out
}

} // verus!
