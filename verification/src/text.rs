//! Character-level text helpers: Unicode white space, trimming, splitting,
//! prefix/suffix tests, decimal parsing and code-point ordering of strings.
use vstd::prelude::*;

verus! {

/// Unicode `White_Space` property, which is what `char::is_whitespace` tests.
pub open spec fn is_white_space(c: char) -> bool {
    let u = c as u32;
    ||| 0x09 <= u <= 0x0d
    ||| u == 0x20
    ||| u == 0x85
    ||| u == 0xa0
    ||| u == 0x1680
    ||| 0x2000 <= u <= 0x200a
    ||| u == 0x2028
    ||| u == 0x2029
    ||| u == 0x202f
    ||| u == 0x205f
    ||| u == 0x3000
}

/// Whether `c` is a white-space character in the Unicode sense.
pub fn char_is_whitespace(c: char) -> (r: bool)
    ensures
        r == is_white_space(c),
{
    let u = c as u32;
    (0x09 <= u && u <= 0x0d) || u == 0x20 || u == 0x85 || u == 0xa0 || u == 0x1680 || (0x2000
        <= u && u <= 0x200a) || u == 0x2028 || u == 0x2029 || u == 0x202f || u == 0x205f || u
        == 0x3000
}

/// The characters of `s`, in order.
pub fn str_chars(s: &str) -> (v: Vec<char>)
    ensures
        v@ == s@,
{
    let mut v: Vec<char> = Vec::new();
    for c in it: s.chars()
        invariant
            v@ == it.seq().take(it.index()),
    {
        v.push(c);
    }
    v
}


/// `String::push`: appends one character at the end of the string.
#[verifier::external_body]
fn push_char(s: &mut String, c: char)
    ensures
        final(s)@ == old(s)@.push(c),
{
    s.push(c);
}

/// A `String` holding exactly the characters of `v`.
pub fn chars_to_string(v: &[char]) -> (s: String)
    ensures
        s@ == v@,
{
    let mut s = String::new();
    let mut i: usize = 0;
    while i < v.len()
        invariant
            i <= v.len(),
            s@ == v@.take(i as int),
        decreases v.len() - i,
    {
        push_char(&mut s, v[i]);
        i = i + 1;
        assert(v@.take(i as int) == v@.take((i - 1) as int).push(v@[i - 1]));
    }
    assert(v@.take(v@.len() as int) == v@);
    s
}

/// `s` with white space removed from both ends.
pub open spec fn trim_start(s: Seq<char>) -> Seq<char>
    decreases s.len(),
{
    if s.len() > 0 && is_white_space(s[0]) {
        trim_start(s.drop_first())
    } else {
        s
    }
}

pub open spec fn trim_end(s: Seq<char>) -> Seq<char>
    decreases s.len(),
{
    if s.len() > 0 && is_white_space(s.last()) {
        trim_end(s.drop_last())
    } else {
        s
    }
}

pub open spec fn trim(s: Seq<char>) -> Seq<char> {
    trim_end(trim_start(s))
}

proof fn lemma_trim_start_skip(s: Seq<char>, i: int)
    requires
        0 <= i <= s.len(),
        forall|j: int| 0 <= j < i ==> is_white_space(#[trigger] s[j]),
    ensures
        trim_start(s) == trim_start(s.skip(i)),
    decreases i,
{
    if i > 0 {
        assert(is_white_space(s[0]));
        assert(s.drop_first().skip(i - 1) =~= s.skip(i));
        lemma_trim_start_skip(s.drop_first(), i - 1);
    } else {
        assert(s.skip(0) =~= s);
    }
}

proof fn lemma_trim_end_take(s: Seq<char>, i: int)
    requires
        0 <= i <= s.len(),
        forall|j: int| i <= j < s.len() ==> is_white_space(#[trigger] s[j]),
    ensures
        trim_end(s) == trim_end(s.take(i)),
    decreases s.len() - i,
{
    if i < s.len() {
        assert(is_white_space(s.last()));
        assert(s.drop_last().take(i) =~= s.take(i));
        lemma_trim_end_take(s.drop_last(), i);
    } else {
        assert(s.take(i) =~= s);
    }
}

/// The characters of `v` with white space removed from both ends.
pub fn trim_chars(v: &[char]) -> (r: Vec<char>)
    ensures
        r@ == trim(v@),
{
    let mut start: usize = 0;
    while start < v.len() && char_is_whitespace(v[start])
        invariant
            start <= v.len(),
            forall|j: int| 0 <= j < start ==> is_white_space(#[trigger] v@[j]),
        decreases v.len() - start,
    {
        start = start + 1;
    }
    proof {
        lemma_trim_start_skip(v@, start as int);
    }
    let ghost rest = v@.skip(start as int);
    assert(trim_start(rest) == rest);
    let mut end: usize = v.len();
    while end > start && char_is_whitespace(v[end - 1])
        invariant
            start <= end <= v.len(),
            forall|j: int| end <= j < v.len() ==> is_white_space(#[trigger] v@[j]),
        decreases end,
    {
        end = end - 1;
    }
    proof {
        lemma_trim_end_take(rest, end - start);
        assert(rest.take(end - start) =~= v@.subrange(start as int, end as int));
        let t = v@.subrange(start as int, end as int);
        if t.len() > 0 {
            assert(!is_white_space(t.last()));
        }
    }
    let mut r: Vec<char> = Vec::new();
    let mut k: usize = start;
    while k < end
        invariant
            start <= k <= end <= v.len(),
            r@ == v@.subrange(start as int, k as int),
        decreases end - k,
    {
        r.push(v[k]);
        k = k + 1;
        assert(r@ =~= v@.subrange(start as int, k as int));
    }
    r
}

/// `s` with white space removed from both ends, as by `str::trim`.
pub fn trim_str(s: &str) -> (r: String)
    ensures
        r@ == trim(s@),
{
    let v = str_chars(s);
    let t = trim_chars(v.as_slice());
    chars_to_string(t.as_slice())
}


/// Number of leading characters of `s` before the first white space.
pub open spec fn word_len(s: Seq<char>) -> nat
    decreases s.len(),
{
    if s.len() == 0 || is_white_space(s[0]) {
        0
    } else {
        1 + word_len(s.drop_first())
    }
}

/// The maximal runs of non-white-space characters of `s`, in order, as
/// `str::split_whitespace` yields them.
pub open spec fn split_ws(s: Seq<char>) -> Seq<Seq<char>>
    decreases s.len(),
{
    let t = trim_start(s);
    if t.len() == 0 {
        seq![]
    } else {
        let k = word_len(t);
        if k == 0 {
            seq![]
        } else {
            proof {
                lemma_trim_start_shorter(s);
                lemma_word_len_bounds(t);
            }
            seq![t.take(k as int)] + split_ws(t.skip(k as int))
        }
    }
}

/// The views of a sequence of strings.
pub open spec fn string_views(v: Seq<String>) -> Seq<Seq<char>> {
    v.map_values(|w: String| w@)
}

/// Trimming leading white space drops a prefix of white space.
pub proof fn lemma_trim_start_shorter(s: Seq<char>)
    ensures
        trim_start(s).len() <= s.len(),
        trim_start(s) =~= s.skip(s.len() - trim_start(s).len()),
        trim_start(s).len() > 0 ==> !is_white_space(trim_start(s)[0]),
    decreases s.len(),
{
    if s.len() > 0 && is_white_space(s[0]) {
        lemma_trim_start_shorter(s.drop_first());
    }
}

/// `word_len` counts a leading run of non-white-space characters.
pub proof fn lemma_word_len_bounds(s: Seq<char>)
    ensures
        word_len(s) <= s.len(),
        forall|j: int| 0 <= j < word_len(s) ==> !is_white_space(#[trigger] s[j]),
        word_len(s) < s.len() ==> is_white_space(s[word_len(s) as int]),
    decreases s.len(),
{
    if s.len() > 0 && !is_white_space(s[0]) {
        lemma_word_len_bounds(s.drop_first());
        assert forall|j: int| 0 <= j < word_len(s) implies !is_white_space(#[trigger] s[j]) by {
            if j > 0 {
                assert(s[j] == s.drop_first()[j - 1]);
            }
        }
    }
}

proof fn lemma_word_len_is(s: Seq<char>, k: int)
    requires
        0 <= k <= s.len(),
        forall|j: int| 0 <= j < k ==> !is_white_space(#[trigger] s[j]),
        k < s.len() ==> is_white_space(s[k]),
    ensures
        word_len(s) == k,
    decreases k,
{
    if k > 0 {
        assert(!is_white_space(s[0]));
        assert forall|j: int| 0 <= j < k - 1 implies !is_white_space(#[trigger] s.drop_first()[j]) by {
            assert(s.drop_first()[j] == s[j + 1]);
        }
        lemma_word_len_is(s.drop_first(), k - 1);
    }
}

proof fn lemma_split_ws_skip_space(s: Seq<char>)
    requires
        s.len() > 0,
        is_white_space(s[0]),
    ensures
        split_ws(s) == split_ws(s.drop_first()),
{
    assert(trim_start(s) == trim_start(s.drop_first()));
}

/// Every word of `split_ws(s)` is non-empty and holds no white space.
pub proof fn lemma_split_ws_words(s: Seq<char>)
    ensures
        forall|i: int|
            0 <= i < split_ws(s).len() ==> (#[trigger] split_ws(s)[i]).len() > 0 && forall|j: int|
                0 <= j < split_ws(s)[i].len() ==> !is_white_space(split_ws(s)[i][j]),
    decreases s.len(),
{
    let t = trim_start(s);
    lemma_trim_start_shorter(s);
    if t.len() > 0 {
        let k = word_len(t);
        lemma_word_len_bounds(t);
        if k > 0 {
            lemma_split_ws_words(t.skip(k as int));
            let rest = split_ws(t.skip(k as int));
            assert(split_ws(s) == seq![t.take(k as int)] + rest);
            assert forall|i: int| 0 <= i < split_ws(s).len() implies (#[trigger] split_ws(
                s,
            )[i]).len() > 0 && forall|j: int|
                0 <= j < split_ws(s)[i].len() ==> !is_white_space(split_ws(s)[i][j]) by {
                if i > 0 {
                    assert(split_ws(s)[i] == rest[i - 1]);
                }
            }
        }
    }
}

/// The characters `v[start..end]` as a `String`.
fn substring_of(v: &[char], start: usize, end: usize) -> (s: String)
    requires
        start <= end <= v.len(),
    ensures
        s@ == v@.subrange(start as int, end as int),
{
    let mut s = String::new();
    let mut k: usize = start;
    while k < end
        invariant
            start <= k <= end <= v.len(),
            s@ == v@.subrange(start as int, k as int),
        decreases end - k,
    {
        push_char(&mut s, v[k]);
        k = k + 1;
        assert(s@ =~= v@.subrange(start as int, k as int));
    }
    s
}

/// The white-space separated words of `s`, as by `str::split_whitespace`.
pub fn split_whitespace(s: &str) -> (r: Vec<String>)
    ensures
        string_views(r@) == split_ws(s@),
{
    let v = str_chars(s);
    let mut res: Vec<String> = Vec::new();
    let mut i: usize = 0;
    assert(v@.skip(0) =~= v@);
    assert(string_views(res@) =~= seq![]);
    while i < v.len()
        invariant
            i <= v.len(),
            v@ == s@,
            split_ws(v@) == string_views(res@) + split_ws(v@.skip(i as int)),
        decreases v.len() - i,
    {
        let ghost rest = v@.skip(i as int);
        if char_is_whitespace(v[i]) {
            proof {
                lemma_split_ws_skip_space(rest);
                assert(rest.drop_first() =~= v@.skip(i + 1));
            }
            i = i + 1;
        } else {
            let start = i;
            while i < v.len() && !char_is_whitespace(v[i])
                invariant
                    start <= i <= v.len(),
                    forall|j: int| start <= j < i ==> !is_white_space(#[trigger] v@[j]),
                decreases v.len() - i,
            {
                i = i + 1;
            }
            let word = substring_of(v.as_slice(), start, i);
            proof {
                let k = i - start;
                assert forall|j: int| 0 <= j < k implies !is_white_space(#[trigger] rest[j]) by {
                    assert(rest[j] == v@[start + j]);
                }
                if k < rest.len() {
                    assert(rest[k] == v@[i as int]);
                }
                lemma_word_len_is(rest, k);
                assert(trim_start(rest) == rest);
                assert(rest.take(k) =~= v@.subrange(start as int, i as int));
                assert(rest.skip(k) =~= v@.skip(i as int));
                assert(split_ws(rest) == seq![rest.take(k)] + split_ws(rest.skip(k)));
            }
            let ghost before = string_views(res@);
            res.push(word);
            assert(string_views(res@) =~= before.push(word@));
            assert(split_ws(v@) =~= string_views(res@) + split_ws(v@.skip(i as int)));
        }
    }
    assert(v@.skip(i as int) =~= seq![]);
    assert(split_ws(v@.skip(i as int)) =~= seq![]);
    assert(string_views(res@) + seq![] =~= string_views(res@));
    res
}


/// Index of the first occurrence of `c` in `s`, or `s.len()` when there is none.
pub open spec fn first_index(s: Seq<char>, c: char) -> nat
    decreases s.len(),
{
    if s.len() == 0 {
        0
    } else if s[0] == c {
        0
    } else {
        1 + first_index(s.drop_first(), c)
    }
}

/// `first_index` is at most the length, and nothing before it is `c`.
pub proof fn lemma_first_index_bounds(s: Seq<char>, c: char)
    ensures
        first_index(s, c) <= s.len(),
        forall|j: int| 0 <= j < first_index(s, c) ==> #[trigger] s[j] != c,
        first_index(s, c) < s.len() ==> s[first_index(s, c) as int] == c,
    decreases s.len(),
{
    if s.len() > 0 && s[0] != c {
        lemma_first_index_bounds(s.drop_first(), c);
        assert forall|j: int| 0 <= j < first_index(s, c) implies #[trigger] s[j] != c by {
            if j > 0 {
                assert(s[j] == s.drop_first()[j - 1]);
            }
        }
    }
}

proof fn lemma_first_index_is(s: Seq<char>, c: char, k: int)
    requires
        0 <= k <= s.len(),
        forall|j: int| 0 <= j < k ==> #[trigger] s[j] != c,
        k < s.len() ==> s[k] == c,
    ensures
        first_index(s, c) == k,
    decreases k,
{
    if k > 0 {
        assert(s[0] != c);
        assert forall|j: int| 0 <= j < k - 1 implies #[trigger] s.drop_first()[j] != c by {
            assert(s.drop_first()[j] == s[j + 1]);
        }
        lemma_first_index_is(s.drop_first(), c, k - 1);
    }
}

/// The pieces of `s` between occurrences of `c`, as `str::split` yields them
/// for a character pattern: there is always at least one piece.
pub open spec fn split_char(s: Seq<char>, c: char) -> Seq<Seq<char>>
    decreases s.len(),
{
    let i = first_index(s, c);
    if i >= s.len() {
        seq![s]
    } else {
        seq![s.take(i as int)] + split_char(s.skip(i as int + 1), c)
    }
}

/// `line` without one trailing carriage return.
pub open spec fn strip_cr(line: Seq<char>) -> Seq<char> {
    if line.len() > 0 && line.last() == '\r' {
        line.drop_last()
    } else {
        line
    }
}

/// The lines of `s`, as `str::lines` yields them: pieces ended by `\n` lose
/// the `\n` and one `\r` before it; a last piece without `\n` is kept as it is,
/// unless it is empty.
pub open spec fn lines(s: Seq<char>) -> Seq<Seq<char>>
    decreases s.len(),
{
    let i = first_index(s, '\n');
    if s.len() == 0 {
        seq![]
    } else if i >= s.len() {
        seq![s]
    } else {
        seq![strip_cr(s.take(i as int))] + lines(s.skip(i as int + 1))
    }
}

/// The pieces of `s` between occurrences of `c`, as by `str::split`.
pub fn split_on_char(s: &str, c: char) -> (r: Vec<String>)
    ensures
        string_views(r@) == split_char(s@, c),
{
    let v = str_chars(s);
    let mut res: Vec<String> = Vec::new();
    let mut start: usize = 0;
    let mut i: usize = 0;
    assert(v@.skip(0) =~= v@);
    assert(string_views(res@) =~= seq![]);
    while i < v.len()
        invariant
            start <= i <= v.len(),
            v@ == s@,
            forall|j: int| start <= j < i ==> #[trigger] v@[j] != c,
            split_char(v@, c) == string_views(res@) + split_char(v@.skip(start as int), c),
        decreases v.len() - i,
    {
        if v[i] == c {
            let piece = substring_of(v.as_slice(), start, i);
            proof {
                let rest = v@.skip(start as int);
                let k = i - start;
                assert forall|j: int| 0 <= j < k implies #[trigger] rest[j] != c by {
                    assert(rest[j] == v@[start + j]);
                }
                lemma_first_index_is(rest, c, k);
                assert(rest.take(k) =~= v@.subrange(start as int, i as int));
                assert(rest.skip(k + 1) =~= v@.skip(i + 1));
            }
            let ghost before = string_views(res@);
            res.push(piece);
            assert(string_views(res@) =~= before.push(piece@));
            i = i + 1;
            start = i;
            assert(split_char(v@, c) =~= string_views(res@) + split_char(v@.skip(start as int), c));
        } else {
            i = i + 1;
        }
    }
    let last = substring_of(v.as_slice(), start, v.len());
    proof {
        let rest = v@.skip(start as int);
        assert forall|j: int| 0 <= j < rest.len() implies #[trigger] rest[j] != c by {
            assert(rest[j] == v@[start + j]);
        }
        lemma_first_index_is(rest, c, rest.len() as int);
        assert(rest =~= v@.subrange(start as int, v@.len() as int));
    }
    let ghost before = string_views(res@);
    res.push(last);
    assert(string_views(res@) =~= before.push(last@));
    assert(split_char(v@, c) =~= string_views(res@));
    res
}

/// The lines of `s`, as by `str::lines`.
pub fn split_lines(s: &str) -> (r: Vec<String>)
    ensures
        string_views(r@) == lines(s@),
{
    let v = str_chars(s);
    let mut res: Vec<String> = Vec::new();
    let mut start: usize = 0;
    let mut i: usize = 0;
    assert(v@.skip(0) =~= v@);
    assert(string_views(res@) =~= seq![]);
    while i < v.len()
        invariant
            start <= i <= v.len(),
            v@ == s@,
            forall|j: int| start <= j < i ==> #[trigger] v@[j] != '\n',
            lines(v@) == string_views(res@) + lines(v@.skip(start as int)),
        decreases v.len() - i,
    {
        if v[i] == '\n' {
            let end = if i > start && v[i - 1] == '\r' {
                i - 1
            } else {
                i
            };
            let piece = substring_of(v.as_slice(), start, end);
            proof {
                let rest = v@.skip(start as int);
                let k = i - start;
                assert forall|j: int| 0 <= j < k implies #[trigger] rest[j] != '\n' by {
                    assert(rest[j] == v@[start + j]);
                }
                lemma_first_index_is(rest, '\n', k);
                assert(strip_cr(rest.take(k)) =~= v@.subrange(start as int, end as int));
                assert(rest.skip(k + 1) =~= v@.skip(i + 1));
            }
            let ghost before = string_views(res@);
            res.push(piece);
            assert(string_views(res@) =~= before.push(piece@));
            i = i + 1;
            start = i;
            assert(lines(v@) =~= string_views(res@) + lines(v@.skip(start as int)));
        } else {
            i = i + 1;
        }
    }
    if start < v.len() {
        let last = substring_of(v.as_slice(), start, v.len());
        proof {
            let rest = v@.skip(start as int);
            assert forall|j: int| 0 <= j < rest.len() implies #[trigger] rest[j] != '\n' by {
                assert(rest[j] == v@[start + j]);
            }
            lemma_first_index_is(rest, '\n', rest.len() as int);
            assert(rest =~= v@.subrange(start as int, v@.len() as int));
        }
        let ghost before = string_views(res@);
        res.push(last);
        assert(string_views(res@) =~= before.push(last@));
        assert(lines(v@) =~= string_views(res@));
    } else {
        assert(v@.skip(start as int) =~= seq![]);
        assert(lines(v@) =~= string_views(res@));
    }
    res
}

/// Whether `p` is a prefix of `v`.
pub fn chars_start_with(v: &[char], p: &[char]) -> (r: bool)
    ensures
        r == p@.is_prefix_of(v@),
{
    if p.len() > v.len() {
        return false;
    }
    let mut i: usize = 0;
    while i < p.len()
        invariant
            p.len() <= v.len(),
            i <= p.len(),
            forall|j: int| 0 <= j < i ==> p@[j] == v@[j],
        decreases p.len() - i,
    {
        if p[i] != v[i] {
            return false;
        }
        i = i + 1;
    }
    true
}

/// Whether `p` is a suffix of `v`.
pub fn chars_end_with(v: &[char], p: &[char]) -> (r: bool)
    ensures
        r == p@.is_suffix_of(v@),
{
    if p.len() > v.len() {
        return false;
    }
    let off = v.len() - p.len();
    let mut i: usize = 0;
    while i < p.len()
        invariant
            p.len() <= v.len(),
            off == v.len() - p.len(),
            i <= p.len(),
            forall|j: int| 0 <= j < i ==> p@[j] == v@[off + j],
        decreases p.len() - i,
    {
        if p[i] != v[off + i] {
            return false;
        }
        i = i + 1;
    }
    true
}

/// Whether `s` starts with `p`, as by `str::starts_with`.
pub fn str_starts_with(s: &str, p: &str) -> (r: bool)
    ensures
        r == p@.is_prefix_of(s@),
{
    let v = str_chars(s);
    let w = str_chars(p);
    chars_start_with(v.as_slice(), w.as_slice())
}

/// Whether `s` ends with `p`, as by `str::ends_with`.
pub fn str_ends_with(s: &str, p: &str) -> (r: bool)
    ensures
        r == p@.is_suffix_of(s@),
{
    let v = str_chars(s);
    let w = str_chars(p);
    chars_end_with(v.as_slice(), w.as_slice())
}

/// The rest of `s` after `p`, when `s` starts with `p`, as by `str::strip_prefix`.
pub fn str_strip_prefix(s: &str, p: &str) -> (r: Option<String>)
    ensures
        r is Some <==> p@.is_prefix_of(s@),
        r matches Some(t) ==> t@ == s@.skip(p@.len() as int),
{
    let v = str_chars(s);
    let w = str_chars(p);
    if chars_start_with(v.as_slice(), w.as_slice()) {
        let t = substring_of(v.as_slice(), w.len(), v.len());
        assert(t@ =~= s@.skip(p@.len() as int));
        Some(t)
    } else {
        None
    }
}


/// `s` without `p` at its end, when `s` ends with `p`, as by `str::strip_suffix`.
pub fn str_strip_suffix(s: &str, p: &str) -> (r: Option<String>)
    ensures
        r is Some <==> p@.is_suffix_of(s@),
        r matches Some(t) ==> t@ == s@.take(s@.len() - p@.len()),
{
    let v = str_chars(s);
    let w = str_chars(p);
    if chars_end_with(v.as_slice(), w.as_slice()) {
        let t = substring_of(v.as_slice(), 0, v.len() - w.len());
        assert(t@ =~= s@.take(s@.len() - p@.len()));
        Some(t)
    } else {
        None
    }
}

pub open spec fn is_decimal_digit(c: char) -> bool {
    '0' <= c && c <= '9'
}

/// The number that the decimal digits `s` write.
pub open spec fn digits_value(s: Seq<char>) -> nat
    decreases s.len(),
{
    if s.len() == 0 {
        0
    } else {
        digits_value(s.drop_last()) * 10 + ((s.last() as u32) - ('0' as u32)) as nat
    }
}

/// The digits that `u32::from_str` reads: one leading `+` is dropped when
/// something follows it.
pub open spec fn unsigned_digits(s: Seq<char>) -> Seq<char> {
    if s.len() >= 2 && s[0] == '+' {
        s.drop_first()
    } else {
        s
    }
}

/// What `u32::from_str` gives: `Some` exactly for a non-empty run of decimal
/// digits (after an optional `+`) whose value fits in a `u32`.
pub open spec fn parse_u32_spec(s: Seq<char>) -> Option<u32> {
    let d = unsigned_digits(s);
    if d.len() > 0 && (forall|j: int| 0 <= j < d.len() ==> is_decimal_digit(#[trigger] d[j]))
        && digits_value(d) <= u32::MAX {
        Some(digits_value(d) as u32)
    } else {
        None
    }
}

/// Parses `s` as a decimal `u32`, as by `str::parse::<u32>().ok()`.
pub fn parse_u32(s: &str) -> (r: Option<u32>)
    ensures
        r == parse_u32_spec(s@),
{
    let v = str_chars(s);
    let start: usize = if v.len() >= 2 && v[0] == '+' {
        1
    } else {
        0
    };
    let ghost d = unsigned_digits(s@);
    assert(d =~= v@.skip(start as int));
    if start >= v.len() {
        return None;
    }
    let mut acc: u64 = 0;
    let mut too_big = false;
    let mut i: usize = start;
    while i < v.len()
        invariant
            start <= i <= v.len(),
            d == v@.skip(start as int),
            d == unsigned_digits(s@),
            forall|j: int| start <= j < i ==> is_decimal_digit(#[trigger] v@[j]),
            too_big <==> digits_value(v@.subrange(start as int, i as int)) > u32::MAX,
            !too_big ==> acc == digits_value(v@.subrange(start as int, i as int)),
        decreases v.len() - i,
    {
        let c = v[i];
        if !('0' <= c && c <= '9') {
            assert(d[i - start] == c);
            return None;
        }
        let digit = (c as u32 - '0' as u32) as u64;
        let ghost prev = v@.subrange(start as int, i as int);
        let ghost next = v@.subrange(start as int, i + 1);
        assert(next.drop_last() =~= prev);
        assert(next.last() == c);
        if !too_big {
            acc = acc * 10 + digit;
            if acc > 0xffff_ffffu64 {
                too_big = true;
            }
        }
        i = i + 1;
    }
    assert(v@.subrange(start as int, v@.len() as int) =~= d);
    if too_big {
        None
    } else {
        Some(acc as u32)
    }
}

/// `a` comes no later than `b` in the lexicographic order of code points,
/// which is the order `String` compares in (UTF-8 keeps code point order).
pub open spec fn chars_le(a: Seq<char>, b: Seq<char>) -> bool
    decreases a.len(),
{
    if a.len() == 0 {
        true
    } else if b.len() == 0 {
        false
    } else if a[0] != b[0] {
        (a[0] as int) < (b[0] as int)
    } else {
        chars_le(a.drop_first(), b.drop_first())
    }
}

/// Whether `a` sorts no later than `b` as strings.
pub fn chars_le_exec(a: &[char], b: &[char]) -> (r: bool)
    ensures
        r == chars_le(a@, b@),
{
    let mut i: usize = 0;
    assert(a@.skip(0) =~= a@);
    assert(b@.skip(0) =~= b@);
    while i < a.len() && i < b.len()
        invariant
            i <= a.len(),
            i <= b.len(),
            chars_le(a@, b@) == chars_le(a@.skip(i as int), b@.skip(i as int)),
        decreases a.len() - i,
    {
        if a[i] != b[i] {
            return a[i] < b[i];
        }
        assert(a@.skip(i as int).drop_first() =~= a@.skip(i + 1));
        assert(b@.skip(i as int).drop_first() =~= b@.skip(i + 1));
        i = i + 1;
    }
    i == a.len()
}

/// `chars_le` is reflexive.
pub proof fn lemma_chars_le_reflexive(a: Seq<char>)
    ensures
        chars_le(a, a),
    decreases a.len(),
{
    if a.len() > 0 {
        lemma_chars_le_reflexive(a.drop_first());
    }
}

/// `chars_le` is total and antisymmetric.
pub proof fn lemma_chars_le_total(a: Seq<char>, b: Seq<char>)
    ensures
        chars_le(a, b) || chars_le(b, a),
        chars_le(a, b) && chars_le(b, a) ==> a =~= b,
    decreases a.len(),
{
    if a.len() > 0 && b.len() > 0 {
        lemma_chars_le_total(a.drop_first(), b.drop_first());
        if chars_le(a, b) && chars_le(b, a) {
            assert(a[0] == b[0]);
            assert(a =~= seq![a[0]] + a.drop_first());
            assert(b =~= seq![b[0]] + b.drop_first());
        }
    }
}

/// `chars_le` is transitive.
pub proof fn lemma_chars_le_transitive(a: Seq<char>, b: Seq<char>, c: Seq<char>)
    requires
        chars_le(a, b),
        chars_le(b, c),
    ensures
        chars_le(a, c),
    decreases a.len(),
{
    if a.len() > 0 && b.len() > 0 && c.len() > 0 && a[0] == b[0] && b[0] == c[0] {
        lemma_chars_le_transitive(a.drop_first(), b.drop_first(), c.drop_first());
    }
}


/// The decimal digit character for `d < 10`.
pub open spec fn digit_char(d: nat) -> char {
    (48 + d) as char
}

/// The decimal representation of `n`, without leading zeros.
pub open spec fn decimal_digits(n: nat) -> Seq<char>
    decreases n,
{
    if n < 10 {
        seq![digit_char(n)]
    } else {
        decimal_digits(n / 10).push(digit_char(n % 10))
    }
}

fn push_decimal(s: &mut String, n: u32)
    ensures
        final(s)@ == old(s)@ + decimal_digits(n as nat),
    decreases n,
{
    if n >= 10 {
        push_decimal(s, n / 10);
    }
    let d: u8 = (n % 10) as u8;
    let c = (48u8 + d) as char;
    assert(c == digit_char((n % 10) as nat));
    push_char(s, c);
}

fn push_decimal_u64(s: &mut String, n: u64)
    ensures
        final(s)@ == old(s)@ + decimal_digits(n as nat),
    decreases n,
{
    if n >= 10 {
        push_decimal_u64(s, n / 10);
    }
    let d: u8 = (n % 10) as u8;
    let c = (48u8 + d) as char;
    assert(c == digit_char((n % 10) as nat));
    push_char(s, c);
}

/// `s` followed by `n` written in decimal, as by `format!("{}{}", s, n)`.
pub fn append_decimal(s: &str, n: usize) -> (r: String)
    ensures
        r@ == s@ + decimal_digits(n as nat),
{
    let mut r = s.to_owned();
    push_decimal_u64(&mut r, n as u64);
    r
}

/// `n` written in decimal, as by `format!("{}", n)`.
pub fn u64_to_decimal(n: u64) -> (r: String)
    ensures
        r@ == decimal_digits(n as nat),
{
    let mut s = String::new();
    push_decimal_u64(&mut s, n);
    assert(s@ =~= decimal_digits(n as nat));
    s
}

/// `n` written in decimal, as by `format!("{}", n)`.
pub fn u32_to_decimal(n: u32) -> (r: String)
    ensures
        r@ == decimal_digits(n as nat),
{
    let mut s = String::new();
    push_decimal(&mut s, n);
    assert(s@ =~= decimal_digits(n as nat));
    s
}

proof fn lemma_decimal_digits_valid(n: nat)
    ensures
        decimal_digits(n).len() > 0,
        forall|j: int| 0 <= j < decimal_digits(n).len() ==> is_decimal_digit(
            #[trigger] decimal_digits(n)[j],
        ),
        digits_value(decimal_digits(n)) == n,
    decreases n,
{
    assert((digit_char(n % 10) as u32) == 48 + n % 10);
    assert(('0' as u32) == 48);
    let d = decimal_digits(n);
    if n < 10 {
        assert(d.drop_last() =~= Seq::<char>::empty());
        assert(digits_value(d.drop_last()) == 0);
    } else {
        lemma_decimal_digits_valid(n / 10);
        assert(d.drop_last() =~= decimal_digits(n / 10));
        assert(d.last() == digit_char(n % 10));
        assert(digits_value(d) == (n / 10) * 10 + n % 10);
        assert forall|j: int| 0 <= j < d.len() implies is_decimal_digit(#[trigger] d[j]) by {
            if j < d.len() - 1 {
                assert(d[j] == decimal_digits(n / 10)[j]);
            }
        }
    }
}

/// Parsing undoes formatting: a `u32` written in decimal parses back to itself.
pub proof fn lemma_parse_u32_of_decimal(n: u32)
    ensures
        parse_u32_spec(decimal_digits(n as nat)) == Some(n),
{
    lemma_decimal_digits_valid(n as nat);
    let d = decimal_digits(n as nat);
    assert(is_decimal_digit(d[0]));
    assert(unsigned_digits(d) == d);
}


/// `s` split around the first `c`, as by `str::split_once` with a character.
pub fn str_split_once(s: &str, c: char) -> (r: Option<(String, String)>)
    ensures
        r is Some <==> first_index(s@, c) < s@.len(),
        r matches Some(parts) ==> parts.0@ == s@.take(first_index(s@, c) as int) && parts.1@
            == s@.skip(first_index(s@, c) as int + 1),
{
    let v = str_chars(s);
    let mut i: usize = 0;
    while i < v.len()
        invariant
            i <= v.len(),
            v@ == s@,
            forall|j: int| 0 <= j < i ==> #[trigger] v@[j] != c,
        decreases v.len() - i,
    {
        if v[i] == c {
            proof {
                lemma_first_index_is(v@, c, i as int);
            }
            let before = substring_of(v.as_slice(), 0, i);
            let after = substring_of(v.as_slice(), i + 1, v.len());
            assert(before@ =~= s@.take(i as int));
            assert(after@ =~= s@.skip(i + 1));
            return Some((before, after));
        }
        i = i + 1;
    }
    proof {
        lemma_first_index_is(v@, c, v@.len() as int);
    }
    None
}


/// Whether two strings hold the same characters.
pub fn str_eq(a: &str, b: &str) -> (r: bool)
    ensures
        r == (a@ == b@),
{
    let v = str_chars(a);
    let w = str_chars(b);
    if v.len() != w.len() {
        return false;
    }
    let mut i: usize = 0;
    while i < v.len()
        invariant
            v.len() == w.len(),
            v@ == a@,
            w@ == b@,
            i <= v.len(),
            forall|j: int| 0 <= j < i ==> v@[j] == w@[j],
        decreases v.len() - i,
    {
        if v[i] != w[i] {
            return false;
        }
        i = i + 1;
    }
    assert(v@ =~= w@);
    true
}

} // verus!
