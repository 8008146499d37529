//! Character-level text helpers: whitespace trimming, splitting on a
//! separator, equality of string slices, and the two standard-library string
//! operations the rest of the crate relies on.

use vstd::prelude::*;

verus! {

/// The characters that `char::is_whitespace` accepts: those with the Unicode
/// `White_Space` property.
pub open spec fn is_white_space(c: char) -> bool {
    let n = c as u32;
    ||| 0x09 <= n <= 0x0d
    ||| n == 0x20
    ||| n == 0x85
    ||| n == 0xa0
    ||| n == 0x1680
    ||| 0x2000 <= n <= 0x200a
    ||| n == 0x2028
    ||| n == 0x2029
    ||| n == 0x202f
    ||| n == 0x205f
    ||| n == 0x3000
}

/// Whether `c` is white space in the sense of [`is_white_space`].
pub fn white_space(c: char) -> (r: bool)
    ensures
        r == is_white_space(c),
{
    let n = c as u32;
    (0x09 <= n && n <= 0x0d) || n == 0x20 || n == 0x85 || n == 0xa0 || n == 0x1680 || (0x2000
        <= n && n <= 0x200a) || n == 0x2028 || n == 0x2029 || n == 0x202f || n == 0x205f || n
        == 0x3000
}

/// The first index at or after `i` whose character is not white space
/// (or the length of `s`).
pub open spec fn leading_end(s: Seq<char>, i: int) -> int
    decreases s.len() - i,
{
    if 0 <= i < s.len() && is_white_space(s[i]) {
        leading_end(s, i + 1)
    } else {
        i
    }
}

/// Walking back from `j` (but not below `lo`), the index just after the last
/// character that is not white space.
pub open spec fn trailing_start(s: Seq<char>, lo: int, j: int) -> int
    decreases j - lo,
{
    if lo < j && is_white_space(s[j - 1]) {
        trailing_start(s, lo, j - 1)
    } else {
        j
    }
}

/// `s` without its leading and trailing white space, as `str::trim` gives it.
pub open spec fn trimmed(s: Seq<char>) -> Seq<char> {
    let a = leading_end(s, 0);
    s.subrange(a, trailing_start(s, a, s.len() as int))
}

/// Removes leading and trailing white space.
pub fn trim(s: &str) -> (r: &str)
    ensures
        r@ == trimmed(s@),
{
    let n = s.unicode_len();
    let mut a: usize = 0;
    while a < n && white_space(s.get_char(a))
        invariant
            0 <= a <= n,
            n == s@.len(),
            leading_end(s@, a as int) == leading_end(s@, 0),
        decreases n - a,
    {
        a = a + 1;
    }
    let mut j: usize = n;
    while j > a && white_space(s.get_char(j - 1))
        invariant
            a <= j <= n,
            n == s@.len(),
            leading_end(s@, 0) == a,
            trailing_start(s@, a as int, j as int) == trailing_start(s@, a as int, n as int),
        decreases j,
    {
        j = j - 1;
    }
    s.substring_char(a, j)
}

/// The leading white space ends within the text, at a character that is not
/// white space.
pub proof fn lemma_leading_end(s: Seq<char>, i: int)
    requires
        0 <= i <= s.len(),
    ensures
        i <= leading_end(s, i) <= s.len(),
        leading_end(s, i) < s.len() ==> !is_white_space(s[leading_end(s, i)]),
        forall|k: int| i <= k < leading_end(s, i) ==> is_white_space(#[trigger] s[k]),
    decreases s.len() - i,
{
    if i < s.len() && is_white_space(s[i]) {
        lemma_leading_end(s, i + 1);
    }
}

/// The trailing white space starts within the range, just after a character
/// that is not white space.
pub proof fn lemma_trailing_start(s: Seq<char>, lo: int, j: int)
    requires
        0 <= lo <= j <= s.len(),
    ensures
        lo <= trailing_start(s, lo, j) <= j,
        trailing_start(s, lo, j) > lo ==> !is_white_space(s[trailing_start(s, lo, j) - 1]),
        forall|k: int| trailing_start(s, lo, j) <= k < j ==> is_white_space(#[trigger] s[k]),
    decreases j - lo,
{
    if lo < j && is_white_space(s[j - 1]) {
        lemma_trailing_start(s, lo, j - 1);
    }
}

/// Whether every character of `s` is white space.
pub open spec fn all_white_space(s: Seq<char>) -> bool {
    forall|i: int| 0 <= i < s.len() ==> is_white_space(#[trigger] s[i])
}

/// Leading white space that ends at `k` is skipped up to `k`.
proof fn lemma_leading_end_at(s: Seq<char>, i: int, k: int)
    requires
        0 <= i <= k <= s.len(),
        forall|j: int| i <= j < k ==> is_white_space(#[trigger] s[j]),
        k == s.len() || !is_white_space(s[k]),
    ensures
        leading_end(s, i) == k,
    decreases k - i,
{
    if i < k {
        lemma_leading_end_at(s, i + 1, k);
    }
}

/// Trailing white space that starts at `k` is skipped back to `k`.
proof fn lemma_trailing_start_at(s: Seq<char>, lo: int, k: int, j: int)
    requires
        0 <= lo <= k <= j <= s.len(),
        forall|q: int| k <= q < j ==> is_white_space(#[trigger] s[q]),
        k == lo || !is_white_space(s[k - 1]),
    ensures
        trailing_start(s, lo, j) == k,
    decreases j - k,
{
    if k < j {
        lemma_trailing_start_at(s, lo, k, j - 1);
    }
}

/// The trim of `x + m + y`, where `x` and `y` are white space and `m` is
/// empty or starts and ends with other characters, is `m`.
pub proof fn lemma_trimmed_unique(x: Seq<char>, m: Seq<char>, y: Seq<char>)
    requires
        all_white_space(x),
        all_white_space(y),
        m.len() > 0 ==> !is_white_space(m[0]) && !is_white_space(m[m.len() - 1]),
        m.len() == 0 ==> all_white_space(m),
    ensures
        trimmed(x + m + y) == m,
{
    let s = x + m + y;
    if m.len() > 0 {
        assert forall|j: int| 0 <= j < x.len() implies is_white_space(#[trigger] s[j]) by {
            assert(s[j] == x[j]);
        }
        assert(s[x.len() as int] == m[0]);
        lemma_leading_end_at(s, 0, x.len() as int);
        let b = (x.len() + m.len()) as int;
        assert forall|q: int| b <= q < s.len() implies is_white_space(#[trigger] s[q]) by {
            assert(s[q] == y[q - b]);
        }
        assert(s[b - 1] == m[m.len() - 1]);
        lemma_trailing_start_at(s, x.len() as int, b, s.len() as int);
        assert(s.subrange(x.len() as int, b) =~= m);
    } else {
        assert forall|j: int| 0 <= j < s.len() implies is_white_space(#[trigger] s[j]) by {
            if j < x.len() {
                assert(s[j] == x[j]);
            } else {
                assert(s[j] == y[j - x.len()]);
            }
        }
        lemma_leading_end_at(s, 0, s.len() as int);
        lemma_trailing_start_at(s, s.len() as int, s.len() as int, s.len() as int);
        assert(s.subrange(s.len() as int, s.len() as int) =~= m);
    }
}

/// White space added before and after a text does not change its trim.
pub proof fn lemma_trimmed_padded(u: Seq<char>, t: Seq<char>, v: Seq<char>)
    requires
        all_white_space(u),
        all_white_space(v),
    ensures
        trimmed(u + t + v) == trimmed(t),
{
    let a = leading_end(t, 0);
    lemma_leading_end(t, 0);
    let b = trailing_start(t, a, t.len() as int);
    lemma_trailing_start(t, a, t.len() as int);
    let x = t.subrange(0, a);
    let m = t.subrange(a, b);
    let y = t.subrange(b, t.len() as int);
    assert(t =~= x + m + y);
    assert(all_white_space(x)) by {
        assert forall|i: int| 0 <= i < x.len() implies is_white_space(#[trigger] x[i]) by {
            assert(x[i] == t[i]);
        }
    }
    assert(all_white_space(y)) by {
        assert forall|i: int| 0 <= i < y.len() implies is_white_space(#[trigger] y[i]) by {
            assert(y[i] == t[b + i]);
        }
    }
    if m.len() > 0 {
        assert(m[0] == t[a]);
        assert(m[m.len() - 1] == t[b - 1]);
    }
    assert(u + t + v =~= (u + x) + m + (y + v));
    assert(all_white_space(u + x)) by {
        assert forall|i: int| 0 <= i < (u + x).len() implies is_white_space(#[trigger] (u + x)[i]) by {
            if i < u.len() {
                assert((u + x)[i] == u[i]);
            } else {
                assert((u + x)[i] == x[i - u.len()]);
            }
        }
    }
    assert(all_white_space(y + v)) by {
        assert forall|i: int| 0 <= i < (y + v).len() implies is_white_space(#[trigger] (y + v)[i]) by {
            if i < y.len() {
                assert((y + v)[i] == y[i]);
            } else {
                assert((y + v)[i] == v[i - y.len()]);
            }
        }
    }
    lemma_trimmed_unique(u + x, m, y + v);
    lemma_trimmed_unique(x, m, y);
}

/// A text that neither starts nor ends with white space is its own trim.
pub proof fn lemma_trimmed_unchanged(s: Seq<char>)
    requires
        s.len() > 0 ==> !is_white_space(s[0]) && !is_white_space(s[s.len() - 1]),
    ensures
        trimmed(s) == s,
{
    assert(leading_end(s, 0) == 0);
    assert(trailing_start(s, 0, s.len() as int) == s.len());
    assert(s.subrange(0, s.len() as int) =~= s);
}

/// Trimming twice is trimming once.
pub proof fn lemma_trimmed_idempotent(s: Seq<char>)
    ensures
        trimmed(trimmed(s)) == trimmed(s),
{
    let a = leading_end(s, 0);
    lemma_leading_end(s, 0);
    let b = trailing_start(s, a, s.len() as int);
    lemma_trailing_start(s, a, s.len() as int);
    let t = trimmed(s);
    if t.len() > 0 {
        assert(t[0] == s[a]);
        assert(t[t.len() - 1] == s[b - 1]);
    }
    lemma_trimmed_unchanged(t);
}

/// The pieces of `s` between occurrences of `sep`, as `str::split` with a
/// `char` pattern yields them: there is always at least one piece, and two
/// adjacent separators give an empty piece.
pub open spec fn split_on(s: Seq<char>, sep: char) -> Seq<Seq<char>>
    decreases s.len(),
{
    if s.len() == 0 {
        seq![Seq::empty()]
    } else {
        let prev = split_on(s.drop_last(), sep);
        if s.last() == sep {
            prev.push(Seq::empty())
        } else {
            prev.update(prev.len() - 1, prev.last().push(s.last()))
        }
    }
}

/// Splitting never yields an empty list of pieces.
pub proof fn lemma_split_on_nonempty(s: Seq<char>, sep: char)
    ensures
        split_on(s, sep).len() >= 1,
    decreases s.len(),
{
    if s.len() > 0 {
        lemma_split_on_nonempty(s.drop_last(), sep);
    }
}

/// The contents of a vector of strings.
pub open spec fn views(v: Seq<String>) -> Seq<Seq<char>> {
    v.map_values(|x: String| x@)
}

/// Splits `s` on every occurrence of `sep`.
pub fn split_on_char(s: &str, sep: char) -> (r: Vec<String>)
    ensures
        views(r@) == split_on(s@, sep),
{
    let n = s.unicode_len();
    let mut pieces: Vec<String> = Vec::new();
    let mut start: usize = 0;
    let mut i: usize = 0;
    assert(s@.take(0) =~= Seq::<char>::empty());
    assert(s@.subrange(0, 0) =~= Seq::<char>::empty());
    assert(views(pieces@).push(s@.subrange(0, 0)) =~= seq![Seq::<char>::empty()]);
    while i < n
        invariant
            n == s@.len(),
            0 <= start <= i <= n,
            split_on(s@.take(i as int), sep) == views(pieces@).push(s@.subrange(start as int, i as int)),
        decreases n - i,
    {
        let c = s.get_char(i);
        let ghost prev = split_on(s@.take(i as int), sep);
        assert(s@.take(i + 1).drop_last() =~= s@.take(i as int));
        assert(s@.take(i + 1).last() == c);
        if c == sep {
            let piece = String::from_str(s.substring_char(start, i));
            pieces.push(piece);
            start = i + 1;
            assert(views(pieces@) =~= views(pieces@.drop_last()).push(piece@));
            assert(s@.subrange(start as int, i + 1) =~= Seq::<char>::empty());
        } else {
            assert(s@.subrange(start as int, i + 1) =~= s@.subrange(start as int, i as int).push(c));
            assert(prev.update(prev.len() - 1, prev.last().push(c)) =~= views(pieces@).push(
                s@.subrange(start as int, i + 1),
            ));
        }
        i = i + 1;
    }
    assert(s@.take(n as int) =~= s@);
    let last = String::from_str(s.substring_char(start, n));
    pieces.push(last);
    assert(views(pieces@) =~= views(pieces@.drop_last()).push(last@));
    pieces
}

/// Whether two string slices hold the same characters.
pub fn same_text(a: &str, b: &str) -> (r: bool)
    ensures
        r == (a@ == b@),
{
    let n = a.unicode_len();
    if n != b.unicode_len() {
        return false;
    }
    let mut i: usize = 0;
    while i < n
        invariant
            n == a@.len(),
            n == b@.len(),
            0 <= i <= n,
            forall|k: int| 0 <= k < i ==> a@[k] == b@[k],
        decreases n - i,
    {
        if a.get_char(i) != b.get_char(i) {
            return false;
        }
        i = i + 1;
    }
    assert(a@ =~= b@);
    true
}

/// What `str::to_lowercase` returns for a string with these characters: its
/// Unicode lowercase form, which depends on the whole string (a capital sigma
/// at the end of a word becomes a final sigma).
pub uninterp spec fn lowercase_of(s: Seq<char>) -> Seq<char>;

/// A character map that sends exactly the separator to the separator keeps
/// the pieces of a split, each mapped.
pub proof fn lemma_split_on_map(s: Seq<char>, sep: char, f: spec_fn(char) -> char)
    requires
        forall|c: char| (#[trigger] f(c) == sep) == (c == sep),
    ensures
        split_on(s.map_values(f), sep) == split_on(s, sep).map_values(|p: Seq<char>| p.map_values(f)),
    decreases s.len(),
{
    let t = s.map_values(f);
    let mf = |p: Seq<char>| p.map_values(f);
    if s.len() == 0 {
        assert(split_on(s, sep).map_values(mf) =~~= seq![Seq::<char>::empty()]);
    } else {
        let prev = split_on(s.drop_last(), sep);
        lemma_split_on_map(s.drop_last(), sep, f);
        lemma_split_on_nonempty(s.drop_last(), sep);
        assert(t.drop_last() =~= s.drop_last().map_values(f));
        assert(t.last() == f(s.last()));
        let mapped = prev.map_values(mf);
        if s.last() == sep {
            assert(split_on(t, sep) == mapped.push(Seq::empty()));
            assert(split_on(s, sep).map_values(mf) =~~= mapped.push(Seq::<char>::empty()));
        } else {
            let n = prev.len() - 1;
            assert(split_on(t, sep) == mapped.update(n, mapped.last().push(f(s.last()))));
            let grown = prev.update(n, prev.last().push(s.last()));
            assert(split_on(s, sep) == grown);
            assert(grown.map_values(mf)[n] =~= mapped.last().push(f(s.last())));
            assert(grown.map_values(mf) =~= mapped.update(n, mapped.last().push(f(s.last()))));
        }
    }
}

/// A map that keeps white space and non-white space apart moves the
/// leading white space by nothing.
proof fn lemma_leading_end_map(s: Seq<char>, f: spec_fn(char) -> char, i: int)
    requires
        0 <= i <= s.len(),
        forall|c: char| is_white_space(#[trigger] f(c)) == is_white_space(c),
    ensures
        leading_end(s.map_values(f), i) == leading_end(s, i),
    decreases s.len() - i,
{
    if i < s.len() {
        assert(s.map_values(f)[i] == f(s[i]));
        if is_white_space(s[i]) {
            lemma_leading_end_map(s, f, i + 1);
        }
    }
}

/// Likewise for the trailing white space.
proof fn lemma_trailing_start_map(s: Seq<char>, f: spec_fn(char) -> char, lo: int, j: int)
    requires
        0 <= lo <= j <= s.len(),
        forall|c: char| is_white_space(#[trigger] f(c)) == is_white_space(c),
    ensures
        trailing_start(s.map_values(f), lo, j) == trailing_start(s, lo, j),
    decreases j - lo,
{
    if lo < j {
        assert(s.map_values(f)[j - 1] == f(s[j - 1]));
        if is_white_space(s[j - 1]) {
            lemma_trailing_start_map(s, f, lo, j - 1);
        }
    }
}

/// Trimming commutes with a map that keeps white space and non-white space
/// apart.
pub proof fn lemma_trimmed_map(s: Seq<char>, f: spec_fn(char) -> char)
    requires
        forall|c: char| is_white_space(#[trigger] f(c)) == is_white_space(c),
    ensures
        trimmed(s.map_values(f)) == trimmed(s).map_values(f),
{
    let t = s.map_values(f);
    lemma_leading_end_map(s, f, 0);
    let a = leading_end(s, 0);
    lemma_leading_end(s, 0);
    lemma_trailing_start_map(s, f, a, s.len() as int);
    lemma_trailing_start(s, a, s.len() as int);
    assert(trimmed(t) =~= trimmed(s).map_values(f));
}

/// ASCII lowercasing keeps `+` and white space as they are, and maps nothing
/// else onto them.
pub proof fn lemma_ascii_lower_char_keeps(c: char)
    ensures
        (ascii_lower_char(c) == '+') == (c == '+'),
        is_white_space(ascii_lower_char(c)) == is_white_space(c),
        ascii_lower_char(ascii_lower_char(c)) == ascii_lower_char(c),
{
}

/// Lowercasing twice is lowercasing once.
pub proof fn lemma_ascii_lowercase_idempotent(s: Seq<char>)
    ensures
        ascii_lowercase(ascii_lowercase(s)) == ascii_lowercase(s),
{
    assert forall|i: int| 0 <= i < s.len() implies #[trigger] ascii_lowercase(ascii_lowercase(s))[i]
        == ascii_lowercase(s)[i] by {
        lemma_ascii_lower_char_keeps(s[i]);
    }
    assert(ascii_lowercase(ascii_lowercase(s)) =~= ascii_lowercase(s));
}

/// The pieces of an ASCII text are ASCII.
pub proof fn lemma_split_on_ascii(s: Seq<char>, sep: char)
    requires
        all_ascii(s),
    ensures
        forall|k: int| 0 <= k < split_on(s, sep).len() ==> all_ascii(#[trigger] split_on(s, sep)[k]),
    decreases s.len(),
{
    if s.len() > 0 {
        let prev = split_on(s.drop_last(), sep);
        assert(all_ascii(s.drop_last())) by {
            assert forall|i: int| 0 <= i < s.drop_last().len() implies (#[trigger] s.drop_last()[i] as u32) < 0x80 by {
                assert(s.drop_last()[i] == s[i]);
            }
        }
        lemma_split_on_ascii(s.drop_last(), sep);
        lemma_split_on_nonempty(s.drop_last(), sep);
        assert((s.last() as u32) < 0x80) by {
            assert(s[s.len() - 1] == s.last());
        }
        if s.last() != sep {
            let n = prev.len() - 1;
            assert(all_ascii(prev[n]));
            assert(all_ascii(prev.last().push(s.last()))) by {
                let q = prev.last().push(s.last());
                assert forall|i: int| 0 <= i < q.len() implies (#[trigger] q[i] as u32) < 0x80 by {
                    if i < q.len() - 1 {
                        assert(q[i] == prev[n][i]);
                    }
                }
            }
        } else {
            assert(all_ascii(Seq::<char>::empty()));
        }
    }
}

/// The trim of an ASCII text is ASCII.
pub proof fn lemma_trimmed_ascii(s: Seq<char>)
    requires
        all_ascii(s),
    ensures
        all_ascii(trimmed(s)),
{
    let a = leading_end(s, 0);
    lemma_leading_end(s, 0);
    lemma_trailing_start(s, a, s.len() as int);
    let t = trimmed(s);
    assert forall|i: int| 0 <= i < t.len() implies (#[trigger] t[i] as u32) < 0x80 by {
        assert(t[i] == s[a + i]);
    }
}

/// The pieces joined with `sep` between each two of them.
pub open spec fn join_with(pieces: Seq<Seq<char>>, sep: char) -> Seq<char>
    decreases pieces.len(),
{
    if pieces.len() <= 1 {
        if pieces.len() == 1 {
            pieces[0]
        } else {
            Seq::empty()
        }
    } else {
        join_with(pieces.drop_last(), sep).push(sep) + pieces.last()
    }
}

/// Whether `c` occurs in `s`.
pub open spec fn has_char(s: Seq<char>, c: char) -> bool {
    exists|i: int| 0 <= i < s.len() && s[i] == c
}

/// Appending text without the separator grows the last piece.
proof fn lemma_split_on_append(a: Seq<char>, b: Seq<char>, sep: char)
    requires
        !has_char(b, sep),
    ensures
        split_on(a + b, sep) == split_on(a, sep).update(
            split_on(a, sep).len() - 1,
            split_on(a, sep).last() + b,
        ),
    decreases b.len(),
{
    lemma_split_on_nonempty(a, sep);
    let pa = split_on(a, sep);
    if b.len() == 0 {
        assert(a + b =~= a);
        assert(pa.last() + b =~= pa.last());
        assert(pa.update(pa.len() - 1, pa.last() + b) =~= pa);
    } else {
        let b0 = b.drop_last();
        assert(!has_char(b0, sep)) by {
            if has_char(b0, sep) {
                let i = choose|i: int| 0 <= i < b0.len() && b0[i] == sep;
                assert(b[i] == sep);
            }
        }
        lemma_split_on_append(a, b0, sep);
        assert((a + b).drop_last() =~= a + b0);
        assert((a + b).last() == b.last());
        assert(b.last() != sep) by {
            assert(b[b.len() - 1] == b.last());
        }
        let prev = split_on(a + b0, sep);
        assert(prev.len() == pa.len());
        assert(prev.last() == pa.last() + b0);
        assert(split_on(a + b, sep) == prev.update(prev.len() - 1, prev.last().push(b.last())));
        assert(prev.last().push(b.last()) =~= pa.last() + b);
        assert(prev.update(prev.len() - 1, pa.last() + b) =~= pa.update(pa.len() - 1, pa.last() + b));
    }
}

/// A text without the separator is a single piece.
pub proof fn lemma_split_on_whole(x: Seq<char>, sep: char)
    requires
        !has_char(x, sep),
    ensures
        split_on(x, sep) == seq![x],
{
    lemma_split_on_append(Seq::empty(), x, sep);
    assert(Seq::<char>::empty() + x =~= x);
    assert(split_on(Seq::<char>::empty(), sep) == seq![Seq::<char>::empty()]);
    assert(seq![Seq::<char>::empty()].update(0, Seq::<char>::empty() + x) =~= seq![x]);
}

/// Once a separator has been seen, text appended does not change the first
/// piece.
pub proof fn lemma_split_first_stable(a: Seq<char>, b: Seq<char>, sep: char)
    requires
        split_on(a, sep).len() >= 2,
    ensures
        split_on(a + b, sep).len() >= 2,
        split_on(a + b, sep)[0] == split_on(a, sep)[0],
    decreases b.len(),
{
    if b.len() == 0 {
        assert(a + b =~= a);
    } else {
        lemma_split_first_stable(a, b.drop_last(), sep);
        assert((a + b).drop_last() =~= a + b.drop_last());
    }
}

/// Trimming a text whose first part (not ending in white space) is followed
/// by a character that is not white space keeps the trim of that part and
/// the character, in front.
pub proof fn lemma_trimmed_before(m: Seq<char>, c: char, p: Seq<char>)
    requires
        !is_white_space(c),
        m.len() > 0 ==> !is_white_space(m[m.len() - 1]),
    ensures
        trimmed(m.push(c) + p).len() >= trimmed(m).len() + 1,
        trimmed(m.push(c) + p).take((trimmed(m).len() + 1) as int) == trimmed(m).push(c),
{
    let s = m.push(c) + p;
    let n = m.len() as int;
    lemma_leading_end(m, 0);
    let a = leading_end(m, 0);
    assert forall|j: int| 0 <= j < a implies is_white_space(#[trigger] s[j]) by {
        assert(s[j] == m[j]);
    }
    if a < n {
        assert(s[a] == m[a]);
    } else {
        assert(s[n] == c);
    }
    lemma_leading_end_at(s, 0, a);
    lemma_trailing_start(s, a, s.len() as int);
    let b = trailing_start(s, a, s.len() as int);
    assert(s[n] == c);
    assert(b >= n + 1);
    lemma_trailing_start_at(m, a, n, n);
    assert(trimmed(m) == m.subrange(a, n));
    assert(trimmed(s) == s.subrange(a, b));
    assert(trimmed(s).take(n - a + 1) =~= m.subrange(a, n).push(c));
}

/// Splitting pieces that hold no separator after joining them with it gives
/// the pieces back.
pub proof fn lemma_split_join(pieces: Seq<Seq<char>>, sep: char)
    requires
        pieces.len() >= 1,
        forall|k: int| 0 <= k < pieces.len() ==> !has_char(#[trigger] pieces[k], sep),
    ensures
        split_on(join_with(pieces, sep), sep) == pieces,
    decreases pieces.len(),
{
    if pieces.len() == 1 {
        lemma_split_on_append(Seq::empty(), pieces[0], sep);
        assert(Seq::<char>::empty() + pieces[0] =~= pieces[0]);
        assert(Seq::<char>::empty() + pieces[0] =~= pieces[0]);
        assert(split_on(Seq::<char>::empty(), sep) == seq![Seq::<char>::empty()]);
        assert(split_on(pieces[0], sep) =~= pieces);
    } else {
        let init = pieces.drop_last();
        lemma_split_join(init, sep);
        let j = join_with(init, sep);
        let jp = j.push(sep);
        assert(jp.drop_last() =~= j);
        assert(split_on(jp, sep) == init.push(Seq::empty()));
        assert(!has_char(pieces.last(), sep));
        lemma_split_on_append(jp, pieces.last(), sep);
        assert(Seq::<char>::empty() + pieces.last() =~= pieces.last());
        assert(split_on(jp + pieces.last(), sep) =~= pieces);
    }
}

/// Whether every character of `s` is ASCII.
pub open spec fn all_ascii(s: Seq<char>) -> bool {
    forall|i: int| 0 <= i < s.len() ==> (#[trigger] s[i] as u32) < 0x80
}

/// The ASCII lowercase form of a character: `A` to `Z` become `a` to `z`,
/// every other character stays.
pub open spec fn ascii_lower_char(c: char) -> char {
    if 0x41 <= (c as u32) <= 0x5a {
        ((c as u32) + 0x20) as char
    } else {
        c
    }
}

/// The ASCII lowercase form of a text.
pub open spec fn ascii_lowercase(s: Seq<char>) -> Seq<char> {
    s.map_values(|c: char| ascii_lower_char(c))
}

/// Calls `str::to_lowercase`, which gives the Unicode lowercase form of the
/// string. The contract names that result as [`lowercase_of`] of the
/// input and states one fact of it: on ASCII text it is the ASCII lowercase
/// form (the standard library documents `to_lowercase` as lowercasing ASCII
/// characters in addition to non-ASCII ones, where `to_ascii_lowercase` maps
/// `A` to `Z` onto `a` to `z` and leaves everything else). Nothing is said of
/// other text.
#[verifier::external_body]
pub(crate) fn lowercase(s: &str) -> (r: String)
    ensures
        r@ == lowercase_of(s@),
        all_ascii(s@) ==> r@ == ascii_lowercase(s@),
{
    s.to_lowercase()
}

/// Calls `String::push`, which the standard library documents as appending
/// the character to the end of the string.
#[verifier::external_body]
pub(crate) fn push_char(s: &mut String, c: char)
    ensures
        final(s)@ == old(s)@.push(c),
{
    s.push(c)
}

/// Whether `c` ends the first segment of a language tag (`-` or `_`).
pub open spec fn is_tag_separator(c: char) -> bool {
    c == '-' || c == '_'
}

/// The first index at or after `i` that holds a tag separator (or the length).
pub open spec fn segment_end(s: Seq<char>, i: int) -> int
    decreases s.len() - i,
{
    if 0 <= i < s.len() && !is_tag_separator(s[i]) {
        segment_end(s, i + 1)
    } else {
        i
    }
}

/// No tag separator comes before the end of the first segment.
pub proof fn lemma_segment_end(s: Seq<char>, i: int)
    requires
        0 <= i <= s.len(),
    ensures
        i <= segment_end(s, i) <= s.len(),
        forall|k: int| i <= k < segment_end(s, i) ==> !is_tag_separator(#[trigger] s[k]),
    decreases s.len() - i,
{
    if i < s.len() && !is_tag_separator(s[i]) {
        lemma_segment_end(s, i + 1);
    }
}

/// The part of `s` before its first `-` or `_`, as the first item of
/// `str::split(['-', '_'])`.
pub open spec fn first_segment(s: Seq<char>) -> Seq<char> {
    s.take(segment_end(s, 0))
}

/// The part of `s` before its first `-` or `_`.
pub fn first_tag_segment(s: &str) -> (r: &str)
    ensures
        r@ == first_segment(s@),
{
    let n = s.unicode_len();
    let mut i: usize = 0;
    while i < n && s.get_char(i) != '-' && s.get_char(i) != '_'
        invariant
            0 <= i <= n,
            n == s@.len(),
            segment_end(s@, i as int) == segment_end(s@, 0),
        decreases n - i,
    {
        i = i + 1;
    }
    s.substring_char(0, i)
}

} // verus!
