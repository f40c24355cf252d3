//! Character-level views of the string operations the application relies on.
use vstd::prelude::*;

verus! {

/// Whether `c` has the Unicode `White_Space` property: tab through carriage return, space,
/// next line, no-break space, ogham space mark, en quad through hair space, line and
/// paragraph separator, narrow no-break space, medium mathematical space and ideographic
/// space (25 code points).
pub open spec fn unicode_white_space(c: char) -> bool {
    let u = c as u32;
    ||| 0x09 <= u <= 0x0D
    ||| u == 0x20
    ||| u == 0x85
    ||| u == 0xA0
    ||| u == 0x1680
    ||| 0x2000 <= u <= 0x200A
    ||| u == 0x2028
    ||| u == 0x2029
    ||| u == 0x202F
    ||| u == 0x205F
    ||| u == 0x3000
}

/// `char::is_whitespace`: std documents it as "has the Unicode White_Space property",
/// the property listed in `unicode_white_space`.
pub assume_specification[ char::is_whitespace ](c: char) -> (b: bool)
    ensures
        b == unicode_white_space(c),
;

/// `String::push` appends one character at the end of the string.
pub assume_specification[ String::push ](s: &mut String, ch: char)
    ensures
        final(s)@ == old(s)@.push(ch),
;

/// The lowercase form of `s` as `str::to_lowercase` computes it (Unicode case mapping).
pub uninterp spec fn lowercase(s: Seq<char>) -> Seq<char>;

/// `str::to_lowercase`: the result is the Unicode lowercase mapping of the whole string,
/// a function of the string alone; the mapping itself is left to the name `lowercase`.
pub assume_specification[ str::to_lowercase ](s: &str) -> (res: String)
    ensures
        res@ == lowercase(s@),
;

/// The characters of `s`, in order.
pub fn chars_of(s: &str) -> (v: Vec<char>)
    ensures
        v@ == s@,
{
    let mut v: Vec<char> = Vec::new();
    for c in it: s.chars()
        invariant
            v@ == it.seq().take(it.index() as int),
    {
        v.push(c);
    }
    v
}

/// The string made of `v[from..to]`.
pub fn string_of_range(v: &Vec<char>, from: usize, to: usize) -> (s: String)
    requires
        from <= to <= v.len(),
    ensures
        s@ == v@.subrange(from as int, to as int),
{
    let mut s = String::new();
    let mut i = from;
    while i < to
        invariant
            from <= i <= to <= v.len(),
            s@ == v@.subrange(from as int, i as int),
        decreases to - i,
    {
        s.push(v[i]);
        assert(v@.subrange(from as int, i + 1) =~= v@.subrange(from as int, i as int).push(v@[i as int]));
        i += 1;
    }
    s
}

/// `s` without its leading whitespace.
pub open spec fn trim_start_spec(s: Seq<char>) -> Seq<char>
    decreases s.len(),
{
    if s.len() > 0 && unicode_white_space(s[0]) {
        trim_start_spec(s.drop_first())
    } else {
        s
    }
}

/// `s` without its trailing whitespace.
pub open spec fn trim_end_spec(s: Seq<char>) -> Seq<char>
    decreases s.len(),
{
    if s.len() > 0 && unicode_white_space(s.last()) {
        trim_end_spec(s.drop_last())
    } else {
        s
    }
}

/// `s` without leading and trailing whitespace (what `str::trim` returns).
pub open spec fn trim_spec(s: Seq<char>) -> Seq<char> {
    trim_end_spec(trim_start_spec(s))
}

/// `s` with leading and trailing whitespace removed.
pub fn trim(s: &str) -> (t: String)
    ensures
        t@ == trim_spec(s@),
{
    let v = chars_of(s);
    let n = v.len();
    let mut i: usize = 0;
    assert(s@.skip(0) =~= s@);
    while i < n && v[i].is_whitespace()
        invariant
            i <= n == v@.len(),
            v@ == s@,
            trim_start_spec(s@) == trim_start_spec(s@.skip(i as int)),
        decreases n - i,
    {
        assert(s@.skip(i as int).drop_first() =~= s@.skip(i + 1));
        i += 1;
    }
    assert(trim_start_spec(s@.skip(i as int)) == s@.skip(i as int));
    assert(s@.skip(i as int) =~= s@.subrange(i as int, n as int));
    let mut j: usize = n;
    while j > i && v[j - 1].is_whitespace()
        invariant
            i <= j <= n == v@.len(),
            v@ == s@,
            trim_spec(s@) == trim_end_spec(s@.subrange(i as int, j as int)),
        decreases j - i,
    {
        assert(s@.subrange(i as int, j as int).drop_last() =~= s@.subrange(i as int, j - 1));
        j -= 1;
    }
    string_of_range(&v, i, j)
}

/// `needle` occurs in `hay` starting at character index `i`.
pub open spec fn occurs_at(hay: Seq<char>, needle: Seq<char>, i: int) -> bool {
    &&& 0 <= i
    &&& i + needle.len() <= hay.len()
    &&& hay.subrange(i, i + needle.len()) == needle
}

/// `needle` occurs somewhere in `hay` (what `str::contains` answers for a string pattern).
pub open spec fn seq_contains(hay: Seq<char>, needle: Seq<char>) -> bool {
    exists|i: int| occurs_at(hay, needle, i)
}

/// `hay` begins with `prefix` (what `str::starts_with` answers).
pub open spec fn seq_starts_with(hay: Seq<char>, prefix: Seq<char>) -> bool {
    occurs_at(hay, prefix, 0)
}

/// Whether `needle` occurs in `hay` at index `i`.
pub fn matches_at(hay: &Vec<char>, needle: &Vec<char>, i: usize) -> (b: bool)
    ensures
        b == occurs_at(hay@, needle@, i as int),
{
    if i > hay.len() || needle.len() > hay.len() - i {
        return false;
    }
    let mut k: usize = 0;
    while k < needle.len()
        invariant
            i + needle.len() <= hay.len(),
            k <= needle.len(),
            forall|j: int| 0 <= j < k ==> hay@[i + j] == needle@[j],
        decreases needle.len() - k,
    {
        if hay[i + k] != needle[k] {
            assert(hay@.subrange(i as int, i + needle.len())[k as int] != needle@[k as int]);
            return false;
        }
        k += 1;
    }
    assert(hay@.subrange(i as int, i + needle.len()) =~= needle@);
    true
}

/// The first index at which `needle` occurs in `hay`, if any.
pub fn find_seq(hay: &Vec<char>, needle: &Vec<char>) -> (r: Option<usize>)
    ensures
        match r {
            Some(i) => occurs_at(hay@, needle@, i as int) && forall|j: int|
                0 <= j < i ==> !occurs_at(hay@, needle@, j),
            None => !seq_contains(hay@, needle@),
        },
{
    if needle.len() > hay.len() {
        return None;
    }
    let last = hay.len() - needle.len();
    let mut i: usize = 0;
    loop
        invariant
            last == hay.len() - needle.len(),
            needle.len() <= hay.len(),
            i <= last,
            forall|j: int| 0 <= j < i ==> !occurs_at(hay@, needle@, j),
        decreases last - i,
    {
        if matches_at(hay, needle, i) {
            return Some(i);
        }
        if i == last {
            return None;
        }
        i += 1;
    }
}

/// Whether `needle` occurs in `hay`.
pub fn contains(hay: &str, needle: &str) -> (b: bool)
    ensures
        b == seq_contains(hay@, needle@),
{
    let h = chars_of(hay);
    let n = chars_of(needle);
    find_seq(&h, &n).is_some()
}

/// Whether `hay` begins with `prefix`.
pub fn starts_with(hay: &str, prefix: &str) -> (b: bool)
    ensures
        b == seq_starts_with(hay@, prefix@),
{
    let h = chars_of(hay);
    let p = chars_of(prefix);
    matches_at(&h, &p, 0)
}

/// The first index of `c` in `s`, if any.
pub open spec fn first_index_of(s: Seq<char>, c: char) -> Option<int> {
    if exists|i: int| 0 <= i < s.len() && s[i] == c {
        Some(choose|i: int| 0 <= i < s.len() && s[i] == c && forall|j: int| 0 <= j < i ==> s[j] != c)
    } else {
        None
    }
}

/// The first index of `c` in `v`, if any.
pub fn find_char(v: &Vec<char>, c: char) -> (r: Option<usize>)
    ensures
        match r {
            Some(i) => i < v.len() && v@[i as int] == c && forall|j: int| 0 <= j < i ==> v@[j] != c,
            None => forall|j: int| 0 <= j < v.len() ==> v@[j] != c,
        },
        r matches Some(i) ==> first_index_of(v@, c) == Some(i as int),
        r is None <==> first_index_of(v@, c) is None,
{
    let mut i: usize = 0;
    while i < v.len()
        invariant
            i <= v.len(),
            forall|j: int| 0 <= j < i ==> v@[j] != c,
        decreases v.len() - i,
    {
        if v[i] == c {
            proof {
                let w = choose|k: int| 0 <= k < v@.len() && v@[k] == c && forall|j: int| 0 <= j < k ==> v@[j] != c;
                assert(0 <= i < v@.len() && v@[i as int] == c && forall|j: int| 0 <= j < i ==> v@[j] != c);
                if w < i { assert(v@[w] != c); }
                if w > i { assert(v@[i as int] != c); }
            }
            return Some(i);
        }
        i += 1;
    }
    None
}

/// `s` with every non-overlapping occurrence of `from`, scanned left to right, replaced by `to`
/// (what `str::replace` returns for a non-empty pattern).
pub open spec fn replace_spec(s: Seq<char>, from: Seq<char>, to: Seq<char>) -> Seq<char>
    decreases s.len(),
{
    if from.len() == 0 || s.len() < from.len() {
        s
    } else if s.take(from.len() as int) == from {
        to + replace_spec(s.skip(from.len() as int), from, to)
    } else {
        seq![s[0]] + replace_spec(s.drop_first(), from, to)
    }
}

/// Replaces every occurrence of the non-empty pattern `from` in `s` by `to`.
pub fn replace_all(s: &str, from: &str, to: &str) -> (r: String)
    requires
        from@.len() > 0,
    ensures
        r@ == replace_spec(s@, from@, to@),
{
    let v = chars_of(s);
    let f = chars_of(from);
    let n = v.len();
    let m = f.len();
    let mut out = String::new();
    let mut i: usize = 0;
    assert(s@.skip(0) =~= s@);
    while i < n
        invariant
            i <= n == v@.len(),
            m == f@.len() > 0,
            v@ == s@,
            f@ == from@,
            replace_spec(s@, from@, to@) == out@ + replace_spec(s@.skip(i as int), from@, to@),
        decreases n - i,
    {
        let ghost rest = s@.skip(i as int);
        if matches_at(&v, &f, i) {
            assert(rest.take(m as int) =~= s@.subrange(i as int, i + m));
            assert(rest.skip(m as int) =~= s@.skip(i + m));
            out.append(to);
            i += m;
        } else {
            assert(rest.len() >= m ==> rest.take(m as int) =~= s@.subrange(i as int, i + m));
            assert(rest.drop_first() =~= s@.skip(i + 1));
            proof {
                if rest.len() < m {
                    assert(rest =~= seq![rest[0]] + s@.skip(i + 1));
                }
            }
            out.push(v[i]);
            i += 1;
        }
    }
    assert(s@.skip(n as int) =~= Seq::<char>::empty());
    out
}

/// Leading whitespace in front of text that starts otherwise is dropped, and nothing more.
proof fn lemma_trim_start_skips(a: Seq<char>, r: Seq<char>)
    requires
        forall|i: int| 0 <= i < a.len() ==> unicode_white_space(#[trigger] a[i]),
        r.len() == 0 || !unicode_white_space(r[0]),
    ensures
        trim_start_spec(a + r) == r,
    decreases a.len(),
{
    if a.len() == 0 {
        assert(a + r =~= r);
    } else {
        let a1 = a.drop_first();
        assert forall|i: int| 0 <= i < a1.len() implies unicode_white_space(#[trigger] a1[i]) by {
            assert(a1[i] == a[i + 1]);
        }
        lemma_trim_start_skips(a1, r);
        assert((a + r)[0] == a[0]);
        assert((a + r).drop_first() =~= a1 + r);
    }
}

/// Trailing whitespace behind text that ends otherwise is dropped, and nothing more.
proof fn lemma_trim_end_skips(r: Seq<char>, b: Seq<char>)
    requires
        forall|i: int| 0 <= i < b.len() ==> unicode_white_space(#[trigger] b[i]),
        r.len() == 0 || !unicode_white_space(r.last()),
    ensures
        trim_end_spec(r + b) == r,
    decreases b.len(),
{
    if b.len() == 0 {
        assert(r + b =~= r);
    } else {
        let b1 = b.drop_last();
        assert forall|i: int| 0 <= i < b1.len() implies unicode_white_space(#[trigger] b1[i]) by {
            assert(b1[i] == b[i]);
        }
        lemma_trim_end_skips(r, b1);
        assert((r + b).last() == b.last());
        assert((r + b).drop_last() =~= r + b1);
    }
}

/// Trimming keeps exactly the middle: for text `a + m + b` where `a` and `b` are all
/// whitespace and `m` is empty or starts and ends with a character that is not
/// whitespace, the trimmed text is `m`.
pub proof fn lemma_trim_keeps_middle(a: Seq<char>, m: Seq<char>, b: Seq<char>)
    requires
        forall|i: int| 0 <= i < a.len() ==> unicode_white_space(#[trigger] a[i]),
        forall|i: int| 0 <= i < b.len() ==> unicode_white_space(#[trigger] b[i]),
        m.len() == 0 || (!unicode_white_space(m[0]) && !unicode_white_space(m.last())),
    ensures
        trim_spec(a + m + b) == m,
{
    if m.len() == 0 {
        let ab = a + b;
        assert(a + m + b =~= ab);
        assert forall|i: int| 0 <= i < ab.len() implies unicode_white_space(#[trigger] ab[i]) by {
            if i < a.len() {
                assert(ab[i] == a[i]);
            } else {
                assert(ab[i] == b[i - a.len()]);
            }
        }
        lemma_trim_start_skips(ab, m);
        assert(ab + m =~= ab);
        assert(trim_end_spec(m) == m);
    } else {
        assert(a + m + b =~= a + (m + b));
        assert((m + b)[0] == m[0]);
        lemma_trim_start_skips(a, m + b);
        lemma_trim_end_skips(m, b);
    }
}

/// A prefix of the replaced text that holds no character of `to` is a prefix of the
/// original text.
pub proof fn lemma_replace_keeps_prefix(s: Seq<char>, from: Seq<char>, to: Seq<char>, n: int)
    requires
        from.len() > 0,
        to.len() > 0,
        0 <= n <= replace_spec(s, from, to).len(),
        forall|j: int| 0 <= j < n ==> !to.contains(#[trigger] replace_spec(s, from, to)[j]),
    ensures
        n <= s.len(),
        replace_spec(s, from, to).take(n) == s.take(n),
    decreases s.len(),
{
    let r = replace_spec(s, from, to);
    if s.len() < from.len() {
    } else if s.take(from.len() as int) == from {
        if n > 0 {
            assert(r[0] == to[0]);
            assert(!to.contains(r[0]));
            assert(to.contains(to[0]));
        }
    } else if n > 0 {
        let t = s.drop_first();
        let rr = replace_spec(t, from, to);
        assert(r == seq![s[0]] + rr);
        assert forall|j: int| 0 <= j < n - 1 implies !to.contains(#[trigger] rr[j]) by {
            assert(rr[j] == r[j + 1]);
        }
        lemma_replace_keeps_prefix(t, from, to, n - 1);
        assert(r.take(n) =~= seq![s[0]] + rr.take(n - 1));
        assert(s.take(n) =~= seq![s[0]] + t.take(n - 1));
    } else {
        assert(r.take(0) =~= s.take(0));
    }
}

/// Replacing every occurrence of `from` by a non-empty `to` that shares no character with
/// `from` leaves no occurrence of `from` behind.
pub proof fn lemma_replace_removes_all(s: Seq<char>, from: Seq<char>, to: Seq<char>)
    requires
        from.len() > 0,
        to.len() > 0,
        forall|k: int| 0 <= k < to.len() ==> !from.contains(#[trigger] to[k]),
    ensures
        !seq_contains(replace_spec(s, from, to), from),
    decreases s.len(),
{
    let r = replace_spec(s, from, to);
    let m = from.len() as int;
    if s.len() < m {
    } else if s.take(m) == from {
        let rest = s.skip(m);
        let rr = replace_spec(rest, from, to);
        assert(r == to + rr);
        lemma_replace_removes_all(rest, from, to);
        if seq_contains(r, from) {
            let i = choose|i: int| occurs_at(r, from, i);
            if i < to.len() {
                assert(r.subrange(i, i + m)[0] == from[0]);
                assert(r[i] == to[i]);
                assert(from.contains(to[i]));
            } else {
                assert(r.subrange(i, i + m) =~= rr.subrange(i - to.len(), i - to.len() + m));
                assert(occurs_at(rr, from, i - to.len()));
            }
        }
    } else {
        let t = s.drop_first();
        let rr = replace_spec(t, from, to);
        assert(r == seq![s[0]] + rr);
        lemma_replace_removes_all(t, from, to);
        if seq_contains(r, from) {
            let i = choose|i: int| occurs_at(r, from, i);
            if i == 0 {
                assert(r.take(m) =~= r.subrange(0, m));
                assert forall|j: int| 0 <= j < m implies !to.contains(#[trigger] r[j]) by {
                    assert(r[j] == from[j]);
                    if to.contains(r[j]) {
                        let k = choose|k: int| 0 <= k < to.len() && to[k] == r[j];
                        assert(from.contains(to[k]));
                    }
                }
                lemma_replace_keeps_prefix(s, from, to, m);
            } else {
                assert(r.subrange(i, i + m) =~= rr.subrange(i - 1, i - 1 + m));
                assert(occurs_at(rr, from, i - 1));
            }
        }
    }
}

/// Text in which `from` does not occur is left as it is.
pub proof fn lemma_replace_absent(s: Seq<char>, from: Seq<char>, to: Seq<char>)
    requires
        !seq_contains(s, from),
    ensures
        replace_spec(s, from, to) == s,
    decreases s.len(),
{
    let m = from.len() as int;
    if from.len() == 0 || s.len() < m {
    } else if s.take(m) == from {
        assert(s.subrange(0, m) =~= s.take(m));
        assert(occurs_at(s, from, 0));
    } else {
        let t = s.drop_first();
        if seq_contains(t, from) {
            let i = choose|i: int| occurs_at(t, from, i);
            assert(s.subrange(i + 1, i + 1 + m) =~= t.subrange(i, i + m));
            assert(occurs_at(s, from, i + 1));
        }
        lemma_replace_absent(t, from, to);
        assert(seq![s[0]] + t =~= s);
    }
}

/// The views of a sequence of strings.
pub open spec fn views(v: Seq<String>) -> Seq<Seq<char>> {
    v.map_values(|w: String| w@)
}

/// The maximal runs of non-whitespace characters of `s`, in order (what
/// `str::split_whitespace` yields).
pub open spec fn words_spec(s: Seq<char>) -> Seq<Seq<char>>
    decreases s.len(),
{
    if s.len() == 0 {
        Seq::empty()
    } else {
        let prev = words_spec(s.drop_last());
        let c = s.last();
        if unicode_white_space(c) {
            prev
        } else if s.len() >= 2 && !unicode_white_space(s[s.len() - 2]) {
            prev.update(prev.len() - 1, prev.last().push(c))
        } else {
            prev.push(seq![c])
        }
    }
}

/// A word written after text that is empty or ends in whitespace is one more word: for
/// non-empty `w` without whitespace, the words of `s + w` are those of `s` followed by `w`.
pub proof fn lemma_words_add_word(s: Seq<char>, w: Seq<char>)
    requires
        s.len() == 0 || unicode_white_space(s.last()),
        w.len() > 0,
        forall|i: int| 0 <= i < w.len() ==> !unicode_white_space(#[trigger] w[i]),
    ensures
        words_spec(s + w) == words_spec(s).push(w),
    decreases w.len(),
{
    let t = s + w;
    let c = w.last();
    assert(t.last() == c);
    if w.len() == 1 {
        assert(t.drop_last() =~= s);
        assert(seq![c] =~= w);
        if t.len() >= 2 {
            assert(t[t.len() - 2] == s.last());
        }
    } else {
        let w0 = w.drop_last();
        assert forall|i: int| 0 <= i < w0.len() implies !unicode_white_space(#[trigger] w0[i]) by {
            assert(w0[i] == w[i]);
        }
        lemma_words_add_word(s, w0);
        assert(t.drop_last() =~= s + w0);
        assert(t[t.len() - 2] == w[w.len() - 2]);
        let prev = words_spec(s).push(w0);
        assert(prev.last() == w0);
        assert(w0.push(c) =~= w);
        assert(prev.update(prev.len() - 1, prev.last().push(c)) =~= words_spec(s).push(w));
    }
}

/// Whitespace adds no word: when `b` is all whitespace, `s + b` has the words of `s`.
pub proof fn lemma_words_skip_space(s: Seq<char>, b: Seq<char>)
    requires
        forall|i: int| 0 <= i < b.len() ==> unicode_white_space(#[trigger] b[i]),
    ensures
        words_spec(s + b) == words_spec(s),
    decreases b.len(),
{
    if b.len() == 0 {
        assert(s + b =~= s);
    } else {
        let b0 = b.drop_last();
        assert forall|i: int| 0 <= i < b0.len() implies unicode_white_space(#[trigger] b0[i]) by {
            assert(b0[i] == b[i]);
        }
        lemma_words_skip_space(s, b0);
        assert((s + b).drop_last() =~= s + b0);
        assert((s + b).last() == b.last());
    }
}

/// The words read so far, given whether a word is still open and where it started.
pub open spec fn words_so_far(done: Seq<Seq<char>>, s: Seq<char>, in_word: bool, start: int, i: int) -> Seq<Seq<char>> {
    if in_word {
        done.push(s.subrange(start, i))
    } else {
        done
    }
}

/// The whitespace-separated words of `s`.
pub fn split_whitespace(s: &str) -> (words: Vec<String>)
    ensures
        views(words@) == words_spec(s@),
{
    let v = chars_of(s);
    let n = v.len();
    let mut words: Vec<String> = Vec::new();
    let mut in_word = false;
    let mut start: usize = 0;
    let mut i: usize = 0;
    assert(v@.take(0) =~= Seq::<char>::empty());
    assert(views(words@) =~= Seq::<Seq<char>>::empty());
    while i < n
        invariant
            n == v@.len(),
            v@ == s@,
            i <= n,
            in_word ==> start < i,
            in_word <==> (i > 0 && !unicode_white_space(v@[i - 1])),
            words_spec(v@.take(i as int)) == words_so_far(views(words@), v@, in_word, start as int, i as int),
        decreases n - i,
    {
        let c = v[i];
        let ghost before = views(words@);
        proof {
            let t = v@.take(i + 1);
            assert(t.drop_last() =~= v@.take(i as int));
            assert(t.last() == c);
            if i >= 1 {
                assert(t[t.len() - 2] == v@[i - 1]);
            }
        }
        if c.is_whitespace() {
            if in_word {
                let w = string_of_range(&v, start, i);
                words.push(w);
                assert(views(words@) =~= before.push(v@.subrange(start as int, i as int)));
                in_word = false;
            }
        } else {
            if !in_word {
                start = i;
                in_word = true;
                assert(v@.subrange(i as int, i + 1) =~= seq![c]);
                assert(before.push(v@.subrange(i as int, i + 1)) =~= before.push(seq![c]));
            } else {
                let ghost p = before.push(v@.subrange(start as int, i as int));
                assert(v@.subrange(start as int, i as int).push(c) =~= v@.subrange(start as int, i + 1));
                assert(p.update(p.len() - 1, p.last().push(c)) =~= before.push(
                    v@.subrange(start as int, i + 1),
                ));
            }
        }
        i += 1;
    }
    assert(v@.take(n as int) =~= v@);
    if in_word {
        let w = string_of_range(&v, start, n);
        let ghost before = views(words@);
        words.push(w);
        assert(views(words@) =~= before.push(v@.subrange(start as int, n as int)));
    }
    words
}

} // verus!
