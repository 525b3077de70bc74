use vstd::prelude::*;

verus! {

/// Whether a character is whitespace: whether Unicode gives it the
/// property `White_Space`.
pub open spec fn whitespace(c: char) -> bool {
    let n = c as u32;
    ||| 0x09 <= n <= 0x0D
    ||| n == 0x20
    ||| n == 0x85
    ||| n == 0xA0
    ||| n == 0x1680
    ||| 0x2000 <= n <= 0x200A
    ||| n == 0x2028
    ||| n == 0x2029
    ||| n == 0x202F
    ||| n == 0x205F
    ||| n == 0x3000
}

/// Whether a character is whitespace.
pub fn is_whitespace(c: char) -> (r: bool)
    ensures
        r == whitespace(c),
{
    let n = c as u32;
    (0x09 <= n && n <= 0x0D) || n == 0x20 || n == 0x85 || n == 0xA0 || n == 0x1680 || (0x2000 <= n
        && n <= 0x200A) || n == 0x2028 || n == 0x2029 || n == 0x202F || n == 0x205F || n == 0x3000
}

/// `String::push` appends one character to the end of the string.
pub assume_specification[ String::push ](s: &mut String, ch: char)
    ensures
        final(s)@ == old(s)@.push(ch),
;

/// `s` without its longest prefix of characters that satisfy `p`.
pub open spec fn skip_leading(s: Seq<char>, p: spec_fn(char) -> bool) -> Seq<char>
    decreases s.len(),
{
    if s.len() > 0 && p(s[0]) {
        skip_leading(s.drop_first(), p)
    } else {
        s
    }
}

/// `s` without its longest suffix of characters that satisfy `p`.
pub open spec fn skip_trailing(s: Seq<char>, p: spec_fn(char) -> bool) -> Seq<char>
    decreases s.len(),
{
    if s.len() > 0 && p(s.last()) {
        skip_trailing(s.drop_last(), p)
    } else {
        s
    }
}

/// `s` with the characters that satisfy `p` removed from both ends.
pub open spec fn stripped(s: Seq<char>, p: spec_fn(char) -> bool) -> Seq<char> {
    skip_trailing(skip_leading(s, p), p)
}

/// `whitespace` as a predicate.
pub open spec fn is_space() -> spec_fn(char) -> bool {
    |c: char| whitespace(c)
}

/// `s` with whitespace removed from both ends.
pub open spec fn trimmed(s: Seq<char>) -> Seq<char> {
    stripped(s, is_space())
}

/// Whether `s` holds nothing but whitespace.
pub open spec fn blank(s: Seq<char>) -> bool {
    trimmed(s).len() == 0
}

/// The prefix that `skip_leading` removes ends at the first character that
/// does not satisfy `p`.
pub proof fn lemma_skip_leading(s: Seq<char>, p: spec_fn(char) -> bool, i: int)
    requires
        0 <= i <= s.len(),
        forall|k: int| 0 <= k < i ==> p(#[trigger] s[k]),
        i == s.len() || !p(s[i]),
    ensures
        skip_leading(s, p) == s.skip(i),
    decreases i,
{
    if i == 0 {
        assert(s.skip(0) =~= s);
    } else {
        assert(p(s[0]));
        let rest = s.drop_first();
        assert forall|k: int| 0 <= k < i - 1 implies p(#[trigger] rest[k]) by {
            assert(rest[k] == s[k + 1]);
        }
        lemma_skip_leading(rest, p, i - 1);
        assert(rest.skip(i - 1) =~= s.skip(i));
    }
}

/// The suffix that `skip_trailing` removes starts after the last character
/// that does not satisfy `p`.
pub proof fn lemma_skip_trailing(s: Seq<char>, p: spec_fn(char) -> bool, j: int)
    requires
        0 <= j <= s.len(),
        forall|k: int| j <= k < s.len() ==> p(#[trigger] s[k]),
        j == 0 || !p(s[j - 1]),
    ensures
        skip_trailing(s, p) == s.take(j),
    decreases s.len() - j,
{
    if j == s.len() {
        assert(s.take(j) =~= s);
    } else {
        assert(p(s.last()));
        let rest = s.drop_last();
        assert forall|k: int| j <= k < rest.len() implies p(#[trigger] rest[k]) by {
            assert(rest[k] == s[k]);
        }
        lemma_skip_trailing(rest, p, j);
        assert(rest.take(j) =~= s.take(j));
    }
}

/// The characters of `s`, in order.
pub fn chars_of(s: &str) -> (v: Vec<char>)
    ensures
        v@ == s@,
{
    let mut v: Vec<char> = Vec::new();
    for c in it: s.chars()
        invariant
            it.seq() == s@,
            v@ == s@.take(it.index() as int),
    {
        v.push(c);
    }
    v
}

/// The string made of the characters `v[from..to]`.
pub fn string_of_range(v: &Vec<char>, from: usize, to: usize) -> (s: String)
    requires
        from <= to <= v.len(),
    ensures
        s@ == v@.subrange(from as int, to as int),
{
    let mut s = String::new();
    let mut i: usize = from;
    while i < to
        invariant
            from <= i <= to <= v.len(),
            s@ == v@.subrange(from as int, i as int),
        decreases to - i,
    {
        s.push(v[i]);
        i += 1;
        assert(v@.subrange(from as int, i as int) =~= v@.subrange(from as int, i - 1).push(
            v@[i - 1],
        ));
    }
    s
}

/// The string made of the characters of `v`, in order.
pub fn string_of(v: &Vec<char>) -> (s: String)
    ensures
        s@ == v@,
{
    assert(v@.subrange(0, v.len() as int) =~= v@);
    string_of_range(v, 0, v.len())
}

/// Whether two texts hold the same characters.
pub fn same_text(a: &str, b: &str) -> (r: bool)
    ensures
        r == (a@ == b@),
{
    let x = chars_of(a);
    let y = chars_of(b);
    if x.len() != y.len() {
        return false;
    }
    let mut i: usize = 0;
    while i < x.len()
        invariant
            i <= x.len(),
            x.len() == y.len(),
            x@ == a@,
            y@ == b@,
            forall|k: int| 0 <= k < i ==> x@[k] == y@[k],
        decreases x.len() - i,
    {
        if x[i] != y[i] {
            return false;
        }
        i += 1;
    }
    assert(a@ =~= b@);
    true
}

/// The characters of `s` between the whitespace at its two ends.
pub fn trim_chars(v: &Vec<char>) -> (r: (usize, usize))
    ensures
        r.0 <= r.1 <= v.len(),
        trimmed(v@) == v@.subrange(r.0 as int, r.1 as int),
{
    let mut i: usize = 0;
    while i < v.len() && is_whitespace(v[i])
        invariant
            i <= v.len(),
            forall|k: int| 0 <= k < i ==> whitespace(#[trigger] v@[k]),
        decreases v.len() - i,
    {
        i += 1;
    }
    let mut j: usize = v.len();
    while j > i && is_whitespace(v[j - 1])
        invariant
            i <= j <= v.len(),
            forall|k: int| j <= k < v.len() ==> whitespace(#[trigger] v@[k]),
        decreases j,
    {
        j -= 1;
    }
    proof {
        let p = is_space();
        assert forall|k: int| 0 <= k < i implies p(#[trigger] v@[k]) by {
            assert(whitespace(v@[k]));
        }
        lemma_skip_leading(v@, p, i as int);
        let rest = v@.skip(i as int);
        assert forall|k: int| j - i <= k < rest.len() implies p(#[trigger] rest[k]) by {
            assert(rest[k] == v@[k + i]);
            assert(whitespace(v@[k + i]));
        }
        if j > i {
            assert(rest[j - i - 1] == v@[j - 1]);
        } else if i < v.len() {
            assert(!p(v@[i as int]));
        }
        if j == i && i < v.len() {
            assert(p(v@[i as int]));
        }
        lemma_skip_trailing(rest, p, j - i);
        assert(rest.take(j - i) =~= v@.subrange(i as int, j as int));
    }
    (i, j)
}

/// `s` with the whitespace at both ends removed, as `str::trim` gives it.
pub fn trim(s: &str) -> (r: String)
    ensures
        r@ == trimmed(s@),
{
    let v = chars_of(s);
    let (i, j) = trim_chars(&v);
    string_of_range(&v, i, j)
}

/// Whether `s` is empty once trimmed.
pub fn is_blank(s: &str) -> (r: bool)
    ensures
        r == blank(s@),
{
    let v = chars_of(s);
    let (i, j) = trim_chars(&v);
    i == j
}

/// The characters of a result whose two sides are texts.
pub open spec fn result_texts(r: Result<String, String>) -> Result<Seq<char>, Seq<char>> {
    match r {
        Ok(text) => Ok(text@),
        Err(text) => Err(text@),
    }
}

/// The characters of an optional text.
pub open spec fn option_text(o: Option<String>) -> Option<Seq<char>> {
    match o {
        Some(text) => Some(text@),
        None => None,
    }
}

/// The texts of a list of strings.
pub open spec fn texts(list: Seq<String>) -> Seq<Seq<char>> {
    list.map_values(|s: String| s@)
}

/// Whether a list of strings holds the text `s`.
pub fn holds_text(list: &Vec<String>, s: &str) -> (r: bool)
    ensures
        r == texts(list@).contains(s@),
{
    let mut i: usize = 0;
    while i < list.len()
        invariant
            i <= list.len(),
            forall|k: int| 0 <= k < i ==> texts(list@)[k] != s@,
        decreases list.len() - i,
    {
        if same_text(list[i].as_str(), s) {
            assert(texts(list@)[i as int] == s@);
            return true;
        }
        i += 1;
    }
    false
}

/// The decimal digit for a number below ten.
pub open spec fn digit(d: nat) -> char {
    if d == 0 {
        '0'
    } else if d == 1 {
        '1'
    } else if d == 2 {
        '2'
    } else if d == 3 {
        '3'
    } else if d == 4 {
        '4'
    } else if d == 5 {
        '5'
    } else if d == 6 {
        '6'
    } else if d == 7 {
        '7'
    } else if d == 8 {
        '8'
    } else {
        '9'
    }
}

/// The decimal numeral of `n`, without leading zeros.
pub open spec fn numeral(n: nat) -> Seq<char>
    decreases n,
{
    if n < 10 {
        seq![digit(n)]
    } else {
        numeral(n / 10).push(digit(n % 10))
    }
}

/// The decimal digit for a number below ten.
pub fn digit_char(d: u64) -> (c: char)
    requires
        d < 10,
    ensures
        c == digit(d as nat),
{
    if d == 0 {
        '0'
    } else if d == 1 {
        '1'
    } else if d == 2 {
        '2'
    } else if d == 3 {
        '3'
    } else if d == 4 {
        '4'
    } else if d == 5 {
        '5'
    } else if d == 6 {
        '6'
    } else if d == 7 {
        '7'
    } else if d == 8 {
        '8'
    } else {
        '9'
    }
}

/// The decimal numeral of `n`.
pub fn decimal(n: u64) -> (r: Vec<char>)
    ensures
        r@ == numeral(n as nat),
    decreases n,
{
    if n < 10 {
        let mut r: Vec<char> = Vec::new();
        r.push(digit_char(n));
        assert(r@ =~= seq![digit(n as nat)]);
        r
    } else {
        let mut r = decimal(n / 10);
        r.push(digit_char(n % 10));
        r
    }
}

/// Appends the characters of `tail` to `v`.
pub fn extend_chars(v: &mut Vec<char>, tail: &Vec<char>)
    ensures
        final(v)@ == old(v)@ + tail@,
{
    let mut i: usize = 0;
    while i < tail.len()
        invariant
            i <= tail.len(),
            v@ == old(v)@ + tail@.take(i as int),
        decreases tail.len() - i,
    {
        v.push(tail[i]);
        i += 1;
        assert(old(v)@ + tail@.take(i as int) =~= (old(v)@ + tail@.take(i - 1)).push(
            tail@[i - 1],
        ));
    }
    assert(tail@.take(tail.len() as int) =~= tail@);
}

/// Whether `needle` stands somewhere in `hay`.
pub open spec fn has_part(hay: Seq<char>, needle: Seq<char>) -> bool {
    exists|i: int|
        0 <= i <= hay.len() - needle.len() && #[trigger] hay.subrange(i, i + needle.len())
            == needle
}

/// Whether `needle` stands in `hay` at the index `at`.
fn part_at(hay: &Vec<char>, needle: &Vec<char>, at: usize) -> (r: bool)
    requires
        at + needle.len() <= hay.len(),
    ensures
        r == (hay@.subrange(at as int, at + needle.len()) == needle@),
{
    let mut k: usize = 0;
    while k < needle.len()
        invariant
            k <= needle.len(),
            at + needle.len() <= hay.len(),
            forall|m: int| 0 <= m < k ==> hay@[at + m] == needle@[m],
        decreases needle.len() - k,
    {
        if hay[at + k] != needle[k] {
            assert(hay@.subrange(at as int, at + needle.len())[k as int] != needle@[k as int]);
            return false;
        }
        k += 1;
    }
    assert(hay@.subrange(at as int, at + needle.len()) =~= needle@);
    true
}

/// Whether the text `needle` stands somewhere in the text `hay`.
pub fn contains_text(hay: &str, needle: &str) -> (r: bool)
    ensures
        r == has_part(hay@, needle@),
{
    let h = chars_of(hay);
    let n = chars_of(needle);
    if n.len() > h.len() {
        return false;
    }
    let starts = h.len() - n.len();
    let mut i: usize = 0;
    while i < starts
        invariant
            i <= starts,
            starts == h.len() - n.len(),
            n.len() <= h.len(),
            h@ == hay@,
            n@ == needle@,
            forall|k: int| 0 <= k < i ==> #[trigger] hay@.subrange(k, k + needle@.len()) != needle@,
        decreases starts - i,
    {
        if part_at(&h, &n, i) {
            return true;
        }
        i += 1;
    }
    part_at(&h, &n, starts)
}

/// The pieces of `s` between the occurrences of `sep`. A text without
/// `sep` is one piece; there is always at least one piece.
pub open spec fn pieces(s: Seq<char>, sep: char) -> Seq<Seq<char>>
    decreases s.len(),
{
    if s.len() == 0 {
        seq![Seq::<char>::empty()]
    } else {
        let before = pieces(s.drop_last(), sep);
        if s.last() == sep {
            before.push(Seq::<char>::empty())
        } else {
            before.drop_last().push(before.last().push(s.last()))
        }
    }
}

/// There is always at least one piece.
pub proof fn lemma_pieces_len(s: Seq<char>, sep: char)
    ensures
        pieces(s, sep).len() >= 1,
    decreases s.len(),
{
    if s.len() > 0 {
        lemma_pieces_len(s.drop_last(), sep);
    }
}

/// The texts of `parts` with `sep` between each two of them.
pub open spec fn joined_with(parts: Seq<Seq<char>>, sep: char) -> Seq<char>
    decreases parts.len(),
{
    if parts.len() == 0 {
        Seq::<char>::empty()
    } else if parts.len() == 1 {
        parts[0]
    } else {
        joined_with(parts.drop_last(), sep).push(sep) + parts.last()
    }
}

/// The pieces of a text hold no separator, and joined again with the
/// separator they are the text.
pub proof fn law_split_then_join(s: Seq<char>, sep: char)
    ensures
        joined_with(pieces(s, sep), sep) == s,
        forall|i: int, k: int|
            0 <= i < pieces(s, sep).len() && 0 <= k < pieces(s, sep)[i].len() ==> pieces(
                s,
                sep,
            )[i][k] != sep,
    decreases s.len(),
{
    if s.len() == 0 {
        assert(joined_with(pieces(s, sep), sep) =~= s);
    } else {
        let t = s.drop_last();
        let c = s.last();
        let before = pieces(t, sep);
        law_split_then_join(t, sep);
        lemma_pieces_len(t, sep);
        let now = pieces(s, sep);
        if c == sep {
            assert(now.drop_last() =~= before);
            assert(joined_with(now, sep) =~= t.push(sep));
        } else {
            if before.len() == 1 {
                assert(now.len() == 1);
                assert(joined_with(now, sep) =~= t.push(c));
            } else {
                assert(now.drop_last() =~= before.drop_last());
                assert(joined_with(now, sep) =~= joined_with(before, sep).push(c));
            }
        }
        assert(t.push(c) =~= s);
        assert forall|i: int, k: int|
            0 <= i < now.len() && 0 <= k < now[i].len() implies now[i][k] != sep by {
            if i < before.len() - 1 {
                assert(now[i] == before[i]);
            } else if c != sep && i == before.len() - 1 {
                if k < before[i].len() {
                    assert(now[i][k] == before[i][k]);
                }
            } else if c == sep && i == before.len() - 1 {
                assert(now[i] == before[i]);
            }
        }
    }
}

/// What is left of a text after trimming neither starts nor ends with whitespace.
pub proof fn law_trimmed_ends(s: Seq<char>)
    ensures
        trimmed(s).len() > 0 ==> !whitespace(trimmed(s)[0]) && !whitespace(trimmed(s).last()),
{
    let p = is_space();
    let rest = skip_leading(s, p);
    lemma_leading_stops(s, p);
    lemma_trailing_stops(rest, p);
    if trimmed(s).len() > 0 {
        lemma_trailing_keeps_start(rest, p);
    }
}

/// What `skip_leading` leaves does not start with a character that satisfies `p`.
pub proof fn lemma_leading_stops(s: Seq<char>, p: spec_fn(char) -> bool)
    ensures
        skip_leading(s, p).len() > 0 ==> !p(skip_leading(s, p)[0]),
    decreases s.len(),
{
    if s.len() > 0 && p(s[0]) {
        lemma_leading_stops(s.drop_first(), p);
    }
}

/// What `skip_trailing` leaves does not end with a character that satisfies `p`.
pub proof fn lemma_trailing_stops(s: Seq<char>, p: spec_fn(char) -> bool)
    ensures
        skip_trailing(s, p).len() > 0 ==> !p(skip_trailing(s, p).last()),
    decreases s.len(),
{
    if s.len() > 0 && p(s.last()) {
        lemma_trailing_stops(s.drop_last(), p);
    }
}

/// What `skip_trailing` leaves starts as the text starts, where it leaves anything.
pub proof fn lemma_trailing_keeps_start(s: Seq<char>, p: spec_fn(char) -> bool)
    ensures
        skip_trailing(s, p).len() > 0 ==> s.len() > 0 && skip_trailing(s, p)[0] == s[0],
    decreases s.len(),
{
    if s.len() > 0 && p(s.last()) {
        lemma_trailing_keeps_start(s.drop_last(), p);
    }
}

/// Splits `s` at every occurrence of `sep`.
pub fn split(s: &str, sep: char) -> (r: Vec<String>)
    ensures
        texts(r@) == pieces(s@, sep),
{
    let v = chars_of(s);
    let mut done: Vec<String> = Vec::new();
    let mut current: Vec<char> = Vec::new();
    let mut i: usize = 0;
    proof {
        assert(s@.take(0) =~= Seq::<char>::empty());
        assert(texts(done@).push(current@) =~= seq![Seq::<char>::empty()]);
    }
    while i < v.len()
        invariant
            i <= v.len(),
            v@ == s@,
            texts(done@).push(current@) == pieces(s@.take(i as int), sep),
        decreases v.len() - i,
    {
        let ghost before = pieces(s@.take(i as int), sep);
        let ghost finished = texts(done@);
        let ghost piece = current@;
        proof {
            assert(s@.take(i + 1).drop_last() =~= s@.take(i as int));
            assert(s@.take(i + 1).last() == v@[i as int]);
            assert(before.drop_last() =~= finished);
            assert(before.last() == piece);
        }
        if v[i] == sep {
            done.push(string_of(&current));
            current = Vec::new();
            proof {
                assert(texts(done@) =~= finished.push(piece));
                assert(texts(done@).push(current@) =~= before.push(Seq::<char>::empty()));
            }
        } else {
            current.push(v[i]);
            proof {
                assert(texts(done@).push(current@) =~= before.drop_last().push(
                    before.last().push(v@[i as int]),
                ));
            }
        }
        i += 1;
    }
    let ghost finished = texts(done@);
    done.push(string_of(&current));
    proof {
        assert(s@.take(v.len() as int) =~= s@);
        assert(texts(done@) =~= finished.push(current@));
    }
    done
}

/// Joins the texts of `parts` with `sep` between each two of them.
pub fn join(parts: &Vec<String>, sep: char) -> (r: String)
    ensures
        r@ == joined_with(texts(parts@), sep),
{
    let mut out: Vec<char> = Vec::new();
    let mut i: usize = 0;
    proof {
        assert(texts(parts@).take(0) =~= Seq::<Seq<char>>::empty());
    }
    while i < parts.len()
        invariant
            i <= parts.len(),
            out@ == joined_with(texts(parts@).take(i as int), sep),
        decreases parts.len() - i,
    {
        let ghost before = texts(parts@).take(i as int);
        proof {
            assert(texts(parts@).take(i + 1).drop_last() =~= before);
            assert(texts(parts@).take(i + 1).last() == parts@[i as int]@);
        }
        if i > 0 {
            out.push(sep);
        }
        let piece = chars_of(parts[i].as_str());
        extend_chars(&mut out, &piece);
        proof {
            if i == 0 {
                assert(before =~= Seq::<Seq<char>>::empty());
                assert(out@ =~= parts@[0]@);
                assert(texts(parts@).take(1)[0] == parts@[0]@);
            }
        }
        i += 1;
    }
    proof {
        assert(texts(parts@).take(parts@.len() as int) =~= texts(parts@));
    }
    string_of(&out)
}

/// The text `a` followed by the text `b`.
pub fn concat(a: &str, b: &str) -> (r: String)
    ensures
        r@ == a@ + b@,
{
    let mut v = chars_of(a);
    let tail = chars_of(b);
    extend_chars(&mut v, &tail);
    string_of(&v)
}

} // verus!
