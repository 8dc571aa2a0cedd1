//! Text handling on sequences of characters: white space, trimming,
//! splitting into words and joining them again.

use vstd::prelude::*;

verus! {

/// Whether `c` is Unicode white space (the characters with the property
/// `White_Space`).
pub open spec fn is_whitespace(c: char) -> bool {
    let n = c as u32;
    (0x09 <= n && n <= 0x0D) || n == 0x20 || n == 0x85 || n == 0xA0 || n == 0x1680 || (0x2000 <= n
        && n <= 0x200A) || n == 0x2028 || n == 0x2029 || n == 0x202F || n == 0x205F || n == 0x3000
}

/// Tests `c` for Unicode white space.
pub fn is_space(c: char) -> (b: bool)
    ensures
        b == is_whitespace(c),
{
    let n: u32 = c as u32;
    (0x09 <= n && n <= 0x0D) || n == 0x20 || n == 0x85 || n == 0xA0 || n == 0x1680 || (0x2000 <= n
        && n <= 0x200A) || n == 0x2028 || n == 0x2029 || n == 0x202F || n == 0x205F || n == 0x3000
}

/// `String::push`: appends `c` to the end of the text.
pub assume_specification[ String::push ](s: &mut String, c: char)
    ensures
        final(s)@ == old(s)@.push(c),
;

/// The characters of `s`, in order.
pub fn chars_of(s: &str) -> (v: Vec<char>)
    ensures
        v@ == s@,
{
    let mut v: Vec<char> = Vec::new();
    for c in it: s.chars()
        invariant
            v@ == it.seq().take(it.index() as int),
    {
        v.push(c);
    }
    v
}

/// The string made of the characters `v[from..to]`.
pub fn string_of(v: &[char], from: usize, to: usize) -> (s: String)
    requires
        from <= to <= v@.len(),
    ensures
        s@ == v@.subrange(from as int, to as int),
{
    let mut s = String::new();
    let mut i: usize = from;
    while i < to
        invariant
            from <= i <= to <= v@.len(),
            s@ == v@.subrange(from as int, i as int),
        decreases to - i,
    {
        s.push(v[i]);
        i += 1;
        assert(v@.subrange(from as int, i as int) =~= v@.subrange(from as int, i as int - 1).push(
            v@[i as int - 1],
        ));
    }
    s
}

/// The views of a sequence of strings, in order.
pub open spec fn strings_view(v: Seq<String>) -> Seq<Seq<char>> {
    v.map_values(|s: String| s@)
}

/// `s` without the white space at its start.
pub open spec fn trimmed_start(s: Seq<char>) -> Seq<char>
    decreases s.len(),
{
    if s.len() > 0 && is_whitespace(s[0]) {
        trimmed_start(s.drop_first())
    } else {
        s
    }
}

/// `s` without the white space at its end.
pub open spec fn trimmed_end(s: Seq<char>) -> Seq<char>
    decreases s.len(),
{
    if s.len() > 0 && is_whitespace(s.last()) {
        trimmed_end(s.drop_last())
    } else {
        s
    }
}

/// `s` without the white space at both ends.
pub open spec fn trimmed(s: Seq<char>) -> Seq<char> {
    trimmed_end(trimmed_start(s))
}

/// The bounds of `trimmed(v@)` within `v`.
pub fn trim_bounds(v: &[char]) -> (r: (usize, usize))
    ensures
        r.0 <= r.1 <= v@.len(),
        v@.subrange(r.0 as int, r.1 as int) == trimmed(v@),
        trimmed_start(v@) == v@.skip(r.0 as int),
{
    let n = v.len();
    let mut i: usize = 0;
    assert(v@.skip(0) =~= v@);
    while i < n && is_space(v[i])
        invariant
            i <= n == v@.len(),
            trimmed_start(v@) == trimmed_start(v@.skip(i as int)),
        decreases n - i,
    {
        assert(v@.skip(i as int).drop_first() =~= v@.skip(i as int + 1));
        i += 1;
    }
    assert(trimmed_start(v@) == v@.skip(i as int));
    let mut j: usize = n;
    assert(v@.skip(i as int) =~= v@.subrange(i as int, j as int));
    while j > i && is_space(v[j - 1])
        invariant
            i <= j <= n == v@.len(),
            trimmed_end(v@.skip(i as int)) == trimmed_end(v@.subrange(i as int, j as int)),
        decreases j,
    {
        assert(v@.subrange(i as int, j as int).drop_last() =~= v@.subrange(
            i as int,
            j as int - 1,
        ));
        j -= 1;
    }
    (i, j)
}

/// `s` without the white space at both ends.
pub fn trim(s: &str) -> (r: String)
    ensures
        r@ == trimmed(s@),
{
    let v = chars_of(s);
    let (i, j) = trim_bounds(v.as_slice());
    string_of(v.as_slice(), i, j)
}

/// Whether `s` begins with `prefix`.
pub fn starts_with(s: &[char], prefix: &[char]) -> (b: bool)
    ensures
        b == prefix@.is_prefix_of(s@),
{
    if prefix.len() > s.len() {
        return false;
    }
    let mut i: usize = 0;
    while i < prefix.len()
        invariant
            i <= prefix@.len() <= s@.len(),
            forall|k: int| 0 <= k < i ==> s@[k] == prefix@[k],
        decreases prefix@.len() - i,
    {
        if s[i] != prefix[i] {
            assert(s@.subrange(0, prefix@.len() as int)[i as int] != prefix@[i as int]);
            return false;
        }
        i += 1;
    }
    assert(prefix@ =~= s@.subrange(0, prefix@.len() as int));
    true
}

/// The length of the longest prefix of `s` that holds no white space.
pub open spec fn word_len(s: Seq<char>) -> nat
    decreases s.len(),
{
    if s.len() == 0 || is_whitespace(s[0]) {
        0
    } else {
        1 + word_len(s.drop_first())
    }
}

/// A word is a non-empty run of characters without white space.
pub open spec fn is_word(w: Seq<char>) -> bool {
    w.len() > 0 && forall|i: int| 0 <= i < w.len() ==> !is_whitespace(#[trigger] w[i])
}

/// The first word ends within the text, has no white space in it, and ends
/// at white space or at the end of the text.
pub proof fn lemma_word_len_bound(s: Seq<char>)
    ensures
        word_len(s) <= s.len(),
        s.len() > 0 && !is_whitespace(s[0]) ==> word_len(s) >= 1,
        forall|i: int| 0 <= i < word_len(s) ==> !is_whitespace(#[trigger] s[i]),
        word_len(s) < s.len() ==> is_whitespace(s[word_len(s) as int]),
    decreases s.len(),
{
    if s.len() == 0 || is_whitespace(s[0]) {
    } else {
        lemma_word_len_bound(s.drop_first());
        assert forall|i: int| 0 <= i < word_len(s) implies !is_whitespace(#[trigger] s[i]) by {
            if i > 0 {
                assert(s[i] == s.drop_first()[i - 1]);
            }
        }
        if word_len(s) < s.len() {
            assert(s[word_len(s) as int] == s.drop_first()[word_len(s.drop_first()) as int]);
        }
    }
}

/// The words of `s`: its maximal runs of characters that are not white
/// space, in order.
pub open spec fn words(s: Seq<char>) -> Seq<Seq<char>>
    decreases s.len(),
{
    if s.len() == 0 {
        Seq::empty()
    } else if is_whitespace(s[0]) {
        words(s.drop_first())
    } else {
        proof {
            lemma_word_len_bound(s);
        }
        let n = word_len(s) as int;
        seq![s.take(n)] + words(s.skip(n))
    }
}

/// `parts` with `sep` between each two neighbours.
pub open spec fn joined(parts: Seq<Seq<char>>, sep: Seq<char>) -> Seq<char>
    decreases parts.len(),
{
    if parts.len() == 0 {
        Seq::empty()
    } else if parts.len() == 1 {
        parts[0]
    } else {
        joined(parts.drop_last(), sep) + sep + parts.last()
    }
}

/// Splits `s` at white space into its words.
pub fn split_whitespace(s: &str) -> (out: Vec<String>)
    ensures
        strings_view(out@) == words(s@),
{
    let v = chars_of(s);
    let n = v.len();
    let mut out: Vec<String> = Vec::new();
    let mut i: usize = 0;
    assert(v@.skip(0) =~= v@);
    assert(strings_view(out@) =~= Seq::empty());
    while i < n
        invariant
            i <= n == v@.len(),
            v@ == s@,
            strings_view(out@) + words(v@.skip(i as int)) == words(v@),
        decreases n - i,
    {
        let ghost rest = v@.skip(i as int);
        if is_space(v[i]) {
            assert(rest.drop_first() =~= v@.skip(i as int + 1));
            i += 1;
        } else {
            let mut j: usize = i;
            while j < n && !is_space(v[j])
                invariant
                    i <= j <= n == v@.len(),
                    rest == v@.skip(i as int),
                    word_len(rest) == (j - i) + word_len(v@.skip(j as int)),
                decreases n - j,
            {
                assert(v@.skip(j as int).drop_first() =~= v@.skip(j as int + 1));
                j += 1;
            }
            assert(word_len(rest) == j - i);
            let w = string_of(v.as_slice(), i, j);
            assert(w@ =~= rest.take((j - i) as int));
            assert(rest.skip((j - i) as int) =~= v@.skip(j as int));
            let ghost before = strings_view(out@);
            out.push(w);
            assert(strings_view(out@) =~= before + seq![w@]);
            assert(words(rest) == seq![w@] + words(v@.skip(j as int)));
            assert(strings_view(out@) + words(v@.skip(j as int)) =~= before + words(rest));
            i = j;
        }
    }
    assert(words(v@.skip(n as int)) =~= Seq::empty());
    assert(strings_view(out@) + Seq::<Seq<char>>::empty() =~= strings_view(out@));
    out
}

/// Joins `parts[from..]` with `sep` between each two neighbours.
pub fn join(parts: &Vec<String>, from: usize, sep: &str) -> (r: String)
    requires
        from <= parts@.len(),
    ensures
        r@ == joined(strings_view(parts@).skip(from as int), sep@),
{
    let ghost all = strings_view(parts@).skip(from as int);
    let mut r = String::new();
    let mut i: usize = from;
    assert(all.take(0) =~= Seq::empty());
    while i < parts.len()
        invariant
            from <= i <= parts@.len(),
            all == strings_view(parts@).skip(from as int),
            r@ == joined(all.take(i - from), sep@),
        decreases parts@.len() - i,
    {
        let ghost done = all.take(i - from);
        let ghost next = all.take(i - from + 1);
        assert(next.drop_last() =~= done);
        assert(next.last() == parts@[i as int]@);
        if i > from {
            r.append(sep);
        }
        r.append(parts[i].as_str());
        assert(r@ =~= joined(next, sep@));
        i += 1;
    }
    assert(all.take(i - from) =~= all);
    r
}

/// A run without white space is its own longest such prefix.
pub proof fn lemma_word_len_of_word(w: Seq<char>)
    requires
        forall|i: int| 0 <= i < w.len() ==> !is_whitespace(#[trigger] w[i]),
    ensures
        word_len(w) == w.len(),
    decreases w.len(),
{
    if w.len() > 0 {
        let rest = w.drop_first();
        assert forall|i: int| 0 <= i < rest.len() implies !is_whitespace(#[trigger] rest[i]) by {
            assert(rest[i] == w[i + 1]);
        }
        lemma_word_len_of_word(rest);
    }
}

/// What follows white space does not change the first word.
pub proof fn lemma_word_len_before_space(s: Seq<char>, t: Seq<char>)
    requires
        t.len() > 0,
        is_whitespace(t[0]),
    ensures
        word_len(s + t) == word_len(s),
    decreases s.len(),
{
    if s.len() == 0 {
        assert(s + t =~= t);
    } else if is_whitespace(s[0]) {
        assert((s + t)[0] == s[0]);
    } else {
        assert((s + t)[0] == s[0]);
        assert((s + t).drop_first() =~= s.drop_first() + t);
        lemma_word_len_before_space(s.drop_first(), t);
    }
}

/// One word splits into itself.
pub proof fn lemma_words_of_word(w: Seq<char>)
    requires
        is_word(w),
    ensures
        words(w) == seq![w],
{
    lemma_word_len_of_word(w);
    let n = word_len(w) as int;
    assert(w.take(n) =~= w);
    assert(w.skip(n) =~= Seq::<char>::empty());
    assert(words(w.skip(n)) =~= Seq::<Seq<char>>::empty());
    assert(seq![w.take(n)] + words(w.skip(n)) =~= seq![w]);
}

/// A space and a word at the end of a text add that word to its words.
pub proof fn lemma_words_append_word(s: Seq<char>, w: Seq<char>)
    requires
        is_word(w),
    ensures
        words(s + seq![' '] + w) == words(s).push(w),
    decreases s.len(),
{
    let sp = seq![' '];
    let full = s + sp + w;
    if s.len() == 0 {
        assert(full.drop_first() =~= w);
        lemma_words_of_word(w);
        assert(words(s) =~= Seq::<Seq<char>>::empty());
        assert(words(s).push(w) =~= seq![w]);
    } else if is_whitespace(s[0]) {
        assert(full[0] == s[0]);
        assert(full.drop_first() =~= s.drop_first() + sp + w);
        lemma_words_append_word(s.drop_first(), w);
    } else {
        assert(full[0] == s[0]);
        lemma_word_len_bound(s);
        lemma_word_len_bound(full);
        assert(full =~= s + (sp + w));
        lemma_word_len_before_space(s, sp + w);
        let n = word_len(s) as int;
        assert(full.take(n) =~= s.take(n));
        assert(full.skip(n) =~= s.skip(n) + sp + w);
        lemma_words_append_word(s.skip(n), w);
        assert(seq![s.take(n)] + words(s.skip(n)).push(w) =~= (seq![s.take(n)] + words(
            s.skip(n),
        )).push(w));
    }
}

/// Words joined by single spaces split into the same words again.
pub proof fn lemma_words_of_joined(ws: Seq<Seq<char>>)
    requires
        forall|i: int| 0 <= i < ws.len() ==> is_word(#[trigger] ws[i]),
    ensures
        words(joined(ws, " "@)) == ws,
    decreases ws.len(),
{
    reveal_strlit(" ");
    assert(" "@ =~= seq![' ']);
    if ws.len() == 0 {
        assert(words(joined(ws, " "@)) =~= ws);
    } else if ws.len() == 1 {
        lemma_words_of_word(ws[0]);
        assert(seq![ws[0]] =~= ws);
    } else {
        let front = ws.drop_last();
        assert forall|i: int| 0 <= i < front.len() implies is_word(#[trigger] front[i]) by {
            assert(front[i] == ws[i]);
        }
        lemma_words_of_joined(front);
        lemma_words_append_word(joined(front, " "@), ws.last());
        assert(front.push(ws.last()) =~= ws);
    }
}

/// Every word of a text is a word: not empty, and free of white space.
pub proof fn lemma_words_are_words(s: Seq<char>)
    ensures
        forall|i: int| 0 <= i < words(s).len() ==> is_word(#[trigger] words(s)[i]),
    decreases s.len(),
{
    if s.len() == 0 {
        assert(words(s).len() == 0);
    } else if is_whitespace(s[0]) {
        lemma_words_are_words(s.drop_first());
        assert(words(s) == words(s.drop_first()));
    } else {
        lemma_word_len_bound(s);
        let n = word_len(s) as int;
        lemma_words_are_words(s.skip(n));
        let w = s.take(n);
        assert(is_word(w));
        assert(words(s) == seq![w] + words(s.skip(n)));
        assert forall|i: int| 0 <= i < words(s).len() implies is_word(#[trigger] words(s)[i]) by {
            if i > 0 {
                assert(words(s)[i] == words(s.skip(n))[i - 1]);
            } else {
                assert(words(s)[i] == w);
            }
        }
    }
}

/// The character of the decimal digit `d`.
pub open spec fn digit_char(d: int) -> char {
    if d == 0 {
        '0'
    } else if d == 1 {
        '1'
    } else if d == 2 {
        '2'
    } else if d == 3 {
        '3'
    } else if d == 4 {
        '4'
    } else if d == 5 {
        '5'
    } else if d == 6 {
        '6'
    } else if d == 7 {
        '7'
    } else if d == 8 {
        '8'
    } else {
        '9'
    }
}

/// The character of the decimal digit `d`.
pub fn digit_of(d: u8) -> (c: char)
    requires
        d < 10,
    ensures
        c == digit_char(d as int),
{
    if d == 0 {
        '0'
    } else if d == 1 {
        '1'
    } else if d == 2 {
        '2'
    } else if d == 3 {
        '3'
    } else if d == 4 {
        '4'
    } else if d == 5 {
        '5'
    } else if d == 6 {
        '6'
    } else if d == 7 {
        '7'
    } else if d == 8 {
        '8'
    } else {
        '9'
    }
}

/// The decimal digits of `n`, without leading zeros.
pub open spec fn digits(n: nat) -> Seq<char>
    decreases n,
{
    if n < 10 {
        seq![digit_char(n as int)]
    } else {
        digits(n / 10).push(digit_char((n % 10) as int))
    }
}

/// `n` in decimal, with a minus sign if it is negative.
pub open spec fn decimal(n: int) -> Seq<char> {
    if n < 0 {
        seq!['-'] + digits((-n) as nat)
    } else {
        digits(n as nat)
    }
}

/// `n` in decimal.
pub fn u64_to_string(n: u64) -> (r: String)
    ensures
        r@ == digits(n as nat),
{
    let mut low: Vec<char> = Vec::new();
    let mut m: u64 = n;
    while m >= 10
        invariant
            digits(n as nat) == digits(m as nat) + Seq::new(
                low@.len(),
                |i: int| low@[low@.len() - 1 - i],
            ),
        decreases m,
    {
        let ghost before = low@;
        let d = digit_of((m % 10) as u8);
        low.push(d);
        assert(digits(m as nat) == digits((m / 10) as nat).push(d));
        assert(digits((m / 10) as nat).push(d) + Seq::new(
            before.len(),
            |i: int| before[before.len() - 1 - i],
        ) =~= digits((m / 10) as nat) + Seq::new(low@.len(), |i: int| low@[low@.len() - 1 - i]));
        m = m / 10;
    }
    let mut r = String::new();
    r.push(digit_of(m as u8));
    let ghost tail = Seq::new(low@.len(), |i: int| low@[low@.len() - 1 - i]);
    let mut k: usize = low.len();
    assert(tail.take(0) =~= Seq::<char>::empty());
    while k > 0
        invariant
            k <= low@.len(),
            tail == Seq::new(low@.len(), |i: int| low@[low@.len() - 1 - i]),
            r@ == seq![digit_char(m as int)] + tail.take(low@.len() - k),
        decreases k,
    {
        let ghost done = tail.take(low@.len() - k);
        r.push(low[k - 1]);
        assert(tail.take(low@.len() - k + 1) =~= done.push(low@[k - 1]));
        k -= 1;
    }
    assert(tail.take(low@.len() as int) =~= tail);
    r
}

/// `n` in decimal, with a minus sign if it is negative.
pub fn i64_to_string(n: i64) -> (r: String)
    ensures
        r@ == decimal(n as int),
{
    if n < 0 {
        let magnitude: u64 = (0 - n as i128) as u64;
        let mut r = String::new();
        r.push('-');
        let d = u64_to_string(magnitude);
        r.append(d.as_str());
        assert(r@ =~= seq!['-'] + digits((-n) as nat));
        r
    } else {
        u64_to_string(n as u64)
    }
}

/// Whether `c` is one of the decimal digits `0` to `9`.
pub open spec fn is_digit(c: char) -> bool {
    '0' <= c && c <= '9'
}

/// The number that the decimal digit `c` stands for.
pub open spec fn digit_value(c: char) -> nat {
    (c as u32 - '0' as u32) as nat
}

/// The number that the decimal digits `s` stand for.
pub open spec fn value_of(s: Seq<char>) -> nat
    decreases s.len(),
{
    if s.len() == 0 {
        0
    } else {
        value_of(s.drop_last()) * 10 + digit_value(s.last())
    }
}

/// `s` without one plus sign at its start.
pub open spec fn unsigned_part(s: Seq<char>) -> Seq<char> {
    if s.len() > 0 && s[0] == '+' {
        s.drop_first()
    } else {
        s
    }
}

/// The number that `s` stands for: decimal digits, at least one, after at
/// most one plus sign, with a value that a `usize` can hold.
pub open spec fn parsed_usize(s: Seq<char>) -> Option<usize> {
    let body = unsigned_part(s);
    if body.len() > 0 && (forall|i: int| 0 <= i < body.len() ==> is_digit(#[trigger] body[i]))
        && value_of(body) <= usize::MAX {
        Some(value_of(body) as usize)
    } else {
        None
    }
}

/// More digits never make the number smaller.
pub proof fn lemma_value_of_prefix(s: Seq<char>, k: int)
    requires
        0 <= k <= s.len(),
    ensures
        value_of(s.take(k)) <= value_of(s),
    decreases s.len() - k,
{
    if k == s.len() {
        assert(s.take(k) =~= s);
    } else {
        lemma_value_of_prefix(s.drop_last(), k);
        assert(s.drop_last().take(k) =~= s.take(k));
    }
}

/// Reads `s` as a number, as `parsed_usize` says.
pub fn parse_usize(s: &str) -> (r: Option<usize>)
    ensures
        r == parsed_usize(s@),
{
    let v = chars_of(s);
    let start: usize = if v.len() > 0 && v[0] == '+' {
        1
    } else {
        0
    };
    let ghost body = unsigned_part(s@);
    assert(body =~= v@.skip(start as int));
    if start == v.len() {
        return None;
    }
    let mut acc: usize = 0;
    let mut i: usize = start;
    assert(body.take(0) =~= Seq::<char>::empty());
    while i < v.len()
        invariant
            start <= i <= v@.len(),
            body == v@.skip(start as int),
            body == unsigned_part(s@),
            forall|k: int| 0 <= k < i - start ==> is_digit(#[trigger] body[k]),
            acc == value_of(body.take(i - start)),
        decreases v@.len() - i,
    {
        let c = v[i];
        assert(body[i - start] == c);
        if !('0' <= c && c <= '9') {
            assert(!is_digit(body[i - start]));
            return None;
        }
        let d: usize = (c as u32 - '0' as u32) as usize;
        let ghost next = body.take(i - start + 1);
        assert(next.drop_last() =~= body.take(i - start));
        assert(next.last() == c);
        assert(value_of(next) == acc * 10 + d);
        if acc > (usize::MAX - d) / 10 {
            proof {
                lemma_value_of_prefix(body, i - start + 1);
                assert(acc * 10 + d > usize::MAX);
                assert(value_of(body) > usize::MAX);
            }
            return None;
        }
        acc = acc * 10 + d;
        i += 1;
    }
    assert(body.take(i - start) =~= body);
    Some(acc)
}

} // verus!
