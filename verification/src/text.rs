//! Text as sequences of characters: conversions from and to strings,
//! searching, splitting, trimming and replacing.

use vstd::prelude::*;

verus! {

/// `String::push` of the standard library. Taken on trust: it appends the
/// character to the end of the string and leaves the characters before it as
/// they were.
pub assume_specification[ String::push ](s: &mut String, ch: char)
    ensures
        final(s)@ == old(s)@.push(ch),
;

/// The characters of `s`, in order.
pub fn chars_of(s: &str) -> (out: Vec<char>)
    ensures
        out@ == s@,
{
    broadcast use vstd::string::group_string_axioms;

    let mut out: Vec<char> = Vec::new();
    let it = s.chars();
    for c in iter: it
        invariant
            iter.seq() == s@,
            out@ == iter.history(),
    {
        out.push(c);
    }
    out
}

/// The string made of the characters of `chars`, in order.
pub fn string_of(chars: &Vec<char>) -> (out: String)
    ensures
        out@ == chars@,
{
    let mut out = String::new();
    let mut i: usize = 0;
    while i < chars.len()
        invariant
            i <= chars.len(),
            out@ == chars@.take(i as int),
        decreases chars.len() - i,
    {
        out.push(chars[i]);
        i += 1;
    }
    out
}

/// The text of a string that may be missing.
pub open spec fn text_of(s: Option<String>) -> Option<Seq<char>> {
    match s {
        Some(t) => Some(t@),
        None => None,
    }
}

/// The texts of a sequence of strings.
pub open spec fn views(strings: Seq<String>) -> Seq<Seq<char>> {
    strings.map_values(|s: String| s@)
}

/// The texts of a sequence with one string more are the texts of the
/// sequence with that string's text more.
pub proof fn lemma_views_push(strings: Seq<String>, last: String)
    ensures
        views(strings.push(last)) == views(strings).push(last@),
{
    assert(views(strings.push(last)) =~= views(strings).push(last@));
}

/// Appends a copy of `text` to `list`.
pub fn push_text(list: &mut Vec<String>, text: &str)
    ensures
        views(final(list)@) == views(old(list)@).push(text@),
{
    let owned = text.to_owned();
    proof {
        lemma_views_push(list@, owned);
    }
    list.push(owned);
}

/// Appends copies of the strings of `more` to `list`, in their order.
pub fn push_texts(list: &mut Vec<String>, more: &Vec<String>)
    ensures
        views(final(list)@) == views(old(list)@) + views(more@),
{
    let ghost all = views(more@);
    let mut i: usize = 0;
    proof {
        assert(views(list@) + all.take(0) =~= views(list@));
    }
    while i < more.len()
        invariant
            i <= more.len(),
            all == views(more@),
            views(list@) == views(old(list)@) + all.take(i as int),
        decreases more.len() - i,
    {
        proof {
            assert(views(old(list)@) + all.take(i + 1) =~= (views(old(list)@) + all.take(
                i as int,
            )).push(more@[i as int]@));
        }
        push_text(list, more[i].as_str());
        i += 1;
    }
    proof {
        assert(all.take(more.len() as int) == all);
    }
}

/// Appends the characters of `tail` to `out`.
pub fn append_chars(out: &mut Vec<char>, tail: &Vec<char>)
    ensures
        final(out)@ == old(out)@ + tail@,
{
    let mut i: usize = 0;
    while i < tail.len()
        invariant
            i <= tail.len(),
            out@ == old(out)@ + tail@.take(i as int),
        decreases tail.len() - i,
    {
        out.push(tail[i]);
        i += 1;
    }
}

/// Appends the characters of the string `tail` to `out`.
pub fn append_str(out: &mut Vec<char>, tail: &str)
    ensures
        final(out)@ == old(out)@ + tail@,
{
    let t = chars_of(tail);
    append_chars(out, &t);
}

/// The characters of `s` from index `from` up to, not including, index `to`.
pub fn sub_chars(s: &Vec<char>, from: usize, to: usize) -> (out: Vec<char>)
    requires
        from <= to <= s.len(),
    ensures
        out@ == s@.subrange(from as int, to as int),
{
    let mut out: Vec<char> = Vec::new();
    let mut i: usize = from;
    while i < to
        invariant
            from <= i <= to <= s.len(),
            out@ == s@.subrange(from as int, i as int),
        decreases to - i,
    {
        out.push(s[i]);
        i += 1;
    }
    out
}

/// Whether `s` holds `pattern` at index `at`.
pub open spec fn holds_at(s: Seq<char>, at: int, pattern: Seq<char>) -> bool {
    &&& 0 <= at
    &&& at + pattern.len() <= s.len()
    &&& s.subrange(at, at + pattern.len()) == pattern
}

/// Tells whether `s` holds `pattern` at index `at`.
pub fn matches_at(s: &Vec<char>, at: usize, pattern: &Vec<char>) -> (b: bool)
    ensures
        b == holds_at(s@, at as int, pattern@),
{
    if at > s.len() || pattern.len() > s.len() - at {
        return false;
    }
    let mut i: usize = 0;
    while i < pattern.len()
        invariant
            i <= pattern.len(),
            at + pattern.len() <= s.len(),
            s@.subrange(at as int, at + i) == pattern@.take(i as int),
        decreases pattern.len() - i,
    {
        if s[at + i] != pattern[i] {
            proof {
                let whole = s@.subrange(at as int, at + pattern.len());
                assert(whole[i as int] == s@[at + i]);
            }
            return false;
        }
        proof {
            assert(s@.subrange(at as int, at + i + 1) == s@.subrange(at as int, at + i).push(
                s@[at + i],
            ));
            assert(pattern@.take(i + 1) == pattern@.take(i as int).push(pattern@[i as int]));
        }
        i += 1;
    }
    proof {
        assert(pattern@.take(pattern.len() as int) == pattern@);
    }
    true
}

/// Tells whether `s` begins with `prefix`.
pub fn starts_with(s: &Vec<char>, prefix: &Vec<char>) -> (b: bool)
    ensures
        b == prefix@.is_prefix_of(s@),
{
    let b = matches_at(s, 0, prefix);
    proof {
        if prefix@.len() <= s@.len() {
            assert(s@.subrange(0, prefix@.len() as int) == s@.take(prefix@.len() as int));
        }
    }
    b
}

/// Tells whether two character vectors hold the same characters.
pub fn same_chars(a: &Vec<char>, b: &Vec<char>) -> (eq: bool)
    ensures
        eq == (a@ == b@),
{
    if a.len() != b.len() {
        return false;
    }
    let eq = matches_at(a, 0, b);
    proof {
        assert(a@.subrange(0, a@.len() as int) == a@);
    }
    eq
}

/// The texts of a sequence of character vectors.
pub open spec fn chars_views(list: Seq<Vec<char>>) -> Seq<Seq<char>> {
    list.map_values(|v: Vec<char>| v@)
}

/// The texts of a sequence with one vector more are the texts of the
/// sequence with that vector's text more.
pub proof fn lemma_chars_views_push(list: Seq<Vec<char>>, last: Vec<char>)
    ensures
        chars_views(list.push(last)) == chars_views(list).push(last@),
{
    assert(chars_views(list.push(last)) =~= chars_views(list).push(last@));
}

/// The index of the first `c` in `s` at or after `from`, or the length of
/// `s` where there is none.
pub open spec fn index_from(s: Seq<char>, from: int, c: char) -> int
    decreases s.len() - from,
{
    if from >= s.len() {
        s.len() as int
    } else if s[from] == c {
        from
    } else {
        index_from(s, from + 1, c)
    }
}

/// `index_from` never moves backwards and never leaves the text.
pub proof fn lemma_index_from_bounds(s: Seq<char>, from: int, c: char)
    requires
        from <= s.len(),
    ensures
        from <= index_from(s, from, c) <= s.len(),
    decreases s.len() - from,
{
    if from < s.len() && s[from] != c {
        lemma_index_from_bounds(s, from + 1, c);
    }
}

/// Finds the first `c` in `s` at or after `from`.
pub fn find_from(s: &Vec<char>, from: usize, c: char) -> (at: usize)
    requires
        from <= s.len(),
    ensures
        from <= at <= s.len(),
        at == index_from(s@, from as int, c),
{
    let mut i: usize = from;
    while i < s.len() && s[i] != c
        invariant
            from <= i <= s.len(),
            index_from(s@, i as int, c) == index_from(s@, from as int, c),
        decreases s.len() - i,
    {
        i += 1;
    }
    i
}

/// The text of `s` before its first `c`, or all of `s` where it has none.
pub open spec fn up_to(s: Seq<char>, c: char) -> Seq<char> {
    s.take(index_from(s, 0, c))
}

/// Copies the text of `s` before its first `c`.
pub fn take_up_to(s: &Vec<char>, c: char) -> (out: Vec<char>)
    ensures
        out@ == up_to(s@, c),
{
    let end = find_from(s, 0, c);
    let out = sub_chars(s, 0, end);
    proof {
        assert(s@.subrange(0, end as int) == s@.take(end as int));
    }
    out
}

/// The line of `text` that begins at index `from`: the characters up to the
/// next line feed. Where the line ends in a line feed, a carriage return
/// right before it is no part of the line.
pub open spec fn line_at(text: Seq<char>, from: int) -> Seq<char> {
    let end = index_from(text, from, '\n');
    let raw = text.subrange(from, end);
    if end < text.len() && raw.len() > 0 && raw.last() == '\r' {
        raw.drop_last()
    } else {
        raw
    }
}

/// The lines of `text` from index `from` on. Text that ends in a line feed
/// has no empty line after it.
pub open spec fn lines_from(text: Seq<char>, from: int) -> Seq<Seq<char>>
    decreases text.len() - from,
    via lines_from_terminates
{
    if from >= text.len() {
        Seq::empty()
    } else if index_from(text, from, '\n') < text.len() {
        seq![line_at(text, from)] + lines_from(text, index_from(text, from, '\n') + 1)
    } else {
        seq![line_at(text, from)]
    }
}

#[via_fn]
proof fn lines_from_terminates(text: Seq<char>, from: int) {
    if from < text.len() {
        lemma_index_from_bounds(text, from, '\n');
    }
}

/// The lines of `text`.
pub open spec fn lines_of(text: Seq<char>) -> Seq<Seq<char>> {
    lines_from(text, 0)
}

/// Splits `text` into its lines.
pub fn split_lines(text: &str) -> (lines: Vec<Vec<char>>)
    ensures
        chars_views(lines@) == lines_of(text@),
{
    let chars = chars_of(text);
    let mut lines: Vec<Vec<char>> = Vec::new();
    let mut from: usize = 0;
    proof {
        assert(chars_views(lines@) =~= Seq::<Seq<char>>::empty());
        assert(Seq::<Seq<char>>::empty() + lines_from(chars@, 0) =~= lines_from(chars@, 0));
    }
    while from < chars.len()
        invariant
            from <= chars.len(),
            chars@ == text@,
            chars_views(lines@) + lines_from(chars@, from as int) == lines_of(chars@),
        decreases chars.len() - from,
    {
        let end = find_from(&chars, from, '\n');
        let stop: usize = if end < chars.len() && end > from && chars[end - 1] == '\r' {
            end - 1
        } else {
            end
        };
        let line = sub_chars(&chars, from, stop);
        let ghost before = chars_views(lines@);
        proof {
            let raw = chars@.subrange(from as int, end as int);
            if raw.len() > 0 {
                assert(raw.last() == chars@[end - 1]);
            }
            if stop < end {
                assert(raw.drop_last() == chars@.subrange(from as int, stop as int));
            }
            assert(line@ == line_at(chars@, from as int));
            lemma_chars_views_push(lines@, line);
        }
        lines.push(line);
        if end == chars.len() {
            proof {
                assert(before.push(line@) =~= before + seq![line@]);
            }
            return lines;
        }
        proof {
            assert(before.push(line@) + lines_from(chars@, end + 1) =~= before + (seq![line@]
                + lines_from(chars@, end + 1)));
        }
        from = end + 1;
    }
    proof {
        assert(chars_views(lines@) + Seq::<Seq<char>>::empty() =~= chars_views(lines@));
    }
    lines
}

/// Whether `c` is white space: one of the characters with the Unicode
/// property `White_Space`.
pub open spec fn is_space(c: char) -> bool {
    let n = c as u32;
    ||| 0x09 <= n <= 0x0D
    ||| n == 0x20
    ||| n == 0x85
    ||| n == 0xA0
    ||| n == 0x1680
    ||| 0x2000 <= n <= 0x200A
    ||| n == 0x2028
    ||| n == 0x2029
    ||| n == 0x202F
    ||| n == 0x205F
    ||| n == 0x3000
}

/// Tells whether `c` is white space.
pub fn is_whitespace(c: char) -> (b: bool)
    ensures
        b == is_space(c),
{
    let n = c as u32;
    (0x09 <= n && n <= 0x0D) || n == 0x20 || n == 0x85 || n == 0xA0 || n == 0x1680 || (0x2000
        <= n && n <= 0x200A) || n == 0x2028 || n == 0x2029 || n == 0x202F || n == 0x205F || n
        == 0x3000
}

/// `s` without the white space at its start.
pub open spec fn trimmed_start(s: Seq<char>) -> Seq<char>
    decreases s.len(),
{
    if s.len() > 0 && is_space(s[0]) {
        trimmed_start(s.drop_first())
    } else {
        s
    }
}

/// `s` without the white space at its end.
pub open spec fn trimmed_end(s: Seq<char>) -> Seq<char>
    decreases s.len(),
{
    if s.len() > 0 && is_space(s.last()) {
        trimmed_end(s.drop_last())
    } else {
        s
    }
}

/// `s` without the white space at its start and at its end.
pub open spec fn trimmed(s: Seq<char>) -> Seq<char> {
    trimmed_end(trimmed_start(s))
}

/// Copies `s` without the white space at its start and at its end.
pub fn trim(s: &Vec<char>) -> (out: Vec<char>)
    ensures
        out@ == trimmed(s@),
{
    let mut lo: usize = 0;
    proof {
        assert(s@.skip(0) == s@);
    }
    while lo < s.len() && is_whitespace(s[lo])
        invariant
            lo <= s.len(),
            trimmed_start(s@.skip(lo as int)) == trimmed_start(s@),
        decreases s.len() - lo,
    {
        proof {
            assert(s@.skip(lo as int).drop_first() == s@.skip(lo + 1));
        }
        lo += 1;
    }
    let mut hi: usize = s.len();
    proof {
        assert(s@.subrange(lo as int, hi as int) == s@.skip(lo as int));
        assert(trimmed_start(s@) == s@.skip(lo as int));
    }
    while hi > lo && is_whitespace(s[hi - 1])
        invariant
            lo <= hi <= s.len(),
            trimmed_start(s@) == s@.skip(lo as int),
            trimmed_end(s@.subrange(lo as int, hi as int)) == trimmed_end(s@.skip(lo as int)),
        decreases hi,
    {
        proof {
            assert(s@.subrange(lo as int, hi as int).drop_last() == s@.subrange(
                lo as int,
                hi - 1,
            ));
        }
        hi -= 1;
    }
    sub_chars(s, lo, hi)
}

/// The pieces of `s` between the characters `c`: one piece more than `s` has
/// of `c`, some of them empty where two `c` meet or `s` begins or ends in
/// one.
pub open spec fn pieces_from(s: Seq<char>, from: int, c: char) -> Seq<Seq<char>>
    decreases s.len() - from,
    via pieces_from_terminates
{
    if from > s.len() {
        Seq::empty()
    } else if index_from(s, from, c) < s.len() {
        seq![s.subrange(from, index_from(s, from, c))] + pieces_from(
            s,
            index_from(s, from, c) + 1,
            c,
        )
    } else {
        seq![s.subrange(from, s.len() as int)]
    }
}

#[via_fn]
proof fn pieces_from_terminates(s: Seq<char>, from: int, c: char) {
    if from <= s.len() {
        lemma_index_from_bounds(s, from, c);
    }
}

/// The pieces of `s` between the characters `c`.
pub open spec fn pieces_of(s: Seq<char>, c: char) -> Seq<Seq<char>> {
    pieces_from(s, 0, c)
}

/// Splits `s` at each `c`.
pub fn split_at_each(s: &Vec<char>, c: char) -> (pieces: Vec<Vec<char>>)
    ensures
        chars_views(pieces@) == pieces_of(s@, c),
{
    let mut pieces: Vec<Vec<char>> = Vec::new();
    let mut from: usize = 0;
    proof {
        assert(chars_views(pieces@) =~= Seq::<Seq<char>>::empty());
        assert(Seq::<Seq<char>>::empty() + pieces_from(s@, 0, c) =~= pieces_from(s@, 0, c));
    }
    loop
        invariant
            from <= s.len(),
            chars_views(pieces@) + pieces_from(s@, from as int, c) == pieces_of(s@, c),
        decreases s.len() - from,
    {
        let end = find_from(s, from, c);
        let piece = sub_chars(s, from, end);
        let ghost before = chars_views(pieces@);
        proof {
            lemma_chars_views_push(pieces@, piece);
        }
        pieces.push(piece);
        if end == s.len() {
            proof {
                assert(before.push(piece@) =~= before + seq![piece@]);
            }
            return pieces;
        }
        proof {
            assert(before.push(piece@) + pieces_from(s@, end + 1, c) =~= before + (seq![piece@]
                + pieces_from(s@, end + 1, c)));
        }
        from = end + 1;
    }
}

/// `s` with `with` in place of each `token`, read from the left; an empty
/// token leaves `s` as it is.
pub open spec fn replaced(s: Seq<char>, token: Seq<char>, with: Seq<char>) -> Seq<char>
    decreases s.len(),
{
    if token.len() == 0 || s.len() == 0 {
        s
    } else if token.is_prefix_of(s) {
        with + replaced(s.skip(token.len() as int), token, with)
    } else {
        seq![s[0]] + replaced(s.skip(1), token, with)
    }
}

/// Copies `s` with `with` in place of each `token`.
pub fn replace_chars(s: &Vec<char>, token: &Vec<char>, with: &Vec<char>) -> (out: Vec<char>)
    ensures
        out@ == replaced(s@, token@, with@),
{
    let mut out: Vec<char> = Vec::new();
    if token.len() == 0 {
        append_chars(&mut out, s);
        return out;
    }
    let mut i: usize = 0;
    proof {
        assert(s@.skip(0) == s@);
    }
    while i < s.len()
        invariant
            i <= s.len(),
            token.len() > 0,
            out@ + replaced(s@.skip(i as int), token@, with@) == replaced(s@, token@, with@),
        decreases s.len() - i,
    {
        let ghost rest = s@.skip(i as int);
        let ghost before = out@;
        if matches_at(s, i, token) {
            proof {
                assert(s@.subrange(i as int, i + token.len()) == rest.take(token.len() as int));
                assert(rest.skip(token.len() as int) == s@.skip(i + token.len()));
            }
            append_chars(&mut out, with);
            i += token.len();
            proof {
                assert(out@ + replaced(s@.skip(i as int), token@, with@) == before + (with@
                    + replaced(s@.skip(i as int), token@, with@)));
            }
        } else {
            proof {
                if token@.len() <= rest.len() {
                    assert(s@.subrange(i as int, i + token.len()) == rest.take(
                        token.len() as int,
                    ));
                }
                assert(rest.skip(1) == s@.skip(i + 1));
                assert(rest[0] == s@[i as int]);
            }
            out.push(s[i]);
            i += 1;
            proof {
                assert(out@ + replaced(s@.skip(i as int), token@, with@) == before + (seq![
                    s@[i - 1],
                ] + replaced(s@.skip(i as int), token@, with@)));
            }
        }
    }
    proof {
        assert(out@ + Seq::<char>::empty() == out@);
    }
    out
}

/// The index of the last `c` in `s`, or -1 where there is none.
pub open spec fn last_index(s: Seq<char>, c: char) -> int
    decreases s.len(),
{
    if s.len() == 0 {
        -1
    } else if s.last() == c {
        s.len() - 1
    } else {
        last_index(s.drop_last(), c)
    }
}

/// Finds the last `c` in `s`.
pub fn find_last(s: &Vec<char>, c: char) -> (at: Option<usize>)
    ensures
        match at {
            Some(i) => i < s.len() && i == last_index(s@, c) && s@[i as int] == c,
            None => last_index(s@, c) == -1,
        },
{
    let mut n: usize = s.len();
    proof {
        assert(s@.take(n as int) == s@);
    }
    while n > 0
        invariant
            n <= s.len(),
            last_index(s@.take(n as int), c) == last_index(s@, c),
        decreases n,
    {
        if s[n - 1] == c {
            return Some(n - 1);
        }
        proof {
            assert(s@.take(n as int).drop_last() == s@.take(n - 1));
        }
        n -= 1;
    }
    None
}

} // verus!
