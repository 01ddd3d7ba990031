//! Text as sequences of characters: the models that contracts speak of, and
//! the functions that compute them.

use vstd::prelude::*;

verus! {

/// `String::push` appends one character to the end of the string.
pub assume_specification[ String::push ](s: &mut String, c: char)
    ensures
        final(s)@ == old(s)@.push(c),
;

// ---------------------------------------------------------------------------
// Models
// ---------------------------------------------------------------------------

/// What a list of strings reads as.
spec fn texts(v: Seq<String>) -> Seq<Seq<char>> {
    v.map_values(|s: String| s@)
}

/// The characters with the Unicode property `White_Space`.
pub open spec fn is_space(c: char) -> bool {
    let n = c as u32;
    ||| 0x09 <= n <= 0x0d
    ||| n == 0x20
    ||| n == 0x85
    ||| n == 0xa0
    ||| n == 0x1680
    ||| 0x2000 <= n <= 0x200a
    ||| n == 0x2028
    ||| n == 0x2029
    ||| n == 0x202f
    ||| n == 0x205f
    ||| n == 0x3000
}

/// `s` without its leading white space.
pub open spec fn trim_start(s: Seq<char>) -> Seq<char>
    decreases s.len(),
{
    if s.len() > 0 && is_space(s[0]) {
        trim_start(s.skip(1))
    } else {
        s
    }
}

/// `s` without its trailing white space.
pub open spec fn trim_end(s: Seq<char>) -> Seq<char>
    decreases s.len(),
{
    if s.len() > 0 && is_space(s.last()) {
        trim_end(s.drop_last())
    } else {
        s
    }
}

/// `s` without leading and trailing white space.
pub open spec fn trimmed(s: Seq<char>) -> Seq<char> {
    trim_end(trim_start(s))
}

/// The pieces of `s` between the occurrences of `sep`; there is always at least one.
pub open spec fn pieces(s: Seq<char>, sep: char) -> Seq<Seq<char>>
    decreases s.len(),
{
    if s.len() == 0 {
        seq![Seq::empty()]
    } else {
        let p = pieces(s.drop_last(), sep);
        if s.last() == sep {
            p.push(Seq::empty())
        } else {
            p.drop_last().push(p.last().push(s.last()))
        }
    }
}

/// The maximal runs of characters in `s` that are not white space.
pub open spec fn words(s: Seq<char>) -> Seq<Seq<char>>
    decreases s.len(),
{
    if s.len() == 0 {
        Seq::empty()
    } else {
        let w = words(s.drop_last());
        if is_space(s.last()) {
            w
        } else if s.len() == 1 || is_space(s[s.len() - 2]) {
            w.push(seq![s.last()])
        } else {
            w.drop_last().push(w.last().push(s.last()))
        }
    }
}

/// Whether `part` stands somewhere in `s`.
pub open spec fn has_part(s: Seq<char>, part: Seq<char>) -> bool {
    exists|i: int| 0 <= i <= s.len() - part.len() && #[trigger] s.subrange(i, i + part.len()) == part
}

/// `parts` one after the other, with `sep` between neighbours.
pub open spec fn joined(parts: Seq<Seq<char>>, sep: Seq<char>) -> Seq<char>
    decreases parts.len(),
{
    if parts.len() == 0 {
        Seq::empty()
    } else if parts.len() == 1 {
        parts[0]
    } else {
        joined(parts.drop_last(), sep) + sep + parts.last()
    }
}

/// What follows the first `c` in `s`, if there is one.
pub open spec fn after_first(s: Seq<char>, c: char) -> Option<Seq<char>>
    decreases s.len(),
{
    if s.len() == 0 {
        None
    } else if s[0] == c {
        Some(s.skip(1))
    } else {
        after_first(s.skip(1), c)
    }
}

/// `s` without `suffix` where it ends in it, else `s`.
pub open spec fn without_suffix(s: Seq<char>, suffix: Seq<char>) -> Seq<char> {
    if suffix.is_suffix_of(s) {
        s.take(s.len() - suffix.len())
    } else {
        s
    }
}

/// The character of the decimal digit `d`.
pub open spec fn digit(d: int) -> char {
    ('0' as int + d) as char
}

/// `n` in decimal, without leading zeros.
pub open spec fn decimal(n: nat) -> Seq<char>
    decreases n,
{
    if n < 10 {
        seq![digit(n as int)]
    } else {
        decimal(n / 10).push(digit((n % 10) as int))
    }
}

/// `n` in decimal, with a minus sign where it is negative.
pub open spec fn signed_decimal(n: int) -> Seq<char> {
    if n < 0 {
        "-"@ + decimal((-n) as nat)
    } else {
        decimal(n as nat)
    }
}

/// `s` followed by as many blanks as it takes to reach `width` characters.
pub open spec fn padded(s: Seq<char>, width: nat) -> Seq<char> {
    if s.len() >= width {
        s
    } else {
        s + Seq::new((width - s.len()) as nat, |i: int| ' ')
    }
}

/// `c` with an ASCII capital letter made small.
pub open spec fn ascii_small(c: char) -> char {
    if 'A' <= c && c <= 'Z' {
        (c as u8 + 32) as char
    } else {
        c
    }
}

/// Whether `s` is `word` but for the case of ASCII letters.
pub open spec fn same_ignoring_case(s: Seq<char>, word: Seq<char>) -> bool {
    s.len() == word.len() && forall|i: int| 0 <= i < s.len() ==> ascii_small(#[trigger] s[i]) == word[i]
}

/// Whether `a` stands before `b`, or is `b`, in the order of code points.
pub open spec fn text_le(a: Seq<char>, b: Seq<char>) -> bool
    decreases a.len(),
{
    if a.len() == 0 {
        true
    } else if b.len() == 0 {
        false
    } else if a[0] != b[0] {
        a[0] < b[0]
    } else {
        text_le(a.skip(1), b.skip(1))
    }
}

// ---------------------------------------------------------------------------
// Facts about the models
// ---------------------------------------------------------------------------

/// A text without `sep` is a single piece.
pub proof fn lemma_single_piece(s: Seq<char>, sep: char)
    requires
        !s.contains(sep),
    ensures
        pieces(s, sep) == seq![s],
    decreases s.len(),
{
    if s.len() == 0 {
        assert(s =~= Seq::<char>::empty());
        assert(pieces(s, sep) =~= seq![s]);
    } else {
        let front = s.drop_last();
        assert(s[s.len() - 1] == s.last());
        assert forall|i: int| 0 <= i < front.len() implies front[i] != sep by {
            assert(s[i] != sep);
        }
        lemma_single_piece(front, sep);
        assert(front.push(s.last()) =~= s);
        assert(pieces(s, sep) =~= seq![s]);
    }
}

/// A separator and a text without one add one piece.
pub proof fn lemma_piece_added(s: Seq<char>, t: Seq<char>, sep: char)
    requires
        !t.contains(sep),
    ensures
        pieces(s + seq![sep] + t, sep) == pieces(s, sep).push(t),
    decreases t.len(),
{
    let all = s + seq![sep] + t;
    if t.len() == 0 {
        assert(all.drop_last() =~= s);
        assert(t =~= Seq::<char>::empty());
        assert(pieces(all, sep) =~= pieces(s, sep).push(t));
    } else {
        let front = t.drop_last();
        assert(t[t.len() - 1] == t.last());
        assert forall|i: int| 0 <= i < front.len() implies front[i] != sep by {
            assert(t[i] != sep);
        }
        lemma_piece_added(s, front, sep);
        assert(all.drop_last() =~= s + seq![sep] + front);
        assert(front.push(t.last()) =~= t);
        assert(pieces(all, sep) =~= pieces(s, sep).push(t));
    }
}

// ---------------------------------------------------------------------------
// Laws
// ---------------------------------------------------------------------------

/// Of the ASCII characters, the tab, the line feed, the vertical tab, the form
/// feed, the carriage return and the blank are white space, and no other.
pub proof fn law_ascii_space(c: char)
    requires
        (c as u32) < 0x80,
    ensures
        is_space(c) <==> c == ' ' || c == '\t' || c == '\n' || c == '\r' || c as u32 == 0x0b || c as u32 == 0x0c,
{
}

/// Trimming takes away white space and nothing else, and leaves none at either
/// end.
pub proof fn law_trimmed(s: Seq<char>)
    ensures
        exists|i: int, j: int|
            0 <= i <= j <= s.len() && trimmed(s) == #[trigger] s.subrange(i, j) && (forall|k: int|
                0 <= k < i || j <= k < s.len() ==> is_space(#[trigger] s[k])),
        trimmed(s).len() > 0 ==> !is_space(trimmed(s)[0]) && !is_space(trimmed(s).last()),
{
    let i = lemma_trim_start(s);
    let front = s.skip(i);
    let j = lemma_trim_end(front);
    assert(trimmed(s) =~= s.subrange(i, i + j));
    assert forall|k: int| 0 <= k < i || i + j <= k < s.len() implies is_space(#[trigger] s[k]) by {
        if k >= i {
            assert(front[k - i] == s[k]);
        }
    }
    if trimmed(s).len() > 0 {
        assert(trimmed(s)[0] == front[0]);
    }
}

proof fn lemma_trim_start(s: Seq<char>) -> (i: int)
    ensures
        0 <= i <= s.len(),
        trim_start(s) == s.skip(i),
        forall|k: int| 0 <= k < i ==> is_space(#[trigger] s[k]),
        i < s.len() ==> !is_space(s[i]),
    decreases s.len(),
{
    if s.len() > 0 && is_space(s[0]) {
        let i = lemma_trim_start(s.skip(1));
        assert(s.skip(1).skip(i) =~= s.skip(i + 1));
        assert forall|k: int| 0 <= k < i + 1 implies is_space(#[trigger] s[k]) by {
            if k > 0 {
                assert(s.skip(1)[k - 1] == s[k]);
            }
        }
        i + 1
    } else {
        assert(s.skip(0) =~= s);
        0
    }
}

proof fn lemma_trim_end(s: Seq<char>) -> (j: int)
    ensures
        0 <= j <= s.len(),
        trim_end(s) == s.take(j),
        forall|k: int| j <= k < s.len() ==> is_space(#[trigger] s[k]),
        j > 0 ==> !is_space(s[j - 1]),
    decreases s.len(),
{
    if s.len() > 0 && is_space(s.last()) {
        let j = lemma_trim_end(s.drop_last());
        assert(s.drop_last().take(j) =~= s.take(j));
        assert forall|k: int| j <= k < s.len() implies is_space(#[trigger] s[k]) by {
            if k < s.len() - 1 {
                assert(s.drop_last()[k] == s[k]);
            }
        }
        j
    } else {
        assert(s.take(s.len() as int) =~= s);
        s.len() as int
    }
}

/// A text without white space at either end stays what it is, and white space
/// around it makes no difference.
pub proof fn law_trimmed_of_padded(a: Seq<char>, s: Seq<char>, b: Seq<char>)
    requires
        forall|i: int| 0 <= i < a.len() ==> is_space(#[trigger] a[i]),
        forall|i: int| 0 <= i < b.len() ==> is_space(#[trigger] b[i]),
        s.len() > 0 ==> !is_space(s[0]) && !is_space(s.last()),
    ensures
        trimmed(a + s + b) == s,
{
    let all = a + s + b;
    let i = lemma_trim_start(all);
    let front = all.skip(i);
    let j = lemma_trim_end(front);
    if s.len() > 0 {
        assert(all[a.len() as int] == s[0]);
        assert(i == a.len()) by {
            if i < a.len() {
                assert(all[i] == a[i]);
            }
        }
        assert(front =~= s + b);
        assert(front[s.len() - 1] == s.last());
        assert(j == s.len()) by {
            if j > s.len() {
                assert(front[j - 1] == b[j - 1 - s.len()]);
            }
        }
        assert(front.take(j) =~= s);
    } else {
        assert(i == all.len()) by {
            if i < all.len() {
                if i < a.len() {
                    assert(all[i] == a[i]);
                } else {
                    assert(all[i] == b[i - a.len()]);
                }
            }
        }
        assert(trimmed(all) =~= s);
    }
}

/// A text has a part if and only if it is that part with something before and
/// behind it, which may be nothing.
pub proof fn law_part_stands_between(s: Seq<char>, part: Seq<char>, before: Seq<char>, behind: Seq<char>)
    ensures
        has_part(before + part + behind, part),
        has_part(s, part) ==> exists|a: Seq<char>, b: Seq<char>| #[trigger] ((a + part) + b) == s,
        part.len() > s.len() ==> !has_part(s, part),
{
    let whole = before + part + behind;
    let at = before.len() as int;
    assert(whole.subrange(at, at + part.len()) =~= part);
    if has_part(s, part) {
        let i = choose|i: int| 0 <= i <= s.len() - part.len() && #[trigger] s.subrange(i, i + part.len()) == part;
        let a = s.take(i);
        let b = s.skip(i + part.len());
        let found = s.subrange(i, i + part.len());
        assert((a + found) + b =~= s);
        assert((a + part) + b == s);
    }
}

/// Splitting loses nothing but the separators, and leaves none in a piece:
/// the pieces, joined with the separator, are the text again.
pub proof fn law_pieces_join_up(s: Seq<char>, sep: char)
    ensures
        pieces(s, sep).len() > 0,
        joined(pieces(s, sep), seq![sep]) == s,
        forall|i: int| 0 <= i < pieces(s, sep).len() ==> !(#[trigger] pieces(s, sep)[i]).contains(sep),
    decreases s.len(),
{
    let p = pieces(s, sep);
    if s.len() == 0 {
        assert(joined(p, seq![sep]) =~= s);
    } else {
        let front = s.drop_last();
        law_pieces_join_up(front, sep);
        let q = pieces(front, sep);
        if s.last() == sep {
            assert(p.drop_last() =~= q);
            assert(joined(p, seq![sep]) =~= front + seq![sep] + Seq::<char>::empty());
            assert(s =~= front + seq![sep]);
        } else {
            let longer = q.last().push(s.last());
            assert(p.drop_last() =~= q.drop_last());
            assert(p.last() == longer);
            assert(q.len() > 0);
            assert(p.len() == q.len());
            assert(joined(p, seq![sep]) =~= joined(q, seq![sep]).push(s.last()));
            assert(front.push(s.last()) =~= s);
            assert forall|i: int| 0 <= i < p.len() implies !(#[trigger] p[i]).contains(sep) by {
                if i == p.len() - 1 {
                    assert(!q[i].contains(sep));
                    if longer.contains(sep) {
                        let k = choose|k: int| 0 <= k < longer.len() && longer[k] == sep;
                        assert(q[i][k] == sep);
                    }
                } else {
                    assert(p[i] == q[i]);
                }
            }
        }
    }
}

/// Texts without the separator, joined with it, split into those texts again.
pub proof fn law_joined_splits_up(parts: Seq<Seq<char>>, sep: char)
    requires
        parts.len() > 0,
        forall|i: int| 0 <= i < parts.len() ==> !(#[trigger] parts[i]).contains(sep),
    ensures
        pieces(joined(parts, seq![sep]), sep) == parts,
    decreases parts.len(),
{
    if parts.len() == 1 {
        lemma_single_piece(parts[0], sep);
        assert(pieces(joined(parts, seq![sep]), sep) =~= parts);
    } else {
        let front = parts.drop_last();
        assert forall|i: int| 0 <= i < front.len() implies !(#[trigger] front[i]).contains(sep) by {
            assert(front[i] == parts[i]);
        }
        law_joined_splits_up(front, sep);
        assert(!parts[parts.len() - 1].contains(sep));
        lemma_piece_added(joined(front, seq![sep]), parts.last(), sep);
        assert(pieces(joined(parts, seq![sep]), sep) =~= parts);
    }
}

/// A text without white space is one word, unless it is empty.
pub proof fn law_single_word(s: Seq<char>)
    requires
        s.len() > 0,
        forall|i: int| 0 <= i < s.len() ==> !is_space(#[trigger] s[i]),
    ensures
        words(s) == seq![s],
    decreases s.len(),
{
    if s.len() == 1 {
        assert(words(s.drop_last()) =~= Seq::<Seq<char>>::empty());
        assert(!is_space(s[0]));
        assert(seq![s.last()] =~= s);
        assert(words(s) =~= seq![s]);
    } else {
        let front = s.drop_last();
        assert forall|i: int| 0 <= i < front.len() implies !is_space(#[trigger] front[i]) by {
            assert(front[i] == s[i]);
        }
        law_single_word(front);
        assert(!is_space(s[s.len() - 1]));
        assert(!is_space(s[s.len() - 2]));
        assert(words(s) == words(front).drop_last().push(words(front).last().push(s.last())));
        assert(front.push(s.last()) =~= s);
        assert(words(s) =~= seq![s]);
    }
}

/// White space separates words: what stands before it and what stands after it
/// have their words each, and there are no others.
pub proof fn law_words_apart(a: Seq<char>, c: char, b: Seq<char>)
    requires
        is_space(c),
    ensures
        words(a + seq![c] + b) == words(a) + words(b),
    decreases b.len(),
{
    let all = a + seq![c] + b;
    if b.len() == 0 {
        assert(all.drop_last() =~= a);
        assert(all.last() == c);
        assert(words(all) =~= words(a) + words(b));
    } else {
        let front = b.drop_last();
        law_words_apart(a, c, front);
        assert(all.drop_last() =~= a + seq![c] + front);
        assert(all.last() == b.last());
        if !is_space(b.last()) {
            if b.len() == 1 {
                assert(all[all.len() - 2] == c);
                assert(words(front) =~= Seq::<Seq<char>>::empty());
            } else {
                assert(all[all.len() - 2] == b[b.len() - 2]);
                if !is_space(b[b.len() - 2]) {
                    lemma_last_word(front);
                }
            }
        }
        assert(words(all) =~= words(a) + words(b));
    }
}

proof fn lemma_last_word(s: Seq<char>)
    requires
        s.len() > 0,
        !is_space(s.last()),
    ensures
        words(s).len() > 0,
    decreases s.len(),
{
    if s.len() > 1 && !is_space(s[s.len() - 2]) {
        lemma_last_word(s.drop_last());
    }
}

/// Every word is a text without white space, and is not empty.
pub proof fn law_words_have_no_space(s: Seq<char>)
    ensures
        forall|i: int, k: int|
            0 <= i < words(s).len() && 0 <= k < words(s)[i].len() ==> !is_space(#[trigger] words(s)[i][k]),
        forall|i: int| 0 <= i < words(s).len() ==> (#[trigger] words(s)[i]).len() > 0,
    decreases s.len(),
{
    if s.len() > 0 {
        let front = s.drop_last();
        let w = words(front);
        law_words_have_no_space(front);
        if !is_space(s.last()) && s.len() > 1 && !is_space(s[s.len() - 2]) {
            lemma_last_word(front);
            assert forall|i: int, k: int| 0 <= i < words(s).len() && 0 <= k < words(s)[i].len() implies !is_space(
                #[trigger] words(s)[i][k],
            ) by {
                if i < w.len() - 1 {
                    assert(words(s)[i] == w[i]);
                    assert(!is_space(w[i][k]));
                } else if k < w.last().len() {
                    assert(words(s)[i][k] == w[i][k]);
                }
            }
            assert forall|i: int| 0 <= i < words(s).len() implies (#[trigger] words(s)[i]).len() > 0 by {
                if i < w.len() - 1 {
                    assert(words(s)[i] == w[i]);
                }
            }
        } else if !is_space(s.last()) {
            assert forall|i: int, k: int| 0 <= i < words(s).len() && 0 <= k < words(s)[i].len() implies !is_space(
                #[trigger] words(s)[i][k],
            ) by {
                if i < w.len() {
                    assert(words(s)[i] == w[i]);
                    assert(!is_space(w[i][k]));
                }
            }
            assert forall|i: int| 0 <= i < words(s).len() implies (#[trigger] words(s)[i]).len() > 0 by {
                if i < w.len() {
                    assert(words(s)[i] == w[i]);
                }
            }
        }
    }
}

/// What follows the first `c`: everything behind it, where the part before it
/// holds no other, and nothing where there is none.
pub proof fn law_after_first(a: Seq<char>, c: char, b: Seq<char>)
    requires
        !a.contains(c),
    ensures
        after_first(a + seq![c] + b, c) == Some(b),
        after_first(a, c) is None,
    decreases a.len(),
{
    let all = a + seq![c] + b;
    if a.len() == 0 {
        assert(all[0] == c);
        assert(all.skip(1) =~= b);
    } else {
        assert(a[0] != c);
        let rest = a.skip(1);
        assert forall|i: int| 0 <= i < rest.len() implies rest[i] != c by {
            assert(rest[i] == a[i + 1]);
        }
        law_after_first(rest, c, b);
        assert(all[0] == a[0]);
        assert(all.skip(1) =~= rest + seq![c] + b);
    }
}

/// Without its suffix, a text is what the suffix was put behind; a text that
/// does not end in it stays.
pub proof fn law_suffix_taken_off(stem: Seq<char>, s: Seq<char>, suffix: Seq<char>)
    ensures
        without_suffix(stem + suffix, suffix) == stem,
        !suffix.is_suffix_of(s) ==> without_suffix(s, suffix) == s,
{
    let whole = stem + suffix;
    assert(whole.subrange(whole.len() - suffix.len(), whole.len() as int) =~= suffix);
    assert(whole.take(whole.len() - suffix.len()) =~= stem);
}

/// The number that a text of decimal digits stands for.
pub open spec fn numeric(s: Seq<char>) -> int
    decreases s.len(),
{
    if s.len() == 0 {
        0
    } else {
        10 * numeric(s.drop_last()) + (s.last() as int - '0' as int)
    }
}

/// A number in decimal is made of digits, stands for that number, and begins
/// with a zero only where it is zero.
pub proof fn law_decimal(n: nat)
    ensures
        numeric(decimal(n)) == n,
        decimal(n).len() > 0,
        forall|i: int| 0 <= i < decimal(n).len() ==> '0' <= #[trigger] decimal(n)[i] <= '9',
        decimal(n)[0] == '0' ==> n == 0 && decimal(n).len() == 1,
    decreases n,
{
    let last = (n % 10) as int;
    assert(digit(last) as int == '0' as int + last);
    if n < 10 {
        assert(decimal(n).drop_last() =~= Seq::<char>::empty());
        assert(numeric(decimal(n).drop_last()) == 0);
    } else {
        law_decimal(n / 10);
        let front = decimal(n / 10);
        assert(decimal(n).drop_last() =~= front);
        assert forall|i: int| 0 <= i < decimal(n).len() implies '0' <= #[trigger] decimal(n)[i] <= '9' by {
            if i < front.len() {
                assert(decimal(n)[i] == front[i]);
            }
        }
        assert(decimal(n)[0] == front[0]);
    }
}

/// Padding puts blanks behind a text until it is wide enough, and never cuts it.
pub proof fn law_padded(s: Seq<char>, width: nat, i: int)
    ensures
        padded(s, width).len() == (if s.len() >= width {
            s.len()
        } else {
            width
        }),
        0 <= i < s.len() ==> padded(s, width)[i] == s[i],
        s.len() <= i < width ==> padded(s, width)[i] == ' ',
{
}

/// Where two texts first differ, the smaller character decides their order. A
/// text stands before all texts that it begins.
pub proof fn law_order_of_texts(p: Seq<char>, x: char, a: Seq<char>, y: char, b: Seq<char>)
    requires
        x != y,
    ensures
        text_le(p, p + b),
        text_le(p + b, p) <==> b.len() == 0,
        text_le(p + seq![x] + a, p + seq![y] + b) <==> x < y,
    decreases p.len(),
{
    let s = p + seq![x] + a;
    let t = p + seq![y] + b;
    if p.len() == 0 {
        assert(p + b =~= b);
        assert(s[0] == x);
        assert(t[0] == y);
    } else {
        law_order_of_texts(p.skip(1), x, a, y, b);
        assert((p + b).skip(1) =~= p.skip(1) + b);
        assert(s.skip(1) =~= p.skip(1) + seq![x] + a);
        assert(t.skip(1) =~= p.skip(1) + seq![y] + b);
        assert(s[0] == p[0]);
        assert(t[0] == p[0]);
        assert((p + b)[0] == p[0]);
    }
}

/// Two texts of the same letters are the same but for case if and only if each
/// letter of the one is that of the other, or is its capital.
pub proof fn law_case_ignored(s: Seq<char>, word: Seq<char>)
    requires
        forall|i: int| 0 <= i < word.len() ==> 'a' <= #[trigger] word[i] <= 'z',
    ensures
        same_ignoring_case(s, word) <==> s.len() == word.len() && forall|i: int|
            0 <= i < s.len() ==> #[trigger] s[i] == word[i] || s[i] as int + 32 == word[i] as int,
{
    if same_ignoring_case(s, word) {
        assert forall|i: int| 0 <= i < s.len() implies #[trigger] s[i] == word[i] || s[i] as int + 32
            == word[i] as int by {
            assert(ascii_small(s[i]) == word[i]);
        }
    }
    if s.len() == word.len() && forall|i: int|
        0 <= i < s.len() ==> #[trigger] s[i] == word[i] || s[i] as int + 32 == word[i] as int {
        assert forall|i: int| 0 <= i < s.len() implies ascii_small(#[trigger] s[i]) == word[i] by {
            assert('a' <= word[i] <= 'z');
            assert(s[i] == word[i] || s[i] as int + 32 == word[i] as int);
        }
    }
}

proof fn lemma_texts_push(v: Seq<String>, s: String)
    ensures
        texts(v.push(s)) == texts(v).push(s@),
{
    assert(texts(v.push(s)) =~= texts(v).push(s@));
}

// ---------------------------------------------------------------------------
// Building text
// ---------------------------------------------------------------------------

pub fn cat2(a: &str, b: &str) -> (r: String)
    ensures
        r@ == a@ + b@,
{
    a.to_owned().concat(b)
}

pub fn cat3(a: &str, b: &str, c: &str) -> (r: String)
    ensures
        r@ == a@ + b@ + c@,
{
    a.to_owned().concat(b).concat(c)
}

pub fn cat4(a: &str, b: &str, c: &str, d: &str) -> (r: String)
    ensures
        r@ == a@ + b@ + c@ + d@,
{
    a.to_owned().concat(b).concat(c).concat(d)
}

pub fn cat5(a: &str, b: &str, c: &str, d: &str, e: &str) -> (r: String)
    ensures
        r@ == a@ + b@ + c@ + d@ + e@,
{
    a.to_owned().concat(b).concat(c).concat(d).concat(e)
}

pub fn cat6(a: &str, b: &str, c: &str, d: &str, e: &str, f: &str) -> (r: String)
    ensures
        r@ == a@ + b@ + c@ + d@ + e@ + f@,
{
    a.to_owned().concat(b).concat(c).concat(d).concat(e).concat(f)
}

pub fn cat7(a: &str, b: &str, c: &str, d: &str, e: &str, f: &str, g: &str) -> (r: String)
    ensures
        r@ == a@ + b@ + c@ + d@ + e@ + f@ + g@,
{
    a.to_owned().concat(b).concat(c).concat(d).concat(e).concat(f).concat(g)
}

/// The characters of `s`.
pub fn chars_of(s: &str) -> (r: Vec<char>)
    ensures
        r@ == s@,
{
    let mut out: Vec<char> = Vec::new();
    for c in it: s.chars()
        invariant
            out@ == it.seq().take(it.index() as int),
            it.seq() == s@,
    {
        out.push(c);
    }
    out
}

/// The text of `chars[from..to]`.
pub fn text_of(chars: &Vec<char>, from: usize, to: usize) -> (r: String)
    requires
        from <= to <= chars@.len(),
    ensures
        r@ == chars@.subrange(from as int, to as int),
{
    let mut out = String::new();
    let mut i: usize = from;
    while i < to
        invariant
            from <= i <= to <= chars@.len(),
            out@ == chars@.subrange(from as int, i as int),
        decreases to - i,
    {
        out.push(chars[i]);
        i = i + 1;
        assert(chars@.subrange(from as int, i as int) =~= chars@.subrange(from as int, i - 1).push(
            chars@[i - 1],
        ));
    }
    out
}

/// Whether two texts are the same.
pub fn same(a: &str, b: &str) -> (r: bool)
    ensures
        r == (a@ == b@),
{
    a.to_owned() == b.to_owned()
}

/// A copy of a list of strings.
pub fn clone_list(v: &Vec<String>) -> (r: Vec<String>)
    ensures
        r.deep_view() == v.deep_view(),
{
    let mut out: Vec<String> = Vec::new();
    let mut i: usize = 0;
    while i < v.len()
        invariant
            i <= v@.len(),
            out@.len() == i,
            forall|j: int| 0 <= j < i ==> (#[trigger] out@[j])@ == v@[j]@,
        decreases v@.len() - i,
    {
        out.push(v[i].clone());
        i = i + 1;
    }
    assert(out.deep_view() =~= v.deep_view());
    out
}

/// Whether `entry` is in `list`.
pub fn listed(list: &Vec<String>, entry: &str) -> (r: bool)
    ensures
        r == list.deep_view().contains(entry@),
{
    let mut i: usize = 0;
    while i < list.len()
        invariant
            i <= list@.len(),
            forall|j: int| 0 <= j < i ==> (#[trigger] list@[j])@ != entry@,
        decreases list@.len() - i,
    {
        if same(list[i].as_str(), entry) {
            assert(list.deep_view()[i as int] == entry@);
            return true;
        }
        i = i + 1;
    }
    assert forall|j: int| 0 <= j < list.deep_view().len() implies list.deep_view()[j] != entry@ by {
        assert(list@[j]@ != entry@);
    }
    false
}

// ---------------------------------------------------------------------------
// Reading text
// ---------------------------------------------------------------------------

pub fn space(c: char) -> (r: bool)
    ensures
        r == is_space(c),
{
    let n: u32 = c as u32;
    (0x09 <= n && n <= 0x0d) || n == 0x20 || n == 0x85 || n == 0xa0 || n == 0x1680 || (0x2000 <= n && n
        <= 0x200a) || n == 0x2028 || n == 0x2029 || n == 0x202f || n == 0x205f || n == 0x3000
}

/// `s` without leading and trailing white space.
pub fn trim(s: &str) -> (r: String)
    ensures
        r@ == trimmed(s@),
{
    let chars = chars_of(s);
    let n: usize = chars.len();
    let mut from: usize = 0;
    assert(s@.skip(0) =~= s@);
    while from < n && space(chars[from])
        invariant
            n == chars@.len(),
            chars@ == s@,
            from <= n,
            trim_start(s@) == trim_start(s@.skip(from as int)),
        decreases n - from,
    {
        assert(s@.skip(from as int).skip(1) =~= s@.skip(from + 1));
        from = from + 1;
    }
    let ghost rest = s@.skip(from as int);
    assert(trim_start(s@) == rest);
    let mut to: usize = n;
    assert(rest.take(to - from) =~= rest);
    while to > from && space(chars[to - 1])
        invariant
            n == chars@.len(),
            chars@ == s@,
            from <= to <= n,
            rest == s@.skip(from as int),
            trim_end(rest) == trim_end(rest.take(to - from)),
        decreases to,
    {
        assert(rest.take(to - from).drop_last() =~= rest.take(to - 1 - from));
        to = to - 1;
    }
    assert(rest.take(to - from) =~= s@.subrange(from as int, to as int));
    text_of(&chars, from, to)
}

/// Whether nothing but white space is in `s`.
pub fn is_blank(s: &str) -> (r: bool)
    ensures
        r == (trimmed(s@).len() == 0),
{
    trim(s).as_str().is_empty()
}

/// The pieces of `s` between the occurrences of `sep`.
pub fn split(s: &str, sep: char) -> (r: Vec<String>)
    ensures
        r.deep_view() == pieces(s@, sep),
        r@.len() > 0,
{
    let chars = chars_of(s);
    let mut out: Vec<String> = Vec::new();
    let mut open = String::new();
    let mut i: usize = 0;
    assert(s@.take(0).len() == 0);
    assert(texts(out@).push(open@) =~= pieces(s@.take(0), sep));
    while i < chars.len()
        invariant
            i <= chars@.len(),
            chars@ == s@,
            texts(out@).push(open@) == pieces(s@.take(i as int), sep),
        decreases chars@.len() - i,
    {
        let c = chars[i];
        let ghost before = s@.take(i as int);
        let ghost next = s@.take(i + 1);
        assert(next.drop_last() =~= before);
        assert(next.last() == c);
        assert(pieces(before, sep).drop_last() =~= texts(out@));
        if c == sep {
            proof {
                lemma_texts_push(out@, open);
            }
            out.push(open);
            open = String::new();
        } else {
            open.push(c);
        }
        i = i + 1;
    }
    assert(s@.take(i as int) =~= s@);
    proof {
        lemma_texts_push(out@, open);
    }
    out.push(open);
    assert(out.deep_view() =~= texts(out@));
    out
}

/// The maximal runs of characters in `s` that are not white space.
pub fn split_words(s: &str) -> (r: Vec<String>)
    ensures
        r.deep_view() == words(s@),
{
    let chars = chars_of(s);
    let mut out: Vec<String> = Vec::new();
    let mut open: Option<String> = None;
    let mut i: usize = 0;
    assert(texts(out@) =~= words(s@.take(0)));
    while i < chars.len()
        invariant
            i <= chars@.len(),
            chars@ == s@,
            match open {
                Some(w) => i > 0 && !is_space(s@[i - 1]) && texts(out@).push(w@) == words(s@.take(i as int)),
                None => (i == 0 || is_space(s@[i - 1])) && texts(out@) == words(s@.take(i as int)),
            },
        decreases chars@.len() - i,
    {
        let c = chars[i];
        let ghost before = s@.take(i as int);
        let ghost next = s@.take(i + 1);
        assert(next.drop_last() =~= before);
        assert(next.last() == c);
        if space(c) {
            if let Some(w) = open {
                proof {
                    lemma_texts_push(out@, w);
                }
                out.push(w);
            }
            open = None;
        } else {
            match open {
                Some(w) => {
                    assert(next[next.len() - 2] == s@[i - 1]);
                    assert(words(before).drop_last() =~= texts(out@));
                    let mut longer = w;
                    longer.push(c);
                    open = Some(longer);
                },
                None => {
                    let mut fresh = String::new();
                    fresh.push(c);
                    assert(fresh@ =~= seq![c]);
                    assert(i > 0 ==> next[next.len() - 2] == s@[i - 1]);
                    open = Some(fresh);
                },
            }
        }
        i = i + 1;
    }
    assert(s@.take(i as int) =~= s@);
    if let Some(w) = open {
        proof {
            lemma_texts_push(out@, w);
        }
        out.push(w);
    }
    assert(out.deep_view() =~= texts(out@));
    out
}

/// Whether `chars` holds `part` from index `at` on.
fn stands_at(chars: &Vec<char>, part: &Vec<char>, at: usize) -> (r: bool)
    requires
        at + part@.len() <= chars@.len(),
    ensures
        r == (chars@.subrange(at as int, at + part@.len()) == part@),
{
    let n: usize = chars.len();
    let mut i: usize = 0;
    while i < part.len()
        invariant
            n == chars@.len(),
            at + part@.len() <= n,
            i <= part@.len(),
            forall|j: int| 0 <= j < i ==> chars@[at + j] == part@[j],
        decreases part@.len() - i,
    {
        if chars[at + i] != part[i] {
            assert(chars@.subrange(at as int, at + part@.len())[i as int] != part@[i as int]);
            return false;
        }
        i = i + 1;
    }
    assert(chars@.subrange(at as int, at + part@.len()) =~= part@);
    true
}

/// Whether `s` begins with `prefix`.
pub fn begins(s: &str, prefix: &str) -> (r: bool)
    ensures
        r == prefix@.is_prefix_of(s@),
{
    let chars = chars_of(s);
    let part = chars_of(prefix);
    if part.len() > chars.len() {
        return false;
    }
    stands_at(&chars, &part, 0)
}

/// `s` without `suffix` where it ends in it, else `s`.
pub fn strip_suffix(s: &str, suffix: &str) -> (r: String)
    ensures
        r@ == without_suffix(s@, suffix@),
{
    let chars = chars_of(s);
    let part = chars_of(suffix);
    if part.len() > chars.len() {
        return s.to_owned();
    }
    let at: usize = chars.len() - part.len();
    assert(s@.subrange(at as int, at + suffix@.len()) =~= s@.subrange(
        s@.len() - suffix@.len(),
        s@.len() as int,
    ));
    if stands_at(&chars, &part, at) {
        assert(s@.subrange(0, at as int) =~= s@.take(at as int));
        text_of(&chars, 0, at)
    } else {
        s.to_owned()
    }
}

/// Whether `part` stands somewhere in `s`.
pub fn contains(s: &str, part: &str) -> (r: bool)
    ensures
        r == has_part(s@, part@),
{
    let chars = chars_of(s);
    let wanted = chars_of(part);
    if wanted.len() > chars.len() {
        return false;
    }
    let last: usize = chars.len() - wanted.len();
    let mut i: usize = 0;
    while i <= last
        invariant
            chars@ == s@,
            wanted@ == part@,
            last == s@.len() - part@.len(),
            i <= last + 1,
            last + 1 <= chars@.len() + 1,
            forall|j: int| 0 <= j < i ==> #[trigger] s@.subrange(j, j + part@.len()) != part@,
        decreases last + 1 - i,
    {
        if stands_at(&chars, &wanted, i) {
            assert(s@.subrange(i as int, i + part@.len()) == part@);
            return true;
        }
        if i == last {
            assert(forall|j: int| 0 <= j <= last ==> #[trigger] s@.subrange(j, j + part@.len()) != part@);
            return false;
        }
        i = i + 1;
    }
    false
}

/// Whether the character `c` is in `s`.
pub fn contains_char(s: &str, c: char) -> (r: bool)
    ensures
        r == s@.contains(c),
{
    let chars = chars_of(s);
    let mut i: usize = 0;
    while i < chars.len()
        invariant
            chars@ == s@,
            i <= chars@.len(),
            forall|j: int| 0 <= j < i ==> s@[j] != c,
        decreases chars@.len() - i,
    {
        if chars[i] == c {
            assert(s@[i as int] == c);
            return true;
        }
        i = i + 1;
    }
    false
}

/// What follows the first `c` in `s`, if there is one.
pub fn after(s: &str, c: char) -> (r: Option<String>)
    ensures
        r.deep_view() == after_first(s@, c),
{
    let chars = chars_of(s);
    let n: usize = chars.len();
    let mut i: usize = 0;
    assert(s@.skip(0) =~= s@);
    while i < n
        invariant
            n == chars@.len(),
            chars@ == s@,
            i <= n,
            after_first(s@, c) == after_first(s@.skip(i as int), c),
        decreases n - i,
    {
        assert(s@.skip(i as int).skip(1) =~= s@.skip(i + 1));
        if chars[i] == c {
            assert(s@.subrange(i + 1, n as int) =~= s@.skip(i + 1));
            return Some(text_of(&chars, i + 1, n));
        }
        i = i + 1;
    }
    None
}

/// Whether `s` is `word` but for the case of ASCII letters.
pub fn is_word(s: &str, word: &str) -> (r: bool)
    ensures
        r == same_ignoring_case(s@, word@),
{
    let a = chars_of(s);
    let b = chars_of(word);
    if a.len() != b.len() {
        return false;
    }
    let mut i: usize = 0;
    while i < a.len()
        invariant
            a@ == s@,
            b@ == word@,
            a@.len() == b@.len(),
            i <= a@.len(),
            forall|j: int| 0 <= j < i ==> ascii_small(#[trigger] s@[j]) == word@[j],
        decreases a@.len() - i,
    {
        let c = a[i];
        let small = if 'A' <= c && c <= 'Z' {
            (c as u8 + 32) as char
        } else {
            c
        };
        if small != b[i] {
            assert(ascii_small(s@[i as int]) != word@[i as int]);
            return false;
        }
        i = i + 1;
    }
    true
}

/// `parts` one after the other, with `sep` between neighbours.
pub fn join(parts: &Vec<String>, sep: &str) -> (r: String)
    ensures
        r@ == joined(parts.deep_view(), sep@),
{
    let mut out = String::new();
    let mut i: usize = 0;
    assert(texts(parts@.take(0)) =~= Seq::empty());
    while i < parts.len()
        invariant
            i <= parts@.len(),
            out@ == joined(texts(parts@.take(i as int)), sep@),
        decreases parts@.len() - i,
    {
        proof {
            let whole = texts(parts@.take(i + 1));
            assert(parts@.take(i + 1) =~= parts@.take(i as int).push(parts@[i as int]));
            lemma_texts_push(parts@.take(i as int), parts@[i as int]);
            assert(whole.drop_last() =~= texts(parts@.take(i as int)));
        }
        if i > 0 {
            out.append(sep);
        }
        out.append(parts[i].as_str());
        i = i + 1;
        assert(out@ =~= joined(texts(parts@.take(i as int)), sep@));
    }
    assert(parts@.take(i as int) =~= parts@);
    assert(parts.deep_view() =~= texts(parts@));
    out
}

/// `n` in decimal.
pub fn number(n: u64) -> (r: String)
    ensures
        r@ == decimal(n as nat),
    decreases n,
{
    let last: u8 = (n % 10) as u8;
    let c: char = (48u8 + last) as char;
    if n < 10 {
        let mut out = String::new();
        out.push(c);
        assert(out@ =~= decimal(n as nat));
        out
    } else {
        let mut out = number(n / 10);
        out.push(c);
        out
    }
}

/// `n` in decimal, with a minus sign where it is negative.
pub fn signed_number(n: i64) -> (r: String)
    ensures
        r@ == signed_decimal(n as int),
{
    if n >= 0 {
        number(n as u64)
    } else if n == i64::MIN {
        cat2("-", number(9223372036854775808).as_str())
    } else {
        cat2("-", number((-n) as u64).as_str())
    }
}

/// `s` followed by as many blanks as it takes to reach `width` characters.
pub fn pad(s: &str, width: usize) -> (r: String)
    ensures
        r@ == padded(s@, width as nat),
{
    let mut have: usize = s.unicode_len();
    let mut out = s.to_owned();
    while have < width
        invariant
            have == out@.len(),
            s@.len() <= have,
            s@.len() < width ==> have <= width,
            s@.len() >= width ==> have == s@.len(),
            out@ == s@ + Seq::new((have - s@.len()) as nat, |i: int| ' '),
        decreases width - have,
    {
        out.push(' ');
        have = have + 1;
        assert(out@ =~= s@ + Seq::new((have - s@.len()) as nat, |i: int| ' '));
    }
    assert(s@ + Seq::new(0, |i: int| ' ') =~= s@);
    out
}

/// Whether `a` stands before `b`, or is `b`, in the order of code points.
pub fn in_order(a: &str, b: &str) -> (r: bool)
    ensures
        r == text_le(a@, b@),
{
    let x = chars_of(a);
    let y = chars_of(b);
    let mut i: usize = 0;
    assert(a@.skip(0) =~= a@);
    assert(b@.skip(0) =~= b@);
    while i < x.len() && i < y.len() && x[i] == y[i]
        invariant
            x@ == a@,
            y@ == b@,
            i <= x@.len(),
            i <= y@.len(),
            text_le(a@, b@) == text_le(a@.skip(i as int), b@.skip(i as int)),
        decreases x@.len() - i,
    {
        assert(a@.skip(i as int).skip(1) =~= a@.skip(i + 1));
        assert(b@.skip(i as int).skip(1) =~= b@.skip(i + 1));
        i = i + 1;
    }
    if i == x.len() {
        true
    } else if i == y.len() {
        false
    } else {
        x[i] < y[i]
    }
}

} // verus!
