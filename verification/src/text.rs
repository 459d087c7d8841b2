//! Character-level helpers on strings: conversion to characters, splitting on
//! a separator and joining with one.

use vstd::prelude::*;
use vstd::string::*;

verus! {

/// `String::push` appends one character to the end of the string.
pub assume_specification[ String::push ](s: &mut String, ch: char)
    ensures
        final(s)@ == old(s)@.push(ch),
;

/// The characters of `s`, in order.
pub fn chars_of(s: &str) -> (v: Vec<char>)
    ensures
        v@ == s@,
{
    broadcast use vstd::string::group_string_axioms;
    let mut v: Vec<char> = Vec::new();
    for c in it: s.chars()
        invariant
            it.seq() == s@,
            v@ == s@.take(it.index() as int),
    {
        v.push(c);
    }
    v
}

/// The string made of the characters `v[from..to]`.
pub fn string_of(v: &Vec<char>, from: usize, to: usize) -> (s: String)
    requires
        from <= to <= v.len(),
    ensures
        s@ == v@.subrange(from as int, to as int),
{
    let mut s: String = String::new();
    let mut i: usize = from;
    while i < to
        invariant
            from <= i <= to <= v.len(),
            s@ == v@.subrange(from as int, i as int),
        decreases to - i,
    {
        s.push(v[i]);
        i = i + 1;
    }
    s
}

/// The character sequences of a vector of strings, in order.
pub open spec fn texts(v: Seq<String>) -> Seq<Seq<char>> {
    Seq::new(v.len(), |i: int| v[i]@)
}

/// `parts` written one after another with `sep` between neighbours.
pub open spec fn join_spec(parts: Seq<Seq<char>>, sep: char) -> Seq<char>
    decreases parts.len(),
{
    if parts.len() == 0 {
        Seq::empty()
    } else if parts.len() == 1 {
        parts[0]
    } else {
        join_spec(parts.drop_last(), sep).push(sep) + parts.last()
    }
}

/// The pieces of `s` between occurrences of `sep`. There is always at least
/// one piece; a separator at either end, or two in a row, give an empty piece.
pub open spec fn split_spec(s: Seq<char>, sep: char) -> Seq<Seq<char>>
    decreases s.len(),
{
    if s.len() == 0 {
        seq![Seq::empty()]
    } else {
        let init = split_spec(s.drop_last(), sep);
        if s.last() == sep {
            init.push(Seq::empty())
        } else {
            init.drop_last().push(init.last().push(s.last()))
        }
    }
}

/// Splitting never yields an empty list of pieces.
pub proof fn lemma_split_nonempty(s: Seq<char>, sep: char)
    ensures
        split_spec(s, sep).len() >= 1,
    decreases s.len(),
{
    if s.len() > 0 {
        lemma_split_nonempty(s.drop_last(), sep);
    }
}

/// No piece of a split holds the separator.
pub proof fn lemma_split_pieces_hold_no_separator(s: Seq<char>, sep: char)
    ensures
        forall|i: int| 0 <= i < split_spec(s, sep).len() ==> !(#[trigger] split_spec(s, sep)[i]).contains(sep),
    decreases s.len(),
{
    if s.len() > 0 {
        lemma_split_nonempty(s.drop_last(), sep);
        lemma_split_pieces_hold_no_separator(s.drop_last(), sep);
        let init = split_spec(s.drop_last(), sep);
        let parts = split_spec(s, sep);
        assert forall|i: int| 0 <= i < parts.len() implies !(#[trigger] parts[i]).contains(sep) by {
            if i < init.len() - 1 {
                assert(parts[i] == init[i]);
            } else if s.last() == sep {
                if i == init.len() - 1 {
                    assert(parts[i] == init[i]);
                }
            } else {
                let piece = init.last();
                assert(!piece.contains(sep));
                assert(parts[i] == piece.push(s.last()));
                if parts[i].contains(sep) {
                    let k = choose|k: int| 0 <= k < parts[i].len() && parts[i][k] == sep;
                    assert(piece[k] == sep);
                }
            }
        }
    }
}

/// Joining the pieces of a split with the same separator gives the text back.
pub proof fn lemma_join_split(s: Seq<char>, sep: char)
    ensures
        join_spec(split_spec(s, sep), sep) == s,
    decreases s.len(),
{
    if s.len() == 0 {
        assert(join_spec(seq![Seq::<char>::empty()], sep) == Seq::<char>::empty());
    } else {
        let front = s.drop_last();
        lemma_split_nonempty(front, sep);
        lemma_join_split(front, sep);
        let init = split_spec(front, sep);
        let parts = split_spec(s, sep);
        assert(s == front.push(s.last()));
        if s.last() == sep {
            assert(parts.drop_last() == init);
            assert(join_spec(parts, sep) == join_spec(init, sep).push(sep) + Seq::<char>::empty());
            assert(join_spec(parts, sep) == s);
        } else if init.len() == 1 {
            assert(join_spec(init, sep) == init[0]);
            assert(parts.len() == 1);
            assert(join_spec(parts, sep) == s);
        } else {
            assert(parts.drop_last() == init.drop_last());
            assert(join_spec(parts, sep) == join_spec(init.drop_last(), sep).push(sep)
                + init.last().push(s.last()));
            assert(join_spec(init, sep) == join_spec(init.drop_last(), sep).push(sep) + init.last());
            assert(join_spec(parts, sep) == s);
        }
    }
}

/// Splitting `text + piece`, where `piece` holds no separator, only extends
/// the last piece of the split of `text`.
proof fn lemma_split_append_piece(text: Seq<char>, piece: Seq<char>, sep: char)
    requires
        !piece.contains(sep),
    ensures
        split_spec(text + piece, sep) == split_spec(text, sep).drop_last().push(
            split_spec(text, sep).last() + piece,
        ),
    decreases piece.len(),
{
    lemma_split_nonempty(text, sep);
    let base = split_spec(text, sep);
    if piece.len() == 0 {
        assert(text + piece == text);
        assert(base.last() + piece == base.last());
        assert(base.drop_last().push(base.last()) == base);
    } else {
        let front = piece.drop_last();
        assert(!front.contains(sep)) by {
            if front.contains(sep) {
                let k = choose|k: int| 0 <= k < front.len() && front[k] == sep;
                assert(piece[k] == sep);
            }
        }
        lemma_split_append_piece(text, front, sep);
        assert(piece.last() != sep) by {
            assert(piece[piece.len() - 1] == piece.last());
        }
        assert((text + piece).drop_last() == text + front);
        assert((text + piece).last() == piece.last());
        let init = split_spec(text + front, sep);
        assert(init.drop_last() == base.drop_last());
        assert(init.last().push(piece.last()) == base.last() + piece);
    }
}

/// A list of pieces that hold no separator is what splitting their join
/// gives: splitting and joining are inverse to each other.
pub proof fn lemma_split_join(parts: Seq<Seq<char>>, sep: char)
    requires
        parts.len() >= 1,
        forall|i: int| 0 <= i < parts.len() ==> !(#[trigger] parts[i]).contains(sep),
    ensures
        split_spec(join_spec(parts, sep), sep) == parts,
    decreases parts.len(),
{
    if parts.len() == 1 {
        lemma_split_append_piece(Seq::empty(), parts[0], sep);
        assert(Seq::<char>::empty() + parts[0] == parts[0]);
        assert(seq![Seq::<char>::empty()].drop_last().push(parts[0]) == parts);
    } else {
        let init = parts.drop_last();
        assert forall|i: int| 0 <= i < init.len() implies !(#[trigger] init[i]).contains(sep) by {
            assert(init[i] == parts[i]);
        }
        lemma_split_join(init, sep);
        let head = join_spec(init, sep).push(sep);
        assert(head.drop_last() == join_spec(init, sep));
        assert(split_spec(head, sep) == init.push(Seq::<char>::empty()));
        lemma_split_append_piece(head, parts.last(), sep);
        assert(Seq::<char>::empty() + parts.last() == parts.last());
        assert(init.push(Seq::<char>::empty()).drop_last() == init);
        assert(init.push(parts.last()) == parts);
    }
}

/// Splits `s` at every occurrence of `sep`.
pub fn split(s: &str, sep: char) -> (parts: Vec<String>)
    ensures
        texts(parts@) == split_spec(s@, sep),
{
    let chars = chars_of(s);
    let mut parts: Vec<String> = Vec::new();
    let mut piece: String = String::new();
    let mut i: usize = 0;
    while i < chars.len()
        invariant
            i <= chars.len(),
            texts(parts@).push(piece@) == split_spec(chars@.take(i as int), sep),
        decreases chars.len() - i,
    {
        let c = chars[i];
        proof {
            assert(chars@.take(i + 1).drop_last() == chars@.take(i as int));
            assert(chars@.take(i + 1).last() == c);
            assert(texts(parts@).push(piece@).drop_last() == texts(parts@));
        }
        if c == sep {
            let ghost before = parts@;
            let ghost done = piece@;
            parts.push(piece);
            piece = String::new();
            assert(texts(parts@) == texts(before).push(done));
        } else {
            piece.push(c);
        }
        i = i + 1;
    }
    let ghost before = parts@;
    let ghost done = piece@;
    parts.push(piece);
    proof {
        assert(chars@.take(i as int) == chars@);
        assert(texts(parts@) == texts(before).push(done));
    }
    parts
}

/// Writes `parts` one after another with `sep` between neighbours.
pub fn join(parts: &Vec<String>, sep: char) -> (s: String)
    ensures
        s@ == join_spec(texts(parts@), sep),
{
    let mut s: String = String::new();
    let mut i: usize = 0;
    while i < parts.len()
        invariant
            i <= parts.len(),
            s@ == join_spec(texts(parts@).take(i as int), sep),
        decreases parts.len() - i,
    {
        proof {
            let now = texts(parts@).take(i + 1);
            assert(now.drop_last() == texts(parts@).take(i as int));
            assert(now.last() == parts@[i as int]@);
        }
        if i > 0 {
            s.push(sep);
        }
        s.append(parts[i].as_str());
        proof {
            if i == 0 {
                assert(Seq::<char>::empty() + parts@[0]@ == parts@[0]@);
            }
        }
        i = i + 1;
    }
    proof {
        assert(texts(parts@).take(i as int) == texts(parts@));
    }
    s
}

/// Whether `c` is white space as Unicode defines it (the property
/// `White_Space`): what separates the words of a text.
pub open spec fn is_space(c: char) -> bool {
    let n = c as u32;
    (0x09 <= n <= 0x0D) || n == 0x20 || n == 0x85 || n == 0xA0 || n == 0x1680 || (0x2000 <= n
        <= 0x200A) || n == 0x2028 || n == 0x2029 || n == 0x202F || n == 0x205F || n == 0x3000
}

/// `s` with every white-space character replaced by a plain space.
pub open spec fn spaced(s: Seq<char>) -> Seq<char> {
    Seq::new(s.len(), |i: int| if is_space(s[i]) { ' ' } else { s[i] })
}

/// The words of `s`: its maximal runs of characters that are not white space,
/// in order of appearance.
pub open spec fn words_spec(s: Seq<char>) -> Seq<Seq<char>> {
    split_spec(spaced(s), ' ').filter(|piece: Seq<char>| piece.len() > 0)
}

/// Tells whether `c` is white space.
pub fn is_whitespace(c: char) -> (r: bool)
    ensures
        r == is_space(c),
{
    let n: u32 = c as u32;
    (0x09 <= n && n <= 0x0D) || n == 0x20 || n == 0x85 || n == 0xA0 || n == 0x1680 || (0x2000 <= n
        && n <= 0x200A) || n == 0x2028 || n == 0x2029 || n == 0x202F || n == 0x205F || n == 0x3000
}

/// The words of `s`, split at white space of any length.
pub fn words(s: &str) -> (list: Vec<String>)
    ensures
        texts(list@) == words_spec(s@),
{
    let chars = chars_of(s);
    let mut plain: String = String::new();
    let mut i: usize = 0;
    while i < chars.len()
        invariant
            i <= chars.len(),
            plain@ == spaced(chars@).take(i as int),
        decreases chars.len() - i,
    {
        if is_whitespace(chars[i]) {
            plain.push(' ');
        } else {
            plain.push(chars[i]);
        }
        i = i + 1;
    }
    assert(plain@ == spaced(s@));
    let pieces = split(plain.as_str(), ' ');
    let ghost nonempty = |piece: Seq<char>| piece.len() > 0;
    let mut list: Vec<String> = Vec::new();
    let mut k: usize = 0;
    while k < pieces.len()
        invariant
            k <= pieces.len(),
            nonempty == |piece: Seq<char>| piece.len() > 0,
            texts(list@) == texts(pieces@).take(k as int).filter(nonempty),
        decreases pieces.len() - k,
    {
        proof {
            reveal(Seq::filter);
            let now = texts(pieces@).take(k + 1);
            assert(now.drop_last() == texts(pieces@).take(k as int));
            assert(now.last() == pieces@[k as int]@);
        }
        if pieces[k].as_str().unicode_len() > 0 {
            let ghost before = list@;
            let word = pieces[k].clone();
            list.push(word);
            assert(texts(list@) == texts(before).push(pieces@[k as int]@));
        }
        k = k + 1;
    }
    assert(texts(pieces@).take(k as int) == texts(pieces@));
    list
}

/// The dictionary order on texts, by the code points of their characters:
/// `a` comes before `b` or equals it.
pub open spec fn precedes(a: Seq<char>, b: Seq<char>) -> bool
    decreases a.len(),
{
    if a.len() == 0 {
        true
    } else if b.len() == 0 {
        false
    } else if a[0] != b[0] {
        (a[0] as int) < (b[0] as int)
    } else {
        precedes(a.skip(1), b.skip(1))
    }
}

/// Of two texts one comes before the other or equals it.
pub proof fn lemma_precedes_total(a: Seq<char>, b: Seq<char>)
    ensures
        precedes(a, b) || precedes(b, a),
    decreases a.len(),
{
    if a.len() > 0 && b.len() > 0 {
        if a[0] == b[0] {
            lemma_precedes_total(a.skip(1), b.skip(1));
        }
    }
}

/// Two texts that come before each other are the same text.
pub proof fn lemma_precedes_antisymmetric(a: Seq<char>, b: Seq<char>)
    requires
        precedes(a, b),
        precedes(b, a),
    ensures
        a == b,
    decreases a.len(),
{
    if a.len() == 0 || b.len() == 0 {
        assert(a =~= b);
    } else {
        lemma_precedes_antisymmetric(a.skip(1), b.skip(1));
        assert(a =~= seq![a[0]] + a.skip(1));
        assert(b =~= seq![b[0]] + b.skip(1));
    }
}

/// The dictionary order is transitive.
pub proof fn lemma_precedes_transitive(a: Seq<char>, b: Seq<char>, c: Seq<char>)
    requires
        precedes(a, b),
        precedes(b, c),
    ensures
        precedes(a, c),
    decreases a.len(),
{
    if a.len() > 0 && a[0] == b[0] && b[0] == c[0] {
        lemma_precedes_transitive(a.skip(1), b.skip(1), c.skip(1));
    }
}

/// Tells whether `a` comes before `b` in dictionary order, or equals it.
pub fn comes_before(a: &Vec<char>, b: &Vec<char>) -> (r: bool)
    ensures
        r == precedes(a@, b@),
{
    let mut k: usize = 0;
    proof {
        assert(a@.skip(0) == a@);
        assert(b@.skip(0) == b@);
    }
    while k < a.len() && k < b.len() && a[k] == b[k]
        invariant
            k <= a.len(),
            k <= b.len(),
            precedes(a@, b@) == precedes(a@.skip(k as int), b@.skip(k as int)),
        decreases a.len() - k,
    {
        proof {
            assert(a@.skip(k as int).skip(1) == a@.skip(k + 1));
            assert(b@.skip(k as int).skip(1) == b@.skip(k + 1));
        }
        k = k + 1;
    }
    if k == a.len() {
        true
    } else if k == b.len() {
        false
    } else {
        a[k] < b[k]
    }
}

/// `s` begins with `head`.
pub open spec fn begins_with(s: Seq<char>, head: Seq<char>) -> bool {
    head.len() <= s.len() && s.take(head.len() as int) == head
}

/// `s` with every occurrence of `pattern` taken out, found from left to
/// right; occurrences do not overlap, and an empty pattern occurs nowhere.
pub open spec fn without(s: Seq<char>, pattern: Seq<char>) -> Seq<char>
    decreases s.len(),
{
    if s.len() == 0 || pattern.len() == 0 {
        s
    } else if begins_with(s, pattern) {
        without(s.skip(pattern.len() as int), pattern)
    } else {
        seq![s[0]] + without(s.skip(1), pattern)
    }
}

/// Tells whether `pattern` stands in `s` at position `at`.
fn stands_at(s: &Vec<char>, at: usize, pattern: &Vec<char>) -> (r: bool)
    requires
        at <= s.len(),
    ensures
        r == begins_with(s@.skip(at as int), pattern@),
{
    if pattern.len() > s.len() - at {
        return false;
    }
    let mut k: usize = 0;
    while k < pattern.len()
        invariant
            at + pattern.len() <= s.len(),
            k <= pattern.len(),
            forall|j: int| 0 <= j < k ==> s@[at + j] == pattern@[j],
        decreases pattern.len() - k,
    {
        if s[at + k] != pattern[k] {
            proof {
                let head = s@.skip(at as int).take(pattern@.len() as int);
                assert(head[k as int] == s@[at + k]);
            }
            return false;
        }
        k = k + 1;
    }
    assert(s@.skip(at as int).take(pattern@.len() as int) == pattern@);
    true
}

/// Tells whether `s` begins with `head`.
pub fn starts_with(s: &str, head: &str) -> (r: bool)
    ensures
        r == begins_with(s@, head@),
{
    let chars = chars_of(s);
    let head_chars = chars_of(head);
    assert(chars@.skip(0) == chars@);
    stands_at(&chars, 0, &head_chars)
}

/// Takes every occurrence of `pattern` out of `s`.
pub fn remove_all(s: &str, pattern: &str) -> (r: String)
    ensures
        r@ == without(s@, pattern@),
{
    let chars = chars_of(s);
    let gone = chars_of(pattern);
    if gone.len() == 0 {
        return String::from_str(s);
    }
    let mut r: String = String::new();
    let mut i: usize = 0;
    proof {
        assert(chars@.skip(0) == chars@);
        assert(Seq::<char>::empty() + without(chars@, gone@) == without(chars@, gone@));
    }
    while i < chars.len()
        invariant
            i <= chars.len(),
            gone@.len() > 0,
            without(chars@, gone@) == r@ + without(chars@.skip(i as int), gone@),
        decreases chars.len() - i,
    {
        let ghost rest = chars@.skip(i as int);
        if stands_at(&chars, i, &gone) {
            proof {
                assert(rest.skip(gone@.len() as int) == chars@.skip(i + gone@.len()));
            }
            i = i + gone.len();
        } else {
            proof {
                assert(rest.skip(1) == chars@.skip(i + 1));
                assert(r@.push(chars@[i as int]) + without(rest.skip(1), gone@) == r@ + (seq![
                    rest[0],
                ] + without(rest.skip(1), gone@)));
            }
            r.push(chars[i]);
            i = i + 1;
        }
    }
    proof {
        assert(r@ + Seq::<char>::empty() == r@);
    }
    r
}

} // verus!
