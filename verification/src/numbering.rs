//! Numbered entry names: a run of ASCII letters followed by a decimal
//! counter, and the name that continues such a series.

use vstd::prelude::*;
use vstd::string::*;
use crate::text::{chars_of, string_of, texts};

verus! {

/// An ASCII letter.
pub open spec fn is_letter(c: char) -> bool {
    ('a' <= c && c <= 'z') || ('A' <= c && c <= 'Z')
}

/// An ASCII decimal digit.
pub open spec fn is_digit(c: char) -> bool {
    '0' <= c && c <= '9'
}

/// Every character of `s` is a decimal digit.
pub open spec fn all_digits(s: Seq<char>) -> bool {
    forall|i: int| 0 <= i < s.len() ==> is_digit(#[trigger] s[i])
}

/// `name` is letters up to position `k` and digits from there on, with at
/// least one digit.
pub open spec fn splits_at(name: Seq<char>, k: int) -> bool {
    &&& 0 <= k < name.len()
    &&& forall|i: int| 0 <= i < k ==> is_letter(#[trigger] name[i])
    &&& forall|i: int| k <= i < name.len() ==> is_digit(#[trigger] name[i])
}

/// `name` is a numbered name: an alphabetic prefix, possibly empty, followed
/// by a counter of one or more digits, and nothing else.
pub open spec fn is_numbered(name: Seq<char>) -> bool {
    exists|k: int| splits_at(name, k)
}

/// Where the counter of a numbered name begins.
pub open spec fn counter_start(name: Seq<char>) -> int {
    choose|k: int| splits_at(name, k)
}

/// The alphabetic prefix of a numbered name.
pub open spec fn prefix_of(name: Seq<char>) -> Seq<char> {
    name.take(counter_start(name))
}

/// The digits of the counter of a numbered name.
pub open spec fn digits_of(name: Seq<char>) -> Seq<char> {
    name.skip(counter_start(name))
}

/// A name splits into prefix and counter in one way only.
pub proof fn lemma_split_point_unique(name: Seq<char>, k: int)
    requires
        splits_at(name, k),
    ensures
        is_numbered(name),
        counter_start(name) == k,
{
    let c = counter_start(name);
    assert(splits_at(name, c));
    if c < k {
        assert(is_letter(name[c]) && is_digit(name[c]));
    }
    if k < c {
        assert(is_letter(name[k]) && is_digit(name[k]));
    }
}

/// Letters followed by one or more digits make a numbered name with exactly
/// that prefix and that counter.
pub proof fn lemma_numbered_parts(prefix: Seq<char>, digits: Seq<char>)
    requires
        forall|i: int| 0 <= i < prefix.len() ==> is_letter(#[trigger] prefix[i]),
        all_digits(digits),
        digits.len() >= 1,
    ensures
        is_numbered(prefix + digits),
        prefix_of(prefix + digits) == prefix,
        digits_of(prefix + digits) == digits,
{
    let name = prefix + digits;
    assert(splits_at(name, prefix.len() as int)) by {
        assert forall|i: int| prefix.len() <= i < name.len() implies is_digit(#[trigger] name[i]) by {
            assert(name[i] == digits[i - prefix.len()]);
        }
        assert forall|i: int| 0 <= i < prefix.len() implies is_letter(#[trigger] name[i]) by {
            assert(name[i] == prefix[i]);
        }
    }
    lemma_split_point_unique(name, prefix.len() as int);
    assert(name.take(prefix.len() as int) == prefix);
    assert(name.skip(prefix.len() as int) == digits);
}

/// What a decimal digit stands for.
pub open spec fn digit_value(c: char) -> nat {
    (c as int - '0' as int) as nat
}

/// The digit that stands for `n`, for `n` below ten.
pub open spec fn digit_char(n: nat) -> char {
    (n + '0' as int) as char
}

/// The number that the digits `d` write in base ten; leading zeros count for
/// nothing, and no digits at all write zero.
pub open spec fn number(d: Seq<char>) -> nat
    decreases d.len(),
{
    if d.len() == 0 {
        0
    } else {
        number(d.drop_last()) * 10 + digit_value(d.last())
    }
}

/// `n` written in base ten without leading zeros.
pub open spec fn decimal(n: nat) -> Seq<char>
    decreases n,
{
    if n < 10 {
        seq![digit_char(n)]
    } else {
        decimal(n / 10).push(digit_char(n % 10))
    }
}

/// `count` zeros.
pub open spec fn zeros(count: nat) -> Seq<char> {
    Seq::new(count, |i: int| '0')
}

/// `n` written in base ten, with zeros in front where that takes fewer than
/// `width` digits.
pub open spec fn zero_padded(n: nat, width: nat) -> Seq<char> {
    let d = decimal(n);
    if d.len() >= width {
        d
    } else {
        zeros((width - d.len()) as nat) + d
    }
}

/// The counter of a numbered name, as a number.
pub open spec fn counter(name: Seq<char>) -> nat {
    number(digits_of(name))
}

/// The name that follows the numbered name `name` in its series: the same
/// prefix, and the counter raised by one and written with at least as many
/// digits as before.
pub open spec fn successor(name: Seq<char>) -> Seq<char> {
    prefix_of(name) + zero_padded(counter(name) + 1, digits_of(name).len())
}

/// Tells whether `c` is an ASCII letter.
pub fn letter(c: char) -> (r: bool)
    ensures
        r == is_letter(c),
{
    ('a' <= c && c <= 'z') || ('A' <= c && c <= 'Z')
}

/// Tells whether `c` is an ASCII decimal digit.
pub fn digit(c: char) -> (r: bool)
    ensures
        r == is_digit(c),
{
    '0' <= c && c <= '9'
}

/// Finds where the counter of `name` begins, if `name` is a numbered name.
pub fn counter_position(name: &Vec<char>) -> (r: Option<usize>)
    ensures
        r is Some <==> is_numbered(name@),
        r matches Some(k) ==> k == counter_start(name@),
{
    let mut k: usize = 0;
    while k < name.len() && letter(name[k])
        invariant
            k <= name.len(),
            forall|i: int| 0 <= i < k ==> is_letter(#[trigger] name@[i]),
        decreases name.len() - k,
    {
        k = k + 1;
    }
    let mut j: usize = k;
    while j < name.len() && digit(name[j])
        invariant
            k <= j <= name.len(),
            forall|i: int| k <= i < j ==> is_digit(#[trigger] name@[i]),
        decreases name.len() - j,
    {
        j = j + 1;
    }
    if k < name.len() && j == name.len() {
        proof {
            lemma_split_point_unique(name@, k as int);
        }
        Some(k)
    } else {
        proof {
            if is_numbered(name@) {
                let c = counter_start(name@);
                assert(splits_at(name@, c));
                if c < k {
                    assert(is_letter(name@[c]) && is_digit(name@[c]));
                }
                if k < c {
                    assert(is_letter(name@[k as int]));
                }
                assert(is_digit(name@[j as int]));
            }
        }
        None
    }
}

/// Zeros in front of a counter do not change its number.
pub proof fn lemma_leading_zeros(count: nat, d: Seq<char>)
    ensures
        number(zeros(count) + d) == number(d),
    decreases d.len(), count,
{
    if d.len() == 0 {
        assert(zeros(count) + d == zeros(count));
        if count > 0 {
            let fewer = (count - 1) as nat;
            assert(zeros(count).drop_last() == zeros(fewer));
            assert(zeros(fewer) + d == zeros(fewer));
            lemma_leading_zeros(fewer, d);
        }
    } else {
        assert((zeros(count) + d).drop_last() == zeros(count) + d.drop_last());
        lemma_leading_zeros(count, d.drop_last());
    }
}

/// Of two counters with equally many digits, the one with the smaller digit
/// at the first place where they differ writes the smaller number.
pub proof fn lemma_first_difference_decides(x: Seq<char>, y: Seq<char>, place: int)
    requires
        x.len() == y.len(),
        all_digits(x),
        all_digits(y),
        0 <= place < x.len(),
        x.take(place) == y.take(place),
        digit_value(x[place]) < digit_value(y[place]),
    ensures
        number(x) < number(y),
    decreases x.len(),
{
    assert(is_digit(x.last()) && is_digit(y.last()));
    if place == x.len() - 1 {
        assert(x.drop_last() == x.take(place));
        assert(y.drop_last() == y.take(place));
    } else {
        assert(x.drop_last().take(place) == x.take(place));
        assert(y.drop_last().take(place) == y.take(place));
        lemma_first_difference_decides(x.drop_last(), y.drop_last(), place);
    }
}

/// The counter `d` brought to `width` digits by zeros in front.
spec fn widened(d: Seq<char>, width: int) -> Seq<char> {
    zeros((width - d.len()) as nat) + d
}

proof fn lemma_widened(d: Seq<char>, width: int)
    requires
        all_digits(d),
        d.len() <= width,
    ensures
        widened(d, width).len() == width,
        all_digits(widened(d, width)),
        number(widened(d, width)) == number(d),
        forall|i: int|
            0 <= i < width ==> #[trigger] widened(d, width)[i] == (if i < width - d.len() {
                '0'
            } else {
                d[i - (width - d.len())]
            }),
{
    lemma_leading_zeros((width - d.len()) as nat, d);
    let w = widened(d, width);
    assert forall|i: int| 0 <= i < w.len() implies is_digit(#[trigger] w[i]) by {
        if i >= width - d.len() {
            assert(w[i] == d[i - (width - d.len())]);
        }
    }
}

proof fn lemma_widened_differ(a: Seq<char>, b: Seq<char>, width: int, place: int)
    requires
        all_digits(a),
        all_digits(b),
        a.len() <= width,
        b.len() <= width,
        0 <= place < width,
        forall|i: int| 0 <= i < place ==> widened(a, width)[i] == widened(b, width)[i],
        widened(a, width)[place] != widened(b, width)[place],
    ensures
        (number(a) <= number(b)) == (widened(a, width)[place] < widened(b, width)[place]),
{
    lemma_widened(a, width);
    lemma_widened(b, width);
    let x = widened(a, width);
    let y = widened(b, width);
    assert(x.take(place) == y.take(place));
    assert(is_digit(x[place]) && is_digit(y[place]));
    if x[place] < y[place] {
        lemma_first_difference_decides(x, y, place);
    } else {
        lemma_first_difference_decides(y, x, place);
    }
}

proof fn lemma_widened_agree(a: Seq<char>, b: Seq<char>, width: int)
    requires
        all_digits(a),
        all_digits(b),
        a.len() <= width,
        b.len() <= width,
        forall|i: int| 0 <= i < width ==> widened(a, width)[i] == widened(b, width)[i],
    ensures
        number(a) == number(b),
{
    lemma_widened(a, width);
    lemma_widened(b, width);
    assert(widened(a, width) == widened(b, width));
}

/// Tells whether the counter `a` writes a number no greater than the counter
/// `b` does, whatever their lengths.
fn counts_up_to(a: &Vec<char>, b: &Vec<char>) -> (r: bool)
    requires
        all_digits(a@),
        all_digits(b@),
    ensures
        r == (number(a@) <= number(b@)),
{
    let width: usize = if a.len() > b.len() { a.len() } else { b.len() };
    let pad_a: usize = width - a.len();
    let pad_b: usize = width - b.len();
    let mut place: usize = 0;
    while place < width
        invariant
            place <= width,
            pad_a + a.len() == width,
            pad_b + b.len() == width,
            all_digits(a@),
            all_digits(b@),
            forall|i: int| 0 <= i < place ==> widened(a@, width as int)[i] == widened(b@, width as int)[i],
        decreases width - place,
    {
        let ca: char = if place < pad_a { '0' } else { a[place - pad_a] };
        let cb: char = if place < pad_b { '0' } else { b[place - pad_b] };
        proof {
            lemma_widened(a@, width as int);
            lemma_widened(b@, width as int);
            assert(ca == widened(a@, width as int)[place as int]);
            assert(cb == widened(b@, width as int)[place as int]);
        }
        if ca != cb {
            proof {
                lemma_widened_differ(a@, b@, width as int, place as int);
            }
            return ca < cb;
        }
        place = place + 1;
    }
    proof {
        lemma_widened_agree(a@, b@, width as int);
    }
    true
}

/// The digits of a counter after it is raised by one: the last digit that is
/// not a nine goes up and the nines behind it turn to zeros; a counter of
/// nines only gets a one in front.
spec fn raised(d: Seq<char>) -> Seq<char>
    decreases d.len(),
{
    if d.len() == 0 {
        seq!['1']
    } else if d.last() == '9' {
        raised(d.drop_last()).push('0')
    } else {
        d.drop_last().push(digit_char(digit_value(d.last()) + 1))
    }
}

proof fn lemma_raised(d: Seq<char>)
    requires
        all_digits(d),
    ensures
        all_digits(raised(d)),
        number(raised(d)) == number(d) + 1,
        raised(d).len() == d.len() || (raised(d).len() == d.len() + 1 && raised(d)[0] == '1'),
    decreases d.len(),
{
    if d.len() == 0 {
        assert(seq!['1'].drop_last() == Seq::<char>::empty());
        assert(number(seq!['1']) == number(Seq::<char>::empty()) * 10 + digit_value('1'));
    } else {
        let front = d.drop_last();
        assert(is_digit(d.last()));
        assert forall|i: int| 0 <= i < front.len() implies is_digit(#[trigger] front[i]) by {
            assert(front[i] == d[i]);
        }
        if d.last() == '9' {
            lemma_raised(front);
            let r = raised(front).push('0');
            assert(r.drop_last() == raised(front));
            assert forall|i: int| 0 <= i < r.len() implies is_digit(#[trigger] r[i]) by {
                if i < r.len() - 1 {
                    assert(r[i] == raised(front)[i]);
                }
            }
        } else {
            let up = digit_char(digit_value(d.last()) + 1);
            let r = front.push(up);
            assert(is_digit(up));
            assert(digit_value(up) == digit_value(d.last()) + 1);
            assert(r.drop_last() == front);
            assert forall|i: int| 0 <= i < r.len() implies is_digit(#[trigger] r[i]) by {
                if i < r.len() - 1 {
                    assert(r[i] == front[i]);
                }
            }
        }
    }
}

/// A counter is its number written in base ten, with as many zeros in front
/// as its length asks for.
pub proof fn lemma_counter_is_padded_number(d: Seq<char>)
    requires
        all_digits(d),
        d.len() >= 1,
    ensures
        decimal(number(d)).len() <= d.len(),
        d == zeros((d.len() - decimal(number(d)).len()) as nat) + decimal(number(d)),
        zero_padded(number(d), d.len()) == d,
    decreases d.len(),
{
    let front = d.drop_last();
    let last = d.last();
    assert(is_digit(last));
    assert(digit_char(digit_value(last)) == last);
    assert(d == front.push(last));
    if front.len() == 0 {
        assert(number(front) == 0);
        assert(decimal(number(d)) == seq![last]);
        assert(d == zeros(0) + decimal(number(d)));
    } else {
        assert forall|i: int| 0 <= i < front.len() implies is_digit(#[trigger] front[i]) by {
            assert(front[i] == d[i]);
        }
        lemma_counter_is_padded_number(front);
        let lead = (front.len() - decimal(number(front)).len()) as nat;
        if number(front) == 0 {
            assert(decimal(0) == seq!['0']);
            assert(decimal(number(d)) == seq![last]);
            assert(front == zeros(front.len()));
            assert(d == zeros((d.len() - 1) as nat) + seq![last]);
        } else {
            let n = number(d);
            assert(n >= 10);
            assert(n / 10 == number(front) && n % 10 == digit_value(last));
            assert(decimal(n) == decimal(number(front)).push(last));
            assert(d == zeros(lead) + decimal(n));
        }
    }
}

/// Raising a counter by one gives its number plus one, written with at least
/// as many digits as the counter had.
proof fn lemma_raised_is_padded_next(d: Seq<char>)
    requires
        all_digits(d),
        d.len() >= 1,
    ensures
        raised(d) == zero_padded(number(d) + 1, d.len()),
{
    lemma_raised(d);
    let r = raised(d);
    lemma_counter_is_padded_number(r);
    if r.len() != d.len() {
        let lead = (r.len() - decimal(number(r)).len()) as nat;
        if lead > 0 {
            assert(r[0] == zeros(lead)[0]);
        }
    }
}

/// Nines at the end of a counter turn to zeros when it is raised, and what
/// stands before them is raised in turn.
proof fn lemma_raised_trailing_nines(front: Seq<char>, nines: nat)
    ensures
        raised(front + Seq::new(nines, |i: int| '9')) == raised(front) + zeros(nines),
    decreases nines,
{
    let tail = Seq::new(nines, |i: int| '9');
    if nines == 0 {
        assert(front + tail == front);
        assert(raised(front) + zeros(0) == raised(front));
    } else {
        let fewer = (nines - 1) as nat;
        let shorter = Seq::new(fewer, |i: int| '9');
        assert((front + tail).drop_last() == front + shorter);
        lemma_raised_trailing_nines(front, fewer);
        assert((raised(front) + zeros(fewer)).push('0') == raised(front) + zeros(nines));
    }
}

/// The digit after `c`.
fn next_digit(c: char) -> (r: char)
    requires
        is_digit(c),
        c != '9',
    ensures
        r == digit_char(digit_value(c) + 1),
{
    ((c as u8) + 1) as char
}

/// Raises the counter `d` by one, keeping its width where the number fits.
fn raise(d: &Vec<char>) -> (r: Vec<char>)
    requires
        all_digits(d@),
        d.len() >= 1,
    ensures
        r@ == zero_padded(number(d@) + 1, d@.len()),
{
    let mut keep: usize = d.len();
    while keep > 0 && d[keep - 1] == '9'
        invariant
            keep <= d.len(),
            forall|i: int| keep <= i < d.len() ==> d@[i] == '9',
        decreases keep,
    {
        keep = keep - 1;
    }
    let ghost nines = (d.len() - keep) as nat;
    let ghost front = d@.take(keep as int);
    proof {
        assert(d@ == front + Seq::new(nines, |i: int| '9'));
        lemma_raised_trailing_nines(front, nines);
        lemma_raised_is_padded_next(d@);
    }
    let mut r: Vec<char> = Vec::new();
    if keep == 0 {
        r.push('1');
        assert(r@ == raised(front));
    } else {
        let mut i: usize = 0;
        while i < keep - 1
            invariant
                0 < keep <= d.len(),
                i <= keep - 1,
                r@ == d@.take(i as int),
            decreases keep - i,
        {
            r.push(d[i]);
            i = i + 1;
        }
        assert(is_digit(d@[keep - 1]));
        r.push(next_digit(d[keep - 1]));
        proof {
            assert(front.drop_last() == d@.take(keep - 1));
            assert(front.last() == d@[keep - 1]);
            assert(r@ == raised(front));
        }
    }
    let ghost head = r@;
    let mut z: usize = keep;
    while z < d.len()
        invariant
            keep <= z <= d.len(),
            r@ == head + zeros((z - keep) as nat),
        decreases d.len() - z,
    {
        r.push('0');
        proof {
            assert(zeros((z - keep) as nat).push('0') == zeros((z + 1 - keep) as nat));
        }
        z = z + 1;
    }
    r
}

/// Entry `m` is the numbered name with the greatest counter among
/// `entries`, and the last of those where several share that counter.
pub open spec fn is_latest(entries: Seq<Seq<char>>, m: int) -> bool {
    &&& 0 <= m < entries.len()
    &&& is_numbered(entries[m])
    &&& forall|j: int|
        0 <= j < entries.len() && is_numbered(#[trigger] entries[j]) ==> counter(entries[j])
            <= counter(entries[m])
    &&& forall|j: int|
        m < j < entries.len() && is_numbered(#[trigger] entries[j]) ==> counter(entries[j])
            < counter(entries[m])
}

/// The name given where no series exists yet.
pub open spec fn fresh_name() -> Seq<char> {
    seq!['n', 'e', 'w']
}

/// The name of the next entry beside `entries`: the successor of the latest
/// numbered name among them, or the fresh name where none is numbered.
pub open spec fn next_entry(entries: Seq<Seq<char>>) -> Seq<char> {
    if exists|m: int| is_latest(entries, m) {
        successor(entries[choose|m: int| is_latest(entries, m)])
    } else {
        fresh_name()
    }
}

/// Only one entry can be the latest, so the next entry is its successor.
pub proof fn lemma_next_entry_follows_latest(entries: Seq<Seq<char>>, m: int)
    requires
        is_latest(entries, m),
    ensures
        next_entry(entries) == successor(entries[m]),
{
    let c = choose|c: int| is_latest(entries, c);
    assert(is_latest(entries, c));
    if c < m {
        assert(counter(entries[m]) < counter(entries[c]));
        assert(counter(entries[c]) <= counter(entries[m]));
    }
    if m < c {
        assert(counter(entries[c]) < counter(entries[m]));
        assert(counter(entries[m]) <= counter(entries[c]));
    }
}

/// Where no entry is a numbered name, and so also where there is no entry at
/// all, the next entry is the fresh name.
pub proof fn lemma_next_entry_without_series(entries: Seq<Seq<char>>)
    requires
        forall|j: int| 0 <= j < entries.len() ==> !is_numbered(#[trigger] entries[j]),
    ensures
        next_entry(entries) == fresh_name(),
{
}

/// The characters of `v` from position `from` on.
fn tail_of(v: &Vec<char>, from: usize) -> (r: Vec<char>)
    requires
        from <= v.len(),
    ensures
        r@ == v@.skip(from as int),
{
    let mut r: Vec<char> = Vec::new();
    let mut i: usize = from;
    while i < v.len()
        invariant
            from <= i <= v.len(),
            r@ == v@.subrange(from as int, i as int),
        decreases v.len() - i,
    {
        r.push(v[i]);
        i = i + 1;
    }
    r
}

/// Names the next entry of the series found among `entries`: the latest
/// numbered name, with its counter raised by one and its width kept; `new`
/// where no entry is a numbered name.
pub fn next_in_series(entries: &Vec<String>) -> (name: String)
    ensures
        name@ == next_entry(texts(entries@)),
{
    let ghost all = texts(entries@);
    let mut found: bool = false;
    let mut best: usize = 0;
    let mut best_chars: Vec<char> = Vec::new();
    let mut best_start: usize = 0;
    let mut best_digits: Vec<char> = Vec::new();
    let mut i: usize = 0;
    while i < entries.len()
        invariant
            i <= entries.len(),
            all == texts(entries@),
            !found ==> forall|j: int| 0 <= j < i ==> !is_numbered(#[trigger] all[j]),
            found ==> {
                &&& best < i
                &&& is_numbered(all[best as int])
                &&& best_chars@ == all[best as int]
                &&& best_start == counter_start(all[best as int])
                &&& best_digits@ == digits_of(all[best as int])
                &&& forall|j: int|
                    0 <= j < i && is_numbered(#[trigger] all[j]) ==> counter(all[j]) <= counter(
                        all[best as int],
                    )
                &&& forall|j: int|
                    best < j < i && is_numbered(#[trigger] all[j]) ==> counter(all[j]) < counter(
                        all[best as int],
                    )
            },
        decreases entries.len() - i,
    {
        let chars = chars_of(entries[i].as_str());
        assert(chars@ == all[i as int]);
        match counter_position(&chars) {
            Some(start) => {
                let digits = tail_of(&chars, start);
                proof {
                    assert(splits_at(chars@, start as int));
                    assert(all_digits(digits@)) by {
                        assert forall|k: int| 0 <= k < digits@.len() implies is_digit(
                            #[trigger] digits@[k],
                        ) by {
                            assert(digits@[k] == chars@[start + k]);
                        }
                    }
                    if found {
                        let b = all[best as int];
                        assert(splits_at(b, best_start as int));
                        assert(all_digits(best_digits@)) by {
                            assert forall|k: int| 0 <= k < best_digits@.len() implies is_digit(
                                #[trigger] best_digits@[k],
                            ) by {
                                assert(best_digits@[k] == b[best_start + k]);
                            }
                        }
                    }
                }
                if !found || counts_up_to(&best_digits, &digits) {
                    found = true;
                    best = i;
                    best_chars = chars;
                    best_start = start;
                    best_digits = digits;
                }
            },
            None => {},
        }
        i = i + 1;
    }
    if !found {
        proof {
            reveal_strlit("new");
            lemma_next_entry_without_series(all);
        }
        let name = String::from_str("new");
        assert(name@ == fresh_name());
        name
    } else {
        let ghost latest = all[best as int];
        proof {
            assert(is_latest(all, best as int));
            lemma_next_entry_follows_latest(all, best as int);
            assert(splits_at(latest, best_start as int));
            assert(all_digits(best_digits@)) by {
                assert forall|k: int| 0 <= k < best_digits@.len() implies is_digit(
                    #[trigger] best_digits@[k],
                ) by {
                    assert(best_digits@[k] == latest[best_start + k]);
                }
            }
        }
        let mut name = string_of(&best_chars, 0, best_start);
        let counter = raise(&best_digits);
        let mut k: usize = 0;
        while k < counter.len()
            invariant
                k <= counter.len(),
                name@ == prefix_of(latest) + counter@.take(k as int),
            decreases counter.len() - k,
        {
            name.push(counter[k]);
            proof {
                assert(counter@.take(k + 1) == counter@.take(k as int).push(counter@[k as int]));
            }
            k = k + 1;
        }
        proof {
            assert(counter@.take(k as int) == counter@);
        }
        name
    }
}

} // verus!
