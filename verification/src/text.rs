//! Character-level text utilities shared by the command parser, the
//! configuration reader and the user interface: whitespace splitting,
//! decimal numbers and UTF-8 byte offsets.
use vstd::prelude::*;
use vstd::utf8::*;

verus! {

broadcast use vstd::utf8::group_utf8_lib;

/// Appends one character at the end of a string (`String::push`).
#[verifier::external_body]
pub(crate) fn push_char(s: &mut String, c: char)
    ensures
        final(s)@ == old(s)@.push(c),
{
    s.push(c);
}

/// The characters of `s`, in order.
pub fn chars_of(s: &str) -> (r: Vec<char>)
    ensures
        r@ == s@,
{
    broadcast use vstd::string::group_string_axioms;

    let mut r: Vec<char> = Vec::new();
    for c in it: s.chars()
        invariant
            r@ == it.seq().take(it.index() as int),
    {
        r.push(c);
    }
    r
}

/// The string made of the characters `cs[lo..hi]`.
pub fn string_of(cs: &Vec<char>, lo: usize, hi: usize) -> (r: String)
    requires
        lo <= hi <= cs@.len(),
    ensures
        r@ == cs@.subrange(lo as int, hi as int),
{
    let mut r = String::new();
    let mut i = lo;
    while i < hi
        invariant
            lo <= i <= hi <= cs@.len(),
            r@ == cs@.subrange(lo as int, i as int),
        decreases hi - i,
    {
        push_char(&mut r, cs[i]);
        assert(cs@.subrange(lo as int, i + 1) == cs@.subrange(lo as int, i as int).push(cs@[i as int]));
        i += 1;
    }
    r
}

/// Whether two strings hold the same characters.
pub fn same_text(a: &str, b: &str) -> (r: bool)
    ensures
        r == (a@ == b@),
{
    let ca = chars_of(a);
    let cb = chars_of(b);
    let n = ca.len();
    if n != cb.len() {
        return false;
    }
    for i in 0..n
        invariant
            n == ca@.len() == cb@.len(),
            ca@ == a@,
            cb@ == b@,
            forall|j: int| 0 <= j < i ==> ca@[j] == cb@[j],
    {
        if ca[i] != cb[i] {
            return false;
        }
    }
    assert(a@ =~= b@);
    true
}

/// `s` without its last character (`s` itself when it is empty).
pub fn without_last_char(s: &String) -> (r: String)
    ensures
        r@ == (if s@.len() > 0 { s@.drop_last() } else { s@ }),
{
    let n = s.as_str().unicode_len();
    if n == 0 {
        s.clone()
    } else {
        let part = s.as_str().substring_char(0, n - 1);
        part.to_owned()
    }
}

/// The White_Space characters of Unicode, those for which
/// `char::is_whitespace` holds.
pub open spec fn is_unicode_whitespace(c: char) -> bool {
    let u = c as u32;
    ||| 0x09 <= u <= 0x0D
    ||| u == 0x20
    ||| u == 0x85
    ||| u == 0xA0
    ||| u == 0x1680
    ||| 0x2000 <= u <= 0x200A
    ||| u == 0x2028
    ||| u == 0x2029
    ||| u == 0x202F
    ||| u == 0x205F
    ||| u == 0x3000
}

/// Whether `c` is a Unicode whitespace character.
pub fn is_whitespace(c: char) -> (r: bool)
    ensures
        r == is_unicode_whitespace(c),
{
    let u = c as u32;
    (0x09 <= u && u <= 0x0D) || u == 0x20 || u == 0x85 || u == 0xA0 || u == 0x1680 || (0x2000
        <= u && u <= 0x200A) || u == 0x2028 || u == 0x2029 || u == 0x202F || u == 0x205F || u
        == 0x3000
}

/// The maximal runs of non-whitespace characters of `s`, in order
/// (what `str::split_whitespace` yields).
pub open spec fn split_whitespace(s: Seq<char>) -> Seq<Seq<char>>
    decreases s.len(),
{
    if s.len() == 0 {
        seq![]
    } else {
        let prev = split_whitespace(s.drop_last());
        let c = s.last();
        if is_unicode_whitespace(c) {
            prev
        } else if s.len() > 1 && !is_unicode_whitespace(s[s.len() - 2]) {
            prev.drop_last().push(prev.last().push(c))
        } else {
            prev.push(seq![c])
        }
    }
}

/// Every piece of `split_whitespace` is non-empty and free of whitespace,
/// and the last piece is the trailing run of non-whitespace characters.
pub proof fn lemma_split_whitespace_pieces(s: Seq<char>)
    ensures
        forall|i: int|
            0 <= i < split_whitespace(s).len() ==> #[trigger] split_whitespace(s)[i].len() > 0,
        forall|i: int, j: int|
            0 <= i < split_whitespace(s).len() && 0 <= j < split_whitespace(s)[i].len()
                ==> !is_unicode_whitespace(#[trigger] split_whitespace(s)[i][j]),
        s.len() > 0 && !is_unicode_whitespace(s.last()) ==> split_whitespace(s).len() > 0,
    decreases s.len(),
{
    if s.len() > 0 {
        lemma_split_whitespace_pieces(s.drop_last());
        let prev = split_whitespace(s.drop_last());
        let c = s.last();
        if !is_unicode_whitespace(c) && s.len() > 1 && !is_unicode_whitespace(s[s.len() - 2]) {
            assert(s.drop_last().last() == s[s.len() - 2]);
            let cur = split_whitespace(s);
            assert forall|i: int, j: int|
                0 <= i < cur.len() && 0 <= j < cur[i].len() implies !is_unicode_whitespace(
                cur[i][j],
            ) by {
                if i == cur.len() - 1 {
                    if j < prev.last().len() {
                        assert(cur[i][j] == prev[prev.len() - 1][j]);
                    }
                } else {
                    assert(cur[i] == prev[i]);
                }
            }
        }
    }
}

/// Splits `s` into its whitespace-separated words (`str::split_whitespace`).
pub fn split_whitespace_words(s: &str) -> (r: Vec<String>)
    ensures
        r.deep_view() == split_whitespace(s@),
{
    let cs = chars_of(s);
    let n = cs.len();
    let mut words: Vec<String> = Vec::new();
    let mut start: usize = 0;
    assert(cs@.take(0) =~= seq![]);
    for i in 0..n
        invariant
            n == cs@.len(),
            cs@ == s@,
            start <= i,
            start == i <==> (i == 0 || is_unicode_whitespace(cs@[i - 1])),
            forall|j: int| start <= j < i ==> !is_unicode_whitespace(#[trigger] cs@[j]),
            (if start < i {
                words.deep_view().push(cs@.subrange(start as int, i as int))
            } else {
                words.deep_view()
            }) == split_whitespace(cs@.take(i as int)),
    {
        proof {
            assert(cs@.take(i + 1).drop_last() == cs@.take(i as int));
            assert(cs@.take(i + 1).last() == cs@[i as int]);
            if i > 0 {
                assert(cs@.take(i + 1)[i - 1] == cs@[i - 1]);
            }
        }
        if is_whitespace(cs[i]) {
            if start < i {
                let w = string_of(&cs, start, i);
                words.push(w);
            }
            start = i + 1;
        } else {
            assert(cs@.subrange(start as int, i + 1) == cs@.subrange(start as int, i as int).push(
                cs@[i as int],
            ));
            assert(start == i ==> cs@.subrange(start as int, i + 1) =~= seq![cs@[i as int]]);
        }
    }
    if start < n {
        let w = string_of(&cs, start, n);
        words.push(w);
    }
    assert(cs@.take(n as int) == cs@);
    words
}

/// The pieces of `s` between the occurrences of `sep` (what `str::split`
/// yields for a single-character separator); there is always at least one.
pub open spec fn split_on(s: Seq<char>, sep: char) -> Seq<Seq<char>>
    decreases s.len(),
{
    if s.len() == 0 {
        seq![seq![]]
    } else {
        let prev = split_on(s.drop_last(), sep);
        if s.last() == sep {
            prev.push(seq![])
        } else {
            prev.drop_last().push(prev.last().push(s.last()))
        }
    }
}

pub proof fn lemma_split_on_nonempty(s: Seq<char>, sep: char)
    ensures
        split_on(s, sep).len() >= 1,
    decreases s.len(),
{
    if s.len() > 0 {
        lemma_split_on_nonempty(s.drop_last(), sep);
    }
}

/// Splits `s` at every occurrence of `sep`.
pub fn split_on_char(s: &str, sep: char) -> (r: Vec<String>)
    ensures
        r.deep_view() == split_on(s@, sep),
{
    let cs = chars_of(s);
    let n = cs.len();
    let mut pieces: Vec<String> = Vec::new();
    let mut start: usize = 0;
    assert(cs@.take(0) =~= seq![]);
    assert(cs@.subrange(0, 0) =~= seq![]);
    for i in 0..n
        invariant
            n == cs@.len(),
            cs@ == s@,
            start <= i,
            pieces.deep_view().push(cs@.subrange(start as int, i as int)) == split_on(
                cs@.take(i as int),
                sep,
            ),
    {
        proof {
            lemma_split_on_nonempty(cs@.take(i as int), sep);
            assert(cs@.take(i + 1).drop_last() == cs@.take(i as int));
            assert(cs@.take(i + 1).last() == cs@[i as int]);
        }
        if cs[i] == sep {
            let piece = string_of(&cs, start, i);
            pieces.push(piece);
            start = i + 1;
            assert(cs@.subrange(start as int, (i + 1) as int) =~= seq![]);
        } else {
            assert(cs@.subrange(start as int, i + 1) == cs@.subrange(start as int, i as int).push(
                cs@[i as int],
            ));
        }
    }
    let last = string_of(&cs, start, n);
    pieces.push(last);
    assert(cs@.take(n as int) == cs@);
    pieces
}

/// Whether `c` is an ASCII decimal digit.
pub open spec fn is_digit(c: char) -> bool {
    48 <= (c as u32) <= 57
}

/// The value of the decimal digit `c`.
pub open spec fn digit_value(c: char) -> nat {
    ((c as u32) - 48) as nat
}

/// The number that the decimal digits `ds` denote (leading zeros allowed).
pub open spec fn decimal_value(ds: Seq<char>) -> nat
    decreases ds.len(),
{
    if ds.len() == 0 {
        0
    } else {
        decimal_value(ds.drop_last()) * 10 + digit_value(ds.last())
    }
}

/// The digits of an unsigned number in text: an optional leading `+` is
/// dropped.
pub open spec fn unsigned_digits(s: Seq<char>) -> Seq<char> {
    if s.len() > 0 && s[0] == '+' {
        s.drop_first()
    } else {
        s
    }
}

/// Whether `s` is the text of an unsigned number no larger than `max`, as
/// `str::parse` accepts it for an unsigned integer type: an optional `+`,
/// then one or more decimal digits, nothing else.
pub open spec fn parses_unsigned(s: Seq<char>, max: nat) -> bool {
    let ds = unsigned_digits(s);
    &&& ds.len() > 0
    &&& forall|i: int| 0 <= i < ds.len() ==> is_digit(#[trigger] ds[i])
    &&& decimal_value(ds) <= max
}

/// The number that the text `s` denotes.
pub open spec fn unsigned_value(s: Seq<char>) -> nat {
    decimal_value(unsigned_digits(s))
}

/// A longer run of digits never denotes a smaller number.
pub proof fn lemma_decimal_value_prefix(ds: Seq<char>, k: int)
    requires
        0 <= k <= ds.len(),
    ensures
        decimal_value(ds.take(k)) <= decimal_value(ds),
    decreases ds.len(),
{
    if k < ds.len() {
        lemma_decimal_value_prefix(ds.drop_last(), k);
        assert(ds.drop_last().take(k) == ds.take(k));
    } else {
        assert(ds.take(k) == ds);
    }
}

/// Reads an unsigned number no larger than `max` from `s`, as `str::parse`
/// does for an unsigned integer type whose largest value is `max`.
pub fn parse_unsigned(s: &str, max: u64) -> (r: Option<u64>)
    ensures
        r is Some <==> parses_unsigned(s@, max as nat),
        r matches Some(v) ==> v as nat == unsigned_value(s@),
{
    let cs = chars_of(s);
    let n = cs.len();
    let start: usize = if n > 0 && cs[0] == '+' {
        1
    } else {
        0
    };
    let ghost ds = unsigned_digits(s@);
    assert(ds == cs@.subrange(start as int, n as int));
    if start == n {
        return None;
    }
    let mut value: u64 = 0;
    let mut i = start;
    while i < n
        invariant
            start <= i <= n == cs@.len(),
            ds == cs@.subrange(start as int, n as int),
            ds == unsigned_digits(s@),
            forall|j: int| 0 <= j < i - start ==> is_digit(#[trigger] ds[j]),
            value as nat == decimal_value(ds.take(i - start)),
            value <= max,
        decreases n - i,
    {
        let c = cs[i];
        let u = c as u32;
        if u < 48 || u > 57 {
            assert(!is_digit(ds[i - start]));
            return None;
        }
        let d = (u - 48) as u64;
        assert(ds.take(i + 1 - start).drop_last() == ds.take(i - start));
        assert(ds.take(i + 1 - start).last() == c);
        if d > max || value > (max - d) / 10 {
            assert(decimal_value(ds.take(i + 1 - start)) > max) by (nonlinear_arith)
                requires
                    decimal_value(ds.take(i + 1 - start)) == value * 10 + d,
                    d > max || value > (max - d) / 10,
            ;
            proof {
                lemma_decimal_value_prefix(ds, i + 1 - start);
            }
            return None;
        }
        assert(value * 10 + d <= max) by (nonlinear_arith)
            requires
                d <= max,
                value <= (max - d) / 10,
        ;
        value = value * 10 + d;
        i += 1;
    }
    assert(ds.take(n - start) == ds);
    Some(value)
}

/// The decimal digit character for `d < 10`.
pub open spec fn digit_char(d: nat) -> char {
    (d + 48) as char
}

/// The decimal representation of `n`, without leading zeros.
pub open spec fn decimal_repr(n: nat) -> Seq<char>
    decreases n,
{
    if n < 10 {
        seq![digit_char(n)]
    } else {
        decimal_repr(n / 10).push(digit_char(n % 10))
    }
}

fn digit_to_char(d: u64) -> (c: char)
    requires
        d < 10,
    ensures
        c == digit_char(d as nat),
{
    let c = match d {
        0 => '0',
        1 => '1',
        2 => '2',
        3 => '3',
        4 => '4',
        5 => '5',
        6 => '6',
        7 => '7',
        8 => '8',
        _ => '9',
    };
    c
}

/// The decimal representation of `n` (what `n.to_string()` gives).
pub fn decimal_string(n: u64) -> (r: String)
    ensures
        r@ == decimal_repr(n as nat),
    decreases n,
{
    if n < 10 {
        let mut s = String::new();
        push_char(&mut s, digit_to_char(n));
        s
    } else {
        let mut s = decimal_string(n / 10);
        push_char(&mut s, digit_to_char(n % 10));
        s
    }
}

/// A text never takes fewer bytes than it has characters.
pub proof fn lemma_utf8_len_at_least_chars(s: Seq<char>)
    ensures
        encode_utf8(s).len() >= s.len(),
    decreases s.len(),
{
    if s.len() > 0 {
        lemma_utf8_len_at_least_chars(s.drop_first());
    }
}

/// A text takes more than one byte exactly when it has two characters or
/// more, or one character outside ASCII.
pub proof fn lemma_utf8_len_more_than_one(s: Seq<char>)
    ensures
        encode_utf8(s).len() > 1 <==> (s.len() >= 2 || (s.len() == 1 && (s[0] as u32) >= 0x80)),
{
    if s.len() > 0 {
        lemma_utf8_len_at_least_chars(s.drop_first());
        if s.len() == 1 {
            assert(s.drop_first() =~= seq![]);
        }
    }
}

/// Whether `s` takes more than one byte in UTF-8.
pub fn longer_than_one_byte(s: &str) -> (r: bool)
    ensures
        r == (encode_utf8(s@).len() > 1),
{
    proof {
        lemma_utf8_len_more_than_one(s@);
    }
    let n = s.unicode_len();
    n >= 2 || (n == 1 && (s.get_char(0) as u32) >= 0x80)
}

/// The characters that follow the first `n` bytes of the UTF-8 encoding of
/// `s` (what `&s[n..]` holds).
pub open spec fn after_bytes(s: Seq<char>, n: int) -> Seq<char> {
    decode_utf8(encode_utf8(s).subrange(n, encode_utf8(s).len() as int))
}

/// The characters encoded by the bytes `lo..hi` of the UTF-8 encoding of `s`
/// (what `&s[lo..hi]` holds).
pub open spec fn byte_range(s: Seq<char>, lo: int, hi: int) -> Seq<char> {
    decode_utf8(encode_utf8(s).subrange(lo, hi))
}

/// Whether byte `n` of the UTF-8 encoding of `s` starts a character or ends
/// the text, so that `s` can be cut there.
pub open spec fn cuts_at(s: Seq<char>, n: int) -> bool {
    is_char_boundary(encode_utf8(s), n)
}

/// `&s[n..]`, or `None` where that slice would panic.
pub fn slice_from(s: &str, n: usize) -> (r: Option<String>)
    ensures
        r is Some <==> cuts_at(s@, n as int),
        r matches Some(t) ==> t@ == after_bytes(s@, n as int),
{
    if s.is_char_boundary(n) {
        proof {
            encode_utf8_valid_utf8(s@);
            is_char_boundary_start_end_of_seq(encode_utf8(s@));
            assert(n <= encode_utf8(s@).len()) by {
                reveal_with_fuel(is_char_boundary, 1);
            }
        }
        let (_, b) = s.split_at(n);
        proof {
            encode_utf8_decode_utf8(b@);
        }
        Some(b.to_owned())
    } else {
        None
    }
}

/// `&s[lo..hi]`, or `None` where that slice would panic.
pub fn slice_between(s: &str, lo: usize, hi: usize) -> (r: Option<String>)
    ensures
        r is Some <==> (lo <= hi && cuts_at(s@, lo as int) && cuts_at(s@, hi as int)),
        r matches Some(t) ==> t@ == byte_range(s@, lo as int, hi as int),
{
    if lo <= hi && s.is_char_boundary(lo) && s.is_char_boundary(hi) {
        proof {
            encode_utf8_valid_utf8(s@);
            assert(hi <= encode_utf8(s@).len()) by {
                reveal_with_fuel(is_char_boundary, 1);
            }
        }
        let (front, _) = s.split_at(hi);
        proof {
            encode_utf8_decode_utf8(front@);
            assert(encode_utf8(front@) == encode_utf8(s@).subrange(0, hi as int));
            let bytes = encode_utf8(s@);
            let fb = encode_utf8(front@);
            valid_utf8_split(bytes, hi as int);
            if lo < hi {
                assert(fb[lo as int] == bytes[lo as int]);
                is_char_boundary_iff_is_leading_byte(bytes, lo as int);
                is_char_boundary_iff_is_leading_byte(fb, lo as int);
            } else {
                is_char_boundary_start_end_of_seq(fb);
            }
        }
        let (_, mid) = front.split_at(lo);
        proof {
            encode_utf8_decode_utf8(mid@);
            assert(encode_utf8(mid@) == encode_utf8(s@).subrange(lo as int, hi as int));
        }
        Some(mid.to_owned())
    } else {
        None
    }
}

} // verus!

verus! {

/// The decimal representation of a number is a non-empty run of digits that
/// denotes the number.
pub proof fn lemma_decimal_repr(n: nat)
    ensures
        decimal_repr(n).len() > 0,
        forall|i: int| 0 <= i < decimal_repr(n).len() ==> is_digit(#[trigger] decimal_repr(n)[i]),
        decimal_value(decimal_repr(n)) == n,
    decreases n,
{
    let d = digit_char(n % 10);
    assert(((n % 10 + 48) as char) as u32 == n % 10 + 48);
    if n >= 10 {
        lemma_decimal_repr(n / 10);
        let r = decimal_repr(n);
        assert(r.drop_last() == decimal_repr(n / 10));
        assert(r.last() == d);
        assert(digit_value(d) == n % 10);
        assert(decimal_value(r) == decimal_value(decimal_repr(n / 10)) * 10 + n % 10);
        assert((n / 10) * 10 + n % 10 == n);
        assert(decimal_value(r) == n);
        assert forall|i: int| 0 <= i < r.len() implies is_digit(#[trigger] r[i]) by {
            if i < r.len() - 1 {
                assert(r[i] == decimal_repr(n / 10)[i]);
            }
        }
    } else {
        assert(decimal_repr(n).drop_last() =~= seq![]);
        assert(decimal_repr(n).last() == d);
        assert(digit_value(d) == n);
        assert(decimal_value(decimal_repr(n).drop_last()) == 0);
        assert(decimal_value(decimal_repr(n)) == n);
    }
}

} // verus!

verus! {

/// Text without the separator is a single piece.
pub proof fn lemma_split_on_single(s: Seq<char>, sep: char)
    requires
        forall|i: int| 0 <= i < s.len() ==> #[trigger] s[i] != sep,
    ensures
        split_on(s, sep) == seq![s],
    decreases s.len(),
{
    if s.len() == 0 {
        assert(s =~= seq![]);
    } else {
        let rest = s.drop_last();
        assert forall|i: int| 0 <= i < rest.len() implies #[trigger] rest[i] != sep by {
            assert(rest[i] == s[i]);
        }
        lemma_split_on_single(rest, sep);
        assert(s.last() == s[s.len() - 1]);
        assert(rest.push(s.last()) =~= s);
    }
}

/// Splitting two texts joined by the separator gives the pieces of the
/// first followed by those of the second.
pub proof fn lemma_split_on_join(a: Seq<char>, b: Seq<char>, sep: char)
    ensures
        split_on(a + seq![sep] + b, sep) == split_on(a, sep) + split_on(b, sep),
    decreases b.len(),
{
    let joined = a + seq![sep] + b;
    if b.len() == 0 {
        assert(joined.drop_last() =~= a);
        assert(joined.last() == sep);
        assert(split_on(b, sep) == seq![Seq::<char>::empty()]) by {
            assert(b =~= seq![]);
        }
        assert(split_on(a, sep).push(seq![]) =~= split_on(a, sep) + seq![Seq::<char>::empty()]);
    } else {
        let bl = b.drop_last();
        lemma_split_on_join(a, bl, sep);
        lemma_split_on_nonempty(bl, sep);
        assert(joined.drop_last() =~= a + seq![sep] + bl);
        assert(joined.last() == b.last());
        let left = split_on(a, sep);
        let right = split_on(bl, sep);
        if b.last() == sep {
            assert((left + right).push(seq![]) =~= left + right.push(seq![]));
        } else {
            assert((left + right).drop_last() =~= left + right.drop_last());
            assert((left + right).last() == right.last());
            assert((left + right).drop_last().push((left + right).last().push(b.last())) =~= left
                + right.drop_last().push(right.last().push(b.last())));
        }
    }
}

} // verus!

verus! {

/// The pieces joined, with `sep` between each two.
pub open spec fn join_with(parts: Seq<Seq<char>>, sep: char) -> Seq<char>
    decreases parts.len(),
{
    if parts.len() == 0 {
        seq![]
    } else if parts.len() == 1 {
        parts[0]
    } else {
        join_with(parts.drop_last(), sep) + seq![sep] + parts.last()
    }
}

/// The words joined by single spaces.
pub open spec fn join_words(words: Seq<Seq<char>>) -> Seq<char> {
    join_with(words, ' ')
}

/// Joining one more piece adds the separator and the piece.
pub proof fn lemma_join_push(parts: Seq<Seq<char>>, piece: Seq<char>, sep: char)
    ensures
        join_with(parts.push(piece), sep) == if parts.len() == 0 {
            piece
        } else {
            join_with(parts, sep) + seq![sep] + piece
        },
{
    assert(parts.push(piece).drop_last() =~= parts);
    if parts.len() == 0 {
        assert(parts.push(piece)[0] == piece);
    }
}

/// Joining the pieces of `s` between the occurrences of `sep` with `sep`
/// gives `s` back, and no piece holds `sep`.
pub proof fn lemma_split_on_rejoin(s: Seq<char>, sep: char)
    ensures
        join_with(split_on(s, sep), sep) == s,
        forall|i: int, j: int|
            0 <= i < split_on(s, sep).len() && 0 <= j < split_on(s, sep)[i].len() ==> #[trigger] split_on(
                s,
                sep,
            )[i][j] != sep,
    decreases s.len(),
{
    if s.len() == 0 {
        assert(split_on(s, sep) == seq![Seq::<char>::empty()]);
        assert(s =~= seq![]);
    } else {
        let rest = s.drop_last();
        let c = s.last();
        let prev = split_on(rest, sep);
        lemma_split_on_rejoin(rest, sep);
        lemma_split_on_nonempty(rest, sep);
        let cur = split_on(s, sep);
        if c == sep {
            lemma_join_push(prev, seq![], sep);
            assert(rest + seq![sep] + Seq::<char>::empty() =~= s);
            assert forall|i: int, j: int|
                0 <= i < cur.len() && 0 <= j < cur[i].len() implies cur[i][j] != sep by {
                assert(cur[i] == prev[i]);
            }
        } else {
            let last = prev.last().push(c);
            lemma_join_push(prev.drop_last(), last, sep);
            lemma_join_push(prev.drop_last(), prev.last(), sep);
            assert(prev.drop_last().push(prev.last()) =~= prev);
            if prev.len() > 1 {
                assert(join_with(prev.drop_last(), sep) + seq![sep] + last =~= (join_with(
                    prev.drop_last(),
                    sep,
                ) + seq![sep] + prev.last()).push(c));
            }
            assert(rest.push(c) =~= s);
            assert forall|i: int, j: int|
                0 <= i < cur.len() && 0 <= j < cur[i].len() implies cur[i][j] != sep by {
                if i < cur.len() - 1 {
                    assert(cur[i] == prev[i]);
                } else if j < prev.last().len() {
                    assert(cur[i][j] == prev[prev.len() - 1][j]);
                }
            }
        }
    }
}

/// The last piece of `s` is empty exactly when `s` is empty or ends with the
/// separator.
pub proof fn lemma_split_on_last_piece(s: Seq<char>, sep: char)
    ensures
        split_on(s, sep).len() >= 1,
        split_on(s, sep).last().len() == 0 <==> (s.len() == 0 || s.last() == sep),
        s.len() > 0 && s.last() == sep ==> split_on(s, sep).drop_last() == split_on(
            s.drop_last(),
            sep,
        ),
{
    lemma_split_on_nonempty(s, sep);
    if s.len() > 0 {
        lemma_split_on_nonempty(s.drop_last(), sep);
        if s.last() == sep {
            assert(split_on(s, sep).drop_last() =~= split_on(s.drop_last(), sep));
        }
    }
}

/// A word followed a whitespace character (or at the very start) becomes one
/// more piece of the whitespace split.
pub proof fn lemma_split_whitespace_append_word(x: Seq<char>, w: Seq<char>)
    requires
        w.len() > 0,
        forall|j: int| 0 <= j < w.len() ==> !is_unicode_whitespace(#[trigger] w[j]),
        x.len() == 0 || is_unicode_whitespace(x.last()),
    ensures
        split_whitespace(x + w) == split_whitespace(x).push(w),
    decreases w.len(),
{
    let s = x + w;
    let c = w.last();
    assert(s.last() == c);
    assert(!is_unicode_whitespace(w[w.len() - 1]));
    if w.len() == 1 {
        assert(s.drop_last() =~= x);
        assert(seq![c] =~= w);
        if x.len() > 0 {
            assert(s[s.len() - 2] == x.last());
        }
    } else {
        let wl = w.drop_last();
        assert forall|j: int| 0 <= j < wl.len() implies !is_unicode_whitespace(#[trigger] wl[j]) by {
            assert(wl[j] == w[j]);
        }
        lemma_split_whitespace_append_word(x, wl);
        assert(s.drop_last() =~= x + wl);
        assert(s[s.len() - 2] == w[w.len() - 2]);
        assert(split_whitespace(x).push(wl).drop_last() =~= split_whitespace(x));
        assert(wl.push(c) =~= w);
    }
}

/// Words without whitespace, joined by spaces, split back into the words.
pub proof fn lemma_split_whitespace_of_joined(words: Seq<Seq<char>>)
    requires
        forall|i: int| 0 <= i < words.len() ==> #[trigger] words[i].len() > 0,
        forall|i: int, j: int|
            0 <= i < words.len() && 0 <= j < words[i].len() ==> !is_unicode_whitespace(
                #[trigger] words[i][j],
            ),
    ensures
        split_whitespace(join_words(words)) == words,
    decreases words.len(),
{
    if words.len() == 0 {
        assert(words =~= seq![]);
    } else {
        let rest = words.drop_last();
        let w = words.last();
        assert(w == words[words.len() - 1]);
        assert forall|j: int| 0 <= j < w.len() implies !is_unicode_whitespace(#[trigger] w[j]) by {
            assert(w[j] == words[words.len() - 1][j]);
        }
        assert forall|i: int| 0 <= i < rest.len() implies #[trigger] rest[i].len() > 0 by {
            assert(rest[i] == words[i]);
        }
        assert forall|i: int, j: int|
            0 <= i < rest.len() && 0 <= j < rest[i].len() implies !is_unicode_whitespace(
            #[trigger] rest[i][j],
        ) by {
            assert(rest[i] == words[i]);
        }
        lemma_split_whitespace_of_joined(rest);
        lemma_join_push(rest, w, ' ');
        assert(rest.push(w) =~= words);
        if rest.len() == 0 {
            lemma_split_whitespace_append_word(seq![], w);
            assert(Seq::<char>::empty() + w =~= w);
            assert(split_whitespace(Seq::<char>::empty()).push(w) =~= seq![w]);
            assert(seq![w] =~= words);
        } else {
            let x = join_words(rest) + seq![' '];
            assert(x.drop_last() =~= join_words(rest));
            assert(is_unicode_whitespace(x.last()));
            lemma_split_whitespace_append_word(x, w);
            assert(x + w =~= join_words(rest) + seq![' '] + w);
        }
    }
}

} // verus!

verus! {

/// `s` without the whitespace at its start.
pub open spec fn trim_start(s: Seq<char>) -> Seq<char>
    decreases s.len(),
{
    if s.len() > 0 && is_unicode_whitespace(s[0]) {
        trim_start(s.drop_first())
    } else {
        s
    }
}

/// `s` without the whitespace at its end.
pub open spec fn trim_end(s: Seq<char>) -> Seq<char>
    decreases s.len(),
{
    if s.len() > 0 && is_unicode_whitespace(s.last()) {
        trim_end(s.drop_last())
    } else {
        s
    }
}

/// `s` without the whitespace at either end (`str::trim`).
pub open spec fn trimmed(s: Seq<char>) -> Seq<char> {
    trim_end(trim_start(s))
}

/// The text `s` without the whitespace at either end.
pub fn trim_text(s: &str) -> (r: String)
    ensures
        r@ == trimmed(s@),
{
    let cs = chars_of(s);
    let n = cs.len();
    let mut lo: usize = 0;
    assert(s@.subrange(0, n as int) =~= s@);
    while lo < n && is_whitespace(cs[lo])
        invariant
            lo <= n == cs@.len(),
            cs@ == s@,
            trim_start(s@) == trim_start(s@.subrange(lo as int, n as int)),
        decreases n - lo,
    {
        assert(s@.subrange(lo as int, n as int).drop_first() =~= s@.subrange(lo + 1, n as int));
        lo = lo + 1;
    }
    assert(trim_start(s@.subrange(lo as int, n as int)) == s@.subrange(lo as int, n as int));
    let mut hi: usize = n;
    while hi > lo && is_whitespace(cs[hi - 1])
        invariant
            lo <= hi <= n == cs@.len(),
            cs@ == s@,
            trimmed(s@) == trim_end(s@.subrange(lo as int, hi as int)),
        decreases hi - lo,
    {
        assert(s@.subrange(lo as int, hi as int).drop_last() =~= s@.subrange(
            lo as int,
            hi - 1,
        ));
        hi = hi - 1;
    }
    string_of(&cs, lo, hi)
}

} // verus!
