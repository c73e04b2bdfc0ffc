//! Plain text: conversions from `str`, decimal numerals, concatenation and common prefixes.

use vstd::prelude::*;
use vstd::string::*;

verus! {

/// `String::from(&str)`: a string with the same characters.
pub assume_specification<'a>[ <String as core::convert::From<&'a str>>::from ](
    value: &str,
) -> (result: String)
    ensures
        result@ == value@,
;

/// `T::from(T)`: the conversion of a type to itself hands its argument back.
pub assume_specification<T>[ <T as core::convert::From<T>>::from ](value: T) -> (result: T)
    ensures
        result == value,
;

/// The decimal digit for a value below ten.
pub open spec fn digit(value: nat) -> char
    recommends
        value < 10,
{
    (value + '0' as nat) as char
}

/// The decimal numeral of a number, without leading zeros.
pub open spec fn decimal(number: nat) -> Seq<char>
    decreases number,
{
    if number < 10 {
        seq![digit(number)]
    } else {
        decimal(number / 10).push(digit(number % 10))
    }
}

/// The text of one decimal digit.
fn digit_text(value: u64) -> (text: &'static str)
    requires
        value < 10,
    ensures
        text@ == seq![digit(value as nat)],
{
    proof {
        reveal_strlit("0");
        reveal_strlit("1");
        reveal_strlit("2");
        reveal_strlit("3");
        reveal_strlit("4");
        reveal_strlit("5");
        reveal_strlit("6");
        reveal_strlit("7");
        reveal_strlit("8");
        reveal_strlit("9");
    }
    match value {
        0 => "0",
        1 => "1",
        2 => "2",
        3 => "3",
        4 => "4",
        5 => "5",
        6 => "6",
        7 => "7",
        8 => "8",
        _ => "9",
    }
}

/// Writes a number in decimal.
pub fn decimal_text(number: u64) -> (text: String)
    ensures
        text@ == decimal(number as nat),
    decreases number,
{
    if number < 10 {
        String::from(digit_text(number))
    } else {
        let text = decimal_text(number / 10).concat(digit_text(number % 10));
        assert(text@ == decimal((number / 10) as nat).push(digit((number % 10) as nat)));
        text
    }
}

/// Different numbers have different numerals.
pub proof fn law_decimal_is_injective(a: nat, b: nat)
    requires
        decimal(a) == decimal(b),
    ensures
        a == b,
    decreases a,
{
    if a < 10 && b < 10 {
        assert(decimal(a)[0] == digit(a));
        assert(decimal(b)[0] == digit(b));
    } else if a >= 10 && b >= 10 {
        assert(decimal(a).last() == digit(a % 10));
        assert(decimal(b).last() == digit(b % 10));
        assert(decimal(a).drop_last() == decimal(a / 10));
        assert(decimal(b).drop_last() == decimal(b / 10));
        law_decimal_is_injective(a / 10, b / 10);
    } else if a >= 10 {
        lemma_decimal_is_not_empty(a / 10);
        assert(decimal(a).len() > 1);
    } else {
        lemma_decimal_is_not_empty(b / 10);
        assert(decimal(b).len() > 1);
    }
}

proof fn lemma_decimal_is_not_empty(number: nat)
    ensures
        decimal(number).len() > 0,
{
}

/// A numeral reads as its number: it is made of decimal digits, only that of zero begins with a
/// zero, and from left to right, each digit counts for one and what is before it for ten times as
/// much.
pub proof fn law_decimal_reads_as_its_number(number: nat)
    ensures
        decimal(number).len() > 0,
        forall|i: int| 0 <= i < decimal(number).len() ==> '0' <= #[trigger] decimal(number)[i] <= '9',
        decimal(number)[0] == '0' ==> number == 0 && decimal(number).len() == 1,
        decimal(number).fold_left(
            0int,
            |value: int, c: char| 10 * value + (c as int - '0' as int),
        ) == number,
    decreases number,
{
    let read = |value: int, c: char| 10 * value + (c as int - '0' as int);
    let numeral = decimal(number);
    if number < 10 {
        assert(numeral.drop_last() == Seq::<char>::empty());
        assert(numeral.drop_last().fold_left(0int, read) == 0);
        assert(numeral.last() == digit(number));
    } else {
        law_decimal_reads_as_its_number(number / 10);
        assert(numeral.drop_last() == decimal(number / 10));
        assert(numeral.last() == digit(number % 10));
        assert(numeral.fold_left(0int, read) == read(
            decimal(number / 10).fold_left(0int, read),
            numeral.last(),
        ));
        assert forall|i: int| 0 <= i < numeral.len() implies '0' <= #[trigger] numeral[i] <= '9' by {
            if i < numeral.len() - 1 {
                assert(numeral[i] == decimal(number / 10)[i]);
            }
        }
        assert(numeral[0] == decimal(number / 10)[0]);
    }
}

/// Whether a text holds neither a line feed nor a carriage return.
pub open spec fn single_line(text: Seq<char>) -> bool {
    !text.contains('\n') && !text.contains('\r')
}

/// A text fits on one line just when no character of it ends a line.
pub proof fn law_single_line(text: Seq<char>)
    ensures
        single_line(text) <==> forall|i: int|
            0 <= i < text.len() ==> #[trigger] text[i] != '\n' && text[i] != '\r',
{
    if single_line(text) {
        assert forall|i: int| 0 <= i < text.len() implies #[trigger] text[i] != '\n' && text[i]
            != '\r' by {
            assert(text.contains(text[i]));
        }
    }
}

/// The pieces of a text, one after the other.
pub open spec fn joined(pieces: Seq<Seq<char>>) -> Seq<char>
    decreases pieces.len(),
{
    if pieces.len() == 0 {
        Seq::empty()
    } else {
        joined(pieces.drop_last()) + pieces.last()
    }
}

/// The contents of each string of a list.
pub open spec fn contents(strings: Seq<String>) -> Seq<Seq<char>> {
    strings.map_values(|s: String| s@)
}

/// Joining keeps every piece whole and in its place: of no pieces the joined text is empty, of one
/// piece it is that piece, and of two lists of pieces, one after the other, it is the joined text
/// of the first followed by that of the second.
pub proof fn law_joined_is_the_whole_of_its_pieces(
    a: Seq<Seq<char>>,
    piece: Seq<char>,
    b: Seq<Seq<char>>,
)
    ensures
        joined(Seq::empty()) == Seq::<char>::empty(),
        joined(seq![piece]) == piece,
        joined(a + b) == joined(a) + joined(b),
        joined(a + seq![piece] + b) == joined(a) + piece + joined(b),
    decreases b.len(),
{
    assert(seq![piece].drop_last() == Seq::<Seq<char>>::empty());
    assert(joined(Seq::<Seq<char>>::empty()) == Seq::<char>::empty());
    assert(joined(seq![piece]) == piece);
    assert((a + seq![piece]).drop_last() == a);
    assert(joined(a + seq![piece]) == joined(a) + piece);
    if b.len() == 0 {
        assert(a + b == a);
        assert(a + seq![piece] + b == a + seq![piece]);
        assert(joined(a) + joined(b) == joined(a));
        assert(joined(a) + piece + joined(b) == joined(a) + piece);
    } else {
        law_joined_is_the_whole_of_its_pieces(a, piece, b.drop_last());
        assert((a + b).drop_last() == a + b.drop_last());
        assert((a + seq![piece] + b).drop_last() == a + seq![piece] + b.drop_last());
        assert(joined(a) + (joined(b.drop_last()) + b.last()) == joined(a) + joined(b.drop_last())
            + b.last());
        assert(joined(a) + piece + (joined(b.drop_last()) + b.last()) == joined(a) + piece
            + joined(b.drop_last()) + b.last());
    }
}

/// The joined text is as long as its pieces together.
pub proof fn law_joined_length(pieces: Seq<Seq<char>>)
    ensures
        joined(pieces).len() == pieces.fold_left(
            0int,
            |total: int, piece: Seq<char>| total + piece.len(),
        ),
    decreases pieces.len(),
{
    if pieces.len() > 0 {
        law_joined_length(pieces.drop_last());
    }
}

/// The contents of a list of strings are those of each string, in order.
pub proof fn law_contents_of_each(strings: Seq<String>)
    ensures
        contents(strings).len() == strings.len(),
        forall|i: int| 0 <= i < strings.len() ==> #[trigger] contents(strings)[i] == strings[i]@,
{
}

/// Joins strings without a separator.
pub fn join(pieces: &Vec<String>) -> (text: String)
    ensures
        text@ == joined(contents(pieces@)),
        text@.len() == pieces@.fold_left(0int, |total: int, piece: String| total + piece@.len()),
        pieces@.len() == 1 ==> text@ == pieces@[0]@,
{
    proof {
        lemma_joined_strings(pieces@);
    }
    let mut text = String::new();
    let mut i: usize = 0;
    while i < pieces.len()
        invariant
            i <= pieces.len(),
            text@ == joined(contents(pieces@.take(i as int))),
        decreases pieces.len() - i,
    {
        text.append(pieces[i].as_str());
        i = i + 1;
        assert(contents(pieces@.take(i as int)).drop_last() == contents(pieces@.take(i - 1)));
    }
    assert(pieces@.take(i as int) == pieces@);
    text
}

proof fn lemma_joined_strings(pieces: Seq<String>)
    ensures
        joined(contents(pieces)).len() == pieces.fold_left(
            0int,
            |total: int, piece: String| total + piece@.len(),
        ),
        pieces.len() == 1 ==> joined(contents(pieces)) == pieces[0]@,
    decreases pieces.len(),
{
    if pieces.len() > 0 {
        lemma_joined_strings(pieces.drop_last());
        assert(contents(pieces).drop_last() == contents(pieces.drop_last()));
    }
    if pieces.len() == 1 {
        assert(contents(pieces) == seq![pieces[0]@]);
        law_joined_is_the_whole_of_its_pieces(Seq::empty(), pieces[0]@, Seq::empty());
    }
}

/// What went wrong, in words: what failed, and the cause.
pub open spec fn described(failure: Seq<char>, cause: Seq<char>) -> Seq<char> {
    failure + cause
}

/// A description says what failed first, and then the cause, both in full.
pub proof fn law_description_gives_the_cause(failure: Seq<char>, cause: Seq<char>)
    ensures
        described(failure, cause).len() == failure.len() + cause.len(),
        described(failure, cause).take(failure.len() as int) == failure,
        described(failure, cause).skip(failure.len() as int) == cause,
{
    assert(described(failure, cause).take(failure.len() as int) == failure);
    assert(described(failure, cause).skip(failure.len() as int) == cause);
}

/// The characters of a text, as a list.
pub fn characters(text: &str) -> (list: Vec<char>)
    ensures
        list@ == text@,
{
    let mut list: Vec<char> = Vec::new();
    for c in it: text.chars()
        invariant
            it.seq() == text@,
            list@ == text@.take(it.index() as int),
    {
        list.push(c);
    }
    assert(text@.take(text@.len() as int) == text@);
    list
}

/// The number of leading characters that two texts share.
pub open spec fn common_prefix(a: Seq<char>, b: Seq<char>) -> nat
    decreases a.len(),
{
    if a.len() == 0 || b.len() == 0 || a[0] != b[0] {
        0
    } else {
        1 + common_prefix(a.drop_first(), b.drop_first())
    }
}

/// The texts agree on their common prefix, and it ends where one of them ends or they differ.
pub proof fn lemma_common_prefix(a: Seq<char>, b: Seq<char>)
    ensures
        common_prefix(a, b) <= a.len(),
        common_prefix(a, b) <= b.len(),
        a.take(common_prefix(a, b) as int) == b.take(common_prefix(a, b) as int),
        common_prefix(a, b) < a.len() && common_prefix(a, b) < b.len() ==> a[common_prefix(
            a,
            b,
        ) as int] != b[common_prefix(a, b) as int],
    decreases a.len(),
{
    if a.len() > 0 && b.len() > 0 && a[0] == b[0] {
        lemma_common_prefix(a.drop_first(), b.drop_first());
        let n = common_prefix(a, b) as int;
        assert forall|i: int| 0 <= i < n implies a[i] == b[i] by {
            if i > 0 {
                assert(a.drop_first().take(n - 1)[i - 1] == b.drop_first().take(n - 1)[i - 1]);
            }
        }
    }
    assert(a.take(common_prefix(a, b) as int) == b.take(common_prefix(a, b) as int));
}

/// A length at which two texts agree, and after which one of them ends or they differ, is that of
/// their common prefix.
proof fn lemma_common_prefix_is_unique(a: Seq<char>, b: Seq<char>, n: int)
    requires
        0 <= n <= a.len(),
        n <= b.len(),
        forall|i: int| 0 <= i < n ==> a[i] == b[i],
        n < a.len() && n < b.len() ==> a[n] != b[n],
    ensures
        n == common_prefix(a, b),
{
    lemma_common_prefix(a, b);
    let c = common_prefix(a, b) as int;
    if c < n {
        assert(a[c] == b[c]);
    }
    if n < c {
        assert(a.take(c)[n] == b.take(c)[n]);
    }
}

/// Two texts begin with the same `n` characters just when `n` is at most the length of their common
/// prefix, which is the same whichever of the two comes first.
pub proof fn law_common_prefix_is_the_longest(a: Seq<char>, b: Seq<char>, n: int)
    requires
        0 <= n <= a.len(),
        n <= b.len(),
    ensures
        a.take(n) == b.take(n) <==> n <= common_prefix(a, b),
        common_prefix(a, b) <= a.len(),
        common_prefix(a, b) <= b.len(),
        common_prefix(a, b) == common_prefix(b, a),
{
    lemma_common_prefix(a, b);
    lemma_common_prefix(b, a);
    let c = common_prefix(a, b) as int;
    if n <= c {
        assert(a.take(n) == a.take(c).take(n));
        assert(b.take(n) == b.take(c).take(n));
    } else {
        assert(a.take(n)[c] == a[c]);
        assert(b.take(n)[c] == b[c]);
    }
    assert forall|i: int| 0 <= i < c implies b[i] == a[i] by {
        assert(a.take(c)[i] == b.take(c)[i]);
    }
    lemma_common_prefix_is_unique(b, a, c);
}

/// Counts the leading characters that two texts share.
pub fn common_prefix_len(a: &str, b: &str) -> (len: usize)
    ensures
        len == common_prefix(a@, b@),
        len <= a@.len(),
        len <= b@.len(),
        forall|i: int| 0 <= i < len ==> a@[i] == b@[i],
        len < a@.len() && len < b@.len() ==> a@[len as int] != b@[len as int],
{
    let a_chars = characters(a);
    let b_chars = characters(b);
    let mut common: usize = 0;
    while common < a_chars.len() && common < b_chars.len() && a_chars[common] == b_chars[common]
        invariant
            a_chars@ == a@,
            b_chars@ == b@,
            common <= a_chars.len(),
            common <= b_chars.len(),
            forall|i: int| 0 <= i < common ==> a@[i] == b@[i],
        decreases a_chars.len() - common,
    {
        common = common + 1;
    }
    proof {
        lemma_common_prefix_is_unique(a@, b@, common as int);
    }
    common
}

} // verus!
