//! Text: comparing, trimming, and writing integers in decimal.
use vstd::prelude::*;
use vstd::string::*;

verus! {

/// The text without the longest prefix of characters that `drop` picks.
pub open spec fn strip_front(text: Seq<char>, drop: spec_fn(char) -> bool) -> Seq<char>
    decreases text.len(),
{
    if text.len() > 0 && drop(text.first()) {
        strip_front(text.drop_first(), drop)
    } else {
        text
    }
}

/// The text without the longest suffix of characters that `drop` picks.
pub open spec fn strip_back(text: Seq<char>, drop: spec_fn(char) -> bool) -> Seq<char>
    decreases text.len(),
{
    if text.len() > 0 && drop(text.last()) {
        strip_back(text.drop_last(), drop)
    } else {
        text
    }
}

/// The text without the characters that `drop` picks, at both of its ends.
pub open spec fn strip(text: Seq<char>, drop: spec_fn(char) -> bool) -> Seq<char> {
    strip_back(strip_front(text, drop), drop)
}

/// Whether a character has the Unicode property `White_Space`.
pub open spec fn is_white_space(c: char) -> bool {
    let code = c as u32;
    ||| 0x9 <= code <= 0xd
    ||| code == 0x20
    ||| code == 0x85
    ||| code == 0xa0
    ||| code == 0x1680
    ||| 0x2000 <= code <= 0x200a
    ||| code == 0x2028
    ||| code == 0x2029
    ||| code == 0x202f
    ||| code == 0x205f
    ||| code == 0x3000
}

/// The text without white space at its ends.
pub open spec fn trimmed(text: Seq<char>) -> Seq<char> {
    strip(text, |c: char| is_white_space(c))
}

/// What picks one character.
pub open spec fn only(edge: char) -> spec_fn(char) -> bool {
    |c: char| c == edge
}

/// The text without the character `edge` at its ends.
pub open spec fn trimmed_of(text: Seq<char>, edge: char) -> Seq<char> {
    strip(text, only(edge))
}

/// Calls `str::trim`: the slice has every leading and trailing character of the property
/// `White_Space` removed, and nothing else.
#[verifier::external_body]
pub(crate) fn trim(text: &str) -> (r: &str)
    ensures
        r@ == trimmed(text@),
{
    text.trim()
}

/// Calls `str::trim_matches` with a character: the slice has that character removed from both
/// ends as often as it stands there, and nothing else.
#[verifier::external_body]
pub(crate) fn trim_edge(text: &str, edge: char) -> (r: &str)
    ensures
        r@ == trimmed_of(text@, edge),
{
    text.trim_matches(edge)
}

/// Calls `==` of `str`: two slices are equal when they hold the same characters.
#[verifier::external_body]
pub(crate) fn same_text(a: &str, b: &str) -> (r: bool)
    ensures
        r == (a@ == b@),
{
    a == b
}

/// The digit of a number below ten.
pub open spec fn digit(n: nat) -> char {
    if n == 0 {
        '0'
    } else if n == 1 {
        '1'
    } else if n == 2 {
        '2'
    } else if n == 3 {
        '3'
    } else if n == 4 {
        '4'
    } else if n == 5 {
        '5'
    } else if n == 6 {
        '6'
    } else if n == 7 {
        '7'
    } else if n == 8 {
        '8'
    } else {
        '9'
    }
}

/// A natural number in decimal, without leading zeros.
pub open spec fn decimal_text(n: nat) -> Seq<char>
    decreases n,
{
    if n < 10 {
        seq![digit(n)]
    } else {
        decimal_text(n / 10).push(digit(n % 10))
    }
}

/// An integer in decimal, with a sign when it is negative.
pub open spec fn integer_text(n: int) -> Seq<char> {
    if n < 0 {
        "-"@ + decimal_text((-n) as nat)
    } else {
        decimal_text(n as nat)
    }
}

/// The digit of a number below ten, as text.
fn digit_of(n: u64) -> (r: &'static str)
    requires
        n < 10,
    ensures
        r@ == seq![digit(n as nat)],
{
    proof {
        reveal_strlit("0");
        reveal_strlit("1");
        reveal_strlit("2");
        reveal_strlit("3");
        reveal_strlit("4");
        reveal_strlit("5");
        reveal_strlit("6");
        reveal_strlit("7");
        reveal_strlit("8");
        reveal_strlit("9");
    }
    if n == 0 {
        "0"
    } else if n == 1 {
        "1"
    } else if n == 2 {
        "2"
    } else if n == 3 {
        "3"
    } else if n == 4 {
        "4"
    } else if n == 5 {
        "5"
    } else if n == 6 {
        "6"
    } else if n == 7 {
        "7"
    } else if n == 8 {
        "8"
    } else {
        "9"
    }
}

/// Writes a natural number in decimal.
pub fn decimal(n: u64) -> (r: String)
    ensures
        r@ == decimal_text(n as nat),
    decreases n,
{
    if n < 10 {
        digit_of(n).to_owned()
    } else {
        let mut text = decimal(n / 10);
        text.append(digit_of(n % 10));
        text
    }
}

/// Writes an integer in decimal.
pub fn signed_decimal(n: i64) -> (r: String)
    ensures
        r@ == integer_text(n as int),
{
    if n >= 0 {
        decimal(n as u64)
    } else {
        let mut text = "-".to_owned();
        // The magnitude of the least `i64` does not fit in an `i64`.
        let magnitude: u64 = (-(n + 1)) as u64 + 1;
        text.append(decimal(magnitude).as_str());
        text
    }
}

/// Different numbers have different texts.
pub proof fn decimal_text_is_injective(m: nat, n: nat)
    requires
        decimal_text(m) == decimal_text(n),
    ensures
        m == n,
    decreases m,
{
    decimal_text_has_digits(m / 10);
    decimal_text_has_digits(n / 10);
    let text = decimal_text(m);
    assert(text.last() == digit(m % 10) && text.last() == digit(n % 10));
    if m >= 10 && n >= 10 {
        assert(text.drop_last() =~= decimal_text(m / 10));
        assert(text.drop_last() =~= decimal_text(n / 10));
        decimal_text_is_injective(m / 10, n / 10);
    }
}

/// The text of a number is made of digits, and has at least one.
pub proof fn decimal_text_has_digits(n: nat)
    ensures
        decimal_text(n).len() > 0,
        forall|i: int|
            0 <= i < decimal_text(n).len() ==> '0' <= #[trigger] decimal_text(n)[i] <= '9',
    decreases n,
{
    if n >= 10 {
        decimal_text_has_digits(n / 10);
    }
}

/// Stripping leaves no character to strip at either end.
pub proof fn strip_leaves_no_edge(text: Seq<char>, drop: spec_fn(char) -> bool)
    ensures
        strip(text, drop).len() > 0 ==> !drop(strip(text, drop).first()) && !drop(
            strip(text, drop).last(),
        ),
{
    strip_front_stops(text, drop);
    strip_back_stops(strip_front(text, drop), drop);
}

/// Trimming a character leaves it at neither end.
pub proof fn trimming_leaves_no_edge(text: Seq<char>, edge: char)
    ensures
        trimmed_of(text, edge).len() > 0 ==> trimmed_of(text, edge).first() != edge && trimmed_of(
            text,
            edge,
        ).last() != edge,
{
    strip_leaves_no_edge(text, only(edge));
}

/// Stripping twice is stripping once.
pub proof fn strip_is_idempotent(text: Seq<char>, drop: spec_fn(char) -> bool)
    ensures
        strip(strip(text, drop), drop) == strip(text, drop),
{
    strip_leaves_no_edge(text, drop);
}

proof fn strip_front_stops(text: Seq<char>, drop: spec_fn(char) -> bool)
    ensures
        strip_front(text, drop).len() > 0 ==> !drop(strip_front(text, drop).first()),
    decreases text.len(),
{
    if text.len() > 0 && drop(text.first()) {
        strip_front_stops(text.drop_first(), drop);
    }
}

proof fn strip_back_stops(text: Seq<char>, drop: spec_fn(char) -> bool)
    ensures
        strip_back(text, drop).len() > 0 ==> !drop(strip_back(text, drop).last()) && strip_back(
            text,
            drop,
        ).first() == text.first(),
    decreases text.len(),
{
    if text.len() > 0 && drop(text.last()) {
        strip_back_stops(text.drop_last(), drop);
    }
}

/// The number that a text of digits stands for.
pub open spec fn number_of(digits: Seq<char>) -> int
    decreases digits.len(),
{
    if digits.len() == 0 {
        0
    } else {
        10 * number_of(digits.drop_last()) + (digits.last() as int - '0' as int)
    }
}

/// The decimal text of a number is made of digits that stand for that number, and does not begin
/// with a zero but for the number zero.
pub proof fn a_decimal_text_stands_for_its_number(n: nat)
    ensures
        number_of(decimal_text(n)) == n,
        forall|i: int|
            0 <= i < decimal_text(n).len() ==> '0' <= #[trigger] decimal_text(n)[i] <= '9',
        n > 0 ==> decimal_text(n).first() != '0',
        n == 0 ==> decimal_text(n).len() == 1,
    decreases n,
{
    decimal_text_has_digits(n);
    if n < 10 {
        assert(decimal_text(n).drop_last() =~= Seq::empty());
        assert(number_of(Seq::empty()) == 0);
    } else {
        a_decimal_text_stands_for_its_number(n / 10);
        assert(decimal_text(n).drop_last() =~= decimal_text(n / 10));
        decimal_text_has_digits(n / 10);
    }
}

/// The text of an integer is that of its magnitude, after a sign exactly when it is negative.
pub proof fn an_integer_text_stands_for_its_number(n: int)
    ensures
        n >= 0 ==> number_of(integer_text(n)) == n && integer_text(n).first() != '-',
        n < 0 ==> integer_text(n).first() == '-' && number_of(integer_text(n).drop_first()) == -n,
{
    reveal_strlit("-");
    if n >= 0 {
        a_decimal_text_stands_for_its_number(n as nat);
        decimal_text_has_digits(n as nat);
    } else {
        a_decimal_text_stands_for_its_number((-n) as nat);
        assert(integer_text(n).drop_first() =~= decimal_text((-n) as nat));
    }
}

/// Whether a number is the code of a character of white space.
pub open spec fn is_white_code(code: int) -> bool {
    ||| code == 9
    ||| code == 10
    ||| code == 11
    ||| code == 12
    ||| code == 13
    ||| code == 32
    ||| code == 133
    ||| code == 160
    ||| code == 5760
    ||| code == 8192
    ||| code == 8193
    ||| code == 8194
    ||| code == 8195
    ||| code == 8196
    ||| code == 8197
    ||| code == 8198
    ||| code == 8199
    ||| code == 8200
    ||| code == 8201
    ||| code == 8202
    ||| code == 8232
    ||| code == 8233
    ||| code == 8239
    ||| code == 8287
    ||| code == 12288
}

/// What is left of a text whose ends were stripped: a part of it, with nothing but stripped
/// characters before it and after it, and none of them at its own ends.
pub open spec fn is_stripped(
    text: Seq<char>,
    left: Seq<char>,
    strips: spec_fn(char) -> bool,
) -> bool {
    exists|i: int, j: int|
        #![trigger text.subrange(i, j)]
        {
            &&& 0 <= i <= j <= text.len()
            &&& left == text.subrange(i, j)
            &&& forall|k: int| 0 <= k < text.len() && !(i <= k < j) ==> strips(#[trigger] text[k])
            &&& i < j ==> !strips(text[i]) && !strips(text[j - 1])
        }
}

proof fn strip_front_is_a_rest(text: Seq<char>, drop: spec_fn(char) -> bool) -> (i: int)
    ensures
        0 <= i <= text.len(),
        strip_front(text, drop) == text.subrange(i, text.len() as int),
        forall|k: int| 0 <= k < i ==> drop(#[trigger] text[k]),
        i < text.len() ==> !drop(text[i]),
    decreases text.len(),
{
    if text.len() > 0 && drop(text.first()) {
        let rest = text.drop_first();
        let i = strip_front_is_a_rest(rest, drop);
        assert(rest.subrange(i, rest.len() as int) =~= text.subrange(i + 1, text.len() as int));
        assert forall|k: int| 0 <= k < i + 1 implies drop(#[trigger] text[k]) by {
            if k > 0 {
                assert(rest[k - 1] == text[k]);
            }
        }
        if i + 1 < text.len() {
            assert(rest[i] == text[i + 1]);
        }
        i + 1
    } else {
        assert(text.subrange(0, text.len() as int) =~= text);
        0
    }
}

proof fn strip_back_is_a_front(text: Seq<char>, drop: spec_fn(char) -> bool) -> (j: int)
    ensures
        0 <= j <= text.len(),
        strip_back(text, drop) == text.subrange(0, j),
        forall|k: int| j <= k < text.len() ==> drop(#[trigger] text[k]),
        j > 0 ==> !drop(text[j - 1]),
    decreases text.len(),
{
    if text.len() > 0 && drop(text.last()) {
        let front = text.drop_last();
        let j = strip_back_is_a_front(front, drop);
        assert(front.subrange(0, j) =~= text.subrange(0, j));
        assert forall|k: int| j <= k < text.len() implies drop(#[trigger] text[k]) by {
            if k < front.len() {
                assert(front[k] == text[k]);
            }
        }
        if j > 0 {
            assert(front[j - 1] == text[j - 1]);
        }
        j
    } else {
        assert(text.subrange(0, text.len() as int) =~= text);
        text.len() as int
    }
}

proof fn strip_leaves_the_middle(
    text: Seq<char>,
    drop: spec_fn(char) -> bool,
    strips: spec_fn(char) -> bool,
)
    requires
        forall|c: char| #[trigger] drop(c) == strips(c),
    ensures
        is_stripped(text, strip(text, drop), strips),
{
    let i = strip_front_is_a_rest(text, drop);
    let rest = strip_front(text, drop);
    let j = strip_back_is_a_front(rest, drop);
    assert(rest.subrange(0, j) =~= text.subrange(i, i + j));
    assert forall|k: int| 0 <= k < text.len() && !(i <= k < i + j) implies strips(
        #[trigger] text[k],
    ) by {
        assert(drop(text[k]) == strips(text[k]));
        if k >= i + j {
            assert(rest[k - i] == text[k]);
        }
    }
    if j > 0 {
        assert(rest[0] == text[i] && rest[j - 1] == text[i + j - 1]);
        assert(drop(text[i]) == strips(text[i]));
        assert(drop(text[i + j - 1]) == strips(text[i + j - 1]));
    }
}

/// Trimming takes the white space off both ends of a text, all of it and nothing else.
pub proof fn trimming_takes_white_space_off_the_ends(text: Seq<char>)
    ensures
        is_stripped(text, trimmed(text), |c: char| is_white_code(c as u32 as int)),
{
    let drop = |c: char| is_white_space(c);
    let strips = |c: char| is_white_code(c as u32 as int);
    assert forall|c: char| #[trigger] drop(c) == strips(c) by {
        assert(is_white_space(c) == is_white_code(c as u32 as int));
    }
    strip_leaves_the_middle(text, drop, strips);
}

/// Trimming a character takes it off both ends of a text, as often as it stands there and nothing
/// else.
pub proof fn trimming_takes_a_character_off_the_ends(text: Seq<char>, edge: char)
    ensures
        is_stripped(text, trimmed_of(text, edge), |c: char| c == edge),
{
    strip_leaves_the_middle(text, only(edge), |c: char| c == edge);
}

} // verus!
