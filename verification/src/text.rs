//! Text primitives shared by the rest of the library.
//!
//! Text is modelled as a sequence of characters: the view of a `str` or a
//! `String` is `Seq<char>`, and the view of a list of strings is given by
//! [`texts`].

use vstd::prelude::*;

verus! {

broadcast use vstd::string::group_string_axioms;

/// Put a character behind the characters of a `String` (`String::push`).
#[verifier::external_body]
pub(crate) fn push_char(s: &mut String, c: char)
    ensures
        final(s)@ == old(s)@.push(c),
{
    s.push(c)
}

/// The characters with the Unicode `White_Space` property.
pub open spec fn is_space(c: char) -> bool {
    ||| '\u{9}' <= c <= '\u{d}'
    ||| c == ' '
    ||| c == '\u{85}'
    ||| c == '\u{a0}'
    ||| c == '\u{1680}'
    ||| '\u{2000}' <= c <= '\u{200a}'
    ||| c == '\u{2028}'
    ||| c == '\u{2029}'
    ||| c == '\u{202f}'
    ||| c == '\u{205f}'
    ||| c == '\u{3000}'
}

/// `char::is_whitespace` tells whether a character has the `White_Space`
/// property.
#[verifier::external_body]
pub(crate) fn is_whitespace(c: char) -> (b: bool)
    ensures
        b == is_space(c),
{
    c.is_whitespace()
}

/// A value that can be handed over as owned text.
pub trait Text: Sized {
    /// The characters of the value.
    spec fn text(&self) -> Seq<char>;

    /// Borrow the characters.
    fn as_text(&self) -> (r: &str)
        ensures
            r@ == self.text(),
    ;

    /// Turn the value into a `String` of the same characters.
    fn into_text(self) -> (r: String)
        ensures
            r@ == self.text(),
    ;
}

impl Text for String {
    open spec fn text(&self) -> Seq<char> {
        self@
    }

    fn as_text(&self) -> (r: &str) {
        self.as_str()
    }

    fn into_text(self) -> (r: String) {
        self
    }
}

impl<'a> Text for &'a str {
    open spec fn text(&self) -> Seq<char> {
        self@
    }

    fn as_text(&self) -> (r: &str) {
        *self
    }

    fn into_text(self) -> (r: String) {
        self.to_string()
    }
}

impl<'a> Text for &'a String {
    open spec fn text(&self) -> Seq<char> {
        self@
    }

    fn as_text(&self) -> (r: &str) {
        self.as_str()
    }

    fn into_text(self) -> (r: String) {
        self.clone()
    }
}

/// The characters of each string of a list.
pub open spec fn texts(v: Seq<String>) -> Seq<Seq<char>> {
    v.map_values(|s: String| s@)
}

/// Adding a string to a list adds its characters at the end.
pub broadcast proof fn lemma_texts_push(v: Seq<String>, s: String)
    ensures
        #[trigger] texts(v.push(s)) == texts(v).push(s@),
{
    assert(texts(v.push(s)) =~= texts(v).push(s@));
}

/// The characters of an optional string.
pub open spec fn opt_text(o: Option<String>) -> Option<Seq<char>> {
    match o {
        Some(s) => Some(s@),
        None => None,
    }
}

/// Borrow an optional string.
pub fn opt_str(o: &Option<String>) -> (r: Option<&str>)
    ensures
        match r {
            Some(s) => opt_text(*o) == Some(s@),
            None => *o is None,
        },
{
    match o {
        Some(s) => Some(s.as_str()),
        None => None,
    }
}

/// Copy an optional string.
pub fn clone_opt(o: &Option<String>) -> (r: Option<String>)
    ensures
        r == *o,
{
    match o {
        Some(s) => Some(s.clone()),
        None => None,
    }
}

/// Copy a list of strings.
pub fn clone_all(v: &Vec<String>) -> (r: Vec<String>)
    ensures
        r@ == v@,
{
    let mut r: Vec<String> = Vec::new();
    let mut i: usize = 0;
    while i < v.len()
        invariant
            i <= v@.len(),
            r@ == v@.take(i as int),
        decreases v@.len() - i,
    {
        r.push(v[i].clone());
        i = i + 1;
        assert(r@ =~= v@.take(i as int));
    }
    assert(r@ =~= v@);
    r
}

/// The characters of a `str`, as a list.
pub fn chars_of(s: &str) -> (r: Vec<char>)
    ensures
        r@ == s@,
{
    let mut r: Vec<char> = Vec::new();
    for c in it: s.chars()
        invariant
            it.seq() == s@,
            r@ == it.seq().take(it.index()),
    {
        r.push(c);
    }
    r
}

/// The text made of the characters `from..to` of a list.
pub fn text_of(cs: &Vec<char>, from: usize, to: usize) -> (r: String)
    requires
        from <= to <= cs@.len(),
    ensures
        r@ == cs@.subrange(from as int, to as int),
{
    let mut r: String = String::new();
    let mut i: usize = from;
    while i < to
        invariant
            from <= i <= to <= cs@.len(),
            r@ == cs@.subrange(from as int, i as int),
        decreases to - i,
    {
        push_char(&mut r, cs[i]);
        i = i + 1;
        assert(r@ =~= cs@.subrange(from as int, i as int));
    }
    r
}

/// ASCII upper-case letters become lower-case; every other character stays.
pub open spec fn lower(c: char) -> char {
    if 'A' <= c <= 'Z' {
        (c as u8 + 32) as char
    } else {
        c
    }
}

/// ASCII lower-case letters become upper-case; every other character stays.
pub open spec fn upper(c: char) -> char {
    if 'a' <= c <= 'z' {
        (c as u8 - 32) as char
    } else {
        c
    }
}

pub fn to_lower(c: char) -> (r: char)
    ensures
        r == lower(c),
{
    if 'A' <= c && c <= 'Z' {
        (c as u8 + 32) as char
    } else {
        c
    }
}

pub fn to_upper(c: char) -> (r: char)
    ensures
        r == upper(c),
{
    if 'a' <= c && c <= 'z' {
        (c as u8 - 32) as char
    } else {
        c
    }
}

/// Lowering is idempotent, and takes a letter and its upper-case form to the
/// same character.
pub proof fn lower_folds_case(c: char)
    ensures
        lower(lower(c)) == lower(c),
        lower(upper(c)) == lower(c),
        upper(lower(c)) == upper(c),
{
}

/// A text without the white space at its two ends.
pub open spec fn trim(s: Seq<char>) -> Seq<char>
    decreases s.len(),
{
    if s.len() > 0 && is_space(s[0]) {
        trim(s.drop_first())
    } else if s.len() > 0 && is_space(s.last()) {
        trim(s.drop_last())
    } else {
        s
    }
}

/// Trimming a second time changes nothing.
pub proof fn trim_again(s: Seq<char>)
    ensures
        trim(trim(s)) == trim(s),
    decreases s.len(),
{
    if s.len() > 0 && is_space(s[0]) {
        trim_again(s.drop_first());
    } else if s.len() > 0 && is_space(s.last()) {
        trim_again(s.drop_last());
    }
}

/// Where the trimmed part of a list of characters begins and ends.
pub fn trim_bounds(cs: &Vec<char>) -> (r: (usize, usize))
    ensures
        r.0 <= r.1 <= cs@.len(),
        cs@.subrange(r.0 as int, r.1 as int) == trim(cs@),
{
    let mut from: usize = 0;
    let mut to: usize = cs.len();
    assert(cs@.subrange(0, to as int) =~= cs@);
    while from < to && is_whitespace(cs[from])
        invariant
            from <= to <= cs@.len(),
            trim(cs@.subrange(from as int, to as int)) == trim(cs@),
        decreases to - from,
    {
        proof {
            let s = cs@.subrange(from as int, to as int);
            assert(s[0] == cs@[from as int]);
            assert(s.drop_first() =~= cs@.subrange(from + 1, to as int));
        }
        from = from + 1;
    }
    while from < to && is_whitespace(cs[to - 1])
        invariant
            from <= to <= cs@.len(),
            from < to ==> !is_space(cs@[from as int]),
            trim(cs@.subrange(from as int, to as int)) == trim(cs@),
        decreases to - from,
    {
        proof {
            let s = cs@.subrange(from as int, to as int);
            assert(s[0] == cs@[from as int]);
            assert(s.last() == cs@[to - 1]);
            assert(s.drop_last() =~= cs@.subrange(from as int, to - 1));
        }
        to = to - 1;
    }
    proof {
        let s = cs@.subrange(from as int, to as int);
        if from < to {
            assert(s[0] == cs@[from as int]);
            assert(s.last() == cs@[to - 1]);
        }
    }
    (from, to)
}

/// Whether two texts differ at most in the case of ASCII letters.
pub open spec fn same_folded(a: Seq<char>, b: Seq<char>) -> bool {
    &&& a.len() == b.len()
    &&& forall|i: int| 0 <= i < a.len() ==> lower(#[trigger] a[i]) == lower(b[i])
}

/// Compare two texts without regard to the case of ASCII letters.
pub fn folded_eq(a: &str, b: &str) -> (r: bool)
    ensures
        r == same_folded(a@, b@),
{
    let x: Vec<char> = chars_of(a);
    let y: Vec<char> = chars_of(b);
    if x.len() != y.len() {
        return false;
    }
    let mut i: usize = 0;
    while i < x.len()
        invariant
            i <= x@.len() == y@.len(),
            x@ == a@,
            y@ == b@,
            forall|k: int| 0 <= k < i ==> lower(#[trigger] a@[k]) == lower(b@[k]),
        decreases x@.len() - i,
    {
        if to_lower(x[i]) != to_lower(y[i]) {
            assert(lower(a@[i as int]) != lower(b@[i as int]));
            return false;
        }
        i = i + 1;
    }
    true
}

/// The decimal digits of a number.
pub open spec fn digits(n: nat) -> Seq<char>
    decreases n,
{
    if n < 10 {
        seq![('0' as u8 + n) as char]
    } else {
        digits(n / 10).push(('0' as u8 + n % 10) as char)
    }
}

/// A number in decimal notation.
pub open spec fn decimal(n: int) -> Seq<char> {
    if n < 0 {
        seq!['-'] + digits((-n) as nat)
    } else {
        digits(n as nat)
    }
}

proof fn lemma_digits(n: nat)
    ensures
        digits(n).len() > 0,
        forall|i: int| 0 <= i < digits(n).len() ==> '0' <= #[trigger] digits(n)[i] <= '9',
    decreases n,
{
    if n >= 10 {
        lemma_digits(n / 10);
        let front = digits(n / 10);
        assert forall|i: int| 0 <= i < digits(n).len() implies '0' <= #[trigger] digits(n)[i]
            <= '9' by {
            if i < front.len() {
                assert(digits(n)[i] == front[i]);
            }
        }
    }
}

proof fn lemma_digits_injective(n: nat, m: nat)
    requires
        digits(n) == digits(m),
    ensures
        n == m,
    decreases n,
{
    lemma_digits(n / 10);
    lemma_digits(m / 10);
    let a = (n % 10) as u8;
    let b = (m % 10) as u8;
    assert(digits(n).last() == (48 + a) as char);
    assert(digits(m).last() == (48 + b) as char);
    assert((48 + a) as char as int == 48 + a);
    assert((48 + b) as char as int == 48 + b);
    if n >= 10 && m >= 10 {
        assert(digits(n).drop_last() =~= digits(n / 10));
        assert(digits(m).drop_last() =~= digits(m / 10));
        lemma_digits_injective(n / 10, m / 10);
    } else if n >= 10 {
        assert(digits(n).len() == digits(n / 10).len() + 1);
    } else if m >= 10 {
        assert(digits(m).len() == digits(m / 10).len() + 1);
    }
}

/// A number in decimal notation is a dash or digits, has at least one digit, and
/// differs from that of every other number.
pub proof fn decimals_differ(n: int, m: int)
    ensures
        decimal(n) == decimal(m) ==> n == m,
        decimal(n).len() > 0,
        decimal(n) != seq!['-'],
        forall|i: int| 0 <= i < decimal(n).len() ==> #[trigger] decimal(n)[i] != ':',
{
    let a = if n < 0 {
        (-n) as nat
    } else {
        n as nat
    };
    let b = if m < 0 {
        (-m) as nat
    } else {
        m as nat
    };
    lemma_digits(a);
    lemma_digits(b);
    if n < 0 {
        assert(decimal(n).skip(1) =~= digits(a));
        assert forall|i: int| 0 <= i < decimal(n).len() implies #[trigger] decimal(n)[i] != ':' by {
            if i > 0 {
                assert(decimal(n)[i] == digits(a)[i - 1]);
            }
        }
    } else {
        assert(digits(a)[0] != '-');
    }
    if m < 0 {
        assert(decimal(m).skip(1) =~= digits(b));
    } else {
        assert(digits(b)[0] != '-');
    }
    if decimal(n) == decimal(m) {
        assert(decimal(n)[0] == decimal(m)[0]);
        assert((n < 0) == (m < 0));
        lemma_digits_injective(a, b);
    }
}

fn push_digits(out: &mut String, n: u64)
    ensures
        final(out)@ == old(out)@ + digits(n as nat),
    decreases n,
{
    let ghost before = out@;
    if n >= 10 {
        push_digits(out, n / 10);
    }
    push_char(out, (48 + (n % 10) as u8) as char);
    assert(out@ =~= before + digits(n as nat));
}

/// Put a number in decimal notation behind a text.
pub fn push_decimal(out: &mut String, n: i64)
    ensures
        final(out)@ == old(out)@ + decimal(n as int),
{
    let ghost before = out@;
    if n < 0 {
        push_char(out, '-');
        push_digits(out, (-(n as i128)) as u64);
    } else {
        push_digits(out, n as u64);
    }
    assert(out@ =~= before + decimal(n as int));
}

/// How a text reads in Rust source: in double quotes, with escapes.
pub uninterp spec fn str_debug(s: Seq<char>) -> Seq<char>;

/// How a character reads in Rust source: in single quotes, with escapes.
pub uninterp spec fn char_debug(c: char) -> Seq<char>;

/// The `Debug` form of a `str`.
#[verifier::external_body]
pub(crate) fn quoted(s: &str) -> (r: String)
    ensures
        r@ == str_debug(s@),
{
    format!("{:?}", s)
}

/// The `Debug` form of a `char`.
#[verifier::external_body]
pub(crate) fn quoted_char(c: char) -> (r: String)
    ensures
        r@ == char_debug(c),
{
    format!("{:?}", c)
}

/// Trimming takes white space away at the two ends, all of it, and nothing else.
pub proof fn trimming_takes_only_the_ends(s: Seq<char>) -> (r: (int, int))
    ensures
        0 <= r.0 <= r.1 <= s.len(),
        trim(s) == s.subrange(r.0, r.1),
        forall|i: int| 0 <= i < r.0 ==> is_space(#[trigger] s[i]),
        forall|i: int| r.1 <= i < s.len() ==> is_space(#[trigger] s[i]),
        trim(s).len() > 0 ==> !is_space(trim(s)[0]) && !is_space(trim(s).last()),
        trim(s).len() == 0 <==> forall|i: int| 0 <= i < s.len() ==> is_space(#[trigger] s[i]),
    decreases s.len(),
{
    if s.len() > 0 && is_space(s[0]) {
        let rest = s.drop_first();
        let (a, b) = trimming_takes_only_the_ends(rest);
        assert(rest.subrange(a, b) =~= s.subrange(a + 1, b + 1));
        assert forall|i: int| 0 <= i < a + 1 implies is_space(#[trigger] s[i]) by {
            if i > 0 {
                assert(rest[i - 1] == s[i]);
            }
        }
        assert forall|i: int| b + 1 <= i < s.len() implies is_space(#[trigger] s[i]) by {
            assert(rest[i - 1] == s[i]);
        }
        if trim(s).len() > 0 {
            assert(s[a + 1] == trim(s)[0]);
        } else {
            assert forall|i: int| 0 <= i < s.len() implies is_space(#[trigger] s[i]) by {
                if i > 0 {
                    assert(rest[i - 1] == s[i]);
                }
            }
        }
        (a + 1, b + 1)
    } else if s.len() > 0 && is_space(s.last()) {
        let rest = s.drop_last();
        let (a, b) = trimming_takes_only_the_ends(rest);
        assert(rest.subrange(a, b) =~= s.subrange(a, b));
        assert forall|i: int| 0 <= i < a implies is_space(#[trigger] s[i]) by {
            assert(rest[i] == s[i]);
        }
        assert forall|i: int| b <= i < s.len() implies is_space(#[trigger] s[i]) by {
            if i < rest.len() {
                assert(rest[i] == s[i]);
            }
        }
        if trim(s).len() > 0 {
            assert(s[a] == trim(s)[0]);
        } else {
            assert forall|i: int| 0 <= i < s.len() implies is_space(#[trigger] s[i]) by {
                if i < rest.len() {
                    assert(rest[i] == s[i]);
                }
            }
        }
        (a, b)
    } else {
        assert(s.subrange(0, s.len() as int) =~= s);
        if s.len() > 0 {
            assert(!is_space(s[0]));
        }
        (0, s.len() as int)
    }
}

/// Only the letters `A` to `Z` have a lower case, and only `a` to `z` an upper
/// case; the case changes, the letter does not.
pub proof fn case_is_for_ascii_letters(c: char)
    ensures
        'A' <= c <= 'Z' ==> 'a' <= lower(c) <= 'z' && lower(c) as int - 'a' as int == c as int
            - 'A' as int,
        !('A' <= c <= 'Z') ==> lower(c) == c,
        'a' <= c <= 'z' ==> 'A' <= upper(c) <= 'Z' && upper(c) as int - 'A' as int == c as int
            - 'a' as int,
        !('a' <= c <= 'z') ==> upper(c) == c,
{
}

/// Two texts are the same but for case exactly if their upper-case forms are the
/// same, character by character.
pub proof fn folding_compares_upper_case(a: Seq<char>, b: Seq<char>)
    ensures
        same_folded(a, b) <==> a.map_values(|c: char| upper(c)) == b.map_values(
            |c: char| upper(c),
        ),
{
    let x = a.map_values(|c: char| upper(c));
    let y = b.map_values(|c: char| upper(c));
    if same_folded(a, b) {
        assert forall|i: int| 0 <= i < x.len() implies x[i] == y[i] by {
            assert(lower(a[i]) == lower(b[i]));
        }
        assert(x =~= y);
    }
    if x == y {
        assert(x.len() == y.len());
        assert forall|i: int| 0 <= i < a.len() implies lower(#[trigger] a[i]) == lower(b[i]) by {
            assert(x[i] == y[i]);
            lower_folds_case(a[i]);
            lower_folds_case(b[i]);
        }
    }
}

/// The number that a row of digits stands for.
pub open spec fn digits_value(s: Seq<char>) -> int
    decreases s.len(),
{
    if s.len() == 0 {
        0
    } else {
        10 * digits_value(s.drop_last()) + (s.last() as int - '0' as int)
    }
}

/// A number in decimal notation is digits that stand for it, with a dash in front
/// where it is negative, and without needless zeros.
pub proof fn decimals_stand_for_their_number(n: int)
    ensures
        n >= 0 ==> digits_value(decimal(n)) == n && forall|i: int|
            0 <= i < decimal(n).len() ==> '0' <= #[trigger] decimal(n)[i] <= '9',
        n > 0 ==> decimal(n)[0] != '0',
        n == 0 ==> decimal(n).len() == 1,
        n < 0 ==> decimal(n) == seq!['-'] + decimal(-n),
{
    if n >= 0 {
        lemma_digits(n as nat);
        lemma_digits_value(n as nat);
    }
}

proof fn lemma_digits_value(n: nat)
    ensures
        digits_value(digits(n)) == n,
        n > 0 ==> digits(n)[0] != '0',
    decreases n,
{
    if n < 10 {
        assert(digits(n).drop_last() =~= seq![]);
        assert(digits_value(digits(n).drop_last()) == 0);
        assert(digits(n).last() as int == '0' as int + n);
    } else {
        lemma_digits(n / 10);
        lemma_digits_value(n / 10);
        assert(digits(n).drop_last() =~= digits(n / 10));
        assert(digits(n).last() as int == '0' as int + n % 10);
        assert(digits(n)[0] == digits(n / 10)[0]);
    }
}

} // verus!
