//! Names for widgets that were given none: lower-cased fragments joined by
//! underscores, closed by the value of a counter that only ever grows.
//! Whatever the fragments hold, a made name is an identifier.

use vstd::prelude::*;
use vstd::string::StringExecFns;
use crate::ident::{
    all_ident_chars, fragment_text, is_ident, is_ident_char, lemma_plain_chars,
    lemma_plain_keeps_identifiers, lowercase, push_fragment,
};
use crate::text::{
    all_digits, decimal, decimal_value, is_digit, lemma_decimal_digits, lemma_decimal_value,
    lemma_trailing_digits, strs, trailing_digits,
};

verus! {

/// The numeral that follows `s` in counting, for a run of digits `s`: the
/// trailing nines turn to zeros and the digit before them goes up by one.
pub open spec fn succ(s: Seq<char>) -> Seq<char>
    decreases s.len(),
{
    if s.len() == 0 {
        seq!['1']
    } else if s.last() != '9' {
        s.drop_last().push(((s.last() as nat) + 1) as char)
    } else {
        succ(s.drop_last()).push('0')
    }
}

/// Counting on from the numeral of `n` gives the numeral of `n + 1`.
pub proof fn lemma_succ_decimal(n: nat)
    ensures
        succ(decimal(n)) == decimal(n + 1),
    decreases n,
{
    let s = decimal(n);
    if n < 10 {
        assert(s.drop_last() =~= Seq::<char>::empty());
        if n == 9 {
            assert(s.last() == '9');
            assert(succ(Seq::<char>::empty()) =~= seq!['1']);
            assert(succ(s) == succ(s.drop_last()).push('0'));
            assert(decimal(1) =~= seq!['1']);
            assert(decimal(10) =~= decimal(1).push('0'));
        } else {
            assert(succ(s) =~= decimal(n + 1));
        }
    } else {
        assert(s.drop_last() =~= decimal(n / 10));
        if n % 10 == 9 {
            lemma_succ_decimal(n / 10);
            assert((n + 1) / 10 == n / 10 + 1);
        } else {
            assert((n + 1) / 10 == n / 10);
            assert(succ(s) =~= decimal(n + 1));
        }
    }
}

/// The fragments, each behind an underscore and each as it goes into a
/// made name: lower-cased, with an underscore in place of every character
/// that no identifier holds.
pub open spec fn joined(fragments: Seq<Seq<char>>) -> Seq<char>
    decreases fragments.len(),
{
    if fragments.len() == 0 {
        Seq::empty()
    } else {
        joined(fragments.drop_last()) + seq!['_'] + fragment_text(fragments.last())
    }
}

/// The fragments, each behind an underscore and lower-cased, with nothing
/// replaced.
pub open spec fn joined_lowercase(fragments: Seq<Seq<char>>) -> Seq<char>
    decreases fragments.len(),
{
    if fragments.len() == 0 {
        Seq::empty()
    } else {
        joined_lowercase(fragments.drop_last()) + seq!['_'] + lowercase(fragments.last())
    }
}

/// The name made of `fragments` and the counter value `n`: an underscore
/// and the fragment for each fragment, then an underscore and the decimal
/// numeral of `n`.
pub open spec fn snake_name(fragments: Seq<Seq<char>>, n: nat) -> Seq<char> {
    joined(fragments) + seq!['_'] + decimal(n)
}

/// The number that the digits at the end of `name` denote.
pub open spec fn counter_of(name: Seq<char>) -> nat {
    decimal_value(trailing_digits(name))
}

/// A made name carries its counter value at its end, whatever the
/// fragments hold.
pub proof fn lemma_counter_of_snake_name(fragments: Seq<Seq<char>>, n: nat)
    ensures
        counter_of(snake_name(fragments, n)) == n,
{
    let prefix = joined(fragments) + seq!['_'];
    lemma_decimal_digits(n);
    assert(prefix.last() == '_');
    lemma_trailing_digits(prefix, decimal(n));
    lemma_decimal_value(n);
}

/// Names made with different counter values differ, even where the
/// fragments are the same or run into one another.
pub proof fn lemma_snake_names_distinct(
    f1: Seq<Seq<char>>,
    n1: nat,
    f2: Seq<Seq<char>>,
    n2: nat,
)
    requires
        n1 != n2,
    ensures
        snake_name(f1, n1) != snake_name(f2, n2),
{
    lemma_counter_of_snake_name(f1, n1);
    lemma_counter_of_snake_name(f2, n2);
}

/// Joined fragments hold characters that may stand in an identifier and,
/// where there are any, begin with an underscore, whatever the fragments
/// hold.
pub proof fn lemma_joined_ident_chars(fragments: Seq<Seq<char>>)
    ensures
        all_ident_chars(joined(fragments)),
        fragments.len() > 0 ==> joined(fragments).len() > 0 && joined(fragments)[0] == '_',
    decreases fragments.len(),
{
    if fragments.len() > 0 {
        let front = fragments.drop_last();
        let last = fragment_text(fragments.last());
        lemma_joined_ident_chars(front);
        lemma_plain_chars(lowercase(fragments.last()));
        let j = joined(fragments);
        assert forall|i: int| 0 <= i < j.len() implies is_ident_char(#[trigger] j[i]) by {
            if i < joined(front).len() {
                assert(is_ident_char(joined(front)[i]));
            } else if i > joined(front).len() {
                assert(is_ident_char(last[i - joined(front).len() - 1]));
            }
        }
    }
}

/// A made name has the shape of an identifier and starts with an
/// underscore, whatever the fragments hold, whatever their case, and
/// whatever the counter value.
pub proof fn lemma_snake_name_is_ident(fragments: Seq<Seq<char>>, n: nat)
    ensures
        is_ident(snake_name(fragments, n)),
        snake_name(fragments, n).len() >= 2,
        snake_name(fragments, n)[0] == '_',
{
    lemma_joined_ident_chars(fragments);
    lemma_decimal_digits(n);
    let j = joined(fragments);
    let s = snake_name(fragments, n);
    assert forall|i: int| 0 <= i < s.len() implies is_ident_char(#[trigger] s[i]) by {
        if i < j.len() {
            assert(is_ident_char(j[i]));
        } else if i > j.len() {
            assert(is_digit(decimal(n)[i - j.len() - 1]));
        }
    }
    assert(s[0] == '_');
    assert(s.len() >= 2);
}

/// Where the lower-case form of every fragment is made of characters that
/// may stand in an identifier, as it is for the fragments that are
/// identifiers themselves, nothing is replaced: the made name is the
/// fragments, lower-cased and each behind an underscore, and then an
/// underscore and the numeral of the counter value.
pub proof fn lemma_snake_name_of_identifiers(fragments: Seq<Seq<char>>, n: nat)
    requires
        forall|i: int|
            0 <= i < fragments.len() ==> all_ident_chars(lowercase(#[trigger] fragments[i])),
    ensures
        joined(fragments) == joined_lowercase(fragments),
        snake_name(fragments, n) == joined_lowercase(fragments) + seq!['_'] + decimal(n),
    decreases fragments.len(),
{
    if fragments.len() > 0 {
        let front = fragments.drop_last();
        assert forall|i: int| 0 <= i < front.len() implies all_ident_chars(
            lowercase(#[trigger] front[i]),
        ) by {
            assert(front[i] == fragments[i]);
        }
        lemma_snake_name_of_identifiers(front, n);
        assert(all_ident_chars(lowercase(fragments[fragments.len() - 1])));
        lemma_plain_keeps_identifiers(lowercase(fragments.last()));
    }
}

/// A counter without an upper end: it holds the decimal numeral of the
/// next value, so counting on never wraps around.
pub struct NameGen {
    digits: Vec<char>,
    count: Ghost<nat>,
}

impl NameGen {
    #[verifier::type_invariant]
    spec fn numeral_of_count(&self) -> bool {
        self.digits@ == decimal(self.count@)
    }

    /// The next counter value.
    pub closed spec fn value(&self) -> nat {
        self.count@
    }

    /// A counter that starts at zero.
    pub fn new() -> (r: Self)
        ensures
            r.value() == 0,
    {
        let mut digits: Vec<char> = Vec::new();
        digits.push('0');
        assert(digits@ =~= decimal(0));
        NameGen { digits, count: Ghost(0) }
    }

    /// Hands out the numeral of the next counter value and counts on.
    pub fn fresh(&mut self) -> (numeral: String)
        ensures
            numeral@ == decimal(old(self).value()),
            final(self).value() == old(self).value() + 1,
    {
        proof {
            use_type_invariant(&*self);
            lemma_decimal_digits(self.count@);
            lemma_succ_decimal(self.count@);
        }
        let numeral = text_of(&self.digits);
        let next = successor(&self.digits);
        *self = NameGen { digits: next, count: Ghost((self.count@ + 1) as nat) };
        numeral
    }
}

/// The text that holds the characters of `chars`.
fn text_of(chars: &Vec<char>) -> (text: String)
    ensures
        text@ == chars@,
{
    let mut text = String::new();
    let mut i: usize = 0;
    while i < chars.len()
        invariant
            i <= chars.len(),
            text@ == chars@.take(i as int),
        decreases chars.len() - i,
    {
        text.push(chars[i]);
        assert(chars@.take(i + 1) =~= chars@.take(i as int).push(chars@[i as int]));
        i = i + 1;
    }
    assert(chars@.take(chars.len() as int) =~= chars@);
    text
}

/// Computes [`succ`].
fn successor(digits: &Vec<char>) -> (next: Vec<char>)
    requires
        all_digits(digits@),
    ensures
        next@ == succ(digits@),
{
    let len: usize = digits.len();
    let mut keep: usize = len;
    while keep > 0 && digits[keep - 1] == '9'
        invariant
            keep <= len,
            len == digits.len(),
            forall|j: int| keep <= j < len ==> digits@[j] == '9',
        decreases keep,
    {
        keep = keep - 1;
    }
    let mut next: Vec<char> = Vec::new();
    if keep == 0 {
        next.push('1');
        assert(digits@.take(0) =~= Seq::<char>::empty());
        assert(next@ =~= succ(digits@.take(0)));
    } else {
        let mut j: usize = 0;
        while j < keep - 1
            invariant
                j <= keep - 1,
                keep <= len,
                len == digits.len(),
                next@ == digits@.take(j as int),
            decreases keep - j,
        {
            next.push(digits[j]);
            assert(digits@.take(j + 1) =~= digits@.take(j as int).push(digits@[j as int]));
            j = j + 1;
        }
        let last: char = digits[keep - 1];
        assert(is_digit(digits@[keep - 1]));
        let b: u8 = last as u8;
        next.push((b + 1) as char);
        assert(digits@.take(keep as int).drop_last() =~= digits@.take(keep - 1));
        assert(digits@.take(keep as int).last() == last);
    }
    let mut z: usize = keep;
    while z < len
        invariant
            keep <= z <= len,
            len == digits.len(),
            forall|j: int| keep <= j < len ==> digits@[j] == '9',
            next@ == succ(digits@.take(z as int)),
        decreases len - z,
    {
        next.push('0');
        assert(digits@.take(z + 1).drop_last() =~= digits@.take(z as int));
        assert(digits@.take(z + 1).last() == '9');
        z = z + 1;
    }
    assert(digits@.take(len as int) =~= digits@);
    next
}

/// Makes a name of `idents` and the next counter value, and counts on.
///
/// Every fragment is lower-cased, letters beyond ASCII too, and goes into
/// the name behind an underscore. The name is an identifier whatever the
/// fragments hold: a character that no identifier holds, such as the `#`
/// of a raw identifier, a space or a punctuation mark, gives way to an
/// underscore. The name ends in the counter value, so no two names made
/// with one counter are the same.
pub fn idents_to_snake_case(idents: &Vec<String>, names: &mut NameGen) -> (name: String)
    ensures
        name@ == snake_name(strs(idents@), old(names).value()),
        is_ident(name@),
        name@[0] == '_',
        counter_of(name@) == old(names).value(),
        final(names).value() == old(names).value() + 1,
{
    proof {
        lemma_snake_name_is_ident(strs(idents@), names.value());
        lemma_counter_of_snake_name(strs(idents@), names.value());
    }
    let mut name = String::new();
    let mut i: usize = 0;
    while i < idents.len()
        invariant
            i <= idents.len(),
            name@ == joined(strs(idents@).take(i as int)),
        decreases idents.len() - i,
    {
        name.push('_');
        push_fragment(&mut name, idents[i].as_str());
        proof {
            let upto = strs(idents@).take(i + 1);
            assert(upto.drop_last() =~= strs(idents@).take(i as int));
            assert(upto.last() == idents@[i as int]@);
        }
        i = i + 1;
    }
    assert(strs(idents@).take(idents.len() as int) =~= strs(idents@));
    name.push('_');
    let numeral = names.fresh();
    name.append(numeral.as_str());
    name
}

} // verus!
