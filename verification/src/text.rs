use vstd::prelude::*;

verus! {

/// Relies on String::push: appends exactly the given character.
#[verifier::external_body]
pub(crate) fn push_char(s: &mut String, c: char)
    ensures
        final(s)@ == old(s)@.push(c),
{
    s.push(c);
}

/// Relies on String::pop: removes and returns the last character of a
/// non-empty string, and returns nothing on an empty string.
#[verifier::external_body]
pub(crate) fn pop_char(s: &mut String) -> (r: Option<char>)
    ensures
        old(s)@.len() == 0 ==> final(s)@ == old(s)@ && r is None,
        old(s)@.len() > 0 ==> final(s)@ == old(s)@.drop_last() && r == Some(old(s)@.last()),
{
    s.pop()
}

/// The character for one decimal digit.
pub open spec fn decimal_digit(d: nat) -> char {
    if d == 0 {
        '0'
    } else if d == 1 {
        '1'
    } else if d == 2 {
        '2'
    } else if d == 3 {
        '3'
    } else if d == 4 {
        '4'
    } else if d == 5 {
        '5'
    } else if d == 6 {
        '6'
    } else if d == 7 {
        '7'
    } else if d == 8 {
        '8'
    } else {
        '9'
    }
}

/// The decimal notation of a number: most significant digit first, no
/// leading zero except for the number zero itself.
pub open spec fn decimal_of(n: nat) -> Seq<char>
    decreases n,
{
    if n < 10 {
        seq![decimal_digit(n)]
    } else {
        decimal_of(n / 10).push(decimal_digit(n % 10))
    }
}

fn digit_char(d: u64) -> (c: char)
    requires
        d < 10,
    ensures
        c == decimal_digit(d as nat),
{
    match d {
        0 => '0',
        1 => '1',
        2 => '2',
        3 => '3',
        4 => '4',
        5 => '5',
        6 => '6',
        7 => '7',
        8 => '8',
        _ => '9',
    }
}

/// Appends the decimal notation of `n`.
pub fn push_decimal(s: &mut String, n: u64)
    ensures
        final(s)@ == old(s)@ + decimal_of(n as nat),
    decreases n,
{
    if n >= 10 {
        push_decimal(s, n / 10);
    }
    let d = digit_char(n % 10);
    push_char(s, d);
    proof {
        assert(s@ =~= old(s)@ + decimal_of(n as nat));
    }
}

/// Whether a character separates words: the characters with the Unicode
/// White_Space property.
pub open spec fn is_space_char(c: char) -> bool {
    ||| c == ' '
    ||| c == '\t'
    ||| c == '\n'
    ||| c == '\u{000B}'
    ||| c == '\u{000C}'
    ||| c == '\r'
    ||| c == '\u{0085}'
    ||| c == '\u{00A0}'
    ||| c == '\u{1680}'
    ||| ('\u{2000}' as int <= c as int && c as int <= '\u{200A}' as int)
    ||| c == '\u{2028}'
    ||| c == '\u{2029}'
    ||| c == '\u{202F}'
    ||| c == '\u{205F}'
    ||| c == '\u{3000}'
}

/// Whether a word begins at position `i` of `s`: a non-separator character
/// at the start of the text or right after a separator.
pub open spec fn word_start(s: Seq<char>, i: int) -> bool {
    !is_space_char(s[i]) && (i == 0 || is_space_char(s[i - 1]))
}

/// The number of words beginning among the first `n` characters of `s`.
pub open spec fn word_count_upto(s: Seq<char>, n: int) -> nat
    decreases n,
{
    if n <= 0 {
        0
    } else {
        word_count_upto(s, n - 1) + (if word_start(s, n - 1) {
            1nat
        } else {
            0nat
        })
    }
}

/// The number of whitespace-delimited words of `s`.
pub open spec fn word_count(s: Seq<char>) -> nat {
    word_count_upto(s, s.len() as int)
}

fn is_space(c: char) -> (r: bool)
    ensures
        r == is_space_char(c),
{
    let u = c as u32;
    c == ' ' || c == '\t' || c == '\n' || c == '\u{000B}' || c == '\u{000C}' || c == '\r' || c
        == '\u{0085}' || c == '\u{00A0}' || c == '\u{1680}' || (0x2000 <= u && u <= 0x200A) || c
        == '\u{2028}' || c == '\u{2029}' || c == '\u{202F}' || c == '\u{205F}' || c == '\u{3000}'
}

/// Counts the whitespace-delimited words of a text.
pub fn words_count_of(content: &str) -> (r: u32)
    requires
        content@.len() <= u32::MAX,
    ensures
        r == word_count(content@),
{
    let n = content.unicode_len();
    let mut count: u32 = 0;
    let mut prev_space = true;
    let mut i: usize = 0;
    while i < n
        invariant
            n == content@.len(),
            n <= u32::MAX,
            i <= n,
            count == word_count_upto(content@, i as int),
            count <= i,
            prev_space == (i == 0 || is_space_char(content@[i as int - 1])),
        decreases n - i,
    {
        let c = content.get_char(i);
        if !is_space(c) && prev_space {
            count = count + 1;
        }
        prev_space = is_space(c);
        i = i + 1;
    }
    count
}

/// The pieces of `s` between occurrences of the separator, in order: one
/// piece more than there are separators, empty pieces kept.
pub open spec fn split_on(s: Seq<char>, sep: char) -> Seq<Seq<char>>
    decreases s.len(),
{
    if s.len() == 0 {
        seq![Seq::empty()]
    } else if s.first() == sep {
        seq![Seq::<char>::empty()] + split_on(s.drop_first(), sep)
    } else {
        seq![seq![s.first()] + split_on(s.drop_first(), sep).first()] + split_on(
            s.drop_first(),
            sep,
        ).drop_first()
    }
}

proof fn lemma_split_on_len(s: Seq<char>, sep: char)
    ensures
        split_on(s, sep).len() >= 1,
    decreases s.len(),
{
    if s.len() > 0 {
        lemma_split_on_len(s.drop_first(), sep);
    }
}

proof fn lemma_split_on_no_sep(s: Seq<char>, sep: char)
    requires
        forall|i: int| 0 <= i < s.len() ==> s[i] != sep,
    ensures
        split_on(s, sep) =~~= seq![s],
    decreases s.len(),
{
    if s.len() > 0 {
        lemma_split_on_no_sep(s.drop_first(), sep);
        lemma_split_on_len(s.drop_first(), sep);
        assert(seq![s.first()] + s.drop_first() =~= s);
    }
}

proof fn lemma_split_on_first_sep(s: Seq<char>, sep: char, p: int)
    requires
        0 <= p < s.len(),
        s[p] == sep,
        forall|i: int| 0 <= i < p ==> s[i] != sep,
    ensures
        split_on(s, sep) =~~= seq![s.take(p)] + split_on(s.skip(p + 1), sep),
    decreases p,
{
    lemma_split_on_len(s.drop_first(), sep);
    if p == 0 {
        assert(s.drop_first() =~= s.skip(1));
        assert(s.take(0) =~= Seq::<char>::empty());
    } else {
        lemma_split_on_first_sep(s.drop_first(), sep, p - 1);
        assert(seq![s.first()] + s.drop_first().take(p - 1) =~= s.take(p));
        assert(s.drop_first().skip(p) =~= s.skip(p + 1));
    }
}

fn find_sep(s: &str, sep: char) -> (r: Option<usize>)
    ensures
        match r {
            Some(p) => p < s@.len() && s@[p as int] == sep && forall|i: int|
                0 <= i < p ==> s@[i] != sep,
            None => forall|i: int| 0 <= i < s@.len() ==> s@[i] != sep,
        },
{
    let n = s.unicode_len();
    let mut i: usize = 0;
    while i < n
        invariant
            n == s@.len(),
            i <= n,
            forall|j: int| 0 <= j < i ==> s@[j] != sep,
        decreases n - i,
    {
        if s.get_char(i) == sep {
            return Some(i);
        }
        i = i + 1;
    }
    None
}

/// Splits a text on the separator; empty pieces are kept, so the result has
/// one piece more than the text has separators.
pub fn split_char(s: &str, sep: char) -> (r: Vec<String>)
    ensures
        r@.map_values(|p: String| p@) == split_on(s@, sep),
    decreases s@.len(),
{
    match find_sep(s, sep) {
        None => {
            proof {
                lemma_split_on_no_sep(s@, sep);
            }
            let mut v: Vec<String> = Vec::new();
            v.push(s.to_owned());
            proof {
                assert(v@.map_values(|p: String| p@) =~~= split_on(s@, sep));
            }
            v
        },
        Some(p) => {
            let n = s.unicode_len();
            let head = s.substring_char(0, p).to_owned();
            let rest = s.substring_char(p + 1, n);
            let mut v = split_char(rest, sep);
            v.insert(0, head);
            proof {
                lemma_split_on_first_sep(s@, sep, p as int);
                assert(head@ =~= s@.take(p as int));
                assert(v@.map_values(|p: String| p@) =~~= split_on(s@, sep));
            }
            v
        },
    }
}

} // verus!
