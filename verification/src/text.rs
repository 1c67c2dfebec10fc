//! Text as sequences of characters: numbers, ASCII case, words.

use vstd::prelude::*;

verus! {

/// Appends one character to a string.
///
/// Claims of `String::push` what its documentation says: the character is
/// appended to the end of the string.
pub assume_specification[ String::push ](s: &mut String, ch: char)
    ensures
        final(s)@ == old(s)@.push(ch),
;

/// Whether two strings hold the same characters.
///
/// Claims of the equality of `str` that it holds exactly when both sides are
/// the same sequence of characters.
#[verifier::external_body]
pub(crate) fn same_text(a: &str, b: &str) -> (r: bool)
    ensures
        r == (a@ == b@),
{
    a == b
}

// ---------------------------------------------------------------------------
// Sequences of strings
// ---------------------------------------------------------------------------
/// The texts that a sequence of strings holds.
pub open spec fn texts(strings: Seq<String>) -> Seq<Seq<char>> {
    strings.map_values(|s: String| s@)
}

/// An exact copy of a list of strings.
pub fn copy_texts(strings: &Vec<String>) -> (r: Vec<String>)
    ensures
        texts(r@) == texts(strings@),
        r@.len() == strings@.len(),
{
    let mut out: Vec<String> = Vec::new();
    let mut i: usize = 0;
    while i < strings.len()
        invariant
            i <= strings.len(),
            out@.len() == i,
            forall|j: int| 0 <= j < i ==> (#[trigger] out@[j])@ == strings@[j]@,
        decreases strings.len() - i,
    {
        out.push(strings[i].as_str().to_owned());
        i += 1;
    }
    assert(texts(out@) =~= texts(strings@));
    out
}

/// Whether a list of strings holds a text.
pub fn holds_text(strings: &Vec<String>, wanted: &str) -> (r: bool)
    ensures
        r == texts(strings@).contains(wanted@),
{
    let mut i: usize = 0;
    while i < strings.len()
        invariant
            i <= strings.len(),
            forall|j: int| 0 <= j < i ==> (#[trigger] strings@[j])@ != wanted@,
        decreases strings.len() - i,
    {
        if same_text(strings[i].as_str(), wanted) {
            assert(texts(strings@)[i as int] == wanted@);
            return true;
        }
        i += 1;
    }
    assert forall|j: int| 0 <= j < texts(strings@).len() implies texts(strings@)[j] != wanted@ by {
        assert(texts(strings@)[j] == strings@[j]@);
    }
    false
}

/// The texts one after the other, with a separator between neighbours.
pub open spec fn joined(parts: Seq<Seq<char>>, separator: Seq<char>) -> Seq<char>
    decreases parts.len(),
{
    if parts.len() == 0 {
        Seq::empty()
    } else if parts.len() == 1 {
        parts[0]
    } else {
        joined(parts.drop_last(), separator) + separator + parts.last()
    }
}

/// Joins a list of strings.
pub fn join_texts(parts: &Vec<String>, separator: &str) -> (r: String)
    ensures
        r@ == joined(texts(parts@), separator@),
{
    let mut out = String::new();
    let mut i: usize = 0;
    while i < parts.len()
        invariant
            i <= parts.len(),
            out@ == joined(texts(parts@).take(i as int), separator@),
        decreases parts.len() - i,
    {
        let ghost before = texts(parts@).take(i as int);
        let ghost after = texts(parts@).take(i + 1);
        if i > 0 {
            out.append(separator);
        }
        out.append(parts[i].as_str());
        proof {
            assert(after.drop_last() =~= before);
            assert(after.last() == parts@[i as int]@);
            if i == 0 {
                assert(before =~= Seq::<Seq<char>>::empty());
                assert(Seq::<char>::empty() + parts@[0]@ =~= parts@[0]@);
            }
        }
        i += 1;
    }
    assert(texts(parts@).take(parts@.len() as int) =~= texts(parts@));
    out
}

/// How a text is shown between quotation marks, with what would not show
/// written out.
pub uninterp spec fn shown(text: Seq<char>) -> Seq<char>;

/// A text between quotation marks, for an error.
///
/// Stands for the `Debug` of a string. What it writes is a function of the
/// text, and is called [`shown`]; which characters it writes out, and how, is
/// not stated.
#[verifier::external_body]
pub(crate) fn show_text(text: &str) -> (r: String)
    ensures
        r@ == shown(text@),
{
    format!("{text:?}")
}

/// How a list of texts is shown: each of them between quotation marks, and the
/// whole between brackets.
pub open spec fn listed(names: Seq<Seq<char>>) -> Seq<char> {
    "["@ + joined(names.map_values(|name: Seq<char>| shown(name)), ", "@) + "]"@
}

/// A list of texts, for an error.
pub fn list_texts(names: &Vec<String>) -> (r: String)
    ensures
        r@ == listed(texts(names@)),
{
    let mut parts: Vec<String> = Vec::new();
    let mut i: usize = 0;
    while i < names.len()
        invariant
            i <= names.len(),
            parts@.len() == i,
            forall|j: int| 0 <= j < i ==> (#[trigger] parts@[j])@ == shown(names@[j]@),
        decreases names.len() - i,
    {
        parts.push(show_text(names[i].as_str()));
        i += 1;
    }
    assert(texts(parts@) =~= texts(names@).map_values(|name: Seq<char>| shown(name)));
    let mut out = "[".to_owned();
    out.append(join_texts(&parts, ", ").as_str());
    out.append("]");
    out
}

// ---------------------------------------------------------------------------
// Decimal numbers
// ---------------------------------------------------------------------------
/// The character of one decimal digit.
pub open spec fn digit(d: int) -> char {
    if d == 0 {
        '0'
    } else if d == 1 {
        '1'
    } else if d == 2 {
        '2'
    } else if d == 3 {
        '3'
    } else if d == 4 {
        '4'
    } else if d == 5 {
        '5'
    } else if d == 6 {
        '6'
    } else if d == 7 {
        '7'
    } else if d == 8 {
        '8'
    } else {
        '9'
    }
}

/// The decimal digits of a number, without leading zeros.
pub open spec fn decimal(n: int) -> Seq<char>
    decreases n,
{
    if n < 10 {
        seq![digit(n)]
    } else {
        decimal(n / 10).push(digit(n % 10))
    }
}

fn push_decimal(out: &mut String, n: u64)
    ensures
        final(out)@ == old(out)@ + decimal(n as int),
    decreases n,
{
    if n >= 10 {
        push_decimal(out, n / 10);
    }
    let d: u64 = n % 10;
    let c: char = if d == 0 {
        '0'
    } else if d == 1 {
        '1'
    } else if d == 2 {
        '2'
    } else if d == 3 {
        '3'
    } else if d == 4 {
        '4'
    } else if d == 5 {
        '5'
    } else if d == 6 {
        '6'
    } else if d == 7 {
        '7'
    } else if d == 8 {
        '8'
    } else {
        '9'
    };
    out.push(c);
}

/// The number written out in decimal.
pub fn decimal_text(n: u64) -> (r: String)
    ensures
        r@ == decimal(n as int),
{
    let mut out = String::new();
    push_decimal(&mut out, n);
    assert(Seq::<char>::empty() + decimal(n as int) =~= decimal(n as int));
    out
}

// ---------------------------------------------------------------------------
// Characters
// ---------------------------------------------------------------------------
/// Whether a character is a control code: the general category `Cc` of
/// Unicode, which is the C0 block, delete, and the C1 block.
pub open spec fn is_control_char(c: char) -> bool {
    ||| c as u32 <= 0x1f
    ||| 0x7f <= c as u32 <= 0x9f
}

/// Whether a character has the Unicode property `White_Space`.
pub open spec fn is_white_space(c: char) -> bool {
    let n = c as u32;
    ||| 0x09 <= n <= 0x0d
    ||| n == 0x20
    ||| n == 0x85
    ||| n == 0xa0
    ||| n == 0x1680
    ||| 0x2000 <= n <= 0x200a
    ||| n == 0x2028
    ||| n == 0x2029
    ||| n == 0x202f
    ||| n == 0x205f
    ||| n == 0x3000
}

/// Whether a character is a control code.
pub fn control_char(c: char) -> (r: bool)
    ensures
        r == is_control_char(c),
{
    let n: u32 = c as u32;
    n <= 0x1f || (0x7f <= n && n <= 0x9f)
}

/// Whether a character is white space.
pub fn white_space(c: char) -> (r: bool)
    ensures
        r == is_white_space(c),
{
    let n: u32 = c as u32;
    (0x09 <= n && n <= 0x0d) || n == 0x20 || n == 0x85 || n == 0xa0 || n == 0x1680 || (0x2000 <= n
        && n <= 0x200a) || n == 0x2028 || n == 0x2029 || n == 0x202f || n == 0x205f || n == 0x3000
}

/// The lower case form of an ASCII letter; every other character as it is.
pub open spec fn ascii_lower(c: char) -> char {
    if 0x41 <= c as u32 <= 0x5a {
        ((c as u32) + 0x20) as char
    } else {
        c
    }
}

/// A text with every ASCII letter in lower case.
pub open spec fn ascii_lowered(s: Seq<char>) -> Seq<char> {
    s.map_values(|c: char| ascii_lower(c))
}

fn to_lower(c: char) -> (r: char)
    ensures
        r == ascii_lower(c),
{
    let n: u32 = c as u32;
    if 0x41 <= n && n <= 0x5a {
        let m: u8 = (n as u8) + 0x20;
        m as char
    } else {
        c
    }
}

/// The characters of a string, one by one.
pub fn chars_of(s: &str) -> (r: Vec<char>)
    ensures
        r@ == s@,
{
    let mut out: Vec<char> = Vec::new();
    for c in it: s.chars()
        invariant
            out@ == it.seq().take(it.index()),
            it.seq() == s@,
    {
        out.push(c);
        assert(it.seq().take(it.index() + 1) == it.seq().take(it.index()).push(c));
    }
    assert(s@.take(s@.len() as int) == s@);
    out
}

/// Whether two texts are the same but for the case of ASCII letters.
pub fn same_ignoring_case(a: &str, b: &str) -> (r: bool)
    ensures
        r == (ascii_lowered(a@) == ascii_lowered(b@)),
{
    let left = chars_of(a);
    let right = chars_of(b);
    if left.len() != right.len() {
        assert(ascii_lowered(a@).len() != ascii_lowered(b@).len());
        return false;
    }
    let mut i: usize = 0;
    while i < left.len()
        invariant
            i <= left.len(),
            left@ == a@,
            right@ == b@,
            left@.len() == right@.len(),
            forall|j: int| 0 <= j < i ==> #[trigger] ascii_lower(left@[j]) == ascii_lower(right@[j]),
        decreases left.len() - i,
    {
        if to_lower(left[i]) != to_lower(right[i]) {
            assert(ascii_lowered(a@)[i as int] != ascii_lowered(b@)[i as int]);
            return false;
        }
        i += 1;
    }
    assert(ascii_lowered(a@) =~= ascii_lowered(b@)) by {
        assert forall|j: int| 0 <= j < left@.len() implies ascii_lowered(a@)[j] == ascii_lowered(b@)[j] by {
            assert(ascii_lower(left@[j]) == ascii_lower(right@[j]));
        }
    }
    true
}

// ---------------------------------------------------------------------------
// Words
// ---------------------------------------------------------------------------
/// The words finished before the end of a text, and the word it ends in.
pub open spec fn split_words(s: Seq<char>) -> (Seq<Seq<char>>, Seq<char>)
    decreases s.len(),
{
    if s.len() == 0 {
        (Seq::empty(), Seq::empty())
    } else {
        let (done, current) = split_words(s.drop_last());
        if !is_white_space(s.last()) {
            (done, current.push(s.last()))
        } else if current.len() > 0 {
            (done.push(current), Seq::empty())
        } else {
            (done, current)
        }
    }
}

/// The words of a text: its longest runs without white space, in order.
pub open spec fn words(s: Seq<char>) -> Seq<Seq<char>> {
    let (done, current) = split_words(s);
    if current.len() > 0 {
        done.push(current)
    } else {
        done
    }
}

/// The contents of a list of character lists.
pub open spec fn runs(list: Seq<Vec<char>>) -> Seq<Seq<char>> {
    list.map_values(|w: Vec<char>| w@)
}

/// The words of a text.
pub fn words_of(s: &Vec<char>) -> (r: Vec<Vec<char>>)
    ensures
        runs(r@) == words(s@),
{
    let mut done: Vec<Vec<char>> = Vec::new();
    let mut current: Vec<char> = Vec::new();
    let mut i: usize = 0;
    while i < s.len()
        invariant
            i <= s.len(),
            split_words(s@.take(i as int)) == (runs(done@), current@),
        decreases s.len() - i,
    {
        proof {
            assert(s@.take(i + 1).drop_last() =~= s@.take(i as int));
            assert(s@.take(i + 1).last() == s@[i as int]);
        }
        if !white_space(s[i]) {
            current.push(s[i]);
        } else if current.len() > 0 {
            let ghost finished = current@;
            let ghost before = done@;
            done.push(current);
            current = Vec::new();
            assert(runs(done@) =~= runs(before).push(finished));
            assert(current@ =~= Seq::<char>::empty());
        }
        i += 1;
    }
    assert(s@.take(s@.len() as int) =~= s@);
    if current.len() > 0 {
        let ghost finished = current@;
        let ghost before = done@;
        done.push(current);
        assert(runs(done@) =~= runs(before).push(finished));
    }
    done
}

/// Every word of a text is non-empty and free of white space, and every
/// character of a word is a character of the text.
pub proof fn words_are_words(s: Seq<char>)
    ensures
        forall|i: int| 0 <= i < words(s).len() ==> (#[trigger] words(s)[i]).len() > 0,
        forall|i: int, j: int|
            0 <= i < words(s).len() && 0 <= j < words(s)[i].len() ==> !is_white_space(
                #[trigger] words(s)[i][j],
            ) && s.contains(words(s)[i][j]),
{
    split_words_are_words(s);
}

proof fn split_words_are_words(s: Seq<char>)
    ensures
        forall|i: int| 0 <= i < split_words(s).0.len() ==> (#[trigger] split_words(s).0[i]).len() > 0,
        forall|i: int, j: int|
            0 <= i < split_words(s).0.len() && 0 <= j < split_words(s).0[i].len()
                ==> !is_white_space(#[trigger] split_words(s).0[i][j]) && s.contains(
                split_words(s).0[i][j],
            ),
        forall|j: int|
            0 <= j < split_words(s).1.len() ==> !is_white_space(#[trigger] split_words(s).1[j])
                && s.contains(split_words(s).1[j]),
    decreases s.len(),
{
    if s.len() > 0 {
        let init = s.drop_last();
        split_words_are_words(init);
        assert forall|c: char| init.contains(c) implies s.contains(c) by {
            let k = choose|k: int| 0 <= k < init.len() && init[k] == c;
            assert(s[k] == c);
        }
        assert(s.contains(s.last())) by {
            assert(s[s.len() - 1] == s.last());
        }
        let (done, current) = split_words(init);
        let (after, rest) = split_words(s);
        assert forall|i: int| 0 <= i < after.len() implies after[i].len() > 0 && forall|j: int|
            0 <= j < after[i].len() ==> !is_white_space(#[trigger] after[i][j]) && s.contains(
                after[i][j],
            ) by {
            if i < done.len() {
                assert(after[i] == done[i]);
            } else {
                assert(after[i] == current);
            }
        }
    }
}

/// A text without the white space at its end.
pub open spec fn trimmed_end(s: Seq<char>) -> Seq<char>
    decreases s.len(),
{
    if s.len() > 0 && is_white_space(s.last()) {
        trimmed_end(s.drop_last())
    } else {
        s
    }
}

/// Whether a text has no white space but single spaces, each of them behind
/// something else.
pub open spec fn is_single_spaced(s: Seq<char>) -> bool {
    forall|i: int|
        0 <= i < s.len() && is_white_space(#[trigger] s[i]) ==> s[i] == ' ' && i > 0
            && !is_white_space(s[i - 1])
}

/// A single-spaced text is its words with one space between them, but for a
/// space at its end.
pub proof fn single_spaced_text_is_its_words(s: Seq<char>)
    requires
        is_single_spaced(s),
    ensures
        joined(words(s), " "@) == trimmed_end(s),
{
    split_single_spaced(s);
    let (done, current) = split_words(s);
    if s.len() > 0 && current.len() == 0 {
        assert(!is_white_space(s[s.len() - 2]));
        assert(s.drop_last().last() == s[s.len() - 2]);
        assert(trimmed_end(s.drop_last()) == s.drop_last());
    }
}

proof fn split_single_spaced(s: Seq<char>)
    requires
        is_single_spaced(s),
    ensures
        ({
            let (done, current) = split_words(s);
            if s.len() == 0 {
                done.len() == 0 && current.len() == 0
            } else if is_white_space(s.last()) {
                s.len() > 1 && current.len() == 0 && done.len() > 0 && joined(done, " "@)
                    == s.drop_last()
            } else {
                current.len() > 0 && joined(done.push(current), " "@) == s
            }
        }),
    decreases s.len(),
{
    reveal_strlit(" ");
    if s.len() > 0 {
        let init = s.drop_last();
        assert forall|i: int| 0 <= i < init.len() && is_white_space(#[trigger] init[i]) implies init[i]
            == ' ' && i > 0 && !is_white_space(init[i - 1]) by {
            assert(init[i] == s[i]);
        }
        split_single_spaced(init);
        let (done, current) = split_words(init);
        let c = s[s.len() - 1];
        assert(s.last() == c);
        assert(s =~= init.push(c));
        if is_white_space(c) {
            assert(!is_white_space(s[s.len() - 2]));
            assert(init.last() == s[s.len() - 2]);
        } else {
            let after = done.push(current.push(c));
            assert(after.drop_last() =~= done);
            assert(after.last() == current.push(c));
            if current.len() > 0 {
                let before = done.push(current);
                assert(before.drop_last() =~= done);
                assert(before.last() == current);
                if done.len() == 0 {
                    assert(before[0] == current);
                    assert(after[0] == current.push(c));
                }
                assert(joined(after, " "@) =~= s);
            } else if init.len() == 0 {
                assert(after[0] == current.push(c));
                assert(joined(after, " "@) =~= s);
            } else {
                assert(is_white_space(init[init.len() - 1]));
                assert(init[init.len() - 1] == ' ');
                assert(init =~= init.drop_last() + " "@);
                assert(joined(after, " "@) =~= s);
            }
        }
    }
}

/// Words that are not empty and free of white space make a single-spaced text
/// when they are joined by spaces, and it ends in no space.
pub proof fn joined_words_are_single_spaced(parts: Seq<Seq<char>>)
    requires
        forall|i: int| 0 <= i < parts.len() ==> (#[trigger] parts[i]).len() > 0,
        forall|i: int, j: int|
            0 <= i < parts.len() && 0 <= j < parts[i].len() ==> !is_white_space(
                #[trigger] parts[i][j],
            ),
    ensures
        is_single_spaced(joined(parts, " "@)),
        parts.len() > 0 ==> joined(parts, " "@).len() > 0 && !is_white_space(
            joined(parts, " "@).last(),
        ),
    decreases parts.len(),
{
    reveal_strlit(" ");
    let whole = joined(parts, " "@);
    if parts.len() == 1 {
        assert(parts[0].len() > 0);
        assert forall|i: int| 0 <= i < whole.len() implies !is_white_space(#[trigger] whole[i]) by {
            assert(whole[i] == parts[0][i]);
        }
    } else if parts.len() > 1 {
        let init = parts.drop_last();
        let n = parts.len() - 1;
        assert forall|i: int| 0 <= i < init.len() implies (#[trigger] init[i]).len() > 0 by {
            assert(init[i] == parts[i]);
        }
        assert forall|i: int, j: int|
            0 <= i < init.len() && 0 <= j < init[i].len() implies !is_white_space(
            #[trigger] init[i][j],
        ) by {
            assert(init[i][j] == parts[i][j]);
        }
        joined_words_are_single_spaced(init);
        let left = joined(init, " "@);
        let last = parts.last();
        assert(last == parts[n] && last.len() > 0);
        assert(whole == left + " "@ + last);
        assert forall|i: int| 0 <= i < whole.len() && is_white_space(#[trigger] whole[i]) implies whole[i]
            == ' ' && i > 0 && !is_white_space(whole[i - 1]) by {
            if i < left.len() {
                assert(whole[i] == left[i]);
                assert(whole[i - 1] == left[i - 1]);
            } else if i == left.len() {
                assert(whole[i - 1] == left.last());
            } else {
                assert(whole[i] == parts[n][i - left.len() - 1]);
            }
        }
        assert(whole.last() == parts[n][last.len() - 1]);
    }
}

/// No word of a text is longer than its longest stretch without white space.
pub proof fn words_are_stretches(s: Seq<char>, longest: int)
    requires
        forall|i: int, j: int|
            0 <= i <= j <= s.len() && #[trigger] is_stretch(s, i, j) ==> j - i <= longest,
    ensures
        forall|i: int| 0 <= i < words(s).len() ==> (#[trigger] words(s)[i]).len() <= longest,
{
    split_words_are_stretches(s, longest);
}

/// Whether a stretch of a text holds no white space.
pub open spec fn is_stretch(s: Seq<char>, from: int, to: int) -> bool {
    forall|k: int| from <= k < to ==> !is_white_space(#[trigger] s[k])
}

proof fn split_words_are_stretches(s: Seq<char>, longest: int)
    requires
        forall|i: int, j: int|
            0 <= i <= j <= s.len() && #[trigger] is_stretch(s, i, j) ==> j - i <= longest,
    ensures
        ({
            let (done, current) = split_words(s);
            &&& current.len() <= s.len()
            &&& is_stretch(s, s.len() - current.len(), s.len() as int)
            &&& current.len() <= longest
            &&& forall|i: int| 0 <= i < done.len() ==> (#[trigger] done[i]).len() <= longest
        }),
    decreases s.len(),
{
    if s.len() > 0 {
        let init = s.drop_last();
        assert forall|i: int, j: int| 0 <= i <= j <= init.len() && #[trigger] is_stretch(
            init,
            i,
            j,
        ) implies j - i <= longest by {
            assert(is_stretch(s, i, j)) by {
                assert forall|k: int| i <= k < j implies !is_white_space(#[trigger] s[k]) by {
                    assert(s[k] == init[k]);
                }
            }
        }
        split_words_are_stretches(init, longest);
        let (done, current) = split_words(init);
        let (after, rest) = split_words(s);
        let from = s.len() - rest.len();
        assert(is_stretch(s, from, s.len() as int)) by {
            assert forall|k: int| from <= k < s.len() implies !is_white_space(#[trigger] s[k]) by {
                if k < init.len() {
                    assert(s[k] == init[k]);
                }
            }
        }
        assert forall|i: int| 0 <= i < after.len() implies (#[trigger] after[i]).len() <= longest by {
            if i < done.len() {
                assert(after[i] == done[i]);
            }
        }
    } else {
        assert(is_stretch(s, 0, 0));
    }
}

/// The texts of a sequence, one directly after the other.
pub open spec fn concatenated(parts: Seq<Seq<char>>) -> Seq<char>
    decreases parts.len(),
{
    if parts.len() == 0 {
        Seq::empty()
    } else {
        concatenated(parts.drop_last()) + parts.last()
    }
}

/// The words of a text hold every character that is not white space, in order
/// and once each.
pub proof fn words_keep_the_text(s: Seq<char>)
    ensures
        concatenated(words(s)) == s.filter(|c: char| !is_white_space(c)),
{
    split_words_keep_the_text(s);
    let (done, current) = split_words(s);
    if current.len() > 0 {
        assert(done.push(current).drop_last() =~= done);
    } else {
        assert(concatenated(done) + current =~= concatenated(done));
    }
}

proof fn split_words_keep_the_text(s: Seq<char>)
    ensures
        concatenated(split_words(s).0) + split_words(s).1 == s.filter(
            |c: char| !is_white_space(c),
        ),
    decreases s.len(),
{
    reveal(Seq::filter);
    if s.len() > 0 {
        let (done, current) = split_words(s.drop_last());
        split_words_keep_the_text(s.drop_last());
        if !is_white_space(s.last()) {
            assert(concatenated(done) + current.push(s.last()) =~= (concatenated(done) + current).push(
                s.last(),
            ));
        } else if current.len() > 0 {
            assert(done.push(current).drop_last() =~= done);
            assert(concatenated(done.push(current)) + Seq::<char>::empty() =~= concatenated(done)
                + current);
        }
    }
}

} // verus!
