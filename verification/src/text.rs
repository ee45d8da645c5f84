//! Fact texts: their normal form, and the tests that consolidation makes on it.

use vstd::prelude::*;

verus! {

/// The characters with the Unicode property `White_Space`.
pub open spec fn is_white_space(c: char) -> bool {
    ||| 0x09 <= c as u32 <= 0x0d
    ||| c as u32 == 0x20
    ||| c as u32 == 0x85
    ||| c as u32 == 0xa0
    ||| c as u32 == 0x1680
    ||| 0x2000 <= c as u32 <= 0x200a
    ||| 0x2028 <= c as u32 <= 0x2029
    ||| c as u32 == 0x202f
    ||| c as u32 == 0x205f
    ||| c as u32 == 0x3000
}

/// Whether `c` is white space.
pub fn white_space(c: char) -> (holds: bool)
    ensures
        holds == is_white_space(c),
{
    let code = c as u32;
    (0x09 <= code && code <= 0x0d) || code == 0x20 || code == 0x85 || code == 0xa0 || code == 0x1680
        || (0x2000 <= code && code <= 0x200a) || (0x2028 <= code && code <= 0x2029) || code
        == 0x202f || code == 0x205f || code == 0x3000
}

/// Length of the run without white space that `text` starts with.
pub open spec fn leading_run(text: Seq<char>) -> nat
    decreases text.len(),
{
    if text.len() == 0 || is_white_space(text[0]) {
        0
    } else {
        1 + leading_run(text.drop_first())
    }
}

/// The words of `text`: its longest runs without white space, in order.
pub open spec fn words(text: Seq<char>) -> Seq<Seq<char>>
    decreases text.len(),
{
    if text.len() == 0 {
        seq![]
    } else if is_white_space(text[0]) {
        words(text.drop_first())
    } else {
        proof {
            lemma_leading_run_bound(text);
        }
        seq![text.take(leading_run(text) as int)] + words(text.skip(leading_run(text) as int))
    }
}

/// Whether `word` has a character and none of its characters is white space.
pub open spec fn is_word(word: Seq<char>) -> bool {
    &&& word.len() > 0
    &&& forall|i: int| 0 <= i < word.len() ==> !is_white_space(#[trigger] word[i])
}

/// Whether `list` consists of words.
pub open spec fn all_words(list: Seq<Seq<char>>) -> bool {
    forall|i: int| 0 <= i < list.len() ==> is_word(#[trigger] list[i])
}

/// The words of `list`, one space between each two.
pub open spec fn join_words(list: Seq<Seq<char>>) -> Seq<char>
    decreases list.len(),
{
    if list.len() == 0 {
        seq![]
    } else if list.len() == 1 {
        list[0]
    } else {
        join_words(list.drop_last()).push(' ') + list.last()
    }
}

/// `text` trimmed, with each run of white space replaced by one space.
pub open spec fn collapsed(text: Seq<char>) -> Seq<char> {
    join_words(words(text))
}

/// Whether every character of `text` is ASCII.
pub open spec fn is_ascii_text(text: Seq<char>) -> bool {
    forall|i: int| 0 <= i < text.len() ==> (#[trigger] text[i] as u32) < 0x80
}

/// `c`, with an ASCII capital letter replaced by the small one.
pub open spec fn ascii_lower(c: char) -> char {
    if 'A' <= c <= 'Z' {
        ((c as u32 + 32) as u32) as char
    } else {
        c
    }
}

/// What lowercasing makes of a text with characters beyond ASCII.
pub uninterp spec fn unicode_lowercase(text: Seq<char>) -> Seq<char>;

/// `text` in lower case: letter by letter where all of it is ASCII.
pub open spec fn lowercase(text: Seq<char>) -> Seq<char> {
    if is_ascii_text(text) {
        text.map_values(|c: char| ascii_lower(c))
    } else {
        unicode_lowercase(text)
    }
}

/// The form in which texts are compared: trimmed, spaces collapsed, in lower case.
pub open spec fn normal_form(text: Seq<char>) -> Seq<char> {
    lowercase(collapsed(text))
}

/// Whether `needle` occurs in `text` as one piece.
pub open spec fn occurs_in(needle: Seq<char>, text: Seq<char>) -> bool {
    exists|start: int| #[trigger] occurs_at(needle, text, start)
}

/// Whether `needle` occurs in `text` from position `start` on.
pub open spec fn occurs_at(needle: Seq<char>, text: Seq<char>, start: int) -> bool {
    &&& 0 <= start
    &&& start + needle.len() <= text.len()
    &&& text.subrange(start, start + needle.len()) == needle
}

/// The standard library's `str::to_lowercase`. Claimed of it: on an ASCII text it replaces
/// each capital letter by the small one and keeps the rest; on any other text the result
/// depends on the text alone.
pub assume_specification[ str::to_lowercase ](s: &str) -> (lower: String)
    ensures
        is_ascii_text(s@) ==> lower@ == s@.map_values(|c: char| ascii_lower(c)),
        !is_ascii_text(s@) ==> lower@ == unicode_lowercase(s@),
;

/// The standard library's `String::push`. Claimed of it: it appends the character.
pub assume_specification[ String::push ](s: &mut String, c: char)
    ensures
        final(s)@ == old(s)@.push(c),
;

/// The leading run is a part of the text.
pub proof fn lemma_leading_run_bound(text: Seq<char>)
    ensures
        leading_run(text) <= text.len(),
    decreases text.len(),
{
    if text.len() > 0 && !is_white_space(text[0]) {
        lemma_leading_run_bound(text.drop_first());
    }
}

/// The leading run of a text that grows by one character.
proof fn lemma_leading_run_push(text: Seq<char>, c: char)
    ensures
        leading_run(text.push(c)) == if leading_run(text) == text.len() && !is_white_space(c) {
            text.len() + 1
        } else {
            leading_run(text)
        },
    decreases text.len(),
{
    lemma_leading_run_bound(text);
    if text.len() == 0 {
        assert(text.push(c).drop_first() =~= seq![]);
        assert(leading_run(text.push(c).drop_first()) == 0);
    } else {
        assert(text.push(c).drop_first() =~= text.drop_first().push(c));
        lemma_leading_run_push(text.drop_first(), c);
    }
}

/// The words of a text that grows by one character.
pub proof fn lemma_words_push(text: Seq<char>, c: char)
    ensures
        is_white_space(c) ==> words(text.push(c)) == words(text),
        !is_white_space(c) && (text.len() == 0 || is_white_space(text.last())) ==> words(
            text.push(c),
        ) == words(text).push(seq![c]),
        !is_white_space(c) && text.len() > 0 && !is_white_space(text.last()) ==> words(text).len()
            > 0 && words(text.push(c)) == words(text).drop_last().push(words(text).last().push(c)),
    decreases text.len(),
{
    let grown = text.push(c);
    if text.len() == 0 {
        assert(grown.drop_first() =~= seq![]);
        assert(words(grown.drop_first()) =~= seq![]);
        if !is_white_space(c) {
            lemma_leading_run_push(text, c);
            assert(leading_run(grown) == 1);
            assert(grown.skip(1) =~= seq![]);
            assert(grown.take(1) =~= seq![c]);
            assert(words(grown) =~= seq![seq![c]]);
            assert(words(text).push(seq![c]) =~= seq![seq![c]]);
        }
    } else if is_white_space(text[0]) {
        assert(grown.drop_first() =~= text.drop_first().push(c));
        lemma_words_push(text.drop_first(), c);
        if text.len() > 1 {
            assert(text.drop_first().last() == text.last());
        }
    } else {
        let n = leading_run(text) as int;
        lemma_leading_run_push(text, c);
        lemma_leading_run_bound(text);
        assert(n >= 1);
        let rest = text.skip(n);
        if n == text.len() && !is_white_space(c) {
            assert(grown.skip(n + 1) =~= seq![]);
            assert(rest =~= seq![]);
            assert(grown.take(n + 1) =~= text.take(n).push(c));
            assert(words(rest) =~= seq![]);
            assert(words(text) =~= seq![text.take(n)]);
            assert(words(grown) =~= seq![text.take(n).push(c)]);
            assert(words(text).drop_last() =~= seq![]);
            lemma_run_has_no_white_space(text, n - 1);
        } else {
            assert(grown.take(n) =~= text.take(n));
            assert(grown.skip(n) =~= rest.push(c));
            lemma_words_push(rest, c);
            let head = seq![text.take(n)];
            assert(words(text) == head + words(rest));
            assert(words(grown) == head + words(rest.push(c)));
            if n < text.len() {
                assert(rest.last() == text.last());
            } else {
                assert(rest =~= seq![]);
                assert(is_white_space(c));
            }
            if !is_white_space(c) {
                if is_white_space(text.last()) {
                    assert(head + words(rest).push(seq![c]) =~= words(text).push(seq![c]));
                } else {
                    assert(words(text).last() == words(rest).last());
                    assert(head + words(rest).drop_last().push(words(rest).last().push(c))
                        =~= words(text).drop_last().push(words(text).last().push(c)));
                }
            }
        }
    }
}

/// No character of the leading run is white space.
proof fn lemma_run_has_no_white_space(text: Seq<char>, i: int)
    requires
        0 <= i < leading_run(text),
    ensures
        i < text.len(),
        !is_white_space(text[i]),
    decreases text.len(),
{
    if i > 0 {
        lemma_run_has_no_white_space(text.drop_first(), i - 1);
    }
}

/// The words of a text are words.
proof fn lemma_words_are_words(text: Seq<char>)
    ensures
        all_words(words(text)),
    decreases text.len(),
{
    if text.len() > 0 {
        if is_white_space(text[0]) {
            lemma_words_are_words(text.drop_first());
        } else {
            let n = leading_run(text) as int;
            lemma_leading_run_bound(text);
            lemma_words_are_words(text.skip(n));
            let rest = words(text.skip(n));
            assert forall|i: int| 0 <= i < words(text).len() implies is_word(
                #[trigger] words(text)[i],
            ) by {
                if i > 0 {
                    assert(words(text)[i] == rest[i - 1]);
                } else {
                    assert forall|j: int| 0 <= j < n implies !is_white_space(
                        #[trigger] text.take(n)[j],
                    ) by {
                        lemma_run_has_no_white_space(text, j);
                    }
                }
            }
        }
    }
}

/// `text` trimmed, with each run of white space replaced by one space.
pub fn collapse(text: &str) -> (out: String)
    ensures
        out@ == collapsed(text@),
{
    let mut out = String::new();
    let mut in_word = false;
    for c in it: text.chars()
        invariant
            it.seq() == text@,
            out@ == collapsed(text@.take(it.index() as int)),
            in_word == (it.index() > 0 && !is_white_space(text@[it.index() - 1])),
    {
        let ghost before = text@.take(it.index() as int);
        proof {
            assert(text@.take(it.index() + 1) =~= before.push(c));
            lemma_collapsed_grows(before, c);
        }
        if white_space(c) {
            in_word = false;
        } else {
            if !in_word && !out.as_str().is_empty() {
                out.push(' ');
            }
            out.push(c);
            in_word = true;
        }
    }
    proof {
        assert(text@.take(text@.len() as int) =~= text@);
    }
    out
}

/// What a word added at the end does to the joined text.
proof fn lemma_join_push(list: Seq<Seq<char>>, word: Seq<char>)
    requires
        all_words(list),
    ensures
        (join_words(list).len() == 0) == (list.len() == 0),
        join_words(list.push(word)) == if list.len() == 0 {
            word
        } else {
            join_words(list).push(' ') + word
        },
{
    assert(list.push(word).drop_last() =~= list);
}

/// Brings `text` into the form in which texts are compared, so that facts that differ only
/// in spacing or case count as the same.
pub fn normalize(text: &str) -> (out: String)
    ensures
        out@ == normal_form(text@),
{
    collapse(text).as_str().to_lowercase()
}

/// The characters of `text`.
fn characters(text: &str) -> (list: Vec<char>)
    ensures
        list@ == text@,
{
    let mut list: Vec<char> = Vec::new();
    for c in it: text.chars()
        invariant
            it.seq() == text@,
            list@ == text@.take(it.index() as int),
    {
        proof {
            assert(text@.take(it.index() + 1) =~= list@.push(c));
        }
        list.push(c);
    }
    proof {
        assert(text@.take(text@.len() as int) =~= text@);
    }
    list
}

/// Whether `needle` stands in `list` from position `start` on.
fn matches_at(needle: &Vec<char>, list: &Vec<char>, start: usize) -> (holds: bool)
    requires
        start + needle.len() <= list.len(),
    ensures
        holds == occurs_at(needle@, list@, start as int),
{
    let mut i: usize = 0;
    while i < needle.len()
        invariant
            i <= needle.len(),
            start + needle.len() <= list.len(),
            forall|j: int| 0 <= j < i ==> list@[start + j] == #[trigger] needle@[j],
        decreases needle.len() - i,
    {
        if list[start + i] != needle[i] {
            proof {
                assert(list@.subrange(start as int, start + needle.len())[i as int] != needle@[i as int]);
            }
            return false;
        }
        i += 1;
    }
    proof {
        assert(list@.subrange(start as int, start + needle.len()) =~= needle@);
    }
    true
}

/// Whether `needle` occurs in `text` as one piece.
pub fn contains_text(text: &str, needle: &str) -> (holds: bool)
    ensures
        holds == occurs_in(needle@, text@),
{
    let list = characters(text);
    let wanted = characters(needle);
    if wanted.len() > list.len() {
        return false;
    }
    let mut start: usize = 0;
    while start <= list.len() - wanted.len()
        invariant
            wanted.len() <= list.len(),
            start <= list.len() - wanted.len() + 1,
            list@ == text@,
            wanted@ == needle@,
            forall|j: int| 0 <= j < start ==> !#[trigger] occurs_at(wanted@, list@, j),
        decreases list.len() - start + 1,
    {
        if matches_at(&wanted, &list, start) {
            return true;
        }
        if start == list.len() - wanted.len() {
            return false;
        }
        start += 1;
    }
    false
}

/// `number` in decimal digits, without leading zeros.
pub open spec fn decimal(number: nat) -> Seq<char>
    decreases number,
{
    if number < 10 {
        seq![digit(number)]
    } else {
        decimal(number / 10).push(digit(number % 10))
    }
}

/// The digit for a number below ten.
pub open spec fn digit(number: nat) -> char {
    ((48 + number) as u8) as char
}

/// Appends `number` in decimal digits to `out`.
pub fn push_decimal(out: &mut String, number: u32)
    ensures
        final(out)@ == old(out)@ + decimal(number as nat),
    decreases number,
{
    if number >= 10 {
        push_decimal(out, number / 10);
    }
    let last: u8 = 48 + (number % 10) as u8;
    out.push(last as char);
    proof {
        assert(digit((number % 10) as nat) == last as char);
        assert(out@ =~= old(out)@ + decimal(number as nat));
    }
}

// ---- laws ----

/// The number that decimal digits stand for.
pub open spec fn decimal_value(digits: Seq<char>) -> int
    decreases digits.len(),
{
    if digits.len() == 0 {
        0
    } else {
        10 * decimal_value(digits.drop_last()) + (digits.last() as u32 - 48)
    }
}

/// The decimal digits of a number stand for that number, and are digits.
pub proof fn law_decimal_reads_back(number: nat)
    ensures
        decimal_value(decimal(number)) == number,
        decimal(number).len() > 0,
        number > 0 ==> decimal(number)[0] != '0',
        forall|i: int| 0 <= i < decimal(number).len() ==> '0' <= #[trigger] decimal(number)[i] <= '9',
    decreases number,
{
    if number < 10 {
        assert(decimal(number) =~= seq![digit(number)]);
        assert(decimal(number).drop_last() =~= seq![]);
        assert(decimal_value(decimal(number).drop_last()) == 0);
    } else {
        law_decimal_reads_back(number / 10);
        assert(decimal(number).drop_last() =~= decimal(number / 10));
    }
}

/// Words do not run across white space: where two texts meet at white space, or one of them
/// is empty, the words of both together are the words of the one and then of the other.
pub proof fn lemma_words_concat(a: Seq<char>, b: Seq<char>)
    requires
        a.len() == 0 || b.len() == 0 || is_white_space(a.last()) || is_white_space(b[0]),
    ensures
        words(a + b) == words(a) + words(b),
    decreases b.len(),
{
    if b.len() == 0 {
        assert(a + b =~= a);
        assert(words(a) + words(b) =~= words(a));
    } else {
        let firsts = b.drop_last();
        let c = b.last();
        assert(b =~= firsts.push(c));
        assert(a + b =~= (a + firsts).push(c));
        lemma_words_concat(a, firsts);
        lemma_words_push(a + firsts, c);
        lemma_words_push(firsts, c);
        if firsts.len() == 0 {
            assert(a + firsts =~= a);
            assert(words(firsts) =~= seq![]);
            assert(words(a).push(seq![c]) =~= words(a) + seq![].push(seq![c]));
        } else {
            assert((a + firsts).last() == firsts.last());
            if !is_white_space(c) {
                if is_white_space(firsts.last()) {
                    assert((words(a) + words(firsts)).push(seq![c]) =~= words(a) + words(firsts).push(
                        seq![c],
                    ));
                } else {
                    let w = words(firsts);
                    assert((words(a) + w).last() == w.last());
                    assert((words(a) + w).drop_last().push(w.last().push(c)) =~= words(a)
                        + w.drop_last().push(w.last().push(c)));
                }
            }
        }
    }
}

/// White space alone has no words.
proof fn lemma_white_space_has_no_words(gap: Seq<char>)
    requires
        forall|i: int| 0 <= i < gap.len() ==> is_white_space(#[trigger] gap[i]),
    ensures
        words(gap) == Seq::<Seq<char>>::empty(),
    decreases gap.len(),
{
    if gap.len() > 0 {
        lemma_white_space_has_no_words(gap.drop_first());
    }
}

/// A word is its only word.
proof fn lemma_words_of_word(word: Seq<char>)
    requires
        is_word(word),
    ensures
        words(word) == seq![word],
    decreases word.len(),
{
    let firsts = word.drop_last();
    assert(word =~= firsts.push(word.last()));
    lemma_words_push(firsts, word.last());
    if firsts.len() == 0 {
        assert(words(firsts) =~= seq![]);
        assert(seq![word.last()] =~= word);
        assert(words(word) =~= seq![word]);
    } else {
        assert(is_word(firsts));
        lemma_words_of_word(firsts);
        assert(words(firsts).drop_last() =~= seq![]);
        assert(words(word) =~= seq![word]);
    }
}

/// Joining words and taking the words of the result gives the words back.
pub proof fn law_words_of_joined_words(list: Seq<Seq<char>>)
    requires
        all_words(list),
    ensures
        words(join_words(list)) == list,
    decreases list.len(),
{
    if list.len() == 0 {
        assert(list =~= seq![]);
    } else {
        lemma_words_of_word(list.last());
        if list.len() == 1 {
            assert(list =~= seq![list[0]]);
        } else {
            let firsts = list.drop_last();
            law_words_of_joined_words(firsts);
            lemma_words_push(join_words(firsts), ' ');
            lemma_words_concat(join_words(firsts).push(' '), list.last());
            assert(firsts + seq![list.last()] =~= list);
        }
    }
}

/// The words of a text are words, and together they hold exactly the characters of the text
/// that are not white space, in order.
pub proof fn law_words_hold_the_text(text: Seq<char>)
    ensures
        all_words(words(text)),
        words(text).flatten() == text.filter(|c: char| !is_white_space(c)),
    decreases text.len(),
{
    let kept = |c: char| !is_white_space(c);
    lemma_words_are_words(text);
    if text.len() == 0 {
        reveal(Seq::filter);
        assert(words(text).flatten() =~= seq![]);
    } else {
        let n = if is_white_space(text[0]) {
            1
        } else {
            leading_run(text) as int
        };
        lemma_leading_run_bound(text);
        let head = text.take(n);
        let rest = text.skip(n);
        assert(text =~= head + rest);
        Seq::filter_distributes_over_add(head, rest, kept);
        law_words_hold_the_text(rest);
        if is_white_space(text[0]) {
            assert(rest =~= text.drop_first());
            reveal(Seq::filter);
            assert(head.drop_last() =~= seq![]);
            assert(head.drop_last().filter(kept) =~= seq![]);
            assert(head.last() == text[0]);
            assert(!kept(head.last()));
            assert(head.filter(kept) =~= seq![]);
            assert(head.filter(kept) + rest.filter(kept) =~= rest.filter(kept));
        } else {
            assert(words(text)[0] == head);
            lemma_filter_keeps_word(head);
            assert(words(text).drop_first() =~= words(rest));
            assert(words(text).first() == head);
        }
    }
}

/// A word keeps all its characters when white space is taken out.
proof fn lemma_filter_keeps_word(word: Seq<char>)
    requires
        is_word(word) || word.len() == 0,
    ensures
        word.filter(|c: char| !is_white_space(c)) == word,
    decreases word.len(),
{
    reveal(Seq::filter);
    if word.len() > 0 {
        lemma_filter_keeps_word(word.drop_last());
        assert(word.drop_last().push(word.last()) =~= word);
    }
}

/// Collapsing a second time changes nothing.
pub proof fn law_collapsing_is_idempotent(text: Seq<char>)
    ensures
        collapsed(collapsed(text)) == collapsed(text),
{
    lemma_words_are_words(text);
    law_words_of_joined_words(words(text));
}

/// How much white space stands around and between two pieces of text, and which, makes no
/// difference to the normal form.
pub proof fn law_normal_form_ignores_spacing(
    a: Seq<char>,
    b: Seq<char>,
    before: Seq<char>,
    between: Seq<char>,
    after: Seq<char>,
)
    requires
        forall|i: int| 0 <= i < before.len() ==> is_white_space(#[trigger] before[i]),
        forall|i: int| 0 <= i < between.len() ==> is_white_space(#[trigger] between[i]),
        forall|i: int| 0 <= i < after.len() ==> is_white_space(#[trigger] after[i]),
        between.len() > 0,
    ensures
        normal_form(before + a + between + b + after) == normal_form(a + seq![' '] + b),
{
    lemma_white_space_has_no_words(before);
    lemma_white_space_has_no_words(between);
    lemma_white_space_has_no_words(after);
    lemma_white_space_has_no_words(seq![' ']);
    lemma_words_concat(before, a);
    lemma_words_concat(before + a, between);
    lemma_words_concat(before + a + between, b);
    lemma_words_concat(before + a + between + b, after);
    lemma_words_concat(a, seq![' ']);
    lemma_words_concat(a + seq![' '], b);
    assert(words(before + a + between + b + after) =~= words(a + seq![' '] + b));
}

/// Normalizing a second time changes nothing, for all texts whose words lowercasing turns into
/// words that a second lowercasing leaves as they are.
pub proof fn law_normalizing_is_idempotent(text: Seq<char>, lowered: Seq<Seq<char>>)
    requires
        all_words(lowered),
        lowercase(join_words(words(text))) == join_words(lowered),
        lowercase(join_words(lowered)) == join_words(lowered),
    ensures
        normal_form(normal_form(text)) == normal_form(text),
{
    law_words_of_joined_words(lowered);
}

/// On ASCII texts normalizing a second time changes nothing.
pub proof fn law_normalizing_ascii_is_idempotent(text: Seq<char>)
    requires
        is_ascii_text(text),
    ensures
        normal_form(normal_form(text)) == normal_form(text),
{
    let lower = |c: char| ascii_lower(c);
    lemma_collapsed_is_ascii(text);
    let once = collapsed(text).map_values(lower);
    lemma_collapsed_lower(collapsed(text));
    law_collapsing_is_idempotent(text);
    assert(is_ascii_text(once));
    assert(once.map_values(lower) =~= once);
    lemma_words_are_words(once);
    law_normalizing_is_idempotent(text, words(once));
}

/// ASCII texts that differ only in case have the same normal form.
pub proof fn law_normal_form_ignores_ascii_case(a: Seq<char>, b: Seq<char>)
    requires
        is_ascii_text(a),
        is_ascii_text(b),
        a.map_values(|c: char| ascii_lower(c)) == b.map_values(|c: char| ascii_lower(c)),
    ensures
        normal_form(a) == normal_form(b),
{
    lemma_collapsed_is_ascii(a);
    lemma_collapsed_is_ascii(b);
    lemma_collapsed_lower(a);
    lemma_collapsed_lower(b);
}

/// Joining two lists of words is joining each and putting a space between.
pub proof fn lemma_join_concat(head: Seq<Seq<char>>, tail: Seq<Seq<char>>)
    requires
        head.len() > 0,
        tail.len() > 0,
    ensures
        join_words(head + tail) == join_words(head).push(' ') + join_words(tail),
    decreases tail.len(),
{
    let firsts = tail.drop_last();
    assert((head + tail).drop_last() =~= head + firsts);
    assert((head + tail).last() == tail.last());
    if tail.len() == 1 {
        assert(head + firsts =~= head);
    } else {
        lemma_join_concat(head, firsts);
        assert(join_words(head).push(' ') + join_words(firsts).push(' ') + tail.last()
            =~= join_words(head).push(' ') + (join_words(firsts).push(' ') + tail.last()));
    }
    assert(join_words(head + tail) =~= join_words(head).push(' ') + join_words(tail));
}

/// Collapsing keeps a text ASCII.
pub proof fn lemma_collapsed_is_ascii(text: Seq<char>)
    requires
        is_ascii_text(text),
    ensures
        is_ascii_text(collapsed(text)),
    decreases text.len(),
{
    if text.len() == 0 {
        assert(words(text) =~= seq![]);
    } else {
        lemma_collapsed_is_ascii(text.drop_last());
        lemma_collapsed_grows(text.drop_last(), text.last());
        assert(text =~= text.drop_last().push(text.last()));
    }
}

/// The collapsed text when the text grows by one character.
proof fn lemma_collapsed_grows(text: Seq<char>, c: char)
    ensures
        (collapsed(text).len() == 0) == (words(text).len() == 0),
        collapsed(text.push(c)) == if is_white_space(c) {
            collapsed(text)
        } else if collapsed(text).len() > 0 && is_white_space(text.last()) {
            collapsed(text).push(' ').push(c)
        } else {
            collapsed(text).push(c)
        },
{
    lemma_words_push(text, c);
    lemma_words_are_words(text);
    let list = words(text);
    lemma_join_push(list, seq![c]);
    if list.len() > 0 {
        let firsts = list.drop_last();
        let last = list.last();
        assert(list =~= firsts.push(last));
        lemma_join_push(firsts, last);
        lemma_join_push(firsts, last.push(c));
    }
    if text.len() == 0 {
        assert(list =~= seq![]);
    }
    assert(collapsed(text.push(c)) =~= if is_white_space(c) {
        collapsed(text)
    } else if collapsed(text).len() > 0 && is_white_space(text.last()) {
        collapsed(text).push(' ').push(c)
    } else {
        collapsed(text).push(c)
    });
}

/// Lowering the letters and collapsing can be done in either order.
proof fn lemma_collapsed_lower(text: Seq<char>)
    ensures
        collapsed(text.map_values(|c: char| ascii_lower(c))) == collapsed(text).map_values(
            |c: char| ascii_lower(c),
        ),
    decreases text.len(),
{
    let lower = |c: char| ascii_lower(c);
    if text.len() == 0 {
        assert(text.map_values(lower) =~= seq![]);
        assert(words(text) =~= seq![]);
        assert(collapsed(text).map_values(lower) =~= seq![]);
    } else {
        let firsts = text.drop_last();
        let c = text.last();
        assert(text =~= firsts.push(c));
        assert(text.map_values(lower) =~= firsts.map_values(lower).push(ascii_lower(c)));
        lemma_collapsed_lower(firsts);
        lemma_collapsed_grows(firsts, c);
        lemma_collapsed_grows(firsts.map_values(lower), ascii_lower(c));
        assert(is_white_space(c) == is_white_space(ascii_lower(c)));
        if firsts.len() > 0 {
            assert(firsts.map_values(lower).last() == ascii_lower(firsts.last()));
        }
        assert(collapsed(text.map_values(lower)) =~= collapsed(text).map_values(lower));
    }
}

/// A text occurs in another exactly where that one is something, then the text, then something.
pub proof fn law_occurring_is_standing_between(needle: Seq<char>, text: Seq<char>)
    ensures
        forall|before: Seq<char>, after: Seq<char>|
            text == #[trigger] (before + needle + after) ==> occurs_in(needle, text),
        occurs_in(needle, text) ==> exists|before: Seq<char>, after: Seq<char>|
            text == #[trigger] (before + needle + after),
{
    assert forall|before: Seq<char>, after: Seq<char>|
        text == #[trigger] (before + needle + after) implies occurs_in(needle, text) by {
        let start = before.len() as int;
        assert(text.subrange(start, start + needle.len()) =~= needle);
        assert(occurs_at(needle, text, start));
    }
    if occurs_in(needle, text) {
        let start = choose|start: int| #[trigger] occurs_at(needle, text, start);
        let before = text.take(start);
        let after = text.skip(start + needle.len());
        assert(text =~= before + needle + after);
    }
}

/// The words of a list, each with its ASCII letters lowered.
pub open spec fn lowered_words(list: Seq<Seq<char>>) -> Seq<Seq<char>> {
    list.map_values(|word: Seq<char>| word.map_values(|c: char| ascii_lower(c)))
}

/// ASCII texts have the same normal form exactly where they have the same words, in the same order,
/// up to case: nothing else is passed over, and nothing else tells them apart.
pub proof fn law_normal_form_compares_words(a: Seq<char>, b: Seq<char>)
    requires
        is_ascii_text(a),
        is_ascii_text(b),
    ensures
        normal_form(a) == normal_form(b) <==> lowered_words(words(a)) == lowered_words(words(b)),
{
    lemma_words_of_normal_form(a);
    lemma_words_of_normal_form(b);
}

/// The normal form of an ASCII text is its words, lowered, one space between each two.
pub proof fn law_normal_form_joins_lowered_words(text: Seq<char>)
    requires
        is_ascii_text(text),
    ensures
        normal_form(text) == join_words(lowered_words(words(text))),
{
    lemma_words_of_normal_form(text);
}

/// The normal form of an ASCII text, and its words.
proof fn lemma_words_of_normal_form(text: Seq<char>)
    requires
        is_ascii_text(text),
    ensures
        normal_form(text) == join_words(lowered_words(words(text))),
        words(normal_form(text)) == lowered_words(words(text)),
{
    let lower = |c: char| ascii_lower(c);
    lemma_collapsed_is_ascii(text);
    lemma_collapsed_lower(text);
    lemma_words_lower(text);
    lemma_words_are_words(text.map_values(lower));
    law_words_of_joined_words(words(text.map_values(lower)));
}

/// Lowering the letters of a text lowers those of its words.
proof fn lemma_words_lower(text: Seq<char>)
    ensures
        words(text.map_values(|c: char| ascii_lower(c))) == lowered_words(words(text)),
    decreases text.len(),
{
    let lower = |c: char| ascii_lower(c);
    let each = |word: Seq<char>| word.map_values(lower);
    if text.len() == 0 {
        assert(text.map_values(lower) =~= seq![]);
        assert(words(text) =~= seq![]);
        assert(lowered_words(words(text)) =~= seq![]);
    } else {
        let firsts = text.drop_last();
        let c = text.last();
        let small = firsts.map_values(lower);
        assert(text =~= firsts.push(c));
        assert(text.map_values(lower) =~= small.push(ascii_lower(c)));
        lemma_words_lower(firsts);
        lemma_words_push(firsts, c);
        lemma_words_push(small, ascii_lower(c));
        assert(is_white_space(c) == is_white_space(ascii_lower(c)));
        if firsts.len() > 0 {
            assert(small.last() == ascii_lower(firsts.last()));
            assert(is_white_space(firsts.last()) == is_white_space(small.last()));
        }
        if !is_white_space(c) {
            let list = words(firsts);
            assert(seq![c].map_values(lower) =~= seq![ascii_lower(c)]);
            if firsts.len() == 0 || is_white_space(firsts.last()) {
                assert(lowered_words(list.push(seq![c])) =~= lowered_words(list).push(
                    seq![ascii_lower(c)],
                ));
            } else {
                let last = list.last();
                assert(lowered_words(list).last() == last.map_values(lower));
                assert(last.push(c).map_values(lower) =~= last.map_values(lower).push(
                    ascii_lower(c),
                ));
                assert(lowered_words(list.drop_last().push(last.push(c))) =~= lowered_words(
                    list,
                ).drop_last().push(last.map_values(lower).push(ascii_lower(c))));
            }
        }
    }
}

/// The white space characters, one by one.
pub proof fn law_white_space_characters(c: char)
    ensures
        is_white_space(c) <==> seq![
            '\t', '\n', '\u{b}', '\u{c}', '\r', ' ', '\u{85}', '\u{a0}', '\u{1680}', '\u{2000}',
            '\u{2001}', '\u{2002}', '\u{2003}', '\u{2004}', '\u{2005}', '\u{2006}', '\u{2007}',
            '\u{2008}', '\u{2009}', '\u{200a}', '\u{2028}', '\u{2029}', '\u{202f}', '\u{205f}',
            '\u{3000}',
        ].contains(c),
{
    let all = seq![
        '\t', '\n', '\u{b}', '\u{c}', '\r', ' ', '\u{85}', '\u{a0}', '\u{1680}', '\u{2000}', '\u{2001}',
        '\u{2002}', '\u{2003}', '\u{2004}', '\u{2005}', '\u{2006}', '\u{2007}', '\u{2008}', '\u{2009}',
        '\u{200a}', '\u{2028}', '\u{2029}', '\u{202f}', '\u{205f}', '\u{3000}',
    ];
    if is_white_space(c) {
        let code = c as u32 as int;
        let place: int = if code <= 0x0d {
            code - 0x09
        } else if code == 0x20 {
            5
        } else if code == 0x85 {
            6
        } else if code == 0xa0 {
            7
        } else if code == 0x1680 {
            8
        } else if code <= 0x200a {
            code - 0x2000 + 9
        } else if code <= 0x2029 {
            code - 0x2028 + 20
        } else if code == 0x202f {
            22
        } else if code == 0x205f {
            23
        } else {
            24
        };
        assert(all[place] == c);
    }
}

/// Lowering an ASCII capital gives the small letter at the same place of the alphabet; every other
/// character stays.
pub proof fn law_capitals_become_small(c: char)
    ensures
        'A' <= c <= 'Z' ==> 'a' <= ascii_lower(c) <= 'z' && ascii_lower(c) as u32 - 'a' as u32
            == c as u32 - 'A' as u32,
        !('A' <= c <= 'Z') ==> ascii_lower(c) == c,
{
}

/// A text with words beyond ASCII is lowered as a whole, once its white space is collapsed.
pub proof fn law_other_texts_are_lowered_whole(text: Seq<char>, i: int)
    requires
        0 <= i < text.len(),
        text[i] as u32 >= 0x80,
        !is_white_space(text[i]),
    ensures
        normal_form(text) == unicode_lowercase(join_words(words(text))),
{
    lemma_collapsed_holds(text, i);
    let place = choose|j: int| 0 <= j < collapsed(text).len() && collapsed(text)[j] == text[i];
    assert(!((collapsed(text)[place] as u32) < 0x80));
}

/// No character but white space is lost when white space is collapsed.
proof fn lemma_collapsed_holds(text: Seq<char>, i: int)
    requires
        0 <= i < text.len(),
        !is_white_space(text[i]),
    ensures
        collapsed(text).contains(text[i]),
    decreases text.len(),
{
    let firsts = text.drop_last();
    let c = text.last();
    assert(text =~= firsts.push(c));
    lemma_collapsed_grows(firsts, c);
    if i == text.len() - 1 {
        assert(collapsed(text).last() == c);
    } else {
        lemma_collapsed_holds(firsts, i);
        let j = choose|j: int| 0 <= j < collapsed(firsts).len() && collapsed(firsts)[j] == firsts[i];
        assert(collapsed(text)[j] == text[i]);
    }
}

/// Decimal digits have places: a further digit behind a number makes it ten times the number and
/// the digit more, and a number below ten is one digit.
pub proof fn law_digits_have_places(number: nat, last: nat)
    requires
        last < 10,
    ensures
        number > 0 ==> decimal(10 * number + last) == decimal(number) + decimal(last),
        decimal(last).len() == 1,
        decimal(last)[0] as u32 - '0' as u32 == last,
{
    if number > 0 {
        assert((10 * number + last) / 10 == number);
        assert((10 * number + last) % 10 == last);
        assert(decimal(number).push(digit(last)) =~= decimal(number) + decimal(last));
    }
}

/// Whether white space stands in `text` only as one space at a time, between other characters.
pub open spec fn is_single_spaced(text: Seq<char>) -> bool {
    forall|i: int|
        0 <= i < text.len() && is_white_space(#[trigger] text[i]) ==> {
            &&& text[i] == ' '
            &&& 0 < i < text.len() - 1
            &&& !is_white_space(text[i - 1])
            &&& !is_white_space(text[i + 1])
        }
}

/// A collapsed text is trimmed and has one space at a time, and its words are those that it had.
pub proof fn law_collapsed_text_is_single_spaced(text: Seq<char>)
    ensures
        is_single_spaced(collapsed(text)),
        words(collapsed(text)) == words(text),
{
    lemma_words_are_words(text);
    law_words_of_joined_words(words(text));
    lemma_joined_words_are_single_spaced(words(text));
}

/// Words joined are single-spaced, and start and end with a word.
proof fn lemma_joined_words_are_single_spaced(list: Seq<Seq<char>>)
    requires
        all_words(list),
    ensures
        is_single_spaced(join_words(list)),
        list.len() > 0 ==> join_words(list).len() > 0 && !is_white_space(join_words(list).last()),
    decreases list.len(),
{
    if list.len() > 0 {
        let word = list.last();
        assert(is_word(word));
        assert(!is_white_space(word[0]));
        assert(!is_white_space(word[word.len() - 1]));
        if list.len() > 1 {
            let firsts = list.drop_last();
            lemma_joined_words_are_single_spaced(firsts);
            let head = join_words(firsts);
            let joined = join_words(list);
            assert(joined == head.push(' ') + word);
            assert forall|i: int|
                0 <= i < joined.len() && is_white_space(#[trigger] joined[i]) implies joined[i]
                == ' ' && 0 < i < joined.len() - 1 && !is_white_space(joined[i - 1])
                && !is_white_space(joined[i + 1]) by {
                if i < head.len() {
                    assert(head[i] == joined[i]);
                    assert(joined[i + 1] == head[i + 1]);
                    assert(joined[i - 1] == head[i - 1]);
                } else if i == head.len() {
                    assert(joined[i - 1] == head.last());
                    assert(joined[i + 1] == word[0]);
                } else {
                    assert(joined[i] == word[i - head.len() - 1]);
                }
            }
        }
    }
}

} // verus!
