//! Page templates: texts with placeholders for one variable, rendered by `minijinja`.
//!
//! Only plain templates are rendered, which hold no other tags than placeholders. The language
//! of `minijinja` has more, and some of its expressions panic.

use vstd::prelude::*;

verus! {

/// A character that may stand around the variable in a placeholder.
pub open spec fn is_blank(c: char) -> bool {
    c == ' ' || c == '\t' || c == '\n' || c == '\r' || c == '\u{c}'
}

/// How many blanks a text starts with.
pub open spec fn blanks(text: Seq<char>) -> nat
    decreases text.len(),
{
    if text.len() > 0 && is_blank(text[0]) {
        1 + blanks(text.skip(1))
    } else {
        0
    }
}

/// Whether a text starts with a tag of the template language: an expression, a statement or a
/// comment.
pub open spec fn opens_tag(text: Seq<char>) -> bool {
    &&& text.len() >= 2
    &&& text[0] == '{'
    &&& text[1] == '{' || text[1] == '%' || text[1] == '#'
}

/// Whether a text starts with the braces that open a placeholder.
pub open spec fn opens_placeholder(text: Seq<char>) -> bool {
    text.len() >= 2 && text[0] == '{' && text[1] == '{'
}

/// Whether a text starts with the braces that close a placeholder.
pub open spec fn closes_placeholder(text: Seq<char>) -> bool {
    text.len() >= 2 && text[0] == '}' && text[1] == '}'
}

/// The length of the placeholder for `variable` that a text starts with, or 0 where it starts
/// with none. A placeholder is the variable in double braces, with blanks around it at will.
pub open spec fn placeholder(text: Seq<char>, variable: Seq<char>) -> nat {
    let start = 2 + blanks(text.skip(2));
    let end = start + variable.len();
    let close = end + blanks(text.skip(end as int));
    if opens_placeholder(text) && variable.is_prefix_of(text.skip(start as int))
        && closes_placeholder(text.skip(close as int)) {
        close + 2
    } else {
        0
    }
}

/// Whether a text holds no other tags than placeholders for `variable`.
pub open spec fn is_plain(text: Seq<char>, variable: Seq<char>) -> bool
    decreases text.len(),
{
    let length = placeholder(text, variable);
    if text.len() == 0 {
        true
    } else if 0 < length <= text.len() {
        is_plain(text.skip(length as int), variable)
    } else {
        !opens_tag(text) && is_plain(text.skip(1), variable)
    }
}

/// A text with `value` in place of each placeholder for `variable`.
pub open spec fn filled(text: Seq<char>, variable: Seq<char>, value: Seq<char>) -> Seq<char>
    decreases text.len(),
{
    let length = placeholder(text, variable);
    if text.len() == 0 {
        Seq::empty()
    } else if 0 < length <= text.len() {
        value + filled(text.skip(length as int), variable, value)
    } else {
        seq![text[0]] + filled(text.skip(1), variable, value)
    }
}

/// A text without its last character where that is `c`.
pub open spec fn without_final(text: Seq<char>, c: char) -> Seq<char> {
    if text.len() > 0 && text.last() == c {
        text.drop_last()
    } else {
        text
    }
}

/// A template without the line break at its end, which is not part of the page.
pub open spec fn without_final_newline(template: Seq<char>) -> Seq<char> {
    without_final(without_final(template, '\n'), '\r')
}

/// Whether a template holds no other tags than placeholders for `variable`.
pub open spec fn is_plain_template(template: Seq<char>, variable: Seq<char>) -> bool {
    is_plain(without_final_newline(template), variable)
}

/// The page that a plain template gives for a value of `variable`. The value is taken as it is.
pub open spec fn rendered(
    template: Seq<char>,
    variable: Seq<char>,
    value: Seq<char>,
) -> Seq<char> {
    filled(without_final_newline(template), variable, value)
}

/// Whether a text may name a variable: small letters, and not a word that stands for something
/// else in an expression.
pub open spec fn is_variable_name(text: Seq<char>) -> bool {
    &&& text.len() > 0
    &&& forall|i: int| 0 <= i < text.len() ==> 'a' <= #[trigger] text[i] <= 'z'
    &&& text != "true"@
    &&& text != "false"@
    &&& text != "none"@
    &&& text != "not"@
}

/// Calls `minijinja::Environment::render_str` in a default environment with one variable.
/// Trusted: it does not fail on a plain template. It drops the line break at the template's end,
/// a line feed and then a carriage return, writes the value in place of each placeholder without
/// escaping anything, and keeps the rest.
#[verifier::external_body]
pub(crate) fn render_template(template: &str, variable: &str, value: &str) -> (page: String)
    requires
        is_variable_name(variable@),
        is_plain_template(template@, variable@),
    ensures
        page@ == rendered(template@, variable@, value@),
{
    let variables = std::collections::BTreeMap::from([(variable, value)]);
    minijinja::Environment::new().render_str(template, variables).unwrap()
}

/// The characters of a text.
fn chars_of(text: &str) -> (chars: Vec<char>)
    ensures
        chars@ == text@,
{
    let mut chars: Vec<char> = Vec::new();
    for c in iter: text.chars()
        invariant
            chars@ == iter.seq().take(iter.index()),
            iter.seq() == text@,
    {
        chars.push(c);
    }
    chars
}

/// Counts the blanks from a position on.
fn blanks_at(chars: &Vec<char>, from: usize) -> (count: usize)
    requires
        from <= chars@.len(),
    ensures
        count == blanks(chars@.skip(from as int)),
        from + count <= chars@.len(),
{
    let mut at: usize = from;
    while at < chars.len() && (chars[at] == ' ' || chars[at] == '\t' || chars[at] == '\n'
        || chars[at] == '\r' || chars[at] == '\u{c}')
        invariant
            from <= at <= chars@.len(),
            blanks(chars@.skip(from as int)) == at - from + blanks(chars@.skip(at as int)),
        decreases chars@.len() - at,
    {
        assert(chars@.skip(at as int).skip(1) =~= chars@.skip(at + 1));
        at = at + 1;
    }
    at - from
}

/// Tells whether the characters from a position on start with those of a word.
fn starts_with_at(chars: &Vec<char>, from: usize, word: &Vec<char>) -> (starts: bool)
    requires
        from <= chars@.len(),
    ensures
        starts == word@.is_prefix_of(chars@.skip(from as int)),
{
    let total: usize = chars.len();
    if word.len() > total - from {
        return false;
    }
    let ghost rest = chars@.skip(from as int);
    let mut i: usize = 0;
    while i < word.len()
        invariant
            i <= word@.len(),
            from + word@.len() <= total == chars@.len(),
            rest == chars@.skip(from as int),
            forall|j: int| 0 <= j < i ==> word@[j] == #[trigger] rest[j],
        decreases word@.len() - i,
    {
        assert(rest[i as int] == chars@[from + i]);
        if chars[from + i] != word[i] {
            assert(rest.subrange(0, word@.len() as int)[i as int] != word@[i as int]);
            return false;
        }
        i = i + 1;
    }
    assert(rest.subrange(0, word@.len() as int) =~= word@);
    true
}

/// The length of the placeholder at a position, or 0 where there is none.
fn placeholder_at(chars: &Vec<char>, from: usize, variable: &Vec<char>) -> (length: usize)
    requires
        from <= chars@.len(),
    ensures
        length == placeholder(chars@.skip(from as int), variable@),
        from + length <= chars@.len(),
{
    let ghost rest = chars@.skip(from as int);
    if chars.len() - from < 2 || chars[from] != '{' || chars[from + 1] != '{' {
        return 0;
    }
    assert(rest.skip(2) =~= chars@.skip(from + 2));
    let start: usize = from + 2 + blanks_at(chars, from + 2);
    assert(rest.skip(start - from) =~= chars@.skip(start as int));
    if !starts_with_at(chars, start, variable) {
        return 0;
    }
    let end: usize = start + variable.len();
    assert(rest.skip(end - from) =~= chars@.skip(end as int));
    let close: usize = end + blanks_at(chars, end);
    assert(rest.skip(close - from) =~= chars@.skip(close as int));
    if chars.len() - close < 2 || chars[close] != '}' || chars[close + 1] != '}' {
        return 0;
    }
    close + 2 - from
}

/// Tells whether a template holds no other tags than placeholders for a variable.
pub fn plain_template(template: &str, variable: &str) -> (plain: bool)
    ensures
        plain == is_plain_template(template@, variable@),
{
    let word = chars_of(variable);
    let mut chars = chars_of(template);
    if chars.len() > 0 && chars[chars.len() - 1] == '\n' {
        let _ = chars.pop();
    }
    if chars.len() > 0 && chars[chars.len() - 1] == '\r' {
        let _ = chars.pop();
    }
    assert(chars@ =~= without_final_newline(template@));
    let mut at: usize = 0;
    assert(chars@.skip(0) =~= chars@);
    while at < chars.len()
        invariant
            at <= chars@.len(),
            word@ == variable@,
            chars@ == without_final_newline(template@),
            is_plain(chars@, word@) == is_plain(chars@.skip(at as int), word@),
        decreases chars@.len() - at,
    {
        let ghost rest = chars@.skip(at as int);
        let length = placeholder_at(&chars, at, &word);
        if length > 0 {
            assert(rest.skip(length as int) =~= chars@.skip(at + length));
            at = at + length;
        } else {
            if chars[at] == '{' && chars.len() - at >= 2 && (chars[at + 1] == '{' || chars[at + 1]
                == '%' || chars[at + 1] == '#') {
                return false;
            }
            assert(rest.skip(1) =~= chars@.skip(at + 1));
            at = at + 1;
        }
    }
    true
}

/// A text without braces is kept as it is, whatever the variable is called and stands for.
pub proof fn lemma_text_without_braces_is_kept(
    text: Seq<char>,
    variable: Seq<char>,
    value: Seq<char>,
)
    requires
        forall|i: int| 0 <= i < text.len() ==> #[trigger] text[i] != '{',
    ensures
        is_plain(text, variable),
        filled(text, variable, value) == text,
    decreases text.len(),
{
    if text.len() > 0 {
        assert(text[0] != '{');
        let rest = text.skip(1);
        assert forall|i: int| 0 <= i < rest.len() implies #[trigger] rest[i] != '{' by {
            assert(rest[i] == text[i + 1]);
        }
        lemma_text_without_braces_is_kept(rest, variable, value);
        assert(seq![text[0]] + rest =~= text);
    } else {
        assert(text =~= Seq::empty());
    }
}

/// The first placeholder after a text without braces is replaced by the value as it is, even
/// where that looks like a placeholder itself, and what follows is filled in the same way.
pub proof fn lemma_placeholder_is_replaced(
    before: Seq<char>,
    variable: Seq<char>,
    after: Seq<char>,
    value: Seq<char>,
)
    requires
        is_variable_name(variable),
        forall|i: int| 0 <= i < before.len() ==> #[trigger] before[i] != '{',
    ensures
        ({
            let text = before + seq!['{', '{', ' '] + variable + seq![' ', '}', '}'] + after;
            &&& filled(text, variable, value) == before + value + filled(after, variable, value)
            &&& is_plain(text, variable) == is_plain(after, variable)
        }),
    decreases before.len(),
{
    let hole = seq!['{', '{', ' '] + variable + seq![' ', '}', '}'];
    let text = before + seq!['{', '{', ' '] + variable + seq![' ', '}', '}'] + after;
    if before.len() == 0 {
        reveal_with_fuel(blanks, 3);
        let inner = text.skip(2);
        assert(inner[0] == ' ');
        assert(inner.skip(1)[0] == variable[0]);
        assert(blanks(inner) == 1);
        assert(text.skip(3).subrange(0, variable.len() as int) =~= variable);
        let tail = text.skip(3 + variable.len() as int);
        assert(tail[0] == ' ');
        assert(tail.skip(1)[0] == '}');
        assert(blanks(tail) == 1);
        let close = text.skip(4 + variable.len() as int);
        assert(close[0] == '}' && close[1] == '}');
        assert(placeholder(text, variable) == hole.len());
        assert(text.skip(hole.len() as int) =~= after);
        assert(before + value =~= value);
    } else {
        let rest = before.skip(1);
        assert forall|i: int| 0 <= i < rest.len() implies #[trigger] rest[i] != '{' by {
            assert(rest[i] == before[i + 1]);
        }
        lemma_placeholder_is_replaced(rest, variable, after, value);
        assert(text[0] == before[0]);
        assert(text.skip(1) =~= rest + seq!['{', '{', ' '] + variable + seq![' ', '}', '}']
            + after);
        assert(seq![before[0]] + (rest + value + filled(after, variable, value)) =~= before + value
            + filled(after, variable, value));
    }
}

} // verus!
