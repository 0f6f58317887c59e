//! How pages, ports and references are written and read.

use crate::decimal::{digits_value, is_digit, parse_port, port_value, unsigned, write_port};
use crate::oauth::{accepts_page_template, CallbackEndpoint};
use crate::schema_refs::{
    contents_of, schema_location, stand_in_name, ImageContentRef, RoleRef, SchemaRef,
    TextContentRef,
};
use crate::template::{
    blanks, filled, is_plain, opens_tag, placeholder, plain_template, without_final_newline,
};
use utoipa::openapi::Ref;
use vstd::prelude::*;

verus! {

/// Whether a text holds spaces, tabs, line breaks and form feeds only.
pub open spec fn is_gap(text: Seq<char>) -> bool {
    forall|i: int|
        0 <= i < text.len() ==> (#[trigger] text[i] == ' ' || text[i] == '\t' || text[i] == '\n'
            || text[i] == '\r' || text[i] == '\u{c}')
}

/// Whether a text holds no opening brace.
pub open spec fn is_braceless(text: Seq<char>) -> bool {
    forall|i: int| 0 <= i < text.len() ==> #[trigger] text[i] != '{'
}

/// A placeholder for `variable`, with gaps around it.
pub open spec fn hole(lead: Seq<char>, variable: Seq<char>, trail: Seq<char>) -> Seq<char> {
    seq!['{', '{'] + lead + variable + trail + seq!['}', '}']
}

/// A gap before something that starts with no blank is the blanks that the text starts with.
proof fn lemma_gap_is_counted(gap: Seq<char>, rest: Seq<char>)
    requires
        is_gap(gap),
        rest.len() == 0 || !is_gap(seq![rest[0]]),
    ensures
        blanks(gap + rest) == gap.len(),
    decreases gap.len(),
{
    if gap.len() == 0 {
        assert(gap + rest =~= rest);
        if rest.len() > 0 {
            assert(!crate::template::is_blank(rest[0])) by {
                if crate::template::is_blank(rest[0]) {
                    assert(is_gap(seq![rest[0]]));
                }
            }
        }
    } else {
        let tail = gap.skip(1);
        assert forall|i: int| 0 <= i < tail.len() implies (#[trigger] tail[i] == ' ' || tail[i]
            == '\t' || tail[i] == '\n' || tail[i] == '\r' || tail[i] == '\u{c}') by {
            assert(tail[i] == gap[i + 1]);
        }
        lemma_gap_is_counted(tail, rest);
        assert((gap + rest).skip(1) =~= tail + rest);
        assert((gap + rest)[0] == gap[0]);
    }
}

/// A text that starts with a placeholder has it found, whatever the gaps in it.
proof fn lemma_hole_is_found(
    lead: Seq<char>,
    variable: Seq<char>,
    trail: Seq<char>,
    after: Seq<char>,
)
    requires
        is_gap(lead),
        is_gap(trail),
        variable.len() > 0,
        !is_gap(seq![variable[0]]),
    ensures
        placeholder(hole(lead, variable, trail) + after, variable) == hole(
            lead,
            variable,
            trail,
        ).len(),
{
    let text = hole(lead, variable, trail) + after;
    let closing = seq!['}', '}'] + after;
    let inner = variable + trail + closing;
    assert(text.skip(2) =~= lead + inner);
    assert(inner[0] == variable[0]);
    lemma_gap_is_counted(lead, inner);
    let start = 2 + lead.len();
    assert(text.skip(start as int) =~= inner);
    assert(inner.subrange(0, variable.len() as int) =~= variable);
    let end = start + variable.len();
    assert(text.skip(end as int) =~= trail + closing);
    assert(closing[0] == '}');
    assert(!is_gap(seq![closing[0]])) by {
        assert(seq![closing[0]][0] == '}');
    }
    lemma_gap_is_counted(trail, closing);
    let close = end + trail.len();
    assert(text.skip(close as int) =~= closing);
}

/// A text that starts with no tag keeps its first character, and the rest is filled by itself.
pub proof fn lemma_character_is_kept(
    text: Seq<char>,
    variable: Seq<char>,
    value: Seq<char>,
)
    requires
        text.len() > 0,
        !(text.len() >= 2 && text[0] == '{' && (text[1] == '{' || text[1] == '%' || text[1]
            == '#')),
    ensures
        filled(text, variable, value) == seq![text[0]] + filled(text.skip(1), variable, value),
        is_plain(text, variable) == is_plain(text.skip(1), variable),
{
    assert(placeholder(text, variable) == 0);
    assert(!opens_tag(text));
}

/// A placeholder is replaced by the value as it is, whatever the gaps in it, and what follows is
/// filled by itself.
pub proof fn lemma_placeholder_gives_the_value(
    lead: Seq<char>,
    variable: Seq<char>,
    trail: Seq<char>,
    after: Seq<char>,
    value: Seq<char>,
)
    requires
        is_gap(lead),
        is_gap(trail),
        variable.len() > 0,
        !is_gap(seq![variable[0]]),
    ensures
        filled(hole(lead, variable, trail) + after, variable, value) == value + filled(
            after,
            variable,
            value,
        ),
        is_plain(hole(lead, variable, trail) + after, variable) == is_plain(after, variable),
        filled(Seq::empty(), variable, value) == Seq::<char>::empty(),
        is_plain(Seq::empty(), variable),
{
    lemma_hole_is_found(lead, variable, trail, after);
    let text = hole(lead, variable, trail) + after;
    assert(text.skip(hole(lead, variable, trail).len() as int) =~= after);
}

/// The line break at the end of a template is its last line feed and a carriage return before
/// that; what stands before a character that is neither is not touched.
pub proof fn lemma_only_the_end_is_trimmed(before: Seq<char>, after: Seq<char>)
    requires
        before.len() > 0,
        before.last() != '\n',
        before.last() != '\r',
    ensures
        without_final_newline(before + after) == before + without_final_newline(after),
        without_final_newline(before) == before,
        without_final_newline(before.push('\n')) == before,
        without_final_newline(before.push('\r').push('\n')) == before,
        without_final_newline(before.push('\n').push('\n')) == before.push('\n'),
{
    let text = before + after;
    if after.len() == 0 {
        assert(text =~= before);
        assert(before + without_final_newline(after) =~= before);
    } else {
        assert(text.last() == after.last());
        let shorter = crate::template::without_final(after, '\n');
        assert(crate::template::without_final(text, '\n') =~= before + shorter);
        if shorter.len() == 0 {
            assert(before + shorter =~= before);
        } else {
            assert((before + shorter).last() == shorter.last());
            assert((before + shorter).drop_last() =~= before + shorter.drop_last());
        }
        assert(without_final_newline(text) =~= before + without_final_newline(after));
    }
    assert(before.push('\n').drop_last() =~= before);
    assert(before.push('\r').push('\n').drop_last() =~= before.push('\r'));
    assert(before.push('\r').drop_last() =~= before);
    assert(before.push('\n').push('\n').drop_last() =~= before.push('\n'));
}

/// The page of a template is its text up to the first placeholder, then the name, then the page of
/// what follows. What follows is accepted exactly where the whole is.
pub proof fn lemma_page_holds_the_name<T>(
    template: &str,
    name: &str,
    sender: T,
    endpoint: CallbackEndpoint<T>,
    accepted: bool,
    before: Seq<char>,
    lead: Seq<char>,
    trail: Seq<char>,
    after: &str,
    remainder: CallbackEndpoint<T>,
    rest_accepted: bool,
)
    requires
        is_braceless(before),
        is_gap(lead),
        is_gap(trail),
        template@ == before + (hole(lead, "name"@, trail) + after@),
        call_ensures(CallbackEndpoint::<T>::new, (template, name, sender), endpoint),
        call_ensures(CallbackEndpoint::<T>::new, (after, name, sender), remainder),
        call_ensures(accepts_page_template, (template,), accepted),
        call_ensures(accepts_page_template, (after,), rest_accepted),
    ensures
        endpoint.page() == before + name@ + remainder.page(),
        endpoint.sender() == Some(sender),
        accepted == rest_accepted,
{
    reveal_strlit("name");
    let gap = hole(lead, "name"@, trail);
    assert(!is_gap(seq!["name"@[0]])) by {
        assert(seq!["name"@[0]][0] == 'n');
    }
    assert((before + gap).last() == '}');
    lemma_only_the_end_is_trimmed(before + gap, after@);
    assert(template@ =~= (before + gap) + after@);
    let rest = without_final_newline(after@);
    assert((before + gap) + rest =~= before + (gap + rest));
    lemma_filled_after_text(before, gap + rest, "name"@, name@);
    lemma_placeholder_gives_the_value(lead, "name"@, trail, rest, name@);
    assert(before + (name@ + filled(rest, "name"@, name@)) =~= before + name@ + filled(
        rest,
        "name"@,
        name@,
    ));
}

/// Text without braces in front of a tag or a text is kept.
proof fn lemma_filled_after_text(
    before: Seq<char>,
    rest: Seq<char>,
    variable: Seq<char>,
    value: Seq<char>,
)
    requires
        is_braceless(before),
    ensures
        filled(before + rest, variable, value) == before + filled(rest, variable, value),
        is_plain(before + rest, variable) == is_plain(rest, variable),
    decreases before.len(),
{
    if before.len() == 0 {
        assert(before + rest =~= rest);
        assert(before + filled(rest, variable, value) =~= filled(rest, variable, value));
    } else {
        let text = before + rest;
        let tail = before.skip(1);
        assert(text[0] == before[0]);
        assert forall|i: int| 0 <= i < tail.len() implies #[trigger] tail[i] != '{' by {
            assert(tail[i] == before[i + 1]);
        }
        lemma_character_is_kept(text, variable, value);
        assert(text.skip(1) =~= tail + rest);
        lemma_filled_after_text(tail, rest, variable, value);
        assert(seq![before[0]] + (tail + filled(rest, variable, value)) =~= before + filled(
            rest,
            variable,
            value,
        ));
    }
}

/// A template without braces is accepted, for whatever variable, and its page is the template
/// itself but for the line break at its end.
pub proof fn lemma_template_without_braces_is_its_page<T>(
    template: &str,
    variable: &str,
    plain: bool,
    accepted: bool,
    name: &str,
    sender: T,
    endpoint: CallbackEndpoint<T>,
)
    requires
        is_braceless(template@),
        call_ensures(plain_template, (template, variable), plain),
        call_ensures(accepts_page_template, (template,), accepted),
        call_ensures(CallbackEndpoint::<T>::new, (template, name, sender), endpoint),
    ensures
        plain,
        accepted,
        template@.len() > 0 && template@.last() != '\n' && template@.last() != '\r'
            ==> endpoint.page() == template@,
        template@.len() > 1 && template@.last() == '\n' && template@[template@.len() - 2] != '\r'
            ==> endpoint.page() == template@.drop_last(),
{
    let text = without_final_newline(template@);
    assert forall|i: int| 0 <= i < text.len() implies #[trigger] text[i] != '{' by {
        assert(text[i] == template@[i]);
    }
    crate::template::lemma_text_without_braces_is_kept(text, variable@, name@);
    crate::template::lemma_text_without_braces_is_kept(text, "name"@, name@);
}

/// Whether a template is plain is told by what starts with its first tag.
proof fn lemma_first_tag_decides(
    before: Seq<char>,
    tag: Seq<char>,
    after: Seq<char>,
    variable: Seq<char>,
)
    requires
        is_braceless(before),
        tag.len() > 0,
        tag.last() != '\n',
        tag.last() != '\r',
    ensures
        is_plain(without_final_newline(before + (tag + after)), variable) == is_plain(
            tag + without_final_newline(after),
            variable,
        ),
{
    let rest = without_final_newline(after);
    assert((before + tag).last() == tag.last());
    lemma_only_the_end_is_trimmed(before + tag, after);
    assert(before + (tag + after) =~= (before + tag) + after);
    assert((before + tag) + rest =~= before + (tag + rest));
    lemma_filled_after_text(before, tag + rest, variable, Seq::empty());
}

/// A template with a statement or a comment in it, after text without braces, is not plain.
pub proof fn lemma_statements_and_comments_are_not_plain(
    template: &str,
    variable: &str,
    plain: bool,
    before: Seq<char>,
    kind: char,
    after: Seq<char>,
)
    requires
        call_ensures(plain_template, (template, variable), plain),
        is_braceless(before),
        kind == '%' || kind == '#',
        template@ == before + (seq!['{', kind] + after),
    ensures
        !plain,
{
    let tag = seq!['{', kind];
    lemma_first_tag_decides(before, tag, after, variable@);
    let text = tag + without_final_newline(after);
    assert(text[0] == '{' && text[1] == kind);
    assert(placeholder(text, variable@) == 0);
}

/// A template with an expression in it, after text without braces, is not plain where the
/// expression does not start with the variable.
pub proof fn lemma_other_expressions_are_not_plain(
    template: &str,
    variable: &str,
    plain: bool,
    before: Seq<char>,
    lead: Seq<char>,
    other: char,
    after: Seq<char>,
)
    requires
        call_ensures(plain_template, (template, variable), plain),
        is_braceless(before),
        is_gap(lead),
        !is_gap(seq![other]),
        variable@.len() > 0,
        other != variable@[0],
        template@ == before + (seq!['{', '{'] + lead + seq![other] + after),
    ensures
        !plain,
{
    let tag = seq!['{', '{'] + lead + seq![other];
    assert(tag.last() == other);
    if other == '\n' || other == '\r' {
        assert(is_gap(seq![other]));
    }
    lemma_first_tag_decides(before, tag, after, variable@);
    lemma_expression_is_no_placeholder(lead, other, without_final_newline(after), variable@);
}

/// A template with an expression in it, after text without braces, is not plain where anything
/// but the closing braces follows the variable.
pub proof fn lemma_longer_expressions_are_not_plain(
    template: &str,
    variable: &str,
    plain: bool,
    before: Seq<char>,
    lead: Seq<char>,
    trail: Seq<char>,
    other: char,
    after: Seq<char>,
)
    requires
        call_ensures(plain_template, (template, variable), plain),
        is_braceless(before),
        is_gap(lead),
        is_gap(trail),
        !is_gap(seq![other]),
        other != '}',
        variable@.len() > 0,
        !is_gap(seq![variable@[0]]),
        template@ == before + (seq!['{', '{'] + lead + variable@ + trail + seq![other] + after),
    ensures
        !plain,
{
    let tag = seq!['{', '{'] + lead + variable@ + trail + seq![other];
    assert(tag.last() == other);
    if other == '\n' || other == '\r' {
        assert(is_gap(seq![other]));
    }
    lemma_first_tag_decides(before, tag, after, variable@);
    let rest = without_final_newline(after);
    let text = tag + rest;
    let closing = seq![other] + rest;
    let inner = variable@ + trail + closing;
    assert(text[0] == '{' && text[1] == '{');
    assert(text.skip(2) =~= lead + inner);
    assert(inner[0] == variable@[0]);
    lemma_gap_is_counted(lead, inner);
    assert(closing[0] == other);
    assert(text.skip(2 + lead.len() + variable@.len() as int) =~= trail + closing);
    lemma_gap_is_counted(trail, closing);
    assert(text.skip(2 + lead.len() + variable@.len() + trail.len() as int) =~= closing);
    assert(placeholder(text, variable@) == 0);
}

/// An expression that does not start with the variable is no placeholder for it.
proof fn lemma_expression_is_no_placeholder(
    lead: Seq<char>,
    other: char,
    rest: Seq<char>,
    variable: Seq<char>,
)
    requires
        is_gap(lead),
        !is_gap(seq![other]),
        variable.len() > 0,
        other != variable[0],
    ensures
        !is_plain(seq!['{', '{'] + lead + seq![other] + rest, variable),
{
    let text = seq!['{', '{'] + lead + seq![other] + rest;
    let inner = seq![other] + rest;
    assert(text[0] == '{' && text[1] == '{');
    assert(text.skip(2) =~= lead + inner);
    assert(inner[0] == other);
    lemma_gap_is_counted(lead, inner);
    assert(text.skip(2 + lead.len() as int) =~= inner);
    if variable.is_prefix_of(inner) {
        assert(inner.subrange(0, variable.len() as int)[0] == inner[0]);
    }
    assert(placeholder(text, variable) == 0);
}

/// A port is read digit by digit: a single digit stands for itself, and another digit behind a
/// port adds it to ten times that port, as long as the sum fits; once it does not, no further
/// digit makes it fit.
pub proof fn lemma_ports_are_read_digit_by_digit(
    text: &str,
    port: Option<u16>,
    longer: &str,
    next: Option<u16>,
    digit: char,
)
    requires
        '0' <= digit <= '9',
        longer@ == text@.push(digit),
        call_ensures(parse_port, (text,), port),
        call_ensures(parse_port, (longer,), next),
    ensures
        text@.len() == 0 || text@ == seq!['+'] ==> next == Some(
            (digit as u32 - '0' as u32) as u16,
        ),
        port matches Some(value) ==> {
            let sum = value * 10 + (digit as int - '0' as int);
            &&& sum <= 65535 ==> next == Some(sum as u16)
            &&& sum > 65535 ==> next is None
        },
        port is None && text@.len() > 0 && text@ != seq!['+'] ==> next is None,
{
    reveal_with_fuel(digits_value, 2);
    let digits = unsigned(text@);
    let more = unsigned(longer@);
    assert(more =~= if text@.len() == 0 {
        seq![digit]
    } else {
        digits.push(digit)
    });
    assert(more.drop_last() =~= digits);
    assert(more.last() == digit);
    if crate::decimal::all_digits(digits) {
        assert forall|i: int| 0 <= i < more.len() implies is_digit(#[trigger] more[i]) by {
            if i < digits.len() {
                assert(more[i] == digits[i]);
            }
        }
    } else {
        let i = choose|i: int| 0 <= i < digits.len() && !is_digit(#[trigger] digits[i]);
        assert(more[i] == digits[i]);
        assert(!crate::decimal::all_digits(more));
    }
    if text@.len() == 1 && text@[0] == '+' {
        assert(text@ =~= seq!['+']);
        assert(digits =~= Seq::<char>::empty());
    }
}

/// A text is no port where it is empty or a plus sign alone, or holds anything but digits behind
/// the plus sign that it may start with.
pub proof fn lemma_other_texts_are_no_ports(text: &str, port: Option<u16>, at: int)
    requires
        call_ensures(parse_port, (text,), port),
        ({
            ||| text@.len() == 0
            ||| text@ == seq!['+']
            ||| 0 <= at < text@.len() && !('0' <= text@[at] <= '9') && (at > 0 || text@[0] != '+')
        }),
    ensures
        port is None,
{
    let digits = unsigned(text@);
    if text@.len() > 0 && text@ != seq!['+'] {
        if text@[0] == '+' {
            assert(digits[at - 1] == text@[at]);
            assert(!is_digit(digits[at - 1]));
        } else {
            assert(digits[at] == text@[at]);
            assert(!is_digit(digits[at]));
        }
    }
}

/// A plus sign in front of digits changes nothing.
pub proof fn lemma_plus_sign_is_passed_over(
    text: &str,
    port: Option<u16>,
    signed: &str,
    same: Option<u16>,
)
    requires
        text@.len() > 0,
        text@[0] != '+',
        signed@ == seq!['+'] + text@,
        call_ensures(parse_port, (text,), port),
        call_ensures(parse_port, (signed,), same),
    ensures
        same == port,
{
    assert(unsigned(signed@) =~= text@);
}

/// A port is written in digits, without leading zeros, and reads back as itself.
pub proof fn lemma_written_port_reads_back(
    port: u16,
    written: String,
    text: &str,
    read: Option<u16>,
)
    requires
        call_ensures(write_port, (port,), written),
        text@ == written@,
        call_ensures(parse_port, (text,), read),
    ensures
        read == Some(port),
        0 < written@.len(),
        forall|i: int| 0 <= i < written@.len() ==> '0' <= #[trigger] written@[i] <= '9',
        written@[0] == '0' ==> port == 0,
{
    crate::decimal::lemma_port_round_trip(port);
    lemma_no_leading_zero(port as nat);
    assert forall|i: int| 0 <= i < written@.len() implies '0' <= #[trigger] written@[i] <= '9' by {
        assert(is_digit(unsigned(written@)[i]));
    }
}

/// What is written for a number starts with a digit, which is a zero for zero only.
proof fn lemma_no_leading_zero(number: nat)
    ensures
        crate::decimal::decimal_text(number).len() > 0,
        is_digit(crate::decimal::decimal_text(number)[0]),
        crate::decimal::decimal_text(number)[0] == '0' ==> number == 0,
    decreases number,
{
    if number >= 10 {
        lemma_no_leading_zero(number / 10);
    }
}

/// The stand-ins refer to the schemas of roles, texts and images, barely, and are called by names
/// of their own.
pub proof fn lemma_stand_ins_refer_to_their_schemas(
    role: Ref,
    text: Ref,
    image: Ref,
    role_name: String,
    text_name: String,
    image_name: String,
)
    requires
        call_ensures(RoleRef::reference, (), role),
        call_ensures(TextContentRef::reference, (), text),
        call_ensures(ImageContentRef::reference, (), image),
        call_ensures(RoleRef::name, (), role_name),
        call_ensures(TextContentRef::name, (), text_name),
        call_ensures(ImageContentRef::name, (), image_name),
    ensures
        contents_of(role).location == "#/components/schemas/Role"@,
        contents_of(text).location == "#/components/schemas/TextContent"@,
        contents_of(image).location == "#/components/schemas/ImageContent"@,
        contents_of(role).description.len() == 0 && contents_of(role).summary.len() == 0,
        contents_of(text).description.len() == 0 && contents_of(text).summary.len() == 0,
        contents_of(image).description.len() == 0 && contents_of(image).summary.len() == 0,
        role_name@ == "RoleRef"@,
        text_name@ == "TextContentRef"@,
        image_name@ == "ImageContentRef"@,
{
    reveal_strlit("#/components/schemas/");
    reveal_strlit("#/components/schemas/Role");
    reveal_strlit("#/components/schemas/TextContent");
    reveal_strlit("#/components/schemas/ImageContent");
    reveal_strlit("Role");
    reveal_strlit("TextContent");
    reveal_strlit("ImageContent");
    reveal_strlit("Ref");
    reveal_strlit("RoleRef");
    reveal_strlit("TextContentRef");
    reveal_strlit("ImageContentRef");
    assert(schema_location("Role"@) =~= "#/components/schemas/Role"@);
    assert(schema_location("TextContent"@) =~= "#/components/schemas/TextContent"@);
    assert(schema_location("ImageContent"@) =~= "#/components/schemas/ImageContent"@);
    assert(stand_in_name("Role"@) =~= "RoleRef"@);
    assert(stand_in_name("TextContent"@) =~= "TextContentRef"@);
    assert(stand_in_name("ImageContent"@) =~= "ImageContentRef"@);
}

/// Whatever a type stands for, its reference points to that schema in the components of the
/// document and says nothing of its own, and its name is the schema's with an ending.
pub proof fn lemma_reference_points_to_the_target<R: SchemaRef>(
    reference: Ref,
    target: &str,
    name: String,
)
    requires
        call_ensures(R::reference, (), reference),
        call_ensures(R::target_name, (), target),
        call_ensures(R::name, (), name),
    ensures
        contents_of(reference).location == "#/components/schemas/"@ + target@,
        contents_of(reference).description == Seq::<char>::empty(),
        contents_of(reference).summary == Seq::<char>::empty(),
        name@ == target@ + "Ref"@,
{
}

} // verus!
