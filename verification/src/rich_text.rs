use vstd::prelude::*;

use crate::palette::{PaletteColor, palette_from_hint, palette_hint};

verus! {

/// The kinds of inline format hints.
#[derive(Clone, Copy, Debug, PartialEq, Eq, Structural)]
pub enum RichTextHintType {
    /// Tile layout (`l`).
    Layout,
    /// Tile style (`st`).
    Style,
    /// Tile size (`si`).
    Size,
    /// Whether glyphs are outlined (`o`).
    Outlined,
    /// Foreground color (`fc`).
    ForegroundColor,
    /// Background color (`bc`).
    BackgroundColor,
    /// Outline color (`oc`).
    OutlineColor,
}

/// The key of a format hint as it is written inside a hint.
pub open spec fn hint_key(t: RichTextHintType) -> Seq<char> {
    match t {
        RichTextHintType::Layout => seq!['l'],
        RichTextHintType::Style => seq!['s', 't'],
        RichTextHintType::Size => seq!['s', 'i'],
        RichTextHintType::Outlined => seq!['o'],
        RichTextHintType::ForegroundColor => seq!['f', 'c'],
        RichTextHintType::BackgroundColor => seq!['b', 'c'],
        RichTextHintType::OutlineColor => seq!['o', 'c'],
    }
}

impl RichTextHintType {
    /// Returns the key of the hint type as it is written inside a hint.
    pub fn to_key_value(&self) -> (r: &'static str)
        ensures
            r@ == hint_key(*self),
    {
        match self {
            RichTextHintType::Layout => {
                proof {
                    reveal_strlit("l");
                }
                assert("l"@ =~= hint_key(*self));
                "l"
            },
            RichTextHintType::Style => {
                proof {
                    reveal_strlit("st");
                }
                assert("st"@ =~= hint_key(*self));
                "st"
            },
            RichTextHintType::Size => {
                proof {
                    reveal_strlit("si");
                }
                assert("si"@ =~= hint_key(*self));
                "si"
            },
            RichTextHintType::Outlined => {
                proof {
                    reveal_strlit("o");
                }
                assert("o"@ =~= hint_key(*self));
                "o"
            },
            RichTextHintType::ForegroundColor => {
                proof {
                    reveal_strlit("fc");
                }
                assert("fc"@ =~= hint_key(*self));
                "fc"
            },
            RichTextHintType::BackgroundColor => {
                proof {
                    reveal_strlit("bc");
                }
                assert("bc"@ =~= hint_key(*self));
                "bc"
            },
            RichTextHintType::OutlineColor => {
                proof {
                    reveal_strlit("oc");
                }
                assert("oc"@ =~= hint_key(*self));
                "oc"
            },
        }
    }
}

/// A parsed piece of rich text: text, a newline, or a format hint.
#[derive(Clone, Debug, PartialEq)]
pub enum RichTextValue {
    /// Plain text.
    Text(String),
    /// A line break.
    Newline,
    /// A format hint with its key and value.
    FormatHint { key: RichTextHintType, value: String },
}

/// The abstract value of a parsed piece of rich text.
pub enum RichTextToken {
    /// Plain text.
    Text(Seq<char>),
    /// A line break.
    Newline,
    /// A format hint with its key and value.
    Hint(RichTextHintType, Seq<char>),
}

impl View for RichTextValue {
    type V = RichTextToken;

    open spec fn view(&self) -> RichTextToken {
        match self {
            RichTextValue::Text(t) => RichTextToken::Text(t@),
            RichTextValue::Newline => RichTextToken::Newline,
            RichTextValue::FormatHint { key, value } => RichTextToken::Hint(*key, value@),
        }
    }
}

/// The error returned when rich text does not start with a parsable value.
#[derive(Clone, Copy, Debug, PartialEq, Eq, Structural)]
pub enum RichTextError {
    /// No text, newline, escaped chevron or format hint could be parsed at the start.
    NothingParsed,
}

/// Whether the character at `j` exists and is `c`.
pub open spec fn char_at_is(s: Seq<char>, j: int, c: char) -> bool {
    0 <= j < s.len() && s[j] == c
}

/// Whether a character ends a run of plain text.
pub open spec fn is_special(c: char) -> bool {
    c == '\n' || c == '<'
}

/// The end of the run of plain text starting at `i`: the first newline or left chevron at or
/// after `i`, or the end of the input.
pub open spec fn text_end(s: Seq<char>, i: int) -> int
    decreases s.len() - i,
{
    if i < 0 || i >= s.len() || is_special(s[i]) {
        i
    } else {
        text_end(s, i + 1)
    }
}

/// The hint type whose key, followed by a colon, is written at `j`, if any.
pub open spec fn key_at(s: Seq<char>, j: int) -> Option<RichTextHintType> {
    if char_at_is(s, j, 'l') && char_at_is(s, j + 1, ':') {
        Some(RichTextHintType::Layout)
    } else if char_at_is(s, j, 's') && char_at_is(s, j + 1, 't') && char_at_is(s, j + 2, ':') {
        Some(RichTextHintType::Style)
    } else if char_at_is(s, j, 's') && char_at_is(s, j + 1, 'i') && char_at_is(s, j + 2, ':') {
        Some(RichTextHintType::Size)
    } else if char_at_is(s, j, 'o') && char_at_is(s, j + 1, ':') {
        Some(RichTextHintType::Outlined)
    } else if char_at_is(s, j, 'f') && char_at_is(s, j + 1, 'c') && char_at_is(s, j + 2, ':') {
        Some(RichTextHintType::ForegroundColor)
    } else if char_at_is(s, j, 'b') && char_at_is(s, j + 1, 'c') && char_at_is(s, j + 2, ':') {
        Some(RichTextHintType::BackgroundColor)
    } else if char_at_is(s, j, 'o') && char_at_is(s, j + 1, 'c') && char_at_is(s, j + 2, ':') {
        Some(RichTextHintType::OutlineColor)
    } else {
        None
    }
}

/// Whether a character is one of the color values.
pub open spec fn is_color_char(c: char) -> bool {
    c == 'r' || c == 'R' || c == 'o' || c == 'O' || c == 'w' || c == 'W' || c == 'g' || c == 'G'
        || c == 'b' || c == 'B' || c == 'p' || c == 'P' || c == 'c' || c == 'C' || c == 'm' || c
        == 'M' || c == '$' || c == 'k' || c == 'K' || c == 'y' || c == 'Y' || c == 'T'
}

/// The length of the value of a hint of type `t` written at `j`, if one is: the first of the
/// type's values (in the order `bi` before `b`) that is written there.
pub open spec fn value_len_at(t: RichTextHintType, s: Seq<char>, j: int) -> Option<int> {
    if !(0 <= j < s.len()) {
        None
    } else {
        let c = s[j];
        match t {
            RichTextHintType::Layout => if c == 'c' || c == 'f' || c == 't' { Some(1) } else { None },
            RichTextHintType::Style => if c == 'r' {
                Some(1)
            } else if c == 'b' && char_at_is(s, j + 1, 'i') {
                Some(2)
            } else if c == 'b' || c == 'i' {
                Some(1)
            } else {
                None
            },
            RichTextHintType::Size => if c == 's' || c == 'n' || c == 'b' || c == 'g' { Some(1) } else { None },
            RichTextHintType::Outlined => if c == 't' || c == 'f' { Some(1) } else { None },
            _ => if is_color_char(c) { Some(1) } else { None },
        }
    }
}

/// The length of a hint's key.
pub open spec fn key_len(t: RichTextHintType) -> int {
    hint_key(t).len() as int
}

/// The format hint `<key:value>` written at `i`, if one is: its type, value and end.
pub open spec fn hint_at(s: Seq<char>, i: int) -> Option<(RichTextHintType, Seq<char>, int)> {
    if !char_at_is(s, i, '<') {
        None
    } else {
        match key_at(s, i + 1) {
            None => None,
            Some(t) => {
                let v = i + 2 + key_len(t);
                match value_len_at(t, s, v) {
                    None => None,
                    Some(n) => if char_at_is(s, v + n, '>') {
                        Some((t, s.subrange(v, v + n), v + n + 1))
                    } else {
                        None
                    },
                }
            },
        }
    }
}

/// The value parsed at `i`, and where the next one starts: plain text up to the next newline
/// or left chevron, else a newline, else an escaped chevron `<<` (which is the text `<`),
/// else a format hint.
pub open spec fn item_at(s: Seq<char>, i: int) -> Option<(RichTextToken, int)> {
    if !(0 <= i < s.len()) {
        None
    } else if !is_special(s[i]) {
        Some((RichTextToken::Text(s.subrange(i, text_end(s, i))), text_end(s, i)))
    } else if s[i] == '\n' {
        Some((RichTextToken::Newline, i + 1))
    } else if char_at_is(s, i + 1, '<') {
        Some((RichTextToken::Text(seq!['<']), i + 2))
    } else {
        match hint_at(s, i) {
            Some((t, v, e)) => Some((RichTextToken::Hint(t, v), e)),
            None => None,
        }
    }
}

/// The text end lies between its start and the end of the input.
pub proof fn lemma_text_end(s: Seq<char>, i: int)
    requires
        0 <= i <= s.len(),
    ensures
        i <= text_end(s, i) <= s.len(),
        forall|j: int| i <= j < text_end(s, i) ==> !is_special(#[trigger] s[j]),
        text_end(s, i) < s.len() ==> is_special(s[text_end(s, i)]),
    decreases s.len() - i,
{
    if i < s.len() && !is_special(s[i]) {
        lemma_text_end(s, i + 1);
    }
}

/// A parsed value ends after its start.
pub proof fn lemma_item_progress(s: Seq<char>, i: int)
    requires
        0 <= i <= s.len(),
    ensures
        item_at(s, i) matches Some((_, e)) ==> i < e <= s.len(),
{
    lemma_text_end(s, i);
}

/// The values parsed one after another from `i`, until the end or an unparsable position.
pub open spec fn parse_from(s: Seq<char>, i: int) -> Seq<RichTextToken>
    decreases s.len() - i,
{
    if !(0 <= i <= s.len()) {
        Seq::empty()
    } else {
        match item_at(s, i) {
            None => Seq::empty(),
            Some((t, e)) => {
                proof {
                    lemma_item_progress(s, i);
                }
                seq![t] + parse_from(s, e)
            },
        }
    }
}

/// The characters of a string.
pub(crate) fn chars_of(input: &str) -> (r: Vec<char>)
    ensures
        r@ == input@,
{
    let n = input.unicode_len();
    let mut v: Vec<char> = Vec::new();
    let mut k: usize = 0;
    while k < n
        invariant
            n == input@.len(),
            k <= n,
            v@ == input@.take(k as int),
        decreases n - k,
    {
        v.push(input.get_char(k));
        assert(v@ =~= input@.take(k + 1));
        k = k + 1;
    }
    assert(input@.take(n as int) =~= input@);
    v
}

/// Whether the character at `j` exists and is `c`.
fn char_is(chars: &Vec<char>, j: usize, c: char) -> (r: bool)
    ensures
        r == char_at_is(chars@, j as int, c),
{
    j < chars.len() && chars[j] == c
}

/// Finds the end of the run of plain text starting at `i`.
fn find_text_end(chars: &Vec<char>, i: usize) -> (r: usize)
    requires
        i <= chars@.len(),
    ensures
        r == text_end(chars@, i as int),
{
    let mut j = i;
    while j < chars.len() && chars[j] != '\n' && chars[j] != '<'
        invariant
            i <= j <= chars@.len(),
            text_end(chars@, i as int) == text_end(chars@, j as int),
        decreases chars.len() - j,
    {
        j = j + 1;
    }
    j
}

/// Finds the hint type whose key, followed by a colon, is written at `j`.
fn find_key(chars: &Vec<char>, j: usize) -> (r: Option<RichTextHintType>)
    requires
        j < usize::MAX - 3,
    ensures
        r == key_at(chars@, j as int),
{
    if char_is(chars, j, 'l') && char_is(chars, j + 1, ':') {
        Some(RichTextHintType::Layout)
    } else if char_is(chars, j, 's') && char_is(chars, j + 1, 't') && char_is(chars, j + 2, ':') {
        Some(RichTextHintType::Style)
    } else if char_is(chars, j, 's') && char_is(chars, j + 1, 'i') && char_is(chars, j + 2, ':') {
        Some(RichTextHintType::Size)
    } else if char_is(chars, j, 'o') && char_is(chars, j + 1, ':') {
        Some(RichTextHintType::Outlined)
    } else if char_is(chars, j, 'f') && char_is(chars, j + 1, 'c') && char_is(chars, j + 2, ':') {
        Some(RichTextHintType::ForegroundColor)
    } else if char_is(chars, j, 'b') && char_is(chars, j + 1, 'c') && char_is(chars, j + 2, ':') {
        Some(RichTextHintType::BackgroundColor)
    } else if char_is(chars, j, 'o') && char_is(chars, j + 1, 'c') && char_is(chars, j + 2, ':') {
        Some(RichTextHintType::OutlineColor)
    } else {
        None
    }
}

/// The length of a hint type's key.
fn key_length(t: RichTextHintType) -> (r: usize)
    ensures
        r == key_len(t),
{
    match t {
        RichTextHintType::Layout | RichTextHintType::Outlined => 1,
        _ => 2,
    }
}

/// Whether a character is one of the color values.
fn color_char(c: char) -> (r: bool)
    ensures
        r == is_color_char(c),
{
    c == 'r' || c == 'R' || c == 'o' || c == 'O' || c == 'w' || c == 'W' || c == 'g' || c == 'G'
        || c == 'b' || c == 'B' || c == 'p' || c == 'P' || c == 'c' || c == 'C' || c == 'm' || c
        == 'M' || c == '$' || c == 'k' || c == 'K' || c == 'y' || c == 'Y' || c == 'T'
}

/// Finds the length of the value of a hint of type `t` written at `j`.
fn find_value_len(t: RichTextHintType, chars: &Vec<char>, j: usize) -> (r: Option<usize>)
    requires
        j < usize::MAX - 2,
    ensures
        r matches Some(n) ==> value_len_at(t, chars@, j as int) == Some(n as int),
        r is None ==> value_len_at(t, chars@, j as int) is None,
{
    if j >= chars.len() {
        return None;
    }
    let c = chars[j];
    match t {
        RichTextHintType::Layout => if c == 'c' || c == 'f' || c == 't' { Some(1) } else { None },
        RichTextHintType::Style => if c == 'r' {
            Some(1)
        } else if c == 'b' && char_is(chars, j + 1, 'i') {
            Some(2)
        } else if c == 'b' || c == 'i' {
            Some(1)
        } else {
            None
        },
        RichTextHintType::Size => if c == 's' || c == 'n' || c == 'b' || c == 'g' { Some(1) } else { None },
        RichTextHintType::Outlined => if c == 't' || c == 'f' { Some(1) } else { None },
        _ => if color_char(c) { Some(1) } else { None },
    }
}

/// Parses the format hint written at `i`: its type, the start and length of its value, and
/// its end.
fn find_hint(chars: &Vec<char>, i: usize) -> (r: Option<(RichTextHintType, usize, usize, usize)>)
    requires
        i < chars@.len(),
        chars@.len() < usize::MAX - 8,
    ensures
        match r {
            Some((t, v, n, e)) => hint_at(chars@, i as int) == Some(
                (t, chars@.subrange(v as int, v + n), e as int),
            ) && v + n < e,
            None => hint_at(chars@, i as int) is None,
        },
{
    if !char_is(chars, i, '<') {
        return None;
    }
    match find_key(chars, i + 1) {
        None => None,
        Some(t) => {
            let v = i + 2 + key_length(t);
            match find_value_len(t, chars, v) {
                None => None,
                Some(n) => if char_is(chars, v + n, '>') {
                    Some((t, v, n, v + n + 1))
                } else {
                    None
                },
            }
        },
    }
}

/// Parses the value at `i` and returns it with the position where the next value starts.
fn parse_item(chars: &Vec<char>, input: &str, i: usize) -> (r: Option<(RichTextValue, usize)>)
    requires
        chars@ == input@,
        i < chars@.len(),
        chars@.len() < usize::MAX - 8,
    ensures
        match r {
            Some((v, e)) => item_at(input@, i as int) == Some((v@, e as int)),
            None => item_at(input@, i as int) is None,
        },
{
    let c = chars[i];
    if c != '\n' && c != '<' {
        let e = find_text_end(chars, i);
        proof {
            lemma_text_end(chars@, i as int);
        }
        let text = input.substring_char(i, e).to_owned();
        return Some((RichTextValue::Text(text), e));
    }
    if c == '\n' {
        return Some((RichTextValue::Newline, i + 1));
    }
    if char_is(chars, i + 1, '<') {
        let text = "<".to_owned();
        proof {
            reveal_strlit("<");
        }
        assert(text@ =~= seq!['<']);
        return Some((RichTextValue::Text(text), i + 2));
    }
    match find_hint(chars, i) {
        Some((t, v, n, e)) => {
            let value = input.substring_char(v, v + n).to_owned();
            Some((RichTextValue::FormatHint { key: t, value }, e))
        },
        None => None,
    }
}

/// Parses rich text: text, newlines, escaped chevrons `<<` and format hints `<key:value>`.
/// Parsing stops at the end of the input or at the first position where nothing can be parsed;
/// it fails only when nothing can be parsed at the start.
pub fn parse_rich_text(input: &str) -> (r: Result<Vec<RichTextValue>, RichTextError>)
    requires
        input@.len() < usize::MAX - 8,
    ensures
        match r {
            Ok(values) => item_at(input@, 0) is Some && values@.map_values(
                |v: RichTextValue| v@,
            ) == parse_from(input@, 0),
            Err(_) => item_at(input@, 0) is None,
        },
{
    let chars = chars_of(input);
    if chars.len() == 0 {
        return Err(RichTextError::NothingParsed);
    }
    let mut values: Vec<RichTextValue> = Vec::new();
    let mut i: usize = 0;
    let first = parse_item(&chars, input, 0);
    if first.is_none() {
        return Err(RichTextError::NothingParsed);
    }
    loop
        invariant
            chars@ == input@,
            chars@.len() < usize::MAX - 8,
            i <= chars@.len(),
            item_at(input@, 0) is Some,
            values@.map_values(|v: RichTextValue| v@) + parse_from(input@, i as int) == parse_from(
                input@,
                0,
            ),
        ensures
            parse_from(input@, i as int) =~= Seq::<RichTextToken>::empty(),
        decreases chars@.len() - i,
    {
        if i >= chars.len() {
            break;
        }
        proof {
            lemma_item_progress(input@, i as int);
        }
        match parse_item(&chars, input, i) {
            None => {
                break;
            },
            Some((v, e)) => {
                let ghost old_values = values@;
                values.push(v);
                assert(values@.map_values(|v: RichTextValue| v@) =~= old_values.map_values(
                    |v: RichTextValue| v@,
                ).push(v@));
                assert(parse_from(input@, i as int) == seq![v@] + parse_from(input@, e as int));
                assert(values@.map_values(|v: RichTextValue| v@) + parse_from(input@, e as int)
                    =~= old_values.map_values(|v: RichTextValue| v@) + parse_from(input@, i as int));
                i = e;
            },
        }
    }
    assert(values@.map_values(|v: RichTextValue| v@) =~= parse_from(input@, 0));
    Ok(values)
}

/// The values that a hint of a type accepts.
pub open spec fn hint_value_valid(t: RichTextHintType, v: Seq<char>) -> bool {
    match t {
        RichTextHintType::Layout => v == seq!['c'] || v == seq!['f'] || v == seq!['t'],
        RichTextHintType::Style => v == seq!['r'] || v == seq!['b', 'i'] || v == seq!['b'] || v
            == seq!['i'],
        RichTextHintType::Size => v == seq!['s'] || v == seq!['n'] || v == seq!['b'] || v
            == seq!['g'],
        RichTextHintType::Outlined => v == seq!['t'] || v == seq!['f'],
        _ => v.len() == 1 && is_color_char(v[0]),
    }
}

/// The text of a format hint: `<key:value>`.
pub open spec fn render_hint(t: RichTextHintType, v: Seq<char>) -> Seq<char> {
    seq!['<'] + hint_key(t) + seq![':'] + v + seq!['>']
}

/// A format hint written out as `<key:value>`, with a value its type accepts, is parsed back
/// as that hint, whatever follows it.
pub proof fn law_hint_round_trip(t: RichTextHintType, v: Seq<char>, rest: Seq<char>)
    requires
        hint_value_valid(t, v),
    ensures
        item_at(render_hint(t, v) + rest, 0) == Some(
            (RichTextToken::Hint(t, v), render_hint(t, v).len() as int),
        ),
{
    let s = render_hint(t, v) + rest;
    let k = hint_key(t);
    assert(s[0] == '<');
    assert(forall|j: int| 0 <= j < k.len() ==> s[1 + j] == k[j]);
    let kl = k.len() as int;
    let vl = v.len() as int;
    assert(s[1 + kl] == ':');
    assert(forall|j: int| 0 <= j < vl ==> s[2 + kl + j] == v[j]);
    assert(s[2 + kl + vl] == '>');
    assert(key_at(s, 1) == Some(t));
    assert(value_len_at(t, s, 2 + kl) == Some(vl));
    assert(s.subrange(2 + kl, 2 + kl + vl) =~= v);
}

/// A format hint written out alone as `<key:value>`, with a value its type accepts, parses to
/// exactly that one hint and nothing else.
pub proof fn law_lone_hint_parses(t: RichTextHintType, v: Seq<char>)
    requires
        hint_value_valid(t, v),
    ensures
        parse_from(render_hint(t, v), 0) == seq![RichTextToken::Hint(t, v)],
{
    let s = render_hint(t, v);
    law_hint_round_trip(t, v, Seq::empty());
    assert(s + Seq::<char>::empty() =~= s);
    let n = s.len() as int;
    assert(item_at(s, n) is None);
    assert(parse_from(s, n) =~= Seq::<RichTextToken>::empty());
    assert(parse_from(s, 0) == seq![RichTextToken::Hint(t, v)] + parse_from(s, n));
    assert(seq![RichTextToken::Hint(t, v)] + Seq::<RichTextToken>::empty() =~= seq![
        RichTextToken::Hint(t, v),
    ]);
}

/// A run of plain text (no newline and no left chevron) is parsed as one text value holding all
/// of it, whatever special character follows it.
pub proof fn law_plain_text(text: Seq<char>, rest: Seq<char>)
    requires
        text.len() > 0,
        forall|j: int| 0 <= j < text.len() ==> !is_special(#[trigger] text[j]),
        rest.len() == 0 || is_special(rest[0]),
    ensures
        item_at(text + rest, 0) == Some((RichTextToken::Text(text), text.len() as int)),
{
    let s = text + rest;
    lemma_text_end(s, 0);
    lemma_text_end_plain(s, text.len() as int, 0);
    assert(s.subrange(0, text.len() as int) =~= text);
}

/// The text end from inside a run of plain text is the end of the run.
proof fn lemma_text_end_plain(s: Seq<char>, n: int, i: int)
    requires
        0 <= i <= n <= s.len(),
        forall|j: int| i <= j < n ==> !is_special(#[trigger] s[j]),
        n == s.len() || is_special(s[n]),
    ensures
        text_end(s, i) == n,
    decreases n - i,
{
    if i < n {
        lemma_text_end_plain(s, n, i + 1);
    }
}

/// An escaped chevron `<<` is parsed as the text `<`.
pub proof fn law_escaped_chevron(rest: Seq<char>)
    ensures
        item_at(seq!['<', '<'] + rest, 0) == Some((RichTextToken::Text(seq!['<']), 2int)),
{
    let s = seq!['<', '<'] + rest;
    assert(s[0] == '<' && s[1] == '<');
}

/// Whether a kind of hint takes a palette color as its value.
pub open spec fn is_color_hint(t: RichTextHintType) -> bool {
    t == RichTextHintType::ForegroundColor || t == RichTextHintType::BackgroundColor || t
        == RichTextHintType::OutlineColor
}

/// The values of the color hints are exactly the palette's format hints: every palette color's
/// hint is accepted, and a color hint written with it alone parses to exactly that hint.
pub proof fn law_palette_hints_are_color_values(t: RichTextHintType, c: PaletteColor)
    requires
        is_color_hint(t),
    ensures
        hint_value_valid(t, palette_hint(c)),
        parse_from(render_hint(t, palette_hint(c)), 0) == seq![
            RichTextToken::Hint(t, palette_hint(c)),
        ],
{
    law_lone_hint_parses(t, palette_hint(c));
}

/// Every value that a color hint accepts is the format hint of a palette color.
pub proof fn law_color_values_are_palette_hints(t: RichTextHintType, v: Seq<char>)
    requires
        is_color_hint(t),
        hint_value_valid(t, v),
    ensures
        palette_from_hint(v) is Some,
        palette_hint(palette_from_hint(v)->0) == v,
{
    assert(v =~= seq![v[0]]);
}

} // verus!
