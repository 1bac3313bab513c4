use vstd::prelude::*;

use crate::rich_text::{
    RichTextError, RichTextHintType, RichTextToken, RichTextValue, chars_of, item_at, parse_from,
    parse_rich_text, render_hint,
};
use crate::widgets::format_state::{
    FormatState, FormatView, format_cleared, format_tag, format_with_hint, opt_tag, push_tag,
};

verus! {

/// Whether a character is white space, as `char::is_whitespace` defines it (the Unicode
/// `White_Space` property).
pub open spec fn is_white_space(c: char) -> bool {
    let u = c as u32;
    u == 0x20 || (9 <= u <= 13) || u == 0x85 || u == 0xA0 || u == 0x1680 || (0x2000 <= u
        <= 0x200A) || u == 0x2028 || u == 0x2029 || u == 0x202F || u == 0x205F || u == 0x3000
}

/// The words found in the first `n` characters of `t`, and the word still being read.
pub open spec fn split_state(t: Seq<char>, n: int) -> (Seq<Seq<char>>, Seq<char>)
    decreases n,
{
    if n <= 0 {
        (Seq::empty(), Seq::empty())
    } else {
        let (ws, cur) = split_state(t, n - 1);
        if is_white_space(t[n - 1]) {
            if cur.len() > 0 {
                (ws.push(cur), Seq::empty())
            } else {
                (ws, cur)
            }
        } else {
            (ws, cur.push(t[n - 1]))
        }
    }
}

/// The words of `t`: its maximal runs of characters that are not white space, in order.
pub open spec fn split_whitespace(t: Seq<char>) -> Seq<Seq<char>> {
    let (ws, cur) = split_state(t, t.len() as int);
    if cur.len() > 0 {
        ws.push(cur)
    } else {
        ws
    }
}

/// The wrapped text of a rich text wrapper and what it needs to go on wrapping.
pub struct WrapView {
    /// The wrapped rich text.
    pub text: Seq<char>,
    /// Where each line starts in the text.
    pub newlines: Seq<usize>,
    /// The number of glyphs on the last line.
    pub line_len: int,
    /// Whether a space goes before the next text.
    pub prepend_space: bool,
    /// The current format.
    pub format: FormatView,
}

/// The shape of wrapped text: the first line starts at 0, lines start in increasing order
/// within the text, each line but the first starts right after a newline, and the last line
/// holds at least its glyphs.
pub open spec fn wf_model(m: WrapView) -> bool {
    &&& m.newlines.len() >= 1
    &&& m.newlines[0] == 0
    &&& forall|i: int, j: int| 0 <= i < j < m.newlines.len() ==> m.newlines[i] < m.newlines[j]
    &&& forall|i: int| 0 <= i < m.newlines.len() ==> m.newlines[i] <= m.text.len()
    &&& forall|i: int| 1 <= i < m.newlines.len() ==> m.text[m.newlines[i] - 1] == '\n'
    &&& 0 <= m.line_len <= m.text.len() - m.newlines.last()
}

/// The text with a trailing space dropped and a newline written.
pub open spec fn broken_text(t: Seq<char>) -> Seq<char> {
    let t1 = if t.len() > 0 && t.last() == ' ' {
        t.drop_last()
    } else {
        t
    };
    t1.push('\n')
}

/// Breaks the line: drops a trailing space, writes a newline, starts a line there, and writes
/// the current format's tag string so the new line keeps the format.
pub open spec fn push_newline(m: WrapView) -> WrapView {
    let t2 = broken_text(m.text);
    let (tag, f) = format_tag(m.format);
    WrapView {
        text: t2 + tag,
        newlines: m.newlines.push(t2.len() as usize),
        line_len: 0,
        prepend_space: m.prepend_space,
        format: f,
    }
}

/// Appends a word (or a space) of `width`-wide lines: a word that does not fit on the line goes
/// to a new line, a space that does not fit is dropped.
pub open spec fn push_word(m: WrapView, word: Seq<char>, is_space: bool, width: int) -> WrapView {
    if m.line_len + word.len() > width {
        if is_space {
            m
        } else {
            let n = push_newline(m);
            WrapView { text: n.text + word, line_len: word.len() as int, ..n }
        }
    } else {
        WrapView { text: m.text + word, line_len: m.line_len + word.len(), ..m }
    }
}

/// Appends the first `n` of the words `ws`, with a space between two words.
pub open spec fn push_words(m: WrapView, ws: Seq<Seq<char>>, n: int, width: int) -> WrapView
    decreases n,
{
    if n <= 0 {
        m
    } else {
        let p = push_words(m, ws, n - 1, width);
        let q = push_word(p, ws[n - 1], false, width);
        if n < ws.len() {
            push_word(q, seq![' '], true, width)
        } else {
            q
        }
    }
}

/// Appends text: its words, single-spaced, with a space before them when the text starts with
/// one or follows other text, and a space after them when it ends with one.
pub open spec fn push_text(m: WrapView, t: Seq<char>, width: int) -> WrapView {
    let ws = split_whitespace(t);
    let m1 = if m.prepend_space || (t.len() > 0 && t[0] == ' ') {
        push_word(m, seq![' '], true, width)
    } else {
        m
    };
    let m2 = push_words(m1, ws, ws.len() as int, width);
    if t.len() > 0 && t.last() == ' ' {
        push_word(m2, seq![' '], true, width)
    } else {
        m2
    }
}

/// Appends one parsed value: a hint is written inline and becomes part of the format, a newline
/// breaks the line, text is wrapped.
pub open spec fn push_value(m: WrapView, v: RichTextToken, width: int) -> WrapView {
    match v {
        RichTextToken::Hint(k, s) => WrapView {
            text: m.text + render_hint(k, s),
            format: format_with_hint(m.format, k, s),
            prepend_space: false,
            ..m
        },
        RichTextToken::Newline => WrapView { prepend_space: false, ..push_newline(m) },
        RichTextToken::Text(t) => WrapView { prepend_space: true, ..push_text(m, t, width) },
    }
}

/// Appends the first `n` parsed values.
pub open spec fn push_values(m: WrapView, vs: Seq<RichTextToken>, n: int, width: int) -> WrapView
    decreases n,
{
    if n <= 0 {
        m
    } else {
        push_value(push_values(m, vs, n - 1, width), vs[n - 1], width)
    }
}

/// Keeps only the last `max_lines` lines.
pub open spec fn truncate_lines(m: WrapView, max_lines: int) -> WrapView {
    if m.newlines.len() > max_lines {
        let index = m.newlines.len() - max_lines;
        let start = m.newlines[index];
        WrapView {
            text: m.text.subrange(start as int, m.text.len() as int),
            newlines: m.newlines.subrange(index, m.newlines.len() as int).map_values(
                |n: usize| (n - start) as usize,
            ),
            ..m
        }
    } else {
        m
    }
}

/// The number of lines below the visible area.
pub open spec fn lines_below(total: int, current: int, height: int) -> int {
    if total - (current + height) > 0 {
        total - (current + height)
    } else {
        0
    }
}

/// The end of the visible area in the text, from line `current` on in `height` rows.
pub open spec fn visible_end_of(m: WrapView, current: int, height: int) -> int {
    let total = m.newlines.len();
    if total > height && current + height < total {
        m.newlines[current + height] - 1
    } else {
        m.text.len() as int
    }
}

/// Breaking a line keeps the text well shaped.
proof fn lemma_push_newline_wf(m: WrapView)
    requires
        wf_model(m),
        broken_text(m.text).len() <= usize::MAX,
    ensures
        wf_model(push_newline(m)),
        push_newline(m).newlines.len() == m.newlines.len() + 1,
{
    let last = m.newlines.last();
    let t1 = if m.text.len() > 0 && m.text.last() == ' ' {
        m.text.drop_last()
    } else {
        m.text
    };
    if m.text.len() > 0 && m.text.last() == ' ' {
        if m.newlines.len() > 1 {
            assert(m.newlines[m.newlines.len() - 1] == last);
        }
        assert(last < m.text.len());
    }
    assert(last <= t1.len());
    assert forall|i: int| 0 <= i < m.newlines.len() implies m.newlines[i] <= last by {
        if i < m.newlines.len() - 1 {
            assert(m.newlines[i] < m.newlines[m.newlines.len() - 1]);
        }
    }
    let t2 = t1.push('\n');
    let tag = format_tag(m.format).0;
    let n = push_newline(m);
    assert(n.text == t2 + tag);
    assert(n.newlines == m.newlines.push(t2.len() as usize));
    assert forall|i: int| 1 <= i < n.newlines.len() implies n.text[n.newlines[i] - 1] == '\n' by {
        if i < m.newlines.len() {
            assert(m.newlines[0] < m.newlines[i]);
            assert(n.newlines[i] == m.newlines[i]);
            assert(m.newlines[i] <= last);
            assert(t1[m.newlines[i] - 1] == m.text[m.newlines[i] - 1]);
            assert(n.text[n.newlines[i] - 1] == t2[n.newlines[i] - 1]);
        } else {
            assert(n.newlines[i] == t2.len());
            assert(n.text[t2.len() - 1] == t2[t2.len() - 1]);
        }
    }
    assert forall|i: int, j: int| 0 <= i < j < n.newlines.len() implies n.newlines[i] < n.newlines[j] by {
        if j < m.newlines.len() {
        } else {
            assert(m.newlines[i] <= last);
        }
    }
}

/// Appending to the text keeps it well shaped.
proof fn lemma_append_wf(m: WrapView, s: Seq<char>, line_len: int)
    requires
        wf_model(m),
        0 <= line_len <= m.text.len() + s.len() - m.newlines.last(),
    ensures
        wf_model(WrapView { text: m.text + s, line_len, ..m }),
{
    let n = WrapView { text: m.text + s, line_len, ..m };
    assert forall|i: int| 1 <= i < n.newlines.len() implies n.text[n.newlines[i] - 1] == '\n' by {
        assert(n.text[n.newlines[i] - 1] == m.text[m.newlines[i] - 1]);
    }
}

/// Appending a word never removes a line.
proof fn lemma_push_word_lines(m: WrapView, word: Seq<char>, is_space: bool, width: int)
    ensures
        push_word(m, word, is_space, width).newlines.len() >= m.newlines.len(),
{
}

/// Appending words never removes a line.
proof fn lemma_push_words_lines(m: WrapView, ws: Seq<Seq<char>>, n: int, width: int)
    ensures
        push_words(m, ws, n, width).newlines.len() >= m.newlines.len(),
    decreases n,
{
    if n > 0 {
        lemma_push_words_lines(m, ws, n - 1, width);
        let p = push_words(m, ws, n - 1, width);
        lemma_push_word_lines(p, ws[n - 1], false, width);
        lemma_push_word_lines(push_word(p, ws[n - 1], false, width), seq![' '], true, width);
    }
}

/// Appending text never removes a line.
proof fn lemma_push_text_lines(m: WrapView, t: Seq<char>, width: int)
    ensures
        push_text(m, t, width).newlines.len() >= m.newlines.len(),
{
    let ws = split_whitespace(t);
    lemma_push_word_lines(m, seq![' '], true, width);
    let m1 = if m.prepend_space || (t.len() > 0 && t[0] == ' ') {
        push_word(m, seq![' '], true, width)
    } else {
        m
    };
    lemma_push_words_lines(m1, ws, ws.len() as int, width);
    lemma_push_word_lines(push_words(m1, ws, ws.len() as int, width), seq![' '], true, width);
}

/// Appends `src` to `dst`.
fn append_chars(dst: &mut Vec<char>, src: &Vec<char>)
    ensures
        final(dst)@ == old(dst)@ + src@,
{
    let mut i: usize = 0;
    while i < src.len()
        invariant
            i <= src@.len(),
            dst@ == old(dst)@ + src@.take(i as int),
        decreases src@.len() - i,
    {
        dst.push(src[i]);
        assert(src@.take(i + 1) =~= src@.take(i as int).push(src@[i as int]));
        i = i + 1;
    }
    assert(src@.take(src@.len() as int) =~= src@);
}

/// Whether a character is white space.
fn is_white_space_char(c: char) -> (r: bool)
    ensures
        r == is_white_space(c),
{
    let u = c as u32;
    u == 0x20 || (9 <= u && u <= 13) || u == 0x85 || u == 0xA0 || u == 0x1680 || (0x2000 <= u && u
        <= 0x200A) || u == 0x2028 || u == 0x2029 || u == 0x202F || u == 0x205F || u == 0x3000
}

/// The views of a sequence of char vectors.
pub open spec fn views(ws: Seq<Vec<char>>) -> Seq<Seq<char>> {
    ws.map_values(|w: Vec<char>| w@)
}

/// Splits text into its words.
fn split_words(t: &Vec<char>) -> (r: Vec<Vec<char>>)
    ensures
        views(r@) == split_whitespace(t@),
{
    let mut words: Vec<Vec<char>> = Vec::new();
    let mut cur: Vec<char> = Vec::new();
    let mut i: usize = 0;
    while i < t.len()
        invariant
            i <= t@.len(),
            (views(words@), cur@) == split_state(t@, i as int),
        decreases t@.len() - i,
    {
        let c = t[i];
        let ghost ws = words@;
        if is_white_space_char(c) {
            if cur.len() > 0 {
                let ghost cv = cur@;
                words.push(cur);
                cur = Vec::new();
                assert(views(words@) =~= views(ws).push(cv));
            }
        } else {
            cur.push(c);
        }
        i = i + 1;
    }
    if cur.len() > 0 {
        let ghost ws = words@;
        let ghost cv = cur@;
        words.push(cur);
        assert(views(words@) =~= views(ws).push(cv));
    }
    words
}

/// Wraps rich text to lines of a width, keeps at most a number of lines, and tracks which lines
/// are visible in an area of a height.
pub struct RichTextWrapper {
    origin: (u32, u32),
    dimensions: (u32, u32),
    max_lines: u32,
    total_lines: u32,
    lines_up: u32,
    lines_down: u32,
    format_state: FormatState,
    wrapped_text: Vec<char>,
    prepend_space: bool,
    newline_indices: Vec<usize>,
    last_line_length: usize,
    visible_start: usize,
    visible_end: usize,
    current_line: usize,
}

impl RichTextWrapper {
    /// The wrapped text and what wrapping needs.
    pub closed spec fn model(&self) -> WrapView {
        WrapView {
            text: self.wrapped_text@,
            newlines: self.newline_indices@,
            line_len: self.last_line_length as int,
            prepend_space: self.prepend_space,
            format: self.format_state@,
        }
    }

    /// The origin.
    pub closed spec fn spec_origin(&self) -> (u32, u32) {
        self.origin
    }

    /// The dimensions of the visible area.
    pub closed spec fn spec_dimensions(&self) -> (u32, u32) {
        self.dimensions
    }

    /// The maximum number of lines kept.
    pub closed spec fn spec_max_lines(&self) -> u32 {
        self.max_lines
    }

    /// The number of lines, as of the last refresh.
    pub closed spec fn spec_total_lines(&self) -> u32 {
        self.total_lines
    }

    /// The number of lines above the visible area, as of the last refresh.
    pub closed spec fn spec_lines_up(&self) -> u32 {
        self.lines_up
    }

    /// The number of lines below the visible area, as of the last refresh.
    pub closed spec fn spec_lines_down(&self) -> u32 {
        self.lines_down
    }

    /// Start of the visible area in the text, as of the last refresh.
    pub closed spec fn spec_visible_start(&self) -> usize {
        self.visible_start
    }

    /// End of the visible area in the text, as of the last refresh.
    pub closed spec fn spec_visible_end(&self) -> usize {
        self.visible_end
    }

    /// The first visible line.
    pub closed spec fn spec_current_line(&self) -> usize {
        self.current_line
    }

    /// Whether the wrapper is usable: its text is well shaped, has at most `u32::MAX` lines, and
    /// the first visible line exists.
    pub open spec fn well_formed(&self) -> bool {
        &&& wf_model(self.model())
        &&& self.model().newlines.len() <= u32::MAX
        &&& self.spec_current_line() < self.model().newlines.len()
    }

    /// Whether `b` differs from `a` at most in its wrapped text.
    pub open spec fn same_frame(a: Self, b: Self) -> bool {
        &&& b.spec_origin() == a.spec_origin()
        &&& b.spec_dimensions() == a.spec_dimensions()
        &&& b.spec_max_lines() == a.spec_max_lines()
        &&& b.spec_total_lines() == a.spec_total_lines()
        &&& b.spec_lines_up() == a.spec_lines_up()
        &&& b.spec_lines_down() == a.spec_lines_down()
        &&& b.spec_visible_start() == a.spec_visible_start()
        &&& b.spec_visible_end() == a.spec_visible_end()
        &&& b.spec_current_line() == a.spec_current_line()
    }

    /// Whether the metrics of the visible area are those of the current text and first visible
    /// line.
    pub open spec fn metrics_fresh(&self) -> bool {
        let m = self.model();
        let c = self.spec_current_line() as int;
        let h = self.spec_dimensions().1 as int;
        &&& self.spec_total_lines() == m.newlines.len()
        &&& self.spec_lines_up() == c
        &&& self.spec_lines_down() == lines_below(m.newlines.len() as int, c, h)
        &&& self.spec_visible_start() == m.newlines[c]
        &&& self.spec_visible_end() == visible_end_of(m, c, h)
    }

    /// Creates an empty wrapper.
    pub fn new(origin: (u32, u32), dimensions: (u32, u32), max_lines: u32) -> (r: Self)
        ensures
            r.well_formed(),
            r.spec_origin() == origin,
            r.spec_dimensions() == dimensions,
            r.spec_max_lines() == max_lines,
            r.spec_total_lines() == 0,
            r.spec_lines_up() == 0,
            r.spec_lines_down() == 0,
            r.spec_visible_start() == 0,
            r.spec_visible_end() == 0,
            r.spec_current_line() == 0,
            r.model().text.len() == 0,
            r.model().newlines == seq![0usize],
            r.model().line_len == 0,
            !r.model().prepend_space,
            r.model().format == FormatState::new_view(),
    {
        let mut newline_indices: Vec<usize> = Vec::new();
        newline_indices.push(0);
        RichTextWrapper {
            origin,
            dimensions,
            max_lines,
            total_lines: 0,
            lines_up: 0,
            lines_down: 0,
            format_state: FormatState::new(),
            wrapped_text: Vec::new(),
            prepend_space: false,
            newline_indices,
            last_line_length: 0,
            visible_start: 0,
            visible_end: 0,
            current_line: 0,
        }
    }

    /// Breaks the line.
    fn handle_newline(&mut self)
        requires
            wf_model(old(self).model()),
        ensures
            final(self).model() == push_newline(old(self).model()),
            wf_model(final(self).model()),
            Self::same_frame(*old(self), *final(self)),
    {
        let n = self.wrapped_text.len();
        if n > 0 && self.wrapped_text[n - 1] == ' ' {
            self.wrapped_text.pop();
        }
        self.wrapped_text.push('\n');
        let idx = self.wrapped_text.len();
        proof {
            assert(self.wrapped_text@ == broken_text(old(self).wrapped_text@));
            lemma_push_newline_wf(old(self).model());
        }
        self.newline_indices.push(idx);
        let mut tag = chars_of(self.format_state.tag_string().as_str());
        self.wrapped_text.append(&mut tag);
        self.last_line_length = 0;
    }

    /// Appends a word or a space.
    fn handle_word(&mut self, word: &Vec<char>, is_space: bool)
        requires
            wf_model(old(self).model()),
        ensures
            final(self).model() == push_word(old(self).model(), word@, is_space, old(self).spec_dimensions().0 as int),
            wf_model(final(self).model()),
            Self::same_frame(*old(self), *final(self)),
    {
        let wlen = word.len();
        if (self.last_line_length as u128) + (wlen as u128) > (self.dimensions.0 as u128) {
            if is_space {
                return;
            }
            self.handle_newline();
        }
        let ghost mid = self.model();
        append_chars(&mut self.wrapped_text, word);
        let total = self.wrapped_text.len();
        proof {
            lemma_append_wf(mid, word@, mid.line_len + wlen);
        }
        self.last_line_length = self.last_line_length + wlen;
    }

    /// Writes a hint inline and makes it part of the format.
    fn handle_hint(&mut self, key: RichTextHintType, value: String)
        requires
            wf_model(old(self).model()),
        ensures
            final(self).model() == (WrapView {
                text: old(self).model().text + render_hint(key, value@),
                format: format_with_hint(old(self).model().format, key, value@),
                ..old(self).model()
            }),
            wf_model(final(self).model()),
            Self::same_frame(*old(self), *final(self)),
    {
        let ghost m = self.model();
        push_tag(&mut self.wrapped_text, key.to_key_value(), &value);
        proof {
            let _ = self.wrapped_text@.len();
            lemma_append_wf(m, render_hint(key, value@), m.line_len);
        }
        self.format_state.update_from_hint(key, value);
    }

    /// Appends text, wrapped word by word.
    fn handle_text(&mut self, text: &Vec<char>)
        requires
            wf_model(old(self).model()),
        ensures
            final(self).model() == push_text(old(self).model(), text@, old(self).spec_dimensions().0 as int),
            wf_model(final(self).model()),
            Self::same_frame(*old(self), *final(self)),
    {
        let ghost m = self.model();
        let ghost w = self.dimensions.0 as int;
        let space: Vec<char> = vec![' '];
        assert(space@ =~= seq![' ']);
        let words = split_words(text);
        let ghost ws = split_whitespace(text@);
        let n = text.len();
        if self.prepend_space || (n > 0 && text[0] == ' ') {
            self.handle_word(&space, true);
        }
        let ghost m1 = self.model();
        let mut i: usize = 0;
        while i < words.len()
            invariant
                views(words@) == ws,
                space@ == seq![' '],
                i <= words@.len(),
                w == self.dimensions.0,
                wf_model(self.model()),
                self.model() == push_words(m1, ws, i as int, w),
                Self::same_frame(*old(self), *self),
            decreases words@.len() - i,
        {
            assert(words@[i as int]@ == ws[i as int]);
            self.handle_word(&words[i], false);
            if i + 1 < words.len() {
                self.handle_word(&space, true);
            }
            i = i + 1;
        }
        if n > 0 && text[n - 1] == ' ' {
            self.handle_word(&space, true);
        }
    }

    /// Keeps only the last `max_lines` lines.
    fn truncate_text(&mut self)
        requires
            wf_model(old(self).model()),
            old(self).spec_max_lines() >= 1,
        ensures
            final(self).model() == truncate_lines(old(self).model(), old(self).spec_max_lines() as int),
            wf_model(final(self).model()),
            final(self).model().newlines.len() <= old(self).spec_max_lines(),
            old(self).model().newlines.len() <= old(self).spec_max_lines() ==> final(self).model().newlines.len() == old(self).model().newlines.len(),
            old(self).model().newlines.len() > old(self).spec_max_lines() ==> final(self).model().newlines.len() == old(self).spec_max_lines(),
            Self::same_frame(*old(self), *final(self)),
    {
        let len = self.newline_indices.len();
        let max = self.max_lines as usize;
        if len > max {
            let ghost m = self.model();
            let index = len - max;
            let start = self.newline_indices[index];
            proof {
                assert(m.newlines[index as int] <= m.text.len());
            }
            let mut lines: Vec<usize> = Vec::new();
            let mut k: usize = index;
            while k < len
                invariant
                    m == self.model(),
                    wf_model(m),
                    len == m.newlines.len(),
                    index <= k <= len,
                    start == m.newlines[index as int],
                    lines@ == m.newlines.subrange(index as int, k as int).map_values(|n: usize| (n - start) as usize),
                decreases len - k,
            {
                proof {
                    if k > index {
                        assert(m.newlines[index as int] < m.newlines[k as int]);
                    }
                }
                lines.push(self.newline_indices[k] - start);
                proof {
                    assert(lines@ =~= m.newlines.subrange(index as int, k + 1).map_values(|n: usize| (n - start) as usize));
                }
                k = k + 1;
            }
            let mut text: Vec<char> = Vec::new();
            let tlen = self.wrapped_text.len();
            let mut j: usize = start;
            while j < tlen
                invariant
                    m == self.model(),
                    tlen == m.text.len(),
                    start <= j <= tlen,
                    text@ == m.text.subrange(start as int, j as int),
                decreases tlen - j,
            {
                text.push(self.wrapped_text[j]);
                proof {
                    assert(text@ =~= m.text.subrange(start as int, j + 1));
                }
                j = j + 1;
            }
            self.newline_indices = lines;
            self.wrapped_text = text;
            proof {
                let t = truncate_lines(m, max as int);
                assert(self.model().newlines =~= t.newlines);
                assert(self.model().text =~= t.text);
                assert(forall|i: int| 0 <= i < t.newlines.len() ==> t.newlines[i] == m.newlines[index + i] - start);
                assert forall|i: int, j: int| 0 <= i < j < t.newlines.len() implies t.newlines[i] < t.newlines[j] by {
                    assert(m.newlines[index + i] < m.newlines[index + j]);
                }
                assert forall|i: int| 1 <= i < t.newlines.len() implies t.text[t.newlines[i] - 1] == '\n' by {
                    assert(m.newlines[index as int] < m.newlines[index + i]);
                    assert(t.text[t.newlines[i] - 1] == m.text[m.newlines[index + i] - 1]);
                }
                assert forall|i: int| 0 <= i < t.newlines.len() implies t.newlines[i] <= t.text.len() by {
                    assert(m.newlines[index + i] <= m.text.len());
                }
                assert(t.newlines.last() == m.newlines.last() - start);
            }
        }
    }

    /// Recomputes the metrics of the visible area from the text and the first visible line.
    fn refresh_visible_area_metrics(&mut self)
        requires
            old(self).well_formed(),
            old(self).spec_current_line() > 0 || old(self).spec_dimensions().1 > 0,
        ensures
            final(self).model() == old(self).model(),
            final(self).spec_origin() == old(self).spec_origin(),
            final(self).spec_dimensions() == old(self).spec_dimensions(),
            final(self).spec_max_lines() == old(self).spec_max_lines(),
            final(self).spec_current_line() == old(self).spec_current_line(),
            final(self).well_formed(),
            final(self).metrics_fresh(),
    {
        let len = self.newline_indices.len();
        let c = self.current_line;
        let h = self.dimensions.1;
        self.total_lines = len as u32;
        self.lines_up = c as u32;
        let down: i64 = (len as i64) - (c as i64 + h as i64);
        self.lines_down = if down > 0 {
            down as u32
        } else {
            0
        };
        self.visible_start = self.newline_indices[c];
        if self.total_lines > h {
            if (c as u64) + (h as u64) >= (self.total_lines as u64) {
                self.visible_end = self.wrapped_text.len();
            } else {
                let k = c + h as usize;
                proof {
                    assert(self.newline_indices@[0] < self.newline_indices@[k as int]);
                }
                self.visible_end = self.newline_indices[k] - 1;
            }
        } else {
            self.visible_end = self.wrapped_text.len();
        }
    }

    /// Appends rich text: hints are written inline and change the format, which every new line
    /// starts with; newlines break the line; text is wrapped word by word to the width, single
    /// spaced. Then only the last `max_lines` lines are kept and the metrics of the visible area
    /// are refreshed. Fails, changing nothing, when the text does not start with a parsable
    /// value.
    pub fn append(&mut self, text: &str) -> (r: Result<(), RichTextError>)
        requires
            old(self).well_formed(),
            text@.len() < usize::MAX - 8,
            old(self).spec_max_lines() >= 1,
            old(self).spec_current_line() < old(self).spec_max_lines(),
            old(self).spec_current_line() > 0 || old(self).spec_dimensions().1 > 0,
        ensures
            final(self).well_formed(),
            match r {
                Ok(()) => {
                    let ts = parse_from(text@, 0);
                    &&& item_at(text@, 0) is Some
                    &&& final(self).model() == truncate_lines(
                        push_values(old(self).model(), ts, ts.len() as int, old(self).spec_dimensions().0 as int),
                        old(self).spec_max_lines() as int,
                    )
                    &&& final(self).spec_origin() == old(self).spec_origin()
                    &&& final(self).spec_dimensions() == old(self).spec_dimensions()
                    &&& final(self).spec_max_lines() == old(self).spec_max_lines()
                    &&& final(self).spec_current_line() == old(self).spec_current_line()
                    &&& final(self).metrics_fresh()
                    &&& (final(self).model().newlines.len() >= old(self).model().newlines.len()
                        || final(self).model().newlines.len() == old(self).spec_max_lines())
                },
                Err(e) => item_at(text@, 0) is None && e == RichTextError::NothingParsed && *final(self) == *old(self),
            },
    {
        let parsed = match parse_rich_text(text) {
            Ok(p) => p,
            Err(e) => {
                return Err(e);
            },
        };
        let ghost ts = parse_from(text@, 0);
        let ghost m0 = self.model();
        let ghost w = self.dimensions.0 as int;
        let mut i: usize = 0;
        while i < parsed.len()
            invariant
                parsed@.map_values(|v: RichTextValue| v@) == ts,
                i <= parsed@.len(),
                w == self.dimensions.0,
                wf_model(self.model()),
                self.model() == push_values(m0, ts, i as int, w),
                self.model().newlines.len() >= m0.newlines.len(),
                Self::same_frame(*old(self), *self),
            decreases parsed@.len() - i,
        {
            let ghost before = self.model();
            assert(ts[i as int] == parsed@[i as int]@);
            match &parsed[i] {
                RichTextValue::FormatHint { key, value } => {
                    self.handle_hint(*key, value.clone());
                    self.prepend_space = false;
                },
                RichTextValue::Newline => {
                    self.handle_newline();
                    self.prepend_space = false;
                },
                RichTextValue::Text(t) => {
                    let chars = chars_of(t.as_str());
                    self.handle_text(&chars);
                    self.prepend_space = true;
                    proof {
                        lemma_push_text_lines(before, chars@, w);
                    }
                },
            }
            proof {
                assert(self.model() == push_value(before, ts[i as int], w));
            }
            i = i + 1;
        }
        self.truncate_text();
        self.refresh_visible_area_metrics();
        Ok(())
    }

    /// Scrolls the visible area up by a number of lines, stopping at the first line.
    pub fn scroll_up(&mut self, lines: u32)
        requires
            old(self).well_formed(),
            old(self).spec_current_line() > lines || old(self).spec_dimensions().1 > 0,
        ensures
            final(self).well_formed(),
            final(self).model() == old(self).model(),
            final(self).spec_origin() == old(self).spec_origin(),
            final(self).spec_dimensions() == old(self).spec_dimensions(),
            final(self).spec_max_lines() == old(self).spec_max_lines(),
            final(self).spec_current_line() == (if old(self).spec_current_line() > lines {
                old(self).spec_current_line() - lines
            } else {
                0
            }),
            final(self).metrics_fresh(),
    {
        if self.current_line > lines as usize {
            self.current_line = self.current_line - lines as usize;
        } else {
            self.current_line = 0;
        }
        self.refresh_visible_area_metrics();
    }

    /// The first visible line after scrolling down by `lines` from line `current`, when the
    /// text overflows: no further than the last full screen of `total` lines.
    pub open spec fn scrolled_down(current: int, lines: int, total: int, height: int) -> int {
        if current + lines < total - height {
            current + lines
        } else {
            total - height
        }
    }

    /// Scrolls the visible area down by a number of lines, stopping when the last line is at the
    /// bottom. Does nothing when the text does not overflow the visible area.
    pub fn scroll_down(&mut self, lines: u32)
        requires
            old(self).well_formed(),
            old(self).spec_total_lines() > old(self).spec_dimensions().1 ==> {
                let c = Self::scrolled_down(
                    old(self).spec_current_line() as int,
                    lines as int,
                    old(self).spec_total_lines() as int,
                    old(self).spec_dimensions().1 as int,
                );
                c < old(self).model().newlines.len() && (c > 0 || old(self).spec_dimensions().1 > 0)
            },
        ensures
            final(self).well_formed(),
            old(self).spec_total_lines() <= old(self).spec_dimensions().1 ==> *final(self) == *old(self),
            old(self).spec_total_lines() > old(self).spec_dimensions().1 ==> {
                &&& final(self).model() == old(self).model()
                &&& final(self).spec_origin() == old(self).spec_origin()
                &&& final(self).spec_dimensions() == old(self).spec_dimensions()
                &&& final(self).spec_max_lines() == old(self).spec_max_lines()
                &&& final(self).spec_current_line() == Self::scrolled_down(
                    old(self).spec_current_line() as int,
                    lines as int,
                    old(self).spec_total_lines() as int,
                    old(self).spec_dimensions().1 as int,
                )
                &&& final(self).metrics_fresh()
            },
    {
        if self.has_overflow() {
            let limit = (self.total_lines - self.dimensions.1) as u64;
            let target = (self.current_line as u64) + (lines as u64);
            self.current_line = if target < limit {
                target as usize
            } else {
                limit as usize
            };
            self.refresh_visible_area_metrics();
        }
    }

    /// Scrolls the visible area to the first line.
    pub fn scroll_to_top(&mut self)
        requires
            old(self).well_formed(),
            old(self).spec_dimensions().1 > 0,
        ensures
            final(self).well_formed(),
            final(self).model() == old(self).model(),
            final(self).spec_origin() == old(self).spec_origin(),
            final(self).spec_dimensions() == old(self).spec_dimensions(),
            final(self).spec_max_lines() == old(self).spec_max_lines(),
            final(self).spec_current_line() == 0,
            final(self).metrics_fresh(),
    {
        self.current_line = 0;
        self.refresh_visible_area_metrics();
    }

    /// Scrolls the visible area so that the last line is at the bottom. Does nothing when the
    /// text does not overflow the visible area.
    pub fn scroll_to_bottom(&mut self)
        requires
            old(self).well_formed(),
            old(self).spec_total_lines() > old(self).spec_dimensions().1 ==> {
                let c = old(self).spec_total_lines() - old(self).spec_dimensions().1;
                c < old(self).model().newlines.len() && (c > 0 || old(self).spec_dimensions().1 > 0)
            },
        ensures
            final(self).well_formed(),
            old(self).spec_total_lines() <= old(self).spec_dimensions().1 ==> *final(self) == *old(self),
            old(self).spec_total_lines() > old(self).spec_dimensions().1 ==> {
                &&& final(self).model() == old(self).model()
                &&& final(self).spec_origin() == old(self).spec_origin()
                &&& final(self).spec_dimensions() == old(self).spec_dimensions()
                &&& final(self).spec_max_lines() == old(self).spec_max_lines()
                &&& final(self).spec_current_line() == old(self).spec_total_lines() - old(self).spec_dimensions().1
                &&& final(self).metrics_fresh()
            },
    {
        if self.has_overflow() {
            self.current_line = (self.total_lines - self.dimensions.1) as usize;
            self.refresh_visible_area_metrics();
        }
    }

    /// Removes the text and the format, and goes back to the first line: the wrapper holds one
    /// empty line, shown at the top of the visible area (below it when the area has no rows).
    pub fn clear(&mut self)
        requires
            old(self).well_formed(),
        ensures
            final(self).well_formed(),
            final(self).model() == (WrapView {
                text: Seq::empty(),
                newlines: seq![0usize],
                line_len: 0,
                prepend_space: old(self).model().prepend_space,
                format: format_cleared(old(self).model().format),
            }),
            final(self).spec_origin() == old(self).spec_origin(),
            final(self).spec_dimensions() == old(self).spec_dimensions(),
            final(self).spec_max_lines() == old(self).spec_max_lines(),
            final(self).spec_total_lines() == 1,
            final(self).spec_lines_up() == 0,
            final(self).spec_lines_down() == (if old(self).spec_dimensions().1 == 0 {
                1u32
            } else {
                0u32
            }),
            final(self).spec_visible_start() == 0,
            final(self).spec_visible_end() == 0,
            final(self).spec_current_line() == 0,
            old(self).spec_dimensions().1 > 0 ==> final(self).metrics_fresh(),
    {
        self.current_line = 0;
        self.wrapped_text.clear();
        self.format_state.clear();
        self.newline_indices.clear();
        self.newline_indices.push(0);
        self.last_line_length = 0;
        self.total_lines = 1;
        self.lines_up = 0;
        self.lines_down = if self.dimensions.1 == 0 {
            1
        } else {
            0
        };
        self.visible_start = 0;
        self.visible_end = 0;
        proof {
            assert(self.newline_indices@ =~= seq![0usize]);
        }
    }

    /// The visible part of the wrapped rich text: empty when there are no lines or the visible
    /// area is empty, and `None` when the visible area, as of the last refresh, does not lie
    /// within the text.
    pub fn visible_text(&self) -> (r: Option<Vec<char>>)
        ensures
            !(self.spec_visible_start() <= self.spec_visible_end() <= self.model().text.len()) ==> r
                is None,
            self.spec_visible_start() <= self.spec_visible_end() <= self.model().text.len() ==> (r
                matches Some(v) && v@ == (if self.spec_total_lines() < 1 || self.spec_visible_end()
                == self.spec_visible_start() {
                Seq::empty()
            } else {
                self.model().text.subrange(self.spec_visible_start() as int, self.spec_visible_end() as int)
            })),
    {
        if !(self.visible_start <= self.visible_end && self.visible_end <= self.wrapped_text.len()) {
            return None;
        }
        let mut out: Vec<char> = Vec::new();
        if self.total_lines < 1 || self.visible_end - self.visible_start < 1 {
            return Some(out);
        }
        let mut j: usize = self.visible_start;
        while j < self.visible_end
            invariant
                self.visible_start <= j <= self.visible_end,
                self.visible_end <= self.wrapped_text@.len(),
                out@ == self.wrapped_text@.subrange(self.visible_start as int, j as int),
            decreases self.visible_end - j,
        {
            out.push(self.wrapped_text[j]);
            proof {
                assert(out@ =~= self.wrapped_text@.subrange(self.visible_start as int, j + 1));
            }
            j = j + 1;
        }
        Some(out)
    }

    /// Returns the origin.
    pub fn origin(&self) -> (r: (u32, u32))
        ensures
            r == self.spec_origin(),
    {
        self.origin
    }

    /// Returns the width of the visible area.
    pub fn width(&self) -> (r: u32)
        ensures
            r == self.spec_dimensions().0,
    {
        self.dimensions.0
    }

    /// Returns the height of the visible area.
    pub fn height(&self) -> (r: u32)
        ensures
            r == self.spec_dimensions().1,
    {
        self.dimensions.1
    }

    /// Returns the dimensions of the visible area.
    pub fn dimensions(&self) -> (r: (u32, u32))
        ensures
            r == self.spec_dimensions(),
    {
        self.dimensions
    }

    /// Returns the maximum number of lines kept.
    pub fn max_lines(&self) -> (r: u32)
        ensures
            r == self.spec_max_lines(),
    {
        self.max_lines
    }

    /// Returns the number of lines.
    pub fn total_lines(&self) -> (r: u32)
        ensures
            r == self.spec_total_lines(),
    {
        self.total_lines
    }

    /// Returns the number of lines above the visible area.
    pub fn lines_up(&self) -> (r: u32)
        ensures
            r == self.spec_lines_up(),
    {
        self.lines_up
    }

    /// Returns the number of lines below the visible area.
    pub fn lines_down(&self) -> (r: u32)
        ensures
            r == self.spec_lines_down(),
    {
        self.lines_down
    }

    /// Returns whether there are lines above the visible area.
    pub fn has_lines_up(&self) -> (r: bool)
        ensures
            r == (self.spec_lines_up() > 0),
    {
        self.lines_up > 0
    }

    /// Returns whether there are lines below the visible area.
    pub fn has_lines_down(&self) -> (r: bool)
        ensures
            r == (self.spec_lines_down() > 0),
    {
        self.lines_down > 0
    }

    /// Whether there are more lines than the visible area holds.
    pub open spec fn has_overflow_spec(&self) -> bool {
        self.spec_total_lines() > self.spec_dimensions().1
    }

    /// Returns whether there are more lines than the visible area holds.
    pub fn has_overflow(&self) -> (r: bool)
        ensures
            r == self.has_overflow_spec(),
    {
        self.total_lines > self.dimensions.1
    }
}

} // verus!

verus! {

/// Whether every word of every text among the first `n` parsed values is at most `width` long.
pub open spec fn words_fit(ts: Seq<RichTextToken>, n: int, width: int) -> bool {
    forall|i: int|
        0 <= i < n ==> match #[trigger] ts[i] {
            RichTextToken::Text(t) => forall|k: int|
                0 <= k < split_whitespace(t).len() ==> #[trigger] split_whitespace(t)[k].len() <= width,
            _ => true,
        }
}

/// Pushing a word that fits the width, or a space, keeps the line within the width.
proof fn lemma_push_word_fits(m: WrapView, word: Seq<char>, is_space: bool, width: int)
    requires
        m.line_len <= width,
        is_space || word.len() <= width,
    ensures
        push_word(m, word, is_space, width).line_len <= width,
{
}

/// Pushing words that fit the width keeps the line within the width.
proof fn lemma_push_words_fit(m: WrapView, ws: Seq<Seq<char>>, n: int, width: int)
    requires
        m.line_len <= width,
        0 <= n <= ws.len(),
        forall|k: int| 0 <= k < ws.len() ==> #[trigger] ws[k].len() <= width,
    ensures
        push_words(m, ws, n, width).line_len <= width,
    decreases n,
{
    if n > 0 {
        lemma_push_words_fit(m, ws, n - 1, width);
        let p = push_words(m, ws, n - 1, width);
        lemma_push_word_fits(p, ws[n - 1], false, width);
        lemma_push_word_fits(push_word(p, ws[n - 1], false, width), seq![' '], true, width);
    }
}

/// Rich text whose words are no longer than the width is wrapped so that the line being
/// filled never holds more glyphs than the width: a word that does not fit starts a new line,
/// and a space that does not fit is dropped.
pub proof fn law_wrap_within_width(m: WrapView, ts: Seq<RichTextToken>, n: int, width: int)
    requires
        0 <= width,
        m.line_len <= width,
        0 <= n <= ts.len(),
        words_fit(ts, n, width),
    ensures
        push_values(m, ts, n, width).line_len <= width,
    decreases n,
{
    if n > 0 {
        law_wrap_within_width(m, ts, n - 1, width);
        let p = push_values(m, ts, n - 1, width);
        match ts[n - 1] {
            RichTextToken::Text(t) => {
                let ws = split_whitespace(t);
                assert(forall|k: int| 0 <= k < ws.len() ==> #[trigger] ws[k].len() <= width);
                let m1 = if p.prepend_space || (t.len() > 0 && t[0] == ' ') {
                    push_word(p, seq![' '], true, width)
                } else {
                    p
                };
                lemma_push_word_fits(p, seq![' '], true, width);
                lemma_push_words_fit(m1, ws, ws.len() as int, width);
                lemma_push_word_fits(push_words(m1, ws, ws.len() as int, width), seq![' '], true, width);
            },
            _ => {},
        }
    }
}

/// A wrapper never keeps more lines than its maximum.
pub proof fn law_max_lines(m: WrapView, max_lines: int)
    requires
        max_lines >= 1,
    ensures
        truncate_lines(m, max_lines).newlines.len() <= max_lines,
        m.newlines.len() <= max_lines ==> truncate_lines(m, max_lines) == m,
{
}

/// Truncating keeps the end of the text: what is dropped is a prefix of whole lines.
pub proof fn law_truncate_keeps_last_lines(m: WrapView, max_lines: int)
    requires
        wf_model(m),
        max_lines >= 1,
        m.newlines.len() > max_lines,
    ensures
        ({
            let t = truncate_lines(m, max_lines);
            let start = m.newlines[m.newlines.len() - max_lines];
            &&& m.text == m.text.subrange(0, start as int) + t.text
            &&& start > 0 ==> m.text[start - 1] == '\n'
        }),
{
    let t = truncate_lines(m, max_lines);
    let index = m.newlines.len() - max_lines;
    let start = m.newlines[index];
    assert(m.newlines[0] < m.newlines[index] || index == 0);
    assert(m.text =~= m.text.subrange(0, start as int) + t.text);
}

/// The visible area splits the lines: those above it, the rows it shows, and those below it add
/// up to all lines, as long as the area does not reach past the last line.
pub proof fn law_visible_partition(total: int, current: int, height: int)
    requires
        0 <= current,
        0 <= height,
        current + height <= total,
    ensures
        current + height + lines_below(total, current, height) == total,
{
}

/// Scrolled to the last full screen of an overflowing text, no line is below the visible area,
/// and the visible area reaches the end of the text.
pub proof fn law_bottom_shows_end(m: WrapView, height: int)
    requires
        m.newlines.len() > height >= 0,
    ensures
        lines_below(m.newlines.len() as int, m.newlines.len() - height, height) == 0,
        visible_end_of(m, m.newlines.len() - height, height) == m.text.len(),
{
}

/// Scrolling keeps the counts of an overflowing wrapper's lines adding up: once its metrics are
/// refreshed, the lines above the visible area, its rows and the lines below it make up all
/// lines, wherever scrolling down (by any number of lines) or to the top or bottom leaves the
/// first visible line.
pub proof fn law_scroll_counts(w: RichTextWrapper, lines: int)
    requires
        w.metrics_fresh(),
        w.spec_total_lines() > w.spec_dimensions().1,
        w.spec_current_line() + w.spec_dimensions().1 <= w.spec_total_lines(),
        lines >= 0,
    ensures
        w.spec_lines_up() + w.spec_dimensions().1 + w.spec_lines_down() == w.spec_total_lines(),
        0 <= RichTextWrapper::scrolled_down(
            w.spec_current_line() as int,
            lines,
            w.spec_total_lines() as int,
            w.spec_dimensions().1 as int,
        ),
        RichTextWrapper::scrolled_down(
            w.spec_current_line() as int,
            lines,
            w.spec_total_lines() as int,
            w.spec_dimensions().1 as int,
        ) + w.spec_dimensions().1 <= w.spec_total_lines(),
{
}

} // verus!
