use vstd::prelude::*;

use crate::rich_text::{RichTextHintType, chars_of};

verus! {

/// The value of a format state: the last value of each kind of hint, whether the tag string is
/// out of date, and the tag string last built.
pub struct FormatView {
    /// Layout hint value.
    pub layout: Option<Seq<char>>,
    /// Style hint value.
    pub style: Option<Seq<char>>,
    /// Size hint value.
    pub size: Option<Seq<char>>,
    /// Outlined hint value.
    pub outlined: Option<Seq<char>>,
    /// Foreground color hint value.
    pub foreground_color: Option<Seq<char>>,
    /// Background color hint value.
    pub background_color: Option<Seq<char>>,
    /// Outline color hint value.
    pub outline_color: Option<Seq<char>>,
    /// Whether a hint arrived since the tag string was last built.
    pub updated: bool,
    /// The tag string last built.
    pub cache: Seq<char>,
}

/// The tag `<key:value>` for a value that is set, else nothing.
pub open spec fn opt_tag(key: Seq<char>, v: Option<Seq<char>>) -> Seq<char> {
    match v {
        Some(x) => seq!['<'] + key + seq![':'] + x + seq!['>'],
        None => Seq::empty(),
    }
}

/// The tag string that restores a format: a tag for each value that is set, in the order
/// layout, style, size, outlined, foreground, background, outline color.
pub open spec fn tag_of(f: FormatView) -> Seq<char> {
    opt_tag(seq!['l'], f.layout) + opt_tag(seq!['s', 't'], f.style) + opt_tag(
        seq!['s', 'i'],
        f.size,
    ) + opt_tag(seq!['o'], f.outlined) + opt_tag(seq!['f', 'c'], f.foreground_color) + opt_tag(
        seq!['b', 'c'],
        f.background_color,
    ) + opt_tag(seq!['o', 'c'], f.outline_color)
}

/// The format after a hint: its value replaces that of its kind, and the tag string is out of
/// date.
pub open spec fn format_with_hint(f: FormatView, key: RichTextHintType, v: Seq<char>) -> FormatView {
    let g = match key {
        RichTextHintType::Layout => FormatView { layout: Some(v), ..f },
        RichTextHintType::Style => FormatView { style: Some(v), ..f },
        RichTextHintType::Size => FormatView { size: Some(v), ..f },
        RichTextHintType::Outlined => FormatView { outlined: Some(v), ..f },
        RichTextHintType::ForegroundColor => FormatView { foreground_color: Some(v), ..f },
        RichTextHintType::BackgroundColor => FormatView { background_color: Some(v), ..f },
        RichTextHintType::OutlineColor => FormatView { outline_color: Some(v), ..f },
    };
    FormatView { updated: true, ..g }
}

/// The format with all values unset and an empty tag string that is up to date.
pub open spec fn format_cleared(f: FormatView) -> FormatView {
    FormatView {
        layout: None,
        style: None,
        size: None,
        outlined: None,
        foreground_color: None,
        background_color: None,
        outline_color: None,
        updated: false,
        cache: Seq::empty(),
    }
}

/// The tag string a format state hands out, and the format state after: rebuilt from the
/// values when out of date, else the one last built.
pub open spec fn format_tag(f: FormatView) -> (Seq<char>, FormatView) {
    let t = if f.updated {
        tag_of(f)
    } else {
        f.cache
    };
    (t, FormatView { updated: false, cache: t, ..f })
}

/// The view of an optional string.
pub open spec fn opt_view(v: Option<String>) -> Option<Seq<char>> {
    match v {
        Some(s) => Some(s@),
        None => None,
    }
}

/// The current format of wrapped rich text, which is written again at the start of each line.
#[derive(Default)]
pub struct FormatState {
    updated: bool,
    tag: String,
    layout: Option<String>,
    style: Option<String>,
    size: Option<String>,
    outlined: Option<String>,
    foreground_color: Option<String>,
    background_color: Option<String>,
    outline_color: Option<String>,
}

impl View for FormatState {
    type V = FormatView;

    closed spec fn view(&self) -> FormatView {
        FormatView {
            layout: opt_view(self.layout),
            style: opt_view(self.style),
            size: opt_view(self.size),
            outlined: opt_view(self.outlined),
            foreground_color: opt_view(self.foreground_color),
            background_color: opt_view(self.background_color),
            outline_color: opt_view(self.outline_color),
            updated: self.updated,
            cache: self.tag@,
        }
    }
}

/// Appends `<key:value>` to `out`.
pub(crate) fn push_tag(out: &mut Vec<char>, key: &str, value: &String)
    ensures
        final(out)@ == old(out)@ + opt_tag(key@, Some(value@)),
{
    out.push('<');
    let k = chars_of(key);
    let mut i: usize = 0;
    let ghost base = old(out)@.push('<');
    while i < k.len()
        invariant
            k@ == key@,
            i <= k@.len(),
            out@ == base + k@.take(i as int),
        decreases k@.len() - i,
    {
        out.push(k[i]);
        assert(k@.take(i + 1) =~= k@.take(i as int).push(k@[i as int]));
        i = i + 1;
    }
    out.push(':');
    let v = chars_of(value.as_str());
    let ghost base2 = out@;
    let mut j: usize = 0;
    while j < v.len()
        invariant
            v@ == value@,
            j <= v@.len(),
            out@ == base2 + v@.take(j as int),
        decreases v@.len() - j,
    {
        out.push(v[j]);
        assert(v@.take(j + 1) =~= v@.take(j as int).push(v@[j as int]));
        j = j + 1;
    }
    out.push('>');
    assert(k@.take(k@.len() as int) =~= k@);
    assert(v@.take(v@.len() as int) =~= v@);
    assert(out@ =~= old(out)@ + opt_tag(key@, Some(value@)));
}

/// Appends `<key:value>` to a string.
fn push_tag_string(out: &mut String, key: &str, value: &String)
    ensures
        final(out)@ == old(out)@ + opt_tag(key@, Some(value@)),
{
    proof {
        reveal_strlit("<");
        reveal_strlit(":");
        reveal_strlit(">");
    }
    out.append("<");
    out.append(key);
    out.append(":");
    out.append(value.as_str());
    out.append(">");
    assert(final(out)@ =~= old(out)@ + opt_tag(key@, Some(value@)));
}

/// Appends the tag of an optional value to a string.
fn push_opt_tag(out: &mut String, key: &str, value: &Option<String>)
    ensures
        final(out)@ == old(out)@ + opt_tag(key@, opt_view(*value)),
{
    match value {
        Some(v) => push_tag_string(out, key, v),
        None => {
            assert(old(out)@ + opt_tag(key@, opt_view(*value)) =~= old(out)@);
        },
    }
}

impl FormatState {
    /// The value of a new format state.
    pub open spec fn new_view() -> FormatView {
        FormatView {
            layout: None,
            style: None,
            size: None,
            outlined: None,
            foreground_color: None,
            background_color: None,
            outline_color: None,
            updated: false,
            cache: Seq::empty(),
        }
    }

    /// Creates a format state with no values.
    pub fn new() -> (r: FormatState)
        ensures
            r@ == Self::new_view(),
    {
        FormatState {
            updated: false,
            tag: String::new(),
            layout: None,
            style: None,
            size: None,
            outlined: None,
            foreground_color: None,
            background_color: None,
            outline_color: None,
        }
    }

    /// Resets the format state: unsets all values and empties the tag string.
    pub fn clear(&mut self)
        ensures
            final(self)@ == format_cleared(old(self)@),
    {
        self.updated = false;
        self.tag = String::new();
        self.layout = None;
        self.style = None;
        self.size = None;
        self.outlined = None;
        self.foreground_color = None;
        self.background_color = None;
        self.outline_color = None;
    }

    /// Sets the value of a kind of hint.
    pub fn update_from_hint(&mut self, key: RichTextHintType, value: String)
        ensures
            final(self)@ == format_with_hint(old(self)@, key, value@),
    {
        match key {
            RichTextHintType::Layout => self.layout = Some(value),
            RichTextHintType::Style => self.style = Some(value),
            RichTextHintType::Size => self.size = Some(value),
            RichTextHintType::Outlined => self.outlined = Some(value),
            RichTextHintType::ForegroundColor => self.foreground_color = Some(value),
            RichTextHintType::BackgroundColor => self.background_color = Some(value),
            RichTextHintType::OutlineColor => self.outline_color = Some(value),
        }
        self.updated = true;
    }

    /// Returns the tag string, rebuilding it first if a hint arrived since it was last built.
    pub fn tag_string(&mut self) -> (r: &String)
        ensures
            (r@, final(self)@) == format_tag(old(self)@),
    {
        if self.updated {
            let ghost f = self@;
            let mut t = String::new();
            proof {
                reveal_strlit("l");
                reveal_strlit("st");
                reveal_strlit("si");
                reveal_strlit("o");
                reveal_strlit("fc");
                reveal_strlit("bc");
                reveal_strlit("oc");
                assert("l"@ =~= seq!['l']);
                assert("st"@ =~= seq!['s', 't']);
                assert("si"@ =~= seq!['s', 'i']);
                assert("o"@ =~= seq!['o']);
                assert("fc"@ =~= seq!['f', 'c']);
                assert("bc"@ =~= seq!['b', 'c']);
                assert("oc"@ =~= seq!['o', 'c']);
                assert(t@ =~= Seq::<char>::empty());
            }
            push_opt_tag(&mut t, "l", &self.layout);
            assert(t@ =~= opt_tag(seq!['l'], f.layout));
            push_opt_tag(&mut t, "st", &self.style);
            push_opt_tag(&mut t, "si", &self.size);
            push_opt_tag(&mut t, "o", &self.outlined);
            push_opt_tag(&mut t, "fc", &self.foreground_color);
            push_opt_tag(&mut t, "bc", &self.background_color);
            push_opt_tag(&mut t, "oc", &self.outline_color);
            assert(t@ == tag_of(f));
            self.tag = t;
            self.updated = false;
        }
        &self.tag
    }
}

} // verus!
