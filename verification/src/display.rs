//! The styles of printed annotations, as plain values.
//!
//! A style is named in the configuration by a colour, with the modifiers
//! before it and underscores between: `b_u_red` is bold, underlined red. The
//! colour may be a name or the number of one of the 256 colours of a
//! terminal. Turning a style into escape sequences is not done here.
use vstd::prelude::*;
use crate::configs::{StyleConfig, StyleView, StylesConfig, StylesView};
use crate::errors::{ErrorView, TodoRError};
use crate::maps::FallbackHashMap;
use crate::text::{parse_u8, parsed_u8, rsplit, rsplit_parts, str_eq, to_uppercase, uppercase};

verus! {

/// A colour of the terminal.
#[derive(Debug, Clone, Copy, PartialEq, Eq)]
pub enum Color {
    Black,
    Red,
    Green,
    Yellow,
    Blue,
    Purple,
    Cyan,
    White,
    Fixed(u8),
}

/// How a piece of text is printed.
#[derive(Debug, Clone, Copy, PartialEq, Eq)]
pub struct Style {
    pub foreground: Option<Color>,
    pub is_bold: bool,
    pub is_italic: bool,
    pub is_underline: bool,
}

impl Style {
    /// The style of plain text.
    pub open spec fn plain() -> Style {
        Style { foreground: None, is_bold: false, is_italic: false, is_underline: false }
    }

    /// The style of plain text in the given colour.
    pub open spec fn colored(color: Color) -> Style {
        Style { foreground: Some(color), ..Style::plain() }
    }

    /// The style of plain text.
    pub fn new() -> (style: Style)
        ensures
            style == Style::plain(),
    {
        Style { foreground: None, is_bold: false, is_italic: false, is_underline: false }
    }

    /// The style of plain text in the given colour.
    pub fn from_color(color: Color) -> (style: Style)
        ensures
            style == Style::colored(color),
    {
        Style { foreground: Some(color), is_bold: false, is_italic: false, is_underline: false }
    }
}

/// The colour that an upper-case name stands for.
pub open spec fn named_color(upper: Seq<char>) -> Option<Color> {
    if upper == "BLACK"@ {
        Some(Color::Black)
    } else if upper == "RED"@ {
        Some(Color::Red)
    } else if upper == "GREEN"@ {
        Some(Color::Green)
    } else if upper == "YELLOW"@ {
        Some(Color::Yellow)
    } else if upper == "BLUE"@ {
        Some(Color::Blue)
    } else if upper == "PURPLE"@ || upper == "MAGENTA"@ {
        Some(Color::Purple)
    } else if upper == "CYAN"@ {
        Some(Color::Cyan)
    } else if upper == "WHITE"@ {
        Some(Color::White)
    } else {
        None
    }
}

/// The style that the colour part of a style name stands for: a number is
/// the colour of that number, a name is its colour whatever the case of its
/// letters, and the empty name is plain text. Anything else is an error of
/// the configuration.
pub open spec fn color_style(color: Seq<char>) -> Result<Style, ErrorView> {
    match parsed_u8(color) {
        Some(n) => Ok(Style::colored(Color::Fixed(n))),
        None => match named_color(uppercase(color)) {
            Some(named) => Ok(Style::colored(named)),
            None => if uppercase(color) == ""@ {
                Ok(Style::plain())
            } else {
                Err(
                    ErrorView::InvalidConfigFile {
                        message: "'"@ + color + "' is not a valid ANSI color."@,
                    },
                )
            },
        },
    }
}

/// The style with the modifier that a name stands for: bold for `bold` or
/// `b`, italic for `italic`, `i` or `it`, underlined for `underline` or `u`,
/// whatever the case of the letters. Anything else is an error of the
/// configuration.
pub open spec fn modified_style(style: Style, modifier: Seq<char>) -> Result<Style, ErrorView> {
    let upper = uppercase(modifier);
    if upper == "BOLD"@ || upper == "B"@ {
        Ok(Style { is_bold: true, ..style })
    } else if upper == "ITALIC"@ || upper == "I"@ || upper == "IT"@ {
        Ok(Style { is_italic: true, ..style })
    } else if upper == "UNDERLINE"@ || upper == "U"@ {
        Ok(Style { is_underline: true, ..style })
    } else {
        Err(
            ErrorView::InvalidConfigFile {
                message: "'"@ + modifier
                    + "' is not a valid ANSI style modifier. Try using 'b', 'i', or 'u'"@,
            },
        )
    }
}

/// The style with the first `n` of the modifiers, applied in order, or the
/// error of the first modifier that is none.
pub open spec fn with_modifiers(style: Style, modifiers: Seq<Seq<char>>, n: nat) -> Result<
    Style,
    ErrorView,
>
    decreases n,
{
    if n == 0 {
        Ok(style)
    } else {
        match with_modifiers(style, modifiers, (n - 1) as nat) {
            Ok(so_far) => modified_style(so_far, modifiers[n - 1]),
            Err(e) => Err(e),
        }
    }
}

/// The style that the parts of a style name stand for. The parts come from
/// the back: the colour first, then the modifiers.
pub open spec fn parts_style(parts: Seq<Seq<char>>) -> Result<Style, ErrorView> {
    if parts.len() == 0 {
        Ok(Style::plain())
    } else {
        match color_style(parts[0]) {
            Ok(style) => with_modifiers(style, parts.skip(1), (parts.len() - 1) as nat),
            Err(e) => Err(e),
        }
    }
}

/// The style that a style of the configuration stands for.
pub open spec fn style_of(config: StyleView) -> Result<Style, ErrorView> {
    match config {
        StyleView::Named(name) => parts_style(rsplit_parts(name, '_')),
        StyleView::Fixed(n) => Ok(Style::colored(Color::Fixed(n))),
    }
}

/// Whether `r` is the outcome `model`.
pub open spec fn same_style(r: Result<Style, TodoRError>, model: Result<Style, ErrorView>) -> bool {
    match model {
        Ok(style) => r is Ok && r->Ok_0 == style,
        Err(e) => r is Err && r->Err_0@ == e,
    }
}

/// Reads the colour part of a style name.
pub fn parse_style_color(color: &str) -> (r: Result<Style, TodoRError>)
    ensures
        same_style(r, color_style(color@)),
{
    match parse_u8(color) {
        Some(n) => {
            return Ok(Style::from_color(Color::Fixed(n)));
        },
        None => {},
    }
    let upper = to_uppercase(color);
    let name = upper.as_str();
    let colored_style = if str_eq(name, "BLACK") {
        Style::from_color(Color::Black)
    } else if str_eq(name, "RED") {
        Style::from_color(Color::Red)
    } else if str_eq(name, "GREEN") {
        Style::from_color(Color::Green)
    } else if str_eq(name, "YELLOW") {
        Style::from_color(Color::Yellow)
    } else if str_eq(name, "BLUE") {
        Style::from_color(Color::Blue)
    } else if str_eq(name, "PURPLE") || str_eq(name, "MAGENTA") {
        Style::from_color(Color::Purple)
    } else if str_eq(name, "CYAN") {
        Style::from_color(Color::Cyan)
    } else if str_eq(name, "WHITE") {
        Style::from_color(Color::White)
    } else if str_eq(name, "") {
        Style::new()
    } else {
        let mut message = String::from_str("'");
        message.append(color);
        message.append("' is not a valid ANSI color.");
        return Err(TodoRError::InvalidConfigFile { message });
    };
    Ok(colored_style)
}

/// Reads a modifier of a style name, and gives the style with it.
pub fn parse_style_modifier(unmodified_style: Style, modifier: &str) -> (r: Result<
    Style,
    TodoRError,
>)
    ensures
        same_style(r, modified_style(unmodified_style, modifier@)),
{
    let upper = to_uppercase(modifier);
    let name = upper.as_str();
    let mut style = unmodified_style;
    if str_eq(name, "BOLD") || str_eq(name, "B") {
        style.is_bold = true;
    } else if str_eq(name, "ITALIC") || str_eq(name, "I") || str_eq(name, "IT") {
        style.is_italic = true;
    } else if str_eq(name, "UNDERLINE") || str_eq(name, "U") {
        style.is_underline = true;
    } else {
        let mut message = String::from_str("'");
        message.append(modifier);
        message.append("' is not a valid ANSI style modifier. Try using 'b', 'i', or 'u'");
        return Err(TodoRError::InvalidConfigFile { message });
    }
    Ok(style)
}

/// Reads the parts of a style name: the colour first, then the modifiers.
pub fn style_from_parts(parts: &[&str]) -> (r: Result<Style, TodoRError>)
    ensures
        same_style(r, parts_style(parts.deep_view())),
{
    if parts.len() == 0 {
        return Ok(Style::new());
    }
    let ghost names = parts.deep_view();
    assert(names[0] == parts@[0]@);
    let mut style = match parse_style_color(parts[0]) {
        Ok(style) => style,
        Err(e) => {
            return Err(e);
        },
    };
    let ghost modifiers = names.skip(1);
    let ghost start = style;
    let mut i: usize = 1;
    while i < parts.len()
        invariant
            1 <= i <= parts.len(),
            names == parts.deep_view(),
            modifiers == names.skip(1),
            color_style(names[0]) == Ok::<Style, ErrorView>(start),
            with_modifiers(start, modifiers, (i - 1) as nat) == Ok::<Style, ErrorView>(style),
        decreases parts.len() - i,
    {
        assert(modifiers[i - 1] == parts@[i as int]@);
        proof {
            lemma_with_modifiers_fails_on(start, modifiers, i as nat, (parts.len() - 1) as nat);
        }
        style = match parse_style_modifier(style, parts[i]) {
            Ok(style) => style,
            Err(e) => {
                return Err(e);
            },
        };
        i += 1;
    }
    Ok(style)
}

/// Once the first `n` modifiers give an error, so do the first `m`, for any
/// larger `m`: the same error.
pub proof fn lemma_with_modifiers_fails_on(style: Style, modifiers: Seq<Seq<char>>, n: nat, m: nat)
    requires
        n <= m,
    ensures
        with_modifiers(style, modifiers, n) is Err ==> with_modifiers(style, modifiers, m)
            == with_modifiers(style, modifiers, n),
    decreases m - n,
{
    if n < m {
        lemma_with_modifiers_fails_on(style, modifiers, n, (m - 1) as nat);
    }
}

impl StyleConfig {
    /// Reads the style.
    pub fn into_style(&self) -> (r: Result<Style, TodoRError>)
        ensures
            same_style(r, style_of(self@)),
    {
        match self {
            StyleConfig::Named(s) => {
                let parts = rsplit(s.as_str(), '_');
                let names = parts.as_slice();
                assert(names.deep_view() =~= parts.deep_view());
                style_from_parts(names)
            },
            StyleConfig::Fixed(n) => Ok(Style::from_color(Color::Fixed(*n))),
        }
    }
}

/// What a `TodoRStyles` stands for.
pub struct TodoRStylesView {
    pub filepath_style: Style,
    pub line_number_style: Style,
    pub user_style: Style,
    pub content_style: Style,
    /// The style of a tag that has no style of its own.
    pub default_tag_style: Style,
    /// The styles of the tags that have one of their own, by the tag in
    /// upper case.
    pub tag_styles: Map<Seq<char>, Style>,
}

impl TodoRStylesView {
    /// The styles that are used where the configuration names none: the
    /// path in underlined white, the line number and the users in colour 8,
    /// the content in cyan, and the tags in green.
    pub open spec fn standard() -> TodoRStylesView {
        TodoRStylesView {
            filepath_style: Style { is_underline: true, ..Style::colored(Color::White) },
            line_number_style: Style::colored(Color::Fixed(8)),
            user_style: Style::colored(Color::Fixed(8)),
            content_style: Style::colored(Color::Cyan),
            default_tag_style: Style::colored(Color::Green),
            tag_styles: Map::empty(),
        }
    }

    /// The styles that print everything as plain text.
    pub open spec fn plain() -> TodoRStylesView {
        TodoRStylesView {
            filepath_style: Style::plain(),
            line_number_style: Style::plain(),
            user_style: Style::plain(),
            content_style: Style::plain(),
            default_tag_style: Style::plain(),
            tag_styles: Map::empty(),
        }
    }

    /// The style of the tag `tag`, which is given in upper case.
    pub open spec fn tag_style(self, tag: Seq<char>) -> Style {
        if self.tag_styles.contains_key(tag) {
            self.tag_styles[tag]
        } else {
            self.default_tag_style
        }
    }

    /// The same, with `style` as the style of `tag`.
    pub open spec fn with_tag_style(self, tag: Seq<char>, style: Style) -> TodoRStylesView {
        TodoRStylesView { tag_styles: self.tag_styles.insert(uppercase(tag), style), ..self }
    }
}

/// The styles for printing annotations.
#[derive(Debug, Clone)]
pub struct TodoRStyles {
    pub filepath_style: Style,
    pub line_number_style: Style,
    pub user_style: Style,
    pub content_style: Style,
    tag_slots: FallbackHashMap,
    tag_styles: Vec<Style>,
}

impl View for TodoRStyles {
    type V = TodoRStylesView;

    closed spec fn view(&self) -> TodoRStylesView {
        TodoRStylesView {
            filepath_style: self.filepath_style,
            line_number_style: self.line_number_style,
            user_style: self.user_style,
            content_style: self.content_style,
            default_tag_style: self.tag_styles@[0],
            tag_styles: Map::new(
                |tag: Seq<char>| self.tag_slots.entries().contains_key(tag),
                |tag: Seq<char>| self.tag_styles@[self.tag_slots.entries()[tag] as int],
            ),
        }
    }
}

impl TodoRStyles {
    /// What holds of all styles: the style of every tag is stored.
    pub closed spec fn wf(&self) -> bool {
        &&& self.tag_styles@.len() >= 1
        &&& self.tag_slots.fallback() == 0
        &&& forall|tag: Seq<char>|
            #![trigger self.tag_slots.entries().contains_key(tag)]
            self.tag_slots.entries().contains_key(tag) ==> self.tag_slots.entries()[tag]
                < self.tag_styles@.len()
    }

    /// New styles, with one style for all tags.
    pub fn new(
        filepath_style: Style,
        line_number_style: Style,
        user_style: Style,
        content_style: Style,
        default_tag_style: Style,
    ) -> (styles: TodoRStyles)
        ensures
            styles.wf(),
            styles@ == (TodoRStylesView {
                filepath_style,
                line_number_style,
                user_style,
                content_style,
                default_tag_style,
                tag_styles: Map::empty(),
            }),
    {
        let mut tag_styles: Vec<Style> = Vec::new();
        tag_styles.push(default_tag_style);
        let styles = TodoRStyles {
            filepath_style,
            line_number_style,
            user_style,
            content_style,
            tag_slots: FallbackHashMap::new(0),
            tag_styles,
        };
        proof {
            assert forall|tag: Seq<char>| !styles.tag_slots.entries().contains_key(tag) by {
                assert(!styles.tag_slots.entries().dom().contains(tag));
            }
            assert(styles@.tag_styles =~= Map::<Seq<char>, Style>::empty());
        }
        styles
    }

    /// Styles that print everything as plain text.
    pub fn no_style() -> (styles: TodoRStyles)
        ensures
            styles.wf(),
            styles@ == TodoRStylesView::plain(),
    {
        TodoRStyles::new(Style::new(), Style::new(), Style::new(), Style::new(), Style::new())
    }

    /// The styles that are used where the configuration names none.
    pub fn standard() -> (styles: TodoRStyles)
        ensures
            styles.wf(),
            styles@ == TodoRStylesView::standard(),
    {
        let mut filepath_style = Style::from_color(Color::White);
        filepath_style.is_underline = true;
        TodoRStyles::new(
            filepath_style,
            Style::from_color(Color::Fixed(8)),
            Style::from_color(Color::Fixed(8)),
            Style::from_color(Color::Cyan),
            Style::from_color(Color::Green),
        )
    }

    /// Gives the tag `tag` a style of its own. The case of the letters of the
    /// tag does not count.
    pub fn add_tag_style(self, tag: &str, style: Style) -> (styles: TodoRStyles)
        requires
            self.wf(),
        ensures
            styles.wf(),
            styles@ == self@.with_tag_style(tag@, style),
    {
        let mut styles = self;
        let slot = styles.tag_styles.len();
        styles.tag_styles.push(style);
        styles.tag_slots.insert(to_uppercase(tag), slot);
        proof {
            assert(styles@.tag_styles =~= self@.tag_styles.insert(uppercase(tag@), style)) by {
                assert forall|t: Seq<char>| #[trigger]
                    self@.tag_styles.insert(uppercase(tag@), style).contains_key(t) implies styles@.tag_styles[t]
                    == self@.tag_styles.insert(uppercase(tag@), style)[t] by {
                    if t != uppercase(tag@) {
                        assert(self.tag_slots.entries().contains_key(t));
                    }
                }
            }
        }
        styles
    }

    /// The style of the tag `tag`, which is given in upper case.
    pub fn tag_style(&self, tag: &str) -> (style: &Style)
        requires
            self.wf(),
        ensures
            *style == self@.tag_style(tag@),
    {
        let slot = self.tag_slots.get(tag);
        assert(slot < self.tag_styles@.len()) by {
            assert(self.tag_slots.entries().contains_key(tag@) ==> slot
                == self.tag_slots.entries()[tag@]);
        }
        &self.tag_styles[slot]
    }
}

/// What optional styles stand for once each style was read: the styles, or
/// the first error in the order filepath, line number, user, content, tag,
/// and then the tags with styles of their own in their order.
pub open spec fn styles_of(config: StylesView) -> Result<TodoRStylesView, ErrorView> {
    match style_of(config.filepath) {
        Err(e) => Err(e),
        Ok(filepath_style) => match style_of(config.line_number) {
            Err(e) => Err(e),
            Ok(line_number_style) => match style_of(config.user) {
                Err(e) => Err(e),
                Ok(user_style) => match style_of(config.content) {
                    Err(e) => Err(e),
                    Ok(content_style) => match style_of(config.tag) {
                        Err(e) => Err(e),
                        Ok(default_tag_style) => with_tag_styles(
                            TodoRStylesView {
                                filepath_style,
                                line_number_style,
                                user_style,
                                content_style,
                                default_tag_style,
                                tag_styles: Map::empty(),
                            },
                            config.tags,
                            config.tags.len(),
                        ),
                    },
                },
            },
        },
    }
}

/// The styles with the first `n` of the tag styles added in order, or the
/// error of the first of them that cannot be read.
pub open spec fn with_tag_styles(
    styles: TodoRStylesView,
    tags: Seq<(Seq<char>, StyleView)>,
    n: nat,
) -> Result<TodoRStylesView, ErrorView>
    decreases n,
{
    if n == 0 {
        Ok(styles)
    } else {
        match with_tag_styles(styles, tags, (n - 1) as nat) {
            Err(e) => Err(e),
            Ok(so_far) => match style_of(tags[n - 1].1) {
                Err(e) => Err(e),
                Ok(style) => Ok(so_far.with_tag_style(tags[n - 1].0, style)),
            },
        }
    }
}

/// Once the first `n` tag styles give an error, so do the first `m`, for any
/// larger `m`: the same error.
pub proof fn lemma_with_tag_styles_fails_on(
    styles: TodoRStylesView,
    tags: Seq<(Seq<char>, StyleView)>,
    n: nat,
    m: nat,
)
    requires
        n <= m,
    ensures
        with_tag_styles(styles, tags, n) is Err ==> with_tag_styles(styles, tags, m)
            == with_tag_styles(styles, tags, n),
    decreases m - n,
{
    if n < m {
        lemma_with_tag_styles_fails_on(styles, tags, n, (m - 1) as nat);
    }
}

impl StylesConfig {
    /// Reads all styles of the configuration.
    pub fn into_todo_r_styles(&self) -> (r: Result<TodoRStyles, TodoRError>)
        ensures
            match styles_of(self@) {
                Ok(styles) => r is Ok && r->Ok_0.wf() && r->Ok_0@ == styles,
                Err(e) => r is Err && r->Err_0@ == e,
            },
    {
        let filepath_style = match self.filepath.into_style() {
            Ok(style) => style,
            Err(e) => {
                return Err(e);
            },
        };
        let line_number_style = match self.line_number.into_style() {
            Ok(style) => style,
            Err(e) => {
                return Err(e);
            },
        };
        let user_style = match self.user.into_style() {
            Ok(style) => style,
            Err(e) => {
                return Err(e);
            },
        };
        let content_style = match self.content.into_style() {
            Ok(style) => style,
            Err(e) => {
                return Err(e);
            },
        };
        let tag_style = match self.tag.into_style() {
            Ok(style) => style,
            Err(e) => {
                return Err(e);
            },
        };
        let mut styles = TodoRStyles::new(
            filepath_style,
            line_number_style,
            user_style,
            content_style,
            tag_style,
        );
        let ghost start = styles@;
        let ghost tags = self@.tags;
        let mut i: usize = 0;
        while i < self.tags.len()
            invariant
                i <= self.tags.len(),
                tags == self@.tags,
                styles.wf(),
                styles_of(self@) == with_tag_styles(start, tags, tags.len()),
                with_tag_styles(start, tags, i as nat) == Ok::<TodoRStylesView, ErrorView>(styles@),
            decreases self.tags.len() - i,
        {
            proof {
                assert(tags[i as int] == self.tags@[i as int]@);
                lemma_with_tag_styles_fails_on(start, tags, (i + 1) as nat, tags.len());
            }
            let style = match self.tags[i].style.into_style() {
                Ok(style) => style,
                Err(e) => {
                    return Err(e);
                },
            };
            styles = styles.add_tag_style(self.tags[i].tag.as_str(), style);
            i += 1;
        }
        Ok(styles)
    }
}

} // verus!
