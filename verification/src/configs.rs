//! Configuration as it comes in: fragments that name tags, paths to ignore, a
//! default extension, comment types for file extensions, and styles.
//!
//! A fragment is plain data. Reading one from a file is not done here.
use vstd::prelude::*;
use crate::comments::{kinds, CommentKind, CommentType, CommentTypes};
use crate::text::views;

verus! {

/// The comment types for one or more file extensions, as a fragment gives
/// them.
#[derive(Debug)]
pub struct CommentsConfig {
    /// One extension that the comment types are for.
    pub ext: Option<String>,
    /// More extensions that the comment types are for.
    pub exts: Option<Vec<String>>,
    /// The comment types.
    pub types: Vec<CommentType>,
}

/// What a `CommentsConfig` stands for: the extensions, with the ones of the
/// list first and the single one last, and the comment kinds for them.
pub struct CommentsConfigView {
    pub keys: Seq<Seq<char>>,
    pub types: Seq<CommentKind>,
}

impl View for CommentsConfig {
    type V = CommentsConfigView;

    open spec fn view(&self) -> CommentsConfigView {
        let listed = match self.exts {
            Some(exts) => views(exts@),
            None => Seq::empty(),
        };
        let single = match self.ext {
            Some(ext) => seq![ext@],
            None => Seq::empty(),
        };
        CommentsConfigView { keys: listed + single, types: kinds(self.types@) }
    }
}

impl CommentsConfig {
    /// Takes the entry apart into its single extension, its list of
    /// extensions, and its comment types.
    pub fn break_apart(self) -> (parts: (Option<String>, Option<Vec<String>>, CommentTypes))
        ensures
            parts.0 == self.ext,
            parts.1 == self.exts,
            parts.2@ == kinds(self.types@),
    {
        (self.ext, self.exts, CommentTypes::from_vec(self.types))
    }

    /// The extensions of the entry as one list: the listed ones, then the
    /// single one.
    pub fn into_keys_and_types(self) -> (parts: (Vec<String>, CommentTypes))
        ensures
            views(parts.0@) == self@.keys,
            parts.1@ == self@.types,
    {
        let (ext, exts, types) = self.break_apart();
        let mut keys: Vec<String> = match exts {
            Some(exts) => exts,
            None => {
                let none: Vec<String> = Vec::new();
                assert(views(none@) =~= Seq::<Seq<char>>::empty());
                none
            },
        };
        let ghost listed = views(keys@);
        match ext {
            Some(ext) => {
                keys.push(ext);
                assert(views(keys@) =~= listed + seq![ext@]);
            },
            None => {
                assert(views(keys@) =~= listed + Seq::<Seq<char>>::empty());
            },
        }
        (keys, types)
    }
}

impl Clone for CommentsConfig {
    fn clone(&self) -> (c: Self)
        ensures
            c@ == self@,
    {
        let c = CommentsConfig {
            ext: self.ext.clone(),
            exts: self.exts.clone(),
            types: self.types.clone(),
        };
        proof {
            assert(c.types@ =~= self.types@);
            if self.exts is Some {
                assert(c.exts->Some_0@ =~= self.exts->Some_0@);
            }
        }
        c
    }
}

/// What a `StyleConfig` stands for.
pub enum StyleView {
    Named(Seq<char>),
    Fixed(u8),
}

/// A style as a fragment names it: by a name such as `b_red`, or by the
/// number of a colour. The library hands styles through as they are.
#[derive(Debug)]
pub enum StyleConfig {
    Named(String),
    Fixed(u8),
}

impl View for StyleConfig {
    type V = StyleView;

    open spec fn view(&self) -> StyleView {
        match self {
            StyleConfig::Named(name) => StyleView::Named(name@),
            StyleConfig::Fixed(n) => StyleView::Fixed(*n),
        }
    }
}

impl Clone for StyleConfig {
    fn clone(&self) -> (c: Self)
        ensures
            c == *self,
    {
        match self {
            StyleConfig::Named(name) => StyleConfig::Named(name.clone()),
            StyleConfig::Fixed(n) => StyleConfig::Fixed(*n),
        }
    }
}

/// The style of a tag.
#[derive(Debug)]
pub struct TagStyle {
    pub tag: String,
    pub style: StyleConfig,
}

impl View for TagStyle {
    type V = (Seq<char>, StyleView);

    open spec fn view(&self) -> (Seq<char>, StyleView) {
        (self.tag@, self.style@)
    }
}

impl Clone for TagStyle {
    fn clone(&self) -> (c: Self)
        ensures
            c == *self,
    {
        TagStyle { tag: self.tag.clone(), style: self.style.clone() }
    }
}

/// The styles of the parts of a printed annotation.
#[derive(Debug)]
pub struct StylesConfig {
    pub filepath: StyleConfig,
    pub tag: StyleConfig,
    pub content: StyleConfig,
    pub line_number: StyleConfig,
    pub user: StyleConfig,
    pub tags: Vec<TagStyle>,
}

/// What a `StylesConfig` stands for.
pub struct StylesView {
    pub filepath: StyleView,
    pub tag: StyleView,
    pub content: StyleView,
    pub line_number: StyleView,
    pub user: StyleView,
    pub tags: Seq<(Seq<char>, StyleView)>,
}

impl StylesView {
    /// The styles that are used where no layer names any.
    pub open spec fn standard() -> StylesView {
        StylesView {
            filepath: StyleView::Named("U_WHITE"@),
            tag: StyleView::Named("GREEN"@),
            content: StyleView::Named("CYAN"@),
            line_number: StyleView::Fixed(8),
            user: StyleView::Fixed(8),
            tags: Seq::empty(),
        }
    }

    /// The styles that stand for plain text.
    pub open spec fn plain() -> StylesView {
        StylesView {
            filepath: StyleView::Named(Seq::empty()),
            tag: StyleView::Named(Seq::empty()),
            content: StyleView::Named(Seq::empty()),
            line_number: StyleView::Named(Seq::empty()),
            user: StyleView::Named(Seq::empty()),
            tags: Seq::empty(),
        }
    }
}

impl View for StylesConfig {
    type V = StylesView;

    open spec fn view(&self) -> StylesView {
        StylesView {
            filepath: self.filepath@,
            tag: self.tag@,
            content: self.content@,
            line_number: self.line_number@,
            user: self.user@,
            tags: self.tags@.map_values(|t: TagStyle| t@),
        }
    }
}

impl StylesConfig {
    /// The styles that stand for plain text.
    pub fn no_style() -> (styles: StylesConfig)
        ensures
            styles@ == StylesView::plain(),
    {
        let styles = StylesConfig {
            filepath: StyleConfig::Named(String::new()),
            tag: StyleConfig::Named(String::new()),
            content: StyleConfig::Named(String::new()),
            line_number: StyleConfig::Named(String::new()),
            user: StyleConfig::Named(String::new()),
            tags: Vec::new(),
        };
        assert(styles@.tags =~= Seq::empty());
        styles
    }
}

impl Clone for StylesConfig {
    fn clone(&self) -> (c: Self)
        ensures
            c@ == self@,
    {
        let c = StylesConfig {
            filepath: self.filepath.clone(),
            tag: self.tag.clone(),
            content: self.content.clone(),
            line_number: self.line_number.clone(),
            user: self.user.clone(),
            tags: self.tags.clone(),
        };
        assert(c.tags@ =~= self.tags@);
        c
    }
}

impl Default for StylesConfig {
    fn default() -> (styles: StylesConfig)
        ensures
            styles@ == StylesView::standard(),
    {
        let styles = StylesConfig {
            filepath: StyleConfig::Named(String::from_str("U_WHITE")),
            tag: StyleConfig::Named(String::from_str("GREEN")),
            content: StyleConfig::Named(String::from_str("CYAN")),
            line_number: StyleConfig::Fixed(8),
            user: StyleConfig::Fixed(8),
            tags: Vec::new(),
        };
        assert(styles@.tags =~= Seq::empty());
        styles
    }
}

/// One fragment of configuration. What a fragment leaves out stays as the
/// fragments before it had it.
#[derive(Debug, Clone)]
pub struct ConfigFragment {
    /// The tags to look for.
    pub tags: Option<Vec<String>>,
    /// The paths to pass over.
    pub ignore: Option<Vec<String>>,
    /// The extension whose comment types stand in for an unknown extension.
    pub default_ext: Option<String>,
    /// Comment types for extensions. An entry for an extension takes the
    /// place of what earlier entries gave for it.
    pub comments: Vec<CommentsConfig>,
    /// The styles for printing.
    pub styles: Option<StylesConfig>,
}

/// What a `ConfigFragment` stands for.
pub struct FragmentView {
    pub tags: Option<Seq<Seq<char>>>,
    pub ignore: Option<Seq<Seq<char>>>,
    pub default_ext: Option<Seq<char>>,
    pub comments: Seq<CommentsConfigView>,
    pub styles: Option<StylesView>,
}

/// The views of a sequence of comment entries.
pub open spec fn comments_views(comments: Seq<CommentsConfig>) -> Seq<CommentsConfigView> {
    comments.map_values(|c: CommentsConfig| c@)
}

/// The views of the strings of an optional list.
pub open spec fn option_views(list: Option<Vec<String>>) -> Option<Seq<Seq<char>>> {
    match list {
        Some(l) => Some(views(l@)),
        None => None,
    }
}

impl View for ConfigFragment {
    type V = FragmentView;

    open spec fn view(&self) -> FragmentView {
        FragmentView {
            tags: option_views(self.tags),
            ignore: option_views(self.ignore),
            default_ext: match self.default_ext {
                Some(ext) => Some(ext@),
                None => None,
            },
            comments: comments_views(self.comments@),
            styles: match self.styles {
                Some(styles) => Some(styles@),
                None => None,
            },
        }
    }
}

impl ConfigFragment {
    /// A fragment that says nothing.
    pub fn new() -> (fragment: ConfigFragment)
        ensures
            fragment@ == FragmentView::empty(),
    {
        let fragment = ConfigFragment {
            tags: None,
            ignore: None,
            default_ext: None,
            comments: Vec::new(),
            styles: None,
        };
        assert(fragment@.comments =~= Seq::<CommentsConfigView>::empty());
        fragment
    }
}

impl FragmentView {
    /// The fragment that says nothing.
    pub open spec fn empty() -> FragmentView {
        FragmentView {
            tags: None,
            ignore: None,
            default_ext: None,
            comments: Seq::empty(),
            styles: None,
        }
    }
}

/// The comment kinds of the languages that write `//` and `/* */`.
pub open spec fn c_style() -> Seq<CommentKind> {
    seq![CommentKind::single("//"@), CommentKind::block("/*"@, "*/"@)]
}

/// The built-in comment types: for each group of extensions its comment
/// kinds.
pub open spec fn builtin_comments() -> Seq<CommentsConfigView> {
    seq![
        CommentsConfigView {
            keys: seq![
                "rs"@,
                "c"@,
                "h"@,
                "cc"@,
                "cpp"@,
                "hpp"@,
                "cs"@,
                "go"@,
                "java"@,
                "js"@,
                "jsx"@,
                "ts"@,
                "tsx"@,
                "swift"@,
                "kt"@,
                "scala"@,
                "php"@,
                "scss"@,
                "less"@,
            ],
            types: c_style(),
        },
        CommentsConfigView {
            keys: seq!["py"@],
            types: seq![CommentKind::single("#"@), CommentKind::block("\"\"\""@, "\"\"\""@)],
        },
        CommentsConfigView {
            keys: seq!["sh"@, "bash"@, "zsh"@, "rb"@, "pl"@, "yaml"@, "yml"@, "toml"@],
            types: seq![CommentKind::single("#"@)],
        },
        CommentsConfigView { keys: seq!["tex"@], types: seq![CommentKind::single("%"@)] },
        CommentsConfigView {
            keys: seq!["hs"@, "sql"@, "lua"@],
            types: seq![CommentKind::single("--"@)],
        },
        CommentsConfigView {
            keys: seq!["html"@, "htm"@, "xml"@, "md"@],
            types: seq![CommentKind::block("<!--"@, "-->"@)],
        },
        CommentsConfigView { keys: seq!["css"@], types: seq![CommentKind::block("/*"@, "*/"@)] },
    ]
}

impl FragmentView {
    /// The built-in configuration: the tags `TODO` and `FIXME`, nothing to
    /// ignore, shell scripts as the default, and the built-in comment types.
    /// It names no styles.
    pub open spec fn builtin() -> FragmentView {
        FragmentView {
            tags: Some(seq!["TODO"@, "FIXME"@]),
            ignore: Some(Seq::empty()),
            default_ext: Some("sh"@),
            comments: builtin_comments(),
            styles: None,
        }
    }
}

/// Owned copies of the given strings.
pub fn to_strings(strs: &[&str]) -> (strings: Vec<String>)
    ensures
        views(strings@) == strs@.map_values(|s: &str| s@),
{
    let mut strings: Vec<String> = Vec::new();
    let mut i: usize = 0;
    while i < strs.len()
        invariant
            i <= strs.len(),
            strings.len() == i,
            forall|j: int| 0 <= j < i ==> (#[trigger] strings@[j])@ == strs@[j]@,
        decreases strs.len() - i,
    {
        strings.push(String::from_str(strs[i]));
        i += 1;
    }
    assert(views(strings@) =~= strs@.map_values(|s: &str| s@));
    strings
}

/// An entry of comment types for the given extensions.
fn comments_for(exts: Vec<&str>, types: Vec<CommentType>) -> (entry: CommentsConfig)
    ensures
        entry@ == (CommentsConfigView {
            keys: exts@.map_values(|s: &str| s@),
            types: kinds(types@),
        }),
{
    let keys = to_strings(exts.as_slice());
    let entry = CommentsConfig { ext: None, exts: Some(keys), types };
    assert(entry@.keys =~= exts@.map_values(|s: &str| s@));
    entry
}

/// The built-in configuration.
pub fn default_config() -> (fragment: ConfigFragment)
    ensures
        fragment@ == FragmentView::builtin(),
{
    let mut comments: Vec<CommentsConfig> = Vec::new();
    let c_exts = vec![
        "rs",
        "c",
        "h",
        "cc",
        "cpp",
        "hpp",
        "cs",
        "go",
        "java",
        "js",
        "jsx",
        "ts",
        "tsx",
        "swift",
        "kt",
        "scala",
        "php",
        "scss",
        "less",
    ];
    let c_types = vec![CommentType::new_single("//"), CommentType::new_block("/*", "*/")];
    let c_entry = comments_for(c_exts, c_types);
    assert(c_entry@.keys =~= builtin_comments()[0].keys);
    assert(c_entry@.types =~= builtin_comments()[0].types);
    comments.push(c_entry);

    let py_types = vec![CommentType::new_single("#"), CommentType::new_block("\"\"\"", "\"\"\"")];
    let py_entry = comments_for(vec!["py"], py_types);
    assert(py_entry@.keys =~= builtin_comments()[1].keys);
    assert(py_entry@.types =~= builtin_comments()[1].types);
    comments.push(py_entry);

    let hash_exts = vec!["sh", "bash", "zsh", "rb", "pl", "yaml", "yml", "toml"];
    let hash_entry = comments_for(hash_exts, vec![CommentType::new_single("#")]);
    assert(hash_entry@.keys =~= builtin_comments()[2].keys);
    assert(hash_entry@.types =~= builtin_comments()[2].types);
    comments.push(hash_entry);

    let tex_entry = comments_for(vec!["tex"], vec![CommentType::new_single("%")]);
    assert(tex_entry@.keys =~= builtin_comments()[3].keys);
    assert(tex_entry@.types =~= builtin_comments()[3].types);
    comments.push(tex_entry);

    let dash_entry = comments_for(vec!["hs", "sql", "lua"], vec![CommentType::new_single("--")]);
    assert(dash_entry@.keys =~= builtin_comments()[4].keys);
    assert(dash_entry@.types =~= builtin_comments()[4].types);
    comments.push(dash_entry);

    let markup_exts = vec!["html", "htm", "xml", "md"];
    let markup_entry = comments_for(markup_exts, vec![CommentType::new_block("<!--", "-->")]);
    assert(markup_entry@.keys =~= builtin_comments()[5].keys);
    assert(markup_entry@.types =~= builtin_comments()[5].types);
    comments.push(markup_entry);

    let css_entry = comments_for(vec!["css"], vec![CommentType::new_block("/*", "*/")]);
    assert(css_entry@.keys =~= builtin_comments()[6].keys);
    assert(css_entry@.types =~= builtin_comments()[6].types);
    comments.push(css_entry);

    let tags = to_strings(vec!["TODO", "FIXME"].as_slice());
    let ignore: Vec<String> = Vec::new();
    let fragment = ConfigFragment {
        tags: Some(tags),
        ignore: Some(ignore),
        default_ext: Some(String::from_str("sh")),
        comments,
        styles: None,
    };
    proof {
        assert(fragment@.comments =~= builtin_comments());
        assert(fragment@.tags->Some_0 =~= seq!["TODO"@, "FIXME"@]);
        assert(fragment@.ignore->Some_0 =~= Seq::<Seq<char>>::empty());
    }
    fragment
}

} // verus!
