//! Building a `TodoR` from layers of configuration.
//!
//! There are four layers, and a later one wins over an earlier one:
//! 1. the built-in defaults,
//! 2. the fragments that were added, in the order they were added,
//! 3. the tags that were added one by one,
//! 4. the overrides.
//!
//! Within layers 1 and 2 a fragment that names the tags, the paths to ignore
//! or the default extension replaces what the fragments before it named, and
//! an entry of comment types for an extension replaces the entry that an
//! earlier fragment had for that extension. The tags of layer 3 are appended
//! to those of layers 1 and 2. An override of layer 4 replaces what layers 1
//! to 3 gave for its field.
use vstd::prelude::*;
use crate::comments::{CommentKind, CommentTypes};
use crate::configs::{CommentsConfigView, ConfigFragment, FragmentView, StylesConfig, StylesView};
use crate::display::{styles_of, TodoRStyles, TodoRStylesView};
use crate::errors::{ErrorView, TodoRError};
use crate::maps::{CommentRegexMultiMap, MultiMapView};
use crate::text::{to_uppercase, uppercase, views};
use crate::todor::{TodoR, TodoRConfig, TodoRView};

verus! {

/// The tags that the fragments name: those of the last fragment that names
/// any.
pub open spec fn merged_tags(fragments: Seq<FragmentView>) -> Seq<Seq<char>>
    decreases fragments.len(),
{
    if fragments.len() == 0 {
        Seq::empty()
    } else {
        match fragments.last().tags {
            Some(tags) => tags,
            None => merged_tags(fragments.drop_last()),
        }
    }
}

/// The paths to ignore that the fragments name: those of the last fragment
/// that names any.
pub open spec fn merged_ignore(fragments: Seq<FragmentView>) -> Seq<Seq<char>>
    decreases fragments.len(),
{
    if fragments.len() == 0 {
        Seq::empty()
    } else {
        match fragments.last().ignore {
            Some(ignore) => ignore,
            None => merged_ignore(fragments.drop_last()),
        }
    }
}

/// The default extension that the fragments name: that of the last fragment
/// that names one, or the empty string.
pub open spec fn merged_default_ext(fragments: Seq<FragmentView>) -> Seq<char>
    decreases fragments.len(),
{
    if fragments.len() == 0 {
        Seq::empty()
    } else {
        match fragments.last().default_ext {
            Some(ext) => ext,
            None => merged_default_ext(fragments.drop_last()),
        }
    }
}

/// The styles that the fragments name: those of the last fragment that names
/// any.
pub open spec fn merged_styles(fragments: Seq<FragmentView>) -> Option<StylesView>
    decreases fragments.len(),
{
    if fragments.len() == 0 {
        None
    } else {
        match fragments.last().styles {
            Some(styles) => Some(styles),
            None => merged_styles(fragments.drop_last()),
        }
    }
}

/// All entries of comment types of the fragments, in order.
pub open spec fn merged_comments(fragments: Seq<FragmentView>) -> Seq<CommentsConfigView>
    decreases fragments.len(),
{
    if fragments.len() == 0 {
        Seq::empty()
    } else {
        merged_comments(fragments.drop_last()) + fragments.last().comments
    }
}

/// The table of comment types before any entry: no extension is known, and
/// the fallback is the single-line comment that starts with `#`.
pub open spec fn initial_table() -> MultiMapView {
    MultiMapView {
        slots: Map::empty(),
        types: seq![seq![CommentKind::single("#"@)]],
        cache: seq![None],
    }
}

/// The table of comment types that the entries give: each entry has a slot of
/// its own, and each of its extensions points to that slot from then on.
pub open spec fn table_of(comments: Seq<CommentsConfigView>) -> MultiMapView
    decreases comments.len(),
{
    if comments.len() == 0 {
        initial_table()
    } else {
        table_of(comments.drop_last()).with_slot(comments.last().keys, comments.last().types)
    }
}

/// Each string in upper case.
pub open spec fn all_uppercase(tags: Seq<Seq<char>>) -> Seq<Seq<char>> {
    tags.map_values(|tag: Seq<char>| uppercase(tag))
}

/// What a `TodoRBuilder` stands for: the layers as they were given.
pub struct BuilderView {
    /// The fragments of layers 1 and 2, in order.
    pub fragments: Seq<FragmentView>,
    /// The tags of layer 3, in order.
    pub added_tags: Seq<Seq<char>>,
    /// The overrides of layer 4.
    pub override_tags: Option<Seq<Seq<char>>>,
    pub override_ignore_paths: Option<Seq<Seq<char>>>,
    pub override_default_ext: Option<Seq<char>>,
    pub override_styles: Option<TodoRStylesView>,
}

impl BuilderView {
    /// The tags to look for, in upper case.
    pub open spec fn tags(self) -> Seq<Seq<char>> {
        all_uppercase(
            match self.override_tags {
                Some(tags) => tags,
                None => merged_tags(self.fragments) + self.added_tags,
            },
        )
    }

    /// The paths to pass over.
    pub open spec fn ignore(self) -> Seq<Seq<char>> {
        match self.override_ignore_paths {
            Some(paths) => paths,
            None => merged_ignore(self.fragments),
        }
    }

    /// The default extension.
    pub open spec fn default_ext(self) -> Seq<char> {
        match self.override_default_ext {
            Some(ext) => ext,
            None => merged_default_ext(self.fragments),
        }
    }

    /// The styles that the fragments give, once they are read: the standard
    /// styles where no fragment names any, and an error where a style of the
    /// fragments cannot be read.
    pub open spec fn fragment_styles(self) -> Result<TodoRStylesView, ErrorView> {
        match merged_styles(self.fragments) {
            Some(config) => styles_of(config),
            None => Ok(TodoRStylesView::standard()),
        }
    }

    /// The styles for printing: those of the override, or else those of the
    /// fragments.
    pub open spec fn styles(self) -> TodoRStylesView {
        match self.override_styles {
            Some(styles) => styles,
            None => self.fragment_styles()->Ok_0,
        }
    }

    /// The table of comment types, before the default extension is looked up.
    pub open spec fn table(self) -> MultiMapView {
        table_of(merged_comments(self.fragments))
    }

    /// Whether the default extension has comment types in the table.
    pub open spec fn default_ext_is_known(self) -> bool {
        self.table().slots.contains_key(self.default_ext())
    }

    /// The comment types of each slot once the fallback slot holds those of
    /// the default extension.
    pub open spec fn types(self) -> Seq<Seq<CommentKind>> {
        self.table().types.update(0, self.table().types[self.table().slot_of(self.default_ext())])
    }

    /// What is built where the default extension is known: a `TodoR` with the
    /// resolved configuration and no files.
    pub open spec fn built(self) -> TodoRView {
        TodoRView {
            tags: self.tags(),
            ignore: self.ignore(),
            styles: self.styles(),
            slots: self.table().slots,
            types: self.types(),
            files: Seq::empty(),
        }
    }
}

/// A table made of entries has one slot more than there are entries, and
/// holds no expressions yet. If the slots can be counted in a `usize`, the
/// table is well formed.
pub proof fn lemma_table_of(comments: Seq<CommentsConfigView>)
    ensures
        table_of(comments).types.len() == comments.len() + 1,
        table_of(comments).cache.len() == comments.len() + 1,
        forall|i: int|
            0 <= i < table_of(comments).cache.len() ==> (#[trigger] table_of(comments).cache[i])
                is None,
        comments.len() < usize::MAX ==> table_of(comments).wf(),
    decreases comments.len(),
{
    if comments.len() > 0 {
        let before = table_of(comments.drop_last());
        lemma_table_of(comments.drop_last());
        let keys = comments.last().keys;
        let after = table_of(comments);
        if comments.len() < usize::MAX {
            assert forall|k: Seq<char>|
                #![trigger after.slots.contains_key(k)]
                after.slots.contains_key(k) implies 1 <= after.slots[k] < after.types.len() by {
                crate::maps::lemma_with_keys(before.slots, keys, before.types.len() as usize, k);
            }
        }
    } else {
        assert forall|k: Seq<char>| !(#[trigger] initial_table().slots.contains_key(k)) by {}
    }
}

/// An extension that an entry names is known to the table.
pub proof fn lemma_table_knows(comments: Seq<CommentsConfigView>, i: int, ext: Seq<char>)
    requires
        0 <= i < comments.len(),
        comments[i].keys.contains(ext),
    ensures
        table_of(comments).slots.contains_key(ext),
    decreases comments.len(),
{
    let before = table_of(comments.drop_last());
    crate::maps::lemma_with_keys(
        before.slots,
        comments.last().keys,
        before.types.len() as usize,
        ext,
    );
    if i < comments.len() - 1 {
        lemma_table_knows(comments.drop_last(), i, ext);
    }
}

/// The built-in configuration can be built, whatever the tags are overridden
/// with: it knows its own default extension, and has no styles to read.
pub proof fn lemma_builtin_is_buildable(builder: BuilderView)
    requires
        builder.fragments == seq![FragmentView::builtin()],
        builder.override_default_ext is None,
    ensures
        builder.default_ext_is_known(),
        builder.fragment_styles() is Ok,
{
    let fragments = builder.fragments;
    assert(fragments.drop_last() =~= Seq::<FragmentView>::empty());
    assert(merged_styles(fragments.drop_last()) is None);
    assert(merged_styles(fragments) is None);
    assert(merged_comments(fragments.drop_last()) =~= Seq::<CommentsConfigView>::empty());
    assert(merged_comments(fragments) =~= crate::configs::builtin_comments());
    assert(merged_default_ext(fragments) == "sh"@);
    let keys = crate::configs::builtin_comments()[2].keys;
    assert(keys[0] == "sh"@);
    lemma_table_knows(crate::configs::builtin_comments(), 2, "sh"@);
}

/// The views of the fragments of a sequence.
pub open spec fn fragment_views(fragments: Seq<ConfigFragment>) -> Seq<FragmentView> {
    fragments.map_values(|f: ConfigFragment| f@)
}

/// Builds a `TodoR` with a configuration of one's own, by calls such as
/// `add_tag` and by adding fragments of configuration.
///
/// A call with `override` in its name sets aside what the fragments and the
/// additive calls say of the same field.
#[derive(Debug, Clone)]
pub struct TodoRBuilder {
    added_tags: Vec<String>,
    override_tags: Option<Vec<String>>,
    override_ignore_paths: Option<Vec<String>>,
    override_default_ext: Option<String>,
    no_style: bool,
    inner_config: Vec<ConfigFragment>,
}

impl View for TodoRBuilder {
    type V = BuilderView;

    closed spec fn view(&self) -> BuilderView {
        BuilderView {
            fragments: fragment_views(self.inner_config@),
            added_tags: views(self.added_tags@),
            override_tags: crate::configs::option_views(self.override_tags),
            override_ignore_paths: crate::configs::option_views(self.override_ignore_paths),
            override_default_ext: match self.override_default_ext {
                Some(ext) => Some(ext@),
                None => None,
            },
            override_styles: if self.no_style {
                Some(TodoRStylesView::plain())
            } else {
                None
            },
        }
    }
}

impl Default for TodoRBuilder {
    fn default() -> (builder: TodoRBuilder)
        ensures
            builder@ == BuilderView::empty(),
    {
        TodoRBuilder::with_no_config()
    }
}

impl BuilderView {
    /// The builder with nothing in any layer.
    pub open spec fn empty() -> BuilderView {
        BuilderView {
            fragments: Seq::empty(),
            added_tags: Seq::empty(),
            override_tags: None,
            override_ignore_paths: None,
            override_default_ext: None,
            override_styles: None,
        }
    }
}

impl TodoRBuilder {
    /// A builder with no configuration at all, not even the built-in one.
    pub fn with_no_config() -> (builder: TodoRBuilder)
        ensures
            builder@ == BuilderView::empty(),
    {
        let builder = TodoRBuilder {
            added_tags: Vec::new(),
            override_tags: None,
            override_ignore_paths: None,
            override_default_ext: None,
            no_style: false,
            inner_config: Vec::new(),
        };
        proof {
            assert(builder@.fragments =~= Seq::<FragmentView>::empty());
            assert(builder@.added_tags =~= Seq::<Seq<char>>::empty());
        }
        builder
    }

    /// Adds a tag to look for, beside the tags of the fragments.
    pub fn add_tag(&mut self, tag: &str) -> (this: &mut Self)
        ensures
            this@ == (BuilderView { added_tags: old(self)@.added_tags.push(tag@), ..old(self)@ }),
            *final(self) == *final(this),
    {
        self.added_tags.push(String::from_str(tag));
        assert(self@.added_tags =~= old(self)@.added_tags.push(tag@));
        self
    }

    /// A builder that starts from the built-in configuration.
    pub fn new() -> (builder: TodoRBuilder)
        ensures
            builder@ == (BuilderView {
                fragments: seq![FragmentView::builtin()],
                ..BuilderView::empty()
            }),
    {
        let mut builder = TodoRBuilder::with_no_config();
        builder.inner_config.push(crate::configs::default_config());
        proof {
            assert(builder@.fragments =~= seq![FragmentView::builtin()]);
        }
        builder
    }

    /// Builds the `TodoR`, with the configuration that the layers resolve to.
    ///
    /// Fails with `InvalidConfigFile` if a style of the fragments cannot be
    /// read, even where the styles are overridden, and else with
    /// `InvalidDefaultExtension` if no entry of comment types names the
    /// default extension.
    pub fn build(self) -> (r: Result<TodoR, TodoRError>)
        ensures
            match self@.fragment_styles() {
                Err(e) => r is Err && r->Err_0@ == e,
                Ok(_) => if self@.default_ext_is_known() {
                    r is Ok && r->Ok_0.wf() && r->Ok_0@ == self@.built()
                } else {
                    r is Err && r->Err_0@ == (ErrorView::InvalidDefaultExtension {
                        ext: self@.default_ext(),
                    })
                },
            },
    {
        let ghost model = self@;
        let TodoRBuilder {
            added_tags,
            override_tags,
            override_ignore_paths,
            override_default_ext,
            no_style,
            inner_config,
        } = self;
        let ghost frags = fragment_views(inner_config@);

        // Layers 1 and 2: fold the fragments, in order.
        let mut tags: Vec<String> = Vec::new();
        let mut ignore: Vec<String> = Vec::new();
        let mut default_ext = String::new();
        let mut styles: Option<StylesConfig> = None;
        let mut ext_to_regexs = CommentRegexMultiMap::new(CommentTypes::new().add_single("#"));
        proof {
            assert(frags.take(0) =~= Seq::<FragmentView>::empty());
            assert(views(tags@) =~= Seq::<Seq<char>>::empty());
            assert(views(ignore@) =~= Seq::<Seq<char>>::empty());
            assert(ext_to_regexs@.slots =~= Map::<Seq<char>, usize>::empty());
            assert(ext_to_regexs@.types =~= initial_table().types);
            assert(ext_to_regexs@ == initial_table());
        }
        for fragment in it: inner_config
            invariant
                it.seq() == inner_config@,
                frags == fragment_views(inner_config@),
                views(tags@) == merged_tags(frags.take(it.index() as int)),
                views(ignore@) == merged_ignore(frags.take(it.index() as int)),
                default_ext@ == merged_default_ext(frags.take(it.index() as int)),
                styles_view(styles) == merged_styles(frags.take(it.index() as int)),
                ext_to_regexs.wf(),
                ext_to_regexs@ == table_of(merged_comments(frags.take(it.index() as int))),
        {
            let ghost n = it.index() as int;
            let ghost done = merged_comments(frags.take(n));
            proof {
                assert(frags.take(n + 1).drop_last() =~= frags.take(n));
                assert(frags.take(n + 1).last() == fragment@);
            }
            let ConfigFragment {
                tags: f_tags,
                ignore: f_ignore,
                default_ext: f_default_ext,
                comments: f_comments,
                styles: f_styles,
            } = fragment;
            match f_tags {
                Some(t) => {
                    tags = t;
                },
                None => {},
            }
            match f_ignore {
                Some(i) => {
                    ignore = i;
                },
                None => {},
            }
            match f_default_ext {
                Some(e) => {
                    default_ext = e;
                },
                None => {},
            }
            match f_styles {
                Some(s) => {
                    styles = Some(s);
                },
                None => {},
            }
            let ghost entries = crate::configs::comments_views(f_comments@);
            proof {
                assert(entries.take(0) =~= Seq::<CommentsConfigView>::empty());
                assert(done + entries.take(0) =~= done);
            }
            for entry in it2: f_comments
                invariant
                    it2.seq() == f_comments@,
                    entries == crate::configs::comments_views(f_comments@),
                    ext_to_regexs.wf(),
                    ext_to_regexs@ == table_of(done + entries.take(it2.index() as int)),
            {
                let ghost m = it2.index() as int;
                proof {
                    assert((done + entries.take(m + 1)).drop_last() =~= done + entries.take(m));
                    assert((done + entries.take(m + 1)).last() == entry@);
                }
                let (keys, types) = entry.into_keys_and_types();
                ext_to_regexs.insert_keys(keys, types);
            }
            proof {
                assert(entries.take(entries.len() as int) =~= entries);
            }
        }
        proof {
            assert(frags.take(frags.len() as int) =~= frags);
            lemma_table_of(merged_comments(frags));
        }

        // Layers 3 and 4: the added tags, then the overrides.
        let tags = match override_tags {
            Some(tags) => tags,
            None => {
                let ghost merged = views(tags@);
                let mut added = added_tags;
                tags.append(&mut added);
                assert(views(tags@) =~= merged + model.added_tags);
                tags
            },
        };
        let tags = all_to_uppercase(tags);
        let ignore = match override_ignore_paths {
            Some(paths) => paths,
            None => ignore,
        };
        let default_ext = match override_default_ext {
            Some(ext) => ext,
            None => default_ext,
        };
        let fragment_styles = match styles {
            Some(config) => match config.into_todo_r_styles() {
                Ok(styles) => styles,
                Err(e) => {
                    return Err(e);
                },
            },
            None => TodoRStyles::standard(),
        };
        let styles = if no_style {
            TodoRStyles::no_style()
        } else {
            fragment_styles
        };

        let known = ext_to_regexs.reset_fallback_key(default_ext.as_str()).is_some();
        if !known {
            return Err(TodoRError::InvalidDefaultExtension { ext: default_ext });
        }
        let config = TodoRConfig { tags, ignore, styles, ext_to_regexs };
        Ok(TodoR::with_config(config))
    }

    /// Adds a fragment of configuration, such as the content of a
    /// configuration file. It comes after the fragments added before.
    pub fn add_config_file(&mut self, config: ConfigFragment) -> (this: &mut Self)
        ensures
            this@ == (BuilderView { fragments: old(self)@.fragments.push(config@), ..old(self)@ }),
            *final(self) == *final(this),
    {
        self.inner_config.push(config);
        assert(self@.fragments =~= old(self)@.fragments.push(config@));
        self
    }

    /// Adds tags to look for, beside the tags of the fragments.
    pub fn add_tags(&mut self, tags: &[&str]) -> (this: &mut Self)
        ensures
            this@ == (BuilderView {
                added_tags: old(self)@.added_tags + tags@.map_values(|s: &str| s@),
                ..old(self)@
            }),
            *final(self) == *final(this),
    {
        let mut more = crate::configs::to_strings(tags);
        let ghost added = views(more@);
        self.added_tags.append(&mut more);
        assert(self@.added_tags =~= old(self)@.added_tags + added);
        self
    }

    /// Adds a tag to look for, in place of the tags of the fragments and of
    /// those added with `add_tag`.
    pub fn add_override_tag(&mut self, tag: &str) -> (this: &mut Self)
        ensures
            this@ == (BuilderView {
                override_tags: Some(or_empty(old(self)@.override_tags).push(tag@)),
                ..old(self)@
            }),
            *final(self) == *final(this),
    {
        let mut tags = match self.override_tags.take() {
            Some(tags) => tags,
            None => Vec::new(),
        };
        let ghost before = views(tags@);
        assert(before =~= or_empty(old(self)@.override_tags));
        tags.push(String::from_str(tag));
        assert(views(tags@) =~= before.push(tag@));
        self.override_tags = Some(tags);
        self
    }

    /// Adds tags to look for, in place of the tags of the fragments and of
    /// those added with `add_tag`.
    pub fn add_override_tags(&mut self, tags: &[&str]) -> (this: &mut Self)
        ensures
            this@ == (BuilderView {
                override_tags: Some(
                    or_empty(old(self)@.override_tags) + tags@.map_values(|s: &str| s@),
                ),
                ..old(self)@
            }),
            *final(self) == *final(this),
    {
        let mut all = match self.override_tags.take() {
            Some(tags) => tags,
            None => Vec::new(),
        };
        let ghost before = views(all@);
        assert(before =~= or_empty(old(self)@.override_tags));
        let mut more = crate::configs::to_strings(tags);
        let ghost added = views(more@);
        all.append(&mut more);
        assert(views(all@) =~= before + added);
        self.override_tags = Some(all);
        self
    }

    /// Adds a path to pass over, in place of the paths of the fragments.
    pub fn add_override_ignore_path(&mut self, path: &str) -> (this: &mut Self)
        ensures
            this@ == (BuilderView {
                override_ignore_paths: Some(
                    or_empty(old(self)@.override_ignore_paths).push(path@),
                ),
                ..old(self)@
            }),
            *final(self) == *final(this),
    {
        let mut paths = match self.override_ignore_paths.take() {
            Some(paths) => paths,
            None => Vec::new(),
        };
        let ghost before = views(paths@);
        assert(before =~= or_empty(old(self)@.override_ignore_paths));
        paths.push(String::from_str(path));
        assert(views(paths@) =~= before.push(path@));
        self.override_ignore_paths = Some(paths);
        self
    }

    /// Adds paths to pass over, in place of the paths of the fragments.
    pub fn add_override_ignore_paths(&mut self, paths: &[&str]) -> (this: &mut Self)
        ensures
            this@ == (BuilderView {
                override_ignore_paths: Some(
                    or_empty(old(self)@.override_ignore_paths) + paths@.map_values(|s: &str| s@),
                ),
                ..old(self)@
            }),
            *final(self) == *final(this),
    {
        let mut all = match self.override_ignore_paths.take() {
            Some(paths) => paths,
            None => Vec::new(),
        };
        let ghost before = views(all@);
        assert(before =~= or_empty(old(self)@.override_ignore_paths));
        let mut more = crate::configs::to_strings(paths);
        let ghost added = views(more@);
        all.append(&mut more);
        assert(views(all@) =~= before + added);
        self.override_ignore_paths = Some(all);
        self
    }

    /// Sets the styles to those of plain text, in place of the styles of the
    /// fragments.
    pub fn set_no_style(&mut self) -> (this: &mut Self)
        ensures
            this@ == (BuilderView {
                override_styles: Some(TodoRStylesView::plain()),
                ..old(self)@
            }),
            *final(self) == *final(this),
    {
        self.no_style = true;
        self
    }

    /// Sets the default extension, whose comment types stand in for those of
    /// an unknown extension, in place of the one of the fragments. To read
    /// files of unknown kinds with the comments of C, call
    /// `builder.set_default_ext("c")`.
    ///
    /// Whether the extension is known is found out when the `TodoR` is built.
    pub fn set_default_ext(&mut self, ext: &str) -> (r: Result<(), TodoRError>)
        ensures
            r is Ok,
            final(self)@ == (BuilderView { override_default_ext: Some(ext@), ..old(self)@ }),
    {
        self.override_default_ext = Some(String::from_str(ext));
        Ok(())
    }
}

/// What optional styles stand for.
pub open spec fn styles_view(styles: Option<StylesConfig>) -> Option<StylesView> {
    match styles {
        Some(styles) => Some(styles@),
        None => None,
    }
}

/// Puts every tag into upper case.
pub fn all_to_uppercase(tags: Vec<String>) -> (upper: Vec<String>)
    ensures
        views(upper@) == all_uppercase(views(tags@)),
{
    let mut upper: Vec<String> = Vec::new();
    let mut i: usize = 0;
    while i < tags.len()
        invariant
            i <= tags.len(),
            upper.len() == i,
            forall|j: int| 0 <= j < i ==> (#[trigger] upper@[j])@ == uppercase(tags@[j]@),
        decreases tags.len() - i,
    {
        upper.push(to_uppercase(tags[i].as_str()));
        i += 1;
    }
    assert(views(upper@) =~= all_uppercase(views(tags@)));
    upper
}

/// The list, or the empty list where there is none.
pub open spec fn or_empty(list: Option<Seq<Seq<char>>>) -> Seq<Seq<char>> {
    match list {
        Some(list) => list,
        None => Seq::empty(),
    }
}

} // verus!
