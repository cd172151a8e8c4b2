//! Comment delimiters: the single-line and block comment styles of a language.
//!
//! A comment type keeps its tokens in escaped form, ready to be spliced into
//! a pattern. The escaping happens once, when the value is made.
use vstd::prelude::*;
use crate::engine::{escape, escaped, is_meta_character};

verus! {

/// The token that an escaped token stands for: each backslash is taken out,
/// and the character after it is kept as it is.
pub open spec fn unescaped(token: Seq<char>) -> Seq<char>
    decreases token.len(),
{
    if token.len() == 0 {
        Seq::empty()
    } else if token[0] != '\\' {
        seq![token[0]] + unescaped(token.skip(1))
    } else if token.len() == 1 {
        Seq::empty()
    } else {
        seq![token[1]] + unescaped(token.skip(2))
    }
}

/// A character as `escaped` writes it: behind a backslash if it is a meta
/// character.
pub open spec fn escaped_char(c: char) -> Seq<char> {
    if is_meta_character(c) {
        seq!['\\', c]
    } else {
        seq![c]
    }
}

/// Escaping goes character by character, from the front as well as from the
/// back.
pub proof fn lemma_escaped_from_front(text: Seq<char>)
    requires
        text.len() > 0,
    ensures
        escaped(text) == escaped_char(text[0]) + escaped(text.skip(1)),
    decreases text.len(),
{
    if text.len() == 1 {
        assert(text.drop_last() =~= Seq::<char>::empty());
        assert(text.skip(1) =~= Seq::<char>::empty());
        assert(escaped(text.drop_last()) =~= Seq::<char>::empty());
        assert(escaped(text) =~= escaped_char(text[0]) + escaped(text.skip(1)));
    } else {
        lemma_escaped_from_front(text.drop_last());
        assert(text.drop_last().skip(1) =~= text.skip(1).drop_last());
        assert(text.skip(1).last() == text.last());
        assert(text.drop_last()[0] == text[0]);
        let head = escaped_char(text[0]);
        let mid = escaped(text.skip(1).drop_last());
        assert(escaped(text) =~= head + escaped(text.skip(1)));
    }
}

/// Escaping loses nothing: the escaped token stands for the token that was
/// escaped.
pub proof fn lemma_unescaped_escaped(text: Seq<char>)
    ensures
        unescaped(escaped(text)) == text,
    decreases text.len(),
{
    if text.len() == 0 {
        assert(unescaped(escaped(text)) =~= text);
    } else {
        lemma_escaped_from_front(text);
        lemma_unescaped_escaped(text.skip(1));
        let token = escaped(text);
        let rest = escaped(text.skip(1));
        if is_meta_character(text[0]) {
            assert(token[0] == '\\' && token[1] == text[0]);
            assert(token.skip(2) =~= rest);
        } else {
            assert(token[0] == text[0]);
            assert(token.skip(1) =~= rest);
        }
        assert(seq![text[0]] + text.skip(1) =~= text);
    }
}

/// Takes the escaping out of a token, as `CommentType` keeps it.
pub fn unescape(token: &str) -> (raw: String)
    ensures
        raw@ == unescaped(token@),
{
    let n = token.unicode_len();
    let mut raw = String::new();
    let mut i: usize = 0;
    proof {
        assert(token@.skip(0) =~= token@);
    }
    while i < n
        invariant
            i <= n,
            n == token@.len(),
            unescaped(token@) == raw@ + unescaped(token@.skip(i as int)),
        decreases n - i,
    {
        let ghost rest = token@.skip(i as int);
        let ghost before = raw@;
        let c = token.get_char(i);
        assert(rest[0] == c);
        if c != '\\' {
            raw.append(token.substring_char(i, i + 1));
            proof {
                assert(token@.subrange(i as int, i + 1) =~= seq![c]);
                assert(rest.skip(1) =~= token@.skip(i + 1));
                assert(before + (seq![c] + unescaped(rest.skip(1))) =~= raw@ + unescaped(
                    token@.skip(i + 1),
                ));
            }
            i += 1;
        } else if i + 1 < n {
            raw.append(token.substring_char(i + 1, i + 2));
            proof {
                assert(token@.subrange(i + 1, i + 2) =~= seq![rest[1]]);
                assert(rest.skip(2) =~= token@.skip(i + 2));
                assert(before + (seq![rest[1]] + unescaped(rest.skip(2))) =~= raw@ + unescaped(
                    token@.skip(i + 2),
                ));
            }
            i += 2;
        } else {
            proof {
                assert(rest.len() == 1);
                assert(token@.skip(i + 1) =~= Seq::<char>::empty());
                assert(before + Seq::<char>::empty() =~= raw@ + unescaped(token@.skip(i + 1)));
            }
            i += 1;
        }
    }
    proof {
        assert(token@.skip(n as int) =~= Seq::<char>::empty());
        assert(raw@ + unescaped(token@.skip(n as int)) =~= raw@);
    }
    raw
}

/// A single-line comment style, such as `//` in Rust.
#[derive(Debug)]
pub struct SingleLineComment {
    prefix: String,
}

impl View for SingleLineComment {
    type V = Seq<char>;

    /// The escaped prefix token.
    closed spec fn view(&self) -> Seq<char> {
        self.prefix@
    }
}

impl SingleLineComment {
    pub fn new(prefix: &str) -> (c: SingleLineComment)
        ensures
            c@ == escaped(prefix@),
    {
        SingleLineComment { prefix: escape(prefix) }
    }
}

impl Clone for SingleLineComment {
    fn clone(&self) -> (c: Self)
        ensures
            c == *self,
    {
        SingleLineComment { prefix: self.prefix.clone() }
    }
}

/// A block comment style, such as `/*` and `*/` in Rust.
#[derive(Debug)]
pub struct BlockComment {
    prefix: String,
    suffix: String,
}

impl View for BlockComment {
    type V = (Seq<char>, Seq<char>);

    /// The escaped opening and closing tokens.
    closed spec fn view(&self) -> (Seq<char>, Seq<char>) {
        (self.prefix@, self.suffix@)
    }
}

impl BlockComment {
    pub fn new(prefix: &str, suffix: &str) -> (c: BlockComment)
        ensures
            c@ == (escaped(prefix@), escaped(suffix@)),
    {
        BlockComment { prefix: escape(prefix), suffix: escape(suffix) }
    }
}

impl Clone for BlockComment {
    fn clone(&self) -> (c: Self)
        ensures
            c == *self,
    {
        BlockComment { prefix: self.prefix.clone(), suffix: self.suffix.clone() }
    }
}

/// What a comment type stands for: its kind and its escaped tokens.
pub enum CommentKind {
    SingleLine { prefix: Seq<char> },
    Block { prefix: Seq<char>, suffix: Seq<char> },
}

impl CommentKind {
    /// The pattern text that opens the comment.
    pub open spec fn prefix(self) -> Seq<char> {
        match self {
            CommentKind::SingleLine { prefix } => prefix,
            CommentKind::Block { prefix, .. } => prefix,
        }
    }

    /// The pattern text that closes the comment: the end-of-line anchor for a
    /// single-line comment, the closing token for a block comment.
    pub open spec fn suffix(self) -> Seq<char> {
        match self {
            CommentKind::SingleLine { .. } => "$"@,
            CommentKind::Block { suffix, .. } => suffix,
        }
    }

    /// The kind of a single-line comment that starts with the raw token `prefix`.
    pub open spec fn single(prefix: Seq<char>) -> CommentKind {
        CommentKind::SingleLine { prefix: escaped(prefix) }
    }

    /// The kind of a block comment between the raw tokens `prefix` and `suffix`.
    pub open spec fn block(prefix: Seq<char>, suffix: Seq<char>) -> CommentKind {
        CommentKind::Block { prefix: escaped(prefix), suffix: escaped(suffix) }
    }
}

/// A comment type: either single-line, like `// comment`, or block, like
/// `/* comment */`.
#[derive(Debug)]
pub enum CommentType {
    SingleLine(SingleLineComment),
    Block(BlockComment),
}

impl View for CommentType {
    type V = CommentKind;

    open spec fn view(&self) -> CommentKind {
        match self {
            CommentType::SingleLine(c) => CommentKind::SingleLine { prefix: c@ },
            CommentType::Block(c) => CommentKind::Block { prefix: c@.0, suffix: c@.1 },
        }
    }
}

impl CommentType {
    /// A single-line comment type with the given prefix token.
    pub fn new_single(prefix: &str) -> (c: CommentType)
        ensures
            c@ == CommentKind::single(prefix@),
    {
        CommentType::SingleLine(SingleLineComment::new(prefix))
    }

    /// A block comment type with the given opening and closing tokens.
    pub fn new_block(prefix: &str, suffix: &str) -> (c: CommentType)
        ensures
            c@ == CommentKind::block(prefix@, suffix@),
    {
        CommentType::Block(BlockComment::new(prefix, suffix))
    }

    /// The escaped token that opens the comment.
    pub fn prefix(&self) -> (p: &str)
        ensures
            p@ == self@.prefix(),
    {
        match self {
            CommentType::SingleLine(c) => c.prefix.as_str(),
            CommentType::Block(c) => c.prefix.as_str(),
        }
    }

    /// The pattern that closes the comment: `$` for a single-line comment, the
    /// escaped closing token for a block comment.
    pub fn suffix(&self) -> (s: &str)
        ensures
            s@ == self@.suffix(),
    {
        match self {
            CommentType::SingleLine(_c) => "$",
            CommentType::Block(c) => c.suffix.as_str(),
        }
    }
}

impl From<SingleLineComment> for CommentType {
    fn from(comment: SingleLineComment) -> (c: CommentType) {
        CommentType::SingleLine(comment)
    }
}

impl vstd::std_specs::convert::FromSpecImpl<SingleLineComment> for CommentType {
    open spec fn obeys_from_spec() -> bool {
        true
    }

    open spec fn from_spec(comment: SingleLineComment) -> CommentType {
        CommentType::SingleLine(comment)
    }
}

impl From<BlockComment> for CommentType {
    fn from(comment: BlockComment) -> (c: CommentType) {
        CommentType::Block(comment)
    }
}

impl vstd::std_specs::convert::FromSpecImpl<BlockComment> for CommentType {
    open spec fn obeys_from_spec() -> bool {
        true
    }

    open spec fn from_spec(comment: BlockComment) -> CommentType {
        CommentType::Block(comment)
    }
}

impl Clone for CommentType {
    fn clone(&self) -> (c: Self)
        ensures
            c == *self,
    {
        match self {
            CommentType::SingleLine(s) => CommentType::SingleLine(s.clone()),
            CommentType::Block(b) => CommentType::Block(b.clone()),
        }
    }
}

/// The kinds of a sequence of comment types.
pub open spec fn kinds(types: Seq<CommentType>) -> Seq<CommentKind> {
    types.map_values(|c: CommentType| c@)
}

/// The comment types of one kind of file, in the order they were added.
#[derive(Debug)]
pub struct CommentTypes {
    comment_types: Vec<CommentType>,
}

impl View for CommentTypes {
    type V = Seq<CommentKind>;

    closed spec fn view(&self) -> Seq<CommentKind> {
        kinds(self.comment_types@)
    }
}

impl CommentTypes {
    /// An empty collection.
    pub fn new() -> (types: CommentTypes)
        ensures
            types@ == Seq::<CommentKind>::empty(),
    {
        let types = CommentTypes { comment_types: Vec::new() };
        assert(types@ =~= Seq::<CommentKind>::empty());
        types
    }

    /// The collection made of the given comment types, in their order.
    pub fn from_vec(comment_types: Vec<CommentType>) -> (types: CommentTypes)
        ensures
            types@ == kinds(comment_types@),
    {
        CommentTypes { comment_types }
    }

    /// Adds a single-line comment type with the given prefix. For Rust one
    /// might write `CommentTypes::new().add_single("//")`.
    pub fn add_single(self, prefix: &str) -> (types: CommentTypes)
        ensures
            types@ == self@.push(CommentKind::single(prefix@)),
    {
        let mut types = self;
        types.comment_types.push(CommentType::new_single(prefix));
        assert(types@ =~= self@.push(CommentKind::single(prefix@)));
        types
    }

    /// Adds a block comment type with the given tokens. For Rust one might
    /// write `CommentTypes::new().add_block("/*", "*/")`.
    pub fn add_block(self, prefix: &str, suffix: &str) -> (types: CommentTypes)
        ensures
            types@ == self@.push(CommentKind::block(prefix@, suffix@)),
    {
        let mut types = self;
        types.comment_types.push(CommentType::new_block(prefix, suffix));
        assert(types@ =~= self@.push(CommentKind::block(prefix@, suffix@)));
        types
    }

    /// The comment types as a slice, in insertion order.
    pub fn as_slice(&self) -> (types: &[CommentType])
        ensures
            kinds(types@) == self@,
    {
        self.comment_types.as_slice()
    }

    /// An iterator over the comment types, in insertion order.
    pub fn iter(&self) -> (it: core::slice::Iter<'_, CommentType>)
        ensures
            kinds(vstd::std_specs::slice::into_iter_elts(it)) == self@,
    {
        let it = self.comment_types.as_slice().iter();
        it
    }
}

impl Default for CommentTypes {
    fn default() -> (types: CommentTypes)
        ensures
            types@ == Seq::<CommentKind>::empty(),
    {
        CommentTypes::new()
    }
}

impl Clone for CommentTypes {
    fn clone(&self) -> (types: Self)
        ensures
            types@ == self@,
    {
        let types = CommentTypes { comment_types: self.comment_types.clone() };
        assert(types.comment_types@ =~= self.comment_types@);
        types
    }
}

} // verus!
