//! `TodoR`: finds the annotations of the files it is shown, keeps them file by
//! file, and takes them out again.
//!
//! A `TodoR` reads no file and writes none. It is handed the content of a
//! file, as bytes, together with the path and the extension, and where it
//! removes an annotation it hands back the bytes that the file is to hold.
use vstd::prelude::*;
use vstd::string::StringSliceAdditionalSpecFns;
use regex::Regex;
use crate::builder::{lemma_builtin_is_buildable, BuilderView, TodoRBuilder};
use crate::comments::CommentKind;
use crate::configs::FragmentView;
use crate::display::{TodoRStyles, TodoRStylesView};
use crate::engine::{error_message, error_text};
use crate::errors::{ErrorView, TodoRError};
use crate::maps::{CommentRegexMultiMap, MultiMapView};
use crate::parser::{
    is_filtered_scan,
    parse_content,
    parse_content_with_filter,
    parser_regexs,
    scan,
};
use crate::remover::{
    found_on_line,
    first_at_or_after,
    lines_positive_from,
    remove_todo_by_index,
    remove_todo_by_line,
    removed_at,
    without_line,
};
use crate::text::{str_eq, views};
use crate::todo::{todo_views, PathedTodo, Todo, TodoFile, TodoFileView, TodoView};

verus! {

/// What a `TodoR` stands for: its configuration, which never changes, and the
/// files it has scanned.
pub struct TodoRView {
    /// The tags to look for, in upper case.
    pub tags: Seq<Seq<char>>,
    /// The paths to pass over.
    pub ignore: Seq<Seq<char>>,
    /// The styles for printing.
    pub styles: TodoRStylesView,
    /// The slot of comment types of each known extension.
    pub slots: Map<Seq<char>, usize>,
    /// The comment kinds of each slot. Slot 0 answers for unknown extensions.
    pub types: Seq<Seq<CommentKind>>,
    /// The files that were scanned, in the order they were scanned.
    pub files: Seq<TodoFileView>,
}

impl TodoRView {
    /// The slot that answers for `ext`: its own, or slot 0.
    pub open spec fn slot_of(self, ext: Seq<char>) -> int {
        if self.slots.contains_key(ext) {
            self.slots[ext] as int
        } else {
            0
        }
    }

    /// The comment kinds that files with the extension `ext` are read with.
    pub open spec fn comment_kinds(self, ext: Seq<char>) -> Seq<CommentKind> {
        self.types[self.slot_of(ext)]
    }

    /// The outcome of building the expressions for the extension `ext`.
    pub open spec fn regexs_for(self, ext: Seq<char>) -> Result<Seq<Regex>, regex::Error> {
        parser_regexs(self.comment_kinds(ext), self.tags)
    }

    /// The same, with one more file at the end of the list.
    pub open spec fn with_file(self, file: TodoFileView) -> TodoRView {
        TodoRView { files: self.files.push(file), ..self }
    }

    /// The index of the first file with the path `filepath`, or the number of
    /// files if there is none.
    pub open spec fn file_index(self, filepath: Seq<char>) -> int {
        first_with_path(self.files, filepath) as int
    }

    /// Whether a file with the path `filepath` was scanned.
    pub open spec fn tracks(self, filepath: Seq<char>) -> bool {
        self.file_index(filepath) < self.files.len()
    }

    /// The annotations of the first file with the path `filepath`.
    pub open spec fn todos_of(self, filepath: Seq<char>) -> Seq<TodoView> {
        self.files[self.file_index(filepath)].todos
    }

    /// The same, with `todos` as the annotations of the first file with the
    /// path `filepath`.
    pub open spec fn with_todos_of(self, filepath: Seq<char>, todos: Seq<TodoView>) -> TodoRView {
        TodoRView {
            files: self.files.update(
                self.file_index(filepath),
                TodoFileView { filepath: filepath, todos: todos },
            ),
            ..self
        }
    }
}

/// What `first_with_path` finds: no file before it has the path, and the one
/// at it, if any, has it.
pub proof fn lemma_first_with_path(files: Seq<TodoFileView>, filepath: Seq<char>)
    ensures
        0 <= first_with_path(files, filepath) <= files.len(),
        forall|j: int|
            0 <= j < first_with_path(files, filepath) ==> (#[trigger] files[j]).filepath != filepath,
        first_with_path(files, filepath) < files.len() ==> files[first_with_path(
            files,
            filepath,
        ) as int].filepath == filepath,
    decreases files.len(),
{
    if files.len() == 0 || files[0].filepath == filepath {
    } else {
        let rest = files.skip(1);
        lemma_first_with_path(rest, filepath);
        assert forall|j: int| 0 <= j < first_with_path(files, filepath) implies (#[trigger] files[j]).filepath
            != filepath by {
            if j > 0 {
                assert(rest[j - 1] == files[j]);
            }
        }
        let i = first_with_path(rest, filepath) as int;
        if i < rest.len() {
            assert(rest[i] == files[i + 1]);
        }
    }
}

/// The first index whose file has the path is the one that `first_with_path`
/// finds.
pub proof fn lemma_first_with_path_is(files: Seq<TodoFileView>, filepath: Seq<char>, i: int)
    requires
        0 <= i <= files.len(),
        forall|j: int| 0 <= j < i ==> (#[trigger] files[j]).filepath != filepath,
        i < files.len() ==> files[i].filepath == filepath,
    ensures
        first_with_path(files, filepath) == i,
{
    lemma_first_with_path(files, filepath);
    let f = first_with_path(files, filepath) as int;
    if f < i {
        assert(files[f].filepath != filepath);
    } else if i < f {
        assert(files[i].filepath == filepath);
    }
}

/// The index of the first file with the path `filepath`, or the number of
/// files if there is none.
pub open spec fn first_with_path(files: Seq<TodoFileView>, filepath: Seq<char>) -> nat
    decreases files.len(),
{
    if files.len() == 0 || files[0].filepath == filepath {
        0
    } else {
        1 + first_with_path(files.skip(1), filepath)
    }
}

/// How many annotations the files hold together.
pub open spec fn total_todos(files: Seq<TodoFileView>) -> nat
    decreases files.len(),
{
    if files.len() == 0 {
        0
    } else {
        total_todos(files.drop_last()) + files.last().todos.len()
    }
}

/// The paths of the files that hold at least one annotation, in order.
pub open spec fn paths_with_todos(files: Seq<TodoFileView>) -> Seq<Seq<char>>
    decreases files.len(),
{
    if files.len() == 0 {
        Seq::empty()
    } else if files.last().todos.len() == 0 {
        paths_with_todos(files.drop_last())
    } else {
        paths_with_todos(files.drop_last()).push(files.last().filepath)
    }
}

/// The annotations of one file, each with the file's path.
pub open spec fn pathed_file(filepath: Seq<char>, todos: Seq<TodoView>) -> Seq<(Seq<char>, TodoView)> {
    todos.map_values(|t: TodoView| (filepath, t))
}

/// The annotations of all files, each with the path of its file.
pub open spec fn all_pathed(files: Seq<TodoFileView>) -> Seq<(Seq<char>, TodoView)>
    decreases files.len(),
{
    if files.len() == 0 {
        Seq::empty()
    } else {
        all_pathed(files.drop_last()) + pathed_file(files.last().filepath, files.last().todos)
    }
}

/// What a list of annotations with their paths stands for.
pub open spec fn pathed_views(all: Seq<PathedTodo<'_>>) -> Seq<(Seq<char>, TodoView)> {
    all.map_values(|p: PathedTodo<'_>| (p.file@, p.todo@))
}

/// The views of a sequence of files.
pub open spec fn file_views(files: Seq<TodoFile>) -> Seq<TodoFileView> {
    files.map_values(|f: TodoFile| f@)
}

/// The extension that stands in where a path has none. Many shell scripts are
/// named without an extension.
pub open spec fn ext_or_default(ext: Option<&str>) -> Seq<char> {
    match ext {
        Some(ext) => ext@,
        None => "sh"@,
    }
}

/// The configuration of a `TodoR`.
#[derive(Debug, Clone)]
pub(crate) struct TodoRConfig {
    pub(crate) tags: Vec<String>,
    pub(crate) ignore: Vec<String>,
    pub(crate) styles: TodoRStyles,
    pub(crate) ext_to_regexs: CommentRegexMultiMap,
}

/// Finds annotations in comments and keeps them file by file.
#[derive(Debug, Clone)]
pub struct TodoR {
    config: TodoRConfig,
    todo_files: Vec<TodoFile>,
}

impl View for TodoR {
    type V = TodoRView;

    closed spec fn view(&self) -> TodoRView {
        TodoRView {
            tags: views(self.config.tags@),
            ignore: views(self.config.ignore@),
            styles: self.config.styles@,
            slots: self.config.ext_to_regexs@.slots,
            types: self.config.ext_to_regexs@.types,
            files: file_views(self.todo_files@),
        }
    }
}

impl Default for TodoR {
    fn default() -> (todor: TodoR)
        ensures
            todor.wf(),
            todor@ == (BuilderView {
                fragments: seq![FragmentView::builtin()],
                ..BuilderView::empty()
            }).built(),
    {
        TodoR::new()
    }
}

/// Whether every set of expressions that the map holds is the one that its
/// slot gives with the tags `tags`.
pub open spec fn built_with(map: MultiMapView, tags: Seq<Seq<char>>) -> bool {
    forall|i: int|
        0 <= i < map.cache.len() && (#[trigger] map.cache[i]) is Some ==> parser_regexs(
            map.types[i],
            tags,
        ) == Ok::<Seq<Regex>, regex::Error>(map.cache[i]->Some_0)
}

impl TodoR {
    /// What holds of every `TodoR`: the table of comment types is well
    /// formed, and the expressions it keeps were built with the tags of the
    /// configuration.
    pub closed spec fn wf(&self) -> bool {
        &&& self.config.ext_to_regexs.wf()
        &&& self.config.styles.wf()
        &&& built_with(self.config.ext_to_regexs@, views(self.config.tags@))
    }

    /// In a well-formed `TodoR` there is a fallback slot, and every known
    /// extension points to a slot other than that one.
    pub proof fn lemma_wf_slots(&self)
        requires
            self.wf(),
        ensures
            self@.types.len() >= 1,
            forall|ext: Seq<char>|
                #![trigger self@.slots.contains_key(ext)]
                self@.slots.contains_key(ext) ==> 1 <= self@.slots[ext] < self@.types.len(),
    {
        self.config.ext_to_regexs.lemma_wf_view();
    }

    /// A `TodoR` with the given configuration and no files.
    pub(crate) fn with_config(config: TodoRConfig) -> (todor: TodoR)
        requires
            config.ext_to_regexs.wf(),
            config.styles.wf(),
            built_with(config.ext_to_regexs@, views(config.tags@)),
        ensures
            todor.wf(),
            todor@.tags == views(config.tags@),
            todor@.ignore == views(config.ignore@),
            todor@.styles == config.styles@,
            todor@.slots == config.ext_to_regexs@.slots,
            todor@.types == config.ext_to_regexs@.types,
            todor@.files == Seq::<TodoFileView>::empty(),
    {
        let todor = TodoR { config, todo_files: Vec::new() };
        assert(todor@.files =~= Seq::<TodoFileView>::empty());
        todor
    }

    /// A `TodoR` with the built-in configuration.
    pub fn new() -> (todor: TodoR)
        ensures
            todor.wf(),
            todor@ == (BuilderView {
                fragments: seq![FragmentView::builtin()],
                ..BuilderView::empty()
            }).built(),
    {
        let builder = TodoRBuilder::new();
        proof {
            lemma_builtin_is_buildable(builder@);
        }
        builder.build().unwrap()
    }

    /// A `TodoR` with the built-in configuration, but for the tags: it looks
    /// for `tags` only.
    pub fn with_tags(tags: &[&str]) -> (todor: TodoR)
        ensures
            todor.wf(),
            todor@ == (BuilderView {
                fragments: seq![FragmentView::builtin()],
                override_tags: Some(tags@.map_values(|s: &str| s@)),
                ..BuilderView::empty()
            }).built(),
    {
        let mut builder = TodoRBuilder::new();
        builder.add_override_tags(tags);
        proof {
            assert(Seq::<Seq<char>>::empty() + tags@.map_values(|s: &str| s@)
                =~= tags@.map_values(|s: &str| s@));
            lemma_builtin_is_buildable(builder@);
        }
        builder.build().unwrap()
    }

    /// The tags that are looked for, in upper case.
    pub fn tags(&self) -> (tags: &[String])
        ensures
            views(tags@) == self@.tags,
    {
        self.config.tags.as_slice()
    }

    /// The paths to pass over.
    pub fn ignore_paths(&self) -> (paths: &[String])
        ensures
            views(paths@) == self@.ignore,
    {
        self.config.ignore.as_slice()
    }

    /// The styles for printing.
    pub fn styles(&self) -> (styles: &TodoRStyles)
        requires
            self.wf(),
        ensures
            styles.wf(),
            styles@ == self@.styles,
    {
        &self.config.styles
    }

    /// The files that were scanned, in the order they were scanned.
    pub fn todo_files(&self) -> (files: &[TodoFile])
        ensures
            file_views(files@) == self@.files,
    {
        self.todo_files.as_slice()
    }

    /// The number of files that were scanned.
    pub fn num_files(&self) -> (n: usize)
        ensures
            n == self@.files.len(),
    {
        self.todo_files.len()
    }

    /// The number of annotations that are kept, over all files. A number too
    /// large for `usize` is given as `usize::MAX`.
    pub fn num_todos(&self) -> (n: usize)
        ensures
            n == if total_todos(self@.files) <= usize::MAX {
                total_todos(self@.files)
            } else {
                usize::MAX as nat
            },
    {
        let mut n: usize = 0;
        let mut i: usize = 0;
        let ghost files = file_views(self.todo_files@);
        assert(files.take(0) =~= Seq::<TodoFileView>::empty());
        while i < self.todo_files.len()
            invariant
                i <= self.todo_files.len(),
                files == file_views(self.todo_files@),
                n == if total_todos(files.take(i as int)) <= usize::MAX {
                    total_todos(files.take(i as int))
                } else {
                    usize::MAX as nat
                },
            decreases self.todo_files.len() - i,
        {
            proof {
                assert(files.take(i as int + 1).drop_last() =~= files.take(i as int));
                assert(files.take(i as int + 1).last().todos.len() == self.todo_files@[i as int].todos@.len());
            }
            n = n.saturating_add(self.todo_files[i].todos.len());
            i += 1;
        }
        assert(files.take(self.todo_files.len() as int) =~= files);
        n
    }

    /// The paths of the files that hold annotations, in the order the files
    /// were scanned.
    pub fn get_tracked_files(&self) -> (paths: Vec<&str>)
        ensures
            paths.deep_view() == paths_with_todos(self@.files),
    {
        let mut paths: Vec<&str> = Vec::new();
        let mut i: usize = 0;
        let ghost files = file_views(self.todo_files@);
        assert(files.take(0) =~= Seq::<TodoFileView>::empty());
        assert(paths.deep_view() =~= Seq::<Seq<char>>::empty());
        while i < self.todo_files.len()
            invariant
                i <= self.todo_files.len(),
                files == file_views(self.todo_files@),
                paths.deep_view() == paths_with_todos(files.take(i as int)),
            decreases self.todo_files.len() - i,
        {
            let ghost before = paths.deep_view();
            proof {
                assert(files.take(i as int + 1).drop_last() =~= files.take(i as int));
                assert(files.take(i as int + 1).last() == self.todo_files@[i as int]@);
            }
            if !self.todo_files[i].is_empty() {
                paths.push(self.todo_files[i].filepath.as_str());
                assert(paths.deep_view() =~= before.push(self.todo_files@[i as int].filepath@));
            }
            i += 1;
        }
        assert(files.take(self.todo_files.len() as int) =~= files);
        paths
    }

    /// The paths of all files that were scanned, in order, with or without
    /// annotations.
    pub fn get_all_tracked_files(&self) -> (paths: Vec<&str>)
        ensures
            paths.deep_view() == self@.files.map_values(|f: TodoFileView| f.filepath),
    {
        let mut paths: Vec<&str> = Vec::new();
        let mut i: usize = 0;
        while i < self.todo_files.len()
            invariant
                i <= self.todo_files.len(),
                paths.len() == i,
                forall|j: int| 0 <= j < i ==> (#[trigger] paths@[j])@ == self.todo_files@[j].filepath@,
            decreases self.todo_files.len() - i,
        {
            paths.push(self.todo_files[i].filepath.as_str());
            i += 1;
        }
        assert(paths.deep_view() =~= self@.files.map_values(|f: TodoFileView| f.filepath));
        paths
    }

    /// All annotations that are kept, each with the path of its file: file by
    /// file in the order the files were scanned, and within a file in the
    /// order of its list.
    pub fn iter(&self) -> (all: Vec<PathedTodo<'_>>)
        ensures
            pathed_views(all@) == all_pathed(self@.files),
    {
        let mut all: Vec<PathedTodo<'_>> = Vec::new();
        let mut i: usize = 0;
        let ghost files = file_views(self.todo_files@);
        assert(files.take(0) =~= Seq::<TodoFileView>::empty());
        assert(pathed_views(all@) =~= Seq::<(Seq<char>, TodoView)>::empty());
        while i < self.todo_files.len()
            invariant
                i <= self.todo_files.len(),
                files == file_views(self.todo_files@),
                pathed_views(all@) == all_pathed(files.take(i as int)),
            decreases self.todo_files.len() - i,
        {
            let file = &self.todo_files[i];
            let ghost before = pathed_views(all@);
            let ghost path = file.filepath@;
            let mut j: usize = 0;
            proof {
                assert(files.take(i as int + 1).drop_last() =~= files.take(i as int));
                assert(files.take(i as int + 1).last() == file@);
                assert(before + pathed_file(path, file@.todos.take(0)) =~= before);
            }
            while j < file.todos.len()
                invariant
                    j <= file.todos.len(),
                    path == file.filepath@,
                    pathed_views(all@) == before + pathed_file(path, file@.todos.take(j as int)),
                decreases file.todos.len() - j,
            {
                let ghost views_before = pathed_views(all@);
                let item = PathedTodo::new(&file.todos[j], file.filepath.as_str());
                all.push(item);
                proof {
                    assert(pathed_views(all@) =~= views_before.push((path, file.todos@[j as int]@)));
                    assert(pathed_file(path, file@.todos.take(j as int + 1)) =~= pathed_file(
                        path,
                        file@.todos.take(j as int),
                    ).push((path, file.todos@[j as int]@)));
                }
                j += 1;
            }
            assert(file@.todos.take(file.todos.len() as int) =~= file@.todos);
            i += 1;
        }
        assert(files.take(self.todo_files.len() as int) =~= files);
        all
    }

    /// Finds the annotations in `content`, read as a file with the extension
    /// `ext`, and keeps them as those of a file with an empty path.
    ///
    /// Fails with `InvalidConfigFile`, and keeps nothing, if a pattern for
    /// the extension does not compile; the message is the engine's.
    pub fn find_todos(&mut self, content: &str, ext: &str) -> (r: Result<(), TodoRError>)
        requires
            old(self).wf(),
        ensures
            final(self).wf(),
            scanned(old(self)@, final(self)@, r, Seq::empty(), ext@, content.spec_bytes()),
    {
        proof {
            reveal_strlit("");
            assert(""@ =~= Seq::<char>::empty());
        }
        self.scan_file("", ext, content.as_bytes())
    }

    /// Says whether a path can be taken in, by what the file system says of
    /// it: a regular file can; a directory gives `InputIsDir`, and anything
    /// else `CannotAccessFile`.
    pub fn check_input(filepath: &str, is_file: bool, is_dir: bool) -> (r: Result<(), TodoRError>)
        ensures
            is_file ==> r is Ok,
            !is_file && is_dir ==> r is Err && r->Err_0@ == (ErrorView::InputIsDir {
                filepath: filepath@,
            }),
            !is_file && !is_dir ==> r is Err && r->Err_0@ == (ErrorView::CannotAccessFile {
                filepath: filepath@,
            }),
    {
        if !is_file {
            if is_dir {
                return Err(TodoRError::InputIsDir { filepath: String::from_str(filepath) });
            } else {
                return Err(TodoRError::CannotAccessFile { filepath: String::from_str(filepath) });
            }
        }
        Ok(())
    }

    /// Takes in the file `filepath` with the content `content`: finds its
    /// annotations and keeps them. `ext` is the extension of the path, if it
    /// has one; a path without one is read as a shell script.
    ///
    /// Fails with `InvalidConfigFile`, and keeps nothing, if a pattern for
    /// the extension does not compile.
    pub fn open_todos(&mut self, filepath: &str, ext: Option<&str>, content: &[u8]) -> (r: Result<
        (),
        TodoRError,
    >)
        requires
            old(self).wf(),
        ensures
            final(self).wf(),
            scanned(old(self)@, final(self)@, r, filepath@, ext_or_default(ext), content@),
    {
        let file_ext = match ext {
            Some(ext) => ext,
            None => "sh",
        };
        self.scan_file(filepath, file_ext, content)
    }

    /// Takes in the file `filepath` as `open_todos` does, but keeps only the
    /// annotations that satisfy `pred`.
    pub fn open_filtered_todos<P: Fn(&Todo) -> bool>(
        &mut self,
        filepath: &str,
        ext: Option<&str>,
        content: &[u8],
        pred: &P,
    ) -> (r: Result<(), TodoRError>)
        requires
            old(self).wf(),
            forall|t: &Todo| call_requires(pred, (t,)),
        ensures
            final(self).wf(),
            scanned_with(
                old(self)@,
                final(self)@,
                r,
                filepath@,
                ext_or_default(ext),
                content@,
                pred,
            ),
    {
        let file_ext = match ext {
            Some(ext) => ext,
            None => "sh",
        };
        let mut todo_file = TodoFile::new(filepath);
        proof {
            self.config.ext_to_regexs.lemma_wf_view();
            assert(old(self)@.slot_of(file_ext@) == old(self).config.ext_to_regexs@.slot_of(
                file_ext@,
            ));
        }
        let todos = match self.config.ext_to_regexs.get(file_ext, self.config.tags.as_slice()) {
            Ok(regexs) => parse_content_with_filter(content, regexs.as_slice(), pred),
            Err(e) => {
                return Err(TodoRError::InvalidConfigFile { message: error_message(&e) });
            },
        };
        todo_file.set_todos(todos);
        self.todo_files.push(todo_file);
        proof {
            assert(self@.files =~= old(self)@.files.push(todo_file@));
        }
        Ok(())
    }

    /// Takes in the file `filepath`, keeping only the annotations that
    /// satisfy `pred` if there is one, and all of them if there is none. This
    /// is for callers that learn only at run time whether to filter.
    pub fn open_option_filtered_todos<P: Fn(&Todo) -> bool>(
        &mut self,
        filepath: &str,
        ext: Option<&str>,
        content: &[u8],
        pred: &Option<P>,
    ) -> (r: Result<(), TodoRError>)
        requires
            old(self).wf(),
            pred matches Some(p) ==> forall|t: &Todo| call_requires(p, (t,)),
        ensures
            final(self).wf(),
            match pred {
                Some(p) => scanned_with(
                    old(self)@,
                    final(self)@,
                    r,
                    filepath@,
                    ext_or_default(ext),
                    content@,
                    p,
                ),
                None => scanned(
                    old(self)@,
                    final(self)@,
                    r,
                    filepath@,
                    ext_or_default(ext),
                    content@,
                ),
            },
    {
        match pred {
            Some(p) => self.open_filtered_todos(filepath, ext, content, p),
            None => self.open_todos(filepath, ext, content),
        }
    }

    /// Removes the annotation at index `todo_index` from the first file with
    /// the path `filepath`, whose content on disk is `content`.
    ///
    /// The annotation leaves the list of the file, the annotations after it
    /// move up by one line, and the bytes returned are what the file is to
    /// hold from now on: `content` without the line of the annotation. Fails
    /// with `FileNotTracked`, and changes nothing, if no file with that path
    /// was scanned.
    pub fn remove_todo(&mut self, filepath: &str, todo_index: usize, content: &[u8]) -> (r: Result<
        Vec<u8>,
        TodoRError,
    >)
        requires
            old(self).wf(),
            old(self)@.tracks(filepath@) ==> todo_index < old(self)@.todos_of(filepath@).len()
                && lines_positive_from(old(self)@.todos_of(filepath@), todo_index as int),
        ensures
            final(self).wf(),
            old(self)@.tracks(filepath@) ==> {
                &&& r is Ok
                &&& r->Ok_0@ == without_line(
                    content@,
                    old(self)@.todos_of(filepath@)[todo_index as int].line,
                )
                &&& final(self)@ == old(self)@.with_todos_of(
                    filepath@,
                    removed_at(old(self)@.todos_of(filepath@), todo_index as int),
                )
            },
            !old(self)@.tracks(filepath@) ==> {
                &&& r is Err
                &&& r->Err_0@ == (ErrorView::FileNotTracked { filepath: filepath@ })
                &&& final(self)@ == old(self)@
            },
    {
        let ghost files = self@.files;
        let mut i: usize = 0;
        while i < self.todo_files.len()
            invariant
                i <= self.todo_files.len(),
                *self == *old(self),
                old(self).wf(),
                files == self@.files,
                forall|j: int| 0 <= j < i ==> (#[trigger] files[j]).filepath != filepath@,
                old(self)@.tracks(filepath@) ==> todo_index < old(self)@.todos_of(filepath@).len()
                    && lines_positive_from(old(self)@.todos_of(filepath@), todo_index as int),
            decreases self.todo_files.len() - i,
        {
            if str_eq(filepath, self.todo_files[i].filepath.as_str()) {
                proof {
                    assert(files[i as int] == self.todo_files@[i as int]@);
                    lemma_first_with_path_is(files, filepath@, i as int);
                }
                let copy = remove_todo_by_index(&mut self.todo_files[i], todo_index, content);
                proof {
                    assert(self@.files =~= files.update(i as int, self.todo_files@[i as int]@));
                }
                return Ok(copy);
            }
            proof {
                assert(files[i as int] == self.todo_files@[i as int]@);
            }
            i += 1;
        }
        proof {
            lemma_first_with_path_is(files, filepath@, files.len() as int);
        }
        Err(TodoRError::FileNotTracked { filepath: String::from_str(filepath) })
    }

    /// Removes the annotation on line `line` from the first file with the
    /// path `filepath`, whose content on disk is `content`.
    ///
    /// The list of the file is searched as by `remove_todo_by_line`. Fails
    /// with `FileNotTracked` if no file with that path was scanned, and with
    /// `TodoNotFound` if the file has no annotation on that line; either way
    /// nothing changes.
    pub fn remove_todo_line(&mut self, filepath: &str, line: usize, content: &[u8]) -> (r: Result<
        Vec<u8>,
        TodoRError,
    >)
        requires
            old(self).wf(),
            old(self)@.tracks(filepath@) ==> lines_positive_from(
                old(self)@.todos_of(filepath@),
                first_at_or_after(old(self)@.todos_of(filepath@), line as nat) as int,
            ),
        ensures
            final(self).wf(),
            old(self)@.tracks(filepath@) && found_on_line(
                old(self)@.todos_of(filepath@),
                line as nat,
            ) ==> {
                &&& r is Ok
                &&& r->Ok_0@ == without_line(content@, line as nat)
                &&& final(self)@ == old(self)@.with_todos_of(
                    filepath@,
                    removed_at(
                        old(self)@.todos_of(filepath@),
                        first_at_or_after(old(self)@.todos_of(filepath@), line as nat) as int,
                    ),
                )
            },
            old(self)@.tracks(filepath@) && !found_on_line(
                old(self)@.todos_of(filepath@),
                line as nat,
            ) ==> {
                &&& r is Err
                &&& r->Err_0@ == (ErrorView::TodoNotFound { line: line as nat })
                &&& final(self)@ == old(self)@
            },
            !old(self)@.tracks(filepath@) ==> {
                &&& r is Err
                &&& r->Err_0@ == (ErrorView::FileNotTracked { filepath: filepath@ })
                &&& final(self)@ == old(self)@
            },
    {
        let ghost files = self@.files;
        let mut i: usize = 0;
        while i < self.todo_files.len()
            invariant
                i <= self.todo_files.len(),
                *self == *old(self),
                old(self).wf(),
                files == self@.files,
                forall|j: int| 0 <= j < i ==> (#[trigger] files[j]).filepath != filepath@,
                old(self)@.tracks(filepath@) ==> lines_positive_from(
                    old(self)@.todos_of(filepath@),
                    first_at_or_after(old(self)@.todos_of(filepath@), line as nat) as int,
                ),
            decreases self.todo_files.len() - i,
        {
            if str_eq(filepath, self.todo_files[i].filepath.as_str()) {
                proof {
                    assert(files[i as int] == self.todo_files@[i as int]@);
                    lemma_first_with_path_is(files, filepath@, i as int);
                }
                let r = remove_todo_by_line(&mut self.todo_files[i], line, content);
                proof {
                    assert(self@.files =~= files.update(i as int, self.todo_files@[i as int]@));
                    if r is Err {
                        assert(self@.files =~= files);
                    }
                }
                return r;
            }
            proof {
                assert(files[i as int] == self.todo_files@[i as int]@);
            }
            i += 1;
        }
        proof {
            lemma_first_with_path_is(files, filepath@, files.len() as int);
        }
        Err(TodoRError::FileNotTracked { filepath: String::from_str(filepath) })
    }

    /// Finds the annotations in `content` with the expressions of `ext`, and
    /// keeps them as those of the file `filepath`.
    fn scan_file(&mut self, filepath: &str, ext: &str, content: &[u8]) -> (r: Result<
        (),
        TodoRError,
    >)
        requires
            old(self).wf(),
        ensures
            final(self).wf(),
            scanned(old(self)@, final(self)@, r, filepath@, ext@, content@),
    {
        let mut todo_file = TodoFile::new(filepath);
        proof {
            self.config.ext_to_regexs.lemma_wf_view();
            assert(old(self)@.slot_of(ext@) == old(self).config.ext_to_regexs@.slot_of(ext@));
        }
        let todos = match self.config.ext_to_regexs.get(ext, self.config.tags.as_slice()) {
            Ok(regexs) => parse_content(content, regexs.as_slice()),
            Err(e) => {
                return Err(TodoRError::InvalidConfigFile { message: error_message(&e) });
            },
        };
        todo_file.set_todos(todos);
        self.todo_files.push(todo_file);
        proof {
            assert(self@.files =~= old(self)@.files.push(todo_file@));
        }
        Ok(())
    }
}

/// What scanning a file does to a `TodoR`: the file joins the list with the
/// annotations that the expressions of its extension find in it. If these
/// expressions cannot be built, the error is `InvalidConfigFile` with the
/// engine's message, and nothing changes.
pub open spec fn scanned(
    before: TodoRView,
    after: TodoRView,
    r: Result<(), TodoRError>,
    filepath: Seq<char>,
    ext: Seq<char>,
    content: Seq<u8>,
) -> bool {
    match before.regexs_for(ext) {
        Ok(regexs) => {
            &&& r is Ok
            &&& after == before.with_file(
                TodoFileView { filepath: filepath, todos: scan(content, regexs) },
            )
        },
        Err(e) => {
            &&& r is Err
            &&& r->Err_0@ == (ErrorView::InvalidConfigFile { message: error_text(e) })
            &&& after == before
        },
    }
}

/// What scanning a file with a filter does to a `TodoR`: as `scanned`, but
/// the file joins the list with only those of its annotations that `pred`
/// lets through.
pub open spec fn scanned_with<P: Fn(&Todo) -> bool>(
    before: TodoRView,
    after: TodoRView,
    r: Result<(), TodoRError>,
    filepath: Seq<char>,
    ext: Seq<char>,
    content: Seq<u8>,
    pred: &P,
) -> bool {
    match before.regexs_for(ext) {
        Ok(regexs) => {
            &&& r is Ok
            &&& exists|todos: Seq<Todo>|
                {
                    &&& #[trigger] is_filtered_scan(content, regexs, pred, todos)
                    &&& after == before.with_file(
                        TodoFileView { filepath: filepath, todos: todo_views(todos) },
                    )
                }
        },
        Err(e) => {
            &&& r is Err
            &&& r->Err_0@ == (ErrorView::InvalidConfigFile { message: error_text(e) })
            &&& after == before
        },
    }
}

} // verus!
