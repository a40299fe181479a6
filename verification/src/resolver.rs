//! The resolution of imports: which files have been parsed, which are
//! needed next, and what a file depends on.
//!
//! Nothing here reads a file. The caller locates and parses the files that
//! [`Run`] asks for, and hands them in.

use vstd::prelude::*;
use crate::descriptor::{FileDescriptor, FileDescriptorView};
use crate::text::str_eq;

verus! {

/// Parsed files by their paths, in the order in which they were added.
pub type Files = Seq<(Seq<char>, FileDescriptorView)>;

/// Whether `files` holds a file under the path `key`.
pub open spec fn has_key(files: Files, key: Seq<char>) -> bool {
    exists|i: int| 0 <= i < files.len() && (#[trigger] files[i]).0 == key
}

/// Whether no two files of `files` have the same path.
pub open spec fn unique_keys(files: Files) -> bool {
    forall|i: int, j: int|
        0 <= i < j < files.len() ==> (#[trigger] files[i]).0 != (#[trigger] files[j]).0
}

/// Whether the file at index `i` of `files` is the one under the path `key`.
pub open spec fn is_at(files: Files, key: Seq<char>, i: int) -> bool {
    0 <= i < files.len() && files[i].0 == key
}

/// Files by their paths, in the order in which they were added. No two
/// files have the same path.
pub struct ParsedFiles {
    entries: Vec<(String, FileDescriptor)>,
}

impl View for ParsedFiles {
    type V = Files;

    closed spec fn view(&self) -> Files {
        Seq::new(self.entries@.len(), |i: int| (self.entries@[i].0@, self.entries@[i].1@))
    }
}

impl ParsedFiles {
    #[verifier::type_invariant]
    spec fn inv(self) -> bool {
        forall|i: int, j: int|
            0 <= i < j < self.entries@.len() ==> (#[trigger] self.entries@[i]).0@ != (
            #[trigger] self.entries@[j]).0@
    }

    /// No files.
    pub fn new() -> (r: ParsedFiles)
        ensures
            r@ == Seq::<(Seq<char>, FileDescriptorView)>::empty(),
    {
        let r = ParsedFiles { entries: Vec::new() };
        assert(r@ =~= Seq::<(Seq<char>, FileDescriptorView)>::empty());
        r
    }

    /// Does nothing; tells the caller that no two files have the same path.
    pub fn well_formed(&self)
        ensures
            unique_keys(self@),
    {
        proof {
            use_type_invariant(self);
        }
    }

    /// The number of files.
    pub fn len(&self) -> (r: usize)
        ensures
            r == self@.len(),
    {
        self.entries.len()
    }

    /// The index of the file under the path `key`, if there is one.
    fn position(&self, key: &str) -> (r: Option<usize>)
        ensures
            match r {
                Some(i) => is_at(self@, key@, i as int),
                None => !has_key(self@, key@),
            },
    {
        let mut i: usize = 0;
        while i < self.entries.len()
            invariant
                0 <= i <= self.entries@.len(),
                forall|k: int| 0 <= k < i ==> (#[trigger] self@[k]).0 != key@,
            decreases self.entries@.len() - i,
        {
            if str_eq(self.entries[i].0.as_str(), key) {
                return Some(i);
            }
            i = i + 1;
        }
        None
    }

    /// Whether a file is held under the path `key`.
    pub fn contains_key(&self, key: &str) -> (r: bool)
        ensures
            r == has_key(self@, key@),
    {
        self.position(key).is_some()
    }

    /// The file under the path `key`, if there is one.
    pub fn get(&self, key: &str) -> (r: Option<&FileDescriptor>)
        ensures
            match r {
                Some(file) => exists|i: int| is_at(self@, key@, i) && file@ == self@[i].1,
                None => !has_key(self@, key@),
            },
    {
        proof {
            use_type_invariant(self);
        }
        match self.position(key) {
            Some(i) => {
                assert(is_at(self@, key@, i as int));
                Some(&self.entries[i].1)
            },
            None => None,
        }
    }

    /// The path of the file at index `i`.
    pub fn key_at(&self, i: usize) -> (r: &String)
        requires
            i < self@.len(),
        ensures
            r@ == self@[i as int].0,
    {
        &self.entries[i].0
    }

    /// The file at index `i`.
    pub fn file_at(&self, i: usize) -> (r: &FileDescriptor)
        requires
            i < self@.len(),
        ensures
            r@ == self@[i as int].1,
    {
        proof {
            use_type_invariant(self);
        }
        &self.entries[i].1
    }

    /// Puts `file` under the path `key`: behind all the files, where no file
    /// is held under that path yet; else in the place of the file that is.
    pub fn insert(&mut self, key: String, file: FileDescriptor)
        ensures
            !has_key(old(self)@, key@) ==> final(self)@ == old(self)@.push((key@, file@)),
            has_key(old(self)@, key@) ==> exists|i: int|
                is_at(old(self)@, key@, i) && final(self)@ == old(self)@.update(i, (key@, file@)),
    {
        proof {
            use_type_invariant(&*self);
        }
        match self.position(key.as_str()) {
            Some(i) => {
                let mut entries: Vec<(String, FileDescriptor)> = Vec::new();
                std::mem::swap(&mut entries, &mut self.entries);
                entries.set(i, (key, file));
                std::mem::swap(&mut entries, &mut self.entries);
                assert(self@ =~= old(self)@.update(i as int, (key@, file@)));
                assert(is_at(old(self)@, key@, i as int));
            },
            None => {
                proof {
                    assert forall|i: int| 0 <= i < self.entries@.len() implies (
                    #[trigger] self.entries@[i]).0@ != key@ by {
                        assert(self@[i].0 == self.entries@[i].0@);
                    }
                }
                let mut entries: Vec<(String, FileDescriptor)> = Vec::new();
                std::mem::swap(&mut entries, &mut self.entries);
                entries.push((key, file));
                std::mem::swap(&mut entries, &mut self.entries);
                assert(self@ =~= old(self)@.push((key@, file@)));
            },
        }
    }
}

/// The paths of `files`, in order.
pub open spec fn keys(files: Files) -> Seq<Seq<char>> {
    Seq::new(files.len(), |i: int| files[i].0)
}

/// Whether every file of `result`, under its path, is a file of `files`.
pub open spec fn within(result: Files, files: Files) -> bool {
    forall|i: int|
        0 <= i < result.len() ==> exists|j: int|
            0 <= j < files.len() && files[j] == #[trigger] result[i]
}

/// Whether every file that `file` imports is in `files`.
pub open spec fn imports_within(file: FileDescriptorView, files: Files) -> bool {
    forall|k: int| 0 <= k < file.imports.len() ==> has_key(files, (#[trigger] file.imports[k]).path)
}

/// Whether every file that a file of `files` from index `from` on imports is
/// itself in `files`.
pub open spec fn closed_from(files: Files, from: int) -> bool {
    forall|i: int, k: int|
        from <= i < files.len() && 0 <= i && 0 <= k < files[i].1.imports.len() ==> has_key(
            files,
            (#[trigger] files[i].1.imports[k]).path,
        )
}

/// Files that are among other files are not more than these.
pub proof fn lemma_within_is_not_more(result: Files, files: Files)
    requires
        unique_keys(result),
        within(result, files),
    ensures
        result.len() <= files.len(),
{
    let r = keys(result);
    let f = keys(files);
    assert(r.no_duplicates()) by {
        assert forall|i: int, j: int|
            0 <= i < r.len() && 0 <= j < r.len() && i != j implies r[i] != r[j] by {
            if i < j {
                assert(result[i].0 != result[j].0);
            } else {
                assert(result[j].0 != result[i].0);
            }
        }
    }
    r.unique_seq_to_set();
    f.lemma_cardinality_of_set();
    vstd::seq_lib::seq_to_set_is_finite(f);
    assert(r.to_set().subset_of(f.to_set())) by {
        assert forall|key: Seq<char>| r.to_set().contains(key) implies f.to_set().contains(
            key,
        ) by {
            let i = choose|i: int| 0 <= i < r.len() && r[i] == key;
            let j = choose|j: int| 0 <= j < files.len() && files[j] == #[trigger] result[i];
            assert(f[j] == key);
        }
    }
    vstd::set_lib::lemma_len_subset(r.to_set(), f.to_set());
}

/// Files that are among other files, and lack one of these, are fewer.
pub proof fn lemma_within_is_fewer(result: Files, files: Files, path: Seq<char>)
    requires
        unique_keys(result),
        within(result, files),
        !has_key(result, path),
        has_key(files, path),
    ensures
        result.len() < files.len(),
{
    let i = choose|i: int| 0 <= i < files.len() && (#[trigger] files[i]).0 == path;
    let more = result.push(files[i]);
    assert(unique_keys(more)) by {
        assert forall|a: int, b: int| 0 <= a < b < more.len() implies (#[trigger] more[a]).0 != (
        #[trigger] more[b]).0 by {
            if b == result.len() {
                assert(more[a] == result[a]);
            } else {
                assert(more[a] == result[a]);
                assert(more[b] == result[b]);
            }
        }
    }
    assert(within(more, files)) by {
        assert forall|a: int| 0 <= a < more.len() implies exists|j: int|
            0 <= j < files.len() && files[j] == #[trigger] more[a] by {
            if a < result.len() {
                assert(more[a] == result[a]);
            } else {
                assert(files[i] == more[a]);
            }
        }
    }
    lemma_within_is_not_more(more, files);
}

/// Whether every file that a file of `files` imports is itself in `files`.
pub open spec fn closed(files: Files) -> bool {
    forall|i: int, k: int|
        0 <= i < files.len() && 0 <= k < files[i].1.imports.len() ==> has_key(
            files,
            (#[trigger] files[i].1.imports[k]).path,
        )
}

/// What the caller of a [`Run`] is to do next.
#[derive(Debug, PartialEq, Eq)]
pub enum Action {
    /// Nothing: the file asked for and all that it imports are parsed
    Finished,
    /// Locate the file with this path under the include directories and parse
    /// it; then hand it in with [`Run::add_file_content`], or say that it
    /// is not there with [`Run::file_not_found`]
    Load(String),
}

/// What an [`Action`] is, over mathematical strings.
pub enum ActionView {
    Finished,
    Load(Seq<char>),
}

impl View for Action {
    type V = ActionView;

    open spec fn view(&self) -> ActionView {
        match self {
            Action::Finished => ActionView::Finished,
            Action::Load(p) => ActionView::Load(p@),
        }
    }
}

/// Why the imports of a file could not be resolved.
#[derive(Debug, PartialEq, Eq)]
pub enum ResolveError {
    /// A file was handed in, or reported missing, that was not asked for
    NothingRequested,
    /// The file with this path is under none of the include directories
    FileNotFound(String),
    /// The file with this path imports itself, directly or through the
    /// files that it imports
    CyclicImport(String),
}

/// What a [`ResolveError`] is, over mathematical strings.
pub enum ResolveErrorView {
    NothingRequested,
    FileNotFound(Seq<char>),
    CyclicImport(Seq<char>),
}

impl View for ResolveError {
    type V = ResolveErrorView;

    open spec fn view(&self) -> ResolveErrorView {
        match self {
            ResolveError::NothingRequested => ResolveErrorView::NothingRequested,
            ResolveError::FileNotFound(p) => ResolveErrorView::FileNotFound(p@),
            ResolveError::CyclicImport(p) => ResolveErrorView::CyclicImport(p@),
        }
    }
}

/// A file that waits for its imports.
pub struct Pending {
    path: String,
    file: FileDescriptor,
    next: usize,
}

/// A file that waits for its imports: its path, the file, and how many of
/// its imports are parsed already.
pub struct PendingView {
    pub path: Seq<char>,
    pub file: FileDescriptorView,
    pub next: int,
}

impl View for Pending {
    type V = PendingView;

    closed spec fn view(&self) -> PendingView {
        PendingView { path: self.path@, file: self.file@, next: self.next as int }
    }
}

/// The state of a resolution.
pub struct RunView {
    /// The files that are parsed, with all that they import
    pub parsed: Files,
    /// The files that wait for their imports, each imported by the one before
    pub pending: Seq<PendingView>,
    /// The path of the file that the caller was asked to load
    pub waiting: Option<Seq<char>>,
}

/// Whether a file with the path `path` waits for its imports.
pub open spec fn is_pending(pending: Seq<PendingView>, path: Seq<char>) -> bool {
    exists|i: int| 0 <= i < pending.len() && (#[trigger] pending[i]).path == path
}

/// Whether the files that wait are in order: none of them is parsed yet, no
/// two have the same path, and of each the imports before `next` are parsed.
pub open spec fn pending_ok(parsed: Files, pending: Seq<PendingView>) -> bool {
    &&& forall|i: int|
        0 <= i < pending.len() ==> !has_key(parsed, (#[trigger] pending[i]).path) && 0
            <= pending[i].next <= pending[i].file.imports.len()
    &&& forall|i: int, j: int|
        0 <= i < j < pending.len() ==> (#[trigger] pending[i]).path != (#[trigger] pending[j]).path
    &&& forall|i: int, k: int|
        0 <= i < pending.len() && 0 <= k < pending[i].next ==> has_key(
            parsed,
            (#[trigger] pending[i].file.imports[k]).path,
        )
}

/// Whether the state is one that a [`Run`] can be in.
pub open spec fn run_ok(v: RunView) -> bool {
    &&& unique_keys(v.parsed)
    &&& closed(v.parsed)
    &&& pending_ok(v.parsed, v.pending)
    &&& match v.waiting {
        Some(p) => !has_key(v.parsed, p) && !is_pending(v.pending, p),
        None => v.pending.len() == 0,
    }
}

/// The steps that are left at most before the caller is asked for a file.
pub open spec fn work(pending: Seq<PendingView>) -> int
    decreases pending.len(),
{
    if pending.len() == 0 {
        0
    } else {
        let top = pending.last();
        work(pending.drop_last()) + 1 + if top.next < top.file.imports.len() {
            top.file.imports.len() - top.next
        } else {
            0
        }
    }
}

/// The steps that are left are never fewer than none.
pub proof fn lemma_work_nonnegative(pending: Seq<PendingView>)
    ensures
        work(pending) >= 0,
    decreases pending.len(),
{
    if pending.len() > 0 {
        lemma_work_nonnegative(pending.drop_last());
    }
}

/// The state with nothing waiting.
pub open spec fn idle(parsed: Files) -> RunView {
    RunView { parsed, pending: seq![], waiting: None }
}

/// Goes on with the files that wait, until a file is needed or none waits.
///
/// The last of the files that wait is looked at. Where all its imports are
/// parsed, it joins the parsed files, behind them. Else its next import is
/// taken: where that is parsed already, the import after it is next; where
/// it is among the files that wait, the import is cyclic, which is an error;
/// else the caller is asked to load it.
pub open spec fn settle(parsed: Files, pending: Seq<PendingView>) -> (
    Result<ActionView, ResolveErrorView>,
    RunView,
)
    decreases work(pending),
{
    if pending.len() == 0 {
        (Ok(ActionView::Finished), idle(parsed))
    } else {
        let top = pending.last();
        proof {
            lemma_work_nonnegative(pending.drop_last());
        }
        if top.next < 0 || top.next >= top.file.imports.len() {
            settle(parsed.push((top.path, top.file)), pending.drop_last())
        } else {
            let import = top.file.imports[top.next].path;
            if has_key(parsed, import) {
                proof {
                    let stepped = pending.drop_last().push(
                        PendingView { next: top.next + 1, ..top },
                    );
                    assert(stepped.drop_last() =~= pending.drop_last());
                }
                settle(
                    parsed,
                    pending.drop_last().push(PendingView { next: top.next + 1, ..top }),
                )
            } else if is_pending(pending, import) {
                (Err(ResolveErrorView::CyclicImport(import)), idle(parsed))
            } else {
                (Ok(ActionView::Load(import)), RunView { parsed, pending, waiting: Some(import) })
            }
        }
    }
}

/// Asking for the file with the path `path`: nothing is to do where it is
/// parsed already; else it is to be loaded, and whatever waited is dropped.
pub open spec fn requested(v: RunView, path: Seq<char>) -> (ActionView, RunView) {
    if has_key(v.parsed, path) {
        (ActionView::Finished, idle(v.parsed))
    } else {
        (ActionView::Load(path), RunView { parsed: v.parsed, pending: seq![], waiting: Some(path) })
    }
}

/// Handing in the file that was asked for: it waits for its imports.
pub open spec fn supplied(v: RunView, file: FileDescriptorView) -> (
    Result<ActionView, ResolveErrorView>,
    RunView,
) {
    match v.waiting {
        None => (Err(ResolveErrorView::NothingRequested), v),
        Some(path) => settle(v.parsed, v.pending.push(PendingView { path, file, next: 0 })),
    }
}

/// Reporting that the file that was asked for is not there.
pub open spec fn missing(v: RunView) -> (ResolveErrorView, RunView) {
    match v.waiting {
        None => (ResolveErrorView::NothingRequested, v),
        Some(path) => (ResolveErrorView::FileNotFound(path), idle(v.parsed)),
    }
}

/// Whether the parsed files and the files that wait are in order.
pub open spec fn ready(parsed: Files, pending: Seq<PendingView>) -> bool {
    unique_keys(parsed) && closed(parsed) && pending_ok(parsed, pending)
}

/// Where all the imports of the last file that waits are parsed, the file
/// can join the parsed files.
pub proof fn lemma_join(parsed: Files, pending: Seq<PendingView>)
    requires
        ready(parsed, pending),
        pending.len() > 0,
        pending.last().next >= pending.last().file.imports.len(),
    ensures
        !has_key(parsed, pending.last().path),
        ready(parsed.push((pending.last().path, pending.last().file)), pending.drop_last()),
{
    let top = pending.last();
    let rest = pending.drop_last();
    let grown = parsed.push((top.path, top.file));
    assert(pending[pending.len() - 1] == top);
    assert(unique_keys(grown)) by {
        assert forall|i: int, j: int| 0 <= i < j < grown.len() implies (#[trigger] grown[i]).0 != (
        #[trigger] grown[j]).0 by {
            if j == parsed.len() {
                assert(grown[i] == parsed[i]);
                assert(!has_key(parsed, top.path));
            } else {
                assert(grown[i] == parsed[i]);
                assert(grown[j] == parsed[j]);
            }
        }
    }
    assert forall|key: Seq<char>| has_key(parsed, key) implies has_key(grown, key) by {
        let i = choose|i: int| 0 <= i < parsed.len() && (#[trigger] parsed[i]).0 == key;
        assert(grown[i] == parsed[i]);
    }
    assert(closed(grown)) by {
        assert forall|i: int, k: int|
            0 <= i < grown.len() && 0 <= k < grown[i].1.imports.len() implies has_key(
            grown,
            (#[trigger] grown[i].1.imports[k]).path,
        ) by {
            if i == parsed.len() {
                assert(has_key(parsed, pending[pending.len() - 1].file.imports[k].path));
            } else {
                assert(grown[i] == parsed[i]);
                assert(has_key(parsed, parsed[i].1.imports[k].path));
            }
        }
    }
    assert(pending_ok(grown, rest)) by {
        assert forall|i: int| 0 <= i < rest.len() implies !has_key(
            grown,
            (#[trigger] rest[i]).path,
        ) && 0 <= rest[i].next <= rest[i].file.imports.len() by {
            assert(rest[i] == pending[i]);
            if has_key(grown, rest[i].path) {
                let j = choose|j: int|
                    0 <= j < grown.len() && (#[trigger] grown[j]).0 == rest[i].path;
                if j < parsed.len() {
                    assert(grown[j] == parsed[j]);
                    assert(has_key(parsed, pending[i].path));
                } else {
                    assert(pending[i].path != pending[pending.len() - 1].path);
                }
            }
        }
        assert forall|i: int, j: int| 0 <= i < j < rest.len() implies (#[trigger] rest[i]).path
            != (#[trigger] rest[j]).path by {
            assert(rest[i] == pending[i]);
            assert(rest[j] == pending[j]);
        }
        assert forall|i: int, k: int|
            0 <= i < rest.len() && 0 <= k < rest[i].next implies has_key(
            grown,
            (#[trigger] rest[i].file.imports[k]).path,
        ) by {
            assert(rest[i] == pending[i]);
            assert(has_key(parsed, pending[i].file.imports[k].path));
        }
    }
}

/// Where the next import of the last file that waits is parsed, the import
/// after it is next.
pub proof fn lemma_next_import(parsed: Files, pending: Seq<PendingView>)
    requires
        ready(parsed, pending),
        pending.len() > 0,
        0 <= pending.last().next < pending.last().file.imports.len(),
        has_key(parsed, pending.last().file.imports[pending.last().next].path),
    ensures
        ready(
            parsed,
            pending.drop_last().push(
                PendingView { next: pending.last().next + 1, ..pending.last() },
            ),
        ),
{
    let top = pending.last();
    let rest = pending.drop_last();
    let stepped = rest.push(PendingView { next: top.next + 1, ..top });
    assert(pending[pending.len() - 1] == top);
    assert forall|i: int| 0 <= i < stepped.len() implies !has_key(
        parsed,
        (#[trigger] stepped[i]).path,
    ) && 0 <= stepped[i].next <= stepped[i].file.imports.len() by {
        if i < rest.len() {
            assert(stepped[i] == pending[i]);
        } else {
            assert(stepped[i].path == pending[i].path);
        }
    }
    assert forall|i: int, j: int| 0 <= i < j < stepped.len() implies (#[trigger] stepped[i]).path
        != (#[trigger] stepped[j]).path by {
        assert(stepped[i].path == pending[i].path);
        assert(stepped[j].path == pending[j].path);
    }
    assert forall|i: int, k: int|
        0 <= i < stepped.len() && 0 <= k < stepped[i].next implies has_key(
        parsed,
        (#[trigger] stepped[i].file.imports[k]).path,
    ) by {
        if i < rest.len() {
            assert(stepped[i] == pending[i]);
            assert(has_key(parsed, pending[i].file.imports[k].path));
        } else if k < top.next {
            assert(stepped[i].file == pending[i].file);
            assert(has_key(parsed, pending[i].file.imports[k].path));
        }
    }
}

/// Whatever files wait, going on with them leaves a state that a [`Run`] can
/// be in: no two parsed files have the same path, every file that a parsed
/// file imports is parsed, and the files that were parsed before are still
/// the first of the parsed files, in their order.
pub proof fn law_settle_keeps_order(parsed: Files, pending: Seq<PendingView>)
    requires
        ready(parsed, pending),
    ensures
        run_ok(settle(parsed, pending).1),
        settle(parsed, pending).1.parsed.len() >= parsed.len(),
        settle(parsed, pending).1.parsed.subrange(0, parsed.len() as int) == parsed,
    decreases work(pending),
{
    lemma_work_nonnegative(pending);
    if pending.len() == 0 {
        assert(parsed.subrange(0, parsed.len() as int) =~= parsed);
    } else {
        let top = pending.last();
        let rest = pending.drop_last();
        assert(pending[pending.len() - 1] == top);
        lemma_work_nonnegative(rest);
        if top.next < 0 || top.next >= top.file.imports.len() {
            let grown = parsed.push((top.path, top.file));
            lemma_join(parsed, pending);
            law_settle_keeps_order(grown, rest);
            assert(settle(grown, rest).1.parsed.subrange(0, parsed.len() as int) =~= parsed) by {
                let out = settle(grown, rest).1.parsed;
                assert(out.subrange(0, grown.len() as int) == grown);
                assert forall|i: int| 0 <= i < parsed.len() implies out[i] == parsed[i] by {
                    assert(out.subrange(0, grown.len() as int)[i] == out[i]);
                    assert(grown[i] == parsed[i]);
                }
            }
        } else {
            let import = top.file.imports[top.next].path;
            if has_key(parsed, import) {
                let stepped = rest.push(PendingView { next: top.next + 1, ..top });
                assert(stepped.drop_last() =~= rest);
                lemma_next_import(parsed, pending);
                law_settle_keeps_order(parsed, stepped);
            } else {
                assert(parsed.subrange(0, parsed.len() as int) =~= parsed);
            }
        }
    }
}

/// The files that wait, by their views.
pub open spec fn pending_views(pending: Seq<Pending>) -> Seq<PendingView> {
    Seq::new(pending.len(), |i: int| pending[i]@)
}

/// One resolution of imports: the files that are parsed, and what is still
/// to be loaded.
pub struct Run {
    parsed_files: ParsedFiles,
    pending: Vec<Pending>,
    waiting: Option<String>,
}

impl View for Run {
    type V = RunView;

    closed spec fn view(&self) -> RunView {
        RunView {
            parsed: self.parsed_files@,
            pending: pending_views(self.pending@),
            waiting: match self.waiting {
                Some(p) => Some(p@),
                None => None,
            },
        }
    }
}

impl Run {
    /// A resolution in which nothing is parsed yet.
    pub fn new() -> (r: Run)
        ensures
            r@ == idle(Seq::<(Seq<char>, FileDescriptorView)>::empty()),
            run_ok(r@),
    {
        let r = Run { parsed_files: ParsedFiles::new(), pending: Vec::new(), waiting: None };
        assert(r@.pending =~= seq![]);
        r
    }

    /// The files that are parsed.
    pub fn parsed_files(&self) -> (r: &ParsedFiles)
        ensures
            r@ == self@.parsed,
    {
        &self.parsed_files
    }

    /// The files that are parsed, which ends the resolution.
    pub fn into_parsed_files(self) -> (r: ParsedFiles)
        ensures
            r@ == self@.parsed,
    {
        self.parsed_files
    }

    /// Asks for the file with the path `protobuf_path`, which is relative to
    /// an include directory. Nothing is to do where it is parsed already.
    pub fn add_file(&mut self, protobuf_path: &str) -> (r: Action)
        requires
            run_ok(old(self)@),
        ensures
            r@ == requested(old(self)@, protobuf_path@).0,
            final(self)@ == requested(old(self)@, protobuf_path@).1,
            run_ok(final(self)@),
    {
        self.pending = Vec::new();
        assert(self@.pending =~= seq![]);
        if self.parsed_files.contains_key(protobuf_path) {
            self.waiting = None;
            Action::Finished
        } else {
            self.waiting = Some(protobuf_path.to_string());
            Action::Load(protobuf_path.to_string())
        }
    }

    /// Reports that the file that was asked for is under none of the include
    /// directories. Whatever waited is dropped.
    pub fn file_not_found(&mut self) -> (r: ResolveError)
        requires
            run_ok(old(self)@),
        ensures
            r@ == missing(old(self)@).0,
            final(self)@ == missing(old(self)@).1,
            run_ok(final(self)@),
    {
        let mut waiting: Option<String> = None;
        std::mem::swap(&mut waiting, &mut self.waiting);
        match waiting {
            None => ResolveError::NothingRequested,
            Some(path) => {
                self.pending = Vec::new();
                assert(self@.pending =~= seq![]);
                ResolveError::FileNotFound(path)
            },
        }
    }

    /// Hands in the file that was asked for, parsed. It waits until all that
    /// it imports is parsed; the caller is told which file to load next.
    pub fn add_file_content(&mut self, parsed: FileDescriptor) -> (r: Result<Action, ResolveError>)
        requires
            run_ok(old(self)@),
        ensures
            final(self)@ == supplied(old(self)@, parsed@).1,
            match supplied(old(self)@, parsed@).0 {
                Ok(a) => r matches Ok(x) && x@ == a,
                Err(e) => r matches Err(x) && x@ == e,
            },
            run_ok(final(self)@),
    {
        let mut waiting: Option<String> = None;
        std::mem::swap(&mut waiting, &mut self.waiting);
        match waiting {
            None => Err(ResolveError::NothingRequested),
            Some(path) => {
                let ghost before = self@.pending;
                let frame = Pending { path, file: parsed, next: 0 };
                self.pending.push(frame);
                proof {
                    let now = self@.pending;
                    assert(now =~= before.push(frame@));
                    assert(pending_ok(self@.parsed, now)) by {
                        assert forall|i: int| 0 <= i < now.len() implies !has_key(
                            self@.parsed,
                            (#[trigger] now[i]).path,
                        ) && 0 <= now[i].next <= now[i].file.imports.len() by {
                            if i < before.len() {
                                assert(now[i] == before[i]);
                            }
                        }
                        assert forall|i: int, j: int| 0 <= i < j < now.len() implies (
                        #[trigger] now[i]).path != (#[trigger] now[j]).path by {
                            assert(now[i] == before[i]);
                            if j < before.len() {
                                assert(now[j] == before[j]);
                            }
                        }
                        assert forall|i: int, k: int|
                            0 <= i < now.len() && 0 <= k < now[i].next implies has_key(
                            self@.parsed,
                            (#[trigger] now[i].file.imports[k]).path,
                        ) by {
                            if i < before.len() {
                                assert(now[i] == before[i]);
                                assert(has_key(self@.parsed, before[i].file.imports[k].path));
                            }
                        }
                    }
                }
                self.settle()
            },
        }
    }

    /// Whether a file with the path `path` waits for its imports.
    fn waits(&self, path: &str) -> (r: bool)
        ensures
            r == is_pending(self@.pending, path@),
    {
        let mut i: usize = 0;
        while i < self.pending.len()
            invariant
                0 <= i <= self.pending@.len(),
                forall|k: int| 0 <= k < i ==> (#[trigger] self@.pending[k]).path != path@,
            decreases self.pending@.len() - i,
        {
            if str_eq(self.pending[i].path.as_str(), path) {
                assert(self@.pending[i as int].path == path@);
                return true;
            }
            i = i + 1;
        }
        false
    }

    /// Goes on with the files that wait.
    fn settle(&mut self) -> (r: Result<Action, ResolveError>)
        requires
            old(self)@.waiting is None,
            ready(old(self)@.parsed, old(self)@.pending),
        ensures
            final(self)@ == settle(old(self)@.parsed, old(self)@.pending).1,
            match settle(old(self)@.parsed, old(self)@.pending).0 {
                Ok(a) => r matches Ok(x) && x@ == a,
                Err(e) => r matches Err(x) && x@ == e,
            },
            run_ok(final(self)@),
    {
        proof {
            law_settle_keeps_order(self@.parsed, self@.pending);
        }
        loop
            invariant
                self@.waiting is None,
                ready(self@.parsed, self@.pending),
                settle(old(self)@.parsed, old(self)@.pending) == settle(
                    self@.parsed,
                    self@.pending,
                ),
                run_ok(settle(self@.parsed, self@.pending).1),
            decreases work(self@.pending),
        {
            proof {
                lemma_work_nonnegative(self@.pending);
                if self@.pending.len() > 0 {
                    lemma_work_nonnegative(self@.pending.drop_last());
                }
            }
            let n = self.pending.len();
            if n == 0 {
                assert(self@.pending =~= seq![]);
                return Ok(Action::Finished);
            }
            let ghost before = self@.pending;
            let next = self.pending[n - 1].next;
            if next >= self.pending[n - 1].file.imports.len() {
                proof {
                    lemma_join(self@.parsed, before);
                }
                let frame = self.pending.pop().unwrap();
                assert(self@.pending =~= before.drop_last());
                assert(frame@ == before.last());
                self.parsed_files.insert(frame.path, frame.file);
                continue ;
            }
            let import = self.pending[n - 1].file.imports[next].path.clone();
            assert(import@ == before.last().file.imports[next as int].path);
            if self.parsed_files.contains_key(import.as_str()) {
                proof {
                    lemma_next_import(self@.parsed, before);
                }
                let frame = self.pending.pop().unwrap();
                let stepped = Pending { path: frame.path, file: frame.file, next: next + 1 };
                self.pending.push(stepped);
                proof {
                    let top = before.last();
                    assert(self@.pending =~= before.drop_last().push(
                        PendingView { next: top.next + 1, ..top },
                    ));
                    assert(self@.pending.drop_last() =~= before.drop_last());
                }
                continue ;
            }
            if self.waits(import.as_str()) {
                self.pending = Vec::new();
                assert(self@.pending =~= seq![]);
                return Err(ResolveError::CyclicImport(import));
            }
            self.waiting = Some(import.clone());
            return Ok(Action::Load(import));
        }
    }
}

/// Whether the file of `files` with the path `a` imports the path `b`.
pub open spec fn imports(files: Files, a: Seq<char>, b: Seq<char>) -> bool {
    exists|i: int, k: int|
        is_at(files, a, i) && 0 <= k < files[i].1.imports.len() && (
        #[trigger] files[i].1.imports[k]).path == b
}

/// Whether the path at index `j` of `chain` is imported by the one before it.
pub open spec fn linked(files: Files, chain: Seq<Seq<char>>, j: int) -> bool {
    imports(files, chain[j - 1], chain[j])
}

/// Whether each path of `chain` but the first is imported by the one before it.
pub open spec fn is_chain(files: Files, chain: Seq<Seq<char>>) -> bool {
    chain.len() > 0 && forall|j: int| 0 < j < chain.len() ==> #[trigger] linked(files, chain, j)
}

/// Whether the file with the path `from` depends on the one with the path
/// `to`: it is that file, or imports it, directly or through other files.
pub open spec fn depends_on(files: Files, from: Seq<char>, to: Seq<char>) -> bool {
    exists|chain: Seq<Seq<char>>| #[trigger]
        is_chain(files, chain) && chain[0] == from && chain.last() == to
}

/// Whether every file of `result` from index `from` on is one that the file
/// with the path `root` depends on.
pub open spec fn all_depended_on(result: Files, from: int, files: Files, root: Seq<char>) -> bool {
    forall|i: int|
        from <= i < result.len() && 0 <= i ==> depends_on(files, root, (#[trigger] result[i]).0)
}

/// Whether every file of `result` from index `from` on is one that a file
/// that `file` imports depends on.
pub open spec fn all_imported(result: Files, from: int, files: Files, file: FileDescriptorView)
    -> bool {
    forall|i: int|
        from <= i < result.len() && 0 <= i ==> imported_by(files, file, (#[trigger] result[i]).0)
}

/// Whether a file that `file` imports depends on the file with the path `to`.
pub open spec fn imported_by(files: Files, file: FileDescriptorView, to: Seq<char>) -> bool {
    exists|k: int|
        0 <= k < file.imports.len() && depends_on(files, (#[trigger] file.imports[k]).path, to)
}

/// A file depends on itself.
pub proof fn lemma_depends_on_itself(files: Files, path: Seq<char>)
    ensures
        depends_on(files, path, path),
{
    let chain = seq![path];
    assert(is_chain(files, chain));
    assert(chain[0] == path && chain.last() == path);
}

/// What a file that is imported depends on, the file that imports it depends
/// on too.
pub proof fn lemma_depends_through_import(files: Files, at: int, k: int, to: Seq<char>)
    requires
        0 <= at < files.len(),
        0 <= k < files[at].1.imports.len(),
        depends_on(files, files[at].1.imports[k].path, to),
    ensures
        depends_on(files, files[at].0, to),
{
    let rest = choose|chain: Seq<Seq<char>>| #[trigger]
        is_chain(files, chain) && chain[0] == files[at].1.imports[k].path && chain.last() == to;
    let chain = seq![files[at].0] + rest;
    assert(is_at(files, files[at].0, at));
    assert forall|j: int| 0 < j < chain.len() implies #[trigger] linked(files, chain, j) by {
        if j == 1 {
            assert(chain[0] == files[at].0);
            assert(chain[1] == rest[0]);
            assert(files[at].1.imports[k].path == chain[1]);
        } else {
            assert(chain[j - 1] == rest[j - 2]);
            assert(chain[j] == rest[j - 1]);
            assert(linked(files, rest, j - 1));
        }
    }
    assert(is_chain(files, chain));
    assert(chain[0] == files[at].0);
    assert(chain.last() == rest.last());
}

/// What gathering dependencies into `result` has done, from the state `before`:
/// the files that were gathered before are still the first of `result`;
/// every file of `result` is a file of `files`; and every file that a newly
/// gathered file imports is gathered too.
pub open spec fn gathered(before: Files, result: Files, files: Files) -> bool {
    &&& before.len() <= result.len()
    &&& result.subrange(0, before.len() as int) == before
    &&& within(result, files)
    &&& closed_from(result, before.len() as int)
}

proof fn lemma_has_key_grows(before: Files, after: Files, key: Seq<char>)
    requires
        before.len() <= after.len(),
        after.subrange(0, before.len() as int) == before,
        has_key(before, key),
    ensures
        has_key(after, key),
{
    let i = choose|i: int| 0 <= i < before.len() && (#[trigger] before[i]).0 == key;
    assert(after.subrange(0, before.len() as int)[i] == after[i]);
}

proof fn lemma_gathered_chain(a: Files, b: Files, c: Files, files: Files)
    requires
        gathered(a, b, files),
        gathered(b, c, files),
    ensures
        gathered(a, c, files),
{
    assert(c.subrange(0, a.len() as int) =~= a) by {
        assert forall|i: int| 0 <= i < a.len() implies c[i] == a[i] by {
            assert(c.subrange(0, b.len() as int)[i] == c[i]);
            assert(b.subrange(0, a.len() as int)[i] == b[i]);
        }
    }
    assert forall|i: int, k: int|
        a.len() <= i < c.len() && 0 <= i && 0 <= k < c[i].1.imports.len() implies has_key(
        c,
        (#[trigger] c[i].1.imports[k]).path,
    ) by {
        if i < b.len() {
            assert(c.subrange(0, b.len() as int)[i] == c[i]);
            assert(has_key(b, b[i].1.imports[k].path));
            lemma_has_key_grows(b, c, b[i].1.imports[k].path);
        }
    }
}

impl ParsedFiles {
    /// Whether every file that `file` imports is held.
    fn holds_imports_of(&self, file: &FileDescriptor) -> (r: bool)
        ensures
            r == imports_within(file@, self@),
    {
        let mut k: usize = 0;
        while k < file.imports.len()
            invariant
                0 <= k <= file.imports@.len(),
                forall|j: int| 0 <= j < k ==> has_key(self@, (#[trigger] file@.imports[j]).path),
            decreases file.imports@.len() - k,
        {
            if !self.contains_key(file.imports[k].path.as_str()) {
                assert(!has_key(self@, file@.imports[k as int].path));
                return false;
            }
            k = k + 1;
        }
        true
    }

    /// Whether every file that one of the files imports is itself held.
    pub fn is_closed(&self) -> (r: bool)
        ensures
            r == closed(self@),
    {
        let mut i: usize = 0;
        while i < self.len()
            invariant
                0 <= i <= self@.len(),
                forall|j: int| 0 <= j < i ==> imports_within((#[trigger] self@[j]).1, self@),
            decreases self@.len() - i,
        {
            if !self.holds_imports_of(self.file_at(i)) {
                assert(!imports_within(self@[i as int].1, self@));
                return false;
            }
            i = i + 1;
        }
        assert(closed(self@)) by {
            assert forall|a: int, k: int|
                0 <= a < self@.len() && 0 <= k < self@[a].1.imports.len() implies has_key(
                self@,
                (#[trigger] self@[a].1.imports[k]).path,
            ) by {
                assert(imports_within(self@[a].1, self@));
            }
        }
        true
    }

    /// Gathers into `result` the file with the path `protobuf_path` and all
    /// the files that it depends on, each once. A file that `result` holds
    /// already is taken to be gathered with all that it depends on.
    pub fn get_file_and_all_deps_already_parsed(
        &self,
        protobuf_path: &str,
        result: &mut ParsedFiles,
    )
        requires
            closed(self@),
            has_key(self@, protobuf_path@),
            within(old(result)@, self@),
        ensures
            gathered(old(result)@, final(result)@, self@),
            has_key(final(result)@, protobuf_path@),
            all_depended_on(final(result)@, old(result)@.len() as int, self@, protobuf_path@),
        decreases self@.len() - old(result)@.len(), 0int,
    {
        self.well_formed();
        result.well_formed();
        proof {
            lemma_within_is_not_more(result@, self@);
            assert(result@.subrange(0, result@.len() as int) =~= result@);
        }
        if result.contains_key(protobuf_path) {
            return ;
        }
        let parsed = match self.get(protobuf_path) {
            Some(parsed) => parsed,
            None => {
                return ;
            },
        };
        proof {
            lemma_within_is_fewer(result@, self@, protobuf_path@);
        }
        let ghost at = choose|i: int| is_at(self@, protobuf_path@, i) && parsed@ == self@[i].1;
        result.insert(protobuf_path.to_string(), parsed.clone());
        let ghost middle = result@;
        proof {
            assert(middle == old(result)@.push(self@[at]));
            assert(within(middle, self@)) by {
                assert forall|i: int| 0 <= i < middle.len() implies exists|j: int|
                    0 <= j < self@.len() && self@[j] == #[trigger] middle[i] by {
                    if i < old(result)@.len() {
                        assert(middle[i] == old(result)@[i]);
                    } else {
                        assert(self@[at] == middle[i]);
                    }
                }
            }
            assert(imports_within(parsed@, self@)) by {
                assert forall|k: int| 0 <= k < parsed@.imports.len() implies has_key(
                    self@,
                    (#[trigger] parsed@.imports[k]).path,
                ) by {
                    assert(has_key(self@, self@[at].1.imports[k].path));
                }
            }
        }
        self.get_all_deps_already_parsed(parsed, result);
        proof {
            let last = result@;
            assert(last.subrange(0, old(result)@.len() as int) =~= old(result)@) by {
                assert forall|i: int| 0 <= i < old(result)@.len() implies last[i] == old(
                    result,
                )@[i] by {
                    assert(last.subrange(0, middle.len() as int)[i] == last[i]);
                    assert(middle[i] == old(result)@[i]);
                }
            }
            assert(last[old(result)@.len() as int] == self@[at]) by {
                assert(last.subrange(0, middle.len() as int)[old(result)@.len() as int]
                    == last[old(result)@.len() as int]);
            }
            assert(closed_from(last, old(result)@.len() as int));
            assert(last[old(result)@.len() as int].0 == protobuf_path@);
            assert forall|i: int| old(result)@.len() <= i < last.len() implies depends_on(
                self@,
                protobuf_path@,
                (#[trigger] last[i]).0,
            ) by {
                if i == old(result)@.len() {
                    lemma_depends_on_itself(self@, protobuf_path@);
                } else {
                    assert(imported_by(self@, parsed@, last[i].0));
                    let k = choose|k: int|
                        0 <= k < parsed@.imports.len() && depends_on(
                            self@,
                            (#[trigger] parsed@.imports[k]).path,
                            last[i].0,
                        );
                    lemma_depends_through_import(self@, at, k, last[i].0);
                }
            }
        }
    }

    /// Gathers into `result` all the files that `parsed` depends on, each once.
    pub fn get_all_deps_already_parsed(&self, parsed: &FileDescriptor, result: &mut ParsedFiles)
        requires
            closed(self@),
            imports_within(parsed@, self@),
            within(old(result)@, self@),
        ensures
            gathered(old(result)@, final(result)@, self@),
            imports_within(parsed@, final(result)@),
            all_imported(final(result)@, old(result)@.len() as int, self@, parsed@),
        decreases self@.len() - old(result)@.len(), 1int,
    {
        self.well_formed();
        result.well_formed();
        proof {
            lemma_within_is_not_more(result@, self@);
            assert(result@.subrange(0, result@.len() as int) =~= result@);
        }
        let mut i: usize = 0;
        while i < parsed.imports.len()
            invariant
                0 <= i <= parsed.imports@.len(),
                closed(self@),
                imports_within(parsed@, self@),
                gathered(old(result)@, result@, self@),
                all_imported(result@, old(result)@.len() as int, self@, parsed@),
                forall|k: int|
                    0 <= k < i ==> has_key(result@, (#[trigger] parsed@.imports[k]).path),
            decreases parsed.imports@.len() - i,
        {
            let ghost before = result@;
            result.well_formed();
            proof {
                lemma_within_is_not_more(result@, self@);
            }
            assert(has_key(self@, parsed@.imports[i as int].path));
            self.get_file_and_all_deps_already_parsed(parsed.imports[i].path.as_str(), result);
            proof {
                lemma_gathered_chain(old(result)@, before, result@, self@);
                assert forall|j: int| old(result)@.len() <= j < result@.len() implies imported_by(
                    self@,
                    parsed@,
                    (#[trigger] result@[j]).0,
                ) by {
                    if j < before.len() {
                        assert(result@.subrange(0, before.len() as int)[j] == result@[j]);
                        assert(imported_by(self@, parsed@, before[j].0));
                    } else {
                        assert(depends_on(
                            self@,
                            parsed@.imports[i as int].path,
                            result@[j].0,
                        ));
                    }
                }
                assert forall|k: int| 0 <= k < i + 1 implies has_key(
                    result@,
                    (#[trigger] parsed@.imports[k]).path,
                ) by {
                    if k < i {
                        lemma_has_key_grows(before, result@, parsed@.imports[k].path);
                    }
                }
            }
            i = i + 1;
        }
    }
}

/// The dependencies of a file that are gathered from nothing are closed:
/// every file that one of them imports is among them.
pub proof fn law_gathered_is_closed(result: Files, files: Files)
    requires
        gathered(Seq::<(Seq<char>, FileDescriptorView)>::empty(), result, files),
    ensures
        closed(result),
        within(result, files),
{
}

/// Where every import is parsed, every file that a parsed file depends on
/// is parsed.
pub proof fn law_dependencies_are_parsed(files: Files, from: Seq<char>, to: Seq<char>)
    requires
        closed(files),
        has_key(files, from),
        depends_on(files, from, to),
    ensures
        has_key(files, to),
{
    let chain = choose|chain: Seq<Seq<char>>| #[trigger]
        is_chain(files, chain) && chain[0] == from && chain.last() == to;
    lemma_chain_is_parsed(files, chain, chain.len() - 1);
}

/// Where every import is parsed, a chain that starts at a parsed file holds
/// parsed files only.
pub proof fn lemma_chain_is_parsed(files: Files, chain: Seq<Seq<char>>, j: int)
    requires
        closed(files),
        is_chain(files, chain),
        has_key(files, chain[0]),
        0 <= j < chain.len(),
    ensures
        has_key(files, chain[j]),
    decreases j,
{
    if j > 0 {
        lemma_chain_is_parsed(files, chain, j - 1);
        assert(linked(files, chain, j));
        let (i, k) = choose|i: int, k: int|
            is_at(files, chain[j - 1], i) && 0 <= k < files[i].1.imports.len() && (
            #[trigger] files[i].1.imports[k]).path == chain[j];
        assert(has_key(files, files[i].1.imports[k].path));
    }
}

/// The dependencies of a file that are gathered from nothing are complete:
/// every file that the file depends on is among them.
pub proof fn law_gathered_is_complete(result: Files, files: Files, root: Seq<char>, to: Seq<char>)
    requires
        gathered(Seq::<(Seq<char>, FileDescriptorView)>::empty(), result, files),
        unique_keys(files),
        has_key(result, root),
        depends_on(files, root, to),
    ensures
        has_key(result, to),
{
    let chain = choose|chain: Seq<Seq<char>>| #[trigger]
        is_chain(files, chain) && chain[0] == root && chain.last() == to;
    lemma_chain_is_gathered(result, files, chain, chain.len() - 1);
}

/// A chain of imports that starts at a gathered file holds gathered files only.
pub proof fn lemma_chain_is_gathered(
    result: Files,
    files: Files,
    chain: Seq<Seq<char>>,
    j: int,
)
    requires
        closed(result),
        within(result, files),
        unique_keys(files),
        is_chain(files, chain),
        has_key(result, chain[0]),
        0 <= j < chain.len(),
    ensures
        has_key(result, chain[j]),
    decreases j,
{
    if j > 0 {
        lemma_chain_is_gathered(result, files, chain, j - 1);
        assert(linked(files, chain, j));
        let (i, k) = choose|i: int, k: int|
            is_at(files, chain[j - 1], i) && 0 <= k < files[i].1.imports.len() && (
            #[trigger] files[i].1.imports[k]).path == chain[j];
        let r = choose|r: int| 0 <= r < result.len() && (#[trigger] result[r]).0 == chain[j - 1];
        let f = choose|f: int| 0 <= f < files.len() && files[f] == #[trigger] result[r];
        if f < i {
            assert(files[f].0 != files[i].0);
        } else if i < f {
            assert(files[i].0 != files[f].0);
        }
        assert(result[r].1 == files[i].1);
        assert(has_key(result, result[r].1.imports[k].path));
    }
}

} // verus!
