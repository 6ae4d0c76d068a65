//! The renderers produce no I/O themselves: each returns a plan, a list
//! of file operations for the caller to carry out in order.

use vstd::prelude::*;

verus! {

/// One step of a render plan.
pub enum FileOp {
    /// Create a directory and its parents.
    Dir(String),
    /// Write a text file with the given content.
    Write(String, String),
    /// Copy an existing file to a destination path.
    Copy(String, String),
}

/// The kind of a file operation.
#[derive(Clone, Copy, PartialEq, Eq, Structural)]
pub enum OpKind {
    Dir,
    Write,
    Copy,
}

/// Spec-level model of a file operation: its kind, its primary path, and
/// its content or source (empty for a directory).
pub ghost struct FileOpM {
    pub kind: OpKind,
    pub path: Seq<char>,
    pub arg: Seq<char>,
}

impl View for FileOp {
    type V = FileOpM;

    open spec fn view(&self) -> FileOpM {
        match self {
            FileOp::Dir(p) => FileOpM { kind: OpKind::Dir, path: p@, arg: Seq::empty() },
            FileOp::Write(p, c) => FileOpM { kind: OpKind::Write, path: p@, arg: c@ },
            FileOp::Copy(from, to) => FileOpM { kind: OpKind::Copy, path: to@, arg: from@ },
        }
    }
}

impl DeepView for FileOp {
    type V = FileOpM;

    open spec fn deep_view(&self) -> FileOpM {
        self.view()
    }
}

/// A directory operation.
pub open spec fn op_dir(p: Seq<char>) -> FileOpM {
    FileOpM { kind: OpKind::Dir, path: p, arg: Seq::empty() }
}

/// A write operation.
pub open spec fn op_write(p: Seq<char>, c: Seq<char>) -> FileOpM {
    FileOpM { kind: OpKind::Write, path: p, arg: c }
}

/// A copy operation.
pub open spec fn op_copy(from: Seq<char>, to: Seq<char>) -> FileOpM {
    FileOpM { kind: OpKind::Copy, path: to, arg: from }
}

/// The content of one text file the caller has read, keyed by the
/// canonical path it was read from.
pub struct TextFile {
    pub path: String,
    pub content: String,
}

/// Spec-level model of a text file.
pub ghost struct TextFileM {
    pub path: Seq<char>,
    pub content: Seq<char>,
}

impl View for TextFile {
    type V = TextFileM;

    open spec fn view(&self) -> TextFileM {
        TextFileM { path: self.path@, content: self.content@ }
    }
}

impl DeepView for TextFile {
    type V = TextFileM;

    open spec fn deep_view(&self) -> TextFileM {
        self.view()
    }
}

/// The content recorded for `path`, if any; the first entry wins.
pub open spec fn find_file(files: Seq<TextFileM>, path: Seq<char>) -> Option<Seq<char>>
    decreases files.len(),
{
    if files.len() == 0 {
        None
    } else if files[0].path == path {
        Some(files[0].content)
    } else {
        find_file(files.drop_first(), path)
    }
}

/// Looks up the content recorded for `path`.
pub fn find_file_exec(files: &Vec<TextFile>, path: &String) -> (r: Option<String>)
    ensures
        match r {
            Some(c) => find_file(files.deep_view(), path@) == Some(c@),
            None => find_file(files.deep_view(), path@) is None,
        },
{
    let ghost fv = files.deep_view();
    let mut i: usize = 0;
    proof {
        assert(fv.skip(0) =~= fv);
    }
    while i < files.len()
        invariant
            i <= files@.len(),
            fv == files.deep_view(),
            fv.len() == files@.len(),
            forall|j: int| 0 <= j < files@.len() ==> fv[j] == files@[j]@,
            find_file(fv, path@) == find_file(fv.skip(i as int), path@),
        decreases files@.len() - i,
    {
        proof {
            assert(fv.skip(i as int)[0] == fv[i as int]);
            assert(fv.skip(i as int).drop_first() =~= fv.skip(i as int + 1));
        }
        if files[i].path.eq(path) {
            return Some(files[i].content.clone());
        }
        i += 1;
    }
    proof {
        assert(fv.skip(fv.len() as int) =~= Seq::<TextFileM>::empty());
    }
    None
}

} // verus!
