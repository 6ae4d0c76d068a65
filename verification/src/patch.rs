//! The patch generator: given, for every file under a newly rendered
//! output tree, its content and the content of the file at the same
//! relative path under a previous output tree (absent files read as
//! empty), emits one unified-diff hunk group per changed file.
//!
//! An unchanged file contributes nothing.  A changed pair that decodes
//! as text on both sides is diffed line-based as text; otherwise the
//! bytes are diffed line-oriented.  The diff itself comes from the diff
//! library and enters the contracts only through the names
//! `unified_diff_lines` and `unified_diff_bytes`.

use vstd::prelude::*;

verus! {

use vstd::utf8::{valid_utf8, decode_utf8};
use vstd::string::StrSliceExecFns;

/// One file of the new output tree, with its relative path, its new
/// content, and the old content (empty when the file is new).
pub struct PatchEntry {
    pub rel: String,
    pub new: Vec<u8>,
    pub old: Vec<u8>,
}

/// Spec-level model of a patch entry.
pub ghost struct PatchEntryM {
    pub rel: Seq<char>,
    pub new: Seq<u8>,
    pub old: Seq<u8>,
}

impl View for PatchEntry {
    type V = PatchEntryM;

    open spec fn view(&self) -> PatchEntryM {
        PatchEntryM { rel: self.rel@, new: self.new@, old: self.old@ }
    }
}

impl DeepView for PatchEntry {
    type V = PatchEntryM;

    open spec fn deep_view(&self) -> PatchEntryM {
        self.view()
    }
}

/// Options for a patch run: the freshly rendered tree, the previous
/// tree, and the patch file to write.
pub struct GenPatchOptions {
    pub new_dir: String,
    pub old_dir: String,
    pub patch_file: String,
}

/// Generating the patch failed: a file of either tree could not be read,
/// or the patch file could not be written.
pub struct GenPatchError {
    pub path: String,
}

/// The unified diff of two texts as lines, under the given header names;
/// a function of its arguments alone.
pub uninterp spec fn unified_diff_lines(
    old: Seq<char>,
    new: Seq<char>,
    a: Seq<char>,
    b: Seq<char>,
) -> Seq<char>;

/// The unified diff of two byte strings as lines, under the given header
/// names; a function of its arguments alone.
pub uninterp spec fn unified_diff_bytes(
    old: Seq<u8>,
    new: Seq<u8>,
    a: Seq<char>,
    b: Seq<char>,
) -> Seq<u8>;

/// Relies on similar::TextDiff::from_lines and its unified-diff
/// formatter: deterministic in the two texts and the header names.
#[verifier::external_body]
fn diff_text(old: &str, new: &str, a: &str, b: &str) -> (r: String)
    ensures
        r@ == unified_diff_lines(old@, new@, a@, b@),
{
    similar::TextDiff::from_lines(old, new).unified_diff().header(a, b).to_string()
}

/// Relies on similar::TextDiff::from_lines on bytes and its unified-diff
/// writer: deterministic in the two byte strings and the header names.
#[verifier::external_body]
fn diff_bytes(old: &Vec<u8>, new: &Vec<u8>, a: &str, b: &str) -> (r: Vec<u8>)
    ensures
        r@ == unified_diff_bytes(old@, new@, a@, b@),
{
    let mut out: Vec<u8> = Vec::new();
    let diff = similar::TextDiff::from_lines(old.as_slice(), new.as_slice());
    match diff.unified_diff().header(a, b).to_writer(&mut out) {
        Ok(()) => out,
        Err(_) => Vec::new(),
    }
}

/// Relies on str::from_utf8: succeeds exactly on UTF-8 input, decoding
/// it.
#[verifier::external_body]
fn decode_text(b: &Vec<u8>) -> (r: Option<String>)
    ensures
        r is Some <==> valid_utf8(b@),
        r matches Some(s) ==> s@ == decode_utf8(b@),
{
    match std::str::from_utf8(b.as_slice()) {
        Ok(s) => Some(s.to_string()),
        Err(_) => None,
    }
}

/// Byte-wise equality.
pub fn bytes_eq(a: &Vec<u8>, b: &Vec<u8>) -> (r: bool)
    ensures
        r == (a@ == b@),
{
    if a.len() != b.len() {
        proof {
            assert(a@ != b@);
        }
        return false;
    }
    let mut i: usize = 0;
    while i < a.len()
        invariant
            a@.len() == b@.len(),
            i <= a@.len(),
            forall|j: int| 0 <= j < i ==> a@[j] == b@[j],
        decreases a@.len() - i,
    {
        if a[i] != b[i] {
            return false;
        }
        i += 1;
    }
    proof {
        assert(a@ =~= b@);
    }
    true
}

/// What one entry contributes to the patch: nothing when the file is
/// unchanged; the text diff of both sides when both decode as UTF-8; the
/// byte diff otherwise.  The hunk headers name `a/<rel>` and `b/<rel>`.
pub open spec fn spec_patch_entry(e: PatchEntryM) -> Seq<u8> {
    if e.old == e.new {
        Seq::empty()
    } else if valid_utf8(e.old) && valid_utf8(e.new) {
        vstd::utf8::encode_utf8(
            unified_diff_lines(
                decode_utf8(e.old),
                decode_utf8(e.new),
                "a/"@ + e.rel,
                "b/"@ + e.rel,
            ),
        )
    } else {
        unified_diff_bytes(e.old, e.new, "a/"@ + e.rel, "b/"@ + e.rel)
    }
}

/// The whole patch: each entry's contribution in order.
pub open spec fn spec_patch(entries: Seq<PatchEntryM>) -> Seq<u8>
    decreases entries.len(),
{
    if entries.len() == 0 {
        Seq::empty()
    } else {
        spec_patch_entry(entries[0]) + spec_patch(entries.drop_first())
    }
}

/// An unchanged file contributes no hunk to the patch.
pub proof fn lemma_patch_skips_unchanged(e: PatchEntryM)
    requires
        e.old == e.new,
    ensures
        spec_patch_entry(e) == Seq::<u8>::empty(),
{
}

/// A text file present only in the new tree is diffed against an empty
/// old side, under headers naming its relative path.
pub proof fn lemma_patch_added_file(e: PatchEntryM)
    requires
        e.old == Seq::<u8>::empty(),
        e.new.len() > 0,
        valid_utf8(e.new),
    ensures
        spec_patch_entry(e) == vstd::utf8::encode_utf8(
            unified_diff_lines(
                Seq::empty(),
                decode_utf8(e.new),
                "a/"@ + e.rel,
                "b/"@ + e.rel,
            ),
        ),
{
    assert(valid_utf8(e.old));
    assert(decode_utf8(e.old) =~= Seq::<char>::empty());
}

/// A binary file present only in the new tree takes the byte-diff form,
/// still against an empty old side and under the same headers.
pub proof fn lemma_patch_added_binary(e: PatchEntryM)
    requires
        e.old == Seq::<u8>::empty(),
        e.new.len() > 0,
        !valid_utf8(e.new),
    ensures
        spec_patch_entry(e) == unified_diff_bytes(
            Seq::empty(),
            e.new,
            "a/"@ + e.rel,
            "b/"@ + e.rel,
        ),
{
}

fn header_name(prefix: &str, rel: &String) -> (r: String)
    ensures
        r@ == prefix@ + rel@,
{
    let mut v: Vec<char> = crate::tag::str_chars(prefix);

    let rc = crate::tag::str_chars(rel.as_str());
    crate::text::push_chars(&mut v, &rc);
    crate::tag::chars_string(&v)
}

/// The patch tool itself.
pub struct Patch;

impl Patch {
    /// Computes the patch content for the given entries: one unified
    /// diff per changed file, in order, unchanged files skipped.
    pub fn render(entries: &Vec<PatchEntry>) -> (r: Vec<u8>)
        ensures
            r@ == spec_patch(entries.deep_view()),
    {
        let ghost ev = entries.deep_view();
        let mut out: Vec<u8> = Vec::new();
        let mut i: usize = 0;
        proof {
            assert(ev.skip(0) =~= ev);
            assert(out@ =~= Seq::<u8>::empty());
        }
        while i < entries.len()
            invariant
                i <= entries@.len(),
                ev == entries.deep_view(),
                ev.len() == entries@.len(),
                spec_patch(ev) =~= out@ + spec_patch(ev.skip(i as int)),
            decreases entries@.len() - i,
        {
            let ghost suffix = ev.skip(i as int);
            proof {
                assert(suffix[0] == ev[i as int]);
                assert(ev[i as int] == entries@[i as int]@);
                assert(suffix.drop_first() =~= ev.skip(i as int + 1));
            }
            let e = &entries[i];
            let unchanged = bytes_eq(&e.old, &e.new);
            if !unchanged {
                let a = header_name("a/", &e.rel);
                let b = header_name("b/", &e.rel);
                let contribution: Vec<u8> = match (decode_text(&e.old), decode_text(&e.new)) {
                    (Some(os), Some(ns)) => {
                        let d = diff_text(os.as_str(), ns.as_str(), a.as_str(), b.as_str());
                        let bytes = d.as_str().as_bytes_vec();
                        bytes
                    },
                    _ => diff_bytes(&e.old, &e.new, a.as_str(), b.as_str()),
                };
                let ghost out0 = out@;
                crate::text::push_bytes(&mut out, &contribution);
                proof {
                    assert(out@ =~= out0 + spec_patch_entry(ev[i as int]));
                }
            }
            i += 1;
            proof {
                assert(spec_patch(ev) =~= out@ + spec_patch(ev.skip(i as int)));
            }
        }
        proof {
            assert(ev.skip(ev.len() as int) =~= Seq::<PatchEntryM>::empty());
            assert(out@ + Seq::<u8>::empty() =~= out@);
        }
        out
    }
}

} // verus!
