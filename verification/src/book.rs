//! The book target: a chapter/section/subsection model populated during
//! the tree traversal, and a renderer that plans the book configuration,
//! the summary index and one content file per unit.
//!
//! Each exercise subsection's description document is validated against
//! the exercise's discovered image set before placeholders are
//! substituted: a referenced image that does not exist and an existing
//! image that is never referenced both abort the render, each listed by
//! name.

use vstd::prelude::*;

verus! {

use crate::ops::{FileOp, FileOpM, op_dir, op_write, op_copy};
use crate::tag::{dec_digits, spec_to_tag, is_space, to_tag, push_decimal, str_chars, chars_string};
use crate::text::{
    spec_replace, spec_trim, spec_trim_slashes, after_last_slash, push_chars, push_str_chars,
    replace_all, trim_chars, trim_slashes, match_at_exec,
};

/// One exercise subsection: the exercise's name, its description
/// document, its source directory (the key into the exercise output
/// mapping) and its topic's discovered image files.
pub struct SubSection {
    pub title: String,
    pub content: String,
    pub exercise_path: String,
    pub images: Vec<String>,
}

/// One unit section.
pub struct Section {
    pub title: String,
    pub subsections: Vec<SubSection>,
    pub module_index: usize,
    pub unit_index: usize,
}

/// One module chapter.
pub struct Chapter {
    pub title: String,
    pub sections: Vec<Section>,
    pub module_index: usize,
}

/// The whole book model.
pub struct Book {
    pub title: String,
    pub chapters: Vec<Chapter>,
}

/// Spec-level model of a subsection.
pub ghost struct SubSectionM {
    pub title: Seq<char>,
    pub content: Seq<char>,
    pub exercise_path: Seq<char>,
    pub images: Seq<Seq<char>>,
}

/// Spec-level model of a section.
pub ghost struct SectionM {
    pub title: Seq<char>,
    pub subsections: Seq<SubSectionM>,
    pub module_index: int,
    pub unit_index: int,
}

/// Spec-level model of a chapter.
pub ghost struct ChapterM {
    pub title: Seq<char>,
    pub sections: Seq<SectionM>,
    pub module_index: int,
}

/// Spec-level model of the book.
pub ghost struct BookM {
    pub title: Seq<char>,
    pub chapters: Seq<ChapterM>,
}

impl View for SubSection {
    type V = SubSectionM;

    open spec fn view(&self) -> SubSectionM {
        SubSectionM {
            title: self.title@,
            content: self.content@,
            exercise_path: self.exercise_path@,
            images: self.images.deep_view(),
        }
    }
}

impl View for Section {
    type V = SectionM;

    open spec fn view(&self) -> SectionM {
        SectionM {
            title: self.title@,
            subsections: self.subsections@.map_values(|s: SubSection| s@),
            module_index: self.module_index as int,
            unit_index: self.unit_index as int,
        }
    }
}

impl View for Chapter {
    type V = ChapterM;

    open spec fn view(&self) -> ChapterM {
        ChapterM {
            title: self.title@,
            sections: self.sections@.map_values(|s: Section| s@),
            module_index: self.module_index as int,
        }
    }
}

impl View for Book {
    type V = BookM;

    open spec fn view(&self) -> BookM {
        BookM {
            title: self.title@,
            chapters: self.chapters@.map_values(|c: Chapter| c@),
        }
    }
}

/// Builds a `Book` during the tree traversal.
pub struct BookBuilder {
    pub book: Book,
}

/// Builds one chapter.
pub struct ChapterBuilder {
    pub chapter: Chapter,
}

/// Builds one section.
pub struct SectionBuilder {
    pub section: Section,
}

impl Book {
    /// Starts an empty book with a title.
    pub fn builder(title: &String) -> (b: BookBuilder)
        ensures
            b.book@ == (BookM { title: title@, chapters: Seq::empty() }),
    {
        let b = BookBuilder { book: Book { title: title.clone(), chapters: Vec::new() } };
        proof {
            assert(b.book@.chapters =~= Seq::<ChapterM>::empty());
        }
        b
    }
}

impl BookBuilder {
    /// Opens one chapter; `add` on the result closes it back into this
    /// builder.
    pub fn chapter(&self, title: &String, module_index: usize) -> (c: ChapterBuilder)
        ensures
            c.chapter@ == (ChapterM {
                title: title@,
                sections: Seq::empty(),
                module_index: module_index as int,
            }),
    {
        let c = ChapterBuilder {
            chapter: Chapter { title: title.clone(), sections: Vec::new(), module_index },
        };
        proof {
            assert(c.chapter@.sections =~= Seq::<SectionM>::empty());
        }
        c
    }

    /// Finishes the book.
    pub fn build(self) -> (b: Book)
        ensures
            b@ == self.book@,
    {
        self.book
    }
}

impl ChapterBuilder {
    /// Opens one section.
    pub fn section(&self, module_index: usize, unit_index: usize, title: &String) -> (s:
        SectionBuilder)
        ensures
            s.section@ == (SectionM {
                title: title@,
                subsections: Seq::empty(),
                module_index: module_index as int,
                unit_index: unit_index as int,
            }),
    {
        let s = SectionBuilder {
            section: Section {
                title: title.clone(),
                subsections: Vec::new(),
                module_index,
                unit_index,
            },
        };
        proof {
            assert(s.section@.subsections =~= Seq::<SubSectionM>::empty());
        }
        s
    }

    /// Closes this chapter into the book.
    pub fn add(self, parent: &mut BookBuilder)
        ensures
            final(parent).book@ == (BookM {
                title: old(parent).book@.title,
                chapters: old(parent).book@.chapters.push(self.chapter@),
            }),
    {
        let c = self.chapter;
        let ghost cm = c@;
        parent.book.chapters.push(c);
        proof {
            assert(parent.book@.chapters =~= old(parent).book@.chapters.push(cm));
        }
    }
}

impl SectionBuilder {
    /// Appends one exercise subsection.
    pub fn subsection(
        &mut self,
        title: &String,
        content: &String,
        exercise_path: &String,
        images: &Vec<String>,
    )
        ensures
            final(self).section@ == (SectionM {
                title: old(self).section@.title,
                subsections: old(self).section@.subsections.push(
                    SubSectionM {
                        title: title@,
                        content: content@,
                        exercise_path: exercise_path@,
                        images: images.deep_view(),
                    },
                ),
                module_index: old(self).section@.module_index,
                unit_index: old(self).section@.unit_index,
            }),
    {
        let images2 = images.clone();
        proof {
            assert(images2.deep_view() =~= images.deep_view());
        }
        self.section.subsections.push(
            SubSection {
                title: title.clone(),
                content: content.clone(),
                exercise_path: exercise_path.clone(),
                images: images2,
            },
        );
        proof {
            assert(self.section@.subsections =~= old(self).section@.subsections.push(
                SubSectionM {
                    title: title@,
                    content: content@,
                    exercise_path: exercise_path@,
                    images: images.deep_view(),
                },
            ));
        }
    }

    /// Closes this section into its chapter.
    pub fn add(self, parent: &mut ChapterBuilder)
        ensures
            final(parent).chapter@ == (ChapterM {
                title: old(parent).chapter@.title,
                sections: old(parent).chapter@.sections.push(self.section@),
                module_index: old(parent).chapter@.module_index,
            }),
    {
        let s = self.section;
        let ghost sm = s@;
        parent.chapter.sections.push(s);
        proof {
            assert(parent.chapter@.sections =~= old(parent).chapter@.sections.push(sm));
        }
    }
}

/// A character that can be part of an image reference name.
pub open spec fn is_ref_char(c: char) -> bool {
    !is_space(c) && c != ')' && c != '"'
}

/// Length of the leading run of reference-name characters.
pub open spec fn ref_name_len(s: Seq<char>) -> int
    decreases s.len(),
{
    if s.len() > 0 && is_ref_char(s[0]) {
        1 + ref_name_len(s.drop_first())
    } else {
        0
    }
}

proof fn lemma_ref_name_len_bounds(s: Seq<char>)
    ensures
        0 <= ref_name_len(s) <= s.len(),
    decreases s.len(),
{
    if s.len() > 0 && is_ref_char(s[0]) {
        lemma_ref_name_len_bounds(s.drop_first());
    }
}

/// The image-reference marker: the image placeholder followed by a
/// slash.
pub open spec fn image_marker() -> Seq<char> {
    seq!['#', '[', 'm', 'o', 'd', 'm', 'o', 'd', ':', 'i', 'm', 'a', 'g', 'e', 's', ']', '/']
}

/// The image names a document references: each occurrence of the image
/// placeholder followed by a slash starts a reference; the name runs to
/// the next whitespace, quote or closing parenthesis.
pub open spec fn spec_image_refs(c: Seq<char>) -> Seq<Seq<char>>
    decreases c.len(),
{
    let marker = image_marker();
    if c.len() == 0 {
        Seq::empty()
    } else if c.len() >= marker.len() && c.take(marker.len() as int) == marker {
        let rest = c.skip(marker.len() as int);
        // The name length is clamped for the termination measure; it is
        // always within bounds (see `lemma_ref_name_len_bounds`).
        let n0 = ref_name_len(rest);
        let n = if 0 <= n0 <= rest.len() {
            n0
        } else {
            0
        };
        seq![rest.take(n)] + spec_image_refs(rest.skip(n))
    } else {
        spec_image_refs(c.drop_first())
    }
}

/// The file name of a path: everything after its last slash.
pub open spec fn spec_basename(p: Seq<char>) -> Seq<char> {
    p.skip(after_last_slash(p))
}

/// The file names of a list of image paths.
pub open spec fn spec_basenames(images: Seq<Seq<char>>) -> Seq<Seq<char>> {
    images.map_values(|p: Seq<char>| spec_basename(p))
}

/// The elements of `xs` that do not occur in `ys`, in order, duplicates
/// kept.
pub open spec fn spec_not_in(xs: Seq<Seq<char>>, ys: Seq<Seq<char>>) -> Seq<Seq<char>>
    decreases xs.len(),
{
    if xs.len() == 0 {
        Seq::empty()
    } else if ys.contains(xs[0]) {
        spec_not_in(xs.drop_first(), ys)
    } else {
        seq![xs[0]] + spec_not_in(xs.drop_first(), ys)
    }
}

/// The referenced names with no matching image file ("non existing").
pub open spec fn spec_missing_images(content: Seq<char>, images: Seq<Seq<char>>) -> Seq<Seq<char>> {
    spec_not_in(spec_image_refs(content), spec_basenames(images))
}

/// The image files never referenced ("unused").
pub open spec fn spec_unused_images(content: Seq<char>, images: Seq<Seq<char>>) -> Seq<Seq<char>> {
    spec_not_in(spec_basenames(images), spec_image_refs(content))
}

/// Tests the reference-name character class.
fn is_ref_char_exec(c: char) -> (r: bool)
    ensures
        r == is_ref_char(c),
{
    !crate::tag::is_space_exec(c) && c != ')' && c != '"'
}

proof fn lemma_ref_name_len_at(s: Seq<char>, n: int)
    requires
        0 <= n <= s.len(),
        forall|j: int| 0 <= j < n ==> is_ref_char(s[j]),
        n < s.len() ==> !is_ref_char(s[n]),
    ensures
        ref_name_len(s) == n,
    decreases s.len(),
{
    if s.len() == 0 {
    } else if n == 0 {
    } else {
        lemma_ref_name_len_at(s.drop_first(), n - 1);
    }
}

/// Collects the image names a document references, in order.
pub fn image_refs(c: &Vec<char>) -> (r: Vec<String>)
    ensures
        r.deep_view() == spec_image_refs(c@),
{
    let marker = str_chars("#[modmod:images]/");
    proof {
        reveal_strlit("#[modmod:images]/");
        assert(marker@ =~= image_marker());
    }
    let n = c.len();
    let mut out: Vec<String> = Vec::new();
    let mut i: usize = 0;
    proof {
        assert(c@.skip(0) =~= c@);
        assert(out.deep_view() =~= Seq::<Seq<char>>::empty());
    }
    while i < c.len()
        invariant
            i <= c@.len(),
            n == c@.len(),
            marker@ == image_marker(),
            spec_image_refs(c@) =~= out.deep_view() + spec_image_refs(c@.skip(i as int)),
        decreases c@.len() - i,
    {
        let ghost rest = c@.skip(i as int);
        let is_marker = match_at_exec(c, &marker, i);
        if is_marker {
            proof {
                assert(rest.take(image_marker().len() as int) =~= c@.subrange(
                    i as int,
                    i + image_marker().len(),
                ));
            }
            let mut name: Vec<char> = Vec::new();
            let mut j: usize = i + marker.len();
            let ghost start = j;
            while j < c.len() && is_ref_char_exec(c[j])
                invariant
                    start <= j <= c@.len(),
                    n == c@.len(),
                    forall|k: int| start <= k < j ==> is_ref_char(c@[k]),
                    name@ =~= c@.subrange(start as int, j as int),
                decreases c@.len() - j,
            {
                name.push(c[j]);
                proof {
                    assert(c@.subrange(start as int, j as int + 1) =~= c@.subrange(
                        start as int,
                        j as int,
                    ).push(c@[j as int]));
                }
                j += 1;
            }
            proof {
                let after = rest.skip(image_marker().len() as int);
                assert(after =~= c@.skip(start as int));
                lemma_ref_name_len_at(after, j - start);
                lemma_ref_name_len_bounds(after);
                assert(name@ =~= after.take(j - start));
                assert(after.skip(j - start) =~= c@.skip(j as int));
            }
            let ghost out0 = out.deep_view();
            out.push(chars_string(&name));
            proof {
                assert(out.deep_view() =~= out0.push(name@));
                assert(out0 + (seq![name@] + spec_image_refs(c@.skip(j as int))) =~= out0.push(
                    name@,
                ) + spec_image_refs(c@.skip(j as int)));
            }
            i = j;
        } else {
            proof {
                if rest.len() >= image_marker().len() {
                    assert(rest.take(image_marker().len() as int) =~= c@.subrange(
                        i as int,
                        i + image_marker().len(),
                    ));
                }
                assert(rest.drop_first() =~= c@.skip(i as int + 1));
            }
            i += 1;
        }
        proof {
            assert(spec_image_refs(c@) =~= out.deep_view() + spec_image_refs(c@.skip(i as int)));
        }
    }
    proof {
        assert(c@.skip(c@.len() as int) =~= Seq::<char>::empty());
        assert(out.deep_view() + Seq::<Seq<char>>::empty() =~= out.deep_view());
    }
    out
}

/// The file names of the image paths, in order.
pub fn basenames(images: &Vec<String>) -> (r: Vec<String>)
    ensures
        r.deep_view() == spec_basenames(images.deep_view()),
{
    let ghost iv = images.deep_view();
    let mut out: Vec<String> = Vec::new();
    let mut i: usize = 0;
    while i < images.len()
        invariant
            i <= images@.len(),
            iv == images.deep_view(),
            iv.len() == images@.len(),
            out.deep_view() =~= spec_basenames(iv.take(i as int)),
        decreases images@.len() - i,
    {
        let pc = str_chars(images[i].as_str());
        let bc = crate::text::basename_chars(&pc);
        let ghost out0 = out.deep_view();
        out.push(chars_string(&bc));
        proof {
            assert(iv[i as int] == images@[i as int]@);
            assert(out.deep_view() =~= out0.push(spec_basename(iv[i as int])));
            assert(iv.take(i as int + 1) =~= iv.take(i as int).push(iv[i as int]));
            assert(spec_basenames(iv.take(i as int + 1)) =~= spec_basenames(iv.take(i as int)).push(
                spec_basename(iv[i as int]),
            ));
        }
        i += 1;
    }
    proof {
        assert(iv.take(iv.len() as int) =~= iv);
    }
    out
}

/// Whether a list of strings contains a given one.
pub fn contains_string(v: &Vec<String>, x: &String) -> (r: bool)
    ensures
        r == v.deep_view().contains(x@),
{
    let ghost dv = v.deep_view();
    let mut i: usize = 0;
    while i < v.len()
        invariant
            i <= v@.len(),
            dv == v.deep_view(),
            dv.len() == v@.len(),
            forall|j: int| 0 <= j < i ==> dv[j] != x@,
        decreases v@.len() - i,
    {
        if v[i].eq(x) {
            proof {
                assert(dv[i as int] == v@[i as int]@);
                assert(dv.contains(x@));
            }
            return true;
        }
        proof {
            assert(dv[i as int] == v@[i as int]@);
        }
        i += 1;
    }
    proof {
        if dv.contains(x@) {
            let j = choose|j: int| 0 <= j < dv.len() && dv[j] == x@;
            assert(false);
        }
    }
    false
}

/// The elements of `xs` not occurring in `ys`, in order.
pub fn not_in_strings(xs: &Vec<String>, ys: &Vec<String>) -> (r: Vec<String>)
    ensures
        r.deep_view() == spec_not_in(xs.deep_view(), ys.deep_view()),
{
    let ghost xv = xs.deep_view();
    let ghost yv = ys.deep_view();
    let mut out: Vec<String> = Vec::new();
    let mut i: usize = 0;
    proof {
        assert(xv.skip(0) =~= xv);
        assert(out.deep_view() =~= Seq::<Seq<char>>::empty());
    }
    while i < xs.len()
        invariant
            i <= xs@.len(),
            xv == xs.deep_view(),
            yv == ys.deep_view(),
            xv.len() == xs@.len(),
            spec_not_in(xv, yv) =~= out.deep_view() + spec_not_in(xv.skip(i as int), yv),
        decreases xs@.len() - i,
    {
        let ghost suffix = xv.skip(i as int);
        proof {
            assert(suffix[0] == xv[i as int]);
            assert(xv[i as int] == xs@[i as int]@);
            assert(suffix.drop_first() =~= xv.skip(i as int + 1));
        }
        let present = contains_string(ys, &xs[i]);
        if !present {
            let ghost out0 = out.deep_view();
            out.push(xs[i].clone());
            proof {
                assert(out.deep_view() =~= out0.push(xv[i as int]));
                assert(out0 + (seq![xv[i as int]] + spec_not_in(xv.skip(i as int + 1), yv))
                    =~= out.deep_view() + spec_not_in(xv.skip(i as int + 1), yv));
            }
        }
        i += 1;
        proof {
            assert(spec_not_in(xv, yv) =~= out.deep_view() + spec_not_in(xv.skip(i as int), yv));
        }
    }
    proof {
        assert(xv.skip(xv.len() as int) =~= Seq::<Seq<char>>::empty());
        assert(out.deep_view() + Seq::<Seq<char>>::empty() =~= out.deep_view());
    }
    out
}

/// Validates a document's image references against the discovered image
/// files: fails exactly when some referenced name has no matching file
/// ("non existing") or some file is never referenced ("unused"), and
/// then lists both kinds completely.
pub fn check_images(content: &String, images: &Vec<String>) -> (r: Result<
    (),
    (Vec<String>, Vec<String>),
>)
    ensures
        r is Ok <==> spec_missing_images(content@, images.deep_view()).len() == 0
            && spec_unused_images(content@, images.deep_view()).len() == 0,
        r matches Err(v) ==> v.0.deep_view() == spec_missing_images(content@, images.deep_view())
            && v.1.deep_view() == spec_unused_images(content@, images.deep_view()),
{
    let cc = str_chars(content.as_str());
    let refs = image_refs(&cc);
    let names = basenames(images);
    let missing = not_in_strings(&refs, &names);
    let unused = not_in_strings(&names, &refs);
    if missing.len() == 0 && unused.len() == 0 {
        Ok(())
    } else {
        Err((missing, unused))
    }
}

/// Rendering the book failed.
#[derive(Debug)]
pub enum RenderBookError {
    /// A description document's content was not supplied.
    MissingFile(String),
    /// An exercise's output directory is not in the mapping.
    NoOutputDir(String),
    /// Image validation failed: referenced names with no file, and files
    /// never referenced.
    Images(Vec<String>, Vec<String>),
}

/// Spec-level model of a book-render error.
pub ghost enum BookErrM {
    MissingFile(Seq<char>),
    NoOutputDir(Seq<char>),
    Images(Seq<Seq<char>>, Seq<Seq<char>>),
}

/// The model of a book-render error value.
pub open spec fn bookerr_model(e: &RenderBookError) -> BookErrM {
    match e {
        RenderBookError::MissingFile(p) => BookErrM::MissingFile(p@),
        RenderBookError::NoOutputDir(p) => BookErrM::NoOutputDir(p@),
        RenderBookError::Images(m, u) => BookErrM::Images(m.deep_view(), u.deep_view()),
    }
}

/// Options for the book render: the exercise output mapping and the URL
/// base under which the slides are served.
pub struct BookRenderOptions {
    pub exercise_paths: Vec<crate::exercises::PathPair>,
    pub slides_url_base: String,
}

/// The output directory recorded for an exercise source directory.
pub open spec fn find_pair(pairs: Seq<(Seq<char>, Seq<char>)>, key: Seq<char>) -> Option<Seq<char>>
    decreases pairs.len(),
{
    if pairs.len() == 0 {
        None
    } else if pairs[0].0 == key {
        Some(pairs[0].1)
    } else {
        find_pair(pairs.drop_first(), key)
    }
}

/// Looks up the output directory recorded for an exercise source
/// directory.
pub fn find_pair_exec(pairs: &Vec<crate::exercises::PathPair>, key: &String) -> (r: Option<String>)
    ensures
        match r {
            Some(c) => find_pair(pairs.deep_view(), key@) == Some(c@),
            None => find_pair(pairs.deep_view(), key@) is None,
        },
{
    let ghost pv = pairs.deep_view();
    let mut i: usize = 0;
    proof {
        assert(pv.skip(0) =~= pv);
    }
    while i < pairs.len()
        invariant
            i <= pairs@.len(),
            pv == pairs.deep_view(),
            pv.len() == pairs@.len(),
            forall|j: int| 0 <= j < pairs@.len() ==> pv[j] == pairs@[j]@,
            find_pair(pv, key@) == find_pair(pv.skip(i as int), key@),
        decreases pairs@.len() - i,
    {
        proof {
            assert(pv.skip(i as int)[0] == pv[i as int]);
            assert(pv.skip(i as int).drop_first() =~= pv.skip(i as int + 1));
        }
        if pairs[i].from.eq(key) {
            return Some(pairs[i].to.clone());
        }
        i += 1;
    }
    proof {
        assert(pv.skip(pv.len() as int) =~= Seq::<(Seq<char>, Seq<char>)>::empty());
    }
    None
}

/// The image-placeholder token without the trailing slash, substituted
/// by the image subdirectory name.
pub open spec fn images_token() -> Seq<char> {
    seq!['#', '[', 'm', 'o', 'd', 'm', 'o', 'd', ':', 'i', 'm', 'a', 'g', 'e', 's', ']']
}

/// A dotted chapter.section.subsection reference number.
pub open spec fn spec_ref_string(c: int, s: int, i: int) -> Seq<char> {
    dec_digits(c) + seq!['.'] + dec_digits(s) + seq!['.'] + dec_digits(i)
}

/// A description document after placeholder substitution: the exercise
/// output directory, the dotted reference number and the image
/// subdirectory are inserted, headings are demoted one level, and the
/// result is trimmed.
pub open spec fn spec_subsection_body(
    content: Seq<char>,
    out_dir: Seq<char>,
    c: int,
    s: int,
    i: int,
) -> Seq<char> {
    let a = spec_replace(content, "#[modmod:exercise_dir]"@, out_dir);
    let b = spec_replace(a, "#[modmod:exercise_ref]"@, spec_ref_string(c, s, i));
    let d = spec_replace(b, images_token(), "images"@);
    let e = spec_replace(d, seq!['\n', '#', ' '], seq!['\n', '#', '#', '#', ' ']);
    spec_trim(e)
}

/// One subsection as written into its unit's section file.
pub open spec fn spec_subsection_block(
    sub: SubSectionM,
    c: int,
    s: int,
    i: int,
    out_dir: Seq<char>,
    text: Seq<char>,
) -> Seq<char> {
    "## Exercise "@ + spec_ref_string(c, s, i) + ": "@ + sub.title + "\n\n"@
        + spec_subsection_body(text, out_dir, c, s, i) + "\n"@
}

/// The copy operations bringing a subsection's images into the book's
/// image subdirectory.
pub open spec fn spec_image_copies(images: Seq<Seq<char>>) -> Seq<FileOpM>
    decreases images.len(),
{
    if images.len() == 0 {
        Seq::empty()
    } else {
        seq![op_copy(images[0], "book/src/images/"@ + spec_basename(images[0]))]
            + spec_image_copies(images.drop_first())
    }
}

/// The subsections of one section processed in order: each must have an
/// output directory in the mapping and its description content supplied,
/// and must pass image validation.
pub open spec fn spec_subsections(
    subs: Seq<SubSectionM>,
    c: int,
    s: int,
    i: int,
    pairs: Seq<(Seq<char>, Seq<char>)>,
    files: Seq<crate::ops::TextFileM>,
) -> Result<(Seq<char>, Seq<FileOpM>), BookErrM>
    decreases subs.len(),
{
    if subs.len() == 0 {
        Ok((Seq::empty(), Seq::empty()))
    } else {
        let sub = subs[0];
        match find_pair(pairs, sub.exercise_path) {
            None => Err(BookErrM::NoOutputDir(sub.exercise_path)),
            Some(out_dir) => match crate::ops::find_file(files, sub.content) {
                None => Err(BookErrM::MissingFile(sub.content)),
                Some(text) => {
                    let miss = spec_missing_images(text, sub.images);
                    let unused = spec_unused_images(text, sub.images);
                    if miss.len() > 0 || unused.len() > 0 {
                        Err(BookErrM::Images(miss, unused))
                    } else {
                        match spec_subsections(subs.drop_first(), c, s, i + 1, pairs, files) {
                            Err(e) => Err(e),
                            Ok(rest) => Ok(
                                (
                                    spec_subsection_block(sub, c, s, i, out_dir, text) + rest.0,
                                    spec_image_copies(sub.images) + rest.1,
                                ),
                            ),
                        }
                    }
                },
            },
        }
    }
}

/// One unit's section file: a heading with its dotted number and a link
/// to its slides, then its exercise subsections, or a notice when it has
/// none.
pub open spec fn spec_section_file(
    sec: SectionM,
    c: int,
    s: int,
    pairs: Seq<(Seq<char>, Seq<char>)>,
    files: Seq<crate::ops::TextFileM>,
    url_base: Seq<char>,
) -> Result<(Seq<char>, Seq<FileOpM>), BookErrM> {
    let ub = spec_trim_slashes(url_base);
    let sep: Seq<char> = if ub.len() == 0 {
        Seq::empty()
    } else {
        seq!['/']
    };
    let header = "# Unit "@ + dec_digits(c) + "."@ + dec_digits(s) + " - "@ + sec.title
        + "\n\n<a href=\"/"@ + ub + sep + "slides/"@ + dec_digits(c) + "_"@ + dec_digits(s)
        + "/\" target=\"_blank\">Slides</a>\n\n\n"@;
    if sec.subsections.len() == 0 {
        Ok((header + "*There are no exercises for this unit*"@, Seq::empty()))
    } else {
        match spec_subsections(sec.subsections, c, s, 1, pairs, files) {
            Err(e) => Err(e),
            Ok(v) => Ok((header + v.0, v.1)),
        }
    }
}

/// The sections of one chapter rendered in order: one write per section
/// file plus its image copies.
pub open spec fn spec_sections_ops(
    secs: Seq<SectionM>,
    c: int,
    s: int,
    pairs: Seq<(Seq<char>, Seq<char>)>,
    files: Seq<crate::ops::TextFileM>,
    url_base: Seq<char>,
) -> Result<Seq<FileOpM>, BookErrM>
    decreases secs.len(),
{
    if secs.len() == 0 {
        Ok(Seq::empty())
    } else {
        match spec_section_file(secs[0], c, s, pairs, files, url_base) {
            Err(e) => Err(e),
            Ok(v) => match spec_sections_ops(secs.drop_first(), c, s + 1, pairs, files, url_base) {
                Err(e) => Err(e),
                Ok(rest) => Ok(
                    seq![
                        op_write(
                            "book/src/"@ + spec_to_tag(secs[0].title) + ".md"@,
                            v.0,
                        ),
                    ] + v.1 + rest,
                ),
            },
        }
    }
}

/// The chapters rendered in order.
pub open spec fn spec_chapters_ops(
    chs: Seq<ChapterM>,
    c: int,
    pairs: Seq<(Seq<char>, Seq<char>)>,
    files: Seq<crate::ops::TextFileM>,
    url_base: Seq<char>,
) -> Result<Seq<FileOpM>, BookErrM>
    decreases chs.len(),
{
    if chs.len() == 0 {
        Ok(Seq::empty())
    } else {
        match spec_sections_ops(chs[0].sections, c, 1, pairs, files, url_base) {
            Err(e) => Err(e),
            Ok(hd) => match spec_chapters_ops(chs.drop_first(), c + 1, pairs, files, url_base) {
                Err(e) => Err(e),
                Ok(rest) => Ok(hd + rest),
            },
        }
    }
}

/// The summary lines of one chapter's sections.
pub open spec fn spec_summary_sections(secs: Seq<SectionM>) -> Seq<char>
    decreases secs.len(),
{
    if secs.len() == 0 {
        Seq::empty()
    } else {
        "\t- ["@ + secs[0].title + "]("@ + spec_to_tag(secs[0].title) + ".md)\n"@
            + spec_summary_sections(secs.drop_first())
    }
}

/// The summary: a draft line per chapter to keep numbering in sync, its
/// section links, and a blank line after each chapter.
pub open spec fn spec_summary_chapters(chs: Seq<ChapterM>) -> Seq<char>
    decreases chs.len(),
{
    if chs.len() == 0 {
        Seq::empty()
    } else {
        "- ["@ + chs[0].title + "]()\n"@ + spec_summary_sections(chs[0].sections) + "\n"@
            + spec_summary_chapters(chs.drop_first())
    }
}

/// The book configuration file.
pub open spec fn spec_book_toml(title: Seq<char>) -> Seq<char> {
    "[book]\ntitle = \""@ + title
        + "\"\nlanguage = \"en\"\nmultilingual = false\n\n[build]\nbuild-dir = \"./target\"\n"@
}

/// The whole book render plan, paths relative to the output root: the
/// directory skeleton, the configuration, the summary index, one content
/// file per unit and the image copies.
pub open spec fn spec_render_book(
    b: BookM,
    pairs: Seq<(Seq<char>, Seq<char>)>,
    files: Seq<crate::ops::TextFileM>,
    url_base: Seq<char>,
) -> Result<Seq<FileOpM>, BookErrM> {
    match spec_chapters_ops(b.chapters, 1, pairs, files, url_base) {
        Err(e) => Err(e),
        Ok(ops) => Ok(
            seq![
                op_dir("book"@),
                op_dir("book/src"@),
                op_dir("book/src/images"@),
                op_write("book/book.toml"@, spec_book_toml(b.title)),
                op_write("book/src/SUMMARY.md"@, "# Summary\n\n"@ + spec_summary_chapters(b.chapters)),
            ] + ops,
        ),
    }
}

/// Builds a String from a literal.
fn lit_string(s: &str) -> (r: String)
    ensures
        r@ == s@,
{
    let c = str_chars(s);
    chars_string(&c)
}

fn ref_string_chars(c: usize, s: usize, i: usize) -> (r: Vec<char>)
    ensures
        r@ == spec_ref_string(c as int, s as int, i as int),
{
    let mut out: Vec<char> = Vec::new();
    push_decimal(&mut out, c);
    out.push('.');
    push_decimal(&mut out, s);
    out.push('.');
    push_decimal(&mut out, i);
    proof {
        assert(out@ =~= spec_ref_string(c as int, s as int, i as int));
    }
    out
}

fn subsection_body(content: &String, out_dir: &String, c: usize, s: usize, i: usize) -> (r: Vec<
    char,
>)
    ensures
        r@ == spec_subsection_body(content@, out_dir@, c as int, s as int, i as int),
{
    proof {
        reveal_strlit("#[modmod:exercise_dir]");
        reveal_strlit("#[modmod:exercise_ref]");
        reveal_strlit("images");
    }
    let cc = str_chars(content.as_str());
    let dir_pat = str_chars("#[modmod:exercise_dir]");
    let dir_rep = str_chars(out_dir.as_str());
    let a = replace_all(&cc, &dir_pat, &dir_rep);
    let ref_pat = str_chars("#[modmod:exercise_ref]");
    let ref_rep = ref_string_chars(c, s, i);
    let b = replace_all(&a, &ref_pat, &ref_rep);
    let mut img_pat: Vec<char> = Vec::new();
    img_pat.push('#');
    img_pat.push('[');
    img_pat.push('m');
    img_pat.push('o');
    img_pat.push('d');
    img_pat.push('m');
    img_pat.push('o');
    img_pat.push('d');
    img_pat.push(':');
    img_pat.push('i');
    img_pat.push('m');
    img_pat.push('a');
    img_pat.push('g');
    img_pat.push('e');
    img_pat.push('s');
    img_pat.push(']');
    proof {
        assert(img_pat@ =~= images_token());
    }
    let img_rep = str_chars("images");
    let d = replace_all(&b, &img_pat, &img_rep);
    let mut h_pat: Vec<char> = Vec::new();
    h_pat.push('\n');
    h_pat.push('#');
    h_pat.push(' ');
    let mut h_rep: Vec<char> = Vec::new();
    h_rep.push('\n');
    h_rep.push('#');
    h_rep.push('#');
    h_rep.push('#');
    h_rep.push(' ');
    proof {
        assert(h_pat@ =~= seq!['\n', '#', ' ']);
        assert(h_rep@ =~= seq!['\n', '#', '#', '#', ' ']);
    }
    let e = replace_all(&d, &h_pat, &h_rep);
    trim_chars(&e)
}

fn image_copies(images: &Vec<String>) -> (r: Vec<FileOp>)
    ensures
        r.deep_view() == spec_image_copies(images.deep_view()),
{
    let ghost iv = images.deep_view();
    let mut out: Vec<FileOp> = Vec::new();
    let mut i: usize = 0;
    proof {
        assert(iv.skip(0) =~= iv);
        assert(out.deep_view() =~= Seq::<FileOpM>::empty());
    }
    while i < images.len()
        invariant
            i <= images@.len(),
            iv == images.deep_view(),
            iv.len() == images@.len(),
            spec_image_copies(iv) =~= out.deep_view() + spec_image_copies(iv.skip(i as int)),
        decreases images@.len() - i,
    {
        let ghost suffix = iv.skip(i as int);
        proof {
            assert(suffix[0] == iv[i as int]);
            assert(iv[i as int] == images@[i as int]@);
            assert(suffix.drop_first() =~= iv.skip(i as int + 1));
        }
        let pc = str_chars(images[i].as_str());
        let bc = crate::text::basename_chars(&pc);
        let mut dest: Vec<char> = Vec::new();
        push_str_chars(&mut dest, "book/src/images/");
        push_chars(&mut dest, &bc);
        let ghost out0 = out.deep_view();
        out.push(FileOp::Copy(images[i].clone(), chars_string(&dest)));
        proof {
            assert(out.deep_view() =~= out0.push(
                op_copy(iv[i as int], "book/src/images/"@ + spec_basename(iv[i as int])),
            ));
            assert(out0 + (seq![
                op_copy(iv[i as int], "book/src/images/"@ + spec_basename(iv[i as int])),
            ] + spec_image_copies(iv.skip(i as int + 1))) =~= out.deep_view()
                + spec_image_copies(iv.skip(i as int + 1)));
        }
        i += 1;
        proof {
            assert(spec_image_copies(iv) =~= out.deep_view() + spec_image_copies(
                iv.skip(i as int),
            ));
        }
    }
    proof {
        assert(iv.skip(iv.len() as int) =~= Seq::<Seq<char>>::empty());
        assert(out.deep_view() + Seq::<FileOpM>::empty() =~= out.deep_view());
    }
    out
}

fn render_subsections_from(
    subs: &Vec<SubSection>,
    k: usize,
    c: usize,
    s: usize,
    pairs: &Vec<crate::exercises::PathPair>,
    files: &Vec<crate::ops::TextFile>,
) -> (r: Result<(Vec<char>, Vec<FileOp>), RenderBookError>)
    requires
        k <= subs@.len(),
    ensures
        (match r {
            Ok(v) => Ok::<(Seq<char>, Seq<FileOpM>), BookErrM>((v.0@, v.1.deep_view())),
            Err(e) => Err(bookerr_model(&e)),
        }) == spec_subsections(
            subs@.map_values(|x: SubSection| x@).skip(k as int),
            c as int,
            s as int,
            k as int + 1,
            pairs.deep_view(),
            files.deep_view(),
        ),
    decreases subs@.len() - k,
{
    let ghost sm = subs@.map_values(|x: SubSection| x@);
    let ghost suffix = sm.skip(k as int);
    if k == subs.len() {
        let r: (Vec<char>, Vec<FileOp>) = (Vec::new(), Vec::new());
        proof {
            assert(suffix =~= Seq::<SubSectionM>::empty());
            assert(r.0@ =~= Seq::<char>::empty());
            assert(r.1.deep_view() =~= Seq::<FileOpM>::empty());
        }
        return Ok(r);
    }
    proof {
        assert(suffix[0] == sm[k as int]);
        assert(sm[k as int] == subs@[k as int]@);
        assert(suffix.drop_first() =~= sm.skip(k as int + 1));
    }
    let sub = &subs[k];
    let out_dir = match find_pair_exec(pairs, &sub.exercise_path) {
        Some(d) => d,
        None => {
            return Err(RenderBookError::NoOutputDir(sub.exercise_path.clone()));
        },
    };
    let text = match crate::ops::find_file_exec(files, &sub.content) {
        Some(t) => t,
        None => {
            return Err(RenderBookError::MissingFile(sub.content.clone()));
        },
    };
    match check_images(&text, &sub.images) {
        Err(v) => {
            return Err(RenderBookError::Images(v.0, v.1));
        },
        Ok(()) => {},
    }
    let i = k + 1;
    match render_subsections_from(subs, k + 1, c, s, pairs, files) {
        Err(e) => Err(e),
        Ok(rest) => {
            let mut block: Vec<char> = Vec::new();
            push_str_chars(&mut block, "## Exercise ");
            let refs = ref_string_chars(c, s, i);
            push_chars(&mut block, &refs);
            push_str_chars(&mut block, ": ");
            let tc = str_chars(sub.title.as_str());
            push_chars(&mut block, &tc);
            push_str_chars(&mut block, "\n\n");
            let body = subsection_body(&text, &out_dir, c, s, i);
            push_chars(&mut block, &body);
            push_str_chars(&mut block, "\n");
            let (mut rtext, mut rops) = rest;
            let mut content = block;
            let ghost content0 = content@;
            let ghost rtext0 = rtext@;
            crate::text::push_chars(&mut content, &rtext);
            let copies = image_copies(&sub.images);
            let ghost copies0 = copies.deep_view();
            let ghost rops0 = rops.deep_view();
            let mut ops = copies;
            ops.append(&mut rops);
            proof {
                assert(content@ =~= spec_subsection_block(
                    sm[k as int],
                    c as int,
                    s as int,
                    i as int,
                    out_dir@,
                    text@,
                ) + rtext0);
                assert(ops.deep_view() =~= copies0 + rops0);
            }
            Ok((content, ops))
        },
    }
}

fn render_sections_from(
    secs: &Vec<Section>,
    k: usize,
    c: usize,
    pairs: &Vec<crate::exercises::PathPair>,
    files: &Vec<crate::ops::TextFile>,
    url_base: &String,
) -> (r: Result<Vec<FileOp>, RenderBookError>)
    requires
        k <= secs@.len(),
    ensures
        (match r {
            Ok(v) => Ok::<Seq<FileOpM>, BookErrM>(v.deep_view()),
            Err(e) => Err(bookerr_model(&e)),
        }) == spec_sections_ops(
            secs@.map_values(|x: Section| x@).skip(k as int),
            c as int,
            k as int + 1,
            pairs.deep_view(),
            files.deep_view(),
            url_base@,
        ),
    decreases secs@.len() - k,
{
    let ghost smv = secs@.map_values(|x: Section| x@);
    let ghost suffix = smv.skip(k as int);
    if k == secs.len() {
        let r: Vec<FileOp> = Vec::new();
        proof {
            assert(suffix =~= Seq::<SectionM>::empty());
            assert(r.deep_view() =~= Seq::<FileOpM>::empty());
        }
        return Ok(r);
    }
    proof {
        assert(suffix[0] == smv[k as int]);
        assert(smv[k as int] == secs@[k as int]@);
        assert(suffix.drop_first() =~= smv.skip(k as int + 1));
    }
    let sec = &secs[k];
    let s = k + 1;
    // The section header with its dotted number and slides link.
    let ubc = str_chars(url_base.as_str());
    let ub = trim_slashes(&ubc);
    let mut header: Vec<char> = Vec::new();
    push_str_chars(&mut header, "# Unit ");
    push_decimal(&mut header, c);
    push_str_chars(&mut header, ".");
    push_decimal(&mut header, s);
    push_str_chars(&mut header, " - ");
    let tc = str_chars(sec.title.as_str());
    push_chars(&mut header, &tc);
    push_str_chars(&mut header, "\n\n<a href=\"/");
    push_chars(&mut header, &ub);
    if ub.len() > 0 {
        header.push('/');
    }
    push_str_chars(&mut header, "slides/");
    push_decimal(&mut header, c);
    push_str_chars(&mut header, "_");
    push_decimal(&mut header, s);
    push_str_chars(&mut header, "/\" target=\"_blank\">Slides</a>\n\n\n");
    let ghost hm = "# Unit "@ + dec_digits(c as int) + "."@ + dec_digits(s as int) + " - "@
        + sec.title@ + "\n\n<a href=\"/"@ + spec_trim_slashes(url_base@) + (
    if spec_trim_slashes(url_base@).len() == 0 {
        Seq::<char>::empty()
    } else {
        seq!['/']
    }) + "slides/"@ + dec_digits(c as int) + "_"@ + dec_digits(s as int)
        + "/\" target=\"_blank\">Slides</a>\n\n\n"@;
    proof {
        assert(header@ =~= hm);
    }
    let (content, mut copies) = if secs[k].subsections.len() == 0 {
        let mut content = header;
        push_str_chars(&mut content, "*There are no exercises for this unit*");
        (content, Vec::new())
    } else {
        match render_subsections_from(&sec.subsections, 0, c, s, pairs, files) {
            Err(e) => {
                proof {
                    assert(sec.subsections@.map_values(|x: SubSection| x@).skip(0)
                        =~= smv[k as int].subsections);
                }
                return Err(e);
            },
            Ok(v) => {
                proof {
                    assert(sec.subsections@.map_values(|x: SubSection| x@).skip(0)
                        =~= smv[k as int].subsections);
                }
                let mut content = header;
                push_chars(&mut content, &v.0);
                (content, v.1)
            },
        }
    };
    match render_sections_from(secs, k + 1, c, pairs, files, url_base) {
        Err(e) => Err(e),
        Ok(mut rest) => {
            let tag = to_tag(sec.title.as_str());
            let mut fname: Vec<char> = Vec::new();
            push_str_chars(&mut fname, "book/src/");
            let tagc = str_chars(tag.as_str());
            push_chars(&mut fname, &tagc);
            push_str_chars(&mut fname, ".md");
            let mut ops: Vec<FileOp> = Vec::new();
            ops.push(FileOp::Write(chars_string(&fname), chars_string(&content)));
            let ghost copies0 = copies.deep_view();
            let ghost rest0 = rest.deep_view();
            ops.append(&mut copies);
            ops.append(&mut rest);
            proof {
                assert(fname@ =~= "book/src/"@ + spec_to_tag(sec.title@) + ".md"@);
                assert(ops.deep_view() =~= (seq![
                    op_write("book/src/"@ + spec_to_tag(smv[k as int].title) + ".md"@, content@),
                ] + copies0) + rest0);
            }
            Ok(ops)
        },
    }
}

fn render_chapters_from(
    chs: &Vec<Chapter>,
    k: usize,
    pairs: &Vec<crate::exercises::PathPair>,
    files: &Vec<crate::ops::TextFile>,
    url_base: &String,
) -> (r: Result<Vec<FileOp>, RenderBookError>)
    requires
        k <= chs@.len(),
    ensures
        (match r {
            Ok(v) => Ok::<Seq<FileOpM>, BookErrM>(v.deep_view()),
            Err(e) => Err(bookerr_model(&e)),
        }) == spec_chapters_ops(
            chs@.map_values(|x: Chapter| x@).skip(k as int),
            k as int + 1,
            pairs.deep_view(),
            files.deep_view(),
            url_base@,
        ),
    decreases chs@.len() - k,
{
    let ghost cm = chs@.map_values(|x: Chapter| x@);
    let ghost suffix = cm.skip(k as int);
    if k == chs.len() {
        let r: Vec<FileOp> = Vec::new();
        proof {
            assert(suffix =~= Seq::<ChapterM>::empty());
            assert(r.deep_view() =~= Seq::<FileOpM>::empty());
        }
        return Ok(r);
    }
    proof {
        assert(suffix[0] == cm[k as int]);
        assert(cm[k as int] == chs@[k as int]@);
        assert(suffix.drop_first() =~= cm.skip(k as int + 1));
    }
    let ch = &chs[k];
    let c = k + 1;
    match render_sections_from(&ch.sections, 0, c, pairs, files, url_base) {
        Err(e) => {
            proof {
                assert(ch.sections@.map_values(|x: Section| x@).skip(0)
                    =~= cm[k as int].sections);
            }
            Err(e)
        },
        Ok(hd) => {
            proof {
                assert(ch.sections@.map_values(|x: Section| x@).skip(0)
                    =~= cm[k as int].sections);
            }
            match render_chapters_from(chs, k + 1, pairs, files, url_base) {
                Err(e) => Err(e),
                Ok(mut rest) => {
                    let mut ops = hd;
                    let ghost hd0 = ops.deep_view();
                    let ghost rest0 = rest.deep_view();
                    ops.append(&mut rest);
                    proof {
                        assert(ops.deep_view() =~= hd0 + rest0);
                    }
                    Ok(ops)
                },
            }
        },
    }
}

fn summary_chapters(chs: &Vec<Chapter>, k: usize) -> (r: Vec<char>)
    requires
        k <= chs@.len(),
    ensures
        r@ == spec_summary_chapters(chs@.map_values(|x: Chapter| x@).skip(k as int)),
    decreases chs@.len() - k,
{
    let ghost cm = chs@.map_values(|x: Chapter| x@);
    let ghost suffix = cm.skip(k as int);
    if k == chs.len() {
        let r: Vec<char> = Vec::new();
        proof {
            assert(suffix =~= Seq::<ChapterM>::empty());
            assert(r@ =~= Seq::<char>::empty());
        }
        return r;
    }
    proof {
        assert(suffix[0] == cm[k as int]);
        assert(cm[k as int] == chs@[k as int]@);
        assert(suffix.drop_first() =~= cm.skip(k as int + 1));
    }
    let ch = &chs[k];
    let mut out: Vec<char> = Vec::new();
    push_str_chars(&mut out, "- [");
    let tc = str_chars(ch.title.as_str());
    push_chars(&mut out, &tc);
    push_str_chars(&mut out, "]()\n");
    let secs = summary_sections(&ch.sections, 0);
    push_chars(&mut out, &secs);
    push_str_chars(&mut out, "\n");
    let rest = summary_chapters(chs, k + 1);
    push_chars(&mut out, &rest);
    proof {
        assert(ch.sections@.map_values(|x: Section| x@).skip(0) =~= cm[k as int].sections);
        assert(out@ =~= spec_summary_chapters(suffix));
    }
    out
}

fn summary_sections(secs: &Vec<Section>, k: usize) -> (r: Vec<char>)
    requires
        k <= secs@.len(),
    ensures
        r@ == spec_summary_sections(secs@.map_values(|x: Section| x@).skip(k as int)),
    decreases secs@.len() - k,
{
    let ghost sm = secs@.map_values(|x: Section| x@);
    let ghost suffix = sm.skip(k as int);
    if k == secs.len() {
        let r: Vec<char> = Vec::new();
        proof {
            assert(suffix =~= Seq::<SectionM>::empty());
            assert(r@ =~= Seq::<char>::empty());
        }
        return r;
    }
    proof {
        assert(suffix[0] == sm[k as int]);
        assert(sm[k as int] == secs@[k as int]@);
        assert(suffix.drop_first() =~= sm.skip(k as int + 1));
    }
    let sec = &secs[k];
    let mut out: Vec<char> = Vec::new();
    push_str_chars(&mut out, "\t- [");
    let tc = str_chars(sec.title.as_str());
    push_chars(&mut out, &tc);
    push_str_chars(&mut out, "](");
    let tag = to_tag(sec.title.as_str());
    let tagc = str_chars(tag.as_str());
    push_chars(&mut out, &tagc);
    push_str_chars(&mut out, ".md)\n");
    let rest = summary_sections(secs, k + 1);
    push_chars(&mut out, &rest);
    proof {
        assert(out@ =~= spec_summary_sections(suffix));
    }
    out
}

impl Book {
    /// Plans the whole book render, paths relative to the output root.
    /// `files` holds the contents of the description documents the book
    /// references; `opts` carry the exercise output mapping and the
    /// slides URL base.
    pub fn render(&self, opts: &BookRenderOptions, files: &Vec<crate::ops::TextFile>) -> (r:
        Result<Vec<FileOp>, RenderBookError>)
        ensures
            (match r {
                Ok(v) => Ok::<Seq<FileOpM>, BookErrM>(v.deep_view()),
                Err(e) => Err(bookerr_model(&e)),
            }) == spec_render_book(
                self@,
                opts.exercise_paths.deep_view(),
                files.deep_view(),
                opts.slides_url_base@,
            ),
    {
        match render_chapters_from(
            &self.chapters,
            0,
            &opts.exercise_paths,
            files,
            &opts.slides_url_base,
        ) {
            Err(e) => {
                proof {
                    assert(self.chapters@.map_values(|x: Chapter| x@).skip(0) =~= self@.chapters);
                }
                Err(e)
            },
            Ok(mut chops) => {
                proof {
                    assert(self.chapters@.map_values(|x: Chapter| x@).skip(0) =~= self@.chapters);
                }
                let mut ops: Vec<FileOp> = Vec::new();
                ops.push(FileOp::Dir(lit_string("book")));
                ops.push(FileOp::Dir(lit_string("book/src")));
                ops.push(FileOp::Dir(lit_string("book/src/images")));
                let mut toml: Vec<char> = Vec::new();
                push_str_chars(&mut toml, "[book]\ntitle = \"");
                let tc = str_chars(self.title.as_str());
                push_chars(&mut toml, &tc);
                push_str_chars(
                    &mut toml,
                    "\"\nlanguage = \"en\"\nmultilingual = false\n\n[build]\nbuild-dir = \"./target\"\n",
                );
                ops.push(FileOp::Write(lit_string("book/book.toml"), chars_string(&toml)));
                let mut summary: Vec<char> = Vec::new();
                push_str_chars(&mut summary, "# Summary\n\n");
                let body = summary_chapters(&self.chapters, 0);
                push_chars(&mut summary, &body);
                ops.push(
                    FileOp::Write(lit_string("book/src/SUMMARY.md"), chars_string(&summary)),
                );
                let ghost pre = ops.deep_view();
                let ghost chops0 = chops.deep_view();
                ops.append(&mut chops);
                proof {
                    assert(toml@ =~= spec_book_toml(self@.title));
                    assert(self.chapters@.map_values(|x: Chapter| x@).skip(0) =~= self@.chapters);
                    assert(summary@ =~= "# Summary\n\n"@ + spec_summary_chapters(self@.chapters));
                    assert(pre =~= seq![
                        op_dir("book"@),
                        op_dir("book/src"@),
                        op_dir("book/src/images"@),
                        op_write("book/book.toml"@, spec_book_toml(self@.title)),
                        op_write(
                            "book/src/SUMMARY.md"@,
                            "# Summary\n\n"@ + spec_summary_chapters(self@.chapters),
                        ),
                    ]);
                    assert(ops.deep_view() =~= pre + chops0);
                }
                Ok(ops)
            },
        }
    }
}

} // verus!
