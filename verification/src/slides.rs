//! The slide-deck target: one deck per unit, written from a template
//! with placeholders, a shared image directory, and a package manifest
//! synthesized from a stub with one name field and three script entries
//! per deck.

use vstd::prelude::*;

verus! {

use crate::ops::{FileOp, FileOpM, TextFile, TextFileM, find_file, find_file_exec, op_dir, op_write, op_copy};
use crate::tag::{dec_digits, spec_to_tag, to_tag, push_decimal, str_chars, chars_string};
use crate::text::{
    spec_replace, spec_trim, spec_trim_slashes, spec_starts_with, push_chars, push_str_chars,
    replace_all, trim_chars, trim_slashes, starts_with_chars,
};
use crate::book::spec_basename;

/// One topic's slide section: its content document and bullet lists.
pub struct SlideSection {
    pub content: String,
    pub objectives: Vec<String>,
    pub summary: Vec<String>,
    pub further_reading: Vec<String>,
    pub images: Vec<String>,
}

/// One unit's slide deck.
pub struct SlideDeck {
    pub name: String,
    pub module_name: String,
    pub module_index: usize,
    pub unit_index: usize,
    pub template: Option<String>,
    pub sections: Vec<SlideSection>,
}

/// The whole slides target model.
pub struct SlidesPackage {
    pub name: String,
    pub decks: Vec<SlideDeck>,
}

/// Spec-level model of a slide section.
pub ghost struct SlideSectionM {
    pub content: Seq<char>,
    pub objectives: Seq<Seq<char>>,
    pub summary: Seq<Seq<char>>,
    pub further_reading: Seq<Seq<char>>,
    pub images: Seq<Seq<char>>,
}

/// Spec-level model of a slide deck.
pub ghost struct SlideDeckM {
    pub name: Seq<char>,
    pub module_name: Seq<char>,
    pub module_index: int,
    pub unit_index: int,
    pub template: Option<Seq<char>>,
    pub sections: Seq<SlideSectionM>,
}

/// Spec-level model of the slides package.
pub ghost struct SlidesPackageM {
    pub name: Seq<char>,
    pub decks: Seq<SlideDeckM>,
}

impl View for SlideSection {
    type V = SlideSectionM;

    open spec fn view(&self) -> SlideSectionM {
        SlideSectionM {
            content: self.content@,
            objectives: self.objectives.deep_view(),
            summary: self.summary.deep_view(),
            further_reading: self.further_reading.deep_view(),
            images: self.images.deep_view(),
        }
    }
}

impl View for SlideDeck {
    type V = SlideDeckM;

    open spec fn view(&self) -> SlideDeckM {
        SlideDeckM {
            name: self.name@,
            module_name: self.module_name@,
            module_index: self.module_index as int,
            unit_index: self.unit_index as int,
            template: match self.template {
                Some(t) => Some(t@),
                None => None,
            },
            sections: self.sections@.map_values(|s: SlideSection| s@),
        }
    }
}

impl View for SlidesPackage {
    type V = SlidesPackageM;

    open spec fn view(&self) -> SlidesPackageM {
        SlidesPackageM {
            name: self.name@,
            decks: self.decks@.map_values(|d: SlideDeck| d@),
        }
    }
}

/// Builds a `SlidesPackage` during the tree traversal.
pub struct SlidesPackageBuilder {
    pub package: SlidesPackage,
}

/// Builds one slide deck.
pub struct SlideDeckBuilder {
    pub slide_deck: SlideDeck,
}

/// Builds one slide section.
pub struct SlidesSectionBuilder {
    pub section: SlideSection,
}

impl SlidesPackage {
    /// Starts an empty package named after the track.
    pub fn builder(name: &String) -> (b: SlidesPackageBuilder)
        ensures
            b.package@ == (SlidesPackageM { name: name@, decks: Seq::empty() }),
    {
        let b = SlidesPackageBuilder {
            package: SlidesPackage { name: name.clone(), decks: Vec::new() },
        };
        proof {
            assert(b.package@.decks =~= Seq::<SlideDeckM>::empty());
        }
        b
    }
}

impl SlidesPackageBuilder {
    /// Opens one deck; `add` on the result closes it back into this
    /// builder.
    pub fn deck(
        &self,
        name: &String,
        module_name: &String,
        module_index: usize,
        unit_index: usize,
        template: &Option<String>,
    ) -> (d: SlideDeckBuilder)
        ensures
            d.slide_deck@ == (SlideDeckM {
                name: name@,
                module_name: module_name@,
                module_index: module_index as int,
                unit_index: unit_index as int,
                template: match template {
                    Some(t) => Some(t@),
                    None => None,
                },
                sections: Seq::empty(),
            }),
    {
        let t2 = match template {
            Some(t) => Some(t.clone()),
            None => None,
        };
        let d = SlideDeckBuilder {
            slide_deck: SlideDeck {
                name: name.clone(),
                module_name: module_name.clone(),
                module_index,
                unit_index,
                template: t2,
                sections: Vec::new(),
            },
        };
        proof {
            assert(d.slide_deck@.sections =~= Seq::<SlideSectionM>::empty());
        }
        d
    }

    /// Finishes the package.
    pub fn build(self) -> (p: SlidesPackage)
        ensures
            p@ == self.package@,
    {
        self.package
    }
}

impl SlideDeckBuilder {
    /// Opens one section for a topic's content document.
    pub fn section(&self, content: &String) -> (s: SlidesSectionBuilder)
        ensures
            s.section@ == (SlideSectionM {
                content: content@,
                objectives: Seq::empty(),
                summary: Seq::empty(),
                further_reading: Seq::empty(),
                images: Seq::empty(),
            }),
    {
        let s = SlidesSectionBuilder {
            section: SlideSection {
                content: content.clone(),
                objectives: Vec::new(),
                summary: Vec::new(),
                further_reading: Vec::new(),
                images: Vec::new(),
            },
        };
        proof {
            assert(s.section@.objectives =~= Seq::<Seq<char>>::empty());
            assert(s.section@.summary =~= Seq::<Seq<char>>::empty());
            assert(s.section@.further_reading =~= Seq::<Seq<char>>::empty());
            assert(s.section@.images =~= Seq::<Seq<char>>::empty());
        }
        s
    }

    /// Closes this deck into the package.
    pub fn add(self, parent: &mut SlidesPackageBuilder)
        ensures
            final(parent).package@ == (SlidesPackageM {
                name: old(parent).package@.name,
                decks: old(parent).package@.decks.push(self.slide_deck@),
            }),
    {
        let d = self.slide_deck;
        let ghost dm = d@;
        parent.package.decks.push(d);
        proof {
            assert(parent.package@.decks =~= old(parent).package@.decks.push(dm));
        }
    }
}

impl SlidesSectionBuilder {
    /// Appends one learning objective.
    pub fn objective(&mut self, objective: &String)
        ensures
            final(self).section@ == (SlideSectionM {
                objectives: old(self).section@.objectives.push(objective@),
                ..old(self).section@
            }),
    {
        self.section.objectives.push(objective.clone());
        proof {
            assert(self.section@.objectives =~= old(self).section@.objectives.push(objective@));
        }
    }

    /// Appends one summary item.
    pub fn summary(&mut self, summary: &String)
        ensures
            final(self).section@ == (SlideSectionM {
                summary: old(self).section@.summary.push(summary@),
                ..old(self).section@
            }),
    {
        self.section.summary.push(summary.clone());
        proof {
            assert(self.section@.summary =~= old(self).section@.summary.push(summary@));
        }
    }

    /// Appends one further-reading item.
    pub fn further_reading(&mut self, further_reading: &String)
        ensures
            final(self).section@ == (SlideSectionM {
                further_reading: old(self).section@.further_reading.push(further_reading@),
                ..old(self).section@
            }),
    {
        self.section.further_reading.push(further_reading.clone());
        proof {
            assert(self.section@.further_reading =~= old(self).section@.further_reading.push(
                further_reading@,
            ));
        }
    }

    /// Appends one image file.
    pub fn image(&mut self, image: &String)
        ensures
            final(self).section@ == (SlideSectionM {
                images: old(self).section@.images.push(image@),
                ..old(self).section@
            }),
    {
        self.section.images.push(image.clone());
        proof {
            assert(self.section@.images =~= old(self).section@.images.push(image@));
        }
    }

    /// Closes this section into its deck.
    pub fn add(self, parent: &mut SlideDeckBuilder)
        ensures
            final(parent).slide_deck@ == (SlideDeckM {
                sections: old(parent).slide_deck@.sections.push(self.section@),
                ..old(parent).slide_deck@
            }),
    {
        let s = self.section;
        let ghost sm = s@;
        parent.slide_deck.sections.push(s);
        proof {
            assert(parent.slide_deck@.sections =~= old(parent).slide_deck@.sections.push(sm));
        }
    }
}

/// Rendering the slides failed: a content or template document's content
/// was not supplied.
#[derive(Debug)]
pub struct RenderSlidesError {
    pub path: String,
}

/// A bullet list: each item trimmed behind a dash, one per line.
pub open spec fn spec_bullets(items: Seq<Seq<char>>) -> Seq<char>
    decreases items.len(),
{
    if items.len() == 0 {
        Seq::empty()
    } else {
        "- "@ + spec_trim(items[0]) + "\n"@ + spec_bullets(items.drop_first())
    }
}

/// Builds a bullet list.
pub fn bullets(items: &Vec<String>, k: usize) -> (r: Vec<char>)
    requires
        k <= items@.len(),
    ensures
        r@ == spec_bullets(items.deep_view().skip(k as int)),
    decreases items@.len() - k,
{
    let ghost iv = items.deep_view();
    let ghost suffix = iv.skip(k as int);
    if k == items.len() {
        let r: Vec<char> = Vec::new();
        proof {
            assert(suffix =~= Seq::<Seq<char>>::empty());
            assert(r@ =~= Seq::<char>::empty());
        }
        return r;
    }
    proof {
        assert(suffix[0] == iv[k as int]);
        assert(iv[k as int] == items@[k as int]@);
        assert(suffix.drop_first() =~= iv.skip(k as int + 1));
    }
    let mut out: Vec<char> = Vec::new();
    push_str_chars(&mut out, "- ");
    let ic = str_chars(items[k].as_str());
    let t = trim_chars(&ic);
    push_chars(&mut out, &t);
    push_str_chars(&mut out, "\n");
    let rest = bullets(items, k + 1);
    push_chars(&mut out, &rest);
    proof {
        assert(out@ =~= spec_bullets(suffix));
    }
    out
}

/// The contribution of one section to a deck: the trimmed content,
/// preceded by a slide separator unless it already starts with one,
/// followed by a newline; empty content contributes nothing.
pub open spec fn spec_section_content(t: Seq<char>) -> Seq<char> {
    let trimmed = spec_trim(t);
    if trimmed.len() == 0 {
        Seq::empty()
    } else if spec_starts_with(trimmed, "---"@) {
        trimmed + "\n"@
    } else {
        "---\n\n"@ + trimmed + "\n"@
    }
}

/// The copies of a section's images into the shared image directory.
pub open spec fn spec_slide_image_copies(images: Seq<Seq<char>>) -> Seq<FileOpM>
    decreases images.len(),
{
    if images.len() == 0 {
        Seq::empty()
    } else {
        seq![op_copy(images[0], "slides/images/"@ + spec_basename(images[0]))]
            + spec_slide_image_copies(images.drop_first())
    }
}

/// Spec-level model of a slides-render error.
pub ghost struct SlidesErrM {
    pub path: Seq<char>,
}

/// The sections of one deck folded in order: concatenated content,
/// aggregated objective and summary bullets, and the image copies.  A
/// section whose content document is not supplied fails.
pub open spec fn spec_deck_sections(
    secs: Seq<SlideSectionM>,
    files: Seq<TextFileM>,
) -> Result<(Seq<char>, Seq<char>, Seq<char>, Seq<FileOpM>), SlidesErrM>
    decreases secs.len(),
{
    if secs.len() == 0 {
        Ok((Seq::empty(), Seq::empty(), Seq::empty(), Seq::empty()))
    } else {
        match find_file(files, secs[0].content) {
            None => Err(SlidesErrM { path: secs[0].content }),
            Some(t) => match spec_deck_sections(secs.drop_first(), files) {
                Err(e) => Err(e),
                Ok(rest) => Ok(
                    (
                        spec_section_content(t) + rest.0,
                        spec_bullets(secs[0].objectives) + rest.1,
                        spec_bullets(secs[0].summary) + rest.2,
                        spec_slide_image_copies(secs[0].images) + rest.3,
                    ),
                ),
            },
        }
    }
}

fn slide_image_copies(images: &Vec<String>, k: usize) -> (r: Vec<FileOp>)
    requires
        k <= images@.len(),
    ensures
        r.deep_view() == spec_slide_image_copies(images.deep_view().skip(k as int)),
    decreases images@.len() - k,
{
    let ghost iv = images.deep_view();
    let ghost suffix = iv.skip(k as int);
    if k == images.len() {
        let r: Vec<FileOp> = Vec::new();
        proof {
            assert(suffix =~= Seq::<Seq<char>>::empty());
            assert(r.deep_view() =~= Seq::<FileOpM>::empty());
        }
        return r;
    }
    proof {
        assert(suffix[0] == iv[k as int]);
        assert(iv[k as int] == images@[k as int]@);
        assert(suffix.drop_first() =~= iv.skip(k as int + 1));
    }
    let pc = str_chars(images[k].as_str());
    let bc = crate::text::basename_chars(&pc);
    let mut dest: Vec<char> = Vec::new();
    push_str_chars(&mut dest, "slides/images/");
    push_chars(&mut dest, &bc);
    let mut out: Vec<FileOp> = Vec::new();
    out.push(FileOp::Copy(images[k].clone(), chars_string(&dest)));
    let mut rest = slide_image_copies(images, k + 1);
    let ghost out0 = out.deep_view();
    let ghost rest0 = rest.deep_view();
    out.append(&mut rest);
    proof {
        assert(out0 =~= seq![op_copy(iv[k as int], "slides/images/"@ + spec_basename(iv[k as int]))]);
        assert(out.deep_view() =~= out0 + rest0);
    }
    out
}

fn deck_sections(secs: &Vec<SlideSection>, k: usize, files: &Vec<TextFile>) -> (r: Result<
    (Vec<char>, Vec<char>, Vec<char>, Vec<FileOp>),
    RenderSlidesError,
>)
    requires
        k <= secs@.len(),
    ensures
        (match r {
            Ok(v) => Ok::<(Seq<char>, Seq<char>, Seq<char>, Seq<FileOpM>), SlidesErrM>(
                (v.0@, v.1@, v.2@, v.3.deep_view()),
            ),
            Err(e) => Err(SlidesErrM { path: e.path@ }),
        }) == spec_deck_sections(
            secs@.map_values(|s: SlideSection| s@).skip(k as int),
            files.deep_view(),
        ),
    decreases secs@.len() - k,
{
    let ghost sm = secs@.map_values(|s: SlideSection| s@);
    let ghost suffix = sm.skip(k as int);
    if k == secs.len() {
        let r: (Vec<char>, Vec<char>, Vec<char>, Vec<FileOp>) = (
            Vec::new(),
            Vec::new(),
            Vec::new(),
            Vec::new(),
        );
        proof {
            assert(suffix =~= Seq::<SlideSectionM>::empty());
            assert(r.0@ =~= Seq::<char>::empty());
            assert(r.3.deep_view() =~= Seq::<FileOpM>::empty());
        }
        return Ok(r);
    }
    proof {
        assert(suffix[0] == sm[k as int]);
        assert(sm[k as int] == secs@[k as int]@);
        assert(suffix.drop_first() =~= sm.skip(k as int + 1));
    }
    let sec = &secs[k];
    let text = match find_file_exec(files, &sec.content) {
        Some(t) => t,
        None => {
            return Err(RenderSlidesError { path: sec.content.clone() });
        },
    };
    match deck_sections(secs, k + 1, files) {
        Err(e) => Err(e),
        Ok(rest) => {
            let tc = str_chars(text.as_str());
            let trimmed = trim_chars(&tc);
            let mut content: Vec<char> = Vec::new();
            if trimmed.len() > 0 {
                let mut dashes: Vec<char> = Vec::new();
                push_str_chars(&mut dashes, "---");
                if !starts_with_chars(&trimmed, &dashes) {
                    push_str_chars(&mut content, "---\n\n");
                }
                push_chars(&mut content, &trimmed);
                push_str_chars(&mut content, "\n");
            }
            proof {
                assert(content@ =~= spec_section_content(text@));
            }
            let (mut rc, mut ro, mut rs, mut rops) = rest;
            let ghost c0 = content@;
            push_chars(&mut content, &rc);
            let mut obj = bullets(&sec.objectives, 0);
            let ghost o0 = obj@;
            push_chars(&mut obj, &ro);
            let mut summ = bullets(&sec.summary, 0);
            let ghost s0 = summ@;
            push_chars(&mut summ, &rs);
            let mut ops = slide_image_copies(&sec.images, 0);
            let ghost ops0 = ops.deep_view();
            let ghost rops0 = rops.deep_view();
            ops.append(&mut rops);
            proof {
                assert(sec.objectives.deep_view().skip(0) =~= sm[k as int].objectives);
                assert(sec.summary.deep_view().skip(0) =~= sm[k as int].summary);
                assert(sec.images.deep_view().skip(0) =~= sm[k as int].images);
                assert(ops.deep_view() =~= ops0 + rops0);
            }
            Ok((content, obj, summ, ops))
        },
    }
}

/// The built-in deck template, used when a unit names none; its front
/// matter carries the chosen slide theme.
pub open spec fn spec_default_template(theme: Seq<char>) -> Seq<char> {
    "---\ntheme: "@ + theme
        + "\n---\n# #[modmod:mod_title]\n\nModule #[modmod:mod_index] - Unit #[modmod:unit_index]: #[modmod:unit_title]\n\n---\n# Learning objectives\n\n#[modmod:objectives]\n#[modmod:content]\n---\n# Summary\n\n#[modmod:summary]\n"@
}

/// The built-in deck template under the chosen slide theme.
pub fn default_template(theme: &String) -> (r: String)
    ensures
        r@ == spec_default_template(theme@),
{
    let mut c: Vec<char> = Vec::new();
    push_str_chars(&mut c, "---\ntheme: ");
    let tc = str_chars(theme.as_str());
    push_chars(&mut c, &tc);
    push_str_chars(
        &mut c,
        "\n---\n# #[modmod:mod_title]\n\nModule #[modmod:mod_index] - Unit #[modmod:unit_index]: #[modmod:unit_title]\n\n---\n# Learning objectives\n\n#[modmod:objectives]\n#[modmod:content]\n---\n# Summary\n\n#[modmod:summary]\n",
    );
    chars_string(&c)
}

/// The `<module>_<unit>` tag of a deck.
pub open spec fn spec_deck_prefix(mi: int, ui: int) -> Seq<char> {
    dec_digits(mi) + seq!['_'] + dec_digits(ui)
}

/// A deck's file name, relative to the slides directory.
pub open spec fn spec_deck_file_name(d: SlideDeckM) -> Seq<char> {
    spec_to_tag(spec_deck_prefix(d.module_index, d.unit_index) + seq!['-'] + d.name) + ".md"@
}

/// A deck's template content after placeholder substitution.
pub open spec fn spec_deck_text(
    d: SlideDeckM,
    template: Seq<char>,
    content: Seq<char>,
    objectives: Seq<char>,
    summary: Seq<char>,
) -> Seq<char> {
    let a = spec_replace(template, "#[modmod:mod_title]"@, d.module_name);
    let b = spec_replace(a, "#[modmod:mod_index]"@, dec_digits(d.module_index));
    let c = spec_replace(b, "#[modmod:unit_index]"@, dec_digits(d.unit_index));
    let e = spec_replace(c, "#[modmod:unit_title]"@, d.name);
    let f = spec_replace(e, "#[modmod:content]"@, content);
    let g = spec_replace(f, "#[modmod:objectives]"@, objectives);
    spec_replace(g, "#[modmod:summary]"@, summary)
}

/// One deck rendered: its file written under the slides directory and
/// its images copied into the shared image directory.
pub open spec fn spec_render_deck(d: SlideDeckM, files: Seq<TextFileM>, theme: Seq<char>) -> Result<
    Seq<FileOpM>,
    SlidesErrM,
> {
    let template = match d.template {
        Some(p) => find_file(files, p),
        None => Some(spec_default_template(theme)),
    };
    match template {
        None => Err(SlidesErrM { path: d.template->Some_0 }),
        Some(t) => match spec_deck_sections(d.sections, files) {
            Err(e) => Err(e),
            Ok(v) => Ok(
                seq![
                    op_write(
                        "slides/"@ + spec_deck_file_name(d),
                        spec_deck_text(d, t, v.0, v.1, v.2),
                    ),
                ] + v.3,
            ),
        },
    }
}

/// The decks rendered in order.
pub open spec fn spec_render_decks(
    decks: Seq<SlideDeckM>,
    files: Seq<TextFileM>,
    theme: Seq<char>,
) -> Result<Seq<FileOpM>, SlidesErrM>
    decreases decks.len(),
{
    if decks.len() == 0 {
        Ok(Seq::empty())
    } else {
        match spec_render_deck(decks[0], files, theme) {
            Err(e) => Err(e),
            Ok(hd) => match spec_render_decks(decks.drop_first(), files, theme) {
                Err(e) => Err(e),
                Ok(rest) => Ok(hd + rest),
            },
        }
    }
}

/// The slides render plan, paths relative to the output root: the
/// directory skeleton, one deck file per unit and the image copies.  The
/// package manifest is planned separately (see `build_manifest`).
pub open spec fn spec_render_slides(
    p: SlidesPackageM,
    files: Seq<TextFileM>,
    theme: Seq<char>,
) -> Result<Seq<FileOpM>, SlidesErrM> {
    match spec_render_decks(p.decks, files, theme) {
        Err(e) => Err(e),
        Ok(ops) => Ok(seq![op_dir("slides"@), op_dir("slides/images"@)] + ops),
    }
}

fn deck_file_name(d: &SlideDeck) -> (r: String)
    ensures
        r@ == spec_deck_file_name(d@),
{
    let mut v: Vec<char> = Vec::new();
    push_decimal(&mut v, d.module_index);
    v.push('_');
    push_decimal(&mut v, d.unit_index);
    v.push('-');
    let nc = str_chars(d.name.as_str());
    push_chars(&mut v, &nc);
    let tag = crate::tag::tag_chars(&v);
    let mut out: Vec<char> = Vec::new();
    push_chars(&mut out, &tag);
    push_str_chars(&mut out, ".md");
    proof {
        assert(v@ =~= spec_deck_prefix(d@.module_index, d@.unit_index) + seq!['-'] + d@.name);
        assert(out@ =~= spec_deck_file_name(d@));
    }
    chars_string(&out)
}

fn render_deck(d: &SlideDeck, files: &Vec<TextFile>, theme: &String) -> (r: Result<
    Vec<FileOp>,
    RenderSlidesError,
>)
    ensures
        (match r {
            Ok(v) => Ok::<Seq<FileOpM>, SlidesErrM>(v.deep_view()),
            Err(e) => Err(SlidesErrM { path: e.path@ }),
        }) == spec_render_deck(d@, files.deep_view(), theme@),
{
    let template: String = match &d.template {
        Some(p) => match find_file_exec(files, p) {
            Some(t) => t,
            None => {
                return Err(RenderSlidesError { path: p.clone() });
            },
        },
        None => default_template(theme),
    };
    match deck_sections(&d.sections, 0, files) {
        Err(e) => {
            proof {
                assert(d.sections@.map_values(|s: SlideSection| s@).skip(0) =~= d@.sections);
            }
            Err(e)
        },
        Ok(v) => {
            proof {
                assert(d.sections@.map_values(|s: SlideSection| s@).skip(0) =~= d@.sections);
                reveal_strlit("#[modmod:mod_title]");
                reveal_strlit("#[modmod:mod_index]");
                reveal_strlit("#[modmod:unit_index]");
                reveal_strlit("#[modmod:unit_title]");
                reveal_strlit("#[modmod:content]");
                reveal_strlit("#[modmod:objectives]");
                reveal_strlit("#[modmod:summary]");
            }
            let (content, obj, summ, mut copies) = v;
            let tc = str_chars(template.as_str());
            let mnc = str_chars(d.module_name.as_str());
            let p1 = str_chars("#[modmod:mod_title]");
            let a = replace_all(&tc, &p1, &mnc);
            let mut mi: Vec<char> = Vec::new();
            push_decimal(&mut mi, d.module_index);
            let p2 = str_chars("#[modmod:mod_index]");
            let b = replace_all(&a, &p2, &mi);
            let mut ui: Vec<char> = Vec::new();
            push_decimal(&mut ui, d.unit_index);
            let p3 = str_chars("#[modmod:unit_index]");
            let c = replace_all(&b, &p3, &ui);
            let nc = str_chars(d.name.as_str());
            let p4 = str_chars("#[modmod:unit_title]");
            let e = replace_all(&c, &p4, &nc);
            let p5 = str_chars("#[modmod:content]");
            let f = replace_all(&e, &p5, &content);
            let p6 = str_chars("#[modmod:objectives]");
            let g = replace_all(&f, &p6, &obj);
            let p7 = str_chars("#[modmod:summary]");
            let h = replace_all(&g, &p7, &summ);
            let fname = deck_file_name(d);
            let mut path: Vec<char> = Vec::new();
            push_str_chars(&mut path, "slides/");
            let fc = str_chars(fname.as_str());
            push_chars(&mut path, &fc);
            let mut ops: Vec<FileOp> = Vec::new();
            ops.push(FileOp::Write(chars_string(&path), chars_string(&h)));
            let ghost ops0 = ops.deep_view();
            let ghost copies0 = copies.deep_view();
            ops.append(&mut copies);
            proof {
                assert(path@ =~= "slides/"@ + spec_deck_file_name(d@));
                assert(ops.deep_view() =~= ops0 + copies0);
                assert(ops0 =~= seq![
                    op_write(
                        "slides/"@ + spec_deck_file_name(d@),
                        spec_deck_text(
                            d@,
                            template@,
                            spec_deck_sections(d@.sections, files.deep_view())->Ok_0.0,
                            spec_deck_sections(d@.sections, files.deep_view())->Ok_0.1,
                            spec_deck_sections(d@.sections, files.deep_view())->Ok_0.2,
                        ),
                    ),
                ]);
            }
            Ok(ops)
        },
    }
}

fn render_decks_from(
    decks: &Vec<SlideDeck>,
    k: usize,
    files: &Vec<TextFile>,
    theme: &String,
) -> (r: Result<Vec<FileOp>, RenderSlidesError>)
    requires
        k <= decks@.len(),
    ensures
        (match r {
            Ok(v) => Ok::<Seq<FileOpM>, SlidesErrM>(v.deep_view()),
            Err(e) => Err(SlidesErrM { path: e.path@ }),
        }) == spec_render_decks(
            decks@.map_values(|d: SlideDeck| d@).skip(k as int),
            files.deep_view(),
            theme@,
        ),
    decreases decks@.len() - k,
{
    let ghost dm = decks@.map_values(|d: SlideDeck| d@);
    let ghost suffix = dm.skip(k as int);
    if k == decks.len() {
        let r: Vec<FileOp> = Vec::new();
        proof {
            assert(suffix =~= Seq::<SlideDeckM>::empty());
            assert(r.deep_view() =~= Seq::<FileOpM>::empty());
        }
        return Ok(r);
    }
    proof {
        assert(suffix[0] == dm[k as int]);
        assert(dm[k as int] == decks@[k as int]@);
        assert(suffix.drop_first() =~= dm.skip(k as int + 1));
    }
    match render_deck(&decks[k], files, theme) {
        Err(e) => Err(e),
        Ok(hd) => match render_decks_from(decks, k + 1, files, theme) {
            Err(e) => Err(e),
            Ok(mut rest) => {
                let mut ops = hd;
                let ghost hd0 = ops.deep_view();
                let ghost rest0 = rest.deep_view();
                ops.append(&mut rest);
                proof {
                    assert(ops.deep_view() =~= hd0 + rest0);
                }
                Ok(ops)
            },
        },
    }
}

impl SlidesPackage {
    /// Plans the slides render, paths relative to the output root.
    /// `files` holds the contents of the content and template documents
    /// the decks reference; `theme` is the slide theme the built-in
    /// template falls back to.
    pub fn render(&self, files: &Vec<TextFile>, theme: &String) -> (r: Result<
        Vec<FileOp>,
        RenderSlidesError,
    >)
        ensures
            (match r {
                Ok(v) => Ok::<Seq<FileOpM>, SlidesErrM>(v.deep_view()),
                Err(e) => Err(SlidesErrM { path: e.path@ }),
            }) == spec_render_slides(self@, files.deep_view(), theme@),
    {
        match render_decks_from(&self.decks, 0, files, theme) {
            Err(e) => {
                proof {
                    assert(self.decks@.map_values(|d: SlideDeck| d@).skip(0) =~= self@.decks);
                }
                Err(e)
            },
            Ok(mut dops) => {
                proof {
                    assert(self.decks@.map_values(|d: SlideDeck| d@).skip(0) =~= self@.decks);
                }
                let mut ops: Vec<FileOp> = Vec::new();
                let sc = str_chars("slides");
                ops.push(FileOp::Dir(chars_string(&sc)));
                let sic = str_chars("slides/images");
                ops.push(FileOp::Dir(chars_string(&sic)));
                let ghost pre = ops.deep_view();
                let ghost dops0 = dops.deep_view();
                ops.append(&mut dops);
                proof {
                    assert(pre =~= seq![op_dir("slides"@), op_dir("slides/images"@)]);
                    assert(ops.deep_view() =~= pre + dops0);
                }
                Ok(ops)
            },
        }
    }
}

/// One script entry of the package manifest.
pub struct ScriptEntry {
    pub key: String,
    pub value: String,
}

impl View for ScriptEntry {
    type V = (Seq<char>, Seq<char>);

    open spec fn view(&self) -> (Seq<char>, Seq<char>) {
        (self.key@, self.value@)
    }
}

impl DeepView for ScriptEntry {
    type V = (Seq<char>, Seq<char>);

    open spec fn deep_view(&self) -> (Seq<char>, Seq<char>) {
        self.view()
    }
}

/// The three script entries of one deck: development preview, production
/// build with a deck-specific output path and URL base, and export.
pub open spec fn spec_deck_scripts(d: SlideDeckM, url_base: Seq<char>) -> Seq<
    (Seq<char>, Seq<char>),
> {
    let p = spec_deck_prefix(d.module_index, d.unit_index);
    let f = spec_deck_file_name(d);
    let ub = spec_trim_slashes(url_base);
    let sep: Seq<char> = if ub.len() == 0 {
        Seq::empty()
    } else {
        seq!['/']
    };
    seq![
        ("dev-"@ + p, "slidev "@ + f),
        (
            "build-"@ + p,
            "slidev build --out dist/"@ + p + " --base /"@ + ub + sep + "slides/"@ + p + "/ "@
                + f,
        ),
        ("export-"@ + p, "slidev export "@ + f),
    ]
}

/// The script entries of all decks, in deck order.
pub open spec fn spec_scripts(decks: Seq<SlideDeckM>, url_base: Seq<char>) -> Seq<
    (Seq<char>, Seq<char>),
>
    decreases decks.len(),
{
    if decks.len() == 0 {
        Seq::empty()
    } else {
        spec_deck_scripts(decks[0], url_base) + spec_scripts(decks.drop_first(), url_base)
    }
}

fn scripts_from(decks: &Vec<SlideDeck>, k: usize, url_base: &String) -> (r: Vec<ScriptEntry>)
    requires
        k <= decks@.len(),
    ensures
        r.deep_view() == spec_scripts(
            decks@.map_values(|d: SlideDeck| d@).skip(k as int),
            url_base@,
        ),
    decreases decks@.len() - k,
{
    let ghost dm = decks@.map_values(|d: SlideDeck| d@);
    let ghost suffix = dm.skip(k as int);
    if k == decks.len() {
        let r: Vec<ScriptEntry> = Vec::new();
        proof {
            assert(suffix =~= Seq::<SlideDeckM>::empty());
            assert(r.deep_view() =~= Seq::<(Seq<char>, Seq<char>)>::empty());
        }
        return r;
    }
    proof {
        assert(suffix[0] == dm[k as int]);
        assert(dm[k as int] == decks@[k as int]@);
        assert(suffix.drop_first() =~= dm.skip(k as int + 1));
    }
    let d = &decks[k];
    let mut p: Vec<char> = Vec::new();
    push_decimal(&mut p, d.module_index);
    p.push('_');
    push_decimal(&mut p, d.unit_index);
    let fname = deck_file_name(d);
    let fc = str_chars(fname.as_str());
    let ubc = str_chars(url_base.as_str());
    let ub = trim_slashes(&ubc);

    let mut k1: Vec<char> = Vec::new();
    push_str_chars(&mut k1, "dev-");
    push_chars(&mut k1, &p);
    let mut v1: Vec<char> = Vec::new();
    push_str_chars(&mut v1, "slidev ");
    push_chars(&mut v1, &fc);

    let mut k2: Vec<char> = Vec::new();
    push_str_chars(&mut k2, "build-");
    push_chars(&mut k2, &p);
    let mut v2: Vec<char> = Vec::new();
    push_str_chars(&mut v2, "slidev build --out dist/");
    push_chars(&mut v2, &p);
    push_str_chars(&mut v2, " --base /");
    push_chars(&mut v2, &ub);
    if ub.len() > 0 {
        v2.push('/');
    }
    push_str_chars(&mut v2, "slides/");
    push_chars(&mut v2, &p);
    push_str_chars(&mut v2, "/ ");
    push_chars(&mut v2, &fc);

    let mut k3: Vec<char> = Vec::new();
    push_str_chars(&mut k3, "export-");
    push_chars(&mut k3, &p);
    let mut v3: Vec<char> = Vec::new();
    push_str_chars(&mut v3, "slidev export ");
    push_chars(&mut v3, &fc);

    let mut out: Vec<ScriptEntry> = Vec::new();
    out.push(ScriptEntry { key: chars_string(&k1), value: chars_string(&v1) });
    out.push(ScriptEntry { key: chars_string(&k2), value: chars_string(&v2) });
    out.push(ScriptEntry { key: chars_string(&k3), value: chars_string(&v3) });
    proof {
        let expected = spec_deck_scripts(dm[k as int], url_base@);
        assert(out.deep_view().len() == 3);
        assert(out.deep_view()[0].0 =~= expected[0].0);
        assert(out.deep_view()[0].1 =~= expected[0].1);
        assert(out.deep_view()[1].0 =~= expected[1].0);
        assert(out.deep_view()[1].1 =~= expected[1].1);
        assert(out.deep_view()[2].0 =~= expected[2].0);
        assert(out.deep_view()[2].1 =~= expected[2].1);
        assert(out.deep_view()[0] == expected[0]);
        assert(out.deep_view()[1] == expected[1]);
        assert(out.deep_view()[2] == expected[2]);
        assert(out.deep_view() =~= expected);
    }
    let mut rest = scripts_from(decks, k + 1, url_base);
    let ghost out0 = out.deep_view();
    let ghost rest0 = rest.deep_view();
    out.append(&mut rest);
    proof {
        assert(out0 =~= spec_deck_scripts(dm[k as int], url_base@));
        assert(out.deep_view() =~= out0 + rest0);
    }
    out
}

impl SlidesPackage {
    /// The script entries the package manifest carries: three per deck,
    /// keyed by the deck's `<module>_<unit>` tag.
    pub fn scripts(&self, url_base: &String) -> (r: Vec<ScriptEntry>)
        ensures
            r.deep_view() == spec_scripts(self@.decks, url_base@),
    {
        let r = scripts_from(&self.decks, 0, url_base);
        proof {
            assert(self.decks@.map_values(|d: SlideDeck| d@).skip(0) =~= self@.decks);
        }
        r
    }
}

#[verifier::external_type_specification]
#[verifier::external_body]
pub struct ExJsonValue(serde_json::Value);

#[verifier::external_type_specification]
#[verifier::external_body]
#[verifier::reject_recursive_types(K)]
#[verifier::reject_recursive_types(V)]
pub struct ExJsonMap<K, V>(serde_json::Map<K, V>);

#[verifier::external_type_specification]
#[verifier::external_body]
pub struct ExJsonError(serde_json::Error);

/// Spec-level model of one JSON value, one level deep: a string, an
/// object seen through its own string-valued entries, or anything else.
pub ghost enum JsonValM {
    Str(Seq<char>),
    Obj(Map<Seq<char>, Option<Seq<char>>>),
    Other,
}

/// The entries of a JSON object: each key maps to its value's model.
pub uninterp spec fn json_obj(m: &serde_json::Map<String, serde_json::Value>) -> Map<
    Seq<char>,
    JsonValM,
>;

/// The pretty-printed serialization of a JSON object; a function of the
/// object value alone.
pub uninterp spec fn json_text_of(m: &serde_json::Map<String, serde_json::Value>) -> Seq<char>;

/// Whether a text parses as a JSON object, as serde_json::from_str
/// decides; a function of the text alone.
pub uninterp spec fn json_parses_as_object(s: Seq<char>) -> bool;

/// The entries of the object a text parses into; meaningful where
/// `json_parses_as_object` holds.
pub uninterp spec fn json_obj_of_text(s: Seq<char>) -> Map<Seq<char>, JsonValM>;

/// An object model reduced to its string-valued entries: string values
/// kept, any other value dropped to nothing.
pub open spec fn obj_strings(m: Map<Seq<char>, JsonValM>) -> Map<Seq<char>, Option<Seq<char>>> {
    m.map_values(
        |v: JsonValM|
            match v {
                JsonValM::Str(s) => Some(s),
                _ => None::<Seq<char>>,
            },
    )
}

/// The model of an object with no entries.
pub open spec fn empty_obj() -> Map<Seq<char>, JsonValM> {
    Map::empty()
}

/// Relies on serde_json::Map::new: an empty object.
#[verifier::external_body]
fn json_map_new() -> (m: serde_json::Map<String, serde_json::Value>)
    ensures
        json_obj(&m) == empty_obj(),
{
    serde_json::Map::new()
}

/// Relies on serde_json::Map::insert: maps the key to the given string
/// value, replacing any earlier entry.
#[verifier::external_body]
fn json_insert_string(m: &mut serde_json::Map<String, serde_json::Value>, k: &String, v: &String)
    ensures
        json_obj(final(m)) == json_obj(old(m)).insert(k@, JsonValM::Str(v@)),
{
    m.insert(k.clone(), serde_json::Value::String(v.clone()));
}

/// Relies on serde_json::Map::insert: maps the key to the given object
/// value, replacing any earlier entry.
#[verifier::external_body]
fn json_insert_object(
    m: &mut serde_json::Map<String, serde_json::Value>,
    k: &String,
    v: serde_json::Map<String, serde_json::Value>,
)
    ensures
        json_obj(final(m)) == json_obj(old(m)).insert(
            k@,
            JsonValM::Obj(obj_strings(json_obj(&v))),
        ),
{
    m.insert(k.clone(), serde_json::Value::Object(v));
}

/// Relies on serde_json::from_str: parses the text as a JSON object,
/// failing exactly on anything else; deterministic in the text.
#[verifier::external_body]
fn json_parse_object(s: &String) -> (r: Result<
    serde_json::Map<String, serde_json::Value>,
    serde_json::Error,
>)
    ensures
        r is Ok <==> json_parses_as_object(s@),
        r matches Ok(m) ==> json_obj(&m) == json_obj_of_text(s@),
{
    serde_json::from_str(s.as_str())
}

/// Relies on serde_json::to_string_pretty: deterministic in the object
/// value; an object with string keys serializes without error, and the
/// empty string stands in for the error case.
#[verifier::external_body]
fn json_to_string_pretty(m: &serde_json::Map<String, serde_json::Value>) -> (r: String)
    ensures
        r@ == json_text_of(m),
{
    match serde_json::to_string_pretty(m) {
        Ok(s) => s,
        Err(_) => String::new(),
    }
}

/// The map of script entries, later entries replacing earlier ones with
/// the same key.
pub open spec fn spec_scripts_obj(s: Seq<(Seq<char>, Seq<char>)>) -> Map<Seq<char>, JsonValM>
    decreases s.len(),
{
    if s.len() == 0 {
        Map::empty()
    } else {
        spec_scripts_obj(s.drop_last()).insert(s.last().0, JsonValM::Str(s.last().1))
    }
}

/// Builds the JSON object holding the script entries.
fn scripts_obj(scripts: &Vec<ScriptEntry>) -> (m: serde_json::Map<String, serde_json::Value>)
    ensures
        json_obj(&m) == spec_scripts_obj(scripts.deep_view()),
{
    let ghost sv = scripts.deep_view();
    let mut m = json_map_new();
    let mut i: usize = 0;
    proof {
        assert(sv.take(0) =~= Seq::<(Seq<char>, Seq<char>)>::empty());
    }
    while i < scripts.len()
        invariant
            i <= scripts@.len(),
            sv == scripts.deep_view(),
            sv.len() == scripts@.len(),
            json_obj(&m) == spec_scripts_obj(sv.take(i as int)),
        decreases scripts@.len() - i,
    {
        json_insert_string(&mut m, &scripts[i].key, &scripts[i].value);
        proof {
            assert(sv[i as int] == scripts@[i as int]@);
            assert(sv.take(i as int + 1).drop_last() =~= sv.take(i as int));
            assert(sv.take(i as int + 1).last() == sv[i as int]);
        }
        i += 1;
    }
    proof {
        assert(sv.take(sv.len() as int) =~= sv);
    }
    m
}

/// The package manifest could not be synthesized: the stub does not
/// parse as a JSON object.
#[derive(Debug)]
pub struct StubParseError;

/// The object the manifest serializes: the parsed stub's entries, with
/// `name` set to the given tag and `scripts` set to the object holding
/// exactly the given entries.
pub open spec fn spec_manifest_obj(
    stub: Seq<char>,
    tag: Seq<char>,
    scripts: Seq<(Seq<char>, Seq<char>)>,
) -> Map<Seq<char>, JsonValM> {
    json_obj_of_text(stub).insert("name"@, JsonValM::Str(tag)).insert(
        "scripts"@,
        JsonValM::Obj(obj_strings(spec_scripts_obj(scripts))),
    )
}

/// The manifest content is the serialization of an object modelled by
/// `spec_manifest_obj`: the stub's entries, the track tag under `name`,
/// and exactly the given script entries under `scripts`.
pub open spec fn manifest_content_ok(
    c: Seq<char>,
    stub: Seq<char>,
    tag: Seq<char>,
    scripts: Seq<(Seq<char>, Seq<char>)>,
) -> bool {
    exists|m: serde_json::Map<String, serde_json::Value>|
        #![trigger json_text_of(&m)]
        json_obj(&m) == spec_manifest_obj(stub, tag, scripts) && c == json_text_of(&m)
}

/// Synthesizes the package manifest from a stub: the stub's object
/// gains a `name` field holding the track's tag and a `scripts` object
/// holding exactly the given entries, and is pretty-printed.  It fails
/// exactly when the stub does not parse as a JSON object; only the
/// serialized formatting, and stub values below the object's top level,
/// come unconstrained from the JSON library.
pub fn build_manifest(stub: &String, track_name: &String, scripts: &Vec<ScriptEntry>) -> (r:
    Result<String, StubParseError>)
    ensures
        r is Ok <==> json_parses_as_object(stub@),
        r matches Ok(text) ==> manifest_content_ok(
            text@,
            stub@,
            spec_to_tag(track_name@),
            scripts.deep_view(),
        ),
{
    let parsed = match json_parse_object(stub) {
        Ok(p) => p,
        Err(_) => {
            return Err(StubParseError);
        },
    };
    let mut m = parsed;
    let tag = to_tag(track_name.as_str());
    let name_key = {
        let c = str_chars("name");
        chars_string(&c)
    };
    json_insert_string(&mut m, &name_key, &tag);
    let sobj = scripts_obj(scripts);
    let scripts_key = {
        let c = str_chars("scripts");
        chars_string(&c)
    };
    json_insert_object(&mut m, &scripts_key, sobj);
    let text = json_to_string_pretty(&m);
    proof {
        assert(json_obj(&m) == spec_manifest_obj(
            stub@,
            spec_to_tag(track_name@),
            scripts.deep_view(),
        ));
    }
    Ok(text)
}

} // verus!
