//! The exercise-package target: an accumulator model populated during the
//! tree traversal, and a renderer that plans one output directory per
//! exercise and copies the files selected by the exercise's include glob
//! patterns.
//!
//! The glob crate does the matching; its behaviour enters the contracts
//! only through the names `glob_pattern_ok`, `globset_build_ok` and
//! `glob_matches`.

use vstd::prelude::*;

verus! {

use crate::ops::{FileOp, FileOpM, op_dir, op_copy};
use crate::resolve::{DirListing, ListingM, listed_files, listed_files_exec, join_strings, parent_string};
use crate::tag::{dec_digits, spec_to_tag, to_prefixed_tag, str_chars, chars_string};
use crate::text::{spec_join, spec_parent, spec_starts_with, push_chars, push_str_chars, starts_with_chars};

/// One exercise package: its ordinal within its unit, its name, its
/// canonical source directory and its include patterns.
pub struct ExercisePackage {
    pub index: usize,
    pub name: String,
    pub path: String,
    pub includes: Vec<String>,
}

/// The exercises of one unit.
pub struct UnitExercises {
    pub index: usize,
    pub name: String,
    pub exercises: Vec<ExercisePackage>,
}

/// The exercises of one module.
pub struct ModuleExercises {
    pub index: usize,
    pub name: String,
    pub unit_exercises: Vec<UnitExercises>,
}

/// The whole exercise target model.
pub struct ExerciseCollection {
    pub module_exercises: Vec<ModuleExercises>,
}

/// Spec-level model of an exercise package.
pub ghost struct ExPackM {
    pub index: int,
    pub name: Seq<char>,
    pub path: Seq<char>,
    pub includes: Seq<Seq<char>>,
}

/// Spec-level model of a unit's exercises.
pub ghost struct UnitExM {
    pub index: int,
    pub name: Seq<char>,
    pub exercises: Seq<ExPackM>,
}

/// Spec-level model of a module's exercises.
pub ghost struct ModExM {
    pub index: int,
    pub name: Seq<char>,
    pub unit_exercises: Seq<UnitExM>,
}

impl View for ExercisePackage {
    type V = ExPackM;

    open spec fn view(&self) -> ExPackM {
        ExPackM {
            index: self.index as int,
            name: self.name@,
            path: self.path@,
            includes: self.includes.deep_view(),
        }
    }
}

impl View for UnitExercises {
    type V = UnitExM;

    open spec fn view(&self) -> UnitExM {
        UnitExM {
            index: self.index as int,
            name: self.name@,
            exercises: self.exercises@.map_values(|e: ExercisePackage| e@),
        }
    }
}

impl View for ModuleExercises {
    type V = ModExM;

    open spec fn view(&self) -> ModExM {
        ModExM {
            index: self.index as int,
            name: self.name@,
            unit_exercises: self.unit_exercises@.map_values(|u: UnitExercises| u@),
        }
    }
}

impl View for ExerciseCollection {
    type V = Seq<ModExM>;

    open spec fn view(&self) -> Seq<ModExM> {
        self.module_exercises@.map_values(|m: ModuleExercises| m@)
    }
}

/// Builds an `ExerciseCollection` during the tree traversal.
pub struct ExerciseCollectionBuilder {
    pub collection: ExerciseCollection,
}

/// Builds the exercises of one module.
pub struct ModuleExercisesBuilder {
    pub module_exercises: ModuleExercises,
}

/// Builds the exercises of one unit.
pub struct UnitExercisesBuilder {
    pub unit_exercises: UnitExercises,
}

impl ExerciseCollection {
    /// Starts an empty collection.
    pub fn builder() -> (b: ExerciseCollectionBuilder)
        ensures
            b.collection@ == Seq::<ModExM>::empty(),
    {
        let b = ExerciseCollectionBuilder {
            collection: ExerciseCollection { module_exercises: Vec::new() },
        };
        proof {
            assert(b.collection@ =~= Seq::<ModExM>::empty());
        }
        b
    }
}

impl ExerciseCollectionBuilder {
    /// Opens the exercise group of one module; `add` on the result closes
    /// it back into this builder.
    pub fn module(&self, name: &String, index: usize) -> (m: ModuleExercisesBuilder)
        ensures
            m.module_exercises@ == (ModExM {
                index: index as int,
                name: name@,
                unit_exercises: Seq::empty(),
            }),
    {
        let m = ModuleExercisesBuilder {
            module_exercises: ModuleExercises {
                index,
                name: name.clone(),
                unit_exercises: Vec::new(),
            },
        };
        proof {
            assert(m.module_exercises@.unit_exercises =~= Seq::<UnitExM>::empty());
        }
        m
    }

    /// Finishes the collection.
    pub fn build(self) -> (c: ExerciseCollection)
        ensures
            c@ == self.collection@,
    {
        self.collection
    }
}

impl ModuleExercisesBuilder {
    /// Opens the exercise group of one unit.
    pub fn unit(&self, name: &String, index: usize) -> (u: UnitExercisesBuilder)
        ensures
            u.unit_exercises@ == (UnitExM {
                index: index as int,
                name: name@,
                exercises: Seq::empty(),
            }),
    {
        let u = UnitExercisesBuilder {
            unit_exercises: UnitExercises { index, name: name.clone(), exercises: Vec::new() },
        };
        proof {
            assert(u.unit_exercises@.exercises =~= Seq::<ExPackM>::empty());
        }
        u
    }

    /// Closes this module group into the collection.
    pub fn add(self, parent: &mut ExerciseCollectionBuilder)
        ensures
            final(parent).collection@ == old(parent).collection@.push(self.module_exercises@),
    {
        let m = self.module_exercises;
        let ghost mm = m@;
        parent.collection.module_exercises.push(m);
        proof {
            let f = |m: ModuleExercises| m@;
            assert(parent.collection@ =~= old(parent).collection@.push(mm));
        }
    }
}

impl UnitExercisesBuilder {
    /// Appends one exercise package; its ordinal is its 1-based position
    /// in this unit's cumulative numbering.
    pub fn package(&mut self, name: &String, path: &String, includes: &Vec<String>)
        requires
            old(self).unit_exercises.exercises@.len() < usize::MAX,
        ensures
            final(self).unit_exercises@ == (UnitExM {
                index: old(self).unit_exercises@.index,
                name: old(self).unit_exercises@.name,
                exercises: old(self).unit_exercises@.exercises.push(
                    ExPackM {
                        index: old(self).unit_exercises@.exercises.len() as int + 1,
                        name: name@,
                        path: path@,
                        includes: includes.deep_view(),
                    },
                ),
            }),
    {
        let index = self.unit_exercises.exercises.len() + 1;
        let includes2 = includes.clone();
        proof {
            assert(includes2.deep_view() =~= includes.deep_view());
        }
        self.unit_exercises.exercises.push(
            ExercisePackage { index, name: name.clone(), path: path.clone(), includes: includes2 },
        );
        proof {
            let f = |e: ExercisePackage| e@;
            assert(self.unit_exercises@.exercises =~= old(
                self,
            ).unit_exercises@.exercises.push(
                ExPackM {
                    index: old(self).unit_exercises@.exercises.len() as int + 1,
                    name: name@,
                    path: path@,
                    includes: includes.deep_view(),
                },
            ));
        }
    }

    /// Closes this unit group into its module group.
    pub fn add(self, parent: &mut ModuleExercisesBuilder)
        ensures
            final(parent).module_exercises@ == (ModExM {
                index: old(parent).module_exercises@.index,
                name: old(parent).module_exercises@.name,
                unit_exercises: old(parent).module_exercises@.unit_exercises.push(
                    self.unit_exercises@,
                ),
            }),
    {
        let u = self.unit_exercises;
        let ghost um = u@;
        parent.module_exercises.unit_exercises.push(u);
        proof {
            assert(parent.module_exercises@.unit_exercises =~= old(
                parent,
            ).module_exercises@.unit_exercises.push(um));
        }
    }
}

/// Rendering the exercise tree failed: an include pattern did not parse,
/// or the pattern set could not be compiled.
#[derive(Debug)]
pub enum RenderExercisesError {
    Pattern(String),
    SetBuild,
}

/// Spec-level model of an exercise-render error.
pub ghost struct ExErrM {
    pub pattern: Option<Seq<char>>,
}

/// The model of an exercise-render error value.
pub open spec fn exerr_model(e: &RenderExercisesError) -> ExErrM {
    match e {
        RenderExercisesError::Pattern(p) => ExErrM { pattern: Some(p@) },
        RenderExercisesError::SetBuild => ExErrM { pattern: None },
    }
}

/// A mapping entry from an exercise's canonical source directory to its
/// output directory, relative to the output root.
pub struct PathPair {
    pub from: String,
    pub to: String,
}

impl View for PathPair {
    type V = (Seq<char>, Seq<char>);

    open spec fn view(&self) -> (Seq<char>, Seq<char>) {
        (self.from@, self.to@)
    }
}

impl DeepView for PathPair {
    type V = (Seq<char>, Seq<char>);

    open spec fn deep_view(&self) -> (Seq<char>, Seq<char>) {
        self.view()
    }
}

#[verifier::external_type_specification]
#[verifier::external_body]
pub struct ExGlob(globset::Glob);

#[verifier::external_type_specification]
#[verifier::external_body]
pub struct ExGlobSet(globset::GlobSet);

#[verifier::external_type_specification]
#[verifier::external_body]
pub struct ExGlobSetBuilder(globset::GlobSetBuilder);

#[verifier::external_type_specification]
#[verifier::external_body]
pub struct ExGlobError(globset::Error);

/// Whether a glob pattern is well-formed, as globset::Glob::new decides.
pub uninterp spec fn glob_pattern_ok(p: Seq<char>) -> bool;

/// The pattern a compiled glob was built from.
pub uninterp spec fn glob_of(g: &globset::Glob) -> Seq<char>;

/// The patterns a glob-set builder holds, in insertion order.
pub uninterp spec fn builder_globs(b: &globset::GlobSetBuilder) -> Seq<Seq<char>>;

/// The patterns a built glob set holds.
pub uninterp spec fn globset_globs(s: &globset::GlobSet) -> Seq<Seq<char>>;

/// Whether a path matches at least one of the patterns, as
/// globset::GlobSet::is_match decides; a function of the patterns and
/// the path alone.
pub uninterp spec fn glob_matches(patterns: Seq<Seq<char>>, path: Seq<char>) -> bool;

/// Whether compiling the patterns into a set succeeds, as
/// globset::GlobSetBuilder::build decides; a function of the patterns
/// alone.
pub uninterp spec fn globset_build_ok(patterns: Seq<Seq<char>>) -> bool;

/// Relies on globset::Glob::new: parses one glob pattern and fails
/// exactly on a malformed one.
#[verifier::external_body]
fn glob_new(p: &String) -> (r: Result<globset::Glob, globset::Error>)
    ensures
        r is Ok <==> glob_pattern_ok(p@),
        r matches Ok(g) ==> glob_of(&g) == p@,
{
    globset::Glob::new(p.as_str())
}

/// Relies on globset::GlobSetBuilder::new: starts with no patterns.
#[verifier::external_body]
fn globset_builder() -> (b: globset::GlobSetBuilder)
    ensures
        builder_globs(&b) == Seq::<Seq<char>>::empty(),
{
    globset::GlobSetBuilder::new()
}

/// Relies on globset::GlobSetBuilder::add: appends one pattern.
#[verifier::external_body]
fn globset_add(b: &mut globset::GlobSetBuilder, g: globset::Glob)
    ensures
        builder_globs(final(b)) == builder_globs(old(b)).push(glob_of(&g)),
{
    b.add(g);
}

/// Relies on globset::GlobSetBuilder::build: compiles the patterns in
/// insertion order, succeeding or failing deterministically in them.
#[verifier::external_body]
fn globset_build(b: &globset::GlobSetBuilder) -> (r: Result<globset::GlobSet, globset::Error>)
    ensures
        r is Ok <==> globset_build_ok(builder_globs(b)),
        r matches Ok(s) ==> globset_globs(&s) == builder_globs(b),
{
    b.build()
}

/// Relies on globset::GlobSet::is_match: deterministic in the patterns
/// and the path.
#[verifier::external_body]
fn globset_is_match(s: &globset::GlobSet, path: &String) -> (r: bool)
    ensures
        r == glob_matches(globset_globs(s), path@),
{
    s.is_match(path.as_str())
}

/// The tag of a name prefixed with an ordinal, used as a directory name.
pub open spec fn spec_prefixed_tag(name: Seq<char>, idx: int) -> Seq<char> {
    spec_to_tag(dec_digits(idx) + seq!['-'] + name)
}

/// Each include pattern of an exercise, joined under its source
/// directory.
pub open spec fn spec_patterns(path: Seq<char>, includes: Seq<Seq<char>>) -> Seq<Seq<char>> {
    includes.map_values(|inc: Seq<char>| spec_join(path, inc))
}

/// The first include whose joined pattern is malformed, if any.
pub open spec fn first_bad_include(path: Seq<char>, includes: Seq<Seq<char>>) -> Option<Seq<char>>
    decreases includes.len(),
{
    if includes.len() == 0 {
        None
    } else if !glob_pattern_ok(spec_join(path, includes[0])) {
        Some(includes[0])
    } else {
        first_bad_include(path, includes.drop_first())
    }
}

/// The copy operations for the files of one exercise: every listed file
/// matching at least one include pattern is copied to the same relative
/// position under the exercise's output directory, with its parent
/// directory created first.
pub open spec fn spec_copy_ops(
    files: Seq<Seq<char>>,
    src_dir: Seq<char>,
    out_dir: Seq<char>,
    patterns: Seq<Seq<char>>,
) -> Seq<FileOpM>
    decreases files.len(),
{
    if files.len() == 0 {
        Seq::empty()
    } else {
        let rest = spec_copy_ops(files.drop_first(), src_dir, out_dir, patterns);
        let f = files[0];
        if glob_matches(patterns, f) && spec_starts_with(f, src_dir + seq!['/']) {
            let dest = spec_join(out_dir, f.skip(src_dir.len() + 1 as int));
            seq![op_dir(spec_parent(dest)), op_copy(f, dest)] + rest
        } else {
            rest
        }
    }
}

/// One exercise rendered: its output directory is created, then the
/// selected files are copied, and the path mapping records where it
/// went.
pub open spec fn spec_render_package(
    e: ExPackM,
    unit_dir: Seq<char>,
    listings: Seq<ListingM>,
) -> Result<(Seq<FileOpM>, (Seq<char>, Seq<char>)), ExErrM> {
    let out_dir = spec_join(unit_dir, spec_prefixed_tag(e.name, e.index));
    match first_bad_include(e.path, e.includes) {
        Some(inc) => Err(ExErrM { pattern: Some(inc) }),
        None => if !globset_build_ok(spec_patterns(e.path, e.includes)) {
            Err(ExErrM { pattern: None })
        } else {
            Ok(
                (
                    seq![op_dir(out_dir)] + spec_copy_ops(
                        listed_files(listings, e.path),
                        e.path,
                        out_dir,
                        spec_patterns(e.path, e.includes),
                    ),
                    (e.path, out_dir),
                ),
            )
        },
    }
}

/// Renders one exercise package into ops and its path-mapping entry.
fn render_package(
    e: &ExercisePackage,
    unit_dir: &String,
    listings: &Vec<DirListing>,
) -> (r: Result<(Vec<FileOp>, PathPair), RenderExercisesError>)
    ensures
        (match r {
            Ok(rv) => Ok::<(Seq<FileOpM>, (Seq<char>, Seq<char>)), ExErrM>(
                (rv.0.deep_view(), rv.1@),
            ),
            Err(ee) => Err(exerr_model(&ee)),
        }) == spec_render_package(e@, unit_dir@, listings.deep_view()),
{
    let ghost lv = listings.deep_view();
    let ghost pats = spec_patterns(e@.path, e@.includes);
    let tagname = to_prefixed_tag(e.name.as_str(), e.index);
    let out_dir = join_strings(unit_dir, &tagname);
    let mut b = globset_builder();
    let mut i: usize = 0;
    proof {
        assert(e@.includes.skip(0) =~= e@.includes);
        assert(pats.take(0) =~= Seq::<Seq<char>>::empty());
    }
    while i < e.includes.len()
        invariant
            i <= e.includes@.len(),
            pats == spec_patterns(e@.path, e@.includes),
            pats.len() == e.includes@.len(),
            builder_globs(&b) =~= pats.take(i as int),
            first_bad_include(e@.path, e@.includes) == first_bad_include(
                e@.path,
                e@.includes.skip(i as int),
            ),
        decreases e.includes@.len() - i,
    {
        proof {
            assert(e@.includes.skip(i as int)[0] == e@.includes[i as int]);
            assert(e@.includes[i as int] == e.includes@[i as int]@);
            assert(e@.includes.skip(i as int).drop_first() =~= e@.includes.skip(i as int + 1));
            assert(pats[i as int] == spec_join(e@.path, e@.includes[i as int]));
        }
        let joined = join_strings(&e.path, &e.includes[i]);
        match glob_new(&joined) {
            Ok(g) => {
                globset_add(&mut b, g);
                proof {
                    assert(pats.take(i as int + 1) =~= pats.take(i as int).push(pats[i as int]));
                }
                i += 1;
            },
            Err(_) => {
                return Err(RenderExercisesError::Pattern(e.includes[i].clone()));
            },
        }
    }
    proof {
        assert(e@.includes.skip(e@.includes.len() as int) =~= Seq::<Seq<char>>::empty());
        assert(first_bad_include(e@.path, e@.includes) is None);
        assert(pats.take(pats.len() as int) =~= pats);
    }
    let set = match globset_build(&b) {
        Ok(s) => s,
        Err(_) => {
            return Err(RenderExercisesError::SetBuild);
        },
    };
    let files = listed_files_exec(listings, &e.path);
    let ghost fv = listed_files(lv, e@.path);
    let mut ops: Vec<FileOp> = Vec::new();
    ops.push(FileOp::Dir(out_dir.clone()));
    let mut prefix_chars = str_chars(e.path.as_str());
    prefix_chars.push('/');
    let mut j: usize = 0;
    proof {
        assert(fv.skip(0) =~= fv);
        assert(ops.deep_view() =~= seq![op_dir(out_dir@)]);
        assert(prefix_chars@ =~= e@.path + seq!['/']);
    }
    while j < files.len()
        invariant
            j <= files@.len(),
            fv == files.deep_view(),
            fv.len() == files@.len(),
            globset_globs(&set) == pats,
            prefix_chars@ == e@.path + seq!['/'],
            out_dir@ == spec_join(unit_dir@, spec_prefixed_tag(e@.name, e@.index)),
            seq![op_dir(out_dir@)] + spec_copy_ops(fv, e@.path, out_dir@, pats)
                =~= ops.deep_view() + spec_copy_ops(fv.skip(j as int), e@.path, out_dir@, pats),
        decreases files@.len() - j,
    {
        let ghost suffix = fv.skip(j as int);
        proof {
            assert(suffix[0] == fv[j as int]);
            assert(fv[j as int] == files@[j as int]@);
            assert(suffix.drop_first() =~= fv.skip(j as int + 1));
        }
        let matched = globset_is_match(&set, &files[j]);
        let fchars = str_chars(files[j].as_str());
        let prefixed = starts_with_chars(&fchars, &prefix_chars);
        if matched && prefixed {
            // The file's path relative to the source directory.
            let mut rel: Vec<char> = Vec::new();
            let mut k: usize = prefix_chars.len();
            while k < fchars.len()
                invariant
                    prefix_chars@.len() <= k <= fchars@.len(),
                    rel@ =~= fchars@.subrange(prefix_chars@.len() as int, k as int),
                decreases fchars@.len() - k,
            {
                rel.push(fchars[k]);
                proof {
                    assert(fchars@.subrange(prefix_chars@.len() as int, k as int + 1)
                        =~= fchars@.subrange(prefix_chars@.len() as int, k as int).push(
                        fchars@[k as int],
                    ));
                }
                k += 1;
            }
            proof {
                assert(rel@ =~= fv[j as int].skip(e@.path.len() + 1 as int));
            }
            let rel_s = chars_string(&rel);
            let dest = join_strings(&out_dir, &rel_s);
            let destdir = parent_string(&dest);
            let ghost ops0 = ops.deep_view();
            ops.push(FileOp::Dir(destdir));
            ops.push(FileOp::Copy(files[j].clone(), dest));
            proof {
                let dv2 = spec_join(out_dir@, fv[j as int].skip(e@.path.len() + 1 as int));
                assert(ops.deep_view() =~= ops0 + seq![
                    op_dir(spec_parent(dv2)),
                    op_copy(fv[j as int], dv2),
                ]);
            }
        }
        j += 1;
        proof {
            assert(seq![op_dir(out_dir@)] + spec_copy_ops(fv, e@.path, out_dir@, pats)
                =~= ops.deep_view() + spec_copy_ops(fv.skip(j as int), e@.path, out_dir@, pats));
        }
    }
    proof {
        assert(fv.skip(fv.len() as int) =~= Seq::<Seq<char>>::empty());
        assert(spec_copy_ops(Seq::empty(), e@.path, out_dir@, pats) =~= Seq::<FileOpM>::empty());
        assert(ops.deep_view() + Seq::<FileOpM>::empty() =~= ops.deep_view());
        assert(ops.deep_view() =~= seq![op_dir(out_dir@)] + spec_copy_ops(
            fv,
            e@.path,
            out_dir@,
            pats,
        ));
    }
    let pair = PathPair { from: e.path.clone(), to: out_dir };
    Ok((ops, pair))
}

/// The exercise packages of one unit rendered in order.
pub open spec fn spec_render_packages(
    exs: Seq<ExPackM>,
    unit_dir: Seq<char>,
    listings: Seq<ListingM>,
) -> Result<(Seq<FileOpM>, Seq<(Seq<char>, Seq<char>)>), ExErrM>
    decreases exs.len(),
{
    if exs.len() == 0 {
        Ok((Seq::empty(), Seq::empty()))
    } else {
        match spec_render_package(exs[0], unit_dir, listings) {
            Err(e) => Err(e),
            Ok(hd) => match spec_render_packages(exs.drop_first(), unit_dir, listings) {
                Err(e) => Err(e),
                Ok(rest) => Ok((hd.0 + rest.0, seq![hd.1] + rest.1)),
            },
        }
    }
}

fn render_packages_from(
    exs: &Vec<ExercisePackage>,
    i: usize,
    unit_dir: &String,
    listings: &Vec<DirListing>,
) -> (r: Result<(Vec<FileOp>, Vec<PathPair>), RenderExercisesError>)
    requires
        i <= exs@.len(),
    ensures
        (match r {
            Ok(rv) => Ok::<(Seq<FileOpM>, Seq<(Seq<char>, Seq<char>)>), ExErrM>(
                (rv.0.deep_view(), rv.1.deep_view()),
            ),
            Err(ee) => Err(exerr_model(&ee)),
        }) == spec_render_packages(
            exs@.map_values(|e: ExercisePackage| e@).skip(i as int),
            unit_dir@,
            listings.deep_view(),
        ),
    decreases exs@.len() - i,
{
    let ghost em = exs@.map_values(|e: ExercisePackage| e@);
    let ghost suffix = em.skip(i as int);
    if i == exs.len() {
        let r: (Vec<FileOp>, Vec<PathPair>) = (Vec::new(), Vec::new());
        proof {
            assert(suffix =~= Seq::<ExPackM>::empty());
            assert(r.0.deep_view() =~= Seq::<FileOpM>::empty());
            assert(r.1.deep_view() =~= Seq::<(Seq<char>, Seq<char>)>::empty());
        }
        return Ok(r);
    }
    proof {
        assert(suffix[0] == em[i as int]);
        assert(em[i as int] == exs@[i as int]@);
        assert(suffix.drop_first() =~= em.skip(i as int + 1));
    }
    match render_package(&exs[i], unit_dir, listings) {
        Err(e) => Err(e),
        Ok(hd) => {
            match render_packages_from(exs, i + 1, unit_dir, listings) {
                Err(e) => Err(e),
                Ok(rest) => {
                    let (mut ops, pair) = hd;
                    let (mut rops, mut rpairs) = rest;
                    let ghost ops0 = ops.deep_view();
                    let ghost rops0 = rops.deep_view();
                    ops.append(&mut rops);
                    let mut pairs: Vec<PathPair> = Vec::new();
                    let ghost pair0 = pair@;
                    pairs.push(pair);
                    let ghost rpairs0 = rpairs.deep_view();
                    pairs.append(&mut rpairs);
                    proof {
                        assert(ops.deep_view() =~= ops0 + rops0);
                        assert(pairs.deep_view() =~= seq![pair0] + rpairs0);
                    }
                    Ok((ops, pairs))
                },
            }
        },
    }
}

/// One unit's exercise group rendered: the unit directory is created and
/// its packages rendered inside it.
pub open spec fn spec_render_unit_ex(
    u: UnitExM,
    module_dir: Seq<char>,
    listings: Seq<ListingM>,
) -> Result<(Seq<FileOpM>, Seq<(Seq<char>, Seq<char>)>), ExErrM> {
    let unit_dir = spec_join(module_dir, spec_prefixed_tag(u.name, u.index));
    match spec_render_packages(u.exercises, unit_dir, listings) {
        Err(e) => Err(e),
        Ok(v) => Ok((seq![op_dir(unit_dir)] + v.0, v.1)),
    }
}

/// The unit groups of one module rendered in order.
pub open spec fn spec_render_units_ex(
    us: Seq<UnitExM>,
    module_dir: Seq<char>,
    listings: Seq<ListingM>,
) -> Result<(Seq<FileOpM>, Seq<(Seq<char>, Seq<char>)>), ExErrM>
    decreases us.len(),
{
    if us.len() == 0 {
        Ok((Seq::empty(), Seq::empty()))
    } else {
        match spec_render_unit_ex(us[0], module_dir, listings) {
            Err(e) => Err(e),
            Ok(hd) => match spec_render_units_ex(us.drop_first(), module_dir, listings) {
                Err(e) => Err(e),
                Ok(rest) => Ok((hd.0 + rest.0, hd.1 + rest.1)),
            },
        }
    }
}

fn render_units_ex_from(
    us: &Vec<UnitExercises>,
    i: usize,
    module_dir: &String,
    listings: &Vec<DirListing>,
) -> (r: Result<(Vec<FileOp>, Vec<PathPair>), RenderExercisesError>)
    requires
        i <= us@.len(),
    ensures
        (match r {
            Ok(rv) => Ok::<(Seq<FileOpM>, Seq<(Seq<char>, Seq<char>)>), ExErrM>(
                (rv.0.deep_view(), rv.1.deep_view()),
            ),
            Err(ee) => Err(exerr_model(&ee)),
        }) == spec_render_units_ex(
            us@.map_values(|u: UnitExercises| u@).skip(i as int),
            module_dir@,
            listings.deep_view(),
        ),
    decreases us@.len() - i,
{
    let ghost um = us@.map_values(|u: UnitExercises| u@);
    let ghost suffix = um.skip(i as int);
    if i == us.len() {
        let r: (Vec<FileOp>, Vec<PathPair>) = (Vec::new(), Vec::new());
        proof {
            assert(suffix =~= Seq::<UnitExM>::empty());
            assert(r.0.deep_view() =~= Seq::<FileOpM>::empty());
            assert(r.1.deep_view() =~= Seq::<(Seq<char>, Seq<char>)>::empty());
        }
        return Ok(r);
    }
    proof {
        assert(suffix[0] == um[i as int]);
        assert(um[i as int] == us@[i as int]@);
        assert(suffix.drop_first() =~= um.skip(i as int + 1));
    }
    let u = &us[i];
    let tagname = to_prefixed_tag(u.name.as_str(), u.index);
    let unit_dir = join_strings(module_dir, &tagname);
    match render_packages_from(&u.exercises, 0, &unit_dir, listings) {
        Err(e) => {
            proof {
                assert(u.exercises@.map_values(|e: ExercisePackage| e@).skip(0)
                    =~= u@.exercises);
            }
            Err(e)
        },
        Ok(hd) => {
            proof {
                assert(u.exercises@.map_values(|e: ExercisePackage| e@).skip(0)
                    =~= u@.exercises);
            }
            match render_units_ex_from(us, i + 1, module_dir, listings) {
                Err(e) => Err(e),
                Ok(rest) => {
                    let (hops, mut hpairs) = hd;
                    let (mut rops, mut rpairs) = rest;
                    let mut ops: Vec<FileOp> = Vec::new();
                    ops.push(FileOp::Dir(unit_dir.clone()));
                    let ghost hops0 = hops.deep_view();
                    let ghost rops0 = rops.deep_view();
                    let ghost hpairs0 = hpairs.deep_view();
                    let ghost rpairs0 = rpairs.deep_view();
                    let mut hops = hops;
                    ops.append(&mut hops);
                    ops.append(&mut rops);
                    let mut pairs: Vec<PathPair> = Vec::new();
                    pairs.append(&mut hpairs);
                    pairs.append(&mut rpairs);
                    proof {
                        assert(ops.deep_view() =~= (seq![op_dir(unit_dir@)] + hops0) + rops0);
                        assert(pairs.deep_view() =~= hpairs0 + rpairs0);
                    }
                    Ok((ops, pairs))
                },
            }
        },
    }
}

/// One module's exercise group rendered inside the exercise root.
pub open spec fn spec_render_module_ex(
    m: ModExM,
    root: Seq<char>,
    listings: Seq<ListingM>,
) -> Result<(Seq<FileOpM>, Seq<(Seq<char>, Seq<char>)>), ExErrM> {
    let module_dir = spec_join(root, spec_prefixed_tag(m.name, m.index));
    match spec_render_units_ex(m.unit_exercises, module_dir, listings) {
        Err(e) => Err(e),
        Ok(v) => Ok((seq![op_dir(module_dir)] + v.0, v.1)),
    }
}

/// The module groups rendered in order.
pub open spec fn spec_render_modules_ex(
    ms: Seq<ModExM>,
    root: Seq<char>,
    listings: Seq<ListingM>,
) -> Result<(Seq<FileOpM>, Seq<(Seq<char>, Seq<char>)>), ExErrM>
    decreases ms.len(),
{
    if ms.len() == 0 {
        Ok((Seq::empty(), Seq::empty()))
    } else {
        match spec_render_module_ex(ms[0], root, listings) {
            Err(e) => Err(e),
            Ok(hd) => match spec_render_modules_ex(ms.drop_first(), root, listings) {
                Err(e) => Err(e),
                Ok(rest) => Ok((hd.0 + rest.0, hd.1 + rest.1)),
            },
        }
    }
}

fn render_modules_ex_from(
    ms: &Vec<ModuleExercises>,
    i: usize,
    root: &String,
    listings: &Vec<DirListing>,
) -> (r: Result<(Vec<FileOp>, Vec<PathPair>), RenderExercisesError>)
    requires
        i <= ms@.len(),
    ensures
        (match r {
            Ok(rv) => Ok::<(Seq<FileOpM>, Seq<(Seq<char>, Seq<char>)>), ExErrM>(
                (rv.0.deep_view(), rv.1.deep_view()),
            ),
            Err(ee) => Err(exerr_model(&ee)),
        }) == spec_render_modules_ex(
            ms@.map_values(|m: ModuleExercises| m@).skip(i as int),
            root@,
            listings.deep_view(),
        ),
    decreases ms@.len() - i,
{
    let ghost mm = ms@.map_values(|m: ModuleExercises| m@);
    let ghost suffix = mm.skip(i as int);
    if i == ms.len() {
        let r: (Vec<FileOp>, Vec<PathPair>) = (Vec::new(), Vec::new());
        proof {
            assert(suffix =~= Seq::<ModExM>::empty());
            assert(r.0.deep_view() =~= Seq::<FileOpM>::empty());
            assert(r.1.deep_view() =~= Seq::<(Seq<char>, Seq<char>)>::empty());
        }
        return Ok(r);
    }
    proof {
        assert(suffix[0] == mm[i as int]);
        assert(mm[i as int] == ms@[i as int]@);
        assert(suffix.drop_first() =~= mm.skip(i as int + 1));
    }
    let m = &ms[i];
    let tagname = to_prefixed_tag(m.name.as_str(), m.index);
    let module_dir = join_strings(root, &tagname);
    match render_units_ex_from(&m.unit_exercises, 0, &module_dir, listings) {
        Err(e) => {
            proof {
                assert(m.unit_exercises@.map_values(|u: UnitExercises| u@).skip(0)
                    =~= m@.unit_exercises);
            }
            Err(e)
        },
        Ok(hd) => {
            proof {
                assert(m.unit_exercises@.map_values(|u: UnitExercises| u@).skip(0)
                    =~= m@.unit_exercises);
            }
            match render_modules_ex_from(ms, i + 1, root, listings) {
                Err(e) => Err(e),
                Ok(rest) => {
                    let (mut hops, mut hpairs) = hd;
                    let (mut rops, mut rpairs) = rest;
                    let mut ops: Vec<FileOp> = Vec::new();
                    ops.push(FileOp::Dir(module_dir.clone()));
                    let ghost hops0 = hops.deep_view();
                    let ghost rops0 = rops.deep_view();
                    let ghost hpairs0 = hpairs.deep_view();
                    let ghost rpairs0 = rpairs.deep_view();
                    ops.append(&mut hops);
                    ops.append(&mut rops);
                    let mut pairs: Vec<PathPair> = Vec::new();
                    pairs.append(&mut hpairs);
                    pairs.append(&mut rpairs);
                    proof {
                        assert(ops.deep_view() =~= (seq![op_dir(module_dir@)] + hops0) + rops0);
                        assert(pairs.deep_view() =~= hpairs0 + rpairs0);
                    }
                    Ok((ops, pairs))
                },
            }
        },
    }
}

/// The whole exercise tree rendered under the `exercises` root, paths
/// relative to the output root: one directory per module, unit and
/// exercise (each named by its ordinal-prefixed tag), every included
/// file copied, and the mapping from each exercise's source directory to
/// its output directory.
pub open spec fn spec_render_exercises(
    coll: Seq<ModExM>,
    listings: Seq<ListingM>,
) -> Result<(Seq<FileOpM>, Seq<(Seq<char>, Seq<char>)>), ExErrM> {
    match spec_render_modules_ex(coll, "exercises"@, listings) {
        Err(e) => Err(e),
        Ok(v) => Ok((seq![op_dir("exercises"@)] + v.0, v.1)),
    }
}

impl ExerciseCollection {
    /// Plans the exercise render: the directory tree, the file copies
    /// selected by each exercise's include patterns, and the mapping
    /// from source directories to output directories.  `listings` holds
    /// the files found under each exercise's source directory.
    pub fn render(&self, listings: &Vec<DirListing>) -> (r: Result<
        (Vec<FileOp>, Vec<PathPair>),
        RenderExercisesError,
    >)
        ensures
            (match r {
                Ok(rv) => Ok::<(Seq<FileOpM>, Seq<(Seq<char>, Seq<char>)>), ExErrM>(
                    (rv.0.deep_view(), rv.1.deep_view()),
                ),
                Err(ee) => Err(exerr_model(&ee)),
            }) == spec_render_exercises(self@, listings.deep_view()),
    {
        let mut rootc: Vec<char> = Vec::new();
        push_str_chars(&mut rootc, "exercises");
        let root = chars_string(&rootc);
        match render_modules_ex_from(&self.module_exercises, 0, &root, listings) {
            Err(e) => {
                proof {
                    assert(self.module_exercises@.map_values(|m: ModuleExercises| m@).skip(0)
                        =~= self@);
                }
                Err(e)
            },
            Ok(v) => {
                proof {
                    assert(self.module_exercises@.map_values(|m: ModuleExercises| m@).skip(0)
                        =~= self@);
                }
                let (mut vops, pairs) = v;
                let mut ops: Vec<FileOp> = Vec::new();
                ops.push(FileOp::Dir(root));
                let ghost vops0 = vops.deep_view();
                ops.append(&mut vops);
                proof {
                    assert(ops.deep_view() =~= seq![op_dir("exercises"@)] + vops0);
                }
                Ok((ops, pairs))
            },
        }
    }
}

} // verus!
