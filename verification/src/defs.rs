//! Raw definition records, as read from track, module and topic definition
//! files, together with their spec-level models and the error types of the
//! loading and resolution phases.
//!
//! All paths inside a raw record are as written in the file: relative to
//! the directory of the file that holds the record.

use vstd::prelude::*;

verus! {

/// The root definition: a named track referencing its module definition
/// files by path.
pub struct TrackDef {
    pub name: String,
    pub modules: Vec<String>,
}

/// A module definition: named, described, with its units inline.
pub struct ModuleDef {
    pub name: String,
    pub description: String,
    pub units: Vec<UnitDef>,
}

/// A unit definition: named, optionally backed by a slide template, and
/// referencing its topic definition files by path.
pub struct UnitDef {
    pub name: String,
    pub template: Option<String>,
    pub topics: Vec<String>,
}

/// A topic definition: content document path, bullet lists and inline
/// exercise definitions.
pub struct TopicDef {
    pub name: String,
    pub exercises: Vec<ExerciseDef>,
    pub summary: Vec<String>,
    pub objectives: Vec<String>,
    pub content: String,
    pub further_reading: Vec<String>,
}

/// An exercise definition: source directory, description document and
/// include patterns.
pub struct ExerciseDef {
    pub name: String,
    pub path: String,
    pub description: String,
    pub includes: Vec<String>,
}

/// Spec-level model of `TrackDef`.
pub ghost struct TrackDefM {
    pub name: Seq<char>,
    pub modules: Seq<Seq<char>>,
}

/// Spec-level model of `ModuleDef`.
pub ghost struct ModuleDefM {
    pub name: Seq<char>,
    pub description: Seq<char>,
    pub units: Seq<UnitDefM>,
}

/// Spec-level model of `UnitDef`.
pub ghost struct UnitDefM {
    pub name: Seq<char>,
    pub template: Option<Seq<char>>,
    pub topics: Seq<Seq<char>>,
}

/// Spec-level model of `TopicDef`.
pub ghost struct TopicDefM {
    pub name: Seq<char>,
    pub exercises: Seq<ExerciseDefM>,
    pub summary: Seq<Seq<char>>,
    pub objectives: Seq<Seq<char>>,
    pub content: Seq<char>,
    pub further_reading: Seq<Seq<char>>,
}

/// Spec-level model of `ExerciseDef`.
pub ghost struct ExerciseDefM {
    pub name: Seq<char>,
    pub path: Seq<char>,
    pub description: Seq<char>,
    pub includes: Seq<Seq<char>>,
}

impl View for TrackDef {
    type V = TrackDefM;

    open spec fn view(&self) -> TrackDefM {
        TrackDefM { name: self.name@, modules: self.modules.deep_view() }
    }
}

impl View for UnitDef {
    type V = UnitDefM;

    open spec fn view(&self) -> UnitDefM {
        UnitDefM {
            name: self.name@,
            template: match self.template {
                Some(t) => Some(t@),
                None => None,
            },
            topics: self.topics.deep_view(),
        }
    }
}

impl View for ModuleDef {
    type V = ModuleDefM;

    open spec fn view(&self) -> ModuleDefM {
        ModuleDefM {
            name: self.name@,
            description: self.description@,
            units: self.units@.map_values(|u: UnitDef| u@),
        }
    }
}

impl View for ExerciseDef {
    type V = ExerciseDefM;

    open spec fn view(&self) -> ExerciseDefM {
        ExerciseDefM {
            name: self.name@,
            path: self.path@,
            description: self.description@,
            includes: self.includes.deep_view(),
        }
    }
}

impl View for TopicDef {
    type V = TopicDefM;

    open spec fn view(&self) -> TopicDefM {
        TopicDefM {
            name: self.name@,
            exercises: self.exercises@.map_values(|e: ExerciseDef| e@),
            summary: self.summary.deep_view(),
            objectives: self.objectives.deep_view(),
            content: self.content@,
            further_reading: self.further_reading.deep_view(),
        }
    }
}

/// A loaded record paired with the canonical path it was read from.
pub struct PathTo<T> {
    pub data: T,
    pub path: String,
}

/// A resolved entity paired with its 1-based ordinal among its siblings.
#[derive(Debug)]
pub struct Indexed<T> {
    pub data: T,
    pub index: usize,
}

/// The record kinds read from definition files.
#[derive(Clone, Copy, Debug, PartialEq, Eq, Structural)]
pub enum ItemKind {
    Track,
    Module,
    Topic,
}

/// A definition file could not be loaded: it does not exist, cannot be
/// read, or does not parse as the expected record kind.
#[derive(Debug)]
pub struct LoadError {
    pub kind: ItemKind,
    pub path: String,
}

/// Resolution of the track tree failed: either a referenced definition
/// file could not be loaded, or a path referenced from a record does not
/// lead to an existing file.
#[derive(Debug)]
pub enum HydrateTrackError {
    Load(LoadError),
    Missing(String),
}

impl HydrateTrackError {
    /// The offending path the error names.
    pub open spec fn spec_path(&self) -> Seq<char> {
        match self {
            HydrateTrackError::Load(e) => e.path@,
            HydrateTrackError::Missing(p) => p@,
        }
    }

    /// The offending path the error names.
    pub fn path(&self) -> (r: &String)
        ensures
            r@ == self.spec_path(),
    {
        match self {
            HydrateTrackError::Load(e) => &e.path,
            HydrateTrackError::Missing(p) => p,
        }
    }
}

/// The output directory cannot be used as it stands.
#[derive(Debug, PartialEq, Eq, Structural)]
pub enum OutputError {
    /// The destination is not empty and clearing it was not requested.
    NotEmpty,
}

/// The default description document of an exercise.
pub fn exercise_description_md() -> (r: String)
    ensures
        r@ == "description.md"@,
{
    let mut v: Vec<char> = Vec::new();
    crate::text::push_str_chars(&mut v, "description.md");
    crate::tag::chars_string(&v)
}

/// Whether a description path is the default one.
pub fn is_exercise_description_md(path: &String) -> (r: bool)
    ensures
        r == (path@ == "description.md"@),
{
    let d = exercise_description_md();
    let r = path.eq(&d);
    r
}

/// The default include patterns of an exercise: manifest, lock file and
/// all sources.
pub fn exercise_includes() -> (r: Vec<String>)
    ensures
        r@.len() == 3,
        r@[0]@ == "Cargo.toml"@,
        r@[1]@ == "Cargo.lock"@,
        r@[2]@ == "src/**/*"@,
{
    let mut v: Vec<String> = Vec::new();
    let mut c: Vec<char> = Vec::new();
    crate::text::push_str_chars(&mut c, "Cargo.toml");
    v.push(crate::tag::chars_string(&c));
    let mut c2: Vec<char> = Vec::new();
    crate::text::push_str_chars(&mut c2, "Cargo.lock");
    v.push(crate::tag::chars_string(&c2));
    let mut c3: Vec<char> = Vec::new();
    crate::text::push_str_chars(&mut c3, "src/**/*");
    v.push(crate::tag::chars_string(&c3));
    v
}

/// Whether an include list is the default one.
pub fn is_exercise_includes(includes: &Vec<String>) -> (r: bool)
    ensures
        r == (includes.deep_view() =~= seq!["Cargo.toml"@, "Cargo.lock"@, "src/**/*"@]),
{
    if includes.len() != 3 {
        proof {
            assert(includes.deep_view().len() == includes@.len());
        }
        return false;
    }
    let d = exercise_includes();
    let r0 = includes[0].eq(&d[0]);
    let r1 = includes[1].eq(&d[1]);
    let r2 = includes[2].eq(&d[2]);
    proof {
        assert(includes.deep_view().len() == 3);
        assert(includes.deep_view()[0] == includes@[0]@);
        assert(includes.deep_view()[1] == includes@[1]@);
        assert(includes.deep_view()[2] == includes@[2]@);
    }
    r0 && r1 && r2
}

/// The default content document of a topic.
pub fn topic_slides_md() -> (r: String)
    ensures
        r@ == "slides.md"@,
{
    let mut v: Vec<char> = Vec::new();
    crate::text::push_str_chars(&mut v, "slides.md");
    crate::tag::chars_string(&v)
}

/// Whether a content path is the default one.
pub fn is_topic_slides_md(path: &String) -> (r: bool)
    ensures
        r == (path@ == "slides.md"@),
{
    let d = topic_slides_md();
    let r = path.eq(&d);
    r
}

} // verus!
