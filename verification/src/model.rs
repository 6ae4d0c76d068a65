//! The resolved track tree: every entity owns its children, carries a
//! 1-based ordinal among its siblings, and stores only canonical paths
//! that were existence-checked at resolution time.  The tree is immutable
//! after construction; the renderers only read it.

use vstd::prelude::*;

verus! {

use crate::defs::Indexed;

/// A resolved exercise: canonical source directory and description
/// document, plus its include patterns.
#[derive(Debug)]
pub struct Exercise {
    pub name: String,
    pub path: String,
    pub description: String,
    pub includes: Vec<String>,
}

/// A resolved topic: canonical content document and discovered image
/// files, plus its bullet lists and exercises.
#[derive(Debug)]
pub struct Topic {
    pub name: String,
    pub exercises: Vec<Indexed<Exercise>>,
    pub summary: Vec<String>,
    pub objectives: Vec<String>,
    pub content: String,
    pub further_reading: Vec<String>,
    pub images: Vec<String>,
}

/// A resolved unit: canonical template document, if any, and its topics.
#[derive(Debug)]
pub struct Unit {
    pub name: String,
    pub template: Option<String>,
    pub topics: Vec<Indexed<Topic>>,
}

/// A resolved module and its units.
#[derive(Debug)]
pub struct Module {
    pub name: String,
    pub description: String,
    pub units: Vec<Indexed<Unit>>,
}

/// The resolved track: the root of the tree.
#[derive(Debug)]
pub struct Track {
    pub name: String,
    pub modules: Vec<Indexed<Module>>,
}

/// Spec-level model of a resolved exercise with its ordinal.
pub ghost struct ExerciseM {
    pub index: int,
    pub name: Seq<char>,
    pub path: Seq<char>,
    pub description: Seq<char>,
    pub includes: Seq<Seq<char>>,
}

/// Spec-level model of a resolved topic with its ordinal.
pub ghost struct TopicM {
    pub index: int,
    pub name: Seq<char>,
    pub exercises: Seq<ExerciseM>,
    pub summary: Seq<Seq<char>>,
    pub objectives: Seq<Seq<char>>,
    pub content: Seq<char>,
    pub further_reading: Seq<Seq<char>>,
    pub images: Seq<Seq<char>>,
}

/// Spec-level model of a resolved unit with its ordinal.
pub ghost struct UnitM {
    pub index: int,
    pub name: Seq<char>,
    pub template: Option<Seq<char>>,
    pub topics: Seq<TopicM>,
}

/// Spec-level model of a resolved module with its ordinal.
pub ghost struct ModuleM {
    pub index: int,
    pub name: Seq<char>,
    pub description: Seq<char>,
    pub units: Seq<UnitM>,
}

/// Spec-level model of the resolved track.
pub ghost struct TrackM {
    pub name: Seq<char>,
    pub modules: Seq<ModuleM>,
}

/// The model of one indexed exercise.
pub open spec fn exercise_model(e: &Indexed<Exercise>) -> ExerciseM {
    ExerciseM {
        index: e.index as int,
        name: e.data.name@,
        path: e.data.path@,
        description: e.data.description@,
        includes: e.data.includes.deep_view(),
    }
}

/// The model of one indexed topic.
pub open spec fn topic_model(t: &Indexed<Topic>) -> TopicM {
    TopicM {
        index: t.index as int,
        name: t.data.name@,
        exercises: t.data.exercises@.map_values(|e: Indexed<Exercise>| exercise_model(&e)),
        summary: t.data.summary.deep_view(),
        objectives: t.data.objectives.deep_view(),
        content: t.data.content@,
        further_reading: t.data.further_reading.deep_view(),
        images: t.data.images.deep_view(),
    }
}

/// The model of one indexed unit.
pub open spec fn unit_model(u: &Indexed<Unit>) -> UnitM {
    UnitM {
        index: u.index as int,
        name: u.data.name@,
        template: match u.data.template {
            Some(t) => Some(t@),
            None => None,
        },
        topics: u.data.topics@.map_values(|t: Indexed<Topic>| topic_model(&t)),
    }
}

/// The model of one indexed module.
pub open spec fn module_model(m: &Indexed<Module>) -> ModuleM {
    ModuleM {
        index: m.index as int,
        name: m.data.name@,
        description: m.data.description@,
        units: m.data.units@.map_values(|u: Indexed<Unit>| unit_model(&u)),
    }
}

impl View for Track {
    type V = TrackM;

    open spec fn view(&self) -> TrackM {
        TrackM {
            name: self.name@,
            modules: self.modules@.map_values(|m: Indexed<Module>| module_model(&m)),
        }
    }
}

} // verus!
