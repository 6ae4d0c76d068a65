//! Course-content build pipeline: resolves a track definition tree
//! (track, modules, units, topics, exercises) into an immutable indexed
//! model, then renders book, slide-deck and exercise-package outputs and
//! can compute a patch between two successive renders.
//!
//! The library performs no I/O: the caller loads definition files and
//! document contents, hands them in as plain values, and carries out the
//! returned file operations.

pub mod book;
pub mod defs;
pub mod exercises;
pub mod model;
pub mod ops;
pub mod patch;
pub mod resolve;
pub mod slides;
pub mod solutions;
pub mod tag;
pub mod text;

use vstd::prelude::*;

verus! {

use crate::book::{BookBuilder, BookM, BookRenderOptions, ChapterBuilder, ChapterM, RenderBookError, SectionBuilder, SectionM, SubSectionM, bookerr_model, spec_render_book};
use crate::defs::Indexed;
use crate::exercises::{
    ExerciseCollectionBuilder, ExPackM, ModExM, ModuleExercisesBuilder, RenderExercisesError,
    UnitExercisesBuilder, UnitExM, exerr_model, spec_render_exercises,
};
use crate::model::{Exercise, ExerciseM, Module, ModuleM, Topic, TopicM, Track, TrackM, Unit, UnitM, exercise_model, module_model, topic_model, unit_model};
use crate::ops::{FileOp, FileOpM, TextFile, op_write};
use crate::resolve::DirListing;
use crate::slides::{
    RenderSlidesError, SlideDeckBuilder, SlideDeckM, SlideSectionM, SlidesErrM,
    SlidesPackageBuilder, SlidesSectionBuilder, StubParseError, build_manifest,
    json_parses_as_object, manifest_content_ok, spec_render_slides, spec_scripts,
};
use crate::tag::spec_to_tag;

/// The book subsection of one exercise: named after the exercise, backed
/// by its description document, keyed by its source directory, and
/// carrying its topic's images.
pub open spec fn sub_of(t: TopicM, e: ExerciseM) -> SubSectionM {
    SubSectionM { title: e.name, content: e.description, exercise_path: e.path, images: t.images }
}

/// The subsections of a unit: every topic's exercises in order.
pub open spec fn subs_of_topics(ts: Seq<TopicM>) -> Seq<SubSectionM>
    decreases ts.len(),
{
    if ts.len() == 0 {
        Seq::empty()
    } else {
        ts[0].exercises.map_values(|e: ExerciseM| sub_of(ts[0], e)) + subs_of_topics(
            ts.drop_first(),
        )
    }
}

/// The book section of one unit.
pub open spec fn section_of(mi: int, u: UnitM) -> SectionM {
    SectionM {
        title: u.name,
        subsections: subs_of_topics(u.topics),
        module_index: mi,
        unit_index: u.index,
    }
}

/// The book chapter of one module.
pub open spec fn chapter_of(m: ModuleM) -> ChapterM {
    ChapterM {
        title: m.name,
        sections: m.units.map_values(|u: UnitM| section_of(m.index, u)),
        module_index: m.index,
    }
}

/// The book of a resolved track.
pub open spec fn book_of(t: TrackM) -> BookM {
    BookM { title: t.name, chapters: t.modules.map_values(|m: ModuleM| chapter_of(m)) }
}

/// The slide section of one topic.
pub open spec fn slide_section_of(t: TopicM) -> SlideSectionM {
    SlideSectionM {
        content: t.content,
        objectives: t.objectives,
        summary: t.summary,
        further_reading: t.further_reading,
        images: t.images,
    }
}

/// The slide deck of one unit, under its module's name and ordinal.
pub open spec fn deck_of(mname: Seq<char>, mi: int, u: UnitM) -> SlideDeckM {
    SlideDeckM {
        name: u.name,
        module_name: mname,
        module_index: mi,
        unit_index: u.index,
        template: u.template,
        sections: u.topics.map_values(|t: TopicM| slide_section_of(t)),
    }
}

/// The decks of a track: one per unit, in module and unit order.
pub open spec fn decks_of(ms: Seq<ModuleM>) -> Seq<SlideDeckM>
    decreases ms.len(),
{
    if ms.len() == 0 {
        Seq::empty()
    } else {
        ms[0].units.map_values(|u: UnitM| deck_of(ms[0].name, ms[0].index, u)) + decks_of(
            ms.drop_first(),
        )
    }
}

/// The slides package of a resolved track.
pub open spec fn slides_of(t: TrackM) -> crate::slides::SlidesPackageM {
    crate::slides::SlidesPackageM { name: t.name, decks: decks_of(t.modules) }
}

/// The exercise packages of a unit's topics, ordinals cumulative within
/// the unit, continuing from `start`.
pub open spec fn expacks_of(ts: Seq<TopicM>, start: int) -> Seq<ExPackM>
    decreases ts.len(),
{
    if ts.len() == 0 {
        Seq::empty()
    } else {
        Seq::new(
            ts[0].exercises.len(),
            |i: int|
                ExPackM {
                    index: start + 1 + i,
                    name: ts[0].exercises[i].name,
                    path: ts[0].exercises[i].path,
                    includes: ts[0].exercises[i].includes,
                },
        ) + expacks_of(ts.drop_first(), start + ts[0].exercises.len())
    }
}

/// The exercise group of one unit.
pub open spec fn unitex_of(u: UnitM) -> UnitExM {
    UnitExM { index: u.index, name: u.name, exercises: expacks_of(u.topics, 0) }
}

/// The exercise group of one module.
pub open spec fn modex_of(m: ModuleM) -> ModExM {
    ModExM {
        index: m.index,
        name: m.name,
        unit_exercises: m.units.map_values(|u: UnitM| unitex_of(u)),
    }
}

/// The exercise collection of a resolved track.
pub open spec fn exercises_of(t: TrackM) -> Seq<ModExM> {
    t.modules.map_values(|m: ModuleM| modex_of(m))
}

/// Sum of exercise counts over a unit's topics.
pub open spec fn unit_ex_sum(ts: Seq<TopicM>) -> int
    decreases ts.len(),
{
    if ts.len() == 0 {
        0
    } else {
        ts[0].exercises.len() + unit_ex_sum(ts.drop_first())
    }
}

proof fn lemma_unit_ex_sum_push(ts: Seq<TopicM>, t: TopicM)
    ensures
        unit_ex_sum(ts.push(t)) == unit_ex_sum(ts) + t.exercises.len(),
    decreases ts.len(),
{
    if ts.len() == 0 {
        assert(ts.push(t)[0] == t);
        assert(ts.push(t).drop_first() =~= Seq::<TopicM>::empty());
        assert(unit_ex_sum(Seq::<TopicM>::empty()) == 0);
        assert(unit_ex_sum(ts) == 0);
    } else {
        lemma_unit_ex_sum_push(ts.drop_first(), t);
        assert(ts.push(t)[0] == ts[0]);
        assert(ts.push(t).drop_first() =~= ts.drop_first().push(t));
    }
}

proof fn lemma_unit_ex_sum_take_le(ts: Seq<TopicM>, k: int)
    requires
        0 <= k <= ts.len(),
    ensures
        unit_ex_sum(ts.take(k)) <= unit_ex_sum(ts),
    decreases ts.len() - k,
{
    if k == ts.len() {
        assert(ts.take(k) =~= ts);
    } else {
        lemma_unit_ex_sum_take_le(ts, k + 1);
        assert(ts.take(k + 1) =~= ts.take(k).push(ts[k]));
        lemma_unit_ex_sum_push(ts.take(k), ts[k]);
    }
}

proof fn lemma_subs_of_topics_push(ts: Seq<TopicM>, t: TopicM)
    ensures
        subs_of_topics(ts.push(t)) =~= subs_of_topics(ts) + t.exercises.map_values(
            |e: ExerciseM| sub_of(t, e),
        ),
    decreases ts.len(),
{
    if ts.len() == 0 {
        assert(ts.push(t)[0] == t);
        assert(ts.push(t).drop_first() =~= Seq::<TopicM>::empty());
        assert(subs_of_topics(Seq::<TopicM>::empty()) =~= Seq::<SubSectionM>::empty());
        assert(subs_of_topics(ts) =~= Seq::<SubSectionM>::empty());
    } else {
        lemma_subs_of_topics_push(ts.drop_first(), t);
        assert(ts.push(t)[0] == ts[0]);
        assert(ts.push(t).drop_first() =~= ts.drop_first().push(t));
    }
}

proof fn lemma_expacks_of_push(ts: Seq<TopicM>, t: TopicM, start: int)
    ensures
        expacks_of(ts.push(t), start) =~= expacks_of(ts, start) + Seq::new(
            t.exercises.len(),
            |i: int|
                ExPackM {
                    index: start + unit_ex_sum(ts) + 1 + i,
                    name: t.exercises[i].name,
                    path: t.exercises[i].path,
                    includes: t.exercises[i].includes,
                },
        ),
    decreases ts.len(),
{
    if ts.len() == 0 {
        assert(ts.push(t)[0] == t);
        assert(ts.push(t).drop_first() =~= Seq::<TopicM>::empty());
        assert(expacks_of(Seq::<TopicM>::empty(), start + t.exercises.len() as int)
            =~= Seq::<ExPackM>::empty());
        assert(expacks_of(ts, start) =~= Seq::<ExPackM>::empty());
        assert(unit_ex_sum(ts) == 0);
    } else {
        lemma_expacks_of_push(ts.drop_first(), t, start + ts[0].exercises.len() as int);
        assert(ts.push(t)[0] == ts[0]);
        assert(ts.push(t).drop_first() =~= ts.drop_first().push(t));
    }
}

proof fn lemma_decks_of_push(ms: Seq<ModuleM>, m: ModuleM)
    ensures
        decks_of(ms.push(m)) =~= decks_of(ms) + m.units.map_values(
            |u: UnitM| deck_of(m.name, m.index, u),
        ),
    decreases ms.len(),
{
    if ms.len() == 0 {
        assert(ms.push(m)[0] == m);
        assert(ms.push(m).drop_first() =~= Seq::<ModuleM>::empty());
        assert(decks_of(Seq::<ModuleM>::empty()) =~= Seq::<SlideDeckM>::empty());
        assert(decks_of(ms) =~= Seq::<SlideDeckM>::empty());
    } else {
        lemma_decks_of_push(ms.drop_first(), m);
        assert(ms.push(m)[0] == ms[0]);
        assert(ms.push(m).drop_first() =~= ms.drop_first().push(m));
    }
}

impl Indexed<Exercise> {
    /// Appends this exercise to the open book section (as a subsection
    /// carrying its topic's images) and to the open unit exercise group.
    pub fn render(
        &self,
        images: &Vec<String>,
        section: &mut SectionBuilder,
        unit_exercises: &mut UnitExercisesBuilder,
    )
        requires
            old(unit_exercises).unit_exercises.exercises@.len() < usize::MAX,
        ensures
            final(section).section@ == (SectionM {
                subsections: old(section).section@.subsections.push(
                    SubSectionM {
                        title: self.data.name@,
                        content: self.data.description@,
                        exercise_path: self.data.path@,
                        images: images.deep_view(),
                    },
                ),
                ..old(section).section@
            }),
            final(unit_exercises).unit_exercises@ == (UnitExM {
                exercises: old(unit_exercises).unit_exercises@.exercises.push(
                    ExPackM {
                        index: old(unit_exercises).unit_exercises@.exercises.len() as int + 1,
                        name: self.data.name@,
                        path: self.data.path@,
                        includes: self.data.includes.deep_view(),
                    },
                ),
                ..old(unit_exercises).unit_exercises@
            }),
    {
        section.subsection(&self.data.name, &self.data.description, &self.data.path, images);
        unit_exercises.package(&self.data.name, &self.data.path, &self.data.includes);
    }
}

impl Indexed<Topic> {
    /// Opens a slide section for this topic, fills in its bullet lists
    /// and images, appends its exercises to the open book section and
    /// unit exercise group, and closes the slide section into the deck.
    pub fn render(
        &self,
        section: &mut SectionBuilder,
        deck: &mut SlideDeckBuilder,
        unit_exercises: &mut UnitExercisesBuilder,
    )
        requires
            old(unit_exercises).unit_exercises.exercises@.len() + self.data.exercises@.len()
                <= usize::MAX,
        ensures
            final(deck).slide_deck@ == (SlideDeckM {
                sections: old(deck).slide_deck@.sections.push(slide_section_of(topic_model(self))),
                ..old(deck).slide_deck@
            }),
            final(section).section@ == (SectionM {
                subsections: old(section).section@.subsections + topic_model(
                    self,
                ).exercises.map_values(|e: ExerciseM| sub_of(topic_model(self), e)),
                ..old(section).section@
            }),
            final(unit_exercises).unit_exercises@ == (UnitExM {
                exercises: old(unit_exercises).unit_exercises@.exercises + Seq::new(
                    topic_model(self).exercises.len(),
                    |i: int|
                        ExPackM {
                            index: old(unit_exercises).unit_exercises@.exercises.len() as int + 1
                                + i,
                            name: topic_model(self).exercises[i].name,
                            path: topic_model(self).exercises[i].path,
                            includes: topic_model(self).exercises[i].includes,
                        },
                ),
                ..old(unit_exercises).unit_exercises@
            }),
    {
        let ghost tm = topic_model(self);
        let mut slides_section = deck.section(&self.data.content);

        let mut i: usize = 0;
        proof {
            assert(self.data.summary.deep_view().take(0) =~= Seq::<Seq<char>>::empty());
        }
        while i < self.data.summary.len()
            invariant
                i <= self.data.summary@.len(),
                slides_section.section@ == (SlideSectionM {
                    summary: self.data.summary.deep_view().take(i as int),
                    content: self.data.content@,
                    objectives: Seq::empty(),
                    further_reading: Seq::empty(),
                    images: Seq::empty(),
                }),
            decreases self.data.summary@.len() - i,
        {
            slides_section.summary(&self.data.summary[i]);
            proof {
                assert(self.data.summary.deep_view().take(i as int + 1)
                    =~= self.data.summary.deep_view().take(i as int).push(
                    self.data.summary@[i as int]@,
                ));
            }
            i += 1;
        }
        proof {
            assert(self.data.summary.deep_view().take(self.data.summary@.len() as int)
                =~= self.data.summary.deep_view());
        }

        let mut i: usize = 0;
        proof {
            assert(self.data.objectives.deep_view().take(0) =~= Seq::<Seq<char>>::empty());
        }
        while i < self.data.objectives.len()
            invariant
                i <= self.data.objectives@.len(),
                slides_section.section@ == (SlideSectionM {
                    summary: self.data.summary.deep_view(),
                    content: self.data.content@,
                    objectives: self.data.objectives.deep_view().take(i as int),
                    further_reading: Seq::empty(),
                    images: Seq::empty(),
                }),
            decreases self.data.objectives@.len() - i,
        {
            slides_section.objective(&self.data.objectives[i]);
            proof {
                assert(self.data.objectives.deep_view().take(i as int + 1)
                    =~= self.data.objectives.deep_view().take(i as int).push(
                    self.data.objectives@[i as int]@,
                ));
            }
            i += 1;
        }
        proof {
            assert(self.data.objectives.deep_view().take(self.data.objectives@.len() as int)
                =~= self.data.objectives.deep_view());
        }

        let mut i: usize = 0;
        proof {
            assert(self.data.further_reading.deep_view().take(0) =~= Seq::<Seq<char>>::empty());
        }
        while i < self.data.further_reading.len()
            invariant
                i <= self.data.further_reading@.len(),
                slides_section.section@ == (SlideSectionM {
                    summary: self.data.summary.deep_view(),
                    content: self.data.content@,
                    objectives: self.data.objectives.deep_view(),
                    further_reading: self.data.further_reading.deep_view().take(i as int),
                    images: Seq::empty(),
                }),
            decreases self.data.further_reading@.len() - i,
        {
            slides_section.further_reading(&self.data.further_reading[i]);
            proof {
                assert(self.data.further_reading.deep_view().take(i as int + 1)
                    =~= self.data.further_reading.deep_view().take(i as int).push(
                    self.data.further_reading@[i as int]@,
                ));
            }
            i += 1;
        }
        proof {
            assert(self.data.further_reading.deep_view().take(
                self.data.further_reading@.len() as int,
            ) =~= self.data.further_reading.deep_view());
        }

        let mut i: usize = 0;
        proof {
            assert(self.data.images.deep_view().take(0) =~= Seq::<Seq<char>>::empty());
        }
        while i < self.data.images.len()
            invariant
                i <= self.data.images@.len(),
                slides_section.section@ == (SlideSectionM {
                    summary: self.data.summary.deep_view(),
                    content: self.data.content@,
                    objectives: self.data.objectives.deep_view(),
                    further_reading: self.data.further_reading.deep_view(),
                    images: self.data.images.deep_view().take(i as int),
                }),
            decreases self.data.images@.len() - i,
        {
            slides_section.image(&self.data.images[i]);
            proof {
                assert(self.data.images.deep_view().take(i as int + 1)
                    =~= self.data.images.deep_view().take(i as int).push(
                    self.data.images@[i as int]@,
                ));
            }
            i += 1;
        }
        proof {
            assert(self.data.images.deep_view().take(self.data.images@.len() as int)
                =~= self.data.images.deep_view());
        }

        let ghost sec0 = section.section@;
        let ghost ue0 = unit_exercises.unit_exercises@;
        let mut i: usize = 0;
        proof {
            let f = |e: ExerciseM| sub_of(tm, e);
            assert(tm.exercises.map_values(f).take(0) =~= Seq::<SubSectionM>::empty());
            assert(sec0.subsections + Seq::<SubSectionM>::empty() =~= sec0.subsections);
            let g = |j: int|
                ExPackM {
                    index: ue0.exercises.len() as int + 1 + j,
                    name: tm.exercises[j].name,
                    path: tm.exercises[j].path,
                    includes: tm.exercises[j].includes,
                };
            assert(Seq::new(tm.exercises.len(), g).take(0) =~= Seq::<ExPackM>::empty());
            assert(ue0.exercises + Seq::<ExPackM>::empty() =~= ue0.exercises);
        }
        while i < self.data.exercises.len()
            invariant
                i <= self.data.exercises@.len(),
                ue0.exercises.len() + self.data.exercises@.len() <= usize::MAX,
                unit_exercises.unit_exercises.exercises@.len() as int == ue0.exercises.len() + i,
                section.section@ == (SectionM {
                    subsections: sec0.subsections + tm.exercises.map_values(
                        |e: ExerciseM| sub_of(tm, e),
                    ).take(i as int),
                    ..sec0
                }),
                unit_exercises.unit_exercises@ == (UnitExM {
                    exercises: ue0.exercises + Seq::new(
                        tm.exercises.len(),
                        |j: int|
                            ExPackM {
                                index: ue0.exercises.len() as int + 1 + j,
                                name: tm.exercises[j].name,
                                path: tm.exercises[j].path,
                                includes: tm.exercises[j].includes,
                            },
                    ).take(i as int),
                    ..ue0
                }),
                tm == topic_model(self),
                tm.exercises.len() == self.data.exercises@.len(),
            decreases self.data.exercises@.len() - i,
        {
            self.data.exercises[i].render(&self.data.images, section, unit_exercises);
            proof {
                let f = |e: ExerciseM| sub_of(tm, e);
                assert(tm.exercises[i as int] == exercise_model(&self.data.exercises@[i as int]));
                assert(tm.exercises.map_values(f).take(i as int + 1) =~= tm.exercises.map_values(
                    f,
                ).take(i as int).push(f(tm.exercises[i as int])));
                let g = |j: int|
                    ExPackM {
                        index: ue0.exercises.len() as int + 1 + j,
                        name: tm.exercises[j].name,
                        path: tm.exercises[j].path,
                        includes: tm.exercises[j].includes,
                    };
                assert(Seq::new(tm.exercises.len(), g).take(i as int + 1) =~= Seq::new(
                    tm.exercises.len(),
                    g,
                ).take(i as int).push(g(i as int)));
                assert(section.section@.subsections =~= sec0.subsections + tm.exercises.map_values(
                    f,
                ).take(i as int + 1));
                assert(unit_exercises.unit_exercises@.exercises =~= ue0.exercises + Seq::new(
                    tm.exercises.len(),
                    g,
                ).take(i as int + 1));
            }
            i += 1;
        }
        proof {
            let f = |e: ExerciseM| sub_of(tm, e);
            assert(tm.exercises.map_values(f).take(tm.exercises.len() as int)
                =~= tm.exercises.map_values(f));
            let g = |j: int|
                ExPackM {
                    index: ue0.exercises.len() as int + 1 + j,
                    name: tm.exercises[j].name,
                    path: tm.exercises[j].path,
                    includes: tm.exercises[j].includes,
                };
            assert(Seq::new(tm.exercises.len(), g).take(tm.exercises.len() as int) =~= Seq::new(
                tm.exercises.len(),
                g,
            ));
        }
        slides_section.add(deck);
        proof {
            assert(slide_section_of(tm) == (SlideSectionM {
                summary: self.data.summary.deep_view(),
                content: self.data.content@,
                objectives: self.data.objectives.deep_view(),
                further_reading: self.data.further_reading.deep_view(),
                images: self.data.images.deep_view(),
            }));
        }
    }
}

impl Indexed<Unit> {
    /// Opens a book section, a slide deck and a unit exercise group for
    /// this unit, renders its topics into them in lock-step, and closes
    /// all three.
    pub fn render(
        &self,
        module_name: &String,
        module_index: usize,
        chapter: &mut ChapterBuilder,
        slides: &mut SlidesPackageBuilder,
        module_exercises: &mut ModuleExercisesBuilder,
    )
        requires
            unit_ex_sum(unit_model(self).topics) <= usize::MAX,
        ensures
            final(chapter).chapter@ == (ChapterM {
                sections: old(chapter).chapter@.sections.push(
                    section_of(module_index as int, unit_model(self)),
                ),
                ..old(chapter).chapter@
            }),
            final(slides).package@ == (crate::slides::SlidesPackageM {
                decks: old(slides).package@.decks.push(
                    deck_of(module_name@, module_index as int, unit_model(self)),
                ),
                ..old(slides).package@
            }),
            final(module_exercises).module_exercises@ == (ModExM {
                unit_exercises: old(module_exercises).module_exercises@.unit_exercises.push(
                    unitex_of(unit_model(self)),
                ),
                ..old(module_exercises).module_exercises@
            }),
    {
        let ghost um = unit_model(self);
        let mut section = chapter.section(module_index, self.index, &self.data.name);
        let mut deck = slides.deck(
            &self.data.name,
            module_name,
            module_index,
            self.index,
            &self.data.template,
        );
        let mut unit_ex = module_exercises.unit(&self.data.name, self.index);
        let mut i: usize = 0;
        proof {
            assert(um.topics.take(0) =~= Seq::<TopicM>::empty());
            assert(subs_of_topics(Seq::<TopicM>::empty()) =~= Seq::<SubSectionM>::empty());
            assert(expacks_of(Seq::<TopicM>::empty(), 0) =~= Seq::<ExPackM>::empty());
            assert(unit_ex_sum(Seq::<TopicM>::empty()) == 0);
            assert(unit_ex.unit_exercises@.exercises == unit_ex.unit_exercises.exercises@.map_values(
                |e: crate::exercises::ExercisePackage| e@,
            ));
            assert(unit_ex.unit_exercises.exercises@.len() == 0);
            assert(um.topics.take(0).map_values(|t: TopicM| slide_section_of(t))
                =~= Seq::<SlideSectionM>::empty());
        }
        while i < self.data.topics.len()
            invariant
                i <= self.data.topics@.len(),
                um == unit_model(self),
                um.topics.len() == self.data.topics@.len(),
                unit_ex_sum(um.topics) <= usize::MAX,
                unit_ex.unit_exercises.exercises@.len() as int == unit_ex_sum(
                    um.topics.take(i as int),
                ),
                section.section@ == (SectionM {
                    title: self.data.name@,
                    subsections: subs_of_topics(um.topics.take(i as int)),
                    module_index: module_index as int,
                    unit_index: self.index as int,
                }),
                deck.slide_deck@ == (SlideDeckM {
                    name: self.data.name@,
                    module_name: module_name@,
                    module_index: module_index as int,
                    unit_index: self.index as int,
                    template: um.template,
                    sections: um.topics.take(i as int).map_values(
                        |t: TopicM| slide_section_of(t),
                    ),
                }),
                unit_ex.unit_exercises@ == (UnitExM {
                    index: self.index as int,
                    name: self.data.name@,
                    exercises: expacks_of(um.topics.take(i as int), 0),
                }),
            decreases self.data.topics@.len() - i,
        {
            let ghost prefix = um.topics.take(i as int);
            let ghost tmcur = topic_model(&self.data.topics@[i as int]);
            proof {
                assert(um.topics[i as int] == tmcur);
                lemma_unit_ex_sum_push(prefix, tmcur);
                assert(um.topics.take(i as int + 1) =~= prefix.push(tmcur));
                lemma_unit_ex_sum_take_le(um.topics, i as int + 1);
                assert(unit_ex.unit_exercises.exercises@.len() + tmcur.exercises.len()
                    <= usize::MAX);
                assert(tmcur.exercises.len() == self.data.topics@[i as int].data.exercises@.len());
            }
            self.data.topics[i].render(&mut section, &mut deck, &mut unit_ex);
            proof {
                lemma_subs_of_topics_push(prefix, tmcur);
                lemma_expacks_of_push(prefix, tmcur, 0);
                assert(prefix.push(tmcur).map_values(|t: TopicM| slide_section_of(t))
                    =~= prefix.map_values(|t: TopicM| slide_section_of(t)).push(
                    slide_section_of(tmcur),
                ));
                assert(section.section@.subsections =~= subs_of_topics(
                    um.topics.take(i as int + 1),
                ));
                assert(unit_ex.unit_exercises@.exercises =~= expacks_of(
                    um.topics.take(i as int + 1),
                    0,
                ));
            }
            i += 1;
        }
        proof {
            assert(um.topics.take(um.topics.len() as int) =~= um.topics);
        }
        section.add(chapter);
        deck.add(slides);
        unit_ex.add(module_exercises);
        proof {
            assert(section_of(module_index as int, um) == (SectionM {
                title: self.data.name@,
                subsections: subs_of_topics(um.topics),
                module_index: module_index as int,
                unit_index: self.index as int,
            }));
        }
    }
}

impl Indexed<Module> {
    /// Opens a book chapter and a module exercise group for this module,
    /// renders its units (each adding a slide deck), and closes both.
    pub fn render(
        &self,
        book_builder: &mut BookBuilder,
        slides: &mut SlidesPackageBuilder,
        exercises: &mut ExerciseCollectionBuilder,
    )
        requires
            forall|j: int|
                0 <= j < module_model(self).units.len() ==> unit_ex_sum(
                    (#[trigger] module_model(self).units[j]).topics,
                ) <= usize::MAX,
        ensures
            final(book_builder).book@ == (BookM {
                chapters: old(book_builder).book@.chapters.push(chapter_of(module_model(self))),
                ..old(book_builder).book@
            }),
            final(slides).package@ == (crate::slides::SlidesPackageM {
                decks: old(slides).package@.decks + module_model(self).units.map_values(
                    |u: UnitM| deck_of(module_model(self).name, module_model(self).index, u),
                ),
                ..old(slides).package@
            }),
            final(exercises).collection@ == old(exercises).collection@.push(
                modex_of(module_model(self)),
            ),
    {
        let ghost mm = module_model(self);
        let mut chapter = book_builder.chapter(&self.data.name, self.index);
        let mut module_exercises = exercises.module(&self.data.name, self.index);
        let ghost decks0 = slides.package@.decks;
        let mut i: usize = 0;
        proof {
            assert(mm.units.take(0) =~= Seq::<UnitM>::empty());
            assert(mm.units.take(0).map_values(|u: UnitM| section_of(mm.index, u))
                =~= Seq::<SectionM>::empty());
            assert(mm.units.take(0).map_values(|u: UnitM| deck_of(mm.name, mm.index, u))
                =~= Seq::<SlideDeckM>::empty());
            assert(decks0 + Seq::<SlideDeckM>::empty() =~= decks0);
            assert(mm.units.take(0).map_values(|u: UnitM| unitex_of(u))
                =~= Seq::<UnitExM>::empty());
        }
        while i < self.data.units.len()
            invariant
                i <= self.data.units@.len(),
                mm == module_model(self),
                mm.units.len() == self.data.units@.len(),
                forall|j: int|
                    0 <= j < mm.units.len() ==> unit_ex_sum((#[trigger] mm.units[j]).topics)
                        <= usize::MAX,
                chapter.chapter@ == (ChapterM {
                    title: self.data.name@,
                    sections: mm.units.take(i as int).map_values(
                        |u: UnitM| section_of(mm.index, u),
                    ),
                    module_index: self.index as int,
                }),
                slides.package@ == (crate::slides::SlidesPackageM {
                    decks: decks0 + mm.units.take(i as int).map_values(
                        |u: UnitM| deck_of(mm.name, mm.index, u),
                    ),
                    ..old(slides).package@
                }),
                module_exercises.module_exercises@ == (ModExM {
                    index: self.index as int,
                    name: self.data.name@,
                    unit_exercises: mm.units.take(i as int).map_values(|u: UnitM| unitex_of(u)),
                }),
            decreases self.data.units@.len() - i,
        {
            let ghost prefix = mm.units.take(i as int);
            let ghost umcur = unit_model(&self.data.units@[i as int]);
            proof {
                assert(mm.units[i as int] == umcur);
                assert(unit_ex_sum(umcur.topics) <= usize::MAX);
            }
            self.data.units[i].render(
                &self.data.name,
                self.index,
                &mut chapter,
                slides,
                &mut module_exercises,
            );
            proof {
                assert(mm.units.take(i as int + 1) =~= prefix.push(umcur));
                assert(prefix.push(umcur).map_values(|u: UnitM| section_of(mm.index, u))
                    =~= prefix.map_values(|u: UnitM| section_of(mm.index, u)).push(
                    section_of(mm.index, umcur),
                ));
                assert(prefix.push(umcur).map_values(|u: UnitM| deck_of(mm.name, mm.index, u))
                    =~= prefix.map_values(|u: UnitM| deck_of(mm.name, mm.index, u)).push(
                    deck_of(mm.name, mm.index, umcur),
                ));
                assert(decks0 + prefix.map_values(|u: UnitM| deck_of(mm.name, mm.index, u)).push(
                    deck_of(mm.name, mm.index, umcur),
                ) =~= (decks0 + prefix.map_values(|u: UnitM| deck_of(mm.name, mm.index, u))).push(
                    deck_of(mm.name, mm.index, umcur),
                ));
                assert(prefix.push(umcur).map_values(|u: UnitM| unitex_of(u))
                    =~= prefix.map_values(|u: UnitM| unitex_of(u)).push(unitex_of(umcur)));
            }
            i += 1;
        }
        proof {
            assert(mm.units.take(mm.units.len() as int) =~= mm.units);
        }
        chapter.add(book_builder);
        module_exercises.add(exercises);
        proof {
            assert(chapter_of(mm) == (ChapterM {
                title: self.data.name@,
                sections: mm.units.map_values(|u: UnitM| section_of(mm.index, u)),
                module_index: self.index as int,
            }));
            assert(modex_of(mm) == (ModExM {
                index: self.index as int,
                name: self.data.name@,
                unit_exercises: mm.units.map_values(|u: UnitM| unitex_of(u)),
            }));
        }
    }
}

impl Track {
    /// One top-down traversal of the resolved tree populating the book,
    /// slides and exercise models in lock-step.
    pub fn build_models(&self) -> (r: (
        crate::book::Book,
        crate::slides::SlidesPackage,
        crate::exercises::ExerciseCollection,
    ))
        requires
            forall|k: int, j: int|
                0 <= k < self@.modules.len() && 0 <= j < self@.modules[k].units.len()
                    ==> unit_ex_sum((#[trigger] self@.modules[k].units[j]).topics) <= usize::MAX,
        ensures
            r.0@ == book_of(self@),
            r.1@ == slides_of(self@),
            r.2@ == exercises_of(self@),
    {
        let ghost tv = self@;
        let mut book_builder = crate::book::Book::builder(&self.name);
        let mut slides_builder = crate::slides::SlidesPackage::builder(&self.name);
        let mut exercises_builder = crate::exercises::ExerciseCollection::builder();
        let mut i: usize = 0;
        proof {
            assert(tv.modules.take(0) =~= Seq::<ModuleM>::empty());
            assert(decks_of(Seq::<ModuleM>::empty()) =~= Seq::<SlideDeckM>::empty());
            assert(tv.modules.take(0).map_values(|m: ModuleM| chapter_of(m))
                =~= Seq::<ChapterM>::empty());
            assert(tv.modules.take(0).map_values(|m: ModuleM| modex_of(m))
                =~= Seq::<ModExM>::empty());
        }
        while i < self.modules.len()
            invariant
                i <= self.modules@.len(),
                tv == self@,
                tv.modules.len() == self.modules@.len(),
                forall|k: int, j: int|
                    0 <= k < tv.modules.len() && 0 <= j < tv.modules[k].units.len()
                        ==> unit_ex_sum((#[trigger] tv.modules[k].units[j]).topics) <= usize::MAX,
                book_builder.book@ == (BookM {
                    title: tv.name,
                    chapters: tv.modules.take(i as int).map_values(|m: ModuleM| chapter_of(m)),
                }),
                slides_builder.package@ == (crate::slides::SlidesPackageM {
                    name: tv.name,
                    decks: decks_of(tv.modules.take(i as int)),
                }),
                exercises_builder.collection@ =~= tv.modules.take(i as int).map_values(
                    |m: ModuleM| modex_of(m),
                ),
            decreases self.modules@.len() - i,
        {
            let ghost prefix = tv.modules.take(i as int);
            let ghost mmcur = module_model(&self.modules@[i as int]);
            proof {
                assert(tv.modules[i as int] == mmcur);
                assert(forall|j: int|
                    0 <= j < mmcur.units.len() ==> unit_ex_sum((#[trigger] mmcur.units[j]).topics)
                        <= usize::MAX);
            }
            self.modules[i].render(&mut book_builder, &mut slides_builder, &mut exercises_builder);
            proof {
                assert(tv.modules.take(i as int + 1) =~= prefix.push(mmcur));
                assert(prefix.push(mmcur).map_values(|m: ModuleM| chapter_of(m))
                    =~= prefix.map_values(|m: ModuleM| chapter_of(m)).push(chapter_of(mmcur)));
                lemma_decks_of_push(prefix, mmcur);
                assert(prefix.push(mmcur).map_values(|m: ModuleM| modex_of(m))
                    =~= prefix.map_values(|m: ModuleM| modex_of(m)).push(modex_of(mmcur)));
            }
            i += 1;
        }
        proof {
            assert(tv.modules.take(tv.modules.len() as int) =~= tv.modules);
        }
        let book = book_builder.build();
        let slides = slides_builder.build();
        let exercises = exercises_builder.build();
        proof {
            assert(exercises@ =~= exercises_of(tv));
        }
        (book, slides, exercises)
    }
}

/// Rendering the track failed at one of its stages.
#[derive(Debug)]
pub enum RenderTrackError {
    Exercises(RenderExercisesError),
    Book(RenderBookError),
    Slides(RenderSlidesError),
    Stub(StubParseError),
}

impl Track {
    /// Plans the whole render: the exercise packages first (their output
    /// mapping feeds the book), then the book, then the slide decks and
    /// the package manifest.  All paths in the plan are relative to the
    /// output root.  `files` holds the contents of every content,
    /// template and description document; `exercise_contents` the files
    /// under each exercise's source directory; `stub` the manifest stub;
    /// `theme` the slide theme of the built-in deck template.
    pub fn render(
        &self,
        files: &Vec<TextFile>,
        exercise_contents: &Vec<DirListing>,
        stub: &String,
        slide_url_base: &String,
        theme: &String,
    ) -> (r: Result<Vec<FileOp>, RenderTrackError>)
        requires
            forall|k: int, j: int|
                0 <= k < self@.modules.len() && 0 <= j < self@.modules[k].units.len()
                    ==> unit_ex_sum((#[trigger] self@.modules[k].units[j]).topics) <= usize::MAX,
        ensures
            r is Ok <==> spec_render_exercises(exercises_of(self@), exercise_contents.deep_view())
                is Ok && spec_render_book(
                book_of(self@),
                spec_render_exercises(
                    exercises_of(self@),
                    exercise_contents.deep_view(),
                )->Ok_0.1,
                files.deep_view(),
                slide_url_base@,
            ) is Ok && spec_render_slides(slides_of(self@), files.deep_view(), theme@) is Ok
                && json_parses_as_object(stub@),
            r matches Ok(ops) ==> {
                let ev = spec_render_exercises(
                    exercises_of(self@),
                    exercise_contents.deep_view(),
                );
                let bv = spec_render_book(
                    book_of(self@),
                    ev->Ok_0.1,
                    files.deep_view(),
                    slide_url_base@,
                );
                let sv = spec_render_slides(slides_of(self@), files.deep_view(), theme@);
                exists|c: Seq<char>|
                    ops.deep_view() == ev->Ok_0.0 + bv->Ok_0 + sv->Ok_0 + seq![
                        op_write("slides/package.json"@, c),
                    ] && #[trigger] manifest_content_ok(
                        c,
                        stub@,
                        spec_to_tag(self@.name),
                        spec_scripts(slides_of(self@).decks, slide_url_base@),
                    )
            },
            r matches Err(RenderTrackError::Exercises(ee)) ==> spec_render_exercises(
                exercises_of(self@),
                exercise_contents.deep_view(),
            ) == Err::<(Seq<FileOpM>, Seq<(Seq<char>, Seq<char>)>), crate::exercises::ExErrM>(
                exerr_model(&ee),
            ),
            r matches Err(RenderTrackError::Book(be)) ==> spec_render_exercises(
                exercises_of(self@),
                exercise_contents.deep_view(),
            ) matches Ok(ev) && spec_render_book(
                book_of(self@),
                ev.1,
                files.deep_view(),
                slide_url_base@,
            ) == Err::<Seq<FileOpM>, crate::book::BookErrM>(bookerr_model(&be)),
            r matches Err(RenderTrackError::Slides(se)) ==> spec_render_slides(
                slides_of(self@),
                files.deep_view(),
                theme@,
            ) == Err::<Seq<FileOpM>, SlidesErrM>(SlidesErrM { path: se.path@ }),
            r matches Err(RenderTrackError::Stub(_)) ==> !json_parses_as_object(stub@),
    {
        let (book, slides, exercises) = self.build_models();
        let (mut ops, pairs) = match exercises.render(exercise_contents) {
            Ok(v) => v,
            Err(e) => {
                return Err(RenderTrackError::Exercises(e));
            },
        };
        let ghost pairs0 = pairs.deep_view();
        let opts = BookRenderOptions {
            exercise_paths: pairs,
            slides_url_base: slide_url_base.clone(),
        };
        let mut book_ops = match book.render(&opts, files) {
            Ok(v) => v,
            Err(e) => {
                return Err(RenderTrackError::Book(e));
            },
        };
        let mut slide_ops = match slides.render(files, theme) {
            Ok(v) => v,
            Err(e) => {
                return Err(RenderTrackError::Slides(e));
            },
        };
        let scripts = slides.scripts(slide_url_base);
        let manifest = match build_manifest(stub, &self.name, &scripts) {
            Ok(m) => m,
            Err(e) => {
                return Err(RenderTrackError::Stub(e));
            },
        };
        let ghost eops0 = ops.deep_view();
        let ghost bops0 = book_ops.deep_view();
        let ghost sops0 = slide_ops.deep_view();
        let ghost mc = manifest@;
        ops.append(&mut book_ops);
        ops.append(&mut slide_ops);
        let mpath = {
            let c = crate::tag::str_chars("slides/package.json");
            crate::tag::chars_string(&c)
        };
        ops.push(FileOp::Write(mpath, manifest));
        proof {
            assert(ops.deep_view() =~= eops0 + bops0 + sops0 + seq![
                op_write("slides/package.json"@, mc),
            ]);
        }
        Ok(ops)
    }
}

} // verus!
