//! Tree resolution: turns raw definition records into the resolved,
//! indexed, canonical-path track tree.
//!
//! The resolver itself performs no I/O.  The caller loads definition
//! files, canonicalizes paths and lists image directories, and hands the
//! outcomes in; the resolver decides everything else and is deterministic:
//! its result is a function of its inputs (see `spec_resolve_track`).
//! Resolution is all-or-nothing: the first failure anywhere in the tree
//! aborts it with an error naming the offending path.

use vstd::prelude::*;

verus! {

use crate::defs::{
    ExerciseDef, ExerciseDefM, HydrateTrackError, Indexed, ItemKind, LoadError, ModuleDef,
    ModuleDefM, PathTo, TopicDef, TopicDefM, TrackDef, TrackDefM, UnitDef, UnitDefM,
};
use crate::model::{Exercise, ExerciseM, Module, ModuleM, Topic, TopicM, Track, TrackM, Unit, UnitM};
use crate::text::{spec_join, spec_parent, join_chars, parent_chars};
use crate::tag::{str_chars, chars_string};

/// The outcome of canonicalizing one requested path: the canonical path,
/// or nothing when the requested path does not lead to an existing file.
pub struct PathFact {
    pub requested: String,
    pub canonical: Option<String>,
}

/// Spec-level model of `PathFact`.
pub ghost struct FactM {
    pub requested: Seq<char>,
    pub canonical: Option<Seq<char>>,
}

impl View for PathFact {
    type V = FactM;

    open spec fn view(&self) -> FactM {
        FactM {
            requested: self.requested@,
            canonical: match self.canonical {
                Some(c) => Some(c@),
                None => None,
            },
        }
    }
}

impl DeepView for PathFact {
    type V = FactM;

    open spec fn deep_view(&self) -> FactM {
        self.view()
    }
}

/// The outcome of listing one image directory: the files under it, or
/// nothing when the path is not a directory.
pub struct DirListing {
    pub dir: String,
    pub files: Option<Vec<String>>,
}

/// Spec-level model of `DirListing`.
pub ghost struct ListingM {
    pub dir: Seq<char>,
    pub files: Option<Seq<Seq<char>>>,
}

impl View for DirListing {
    type V = ListingM;

    open spec fn view(&self) -> ListingM {
        ListingM {
            dir: self.dir@,
            files: match self.files {
                Some(ref f) => Some(f.deep_view()),
                None => None,
            },
        }
    }
}

impl DeepView for DirListing {
    type V = ListingM;

    open spec fn deep_view(&self) -> ListingM {
        self.view()
    }
}

/// Spec-level model of a resolution error.
pub ghost struct HydrateM {
    pub load: Option<ItemKind>,
    pub path: Seq<char>,
}

/// The model of a resolution error value.
pub open spec fn hydrate_model(e: &HydrateTrackError) -> HydrateM {
    match e {
        HydrateTrackError::Load(l) => HydrateM { load: Some(l.kind), path: l.path@ },
        HydrateTrackError::Missing(p) => HydrateM { load: None, path: p@ },
    }
}

/// The canonical path recorded for `key`, if any fact mentions it; the
/// first fact for a key wins.
pub open spec fn find_fact(facts: Seq<FactM>, key: Seq<char>) -> Option<Option<Seq<char>>>
    decreases facts.len(),
{
    if facts.len() == 0 {
        None
    } else if facts[0].requested == key {
        Some(facts[0].canonical)
    } else {
        find_fact(facts.drop_first(), key)
    }
}

/// The canonicalization of `key` as resolution sees it: a canonical path
/// only where a fact maps `key` to one; an absent fact reads as a missing
/// file.
pub open spec fn canon_of(facts: Seq<FactM>, key: Seq<char>) -> Option<Seq<char>> {
    match find_fact(facts, key) {
        Some(Some(c)) => Some(c),
        _ => None,
    }
}

/// Looks up the canonical path recorded for `key`.
pub fn canon_of_exec(facts: &Vec<PathFact>, key: &String) -> (r: Option<String>)
    ensures
        match r {
            Some(c) => canon_of(facts.deep_view(), key@) == Some(c@),
            None => canon_of(facts.deep_view(), key@) is None,
        },
{
    let ghost fs = facts.deep_view();
    let mut i: usize = 0;
    proof {
        assert(fs.skip(0) =~= fs);
    }
    while i < facts.len()
        invariant
            i <= facts@.len(),
            fs == facts.deep_view(),
            fs.len() == facts@.len(),
            forall|j: int| 0 <= j < facts@.len() ==> fs[j] == facts@[j]@,
            find_fact(fs, key@) == find_fact(fs.skip(i as int), key@),
        decreases facts@.len() - i,
    {
        proof {
            assert(fs.skip(i as int)[0] == fs[i as int]);
            assert(fs.skip(i as int).drop_first() =~= fs.skip(i as int + 1));
        }
        if facts[i].requested.eq(key) {
            match &facts[i].canonical {
                Some(c) => {
                    let r = c.clone();
                    return Some(r);
                },
                None => {
                    return None;
                },
            }
        }
        i += 1;
    }
    proof {
        assert(fs.skip(fs.len() as int) =~= Seq::<FactM>::empty());
    }
    None
}

/// The files listed for directory `dir`, if a listing mentions it; the
/// first listing for a directory wins.
pub open spec fn find_listing(ls: Seq<ListingM>, dir: Seq<char>) -> Option<Option<Seq<Seq<char>>>>
    decreases ls.len(),
{
    if ls.len() == 0 {
        None
    } else if ls[0].dir == dir {
        Some(ls[0].files)
    } else {
        find_listing(ls.drop_first(), dir)
    }
}

/// The files recorded for directory `dir`: empty when the directory is
/// absent or no listing mentions it.
pub open spec fn listed_files(ls: Seq<ListingM>, dir: Seq<char>) -> Seq<Seq<char>> {
    match find_listing(ls, dir) {
        Some(Some(files)) => files,
        _ => Seq::empty(),
    }
}

/// Looks up the files listed for `dir`.
pub fn listed_files_exec(listings: &Vec<DirListing>, dir: &String) -> (r: Vec<String>)
    ensures
        r.deep_view() == listed_files(listings.deep_view(), dir@),
{
    let ghost ls = listings.deep_view();
    let mut i: usize = 0;
    proof {
        assert(ls.skip(0) =~= ls);
    }
    while i < listings.len()
        invariant
            i <= listings@.len(),
            ls == listings.deep_view(),
            ls.len() == listings@.len(),
            forall|j: int| 0 <= j < listings@.len() ==> ls[j] == listings@[j]@,
            find_listing(ls, dir@) == find_listing(ls.skip(i as int), dir@),
        decreases listings@.len() - i,
    {
        proof {
            assert(ls.skip(i as int)[0] == ls[i as int]);
            assert(ls.skip(i as int).drop_first() =~= ls.skip(i as int + 1));
        }
        if listings[i].dir.eq(dir) {
            match &listings[i].files {
                Some(f) => {
                    let r = f.clone();
                    proof {
                        assert(r.deep_view() =~= f.deep_view());
                    }
                    return r;
                },
                None => {
                    let r: Vec<String> = Vec::new();
                    proof {
                        assert(r.deep_view() =~= Seq::<Seq<char>>::empty());
                    }
                    return r;
                },
            }
        }
        i += 1;
    }
    proof {
        assert(ls.skip(ls.len() as int) =~= Seq::<ListingM>::empty());
    }
    let r: Vec<String> = Vec::new();
    proof {
        assert(r.deep_view() =~= Seq::<Seq<char>>::empty());
    }
    r
}

/// Joins a relative path string onto a base directory string.
pub fn join_strings(base: &String, rel: &String) -> (r: String)
    ensures
        r@ == spec_join(base@, rel@),
{
    let b = str_chars(base.as_str());
    let l = str_chars(rel.as_str());
    let j = join_chars(&b, &l);
    chars_string(&j)
}

/// The directory part of a path string.
pub fn parent_string(path: &String) -> (r: String)
    ensures
        r@ == spec_parent(path@),
{
    let p = str_chars(path.as_str());
    let par = parent_chars(&p);
    chars_string(&par)
}

/// The model of an exercise-resolution result.
pub open spec fn res_exercise_model(
    r: &Result<Indexed<Exercise>, HydrateTrackError>,
) -> Result<ExerciseM, HydrateM> {
    match r {
        Ok(v) => Ok(crate::model::exercise_model(v)),
        Err(e) => Err(hydrate_model(e)),
    }
}

/// One exercise resolved against its topic's directory: the source
/// directory and the description document inside it must both exist.
pub open spec fn spec_resolve_exercise(
    e: ExerciseDefM,
    base: Seq<char>,
    facts: Seq<FactM>,
    index: int,
) -> Result<ExerciseM, HydrateM> {
    let preq = spec_join(base, e.path);
    match canon_of(facts, preq) {
        None => Err(HydrateM { load: None, path: preq }),
        Some(p) => {
            let dreq = spec_join(p, e.description);
            match canon_of(facts, dreq) {
                None => Err(HydrateM { load: None, path: dreq }),
                Some(d) => Ok(
                    ExerciseM {
                        index,
                        name: e.name,
                        path: p,
                        description: d,
                        includes: e.includes,
                    },
                ),
            }
        },
    }
}

/// Resolves one exercise definition against its topic's directory.
pub fn resolve_exercise(
    e: &ExerciseDef,
    base: &String,
    facts: &Vec<PathFact>,
    index: usize,
) -> (r: Result<Indexed<Exercise>, HydrateTrackError>)
    ensures
        res_exercise_model(&r) == spec_resolve_exercise(
            e@,
            base@,
            facts.deep_view(),
            index as int,
        ),
{
    let preq = join_strings(base, &e.path);
    match canon_of_exec(facts, &preq) {
        None => Err(HydrateTrackError::Missing(preq)),
        Some(p) => {
            let dreq = join_strings(&p, &e.description);
            match canon_of_exec(facts, &dreq) {
                None => Err(HydrateTrackError::Missing(dreq)),
                Some(d) => {
                    let includes = e.includes.clone();
                    proof {
                        assert(includes.deep_view() =~= e.includes.deep_view());
                    }
                    Ok(
                        Indexed {
                            data: Exercise {
                                name: e.name.clone(),
                                path: p,
                                description: d,
                                includes,
                            },
                            index,
                        },
                    )
                },
            }
        },
    }
}

/// The model of an exercise-list resolution result.
pub open spec fn res_exercises_model(
    r: &Result<Vec<Indexed<Exercise>>, HydrateTrackError>,
) -> Result<Seq<ExerciseM>, HydrateM> {
    match r {
        Ok(v) => Ok(v@.map_values(|e: Indexed<Exercise>| crate::model::exercise_model(&e))),
        Err(e) => Err(hydrate_model(e)),
    }
}

/// A topic's exercises resolved in order; ordinals continue from `start`,
/// the count of exercises resolved earlier in the same unit.  The first
/// failure aborts the whole list.
pub open spec fn spec_resolve_exercises(
    exs: Seq<ExerciseDefM>,
    base: Seq<char>,
    facts: Seq<FactM>,
    start: int,
) -> Result<Seq<ExerciseM>, HydrateM>
    decreases exs.len(),
{
    if exs.len() == 0 {
        Ok(Seq::empty())
    } else {
        match spec_resolve_exercise(exs[0], base, facts, start + 1) {
            Err(e) => Err(e),
            Ok(x) => match spec_resolve_exercises(exs.drop_first(), base, facts, start + 1) {
                Err(e) => Err(e),
                Ok(rest) => Ok(seq![x] + rest),
            },
        }
    }
}

/// Resolves the exercises of one topic in order.
pub fn resolve_exercises(
    exs: &Vec<ExerciseDef>,
    base: &String,
    facts: &Vec<PathFact>,
    start: usize,
) -> (r: Result<Vec<Indexed<Exercise>>, HydrateTrackError>)
    requires
        start + exs@.len() <= usize::MAX,
    ensures
        res_exercises_model(&r) == spec_resolve_exercises(
            exs@.map_values(|e: ExerciseDef| e@),
            base@,
            facts.deep_view(),
            start as int,
        ),
{
    let ghost exsm = exs@.map_values(|e: ExerciseDef| e@);
    let mut out: Vec<Indexed<Exercise>> = Vec::new();
    let mut i: usize = 0;
    proof {
        assert(exsm.skip(0) =~= exsm);
    }
    while i < exs.len()
        invariant
            i <= exs@.len(),
            start + exs@.len() <= usize::MAX,
            exsm == exs@.map_values(|e: ExerciseDef| e@),
            exsm.len() == exs@.len(),
            out@.len() == i as int,
            spec_resolve_exercises(exsm, base@, facts.deep_view(), start as int) == match
                spec_resolve_exercises(
                exsm.skip(i as int),
                base@,
                facts.deep_view(),
                start + i,
            ) {
                Ok(rest) => Ok::<Seq<ExerciseM>, HydrateM>(
                    out@.map_values(|e: Indexed<Exercise>| crate::model::exercise_model(&e))
                        + rest,
                ),
                Err(e) => Err::<Seq<ExerciseM>, HydrateM>(e),
            },
        decreases exs@.len() - i,
    {
        let ghost suffix = exsm.skip(i as int);
        proof {
            assert(suffix[0] == exsm[i as int]);
            assert(exsm[i as int] == exs@[i as int]@);
            assert(suffix.drop_first() =~= exsm.skip(i as int + 1));
        }
        let ghost out0 = out@;
        match resolve_exercise(&exs[i], base, facts, start + i + 1) {
            Ok(x) => {
                let ghost xm = crate::model::exercise_model(&x);
                out.push(x);
                proof {
                    let f = |e: Indexed<Exercise>| crate::model::exercise_model(&e);
                    let om0 = out0.map_values(f);
                    let om1 = out@.map_values(f);
                    let omx = om0 + seq![xm];
                    assert forall|j: int| 0 <= j < om1.len() implies om1[j] == omx[j] by {
                        if j < out0.len() {
                            assert(out@[j] == out0[j]);
                        } else {
                            assert(out@[j] == out@.last());
                        }
                    }
                    assert(om1 =~= om0 + seq![xm]);
                    let dv = facts.deep_view();
                    let tail = spec_resolve_exercises(
                        exsm.skip(i as int + 1),
                        base@,
                        dv,
                        start + i + 1,
                    );
                    // Unfold one step of the suffix resolution.
                    assert(spec_resolve_exercise(suffix[0], base@, dv, start + i + 1) == Ok::<
                        ExerciseM,
                        HydrateM,
                    >(xm));
                    if tail is Ok {
                        let rest = tail->Ok_0;
                        assert(spec_resolve_exercises(suffix, base@, dv, start + i) == Ok::<
                            Seq<ExerciseM>,
                            HydrateM,
                        >(seq![xm] + rest));
                        assert(om0 + (seq![xm] + rest) =~= om1 + rest);
                    } else {
                        assert(spec_resolve_exercises(suffix, base@, dv, start + i) == tail);
                    }
                }
                i += 1;
            },
            Err(e) => {
                proof {
                    assert(spec_resolve_exercise(
                        suffix[0],
                        base@,
                        facts.deep_view(),
                        start + i + 1,
                    ) == Err::<ExerciseM, HydrateM>(hydrate_model(&e)));
                }
                return Err(e);
            },
        }
    }
    proof {
        assert(exsm.skip(exsm.len() as int) =~= Seq::<ExerciseDefM>::empty());
        let om = out@.map_values(|e: Indexed<Exercise>| crate::model::exercise_model(&e));
        assert(om + Seq::<ExerciseM>::empty() =~= om);
    }
    Ok(out)
}

/// The model of the flat topic-load input list: each loaded topic record
/// with its canonical path, in module-unit-topic order.
pub open spec fn topic_inputs_model(v: &Vec<Option<PathTo<TopicDef>>>) -> Seq<
    Option<(Seq<char>, TopicDefM)>,
> {
    v@.map_values(
        |o: Option<PathTo<TopicDef>>|
            match o {
                Some(pt) => Some((pt.path@, pt.data@)),
                None => None::<(Seq<char>, TopicDefM)>,
            },
    )
}

/// The entry of the topic input list at flat position `i`; out of range
/// reads as a failed load.
pub open spec fn topic_in_at(
    ts: Seq<Option<(Seq<char>, TopicDefM)>>,
    i: int,
) -> Option<(Seq<char>, TopicDefM)> {
    if 0 <= i < ts.len() {
        ts[i]
    } else {
        None
    }
}

/// Sum of exercise counts over the loaded topic records.
pub open spec fn topics_ex_sum(ts: Seq<Option<(Seq<char>, TopicDefM)>>) -> int
    decreases ts.len(),
{
    if ts.len() == 0 {
        0
    } else {
        (match ts[0] {
            Some(t) => t.1.exercises.len() as int,
            None => 0,
        }) + topics_ex_sum(ts.drop_first())
    }
}

proof fn lemma_ex_sum_nonneg(ts: Seq<Option<(Seq<char>, TopicDefM)>>)
    ensures
        topics_ex_sum(ts) >= 0,
    decreases ts.len(),
{
    if ts.len() > 0 {
        lemma_ex_sum_nonneg(ts.drop_first());
    }
}

proof fn lemma_ex_sum_push(ts: Seq<Option<(Seq<char>, TopicDefM)>>, t: Option<(Seq<char>, TopicDefM)>)
    ensures
        topics_ex_sum(ts.push(t)) == topics_ex_sum(ts) + (match t {
            Some(td) => td.1.exercises.len() as int,
            None => 0,
        }),
    decreases ts.len(),
{
    if ts.len() == 0 {
        assert(ts.push(t)[0] == t);
        assert(ts.push(t).drop_first() =~= Seq::<Option<(Seq<char>, TopicDefM)>>::empty());
        assert(topics_ex_sum(Seq::<Option<(Seq<char>, TopicDefM)>>::empty()) == 0);
        assert(topics_ex_sum(ts) == 0);
    } else {
        lemma_ex_sum_push(ts.drop_first(), t);
        assert(ts.push(t)[0] == ts[0]);
        assert(ts.push(t).drop_first() =~= ts.drop_first().push(t));
    }
}

proof fn lemma_ex_sum_take_le(ts: Seq<Option<(Seq<char>, TopicDefM)>>, k: int)
    requires
        0 <= k <= ts.len(),
    ensures
        topics_ex_sum(ts.take(k)) <= topics_ex_sum(ts),
    decreases ts.len() - k,
{
    if k == ts.len() {
        assert(ts.take(k) =~= ts);
    } else {
        lemma_ex_sum_take_le(ts, k + 1);
        assert(ts.take(k + 1) =~= ts.take(k).push(ts[k]));
        lemma_ex_sum_push(ts.take(k), ts[k]);
    }
}

/// The model of a topic-resolution result.
pub open spec fn res_topic_model(
    r: &Result<Indexed<Topic>, HydrateTrackError>,
) -> Result<TopicM, HydrateM> {
    match r {
        Ok(v) => Ok(crate::model::topic_model(v)),
        Err(e) => Err(hydrate_model(e)),
    }
}

/// One topic resolved from its loaded record: exercises first, then the
/// content document, then the conventional `images` directory, whose
/// files (if the directory exists) all become the topic's images.
pub open spec fn spec_resolve_topic(
    t: TopicDefM,
    tpath: Seq<char>,
    facts: Seq<FactM>,
    listings: Seq<ListingM>,
    index: int,
    ex_start: int,
) -> Result<TopicM, HydrateM> {
    let base = spec_parent(tpath);
    match spec_resolve_exercises(t.exercises, base, facts, ex_start) {
        Err(e) => Err(e),
        Ok(exs) => {
            let creq = spec_join(base, t.content);
            match canon_of(facts, creq) {
                None => Err(HydrateM { load: None, path: creq }),
                Some(c) => Ok(
                    TopicM {
                        index,
                        name: t.name,
                        exercises: exs,
                        summary: t.summary,
                        objectives: t.objectives,
                        content: c,
                        further_reading: t.further_reading,
                        images: listed_files(listings, spec_join(base, "images"@)),
                    },
                ),
            }
        },
    }
}

/// Resolves one loaded topic record.
pub fn resolve_topic(
    def: &TopicDef,
    tpath: &String,
    facts: &Vec<PathFact>,
    listings: &Vec<DirListing>,
    index: usize,
    ex_start: usize,
) -> (r: Result<Indexed<Topic>, HydrateTrackError>)
    requires
        ex_start + def.exercises@.len() <= usize::MAX,
    ensures
        res_topic_model(&r) == spec_resolve_topic(
            def@,
            tpath@,
            facts.deep_view(),
            listings.deep_view(),
            index as int,
            ex_start as int,
        ),
{
    let base = parent_string(tpath);
    match resolve_exercises(&def.exercises, &base, facts, ex_start) {
        Err(e) => Err(e),
        Ok(exs) => {
            let creq = join_strings(&base, &def.content);
            match canon_of_exec(facts, &creq) {
                None => Err(HydrateTrackError::Missing(creq)),
                Some(c) => {
                    let images_chars = str_chars("images");
                    let images_name = chars_string(&images_chars);
                    let idir = join_strings(&base, &images_name);
                    let images = listed_files_exec(listings, &idir);
                    let summary = def.summary.clone();
                    let objectives = def.objectives.clone();
                    let further_reading = def.further_reading.clone();
                    proof {
                        assert(summary.deep_view() =~= def.summary.deep_view());
                        assert(objectives.deep_view() =~= def.objectives.deep_view());
                        assert(further_reading.deep_view() =~= def.further_reading.deep_view());
                        assert(exs@.map_values(
                            |e: Indexed<Exercise>| crate::model::exercise_model(&e),
                        ) == spec_resolve_exercises(
                            def@.exercises,
                            base@,
                            facts.deep_view(),
                            ex_start as int,
                        )->Ok_0);
                    }
                    Ok(
                        Indexed {
                            data: Topic {
                                name: def.name.clone(),
                                exercises: exs,
                                summary,
                                objectives,
                                content: c,
                                further_reading,
                                images,
                            },
                            index,
                        },
                    )
                },
            }
        },
    }
}

/// The model of a topic-list resolution result.
pub open spec fn res_topics_model(
    r: &Result<Vec<Indexed<Topic>>, HydrateTrackError>,
) -> Result<Seq<TopicM>, HydrateM> {
    match r {
        Ok(v) => Ok(v@.map_values(|t: Indexed<Topic>| crate::model::topic_model(&t))),
        Err(e) => Err(hydrate_model(e)),
    }
}

/// The topics of one unit resolved in order: each referenced topic file
/// must have been loaded (at the running cursor position into the flat
/// topic list), and exercise ordinals accumulate across the unit's
/// topics.
pub open spec fn spec_resolve_topics(
    names: Seq<Seq<char>>,
    mod_dir: Seq<char>,
    ts: Seq<Option<(Seq<char>, TopicDefM)>>,
    tcur: int,
    facts: Seq<FactM>,
    listings: Seq<ListingM>,
    idx: int,
    ex_start: int,
) -> Result<Seq<TopicM>, HydrateM>
    decreases names.len(),
{
    if names.len() == 0 {
        Ok(Seq::empty())
    } else {
        let treq = spec_join(mod_dir, names[0]);
        match topic_in_at(ts, tcur) {
            None => Err(HydrateM { load: Some(ItemKind::Topic), path: treq }),
            Some(tin) => match spec_resolve_topic(tin.1, tin.0, facts, listings, idx, ex_start) {
                Err(e) => Err(e),
                Ok(tm) => match spec_resolve_topics(
                    names.drop_first(),
                    mod_dir,
                    ts,
                    tcur + 1,
                    facts,
                    listings,
                    idx + 1,
                    ex_start + tin.1.exercises.len(),
                ) {
                    Err(e) => Err(e),
                    Ok(rest) => Ok(seq![tm] + rest),
                },
            },
        }
    }
}

/// Resolves the topics of one unit, consuming entries of the flat topic
/// list starting at `tcur`.
pub fn resolve_topics(
    names: &Vec<String>,
    mod_dir: &String,
    topics: &Vec<Option<PathTo<TopicDef>>>,
    tcur: usize,
    facts: &Vec<PathFact>,
    listings: &Vec<DirListing>,
) -> (r: Result<Vec<Indexed<Topic>>, HydrateTrackError>)
    requires
        tcur <= topics@.len(),
        topics_ex_sum(topic_inputs_model(topics)) <= usize::MAX,
    ensures
        res_topics_model(&r) == spec_resolve_topics(
            names.deep_view(),
            mod_dir@,
            topic_inputs_model(topics),
            tcur as int,
            facts.deep_view(),
            listings.deep_view(),
            1,
            0,
        ),
        r is Ok ==> tcur + names@.len() <= topics@.len(),
{
    let ghost nm = names.deep_view();
    let ghost tsm = topic_inputs_model(topics);
    let ghost dv = facts.deep_view();
    let ghost lv = listings.deep_view();
    let mut out: Vec<Indexed<Topic>> = Vec::new();
    let tn = topics.len();
    let mut ex_start: usize = 0;
    let mut k: usize = 0;
    proof {
        assert(nm.skip(0) =~= nm);
        assert(tsm.len() == topics@.len());
        lemma_ex_sum_nonneg(tsm.take(tcur as int));
    }
    while k < names.len()
        invariant
            k <= names@.len(),
            tn == topics@.len(),
            nm == names.deep_view(),
            nm.len() == names@.len(),
            tsm == topic_inputs_model(topics),
            tsm.len() == topics@.len(),
            dv == facts.deep_view(),
            lv == listings.deep_view(),
            tcur + k <= topics@.len(),
            topics_ex_sum(tsm) <= usize::MAX,
            ex_start <= topics_ex_sum(tsm.take(tcur + k)),
            out@.len() == k as int,
            spec_resolve_topics(nm, mod_dir@, tsm, tcur as int, dv, lv, 1, 0) == match
                spec_resolve_topics(
                nm.skip(k as int),
                mod_dir@,
                tsm,
                tcur + k,
                dv,
                lv,
                1 + k,
                ex_start as int,
            ) {
                Ok(rest) => Ok::<Seq<TopicM>, HydrateM>(
                    out@.map_values(|t: Indexed<Topic>| crate::model::topic_model(&t)) + rest,
                ),
                Err(e) => Err::<Seq<TopicM>, HydrateM>(e),
            },
        decreases names@.len() - k,
    {
        let ghost suffix = nm.skip(k as int);
        proof {
            assert(suffix[0] == nm[k as int]);
            assert(nm[k as int] == names@[k as int]@);
            assert(suffix.drop_first() =~= nm.skip(k as int + 1));
        }
        let c = tcur + k;
        let treq = join_strings(mod_dir, &names[k]);
        if c >= topics.len() {
            proof {
                assert(topic_in_at(tsm, c as int) is None);
            }
            return Err(
                HydrateTrackError::Load(LoadError { kind: ItemKind::Topic, path: treq }),
            );
        }
        match &topics[c] {
            None => {
                proof {
                    assert(tsm[c as int] == topic_inputs_model(topics)[c as int]);
                    assert(topic_in_at(tsm, c as int) is None);
                }
                return Err(
                    HydrateTrackError::Load(LoadError { kind: ItemKind::Topic, path: treq }),
                );
            },
            Some(pt) => {
                proof {
                    assert(tsm[c as int] == Some((pt.path@, pt.data@)));
                    assert(tsm.take(c as int + 1) =~= tsm.take(c as int).push(tsm[c as int]));
                    lemma_ex_sum_push(tsm.take(c as int), tsm[c as int]);
                    lemma_ex_sum_take_le(tsm, c as int + 1);
                    assert(ex_start + pt.data.exercises@.len() <= topics_ex_sum(
                        tsm.take(c as int + 1),
                    ));
                }
                let ghost out0 = out@;
                match resolve_topic(&pt.data, &pt.path, facts, listings, k + 1, ex_start) {
                    Ok(t) => {
                        let ghost tm = crate::model::topic_model(&t);
                        let ghost exlen = pt.data.exercises@.len() as int;
                        out.push(t);
                        ex_start = ex_start + pt.data.exercises.len();
                        proof {
                            let f = |t: Indexed<Topic>| crate::model::topic_model(&t);
                            let om0 = out0.map_values(f);
                            let om1 = out@.map_values(f);
                            let omx = om0 + seq![tm];
                            assert forall|j: int| 0 <= j < om1.len() implies om1[j] == omx[j] by {
                                if j < out0.len() {
                                    assert(out@[j] == out0[j]);
                                } else {
                                    assert(out@[j] == out@.last());
                                }
                            }
                            assert(om1 =~= omx);
                            let tail = spec_resolve_topics(
                                nm.skip(k as int + 1),
                                mod_dir@,
                                tsm,
                                tcur + k + 1,
                                dv,
                                lv,
                                1 + k + 1,
                                ex_start as int,
                            );
                            if tail is Ok {
                                let rest = tail->Ok_0;
                                assert(spec_resolve_topics(
                                    suffix,
                                    mod_dir@,
                                    tsm,
                                    tcur + k,
                                    dv,
                                    lv,
                                    1 + k,
                                    (ex_start - exlen) as int,
                                ) == Ok::<Seq<TopicM>, HydrateM>(seq![tm] + rest));
                                assert(om0 + (seq![tm] + rest) =~= om1 + rest);
                            }
                        }
                        k += 1;
                    },
                    Err(e) => {
                        return Err(e);
                    },
                }
            },
        }
    }
    proof {
        assert(nm.skip(nm.len() as int) =~= Seq::<Seq<char>>::empty());
        let om = out@.map_values(|t: Indexed<Topic>| crate::model::topic_model(&t));
        assert(om + Seq::<TopicM>::empty() =~= om);
    }
    Ok(out)
}

/// The model of a unit-resolution result: the resolved unit and the
/// cursor into the flat topic list after it.
pub open spec fn res_unit_model(
    r: &Result<(Indexed<Unit>, usize), HydrateTrackError>,
) -> Result<(UnitM, int), HydrateM> {
    match r {
        Ok(v) => Ok((crate::model::unit_model(&v.0), v.1 as int)),
        Err(e) => Err(hydrate_model(e)),
    }
}

/// One unit resolved from its definition: its topics first, then its
/// template document, if it names one.
pub open spec fn spec_resolve_unit(
    u: UnitDefM,
    mod_dir: Seq<char>,
    ts: Seq<Option<(Seq<char>, TopicDefM)>>,
    tcur: int,
    facts: Seq<FactM>,
    listings: Seq<ListingM>,
    index: int,
) -> Result<(UnitM, int), HydrateM> {
    match spec_resolve_topics(u.topics, mod_dir, ts, tcur, facts, listings, 1, 0) {
        Err(e) => Err(e),
        Ok(tops) => {
            let newcur = tcur + u.topics.len();
            match u.template {
                None => Ok(
                    (UnitM { index, name: u.name, template: None, topics: tops }, newcur),
                ),
                Some(t) => {
                    let treq = spec_join(mod_dir, t);
                    match canon_of(facts, treq) {
                        None => Err(HydrateM { load: None, path: treq }),
                        Some(c) => Ok(
                            (
                                UnitM { index, name: u.name, template: Some(c), topics: tops },
                                newcur,
                            ),
                        ),
                    }
                },
            }
        },
    }
}

/// Resolves one unit definition.
pub fn resolve_unit(
    def: &UnitDef,
    mod_dir: &String,
    topics: &Vec<Option<PathTo<TopicDef>>>,
    tcur: usize,
    facts: &Vec<PathFact>,
    listings: &Vec<DirListing>,
    index: usize,
) -> (r: Result<(Indexed<Unit>, usize), HydrateTrackError>)
    requires
        tcur <= topics@.len(),
        topics_ex_sum(topic_inputs_model(topics)) <= usize::MAX,
    ensures
        res_unit_model(&r) == spec_resolve_unit(
            def@,
            mod_dir@,
            topic_inputs_model(topics),
            tcur as int,
            facts.deep_view(),
            listings.deep_view(),
            index as int,
        ),
        r matches Ok(v) ==> v.1 <= topics@.len(),
{
    match resolve_topics(&def.topics, mod_dir, topics, tcur, facts, listings) {
        Err(e) => Err(e),
        Ok(tops) => {
            let tn = topics.len();
            proof {
                assert(def.topics.deep_view().len() == def.topics@.len());
                assert(tcur + def.topics@.len() <= tn);
            }
            let newcur = tcur + def.topics.len();
            match &def.template {
                None => {
                    let r = Ok(
                        (
                            Indexed {
                                data: Unit {
                                    name: def.name.clone(),
                                    template: None,
                                    topics: tops,
                                },
                                index,
                            },
                            newcur,
                        ),
                    );
                    proof {
                        assert(res_unit_model(&r) == spec_resolve_unit(
                            def@,
                            mod_dir@,
                            topic_inputs_model(topics),
                            tcur as int,
                            facts.deep_view(),
                            listings.deep_view(),
                            index as int,
                        ));
                    }
                    r
                },
                Some(t) => {
                    let treq = join_strings(mod_dir, t);
                    match canon_of_exec(facts, &treq) {
                        None => Err(HydrateTrackError::Missing(treq)),
                        Some(c) => {
                            let r = Ok(
                                (
                                    Indexed {
                                        data: Unit {
                                            name: def.name.clone(),
                                            template: Some(c),
                                            topics: tops,
                                        },
                                        index,
                                    },
                                    newcur,
                                ),
                            );
                            proof {
                                assert(res_unit_model(&r) == spec_resolve_unit(
                                    def@,
                                    mod_dir@,
                                    topic_inputs_model(topics),
                                    tcur as int,
                                    facts.deep_view(),
                                    listings.deep_view(),
                                    index as int,
                                ));
                            }
                            r
                        },
                    }
                },
            }
        },
    }
}

/// The units of one module resolved in order, threading the topic
/// cursor.
pub open spec fn spec_resolve_units(
    us: Seq<UnitDefM>,
    mod_dir: Seq<char>,
    ts: Seq<Option<(Seq<char>, TopicDefM)>>,
    tcur: int,
    facts: Seq<FactM>,
    listings: Seq<ListingM>,
    idx: int,
) -> Result<(Seq<UnitM>, int), HydrateM>
    decreases us.len(),
{
    if us.len() == 0 {
        Ok((Seq::empty(), tcur))
    } else {
        match spec_resolve_unit(us[0], mod_dir, ts, tcur, facts, listings, idx) {
            Err(e) => Err(e),
            Ok(hd) => match spec_resolve_units(
                us.drop_first(),
                mod_dir,
                ts,
                hd.1,
                facts,
                listings,
                idx + 1,
            ) {
                Err(e) => Err(e),
                Ok(rest) => Ok((seq![hd.0] + rest.0, rest.1)),
            },
        }
    }
}

/// The model of a module-resolution result.
pub open spec fn res_module_model(
    r: &Result<(Indexed<Module>, usize), HydrateTrackError>,
) -> Result<(ModuleM, int), HydrateM> {
    match r {
        Ok(v) => Ok((crate::model::module_model(&v.0), v.1 as int)),
        Err(e) => Err(hydrate_model(e)),
    }
}

/// One module resolved from its loaded record: its units in order,
/// against the module file's own directory.
pub open spec fn spec_resolve_module(
    m: ModuleDefM,
    mpath: Seq<char>,
    ts: Seq<Option<(Seq<char>, TopicDefM)>>,
    tcur: int,
    facts: Seq<FactM>,
    listings: Seq<ListingM>,
    index: int,
) -> Result<(ModuleM, int), HydrateM> {
    match spec_resolve_units(m.units, spec_parent(mpath), ts, tcur, facts, listings, 1) {
        Err(e) => Err(e),
        Ok(us) => Ok(
            (
                ModuleM { index, name: m.name, description: m.description, units: us.0 },
                us.1,
            ),
        ),
    }
}

/// Resolves one loaded module record.
pub fn resolve_module(
    def: &ModuleDef,
    mpath: &String,
    topics: &Vec<Option<PathTo<TopicDef>>>,
    tcur: usize,
    facts: &Vec<PathFact>,
    listings: &Vec<DirListing>,
    index: usize,
) -> (r: Result<(Indexed<Module>, usize), HydrateTrackError>)
    requires
        tcur <= topics@.len(),
        topics_ex_sum(topic_inputs_model(topics)) <= usize::MAX,
    ensures
        res_module_model(&r) == spec_resolve_module(
            def@,
            mpath@,
            topic_inputs_model(topics),
            tcur as int,
            facts.deep_view(),
            listings.deep_view(),
            index as int,
        ),
        r matches Ok(v) ==> v.1 <= topics@.len(),
{
    let ghost usm = def@.units;
    let ghost tsm = topic_inputs_model(topics);
    let ghost dv = facts.deep_view();
    let ghost lv = listings.deep_view();
    let mod_dir = parent_string(mpath);
    let mut out: Vec<Indexed<Unit>> = Vec::new();
    let mut cur: usize = tcur;
    let mut j: usize = 0;
    proof {
        assert(usm.skip(0) =~= usm);
        assert(usm.len() == def.units@.len());
    }
    while j < def.units.len()
        invariant
            j <= def.units@.len(),
            usm == def@.units,
            usm.len() == def.units@.len(),
            tsm == topic_inputs_model(topics),
            dv == facts.deep_view(),
            lv == listings.deep_view(),
            cur <= topics@.len(),
            topics_ex_sum(tsm) <= usize::MAX,
            out@.len() == j as int,
            spec_resolve_units(usm, mod_dir@, tsm, tcur as int, dv, lv, 1) == match
                spec_resolve_units(usm.skip(j as int), mod_dir@, tsm, cur as int, dv, lv, 1 + j) {
                Ok(rest) => Ok::<(Seq<UnitM>, int), HydrateM>(
                    (
                        out@.map_values(|u: Indexed<Unit>| crate::model::unit_model(&u)) + rest.0,
                        rest.1,
                    ),
                ),
                Err(e) => Err::<(Seq<UnitM>, int), HydrateM>(e),
            },
            mod_dir@ == spec_parent(mpath@),
        decreases def.units@.len() - j,
    {
        let ghost suffix = usm.skip(j as int);
        proof {
            assert(suffix[0] == usm[j as int]);
            assert(usm[j as int] == def.units@[j as int]@);
            assert(suffix.drop_first() =~= usm.skip(j as int + 1));
        }
        let ghost out0 = out@;
        match resolve_unit(&def.units[j], &mod_dir, topics, cur, facts, listings, j + 1) {
            Ok(v) => {
                let (u, newcur) = v;
                let ghost um = crate::model::unit_model(&u);
                out.push(u);
                cur = newcur;
                proof {
                    let f = |u: Indexed<Unit>| crate::model::unit_model(&u);
                    let om0 = out0.map_values(f);
                    let om1 = out@.map_values(f);
                    let omx = om0 + seq![um];
                    assert forall|jj: int| 0 <= jj < om1.len() implies om1[jj] == omx[jj] by {
                        if jj < out0.len() {
                            assert(out@[jj] == out0[jj]);
                        } else {
                            assert(out@[jj] == out@.last());
                        }
                    }
                    assert(om1 =~= omx);
                    let tail = spec_resolve_units(
                        usm.skip(j as int + 1),
                        mod_dir@,
                        tsm,
                        cur as int,
                        dv,
                        lv,
                        1 + j + 1,
                    );
                    if tail is Ok {
                        let rest = tail->Ok_0;
                        assert(om0 + (seq![um] + rest.0) =~= om1 + rest.0);
                    }
                }
                j += 1;
            },
            Err(e) => {
                return Err(e);
            },
        }
    }
    proof {
        assert(usm.skip(usm.len() as int) =~= Seq::<UnitDefM>::empty());
        let om = out@.map_values(|u: Indexed<Unit>| crate::model::unit_model(&u));
        assert(om + Seq::<UnitM>::empty() =~= om);
    }
    Ok(
        (
            Indexed {
                data: Module {
                    name: def.name.clone(),
                    description: def.description.clone(),
                    units: out,
                },
                index,
            },
            cur,
        ),
    )
}

/// The model of the module-load input list: each loaded module record
/// with its canonical path, aligned with the track's module references.
pub open spec fn module_inputs_model(v: &Vec<Option<PathTo<ModuleDef>>>) -> Seq<
    Option<(Seq<char>, ModuleDefM)>,
> {
    v@.map_values(
        |o: Option<PathTo<ModuleDef>>|
            match o {
                Some(pt) => Some((pt.path@, pt.data@)),
                None => None::<(Seq<char>, ModuleDefM)>,
            },
    )
}

/// The entry of the module input list at position `i`; out of range reads
/// as a failed load.
pub open spec fn module_in_at(
    ms: Seq<Option<(Seq<char>, ModuleDefM)>>,
    i: int,
) -> Option<(Seq<char>, ModuleDefM)> {
    if 0 <= i < ms.len() {
        ms[i]
    } else {
        None
    }
}

/// The track's modules resolved in order: each referenced module file
/// must have been loaded; the topic cursor threads through.
pub open spec fn spec_resolve_modules(
    paths: Seq<Seq<char>>,
    base: Seq<char>,
    ms: Seq<Option<(Seq<char>, ModuleDefM)>>,
    mi: int,
    ts: Seq<Option<(Seq<char>, TopicDefM)>>,
    tcur: int,
    facts: Seq<FactM>,
    listings: Seq<ListingM>,
) -> Result<(Seq<ModuleM>, int), HydrateM>
    decreases paths.len(),
{
    if paths.len() == 0 {
        Ok((Seq::empty(), tcur))
    } else {
        let mreq = spec_join(base, paths[0]);
        match module_in_at(ms, mi) {
            None => Err(HydrateM { load: Some(ItemKind::Module), path: mreq }),
            Some(min) => match spec_resolve_module(
                min.1,
                min.0,
                ts,
                tcur,
                facts,
                listings,
                mi + 1,
            ) {
                Err(e) => Err(e),
                Ok(hd) => match spec_resolve_modules(
                    paths.drop_first(),
                    base,
                    ms,
                    mi + 1,
                    ts,
                    hd.1,
                    facts,
                    listings,
                ) {
                    Err(e) => Err(e),
                    Ok(rest) => Ok((seq![hd.0] + rest.0, rest.1)),
                },
            },
        }
    }
}

/// The model of a track-resolution result.
pub open spec fn res_track_model(
    r: &Result<Track, HydrateTrackError>,
) -> Result<TrackM, HydrateM> {
    match r {
        Ok(t) => Ok(t@),
        Err(e) => Err(hydrate_model(e)),
    }
}

/// The whole track resolved from its definition, the loaded module and
/// topic records, the canonicalization facts and the image-directory
/// listings.
pub open spec fn spec_resolve_track(
    t: TrackDefM,
    track_path: Seq<char>,
    ms: Seq<Option<(Seq<char>, ModuleDefM)>>,
    ts: Seq<Option<(Seq<char>, TopicDefM)>>,
    facts: Seq<FactM>,
    listings: Seq<ListingM>,
) -> Result<TrackM, HydrateM> {
    match spec_resolve_modules(
        t.modules,
        spec_parent(track_path),
        ms,
        0,
        ts,
        0,
        facts,
        listings,
    ) {
        Err(e) => Err(e),
        Ok(mods) => Ok(TrackM { name: t.name, modules: mods.0 }),
    }
}

/// Resolves the whole track.  Deterministic: the result is a function of
/// the inputs alone, so resolving the same inputs twice yields identical
/// ordinals and canonical paths.
pub fn resolve_track(
    def: &TrackDef,
    track_path: &String,
    modules: &Vec<Option<PathTo<ModuleDef>>>,
    topics: &Vec<Option<PathTo<TopicDef>>>,
    facts: &Vec<PathFact>,
    listings: &Vec<DirListing>,
) -> (r: Result<Track, HydrateTrackError>)
    requires
        topics_ex_sum(topic_inputs_model(topics)) <= usize::MAX,
    ensures
        res_track_model(&r) == spec_resolve_track(
            def@,
            track_path@,
            module_inputs_model(modules),
            topic_inputs_model(topics),
            facts.deep_view(),
            listings.deep_view(),
        ),
{
    let ghost pm = def@.modules;
    let ghost msm = module_inputs_model(modules);
    let ghost tsm = topic_inputs_model(topics);
    let ghost dv = facts.deep_view();
    let ghost lv = listings.deep_view();
    let base = parent_string(track_path);
    let mut out: Vec<Indexed<Module>> = Vec::new();
    let mut tcur: usize = 0;
    let mut i: usize = 0;
    proof {
        assert(pm.skip(0) =~= pm);
        assert(pm.len() == def.modules@.len());
        assert(msm.len() == modules@.len());
    }
    while i < def.modules.len()
        invariant
            i <= def.modules@.len(),
            pm == def@.modules,
            pm.len() == def.modules@.len(),
            msm == module_inputs_model(modules),
            msm.len() == modules@.len(),
            tsm == topic_inputs_model(topics),
            dv == facts.deep_view(),
            lv == listings.deep_view(),
            tcur <= topics@.len(),
            topics_ex_sum(tsm) <= usize::MAX,
            out@.len() == i as int,
            spec_resolve_modules(pm, base@, msm, 0, tsm, 0, dv, lv) == match
                spec_resolve_modules(
                pm.skip(i as int),
                base@,
                msm,
                i as int,
                tsm,
                tcur as int,
                dv,
                lv,
            ) {
                Ok(rest) => Ok::<(Seq<ModuleM>, int), HydrateM>(
                    (
                        out@.map_values(|m: Indexed<Module>| crate::model::module_model(&m))
                            + rest.0,
                        rest.1,
                    ),
                ),
                Err(e) => Err::<(Seq<ModuleM>, int), HydrateM>(e),
            },
            base@ == spec_parent(track_path@),
        decreases def.modules@.len() - i,
    {
        let ghost suffix = pm.skip(i as int);
        proof {
            assert(suffix[0] == pm[i as int]);
            assert(pm[i as int] == def.modules@[i as int]@);
            assert(suffix.drop_first() =~= pm.skip(i as int + 1));
        }
        let mreq = join_strings(&base, &def.modules[i]);
        let loaded = if i < modules.len() {
            &modules[i]
        } else {
            &None
        };
        match loaded {
            None => {
                proof {
                    if i < modules@.len() {
                        assert(msm[i as int] == module_inputs_model(modules)[i as int]);
                    }
                    assert(module_in_at(msm, i as int) is None);
                }
                return Err(
                    HydrateTrackError::Load(LoadError { kind: ItemKind::Module, path: mreq }),
                );
            },
            Some(pt) => {
                proof {
                    assert(msm[i as int] == Some((pt.path@, pt.data@)));
                }
                let ghost out0 = out@;
                match resolve_module(&pt.data, &pt.path, topics, tcur, facts, listings, i + 1) {
                    Ok(v) => {
                        let (m, newcur) = v;
                        let ghost mm = crate::model::module_model(&m);
                        out.push(m);
                        tcur = newcur;
                        proof {
                            let f = |m: Indexed<Module>| crate::model::module_model(&m);
                            let om0 = out0.map_values(f);
                            let om1 = out@.map_values(f);
                            let omx = om0 + seq![mm];
                            assert forall|jj: int| 0 <= jj < om1.len() implies om1[jj] == omx[
                                jj
                            ] by {
                                if jj < out0.len() {
                                    assert(out@[jj] == out0[jj]);
                                } else {
                                    assert(out@[jj] == out@.last());
                                }
                            }
                            assert(om1 =~= omx);
                            let tail = spec_resolve_modules(
                                pm.skip(i as int + 1),
                                base@,
                                msm,
                                i as int + 1,
                                tsm,
                                tcur as int,
                                dv,
                                lv,
                            );
                            if tail is Ok {
                                let rest = tail->Ok_0;
                                assert(om0 + (seq![mm] + rest.0) =~= om1 + rest.0);
                            }
                        }
                        i += 1;
                    },
                    Err(e) => {
                        return Err(e);
                    },
                }
            },
        }
    }
    proof {
        assert(pm.skip(pm.len() as int) =~= Seq::<Seq<char>>::empty());
        let om = out@.map_values(|m: Indexed<Module>| crate::model::module_model(&m));
        assert(om + Seq::<ModuleM>::empty() =~= om);
    }
    let t = Track { name: def.name.clone(), modules: out };
    proof {
        assert(t@.modules =~= t.modules@.map_values(
            |m: Indexed<Module>| crate::model::module_model(&m),
        ));
    }
    Ok(t)
}

/// Resolution is deterministic: the resolved tree, with all its ordinal
/// indices and canonical paths, is a function of the definition records,
/// load outcomes, canonicalization facts and listings alone, so resolving
/// the same inputs twice yields the same tree.
pub proof fn lemma_resolve_deterministic(
    t1: TrackDefM,
    p1: Seq<char>,
    ms1: Seq<Option<(Seq<char>, ModuleDefM)>>,
    ts1: Seq<Option<(Seq<char>, TopicDefM)>>,
    f1: Seq<FactM>,
    l1: Seq<ListingM>,
    t2: TrackDefM,
    p2: Seq<char>,
    ms2: Seq<Option<(Seq<char>, ModuleDefM)>>,
    ts2: Seq<Option<(Seq<char>, TopicDefM)>>,
    f2: Seq<FactM>,
    l2: Seq<ListingM>,
)
    requires
        t1 == t2,
        p1 == p2,
        ms1 == ms2,
        ts1 == ts2,
        f1 == f2,
        l1 == l2,
    ensures
        spec_resolve_track(t1, p1, ms1, ts1, f1, l1) == spec_resolve_track(
            t2,
            p2,
            ms2,
            ts2,
            f2,
            l2,
        ),
{
}

proof fn lemma_topics_ordinals(
    names: Seq<Seq<char>>,
    mod_dir: Seq<char>,
    ts: Seq<Option<(Seq<char>, TopicDefM)>>,
    tcur: int,
    facts: Seq<FactM>,
    listings: Seq<ListingM>,
    idx: int,
    ex_start: int,
)
    ensures
        spec_resolve_topics(names, mod_dir, ts, tcur, facts, listings, idx, ex_start) matches Ok(
            v,
        ) ==> v.len() == names.len() && forall|k: int|
            0 <= k < v.len() ==> (#[trigger] v[k]).index == idx + k,
    decreases names.len(),
{
    if names.len() > 0 {
        match topic_in_at(ts, tcur) {
            None => {},
            Some(tin) => {
                lemma_topics_ordinals(
                    names.drop_first(),
                    mod_dir,
                    ts,
                    tcur + 1,
                    facts,
                    listings,
                    idx + 1,
                    ex_start + tin.1.exercises.len(),
                );
            },
        }
    }
}

proof fn lemma_units_ordinals(
    us: Seq<UnitDefM>,
    mod_dir: Seq<char>,
    ts: Seq<Option<(Seq<char>, TopicDefM)>>,
    tcur: int,
    facts: Seq<FactM>,
    listings: Seq<ListingM>,
    idx: int,
)
    ensures
        spec_resolve_units(us, mod_dir, ts, tcur, facts, listings, idx) matches Ok(v) ==> v.0.len()
            == us.len() && forall|k: int|
            0 <= k < v.0.len() ==> (#[trigger] v.0[k]).index == idx + k && v.0[k].topics.len()
                == us[k].topics.len() && (forall|j: int|
                0 <= j < v.0[k].topics.len() ==> (#[trigger] v.0[k].topics[j]).index == 1 + j),
    decreases us.len(),
{
    if us.len() > 0 {
        lemma_topics_ordinals(us[0].topics, mod_dir, ts, tcur, facts, listings, 1, 0);
        match spec_resolve_unit(us[0], mod_dir, ts, tcur, facts, listings, idx) {
            Err(_) => {},
            Ok(hd) => {
                lemma_units_ordinals(
                    us.drop_first(),
                    mod_dir,
                    ts,
                    hd.1,
                    facts,
                    listings,
                    idx + 1,
                );
            },
        }
    }
}

proof fn lemma_modules_ordinals(
    paths: Seq<Seq<char>>,
    base: Seq<char>,
    ms: Seq<Option<(Seq<char>, ModuleDefM)>>,
    mi: int,
    ts: Seq<Option<(Seq<char>, TopicDefM)>>,
    tcur: int,
    facts: Seq<FactM>,
    listings: Seq<ListingM>,
)
    ensures
        spec_resolve_modules(paths, base, ms, mi, ts, tcur, facts, listings) matches Ok(v)
            ==> v.0.len() == paths.len() && forall|k: int|
            0 <= k < v.0.len() ==> (#[trigger] v.0[k]).index == mi + 1 + k && (forall|j: int|
                0 <= j < v.0[k].units.len() ==> (#[trigger] v.0[k].units[j]).index == 1 + j && (
                forall|i: int|
                    0 <= i < v.0[k].units[j].topics.len() ==> (#[trigger] v.0[k].units[j].topics[i]).index
                        == 1 + i)),
    decreases paths.len(),
{
    if paths.len() > 0 {
        match module_in_at(ms, mi) {
            None => {},
            Some(min) => {
                lemma_units_ordinals(min.1.units, spec_parent(min.0), ts, tcur, facts, listings, 1);
                match spec_resolve_module(min.1, min.0, ts, tcur, facts, listings, mi + 1) {
                    Err(_) => {},
                    Ok(hd) => {
                        lemma_modules_ordinals(
                            paths.drop_first(),
                            base,
                            ms,
                            mi + 1,
                            ts,
                            hd.1,
                            facts,
                            listings,
                        );
                    },
                }
            },
        }
    }
}

/// Sibling ordinals are contiguous, 1-based, and assigned in declaration
/// order: in a resolved track the k-th module has ordinal k+1, and within
/// each module the j-th unit has ordinal j+1, within each unit the j-th
/// topic ordinal j+1.
pub proof fn lemma_resolve_ordinals(
    t: TrackDefM,
    track_path: Seq<char>,
    ms: Seq<Option<(Seq<char>, ModuleDefM)>>,
    ts: Seq<Option<(Seq<char>, TopicDefM)>>,
    facts: Seq<FactM>,
    listings: Seq<ListingM>,
)
    ensures
        spec_resolve_track(t, track_path, ms, ts, facts, listings) matches Ok(v) ==> v.modules.len()
            == t.modules.len() && forall|k: int|
            0 <= k < v.modules.len() ==> (#[trigger] v.modules[k]).index == 1 + k && (forall|
                j: int,
            |
                0 <= j < v.modules[k].units.len() ==> (#[trigger] v.modules[k].units[j]).index == 1
                    + j && (forall|i: int|
                    0 <= i < v.modules[k].units[j].topics.len() ==> (#[trigger] v.modules[k].units[j].topics[i]).index == 1 + i)),
{
    lemma_modules_ordinals(t.modules, spec_parent(track_path), ms, 0, ts, 0, facts, listings);
    match spec_resolve_modules(t.modules, spec_parent(track_path), ms, 0, ts, 0, facts, listings) {
        Err(_) => {},
        Ok(v0) => {
            assert forall|k: int| 0 <= k < v0.0.len() implies (#[trigger] v0.0[k]).index == 1 + k
                && (forall|j: int|
                0 <= j < v0.0[k].units.len() ==> (#[trigger] v0.0[k].units[j]).index == 1 + j && (
                forall|i: int|
                    0 <= i < v0.0[k].units[j].topics.len() ==> (#[trigger] v0.0[k].units[j].topics[i]).index == 1 + i)) by {
                assert(v0.0[k].index == 0 + 1 + k);
                let mdl = v0.0[k];
                assert forall|j: int| 0 <= j < mdl.units.len() implies (#[trigger] mdl.units[j]).index == 1 + j && (forall|i: int|
                    0 <= i < mdl.units[j].topics.len() ==> (#[trigger] mdl.units[j].topics[i]).index == 1 + i) by {}
            }
        },
    }
}

proof fn lemma_exercises_ordinals(
    exs: Seq<ExerciseDefM>,
    base: Seq<char>,
    facts: Seq<FactM>,
    start: int,
)
    ensures
        spec_resolve_exercises(exs, base, facts, start) matches Ok(v) ==> v.len() == exs.len()
            && forall|j: int| 0 <= j < v.len() ==> (#[trigger] v[j]).index == start + 1 + j,
    decreases exs.len(),
{
    if exs.len() > 0 {
        match spec_resolve_exercise(exs[0], base, facts, start + 1) {
            Err(_) => {},
            Ok(_) => {
                lemma_exercises_ordinals(exs.drop_first(), base, facts, start + 1);
            },
        }
    }
}

/// Sum of exercise counts over resolved topics.
pub open spec fn resolved_ex_count(v: Seq<TopicM>) -> int
    decreases v.len(),
{
    if v.len() == 0 {
        0
    } else {
        v[0].exercises.len() + resolved_ex_count(v.drop_first())
    }
}

proof fn lemma_topics_exercise_ordinals(
    names: Seq<Seq<char>>,
    mod_dir: Seq<char>,
    ts: Seq<Option<(Seq<char>, TopicDefM)>>,
    tcur: int,
    facts: Seq<FactM>,
    listings: Seq<ListingM>,
    idx: int,
    ex_start: int,
)
    ensures
        spec_resolve_topics(names, mod_dir, ts, tcur, facts, listings, idx, ex_start) matches Ok(
            v,
        ) ==> v.len() == names.len() && forall|k: int, j: int|
            0 <= k < v.len() && 0 <= j < v[k].exercises.len() ==> (#[trigger] v[k].exercises[j]).index
                == ex_start + resolved_ex_count(v.take(k)) + 1 + j,
    decreases names.len(),
{
    if names.len() > 0 {
        match topic_in_at(ts, tcur) {
            None => {},
            Some(tin) => {
                let base = spec_parent(tin.0);
                lemma_exercises_ordinals(tin.1.exercises, base, facts, ex_start);
                match spec_resolve_topic(tin.1, tin.0, facts, listings, idx, ex_start) {
                    Err(_) => {},
                    Ok(tm) => {
                        lemma_topics_exercise_ordinals(
                            names.drop_first(),
                            mod_dir,
                            ts,
                            tcur + 1,
                            facts,
                            listings,
                            idx + 1,
                            ex_start + tin.1.exercises.len(),
                        );
                        let r = spec_resolve_topics(
                            names,
                            mod_dir,
                            ts,
                            tcur,
                            facts,
                            listings,
                            idx,
                            ex_start,
                        );
                        if r is Ok {
                            let v = r->Ok_0;
                            let rest = spec_resolve_topics(
                                names.drop_first(),
                                mod_dir,
                                ts,
                                tcur + 1,
                                facts,
                                listings,
                                idx + 1,
                                ex_start + tin.1.exercises.len(),
                            )->Ok_0;
                            assert(v =~= seq![tm] + rest);
                            assert(tm.exercises.len() == tin.1.exercises.len());
                            assert forall|k: int, j: int|
                                0 <= k < v.len() && 0 <= j < v[k].exercises.len() implies (
                            #[trigger] v[k].exercises[j]).index == ex_start + resolved_ex_count(
                                v.take(k),
                            ) + 1 + j by {
                                if k == 0 {
                                    assert(v.take(0) =~= Seq::<TopicM>::empty());
                                    assert(resolved_ex_count(v.take(0)) == 0);
                                    assert(v[0] == tm);
                                } else {
                                    assert(v[k] == rest[k - 1]);
                                    assert(rest[k - 1].exercises[j].index == (ex_start
                                        + tin.1.exercises.len()) + resolved_ex_count(
                                        rest.take(k - 1),
                                    ) + 1 + j);
                                    assert(v.take(k) =~= seq![tm] + rest.take(k - 1));
                                    assert((seq![tm] + rest.take(k - 1))[0] == tm);
                                    assert((seq![tm] + rest.take(k - 1)).drop_first()
                                        =~= rest.take(k - 1));
                                    assert(resolved_ex_count(v.take(k)) == tm.exercises.len()
                                        + resolved_ex_count(rest.take(k - 1)));
                                }
                            }
                        }
                    },
                }
            },
        }
    }
}

/// Within a resolved unit, exercise ordinals run cumulatively across its
/// topics: the j-th exercise of the k-th topic has ordinal 1 + j + the
/// number of exercises in the earlier topics.
pub proof fn lemma_unit_exercise_ordinals(
    u: UnitDefM,
    mod_dir: Seq<char>,
    ts: Seq<Option<(Seq<char>, TopicDefM)>>,
    tcur: int,
    facts: Seq<FactM>,
    listings: Seq<ListingM>,
    index: int,
)
    ensures
        spec_resolve_unit(u, mod_dir, ts, tcur, facts, listings, index) matches Ok(v) ==> forall|
            k: int,
            j: int,
        |
            0 <= k < v.0.topics.len() && 0 <= j < v.0.topics[k].exercises.len() ==> (
            #[trigger] v.0.topics[k].exercises[j]).index == resolved_ex_count(v.0.topics.take(k))
                + 1 + j,
{
    lemma_topics_exercise_ordinals(u.topics, mod_dir, ts, tcur, facts, listings, 1, 0);
}

proof fn lemma_exercises_ok_paths(
    exs: Seq<ExerciseDefM>,
    base: Seq<char>,
    facts: Seq<FactM>,
    start: int,
)
    ensures
        spec_resolve_exercises(exs, base, facts, start) is Ok ==> forall|j: int|
            0 <= j < exs.len() ==> canon_of(facts, spec_join(base, (#[trigger] exs[j]).path))
                is Some && canon_of(
                facts,
                spec_join(canon_of(facts, spec_join(base, exs[j].path))->Some_0, exs[j].description),
            ) is Some,
    decreases exs.len(),
{
    if exs.len() > 0 {
        match spec_resolve_exercise(exs[0], base, facts, start + 1) {
            Err(_) => {},
            Ok(_) => {
                lemma_exercises_ok_paths(exs.drop_first(), base, facts, start + 1);
                if spec_resolve_exercises(exs, base, facts, start) is Ok {
                    assert forall|j: int|
                        0 <= j < exs.len() implies canon_of(
                        facts,
                        spec_join(base, (#[trigger] exs[j]).path),
                    ) is Some && canon_of(
                        facts,
                        spec_join(
                            canon_of(facts, spec_join(base, exs[j].path))->Some_0,
                            exs[j].description,
                        ),
                    ) is Some by {
                        if j > 0 {
                            assert(exs.drop_first()[j - 1] == exs[j]);
                        }
                    }
                }
            },
        }
    }
}

/// A topic resolves only when everything it references exists: its
/// content document canonicalizes, and so do every exercise's source
/// directory and the description document inside it.  With
/// `lemma_missing_module_fails` and `lemma_resolve_failure_names_path`
/// this gives the all-or-nothing property for every referenced path.
pub proof fn lemma_topic_ok_paths_present(
    t: TopicDefM,
    tpath: Seq<char>,
    facts: Seq<FactM>,
    listings: Seq<ListingM>,
    index: int,
    ex_start: int,
)
    ensures
        spec_resolve_topic(t, tpath, facts, listings, index, ex_start) is Ok ==> canon_of(
            facts,
            spec_join(spec_parent(tpath), t.content),
        ) is Some && forall|j: int|
            0 <= j < t.exercises.len() ==> canon_of(
                facts,
                spec_join(spec_parent(tpath), (#[trigger] t.exercises[j]).path),
            ) is Some && canon_of(
                facts,
                spec_join(
                    canon_of(facts, spec_join(spec_parent(tpath), t.exercises[j].path))->Some_0,
                    t.exercises[j].description,
                ),
            ) is Some,
{
    lemma_exercises_ok_paths(t.exercises, spec_parent(tpath), facts, ex_start);
}

proof fn lemma_topics_ok_loaded(
    names: Seq<Seq<char>>,
    mod_dir: Seq<char>,
    ts: Seq<Option<(Seq<char>, TopicDefM)>>,
    tcur: int,
    facts: Seq<FactM>,
    listings: Seq<ListingM>,
    idx: int,
    ex_start: int,
)
    ensures
        spec_resolve_topics(names, mod_dir, ts, tcur, facts, listings, idx, ex_start) is Ok
            ==> forall|k: int| 0 <= k < names.len() ==> (#[trigger] topic_in_at(ts, tcur + k))
                is Some,
    decreases names.len(),
{
    if names.len() > 0 {
        match topic_in_at(ts, tcur) {
            None => {},
            Some(tin) => {
                lemma_topics_ok_loaded(
                    names.drop_first(),
                    mod_dir,
                    ts,
                    tcur + 1,
                    facts,
                    listings,
                    idx + 1,
                    ex_start + tin.1.exercises.len(),
                );
                if spec_resolve_topics(names, mod_dir, ts, tcur, facts, listings, idx, ex_start)
                    is Ok {
                    assert forall|k: int| 0 <= k < names.len() implies (#[trigger] topic_in_at(
                        ts,
                        tcur + k,
                    )) is Some by {
                        if k > 0 {
                            assert(topic_in_at(ts, (tcur + 1) + (k - 1)) is Some);
                        }
                    }
                }
            },
        }
    }
}

/// A unit resolves only when everything it references exists: every
/// referenced topic definition was loaded (at its cursor position), and
/// its template document, if it names one, canonicalizes.
pub proof fn lemma_unit_ok_refs_present(
    u: UnitDefM,
    mod_dir: Seq<char>,
    ts: Seq<Option<(Seq<char>, TopicDefM)>>,
    tcur: int,
    facts: Seq<FactM>,
    listings: Seq<ListingM>,
    index: int,
)
    ensures
        spec_resolve_unit(u, mod_dir, ts, tcur, facts, listings, index) is Ok ==> (
        u.template matches Some(tp) ==> canon_of(facts, spec_join(mod_dir, tp)) is Some)
            && forall|k: int|
            0 <= k < u.topics.len() ==> (#[trigger] topic_in_at(ts, tcur + k)) is Some,
{
    lemma_topics_ok_loaded(u.topics, mod_dir, ts, tcur, facts, listings, 1, 0);
}

proof fn lemma_exercises_err_missing(
    exs: Seq<ExerciseDefM>,
    base: Seq<char>,
    facts: Seq<FactM>,
    start: int,
)
    ensures
        spec_resolve_exercises(exs, base, facts, start) matches Err(h) ==> h.load is None
            && canon_of(facts, h.path) is None,
    decreases exs.len(),
{
    if exs.len() > 0 {
        lemma_exercises_err_missing(exs.drop_first(), base, facts, start + 1);
    }
}

proof fn lemma_topics_err_names(
    names: Seq<Seq<char>>,
    mod_dir: Seq<char>,
    ts: Seq<Option<(Seq<char>, TopicDefM)>>,
    tcur: int,
    facts: Seq<FactM>,
    listings: Seq<ListingM>,
    idx: int,
    ex_start: int,
)
    ensures
        spec_resolve_topics(names, mod_dir, ts, tcur, facts, listings, idx, ex_start) matches Err(
            h,
        ) ==> (h.load is None && canon_of(facts, h.path) is None) || (h.load == Some(
            ItemKind::Topic,
        ) && exists|k: int|
            0 <= k < names.len() && topic_in_at(ts, tcur + k) is None && h.path == spec_join(
                mod_dir,
                names[k],
            )),
    decreases names.len(),
{
    if names.len() > 0 {
        match topic_in_at(ts, tcur) {
            None => {
                let r = spec_resolve_topics(
                    names,
                    mod_dir,
                    ts,
                    tcur,
                    facts,
                    listings,
                    idx,
                    ex_start,
                );
                assert(r matches Err(h) ==> {
                    let k = 0int;
                    0 <= k < names.len() && topic_in_at(ts, tcur + k) is None && h.path
                        == spec_join(mod_dir, names[k])
                });
            },
            Some(tin) => {
                lemma_exercises_err_missing(tin.1.exercises, spec_parent(tin.0), facts, ex_start);
                lemma_topics_err_names(
                    names.drop_first(),
                    mod_dir,
                    ts,
                    tcur + 1,
                    facts,
                    listings,
                    idx + 1,
                    ex_start + tin.1.exercises.len(),
                );
                let rest = spec_resolve_topics(
                    names.drop_first(),
                    mod_dir,
                    ts,
                    tcur + 1,
                    facts,
                    listings,
                    idx + 1,
                    ex_start + tin.1.exercises.len(),
                );
                if rest is Err {
                    let h = rest->Err_0;
                    if h.load == Some(ItemKind::Topic) {
                        let k0 = choose|k: int|
                            0 <= k < names.drop_first().len() && topic_in_at(ts, tcur + 1 + k)
                                is None && h.path == spec_join(mod_dir, names.drop_first()[k]);
                        assert(names.drop_first()[k0] == names[k0 + 1]);
                        assert(0 <= k0 + 1 < names.len() && topic_in_at(ts, tcur + (k0 + 1))
                            is None && h.path == spec_join(mod_dir, names[k0 + 1]));
                    }
                }
            },
        }
    }
}

proof fn lemma_units_err_names(
    us: Seq<UnitDefM>,
    mod_dir: Seq<char>,
    ts: Seq<Option<(Seq<char>, TopicDefM)>>,
    tcur: int,
    facts: Seq<FactM>,
    listings: Seq<ListingM>,
    idx: int,
)
    ensures
        spec_resolve_units(us, mod_dir, ts, tcur, facts, listings, idx) matches Err(h) ==> (h.load
            is None && canon_of(facts, h.path) is None) || (h.load == Some(ItemKind::Topic)
            && exists|cur: int| topic_in_at(ts, cur) is None),
    decreases us.len(),
{
    if us.len() > 0 {
        lemma_topics_err_names(us[0].topics, mod_dir, ts, tcur, facts, listings, 1, 0);
        match spec_resolve_unit(us[0], mod_dir, ts, tcur, facts, listings, idx) {
            Err(_) => {},
            Ok(hd) => {
                lemma_units_err_names(
                    us.drop_first(),
                    mod_dir,
                    ts,
                    hd.1,
                    facts,
                    listings,
                    idx + 1,
                );
            },
        }
    }
}

proof fn lemma_modules_err_names(
    paths: Seq<Seq<char>>,
    base: Seq<char>,
    ms: Seq<Option<(Seq<char>, ModuleDefM)>>,
    mi: int,
    ts: Seq<Option<(Seq<char>, TopicDefM)>>,
    tcur: int,
    facts: Seq<FactM>,
    listings: Seq<ListingM>,
)
    ensures
        spec_resolve_modules(paths, base, ms, mi, ts, tcur, facts, listings) matches Err(h) ==> (
        h.load is None && canon_of(facts, h.path) is None) || (h.load == Some(ItemKind::Topic)
            && exists|cur: int| topic_in_at(ts, cur) is None) || (h.load == Some(ItemKind::Module)
            && exists|k: int|
            0 <= k < paths.len() && module_in_at(ms, mi + k) is None && h.path == spec_join(
                base,
                paths[k],
            )),
    decreases paths.len(),
{
    if paths.len() > 0 {
        match module_in_at(ms, mi) {
            None => {
                let r = spec_resolve_modules(paths, base, ms, mi, ts, tcur, facts, listings);
                assert(r matches Err(h) ==> {
                    let k = 0int;
                    0 <= k < paths.len() && module_in_at(ms, mi + k) is None && h.path
                        == spec_join(base, paths[k])
                });
            },
            Some(min) => {
                lemma_units_err_names(min.1.units, spec_parent(min.0), ts, tcur, facts, listings, 1);
                match spec_resolve_module(min.1, min.0, ts, tcur, facts, listings, mi + 1) {
                    Err(_) => {},
                    Ok(hd) => {
                        lemma_modules_err_names(
                            paths.drop_first(),
                            base,
                            ms,
                            mi + 1,
                            ts,
                            hd.1,
                            facts,
                            listings,
                        );
                        let rest = spec_resolve_modules(
                            paths.drop_first(),
                            base,
                            ms,
                            mi + 1,
                            ts,
                            hd.1,
                            facts,
                            listings,
                        );
                        if rest is Err {
                            let h = rest->Err_0;
                            if h.load == Some(ItemKind::Module) {
                                let k0 = choose|k: int|
                                    0 <= k < paths.drop_first().len() && module_in_at(
                                        ms,
                                        mi + 1 + k,
                                    ) is None && h.path == spec_join(base, paths.drop_first()[k]);
                                assert(paths.drop_first()[k0] == paths[k0 + 1]);
                                assert(0 <= k0 + 1 < paths.len() && module_in_at(ms, mi + (k0 + 1))
                                    is None && h.path == spec_join(base, paths[k0 + 1]));
                            }
                        }
                    },
                }
            },
        }
    }
}

/// Resolution is all-or-nothing and every failure names an offending
/// path: an error is either a missing file (a requested path with no
/// canonical form), a topic definition that could not be loaded, or a
/// module definition that could not be loaded, named by the exact path
/// joined from the referencing record.
pub proof fn lemma_resolve_failure_names_path(
    t: TrackDefM,
    track_path: Seq<char>,
    ms: Seq<Option<(Seq<char>, ModuleDefM)>>,
    ts: Seq<Option<(Seq<char>, TopicDefM)>>,
    facts: Seq<FactM>,
    listings: Seq<ListingM>,
)
    ensures
        spec_resolve_track(t, track_path, ms, ts, facts, listings) matches Err(h) ==> (h.load
            is None && canon_of(facts, h.path) is None) || (h.load == Some(ItemKind::Topic)
            && exists|cur: int| topic_in_at(ts, cur) is None) || (h.load == Some(ItemKind::Module)
            && exists|k: int|
            0 <= k < t.modules.len() && module_in_at(ms, k) is None && h.path == spec_join(
                spec_parent(track_path),
                t.modules[k],
            )),
{
    lemma_modules_err_names(t.modules, spec_parent(track_path), ms, 0, ts, 0, facts, listings);
    let r = spec_resolve_modules(t.modules, spec_parent(track_path), ms, 0, ts, 0, facts, listings);
    if r is Err {
        let h = r->Err_0;
        if h.load == Some(ItemKind::Module) {
            let k0 = choose|k: int|
                0 <= k < t.modules.len() && module_in_at(ms, 0 + k) is None && h.path == spec_join(
                    spec_parent(track_path),
                    t.modules[k],
                );
            assert(module_in_at(ms, k0) is None);
        }
    }
}

/// A missing module definition file forces resolution to fail: a partial
/// tree is never returned.
pub proof fn lemma_missing_module_fails(
    t: TrackDefM,
    track_path: Seq<char>,
    ms: Seq<Option<(Seq<char>, ModuleDefM)>>,
    ts: Seq<Option<(Seq<char>, TopicDefM)>>,
    facts: Seq<FactM>,
    listings: Seq<ListingM>,
    i: int,
)
    requires
        0 <= i < t.modules.len(),
        module_in_at(ms, i) is None,
    ensures
        spec_resolve_track(t, track_path, ms, ts, facts, listings) is Err,
{
    lemma_modules_present(t.modules, spec_parent(track_path), ms, 0, ts, 0, facts, listings, i);
}

proof fn lemma_modules_present(
    paths: Seq<Seq<char>>,
    base: Seq<char>,
    ms: Seq<Option<(Seq<char>, ModuleDefM)>>,
    mi: int,
    ts: Seq<Option<(Seq<char>, TopicDefM)>>,
    tcur: int,
    facts: Seq<FactM>,
    listings: Seq<ListingM>,
    i: int,
)
    requires
        0 <= i < paths.len(),
        module_in_at(ms, mi + i) is None,
    ensures
        spec_resolve_modules(paths, base, ms, mi, ts, tcur, facts, listings) is Err,
    decreases paths.len(),
{
    if paths.len() > 0 {
        match module_in_at(ms, mi) {
            None => {},
            Some(min) => {
                assert(i > 0);
                match spec_resolve_module(min.1, min.0, ts, tcur, facts, listings, mi + 1) {
                    Err(_) => {},
                    Ok(hd) => {
                        lemma_modules_present(
                            paths.drop_first(),
                            base,
                            ms,
                            mi + 1,
                            ts,
                            hd.1,
                            facts,
                            listings,
                            i - 1,
                        );
                    },
                }
            },
        }
    }
}

} // verus!
