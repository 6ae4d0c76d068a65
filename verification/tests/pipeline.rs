//! End-to-end tests of the pipeline: resolution, the three renderers and
//! the patch generator, on a small synthetic track.

use modmod::book::{check_images, BookRenderOptions, RenderBookError};
use modmod::defs::{ExerciseDef, ModuleDef, PathTo, TopicDef, TrackDef, UnitDef};
use modmod::model::Track;
use modmod::ops::{FileOp, TextFile};
use modmod::patch::{Patch, PatchEntry};
use modmod::resolve::{resolve_track, DirListing, PathFact};
use modmod::slides::build_manifest;

fn fact(req: &str, canon: &str) -> PathFact {
    PathFact { requested: req.to_string(), canonical: Some(canon.to_string()) }
}

fn exercise_def(name: &str, dir: &str) -> ExerciseDef {
    ExerciseDef {
        name: name.to_string(),
        path: dir.to_string(),
        description: "description.md".to_string(),
        includes: vec!["Cargo.toml".to_string(), "src/**/*".to_string()],
    }
}

fn topic_def(name: &str, ex: Vec<ExerciseDef>) -> TopicDef {
    TopicDef {
        name: name.to_string(),
        exercises: ex,
        summary: vec!["remember this".to_string()],
        objectives: vec!["learn this".to_string()],
        content: "slides.md".to_string(),
        further_reading: vec![],
    }
}

/// A two-module track: one unit each, one topic each, one exercise each.
fn demo_inputs() -> (
    TrackDef,
    String,
    Vec<Option<PathTo<ModuleDef>>>,
    Vec<Option<PathTo<TopicDef>>>,
    Vec<PathFact>,
    Vec<DirListing>,
) {
    let track_def = TrackDef {
        name: "Demo Track".to_string(),
        modules: vec!["mods/a/mod.toml".to_string(), "mods/b/mod.toml".to_string()],
    };
    let track_path = "/c/track.toml".to_string();
    let mut modules = Vec::new();
    let mut topics = Vec::new();
    let mut facts = Vec::new();
    for m in ["a", "b"] {
        let mdir = format!("/c/mods/{m}");
        modules.push(Some(PathTo {
            data: ModuleDef {
                name: format!("Module {m}"),
                description: format!("all about {m}"),
                units: vec![UnitDef {
                    name: format!("Unit {m}1"),
                    template: None,
                    topics: vec!["topics/t1/topic.toml".to_string()],
                }],
            },
            path: format!("{mdir}/mod.toml"),
        }));
        let tdir = format!("{mdir}/topics/t1");
        topics.push(Some(PathTo {
            data: topic_def(&format!("Topic {m}1"), vec![exercise_def("Ex One", "ex1")]),
            path: format!("{tdir}/topic.toml"),
        }));
        facts.push(fact(&format!("{tdir}/slides.md"), &format!("{tdir}/slides.md")));
        facts.push(fact(&format!("{tdir}/ex1"), &format!("{tdir}/ex1")));
        facts.push(fact(
            &format!("{tdir}/ex1/description.md"),
            &format!("{tdir}/ex1/description.md"),
        ));
    }
    (track_def, track_path, modules, topics, facts, Vec::new())
}

fn tree_summary(t: &Track) -> Vec<(usize, usize, usize, usize, String)> {
    let mut out = Vec::new();
    for m in &t.modules {
        for u in &m.data.units {
            for tp in &u.data.topics {
                for e in &tp.data.exercises {
                    out.push((m.index, u.index, tp.index, e.index, e.data.path.clone()));
                }
            }
        }
    }
    out
}

#[test]
fn resolve_assigns_ordinals() {
    let (def, path, modules, topics, facts, listings) = demo_inputs();
    let track = resolve_track(&def, &path, &modules, &topics, &facts, &listings).unwrap();
    assert_eq!(track.name, "Demo Track");
    assert_eq!(track.modules.len(), 2);
    assert_eq!(track.modules[0].index, 1);
    assert_eq!(track.modules[1].index, 2);
    assert_eq!(track.modules[0].data.units[0].index, 1);
    assert_eq!(track.modules[0].data.units[0].data.topics[0].index, 1);
    let e = &track.modules[0].data.units[0].data.topics[0].data.exercises[0];
    assert_eq!(e.index, 1);
    assert_eq!(e.data.path, "/c/mods/a/topics/t1/ex1");
    assert_eq!(e.data.description, "/c/mods/a/topics/t1/ex1/description.md");
}

#[test]
fn resolve_is_deterministic() {
    let (def, path, modules, topics, facts, listings) = demo_inputs();
    let t1 = resolve_track(&def, &path, &modules, &topics, &facts, &listings).unwrap();
    let t2 = resolve_track(&def, &path, &modules, &topics, &facts, &listings).unwrap();
    assert_eq!(tree_summary(&t1), tree_summary(&t2));
}

#[test]
fn resolve_missing_module_names_path() {
    let (def, path, mut modules, topics, facts, listings) = demo_inputs();
    modules[1] = None;
    let err = resolve_track(&def, &path, &modules, &topics, &facts, &listings).unwrap_err();
    assert_eq!(err.path(), "/c/mods/b/mod.toml");
}

#[test]
fn resolve_missing_content_names_path() {
    let (def, path, modules, topics, mut facts, listings) = demo_inputs();
    facts.retain(|f| f.requested != "/c/mods/a/topics/t1/slides.md");
    let err = resolve_track(&def, &path, &modules, &topics, &facts, &listings).unwrap_err();
    assert_eq!(err.path(), "/c/mods/a/topics/t1/slides.md");
}

#[test]
fn glob_include_filtering() {
    let (def, path, modules, topics, facts, listings) = demo_inputs();
    let track = resolve_track(&def, &path, &modules, &topics, &facts, &listings).unwrap();
    let (_book, _slides, exercises) = track.build_models();
    let mut contents = Vec::new();
    for m in ["a", "b"] {
        let ex = format!("/c/mods/{m}/topics/t1/ex1");
        contents.push(DirListing {
            dir: ex.clone(),
            files: Some(vec![
                format!("{ex}/Cargo.toml"),
                format!("{ex}/Cargo.lock"),
                format!("{ex}/src/main.rs"),
                format!("{ex}/notes.txt"),
            ]),
        });
    }
    let (ops, pairs) = exercises.render(&contents).unwrap();
    assert_eq!(pairs.len(), 2);
    assert_eq!(pairs[0].from, "/c/mods/a/topics/t1/ex1");
    assert_eq!(pairs[0].to, "exercises/1-module-a/1-unit-a1/1-ex-one");
    let copies: Vec<(String, String)> = ops
        .iter()
        .filter_map(|op| match op {
            FileOp::Copy(from, to) => Some((from.clone(), to.clone())),
            _ => None,
        })
        .collect();
    // Exactly the manifest and the source file are copied, for each of
    // the two exercises; the lock file and the notes are not included.
    assert_eq!(copies.len(), 4);
    assert!(copies.contains(&(
        "/c/mods/a/topics/t1/ex1/Cargo.toml".to_string(),
        "exercises/1-module-a/1-unit-a1/1-ex-one/Cargo.toml".to_string()
    )));
    assert!(copies.contains(&(
        "/c/mods/a/topics/t1/ex1/src/main.rs".to_string(),
        "exercises/1-module-a/1-unit-a1/1-ex-one/src/main.rs".to_string()
    )));
    assert!(copies.iter().all(|(from, _)| !from.ends_with("Cargo.lock")
        && !from.ends_with("notes.txt")));
}

#[test]
fn image_validation_rules() {
    // Referencing exactly the present images succeeds.
    let images = vec!["/t/images/a.png".to_string()];
    let good = "See #[modmod:images]/a.png for a diagram".to_string();
    assert!(check_images(&good, &images).is_ok());

    // A referenced image that does not exist is listed as non existing.
    let bad_ref = "See #[modmod:images]/b.png".to_string();
    let (missing, unused) = check_images(&bad_ref, &images).unwrap_err();
    assert_eq!(missing, vec!["b.png"]);
    assert_eq!(unused, vec!["a.png"]);

    // An image never referenced is listed as unused.
    let no_ref = "No images here".to_string();
    let (missing, unused) = check_images(&no_ref, &images).unwrap_err();
    assert!(missing.is_empty());
    assert_eq!(unused, vec!["a.png"]);
}

#[test]
fn book_render_fails_on_unknown_image() {
    let (def, path, modules, topics, facts, mut listings) = demo_inputs();
    listings.push(DirListing {
        dir: "/c/mods/a/topics/t1/images".to_string(),
        files: Some(vec!["/c/mods/a/topics/t1/images/pic.png".to_string()]),
    });
    let track = resolve_track(&def, &path, &modules, &topics, &facts, &listings).unwrap();
    let (book, _slides, exercises) = track.build_models();
    let contents = exercise_listings();
    let (_ops, pairs) = exercises.render(&contents).unwrap();
    // The description references no image, so the discovered image is
    // unused and the render fails listing it.
    let files = description_files("plain text, no references");
    let opts = BookRenderOptions { exercise_paths: pairs, slides_url_base: "/".to_string() };
    match book.render(&opts, &files) {
        Err(RenderBookError::Images(missing, unused)) => {
            assert!(missing.is_empty());
            assert_eq!(unused, vec!["pic.png"]);
        }
        other => panic!("expected image validation failure, got {:?}", other.is_ok()),
    }
}

fn exercise_listings() -> Vec<DirListing> {
    let mut contents = Vec::new();
    for m in ["a", "b"] {
        let ex = format!("/c/mods/{m}/topics/t1/ex1");
        contents.push(DirListing {
            dir: ex.clone(),
            files: Some(vec![format!("{ex}/Cargo.toml"), format!("{ex}/src/main.rs")]),
        });
    }
    contents
}

fn description_files(text: &str) -> Vec<TextFile> {
    let mut files = Vec::new();
    for m in ["a", "b"] {
        files.push(TextFile {
            path: format!("/c/mods/{m}/topics/t1/ex1/description.md"),
            content: text.to_string(),
        });
        files.push(TextFile {
            path: format!("/c/mods/{m}/topics/t1/slides.md"),
            content: format!("# Topic {m}\n\nSome slide content"),
        });
    }
    files
}

#[test]
fn end_to_end_two_modules() {
    let (def, path, modules, topics, facts, listings) = demo_inputs();
    let track = resolve_track(&def, &path, &modules, &topics, &facts, &listings).unwrap();
    let (book, slides, exercises) = track.build_models();

    let contents = exercise_listings();
    let (ex_ops, pairs) = exercises.render(&contents).unwrap();
    let mut leaf_dirs: Vec<String> = ex_ops
        .iter()
        .filter_map(|op| match op {
            FileOp::Dir(d) if d.matches('/').count() == 3 => Some(d.clone()),
            _ => None,
        })
        .collect();
    leaf_dirs.sort();
    leaf_dirs.dedup();
    assert_eq!(leaf_dirs.len(), 2);

    let files = description_files(
        "Work in #[modmod:exercise_dir], exercise #[modmod:exercise_ref].\n\n# Steps\nGo",
    );
    let opts = BookRenderOptions { exercise_paths: pairs, slides_url_base: "/".to_string() };
    let book_ops = book.render(&opts, &files).unwrap();
    let summary = book_ops
        .iter()
        .find_map(|op| match op {
            FileOp::Write(p, c) if p == "book/src/SUMMARY.md" => Some(c.clone()),
            _ => None,
        })
        .unwrap();
    // Two top-level chapter entries.
    assert_eq!(summary.matches("- [Module").count(), 2);
    let section = book_ops
        .iter()
        .find_map(|op| match op {
            FileOp::Write(p, c) if p == "book/src/unit-a1.md" => Some(c.clone()),
            _ => None,
        })
        .unwrap();
    assert!(section.contains("# Unit 1.1 - Unit a1"));
    assert!(section.contains("## Exercise 1.1.1: Ex One"));
    assert!(section.contains("Work in exercises/1-module-a/1-unit-a1/1-ex-one, exercise 1.1.1."));
    // Heading demotion: the description's own heading nests below the
    // generated one.
    assert!(section.contains("\n### Steps"));

    let slide_ops = slides.render(&files, &"teach-rs".to_string()).unwrap();
    let decks: Vec<&String> = slide_ops
        .iter()
        .filter_map(|op| match op {
            FileOp::Write(p, _) if p.starts_with("slides/") && p.ends_with(".md") => Some(p),
            _ => None,
        })
        .collect();
    assert_eq!(decks.len(), 2);
    assert!(decks.contains(&&"slides/1_1-unit-a1.md".to_string()));

    let scripts = slides.scripts(&"/".to_string());
    assert_eq!(scripts.len(), 6);
    let manifest = build_manifest(&"{}".to_string(), &track.name, &scripts).unwrap();
    let parsed: serde_json::Value = serde_json::from_str(&manifest).unwrap();
    assert_eq!(parsed["name"], serde_json::Value::String("demo-track".to_string()));
    let script_obj = parsed["scripts"].as_object().unwrap();
    assert_eq!(script_obj.len(), 6);
    assert!(script_obj.contains_key("dev-1_1"));
    assert!(script_obj.contains_key("build-2_1"));
    assert!(script_obj.contains_key("export-2_1"));
}

#[test]
fn track_render_plan() {
    let (def, path, modules, topics, facts, listings) = demo_inputs();
    let track = resolve_track(&def, &path, &modules, &topics, &facts, &listings).unwrap();
    let files = description_files("plain text, no references");
    let contents = exercise_listings();
    let ops = track
        .render(
            &files,
            &contents,
            &"{}".to_string(),
            &"/".to_string(),
            &"teach-rs".to_string(),
        )
        .unwrap();
    // The plan ends with the package manifest; the deck files and the
    // book summary are in it as well.
    match ops.last().unwrap() {
        FileOp::Write(p, c) => {
            assert_eq!(p, "slides/package.json");
            let parsed: serde_json::Value = serde_json::from_str(c).unwrap();
            assert_eq!(parsed["scripts"].as_object().unwrap().len(), 6);
        }
        _ => panic!("the last planned operation is not a write"),
    }
    assert!(ops.iter().any(|op| matches!(op, FileOp::Write(p, _) if p == "book/src/SUMMARY.md")));
    assert!(ops.iter().any(|op| matches!(op, FileOp::Write(p, _) if p == "slides/1_1-unit-a1.md")));

    // A stub that is not a JSON object fails the whole plan.
    let bad = track.render(
        &files,
        &contents,
        &"not json".to_string(),
        &"/".to_string(),
        &"teach-rs".to_string(),
    );
    assert!(matches!(bad, Err(modmod::RenderTrackError::Stub(_))));
}

#[test]
fn patch_rules() {
    // An unchanged file emits no hunk.
    let entries = vec![PatchEntry {
        rel: "same.md".to_string(),
        new: b"hello\n".to_vec(),
        old: b"hello\n".to_vec(),
    }];
    assert_eq!(Patch::render(&entries), Vec::<u8>::new());

    // A file present only in the new tree is emitted as a full addition.
    let entries = vec![PatchEntry {
        rel: "new.md".to_string(),
        new: b"fresh line\n".to_vec(),
        old: Vec::new(),
    }];
    let out = String::from_utf8(Patch::render(&entries)).unwrap();
    assert!(out.contains("--- a/new.md"));
    assert!(out.contains("+++ b/new.md"));
    assert!(out.contains("+fresh line"));

    // A changed text file gets headers naming its relative path.
    let entries = vec![PatchEntry {
        rel: "ch/x.md".to_string(),
        new: b"one\ntwo changed\n".to_vec(),
        old: b"one\ntwo\n".to_vec(),
    }];
    let out = String::from_utf8(Patch::render(&entries)).unwrap();
    assert!(out.contains("--- a/ch/x.md"));
    assert!(out.contains("+++ b/ch/x.md"));
    assert!(out.contains("-two"));
    assert!(out.contains("+two changed"));
}

#[test]
fn no_exercises_notice() {
    let (def, path, mut modules, mut topics, facts, listings) = demo_inputs();
    // Strip the exercises from module a's topic.
    if let Some(pt) = &mut topics[0] {
        pt.data.exercises.clear();
    }
    let _ = &mut modules;
    let track = resolve_track(&def, &path, &modules, &topics, &facts, &listings).unwrap();
    let (book, _slides, exercises) = track.build_models();
    let (_ops, pairs) = exercises.render(&exercise_listings()).unwrap();
    let files = description_files("plain");
    let opts = BookRenderOptions { exercise_paths: pairs, slides_url_base: "".to_string() };
    let book_ops = book.render(&opts, &files).unwrap();
    let section = book_ops
        .iter()
        .find_map(|op| match op {
            FileOp::Write(p, c) if p == "book/src/unit-a1.md" => Some(c.clone()),
            _ => None,
        })
        .unwrap();
    assert!(section.contains("*There are no exercises for this unit*"));
}
