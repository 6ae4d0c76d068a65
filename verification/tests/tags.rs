//! Tests for slug generation and the definition defaults.

use modmod::defs;
use modmod::tag::{to_prefixed_tag, to_tag};

#[test]
fn tag_basic() {
    assert_eq!(to_tag("Hello World"), "hello-world");
    assert_eq!(to_tag("A"), "a");
    assert_eq!(to_prefixed_tag("Hello", 2), "2-hello");
}

#[test]
fn tag_idempotent_and_case_invariant() {
    let once = to_tag("Foundations of Rust");
    let twice = to_tag(&once);
    assert_eq!(once, twice);
    assert_eq!(to_tag("FOUNDATIONS OF RUST"), once);
    assert_eq!(to_tag("foundations of rust"), once);
}

#[test]
fn tag_whitespace_runs() {
    assert_eq!(to_tag("  a  b "), "a-b");
    assert_eq!(to_tag("Module 1: Intro"), "module-1:-intro");
    // A no-break space separates words just as an ASCII space does.
    assert_eq!(to_tag("a\u{a0}b"), "a-b");
}

#[test]
fn default_fields() {
    assert_eq!(defs::exercise_description_md(), "description.md");
    assert!(defs::is_exercise_description_md(&"description.md".to_string()));
    assert!(!defs::is_exercise_description_md(&"readme.md".to_string()));
    let inc = defs::exercise_includes();
    assert_eq!(inc, vec!["Cargo.toml", "Cargo.lock", "src/**/*"]);
    assert!(defs::is_exercise_includes(&inc));
    assert!(!defs::is_exercise_includes(&vec!["Cargo.toml".to_string()]));
    assert_eq!(defs::topic_slides_md(), "slides.md");
    assert!(defs::is_topic_slides_md(&"slides.md".to_string()));
    assert!(!defs::is_topic_slides_md(&"deck.md".to_string()));
}
