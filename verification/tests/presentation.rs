use graphcal_compiler::index::DagId;
use graphcal_compiler::presentation::{collect_presentation_facts, PresentationError};

#[test]
fn presentation_facts_follow_the_owner_order() {
    let owners = vec![DagId(2), DagId(1)];
    let shapes = vec![(DagId(1), vec!["x: Length"]), (DagId(2), vec!["y: Time", "color: Key"]), (DagId(3), vec![])];
    let facts = collect_presentation_facts(&owners, shapes).unwrap();
    assert_eq!(facts.len(), 2);
    assert_eq!(facts[0].0, DagId(2));
    assert_eq!(facts[0].1.plot_channels, vec!["y: Time", "color: Key"]);
    assert_eq!(facts[1].0, DagId(1));
    assert_eq!(facts[1].1.plot_channels, vec!["x: Length"]);
}

#[test]
fn a_dag_without_checked_shapes_is_reported() {
    let owners = vec![DagId(1), DagId(4), DagId(5)];
    let shapes = vec![(DagId(1), 10u32)];
    assert_eq!(
        collect_presentation_facts(&owners, shapes).unwrap_err(),
        PresentationError::MissingShapes { owner: DagId(4) }
    );
    assert!(collect_presentation_facts::<u32>(&Vec::new(), Vec::new()).unwrap().is_empty());
}
