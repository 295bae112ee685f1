use crude::map::StrMap;
use crude::palette::{palette_kind_for, PaletteKind};
use crude::sequence_file::SequenceFile;
use crude::workflow::{Action, BindValue, Handler, Sequence, Step};

fn s(x: &str) -> String {
    x.to_string()
}

fn seq_of(name: &str, n: usize) -> Sequence {
    let step_sequence = (0..n).map(|_| Handler::Item(Step::Act(Action::Refresh))).collect();
    Sequence { sequence_name: s(name), step_sequence, target_data: StrMap::new(), metadata: vec![] }
}

const ALL: [PaletteKind; 30] = [
    PaletteKind::Navigate, PaletteKind::NavigateHref, PaletteKind::NewTab, PaletteKind::Refresh,
    PaletteKind::Backward, PaletteKind::Forward, PaletteKind::Click, PaletteKind::ClickByText,
    PaletteKind::WaitFor, PaletteKind::Wait, PaletteKind::ScrollAll, PaletteKind::ScrollDown,
    PaletteKind::ScrollUp, PaletteKind::Type, PaletteKind::ClearAndType, PaletteKind::PressKey,
    PaletteKind::SwitchToFrame, PaletteKind::SwitchToDefaultContent, PaletteKind::SwitchTab,
    PaletteKind::CloseTab, PaletteKind::SwitchToLastTab, PaletteKind::GetHTML,
    PaletteKind::DismissPermission, PaletteKind::ExtractText, PaletteKind::ExtractAttribute,
    PaletteKind::ExtractCount, PaletteKind::ExtractExists, PaletteKind::ExtractMultipleText,
    PaletteKind::Container, PaletteKind::SubSequence,
];

#[test]
fn template_comes_back_to_its_kind() {
    for k in ALL {
        assert_eq!(palette_kind_for(&k.default_handler()), k);
    }
}

#[test]
fn template_names_and_icons() {
    assert_eq!(PaletteKind::ClearAndType.display_name(), "Clear & Type");
    assert_eq!(PaletteKind::Backward.display_name(), "Back");
    assert_eq!(PaletteKind::ExtractMultipleText.display_name(), "Multi Text");
    assert_eq!(PaletteKind::Container.icon(), "📦");
    assert_eq!(PaletteKind::Wait.icon(), "⏱️");
}

#[test]
fn template_names_are_distinct_and_nonempty() {
    for (i, a) in ALL.iter().enumerate() {
        assert!(!a.display_name().is_empty());
        for b in &ALL[i + 1..] {
            assert_ne!(a.display_name(), b.display_name());
        }
    }
}

#[test]
fn template_presets() {
    match PaletteKind::WaitFor.default_handler() {
        Handler::Item(Step::Act(Action::WaitFor { time_ms, selector_string })) => {
            assert_eq!(time_ms, BindValue::new(5000));
            assert_eq!(selector_string, BindValue::new(s("")));
        },
        other => panic!("unexpected {:?}", other),
    }
    match PaletteKind::Container.default_handler() {
        Handler::Container { steps, dedup, .. } => {
            assert!(steps.is_empty());
            assert!(!dedup);
        },
        other => panic!("unexpected {:?}", other),
    }
}

#[test]
fn file_store_and_lookup() {
    let mut f = SequenceFile::empty();
    assert!(f.get_main("a").is_none());
    f.insert_main(seq_of("a", 1));
    f.insert_sub(seq_of("a", 2));
    assert_eq!(f.get_main("a").unwrap().step_sequence.len(), 1);
    assert_eq!(f.get_sub("a").unwrap().step_sequence.len(), 2);
    f.insert_main(seq_of("a", 3));
    assert_eq!(f.get_main("a").unwrap().step_sequence.len(), 3);
    assert_eq!(f.main_sequences.len(), 1);
    assert!(f.get_main("b").is_none());
}

#[test]
fn file_remove_main() {
    let mut f = SequenceFile::empty();
    f.insert_main(seq_of("a", 1));
    f.insert_main(seq_of("b", 2));
    let r = f.remove_main("a").unwrap();
    assert_eq!(r.sequence_name, "a");
    assert!(f.get_main("a").is_none());
    assert_eq!(f.get_main("b").unwrap().step_sequence.len(), 2);
    assert!(f.remove_main("a").is_none());
}

#[test]
fn storing_a_main_sequence_counts_new_names_only() {
    let mut f = SequenceFile::empty();
    f.insert_main(seq_of("a", 1));
    f.insert_main(seq_of("b", 2));
    assert_eq!(f.main_sequences.len(), 2);
    f.insert_main(seq_of("a", 3));
    assert_eq!(f.main_sequences.len(), 2);
    assert_eq!(f.get_main("a").map(|q| q.step_sequence.len()), Some(3));
    assert_eq!(f.sub_sequences.len(), 0);
}
