use chartview::choices::{AptChoices, ChoiceState};
use chartview::geom::{Coord, Pos, Rect, Size};
use chartview::nasr::{APTInfo, SiteType};

fn rect(x: i64, w: i64) -> Rect {
    Rect { pos: Pos { x, y: 0 }, size: Size { w, h: 250 } }
}

fn info(id: &str, x: i64) -> APTInfo {
    APTInfo::new(
        id.to_string(),
        id.to_string(),
        Coord { x, y: 0 },
        SiteType::Airport,
        false,
    )
}

#[test]
fn a_click_opens_an_empty_menu_and_nearby_results_fill_it() {
    let mut c = AptChoices::new(1_000_000, rect(0, 500));
    assert!(matches!(c.state(), ChoiceState::Empty));
    c.open_menu("34N, 118W".to_string());
    c.set_nearby(vec![info("KSFO", 1), info("KOAK", 2)]);
    match c.state() {
        ChoiceState::Menu(label, Some(list)) => {
            assert_eq!(label, "34N, 118W");
            assert_eq!(list.len(), 2);
        },
        other => panic!("expected a filled menu, got {other:?}"),
    }
}

#[test]
fn an_empty_nearby_answer_leaves_the_menu_waiting() {
    let mut c = AptChoices::new(1_000_000, rect(0, 500));
    c.open_menu("label".to_string());
    c.set_nearby(Vec::new());
    match c.state() {
        ChoiceState::Menu(_, None) => (),
        other => panic!("expected a waiting menu, got {other:?}"),
    }
}

#[test]
fn nearby_results_without_an_open_menu_are_dropped() {
    let mut c = AptChoices::new(1_000_000, rect(0, 500));
    c.set_nearby(vec![info("KSFO", 1)]);
    assert!(matches!(c.state(), ChoiceState::Empty));
}

#[test]
fn zoom_or_rectangle_changes_drop_the_choices() {
    let mut c = AptChoices::new(1_000_000, rect(0, 500));
    c.open_menu("label".to_string());
    c.sync(1_000_000, rect(0, 500));
    assert!(matches!(c.state(), ChoiceState::Menu(_, _)));
    c.sync(500_000, rect(0, 500));
    assert!(matches!(c.state(), ChoiceState::Empty));
    c.open_menu("label".to_string());
    c.sync(500_000, rect(40, 500));
    assert!(matches!(c.state(), ChoiceState::Empty));
}

#[test]
fn a_single_search_hit_is_an_immediate_target() {
    let mut c = AptChoices::new(1_000_000, rect(0, 500));
    let goto = c.set_search(vec![info("KSFO", 7)]);
    assert_eq!(goto, Some(Coord { x: 7, y: 0 }));
    assert!(matches!(c.state(), ChoiceState::Empty));
}

#[test]
fn several_search_hits_open_the_dialog_and_picking_closes_it() {
    let mut c = AptChoices::new(1_000_000, rect(0, 500));
    let goto = c.set_search(vec![info("KSFO", 1), info("KOAK", 2)]);
    assert!(goto.is_none());
    let goto = c.pick(1);
    assert_eq!(goto, Some(Coord { x: 2, y: 0 }));
    assert!(matches!(c.state(), ChoiceState::Empty));
}

#[test]
fn an_empty_search_answer_changes_nothing() {
    let mut c = AptChoices::new(1_000_000, rect(0, 500));
    c.open_menu("label".to_string());
    let goto = c.set_search(Vec::new());
    assert!(goto.is_none());
    assert!(matches!(c.state(), ChoiceState::Menu(_, _)));
}

#[test]
fn clearing_dismisses_whatever_is_up() {
    let mut c = AptChoices::new(1_000_000, rect(0, 500));
    c.open_menu("label".to_string());
    c.clear();
    assert!(matches!(c.state(), ChoiceState::Empty));
}
