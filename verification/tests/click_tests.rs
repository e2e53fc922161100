use zoid::click::{conversation_click, ClickAction};

#[test]
fn click_on_a_choice_answers_with_it() {
    // Conversation starts at screen row 2, scrolled by 10 lines: row 5 is line 13.
    let choices = vec![(12, 0), (13, 1)];
    let blocks = vec![(0, 20)];
    assert_eq!(conversation_click(true, 5, 2, 10, &choices, &blocks), ClickAction::Choose(1));
}

#[test]
fn click_in_a_code_block_copies_the_first_block_holding_the_line() {
    let blocks = vec![(0, 3), (5, 9), (8, 12)];
    assert_eq!(conversation_click(true, 8, 0, 0, &Vec::new(), &blocks), ClickAction::Copy(1));
    assert_eq!(conversation_click(true, 5, 0, 0, &Vec::new(), &blocks), ClickAction::Copy(1));
    assert_eq!(conversation_click(true, 12, 0, 0, &Vec::new(), &blocks), ClickAction::Copy(2));
    assert_eq!(conversation_click(true, 4, 0, 0, &Vec::new(), &blocks), ClickAction::Focus);
}

#[test]
fn clicks_above_the_conversation_or_off_normal_zoom_only_focus() {
    let blocks = vec![(0, 100)];
    assert_eq!(conversation_click(true, 1, 2, 0, &Vec::new(), &blocks), ClickAction::Focus);
    assert_eq!(conversation_click(false, 5, 2, 0, &vec![(3, 0)], &blocks), ClickAction::Focus);
}
