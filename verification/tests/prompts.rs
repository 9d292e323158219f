use haircut_backend::prompts::Prompts;

fn prompts() -> Prompts {
    Prompts::new(
        "Give this person a {haircut} haircut, seen from the front.".to_string(),
        "Show the {haircut} haircut from the side and from the back.".to_string(),
    )
}

#[test]
fn front_view_fills_the_placeholder() {
    assert_eq!(
        prompts().front_view("low taper fade"),
        "Give this person a low taper fade haircut, seen from the front."
    );
}

#[test]
fn side_and_back_views_fills_the_placeholder() {
    assert_eq!(
        prompts().side_and_back_views("low taper fade"),
        "Show the low taper fade haircut from the side and from the back."
    );
}

#[test]
fn each_view_uses_its_own_template() {
    let prompts = Prompts::new("F {haircut}".to_string(), "S {haircut}".to_string());
    assert_eq!(prompts.front_view("x"), "F x");
    assert_eq!(prompts.side_and_back_views("x"), "S x");
}

#[test]
fn every_placeholder_is_filled() {
    let prompts = Prompts::new("{haircut} and {haircut}".to_string(), "{haircut}{haircut}".to_string());
    assert_eq!(prompts.front_view("bob"), "bob and bob");
    assert_eq!(prompts.side_and_back_views("bob"), "bobbob");
}

#[test]
fn template_without_placeholder_stays() {
    let prompts = Prompts::new("plain".to_string(), String::new());
    assert_eq!(prompts.front_view("bob"), "plain");
    assert_eq!(prompts.side_and_back_views("bob"), "");
}

#[test]
fn description_is_taken_as_it_is() {
    let prompts = Prompts::new("<{haircut}>".to_string(), "[{haircut}]".to_string());
    assert_eq!(prompts.front_view("{haircut}"), "<{haircut}>");
    assert_eq!(prompts.front_view("a \"b\" \\ {c}"), "<a \"b\" \\ {c}>");
    assert_eq!(prompts.side_and_back_views(""), "[]");
    assert_eq!(prompts.side_and_back_views("é日"), "[é日]");
}

#[test]
fn placeholder_is_matched_letter_for_letter() {
    let prompts = Prompts::new("{Haircut} { haircut } {haircut".to_string(), "{{haircut}}".to_string());
    assert_eq!(prompts.front_view("bob"), "{Haircut} { haircut } {haircut");
    assert_eq!(prompts.side_and_back_views("bob"), "{bob}");
}
