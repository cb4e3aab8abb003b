use gamenv::output::mud::{MudColor, MudFormatter, OutputBuilder};

#[test]
fn test_color_codes() {
    assert_eq!(MudColor::Red.code(), "§R");
    assert_eq!(MudColor::Green.code(), "§G");
    assert_eq!(MudColor::Normal.code(), "§N");
}

#[test]
fn test_colored_text() {
    let red = MudFormatter::red("Error");
    assert!(red.contains("§R"));
    assert!(red.contains("Error"));
    assert!(red.ends_with("§N"));
}

#[test]
fn test_link() {
    let link = MudFormatter::link("Look", "look");
    assert_eq!(link, "[Look:look]");
}

#[test]
fn test_output_builder() {
    let output = OutputBuilder::new()
        .text("Hello ")
        .red("World")
        .newline()
        .build();
    assert!(output.contains("Hello "));
    assert!(output.contains("§R"));
}

#[test]
fn to_html_spans_colours() {
    assert_eq!(
        MudFormatter::to_html("a§Rb§Nc"),
        "a<span style=\"color:#FF0000\">b</span>c"
    );
    assert_eq!(
        MudFormatter::to_html("§Rx§Gy"),
        "<span style=\"color:#FF0000\">x</span><span style=\"color:#00FF00\">y</span>"
    );
    assert_eq!(MudFormatter::to_html("plain§"), "plain");
    assert_eq!(MudFormatter::to_html("§zq"), "q");
}

#[test]
fn colour_helpers_wrap_text() {
    assert_eq!(MudFormatter::color("hi", MudColor::Blue), "§Bhi§N");
    assert_eq!(MudFormatter::system("s"), "§cs§N");
    assert_eq!(MudFormatter::item_name("sword"), "§msword§N");
    assert_eq!(MudColor::BrightRed.html_color(), "#FF8080");
    assert_eq!(MudFormatter::newline(), "\\n");
}

#[test]
fn builder_newlines_repeat() {
    let out = OutputBuilder::new().newlines(3).build();
    assert_eq!(out, "\\n\\n\\n");
    let out = OutputBuilder::new().link("Go", "go").colored("x", MudColor::Cyan).build();
    assert_eq!(out, "[Go:go]§Cx§N");
}
