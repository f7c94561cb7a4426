use brainworms::color::Color;
use brainworms::fireworks::{
    label_style, parse_color, parse_fireworks, parse_my_tag, try_parse_fireworks, BuiltinOption,
    FireworksError, FireworksLabel, FireworksOutcome, TextModifier, TextStyle, Transition,
};
use brainworms::kinesis::KineticEffect;

fn parsed(input: &str) -> Vec<FireworksLabel> {
    match try_parse_fireworks(input) {
        FireworksOutcome::Parsed(labels) => labels,
        other => panic!("{:?} was not read: {:?}", input, other),
    }
}

fn is_style(m: &TextModifier, style: TextStyle) -> bool {
    matches!(m, TextModifier::BuiltinOption(BuiltinOption::Style(s)) if *s == style)
}

fn color_of(m: &TextModifier) -> Option<Color> {
    match m {
        TextModifier::BuiltinOption(BuiltinOption::TextColor(c)) => Some(*c),
        _ => None,
    }
}

#[test]
fn plain_text_is_one_label() {
    let labels = parsed("Hello world");
    assert_eq!(labels.len(), 1);
    assert_eq!(labels[0].text, "Hello world");
    assert!(labels[0].active.is_empty());
}

#[test]
fn empty_document_has_no_labels() {
    assert!(parsed("").is_empty());
}

#[test]
fn heading_tag_covers_its_text_only() {
    let labels = parsed("{h}Big{/h} small");
    assert_eq!(labels.len(), 2);
    assert_eq!(labels[0].text, "Big");
    assert_eq!(labels[0].active.len(), 1);
    assert!(is_style(&labels[0].active[0], TextStyle::Heading));
    assert_eq!(labels[1].text, " small");
    assert!(labels[1].active.is_empty());
}

#[test]
fn named_colors_ignore_letter_case() {
    let labels = parsed("{color=red}R{/color}{color=Dark_Blue}B");
    assert_eq!(labels.len(), 2);
    assert_eq!(color_of(&labels[0].active[0]), Some(Color { r: 255, g: 0, b: 0, a: 255 }));
    assert_eq!(color_of(&labels[1].active[0]), Some(Color { r: 0, g: 0, b: 0x8B, a: 255 }));
}

#[test]
fn rgb_color_takes_three_bytes() {
    let labels = parsed("{color=rgb(1,2,3)}x");
    assert_eq!(color_of(&labels[0].active[0]), Some(Color { r: 1, g: 2, b: 3, a: 255 }));
    let labels = parsed("{color=rgb(10,20,30,40)}x");
    assert_eq!(color_of(&labels[0].active[0]), Some(Color { r: 10, g: 20, b: 30, a: 255 }));
}

#[test]
fn unknown_color_is_transparent() {
    let labels = parsed("{color=nope}x");
    assert_eq!(color_of(&labels[0].active[0]), Some(Color { r: 0, g: 0, b: 0, a: 0 }));
}

#[test]
fn short_rgb_list_cannot_be_read() {
    assert!(matches!(try_parse_fireworks("{color=rgb(1,2)}x"), FireworksOutcome::Aborts));
}

#[test]
fn closing_an_unopened_tag_cannot_be_read() {
    assert!(matches!(try_parse_fireworks("{/h}x"), FireworksOutcome::Aborts));
    assert!(matches!(try_parse_fireworks("{i}x{/mono}"), FireworksOutcome::Aborts));
}

#[test]
fn unterminated_tag_stops_the_reader() {
    match try_parse_fireworks("ab{cd") {
        FireworksOutcome::Stuck(e) => assert_eq!(e, FireworksError { position: 2 }),
        other => panic!("unexpected {:?}", other),
    }
    match parse_fireworks("ab{cd") {
        Err(e) => assert_eq!(e.position, 2),
        Ok(v) => panic!("unexpected {:?}", v),
    }
    match parse_fireworks("{") {
        Err(e) => assert_eq!(e.position, 0),
        Ok(v) => panic!("unexpected {:?}", v),
    }
}

#[test]
fn effects_stack_and_close_by_kind() {
    let labels = parsed("{wavy}{shakey}x{/wavy}y");
    assert_eq!(labels.len(), 2);
    assert_eq!(labels[0].text, "x");
    assert_eq!(labels[0].active.len(), 2);
    assert!(matches!(labels[0].active[0], TextModifier::KineticEffect(KineticEffect::SineWavify { .. })));
    assert!(matches!(labels[0].active[1], TextModifier::KineticEffect(KineticEffect::ShakeLetters { .. })));
    assert_eq!(labels[1].text, "y");
    assert_eq!(labels[1].active.len(), 1);
    assert!(matches!(labels[1].active[0], TextModifier::KineticEffect(KineticEffect::ShakeLetters { .. })));
}

#[test]
fn unknown_modifier_keeps_its_arguments_and_closes_by_name() {
    let labels = parsed("{foo=bar}t{/foo}u");
    assert_eq!(labels.len(), 2);
    match &labels[0].active[0] {
        TextModifier::Unknown((name, args)) => {
            assert_eq!(name, "foo");
            assert_eq!(args, "bar");
        }
        other => panic!("unexpected {:?}", other),
    }
    assert!(labels[1].active.is_empty());
}

#[test]
fn modifier_names_are_letters_and_underscores() {
    let labels = parsed("{_a_b=c}x");
    match &labels[0].active[0] {
        TextModifier::Unknown((name, args)) => {
            assert_eq!(name, "_a_b");
            assert_eq!(args, "c");
        }
        other => panic!("unexpected {:?}", other),
    }
    let labels = parsed("{h1}x");
    assert!(is_style(&labels[0].active[0], TextStyle::Heading));
}

#[test]
fn empty_tags_open_nothing_and_close_the_last() {
    let labels = parsed("{}x{/}y");
    assert_eq!(labels.len(), 2);
    assert!(labels[0].active.is_empty());
    assert!(labels[1].active.is_empty());
    let labels = parsed("{h}{i}x{/}y");
    assert_eq!(labels[0].active.len(), 2);
    assert_eq!(labels[1].active.len(), 1);
    assert!(is_style(&labels[1].active[0], TextStyle::Heading));
}

#[test]
fn paragraph_tag_indents_the_first_row() {
    let labels = parsed("{p}x");
    assert!(matches!(
        labels[0].active[0],
        TextModifier::BuiltinOption(BuiltinOption::FirstRowIndentation(10))
    ));
}

#[test]
fn label_style_sums_up_the_active_modifiers() {
    let labels = parsed("{h}{h}{small}{mono}{i}{color=gold}{p}{gay}x");
    let st = label_style(&labels[0].active);
    assert_eq!(st.headings, 2);
    assert_eq!(st.smalls, 1);
    assert!(st.monospace);
    assert!(st.italics);
    assert_eq!(st.color, Some(Color { r: 255, g: 215, b: 0, a: 255 }));
    assert_eq!(st.leading_space, Some(10));
    assert_eq!(st.kinesis.len(), 1);
    assert!(matches!(st.kinesis[0], KineticEffect::Gay { .. }));
    let plain = labels[0].style();
    assert_eq!(plain.headings, 2);
}

#[test]
fn label_style_of_nothing_is_plain() {
    let st = label_style(&Vec::new());
    assert_eq!(st.headings, 0);
    assert_eq!(st.smalls, 0);
    assert!(!st.monospace);
    assert!(!st.italics);
    assert_eq!(st.color, None);
    assert_eq!(st.leading_space, None);
    assert!(st.kinesis.is_empty());
}

#[test]
fn a_label_becomes_a_kinetic_label() {
    let labels = parsed("{shakey}wobble");
    let k = labels[0].kinetic_label();
    assert_eq!(k.text, "wobble");
    let effects = k.kinesis.expect("effects are set");
    assert_eq!(effects.len(), 1);
    assert!(matches!(effects[0], KineticEffect::ShakeLetters { .. }));
}

#[test]
fn parse_my_tag_reads_one_tag() {
    match parse_my_tag("{h}rest") {
        Some((rest, Transition::Enable(m))) => {
            assert_eq!(rest, "rest");
            assert!(is_style(&m, TextStyle::Heading));
        }
        other => panic!("unexpected {:?}", other),
    }
    match parse_my_tag("{/mono}") {
        Some((rest, Transition::Disable(m))) => {
            assert_eq!(rest, "");
            assert!(is_style(&m, TextStyle::Monospace));
        }
        other => panic!("unexpected {:?}", other),
    }
}

#[test]
fn parse_my_tag_needs_a_whole_tag() {
    assert!(parse_my_tag("rest").is_none());
    assert!(parse_my_tag("{h").is_none());
    assert!(parse_my_tag("").is_none());
}

#[test]
fn label_texts_give_back_the_untagged_document() {
    let labels = parsed("a{h}bc{/h}{i}d{/i}");
    let texts: Vec<&str> = labels.iter().map(|l| l.text.as_str()).collect();
    assert_eq!(texts, vec!["a", "bc", "d"]);
    assert_eq!(texts.concat(), "abcd");
}

#[test]
fn colour_arguments_read_alone() {
    let chars = |s: &str| s.chars().collect::<Vec<char>>();
    assert_eq!(parse_color(&chars("rgb(1,2,3)")), Some(Color { r: 1, g: 2, b: 3, a: 255 }));
    assert_eq!(parse_color(&chars("gold")), Some(Color { r: 255, g: 215, b: 0, a: 255 }));
    assert_eq!(parse_color(&chars("nope")), None);
    assert_eq!(parse_color(&chars("")), None);
}

#[test]
fn parse_fireworks_hands_back_the_whole_input() {
    match parse_fireworks("{wavy}a{/wavy}b") {
        Ok((rest, labels)) => {
            assert_eq!(rest, "{wavy}a{/wavy}b");
            assert_eq!(labels.len(), 2);
            let k = labels[0].kinetic_label();
            assert_eq!(k.wrap, None);
            assert!(!k.truncate);
            assert!(k.sense.is_none());
            let effects = k.kinesis.expect("effects are set");
            assert!(matches!(effects[..], [KineticEffect::SineWavify { .. }]));
            assert_eq!(labels[1].kinetic_label().kinesis.map(|e| e.len()), Some(0));
        }
        Err(e) => panic!("unexpected {:?}", e),
    }
}
