use rpy_slides::classify::{parse_line, ParseError};
use rpy_slides::compile::{compile_script, CompileError};
use rpy_slides::render::latex_output;
use rpy_slides::script::{Location, ParseStatement};
use rpy_slides::text::{clean_up_text, escape_for_latex};
use rpy_slides::traverse::{
    find_label_index, show_character, traverse_game, Page, PageText, TraverseError,
};
use rpy_slides::assemble::{assemble_script, split_lines};

fn pages_of(script: &str) -> Vec<Page> {
    compile_script(script).unwrap()
}

fn dialogue(page: &Page) -> (String, String) {
    match &page.text {
        PageText::Dialogue { character_name, text } => (character_name.clone(), text.clone()),
        PageText::Menu { .. } => panic!("expected a dialogue slide"),
    }
}

const HEADER: &str = "\\documentclass[aspectratio=169]{beamer}\n\\usepackage{hyperref}\n\\beamertemplatenavigationsymbolsempty\n\\title{Game Title}\n\\author{Game Author}\n\\date{\\today}\n\\begin{document}\n\\frame{\\titlepage}\n";

#[test]
fn escaping_markup_symbols() {
    assert_eq!(escape_for_latex("50% off_#1".to_string()), "50\\% off\\_\\#1");
    assert_eq!(escape_for_latex("$5".to_string()), "\\$5");
}

#[test]
fn escaping_empty_text_gives_placeholder() {
    assert_eq!(escape_for_latex(String::new()), "~");
}

#[test]
fn clean_up_resolves_escapes() {
    assert_eq!(clean_up_text("say \\\"hi\\\"\\nnow".to_string()), "say \"hi\"\nnow");
    assert_eq!(clean_up_text("plain".to_string()), "plain");
}

#[test]
fn classify_label_jump_and_end() {
    let mut keys = Vec::new();
    let l = parse_line("  label start:", &mut keys).unwrap();
    assert_eq!(l.indent, 2);
    assert!(matches!(l.statement, ParseStatement::Label { ref key } if key == "start"));
    let j = parse_line("    jump go_yes", &mut keys).unwrap();
    assert!(matches!(j.statement, ParseStatement::Jump { ref key } if key == "go_yes"));
    let e = parse_line("return", &mut keys).unwrap();
    assert!(matches!(e.statement, ParseStatement::End {}));
    assert!(keys.is_empty());
}

#[test]
fn classify_definition_registers_key() {
    let mut keys = Vec::new();
    let l = parse_line("define a = Character(\"Alice\", color=\"#ff0000\")", &mut keys).unwrap();
    match l.statement {
        ParseStatement::Definition { key, character } => {
            assert_eq!(key, "a");
            assert_eq!(character.name, "Alice");
            assert_eq!(character.color, "#ff0000");
        }
        _ => panic!("expected a definition"),
    }
    assert_eq!(keys, vec!["a".to_string()]);
    let d = parse_line("    a \"Hi there\"", &mut keys).unwrap();
    match d.statement {
        ParseStatement::Dialogue { character_key, text } => {
            assert_eq!(character_key, "a");
            assert_eq!(text, "\"Hi there\"");
        }
        _ => panic!("expected dialogue"),
    }
    assert_eq!(d.indent, 4);
}

#[test]
fn classify_choice_and_dialogue() {
    let mut keys = Vec::new();
    let c = parse_line("    \"Yes\":", &mut keys).unwrap();
    assert!(matches!(c.statement, ParseStatement::Choice { ref text } if text == "\"Yes\":"));
    let d = parse_line("\"Hello\"", &mut keys).unwrap();
    assert!(matches!(d.statement,
        ParseStatement::Dialogue { ref character_key, ref text } if character_key.is_empty() && text == "\"Hello\""));
}

#[test]
fn classify_speak_call() {
    let mut keys = Vec::new();
    let d = parse_line("$ speak(NICOLE, \"Long story...\")", &mut keys).unwrap();
    match d.statement {
        ParseStatement::Dialogue { character_key, text } => {
            assert_eq!(character_key, "NICOLE");
            assert_eq!(text, "Long story...");
        }
        _ => panic!("expected dialogue"),
    }
}

#[test]
fn classify_show_positions() {
    let mut keys = Vec::new();
    let l = parse_line("show alice happy flipped at left", &mut keys).unwrap();
    assert!(matches!(l.statement,
        ParseStatement::Show { ref key, location: Location::Left } if key == "alice happy"));
    let r = parse_line("show bob at right:", &mut keys).unwrap();
    assert!(matches!(r.statement, ParseStatement::Show { location: Location::Center, .. }));
    let c = parse_line("show carol", &mut keys).unwrap();
    assert!(matches!(c.statement,
        ParseStatement::Show { ref key, location: Location::Center } if key == "carol"));
}

#[test]
fn classify_stage_directions() {
    let mut keys = Vec::new();
    let loc = |line: &str, keys: &mut Vec<String>| match parse_line(line, keys).unwrap().statement {
        ParseStatement::StageDirection { location } => location,
        _ => panic!("expected a stage direction"),
    };
    assert_eq!(loc("    at leftcenterstage", &mut keys), Location::CenterLeft);
    assert_eq!(loc("    at rightstage", &mut keys), Location::Right);
    assert_eq!(loc("    at off_left", &mut keys), Location::Off);
    assert_eq!(loc("    xalign 0.2", &mut keys), Location::Left);
    assert_eq!(loc("    xalign 0.5", &mut keys), Location::Center);
    assert_eq!(loc("    xalign 0.66", &mut keys), Location::Right);
    assert_eq!(loc("    xalign -1.5", &mut keys), Location::Left);
    assert_eq!(parse_line("    at centerstage", &mut keys).unwrap().indent, 8);
}

#[test]
fn classify_errors() {
    let mut keys = Vec::new();
    assert_eq!(parse_line("nonsense here", &mut keys).unwrap_err(), ParseError::Unrecognized);
    assert_eq!(parse_line("", &mut keys).unwrap_err(), ParseError::Unrecognized);
    assert_eq!(
        parse_line("define x = Character(Alice)", &mut keys).unwrap_err(),
        ParseError::Malformed
    );
    assert_eq!(parse_line("    xalign wide", &mut keys).unwrap_err(), ParseError::Malformed);
    assert_eq!(parse_line("$ speak(bob \"hi\")", &mut keys).unwrap_err(), ParseError::Malformed);
    assert!(keys.is_empty());
}

#[test]
fn split_lines_like_std() {
    assert_eq!(split_lines("a\r\nb\n\nc\n"), vec!["a", "b", "", "c"]);
    assert_eq!(split_lines(""), Vec::<String>::new());
    assert_eq!(split_lines("x\r"), vec!["x\r"]);
}

#[test]
fn assembler_folds_direction_into_show() {
    let lines = assemble_script("show alice\n    at rightstage\nscene\n    at leftstage\n").unwrap();
    assert_eq!(lines.len(), 4);
    assert!(matches!(lines[1].statement,
        ParseStatement::Show { ref key, location: Location::Right } if key == "alice"));
    assert!(matches!(lines[2].statement, ParseStatement::Scene {}));
    assert!(matches!(lines[3].statement, ParseStatement::StageDirection { location: Location::Left }));
}

#[test]
fn assembler_drops_unrecognized_and_stops_on_malformed() {
    let lines = assemble_script("what is this\nlabel start:\n").unwrap();
    assert_eq!(lines.len(), 2);
    assert_eq!(
        assemble_script("label start:\ndefine x = Character(nope)\n").unwrap_err(),
        ParseError::Malformed
    );
}

#[test]
fn find_label_index_first_or_zero() {
    let lines = assemble_script("\"a\"\nlabel start:\n\"b\"\nlabel start:\n").unwrap();
    assert_eq!(find_label_index(&lines, "start"), 2);
    assert_eq!(find_label_index(&lines, "missing"), 0);
}

#[test]
fn example_label_dialogue_jump() {
    let pages = pages_of("label start:\n\"Alice\" \"Hello there\"\njump start\n");
    assert_eq!(pages.len(), 1);
    assert_eq!(dialogue(&pages[0]), (String::new(), "\"Alice\" \"Hello there\"".to_string()));
    assert_eq!(pages[0].index, 2);
    assert_eq!(pages[0].label, None);
    assert_eq!(pages[0].unconditional_jump, None);
}

#[test]
fn jump_attaches_to_previous_slide() {
    let pages = pages_of("label start:\n\"Hello there\"\njump start\nreturn\n");
    assert_eq!(pages.len(), 1);
    assert_eq!(pages[0].unconditional_jump, Some("start".to_string()));
}

#[test]
fn pending_label_tags_next_dialogue() {
    let pages = pages_of("label start:\nlabel intro:\n\"One\"\n\"Two\"\nreturn\n\"unreached\"\n");
    assert_eq!(pages.len(), 3);
    assert_eq!(pages[0].label, Some("intro".to_string()));
    assert_eq!(pages[1].label, None);
    assert!(pages[2].end);
    assert_eq!(dialogue(&pages[2]), (String::new(), "End".to_string()));
}

#[test]
fn definition_resolves_display_name() {
    let pages = pages_of(
        "label start:\na \"Hi\"\n$ speak(a, \"Again\")\nreturn\ndefine a = Character(\"Alice\")\n\"tail\"\n",
    );
    // `a "Hi"` comes before the definition, so the classifier does not know `a` yet and
    // drops it; the speak call resolves through the registry, built from all lines.
    assert_eq!(pages.len(), 2);
    assert_eq!(dialogue(&pages[0]), ("Alice".to_string(), "Again".to_string()));
    assert!(pages[1].end);
    let pages = pages_of(
        "define a = Character(\"Alice\")\nlabel start:\na \"Hi\"\n$ speak(a, \"Again\")\nreturn\n",
    );
    assert_eq!(pages.len(), 2);
    assert_eq!(dialogue(&pages[0]), ("Alice".to_string(), "\"Hi\"".to_string()));
    assert_eq!(dialogue(&pages[1]), ("Alice".to_string(), "Again".to_string()));
}

#[test]
fn unknown_character_fails() {
    assert_eq!(
        compile_script("label start:\n$ speak(bob, \"hi\")\nreturn\n").unwrap_err(),
        CompileError::Traverse(TraverseError::UnknownCharacter)
    );
}

#[test]
fn menu_pairs_choices_with_jumps() {
    let script = "label start:\nmenu:\n    \"Yes\":\n        jump go_yes\n    \"No\":\n        jump go_no\nlabel go_yes:\n\"Yay\"\nreturn\n";
    let pages = pages_of(script);
    assert_eq!(pages.len(), 2);
    match &pages[0].text {
        PageText::Menu { character_name, text, choices } => {
            assert_eq!(character_name, "");
            assert_eq!(text, "");
            assert_eq!(choices.len(), 2);
            assert_eq!(choices[0].text, "\"Yes\":");
            assert_eq!(choices[0].jump_key, "go_yes");
            assert_eq!(choices[1].text, "\"No\":");
            assert_eq!(choices[1].jump_key, "go_no");
        }
        _ => panic!("expected a menu slide"),
    }
    assert_eq!(pages[0].index, 7);
    assert_eq!(pages[0].label, None);
    assert!(pages[0].images.iter().all(|s| s.is_none()));
    assert_eq!(pages[1].label, Some("go_yes".to_string()));
}

#[test]
fn menu_prompt_from_dialogue() {
    let pages = pages_of("define n = Character(\"Nia\")\nlabel start:\nmenu:\n    n \"Pick one\"\n    \"A\":\n        jump a\nreturn\n\"x\"\n");
    match &pages[0].text {
        PageText::Menu { character_name, text, choices } => {
            assert_eq!(character_name, "Nia");
            assert_eq!(text, "\"Pick one\"");
            assert_eq!(choices.len(), 1);
        }
        _ => panic!("expected a menu slide"),
    }
}

#[test]
fn menu_errors() {
    assert_eq!(
        compile_script("label start:\nmenu:\n    jump nowhere\nreturn\n").unwrap_err(),
        CompileError::Traverse(TraverseError::JumpWithoutChoice)
    );
    assert_eq!(
        compile_script("label start:\n\"x\"\nmenu:\n    \"A\":\n").unwrap_err(),
        CompileError::Traverse(TraverseError::UnterminatedMenu)
    );
}

#[test]
fn show_same_name_moves_character() {
    let mut stage: Vec<Option<String>> = vec![None, None, None, None, None];
    show_character(&mut stage, &"alice".to_string(), Location::Left);
    show_character(&mut stage, &"bob".to_string(), Location::Center);
    show_character(&mut stage, &"alice happy".to_string(), Location::Right);
    assert_eq!(
        stage,
        vec![None, None, Some("bob".to_string()), None, Some("alice happy".to_string())]
    );
    show_character(&mut stage, &"bob".to_string(), Location::Off);
    assert_eq!(stage, vec![None, None, None, None, Some("alice happy".to_string())]);
}

#[test]
fn stage_snapshot_and_scene() {
    let pages = pages_of(
        "label start:\nshow alice at left\nshow alice at right\n\"one\"\nshow bob\nscene\n\"two\"\nreturn\n",
    );
    assert_eq!(pages.len(), 2);
    assert_eq!(
        pages[0].images,
        vec![None, None, None, None, Some("alice".to_string())]
    );
    assert!(pages[1].images.iter().all(|s| s.is_none()));
}

#[test]
fn slide_count_matches_dispatched_statements() {
    let pages = pages_of("label start:\n\"a\"\nlabel x:\nshow k\n\"b\"\njump x\nmenu:\n    \"c\":\n        jump x\nreturn\n\"unreached\"\n");
    assert_eq!(pages.len(), 4);
}

#[test]
fn traversal_without_lines_is_empty() {
    assert_eq!(traverse_game(&Vec::new()).unwrap().len(), 0);
    assert_eq!(pages_of("").len(), 0);
}

#[test]
fn rendering_one_dialogue_slide() {
    let pages = pages_of("label start:\n\"Hi_1\"\nreturn\n");
    let doc = latex_output(&pages, &Vec::new());
    let expected = format!(
        "{}\\begin{{frame}}\n\\frametitle{{}}\n\\phantomsection\\hypertarget{{pagenumber0}}\n\"Hi\\_1\"\n\\vfill{{}}\n\\begin{{flushright}}\n\\hyperlink{{pagenumber1}}{{\\beamergotobutton{{Next}}}}\n\\end{{flushright}}\n\\end{{frame}}\n\\end{{document}}\n",
        HEADER
    );
    assert_eq!(doc, expected);
}

#[test]
fn rendering_images_labels_and_menus() {
    let pages = vec![
        Page {
            index: 3,
            label: Some("intro".to_string()),
            text: PageText::Dialogue { character_name: "Alice".to_string(), text: String::new() },
            images: vec![Some("alice".to_string()), None, None, None, Some("bob".to_string())],
            unconditional_jump: Some("later".to_string()),
            end: false,
        },
        Page {
            index: 12,
            label: None,
            text: PageText::Menu {
                character_name: String::new(),
                text: "Go?".to_string(),
                choices: vec![rpy_slides::traverse::MenuChoice {
                    text: "50%".to_string(),
                    jump_key: "yes".to_string(),
                }],
            },
            images: vec![None, None, None, None, None],
            unconditional_jump: None,
            end: false,
        },
    ];
    let doc = latex_output(&pages, &vec!["alice".to_string()]);
    let col = "\\begin{column}{0.2\\textwidth}\n";
    let expected = format!(
        "{h}\\begin{{frame}}\n\\begin{{columns}}\n{col}\\includegraphics[width=\\textwidth]{{images/alice.png}}\n\\end{{column}}\n{col}\\end{{column}}\n{col}\\end{{column}}\n{col}\\end{{column}}\n\\end{{columns}}\n\\frametitle{{Alice}}\n\\phantomsection\\hypertarget{{intro}}\n\\phantomsection\\hypertarget{{pagenumber0}}\n~\n\\vfill{{}}\n\\begin{{flushright}}\n\\hyperlink{{later}}{{\\beamergotobutton{{Next}}}}\n\\end{{flushright}}\n\\end{{frame}}\n\\begin{{frame}}\n\\frametitle{{}}\n\\phantomsection\\hypertarget{{pagenumber1}}\nGo?\n\\begin{{itemize}}\n\\item \\hyperlink{{yes}}{{50\\%}}\n\\end{{itemize}}\n\\vfill{{}}\n\\begin{{flushright}}\n\\end{{flushright}}\n\\end{{frame}}\n\\end{{document}}\n",
        h = HEADER,
        col = col
    );
    assert_eq!(doc, expected);
}

#[test]
fn rendering_page_numbers_past_nine() {
    let mut script = String::from("label start:\n");
    for _ in 0..12 {
        script.push_str("\"line\"\n");
    }
    script.push_str("return\n");
    let doc = latex_output(&pages_of(&script), &Vec::new());
    assert!(doc.contains("\\hypertarget{pagenumber11}\n"));
    assert!(doc.contains("\\hyperlink{pagenumber12}{\\beamergotobutton{Next}}\n"));
    assert!(!doc.contains("pagenumber13"));
}

#[test]
fn pipeline_is_deterministic() {
    let script = "define a = Character(\"Alice\")\nlabel start:\nshow a at left\na \"Hi 50%\"\nmenu:\n    \"x\":\n        jump start\nreturn\n";
    let first = latex_output(&pages_of(script), &vec!["a".to_string()]);
    let second = latex_output(&pages_of(script), &vec!["a".to_string()]);
    assert_eq!(first, second);
    assert!(first.contains("Hi 50\\%"));
}
