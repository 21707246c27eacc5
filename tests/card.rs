use ripbk::{
    format_example, image_tag, progress_at, remove_excerpt, rep, CardError, Fields, NoteType,
    Program, Progress, State,
};

fn slot(s: &State) -> String {
    match progress_at(s.progress) {
        Progress::Meaning => s.meaning.clone(),
        Progress::Word => s.word.clone(),
        Progress::Reading => s.reading.clone(),
        Progress::Example => s.example.clone(),
    }
}

#[test]
fn test_add() {
    let mut program = Program::new(State::empty());
    program.reset();

    let s = remove_excerpt("“Hello World”\n\nExcerpt From\nLife\nby me\nbob.com\nThis material may be protected by copyright.".into());

    assert_eq!(s, "Hello World")
}

#[test]
fn test_undo() {
    let mut program = Program::new(State::empty());
    program.reset();

    let r = program.add(NoteType::Cloze, "XDDDDDDDDDDDDDDDDDDDDDDDDD".into());
    assert!(matches!(r, Ok(None)));
    let r = program.add(NoteType::Cloze, "XDDDDDDDDDDDDDDDDDDDDDDDDD".into());
    assert!(matches!(r, Ok(None)));

    program.undo();

    let s = &program.state;

    assert_eq!(s.progress, 1);
    assert_eq!(slot(s), String::from("XDDDDDDDDDDDDDDDDDDDDDDDDD"));
}

#[test]
fn progress_order_starts_with_example() {
    assert_eq!(progress_at(0), Progress::Example);
    assert_eq!(progress_at(1), Progress::Word);
    assert_eq!(progress_at(2), Progress::Meaning);
    assert_eq!(progress_at(3), Progress::Reading);
}

#[test]
fn undo_at_first_step_stays_there() {
    let mut program = Program::new(State::empty());
    program.state.example = "ex".to_string();
    program.undo();
    assert_eq!(program.state.progress, 0);
    assert_eq!(program.state.example, "");
}

#[test]
fn reset_clears_everything() {
    let mut program = Program::new(State::empty());
    program.add(NoteType::Basic, "one".into()).unwrap();
    program.add(NoteType::Basic, "two".into()).unwrap();
    program.reset();
    assert_eq!(program.state.progress, 0);
    assert_eq!(program.state.example, "");
    assert_eq!(program.state.word, "");
}

#[test]
fn multi_line_example_becomes_paragraphs() {
    assert_eq!(format_example("a\tb\r\nc\n"), "ab<br><br>c");
    assert_eq!(format_example("one line\n"), "one line\n");
    assert_eq!(format_example("x\n\ny"), "x<br><br><br><br>y");
    assert_eq!(format_example("a\rb\nc"), "a\rb<br><br>c");
}

#[test]
fn rep_marks_every_match_in_any_case() {
    assert_eq!(rep("The Cat saw a cat", "cat").unwrap(), "The {{c1::cat}} saw a {{c1::cat}}");
    assert_eq!(rep("nothing here", "cat").unwrap(), "nothing here");
}

#[test]
fn rep_rejects_a_broken_pattern() {
    assert_eq!(rep("a (b", "("), None);
}

#[test]
fn four_copies_make_a_basic_card() {
    let mut program = Program::new(State::empty());
    assert!(matches!(program.add(NoteType::Basic, "line one\nline\ttwo".into()), Ok(None)));
    assert!(matches!(program.add(NoteType::Basic, "word".into()), Ok(None)));
    assert!(matches!(program.add(NoteType::Basic, "meaning".into()), Ok(None)));
    let note = program.add(NoteType::Basic, "reading".into()).unwrap().unwrap();
    assert_eq!(note.deck_name, "misc");
    assert_eq!(note.model_name, "basic");
    assert_eq!(note.tags, vec!["book".to_string()]);
    match note.fields {
        Fields::Basic { front, back } => {
            assert_eq!(front, "meaning");
            assert_eq!(back, "word<br>reading<br><br>$line one<br><br>linetwo");
        }
        Fields::Cloze { .. } => panic!("expected a basic card"),
    }
    assert_eq!(program.state.progress, 0);
    assert_eq!(program.state.example, "");
}

#[test]
fn four_copies_make_a_cloze_card() {
    let mut program = Program::new(State::empty());
    program.add(NoteType::Cloze, "The Dog ran".into()).unwrap();
    program.add(NoteType::Cloze, "dog".into()).unwrap();
    program.add(NoteType::Cloze, "a pet".into()).unwrap();
    let note = program.add(NoteType::Cloze, "dɔg".into()).unwrap().unwrap();
    assert_eq!(note.model_name, "Cloze");
    match note.fields {
        Fields::Cloze { text, back_extra } => {
            assert_eq!(text, "a pet<br><br>The {{c1::dog}} ran");
            assert_eq!(back_extra, "dɔg");
        }
        Fields::Basic { .. } => panic!("expected a cloze card"),
    }
}

#[test]
fn broken_word_leaves_state_unchanged() {
    let mut program = Program::new(State::empty());
    program.add(NoteType::Cloze, "ex".into()).unwrap();
    program.add(NoteType::Cloze, "(".into()).unwrap();
    program.add(NoteType::Cloze, "m".into()).unwrap();
    assert_eq!(program.add(NoteType::Cloze, "r".into()).unwrap_err(), CardError::InvalidPattern);
    assert_eq!(program.state.progress, 3);
    assert_eq!(program.state.reading, "");
    assert_eq!(program.complete().unwrap_err(), CardError::InvalidPattern);
    assert_eq!(program.state.word, "(");
}

#[test]
fn complete_sends_what_is_there() {
    let mut program = Program::new(State::empty());
    program.add(NoteType::Cloze, "cats and Cats".into()).unwrap();
    program.add(NoteType::Cloze, "cats".into()).unwrap();
    let note = program.complete().unwrap();
    match note.fields {
        Fields::Cloze { text, back_extra } => {
            assert_eq!(text, "<br><br>{{c1::cats}} and {{c1::cats}}");
            assert_eq!(back_extra, "");
        }
        Fields::Basic { .. } => panic!("expected a cloze card"),
    }
    assert_eq!(program.state.progress, 0);
    assert_eq!(program.state.word, "");
}

#[test]
fn image_tag_wraps_the_file_name() {
    assert_eq!(image_tag("paste-1.png"), "<img src=\"paste-1.png\">");
}

#[test]
fn complete_ignores_the_stored_step() {
    let mut program = Program::new(State {
        meaning: "m".to_string(),
        word: "w".to_string(),
        reading: "r".to_string(),
        example: "a w".to_string(),
        progress: 7,
    });
    let note = program.complete().unwrap();
    match note.fields {
        Fields::Cloze { text, back_extra } => {
            assert_eq!(text, "m<br><br>a {{c1::w}}");
            assert_eq!(back_extra, "r");
        }
        Fields::Basic { .. } => panic!("expected a cloze card"),
    }
    assert_eq!(program.state.progress, 0);
}
