use kemono_to_epub::epub::dialog::{Dialog, DialogStep, Question, Reply};
use kemono_to_epub::Title;

fn line(s: &str) -> Reply {
    Reply::Line(s.to_string())
}

fn ask(step: DialogStep) -> (Dialog, String) {
    match step {
        DialogStep::Ask(d, t) => (d, t),
        DialogStep::Failed => panic!("dialog failed"),
        DialogStep::Done(..) => panic!("dialog done"),
    }
}

fn done(step: DialogStep) -> (u32, Title) {
    match step {
        DialogStep::Done(p, t) => (p, t),
        _ => panic!("dialog not done"),
    }
}

const MENU: &str = "|| Pick title format:\n    1.{First post} - {Last post}\n    2.{Creator name} - {First post} - {Last post}\n    3.{Creator name} - {Post count}\n    4.{Creator name} - {First post}\n    5.{Creator name} - {Last post}\n    6.{Creator name}\n    7.Custom\nPlease enter a number (1-7): ";

#[test]
fn all_pages_and_creator_name() {
    let (d, t) = ask(Dialog::start());
    assert_eq!(t, "|| Do you want to fetch all pages? [Y/n] ");
    assert_eq!(d.question, Question::FetchAll);
    let (d, t) = ask(d.feed(line(" Y \n")));
    assert_eq!(t, "|| Do you want to set a custom title? [y/N] ");
    assert_eq!(d.pages, 65535);
    let (pages, title) = done(d.feed(line("n\n")));
    assert_eq!(pages, 65535);
    assert!(matches!(title, Title::CreatorName));
}

#[test]
fn other_answers_repeat_the_question() {
    let (d, _) = ask(Dialog::start());
    let (d, t) = ask(d.feed(line("\n")));
    assert_eq!(t, "|| Do you want to fetch all pages? [Y/n] ");
    assert_eq!(d.question, Question::FetchAll);
    let (d, t) = ask(d.feed(line("yes\n")));
    assert_eq!(t, "|| Do you want to fetch all pages? [Y/n] ");
    let (d, _) = ask(d.feed(line("y")));
    let (d, t) = ask(d.feed(line("maybe")));
    assert_eq!(t, "|| Do you want to set a custom title? [y/N] ");
    assert_eq!(d.question, Question::SetTitle);
}

#[test]
fn page_count_is_asked_until_a_number_comes() {
    let (d, _) = ask(Dialog::start());
    let (d, t) = ask(d.feed(line("N")));
    assert_eq!(t, "|| How many pages would you like to fetch? ");
    let (d, t) = ask(d.feed(line("five")));
    assert_eq!(
        t,
        "Error: Not a number or too large, please try again\n|| How many pages would you like to fetch? "
    );
    let (d, _) = ask(d.feed(line("99999999999")));
    let (d, t) = ask(d.feed(line(" 5 \n")));
    assert_eq!(t, "|| Do you want to set a custom title? [y/N] ");
    assert_eq!(d.pages, 5);
    let (d, t) = ask(d.feed(line("y")));
    assert_eq!(t, MENU);
    let (pages, title) = done(d.feed(line("3")));
    assert_eq!(pages, 5);
    assert!(matches!(title, Title::NameNumber));
}

#[test]
fn menu_entries() {
    let expected = |k: &str, check: fn(&Title) -> bool| {
        let (d, _) = ask(Dialog::start());
        let (d, _) = ask(d.feed(line("y")));
        let (d, _) = ask(d.feed(line("y")));
        let (_, title) = done(d.feed(line(k)));
        assert!(check(&title));
    };
    expected("1", |t| matches!(t, Title::StartToEnd));
    expected("2", |t| matches!(t, Title::NameStartToEnd));
    expected("3", |t| matches!(t, Title::NameNumber));
    expected("4", |t| matches!(t, Title::NameFirstPostName));
    expected("5", |t| matches!(t, Title::NameLastPostName));
    expected("6", |t| matches!(t, Title::CreatorName));
}

#[test]
fn menu_errors_do_not_repeat_the_menu() {
    let (d, _) = ask(Dialog::start());
    let (d, _) = ask(d.feed(line("y")));
    let (d, _) = ask(d.feed(line("Y")));
    let (d, t) = ask(d.feed(line("x")));
    assert_eq!(t, "Error: Not a number or too large, please try again\n");
    let (d, t) = ask(d.feed(line("256")));
    assert_eq!(t, "Error: Not a number or too large, please try again\n");
    let (d, t) = ask(d.feed(line("8")));
    assert_eq!(t, "Please pick an option that was defined\n");
    let (d, t) = ask(d.feed(line("0")));
    assert_eq!(t, "Please pick an option that was defined\n");
    assert_eq!(d.question, Question::TitleFormat);
}

#[test]
fn custom_title_is_trimmed_and_checked_for_extension() {
    let (d, _) = ask(Dialog::start());
    let (d, _) = ask(d.feed(line("y")));
    let (d, _) = ask(d.feed(line("y")));
    let (d, t) = ask(d.feed(line("7")));
    assert_eq!(t, "Custom Tile: ");
    let (d2, t) = ask(d.feed(Reply::ReadFailed));
    assert_eq!(t, "Failed to read buffer try again\nCustom Tile: ");
    let (pages, title) = done(d2.feed(line("  My {Creator.name}.epub \n")));
    assert_eq!(pages, 65535);
    match title {
        Title::Custom((text, has_extension)) => {
            assert_eq!(text, "My {Creator.name}.epub");
            assert!(has_extension);
        }
        _ => panic!("not custom"),
    }
    let (pages, title) = done(d.feed(line("Plain")));
    assert_eq!(pages, 65535);
    assert!(matches!(title, Title::Custom((ref s, false)) if s == "Plain"));
}

#[test]
fn failed_reads_end_the_dialog_elsewhere() {
    let (d, _) = ask(Dialog::start());
    assert!(matches!(d.feed(Reply::ReadFailed), DialogStep::Failed));
    let (d, _) = ask(d.feed(line("n")));
    assert!(matches!(d.feed(Reply::ReadFailed), DialogStep::Failed));
}

#[test]
fn yes_no_answers_come_already_lowered() {
    let d = Dialog { question: Question::FetchAll, pages: 0 };
    let (next, _) = ask(d.on_yes_no("y"));
    assert_eq!(next.question, Question::SetTitle);
    let (next, _) = ask(d.on_yes_no("Y"));
    assert_eq!(next.question, Question::FetchAll);
    let (next, text) = ask(d.on_yes_no("n"));
    assert_eq!(next.question, Question::PageCount);
    assert_eq!(text, "|| How many pages would you like to fetch? ");
    let s = Dialog { question: Question::SetTitle, pages: 9 };
    let (p, t) = done(s.on_yes_no("n"));
    assert_eq!(p, 9);
    assert!(matches!(t, Title::CreatorName));
}
