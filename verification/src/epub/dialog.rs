//! The questions asked before a book is made: how many pages of posts to
//! fetch, and how to title the book. The dialog is a state machine: each
//! step gives the text to show before the next line is read, or the answers.

use vstd::prelude::*;
use crate::text::{trim, parse_unsigned, contains, chars_of, trim_in, string_of, owned,
    parse_unsigned_in, contains_in};
use crate::epub::Title;

verus! {

/// What `str::to_lowercase` gives for a string.
pub uninterp spec fn lowercase(s: Seq<char>) -> Seq<char>;

/// std's `str::to_lowercase`. Trusted: its result is named, not described; the
/// contract claims only that it is a function of the characters of `s` (std's
/// fixed Unicode case tables).
#[verifier::external_body]
fn to_lowercase(s: &str) -> (r: String)
    ensures
        r@ == lowercase(s@),
{
    s.to_lowercase()
}

/// A yes/no answer as it is compared: trimmed, then lower-cased.
pub open spec fn answer(line: Seq<char>) -> Seq<char> {
    lowercase(trim(line))
}

pub open spec fn fetch_all_prompt() -> Seq<char> {
    "|| Do you want to fetch all pages? [Y/n] "@
}

pub open spec fn page_count_prompt() -> Seq<char> {
    "|| How many pages would you like to fetch? "@
}

pub open spec fn not_a_number() -> Seq<char> {
    "Error: Not a number or too large, please try again\n"@
}

pub open spec fn set_title_prompt() -> Seq<char> {
    "|| Do you want to set a custom title? [y/N] "@
}

pub open spec fn title_menu() -> Seq<char> {
    "|| Pick title format:\n    1.{First post} - {Last post}\n    2.{Creator name} - {First post} - {Last post}\n    3.{Creator name} - {Post count}\n    4.{Creator name} - {First post}\n    5.{Creator name} - {Last post}\n    6.{Creator name}\n    7.Custom\nPlease enter a number (1-7): "@
}

pub open spec fn undefined_option() -> Seq<char> {
    "Please pick an option that was defined\n"@
}

pub open spec fn custom_title_prompt() -> Seq<char> {
    "Custom Tile: "@
}

pub open spec fn read_retry() -> Seq<char> {
    "Failed to read buffer try again\n"@
}

/// The number of pages asked for when all pages are wanted.
pub open spec fn all_pages() -> u32 {
    65535
}

/// The question that the next line answers.
#[derive(Debug, PartialEq, Eq, Structural, Clone, Copy)]
pub enum Question {
    FetchAll,
    PageCount,
    SetTitle,
    TitleFormat,
    CustomText,
}

/// The dialog's state: the pending question and the number of pages chosen so far.
#[derive(Debug, PartialEq, Eq, Structural, Clone, Copy)]
pub struct Dialog {
    pub question: Question,
    pub pages: u32,
}

/// What came of reading a line.
pub enum Reply {
    Line(String),
    ReadFailed,
}

/// What the dialog does next.
pub enum DialogStep {
    /// Show the text, then read a line and feed it to the dialog.
    Ask(Dialog, String),
    /// A line could not be read where the dialog cannot go on.
    Failed,
    /// The number of pages to fetch and the title.
    Done(u32, Title),
}

/// The title of menu entry `k` (1 to 6).
pub open spec fn menu_title(k: nat, title: Title) -> bool {
    if k == 1 {
        title is StartToEnd
    } else if k == 2 {
        title is NameStartToEnd
    } else if k == 3 {
        title is NameNumber
    } else if k == 4 {
        title is NameFirstPostName
    } else if k == 5 {
        title is NameLastPostName
    } else {
        title is CreatorName
    }
}

/// The dialog ends with the pages and the custom title typed on `line`.
pub open spec fn gives_custom_title(step: DialogStep, pages: u32, line: Seq<char>) -> bool {
    step matches DialogStep::Done(p, t) && p == pages && (t matches Title::Custom(x) && x.0@ == trim(
        line,
    ) && x.1 == contains(trim(line), ".epub"@))
}

/// The dialog asks `question` again (or next), showing `text`.
pub open spec fn asks(step: DialogStep, question: Question, pages: u32, text: Seq<char>) -> bool {
    step matches DialogStep::Ask(d, t) && d.question == question && d.pages == pages && t@ == text
}

impl Dialog {
    /// The dialog's first step: ask whether to fetch all pages.
    pub fn start() -> (step: DialogStep)
        ensures
            asks(step, Question::FetchAll, 0, fetch_all_prompt()),
    {
        DialogStep::Ask(
            Dialog { question: Question::FetchAll, pages: 0 },
            owned("|| Do you want to fetch all pages? [Y/n] "),
        )
    }

    /// The next step after a yes/no question was answered with `answer`
    /// (the line already trimmed and lower-cased): `y` and `n` move on, anything
    /// else asks again.
    pub fn on_yes_no(self, answer: &str) -> (step: DialogStep)
        requires
            self.question == Question::FetchAll || self.question == Question::SetTitle,
        ensures
            self.question == Question::FetchAll ==> if answer@ == "y"@ {
                asks(step, Question::SetTitle, all_pages(), set_title_prompt())
            } else if answer@ == "n"@ {
                asks(step, Question::PageCount, self.pages, page_count_prompt())
            } else {
                asks(step, Question::FetchAll, self.pages, fetch_all_prompt())
            },
            self.question == Question::SetTitle ==> if answer@ == "y"@ {
                asks(step, Question::TitleFormat, self.pages, title_menu())
            } else if answer@ == "n"@ {
                step matches DialogStep::Done(p, t) && p == self.pages && t is CreatorName
            } else {
                asks(step, Question::SetTitle, self.pages, set_title_prompt())
            },
    {
        let a = owned(answer);
        if self.question == Question::FetchAll {
            if a == owned("y") {
                DialogStep::Ask(
                    Dialog { question: Question::SetTitle, pages: 65535 },
                    owned("|| Do you want to set a custom title? [y/N] "),
                )
            } else if a == owned("n") {
                DialogStep::Ask(
                    Dialog { question: Question::PageCount, pages: self.pages },
                    owned("|| How many pages would you like to fetch? "),
                )
            } else {
                DialogStep::Ask(self, owned("|| Do you want to fetch all pages? [Y/n] "))
            }
        } else {
            if a == owned("y") {
                DialogStep::Ask(
                    Dialog { question: Question::TitleFormat, pages: self.pages },
                    owned(
                        "|| Pick title format:\n    1.{First post} - {Last post}\n    2.{Creator name} - {First post} - {Last post}\n    3.{Creator name} - {Post count}\n    4.{Creator name} - {First post}\n    5.{Creator name} - {Last post}\n    6.{Creator name}\n    7.Custom\nPlease enter a number (1-7): ",
                    ),
                )
            } else if a == owned("n") {
                DialogStep::Done(self.pages, Title::CreatorName)
            } else {
                DialogStep::Ask(self, owned("|| Do you want to set a custom title? [y/N] "))
            }
        }
    }

    /// The next step after a line was read (or could not be read).
    pub fn feed(self, reply: Reply) -> (step: DialogStep)
        ensures
            match reply {
                Reply::ReadFailed => match self.question {
                    Question::CustomText => asks(
                        step,
                        Question::CustomText,
                        self.pages,
                        read_retry() + custom_title_prompt(),
                    ),
                    _ => step is Failed,
                },
                Reply::Line(l) => match self.question {
                    Question::FetchAll => if answer(l@) == "y"@ {
                        asks(step, Question::SetTitle, all_pages(), set_title_prompt())
                    } else if answer(l@) == "n"@ {
                        asks(step, Question::PageCount, self.pages, page_count_prompt())
                    } else {
                        asks(step, Question::FetchAll, self.pages, fetch_all_prompt())
                    },
                    Question::PageCount => match parse_unsigned(trim(l@), u32::MAX as nat) {
                        Some(n) => asks(step, Question::SetTitle, n as u32, set_title_prompt()),
                        None => asks(
                            step,
                            Question::PageCount,
                            self.pages,
                            not_a_number() + page_count_prompt(),
                        ),
                    },
                    Question::SetTitle => if answer(l@) == "y"@ {
                        asks(step, Question::TitleFormat, self.pages, title_menu())
                    } else if answer(l@) == "n"@ {
                        step matches DialogStep::Done(p, t) && p == self.pages && t is CreatorName
                    } else {
                        asks(step, Question::SetTitle, self.pages, set_title_prompt())
                    },
                    Question::TitleFormat => match parse_unsigned(trim(l@), u8::MAX as nat) {
                        None => asks(step, Question::TitleFormat, self.pages, not_a_number()),
                        Some(k) => if 1 <= k <= 6 {
                            step matches DialogStep::Done(p, t) && p == self.pages && menu_title(
                                k,
                                t,
                            )
                        } else if k == 7 {
                            asks(step, Question::CustomText, self.pages, custom_title_prompt())
                        } else {
                            asks(step, Question::TitleFormat, self.pages, undefined_option())
                        },
                    },
                    Question::CustomText => gives_custom_title(step, self.pages, l@),
                },
            },
    {
        let line = match reply {
            Reply::ReadFailed => {
                return match self.question {
                    Question::CustomText => {
                        let mut text = owned("Failed to read buffer try again\n");
                        text.append("Custom Tile: ");
                        DialogStep::Ask(self, text)
                    },
                    _ => DialogStep::Failed,
                };
            },
            Reply::Line(l) => l,
        };
        let chars = chars_of(line.as_str());
        let trimmed = trim_in(&chars);
        match self.question {
            Question::FetchAll => {
                let a = to_lowercase(string_of(&trimmed, 0, trimmed.len()).as_str());
                assert(trimmed@.subrange(0, trimmed@.len() as int) =~= trimmed@);
                self.on_yes_no(a.as_str())
            },
            Question::PageCount => match parse_unsigned_in(&trimmed, u32::MAX as u64) {
                Some(n) => DialogStep::Ask(
                    Dialog { question: Question::SetTitle, pages: n as u32 },
                    owned("|| Do you want to set a custom title? [y/N] "),
                ),
                None => {
                    let mut text = owned("Error: Not a number or too large, please try again\n");
                    text.append("|| How many pages would you like to fetch? ");
                    DialogStep::Ask(self, text)
                },
            },
            Question::SetTitle => {
                let a = to_lowercase(string_of(&trimmed, 0, trimmed.len()).as_str());
                assert(trimmed@.subrange(0, trimmed@.len() as int) =~= trimmed@);
                self.on_yes_no(a.as_str())
            },
            Question::TitleFormat => match parse_unsigned_in(&trimmed, u8::MAX as u64) {
                None => DialogStep::Ask(
                    self,
                    owned("Error: Not a number or too large, please try again\n"),
                ),
                Some(k) => {
                    if k == 1 {
                        DialogStep::Done(self.pages, Title::StartToEnd)
                    } else if k == 2 {
                        DialogStep::Done(self.pages, Title::NameStartToEnd)
                    } else if k == 3 {
                        DialogStep::Done(self.pages, Title::NameNumber)
                    } else if k == 4 {
                        DialogStep::Done(self.pages, Title::NameFirstPostName)
                    } else if k == 5 {
                        DialogStep::Done(self.pages, Title::NameLastPostName)
                    } else if k == 6 {
                        DialogStep::Done(self.pages, Title::CreatorName)
                    } else if k == 7 {
                        DialogStep::Ask(
                            Dialog { question: Question::CustomText, pages: self.pages },
                            owned("Custom Tile: "),
                        )
                    } else {
                        DialogStep::Ask(self, owned("Please pick an option that was defined\n"))
                    }
                },
            },
            Question::CustomText => {
                let text = string_of(&trimmed, 0, trimmed.len());
                assert(trimmed@.subrange(0, trimmed@.len() as int) =~= trimmed@);
                let epub = chars_of(".epub");
                let has_extension = contains_in(&trimmed, &epub);
                DialogStep::Done(self.pages, Title::Custom((text, has_extension)))
            },
        }
    }
}

} // verus!
