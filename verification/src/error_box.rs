//! The error pop-up and the OK / CANCEL choice it may ask for.
use vstd::prelude::*;
use crate::display_width::{str_width, text_width};
use crate::ip_info::{max_of, widths};
use crate::lexical::texts;
use crate::table_pane::split_lines;

verus! {

/// The answer to an error pop-up's question.
#[derive(Debug, Clone, Copy, PartialEq, Eq, Structural)]
pub enum PromptResponse {
    Confirm,
    Cancel,
}

/// An error message, optionally with a question to answer with OK or CANCEL.
#[derive(Debug)]
pub struct ErrorBox {
    pub msg: String,
    pub prompt: Option<Vec<String>>,
    pub selected: Option<PromptResponse>,
}

impl ErrorBox {
    /// An error with no question and no answer chosen.
    pub fn new(msg: &str) -> (r: Self)
        ensures
            r.msg@ == msg@,
            r.prompt is None,
            r.selected is None,
    {
        ErrorBox { msg: msg.to_owned(), prompt: None, selected: None }
    }

    /// The same error asking the question `prompt`; no answer chosen yet.
    pub fn with_prompt(self, prompt: Vec<String>) -> (r: Self)
        ensures
            r.msg == self.msg,
            r.prompt == Some(prompt),
            r.selected is None,
    {
        ErrorBox { msg: self.msg, prompt: Some(prompt), selected: None }
    }

    /// The answer chosen so far.
    pub fn select(&self) -> (r: Option<PromptResponse>)
        ensures
            r == self.selected,
    {
        self.selected
    }

    /// Switches between OK and CANCEL; with nothing chosen, CANCEL.
    pub fn navigate_toggle(&mut self)
        ensures
            final(self).msg == old(self).msg,
            final(self).prompt == old(self).prompt,
            final(self).selected == Some(
                match old(self).selected {
                    Some(PromptResponse::Confirm) => PromptResponse::Cancel,
                    Some(PromptResponse::Cancel) => PromptResponse::Confirm,
                    None => PromptResponse::Cancel,
                },
            ),
    {
        self.selected = match self.selected {
            Some(s) => match s {
                PromptResponse::Confirm => Some(PromptResponse::Cancel),
                PromptResponse::Cancel => Some(PromptResponse::Confirm),
            },
            None => Some(PromptResponse::Cancel),
        }
    }

    /// Chooses OK.
    pub fn navigate_left(&mut self)
        ensures
            final(self).msg == old(self).msg,
            final(self).prompt == old(self).prompt,
            final(self).selected == Some(PromptResponse::Confirm),
    {
        self.selected = Some(PromptResponse::Confirm);
    }

    /// Chooses CANCEL.
    pub fn navigate_right(&mut self)
        ensures
            final(self).msg == old(self).msg,
            final(self).prompt == old(self).prompt,
            final(self).selected == Some(PromptResponse::Cancel),
    {
        self.selected = Some(PromptResponse::Cancel);
    }
}

/// What came of an attempt to save the configuration to the user's file.
#[derive(Debug)]
pub enum SaveAttempt {
    /// The user's configuration path is unknown.
    NoConfigPath,
    /// The file at `path` could not be read back.
    LoadFailed { error: String, path: String },
    /// Writing failed.
    SaveFailed(String),
    /// The configuration was written.
    Saved,
}

/// The question asked when the configuration file could not be read.
pub open spec fn create_prompt(path: Seq<char>) -> Seq<Seq<char>> {
    seq!["Failed retrieving the config from:"@, path, ""@, "Would you like to create it?"@]
}

/// What the user is shown after a save, and whether the pop-up now waits for
/// the answer to a question: nothing when saved; the error when writing
/// failed or no path is known; when the file could not be read, the error
/// asking whether to create it.
pub fn save_config_result(attempt: SaveAttempt) -> (r: (Result<(), ErrorBox>, bool))
    ensures
        match attempt {
            SaveAttempt::NoConfigPath => r.1 == false && (r.0 matches Err(b) && b.msg@
                == "Could not determine user config path"@ && b.prompt is None && b.selected is None),
            SaveAttempt::LoadFailed { error, path } => r.1 == true && (r.0 matches Err(b) && b.msg@
                == error@ && b.selected is None && (b.prompt matches Some(p) && p@.map_values(
                |l: String| l@,
            ) == create_prompt(path@))),
            SaveAttempt::SaveFailed(error) => r.1 == false && (r.0 matches Err(b) && b.msg@ == error@
                && b.prompt is None && b.selected is None),
            SaveAttempt::Saved => r.1 == false && r.0 is Ok,
        },
{
    match attempt {
        SaveAttempt::NoConfigPath => (Err(ErrorBox::new("Could not determine user config path")), false),
        SaveAttempt::LoadFailed { error, path } => {
            let prompt = vec![
                "Failed retrieving the config from:".to_owned(),
                path,
                "".to_owned(),
                "Would you like to create it?".to_owned(),
            ];
            assert(prompt@.map_values(|l: String| l@) =~= create_prompt(prompt@[1]@));
            (Err(ErrorBox::new(error.as_str()).with_prompt(prompt)), true)
        },
        SaveAttempt::SaveFailed(error) => (Err(ErrorBox::new(error.as_str())), false),
        SaveAttempt::Saved => (Ok(()), false),
    }
}

/// A line without the carriage return that ended it, if any.
pub open spec fn strip_cr(l: Seq<char>) -> Seq<char> {
    if l.len() > 0 && l.last() == '\r' {
        l.drop_last()
    } else {
        l
    }
}

/// The lines of a text as `str::lines` yields them: split at each `\n`, a
/// `\r` before it dropped, the final line ending optional.
pub open spec fn std_lines(s: Seq<char>) -> Seq<Seq<char>> {
    if s.len() == 0 {
        Seq::empty()
    } else {
        let parts = split_lines(s);
        let ended = Seq::new((parts.len() - 1) as nat, |i: int| strip_cr(parts[i]));
        if s.last() == '\n' {
            ended
        } else {
            ended.push(parts.last())
        }
    }
}

proof fn lemma_split_lines_len(s: Seq<char>)
    ensures
        split_lines(s).len() >= 1,
    decreases s.len(),
{
    if s.len() > 0 {
        lemma_split_lines_len(s.drop_last());
    }
}

/// The lines of a text (see `std_lines`).
pub fn text_lines(s: &str) -> (r: Vec<String>)
    ensures
        texts(r@) == std_lines(s@),
{
    let n = s.unicode_len();
    let mut r: Vec<String> = Vec::new();
    let mut cur = String::new();
    let mut i: usize = 0;
    while i < n
        invariant
            n == s@.len(),
            i <= n,
            ({
                let parts = split_lines(s@.take(i as int));
                &&& parts.len() >= 1
                &&& cur@ == parts.last()
                &&& texts(r@) == Seq::new((parts.len() - 1) as nat, |k: int| strip_cr(parts[k]))
            }),
        decreases n - i,
    {
        proof {
            lemma_split_lines_len(s@.take(i as int));
            assert(s@.take(i + 1).drop_last() =~= s@.take(i as int));
        }
        let c = s.get_char(i);
        let ghost parts = split_lines(s@.take(i as int));
        if c == '\n' {
            let ghost before = r@;
            let ghost old_cur = cur@;
            let k = cur.unicode_len();
            if k > 0 && cur.get_char(k - 1) == '\r' {
                let t = cur.as_str().substring_char(0, k - 1).to_owned();
                assert(t@ =~= strip_cr(cur@));
                r.push(t);
            } else {
                r.push(cur);
            }
            assert(texts(r@) =~= texts(before).push(strip_cr(old_cur)));
            cur = String::new();
            proof {
                let parts2 = split_lines(s@.take(i + 1));
                assert(s@.take(i + 1).last() == '\n');
                assert(parts2 == parts.push(Seq::empty()));
                assert(texts(r@) =~= Seq::new((parts2.len() - 1) as nat, |k: int| strip_cr(parts2[k])));
            }
        } else {
            cur.push(c);
            proof {
                let parts2 = split_lines(s@.take(i + 1));
                assert(s@.take(i + 1).last() == c);
                assert(parts2 == parts.update(parts.len() - 1, parts.last().push(c)));
                assert(Seq::new((parts2.len() - 1) as nat, |k: int| strip_cr(parts2[k])) =~= Seq::new(
                    (parts.len() - 1) as nat,
                    |k: int| strip_cr(parts[k]),
                ));
            }
        }
        i = i + 1;
    }
    assert(s@.take(n as int) =~= s@);
    if n > 0 && s.get_char(n - 1) != '\n' {
        let ghost before = r@;
        r.push(cur);
        assert(texts(r@) =~= texts(before).push(split_lines(s@).last()));
    }
    r
}

/// The choice line of a question: the chosen answer in angle brackets.
pub open spec fn choice_text(selected: Option<PromptResponse>) -> Seq<char> {
    match selected {
        Some(PromptResponse::Confirm) => "<OK>   CANCEL "@,
        Some(PromptResponse::Cancel) => " OK   <CANCEL>"@,
        None => " OK    CANCEL "@,
    }
}

/// The pop-up's lines: the message's lines; with a question, a blank line,
/// the question's lines, a blank line and the choice line.
pub open spec fn error_box_lines(msg: Seq<char>, prompt: Option<Seq<Seq<char>>>, selected: Option<PromptResponse>) -> Seq<Seq<char>> {
    match prompt {
        None => std_lines(msg),
        Some(p) => std_lines(msg) + seq![Seq::<char>::empty()] + p + seq![
            Seq::<char>::empty(),
            choice_text(selected),
        ],
    }
}

/// The question's lines as plain values.
pub open spec fn prompt_view(p: Option<Vec<String>>) -> Option<Seq<Seq<char>>> {
    match p {
        Some(v) => Some(texts(v@)),
        None => None,
    }
}

impl ErrorBox {
    /// The lines the pop-up shows (see `error_box_lines`).
    pub fn lines(&self) -> (r: Vec<String>)
        ensures
            texts(r@) == error_box_lines(self.msg@, prompt_view(self.prompt), self.selected),
    {
        let mut r = text_lines(self.msg.as_str());
        match &self.prompt {
            None => {},
            Some(p) => {
                let ghost start = texts(r@);
                r.push(String::new());
                let mut i: usize = 0;
                while i < p.len()
                    invariant
                        i <= p@.len(),
                        texts(r@) == start + seq![Seq::<char>::empty()] + texts(p@).take(i as int),
                    decreases p@.len() - i,
                {
                    let ghost before = r@;
                    r.push(p[i].clone());
                    assert(texts(r@) =~= texts(before).push(p@[i as int]@));
                    assert(texts(p@).take(i + 1) =~= texts(p@).take(i as int).push(p@[i as int]@));
                    i = i + 1;
                }
                assert(texts(p@).take(p@.len() as int) =~= texts(p@));
                r.push(String::new());
                let mut choice = String::new();
                match self.selected {
                    Some(PromptResponse::Confirm) => crate::strings::push_str(&mut choice, "<OK>   CANCEL "),
                    Some(PromptResponse::Cancel) => crate::strings::push_str(&mut choice, " OK   <CANCEL>"),
                    None => crate::strings::push_str(&mut choice, " OK    CANCEL "),
                }
                let ghost before = r@;
                r.push(choice);
                assert(texts(r@) =~= texts(before).push(choice_text(self.selected)));
            },
        }
        assert(texts(r@) =~= error_box_lines(self.msg@, prompt_view(self.prompt), self.selected));
        r
    }

    /// The pop-up's size: its widest line in terminal columns, and its line count.
    pub fn size(&self) -> (r: (usize, usize))
        ensures
            r.0 == max_of(widths(error_box_lines(self.msg@, prompt_view(self.prompt), self.selected))),
            r.1 == error_box_lines(self.msg@, prompt_view(self.prompt), self.selected).len(),
    {
        let lines = self.lines();
        let ghost w = widths(texts(lines@));
        let mut max: usize = 0;
        let mut i: usize = 0;
        while i < lines.len()
            invariant
                i <= lines@.len(),
                w == widths(texts(lines@)),
                max == max_of(w.take(i as int)),
            decreases lines@.len() - i,
        {
            assert(w.take(i + 1).drop_last() =~= w.take(i as int));
            let width = str_width(lines[i].as_str());
            assert(w.take(i + 1).last() == width);
            if max < width {
                max = width;
            }
            i = i + 1;
        }
        assert(w.take(lines@.len() as int) =~= w);
        (max, lines.len())
    }
}

} // verus!
