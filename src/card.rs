use vstd::prelude::*;

use crate::text::{append_str, chars_of, push_char};

verus! {

/// The layout of a card: front and back, or a text with hidden parts.
#[derive(Clone, Copy, Debug, PartialEq, Eq, Structural)]
pub enum NoteType {
    Basic,
    Cloze,
}

/// The four texts that make up a card.
#[derive(Clone, Copy, Debug, PartialEq, Eq, Structural)]
pub enum Progress {
    Meaning,
    Word,
    Reading,
    Example,
}

/// The slot that each step of the cycle fills.
pub open spec fn progress_order(i: int) -> Progress {
    if i == 0 {
        Progress::Example
    } else if i == 1 {
        Progress::Word
    } else if i == 2 {
        Progress::Meaning
    } else {
        Progress::Reading
    }
}

/// The slot that step `i` fills.
pub fn progress_at(i: usize) -> (p: Progress)
    requires
        i < 4,
    ensures
        p == progress_order(i as int),
{
    match i {
        0 => Progress::Example,
        1 => Progress::Word,
        2 => Progress::Meaning,
        _ => Progress::Reading,
    }
}

/// The card under construction: four texts and the step that comes next.
#[derive(Debug)]
pub struct State {
    pub meaning: String,
    pub word: String,
    pub reading: String,
    pub example: String,
    pub progress: usize,
}

pub struct StateView {
    pub meaning: Seq<char>,
    pub word: Seq<char>,
    pub reading: Seq<char>,
    pub example: Seq<char>,
    pub progress: int,
}

impl View for State {
    type V = StateView;

    open spec fn view(&self) -> StateView {
        StateView {
            meaning: self.meaning@,
            word: self.word@,
            reading: self.reading@,
            example: self.example@,
            progress: self.progress as int,
        }
    }
}

/// The state with nothing filled in.
pub open spec fn empty_state() -> StateView {
    StateView {
        meaning: Seq::empty(),
        word: Seq::empty(),
        reading: Seq::empty(),
        example: Seq::empty(),
        progress: 0,
    }
}

/// `st` with the slot `p` set to `v`.
pub open spec fn with_slot(st: StateView, p: Progress, v: Seq<char>) -> StateView {
    match p {
        Progress::Meaning => StateView { meaning: v, ..st },
        Progress::Word => StateView { word: v, ..st },
        Progress::Reading => StateView { reading: v, ..st },
        Progress::Example => StateView { example: v, ..st },
    }
}

impl State {
    /// The step index names a slot of the cycle.
    pub open spec fn wf(&self) -> bool {
        self.progress < 4
    }

    /// A state with nothing filled in.
    pub fn empty() -> (r: State)
        ensures
            r@ == empty_state(),
            r.wf(),
    {
        State {
            meaning: String::new(),
            word: String::new(),
            reading: String::new(),
            example: String::new(),
            progress: 0,
        }
    }

    /// A copy of this state with the slot `p` set to `v`.
    pub fn clone_with_slot(&self, p: Progress, v: String) -> (r: State)
        ensures
            r@ == with_slot(self@, p, v@),
    {
        let mut r = State {
            meaning: self.meaning.clone(),
            word: self.word.clone(),
            reading: self.reading.clone(),
            example: self.example.clone(),
            progress: self.progress,
        };
        r.set_slot(p, v);
        r
    }

    /// Sets the slot `p` to `v`.
    pub fn set_slot(&mut self, p: Progress, v: String)
        ensures
            final(self)@ == with_slot(old(self)@, p, v@),
    {
        match p {
            Progress::Meaning => self.meaning = v,
            Progress::Word => self.word = v,
            Progress::Reading => self.reading = v,
            Progress::Example => self.example = v,
        }
    }
}

/// The pieces of `s` between line feeds; there is always at least one.
pub open spec fn split_lf(s: Seq<char>) -> Seq<Seq<char>>
    decreases s.len(),
{
    if s.len() == 0 {
        seq![Seq::empty()]
    } else {
        let prev = split_lf(s.drop_last());
        if s.last() == '\n' {
            prev.push(Seq::empty())
        } else {
            prev.update(prev.len() - 1, prev.last().push(s.last()))
        }
    }
}

/// A line that ended in a line feed, without a carriage return before it.
pub open spec fn strip_cr(l: Seq<char>) -> Seq<char> {
    if l.len() > 0 && l.last() == '\r' {
        l.drop_last()
    } else {
        l
    }
}

/// The lines of `s`: split at each line feed, a carriage return before it
/// dropped, and no empty line after a final line feed.
pub open spec fn lines_spec(s: Seq<char>) -> Seq<Seq<char>> {
    let p = split_lf(s);
    let ended = p.drop_last().map_values(|l: Seq<char>| strip_cr(l));
    if p.last().len() == 0 {
        ended
    } else {
        ended.push(p.last())
    }
}

/// Relies on `str::lines`: it splits at "\n" and at "\r\n", leaves the line
/// endings out, and gives no empty line after a final line ending.
#[verifier::external_body]
fn lines_of(s: &str) -> (r: Vec<String>)
    ensures
        r@.len() == lines_spec(s@).len(),
        forall|k: int| 0 <= k < r@.len() ==> r@[k]@ == lines_spec(s@)[k],
{
    s.lines().map(String::from).collect()
}

/// `s` without its tab characters.
pub open spec fn drop_tabs(s: Seq<char>) -> Seq<char>
    decreases s.len(),
{
    if s.len() == 0 {
        s
    } else if s.last() == '\t' {
        drop_tabs(s.drop_last())
    } else {
        drop_tabs(s.drop_last()).push(s.last())
    }
}

/// The separator between paragraphs of an example.
pub open spec fn paragraph_break() -> Seq<char> {
    seq!['<', 'b', 'r', '>', '<', 'b', 'r', '>']
}

/// The lines `ls` without tabs, joined by paragraph breaks.
pub open spec fn join_lines(ls: Seq<Seq<char>>) -> Seq<char>
    decreases ls.len(),
{
    if ls.len() == 0 {
        Seq::empty()
    } else if ls.len() == 1 {
        drop_tabs(ls[0])
    } else {
        join_lines(ls.drop_last()) + paragraph_break() + drop_tabs(ls.last())
    }
}

/// An example of more than one line becomes its lines without tabs, joined
/// by paragraph breaks; one of at most one line stays as it is.
pub open spec fn example_text(s: Seq<char>) -> Seq<char> {
    if lines_spec(s).len() > 1 {
        join_lines(lines_spec(s))
    } else {
        s
    }
}

fn without_tabs(s: &str) -> (r: String)
    ensures
        r@ == drop_tabs(s@),
{
    let v = chars_of(s);
    let mut out = String::new();
    let mut i: usize = 0;
    while i < v.len()
        invariant
            v@ == s@,
            i <= v@.len(),
            out@ == drop_tabs(v@.subrange(0, i as int)),
        decreases v@.len() - i,
    {
        assert(v@.subrange(0, i + 1).drop_last() =~= v@.subrange(0, i as int));
        if v[i] != '\t' {
            push_char(&mut out, v[i]);
        }
        i = i + 1;
    }
    assert(v@.subrange(0, v@.len() as int) =~= v@);
    out
}

/// The text that an example slot receives for the copied text `s`.
pub fn format_example(s: &str) -> (r: String)
    ensures
        r@ == example_text(s@),
{
    let lines = lines_of(s);
    if lines.len() > 1 {
        let ghost ls = lines_spec(s@);
        let mut out = String::new();
        let mut k: usize = 0;
        while k < lines.len()
            invariant
                lines@.len() == ls.len(),
                forall|j: int| 0 <= j < lines@.len() ==> lines@[j]@ == ls[j],
                k <= ls.len(),
                out@ == join_lines(ls.subrange(0, k as int)),
            decreases ls.len() - k,
        {
            assert(ls.subrange(0, k + 1).drop_last() =~= ls.subrange(0, k as int));
            if k > 0 {
                let sep = "<br><br>";
                proof {
                    reveal_strlit("<br><br>");
                }
                assert(sep@ =~= paragraph_break());
                append_str(&mut out, sep);
            } else {
                assert(out@ =~= Seq::<char>::empty());
            }
            let t = without_tabs(lines[k].as_str());
            append_str(&mut out, t.as_str());
            k = k + 1;
        }
        assert(ls.subrange(0, ls.len() as int) =~= ls);
        out
    } else {
        s.to_owned()
    }
}

/// What `regex::Regex::new(pattern)` followed by `replace_all(haystack,
/// replacement)` gives: `None` where the pattern does not compile.
pub uninterp spec fn regex_replace_of(
    pattern: Seq<char>,
    haystack: Seq<char>,
    replacement: Seq<char>,
) -> Option<Seq<char>>;

/// The characters of a string that may be absent.
pub open spec fn opt_view(r: Option<String>) -> Option<Seq<char>> {
    match r {
        Some(t) => Some(t@),
        None => None,
    }
}

/// Relies on `regex::Regex::new`, which fails where `pattern` is not a valid
/// pattern or too large, and on `Regex::replace_all`, which replaces each
/// match, expanding `$` references in `replacement`. The result depends on
/// the three strings alone.
#[verifier::external_body]
fn regex_replace_all(pattern: &str, haystack: &str, replacement: &str) -> (r: Option<String>)
    ensures
        opt_view(r) == regex_replace_of(pattern@, haystack@, replacement@),
{
    match regex::Regex::new(pattern) {
        Ok(re) => Some(re.replace_all(haystack, replacement).into_owned()),
        Err(_) => None,
    }
}

/// The pattern that finds `w` whatever its case: "(?i)" before it.
pub open spec fn any_case(w: Seq<char>) -> Seq<char> {
    seq!['(', '?', 'i', ')'] + w
}

/// The first hidden part of a cloze card holding `w`: "{{c1::" w "}}".
pub open spec fn cloze_mark(w: Seq<char>) -> Seq<char> {
    seq!['{', '{', 'c', '1', ':', ':'] + w + seq!['}', '}']
}

/// The text `parent` with each match of `replace`, in any case, turned
/// into the hidden part of a cloze card; `None` where `replace` does not
/// compile as a pattern.
pub fn rep(parent: &str, replace: &str) -> (r: Option<String>)
    ensures
        opt_view(r) == regex_replace_of(any_case(replace@), parent@, cloze_mark(replace@)),
{
    proof {
        reveal_strlit("(?i)");
        reveal_strlit("{{c1::");
        reveal_strlit("}}");
    }
    let mut pattern = String::new();
    append_str(&mut pattern, "(?i)");
    append_str(&mut pattern, replace);
    assert(pattern@ =~= any_case(replace@));
    let mut mark = String::new();
    append_str(&mut mark, "{{c1::");
    append_str(&mut mark, replace);
    append_str(&mut mark, "}}");
    assert(mark@ =~= cloze_mark(replace@));
    regex_replace_all(pattern.as_str(), parent, mark.as_str())
}

/// The texts of a card, by layout.
#[derive(Debug)]
pub enum Fields {
    Basic { front: String, back: String },
    Cloze { text: String, back_extra: String },
}

pub enum FieldsView {
    Basic { front: Seq<char>, back: Seq<char> },
    Cloze { text: Seq<char>, back_extra: Seq<char> },
}

impl View for Fields {
    type V = FieldsView;

    open spec fn view(&self) -> FieldsView {
        match self {
            Fields::Basic { front, back } => FieldsView::Basic { front: front@, back: back@ },
            Fields::Cloze { text, back_extra } => FieldsView::Cloze {
                text: text@,
                back_extra: back_extra@,
            },
        }
    }
}

/// A card ready to be sent: its deck, its note model, its texts and tags.
#[derive(Debug)]
pub struct Note {
    pub deck_name: String,
    pub model_name: String,
    pub fields: Fields,
    pub tags: Vec<String>,
}

pub struct NoteView {
    pub deck_name: Seq<char>,
    pub model_name: Seq<char>,
    pub fields: FieldsView,
    pub tags: Seq<Seq<char>>,
}

impl View for Note {
    type V = NoteView;

    open spec fn view(&self) -> NoteView {
        NoteView {
            deck_name: self.deck_name@,
            model_name: self.model_name@,
            fields: self.fields@,
            tags: self.tags@.map_values(|t: String| t@),
        }
    }
}

/// The separator between word and reading on the back of a basic card.
pub open spec fn line_break() -> Seq<char> {
    seq!['<', 'b', 'r', '>']
}

/// The card that the state `st` makes in layout `t`; `None` where the word
/// does not compile as a pattern for a cloze card.
pub open spec fn note_of(st: StateView, t: NoteType) -> Option<NoteView> {
    let deck = seq!['m', 'i', 's', 'c'];
    let tags = seq![seq!['b', 'o', 'o', 'k']];
    match t {
        NoteType::Basic => Some(
            NoteView {
                deck_name: deck,
                model_name: seq!['b', 'a', 's', 'i', 'c'],
                fields: FieldsView::Basic {
                    front: st.meaning,
                    back: st.word + line_break() + st.reading + paragraph_break() + seq!['$']
                        + st.example,
                },
                tags,
            },
        ),
        NoteType::Cloze => match regex_replace_of(
            any_case(st.word),
            st.example,
            cloze_mark(st.word),
        ) {
            Some(c) => Some(
                NoteView {
                    deck_name: deck,
                    model_name: seq!['C', 'l', 'o', 'z', 'e'],
                    fields: FieldsView::Cloze {
                        text: st.meaning + paragraph_break() + c,
                        back_extra: st.reading,
                    },
                    tags,
                },
            ),
            None => None,
        },
    }
}

/// The note view of a card that may be absent.
pub open spec fn opt_note_view(r: Option<Note>) -> Option<NoteView> {
    match r {
        Some(n) => Some(n@),
        None => None,
    }
}

fn book_tags() -> (r: Vec<String>)
    ensures
        r@.map_values(|t: String| t@) == seq![seq!['b', 'o', 'o', 'k']],
{
    proof {
        reveal_strlit("book");
    }
    let b = "book".to_owned();
    assert(b@ =~= seq!['b', 'o', 'o', 'k']);
    let mut r: Vec<String> = Vec::new();
    r.push(b);
    assert(r@.map_values(|t: String| t@) =~= seq![seq!['b', 'o', 'o', 'k']]);
    r
}

/// The card that `state` makes in layout `t`.
pub fn note_for(state: &State, t: NoteType) -> (r: Option<Note>)
    ensures
        opt_note_view(r) == note_of(state@, t),
{
    proof {
        reveal_strlit("misc");
        reveal_strlit("basic");
        reveal_strlit("Cloze");
        reveal_strlit("<br>");
        reveal_strlit("<br><br>");
        reveal_strlit("<br><br>$");
    }
    match t {
        NoteType::Basic => {
            let mut back = String::new();
            append_str(&mut back, state.word.as_str());
            append_str(&mut back, "<br>");
            append_str(&mut back, state.reading.as_str());
            assert("<br>"@ =~= line_break());
            append_str(&mut back, "<br><br>$");
            assert("<br><br>$"@ =~= paragraph_break() + seq!['$']);
            append_str(&mut back, state.example.as_str());
            assert(back@ =~= state.word@ + line_break() + state.reading@ + paragraph_break()
                + seq!['$'] + state.example@);
            let deck_name = "misc".to_owned();
            let model_name = "basic".to_owned();
            assert(deck_name@ =~= seq!['m', 'i', 's', 'c']);
            assert(model_name@ =~= seq!['b', 'a', 's', 'i', 'c']);
            let n = Note {
                deck_name,
                model_name,
                fields: Fields::Basic { front: state.meaning.clone(), back },
                tags: book_tags(),
            };
            Some(n)
        },
        NoteType::Cloze => match rep(state.example.as_str(), state.word.as_str()) {
            Some(c) => {
                let mut text = String::new();
                append_str(&mut text, state.meaning.as_str());
                append_str(&mut text, "<br><br>");
                assert("<br><br>"@ =~= paragraph_break());
                append_str(&mut text, c.as_str());
                assert(text@ =~= state.meaning@ + paragraph_break() + c@);
                let deck_name = "misc".to_owned();
                let model_name = "Cloze".to_owned();
                assert(deck_name@ =~= seq!['m', 'i', 's', 'c']);
                assert(model_name@ =~= seq!['C', 'l', 'o', 'z', 'e']);
                let n = Note {
                    deck_name,
                    model_name,
                    fields: Fields::Cloze { text, back_extra: state.reading.clone() },
                    tags: book_tags(),
                };
                Some(n)
            },
            None => None,
        },
    }
}

/// The markup that shows the image stored as `file_name`.
pub open spec fn image_tag_spec(file_name: Seq<char>) -> Seq<char> {
    seq!['<', 'i', 'm', 'g', ' ', 's', 'r', 'c', '=', '"'] + file_name + seq!['"', '>']
}

/// The markup that shows the image stored as `file_name`.
pub fn image_tag(file_name: &str) -> (r: String)
    ensures
        r@ == image_tag_spec(file_name@),
{
    proof {
        reveal_strlit("<img src=\"");
        reveal_strlit("\">");
    }
    let mut r = String::new();
    append_str(&mut r, "<img src=\"");
    append_str(&mut r, file_name);
    append_str(&mut r, "\">");
    assert(r@ =~= image_tag_spec(file_name@));
    r
}

/// What the command line asks for.
#[derive(Clone, Copy, Debug, PartialEq, Eq, Structural)]
pub enum Action {
    Reset,
    Undo,
    Data,
    Add(NoteType),
    Copy,
    Complete,
}

/// Why a card could not be made.
#[derive(Clone, Copy, Debug, PartialEq, Eq, Structural)]
pub enum CardError {
    /// The word does not compile as a pattern, so no cloze can be made.
    InvalidPattern,
}

/// The state after undoing one step of `st`: the slot of the current step
/// is cleared and the step goes back by one, stopping at 0.
pub open spec fn undone(st: StateView) -> StateView {
    let cleared = with_slot(st, progress_order(st.progress), Seq::empty());
    StateView { progress: if st.progress > 0 { st.progress - 1 } else { 0 }, ..cleared }
}

/// The text that the current step of `st` stores for the copied text `s`:
/// an example is formatted, the other slots take it as it is.
pub open spec fn slot_text(st: StateView, s: Seq<char>) -> Seq<char> {
    if progress_order(st.progress) == Progress::Example {
        example_text(s)
    } else {
        s
    }
}

/// `st` with the current step's slot filled from `s`.
pub open spec fn filled(st: StateView, s: Seq<char>) -> StateView {
    with_slot(st, progress_order(st.progress), slot_text(st, s))
}

/// A card builder: the state of the card that the copies fill in turn.
pub struct Program {
    pub state: State,
}

impl Program {
    /// The builder's state is well formed.
    pub open spec fn wf(&self) -> bool {
        self.state.wf()
    }

    /// A builder that goes on from `state`.
    pub fn new(state: State) -> (r: Program)
        ensures
            r.state@ == state@,
    {
        Program { state }
    }

    /// Clears the slot of the current step and goes back one step.
    pub fn undo(&mut self)
        requires
            old(self).wf(),
        ensures
            final(self).wf(),
            final(self).state@ == undone(old(self).state@),
    {
        let p = progress_at(self.state.progress);
        self.state.set_slot(p, String::new());
        self.state.progress = if self.state.progress > 0 {
            self.state.progress - 1
        } else {
            0
        };
    }

    /// Drops all progress.
    pub fn reset(&mut self)
        ensures
            final(self).wf(),
            final(self).state@ == empty_state(),
    {
        self.state = State::empty();
    }

    /// Makes a card of layout `note_type` from the state and starts afresh;
    /// where no card can be made, nothing changes.
    fn send_card(&mut self, note_type: NoteType) -> (r: Result<Note, CardError>)
        ensures
            match note_of(old(self).state@, note_type) {
                Some(n) => {
                    &&& r is Ok
                    &&& r->Ok_0@ == n
                    &&& final(self).state@ == empty_state()
                    &&& final(self).wf()
                },
                None => {
                    &&& r == Err::<Note, CardError>(CardError::InvalidPattern)
                    &&& final(self).state@ == old(self).state@
                    &&& final(self).wf() == old(self).wf()
                },
            },
    {
        match note_for(&self.state, note_type) {
            Some(n) => {
                self.state = State::empty();
                Ok(n)
            },
            None => Err(CardError::InvalidPattern),
        }
    }

    /// Fills the current step's slot from the copied text `s`. After the
    /// last step the card of layout `note_type` is made and returned, and
    /// the state starts afresh; before it the step moves on. Where the card
    /// cannot be made, nothing changes.
    pub fn add(&mut self, note_type: NoteType, s: String) -> (r: Result<Option<Note>, CardError>)
        requires
            old(self).wf(),
        ensures
            final(self).wf(),
            old(self).state.progress == 3 ==> match note_of(
                filled(old(self).state@, s@),
                note_type,
            ) {
                Some(n) => {
                    &&& r is Ok
                    &&& r->Ok_0 is Some
                    &&& r->Ok_0->Some_0@ == n
                    &&& final(self).state@ == empty_state()
                },
                None => {
                    &&& r == Err::<Option<Note>, CardError>(CardError::InvalidPattern)
                    &&& final(self).state@ == old(self).state@
                },
            },
            old(self).state.progress != 3 ==> {
                &&& r is Ok
                &&& r->Ok_0 is None
                &&& final(self).state@ == StateView {
                    progress: old(self).state@.progress + 1,
                    ..filled(old(self).state@, s@)
                }
            },
    {
        let p = progress_at(self.state.progress);
        let v = if p == Progress::Example {
            format_example(s.as_str())
        } else {
            s
        };
        if self.state.progress == 3 {
            match note_for(&self.state.clone_with_slot(p, v), note_type) {
                Some(n) => {
                    self.state = State::empty();
                    Ok(Some(n))
                },
                None => Err(CardError::InvalidPattern),
            }
        } else {
            self.state.set_slot(p, v);
            self.state.progress = self.state.progress + 1;
            Ok(None)
        }
    }

    /// Makes a cloze card from the state as it stands and starts afresh;
    /// where the card cannot be made, nothing changes.
    pub fn complete(&mut self) -> (r: Result<Note, CardError>)
        ensures
            old(self).wf() ==> final(self).wf(),
            match note_of(old(self).state@, NoteType::Cloze) {
                Some(n) => {
                    &&& r is Ok
                    &&& r->Ok_0@ == n
                    &&& final(self).state@ == empty_state()
                    &&& final(self).wf()
                },
                None => {
                    &&& r == Err::<Note, CardError>(CardError::InvalidPattern)
                    &&& final(self).state@ == old(self).state@
                },
            },
    {
        self.send_card(NoteType::Cloze)
    }
}

} // verus!
