use vstd::prelude::*;
use vstd::string::StrSliceExecFns;

verus! {

/// One stored note. The service guarantees that at creation neither field is
/// empty or made of white space only; updates overwrite both fields at once.
pub struct Note {
    pub title: String,
    pub content: String,
}

/// The mathematical value of a note: both texts as character sequences.
pub struct NoteView {
    pub title: Seq<char>,
    pub content: Seq<char>,
}

impl View for Note {
    type V = NoteView;

    open spec fn view(&self) -> NoteView {
        NoteView { title: self.title@, content: self.content@ }
    }
}

impl Note {
    pub fn new(title: String, content: String) -> (r: Note)
        ensures
            r@.title == title@,
            r@.content == content@,
    {
        Note { title, content }
    }

    /// An identical copy of this note.
    pub fn duplicate(&self) -> (r: Note)
        ensures
            r@ == self@,
    {
        Note { title: self.title.clone(), content: self.content.clone() }
    }
}

/// The characters the platform's text handling counts as white space.
pub open spec fn is_space_char(c: char) -> bool {
    ||| c == '\u{09}'
    ||| c == '\u{0a}'
    ||| c == '\u{0b}'
    ||| c == '\u{0c}'
    ||| c == '\u{0d}'
    ||| c == ' '
    ||| c == '\u{85}'
    ||| c == '\u{a0}'
    ||| c == '\u{1680}'
    ||| c == '\u{2000}'
    ||| c == '\u{2001}'
    ||| c == '\u{2002}'
    ||| c == '\u{2003}'
    ||| c == '\u{2004}'
    ||| c == '\u{2005}'
    ||| c == '\u{2006}'
    ||| c == '\u{2007}'
    ||| c == '\u{2008}'
    ||| c == '\u{2009}'
    ||| c == '\u{200a}'
    ||| c == '\u{2028}'
    ||| c == '\u{2029}'
    ||| c == '\u{202f}'
    ||| c == '\u{205f}'
    ||| c == '\u{3000}'
}

/// A text is blank when it is empty or every character is white space:
/// exactly the texts the service rejects at note creation.
pub open spec fn blank(s: Seq<char>) -> bool {
    forall|i: int| 0 <= i < s.len() ==> is_space_char(s[i])
}

/// A note value is valid when neither field is blank.
pub open spec fn valid_note(n: NoteView) -> bool {
    !blank(n.title) && !blank(n.content)
}

/// Whether one character counts as white space.
pub fn char_is_space(c: char) -> (r: bool)
    ensures
        r == is_space_char(c),
{
    c == '\u{09}' || c == '\u{0a}' || c == '\u{0b}' || c == '\u{0c}' || c == '\u{0d}' || c == ' '
        || c == '\u{85}' || c == '\u{a0}' || c == '\u{1680}' || c == '\u{2000}' || c == '\u{2001}'
        || c == '\u{2002}' || c == '\u{2003}' || c == '\u{2004}' || c == '\u{2005}'
        || c == '\u{2006}' || c == '\u{2007}' || c == '\u{2008}' || c == '\u{2009}'
        || c == '\u{200a}' || c == '\u{2028}' || c == '\u{2029}' || c == '\u{202f}'
        || c == '\u{205f}' || c == '\u{3000}'
}

/// Whether a text is blank, i.e. rejected by note validation.
pub fn is_blank(s: &str) -> (r: bool)
    ensures
        r == blank(s@),
{
    let n = s.unicode_len();
    for i in 0..n
        invariant
            n == s@.len(),
            forall|j: int| 0 <= j < i ==> is_space_char(s@[j]),
    {
        if !char_is_space(s.get_char(i)) {
            return false;
        }
    }
    true
}

/// Whether a note may be created: neither field blank.
pub fn check_note_valid(n: &Note) -> (r: bool)
    ensures
        r == valid_note(n@),
{
    !is_blank(n.title.as_str()) && !is_blank(n.content.as_str())
}

} // verus!
