use crate::error::{EngineError, InvalidCell};
use vstd::prelude::*;
use vstd::string::StringExecFns;

verus! {

/// The number of extended grapheme clusters that Unicode text segmentation
/// finds in `text`.
pub uninterp spec fn grapheme_clusters(text: Seq<char>) -> nat;

/// The number of user-perceived characters in `text`: nothing in the empty
/// text, one in a single code point, and whatever segmentation finds in
/// anything longer.
pub open spec fn grapheme_count(text: Seq<char>) -> nat {
    if text.len() <= 1 {
        text.len()
    } else {
        grapheme_clusters(text)
    }
}

/// The text of a blank cell: a single space.
pub open spec fn blank_text() -> Seq<char> {
    seq![' ']
}

/// Whether `text` can be the content of a cell.
pub open spec fn is_cell_text(text: Seq<char>) -> bool {
    grapheme_count(text) == 1
}

/// What a cell built from `text` holds, if one can be built.
pub open spec fn cell_text(text: Seq<char>) -> Option<Seq<char>> {
    if text.len() == 0 {
        Some(blank_text())
    } else if is_cell_text(text) {
        Some(text)
    } else {
        None
    }
}

/// Text that is exactly one grapheme cluster makes a cell that holds, and
/// so displays, exactly that text.
pub proof fn lemma_one_cluster_is_kept(text: Seq<char>)
    requires
        grapheme_count(text) == 1,
    ensures
        cell_text(text) == Some(text),
{
}

/// Empty text makes the blank cell, and text of two or more grapheme
/// clusters makes no cell.
pub proof fn lemma_empty_is_blank_and_more_is_refused(text: Seq<char>)
    ensures
        text.len() == 0 ==> cell_text(text) == Some(blank_text()),
        grapheme_count(text) >= 2 ==> cell_text(text) is None,
        cell_text(text) matches Some(held) ==> is_cell_text(held),
{
}

/// Counts grapheme clusters with `unicode_segmentation`'s
/// `UnicodeSegmentation::graphemes(text, true)`.
///
/// Trusted: the count is the one named by [`grapheme_clusters`]; it equals
/// the number of code points when there are fewer than two, and text that
/// is not empty has at least one cluster.
#[verifier::external_body]
fn count_graphemes(text: &str) -> (n: usize)
    ensures
        n == grapheme_clusters(text@),
        text@.len() <= 1 ==> n == text@.len(),
        text@.len() >= 2 ==> n >= 1,
{
    unicode_segmentation::UnicodeSegmentation::graphemes(text, true).count()
}

/// Builds the one-code-point string with std's `String::from(char)`.
///
/// Trusted: the string holds exactly `c`.
#[verifier::external_body]
fn string_of_char(c: char) -> (s: String)
    ensures
        s@ == seq![c],
{
    String::from(c)
}

/// One displayable unit of a grid: exactly one grapheme cluster, or a
/// single space for a blank cell. A cell is never changed, only replaced.
#[derive(Debug)]
pub struct Char {
    val: String,
}

impl View for Char {
    type V = Seq<char>;

    closed spec fn view(&self) -> Seq<char> {
        self.val@
    }
}

impl Char {
    /// Every cell holds exactly one grapheme cluster.
    #[verifier::type_invariant]
    pub open spec fn wf(self) -> bool {
        is_cell_text(self@)
    }

    /// Makes a cell from `val`: the text itself if it is one grapheme
    /// cluster, a blank cell if it is empty, an error otherwise.
    pub fn new(val: String) -> (r: Result<Char, EngineError>)
        ensures
            match r {
                Ok(cell) => cell_text(val@) == Some(cell@),
                Err(EngineError::Construction(refused)) => cell_text(val@) is None && refused.text@
                    == val@,
                Err(_) => false,
            },
    {
        let clusters = count_graphemes(val.as_str());
        Char::from_counted(val, clusters)
    }

    /// Makes a cell from `val`, given the number of grapheme clusters in it.
    pub fn from_counted(val: String, clusters: usize) -> (r: Result<Char, EngineError>)
        requires
            clusters == grapheme_count(val@),
        ensures
            clusters == 1 ==> (r matches Ok(cell) && cell@ == val@),
            clusters == 0 ==> (r matches Ok(cell) && cell@ == blank_text()),
            clusters >= 2 ==> (r matches Err(EngineError::Construction(refused)) && refused.text@
                == val@),
    {
        if clusters == 1 {
            Ok(Char { val })
        } else if clusters == 0 {
            Ok(Char::default())
        } else {
            Err(EngineError::Construction(InvalidCell { text: val }))
        }
    }

    /// The stored text.
    pub fn text(&self) -> (s: &str)
        ensures
            s@ == self@,
    {
        self.val.as_str()
    }

    /// The stored text, as an owned string. This is how a cell displays.
    pub fn to_string(&self) -> (s: String)
        ensures
            s@ == self@,
    {
        self.val.clone()
    }

    /// Whether this is the blank cell.
    pub fn is_blank(&self) -> (b: bool)
        ensures
            b == (self@ == blank_text()),
    {
        proof {
            reveal_strlit(" ");
            assert(" "@ =~= blank_text());
        }
        let blank = String::from_str(" ");
        self.val == blank
    }
}

impl Clone for Char {
    fn clone(&self) -> (r: Char)
        ensures
            r@ == self@,
    {
        proof {
            use_type_invariant(self);
        }
        Char { val: self.val.clone() }
    }
}

impl PartialEq for Char {
    fn eq(&self, other: &Char) -> (r: bool) {
        self.val == other.val
    }
}

impl vstd::std_specs::cmp::PartialEqSpecImpl for Char {
    open spec fn obeys_eq_spec() -> bool {
        true
    }

    open spec fn eq_spec(&self, other: &Char) -> bool {
        self@ == other@
    }
}

impl Default for Char {
    /// The blank cell.
    fn default() -> (r: Char)
        ensures
            r@ == blank_text(),
    {
        proof {
            reveal_strlit(" ");
            assert(" "@ =~= blank_text());
        }
        Char { val: String::from_str(" ") }
    }
}

impl vstd::std_specs::convert::FromSpecImpl<char> for Char {
    /// The conversion is specified by the postcondition of `from`, over the
    /// text of the cell.
    open spec fn obeys_from_spec() -> bool {
        false
    }

    open spec fn from_spec(c: char) -> Char {
        arbitrary()
    }
}

impl From<char> for Char {
    /// The cell that shows `c`. A single code point is always one cluster.
    fn from(c: char) -> (r: Char)
        ensures
            r@ == seq![c],
    {
        match Char::new(string_of_char(c)) {
            Ok(cell) => cell,
            Err(_) => Char::default(),
        }
    }
}

} // verus!
