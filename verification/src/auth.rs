//! Who may address the relay.

use crate::text::contains_text;
use vstd::prelude::*;
use vstd::string::StrSliceExecFns;

verus! {

broadcast use vstd::string::group_string_axioms;

/// The pieces of a comma-separated list. Every comma ends one piece and
/// starts the next, so a text with `n` commas has `n + 1` pieces, empty ones
/// included.
pub open spec fn split_commas(text: Seq<char>) -> Seq<Seq<char>>
    decreases text.len(),
{
    if text.len() == 0 {
        seq![Seq::<char>::empty()]
    } else {
        let before = split_commas(text.drop_last());
        if text.last() == ',' {
            before.push(Seq::<char>::empty())
        } else {
            before.drop_last().push(before.last().push(text.last()))
        }
    }
}

/// Whether a sender is let through by a list of authorized identifiers: an
/// empty list restricts nobody, any other list admits its members only.
pub open spec fn permitted(members: Seq<Seq<char>>, sender: Seq<char>) -> bool {
    members.len() == 0 || members.contains(sender)
}

/// The participants allowed to address the relay. The empty set is the open
/// default: it allows everyone.
#[derive(Clone, Debug, PartialEq, Eq)]
pub struct AuthorizationSet {
    members: Vec<String>,
}

impl View for AuthorizationSet {
    type V = Seq<Seq<char>>;

    closed spec fn view(&self) -> Seq<Seq<char>> {
        self.members.deep_view()
    }
}

impl AuthorizationSet {
    /// The set that restricts nobody.
    pub fn unrestricted() -> (set: AuthorizationSet)
        ensures
            set@ == Seq::<Seq<char>>::empty(),
    {
        AuthorizationSet { members: Vec::new() }
    }

    /// The set of the given identifiers.
    pub fn from_members(members: Vec<String>) -> (set: AuthorizationSet)
        ensures
            set@ == members.deep_view(),
    {
        AuthorizationSet { members }
    }

    /// Reads a comma-separated list of identifiers. Nothing is trimmed and
    /// no piece is dropped: the empty text gives one empty identifier.
    pub fn parse(list: &str) -> (set: AuthorizationSet)
        ensures
            set@ == split_commas(list@),
    {
        let mut members: Vec<String> = Vec::new();
        let total = list.unicode_len();
        let mut start: usize = 0;
        let mut seen: usize = 0;
        assert(list@.subrange(0, 0) =~= Seq::<char>::empty());
        for c in chars: list.chars()
            invariant
                chars.seq() == list@,
                total == list@.len(),
                seen == chars.index(),
                start <= seen <= total,
                members.deep_view().push(list@.subrange(start as int, seen as int)) == split_commas(
                    list@.take(seen as int),
                ),
        {
            let ghost piece = list@.subrange(start as int, seen as int);
            assert(list@.take(seen + 1).drop_last() =~= list@.take(seen as int));
            if c == ',' {
                members.push(list.substring_char(start, seen).to_owned());
                start = seen + 1;
                assert(list@.subrange(start as int, seen + 1) =~= Seq::<char>::empty());
            } else {
                assert(list@.subrange(start as int, seen + 1) =~= piece.push(c));
            }
            seen = seen + 1;
        }
        assert(list@.take(seen as int) =~= list@);
        members.push(list.substring_char(start, seen).to_owned());
        AuthorizationSet { members }
    }

    /// Whether no sender is restricted.
    pub fn is_open(&self) -> (open: bool)
        ensures
            open == (self@.len() == 0),
    {
        self.members.len() == 0
    }

    /// Whether `sender` may address the relay.
    pub fn permits(&self, sender: &str) -> (allowed: bool)
        ensures
            allowed == permitted(self@, sender@),
    {
        self.members.len() == 0 || contains_text(&self.members, sender)
    }
}

/// The pieces of a list put together again, with a comma between each two.
pub open spec fn join_commas(pieces: Seq<Seq<char>>) -> Seq<char>
    decreases pieces.len(),
{
    if pieces.len() == 0 {
        Seq::empty()
    } else if pieces.len() == 1 {
        pieces[0]
    } else {
        join_commas(pieces.drop_last()) + seq![','] + pieces.last()
    }
}

/// Splitting loses nothing and leaves no comma behind: there is at least one
/// piece, no piece holds a comma, and the pieces joined by commas are the
/// text that was split.
pub proof fn lemma_split_commas_rejoins(text: Seq<char>)
    ensures
        split_commas(text).len() >= 1,
        forall|i: int|
            0 <= i < split_commas(text).len() ==> !(#[trigger] split_commas(text)[i]).contains(','),
        join_commas(split_commas(text)) == text,
    decreases text.len(),
{
    if text.len() > 0 {
        let before = split_commas(text.drop_last());
        let pieces = split_commas(text);
        lemma_split_commas_rejoins(text.drop_last());
        if text.last() == ',' {
            assert(pieces.drop_last() =~= before);
        } else {
            let grown = before.last().push(text.last());
            assert(pieces.drop_last() =~= before.drop_last());
            assert(!grown.contains(',')) by {
                if grown.contains(',') {
                    let k = choose|k: int| 0 <= k < grown.len() && grown[k] == ',';
                    assert(before.last()[k] == ',');
                }
            }
            if before.len() > 1 {
                assert(join_commas(pieces) =~= join_commas(before).push(text.last()));
            }
        }
    }
}

} // verus!
