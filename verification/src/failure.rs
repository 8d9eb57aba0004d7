//! What went wrong: failures with their context, and errors of input and output.

use crate::text::{contains_text, occurs_at, occurs_in, texts};
use vstd::prelude::*;

verus! {

/// A failure: the messages from the outermost context down to the cause.
#[derive(Debug)]
pub struct Failure {
    /// The messages, outermost first.
    pub chain: Vec<String>,
}

impl View for Failure {
    type V = Seq<Seq<char>>;

    open spec fn view(&self) -> Seq<Seq<char>> {
        texts(self.chain@)
    }
}

/// `chain` on one line: its messages, outermost first, with a colon and a space between them.
pub open spec fn one_line(chain: Seq<Seq<char>>) -> Seq<char>
    decreases chain.len(),
{
    if chain.len() == 0 {
        Seq::empty()
    } else if chain.len() == 1 {
        chain[0]
    } else {
        chain[0] + ": "@ + one_line(chain.drop_first())
    }
}

/// The outermost message of `chain`.
pub open spec fn outermost(chain: Seq<Seq<char>>) -> Seq<char> {
    if chain.len() == 0 {
        Seq::empty()
    } else {
        chain[0]
    }
}

impl Failure {
    /// A failure with a single message.
    pub fn message(text: String) -> (failure: Failure)
        ensures
            failure@ == seq![text@],
    {
        let mut chain: Vec<String> = Vec::new();
        chain.push(text);
        let failure = Failure { chain };
        assert(failure@ == seq![text@]);
        failure
    }

    /// The same failure, seen from the context `text`.
    pub fn context(self, text: String) -> (failure: Failure)
        ensures
            failure@ == seq![text@] + self@,
    {
        let mut chain: Vec<String> = self.chain;
        chain.insert(0, text);
        let failure = Failure { chain };
        assert(failure@ == seq![text@] + self@);
        failure
    }

    /// The outermost message.
    pub fn headline(&self) -> (text: String)
        ensures
            text@ == outermost(self@),
    {
        if self.chain.len() == 0 {
            String::new()
        } else {
            self.chain[0].clone()
        }
    }

    /// The failure on one line.
    pub fn to_line(&self) -> (line: String)
        ensures
            line@ == one_line(self@),
    {
        if self.chain.len() == 0 {
            return String::new();
        }
        let mut at: usize = self.chain.len() - 1;
        let mut line: String = self.chain[at].clone();
        assert(self@.skip(at as int) == seq![self@[at as int]]);
        while at > 0
            invariant
                at < self.chain.len(),
                line@ == one_line(self@.skip(at as int)),
            decreases at,
        {
            at -= 1;
            let ghost rest = line@;
            line = self.chain[at].clone().concat(": ").concat(line.as_str());
            assert(self@.skip(at as int).drop_first() == self@.skip(at as int + 1));
            assert(line@ == self@[at as int] + ": "@ + rest);
        }
        assert(self@.skip(0) == self@);
        line
    }
}

/// The kinds of input and output errors that are told apart.
#[derive(Clone, Copy, Debug, PartialEq, Eq, Structural)]
pub enum IoErrorKind {
    /// The operation would have had to wait.
    WouldBlock,
    /// The stream ended.
    UnexpectedEof,
    /// Any other kind.
    Other,
}

/// An error of an input or output operation.
#[derive(Debug)]
pub struct IoError {
    /// Its kind.
    pub kind: IoErrorKind,
    /// How it describes itself.
    pub message: String,
}

impl IoError {
    /// Whether the error says only that the operation would have had to wait: by its kind, or by
    /// one of the two phrases in which the libraries below report it.
    pub open spec fn would_block(self) -> bool {
        ||| self.kind == IoErrorKind::WouldBlock
        ||| occurs_in("Would block"@, self.message@)
        ||| occurs_in("TryAgain"@, self.message@)
    }

    /// Whether the error reports the end of the stream.
    pub open spec fn is_eof(self) -> bool {
        self.kind == IoErrorKind::UnexpectedEof && self.message@ == "EOF"@
    }
}

/// Tells whether `err` says only that the operation would have had to wait.
pub fn is_would_block(err: &IoError) -> (yes: bool)
    ensures
        yes == err.would_block(),
{
    if err.kind == IoErrorKind::WouldBlock {
        return true;
    }
    contains_text(err.message.as_str(), "Would block") || contains_text(
        err.message.as_str(),
        "TryAgain",
    )
}

/// A context stands before the failure that it is given to, with a colon and a space between them; a
/// failure with one message reads as that message, and its outermost message is the last context.
pub proof fn law_context_stands_in_front(context: Seq<char>, chain: Seq<Seq<char>>)
    ensures
        one_line(seq![context]) == context,
        chain.len() > 0 ==> one_line(seq![context] + chain) == context + ": "@ + one_line(chain),
        outermost(seq![context] + chain) == context,
{
    assert((seq![context] + chain).drop_first() =~= chain);
}

/// An error says that an operation would have had to wait exactly where it is of that kind, or where
/// one of the two phrases for it stands somewhere in its message.
pub proof fn law_would_block_by_kind_or_phrase(err: IoError, before: Seq<char>, after: Seq<char>)
    ensures
        err.kind == IoErrorKind::WouldBlock ==> err.would_block(),
        err.message@ == before + "Would block"@ + after ==> err.would_block(),
        err.message@ == before + "TryAgain"@ + after ==> err.would_block(),
        err.would_block() ==> {
            ||| err.kind == IoErrorKind::WouldBlock
            ||| exists|i: int|
                0 <= i && i + "Would block"@.len() <= err.message@.len()
                    && #[trigger] err.message@.subrange(i, i + "Would block"@.len())
                    == "Would block"@
            ||| exists|i: int|
                0 <= i && i + "TryAgain"@.len() <= err.message@.len()
                    && #[trigger] err.message@.subrange(i, i + "TryAgain"@.len()) == "TryAgain"@
        },
{
    let at = before.len() as int;
    if err.message@ == before + "Would block"@ + after {
        assert(err.message@.subrange(at, at + "Would block"@.len()) =~= "Would block"@);
        assert(occurs_at("Would block"@, err.message@, at));
    }
    if err.message@ == before + "TryAgain"@ + after {
        assert(err.message@.subrange(at, at + "TryAgain"@.len()) =~= "TryAgain"@);
        assert(occurs_at("TryAgain"@, err.message@, at));
    }
    if err.would_block() && err.kind != IoErrorKind::WouldBlock {
        if occurs_in("Would block"@, err.message@) {
            let i = choose|i: int| #[trigger] occurs_at("Would block"@, err.message@, i);
            assert(err.message@.subrange(i, i + "Would block"@.len()) == "Would block"@);
        } else {
            let i = choose|i: int| #[trigger] occurs_at("TryAgain"@, err.message@, i);
            assert(err.message@.subrange(i, i + "TryAgain"@.len()) == "TryAgain"@);
        }
    }
}

} // verus!
